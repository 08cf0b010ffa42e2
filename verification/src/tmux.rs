//! Command-executor adapter for the external terminal multiplexer: builds the
//! fixed argument grammar for each typed operation, invokes the multiplexer
//! binary, and parses its pipe-delimited listing output into typed records.
//! A listing is best-effort per line: a missing or malformed field defaults
//! to zero or to the empty string rather than failing the whole listing.

use vstd::prelude::*;
use vstd::string::*;
use crate::text::{
    concat_str, dec_str, parse_usize, parse_usize_spec, push_char, split_chars, split_str,
    trim_spec, trim_str, u64_to_string,
};

verus! {

/// One named session of the external multiplexer.
#[derive(Debug, Clone)]
pub struct TmuxSession {
    pub name: String,
    pub windows: usize,
    pub attached: bool,
    pub created: String,
}

/// One addressable pane within a session.
#[derive(Debug, Clone)]
pub struct TmuxPane {
    pub session: String,
    pub window: usize,
    pub pane: usize,
    pub width: usize,
    pub height: usize,
    pub current_command: String,
}

/// The views of a sequence of strings.
pub open spec fn views_of(v: Seq<String>) -> Seq<Seq<char>> {
    Seq::new(v.len(), |i: int| v[i]@)
}

/// The `k`-th piece, or the empty sequence when there are fewer pieces.
pub open spec fn field(parts: Seq<Seq<char>>, k: int) -> Seq<char> {
    if 0 <= k < parts.len() {
        parts[k]
    } else {
        Seq::empty()
    }
}

/// The pieces of `ls` that are non-empty, in order.
pub open spec fn drop_empty(ls: Seq<Seq<char>>) -> Seq<Seq<char>>
    decreases ls.len(),
{
    if ls.len() == 0 {
        Seq::empty()
    } else if ls[0].len() == 0 {
        drop_empty(ls.drop_first())
    } else {
        seq![ls[0]] + drop_empty(ls.drop_first())
    }
}

/// The non-empty lines of a captured output.
pub open spec fn nonempty_lines(raw: Seq<char>) -> Seq<Seq<char>> {
    drop_empty(split_chars(raw, '\n'))
}

/// How one listing line maps to a session record: four pipe-delimited fields,
/// a count read in decimal, and the attached flag compared against `1`.
pub open spec fn session_matches_line(s: TmuxSession, line: Seq<char>) -> bool {
    let parts = split_chars(line, '|');
    &&& s.name@ == field(parts, 0)
    &&& s.windows == parse_usize_spec(field(parts, 1))
    &&& s.attached == (field(parts, 2) == seq!['1'])
    &&& s.created@ == field(parts, 3)
}

/// How one listing line maps to a pane record: six pipe-delimited fields.
pub open spec fn pane_matches_line(p: TmuxPane, line: Seq<char>) -> bool {
    let parts = split_chars(line, '|');
    &&& p.session@ == field(parts, 0)
    &&& p.window == parse_usize_spec(field(parts, 1))
    &&& p.pane == parse_usize_spec(field(parts, 2))
    &&& p.width == parse_usize_spec(field(parts, 3))
    &&& p.height == parse_usize_spec(field(parts, 4))
    &&& p.current_command@ == field(parts, 5)
}

/// Holds when `v` is the parse of some captured listing output.
pub open spec fn is_session_listing(v: Seq<TmuxSession>) -> bool {
    exists|raw: Seq<char>| sessions_of(v, raw)
}

/// Holds when `v` is the parse of some captured pane listing output.
pub open spec fn is_pane_listing(v: Seq<TmuxPane>) -> bool {
    exists|raw: Seq<char>| panes_of(v, raw)
}

/// Holds when `v` is some reply with surrounding whitespace trimmed.
pub open spec fn is_trimmed_reply(v: Seq<char>) -> bool {
    exists|raw: Seq<char>| v == trim_spec(raw)
}

/// A whole parsed session listing: one record per non-empty line.
pub open spec fn sessions_of(v: Seq<TmuxSession>, raw: Seq<char>) -> bool {
    let lines = nonempty_lines(raw);
    v.len() == lines.len() && forall|i: int|
        0 <= i < v.len() ==> session_matches_line(#[trigger] v[i], lines[i])
}

/// A whole parsed pane listing: one record per non-empty line.
pub open spec fn panes_of(v: Seq<TmuxPane>, raw: Seq<char>) -> bool {
    let lines = nonempty_lines(raw);
    v.len() == lines.len() && forall|i: int|
        0 <= i < v.len() ==> pane_matches_line(#[trigger] v[i], lines[i])
}

/// The `k`-th piece of `parts`, or an empty string.
fn nth_or_empty(parts: &Vec<String>, k: usize) -> (r: String)
    ensures
        r@ == field(views_of(parts@), k as int),
{
    if k < parts.len() {
        parts[k].clone()
    } else {
        String::new()
    }
}

/// Parses one session listing line.
pub fn parse_session_line(line: &str) -> (s: TmuxSession)
    ensures
        session_matches_line(s, line@),
{
    let parts = split_str(line, '|');
    proof {
        assert(views_of(parts@) =~= split_chars(line@, '|'));
    }
    let attached_field = nth_or_empty(&parts, 2);
    let one: String = u64_to_string(1);
    proof {
        assert(dec_str(1nat) =~= seq!['1']);
    }
    TmuxSession {
        name: nth_or_empty(&parts, 0),
        windows: parse_usize(nth_or_empty(&parts, 1).as_str()),
        attached: attached_field == one,
        created: nth_or_empty(&parts, 3),
    }
}

/// Parses one pane listing line.
pub fn parse_pane_line(line: &str) -> (p: TmuxPane)
    ensures
        pane_matches_line(p, line@),
{
    let parts = split_str(line, '|');
    proof {
        assert(views_of(parts@) =~= split_chars(line@, '|'));
    }
    TmuxPane {
        session: nth_or_empty(&parts, 0),
        window: parse_usize(nth_or_empty(&parts, 1).as_str()),
        pane: parse_usize(nth_or_empty(&parts, 2).as_str()),
        width: parse_usize(nth_or_empty(&parts, 3).as_str()),
        height: parse_usize(nth_or_empty(&parts, 4).as_str()),
        current_command: nth_or_empty(&parts, 5),
    }
}

/// Parses a whole session listing: the non-empty lines, each split on the
/// field delimiter.
pub fn parse_sessions(raw: &str) -> (v: Vec<TmuxSession>)
    ensures
        sessions_of(v@, raw@),
{
    let lines = split_str(raw, '\n');
    let ghost all = views_of(lines@);
    let ghost de = drop_empty(all);
    let mut v: Vec<TmuxSession> = Vec::new();
    let mut j: usize = 0;
    proof {
        assert(all.subrange(0, all.len() as int) =~= all);
        assert(de.subrange(0, de.len() as int) =~= de);
    }
    while j < lines.len()
        invariant
            all == views_of(lines@),
            de == drop_empty(all),
            j <= lines@.len(),
            v@.len() + drop_empty(all.subrange(j as int, all.len() as int)).len() == de.len(),
            de.subrange(v@.len() as int, de.len() as int) == drop_empty(
                all.subrange(j as int, all.len() as int),
            ),
            forall|i: int|
                0 <= i < v@.len() ==> session_matches_line(#[trigger] v@[i], de[i]),
        decreases lines@.len() - j,
    {
        let ghost rest = all.subrange(j as int, all.len() as int);
        proof {
            assert(rest.len() > 0);
            assert(rest[0] == all[j as int]);
            assert(rest.drop_first() =~= all.subrange(j + 1 as int, all.len() as int));
        }
        let line = &lines[j];
        if line.as_str().unicode_len() > 0 {
            proof {
                assert(drop_empty(rest) == seq![rest[0]] + drop_empty(rest.drop_first()));
                assert(drop_empty(rest).len() >= 1);
                assert(drop_empty(rest)[0] == rest[0]);
                assert(de.subrange(v@.len() as int, de.len() as int)[0] == de[v@.len() as int]);
                assert(de[v@.len() as int] == all[j as int]);
            }
            let s = parse_session_line(line.as_str());
            let ghost old_len = v@.len() as int;
            v.push(s);
            proof {
                assert(de.subrange(old_len + 1, de.len() as int) =~= de.subrange(
                    old_len,
                    de.len() as int,
                ).drop_first());
                assert((seq![rest[0]] + drop_empty(rest.drop_first())).drop_first() =~= drop_empty(
                    rest.drop_first(),
                ));
                assert(de.subrange(v@.len() as int, de.len() as int) == drop_empty(
                    all.subrange(j + 1 as int, all.len() as int),
                ));
            }
        } else {
            proof {
                assert(drop_empty(rest) == drop_empty(rest.drop_first()));
            }
        }
        j += 1;
    }
    proof {
        assert(all.subrange(lines@.len() as int, all.len() as int) =~= Seq::<Seq<char>>::empty());
        assert(drop_empty(Seq::<Seq<char>>::empty()) =~= Seq::<Seq<char>>::empty());
        assert(all =~= split_chars(raw@, '\n'));
        assert(nonempty_lines(raw@) == de);
    }
    v
}

/// Parses a whole pane listing.
pub fn parse_panes(raw: &str) -> (v: Vec<TmuxPane>)
    ensures
        panes_of(v@, raw@),
{
    let lines = split_str(raw, '\n');
    let ghost all = views_of(lines@);
    let ghost de = drop_empty(all);
    let mut v: Vec<TmuxPane> = Vec::new();
    let mut j: usize = 0;
    proof {
        assert(all.subrange(0, all.len() as int) =~= all);
        assert(de.subrange(0, de.len() as int) =~= de);
    }
    while j < lines.len()
        invariant
            all == views_of(lines@),
            de == drop_empty(all),
            j <= lines@.len(),
            v@.len() + drop_empty(all.subrange(j as int, all.len() as int)).len() == de.len(),
            de.subrange(v@.len() as int, de.len() as int) == drop_empty(
                all.subrange(j as int, all.len() as int),
            ),
            forall|i: int|
                0 <= i < v@.len() ==> pane_matches_line(#[trigger] v@[i], de[i]),
        decreases lines@.len() - j,
    {
        let ghost rest = all.subrange(j as int, all.len() as int);
        proof {
            assert(rest.len() > 0);
            assert(rest[0] == all[j as int]);
            assert(rest.drop_first() =~= all.subrange(j + 1 as int, all.len() as int));
        }
        let line = &lines[j];
        if line.as_str().unicode_len() > 0 {
            proof {
                assert(drop_empty(rest) == seq![rest[0]] + drop_empty(rest.drop_first()));
                assert(drop_empty(rest).len() >= 1);
                assert(drop_empty(rest)[0] == rest[0]);
                assert(de.subrange(v@.len() as int, de.len() as int)[0] == de[v@.len() as int]);
                assert(de[v@.len() as int] == all[j as int]);
            }
            let p = parse_pane_line(line.as_str());
            let ghost old_len = v@.len() as int;
            v.push(p);
            proof {
                assert(de.subrange(old_len + 1, de.len() as int) =~= de.subrange(
                    old_len,
                    de.len() as int,
                ).drop_first());
                assert((seq![rest[0]] + drop_empty(rest.drop_first())).drop_first() =~= drop_empty(
                    rest.drop_first(),
                ));
                assert(de.subrange(v@.len() as int, de.len() as int) == drop_empty(
                    all.subrange(j + 1 as int, all.len() as int),
                ));
            }
        } else {
            proof {
                assert(drop_empty(rest) == drop_empty(rest.drop_first()));
            }
        }
        j += 1;
    }
    proof {
        assert(all.subrange(lines@.len() as int, all.len() as int) =~= Seq::<Seq<char>>::empty());
        assert(drop_empty(Seq::<Seq<char>>::empty()) =~= Seq::<Seq<char>>::empty());
        assert(all =~= split_chars(raw@, '\n'));
        assert(nonempty_lines(raw@) == de);
    }
    v
}

#[verifier::external_type_specification]
#[verifier::external_body]
pub struct ExRuntime(tokio::runtime::Runtime);

/// Relies on tokio's runtime builder: builds a current-thread runtime able to
/// drive a process invocation to completion.
#[verifier::external_body]
fn build_runtime() -> (r: Result<tokio::runtime::Runtime, String>) {
    tokio::runtime::Builder::new_current_thread().enable_all().build().map_err(
        |e| format!("Failed to start runtime: {}", e),
    )
}

/// Relies on tokio::process::Command: invokes the `tmux` binary with the given
/// arguments, waits for it to exit, and returns its exit success flag together
/// with its captured stdout and stderr, both decoded lossily. The outcome
/// depends on the machine, so nothing is promised of it. `Runtime::block_on`
/// panics when called from within an async execution context, so callers must
/// stay on ordinary (or blocking-pool) threads.
#[verifier::external_body]
fn invoke_tmux(rt: &tokio::runtime::Runtime, args: &Vec<String>) -> (r: Result<
    (bool, String, String),
    String,
>) {
    let mut cmd = tokio::process::Command::new("tmux");
    cmd.args(args);
    let guard = rt.enter();
    let fut = cmd.output();
    drop(guard);
    match rt.block_on(fut) {
        Ok(out) => Ok(
            (
                out.status.success(),
                String::from_utf8_lossy(&out.stdout).to_string(),
                String::from_utf8_lossy(&out.stderr).to_string(),
            ),
        ),
        Err(e) => Err(format!("Failed to run tmux: {}", e)),
    }
}

/// The optional control-socket prefix of every invocation.
pub open spec fn socket_prefix(socket: Option<Seq<char>>) -> Seq<Seq<char>> {
    match socket {
        Some(s) => seq!["-S"@, s],
        None => Seq::empty(),
    }
}

pub open spec fn opt_view(s: Option<String>) -> Option<Seq<char>> {
    match s {
        Some(x) => Some(x@),
        None => None,
    }
}

/// The capture starting row: `lines` rows back, and 200 rows back when no
/// explicit bound is given.
pub open spec fn capture_start_spec(lines: Option<usize>) -> Seq<char> {
    match lines {
        Some(n) => seq!['-'] + dec_str(n as nat),
        None => seq!['-'] + dec_str(200),
    }
}

/// Renders the capture starting row argument.
pub fn capture_start_arg(lines: Option<usize>) -> (r: String)
    ensures
        r@ == capture_start_spec(lines),
{
    let n: u64 = match lines {
        Some(n) => n as u64,
        None => 200,
    };
    let mut start = String::new();
    push_char(&mut start, '-');
    start.append(u64_to_string(n).as_str());
    proof {
        assert(Seq::<char>::empty() + seq!['-'] + dec_str(n as nat) =~= seq!['-'] + dec_str(
            n as nat,
        ));
    }
    start
}

/// The fixed argument grammar, one list per operation, each behind the
/// socket prefix: the session listing with its pipe-delimited format.
pub open spec fn list_sessions_argv(socket: Option<Seq<char>>) -> Seq<Seq<char>> {
    socket_prefix(socket) + seq![
        "list-sessions"@,
        "-F"@,
        "#{session_name}|#{session_windows}|#{session_attached}|#{session_activity}"@,
    ]
}

/// The pane listing of one session across its windows, pipe-delimited.
pub open spec fn list_panes_argv(socket: Option<Seq<char>>, session: Seq<char>) -> Seq<Seq<char>> {
    socket_prefix(socket) + seq![
        "list-panes"@,
        "-s"@,
        "-t"@,
        session,
        "-F"@,
        "#{session_name}|#{window_index}|#{pane_index}|#{pane_width}|#{pane_height}|#{pane_current_command}"@,
    ]
}

/// The foreground-command query of one target.
pub open spec fn pane_command_argv(socket: Option<Seq<char>>, target: Seq<char>) -> Seq<Seq<char>> {
    socket_prefix(socket) + seq![
        "display-message"@,
        "-t"@,
        target,
        "-p"@,
        "#{pane_current_command}"@,
    ]
}

/// The capture of one target: to stdout, ANSI sequences preserved, wrapped
/// lines joined, from the given starting row back.
pub open spec fn capture_argv(
    socket: Option<Seq<char>>,
    target: Seq<char>,
    lines: Option<usize>,
) -> Seq<Seq<char>> {
    socket_prefix(socket) + seq![
        "capture-pane"@,
        "-t"@,
        target,
        "-p"@,
        "-e"@,
        "-J"@,
        "-S"@,
        capture_start_spec(lines),
    ]
}

/// One key send: the literal flag is present exactly when literal mode is
/// asked for, disabling the multiplexer's special-key name resolution, and
/// the keys are the final argument.
pub open spec fn send_keys_argv(
    socket: Option<Seq<char>>,
    target: Seq<char>,
    keys: Seq<char>,
    literal: bool,
) -> Seq<Seq<char>> {
    socket_prefix(socket) + seq!["send-keys"@, "-t"@, target] + (if literal {
        seq!["-l"@]
    } else {
        Seq::<Seq<char>>::empty()
    }) + seq![keys]
}

/// Creation of a named detached session.
pub open spec fn new_session_argv(socket: Option<Seq<char>>, name: Seq<char>) -> Seq<Seq<char>> {
    socket_prefix(socket) + seq!["new-session"@, "-d"@, "-s"@, name]
}

/// Destruction of a named session.
pub open spec fn kill_session_argv(socket: Option<Seq<char>>, name: Seq<char>) -> Seq<Seq<char>> {
    socket_prefix(socket) + seq!["kill-session"@, "-t"@, name]
}

/// The reachability probe: a bare session listing.
pub open spec fn server_probe_argv(socket: Option<Seq<char>>) -> Seq<Seq<char>> {
    socket_prefix(socket) + seq!["list-sessions"@]
}

/// Shapes one invocation's outcome: a successful exit yields the captured
/// stdout; a non-zero exit the internal diagnostic carrying the captured
/// stderr verbatim; a failure to invoke passes through as it came. No
/// outcome is retried.
pub fn shape_invocation(outcome: Result<(bool, String, String), String>) -> (r: Result<
    String,
    String,
>)
    ensures
        match outcome {
            Ok(o) => if o.0 {
                r == Ok::<String, String>(o.1)
            } else {
                r matches Err(e) && e@ == "tmux error: "@ + o.2@
            },
            Err(e) => r == Err::<String, String>(e),
        },
{
    match outcome {
        Ok((success, out, err)) => {
            if success {
                Ok(out)
            } else {
                Err(concat_str("tmux error: ", err.as_str()))
            }
        },
        Err(e) => Err(e),
    }
}

/// The adapter: invokes the multiplexer synchronously, optionally scoped to an
/// alternate control socket threaded in at construction. Each operation hands
/// the binary exactly the argument list its contracted builder fixes, and
/// shapes the outcome with `shape_invocation`.
pub struct TmuxExecutor {
    socket: Option<String>,
    rt: tokio::runtime::Runtime,
}

impl TmuxExecutor {
    /// The configured alternate control-socket path, if any.
    pub closed spec fn socket_spec(&self) -> Option<Seq<char>> {
        opt_view(self.socket)
    }

    /// Makes an adapter scoped to `socket` when one is given.
    pub fn new(socket: Option<String>) -> (r: Result<TmuxExecutor, String>)
        ensures
            r matches Ok(e) ==> e.socket_spec() == opt_view(socket),
    {
        match build_runtime() {
            Ok(rt) => Ok(TmuxExecutor { socket, rt }),
            Err(e) => Err(e),
        }
    }

    /// Replaces the configured control-socket path.
    pub fn set_socket(&mut self, socket: Option<String>)
        ensures
            final(self).socket_spec() == opt_view(socket),
    {
        self.socket = socket;
    }

    /// The configured control-socket path.
    pub fn get_socket(&self) -> (r: Option<String>)
        ensures
            opt_view(r) == self.socket_spec(),
    {
        match &self.socket {
            Some(s) => Some(s.clone()),
            None => None,
        }
    }

    /// The socket prefix as concrete arguments.
    fn prefix_args(&self) -> (args: Vec<String>)
        ensures
            views_of(args@) == socket_prefix(self.socket_spec()),
    {
        let mut args: Vec<String> = Vec::new();
        match &self.socket {
            Some(s) => {
                args.push("-S".to_owned());
                args.push(s.clone());
                proof {
                    assert(views_of(args@) =~= socket_prefix(self.socket_spec()));
                }
            },
            None => {
                proof {
                    assert(views_of(args@) =~= socket_prefix(self.socket_spec()));
                }
            },
        }
        args
    }

    /// Builds the session-listing invocation.
    pub fn list_sessions_args(&self) -> (args: Vec<String>)
        ensures
            views_of(args@) == list_sessions_argv(self.socket_spec()),
    {
        let mut args = self.prefix_args();
        args.push("list-sessions".to_owned());
        args.push("-F".to_owned());
        args.push(
            "#{session_name}|#{session_windows}|#{session_attached}|#{session_activity}".to_owned(),
        );
        proof {
            assert(views_of(args@) =~= list_sessions_argv(self.socket_spec()));
        }
        args
    }

    /// Builds the pane-listing invocation.
    pub fn list_panes_args(&self, session: &str) -> (args: Vec<String>)
        ensures
            views_of(args@) == list_panes_argv(self.socket_spec(), session@),
    {
        let mut args = self.prefix_args();
        args.push("list-panes".to_owned());
        args.push("-s".to_owned());
        args.push("-t".to_owned());
        args.push(session.to_owned());
        args.push("-F".to_owned());
        args.push(
            "#{session_name}|#{window_index}|#{pane_index}|#{pane_width}|#{pane_height}|#{pane_current_command}".to_owned(),
        );
        proof {
            assert(views_of(args@) =~= list_panes_argv(self.socket_spec(), session@));
        }
        args
    }

    /// Builds the foreground-command query.
    pub fn pane_command_args(&self, target: &str) -> (args: Vec<String>)
        ensures
            views_of(args@) == pane_command_argv(self.socket_spec(), target@),
    {
        let mut args = self.prefix_args();
        args.push("display-message".to_owned());
        args.push("-t".to_owned());
        args.push(target.to_owned());
        args.push("-p".to_owned());
        args.push("#{pane_current_command}".to_owned());
        proof {
            assert(views_of(args@) =~= pane_command_argv(self.socket_spec(), target@));
        }
        args
    }

    /// Builds the capture invocation.
    pub fn capture_args(&self, target: &str, lines: Option<usize>) -> (args: Vec<String>)
        ensures
            views_of(args@) == capture_argv(self.socket_spec(), target@, lines),
    {
        let start = capture_start_arg(lines);
        let mut args = self.prefix_args();
        args.push("capture-pane".to_owned());
        args.push("-t".to_owned());
        args.push(target.to_owned());
        args.push("-p".to_owned());
        args.push("-e".to_owned());
        args.push("-J".to_owned());
        args.push("-S".to_owned());
        args.push(start);
        proof {
            assert(views_of(args@) =~= capture_argv(self.socket_spec(), target@, lines));
        }
        args
    }

    /// Builds one key-send invocation, the literal flag exactly when asked.
    pub fn send_keys_args(&self, target: &str, keys: &str, literal: bool) -> (args: Vec<String>)
        ensures
            views_of(args@) == send_keys_argv(self.socket_spec(), target@, keys@, literal),
    {
        let mut args = self.prefix_args();
        args.push("send-keys".to_owned());
        args.push("-t".to_owned());
        args.push(target.to_owned());
        if literal {
            args.push("-l".to_owned());
        }
        args.push(keys.to_owned());
        proof {
            assert(views_of(args@) =~= send_keys_argv(
                self.socket_spec(),
                target@,
                keys@,
                literal,
            ));
        }
        args
    }

    /// Builds the session-creation invocation.
    pub fn new_session_args(&self, name: &str) -> (args: Vec<String>)
        ensures
            views_of(args@) == new_session_argv(self.socket_spec(), name@),
    {
        let mut args = self.prefix_args();
        args.push("new-session".to_owned());
        args.push("-d".to_owned());
        args.push("-s".to_owned());
        args.push(name.to_owned());
        proof {
            assert(views_of(args@) =~= new_session_argv(self.socket_spec(), name@));
        }
        args
    }

    /// Builds the session-destruction invocation.
    pub fn kill_session_args(&self, name: &str) -> (args: Vec<String>)
        ensures
            views_of(args@) == kill_session_argv(self.socket_spec(), name@),
    {
        let mut args = self.prefix_args();
        args.push("kill-session".to_owned());
        args.push("-t".to_owned());
        args.push(name.to_owned());
        proof {
            assert(views_of(args@) =~= kill_session_argv(self.socket_spec(), name@));
        }
        args
    }

    /// Builds the reachability probe.
    pub fn server_probe_args(&self) -> (args: Vec<String>)
        ensures
            views_of(args@) == server_probe_argv(self.socket_spec()),
    {
        let mut args = self.prefix_args();
        args.push("list-sessions".to_owned());
        proof {
            assert(views_of(args@) =~= server_probe_argv(self.socket_spec()));
        }
        args
    }

    /// Runs one multiplexer invocation and shapes its outcome; the adapter
    /// never retries.
    fn run_tmux(&self, args: Vec<String>) -> (r: Result<String, String>) {
        shape_invocation(invoke_tmux(&self.rt, &args))
    }

    /// Lists all sessions: one invocation with the argument list that
    /// `list_sessions_args` fixes. On success the records are the parsed
    /// non-empty lines of what the multiplexer printed.
    pub fn list_sessions(&self) -> (r: Result<Vec<TmuxSession>, String>)
        ensures
            r matches Ok(v) ==> is_session_listing(v@),
    {
        match self.run_tmux(self.list_sessions_args()) {
            Ok(raw) => {
                let v = parse_sessions(raw.as_str());
                proof {
                    assert(is_session_listing(v@)) by {
                        assert(sessions_of(v@, raw@));
                    }
                }
                Ok(v)
            },
            Err(e) => Err(e),
        }
    }

    /// Lists the panes of one session across its windows: one invocation with
    /// the argument list that `list_panes_args` fixes.
    pub fn list_panes(&self, session: &str) -> (r: Result<Vec<TmuxPane>, String>)
        ensures
            r matches Ok(v) ==> is_pane_listing(v@),
    {
        match self.run_tmux(self.list_panes_args(session)) {
            Ok(raw) => {
                let v = parse_panes(raw.as_str());
                proof {
                    assert(is_pane_listing(v@)) by {
                        assert(panes_of(v@, raw@));
                    }
                }
                Ok(v)
            },
            Err(e) => Err(e),
        }
    }

    /// The current foreground command of a pane: one invocation with the
    /// argument list that `pane_command_args` fixes, the reply trimmed of
    /// surrounding whitespace.
    pub fn pane_command(&self, target: &str) -> (r: Result<String, String>)
        ensures
            r matches Ok(v) ==> is_trimmed_reply(v@),
    {
        match self.run_tmux(self.pane_command_args(target)) {
            Ok(raw) => {
                let t = trim_str(raw.as_str());
                proof {
                    assert(is_trimmed_reply(t@)) by {
                        assert(t@ == trim_spec(raw@));
                    }
                }
                Ok(t)
            },
            Err(e) => Err(e),
        }
    }

    /// Captures a pane's content: one invocation with the argument list that
    /// `capture_args` fixes (ANSI sequences preserved, wrapped lines merged,
    /// 200 rows back when no bound is given); on success the captured stdout.
    pub fn capture_pane(&self, target: &str, lines: Option<usize>) -> (r: Result<String, String>) {
        self.run_tmux(self.capture_args(target, lines))
    }

    /// Sends a key sequence to a target: one invocation with the argument
    /// list that `send_keys_args` fixes, the literal flag exactly when
    /// literal mode is asked for.
    pub fn send_keys(&self, target: &str, keys: &str, literal: bool) -> (r: Result<(), String>) {
        match self.run_tmux(self.send_keys_args(target, keys, literal)) {
            Ok(_) => Ok(()),
            Err(e) => Err(e),
        }
    }

    /// Sends a command line as two key sends in order, never combined into
    /// one invocation: the literal text, then — only once that succeeded — a
    /// distinct non-literal Enter send. Nothing orders other traffic between
    /// the two invocations.
    pub fn send_command(&self, target: &str, command: &str) -> (r: Result<(), String>) {
        match self.send_keys(target, command, true) {
            Ok(_) => self.send_keys(target, "Enter", false),
            Err(e) => Err(e),
        }
    }

    /// Creates a new detached session: one invocation with the argument list
    /// that `new_session_args` fixes.
    pub fn new_session(&self, name: &str) -> (r: Result<(), String>) {
        match self.run_tmux(self.new_session_args(name)) {
            Ok(_) => Ok(()),
            Err(e) => Err(e),
        }
    }

    /// Kills the session with the given name: one invocation with the
    /// argument list that `kill_session_args` fixes.
    pub fn kill_session(&self, name: &str) -> (r: Result<(), String>) {
        match self.run_tmux(self.kill_session_args(name)) {
            Ok(_) => Ok(()),
            Err(e) => Err(e),
        }
    }

    /// Whether a multiplexer server is reachable: the probe that
    /// `server_probe_args` fixes, succeeded.
    pub fn is_server_running(&self) -> (r: bool) {
        self.run_tmux(self.server_probe_args()).is_ok()
    }
}

} // verus!
