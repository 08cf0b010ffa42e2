//! Serialization of outbound messages to their wire form: one JSON text per
//! message, with every string escaped, the correlation id first (null for
//! push notifications), and a success payload or a structured error object.

use vstd::prelude::*;
use vstd::string::*;
use crate::files::{FileEntry, FileStat};
use crate::protocol::{ErrorInfo, Notification, Outbound, Payload, Response};
use crate::text::{dec_str, i64_to_string, int_str, push_char, u64_to_string};
use crate::tmux::{TmuxPane, TmuxSession};

verus! {

pub open spec fn hex_digit(d: nat) -> char {
    if d == 0 {
        '0'
    } else if d == 1 {
        '1'
    } else if d == 2 {
        '2'
    } else if d == 3 {
        '3'
    } else if d == 4 {
        '4'
    } else if d == 5 {
        '5'
    } else if d == 6 {
        '6'
    } else if d == 7 {
        '7'
    } else if d == 8 {
        '8'
    } else if d == 9 {
        '9'
    } else if d == 10 {
        'a'
    } else if d == 11 {
        'b'
    } else if d == 12 {
        'c'
    } else if d == 13 {
        'd'
    } else if d == 14 {
        'e'
    } else {
        'f'
    }
}

/// How one character appears inside a JSON string: quotes and backslashes
/// escaped, the common control characters by their short escapes, the rest
/// of the control range in `\u00..` form, and everything else as itself.
pub open spec fn json_escape_char(c: char) -> Seq<char> {
    if c == '"' {
        seq!['\\', '"']
    } else if c == '\\' {
        seq!['\\', '\\']
    } else if c == '\n' {
        seq!['\\', 'n']
    } else if c == '\r' {
        seq!['\\', 'r']
    } else if c == '\t' {
        seq!['\\', 't']
    } else if (c as u32) < 32 {
        seq!['\\', 'u', '0', '0', hex_digit((c as u32 / 16) as nat), hex_digit(
            (c as u32 % 16) as nat,
        )]
    } else {
        seq![c]
    }
}

pub open spec fn json_escape(s: Seq<char>) -> Seq<char>
    decreases s.len(),
{
    if s.len() == 0 {
        Seq::empty()
    } else {
        json_escape(s.drop_last()) + json_escape_char(s.last())
    }
}

/// A quoted, escaped JSON string.
pub open spec fn json_string(s: Seq<char>) -> Seq<char> {
    seq!['"'] + json_escape(s) + seq!['"']
}

pub open spec fn bool_str(b: bool) -> Seq<char> {
    if b {
        "true"@
    } else {
        "false"@
    }
}

/// The id slot: the number, or `null` when there is none.
pub open spec fn id_json(id: Option<u64>) -> Seq<char> {
    match id {
        Some(n) => dec_str(n as nat),
        None => "null"@,
    }
}

pub open spec fn session_json(s: TmuxSession) -> Seq<char> {
    "{\"name\":"@ + json_string(s.name@) + ",\"windows\":"@ + dec_str(s.windows as nat)
        + ",\"attached\":"@ + bool_str(s.attached) + ",\"created\":"@ + json_string(s.created@)
        + "}"@
}

pub open spec fn sessions_items(v: Seq<TmuxSession>) -> Seq<char>
    decreases v.len(),
{
    if v.len() == 0 {
        Seq::empty()
    } else if v.len() == 1 {
        session_json(v[0])
    } else {
        sessions_items(v.drop_last()) + ","@ + session_json(v.last())
    }
}

pub open spec fn pane_json(p: TmuxPane) -> Seq<char> {
    "{\"session\":"@ + json_string(p.session@) + ",\"window\":"@ + dec_str(p.window as nat)
        + ",\"pane\":"@ + dec_str(p.pane as nat) + ",\"width\":"@ + dec_str(p.width as nat)
        + ",\"height\":"@ + dec_str(p.height as nat) + ",\"current_command\":"@ + json_string(
        p.current_command@,
    ) + "}"@
}

pub open spec fn panes_items(v: Seq<TmuxPane>) -> Seq<char>
    decreases v.len(),
{
    if v.len() == 0 {
        Seq::empty()
    } else if v.len() == 1 {
        pane_json(v[0])
    } else {
        panes_items(v.drop_last()) + ","@ + pane_json(v.last())
    }
}

pub open spec fn entry_json(e: FileEntry) -> Seq<char> {
    "{\"name\":"@ + json_string(e.name@) + ",\"path\":"@ + json_string(e.path@) + ",\"type\":"@
        + json_string(e.file_type@) + ",\"size\":"@ + dec_str(e.size as nat) + ",\"modified\":"@
        + dec_str(e.modified as nat) + ",\"permissions\":"@ + json_string(e.permissions@)
        + ",\"hidden\":"@ + bool_str(e.hidden) + "}"@
}

pub open spec fn entries_items(v: Seq<FileEntry>) -> Seq<char>
    decreases v.len(),
{
    if v.len() == 0 {
        Seq::empty()
    } else if v.len() == 1 {
        entry_json(v[0])
    } else {
        entries_items(v.drop_last()) + ","@ + entry_json(v.last())
    }
}

pub open spec fn stat_json(s: FileStat) -> Seq<char> {
    "{\"path\":"@ + json_string(s.path@) + ",\"name\":"@ + json_string(s.name@) + ",\"type\":"@
        + json_string(s.file_type@) + ",\"size\":"@ + dec_str(s.size as nat) + ",\"modified\":"@
        + dec_str(s.modified as nat) + ",\"permissions\":"@ + json_string(s.permissions@)
        + ",\"readable\":"@ + bool_str(s.readable) + ",\"writable\":"@ + bool_str(s.writable)
        + ",\"is_text\":"@ + bool_str(s.is_text) + ",\"mime_hint\":"@ + json_string(s.mime_hint@)
        + "}"@
}

pub open spec fn payload_json(p: Payload) -> Seq<char> {
    match p {
        Payload::OkFlag => "{\"ok\":true}"@,
        Payload::Authenticated => "{\"authenticated\":true}"@,
        Payload::Sessions(v) => "["@ + sessions_items(v@) + "]"@,
        Payload::Panes(v) => "["@ + panes_items(v@) + "]"@,
        Payload::Output(s) => "{\"output\":"@ + json_string(s@) + "}"@,
        Payload::PathValue(s) => "{\"path\":"@ + json_string(s@) + "}"@,
        Payload::Entries(v, path) => "{\"entries\":"@ + "["@ + entries_items(v@) + "]"@
            + ",\"path\":"@ + json_string(path@) + "}"@,
        Payload::Stat(st) => stat_json(st),
        Payload::Content(s) => "{\"content\":"@ + json_string(s@) + "}"@,
        Payload::Download(name, data) => "{\"name\":"@ + json_string(name@) + ",\"data\":"@
            + json_string(data@) + "}"@,
        Payload::Subscribed(t) => "{\"subscribed\":"@ + json_string(t@) + "}"@,
        Payload::Unsubscribed(t) => "{\"unsubscribed\":"@ + json_string(t@) + "}"@,
    }
}

pub open spec fn error_json(e: ErrorInfo) -> Seq<char> {
    "{\"code\":"@ + int_str(e.code as int) + ",\"message\":"@ + json_string(e.message@) + "}"@
}

/// A whole response: the echoed id, then the result or the error slot.
pub open spec fn response_json(r: Response) -> Seq<char> {
    "{\"id\":"@ + id_json(r.id) + (match r.result {
        Some(p) => ",\"result\":"@ + payload_json(p),
        None => Seq::<char>::empty(),
    }) + (match r.error {
        Some(e) => ",\"error\":"@ + error_json(e),
        None => Seq::<char>::empty(),
    }) + "}"@
}

/// A push notification: null id, the fixed method name, and the target and
/// content parameters.
pub open spec fn notification_json(n: Notification) -> Seq<char> {
    "{\"id\":null,\"method\":\"pane_output\",\"params\":{\"target\":"@ + json_string(n.target@)
        + ",\"content\":"@ + json_string(n.content@) + "}}"@
}

pub open spec fn outbound_json(o: Outbound) -> Seq<char> {
    match o {
        Outbound::Reply(r) => response_json(r),
        Outbound::Push(n) => notification_json(n),
    }
}

fn hex_digit_char(d: u32) -> (c: char)
    requires
        d < 16,
    ensures
        c == hex_digit(d as nat),
{
    match d {
        0 => '0',
        1 => '1',
        2 => '2',
        3 => '3',
        4 => '4',
        5 => '5',
        6 => '6',
        7 => '7',
        8 => '8',
        9 => '9',
        10 => 'a',
        11 => 'b',
        12 => 'c',
        13 => 'd',
        14 => 'e',
        _ => 'f',
    }
}

/// Appends the escaped form of `s`.
fn append_escaped(out: &mut String, s: &str)
    ensures
        final(out)@ == old(out)@ + json_escape(s@),
{
    let n = s.unicode_len();
    let mut i: usize = 0;
    proof {
        assert(s@.subrange(0, 0) =~= Seq::<char>::empty());
        assert(out@ + json_escape(s@.subrange(0, 0)) =~= out@);
    }
    while i < n
        invariant
            n == s@.len(),
            i <= n,
            out@ == old(out)@ + json_escape(s@.subrange(0, i as int)),
        decreases n - i,
    {
        let c = s.get_char(i);
        proof {
            assert(s@.subrange(0, i + 1 as int).drop_last() =~= s@.subrange(0, i as int));
            assert(s@.subrange(0, i + 1 as int).last() == s@[i as int]);
        }
        if c == '"' {
            push_char(out, '\\');
            push_char(out, '"');
        } else if c == '\\' {
            push_char(out, '\\');
            push_char(out, '\\');
        } else if c == '\n' {
            push_char(out, '\\');
            push_char(out, 'n');
        } else if c == '\r' {
            push_char(out, '\\');
            push_char(out, 'r');
        } else if c == '\t' {
            push_char(out, '\\');
            push_char(out, 't');
        } else if (c as u32) < 32 {
            let u = c as u32;
            push_char(out, '\\');
            push_char(out, 'u');
            push_char(out, '0');
            push_char(out, '0');
            push_char(out, hex_digit_char(u / 16));
            push_char(out, hex_digit_char(u % 16));
        } else {
            push_char(out, c);
        }
        proof {
            assert(out@ =~= old(out)@ + json_escape(s@.subrange(0, i + 1 as int)));
        }
        i += 1;
    }
    proof {
        assert(s@.subrange(0, n as int) =~= s@);
    }
}

/// Appends `s` quoted and escaped.
fn append_quoted(out: &mut String, s: &str)
    ensures
        final(out)@ == old(out)@ + json_string(s@),
{
    push_char(out, '"');
    append_escaped(out, s);
    push_char(out, '"');
    proof {
        assert(old(out)@ + seq!['"'] + json_escape(s@) + seq!['"'] =~= old(out)@ + json_string(
            s@,
        ));
    }
}

/// Appends a count in decimal.
fn append_u64(out: &mut String, n: u64)
    ensures
        final(out)@ == old(out)@ + dec_str(n as nat),
{
    let d = u64_to_string(n);
    out.append(d.as_str());
}

/// Appends the id slot.
fn append_id(out: &mut String, id: &Option<u64>)
    ensures
        final(out)@ == old(out)@ + id_json(*id),
{
    match id {
        Some(n) => append_u64(out, *n),
        None => out.append("null"),
    }
}

fn append_bool(out: &mut String, b: bool)
    ensures
        final(out)@ == old(out)@ + bool_str(b),
{
    if b {
        out.append("true");
    } else {
        out.append("false");
    }
}

fn append_session(out: &mut String, s: &TmuxSession)
    ensures
        final(out)@ == old(out)@ + session_json(*s),
{
    out.append("{\"name\":");
    append_quoted(out, s.name.as_str());
    out.append(",\"windows\":");
    append_u64(out, s.windows as u64);
    out.append(",\"attached\":");
    append_bool(out, s.attached);
    out.append(",\"created\":");
    append_quoted(out, s.created.as_str());
    out.append("}");
    proof {
        assert(out@ =~= old(out)@ + session_json(*s));
    }
}

fn append_sessions(out: &mut String, v: &Vec<TmuxSession>)
    ensures
        final(out)@ == old(out)@ + "["@ + sessions_items(v@) + "]"@,
{
    out.append("[");
    let n = v.len();
    let mut i: usize = 0;
    proof {
        assert(sessions_items(v@.subrange(0, 0)) =~= Seq::<char>::empty());
        assert(out@ =~= old(out)@ + "["@ + sessions_items(v@.subrange(0, 0)));
    }
    while i < n
        invariant
            n == v@.len(),
            i <= n,
            out@ == old(out)@ + "["@ + sessions_items(v@.subrange(0, i as int)),
        decreases n - i,
    {
        if i > 0 {
            out.append(",");
        }
        append_session(out, &v[i]);
        proof {
            assert(v@.subrange(0, i + 1 as int).drop_last() =~= v@.subrange(0, i as int));
            assert(v@.subrange(0, i + 1 as int).last() == v@[i as int]);
            assert(out@ =~= old(out)@ + "["@ + sessions_items(v@.subrange(0, i + 1 as int)));
        }
        i += 1;
    }
    proof {
        assert(v@.subrange(0, n as int) =~= v@);
    }
    out.append("]");
    proof {
        assert(out@ =~= old(out)@ + "["@ + sessions_items(v@) + "]"@);
    }
}

fn append_pane(out: &mut String, p: &TmuxPane)
    ensures
        final(out)@ == old(out)@ + pane_json(*p),
{
    out.append("{\"session\":");
    append_quoted(out, p.session.as_str());
    out.append(",\"window\":");
    append_u64(out, p.window as u64);
    out.append(",\"pane\":");
    append_u64(out, p.pane as u64);
    out.append(",\"width\":");
    append_u64(out, p.width as u64);
    out.append(",\"height\":");
    append_u64(out, p.height as u64);
    out.append(",\"current_command\":");
    append_quoted(out, p.current_command.as_str());
    out.append("}");
    proof {
        assert(out@ =~= old(out)@ + pane_json(*p));
    }
}

fn append_panes(out: &mut String, v: &Vec<TmuxPane>)
    ensures
        final(out)@ == old(out)@ + "["@ + panes_items(v@) + "]"@,
{
    out.append("[");
    let n = v.len();
    let mut i: usize = 0;
    proof {
        assert(panes_items(v@.subrange(0, 0)) =~= Seq::<char>::empty());
        assert(out@ =~= old(out)@ + "["@ + panes_items(v@.subrange(0, 0)));
    }
    while i < n
        invariant
            n == v@.len(),
            i <= n,
            out@ == old(out)@ + "["@ + panes_items(v@.subrange(0, i as int)),
        decreases n - i,
    {
        if i > 0 {
            out.append(",");
        }
        append_pane(out, &v[i]);
        proof {
            assert(v@.subrange(0, i + 1 as int).drop_last() =~= v@.subrange(0, i as int));
            assert(v@.subrange(0, i + 1 as int).last() == v@[i as int]);
            assert(out@ =~= old(out)@ + "["@ + panes_items(v@.subrange(0, i + 1 as int)));
        }
        i += 1;
    }
    proof {
        assert(v@.subrange(0, n as int) =~= v@);
    }
    out.append("]");
    proof {
        assert(out@ =~= old(out)@ + "["@ + panes_items(v@) + "]"@);
    }
}

fn append_entry(out: &mut String, e: &FileEntry)
    ensures
        final(out)@ == old(out)@ + entry_json(*e),
{
    out.append("{\"name\":");
    append_quoted(out, e.name.as_str());
    out.append(",\"path\":");
    append_quoted(out, e.path.as_str());
    out.append(",\"type\":");
    append_quoted(out, e.file_type.as_str());
    out.append(",\"size\":");
    append_u64(out, e.size);
    out.append(",\"modified\":");
    append_u64(out, e.modified);
    out.append(",\"permissions\":");
    append_quoted(out, e.permissions.as_str());
    out.append(",\"hidden\":");
    append_bool(out, e.hidden);
    out.append("}");
    proof {
        assert(out@ =~= old(out)@ + entry_json(*e));
    }
}

fn append_entries(out: &mut String, v: &Vec<FileEntry>)
    ensures
        final(out)@ == old(out)@ + "["@ + entries_items(v@) + "]"@,
{
    out.append("[");
    let n = v.len();
    let mut i: usize = 0;
    proof {
        assert(entries_items(v@.subrange(0, 0)) =~= Seq::<char>::empty());
        assert(out@ =~= old(out)@ + "["@ + entries_items(v@.subrange(0, 0)));
    }
    while i < n
        invariant
            n == v@.len(),
            i <= n,
            out@ == old(out)@ + "["@ + entries_items(v@.subrange(0, i as int)),
        decreases n - i,
    {
        if i > 0 {
            out.append(",");
        }
        append_entry(out, &v[i]);
        proof {
            assert(v@.subrange(0, i + 1 as int).drop_last() =~= v@.subrange(0, i as int));
            assert(v@.subrange(0, i + 1 as int).last() == v@[i as int]);
            assert(out@ =~= old(out)@ + "["@ + entries_items(v@.subrange(0, i + 1 as int)));
        }
        i += 1;
    }
    proof {
        assert(v@.subrange(0, n as int) =~= v@);
    }
    out.append("]");
    proof {
        assert(out@ =~= old(out)@ + "["@ + entries_items(v@) + "]"@);
    }
}

#[verifier::rlimit(100)]
fn append_stat(out: &mut String, s: &FileStat)
    ensures
        final(out)@ == old(out)@ + stat_json(*s),
{
    out.append("{\"path\":");
    append_quoted(out, s.path.as_str());
    out.append(",\"name\":");
    append_quoted(out, s.name.as_str());
    out.append(",\"type\":");
    append_quoted(out, s.file_type.as_str());
    out.append(",\"size\":");
    append_u64(out, s.size);
    out.append(",\"modified\":");
    append_u64(out, s.modified);
    out.append(",\"permissions\":");
    append_quoted(out, s.permissions.as_str());
    out.append(",\"readable\":");
    append_bool(out, s.readable);
    out.append(",\"writable\":");
    append_bool(out, s.writable);
    out.append(",\"is_text\":");
    append_bool(out, s.is_text);
    out.append(",\"mime_hint\":");
    append_quoted(out, s.mime_hint.as_str());
    out.append("}");
    proof {
        assert(out@ =~= old(out)@ + stat_json(*s));
    }
}

fn append_payload(out: &mut String, p: &Payload)
    ensures
        final(out)@ == old(out)@ + payload_json(*p),
{
    match p {
        Payload::OkFlag => out.append("{\"ok\":true}"),
        Payload::Authenticated => out.append("{\"authenticated\":true}"),
        Payload::Sessions(v) => append_sessions(out, v),
        Payload::Panes(v) => append_panes(out, v),
        Payload::Output(s) => {
            out.append("{\"output\":");
            append_quoted(out, s.as_str());
            out.append("}");
            proof {
                assert(out@ =~= old(out)@ + payload_json(*p));
            }
        },
        Payload::PathValue(s) => {
            out.append("{\"path\":");
            append_quoted(out, s.as_str());
            out.append("}");
            proof {
                assert(out@ =~= old(out)@ + payload_json(*p));
            }
        },
        Payload::Entries(v, path) => {
            out.append("{\"entries\":");
            append_entries(out, v);
            out.append(",\"path\":");
            append_quoted(out, path.as_str());
            out.append("}");
            proof {
                assert(out@ =~= old(out)@ + payload_json(*p));
            }
        },
        Payload::Stat(st) => append_stat(out, st),
        Payload::Content(s) => {
            out.append("{\"content\":");
            append_quoted(out, s.as_str());
            out.append("}");
            proof {
                assert(out@ =~= old(out)@ + payload_json(*p));
            }
        },
        Payload::Download(name, data) => {
            out.append("{\"name\":");
            append_quoted(out, name.as_str());
            out.append(",\"data\":");
            append_quoted(out, data.as_str());
            out.append("}");
            proof {
                assert(out@ =~= old(out)@ + payload_json(*p));
            }
        },
        Payload::Subscribed(t) => {
            out.append("{\"subscribed\":");
            append_quoted(out, t.as_str());
            out.append("}");
            proof {
                assert(out@ =~= old(out)@ + payload_json(*p));
            }
        },
        Payload::Unsubscribed(t) => {
            out.append("{\"unsubscribed\":");
            append_quoted(out, t.as_str());
            out.append("}");
            proof {
                assert(out@ =~= old(out)@ + payload_json(*p));
            }
        },
    }
}

/// Serializes one outbound message to its wire form.
pub fn write_message(o: &Outbound) -> (r: String)
    ensures
        r@ == outbound_json(*o),
{
    let mut out = String::new();
    match o {
        Outbound::Reply(resp) => {
            out.append("{\"id\":");
            append_id(&mut out, &resp.id);
            match &resp.result {
                Some(p) => {
                    out.append(",\"result\":");
                    append_payload(&mut out, p);
                },
                None => {},
            }
            match &resp.error {
                Some(e) => {
                    out.append(",\"error\":");
                    out.append("{\"code\":");
                    let code = i64_to_string(e.code as i64);
                    out.append(code.as_str());
                    out.append(",\"message\":");
                    append_quoted(&mut out, e.message.as_str());
                    out.append("}");
                },
                None => {},
            }
            out.append("}");
            proof {
                assert(out@ =~= outbound_json(*o));
            }
        },
        Outbound::Push(n) => {
            out.append("{\"id\":null,\"method\":\"pane_output\",\"params\":{\"target\":");
            append_quoted(&mut out, n.target.as_str());
            out.append(",\"content\":");
            append_quoted(&mut out, n.content.as_str());
            out.append("}}");
            proof {
                assert(out@ =~= outbound_json(*o));
            }
        },
    }
    out
}

} // verus!
