//! The request dispatcher: validates that every required string parameter is
//! present and non-empty, then routes by method name to a typed multiplexer
//! operation, a typed file-browsing operation, or an immediate error
//! response. The dispatcher performs no I/O itself: running a multiplexer
//! operation goes through the adapter, and file-browsing operations are
//! handed back to the caller as typed values.

use vstd::prelude::*;
use vstd::string::*;
use crate::protocol::{
    count_param, flag_param, is_error_response, lookup_entries, missing_param_msg, require_str,
    response_wf, str_param, ParamValue, Params, Payload, Request, Response, ERR_INTERNAL,
    ERR_INVALID_PARAMS, ERR_METHOD_NOT_FOUND,
};
use crate::text::{concat_str, str_eq};
use crate::tmux::{is_pane_listing, is_session_listing, TmuxExecutor};

verus! {

/// One typed multiplexer operation.
#[derive(Debug)]
pub enum TmuxOp {
    ListSessions,
    ListPanes { session: String },
    CapturePane { target: String, lines: Option<usize> },
    SendKeys { target: String, keys: String, literal: bool },
    SendCommand { target: String, command: String },
    NewSession { name: String },
    KillSession { name: String },
}

/// One typed file-browsing operation, for the collaborator that executes it.
#[derive(Debug)]
pub enum FsOp {
    Cwd { session: String },
    List { path: String, show_hidden: bool },
    Stat { path: String },
    Read { path: String },
    Write { path: String, content: String },
    Mkdir { path: String },
    Delete { path: String },
    Rename { from: String, to: String },
    Download { path: String },
    Upload { path: String, data: String },
}

/// Where a request goes: answered at once, run on the multiplexer adapter, or
/// handed to the file-browsing collaborator.
#[derive(Debug)]
pub enum Routed {
    Done(Response),
    Tmux(TmuxOp),
    Fs(FsOp),
}

/// The unknown-method diagnostic.
pub open spec fn unknown_method_msg(m: Seq<char>) -> Seq<char> {
    "unknown method: "@ + m
}

/// A routing that answers at once with the invalid-parameter error naming
/// `key`, echoing the request's id.
pub open spec fn invalid_params_done(req: Request, r: Routed, key: Seq<char>) -> bool {
    r matches Routed::Done(resp) && is_error_response(
        resp,
        req.id,
        ERR_INVALID_PARAMS,
        missing_param_msg(key),
    )
}

/// The optional line-count bound of a capture request.
pub open spec fn lines_param_ok(p: Params, lines: Option<usize>) -> bool {
    match count_param(p, "lines"@) {
        Some(n) => lines matches Some(l) && l == n as usize,
        None => lines is None,
    }
}

/// The session name of a create request: the `name` string parameter, or
/// `untitled` when absent or not a string (an empty name is taken as given).
pub open spec fn name_or_untitled(p: Params) -> Seq<char> {
    match lookup_entries(p.entries@, "name"@) {
        Some(ParamValue::Text(s)) => s@,
        _ => "untitled"@,
    }
}

/// How one decoded request routes, method by method in a fixed order:
/// required string parameters must be present and non-empty, optional
/// parameters default, and an unknown method name is answered with the
/// method-not-found error.
pub open spec fn route_ok(req: Request, r: Routed) -> bool {
    let m = req.method@;
    let p = req.params;
    if m == "list_sessions"@ {
        r == Routed::Tmux(TmuxOp::ListSessions)
    } else if m == "list_panes"@ {
        match str_param(p, "session"@) {
            Some(s) => r matches Routed::Tmux(TmuxOp::ListPanes { session }) && session@ == s,
            None => invalid_params_done(req, r, "session"@),
        }
    } else if m == "capture_pane"@ {
        match str_param(p, "target"@) {
            Some(t) => r matches Routed::Tmux(TmuxOp::CapturePane { target, lines })
                && target@ == t && lines_param_ok(p, lines),
            None => invalid_params_done(req, r, "target"@),
        }
    } else if m == "send_keys"@ {
        match str_param(p, "target"@) {
            Some(t) => match str_param(p, "keys"@) {
                Some(k) => r matches Routed::Tmux(TmuxOp::SendKeys { target, keys, literal })
                    && target@ == t && keys@ == k && literal == flag_param(p, "literal"@),
                None => invalid_params_done(req, r, "keys"@),
            },
            None => invalid_params_done(req, r, "target"@),
        }
    } else if m == "send_command"@ {
        match str_param(p, "target"@) {
            Some(t) => match str_param(p, "command"@) {
                Some(c) => r matches Routed::Tmux(TmuxOp::SendCommand { target, command })
                    && target@ == t && command@ == c,
                None => invalid_params_done(req, r, "command"@),
            },
            None => invalid_params_done(req, r, "target"@),
        }
    } else if m == "new_session"@ {
        r matches Routed::Tmux(TmuxOp::NewSession { name }) && name@ == name_or_untitled(p)
    } else if m == "kill_session"@ {
        match str_param(p, "name"@) {
            Some(n) => r matches Routed::Tmux(TmuxOp::KillSession { name }) && name@ == n,
            None => invalid_params_done(req, r, "name"@),
        }
    } else if m == "fs_cwd"@ {
        match str_param(p, "session"@) {
            Some(s) => r matches Routed::Fs(FsOp::Cwd { session }) && session@ == s,
            None => invalid_params_done(req, r, "session"@),
        }
    } else if m == "fs_list"@ {
        match str_param(p, "path"@) {
            Some(pa) => r matches Routed::Fs(FsOp::List { path, show_hidden }) && path@ == pa
                && show_hidden == flag_param(p, "show_hidden"@),
            None => invalid_params_done(req, r, "path"@),
        }
    } else if m == "fs_stat"@ {
        match str_param(p, "path"@) {
            Some(pa) => r matches Routed::Fs(FsOp::Stat { path }) && path@ == pa,
            None => invalid_params_done(req, r, "path"@),
        }
    } else if m == "fs_read"@ {
        match str_param(p, "path"@) {
            Some(pa) => r matches Routed::Fs(FsOp::Read { path }) && path@ == pa,
            None => invalid_params_done(req, r, "path"@),
        }
    } else if m == "fs_write"@ {
        match str_param(p, "path"@) {
            Some(pa) => match str_param(p, "content"@) {
                Some(c) => r matches Routed::Fs(FsOp::Write { path, content }) && path@ == pa
                    && content@ == c,
                None => invalid_params_done(req, r, "content"@),
            },
            None => invalid_params_done(req, r, "path"@),
        }
    } else if m == "fs_mkdir"@ {
        match str_param(p, "path"@) {
            Some(pa) => r matches Routed::Fs(FsOp::Mkdir { path }) && path@ == pa,
            None => invalid_params_done(req, r, "path"@),
        }
    } else if m == "fs_delete"@ {
        match str_param(p, "path"@) {
            Some(pa) => r matches Routed::Fs(FsOp::Delete { path }) && path@ == pa,
            None => invalid_params_done(req, r, "path"@),
        }
    } else if m == "fs_rename"@ {
        match str_param(p, "from"@) {
            Some(f) => match str_param(p, "to"@) {
                Some(t) => r matches Routed::Fs(FsOp::Rename { from, to }) && from@ == f && to@
                    == t,
                None => invalid_params_done(req, r, "to"@),
            },
            None => invalid_params_done(req, r, "from"@),
        }
    } else if m == "fs_download"@ {
        match str_param(p, "path"@) {
            Some(pa) => r matches Routed::Fs(FsOp::Download { path }) && path@ == pa,
            None => invalid_params_done(req, r, "path"@),
        }
    } else if m == "fs_upload"@ {
        match str_param(p, "path"@) {
            Some(pa) => match str_param(p, "data"@) {
                Some(d) => r matches Routed::Fs(FsOp::Upload { path, data }) && path@ == pa
                    && data@ == d,
                None => invalid_params_done(req, r, "data"@),
            },
            None => invalid_params_done(req, r, "path"@),
        }
    } else {
        r matches Routed::Done(resp) && is_error_response(
            resp,
            req.id,
            ERR_METHOD_NOT_FOUND,
            unknown_method_msg(m),
        )
    }
}

/// Routes one decoded request: pure validation and method lookup.
pub fn route_request(req: &Request) -> (r: Routed)
    ensures
        route_ok(*req, r),
{
    let m = req.method.as_str();
    if str_eq(m, "list_sessions") {
        Routed::Tmux(TmuxOp::ListSessions)
    } else if str_eq(m, "list_panes") {
        match require_str(&req.params, "session") {
            Ok(session) => Routed::Tmux(TmuxOp::ListPanes { session }),
            Err(e) => Routed::Done(Response::err(req.id, ERR_INVALID_PARAMS, e)),
        }
    } else if str_eq(m, "capture_pane") {
        match require_str(&req.params, "target") {
            Ok(target) => {
                let lines: Option<usize> = match req.params.get("lines") {
                    Some(ParamValue::Count(n)) => Some(#[verifier::truncate] (*n as usize)),
                    _ => None,
                };
                Routed::Tmux(TmuxOp::CapturePane { target, lines })
            },
            Err(e) => Routed::Done(Response::err(req.id, ERR_INVALID_PARAMS, e)),
        }
    } else if str_eq(m, "send_keys") {
        match require_str(&req.params, "target") {
            Ok(target) => match require_str(&req.params, "keys") {
                Ok(keys) => {
                    let literal: bool = match req.params.get("literal") {
                        Some(ParamValue::Flag(b)) => *b,
                        _ => false,
                    };
                    Routed::Tmux(TmuxOp::SendKeys { target, keys, literal })
                },
                Err(e) => Routed::Done(Response::err(req.id, ERR_INVALID_PARAMS, e)),
            },
            Err(e) => Routed::Done(Response::err(req.id, ERR_INVALID_PARAMS, e)),
        }
    } else if str_eq(m, "send_command") {
        match require_str(&req.params, "target") {
            Ok(target) => match require_str(&req.params, "command") {
                Ok(command) => Routed::Tmux(TmuxOp::SendCommand { target, command }),
                Err(e) => Routed::Done(Response::err(req.id, ERR_INVALID_PARAMS, e)),
            },
            Err(e) => Routed::Done(Response::err(req.id, ERR_INVALID_PARAMS, e)),
        }
    } else if str_eq(m, "new_session") {
        let name: String = match req.params.get("name") {
            Some(ParamValue::Text(s)) => s.clone(),
            _ => "untitled".to_owned(),
        };
        Routed::Tmux(TmuxOp::NewSession { name })
    } else if str_eq(m, "kill_session") {
        match require_str(&req.params, "name") {
            Ok(name) => Routed::Tmux(TmuxOp::KillSession { name }),
            Err(e) => Routed::Done(Response::err(req.id, ERR_INVALID_PARAMS, e)),
        }
    } else if str_eq(m, "fs_cwd") {
        match require_str(&req.params, "session") {
            Ok(session) => Routed::Fs(FsOp::Cwd { session }),
            Err(e) => Routed::Done(Response::err(req.id, ERR_INVALID_PARAMS, e)),
        }
    } else if str_eq(m, "fs_list") {
        match require_str(&req.params, "path") {
            Ok(path) => {
                let show_hidden: bool = match req.params.get("show_hidden") {
                    Some(ParamValue::Flag(b)) => *b,
                    _ => false,
                };
                Routed::Fs(FsOp::List { path, show_hidden })
            },
            Err(e) => Routed::Done(Response::err(req.id, ERR_INVALID_PARAMS, e)),
        }
    } else if str_eq(m, "fs_stat") {
        match require_str(&req.params, "path") {
            Ok(path) => Routed::Fs(FsOp::Stat { path }),
            Err(e) => Routed::Done(Response::err(req.id, ERR_INVALID_PARAMS, e)),
        }
    } else if str_eq(m, "fs_read") {
        match require_str(&req.params, "path") {
            Ok(path) => Routed::Fs(FsOp::Read { path }),
            Err(e) => Routed::Done(Response::err(req.id, ERR_INVALID_PARAMS, e)),
        }
    } else if str_eq(m, "fs_write") {
        match require_str(&req.params, "path") {
            Ok(path) => match require_str(&req.params, "content") {
                Ok(content) => Routed::Fs(FsOp::Write { path, content }),
                Err(e) => Routed::Done(Response::err(req.id, ERR_INVALID_PARAMS, e)),
            },
            Err(e) => Routed::Done(Response::err(req.id, ERR_INVALID_PARAMS, e)),
        }
    } else if str_eq(m, "fs_mkdir") {
        match require_str(&req.params, "path") {
            Ok(path) => Routed::Fs(FsOp::Mkdir { path }),
            Err(e) => Routed::Done(Response::err(req.id, ERR_INVALID_PARAMS, e)),
        }
    } else if str_eq(m, "fs_delete") {
        match require_str(&req.params, "path") {
            Ok(path) => Routed::Fs(FsOp::Delete { path }),
            Err(e) => Routed::Done(Response::err(req.id, ERR_INVALID_PARAMS, e)),
        }
    } else if str_eq(m, "fs_rename") {
        match require_str(&req.params, "from") {
            Ok(from) => match require_str(&req.params, "to") {
                Ok(to) => Routed::Fs(FsOp::Rename { from, to }),
                Err(e) => Routed::Done(Response::err(req.id, ERR_INVALID_PARAMS, e)),
            },
            Err(e) => Routed::Done(Response::err(req.id, ERR_INVALID_PARAMS, e)),
        }
    } else if str_eq(m, "fs_download") {
        match require_str(&req.params, "path") {
            Ok(path) => Routed::Fs(FsOp::Download { path }),
            Err(e) => Routed::Done(Response::err(req.id, ERR_INVALID_PARAMS, e)),
        }
    } else if str_eq(m, "fs_upload") {
        match require_str(&req.params, "path") {
            Ok(path) => match require_str(&req.params, "data") {
                Ok(data) => Routed::Fs(FsOp::Upload { path, data }),
                Err(e) => Routed::Done(Response::err(req.id, ERR_INVALID_PARAMS, e)),
            },
            Err(e) => Routed::Done(Response::err(req.id, ERR_INVALID_PARAMS, e)),
        }
    } else {
        Routed::Done(
            Response::err(
                req.id,
                ERR_METHOD_NOT_FOUND,
                concat_str("unknown method: ", req.method.as_str()),
            ),
        )
    }
}

/// What a successful multiplexer response carries for each operation.
pub open spec fn tmux_payload_ok(op: TmuxOp, p: Payload) -> bool {
    match op {
        TmuxOp::ListSessions => p matches Payload::Sessions(v) && is_session_listing(v@),
        TmuxOp::ListPanes { .. } => p matches Payload::Panes(v) && is_pane_listing(v@),
        TmuxOp::CapturePane { .. } => p matches Payload::Output(_),
        _ => p is OkFlag,
    }
}

/// Wraps one collaborator outcome — from the multiplexer adapter or the
/// file-browsing collaborator — into the uniform envelope: success becomes
/// exactly the given payload, failure the internal error carrying the
/// diagnostic text verbatim, always echoing `id`, and never retried.
pub fn outcome_response(id: Option<u64>, outcome: Result<Payload, String>) -> (r: Response)
    ensures
        r.id == id,
        response_wf(r),
        outcome matches Ok(p) ==> r.result == Some(p) && r.error is None,
        outcome matches Err(e) ==> is_error_response(r, id, ERR_INTERNAL, e@),
{
    match outcome {
        Ok(p) => Response::ok(id, p),
        Err(e) => Response::err(id, ERR_INTERNAL, e),
    }
}

/// Runs one multiplexer operation on the adapter and wraps the outcome
/// through `outcome_response`: the adapter's success becomes the typed
/// payload, its failure the internal error carrying the diagnostic verbatim,
/// always echoing `id`.
pub fn run_tmux_op(exec: &TmuxExecutor, id: Option<u64>, op: &TmuxOp) -> (r: Response)
    ensures
        r.id == id,
        response_wf(r),
        r.error matches Some(e) ==> e.code == ERR_INTERNAL,
        r.result matches Some(p) ==> tmux_payload_ok(*op, p),
{
    let outcome: Result<Payload, String> = match op {
        TmuxOp::ListSessions => match exec.list_sessions() {
            Ok(v) => Ok(Payload::Sessions(v)),
            Err(e) => Err(e),
        },
        TmuxOp::ListPanes { session } => match exec.list_panes(session.as_str()) {
            Ok(v) => Ok(Payload::Panes(v)),
            Err(e) => Err(e),
        },
        TmuxOp::CapturePane { target, lines } => match exec.capture_pane(target.as_str(), *lines) {
            Ok(out) => Ok(Payload::Output(out)),
            Err(e) => Err(e),
        },
        TmuxOp::SendKeys { target, keys, literal } => match exec.send_keys(
            target.as_str(),
            keys.as_str(),
            *literal,
        ) {
            Ok(_) => Ok(Payload::OkFlag),
            Err(e) => Err(e),
        },
        TmuxOp::SendCommand { target, command } => match exec.send_command(
            target.as_str(),
            command.as_str(),
        ) {
            Ok(_) => Ok(Payload::OkFlag),
            Err(e) => Err(e),
        },
        TmuxOp::NewSession { name } => match exec.new_session(name.as_str()) {
            Ok(_) => Ok(Payload::OkFlag),
            Err(e) => Err(e),
        },
        TmuxOp::KillSession { name } => match exec.kill_session(name.as_str()) {
            Ok(_) => Ok(Payload::OkFlag),
            Err(e) => Err(e),
        },
    };
    outcome_response(id, outcome)
}

/// How a request was handled: answered, or waiting on the file-browsing
/// collaborator to execute a typed operation.
#[derive(Debug)]
pub enum Handled {
    Replied(Response),
    NeedsFs(FsOp, Option<u64>),
}

/// A reply produced by running the multiplexer operation the request routed
/// to.
pub open spec fn replied_via_tmux(req: Request, resp: Response) -> bool {
    exists|op: TmuxOp|
        #[trigger] route_ok(req, Routed::Tmux(op)) && (resp.error matches Some(e) ==> e.code
            == ERR_INTERNAL) && (resp.result matches Some(p) ==> tmux_payload_ok(op, p))
}

/// Handles one authenticated request short of file-browsing: validation
/// errors and unknown methods are answered at once, multiplexer operations
/// run on the adapter, and file-browsing operations are handed back. Every
/// reply echoes the request's id, and carries a payload exactly when it
/// carries no error.
pub fn handle_request(exec: &TmuxExecutor, req: &Request) -> (h: Handled)
    ensures
        h matches Handled::Replied(resp) ==> resp.id == req.id && response_wf(resp) && (route_ok(
            *req,
            Routed::Done(resp),
        ) || replied_via_tmux(*req, resp)),
        h matches Handled::NeedsFs(op, id) ==> id == req.id && route_ok(*req, Routed::Fs(op)),
{
    let routed = route_request(req);
    match routed {
        Routed::Done(resp) => {
            proof {
                assert(resp.id == req.id && response_wf(resp)) by {
                    assert(route_ok(*req, Routed::Done(resp)));
                }
            }
            Handled::Replied(resp)
        },
        Routed::Tmux(op) => {
            let resp = run_tmux_op(exec, req.id, &op);
            proof {
                assert(replied_via_tmux(*req, resp)) by {
                    assert(route_ok(*req, Routed::Tmux(op)));
                }
            }
            Handled::Replied(resp)
        },
        Routed::Fs(op) => Handled::NeedsFs(op, req.id),
    }
}

} // verus!
