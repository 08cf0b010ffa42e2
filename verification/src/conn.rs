//! The per-connection state machine: Unauthenticated, then Authenticated,
//! then Closed, never backwards. The first decoded request must be `auth`
//! with the configured token; until then every other request is answered
//! with an authentication error and the connection closes. Once
//! authenticated, subscription bookkeeping is handled locally and everything
//! else is handed to the dispatcher; exactly one reply is produced per
//! decoded request, echoing its id.

use vstd::prelude::*;
use vstd::string::*;
use crate::dispatch::{route_ok, unknown_method_msg, Routed};
use crate::protocol::{
    is_error_response, lookup_entries, missing_param_msg, require_str, str_param, ParamValue,
    Payload, Request, Response, ERR_AUTH, ERR_INVALID_PARAMS, ERR_METHOD_NOT_FOUND, ERR_PARSE,
};
use crate::subs::SubscriptionSet;
use crate::text::{concat_str, str_eq};

verus! {

/// The lifecycle of one connection.
#[derive(Debug)]
pub enum Phase {
    Unauthenticated,
    Authenticated,
    Closed,
}

/// Everything one connection owns: its lifecycle phase and its subscription
/// set. Nothing is shared across connections.
pub struct Connection {
    pub phase: Phase,
    pub subs: SubscriptionSet,
}

impl Connection {
    pub open spec fn wf(&self) -> bool {
        self.subs.wf()
    }

    /// A fresh connection: unauthenticated, with no subscriptions.
    pub fn new() -> (r: Connection)
        ensures
            r.wf(),
            r.phase is Unauthenticated,
            r.subs@ == Map::<Seq<char>, Seq<char>>::empty(),
    {
        Connection { phase: Phase::Unauthenticated, subs: SubscriptionSet::new() }
    }
}

/// One inbound event on the connection: a text frame (decoded, or the decode
/// failure's text), a ping, a close frame, or anything else.
pub enum Inbound {
    Frame(Result<Request, String>),
    Ping(Vec<u8>),
    CloseFrame,
    Other,
}

/// What the connection handler does next: write one reply; write one reply
/// and then close; run the dispatcher and reply with its response; answer a
/// ping with the matching pong; close without writing; or nothing.
pub enum Action {
    Reply(Response),
    ReplyClose(Response),
    Dispatch(Request),
    Pong(Vec<u8>),
    Shut,
    Ignore,
}

/// The candidate token carried by an `auth` request: its `token` string
/// parameter, or empty when absent or not a string.
pub open spec fn token_param(p: crate::protocol::Params) -> Seq<char> {
    match lookup_entries(p.entries@, "token"@) {
        Some(ParamValue::Text(s)) => s@,
        _ => Seq::empty(),
    }
}

/// The diagnostic sent when traffic arrives before authentication.
pub open spec fn auth_required_msg() -> Seq<char> {
    "auth required — send {\"method\":\"auth\",\"params\":{\"token\":\"...\"}} first"@
}

/// The parse-failure diagnostic.
pub open spec fn invalid_json_msg(e: Seq<char>) -> Seq<char> {
    "invalid JSON: "@ + e
}

/// How one decoded text frame steps the connection, on a connection that is
/// not closed.
pub open spec fn frame_step_ok(
    pre: Connection,
    post: Connection,
    act: Action,
    fr: Result<Request, String>,
    token: Seq<char>,
) -> bool {
    match fr {
        Err(e) => {
            &&& post.phase == pre.phase
            &&& post.subs@ == pre.subs@
            &&& act matches Action::Reply(resp) && is_error_response(
                resp,
                None,
                ERR_PARSE,
                invalid_json_msg(e@),
            )
        },
        Ok(req) => if pre.phase is Unauthenticated {
            if req.method@ == "auth"@ {
                if token_param(req.params) == token {
                    &&& post.phase is Authenticated
                    &&& post.subs@ == pre.subs@
                    &&& act matches Action::Reply(resp) && resp.id == req.id && resp.error is None
                        && resp.result == Some(Payload::Authenticated)
                } else {
                    &&& post.phase is Closed
                    &&& post.subs@ == pre.subs@
                    &&& act matches Action::ReplyClose(resp) && is_error_response(
                        resp,
                        req.id,
                        ERR_AUTH,
                        "invalid token"@,
                    )
                }
            } else {
                &&& post.phase is Closed
                &&& post.subs@ == pre.subs@
                &&& act matches Action::ReplyClose(resp) && is_error_response(
                    resp,
                    req.id,
                    ERR_AUTH,
                    auth_required_msg(),
                )
            }
        } else {
            if req.method@ == "subscribe"@ {
                match str_param(req.params, "target"@) {
                    Some(t) => {
                        &&& post.phase == pre.phase
                        &&& post.subs@ == pre.subs@.insert(t, Seq::<char>::empty())
                        &&& act matches Action::Reply(resp) && resp.id == req.id && resp.error
                            is None && (resp.result matches Some(Payload::Subscribed(tg)) && tg@
                            == t)
                    },
                    None => {
                        &&& post.phase == pre.phase
                        &&& post.subs@ == pre.subs@
                        &&& act matches Action::Reply(resp) && is_error_response(
                            resp,
                            req.id,
                            ERR_INVALID_PARAMS,
                            missing_param_msg("target"@),
                        )
                    },
                }
            } else if req.method@ == "unsubscribe"@ {
                match str_param(req.params, "target"@) {
                    Some(t) => {
                        &&& post.phase == pre.phase
                        &&& post.subs@ == pre.subs@.remove(t)
                        &&& act matches Action::Reply(resp) && resp.id == req.id && resp.error
                            is None && (resp.result matches Some(Payload::Unsubscribed(tg)) && tg@
                            == t)
                    },
                    None => {
                        &&& post.phase == pre.phase
                        &&& post.subs@ == pre.subs@
                        &&& act matches Action::Reply(resp) && is_error_response(
                            resp,
                            req.id,
                            ERR_INVALID_PARAMS,
                            missing_param_msg("target"@),
                        )
                    },
                }
            } else {
                &&& post.phase == pre.phase
                &&& post.subs@ == pre.subs@
                &&& act == Action::Dispatch(req)
            }
        },
    }
}

/// Steps the connection on one inbound event. A closed connection processes
/// nothing further; a ping is answered with the matching pong; a close frame
/// closes; a text frame steps the authentication gate and the local
/// bookkeeping as `frame_step_ok` says.
pub fn conn_step(conn: &mut Connection, ev: Inbound, token: &str) -> (act: Action)
    requires
        old(conn).wf(),
    ensures
        final(conn).wf(),
        old(conn).phase is Closed ==> final(conn).phase is Closed && final(conn).subs@ == old(
            conn,
        ).subs@ && act is Ignore,
        old(conn).phase is Authenticated ==> !(final(conn).phase is Unauthenticated),
        final(conn).phase is Authenticated ==> !(old(conn).phase is Closed),
        !(old(conn).phase is Closed) ==> match ev {
            Inbound::Frame(fr) => frame_step_ok(*old(conn), *final(conn), act, fr, token@),
            Inbound::Ping(d) => final(conn).phase == old(conn).phase && final(conn).subs@ == old(
                conn,
            ).subs@ && (act matches Action::Pong(d2) && d2 == d),
            Inbound::CloseFrame => final(conn).phase is Closed && final(conn).subs@ == old(
                conn,
            ).subs@ && act is Shut,
            Inbound::Other => final(conn).phase == old(conn).phase && final(conn).subs@ == old(
                conn,
            ).subs@ && act is Ignore,
        },
{
    match &conn.phase {
        Phase::Closed => {
            return Action::Ignore;
        },
        _ => {},
    }
    match ev {
        Inbound::Ping(d) => Action::Pong(d),
        Inbound::CloseFrame => {
            conn.phase = Phase::Closed;
            Action::Shut
        },
        Inbound::Other => Action::Ignore,
        Inbound::Frame(fr) => match fr {
            Err(e) => Action::Reply(
                Response::err(None, ERR_PARSE, concat_str("invalid JSON: ", e.as_str())),
            ),
            Ok(req) => {
                let unauth = match &conn.phase {
                    Phase::Unauthenticated => true,
                    _ => false,
                };
                if unauth {
                    if str_eq(req.method.as_str(), "auth") {
                        let provided: &str = match req.params.get("token") {
                            Some(ParamValue::Text(s)) => s.as_str(),
                            _ => "",
                        };
                        proof {
                            reveal_strlit("");
                            assert(""@ =~= Seq::<char>::empty());
                        }
                        if str_eq(provided, token) {
                            conn.phase = Phase::Authenticated;
                            Action::Reply(Response::ok(req.id, Payload::Authenticated))
                        } else {
                            conn.phase = Phase::Closed;
                            Action::ReplyClose(
                                Response::err(req.id, ERR_AUTH, "invalid token".to_owned()),
                            )
                        }
                    } else {
                        conn.phase = Phase::Closed;
                        Action::ReplyClose(
                            Response::err(
                                req.id,
                                ERR_AUTH,
                                "auth required — send {\"method\":\"auth\",\"params\":{\"token\":\"...\"}} first".to_owned(),
                            ),
                        )
                    }
                } else {
                    if str_eq(req.method.as_str(), "subscribe") {
                        match require_str(&req.params, "target") {
                            Ok(t) => {
                                conn.subs.subscribe(t.as_str());
                                Action::Reply(Response::ok(req.id, Payload::Subscribed(t)))
                            },
                            Err(e) => Action::Reply(
                                Response::err(req.id, ERR_INVALID_PARAMS, e),
                            ),
                        }
                    } else if str_eq(req.method.as_str(), "unsubscribe") {
                        match require_str(&req.params, "target") {
                            Ok(t) => {
                                conn.subs.unsubscribe(t.as_str());
                                Action::Reply(Response::ok(req.id, Payload::Unsubscribed(t)))
                            },
                            Err(e) => Action::Reply(
                                Response::err(req.id, ERR_INVALID_PARAMS, e),
                            ),
                        }
                    } else {
                        Action::Dispatch(req)
                    }
                }
            },
        },
    }
}

/// Every reply that a decoded request provokes echoes that request's id:
/// the immediate replies carry it, and a dispatched request is handed on
/// whole, so the dispatcher's reply echoes it in turn.
pub proof fn lemma_reply_echoes_id(
    pre: Connection,
    post: Connection,
    act: Action,
    req: Request,
    token: Seq<char>,
)
    requires
        frame_step_ok(pre, post, act, Ok(req), token),
        !(pre.phase is Closed),
    ensures
        act matches Action::Reply(resp) ==> resp.id == req.id,
        act matches Action::ReplyClose(resp) ==> resp.id == req.id,
        act matches Action::Dispatch(r2) ==> r2 == req,
        !(act is Shut) && !(act is Ignore) && !(act is Pong),
{
}

/// Before authentication succeeds, any request other than `auth` yields the
/// authentication error and the connection closes, so nothing further is
/// processed on it.
pub proof fn lemma_gate_rejects_before_auth(
    pre: Connection,
    post: Connection,
    act: Action,
    req: Request,
    token: Seq<char>,
)
    requires
        frame_step_ok(pre, post, act, Ok(req), token),
        pre.phase is Unauthenticated,
        req.method@ != "auth"@,
    ensures
        act matches Action::ReplyClose(resp) && is_error_response(
            resp,
            req.id,
            ERR_AUTH,
            auth_required_msg(),
        ),
        post.phase is Closed,
{
}

/// `auth` with the correct token transitions the connection to Authenticated
/// and is answered with a success envelope echoing the request's id.
pub proof fn lemma_auth_success(
    pre: Connection,
    post: Connection,
    act: Action,
    req: Request,
    token: Seq<char>,
)
    requires
        frame_step_ok(pre, post, act, Ok(req), token),
        pre.phase is Unauthenticated,
        req.method@ == "auth"@,
        token_param(req.params) == token,
    ensures
        post.phase is Authenticated,
        act matches Action::Reply(resp) && resp.id == req.id && resp.result == Some(
            Payload::Authenticated,
        ),
{
}

/// A second `auth` after authentication is not specially gated: it is handed
/// to the dispatcher like any other method, where the method table answers
/// it with the method-not-found error.
pub proof fn lemma_second_auth_is_ordinary(
    pre: Connection,
    post: Connection,
    act: Action,
    req: Request,
    token: Seq<char>,
)
    requires
        frame_step_ok(pre, post, act, Ok(req), token),
        pre.phase is Authenticated,
        req.method@ == "auth"@,
    ensures
        act == Action::Dispatch(req),
        post.phase is Authenticated,
        post.subs@ == pre.subs@,
        forall|r: Routed|
            #[trigger] route_ok(req, r) ==> (r matches Routed::Done(resp) && is_error_response(
                resp,
                req.id,
                ERR_METHOD_NOT_FOUND,
                unknown_method_msg("auth"@),
            )),
{
    reveal_strlit("auth");
    reveal_strlit("subscribe");
    reveal_strlit("unsubscribe");
    assert("auth"@.len() == 4);
    assert("subscribe"@.len() == 9);
    assert(req.method@ != "subscribe"@);
    assert(req.method@ != "unsubscribe"@);
    reveal_strlit("list_sessions");
    reveal_strlit("list_panes");
    reveal_strlit("capture_pane");
    reveal_strlit("send_keys");
    reveal_strlit("send_command");
    reveal_strlit("new_session");
    reveal_strlit("kill_session");
    reveal_strlit("fs_cwd");
    reveal_strlit("fs_list");
    reveal_strlit("fs_stat");
    reveal_strlit("fs_read");
    reveal_strlit("fs_write");
    reveal_strlit("fs_mkdir");
    reveal_strlit("fs_delete");
    reveal_strlit("fs_rename");
    reveal_strlit("fs_download");
    reveal_strlit("fs_upload");
}

} // verus!
