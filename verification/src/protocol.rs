//! The message envelope: inbound requests with a typed parameter bag, and
//! outbound responses that carry either a success payload or a structured
//! error, never both and never neither. Push notifications share the outbound
//! path and carry no correlation id.

use vstd::prelude::*;
use vstd::string::*;
use crate::files::{FileEntry, FileStat};
use crate::text::{concat_str, str_eq};
use crate::tmux::{TmuxPane, TmuxSession};

verus! {

/// Malformed request payload.
pub const ERR_PARSE: i32 = -32700;

/// Unknown method.
pub const ERR_METHOD_NOT_FOUND: i32 = -32601;

/// Missing or invalid parameter.
pub const ERR_INVALID_PARAMS: i32 = -32602;

/// Internal failure of the adapter or a collaborator.
pub const ERR_INTERNAL: i32 = -32603;

/// Authentication failure.
pub const ERR_AUTH: i32 = -32000;

/// One value of the parameter bag, already reduced to the plain shapes the
/// dispatcher reads: a string, an unsigned count, a flag, or nothing usable.
#[derive(Debug)]
pub enum ParamValue {
    Null,
    Flag(bool),
    Count(u64),
    Text(String),
}

/// The parameter bag of one request.
#[derive(Debug)]
pub struct Params {
    pub entries: Vec<(String, ParamValue)>,
}

/// The first entry with the given key, scanning left to right.
pub open spec fn lookup_entries(s: Seq<(String, ParamValue)>, k: Seq<char>) -> Option<ParamValue>
    decreases s.len(),
{
    if s.len() == 0 {
        None
    } else if s[0].0@ == k {
        Some(s[0].1)
    } else {
        lookup_entries(s.drop_first(), k)
    }
}

/// The string value of a required parameter: present, a string, and
/// non-empty; anything else counts as missing.
pub open spec fn str_param(p: Params, k: Seq<char>) -> Option<Seq<char>> {
    match lookup_entries(p.entries@, k) {
        Some(ParamValue::Text(s)) => if s@.len() > 0 {
            Some(s@)
        } else {
            None
        },
        _ => None,
    }
}

/// The value of an optional count parameter.
pub open spec fn count_param(p: Params, k: Seq<char>) -> Option<u64> {
    match lookup_entries(p.entries@, k) {
        Some(ParamValue::Count(n)) => Some(n),
        _ => None,
    }
}

/// The value of an optional flag parameter, false when absent.
pub open spec fn flag_param(p: Params, k: Seq<char>) -> bool {
    match lookup_entries(p.entries@, k) {
        Some(ParamValue::Flag(b)) => b,
        _ => false,
    }
}

impl Params {
    /// The first value stored under `key`, if any.
    pub fn get(&self, key: &str) -> (r: Option<&ParamValue>)
        ensures
            match r {
                Some(v) => lookup_entries(self.entries@, key@) == Some(*v),
                None => lookup_entries(self.entries@, key@) is None,
            },
    {
        let n = self.entries.len();
        let mut i: usize = 0;
        proof {
            assert(self.entries@.subrange(0, n as int) =~= self.entries@);
        }
        while i < n
            invariant
                n == self.entries@.len(),
                i <= n,
                lookup_entries(self.entries@, key@) == lookup_entries(
                    self.entries@.subrange(i as int, n as int),
                    key@,
                ),
            decreases n - i,
        {
            proof {
                assert(self.entries@.subrange(i as int, n as int).drop_first() =~= self.entries@
                    .subrange(i + 1 as int, n as int));
                assert(self.entries@.subrange(i as int, n as int)[0] == self.entries@[i as int]);
            }
            if str_eq(self.entries[i].0.as_str(), key) {
                return Some(&self.entries[i].1);
            }
            i += 1;
        }
        proof {
            assert(self.entries@.subrange(n as int, n as int) =~= Seq::<(
                String,
                ParamValue,
            )>::empty());
        }
        None
    }
}

/// Fetches a required, non-empty string parameter, or the invalid-parameter
/// diagnostic naming the key.
pub fn require_str(params: &Params, key: &str) -> (r: Result<String, String>)
    ensures
        match r {
            Ok(v) => str_param(*params, key@) == Some(v@),
            Err(e) => {
                &&& str_param(*params, key@) is None
                &&& e@ == "missing required param: "@ + key@
            },
        },
{
    let found = params.get(key);
    match found {
        Some(ParamValue::Text(s)) => {
            if s.as_str().unicode_len() > 0 {
                Ok(s.clone())
            } else {
                Err(concat_str("missing required param: ", key))
            }
        },
        _ => Err(concat_str("missing required param: ", key)),
    }
}

/// One inbound operation: an optional correlation id, a method name, and the
/// parameter bag.
#[derive(Debug)]
pub struct Request {
    pub id: Option<u64>,
    pub method: String,
    pub params: Params,
}

/// The structured error of a failed response.
#[derive(Debug, Clone)]
pub struct ErrorInfo {
    pub code: i32,
    pub message: String,
}

/// One success payload, as a tagged union at the serialization boundary.
#[derive(Debug)]
pub enum Payload {
    OkFlag,
    Authenticated,
    Sessions(Vec<TmuxSession>),
    Panes(Vec<TmuxPane>),
    Output(String),
    PathValue(String),
    Entries(Vec<FileEntry>, String),
    Stat(FileStat),
    Content(String),
    Download(String, String),
    Subscribed(String),
    Unsubscribed(String),
}

/// One outbound result: the echoed id, and a success payload or a structured
/// error — never both, never neither.
#[derive(Debug)]
pub struct Response {
    pub id: Option<u64>,
    pub result: Option<Payload>,
    pub error: Option<ErrorInfo>,
}

/// A response carries a payload exactly when it carries no error.
pub open spec fn response_wf(r: Response) -> bool {
    r.result is Some <==> r.error is None
}

/// A failure envelope with the given id, code and message, and no payload.
pub open spec fn is_error_response(r: Response, id: Option<u64>, code: i32, msg: Seq<char>) -> bool {
    &&& r.id == id
    &&& r.result is None
    &&& r.error matches Some(e) && e.code == code && e.message@ == msg
}

/// The invalid-parameter diagnostic naming the missing key.
pub open spec fn missing_param_msg(key: Seq<char>) -> Seq<char> {
    "missing required param: "@ + key
}

impl Response {
    /// A success envelope.
    pub fn ok(id: Option<u64>, result: Payload) -> (r: Response)
        ensures
            r.id == id,
            r.result == Some(result),
            r.error is None,
            response_wf(r),
    {
        Response { id, result: Some(result), error: None }
    }

    /// A failure envelope.
    pub fn err(id: Option<u64>, code: i32, message: String) -> (r: Response)
        ensures
            r.id == id,
            r.result is None,
            r.error matches Some(e) && e.code == code && e.message == message,
            response_wf(r),
    {
        Response { id, result: None, error: Some(ErrorInfo { code, message }) }
    }
}

/// One unsolicited push: the target whose content changed, and the new
/// content. Push notifications never carry an id.
#[derive(Debug)]
pub struct Notification {
    pub target: String,
    pub content: String,
}

/// What goes out on the wire: a reply to a request, or a push notification.
#[derive(Debug)]
pub enum Outbound {
    Reply(Response),
    Push(Notification),
}

} // verus!
