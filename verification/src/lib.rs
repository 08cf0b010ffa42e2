//! Protocol engine for remotely observing and driving terminal-multiplexer
//! sessions: a per-connection authentication gate, a request dispatcher with
//! typed parameter validation, a subscription/diffing engine for live pane
//! output, and an adapter that turns typed operations into multiplexer
//! invocations and parses their delimited output into structured records.

pub mod config;
pub mod conn;
pub mod dispatch;
pub mod files;
pub mod protocol;
pub mod subs;
pub mod text;
pub mod tmux;
pub mod wire;

use vstd::prelude::*;

verus! {

} // verus!
