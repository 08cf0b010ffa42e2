use tmux_mobile::config::Config;
use tmux_mobile::conn::{conn_step, Action, Connection, Inbound, Phase};
use tmux_mobile::dispatch::{route_request, Routed};
use tmux_mobile::files::{
    bytes_look_text, decode_file_data, encode_file_data, format_permissions, mime_hint,
    mime_text_hint, sort_entries, FileEntry,
};
use tmux_mobile::protocol::{Outbound, ParamValue, Params, Payload, Request, Response};
use tmux_mobile::subs::poll_step;
use tmux_mobile::text::{i64_to_string, parse_usize, split_str, u64_to_string};
use tmux_mobile::tmux::{parse_pane_line, parse_session_line, parse_sessions};
use tmux_mobile::wire::write_message;

fn request(id: Option<u64>, method: &str, entries: Vec<(&str, ParamValue)>) -> Request {
    Request {
        id,
        method: method.to_string(),
        params: Params {
            entries: entries.into_iter().map(|(k, v)| (k.to_string(), v)).collect(),
        },
    }
}

fn text(v: &str) -> ParamValue {
    ParamValue::Text(v.to_string())
}

// --- parsing the multiplexer's delimited listings ---

#[test]
fn parses_session_line_fields() {
    let s = parse_session_line("main|3|1|1700000000");
    assert_eq!(s.name, "main");
    assert_eq!(s.windows, 3);
    assert!(s.attached);
    assert_eq!(s.created, "1700000000");
}

#[test]
fn malformed_session_fields_default() {
    let s = parse_session_line("odd");
    assert_eq!(s.name, "odd");
    assert_eq!(s.windows, 0);
    assert!(!s.attached);
    assert_eq!(s.created, "");
    let s2 = parse_session_line("x|notanumber|0|t");
    assert_eq!(s2.windows, 0);
}

#[test]
fn parses_listing_skipping_empty_lines() {
    let v = parse_sessions("a|1|0|t1\n\nb|2|1|t2\n");
    assert_eq!(v.len(), 2);
    assert_eq!(v[0].name, "a");
    assert_eq!(v[1].name, "b");
    assert!(v[1].attached);
}

#[test]
fn parses_pane_line_fields() {
    let p = parse_pane_line("main|0|1|120|40|vim");
    assert_eq!(p.session, "main");
    assert_eq!(p.window, 0);
    assert_eq!(p.pane, 1);
    assert_eq!(p.width, 120);
    assert_eq!(p.height, 40);
    assert_eq!(p.current_command, "vim");
}

#[test]
fn decimal_parsing_defaults_to_zero() {
    assert_eq!(parse_usize("42"), 42);
    assert_eq!(parse_usize(""), 0);
    assert_eq!(parse_usize("4x2"), 0);
    assert_eq!(parse_usize("-1"), 0);
    assert_eq!(parse_usize("99999999999999999999999999"), 0);
}

#[test]
fn splitting_keeps_empty_pieces() {
    let v = split_str("a||b", '|');
    assert_eq!(v, vec!["a".to_string(), "".to_string(), "b".to_string()]);
    assert_eq!(split_str("", '|'), vec!["".to_string()]);
}

#[test]
fn decimal_formatting() {
    assert_eq!(u64_to_string(0), "0");
    assert_eq!(u64_to_string(90210), "90210");
    assert_eq!(i64_to_string(-32700), "-32700");
    assert_eq!(i64_to_string(7), "7");
}

// --- dispatcher validation and routing ---

#[test]
fn missing_required_param_scenario() {
    let req = request(Some(1), "list_panes", vec![]);
    match route_request(&req) {
        Routed::Done(resp) => {
            assert_eq!(resp.id, Some(1));
            assert!(resp.result.is_none());
            let e = resp.error.as_ref().unwrap();
            assert_eq!(e.code, -32602);
            assert_eq!(e.message, "missing required param: session");
            let text = write_message(&Outbound::Reply(resp));
            assert_eq!(
                text,
                "{\"id\":1,\"error\":{\"code\":-32602,\"message\":\"missing required param: session\"}}"
            );
        }
        _ => panic!("expected an immediate error"),
    }
}

#[test]
fn empty_required_param_counts_as_missing() {
    let req = request(Some(4), "list_panes", vec![("session", text(""))]);
    match route_request(&req) {
        Routed::Done(resp) => {
            assert_eq!(resp.error.as_ref().unwrap().code, -32602);
        }
        _ => panic!("expected an immediate error"),
    }
}

#[test]
fn unknown_method_scenario() {
    let req = request(Some(3), "frobnicate", vec![]);
    match route_request(&req) {
        Routed::Done(resp) => {
            assert_eq!(resp.id, Some(3));
            let e = resp.error.as_ref().unwrap();
            assert_eq!(e.code, -32601);
            assert_eq!(e.message, "unknown method: frobnicate");
            let text = write_message(&Outbound::Reply(resp));
            assert_eq!(
                text,
                "{\"id\":3,\"error\":{\"code\":-32601,\"message\":\"unknown method: frobnicate\"}}"
            );
        }
        _ => panic!("expected an immediate error"),
    }
}

#[test]
fn routes_typed_operations() {
    let req = request(
        Some(5),
        "send_keys",
        vec![("target", text("main")), ("keys", text("ls")), ("literal", ParamValue::Flag(true))],
    );
    match route_request(&req) {
        Routed::Tmux(tmux_mobile::dispatch::TmuxOp::SendKeys { target, keys, literal }) => {
            assert_eq!(target, "main");
            assert_eq!(keys, "ls");
            assert!(literal);
        }
        _ => panic!("expected a send-keys operation"),
    }
    let req2 = request(Some(6), "fs_rename", vec![("from", text("/a")), ("to", text("/b"))]);
    match route_request(&req2) {
        Routed::Fs(tmux_mobile::dispatch::FsOp::Rename { from, to }) => {
            assert_eq!(from, "/a");
            assert_eq!(to, "/b");
        }
        _ => panic!("expected a rename operation"),
    }
    let req3 = request(Some(7), "new_session", vec![]);
    match route_request(&req3) {
        Routed::Tmux(tmux_mobile::dispatch::TmuxOp::NewSession { name }) => {
            assert_eq!(name, "untitled");
        }
        _ => panic!("expected a new-session operation"),
    }
}

#[test]
fn capture_lines_bound_is_optional() {
    let req = request(
        Some(8),
        "capture_pane",
        vec![("target", text("main")), ("lines", ParamValue::Count(500))],
    );
    match route_request(&req) {
        Routed::Tmux(tmux_mobile::dispatch::TmuxOp::CapturePane { target, lines }) => {
            assert_eq!(target, "main");
            assert_eq!(lines, Some(500));
        }
        _ => panic!("expected a capture operation"),
    }
}

// --- the authentication gate ---

#[test]
fn correct_token_authenticates_once() {
    let mut c = Connection::new();
    let req = request(Some(1), "auth", vec![("token", text("secret"))]);
    match conn_step(&mut c, Inbound::Frame(Ok(req)), "secret") {
        Action::Reply(resp) => {
            assert_eq!(resp.id, Some(1));
            assert!(matches!(resp.result, Some(Payload::Authenticated)));
            let text = write_message(&Outbound::Reply(resp));
            assert_eq!(text, "{\"id\":1,\"result\":{\"authenticated\":true}}");
        }
        _ => panic!("expected a success reply"),
    }
    assert!(matches!(c.phase, Phase::Authenticated));
}

#[test]
fn wrong_token_closes_connection() {
    let mut c = Connection::new();
    let req = request(Some(1), "auth", vec![("token", text("wrong"))]);
    match conn_step(&mut c, Inbound::Frame(Ok(req)), "secret") {
        Action::ReplyClose(resp) => {
            let e = resp.error.as_ref().unwrap();
            assert_eq!(e.code, -32000);
            assert_eq!(e.message, "invalid token");
        }
        _ => panic!("expected a reply-then-close"),
    }
    assert!(matches!(c.phase, Phase::Closed));
}

#[test]
fn gate_rejects_other_methods_and_closes() {
    let mut c = Connection::new();
    let req = request(Some(2), "list_sessions", vec![]);
    match conn_step(&mut c, Inbound::Frame(Ok(req)), "secret") {
        Action::ReplyClose(resp) => {
            assert_eq!(resp.id, Some(2));
            assert_eq!(resp.error.as_ref().unwrap().code, -32000);
        }
        _ => panic!("expected a reply-then-close"),
    }
    assert!(matches!(c.phase, Phase::Closed));
    // nothing further is processed on a closed connection
    let req2 = request(Some(3), "auth", vec![("token", text("secret"))]);
    assert!(matches!(conn_step(&mut c, Inbound::Frame(Ok(req2)), "secret"), Action::Ignore));
    assert!(matches!(c.phase, Phase::Closed));
}

#[test]
fn second_auth_is_ordinary_method() {
    let mut c = Connection::new();
    let auth = request(Some(1), "auth", vec![("token", text("secret"))]);
    conn_step(&mut c, Inbound::Frame(Ok(auth)), "secret");
    let again = request(Some(2), "auth", vec![("token", text("secret"))]);
    match conn_step(&mut c, Inbound::Frame(Ok(again)), "secret") {
        Action::Dispatch(req) => match route_request(&req) {
            Routed::Done(resp) => {
                assert_eq!(resp.id, Some(2));
                let e = resp.error.as_ref().unwrap();
                assert_eq!(e.code, -32601);
                assert_eq!(e.message, "unknown method: auth");
            }
            _ => panic!("auth is not in the method table"),
        },
        _ => panic!("expected a dispatch"),
    }
    assert!(matches!(c.phase, Phase::Authenticated));
}

#[test]
fn parse_failure_reports_and_keeps_connection() {
    let mut c = Connection::new();
    match conn_step(&mut c, Inbound::Frame(Err("bad".to_string())), "secret") {
        Action::Reply(resp) => {
            assert_eq!(resp.id, None);
            let e = resp.error.as_ref().unwrap();
            assert_eq!(e.code, -32700);
            assert_eq!(e.message, "invalid JSON: bad");
        }
        _ => panic!("expected a reply"),
    }
    assert!(matches!(c.phase, Phase::Unauthenticated));
}

#[test]
fn ping_gets_matching_pong() {
    let mut c = Connection::new();
    match conn_step(&mut c, Inbound::Ping(vec![1, 2, 3]), "secret") {
        Action::Pong(d) => assert_eq!(d, vec![1, 2, 3]),
        _ => panic!("expected a pong"),
    }
    assert!(matches!(c.phase, Phase::Unauthenticated));
}

// --- subscriptions and the polling engine ---

fn authenticated() -> Connection {
    let mut c = Connection::new();
    let auth = request(Some(1), "auth", vec![("token", text("secret"))]);
    conn_step(&mut c, Inbound::Frame(Ok(auth)), "secret");
    c
}

#[test]
fn changed_content_notifies_exactly_once() {
    let mut c = authenticated();
    let sub = request(Some(2), "subscribe", vec![("target", text("pane-A"))]);
    match conn_step(&mut c, Inbound::Frame(Ok(sub)), "secret") {
        Action::Reply(resp) => {
            assert_eq!(resp.id, Some(2));
            assert!(matches!(resp.result, Some(Payload::Subscribed(_))));
        }
        _ => panic!("expected a reply"),
    }
    // first capture: stored content starts empty, so any content is a change
    let n = poll_step(&mut c.subs, "pane-A", Ok("hello".to_string()));
    let n = n.expect("first capture should notify");
    assert_eq!(n.target, "pane-A");
    assert_eq!(n.content, "hello");
    let text = write_message(&Outbound::Push(n));
    assert_eq!(
        text,
        "{\"id\":null,\"method\":\"pane_output\",\"params\":{\"target\":\"pane-A\",\"content\":\"hello\"}}"
    );
    // unchanged content: no second notification
    assert!(poll_step(&mut c.subs, "pane-A", Ok("hello".to_string())).is_none());
    // changed again: exactly one more
    assert!(poll_step(&mut c.subs, "pane-A", Ok("hello world".to_string())).is_some());
}

#[test]
fn no_push_after_unsubscribe() {
    let mut c = authenticated();
    let sub = request(Some(2), "subscribe", vec![("target", text("pane-A"))]);
    conn_step(&mut c, Inbound::Frame(Ok(sub)), "secret");
    assert!(poll_step(&mut c.subs, "pane-A", Ok("v1".to_string())).is_some());
    let unsub = request(Some(3), "unsubscribe", vec![("target", text("pane-A"))]);
    match conn_step(&mut c, Inbound::Frame(Ok(unsub)), "secret") {
        Action::Reply(resp) => {
            assert_eq!(resp.id, Some(3));
            assert!(matches!(resp.result, Some(Payload::Unsubscribed(_))));
        }
        _ => panic!("expected a reply"),
    }
    // a poll already in flight lands after the unsubscribe: no notification
    assert!(poll_step(&mut c.subs, "pane-A", Ok("v2".to_string())).is_none());
}

#[test]
fn failed_capture_is_silently_skipped() {
    let mut c = authenticated();
    let sub = request(Some(2), "subscribe", vec![("target", text("pane-A"))]);
    conn_step(&mut c, Inbound::Frame(Ok(sub)), "secret");
    assert!(poll_step(&mut c.subs, "pane-A", Err("gone".to_string())).is_none());
    // the target stays subscribed and is retried: the next good capture notifies
    assert!(poll_step(&mut c.subs, "pane-A", Ok("back".to_string())).is_some());
}

// --- serialization ---

#[test]
fn serializes_escaped_strings() {
    let resp = Response::ok(Some(7), Payload::Output("a\"b\\c\nd\u{1b}[0m".to_string()));
    let text = write_message(&Outbound::Reply(resp));
    assert_eq!(
        text,
        "{\"id\":7,\"result\":{\"output\":\"a\\\"b\\\\c\\nd\\u001b[0m\"}}"
    );
}

#[test]
fn serializes_null_id() {
    let resp = Response::err(None, -32700, "invalid JSON: x".to_string());
    let text = write_message(&Outbound::Reply(resp));
    assert_eq!(
        text,
        "{\"id\":null,\"error\":{\"code\":-32700,\"message\":\"invalid JSON: x\"}}"
    );
}

// --- the file-browsing rules ---

#[test]
fn upload_download_payloads_round_trip() {
    let bytes: Vec<u8> = vec![0, 1, 2, 250, 255, 10, 0, 77];
    let data = encode_file_data(&bytes);
    let back = decode_file_data(&data).expect("encoded payload must decode");
    assert_eq!(back, bytes);
    let empty = encode_file_data(&Vec::new());
    assert_eq!(decode_file_data(&empty).unwrap(), Vec::<u8>::new());
    assert!(decode_file_data("!!!not base64!!!").is_err());
}

#[test]
fn permission_flags_render() {
    assert_eq!(format_permissions(0o754), "rwxr-xr--");
    assert_eq!(format_permissions(0), "---------");
    assert_eq!(format_permissions(0o600), "rw-------");
}

#[test]
fn media_type_hints() {
    assert_eq!(mime_hint("notes.md"), "text/markdown");
    assert_eq!(mime_hint("MAIN.RS"), "text/rust");
    assert_eq!(mime_hint("/var/log/app.log"), "text/plain");
    assert_eq!(mime_hint("archive.tar"), "application/archive");
    assert_eq!(mime_hint("noextension"), "application/octet-stream");
    assert_eq!(mime_hint(".bashrc"), "application/octet-stream");
    assert_eq!(mime_hint("photo.jpeg"), "image/jpeg");
}

#[test]
fn text_detection_rules() {
    assert!(mime_text_hint("text/rust"));
    assert!(mime_text_hint("application/json"));
    assert!(!mime_text_hint("image/png"));
    assert!(bytes_look_text(&vec![b'h', b'i', b'\n']));
    assert!(!bytes_look_text(&vec![b'h', 0, b'i']));
}

fn entry(name: &str, file_type: &str) -> FileEntry {
    FileEntry {
        name: name.to_string(),
        path: format!("/x/{}", name),
        file_type: file_type.to_string(),
        size: 1,
        modified: 2,
        permissions: "rw-r--r--".to_string(),
        hidden: name.starts_with('.'),
    }
}

#[test]
fn listing_sorts_dirs_first_then_names() {
    let v = vec![
        entry("zeta.txt", "file"),
        entry("Alpha", "dir"),
        entry("beta.txt", "file"),
        entry("gamma", "dir"),
        entry("ALPHA.txt", "file"),
    ];
    let sorted = sort_entries(v);
    let names: Vec<&str> = sorted.iter().map(|e| e.name.as_str()).collect();
    assert_eq!(names, vec!["Alpha", "gamma", "ALPHA.txt", "beta.txt", "zeta.txt"]);
}

// --- configuration precedence ---

#[test]
fn configuration_precedence() {
    let c = Config::resolve(
        Some("1.2.3.4".to_string()),
        None,
        None,
        Some("5.6.7.8".to_string()),
        Some(1234),
        Some("filetok".to_string()),
        "gen".to_string(),
    );
    assert_eq!(c.host, "1.2.3.4");
    assert_eq!(c.port, 1234);
    assert_eq!(c.token, "filetok");

    let d = Config::resolve(None, None, None, None, None, None, "gen".to_string());
    assert_eq!(d.host, "0.0.0.0");
    assert_eq!(d.port, 9876);
    assert_eq!(d.token, "gen");
}
