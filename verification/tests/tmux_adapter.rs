use tmux_mobile::dispatch::{handle_request, Handled};
use tmux_mobile::protocol::{Outbound, ParamValue, Params, Payload, Request};
use tmux_mobile::tmux::{shape_invocation, TmuxExecutor};
use tmux_mobile::wire::write_message;

const TEST_SESSION: &str = "_tmux_mobile_test";
const KEEPALIVE_SESSION: &str = "_tmux_mobile_keepalive";

fn executor() -> TmuxExecutor {
    TmuxExecutor::new(None).expect("runtime")
}

/// Keeps a session alive so the multiplexer server stays up across tests.
fn ensure_keepalive(ex: &TmuxExecutor) {
    let _ = ex.new_session(KEEPALIVE_SESSION);
}

fn cleanup(ex: &TmuxExecutor) {
    let _ = ex.kill_session(TEST_SESSION);
}

fn sleep_ms(ms: u64) {
    let rt = tokio::runtime::Builder::new_current_thread()
        .enable_all()
        .build()
        .expect("runtime");
    rt.block_on(async { tokio::time::sleep(std::time::Duration::from_millis(ms)).await });
}

#[test]
fn t01_server_running() {
    let ex = executor();
    ensure_keepalive(&ex);
    assert!(ex.is_server_running(), "tmux server is not running!");
    println!("✅ tmux server is running");
}

#[test]
fn t02_list_sessions() {
    let ex = executor();
    ensure_keepalive(&ex);
    let sessions = ex.list_sessions().expect("Failed to list sessions");
    println!("✅ Found {} sessions:", sessions.len());
    for s in &sessions {
        println!("   - {} ({} windows, attached={})", s.name, s.windows, s.attached);
    }
    assert!(!sessions.is_empty(), "No sessions found");
}

#[test]
fn t03_create_and_kill_session() {
    let ex = executor();
    ensure_keepalive(&ex);
    cleanup(&ex);
    ex.new_session(TEST_SESSION).expect("Failed to create session");
    let sessions = ex.list_sessions().unwrap();
    assert!(sessions.iter().any(|s| s.name == TEST_SESSION), "Test session not found");
    println!("✅ Created session: {}", TEST_SESSION);

    ex.kill_session(TEST_SESSION).expect("Failed to kill session");
    let sessions = ex.list_sessions().unwrap();
    assert!(!sessions.iter().any(|s| s.name == TEST_SESSION), "Test session still exists");
    println!("✅ Killed session: {}", TEST_SESSION);
}

#[test]
fn t04_list_panes() {
    let ex = executor();
    ensure_keepalive(&ex);
    cleanup(&ex);
    ex.new_session(TEST_SESSION).unwrap();
    let panes = ex.list_panes(TEST_SESSION).expect("Failed to list panes");
    println!("✅ Session {} has {} pane(s):", TEST_SESSION, panes.len());
    for p in &panes {
        println!(
            "   - window:{} pane:{} ({}x{}) cmd={}",
            p.window, p.pane, p.width, p.height, p.current_command
        );
    }
    assert!(!panes.is_empty(), "No panes found");
    cleanup(&ex);
}

#[test]
fn send_command_scenario_and_capture() {
    let ex = executor();
    ensure_keepalive(&ex);
    let _ = ex.kill_session("main");
    ex.new_session("main").expect("Failed to create session");
    sleep_ms(300);

    let req = Request {
        id: Some(2),
        method: "send_command".to_string(),
        params: Params {
            entries: vec![
                ("target".to_string(), ParamValue::Text("main".to_string())),
                ("command".to_string(), ParamValue::Text("echo hi".to_string())),
            ],
        },
    };
    match handle_request(&ex, &req) {
        Handled::Replied(resp) => {
            assert_eq!(resp.id, Some(2));
            assert!(resp.error.is_none());
            assert!(matches!(resp.result, Some(Payload::OkFlag)));
            let text = write_message(&Outbound::Reply(resp));
            assert_eq!(text, "{\"id\":2,\"result\":{\"ok\":true}}");
        }
        _ => panic!("expected an immediate reply"),
    }

    sleep_ms(600);
    let out = ex.capture_pane("main", Some(50)).expect("Failed to capture pane");
    assert!(out.contains("hi"), "Command output not found in capture");
    let _ = ex.kill_session("main");
}

#[test]
fn pane_command_reports_foreground_process() {
    let ex = executor();
    ensure_keepalive(&ex);
    cleanup(&ex);
    ex.new_session(TEST_SESSION).unwrap();
    sleep_ms(200);
    let cmd = ex.pane_command(TEST_SESSION).expect("Failed to query pane command");
    assert!(!cmd.is_empty(), "Foreground command should not be empty");
    assert!(!cmd.ends_with('\n'), "Reply should be trimmed");
    cleanup(&ex);
}

#[test]
fn list_sessions_dispatch_roundtrip() {
    let ex = executor();
    ensure_keepalive(&ex);
    let req = Request {
        id: Some(9),
        method: "list_sessions".to_string(),
        params: Params { entries: vec![] },
    };
    match handle_request(&ex, &req) {
        Handled::Replied(resp) => {
            assert_eq!(resp.id, Some(9));
            assert!(resp.error.is_none());
            match &resp.result {
                Some(Payload::Sessions(v)) => assert!(!v.is_empty()),
                _ => panic!("expected a session listing"),
            }
            let text = write_message(&Outbound::Reply(resp));
            assert!(text.starts_with("{\"id\":9,\"result\":[{\"name\":"));
        }
        _ => panic!("expected an immediate reply"),
    }
}

#[test]
fn socket_configuration_is_kept() {
    let mut ex = executor();
    assert_eq!(ex.get_socket(), None);
    ex.set_socket(Some("/tmp/alt-socket".to_string()));
    assert_eq!(ex.get_socket(), Some("/tmp/alt-socket".to_string()));
    ex.set_socket(None);
    assert_eq!(ex.get_socket(), None);
}

#[test]
fn adapter_failure_becomes_internal_error() {
    let ex = executor();
    ensure_keepalive(&ex);
    let _ = ex.kill_session("_tmux_mobile_missing");
    let req = Request {
        id: Some(11),
        method: "list_panes".to_string(),
        params: Params {
            entries: vec![(
                "session".to_string(),
                ParamValue::Text("_tmux_mobile_missing".to_string()),
            )],
        },
    };
    match handle_request(&ex, &req) {
        Handled::Replied(resp) => {
            assert_eq!(resp.id, Some(11));
            assert!(resp.result.is_none());
            let e = resp.error.as_ref().unwrap();
            assert_eq!(e.code, -32603);
            assert!(e.message.starts_with("tmux error:"), "diagnostic text is carried");
        }
        _ => panic!("expected an immediate reply"),
    }
}

fn sv(v: &[&str]) -> Vec<String> {
    v.iter().map(|s| s.to_string()).collect()
}

#[test]
fn argument_grammar_is_fixed() {
    let mut ex = executor();
    assert_eq!(
        ex.list_sessions_args(),
        sv(&[
            "list-sessions",
            "-F",
            "#{session_name}|#{session_windows}|#{session_attached}|#{session_activity}"
        ])
    );
    assert_eq!(
        ex.list_panes_args("main"),
        sv(&[
            "list-panes",
            "-s",
            "-t",
            "main",
            "-F",
            "#{session_name}|#{window_index}|#{pane_index}|#{pane_width}|#{pane_height}|#{pane_current_command}"
        ])
    );
    assert_eq!(
        ex.pane_command_args("main:0.1"),
        sv(&["display-message", "-t", "main:0.1", "-p", "#{pane_current_command}"])
    );
    assert_eq!(
        ex.capture_args("main", Some(50)),
        sv(&["capture-pane", "-t", "main", "-p", "-e", "-J", "-S", "-50"])
    );
    assert_eq!(
        ex.capture_args("main", None),
        sv(&["capture-pane", "-t", "main", "-p", "-e", "-J", "-S", "-200"])
    );
    assert_eq!(
        ex.send_keys_args("main", "echo hi", true),
        sv(&["send-keys", "-t", "main", "-l", "echo hi"])
    );
    assert_eq!(ex.send_keys_args("main", "C-c", false), sv(&["send-keys", "-t", "main", "C-c"]));
    assert_eq!(ex.new_session_args("work"), sv(&["new-session", "-d", "-s", "work"]));
    assert_eq!(ex.kill_session_args("work"), sv(&["kill-session", "-t", "work"]));
    assert_eq!(ex.server_probe_args(), sv(&["list-sessions"]));
    ex.set_socket(Some("/tmp/alt".to_string()));
    assert_eq!(ex.server_probe_args(), sv(&["-S", "/tmp/alt", "list-sessions"]));
    assert_eq!(
        ex.kill_session_args("work"),
        sv(&["-S", "/tmp/alt", "kill-session", "-t", "work"])
    );
}

#[test]
fn invocation_outcomes_are_shaped() {
    assert_eq!(
        shape_invocation(Ok((true, "out".to_string(), "ignored".to_string()))),
        Ok("out".to_string())
    );
    assert_eq!(
        shape_invocation(Ok((false, "ignored".to_string(), "no such session".to_string()))),
        Err("tmux error: no such session".to_string())
    );
    assert_eq!(
        shape_invocation(Err("Failed to run tmux: not found".to_string())),
        Err("Failed to run tmux: not found".to_string())
    );
}
