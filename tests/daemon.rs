use fridex::daemon::{
    build_error_response, build_result_response, daemon_method, event_method, forward_step, parse_args,
    parse_auth_token, run_forwarding, unknown_method_error, usage, ArgsOutcome, AuthParams, ConnAction, Connection,
    DaemonMethod, EventKind, ForwardStep, Received, ReplyBody,
};

fn args(items: &[&str]) -> Vec<String> {
    items.iter().map(|s| s.to_string()).collect()
}

#[test]
fn requests_before_auth_are_unauthorized_every_time() {
    let token = Some("secret".to_string());
    let mut conn = Connection::new(&token);
    assert!(!conn.is_authenticated());
    for method in ["ping", "list_workspaces", "acp_send"] {
        assert_eq!(conn.on_request(&token, method, None), ConnAction::Deny("unauthorized".to_string()));
        assert!(!conn.is_authenticated());
    }
    assert_eq!(conn.on_request(&token, "auth", Some("secret".to_string())), ConnAction::Accept);
    assert!(conn.is_authenticated());
}

#[test]
fn daemon_with_token_scenario() {
    let token = Some("secret".to_string());
    let mut conn = Connection::new(&token);
    let denied = conn.on_request(&token, "ping", None);
    let ConnAction::Deny(message) = denied else { panic!("ping before auth must be refused") };
    let reply = build_error_response::<()>(Some(1), &message).unwrap();
    assert_eq!(reply.id, 1);
    assert!(matches!(reply.body, ReplyBody::Error(ref m) if m == "unauthorized"));
    let provided = parse_auth_token(AuthParams::Text("secret".to_string()));
    assert_eq!(conn.on_request(&token, "auth", provided), ConnAction::Accept);
    assert_eq!(conn.on_request(&token, "ping", None), ConnAction::Dispatch);
    assert_eq!(daemon_method("ping"), Some(DaemonMethod::Ping));
    let ok = build_result_response(Some(2), "ok").unwrap();
    assert_eq!(ok.id, 2);
    assert!(matches!(ok.body, ReplyBody::Result("ok")));
}

#[test]
fn wrong_token_is_refused() {
    let token = Some("secret".to_string());
    let mut conn = Connection::new(&token);
    assert_eq!(conn.on_request(&token, "auth", Some("nope".to_string())), ConnAction::Deny("invalid token".to_string()));
    assert_eq!(conn.on_request(&token, "auth", None), ConnAction::Deny("invalid token".to_string()));
    assert!(!conn.is_authenticated());
}

#[test]
fn no_token_means_authenticated() {
    let conn = Connection::new(&None);
    assert!(conn.is_authenticated());
}

#[test]
fn auth_token_shapes() {
    assert_eq!(parse_auth_token(AuthParams::Object { token: Some("t".to_string()) }), Some("t".to_string()));
    assert_eq!(parse_auth_token(AuthParams::Object { token: None }), None);
    assert_eq!(parse_auth_token(AuthParams::Other), None);
}

#[test]
fn replies_need_an_id() {
    assert!(build_error_response::<()>(None, "x").is_none());
    assert!(build_result_response(None, 1).is_none());
}

#[test]
fn lag_is_tolerated() {
    let (e, l, c) = (Received::Event, Received::Lagged, Received::Closed);
    assert_eq!(forward_step(l), ForwardStep::Skip);
    assert_eq!(forward_step(e), ForwardStep::Deliver);
    assert_eq!(forward_step(c), ForwardStep::Stop);
    assert_eq!(run_forwarding(&vec![e, l, e, e, c, e]), vec![0, 2, 3]);
    assert_eq!(run_forwarding(&vec![]), Vec::<usize>::new());
}

#[test]
fn event_methods() {
    assert_eq!(event_method(EventKind::AppServer), "app-server-event");
    assert_eq!(event_method(EventKind::TerminalOutput), "terminal-output");
    assert_eq!(event_method(EventKind::TerminalExit), "terminal-exit");
    assert_eq!(event_method(EventKind::Acp), "acp-event");
}

#[test]
fn dispatch_table() {
    assert_eq!(daemon_method("acp_send_stream"), Some(DaemonMethod::AcpSendStream));
    assert_eq!(daemon_method("nope"), None);
    assert_eq!(unknown_method_error("nope"), "unknown method: nope");
}

#[test]
fn command_line() {
    match parse_args(&args(&["--token", "  abc ", "--listen", "0.0.0.0:1"]), None).unwrap() {
        ArgsOutcome::Run(c) => {
            assert_eq!(c.token, Some("abc".to_string()));
            assert_eq!(c.listen, "0.0.0.0:1");
            assert_eq!(c.data_dir, None);
        },
        ArgsOutcome::Help => panic!("no help asked"),
    }
    match parse_args(&args(&["--insecure-no-auth", "--data-dir", "/d"]), Some("env".to_string())).unwrap() {
        ArgsOutcome::Run(c) => {
            assert_eq!(c.token, None);
            assert_eq!(c.listen, "127.0.0.1:4732");
            assert_eq!(c.data_dir, Some("/d".to_string()));
        },
        ArgsOutcome::Help => panic!("no help asked"),
    }
    match parse_args(&args(&[]), Some(" env ".to_string())).unwrap() {
        ArgsOutcome::Run(c) => assert_eq!(c.token, Some("env".to_string())),
        ArgsOutcome::Help => panic!("no help asked"),
    }
    assert!(matches!(parse_args(&args(&["-h"]), None), Ok(ArgsOutcome::Help)));
    assert_eq!(parse_args(&args(&["--token"]), None).err(), Some("--token requires a value".to_string()));
    assert_eq!(parse_args(&args(&["--token", "  "]), None).err(), Some("--token requires a non-empty value".to_string()));
    assert_eq!(parse_args(&args(&["--bogus"]), None).err(), Some("Unknown argument: --bogus".to_string()));
    assert!(parse_args(&args(&[]), Some("   ".to_string())).err().unwrap().starts_with("Missing --token"));
    match parse_args(&args(&["--token", "\u{3000}tok\u{a0}\n"]), None).unwrap() {
        ArgsOutcome::Run(c) => assert_eq!(c.token, Some("tok".to_string())),
        ArgsOutcome::Help => panic!("no help asked"),
    }
    assert!(usage().contains("--insecure-no-auth"));
}
