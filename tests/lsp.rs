use fridex::correlation::{Delivery, PendingTable};
use fridex::framing::{decode_frame, encode_frame};
use fridex::lsp::{client_key, reply_outcome, writer_step, LspCommand, LspError, LspManager, StartPlan};
use fridex::servers::{node_archive_name, server_plan, Arch, Os, Platform, Strategy};

const MAC_ARM: Platform = Platform { os: Os::MacOs, arch: Arch::Aarch64 };
const LINUX_X64: Platform = Platform { os: Os::Linux, arch: Arch::X86_64 };

#[test]
fn keys_join_workspace_and_language() {
    assert_eq!(client_key("ws1", "json"), "ws1:json");
}

#[test]
fn stopping_a_client_never_started_is_a_noop() {
    let mut manager: LspManager<u32> = LspManager::new();
    manager.register("ws1", "rust", 9);
    assert_eq!(manager.stop("ws1", "json"), None);
    assert!(manager.is_started("ws1", "rust"));
    assert_eq!(manager.stop("ws1", "rust"), Some(9));
    assert_eq!(manager.stop("ws1", "rust"), None);
}

#[test]
fn unsupported_language_fails_and_registers_nothing() {
    let manager: LspManager<u32> = LspManager::new();
    let err = manager.plan_start("ws1", "cobol", MAC_ARM).err().unwrap();
    assert_eq!(err, LspError::Unsupported);
    assert!(err.message().contains("unsupported language/platform"));
    assert!(!manager.is_started("ws1", "cobol"));
    assert!(matches!(manager.plan_start("ws1", "rust", LINUX_X64), Err(LspError::Unsupported)));
}

#[test]
fn request_without_client_fails() {
    let manager: LspManager<u32> = LspManager::new();
    assert_eq!(manager.client("ws1", "json").err(), Some(LspError::ClientNotStarted));
}

#[test]
fn start_is_idempotent() {
    let mut manager: LspManager<u32> = LspManager::new();
    match manager.plan_start("ws1", "json", LINUX_X64) {
        Ok(StartPlan::Launch(plan)) => assert_eq!(plan.server_name, "vscode-json-languageserver-bin"),
        _ => panic!("json should launch"),
    }
    manager.register("ws1", "json", 1);
    assert!(matches!(manager.plan_start("ws1", "json", LINUX_X64), Ok(StartPlan::AlreadyRunning)));
}

#[test]
fn server_table() {
    match server_plan("typescript", LINUX_X64).unwrap().strategy {
        Strategy::NodePackage { package, version, bin_name, args, companion } => {
            assert_eq!(package, "typescript-language-server");
            assert_eq!(version, "5.1.3");
            assert_eq!(bin_name, "typescript-language-server");
            assert_eq!(args, vec!["--stdio".to_string()]);
            assert_eq!(companion, Some(("typescript".to_string(), "5.9.3".to_string())));
        },
        _ => panic!("typescript is a node package"),
    }
    match server_plan("rust", MAC_ARM).unwrap().strategy {
        Strategy::BinaryDownload { url, gzip, .. } => {
            assert!(url.ends_with("rust-analyzer-aarch64-apple-darwin.gz"));
            assert!(gzip);
        },
        _ => panic!("rust-analyzer is a download"),
    }
    assert!(matches!(server_plan("go", LINUX_X64).unwrap().strategy, Strategy::GoInstall { .. }));
    assert!(server_plan("c", LINUX_X64).is_none());
    assert!(server_plan("lua", Platform { os: Os::Linux, arch: Arch::Other }).is_none());
}

#[test]
fn node_archives() {
    assert_eq!(node_archive_name("20.11.1", MAC_ARM).unwrap(), "node-v20.11.1-darwin-arm64.tar.gz");
    assert_eq!(node_archive_name("20.11.1", LINUX_X64).unwrap(), "node-v20.11.1-linux-x64.tar.gz");
    assert!(node_archive_name("20.11.1", Platform { os: Os::Windows, arch: Arch::X86_64 }).is_none());
}

#[test]
fn writer_sends_shutdown_then_exit() {
    let (frames, running) = writer_step::<u8>(LspCommand::Shutdown { id: 9 });
    assert!(!running);
    assert_eq!(frames.len(), 2);
    assert_eq!(frames[0].method, "shutdown");
    assert_eq!(frames[1].method, "exit");
    assert_eq!(frames[0].id, Some(9));
    assert!(frames[0].params.is_none());
    assert!(frames[1].id.is_none() && frames[1].params.is_none());
    let (frames, running) = writer_step(LspCommand::Request { id: 4, method: "foo".to_string(), params: 1u8 });
    assert!(running);
    assert_eq!(frames[0].id, Some(4));
    assert_eq!(frames[0].params, Some(1));
}

#[test]
fn reply_outcomes() {
    assert_eq!(reply_outcome(Some("boom"), Some("x"), "null"), Err("boom"));
    assert_eq!(reply_outcome(None, Some("x"), "null"), Ok("x"));
    assert_eq!(reply_outcome::<&str>(None, None, "null"), Ok("null"));
}

#[test]
fn echo_server_request_round_trip() {
    let mut manager: LspManager<PendingTable<&str>> = LspManager::new();
    assert!(matches!(manager.plan_start("ws1", "json", LINUX_X64), Ok(StartPlan::Launch(_))));
    manager.register("ws1", "json", PendingTable::new());
    let mut table = manager.stop("ws1", "json").unwrap();
    let id = table.begin_request("caller").unwrap();
    let (out, _) = writer_step(LspCommand::Request { id, method: "foo".to_string(), params: serde_json::Value::Null });
    let request = serde_json::Value::Object({
        let mut m = serde_json::Map::new();
        m.insert("jsonrpc".to_string(), serde_json::Value::String("2.0".to_string()));
        m.insert("id".to_string(), serde_json::Value::from(out[0].id.unwrap()));
        m.insert("method".to_string(), serde_json::Value::String(out[0].method.clone()));
        m
    });
    let sent = encode_frame(&serde_json::to_vec(&request).unwrap());
    let received: serde_json::Value = serde_json::from_slice(&decode_frame(&sent, None).unwrap().unwrap().body).unwrap();
    let reply_body = format!("{{\"id\":{},\"result\":{{\"ok\":true}}}}", received["id"]);
    let reply_frame = encode_frame(reply_body.as_bytes());
    let reply: serde_json::Value = serde_json::from_slice(&decode_frame(&reply_frame, None).unwrap().unwrap().body).unwrap();
    match table.route(reply.get("id").and_then(|v| v.as_i64())) {
        Delivery::Reply(w) => assert_eq!(w, "caller"),
        Delivery::Notification => panic!("reply not correlated"),
    }
    let result = reply_outcome(reply.get("error").cloned(), reply.get("result").cloned(), serde_json::Value::Null);
    let expected: serde_json::Value = serde_json::from_str("{\"ok\":true}").unwrap();
    assert_eq!(result, Ok(expected));
}

#[test]
fn install_states() {
    use_states();
}

fn use_states() {
    let order = [
        fridex::servers::InstallState::Starting,
        fridex::servers::InstallState::Downloading,
        fridex::servers::InstallState::Verifying,
        fridex::servers::InstallState::Extracting,
        fridex::servers::InstallState::Installed,
    ];
    for pair in order.windows(2) {
        assert!(pair[0].may_precede(pair[1]));
        assert!(!pair[1].may_precede(pair[0]));
    }
    assert!(order[1].may_precede(order[1]));
    assert!(!fridex::servers::InstallState::Extracting.may_precede(fridex::servers::InstallState::Installing));
    assert_eq!(fridex::servers::InstallState::Verifying.name(), "verifying");
}
