use fridex::mcp::{
    list_configured_mcp_servers_from_toml, normalize_mcp_server_header_name, parse_mcp_server_section_header,
    upsert_mcp_server_enabled,
};
use fridex::models::{collect_unique_models, GeminiCliResponse};
use fridex::text::split_lines;

#[test]
fn section_headers() {
    assert_eq!(parse_mcp_server_section_header("[mcp_servers.foo]"), Some("foo".to_string()));
    assert_eq!(parse_mcp_server_section_header("  [mcp_servers.\"foo bar\"]  "), Some("foo bar".to_string()));
    assert_eq!(parse_mcp_server_section_header("[mcp_servers.]"), None);
    assert_eq!(parse_mcp_server_section_header("[other.foo]"), None);
    assert_eq!(parse_mcp_server_section_header("enabled = true"), None);
}

#[test]
fn quoted_headers() {
    assert_eq!(normalize_mcp_server_header_name("foo"), "[mcp_servers.\"foo\"]");
    assert_eq!(normalize_mcp_server_header_name("a\"b"), "[mcp_servers.\"a\\\"b\"]");
    let header = normalize_mcp_server_header_name("my server");
    assert_eq!(parse_mcp_server_section_header(&header), Some("my server".to_string()));
}

#[test]
fn unique_models() {
    let items = vec![" alpha-1 ".to_string(), "".to_string(), "alpha-1".to_string(), "beta-2".to_string(), "  ".to_string()];
    assert_eq!(collect_unique_models(items), vec!["alpha-1".to_string(), "beta-2".to_string()]);
    assert!(collect_unique_models(Vec::new()).is_empty());
}

#[test]
fn lines_like_std() {
    for text in ["", "a", "a\n", "a\r\nb", "\n\nx\r\n", "a\n\n"] {
        let expected: Vec<String> = text.lines().map(|l| l.to_string()).collect();
        assert_eq!(split_lines(text), expected);
    }
}

#[test]
fn cli_response_holds_content() {
    let r = GeminiCliResponse { content: "hi".to_string() };
    assert_eq!(r.clone().content, "hi");
}

#[test]
fn configured_servers_sorted_by_name() {
    let contents = "[mcp_servers.zeta]\ncommand = \"x\"\n[mcp_servers.\"alpha beta\"]\nenabled = false # off\n[other]\nenabled = false\n[mcp_servers.mid]\n  enabled = true\n";
    let found: Vec<(String, bool)> =
        list_configured_mcp_servers_from_toml(contents).into_iter().map(|e| (e.name, e.enabled)).collect();
    assert_eq!(
        found,
        vec![("alpha beta".to_string(), false), ("mid".to_string(), true), ("zeta".to_string(), true)]
    );
    assert!(list_configured_mcp_servers_from_toml("").is_empty());
}

#[test]
fn upsert_replaces_existing_flag() {
    let contents = "[mcp_servers.\"foo\"]\ncommand = \"x\"\nenabled = true\n";
    assert_eq!(upsert_mcp_server_enabled(contents, "foo", false), "[mcp_servers.\"foo\"]\ncommand = \"x\"\nenabled = false\n");
}

#[test]
fn upsert_inserts_flag_after_header() {
    let contents = "[mcp_servers.\"foo\"]\ncommand = \"x\"\n[next]\nenabled = false\n";
    assert_eq!(
        upsert_mcp_server_enabled(contents, "foo", true),
        "[mcp_servers.\"foo\"]\nenabled = true\ncommand = \"x\"\n[next]\nenabled = false\n"
    );
}

#[test]
fn upsert_appends_missing_section() {
    assert_eq!(
        upsert_mcp_server_enabled("model = \"m\"", "bar", true),
        "model = \"m\"\n\n[mcp_servers.\"bar\"]\nenabled = true\n"
    );
    assert_eq!(upsert_mcp_server_enabled("", "bar", false), "[mcp_servers.\"bar\"]\nenabled = false\n");
    assert_eq!(upsert_mcp_server_enabled("a = 1\n\n", "b", true), "a = 1\n\n[mcp_servers.\"b\"]\nenabled = true\n");
}
