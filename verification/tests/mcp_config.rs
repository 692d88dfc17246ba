use daemon8::daemon::setup::{
    ai_tool_checks, binary_stale, channel_command, config_names_daemon, patched_mcp_config,
    registration_command, service_prompt, ToolCli,
};

#[test]
fn new_config_holds_only_the_daemon_entry() {
    let text = patched_mcp_config(None, "Cursor", 7777, None).unwrap();
    assert_eq!(
        text,
        "{\n  \"mcpServers\": {\n    \"daemon8\": {\n      \"type\": \"http\",\n      \"url\": \"http://localhost:7777/mcp\"\n    }\n  }\n}"
    );
}

#[test]
fn gemini_entry_uses_http_url() {
    let text = patched_mcp_config(None, "Gemini", 8080, None).unwrap();
    let v: serde_json::Value = serde_json::from_str(&text).unwrap();
    assert_eq!(
        v["mcpServers"]["daemon8"]["httpUrl"].as_str(),
        Some("http://localhost:8080/mcp")
    );
    assert!(v["mcpServers"]["daemon8"].get("type").is_none());
}

#[test]
fn existing_config_keeps_other_servers_and_settings() {
    let existing = "{\"theme\": \"dark\", \"mcpServers\": {\"other\": {\"url\": \"x\"}}}";
    let text = patched_mcp_config(Some(existing), "Windsurf", 9000, None).unwrap();
    let v: serde_json::Value = serde_json::from_str(&text).unwrap();
    assert_eq!(v["theme"].as_str(), Some("dark"));
    assert_eq!(v["mcpServers"]["other"]["url"].as_str(), Some("x"));
    assert_eq!(
        v["mcpServers"]["daemon8"]["url"].as_str(),
        Some("http://localhost:9000/mcp")
    );
    assert!(config_names_daemon(&text));
    assert!(!config_names_daemon(existing));
}

#[test]
fn unparsable_config_is_replaced_and_non_object_refused() {
    let text = patched_mcp_config(Some("not json"), "Cursor", 1, None).unwrap();
    assert!(config_names_daemon(&text));
    assert_eq!(
        patched_mcp_config(Some("[1, 2]"), "Cursor", 1, None),
        Err("config is not a JSON object".to_string())
    );
}

#[test]
fn non_object_servers_member_is_left_alone() {
    let text = patched_mcp_config(Some("{\"mcpServers\": 3}"), "Cursor", 1, None).unwrap();
    let v: serde_json::Value = serde_json::from_str(&text).unwrap();
    assert_eq!(v["mcpServers"].as_u64(), Some(3));
    assert!(!config_names_daemon(&text));
    assert!(!config_names_daemon("{\"daemon8\": {}}"));
    assert!(!config_names_daemon("garbage"));
}

#[test]
fn user_scoped_tools_get_the_channel_server() {
    let text = patched_mcp_config(None, "Agent", 7777, Some("/opt/bin/daemon8")).unwrap();
    let v: serde_json::Value = serde_json::from_str(&text).unwrap();
    assert_eq!(v["mcpServers"]["daemon8"]["type"].as_str(), Some("http"));
    assert_eq!(
        v["mcpServers"]["daemon8-channel"]["command"].as_str(),
        Some("/opt/bin/daemon8")
    );
    assert_eq!(v["mcpServers"]["daemon8-channel"]["args"][0].as_str(), Some("channel"));

    let existing = "{\"mcpServers\": {\"other\": {}}}";
    let text = patched_mcp_config(Some(existing), "Agent", 1, Some("d8")).unwrap();
    let v: serde_json::Value = serde_json::from_str(&text).unwrap();
    assert!(v["mcpServers"]["other"].is_object());
    assert_eq!(v["mcpServers"]["daemon8-channel"]["command"].as_str(), Some("d8"));
}

#[test]
fn registration_commands_follow_the_tool_cli() {
    let url = "http://localhost:7777/mcp";
    assert!(registration_command(ToolCli::NoCli, url).is_none());
    let (prog, args) = registration_command(ToolCli::Gemini, url).unwrap();
    assert_eq!(prog, "gemini");
    assert_eq!(args, ["mcp", "add", "daemon8", url, "--transport", "http", "--scope", "user"]);
    let (prog, args) = registration_command(ToolCli::UserScoped("agent"), url).unwrap();
    assert_eq!(prog, "agent");
    assert_eq!(args, ["mcp", "add", "--scope", "user", "--transport", "http", "daemon8", url]);
    let (prog, args) = channel_command(ToolCli::UserScoped("agent"), "/bin/d8").unwrap();
    assert_eq!(prog, "agent");
    assert_eq!(
        args,
        ["mcp", "add", "--scope", "user", "--transport", "stdio", "daemon8-channel", "/bin/d8", "--", "channel"]
    );
    assert!(channel_command(ToolCli::Gemini, "/bin/d8").is_none());
    let names: Vec<&str> = ai_tool_checks().iter().map(|t| t.name).collect();
    assert_eq!(names, ["Cursor", "Windsurf", "Gemini"]);
}

#[test]
fn service_staleness_and_prompt() {
    assert!(!binary_stale(Some("/usr/bin/daemon8"), "/usr/bin/daemon8", true));
    assert!(binary_stale(Some("/old/daemon8"), "/usr/bin/daemon8", true));
    assert!(binary_stale(None, "/usr/bin/daemon8", false));
    assert!(!binary_stale(None, "/usr/bin/daemon8", true));
    assert_eq!(service_prompt(true, false), None);
    assert_eq!(
        service_prompt(false, true),
        Some("System service is registered but the binary path has changed and it is not running. Re-register?")
    );
    assert_eq!(
        service_prompt(true, true),
        Some("System service is running but points to a different binary. Re-register?")
    );
    assert_eq!(service_prompt(false, false), Some("System service is registered but not running. Repair?"));
}
