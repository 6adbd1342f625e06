use sonos_mux::admin::{
    apply_response, collect_apply_body, no_body_response, no_config_response, parse_command,
    reload_response, stats_response, unknown_command_response, version_response, AdminCommand,
    AdminResponse,
};
use sonos_mux::config::ConfigError;
use sonos_mux::MuxError;

#[test]
fn parse_recognizes_every_command() {
    assert!(matches!(parse_command("version"), AdminCommand::Version));
    assert!(matches!(parse_command("stats"), AdminCommand::Stats));
    assert!(matches!(parse_command("apply"), AdminCommand::Apply));
    assert!(matches!(parse_command("  version  "), AdminCommand::Version));
    assert!(matches!(parse_command("version extra"), AdminCommand::Version));
    assert!(matches!(parse_command(""), AdminCommand::Empty));
    assert!(matches!(parse_command("   \t "), AdminCommand::Empty));
}

#[test]
fn parse_reload_takes_an_optional_path() {
    match parse_command("reload") {
        AdminCommand::Reload(None) => {}
        _ => panic!("Expected Reload without a path"),
    }
    match parse_command("reload /etc/mux.toml") {
        AdminCommand::Reload(Some(p)) => assert_eq!(p, "/etc/mux.toml"),
        _ => panic!("Expected Reload with a path"),
    }
}

#[test]
fn parse_reports_unknown_words() {
    match parse_command("restart now") {
        AdminCommand::Unknown(w) => assert_eq!(w, "restart"),
        _ => panic!("Expected Unknown"),
    }
}

#[test]
fn response_json_shape_and_escaping() {
    let r = AdminResponse {
        success: true,
        message: "plain".to_string(),
    };
    assert_eq!(r.to_json(), "{\"success\":true,\"message\":\"plain\"}");

    let r = AdminResponse {
        success: false,
        message: "say \"hi\"\nback\\slash".to_string(),
    };
    assert_eq!(
        r.to_json(),
        "{\"success\":false,\"message\":\"say \\\"hi\\\"\\nback\\\\slash\"}"
    );
}

#[test]
fn response_json_parses_back() {
    let r = AdminResponse {
        success: true,
        message: "tab\there \"quoted\"".to_string(),
    };
    let v: serde_json::Value = serde_json::from_str(&r.to_json()).unwrap();
    assert_eq!(v["success"], serde_json::Value::Bool(true));
    assert_eq!(v["message"], serde_json::Value::String("tab\there \"quoted\"".to_string()));
}

#[test]
fn apply_body_skips_leading_blanks_and_stops_at_blank() {
    let lines: Vec<String> = vec![
        "".to_string(),
        "  ".to_string(),
        "[[inputs]]".to_string(),
        "id = \"a\"".to_string(),
        "".to_string(),
        "ignored".to_string(),
    ];
    let body = collect_apply_body(&lines);
    assert_eq!(body, "[[inputs]]\nid = \"a\"\n");
}

#[test]
fn apply_body_of_blank_lines_is_empty() {
    let lines: Vec<String> = vec!["".to_string(), "   ".to_string()];
    assert_eq!(collect_apply_body(&lines), "");
}

#[test]
fn response_builders_carry_exact_messages() {
    let r = version_response();
    assert!(r.success);
    assert_eq!(r.message, format!("sonos-mux v{}", sonos_mux::version()));

    let r = unknown_command_response("bogus");
    assert!(!r.success);
    assert_eq!(r.message, "Unknown command: bogus");

    let r = no_config_response();
    assert!(!r.success);
    assert_eq!(r.message, "No config file specified");

    let r = no_body_response();
    assert!(!r.success);
    assert_eq!(r.message, "No configuration provided");

    let r = stats_response("[]".to_string());
    assert!(r.success);
    assert_eq!(r.message, "[]");
}

#[test]
fn apply_and_reload_responses_follow_the_outcome() {
    let ok: Result<(), ConfigError> = Ok(());
    let r = apply_response(&ok);
    assert!(r.success);
    assert_eq!(r.message, "Configuration applied successfully");

    let bad: Result<(), ConfigError> = Err(ConfigError::DuplicateId("x".to_string()));
    let r = apply_response(&bad);
    assert!(!r.success);
    assert_eq!(r.message, "Failed to parse config: Duplicate ID: x");

    let r = reload_response(&ok);
    assert!(r.success);
    assert_eq!(r.message, "Configuration reloaded successfully");

    let r = reload_response(&bad);
    assert!(!r.success);
    assert_eq!(r.message, "Failed to load config: Duplicate ID: x");
}

#[test]
fn mux_error_messages_wrap_their_source() {
    let e = MuxError::Config(ConfigError::DuplicateId("x".to_string()));
    assert_eq!(e.message(), "Configuration error: Duplicate ID: x");
    let e = MuxError::Internal("boom".to_string());
    assert_eq!(e.message(), "Internal error: boom");
}
