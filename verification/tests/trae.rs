use herdr_targets::json::json_compact;
use herdr_targets::trae::{
    is_trae_trust_header, trae_config_decision, trae_config_update, trae_config_without_trust,
    trae_event_snake_case, trae_plugin_hook_command, trae_plugin_hooks, trae_plugin_id,
    trae_plugin_manifest, trae_plugin_registered, trae_trust_key, trae_trusted_hash,
    trusted_hash_text, with_trae_trust_entries, without_trae_trust_entries,
};
use herdr_targets::error::ErrorKind;

#[test]
fn snake_case_of_event_names() {
    assert_eq!(trae_event_snake_case("PostToolUseFailure"), "post_tool_use_failure");
    assert_eq!(trae_event_snake_case("SessionStart"), "session_start");
    assert_eq!(trae_event_snake_case("Stop"), "stop");
    assert_eq!(trae_event_snake_case(""), "");
    assert_eq!(trae_event_snake_case("ABC"), "a_b_c");
    assert_eq!(trae_event_snake_case("ÄpfelX"), "Äpfel_x");
}

#[test]
fn snake_case_is_a_normal_form() {
    for name in ["PostToolUseFailure", "already_snake", "MiXeD_Case", "X"] {
        let once = trae_event_snake_case(name);
        assert!(!once.chars().any(|c| c.is_ascii_uppercase()));
        assert_eq!(trae_event_snake_case(&once), once);
    }
}

#[test]
fn plugin_identity_and_commands() {
    assert_eq!(trae_plugin_id(), "herdr@local");
    assert_eq!(
        trae_plugin_hook_command("idle"),
        "sh \"__PLUGIN_DIR__/herdr-agent-state.sh\" idle"
    );
    assert_eq!(trae_trust_key("PreToolUse"), "herdr@local:hooks.json:pre_tool_use:0:0");
}

#[test]
fn trusted_hash_of_known_identities() {
    assert_eq!(
        trae_trusted_hash("SessionStart", "session"),
        "sha256:6ed0bfd23f74bf34575af4f70403c00f0ed8731f4a5e9b4244c7a8b97ec99bf1"
    );
    assert_eq!(
        trae_trusted_hash("PostToolUseFailure", "working"),
        "sha256:36836f770fbdec4dfbb6662af4fff62e0a61dcec36d56e579f9027daf35eda2c"
    );
}

#[test]
fn trusted_hash_text_spells_the_digest_in_lower_hex() {
    assert_eq!(trusted_hash_text(&[0x00, 0x0f, 0xa5, 0xff]), "sha256:000fa5ff");
    assert_eq!(trusted_hash_text(&[]), "sha256:");
}

#[test]
fn trust_headers_are_recognised_after_trimming() {
    assert!(is_trae_trust_header("[hooks.state.\"herdr@local:hooks.json:stop:0:0\"]"));
    assert!(is_trae_trust_header("   [hooks.state.\"herdr@local:anything\"]  \t"));
    assert!(!is_trae_trust_header("[hooks.state.\"other@local:hooks.json:stop:0:0\"]"));
    assert!(!is_trae_trust_header("[hooks.state.\"herdr@local\"]"));
    assert!(!is_trae_trust_header(""));
}

const CONFIG: &str = "model = \"x\"\n\n[hooks.state.\"herdr@local:hooks.json:stop:0:0\"]\ntrusted_hash = \"sha256:00\"\n\n[features]\nhooks = true\n";

#[test]
fn without_removes_only_herdr_trust_tables() {
    assert_eq!(
        without_trae_trust_entries(CONFIG),
        "model = \"x\"\n\n[features]\nhooks = true\n"
    );
    let other = "[hooks.state.\"someone@else:x\"]\ntrusted_hash = \"sha256:11\"\n";
    assert_eq!(without_trae_trust_entries(other), other);
}

#[test]
fn without_edge_cases() {
    assert_eq!(without_trae_trust_entries(""), "");
    assert_eq!(
        without_trae_trust_entries("[hooks.state.\"herdr@local:a\"]\ntrusted_hash = \"b\"\n"),
        ""
    );
    assert_eq!(without_trae_trust_entries("a = 1"), "a = 1\n");
    assert_eq!(without_trae_trust_entries("a = 1\r\n\r\n  \n"), "a = 1\n");
    // a trust table at the end swallows the trailing lines of the file
    assert_eq!(
        without_trae_trust_entries("a = 1\n[hooks.state.\"herdr@local:a\"]\nx = 1\n# note\n"),
        "a = 1\n"
    );
}

#[test]
fn without_is_idempotent() {
    let once = without_trae_trust_entries(CONFIG);
    assert_eq!(without_trae_trust_entries(&once), once);
}

#[test]
fn without_is_not_idempotent_when_a_crlf_survives() {
    // "a\r" followed by a CRLF keeps one carriage return before a newline
    let once = without_trae_trust_entries("a\r\r\nb");
    assert_eq!(once, "a\r\nb\n");
    assert_eq!(without_trae_trust_entries(&once), "a\nb\n");
}

#[test]
fn with_adds_one_trust_table_per_event() {
    let out = with_trae_trust_entries(CONFIG);
    assert!(out.starts_with("model = \"x\"\n\n[features]\nhooks = true\n\n[hooks.state.\"herdr@local:hooks.json:session_start:0:0\"]\ntrusted_hash = \"sha256:6ed0bfd23f74bf34575af4f70403c00f0ed8731f4a5e9b4244c7a8b97ec99bf1\"\n"));
    assert_eq!(out.lines().filter(|l| is_trae_trust_header(l)).count(), 7);
    assert!(out.ends_with("\"\n"));
    let fresh = with_trae_trust_entries("");
    assert!(fresh.starts_with("[hooks.state.\"herdr@local:hooks.json:session_start:0:0\"]\n"));
}

#[test]
fn without_undoes_with() {
    for config in [CONFIG, "", "a = 1", "[x]\ny = 2\n\n\n"] {
        assert_eq!(
            without_trae_trust_entries(&with_trae_trust_entries(config)),
            without_trae_trust_entries(config)
        );
    }
}

#[test]
fn with_is_idempotent() {
    for config in [CONFIG, "", "a = 1"] {
        let once = with_trae_trust_entries(config);
        assert_eq!(with_trae_trust_entries(&once), once);
    }
}

#[test]
fn plugin_registration_is_read_from_the_plugin_table() {
    assert!(trae_plugin_registered("x = 1\n  [plugins.\"herdr@local\"]  \nenabled = true\n"));
    assert!(!trae_plugin_registered("[plugins.\"herdr@other\"]\n"));
    assert!(!trae_plugin_registered("# [plugins.\"herdr@local\"]\n"));
    assert!(!trae_plugin_registered(""));
}

#[test]
fn config_decisions() {
    let e = trae_config_decision("a", "b".to_string(), Some("bad".to_string()), "/c.toml")
        .unwrap_err();
    assert_eq!(e.kind, ErrorKind::Other);
    assert_eq!(
        e.message,
        "refusing to write /c.toml: result would not be valid TOML: bad"
    );
    assert_eq!(trae_config_decision("a", "a".to_string(), None, "/c.toml").unwrap(), None);
    assert_eq!(
        trae_config_decision("a", "b".to_string(), None, "/c.toml").unwrap(),
        Some("b".to_string())
    );
}

#[test]
fn config_update_checks_toml() {
    let update = trae_config_update("", "[features]\nhooks = true\n", "/c.toml").unwrap();
    let written = update.unwrap();
    assert!(written.starts_with("[features]\nhooks = true\n\n[hooks.state."));
    assert!(toml::from_str::<toml::Value>(&written).is_ok());
    // already up to date
    assert_eq!(trae_config_update(&written, &written, "/c.toml").unwrap(), None);
    // not TOML
    let e = trae_config_update("", "= broken", "/c.toml").unwrap_err();
    assert!(e.message.starts_with("refusing to write /c.toml: result would not be valid TOML: "));
}

#[test]
fn config_without_trust() {
    assert_eq!(
        trae_config_without_trust(CONFIG),
        Some("model = \"x\"\n\n[features]\nhooks = true\n".to_string())
    );
    assert_eq!(trae_config_without_trust("a = 1\n"), None);
}

#[test]
fn plugin_hooks_file() {
    let text = json_compact(&trae_plugin_hooks());
    assert!(text.starts_with("{\"hooks\":{\"PermissionRequest\":[{\"hooks\":[{\"command\":\"sh \\\"__PLUGIN_DIR__/herdr-agent-state.sh\\\" blocked\",\"timeout\":10,\"type\":\"command\"}]}],"));
    let value: serde_json::Value = serde_json::from_str(&text).unwrap();
    assert_eq!(value["hooks"].as_object().unwrap().len(), 7);
}

#[test]
fn plugin_manifest_file() {
    assert_eq!(
        json_compact(&trae_plugin_manifest()),
        "{\"description\":\"Report Trae agent state to herdr\",\"hooks\":\"./hooks.json\",\"interface\":{\"category\":\"Developer Tools\",\"displayName\":\"herdr\",\"shortDescription\":\"Report Trae agent state to herdr\"},\"name\":\"herdr\",\"version\":\"3.0.0\"}"
    );
}

#[test]
fn every_written_trust_header_is_recognised() {
    let written = with_trae_trust_entries("");
    let headers: Vec<&str> = written.lines().filter(|l| l.starts_with('[')).collect();
    assert_eq!(headers.len(), 7);
    assert!(headers.iter().all(|h| is_trae_trust_header(h)));
    assert!(written.lines().filter(|l| !l.starts_with('[')).all(|l| !is_trae_trust_header(l)));
}

#[test]
fn without_keeps_a_file_with_no_trust_tables() {
    let config = "model = \"x\"\n\n[plugins.\"other@local\"]\nenabled = true\n";
    assert_eq!(without_trae_trust_entries(config), config);
    assert_eq!(without_trae_trust_entries(""), "");
    assert_eq!(without_trae_trust_entries("a = 1  \n\n"), "a = 1\n");
}
