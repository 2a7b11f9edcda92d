use herdr_targets::hook_files::{
    cleanup_hooks_file, copilot_install_settings, cursor_install_hooks, devin_install_settings,
    droid_install_settings, droid_remove_hooks,
};
use herdr_targets::hook_plans::{
    devin_uninstall_edits, mastracode_install_edits, mastracode_uninstall_edits, qodercli_uninstall_edits,
};
use herdr_targets::hook_files::{codex_install_hooks, qodercli_install_settings};

const HOOK: &str = "/home/u/.devin/herdr-agent-state.sh";

fn parse(text: &str) -> serde_json::Value {
    serde_json::from_str(text).unwrap()
}

#[test]
fn devin_install_registers_each_event_in_a_fresh_file() {
    let text = devin_install_settings(None, "/home/u/.devin/config.json", HOOK).unwrap();
    let v = parse(&text);
    let group = &v["hooks"]["SessionStart"][0];
    assert!(group.get("matcher").is_none());
    assert_eq!(group["hooks"][0]["type"], "command");
    assert_eq!(group["hooks"][0]["command"], format!("'{HOOK}' session"));
    assert_eq!(group["hooks"][0]["timeout"], 10);
    assert_eq!(v["hooks"]["Stop"][0]["hooks"][0]["command"], format!("'{HOOK}' idle"));
    assert_eq!(v["hooks"].as_object().unwrap().len(), 5);
}

#[test]
fn installing_twice_is_installing_once() {
    let once = devin_install_settings(None, "/c.json", HOOK).unwrap();
    let twice = devin_install_settings(Some(&once), "/c.json", HOOK).unwrap();
    assert_eq!(parse(&once), parse(&twice));
    let q1 = qodercli_install_settings(None, "/s.json", HOOK).unwrap();
    let q2 = qodercli_install_settings(Some(&q1), "/s.json", HOOK).unwrap();
    assert_eq!(parse(&q1), parse(&q2));
    assert_eq!(parse(&q1)["hooks"]["Stop"][0]["matcher"], "*");
}

#[test]
fn other_hooks_and_settings_are_kept() {
    let user = r#"{"model": "x", "hooks": {"Stop": [{"hooks": [{"type": "command", "command": "say done"}]}]}}"#;
    let text = devin_install_settings(Some(user), "/c.json", HOOK).unwrap();
    let v = parse(&text);
    assert_eq!(v["model"], "x");
    assert_eq!(v["hooks"]["Stop"][0]["hooks"][0]["command"], "say done");
    assert_eq!(v["hooks"]["Stop"][1]["hooks"][0]["command"], format!("'{HOOK}' idle"));
    let undone = cleanup_hooks_file(Some(&text), "/c.json", "devin settings", &devin_uninstall_edits(), HOOK)
        .unwrap()
        .unwrap();
    assert_eq!(parse(&undone), parse(user));
}

#[test]
fn cleanup_writes_only_when_something_was_taken_out() {
    let edits = qodercli_uninstall_edits();
    assert_eq!(cleanup_hooks_file(None, "/s.json", "qodercli settings", &edits, HOOK).unwrap(), None);
    assert_eq!(
        cleanup_hooks_file(Some("{\"hooks\": {}}"), "/s.json", "qodercli settings", &edits, HOOK).unwrap(),
        None
    );
    assert_eq!(cleanup_hooks_file(Some("{}"), "/s.json", "qodercli settings", &edits, HOOK).unwrap(), None);
}

#[test]
fn hooks_file_errors() {
    let e = devin_install_settings(Some("{"), "/c.json", HOOK).unwrap_err();
    assert!(e.message.starts_with("failed to parse /c.json: "), "{}", e.message);
    let e = devin_install_settings(Some("[]"), "/c.json", HOOK).unwrap_err();
    assert_eq!(e.message, "devin settings at /c.json must be a JSON object");
    let e = devin_install_settings(Some("{\"hooks\": 1}"), "/c.json", HOOK).unwrap_err();
    assert_eq!(e.message, "devin settings hooks at /c.json must be a JSON object");
    let e = devin_install_settings(Some("{\"hooks\": {\"Stop\": 1}}"), "/c.json", HOOK).unwrap_err();
    assert_eq!(e.message, "hook entries for Stop must be an array");
}

#[test]
fn droid_settings_and_legacy_hooks() {
    let hook = "/h/.factory/hooks/herdr.sh";
    let settings = droid_install_settings(None, "/h/.factory/settings.json", hook).unwrap();
    let v = parse(&settings);
    assert_eq!(v["hooks"]["Notification"][0]["hooks"][0]["command"], format!("'{hook}' blocked"));
    let legacy = format!(
        r#"{{"hooks": {{"SessionStart": [{{"hooks": [{{"type": "command", "command": "'{hook}' old"}}]}}]}}}}"#
    );
    let cleaned = droid_remove_hooks(Some(&legacy), "/h/.factory/hooks.json", "droid hooks file", hook)
        .unwrap()
        .unwrap();
    assert_eq!(parse(&cleaned), parse("{\"hooks\": {}}"));
    assert_eq!(
        droid_remove_hooks(Some(&cleaned), "/h/.factory/hooks.json", "droid hooks file", hook).unwrap(),
        None
    );
    let removed = droid_remove_hooks(Some(&settings), "/s.json", "droid settings", hook).unwrap().unwrap();
    assert_eq!(parse(&removed), parse("{\"hooks\": {}}"));
}

#[test]
fn codex_copilot_and_cursor_files() {
    let codex = parse(&codex_install_hooks(None, "/c/hooks.json", HOOK).unwrap());
    assert_eq!(codex["hooks"].as_object().unwrap().len(), 1);
    assert_eq!(codex["hooks"]["SessionStart"][0]["hooks"][0]["command"], format!("'{HOOK}' session"));
    let copilot = parse(&copilot_install_settings(None, "/p/settings.json", HOOK).unwrap());
    assert_eq!(copilot["hooks"]["sessionStart"][0]["command"], format!("'{HOOK}'"));
    assert_eq!(copilot["hooks"]["sessionStart"][0]["timeout"], 10);
    let cursor = parse(&cursor_install_hooks(None, "/k/hooks.json", HOOK).unwrap());
    assert_eq!(cursor["version"], 1);
    assert_eq!(cursor["hooks"]["sessionStart"][0]["command"], format!("'{HOOK}' session"));
    let e = cursor_install_hooks(Some("[1]"), "/k/hooks.json", HOOK).unwrap_err();
    assert_eq!(e.message, "cursor hooks file at /k/hooks.json must be a JSON object");
}

#[test]
fn mastracode_file_is_the_hooks_object() {
    let edits = mastracode_install_edits(HOOK);
    let text = herdr_targets::hook_files::flat_hooks_file(None, "/m/hooks.json", "mastracode hooks file", &edits, HOOK, true)
        .unwrap()
        .unwrap();
    let v = parse(&text);
    assert_eq!(v["session_start"][0]["command"], format!("'{HOOK}' session"));
    assert_eq!(v["session_start"][0]["timeout"], 10_000);
    let undo = mastracode_uninstall_edits(HOOK);
    let cleaned = herdr_targets::hook_files::flat_hooks_file(Some(&text), "/m/hooks.json", "mastracode hooks file", &undo, HOOK, false)
        .unwrap()
        .unwrap();
    assert_eq!(parse(&cleaned), parse("{}"));
    let e = herdr_targets::hook_files::flat_hooks_file(Some("1"), "/m/hooks.json", "mastracode hooks file", &undo, HOOK, false)
        .unwrap_err();
    assert_eq!(e.message, "mastracode hooks file at /m/hooks.json must be a JSON object");
}
