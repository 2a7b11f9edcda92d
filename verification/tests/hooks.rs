use herdr_targets::hooks::{
    antigravity_cli_hook_block, antigravity_cli_hook_command, grok_hook_command, grok_hook_config,
    hook_command, mastracode_hook_command, shell_single_quote,
};
use herdr_targets::json::json_compact;

#[test]
fn single_quoting() {
    assert_eq!(shell_single_quote("/home/u/x.sh"), "'/home/u/x.sh'");
    assert_eq!(shell_single_quote("it's"), "'it'\\''s'");
    assert_eq!(shell_single_quote(""), "''");
    assert_eq!(shell_single_quote("''"), "''\\'''\\'''");
}

#[test]
fn hook_commands() {
    assert_eq!(hook_command("/h/a b.sh", Some("idle")), "'/h/a b.sh' idle");
    assert_eq!(hook_command("/h/a.sh", None), "'/h/a.sh'");
    assert_eq!(mastracode_hook_command("/h/m.sh", "working"), "'/h/m.sh' working");
    assert_eq!(antigravity_cli_hook_command("/h/g.sh", "blocked"), "'/h/g.sh' blocked");
    assert_eq!(grok_hook_command("/home/u/.grok/hooks/x.sh"), "sh '/home/u/.grok/hooks/x.sh' session");
    assert_eq!(grok_hook_command("/o'k"), "sh '/o'\\''k' session");
}

#[test]
fn grok_config() {
    assert_eq!(
        json_compact(&grok_hook_config("/g/h.sh")),
        "{\"hooks\":{\"SessionStart\":[{\"hooks\":[{\"command\":\"sh '/g/h.sh' session\",\"timeout\":10,\"type\":\"command\"}]}]}}"
    );
}

#[test]
fn antigravity_block() {
    assert_eq!(
        json_compact(&antigravity_cli_hook_block("/a.sh")),
        "{\"SessionStart\":[{\"command\":\"'/a.sh' session\",\"timeout\":10,\"type\":\"command\"}],\"Stop\":[{\"command\":\"'/a.sh' idle\",\"timeout\":10,\"type\":\"command\"}],\"UserPromptSubmit\":[{\"command\":\"'/a.sh' working\",\"timeout\":10,\"type\":\"command\"}]}"
    );
}
