//! Names, events and limits of the integrations, shared by the installers
//! and the uninstallers.
use vstd::prelude::*;

verus! {

pub const PI_EXTENSION_INSTALL_NAME: &'static str = "herdr.ts";

pub const OMP_EXTENSION_INSTALL_NAME: &'static str = "herdr-omp.ts";

pub const KILO_PLUGIN_INSTALL_NAME: &'static str = "herdr.js";

pub const OPENCODE_PLUGIN_INSTALL_NAME: &'static str = "herdr.js";

pub const OPENCODE_TUI_PLUGIN_INSTALL_NAME: &'static str = "herdr-tui.js";

pub const OPENCODE_V2_TUI_PLUGIN_DIR: &'static str = "herdr-tui";

pub const GROK_HOOK_INSTALL_NAME: &'static str = "herdr-agent-state.sh";

pub const GROK_HOOK_CONFIG_INSTALL_NAME: &'static str = "herdr.json";

pub const GROK_HOOK_TIMEOUT_SEC: u64 = 10;

pub const ANTIGRAVITY_CLI_HOOK_BLOCK_NAME: &'static str = "herdr";

pub const ANTIGRAVITY_CLI_HOOK_TIMEOUT_SEC: u64 = 10;

pub const LETTA_HOOK_TIMEOUT_MS: u64 = 10000;

pub const MASTRACODE_HOOK_TIMEOUT_MS: u64 = 10000;

pub const CODEX_HOOK_TIMEOUT_SEC: u64 = 10;

pub const QWEN_HOOK_TIMEOUT_MS: u64 = 10000;

pub const TRAE_PLUGIN_NAME: &'static str = "herdr";

pub const TRAE_PLUGIN_MARKETPLACE: &'static str = "local";

pub const TRAE_PLUGIN_DIR_NAME: &'static str = "herdr-plugin";

pub const TRAE_HOOK_INSTALL_NAME: &'static str = "herdr-agent-state.sh";

pub const TRAE_HOOK_TIMEOUT_SEC: u64 = 10;

pub const TRAE_CLI_ENV_VAR: &'static str = "HERDR_TRAE_CLI";

pub const TRAE_INTEGRATION_VERSION: u64 = 3;

/// The Trae hook events and the state each one reports.
pub open spec fn trae_hook_events_spec() -> Seq<(Seq<char>, Seq<char>)> {
    seq![
        ("SessionStart"@, "session"@),
        ("UserPromptSubmit"@, "working"@),
        ("PreToolUse"@, "working"@),
        ("PostToolUse"@, "working"@),
        ("PostToolUseFailure"@, "working"@),
        ("PermissionRequest"@, "blocked"@),
        ("Stop"@, "idle"@),
    ]
}

pub open spec fn pairs_view(v: Seq<(&str, &str)>) -> Seq<(Seq<char>, Seq<char>)> {
    v.map_values(|p: (&str, &str)| (p.0@, p.1@))
}

pub fn trae_hook_events() -> (v: Vec<(&'static str, &'static str)>)
    ensures
        pairs_view(v@) == trae_hook_events_spec(),
{
    let v = vec![
        ("SessionStart", "session"),
        ("UserPromptSubmit", "working"),
        ("PreToolUse", "working"),
        ("PostToolUse", "working"),
        ("PostToolUseFailure", "working"),
        ("PermissionRequest", "blocked"),
        ("Stop", "idle"),
    ];
    assert(pairs_view(v@) =~= trae_hook_events_spec());
    v
}

/// The Antigravity CLI hook events and the state each one reports.
pub open spec fn antigravity_cli_hook_events_spec() -> Seq<(Seq<char>, Seq<char>)> {
    seq![
        ("SessionStart"@, "session"@),
        ("UserPromptSubmit"@, "working"@),
        ("Stop"@, "idle"@),
    ]
}

pub fn antigravity_cli_hook_events() -> (v: Vec<(&'static str, &'static str)>)
    ensures
        pairs_view(v@) == antigravity_cli_hook_events_spec(),
{
    let v = vec![("SessionStart", "session"), ("UserPromptSubmit", "working"), ("Stop", "idle")];
    assert(pairs_view(v@) =~= antigravity_cli_hook_events_spec());
    v
}

/// The program names tried for the Trae CLI, in order.
pub open spec fn trae_cli_names_spec() -> Seq<Seq<char>> {
    seq!["traex"@, "traecli"@, "trae-cli"@]
}

pub fn trae_cli_names() -> (v: Vec<&'static str>)
    ensures
        v@.map_values(|s: &str| s@) == trae_cli_names_spec(),
{
    let v = vec!["traex", "traecli", "trae-cli"];
    assert(v@.map_values(|s: &str| s@) =~= trae_cli_names_spec());
    v
}

/// The Copilot CLI hook events herdr registers.
pub open spec fn copilot_hook_events_spec() -> Seq<Seq<char>> {
    seq![
        "sessionStart"@,
        "userPromptSubmitted"@,
        "preToolUse"@,
        "postToolUse"@,
        "errorOccurred"@,
    ]
}

pub fn copilot_hook_events() -> (v: Vec<&'static str>)
    ensures
        v@.map_values(|s: &str| s@) == copilot_hook_events_spec(),
{
    let v = vec!["sessionStart", "userPromptSubmitted", "preToolUse", "postToolUse", "errorOccurred"];
    assert(v@.map_values(|s: &str| s@) =~= copilot_hook_events_spec());
    v
}

/// Copilot CLI hook events that earlier versions registered.
pub open spec fn copilot_removed_lifecycle_hook_events_spec() -> Seq<Seq<char>> {
    seq![
        "sessionEnd"@,
    ]
}

pub fn copilot_removed_lifecycle_hook_events() -> (v: Vec<&'static str>)
    ensures
        v@.map_values(|s: &str| s@) == copilot_removed_lifecycle_hook_events_spec(),
{
    let v = vec!["sessionEnd"];
    assert(v@.map_values(|s: &str| s@) =~= copilot_removed_lifecycle_hook_events_spec());
    v
}

/// The Devin hook events and the state each one reports.
pub open spec fn devin_hook_events_spec() -> Seq<(Seq<char>, Seq<char>)> {
    seq![
        ("SessionStart"@, "session"@),
        ("UserPromptSubmit"@, "working"@),
        ("PreToolUse"@, "working"@),
        ("PermissionRequest"@, "blocked"@),
        ("Stop"@, "idle"@),
    ]
}

pub fn devin_hook_events() -> (v: Vec<(&'static str, &'static str)>)
    ensures
        pairs_view(v@) == devin_hook_events_spec(),
{
    let v = vec![
        ("SessionStart", "session"),
        ("UserPromptSubmit", "working"),
        ("PreToolUse", "working"),
        ("PermissionRequest", "blocked"),
        ("Stop", "idle"),
    ];
    assert(pairs_view(v@) =~= devin_hook_events_spec());
    v
}

/// Devin hook events that earlier versions registered.
pub open spec fn devin_removed_lifecycle_hook_events_spec() -> Seq<(Seq<char>, Seq<char>)> {
    seq![
        ("SessionEnd"@, "release"@),
    ]
}

pub fn devin_removed_lifecycle_hook_events() -> (v: Vec<(&'static str, &'static str)>)
    ensures
        pairs_view(v@) == devin_removed_lifecycle_hook_events_spec(),
{
    let v = vec![
        ("SessionEnd", "release"),
    ];
    assert(pairs_view(v@) =~= devin_removed_lifecycle_hook_events_spec());
    v
}

/// The Droid hook events and the state each one reports.
pub open spec fn droid_hook_events_spec() -> Seq<(Seq<char>, Seq<char>)> {
    seq![
        ("SessionStart"@, "session"@),
        ("UserPromptSubmit"@, "working"@),
        ("PreToolUse"@, "working"@),
        ("Notification"@, "blocked"@),
        ("Stop"@, "idle"@),
    ]
}

pub fn droid_hook_events() -> (v: Vec<(&'static str, &'static str)>)
    ensures
        pairs_view(v@) == droid_hook_events_spec(),
{
    let v = vec![
        ("SessionStart", "session"),
        ("UserPromptSubmit", "working"),
        ("PreToolUse", "working"),
        ("Notification", "blocked"),
        ("Stop", "idle"),
    ];
    assert(pairs_view(v@) =~= droid_hook_events_spec());
    v
}

/// Droid hook events that earlier versions registered.
pub open spec fn droid_removed_lifecycle_hook_events_spec() -> Seq<(Seq<char>, Seq<char>)> {
    seq![
        ("SessionEnd"@, "release"@),
    ]
}

pub fn droid_removed_lifecycle_hook_events() -> (v: Vec<(&'static str, &'static str)>)
    ensures
        pairs_view(v@) == droid_removed_lifecycle_hook_events_spec(),
{
    let v = vec![
        ("SessionEnd", "release"),
    ];
    assert(pairs_view(v@) =~= droid_removed_lifecycle_hook_events_spec());
    v
}

/// The Qoder CLI hook events and the state each one reports.
pub open spec fn qodercli_hook_events_spec() -> Seq<(Seq<char>, Seq<char>)> {
    seq![
        ("SessionStart"@, "session"@),
        ("UserPromptSubmit"@, "working"@),
        ("PreToolUse"@, "working"@),
        ("Notification"@, "blocked"@),
        ("Stop"@, "idle"@),
    ]
}

pub fn qodercli_hook_events() -> (v: Vec<(&'static str, &'static str)>)
    ensures
        pairs_view(v@) == qodercli_hook_events_spec(),
{
    let v = vec![
        ("SessionStart", "session"),
        ("UserPromptSubmit", "working"),
        ("PreToolUse", "working"),
        ("Notification", "blocked"),
        ("Stop", "idle"),
    ];
    assert(pairs_view(v@) =~= qodercli_hook_events_spec());
    v
}

/// Qoder CLI hook events that earlier versions registered.
pub open spec fn qodercli_removed_lifecycle_hook_events_spec() -> Seq<(Seq<char>, Seq<char>)> {
    seq![
        ("SessionEnd"@, "release"@),
    ]
}

pub fn qodercli_removed_lifecycle_hook_events() -> (v: Vec<(&'static str, &'static str)>)
    ensures
        pairs_view(v@) == qodercli_removed_lifecycle_hook_events_spec(),
{
    let v = vec![
        ("SessionEnd", "release"),
    ];
    assert(pairs_view(v@) =~= qodercli_removed_lifecycle_hook_events_spec());
    v
}

/// The Qwen Code hook events and the state each one reports.
pub open spec fn qwen_hook_events_spec() -> Seq<(Seq<char>, Seq<char>)> {
    seq![
        ("SessionStart"@, "session"@),
        ("UserPromptSubmit"@, "working"@),
        ("PreToolUse"@, "working"@),
        ("Notification"@, "blocked"@),
        ("Stop"@, "idle"@),
    ]
}

pub fn qwen_hook_events() -> (v: Vec<(&'static str, &'static str)>)
    ensures
        pairs_view(v@) == qwen_hook_events_spec(),
{
    let v = vec![
        ("SessionStart", "session"),
        ("UserPromptSubmit", "working"),
        ("PreToolUse", "working"),
        ("Notification", "blocked"),
        ("Stop", "idle"),
    ];
    assert(pairs_view(v@) =~= qwen_hook_events_spec());
    v
}

/// The Mastra Code hook events and the state each one reports.
pub open spec fn mastracode_hook_events_spec() -> Seq<(Seq<char>, Seq<char>)> {
    seq![
        ("session_start"@, "session"@),
        ("user_prompt_submit"@, "working"@),
        ("pre_tool_use"@, "working"@),
        ("stop"@, "idle"@),
    ]
}

pub fn mastracode_hook_events() -> (v: Vec<(&'static str, &'static str)>)
    ensures
        pairs_view(v@) == mastracode_hook_events_spec(),
{
    let v = vec![
        ("session_start", "session"),
        ("user_prompt_submit", "working"),
        ("pre_tool_use", "working"),
        ("stop", "idle"),
    ];
    assert(pairs_view(v@) =~= mastracode_hook_events_spec());
    v
}

/// Mastra Code hook events that earlier versions registered.
pub open spec fn mastracode_removed_hook_events_spec() -> Seq<(Seq<char>, Seq<char>)> {
    seq![
        ("session_end"@, "release"@),
    ]
}

pub fn mastracode_removed_hook_events() -> (v: Vec<(&'static str, &'static str)>)
    ensures
        pairs_view(v@) == mastracode_removed_hook_events_spec(),
{
    let v = vec![
        ("session_end", "release"),
    ];
    assert(pairs_view(v@) =~= mastracode_removed_hook_events_spec());
    v
}

/// The hooks that integration versions 1-2 put in ~/.trae/hooks.json.
pub open spec fn trae_legacy_hook_events_spec() -> Seq<(Seq<char>, Seq<char>)> {
    seq![
        ("SessionStart"@, "session"@),
        ("UserPromptSubmit"@, "working"@),
        ("PreToolUse"@, "working"@),
        ("PostToolUse"@, "working"@),
        ("PostToolUseFailure"@, "working"@),
        ("PermissionRequest"@, "blocked"@),
        ("Stop"@, "idle"@),
    ]
}

pub fn trae_legacy_hook_events() -> (v: Vec<(&'static str, &'static str)>)
    ensures
        pairs_view(v@) == trae_legacy_hook_events_spec(),
{
    let v = vec![
        ("SessionStart", "session"),
        ("UserPromptSubmit", "working"),
        ("PreToolUse", "working"),
        ("PostToolUse", "working"),
        ("PostToolUseFailure", "working"),
        ("PermissionRequest", "blocked"),
        ("Stop", "idle"),
    ];
    assert(pairs_view(v@) =~= trae_legacy_hook_events_spec());
    v
}

/// The Codex hooks removed before the session hook is registered, in order.
pub open spec fn codex_replaced_hook_events_spec() -> Seq<(Seq<char>, Seq<char>)> {
    seq![
        ("PermissionRequest"@, "blocked"@),
        ("SessionStart"@, "idle"@),
        ("UserPromptSubmit"@, "working"@),
        ("PreToolUse"@, "working"@),
        ("Stop"@, "idle"@),
        ("SessionStart"@, "session"@),
    ]
}

pub fn codex_replaced_hook_events() -> (v: Vec<(&'static str, &'static str)>)
    ensures
        pairs_view(v@) == codex_replaced_hook_events_spec(),
{
    let v = vec![
        ("PermissionRequest", "blocked"),
        ("SessionStart", "idle"),
        ("UserPromptSubmit", "working"),
        ("PreToolUse", "working"),
        ("Stop", "idle"),
        ("SessionStart", "session"),
    ];
    assert(pairs_view(v@) =~= codex_replaced_hook_events_spec());
    v
}

/// The Codex hooks removed on uninstall, in order.
pub open spec fn codex_removed_hook_events_spec() -> Seq<(Seq<char>, Seq<char>)> {
    seq![
        ("SessionStart"@, "idle"@),
        ("SessionStart"@, "session"@),
        ("UserPromptSubmit"@, "working"@),
        ("PreToolUse"@, "working"@),
        ("PermissionRequest"@, "blocked"@),
        ("Stop"@, "idle"@),
    ]
}

pub fn codex_removed_hook_events() -> (v: Vec<(&'static str, &'static str)>)
    ensures
        pairs_view(v@) == codex_removed_hook_events_spec(),
{
    let v = vec![
        ("SessionStart", "idle"),
        ("SessionStart", "session"),
        ("UserPromptSubmit", "working"),
        ("PreToolUse", "working"),
        ("PermissionRequest", "blocked"),
        ("Stop", "idle"),
    ];
    assert(pairs_view(v@) =~= codex_removed_hook_events_spec());
    v
}

/// The Cursor hook events that earlier versions used for the session hook.
pub open spec fn cursor_replaced_hook_events_spec() -> Seq<Seq<char>> {
    seq![
        "beforeSubmitPrompt"@,
        "beforeShellExecution"@,
        "beforeMCPExecution"@,
        "stop"@,
        "sessionEnd"@,
    ]
}

pub fn cursor_replaced_hook_events() -> (v: Vec<&'static str>)
    ensures
        v@.map_values(|s: &str| s@) == cursor_replaced_hook_events_spec(),
{
    let v = vec!["beforeSubmitPrompt", "beforeShellExecution", "beforeMCPExecution", "stop", "sessionEnd"];
    assert(v@.map_values(|s: &str| s@) =~= cursor_replaced_hook_events_spec());
    v
}

} // verus!
