use herdr_targets::hook_plans::{
    codex_install_edits, codex_uninstall_edits, copilot_install_edits, copilot_uninstall_edits,
    cursor_install_edits, cursor_uninstall_edits, devin_install_edits, devin_uninstall_edits,
    droid_cleanup_edits, droid_install_edits, letta_uninstall_edits, mastracode_install_edits,
    mastracode_uninstall_edits, qodercli_install_edits, qodercli_uninstall_edits,
    qwen_install_edits, qwen_uninstall_edits, trae_legacy_cleanup_edits, HookEdit,
};

const HOOK: &str = "/home/u/.agent/hooks/herdr it's.sh";
const QUOTED: &str = "'/home/u/.agent/hooks/herdr it'\\''s.sh'";

fn remove(event: &str, action: &str) -> HookEdit {
    HookEdit::RemoveCommands { event: event.to_string(), action: Some(action.to_string()) }
}

fn ensure(event: &str, action: &str, timeout: u64, matcher: Option<&str>) -> HookEdit {
    HookEdit::EnsureCommand {
        event: event.to_string(),
        command: format!("{QUOTED} {action}"),
        timeout,
        matcher: matcher.map(|m| m.to_string()),
    }
}

/// Whether `r` takes out the entry that `a` adds.
fn takes_out(r: &HookEdit, a: &HookEdit) -> bool {
    match (r, a) {
        (
            HookEdit::RemoveCommands { event: e, action: Some(x) },
            HookEdit::EnsureCommand { event, command, .. },
        ) => e == event && *command == format!("{QUOTED} {x}"),
        (HookEdit::RemoveCommands { event: e, action: None }, HookEdit::EnsureCommand { event, .. }) => {
            e == event
        }
        (HookEdit::RemoveDirectCommands { event: e }, HookEdit::EnsureDirectCommand { event, .. }) => {
            e == event
        }
        (
            HookEdit::RemoveSimpleCommand { event: e, command: c },
            HookEdit::EnsureSimpleCommand { event, command },
        ) => e == event && c == command,
        (
            HookEdit::RemoveFlatCommand { event: e, command: c },
            HookEdit::EnsureFlatCommand { event, command, .. },
        ) => e == event && c == command,
        _ => false,
    }
}

fn adds(a: &HookEdit) -> bool {
    matches!(
        a,
        HookEdit::EnsureCommand { .. }
            | HookEdit::EnsureDirectCommand { .. }
            | HookEdit::EnsureSimpleCommand { .. }
            | HookEdit::EnsureFlatCommand { .. }
    )
}

#[test]
fn devin_install_removes_old_hooks_then_registers_each_event() {
    let edits = devin_install_edits(HOOK);
    assert_eq!(edits.len(), 11);
    assert_eq!(edits[0], remove("SessionEnd", "release"));
    assert_eq!(edits[1], remove("SessionStart", "session"));
    assert_eq!(edits[5], remove("Stop", "idle"));
    assert_eq!(edits[6], ensure("SessionStart", "session", 10, None));
    assert_eq!(edits[10], ensure("Stop", "idle", 10, None));
    assert_eq!(devin_uninstall_edits(), edits[..6].to_vec());
}

#[test]
fn codex_install_registers_only_the_session_hook() {
    let edits = codex_install_edits(HOOK);
    assert_eq!(edits.len(), 7);
    assert_eq!(edits[0], remove("PermissionRequest", "blocked"));
    assert_eq!(edits[5], remove("SessionStart", "session"));
    assert_eq!(edits[6], ensure("SessionStart", "session", 10, None));
    let undo = codex_uninstall_edits();
    assert_eq!(undo.len(), 6);
    assert_eq!(undo[0], remove("SessionStart", "idle"));
    assert_eq!(undo[5], remove("Stop", "idle"));
}

#[test]
fn droid_cleanup_starts_with_every_session_entry() {
    let cleanup = droid_cleanup_edits();
    assert_eq!(cleanup.len(), 7);
    assert_eq!(
        cleanup[0],
        HookEdit::RemoveCommands { event: "SessionStart".to_string(), action: None }
    );
    assert_eq!(cleanup[1], remove("SessionEnd", "release"));
    let edits = droid_install_edits(HOOK);
    assert_eq!(edits.len(), 12);
    assert_eq!(edits[10], ensure("Notification", "blocked", 10, None));
}

#[test]
fn qodercli_registers_with_a_star_matcher() {
    let edits = qodercli_install_edits(HOOK);
    assert_eq!(edits.len(), 11);
    assert_eq!(edits[6], ensure("SessionStart", "session", 10, Some("*")));
    assert_eq!(qodercli_uninstall_edits().len(), 6);
}

#[test]
fn qwen_install_interleaves_removal_and_registration() {
    let edits = qwen_install_edits(HOOK);
    assert_eq!(edits.len(), 10);
    assert_eq!(edits[0], remove("SessionStart", "session"));
    assert_eq!(edits[1], ensure("SessionStart", "session", 10_000, Some("*")));
    assert_eq!(edits[8], remove("Stop", "idle"));
    assert_eq!(edits[9], ensure("Stop", "idle", 10_000, Some("*")));
    assert_eq!(qwen_uninstall_edits().len(), 5);
}

#[test]
fn copilot_uses_one_command_for_every_event() {
    let edits = copilot_install_edits(HOOK);
    assert_eq!(edits.len(), 11);
    assert_eq!(
        edits[0],
        HookEdit::RemoveDirectCommands { event: "sessionEnd".to_string() }
    );
    assert_eq!(
        edits[6],
        HookEdit::EnsureDirectCommand {
            event: "sessionStart".to_string(),
            command: QUOTED.to_string(),
            timeout: 10,
        }
    );
    let undo = copilot_uninstall_edits();
    assert_eq!(undo.len(), 6);
    assert_eq!(
        undo[5],
        HookEdit::RemoveDirectCommands { event: "sessionEnd".to_string() }
    );
}

#[test]
fn cursor_moves_the_session_command_to_session_start() {
    let command = format!("{QUOTED} session");
    let edits = cursor_install_edits(HOOK);
    assert_eq!(edits.len(), 6);
    assert_eq!(
        edits[0],
        HookEdit::RemoveSimpleCommand {
            event: "beforeSubmitPrompt".to_string(),
            command: command.clone(),
        }
    );
    assert_eq!(
        edits[5],
        HookEdit::EnsureSimpleCommand { event: "sessionStart".to_string(), command: command.clone() }
    );
    let undo = cursor_uninstall_edits(HOOK);
    assert_eq!(undo.len(), 6);
    assert_eq!(
        undo[0],
        HookEdit::RemoveSimpleCommand { event: "sessionStart".to_string(), command }
    );
}

#[test]
fn mastracode_registers_flat_entries_with_the_millisecond_timeout() {
    let edits = mastracode_install_edits(HOOK);
    assert_eq!(edits.len(), 10);
    assert_eq!(
        edits[0],
        HookEdit::RemoveFlatCommand {
            event: "session_end".to_string(),
            command: format!("{QUOTED} release"),
        }
    );
    assert_eq!(
        edits[3],
        HookEdit::EnsureFlatCommand {
            event: "session_start".to_string(),
            command: format!("{QUOTED} session"),
            timeout: 10_000,
        }
    );
    assert_eq!(mastracode_uninstall_edits(HOOK).len(), 10);
}

#[test]
fn letta_and_trae_cleanups() {
    assert_eq!(letta_uninstall_edits(), vec![remove("SessionStart", "session")]);
    let trae = trae_legacy_cleanup_edits();
    assert_eq!(trae.len(), 7);
    assert_eq!(trae[4], remove("PostToolUseFailure", "working"));
}

#[test]
fn every_uninstaller_takes_out_what_its_installer_adds() {
    let pairs = vec![
        (codex_install_edits(HOOK), codex_uninstall_edits()),
        (copilot_install_edits(HOOK), copilot_uninstall_edits()),
        (devin_install_edits(HOOK), devin_uninstall_edits()),
        (droid_install_edits(HOOK), droid_cleanup_edits()),
        (qodercli_install_edits(HOOK), qodercli_uninstall_edits()),
        (qwen_install_edits(HOOK), qwen_uninstall_edits()),
        (cursor_install_edits(HOOK), cursor_uninstall_edits(HOOK)),
        (mastracode_install_edits(HOOK), mastracode_uninstall_edits(HOOK)),
    ];
    for (install, uninstall) in &pairs {
        for a in install.iter().filter(|a| adds(a)) {
            assert!(uninstall.iter().any(|r| takes_out(r, a)), "{a:?} is never taken out");
        }
    }
}

#[test]
fn installers_take_out_an_entry_before_adding_it() {
    let plans = vec![
        codex_install_edits(HOOK),
        copilot_install_edits(HOOK),
        devin_install_edits(HOOK),
        droid_install_edits(HOOK),
        qodercli_install_edits(HOOK),
        qwen_install_edits(HOOK),
        mastracode_install_edits(HOOK),
    ];
    for plan in &plans {
        for (i, a) in plan.iter().enumerate().filter(|(_, a)| adds(a)) {
            assert!(plan[..i].iter().any(|r| takes_out(r, a)), "{a:?} added before removal");
        }
    }
}
