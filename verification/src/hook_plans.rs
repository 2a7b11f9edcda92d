//! The edits each installer and uninstaller makes to an agent's hook
//! configuration, in the order it makes them. An edit names a hook event and
//! what to add or take out there; the config editor that applies an edit to
//! the parsed file belongs to the caller. Every command an edit names runs
//! the one hook script the plan was made for.
use vstd::prelude::*;
use crate::hooks::{hook_command, hook_command_spec};
use crate::names::{
    codex_removed_hook_events, codex_removed_hook_events_spec, codex_replaced_hook_events,
    codex_replaced_hook_events_spec, devin_hook_events, devin_hook_events_spec,
    devin_removed_lifecycle_hook_events, devin_removed_lifecycle_hook_events_spec,
    droid_hook_events, droid_hook_events_spec, droid_removed_lifecycle_hook_events,
    droid_removed_lifecycle_hook_events_spec, qodercli_hook_events, qodercli_hook_events_spec,
    qodercli_removed_lifecycle_hook_events, qodercli_removed_lifecycle_hook_events_spec,
    qwen_hook_events, qwen_hook_events_spec, copilot_hook_events, copilot_hook_events_spec,
    copilot_removed_lifecycle_hook_events, copilot_removed_lifecycle_hook_events_spec,
    cursor_replaced_hook_events, cursor_replaced_hook_events_spec, mastracode_hook_events,
    mastracode_hook_events_spec, mastracode_removed_hook_events,
    mastracode_removed_hook_events_spec, trae_legacy_hook_events, trae_legacy_hook_events_spec,
    pairs_view, CODEX_HOOK_TIMEOUT_SEC, MASTRACODE_HOOK_TIMEOUT_MS, QWEN_HOOK_TIMEOUT_MS,
};

verus! {

/// One edit of a hook configuration.
#[derive(Debug, Clone, PartialEq, Eq)]
pub enum HookEdit {
    /// Take out the entries under `event` that run the hook script and report
    /// `action` (any action, where there is none).
    RemoveCommands { event: String, action: Option<String> },
    /// Register `command` under `event`, in a group with `matcher` if one is given.
    EnsureCommand { event: String, command: String, timeout: u64, matcher: Option<String> },
    /// Take out the hook script's entries listed directly under `event`.
    RemoveDirectCommands { event: String },
    /// List `command` directly under `event`.
    EnsureDirectCommand { event: String, command: String, timeout: u64 },
    /// Take out the `{ "command": .. }` entries under `event` that run `command`.
    RemoveSimpleCommand { event: String, command: String },
    /// Register `command` as a `{ "command": .. }` entry under `event`.
    EnsureSimpleCommand { event: String, command: String },
    /// Take out the flat entries under `event` that run `command`.
    RemoveFlatCommand { event: String, command: String },
    /// Register `command` as a flat entry under `event`.
    EnsureFlatCommand { event: String, command: String, timeout: u64 },
}

/// A `HookEdit` with its strings as character sequences.
pub enum HookEditView {
    RemoveCommands { event: Seq<char>, action: Option<Seq<char>> },
    EnsureCommand { event: Seq<char>, command: Seq<char>, timeout: u64, matcher: Option<Seq<char>> },
    RemoveDirectCommands { event: Seq<char> },
    EnsureDirectCommand { event: Seq<char>, command: Seq<char>, timeout: u64 },
    RemoveSimpleCommand { event: Seq<char>, command: Seq<char> },
    EnsureSimpleCommand { event: Seq<char>, command: Seq<char> },
    RemoveFlatCommand { event: Seq<char>, command: Seq<char> },
    EnsureFlatCommand { event: Seq<char>, command: Seq<char>, timeout: u64 },
}

pub open spec fn opt_view(o: Option<String>) -> Option<Seq<char>> {
    match o {
        Some(s) => Some(s@),
        None => None,
    }
}

impl View for HookEdit {
    type V = HookEditView;

    open spec fn view(&self) -> HookEditView {
        match self {
            HookEdit::RemoveCommands { event, action } => HookEditView::RemoveCommands {
                event: event@,
                action: opt_view(*action),
            },
            HookEdit::EnsureCommand { event, command, timeout, matcher } =>
                HookEditView::EnsureCommand {
                    event: event@,
                    command: command@,
                    timeout: *timeout,
                    matcher: opt_view(*matcher),
                },
            HookEdit::RemoveDirectCommands { event } => HookEditView::RemoveDirectCommands {
                event: event@,
            },
            HookEdit::EnsureDirectCommand { event, command, timeout } =>
                HookEditView::EnsureDirectCommand {
                    event: event@,
                    command: command@,
                    timeout: *timeout,
                },
            HookEdit::RemoveSimpleCommand { event, command } => HookEditView::RemoveSimpleCommand {
                event: event@,
                command: command@,
            },
            HookEdit::EnsureSimpleCommand { event, command } => HookEditView::EnsureSimpleCommand {
                event: event@,
                command: command@,
            },
            HookEdit::RemoveFlatCommand { event, command } => HookEditView::RemoveFlatCommand {
                event: event@,
                command: command@,
            },
            HookEdit::EnsureFlatCommand { event, command, timeout } =>
                HookEditView::EnsureFlatCommand {
                    event: event@,
                    command: command@,
                    timeout: *timeout,
                },
        }
    }
}

pub open spec fn edits_view(v: Seq<HookEdit>) -> Seq<HookEditView> {
    v.map_values(|e: HookEdit| e@)
}

pub type EventAction = (Seq<char>, Seq<char>);

/// Take out the hook's entries for one event and action.
pub open spec fn remove_edit(ea: EventAction) -> HookEditView {
    HookEditView::RemoveCommands { event: ea.0, action: Some(ea.1) }
}

/// Register the hook for one event and action.
pub open spec fn ensure_edit(
    hook_path: Seq<char>,
    timeout: u64,
    matcher: Option<Seq<char>>,
    ea: EventAction,
) -> HookEditView {
    HookEditView::EnsureCommand {
        event: ea.0,
        command: hook_command_spec(hook_path, Some(ea.1)),
        timeout,
        matcher,
    }
}

pub open spec fn removes_spec(events: Seq<EventAction>) -> Seq<HookEditView> {
    events.map_values(|ea: EventAction| remove_edit(ea))
}

pub open spec fn ensures_spec(
    events: Seq<EventAction>,
    hook_path: Seq<char>,
    timeout: u64,
    matcher: Option<Seq<char>>,
) -> Seq<HookEditView> {
    events.map_values(|ea: EventAction| ensure_edit(hook_path, timeout, matcher, ea))
}

proof fn lemma_edits_view_push(v: Seq<HookEdit>, e: HookEdit)
    ensures
        edits_view(v.push(e)) == edits_view(v).push(e@),
{
    assert(edits_view(v.push(e)) =~= edits_view(v).push(e@));
}

/// Appends the removal of each event and action of `events`.
fn push_removes(out: &mut Vec<HookEdit>, events: &Vec<(&str, &str)>)
    ensures
        edits_view(final(out)@) == edits_view(old(out)@) + removes_spec(pairs_view(events@)),
{
    let ghost start = edits_view(out@);
    let ghost evs = pairs_view(events@);
    let mut i: usize = 0;
    while i < events.len()
        invariant
            i <= events.len(),
            evs == pairs_view(events@),
            edits_view(out@) == start + removes_spec(evs.take(i as int)),
        decreases events.len() - i,
    {
        let (event, action) = events[i];
        let e = HookEdit::RemoveCommands { event: event.to_owned(), action: Some(action.to_owned()) };
        proof {
            lemma_edits_view_push(out@, e);
            assert(removes_spec(evs.take(i + 1)) =~= removes_spec(evs.take(i as int)).push(
                remove_edit(evs[i as int]),
            ));
        }
        out.push(e);
        i = i + 1;
    }
    assert(evs.take(events.len() as int) =~= evs);
}

/// Appends the registration of each event and action of `events`.
fn push_ensures(
    out: &mut Vec<HookEdit>,
    events: &Vec<(&str, &str)>,
    hook_path: &str,
    timeout: u64,
    matcher: Option<&str>,
)
    ensures
        edits_view(final(out)@) == edits_view(old(out)@) + ensures_spec(
            pairs_view(events@),
            hook_path@,
            timeout,
            match matcher {
                Some(m) => Some(m@),
                None => None,
            },
        ),
{
    let ghost start = edits_view(out@);
    let ghost evs = pairs_view(events@);
    let ghost m = match matcher {
        Some(m) => Some(m@),
        None => None,
    };
    let mut i: usize = 0;
    while i < events.len()
        invariant
            i <= events.len(),
            evs == pairs_view(events@),
            m == match matcher {
                Some(m) => Some(m@),
                None => None::<Seq<char>>,
            },
            edits_view(out@) == start + ensures_spec(evs.take(i as int), hook_path@, timeout, m),
        decreases events.len() - i,
    {
        let (event, action) = events[i];
        let command = hook_command(hook_path, Some(action));
        let e = HookEdit::EnsureCommand {
            event: event.to_owned(),
            command,
            timeout,
            matcher: match matcher {
                Some(s) => Some(s.to_owned()),
                None => None,
            },
        };
        proof {
            lemma_edits_view_push(out@, e);
            assert(ensures_spec(evs.take(i + 1), hook_path@, timeout, m) =~= ensures_spec(
                evs.take(i as int),
                hook_path@,
                timeout,
                m,
            ).push(ensure_edit(hook_path@, timeout, m, evs[i as int])));
        }
        out.push(e);
        i = i + 1;
    }
    assert(evs.take(events.len() as int) =~= evs);
}

// ---------------------------------------------------------------------------
// Devin
// ---------------------------------------------------------------------------

pub open spec fn devin_install_edits_spec(hook_path: Seq<char>) -> Seq<HookEditView> {
    removes_spec(devin_removed_lifecycle_hook_events_spec()) + removes_spec(
        devin_hook_events_spec(),
    ) + ensures_spec(devin_hook_events_spec(), hook_path, 10, None)
}

pub open spec fn devin_uninstall_edits_spec() -> Seq<HookEditView> {
    removes_spec(devin_removed_lifecycle_hook_events_spec()) + removes_spec(
        devin_hook_events_spec(),
    )
}

/// The edits of Devin's `config.json` when the hook at `hook_path` is installed:
/// the hook's old entries go, then one entry per event is registered.
pub fn devin_install_edits(hook_path: &str) -> (r: Vec<HookEdit>)
    ensures
        edits_view(r@) == devin_install_edits_spec(hook_path@),
{
    let mut out: Vec<HookEdit> = Vec::new();
    assert(edits_view(out@) =~= Seq::<HookEditView>::empty());
    push_removes(&mut out, &devin_removed_lifecycle_hook_events());
    let events = devin_hook_events();
    push_removes(&mut out, &events);
    push_ensures(&mut out, &events, hook_path, 10, None);
    assert(edits_view(out@) =~= devin_install_edits_spec(hook_path@));
    out
}

/// The edits of Devin's `config.json` when the hook is uninstalled.
pub fn devin_uninstall_edits() -> (r: Vec<HookEdit>)
    ensures
        edits_view(r@) == devin_uninstall_edits_spec(),
{
    let mut out: Vec<HookEdit> = Vec::new();
    assert(edits_view(out@) =~= Seq::<HookEditView>::empty());
    push_removes(&mut out, &devin_removed_lifecycle_hook_events());
    push_removes(&mut out, &devin_hook_events());
    assert(edits_view(out@) =~= devin_uninstall_edits_spec());
    out
}

// ---------------------------------------------------------------------------
// Direct, simple and flat entries
// ---------------------------------------------------------------------------

pub open spec fn strs_view(v: Seq<&str>) -> Seq<Seq<char>> {
    v.map_values(|s: &str| s@)
}

pub open spec fn direct_removes_spec(events: Seq<Seq<char>>) -> Seq<HookEditView> {
    events.map_values(|e: Seq<char>| HookEditView::RemoveDirectCommands { event: e })
}

pub open spec fn direct_ensures_spec(
    events: Seq<Seq<char>>,
    command: Seq<char>,
    timeout: u64,
) -> Seq<HookEditView> {
    events.map_values(
        |e: Seq<char>| HookEditView::EnsureDirectCommand { event: e, command, timeout },
    )
}

pub open spec fn simple_removes_spec(events: Seq<Seq<char>>, command: Seq<char>) -> Seq<
    HookEditView,
> {
    events.map_values(|e: Seq<char>| HookEditView::RemoveSimpleCommand { event: e, command })
}

/// Appends, for each event, the removal of the hook's direct entries.
fn push_direct_removes(out: &mut Vec<HookEdit>, events: &Vec<&str>)
    ensures
        edits_view(final(out)@) == edits_view(old(out)@) + direct_removes_spec(strs_view(events@)),
{
    let ghost start = edits_view(out@);
    let ghost evs = strs_view(events@);
    let mut i: usize = 0;
    while i < events.len()
        invariant
            i <= events.len(),
            evs == strs_view(events@),
            edits_view(out@) == start + direct_removes_spec(evs.take(i as int)),
        decreases events.len() - i,
    {
        let e = HookEdit::RemoveDirectCommands { event: events[i].to_owned() };
        proof {
            lemma_edits_view_push(out@, e);
            assert(direct_removes_spec(evs.take(i + 1)) =~= direct_removes_spec(
                evs.take(i as int),
            ).push(HookEditView::RemoveDirectCommands { event: evs[i as int] }));
        }
        out.push(e);
        i = i + 1;
    }
    assert(evs.take(events.len() as int) =~= evs);
}

/// Appends, for each event, a direct entry that runs `command`.
fn push_direct_ensures(out: &mut Vec<HookEdit>, events: &Vec<&str>, command: &str, timeout: u64)
    ensures
        edits_view(final(out)@) == edits_view(old(out)@) + direct_ensures_spec(
            strs_view(events@),
            command@,
            timeout,
        ),
{
    let ghost start = edits_view(out@);
    let ghost evs = strs_view(events@);
    let mut i: usize = 0;
    while i < events.len()
        invariant
            i <= events.len(),
            evs == strs_view(events@),
            edits_view(out@) == start + direct_ensures_spec(evs.take(i as int), command@, timeout),
        decreases events.len() - i,
    {
        let e = HookEdit::EnsureDirectCommand {
            event: events[i].to_owned(),
            command: command.to_owned(),
            timeout,
        };
        proof {
            lemma_edits_view_push(out@, e);
            assert(direct_ensures_spec(evs.take(i + 1), command@, timeout) =~= direct_ensures_spec(
                evs.take(i as int),
                command@,
                timeout,
            ).push(
                HookEditView::EnsureDirectCommand { event: evs[i as int], command: command@, timeout },
            ));
        }
        out.push(e);
        i = i + 1;
    }
    assert(evs.take(events.len() as int) =~= evs);
}

/// Appends, for each event, the removal of the entries that run `command`.
fn push_simple_removes(out: &mut Vec<HookEdit>, events: &Vec<&str>, command: &str)
    ensures
        edits_view(final(out)@) == edits_view(old(out)@) + simple_removes_spec(
            strs_view(events@),
            command@,
        ),
{
    let ghost start = edits_view(out@);
    let ghost evs = strs_view(events@);
    let mut i: usize = 0;
    while i < events.len()
        invariant
            i <= events.len(),
            evs == strs_view(events@),
            edits_view(out@) == start + simple_removes_spec(evs.take(i as int), command@),
        decreases events.len() - i,
    {
        let e = HookEdit::RemoveSimpleCommand {
            event: events[i].to_owned(),
            command: command.to_owned(),
        };
        proof {
            lemma_edits_view_push(out@, e);
            assert(simple_removes_spec(evs.take(i + 1), command@) =~= simple_removes_spec(
                evs.take(i as int),
                command@,
            ).push(HookEditView::RemoveSimpleCommand { event: evs[i as int], command: command@ }));
        }
        out.push(e);
        i = i + 1;
    }
    assert(evs.take(events.len() as int) =~= evs);
}

/// Take out the flat entries of one event that run the hook for one action.
pub open spec fn flat_remove_edit(hook_path: Seq<char>, ea: EventAction) -> HookEditView {
    HookEditView::RemoveFlatCommand { event: ea.0, command: hook_command_spec(hook_path, Some(ea.1)) }
}

/// A second removal of the flat entry, or, with a timeout, the entry registered
/// again.
pub open spec fn flat_second_edit(
    hook_path: Seq<char>,
    timeout: Option<u64>,
    ea: EventAction,
) -> HookEditView {
    match timeout {
        Some(t) => HookEditView::EnsureFlatCommand {
            event: ea.0,
            command: hook_command_spec(hook_path, Some(ea.1)),
            timeout: t,
        },
        None => flat_remove_edit(hook_path, ea),
    }
}

/// For each event and action: the removal of the hook's flat entry, then either
/// a second removal (no timeout) or the entry registered again with the timeout.
pub open spec fn flat_pairs_spec(
    events: Seq<EventAction>,
    hook_path: Seq<char>,
    timeout: Option<u64>,
) -> Seq<HookEditView>
    decreases events.len(),
{
    if events.len() == 0 {
        seq![]
    } else {
        let ea = events.last();
        flat_pairs_spec(events.drop_last(), hook_path, timeout) + seq![
            flat_remove_edit(hook_path, ea),
            flat_second_edit(hook_path, timeout, ea),
        ]
    }
}

fn push_flat_pairs(
    out: &mut Vec<HookEdit>,
    events: &Vec<(&str, &str)>,
    hook_path: &str,
    timeout: Option<u64>,
)
    ensures
        edits_view(final(out)@) == edits_view(old(out)@) + flat_pairs_spec(
            pairs_view(events@),
            hook_path@,
            timeout,
        ),
{
    let ghost start = edits_view(out@);
    let ghost evs = pairs_view(events@);
    let mut i: usize = 0;
    while i < events.len()
        invariant
            i <= events.len(),
            evs == pairs_view(events@),
            edits_view(out@) == start + flat_pairs_spec(evs.take(i as int), hook_path@, timeout),
        decreases events.len() - i,
    {
        let (event, action) = events[i];
        let first = HookEdit::RemoveFlatCommand {
            event: event.to_owned(),
            command: hook_command(hook_path, Some(action)),
        };
        let second = match timeout {
            Some(t) => HookEdit::EnsureFlatCommand {
                event: event.to_owned(),
                command: crate::hooks::mastracode_hook_command(hook_path, action),
                timeout: t,
            },
            None => HookEdit::RemoveFlatCommand {
                event: event.to_owned(),
                command: crate::hooks::mastracode_hook_command(hook_path, action),
            },
        };
        proof {
            lemma_edits_view_push(out@, first);
            lemma_edits_view_push(out@.push(first), second);
            assert(evs.take(i + 1).drop_last() =~= evs.take(i as int));
            assert(evs.take(i + 1).last() == evs[i as int]);
        }
        out.push(first);
        out.push(second);
        proof {
            assert(edits_view(out@) =~= start + flat_pairs_spec(
                evs.take(i + 1),
                hook_path@,
                timeout,
            ));
        }
        i = i + 1;
    }
    assert(evs.take(events.len() as int) =~= evs);
}

/// For each event and action: the removal of the hook's entries, then the hook
/// registered again.
pub open spec fn replace_each_spec(
    events: Seq<EventAction>,
    hook_path: Seq<char>,
    timeout: u64,
    matcher: Option<Seq<char>>,
) -> Seq<HookEditView>
    decreases events.len(),
{
    if events.len() == 0 {
        seq![]
    } else {
        replace_each_spec(events.drop_last(), hook_path, timeout, matcher) + seq![
            remove_edit(events.last()),
            ensure_edit(hook_path, timeout, matcher, events.last()),
        ]
    }
}

// ---------------------------------------------------------------------------
// Codex
// ---------------------------------------------------------------------------

pub open spec fn codex_session_event() -> EventAction {
    ("SessionStart"@, "session"@)
}

pub open spec fn codex_install_edits_spec(hook_path: Seq<char>) -> Seq<HookEditView> {
    removes_spec(codex_replaced_hook_events_spec()) + seq![
        ensure_edit(hook_path, CODEX_HOOK_TIMEOUT_SEC, None, codex_session_event()),
    ]
}

pub open spec fn codex_uninstall_edits_spec() -> Seq<HookEditView> {
    removes_spec(codex_removed_hook_events_spec())
}

/// The edits of Codex's `hooks.json` when the hook at `hook_path` is installed:
/// the hooks of earlier versions go, then the session hook is registered.
pub fn codex_install_edits(hook_path: &str) -> (r: Vec<HookEdit>)
    ensures
        edits_view(r@) == codex_install_edits_spec(hook_path@),
{
    let mut out: Vec<HookEdit> = Vec::new();
    assert(edits_view(out@) =~= Seq::<HookEditView>::empty());
    push_removes(&mut out, &codex_replaced_hook_events());
    let e = HookEdit::EnsureCommand {
        event: "SessionStart".to_owned(),
        command: hook_command(hook_path, Some("session")),
        timeout: CODEX_HOOK_TIMEOUT_SEC,
        matcher: None,
    };
    proof {
        lemma_edits_view_push(out@, e);
    }
    out.push(e);
    assert(edits_view(out@) =~= codex_install_edits_spec(hook_path@));
    out
}

/// The edits of Codex's `hooks.json` when the hook is uninstalled.
pub fn codex_uninstall_edits() -> (r: Vec<HookEdit>)
    ensures
        edits_view(r@) == codex_uninstall_edits_spec(),
{
    let mut out: Vec<HookEdit> = Vec::new();
    assert(edits_view(out@) =~= Seq::<HookEditView>::empty());
    push_removes(&mut out, &codex_removed_hook_events());
    assert(edits_view(out@) =~= codex_uninstall_edits_spec());
    out
}

// ---------------------------------------------------------------------------
// Droid
// ---------------------------------------------------------------------------

/// Take out every entry of the hook under `SessionStart`, whatever it reports.
pub open spec fn droid_session_cleanup() -> HookEditView {
    HookEditView::RemoveCommands { event: "SessionStart"@, action: None }
}

pub open spec fn droid_cleanup_edits_spec() -> Seq<HookEditView> {
    seq![droid_session_cleanup()] + removes_spec(droid_removed_lifecycle_hook_events_spec())
        + removes_spec(droid_hook_events_spec())
}

pub open spec fn droid_install_edits_spec(hook_path: Seq<char>) -> Seq<HookEditView> {
    droid_cleanup_edits_spec() + ensures_spec(droid_hook_events_spec(), hook_path, 10, None)
}

fn push_droid_cleanup(out: &mut Vec<HookEdit>)
    ensures
        edits_view(final(out)@) == edits_view(old(out)@) + droid_cleanup_edits_spec(),
{
    let ghost start = edits_view(out@);
    let e = HookEdit::RemoveCommands { event: "SessionStart".to_owned(), action: None };
    proof {
        lemma_edits_view_push(out@, e);
    }
    out.push(e);
    push_removes(out, &droid_removed_lifecycle_hook_events());
    push_removes(out, &droid_hook_events());
    assert(edits_view(out@) =~= start + droid_cleanup_edits_spec());
}

/// The edits of Droid's `settings.json` when the hook at `hook_path` is
/// installed.
pub fn droid_install_edits(hook_path: &str) -> (r: Vec<HookEdit>)
    ensures
        edits_view(r@) == droid_install_edits_spec(hook_path@),
{
    let mut out: Vec<HookEdit> = Vec::new();
    assert(edits_view(out@) =~= Seq::<HookEditView>::empty());
    push_droid_cleanup(&mut out);
    push_ensures(&mut out, &droid_hook_events(), hook_path, 10, None);
    assert(edits_view(out@) =~= droid_install_edits_spec(hook_path@));
    out
}

/// The edits that take the hook out of a Droid hooks file: of `settings.json`
/// and `hooks.json` on uninstall, and of the legacy `hooks.json` on install.
pub fn droid_cleanup_edits() -> (r: Vec<HookEdit>)
    ensures
        edits_view(r@) == droid_cleanup_edits_spec(),
{
    let mut out: Vec<HookEdit> = Vec::new();
    assert(edits_view(out@) =~= Seq::<HookEditView>::empty());
    push_droid_cleanup(&mut out);
    assert(edits_view(out@) =~= droid_cleanup_edits_spec());
    out
}

// ---------------------------------------------------------------------------
// Qoder CLI
// ---------------------------------------------------------------------------

pub open spec fn qodercli_uninstall_edits_spec() -> Seq<HookEditView> {
    removes_spec(qodercli_removed_lifecycle_hook_events_spec()) + removes_spec(
        qodercli_hook_events_spec(),
    )
}

pub open spec fn qodercli_install_edits_spec(hook_path: Seq<char>) -> Seq<HookEditView> {
    qodercli_uninstall_edits_spec() + ensures_spec(
        qodercli_hook_events_spec(),
        hook_path,
        10,
        Some("*"@),
    )
}

/// The edits of the Qoder CLI `settings.json` when the hook at `hook_path` is
/// installed; each hook is registered with the matcher `*`.
pub fn qodercli_install_edits(hook_path: &str) -> (r: Vec<HookEdit>)
    ensures
        edits_view(r@) == qodercli_install_edits_spec(hook_path@),
{
    let mut out: Vec<HookEdit> = Vec::new();
    assert(edits_view(out@) =~= Seq::<HookEditView>::empty());
    push_removes(&mut out, &qodercli_removed_lifecycle_hook_events());
    let events = qodercli_hook_events();
    push_removes(&mut out, &events);
    push_ensures(&mut out, &events, hook_path, 10, Some("*"));
    assert(edits_view(out@) =~= qodercli_install_edits_spec(hook_path@));
    out
}

/// The edits of the Qoder CLI `settings.json` when the hook is uninstalled.
pub fn qodercli_uninstall_edits() -> (r: Vec<HookEdit>)
    ensures
        edits_view(r@) == qodercli_uninstall_edits_spec(),
{
    let mut out: Vec<HookEdit> = Vec::new();
    assert(edits_view(out@) =~= Seq::<HookEditView>::empty());
    push_removes(&mut out, &qodercli_removed_lifecycle_hook_events());
    push_removes(&mut out, &qodercli_hook_events());
    assert(edits_view(out@) =~= qodercli_uninstall_edits_spec());
    out
}

// ---------------------------------------------------------------------------
// Qwen Code
// ---------------------------------------------------------------------------

pub open spec fn qwen_install_edits_spec(hook_path: Seq<char>) -> Seq<HookEditView> {
    replace_each_spec(qwen_hook_events_spec(), hook_path, QWEN_HOOK_TIMEOUT_MS, Some("*"@))
}

pub open spec fn qwen_uninstall_edits_spec() -> Seq<HookEditView> {
    removes_spec(qwen_hook_events_spec())
}

/// The edits of Qwen Code's `settings.json` when the hook at `hook_path` is
/// installed: event by event, the hook's entry goes and comes back.
pub fn qwen_install_edits(hook_path: &str) -> (r: Vec<HookEdit>)
    ensures
        edits_view(r@) == qwen_install_edits_spec(hook_path@),
{
    let events = qwen_hook_events();
    let ghost evs = pairs_view(events@);
    let ghost star: Option<Seq<char>> = Some("*"@);
    let mut out: Vec<HookEdit> = Vec::new();
    let mut i: usize = 0;
    while i < events.len()
        invariant
            i <= events.len(),
            evs == pairs_view(events@),
            evs == qwen_hook_events_spec(),
            star == Some("*"@),
            edits_view(out@) == replace_each_spec(
                evs.take(i as int),
                hook_path@,
                QWEN_HOOK_TIMEOUT_MS,
                star,
            ),
        decreases events.len() - i,
    {
        let (event, action) = events[i];
        let first = HookEdit::RemoveCommands {
            event: event.to_owned(),
            action: Some(action.to_owned()),
        };
        let second = HookEdit::EnsureCommand {
            event: event.to_owned(),
            command: hook_command(hook_path, Some(action)),
            timeout: QWEN_HOOK_TIMEOUT_MS,
            matcher: Some("*".to_owned()),
        };
        proof {
            lemma_edits_view_push(out@, first);
            lemma_edits_view_push(out@.push(first), second);
            assert(evs.take(i + 1).drop_last() =~= evs.take(i as int));
            assert(evs.take(i + 1).last() == evs[i as int]);
        }
        out.push(first);
        out.push(second);
        proof {
            assert(edits_view(out@) =~= replace_each_spec(
                evs.take(i + 1),
                hook_path@,
                QWEN_HOOK_TIMEOUT_MS,
                star,
            ));
        }
        i = i + 1;
    }
    assert(evs.take(events.len() as int) =~= evs);
    out
}

/// The edits of Qwen Code's `settings.json` when the hook is uninstalled.
pub fn qwen_uninstall_edits() -> (r: Vec<HookEdit>)
    ensures
        edits_view(r@) == qwen_uninstall_edits_spec(),
{
    let mut out: Vec<HookEdit> = Vec::new();
    assert(edits_view(out@) =~= Seq::<HookEditView>::empty());
    push_removes(&mut out, &qwen_hook_events());
    assert(edits_view(out@) =~= qwen_uninstall_edits_spec());
    out
}

// ---------------------------------------------------------------------------
// Copilot CLI
// ---------------------------------------------------------------------------

pub open spec fn copilot_install_edits_spec(hook_path: Seq<char>) -> Seq<HookEditView> {
    direct_removes_spec(copilot_removed_lifecycle_hook_events_spec()) + direct_removes_spec(
        copilot_hook_events_spec(),
    ) + direct_ensures_spec(copilot_hook_events_spec(), hook_command_spec(hook_path, None), 10)
}

pub open spec fn copilot_uninstall_edits_spec() -> Seq<HookEditView> {
    direct_removes_spec(copilot_hook_events_spec()) + direct_removes_spec(
        copilot_removed_lifecycle_hook_events_spec(),
    )
}

/// The edits of the Copilot CLI `settings.json` when the hook at `hook_path` is
/// installed; every event runs the same command.
pub fn copilot_install_edits(hook_path: &str) -> (r: Vec<HookEdit>)
    ensures
        edits_view(r@) == copilot_install_edits_spec(hook_path@),
{
    let mut out: Vec<HookEdit> = Vec::new();
    assert(edits_view(out@) =~= Seq::<HookEditView>::empty());
    let command = hook_command(hook_path, None);
    push_direct_removes(&mut out, &copilot_removed_lifecycle_hook_events());
    let events = copilot_hook_events();
    push_direct_removes(&mut out, &events);
    push_direct_ensures(&mut out, &events, command.as_str(), 10);
    assert(edits_view(out@) =~= copilot_install_edits_spec(hook_path@));
    out
}

/// The edits of the Copilot CLI `settings.json` when the hook is uninstalled.
pub fn copilot_uninstall_edits() -> (r: Vec<HookEdit>)
    ensures
        edits_view(r@) == copilot_uninstall_edits_spec(),
{
    let mut out: Vec<HookEdit> = Vec::new();
    assert(edits_view(out@) =~= Seq::<HookEditView>::empty());
    push_direct_removes(&mut out, &copilot_hook_events());
    push_direct_removes(&mut out, &copilot_removed_lifecycle_hook_events());
    assert(edits_view(out@) =~= copilot_uninstall_edits_spec());
    out
}

// ---------------------------------------------------------------------------
// Cursor
// ---------------------------------------------------------------------------

pub open spec fn cursor_session_command(hook_path: Seq<char>) -> Seq<char> {
    hook_command_spec(hook_path, Some("session"@))
}

pub open spec fn cursor_install_edits_spec(hook_path: Seq<char>) -> Seq<HookEditView> {
    simple_removes_spec(cursor_replaced_hook_events_spec(), cursor_session_command(hook_path))
        + seq![
        HookEditView::EnsureSimpleCommand {
            event: "sessionStart"@,
            command: cursor_session_command(hook_path),
        },
    ]
}

pub open spec fn cursor_uninstall_edits_spec(hook_path: Seq<char>) -> Seq<HookEditView> {
    simple_removes_spec(
        seq!["sessionStart"@] + cursor_replaced_hook_events_spec(),
        cursor_session_command(hook_path),
    )
}

/// The edits of Cursor's `hooks.json` when the hook at `hook_path` is
/// installed: the session command leaves the events earlier versions used and
/// is registered under `sessionStart`.
pub fn cursor_install_edits(hook_path: &str) -> (r: Vec<HookEdit>)
    ensures
        edits_view(r@) == cursor_install_edits_spec(hook_path@),
{
    let mut out: Vec<HookEdit> = Vec::new();
    assert(edits_view(out@) =~= Seq::<HookEditView>::empty());
    let command = hook_command(hook_path, Some("session"));
    push_simple_removes(&mut out, &cursor_replaced_hook_events(), command.as_str());
    let e = HookEdit::EnsureSimpleCommand { event: "sessionStart".to_owned(), command };
    proof {
        lemma_edits_view_push(out@, e);
    }
    out.push(e);
    assert(edits_view(out@) =~= cursor_install_edits_spec(hook_path@));
    out
}

/// The edits of Cursor's `hooks.json` when the hook at `hook_path` is
/// uninstalled.
pub fn cursor_uninstall_edits(hook_path: &str) -> (r: Vec<HookEdit>)
    ensures
        edits_view(r@) == cursor_uninstall_edits_spec(hook_path@),
{
    let mut out: Vec<HookEdit> = Vec::new();
    assert(edits_view(out@) =~= Seq::<HookEditView>::empty());
    let command = hook_command(hook_path, Some("session"));
    let mut events = vec!["sessionStart"];
    let mut rest = cursor_replaced_hook_events();
    events.append(&mut rest);
    assert(strs_view(events@) =~= seq!["sessionStart"@] + cursor_replaced_hook_events_spec());
    push_simple_removes(&mut out, &events, command.as_str());
    assert(edits_view(out@) =~= cursor_uninstall_edits_spec(hook_path@));
    out
}

// ---------------------------------------------------------------------------
// Mastra Code
// ---------------------------------------------------------------------------

pub open spec fn mastracode_install_edits_spec(hook_path: Seq<char>) -> Seq<HookEditView> {
    flat_pairs_spec(mastracode_removed_hook_events_spec(), hook_path, None) + flat_pairs_spec(
        mastracode_hook_events_spec(),
        hook_path,
        Some(MASTRACODE_HOOK_TIMEOUT_MS),
    )
}

pub open spec fn mastracode_uninstall_edits_spec(hook_path: Seq<char>) -> Seq<HookEditView> {
    flat_pairs_spec(mastracode_hook_events_spec(), hook_path, None) + flat_pairs_spec(
        mastracode_removed_hook_events_spec(),
        hook_path,
        None,
    )
}

/// The edits of Mastra Code's `hooks.json` when the hook at `hook_path` is
/// installed.
pub fn mastracode_install_edits(hook_path: &str) -> (r: Vec<HookEdit>)
    ensures
        edits_view(r@) == mastracode_install_edits_spec(hook_path@),
{
    let mut out: Vec<HookEdit> = Vec::new();
    assert(edits_view(out@) =~= Seq::<HookEditView>::empty());
    push_flat_pairs(&mut out, &mastracode_removed_hook_events(), hook_path, None);
    push_flat_pairs(
        &mut out,
        &mastracode_hook_events(),
        hook_path,
        Some(MASTRACODE_HOOK_TIMEOUT_MS),
    );
    assert(edits_view(out@) =~= mastracode_install_edits_spec(hook_path@));
    out
}

/// The edits of Mastra Code's `hooks.json` when the hook at `hook_path` is
/// uninstalled.
pub fn mastracode_uninstall_edits(hook_path: &str) -> (r: Vec<HookEdit>)
    ensures
        edits_view(r@) == mastracode_uninstall_edits_spec(hook_path@),
{
    let mut out: Vec<HookEdit> = Vec::new();
    assert(edits_view(out@) =~= Seq::<HookEditView>::empty());
    push_flat_pairs(&mut out, &mastracode_hook_events(), hook_path, None);
    push_flat_pairs(&mut out, &mastracode_removed_hook_events(), hook_path, None);
    assert(edits_view(out@) =~= mastracode_uninstall_edits_spec(hook_path@));
    out
}

// ---------------------------------------------------------------------------
// Letta and Trae
// ---------------------------------------------------------------------------

pub open spec fn letta_uninstall_edits_spec() -> Seq<HookEditView> {
    seq![remove_edit(("SessionStart"@, "session"@))]
}

/// The edit of Letta Code's `settings.json` when the hook is uninstalled.
pub fn letta_uninstall_edits() -> (r: Vec<HookEdit>)
    ensures
        edits_view(r@) == letta_uninstall_edits_spec(),
{
    let e = HookEdit::RemoveCommands {
        event: "SessionStart".to_owned(),
        action: Some("session".to_owned()),
    };
    let out = vec![e];
    assert(edits_view(out@) =~= letta_uninstall_edits_spec());
    out
}

pub open spec fn trae_legacy_cleanup_edits_spec() -> Seq<HookEditView> {
    removes_spec(trae_legacy_hook_events_spec())
}

/// The edits that take the hooks of integration versions 1-2 out of
/// `~/.trae/hooks.json`.
pub fn trae_legacy_cleanup_edits() -> (r: Vec<HookEdit>)
    ensures
        edits_view(r@) == trae_legacy_cleanup_edits_spec(),
{
    let mut out: Vec<HookEdit> = Vec::new();
    assert(edits_view(out@) =~= Seq::<HookEditView>::empty());
    push_removes(&mut out, &trae_legacy_hook_events());
    assert(edits_view(out@) =~= trae_legacy_cleanup_edits_spec());
    out
}

} // verus!
