//! The Letta installer replaces its hook script and its settings file as
//! one transaction: both new files are staged beside their targets, then
//! published by renames, and a failure undoes what was published and
//! removes what was staged. The file operations are the caller's; the
//! decisions stand here.
use vstd::prelude::*;
use crate::error::{ErrorKind, InstallError};
use crate::json::{
    first_member, items_view, jarray1, jobject1, lemma_first_member, lemma_items_view_push,
    lemma_members_view_index, members_view, push_member, Json, JsonView,
};
use crate::names::LETTA_HOOK_TIMEOUT_MS;
use crate::text::decimal_spec;

verus! {

// ---------------------------------------------------------------------------
// Artifacts and errors
// ---------------------------------------------------------------------------

/// `{file name}.herdr-install-{process id}-{role}`.
pub open spec fn letta_artifact_file_name_spec(file_name: Seq<char>, process_id: u32, role: Seq<
    char,
>) -> Seq<char> {
    file_name + ".herdr-install-"@ + decimal_spec(process_id as nat) + "-"@ + role
}

/// The file name of an install artifact (`staged` or `backup`) of the file
/// named `file_name`, for the process `process_id`.
pub fn letta_artifact_file_name(file_name: &str, process_id: u32, role: &str) -> (r: String)
    ensures
        r@ == letta_artifact_file_name_spec(file_name@, process_id, role@),
{
    let mut s = file_name.to_owned();
    s.append(".herdr-install-");
    let pid = crate::text::decimal(process_id as u64);
    s.append(pid.as_str());
    s.append("-");
    s.append(role);
    s
}

/// Refuses an install target that exists and is not a file.
pub fn letta_target_check(target: &str, exists: bool, is_file: bool) -> (r: Result<(), InstallError>)
    ensures
        exists && !is_file ==> (r matches Err(e) && e.kind == ErrorKind::Other && e.message@
            == "install target is not a file: "@ + target@),
        !(exists && !is_file) ==> r is Ok,
{
    if exists && !is_file {
        let mut msg = "install target is not a file: ".to_owned();
        msg.append(target);
        Err(InstallError::other(msg))
    } else {
        Ok(())
    }
}

/// Refuses to stage while an artifact of an earlier install remains.
pub fn letta_stale_check(target: &str, staged_exists: bool, backup_exists: bool) -> (r: Result<
    (),
    InstallError,
>)
    ensures
        (staged_exists || backup_exists) ==> (r matches Err(e) && e.kind == ErrorKind::AlreadyExists
            && e.message@ == "stale install artifact exists for "@ + target@),
        !(staged_exists || backup_exists) ==> r is Ok,
{
    if staged_exists || backup_exists {
        let mut msg = "stale install artifact exists for ".to_owned();
        msg.append(target);
        Err(InstallError { kind: ErrorKind::AlreadyExists, message: msg })
    } else {
        Ok(())
    }
}

/// A failure, with the failure of the rollback that followed it, if any:
/// the kind of the first, and both messages.
pub fn combine_letta_install_errors(primary: InstallError, rollback: Result<(), InstallError>) -> (r:
    InstallError)
    ensures
        match rollback {
            Ok(()) => r == primary,
            Err(rollback_err) => r.kind == primary.kind && r.message@ == primary.message@
                + "; rollback failed: "@ + rollback_err.message@,
        },
{
    match rollback {
        Ok(()) => primary,
        Err(rollback_err) => {
            let mut msg = primary.message;
            msg.append("; rollback failed: ");
            msg.append(rollback_err.message.as_str());
            InstallError { kind: primary.kind, message: msg }
        },
    }
}

/// A warning that an install artifact could not be removed.
#[derive(Debug, PartialEq, Eq)]
pub struct ArtifactWarning {
    pub path: String,
    pub error: String,
}

/// Removing an install artifact is best effort: `removal` is what deleting
/// `path` gave, and a failure becomes a warning to log.
pub fn cleanup_letta_install_artifact(path: &str, removal: Result<bool, InstallError>) -> (r: Option<
    ArtifactWarning,
>)
    ensures
        match removal {
            Ok(_) => r is None,
            Err(e) => r matches Some(w) && w.path@ == path@ && w.error@ == e.message@,
        },
{
    match removal {
        Ok(_) => None,
        Err(e) => Some(ArtifactWarning { path: path.to_owned(), error: e.message }),
    }
}

// ---------------------------------------------------------------------------
// The install transaction
// ---------------------------------------------------------------------------

/// A staged file and the backup path of its target.
#[derive(Debug, PartialEq, Eq)]
pub struct LettaFile {
    pub staged: String,
    pub backup: String,
}

/// Where the transaction stands.
#[derive(Debug, PartialEq, Eq)]
pub enum LettaInstall {
    /// The hook script is being staged.
    PreparingHook,
    /// The settings file is being staged.
    PreparingSettings { hook: LettaFile },
    /// The hook script is being published.
    PublishingHook { hook: LettaFile, settings: LettaFile },
    /// The settings file is being published.
    PublishingSettings { hook: LettaFile, hook_had_original: bool, settings: LettaFile },
    /// The published hook script is being rolled back after `failure`.
    RollingBackHook { settings: LettaFile, failure: InstallError },
    /// Nothing is left to do.
    Done,
}

/// What the caller does next.
#[derive(Debug, PartialEq, Eq)]
pub enum LettaAction {
    /// Stage the settings file beside its target.
    PrepareSettings,
    /// Move the target aside to `backup`, if it exists, and `staged` onto it.
    PublishHook { staged: String, backup: String },
    /// As `PublishHook`, for the settings file.
    PublishSettings { staged: String, backup: String },
    /// Remove the hook script and, when it had an original, move `backup`
    /// back onto it.
    RollBackHook { backup: String, had_original: bool },
    /// Remove `cleanups` (best effort, in order) and end with `result`.
    Finish { cleanups: Vec<String>, result: Result<(), InstallError> },
}

/// What the last action gave.
#[derive(Debug, PartialEq, Eq)]
pub enum LettaEvent {
    /// Staging a file gave its staged and backup paths, or a failure.
    Prepared(Result<LettaFile, InstallError>),
    /// Publishing gave whether the target had an original, or a failure.
    Published(Result<bool, InstallError>),
    /// Rolling back gave this.
    RolledBack(Result<(), InstallError>),
}

/// The event answers the action that the state asked for.
pub open spec fn letta_event_fits(state: LettaInstall, event: LettaEvent) -> bool {
    match state {
        LettaInstall::PreparingHook => event is Prepared,
        LettaInstall::PreparingSettings { .. } => event is Prepared,
        LettaInstall::PublishingHook { .. } => event is Published,
        LettaInstall::PublishingSettings { .. } => event is Published,
        LettaInstall::RollingBackHook { .. } => event is RolledBack,
        LettaInstall::Done => false,
    }
}

/// The paths that a `Finish` action removes.
pub open spec fn finish_cleanups(a: LettaAction) -> Seq<Seq<char>> {
    match a {
        LettaAction::Finish { cleanups, .. } => cleanups@.map_values(|s: String| s@),
        _ => seq![],
    }
}

/// The backups of originals that a successful publish leaves behind.
pub open spec fn backups_to_remove(
    hook_backup: Seq<char>,
    hook_had_original: bool,
    settings_backup: Seq<char>,
    settings_had_original: bool,
) -> Seq<Seq<char>> {
    (if hook_had_original {
        seq![hook_backup]
    } else {
        seq![]
    }) + (if settings_had_original {
        seq![settings_backup]
    } else {
        seq![]
    })
}

fn one_path(p: String) -> (v: Vec<String>)
    ensures
        v@.map_values(|s: String| s@) == seq![p@],
{
    let mut v: Vec<String> = Vec::new();
    v.push(p);
    assert(v@.map_values(|s: String| s@) =~= seq![p@]);
    v
}

/// One step of the transaction: from `state`, on `event`, the transaction
/// goes to `next` and asks the caller for `action`.
pub open spec fn letta_step(
    state: LettaInstall,
    event: LettaEvent,
    next: LettaInstall,
    action: LettaAction,
) -> bool {
        match (state, event) {
            (LettaInstall::PreparingHook, LettaEvent::Prepared(Err(e))) => next is Done && (action matches LettaAction::Finish { result, .. } && result == Err::<(), InstallError>(e))
                && finish_cleanups(action) == Seq::<Seq<char>>::empty(),
            (LettaInstall::PreparingHook, LettaEvent::Prepared(Ok(hook))) => next
                == LettaInstall::PreparingSettings { hook } && action is PrepareSettings,
            (LettaInstall::PreparingSettings { hook }, LettaEvent::Prepared(Err(e))) => next is Done
                && (action matches LettaAction::Finish { result, .. } && result == Err::<
                (),
                InstallError,
            >(e)) && finish_cleanups(action) == seq![hook.staged@],
            (LettaInstall::PreparingSettings { hook }, LettaEvent::Prepared(Ok(settings))) => next
                == LettaInstall::PublishingHook { hook, settings } && (action matches LettaAction::PublishHook { staged, backup } && staged@ == hook.staged@ && backup@
                == hook.backup@),
            (LettaInstall::PublishingHook { hook, settings }, LettaEvent::Published(Err(e))) => next is Done
                && (action matches LettaAction::Finish { result, .. } && result == Err::<
                (),
                InstallError,
            >(e)) && finish_cleanups(action) == seq![hook.staged@, settings.staged@],
            (
                LettaInstall::PublishingHook { hook, settings },
                LettaEvent::Published(Ok(had_original)),
            ) => next == LettaInstall::PublishingSettings {
                hook,
                hook_had_original: had_original,
                settings,
            } && (action matches LettaAction::PublishSettings { staged, backup } && staged@
                == settings.staged@ && backup@ == settings.backup@),
            (
                LettaInstall::PublishingSettings { hook, hook_had_original, settings },
                LettaEvent::Published(Err(e)),
            ) => next == LettaInstall::RollingBackHook { settings, failure: e } && (action matches LettaAction::RollBackHook { backup, had_original } && backup@ == hook.backup@
                && had_original == hook_had_original),
            (
                LettaInstall::PublishingSettings { hook, hook_had_original, settings },
                LettaEvent::Published(Ok(settings_had_original)),
            ) => next is Done && (action matches LettaAction::Finish { result, .. } && result is Ok)
                && finish_cleanups(action) == backups_to_remove(
                hook.backup@,
                hook_had_original,
                settings.backup@,
                settings_had_original,
            ),
            (LettaInstall::RollingBackHook { settings, failure }, LettaEvent::RolledBack(rollback)) => next is Done
                && (action matches LettaAction::Finish { result, .. } && (result matches Err(e)
                && e.kind == failure.kind && e.message@ == match rollback {
                Ok(()) => failure.message@,
                Err(re) => failure.message@ + "; rollback failed: "@ + re.message@,
            })) && finish_cleanups(action) == seq![settings.staged@],
            _ => false,
        }
}

/// The next step of the Letta install transaction. A failure ends it with
/// every staged file that was not published listed for removal, and a
/// failure to publish the settings first rolls the hook script back.
pub fn letta_install_step(state: LettaInstall, event: LettaEvent) -> (r: (LettaInstall, LettaAction))
    requires
        letta_event_fits(state, event),
    ensures
        letta_step(state, event, r.0, r.1),

{
    match state {
        LettaInstall::PreparingHook => match event {
            LettaEvent::Prepared(Err(e)) => {
                let cleanups: Vec<String> = Vec::new();
                assert(cleanups@.map_values(|s: String| s@) =~= Seq::<Seq<char>>::empty());
                (LettaInstall::Done, LettaAction::Finish { cleanups, result: Err(e) })
            },
            LettaEvent::Prepared(Ok(hook)) => (
                LettaInstall::PreparingSettings { hook },
                LettaAction::PrepareSettings,
            ),
            _ => {
                proof {
                    assert(false);
                }
                (LettaInstall::Done, LettaAction::PrepareSettings)
            },
        },
        LettaInstall::PreparingSettings { hook } => match event {
            LettaEvent::Prepared(Err(e)) => {
                let cleanups = one_path(hook.staged);
                (LettaInstall::Done, LettaAction::Finish { cleanups, result: Err(e) })
            },
            LettaEvent::Prepared(Ok(settings)) => {
                let action = LettaAction::PublishHook {
                    staged: hook.staged.clone(),
                    backup: hook.backup.clone(),
                };
                (LettaInstall::PublishingHook { hook, settings }, action)
            },
            _ => {
                proof {
                    assert(false);
                }
                (LettaInstall::Done, LettaAction::PrepareSettings)
            },
        },
        LettaInstall::PublishingHook { hook, settings } => match event {
            LettaEvent::Published(Err(e)) => {
                let ghost hs = hook.staged@;
                let ghost ss = settings.staged@;
                let mut cleanups = one_path(hook.staged);
                let ghost first = cleanups@;
                cleanups.push(settings.staged);
                assert(cleanups@.map_values(|s: String| s@) =~= first.map_values(|s: String| s@).push(
                    ss,
                ));
                assert(cleanups@.map_values(|s: String| s@) =~= seq![hs, ss]);
                (LettaInstall::Done, LettaAction::Finish { cleanups, result: Err(e) })
            },
            LettaEvent::Published(Ok(had_original)) => {
                let action = LettaAction::PublishSettings {
                    staged: settings.staged.clone(),
                    backup: settings.backup.clone(),
                };
                (
                    LettaInstall::PublishingSettings { hook, hook_had_original: had_original, settings },
                    action,
                )
            },
            _ => {
                proof {
                    assert(false);
                }
                (LettaInstall::Done, LettaAction::PrepareSettings)
            },
        },
        LettaInstall::PublishingSettings { hook, hook_had_original, settings } => match event {
            LettaEvent::Published(Err(e)) => {
                let action = LettaAction::RollBackHook {
                    backup: hook.backup,
                    had_original: hook_had_original,
                };
                (LettaInstall::RollingBackHook { settings, failure: e }, action)
            },
            LettaEvent::Published(Ok(settings_had_original)) => {
                let mut cleanups: Vec<String> = Vec::new();
                let ghost hb = hook.backup@;
                let ghost sb = settings.backup@;
                assert(cleanups@.map_values(|s: String| s@) =~= Seq::<Seq<char>>::empty());
                if hook_had_original {
                    cleanups.push(hook.backup);
                }
                let ghost mid = cleanups@;
                assert(mid.map_values(|s: String| s@) =~= (if hook_had_original {
                    seq![hb]
                } else {
                    Seq::<Seq<char>>::empty()
                }));
                if settings_had_original {
                    cleanups.push(settings.backup);
                }
                assert(cleanups@.map_values(|s: String| s@) =~= backups_to_remove(
                    hb,
                    hook_had_original,
                    sb,
                    settings_had_original,
                ));
                (LettaInstall::Done, LettaAction::Finish { cleanups, result: Ok(()) })
            },
            _ => {
                proof {
                    assert(false);
                }
                (LettaInstall::Done, LettaAction::PrepareSettings)
            },
        },
        LettaInstall::RollingBackHook { settings, failure } => match event {
            LettaEvent::RolledBack(rollback) => {
                let err = combine_letta_install_errors(failure, rollback);
                let cleanups = one_path(settings.staged);
                (LettaInstall::Done, LettaAction::Finish { cleanups, result: Err(err) })
            },
            _ => {
                proof {
                    assert(false);
                }
                (LettaInstall::Done, LettaAction::PrepareSettings)
            },
        },
        LettaInstall::Done => {
            proof {
                assert(false);
            }
            (LettaInstall::Done, LettaAction::PrepareSettings)
        },
    }
}

// ---------------------------------------------------------------------------
// The session hook entry
// ---------------------------------------------------------------------------

/// `{"hooks": [{"type": "command", "command": command, "timeout": .., "quiet": true}]}`.
pub open spec fn letta_session_entry_spec(command: Seq<char>) -> JsonView {
    JsonView::Object(
        seq![
            (
                "hooks"@,
                JsonView::Array(
                    seq![
                        JsonView::Object(
                            seq![
                                ("type"@, JsonView::Str("command"@)),
                                ("command"@, JsonView::Str(command)),
                                ("timeout"@, JsonView::UInt(LETTA_HOOK_TIMEOUT_MS)),
                                ("quiet"@, JsonView::Bool(true)),
                            ],
                        ),
                    ],
                ),
            ),
        ],
    )
}

/// What adding the Letta session hook does to the hooks object `ms`: the
/// new entry goes to the end of the first `SessionStart` member, created
/// when missing; `None` when that member is not an array.
pub open spec fn with_letta_session_hook(ms: Seq<(Seq<char>, JsonView)>, command: Seq<char>) -> Option<
    Seq<(Seq<char>, JsonView)>,
> {
    let i = first_member(ms, "SessionStart"@);
    let entry = letta_session_entry_spec(command);
    if i < 0 {
        Some(ms.push(("SessionStart"@, JsonView::Array(seq![entry]))))
    } else {
        match ms[i].1 {
            JsonView::Array(items) => Some(
                ms.update(i, ("SessionStart"@, JsonView::Array(items.push(entry)))),
            ),
            _ => None,
        }
    }
}

/// Adds the Letta session hook to the hooks object.
pub fn ensure_letta_session_hook(hooks: &mut Vec<(String, Json)>, command: String) -> (r: Result<
    (),
    InstallError,
>)
    ensures
        match with_letta_session_hook(members_view(old(hooks)@), command@) {
            Some(ms) => r is Ok && members_view(final(hooks)@) == ms,
            None => (r matches Err(e) && e.kind == ErrorKind::Other && e.message@
                == "hook entries for SessionStart must be an array"@) && final(hooks)@ == old(
                hooks,
            )@,
        },
{
    let ghost cmd = command@;
    let ghost before = hooks@;
    let key = "SessionStart".to_owned();
    let mut handler: Vec<(String, Json)> = Vec::new();
    assert(members_view(handler@) =~= Seq::<(Seq<char>, JsonView)>::empty());
    push_member(&mut handler, "type", crate::json::jstr("command"));
    push_member(&mut handler, "command", Json::Str(command));
    push_member(&mut handler, "timeout", Json::UInt(LETTA_HOOK_TIMEOUT_MS));
    push_member(&mut handler, "quiet", Json::Bool(true));
    assert(members_view(handler@) =~= seq![
        ("type"@, JsonView::Str("command"@)),
        ("command"@, JsonView::Str(cmd)),
        ("timeout"@, JsonView::UInt(LETTA_HOOK_TIMEOUT_MS)),
        ("quiet"@, JsonView::Bool(true)),
    ]);
    let entry = jobject1("hooks", jarray1(Json::Object(handler)));
    assert(entry@ == letta_session_entry_spec(cmd));
    proof {
        lemma_members_view_index(hooks@);
    }
    let mut i: usize = 0;
    let mut found = false;
    while i < hooks.len() && !found
        invariant
            i <= hooks.len(),
            hooks@ == before,
            key@ == "SessionStart"@,
            members_view(before).len() == before.len(),
            forall|j: int|
                0 <= j < before.len() ==> #[trigger] members_view(before)[j] == (
                    before[j].0@,
                    before[j].1.json_view(),
                ),
            forall|j: int| 0 <= j < i ==> #[trigger] members_view(before)[j].0 != "SessionStart"@,
            found ==> i < hooks.len() && members_view(before)[i as int].0 == "SessionStart"@,
        decreases hooks.len() - i + (if found {
            0int
        } else {
            1int
        }),
    {
        if hooks[i].0 == key {
            found = true;
        } else {
            assert(members_view(before)[i as int].0 != "SessionStart"@);
            i = i + 1;
        }
    }
    proof {
        lemma_first_member(members_view(before), "SessionStart"@, i as int);
    }
    if i == hooks.len() {
        let ghost entry_view = entry@;
        let groups = jarray1(entry);
        let ghost member = (key, groups);
        hooks.push((key, groups));
        proof {
            crate::json::lemma_members_view_push(before, member);
        }
        assert(members_view(hooks@) =~= members_view(before).push(
            ("SessionStart"@, JsonView::Array(seq![entry_view])),
        ));
        return Ok(());
    }
    let (k, v) = hooks.remove(i);
    match v {
        Json::Array(mut items) => {
            let ghost old_items = items@;
            let ghost entry_view = entry@;
            items.push(entry);
            proof {
                lemma_items_view_push(old_items, entry);
            }
            let ghost member = (k, Json::Array(items));
            hooks.insert(i, (k, Json::Array(items)));
            proof {
                assert(hooks@ =~= before.update(i as int, member));
                lemma_members_view_index(hooks@);
                assert(members_view(hooks@)[i as int] == (
                    "SessionStart"@,
                    JsonView::Array(items_view(old_items).push(entry_view)),
                ));
                assert forall|j: int| 0 <= j < hooks@.len() && j != i implies #[trigger] members_view(
                    hooks@,
                )[j] == members_view(before)[j] by {
                    assert(hooks@[j] == before[j]);
                }
                assert(members_view(hooks@) =~= members_view(before).update(
                    i as int,
                    ("SessionStart"@, JsonView::Array(items_view(old_items).push(entry_view))),
                ));
            }
            Ok(())
        },
        other => {
            let ghost member = (k, other);
            hooks.insert(i, (k, other));
            assert(hooks@ =~= before);
            Err(InstallError::other("hook entries for SessionStart must be an array".to_owned()))
        },
    }
}

} // verus!
