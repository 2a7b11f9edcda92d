//! The Letta install is all or nothing. A model of the two target files
//! follows each action of the transaction; where every action does what the
//! installer's file operations do, a run that ends in success leaves both
//! targets with the new contents, and a run that fails leaves both as they
//! were, unless a rollback itself failed.
use vstd::prelude::*;
use crate::letta::{
    finish_cleanups, letta_event_fits, letta_step, LettaAction, LettaEvent, LettaFile, LettaInstall,
};

verus! {

/// The contents of the hook script target, of the settings target, and of
/// the hook script's backup; `None` where no file is.
pub type LettaFiles = (Option<Seq<u8>>, Option<Seq<u8>>, Option<Seq<u8>>);

/// What the action that `state` is waiting on does to the files, going from
/// `f` to `f2`, when it gives `event`. `prev` is the action the step into
/// `state` asked for. Staging touches no target. Publishing moves an
/// existing target to its backup, then the staged file (holding `new_hook`
/// or `new_settings`) onto the target; a failed publish puts the target
/// back, unless that rollback fails. Rolling the hook back removes it and,
/// where it had an original, moves the backup back. `rollbacks_ok` says
/// that no rollback fails.
pub open spec fn letta_file_effect(
    state: LettaInstall,
    prev: Option<LettaAction>,
    event: LettaEvent,
    f: LettaFiles,
    f2: LettaFiles,
    new_hook: Seq<u8>,
    new_settings: Seq<u8>,
    rollbacks_ok: bool,
) -> bool {
    match state {
        LettaInstall::PreparingHook => f2 == f,
        LettaInstall::PreparingSettings { .. } => f2 == f,
        LettaInstall::PublishingHook { .. } => match event {
            LettaEvent::Published(Ok(had_original)) => had_original == f.0 is Some && f2.0 == Some(
                new_hook,
            ) && f2.1 == f.1 && (had_original ==> f2.2 == f.0),
            LettaEvent::Published(Err(_)) => f2.1 == f.1 && (rollbacks_ok ==> f2.0 == f.0),
            _ => true,
        },
        LettaInstall::PublishingSettings { .. } => match event {
            LettaEvent::Published(Ok(_)) => f2.0 == f.0 && f2.1 == Some(new_settings) && f2.2
                == f.2,
            LettaEvent::Published(Err(_)) => f2.0 == f.0 && f2.2 == f.2 && (rollbacks_ok ==> f2.1
                == f.1),
            _ => true,
        },
        LettaInstall::RollingBackHook { .. } => match (prev, event) {
            (Some(LettaAction::RollBackHook { had_original, .. }), LettaEvent::RolledBack(r)) => f2.1
                == f.1 && (rollbacks_ok ==> r is Ok) && (r is Ok ==> f2.0 == (if had_original {
                f.2
            } else {
                None
            })),
            _ => true,
        },
        LettaInstall::Done => true,
    }
}

/// What the files hold while the transaction is in `state`, against `f0`,
/// what they held at the start.
pub open spec fn letta_files_inv(
    state: LettaInstall,
    prev: Option<LettaAction>,
    f: LettaFiles,
    f0: LettaFiles,
    new_hook: Seq<u8>,
    new_settings: Seq<u8>,
    rollbacks_ok: bool,
) -> bool {
    match state {
        LettaInstall::PreparingHook => f.0 == f0.0 && f.1 == f0.1,
        LettaInstall::PreparingSettings { .. } => f.0 == f0.0 && f.1 == f0.1,
        LettaInstall::PublishingHook { .. } => f.0 == f0.0 && f.1 == f0.1,
        LettaInstall::PublishingSettings { hook_had_original, .. } => f.0 == Some(new_hook) && f.1
            == f0.1 && (hook_had_original ==> f.2 == f0.0) && (!hook_had_original ==> f0.0 is None),
        LettaInstall::RollingBackHook { .. } => (rollbacks_ok ==> f.1 == f0.1) && (prev matches Some(
            LettaAction::RollBackHook { had_original, .. },
        ) && (had_original ==> f.2 == f0.0) && (!had_original ==> f0.0 is None)),
        LettaInstall::Done => prev matches Some(LettaAction::Finish { result, .. }) && (result is Ok
            ==> f.0 == Some(new_hook) && f.1 == Some(new_settings)) && (result is Err
            && rollbacks_ok ==> f.0 == f0.0 && f.1 == f0.1),
    }
}

proof fn lemma_letta_step_keeps_inv(
    state: LettaInstall,
    prev: Option<LettaAction>,
    event: LettaEvent,
    next: LettaInstall,
    action: LettaAction,
    f: LettaFiles,
    f2: LettaFiles,
    f0: LettaFiles,
    new_hook: Seq<u8>,
    new_settings: Seq<u8>,
    rollbacks_ok: bool,
)
    requires
        letta_event_fits(state, event),
        letta_step(state, event, next, action),
        letta_file_effect(state, prev, event, f, f2, new_hook, new_settings, rollbacks_ok),
        letta_files_inv(state, prev, f, f0, new_hook, new_settings, rollbacks_ok),
    ensures
        letta_files_inv(next, Some(action), f2, f0, new_hook, new_settings, rollbacks_ok),
{
}

/// The action that the step into `states[i]` asked for; none before the
/// first step.
pub open spec fn letta_prev(actions: Seq<LettaAction>, i: int) -> Option<LettaAction> {
    if i == 0 {
        None
    } else {
        Some(actions[i - 1])
    }
}

/// A run of the transaction from its start: `states[i]` on `events[i]` goes
/// to `states[i + 1]` and asks for `actions[i]`, and the action waited on in
/// `states[i]` takes the files from `files[i]` to `files[i + 1]`.
pub open spec fn letta_run(
    states: Seq<LettaInstall>,
    events: Seq<LettaEvent>,
    actions: Seq<LettaAction>,
    files: Seq<LettaFiles>,
    new_hook: Seq<u8>,
    new_settings: Seq<u8>,
    rollbacks_ok: bool,
) -> bool {
    &&& states.len() == events.len() + 1
    &&& actions.len() == events.len()
    &&& files.len() == events.len() + 1
    &&& states[0] == LettaInstall::PreparingHook
    &&& forall|i: int|
        0 <= i < events.len() ==> letta_event_fits(#[trigger] states[i], events[i]) && letta_step(
            states[i],
            events[i],
            states[i + 1],
            actions[i],
        ) && letta_file_effect(
            states[i],
            letta_prev(actions, i),
            events[i],
            files[i],
            files[i + 1],
            new_hook,
            new_settings,
            rollbacks_ok,
        )
}

proof fn lemma_letta_run_inv(
    states: Seq<LettaInstall>,
    events: Seq<LettaEvent>,
    actions: Seq<LettaAction>,
    files: Seq<LettaFiles>,
    new_hook: Seq<u8>,
    new_settings: Seq<u8>,
    rollbacks_ok: bool,
    k: int,
)
    requires
        letta_run(states, events, actions, files, new_hook, new_settings, rollbacks_ok),
        0 <= k <= events.len(),
    ensures
        letta_files_inv(
            states[k],
            letta_prev(actions, k),
            files[k],
            files[0],
            new_hook,
            new_settings,
            rollbacks_ok,
        ),
    decreases k,
{
    if k > 0 {
        lemma_letta_run_inv(states, events, actions, files, new_hook, new_settings, rollbacks_ok, k - 1);
        let i = k - 1;
        assert(letta_event_fits(states[i], events[i]));
        lemma_letta_step_keeps_inv(
            states[i],
            letta_prev(actions, i),
            events[i],
            states[k],
            actions[i],
            files[i],
            files[k],
            files[0],
            new_hook,
            new_settings,
            rollbacks_ok,
        );
    }
}

/// The Letta install is all or nothing: in a run that has ended, where each
/// action does what the installer's file operations do, success leaves the
/// hook script and the settings with their new contents, and failure leaves
/// both as they were at the start, unless a rollback failed.
pub proof fn law_letta_install_all_or_nothing(
    states: Seq<LettaInstall>,
    events: Seq<LettaEvent>,
    actions: Seq<LettaAction>,
    files: Seq<LettaFiles>,
    new_hook: Seq<u8>,
    new_settings: Seq<u8>,
    rollbacks_ok: bool,
)
    requires
        letta_run(states, events, actions, files, new_hook, new_settings, rollbacks_ok),
        states.last() is Done,
    ensures
        actions.len() > 0,
        actions.last() matches LettaAction::Finish { result, .. } && (result is Ok ==> files.last().0
            == Some(new_hook) && files.last().1 == Some(new_settings)) && (result is Err
            && rollbacks_ok ==> files.last().0 == files[0].0 && files.last().1 == files[0].1),
{
    let n = events.len() as int;
    lemma_letta_run_inv(states, events, actions, files, new_hook, new_settings, rollbacks_ok, n);
    assert(n > 0);
}

/// When the settings file is published, the install succeeds and removes
/// the backup of each target that had an original, and nothing else, so no
/// backup survives a successful install.
pub proof fn law_letta_success_removes_every_backup(
    hook: LettaFile,
    hook_had_original: bool,
    settings: LettaFile,
    settings_had_original: bool,
    next: LettaInstall,
    action: LettaAction,
)
    requires
        letta_step(
            LettaInstall::PublishingSettings { hook, hook_had_original, settings },
            LettaEvent::Published(Ok(settings_had_original)),
            next,
            action,
        ),
    ensures
        next is Done,
        action matches LettaAction::Finish { result, .. } && result is Ok,
        hook_had_original ==> finish_cleanups(action).contains(hook.backup@),
        settings_had_original ==> finish_cleanups(action).contains(settings.backup@),
        forall|x: Seq<char>|
            finish_cleanups(action).contains(x) ==> (hook_had_original && x == hook.backup@) || (
            settings_had_original && x == settings.backup@),
{
    let c = finish_cleanups(action);
    if hook_had_original {
        assert(c[0] == hook.backup@);
    }
    if settings_had_original {
        let k = if hook_had_original { 1int } else { 0int };
        assert(c[k] == settings.backup@);
    }
    assert forall|x: Seq<char>| c.contains(x) implies (hook_had_original && x == hook.backup@) || (
    settings_had_original && x == settings.backup@) by {
        let k = choose|k: int| 0 <= k < c.len() && c[k] == x;
    }
}

/// A failed install removes exactly the staged files that were never
/// published (the hook script's while it was still staged, the settings
/// file's until it was published) and no backup.
pub proof fn law_letta_failure_removes_the_unpublished_staged_files(
    state: LettaInstall,
    event: LettaEvent,
    next: LettaInstall,
    action: LettaAction,
)
    requires
        letta_event_fits(state, event),
        letta_step(state, event, next, action),
        action matches LettaAction::Finish { result, .. } && result is Err,
    ensures
        forall|x: Seq<char>|
            finish_cleanups(action).contains(x) <==> match state {
                LettaInstall::PreparingSettings { hook } => x == hook.staged@,
                LettaInstall::PublishingHook { hook, settings } => x == hook.staged@ || x
                    == settings.staged@,
                LettaInstall::RollingBackHook { settings, .. } => x == settings.staged@,
                _ => false,
            },
{
    let c = finish_cleanups(action);
    assert forall|x: Seq<char>| c.contains(x) <==> match state {
        LettaInstall::PreparingSettings { hook } => x == hook.staged@,
        LettaInstall::PublishingHook { hook, settings } => x == hook.staged@ || x
            == settings.staged@,
        LettaInstall::RollingBackHook { settings, .. } => x == settings.staged@,
        _ => false,
    } by {
        match state {
            LettaInstall::PreparingSettings { hook } => {
                if x == hook.staged@ {
                    assert(c[0] == x);
                }
            },
            LettaInstall::PublishingHook { hook, settings } => {
                if x == hook.staged@ {
                    assert(c[0] == x);
                }
                if x == settings.staged@ {
                    assert(c[1] == x);
                }
            },
            LettaInstall::RollingBackHook { settings, .. } => {
                if x == settings.staged@ {
                    assert(c[0] == x);
                }
            },
            _ => {},
        }
    }
}

} // verus!
