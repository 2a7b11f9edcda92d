//! What the hook plans promise together: an uninstaller takes out every
//! entry its installer adds, and an installer takes an entry out before it
//! adds it back.
use vstd::prelude::*;
use crate::hook_plans::{
    codex_install_edits_spec, codex_uninstall_edits_spec, copilot_install_edits_spec,
    copilot_uninstall_edits_spec, cursor_install_edits_spec, cursor_session_command,
    cursor_uninstall_edits_spec, devin_install_edits_spec, devin_uninstall_edits_spec,
    direct_removes_spec, droid_cleanup_edits_spec, droid_install_edits_spec, droid_session_cleanup,
    ensure_edit, ensures_spec, flat_pairs_spec, flat_remove_edit, flat_second_edit,
    mastracode_install_edits_spec, mastracode_uninstall_edits_spec, qodercli_install_edits_spec,
    qodercli_uninstall_edits_spec, qwen_install_edits_spec, qwen_uninstall_edits_spec,
    remove_edit, removes_spec, replace_each_spec, simple_removes_spec, EventAction, HookEditView,
};
use crate::hooks::hook_command_spec;
use crate::names::{
    codex_removed_hook_events_spec, codex_replaced_hook_events_spec,
    copilot_hook_events_spec, copilot_removed_lifecycle_hook_events_spec,
    cursor_replaced_hook_events_spec, devin_hook_events_spec,
    devin_removed_lifecycle_hook_events_spec, droid_hook_events_spec,
    droid_removed_lifecycle_hook_events_spec, mastracode_hook_events_spec,
    mastracode_removed_hook_events_spec, qodercli_hook_events_spec,
    qodercli_removed_lifecycle_hook_events_spec, qwen_hook_events_spec,
    MASTRACODE_HOOK_TIMEOUT_MS, QWEN_HOOK_TIMEOUT_MS,
};

verus! {

// ---------------------------------------------------------------------------
// What an uninstaller takes out of what an installer adds
// ---------------------------------------------------------------------------

/// The edit adds an entry.
pub open spec fn adds_entry(a: HookEditView) -> bool {
    ||| a is EnsureCommand
    ||| a is EnsureDirectCommand
    ||| a is EnsureSimpleCommand
    ||| a is EnsureFlatCommand
}

/// In a plan made for the hook at `hook_path`, the edit `r` takes out the
/// entry that `a` adds.
pub open spec fn takes_out(r: HookEditView, a: HookEditView, hook_path: Seq<char>) -> bool {
    match a {
        HookEditView::EnsureCommand { event, command, .. } => match r {
            HookEditView::RemoveCommands { event: e, action: Some(x) } => e == event && command
                == hook_command_spec(hook_path, Some(x)),
            HookEditView::RemoveCommands { event: e, action: None } => e == event,
            _ => false,
        },
        HookEditView::EnsureDirectCommand { event, .. } => match r {
            HookEditView::RemoveDirectCommands { event: e } => e == event,
            _ => false,
        },
        HookEditView::EnsureSimpleCommand { event, command } => match r {
            HookEditView::RemoveSimpleCommand { event: e, command: c } => e == event && c
                == command,
            _ => false,
        },
        HookEditView::EnsureFlatCommand { event, command, .. } => match r {
            HookEditView::RemoveFlatCommand { event: e, command: c } => e == event && c == command,
            _ => false,
        },
        _ => false,
    }
}

/// Each entry `install` adds, some edit of `uninstall` takes out.
pub open spec fn takes_out_all(
    install: Seq<HookEditView>,
    uninstall: Seq<HookEditView>,
    hook_path: Seq<char>,
) -> bool {
    forall|i: int|
        0 <= i < install.len() && #[trigger] adds_entry(install[i]) ==> exists|j: int|
            0 <= j < uninstall.len() && takes_out(uninstall[j], install[i], hook_path)
}

/// Each entry the plan adds, an earlier edit of the plan has taken out first.
pub open spec fn clears_before_adding(plan: Seq<HookEditView>, hook_path: Seq<char>) -> bool {
    forall|i: int|
        0 <= i < plan.len() && #[trigger] adds_entry(plan[i]) ==> exists|j: int|
            0 <= j < i && takes_out(plan[j], plan[i], hook_path)
}

/// The plan adds nothing.
pub open spec fn adds_nothing(plan: Seq<HookEditView>) -> bool {
    forall|i: int| 0 <= i < plan.len() ==> !adds_entry(#[trigger] plan[i])
}

proof fn lemma_adds_nothing_concat(a: Seq<HookEditView>, b: Seq<HookEditView>)
    requires
        adds_nothing(a),
        adds_nothing(b),
    ensures
        adds_nothing(a + b),
{
    assert forall|i: int| 0 <= i < (a + b).len() implies !adds_entry(#[trigger] (a + b)[i]) by {
        if i < a.len() {
            assert((a + b)[i] == a[i]);
        } else {
            assert((a + b)[i] == b[i - a.len()]);
        }
    }
}

proof fn lemma_removes_add_nothing(events: Seq<EventAction>)
    ensures
        adds_nothing(removes_spec(events)),
{
}

/// A plan that first takes out, then adds back, the hook for each event of
/// `events`, after edits that add nothing.
proof fn lemma_remove_then_ensure_clears(
    before: Seq<HookEditView>,
    events: Seq<EventAction>,
    hook_path: Seq<char>,
    timeout: u64,
    matcher: Option<Seq<char>>,
)
    requires
        adds_nothing(before),
    ensures
        clears_before_adding(
            before + removes_spec(events) + ensures_spec(events, hook_path, timeout, matcher),
            hook_path,
        ),
{
    let plan = before + removes_spec(events) + ensures_spec(events, hook_path, timeout, matcher);
    let n = before.len() + events.len();
    assert forall|i: int| 0 <= i < plan.len() && #[trigger] adds_entry(plan[i]) implies exists|
        j: int,
    | 0 <= j < i && takes_out(plan[j], plan[i], hook_path) by {
        if i < before.len() {
            assert(plan[i] == before[i]);
        } else if i < n {
            assert(plan[i] == removes_spec(events)[i - before.len()]);
        } else {
            let k = i - n;
            let j = before.len() + k;
            assert(plan[i] == ensure_edit(hook_path, timeout, matcher, events[k]));
            assert(plan[j] == remove_edit(events[k]));
            assert(takes_out(plan[j], plan[i], hook_path));
        }
    }
}

/// The hook added back for each event of `events` is taken out by a plan that
/// takes the hook out of the same events.
proof fn lemma_ensures_taken_out(
    install_before: Seq<HookEditView>,
    uninstall_before: Seq<HookEditView>,
    uninstall_after: Seq<HookEditView>,
    events: Seq<EventAction>,
    hook_path: Seq<char>,
    timeout: u64,
    matcher: Option<Seq<char>>,
)
    requires
        adds_nothing(install_before),
    ensures
        takes_out_all(
            install_before + ensures_spec(events, hook_path, timeout, matcher),
            uninstall_before + removes_spec(events) + uninstall_after,
            hook_path,
        ),
{
    let install = install_before + ensures_spec(events, hook_path, timeout, matcher);
    let uninstall = uninstall_before + removes_spec(events) + uninstall_after;
    assert forall|i: int| 0 <= i < install.len() && #[trigger] adds_entry(install[i]) implies exists|
        j: int,
    | 0 <= j < uninstall.len() && takes_out(uninstall[j], install[i], hook_path) by {
        if i < install_before.len() {
            assert(install[i] == install_before[i]);
        } else {
            let k = i - install_before.len();
            let j = uninstall_before.len() + k;
            assert(install[i] == ensure_edit(hook_path, timeout, matcher, events[k]));
            assert(uninstall[j] == remove_edit(events[k]));
            assert(takes_out(uninstall[j], install[i], hook_path));
        }
    }
}

proof fn lemma_flat_pairs_index(events: Seq<EventAction>, hook_path: Seq<char>, timeout: Option<u64>)
    ensures
        flat_pairs_spec(events, hook_path, timeout).len() == 2 * events.len(),
        forall|k: int|
            0 <= k < events.len() ==> flat_pairs_spec(events, hook_path, timeout)[2 * k]
                == flat_remove_edit(hook_path, #[trigger] events[k]) && flat_pairs_spec(
                events,
                hook_path,
                timeout,
            )[2 * k + 1] == flat_second_edit(hook_path, timeout, events[k]),
    decreases events.len(),
{
    if events.len() > 0 {
        let prev = events.drop_last();
        lemma_flat_pairs_index(prev, hook_path, timeout);
        assert forall|k: int| 0 <= k < events.len() implies flat_pairs_spec(
            events,
            hook_path,
            timeout,
        )[2 * k] == flat_remove_edit(hook_path, #[trigger] events[k]) && flat_pairs_spec(
            events,
            hook_path,
            timeout,
        )[2 * k + 1] == flat_second_edit(hook_path, timeout, events[k]) by {
            if k < prev.len() {
                assert(events[k] == prev[k]);
            }
        }
    }
}

proof fn lemma_replace_each_index(
    events: Seq<EventAction>,
    hook_path: Seq<char>,
    timeout: u64,
    matcher: Option<Seq<char>>,
)
    ensures
        replace_each_spec(events, hook_path, timeout, matcher).len() == 2 * events.len(),
        forall|k: int|
            0 <= k < events.len() ==> replace_each_spec(events, hook_path, timeout, matcher)[2 * k]
                == remove_edit(#[trigger] events[k]) && replace_each_spec(
                events,
                hook_path,
                timeout,
                matcher,
            )[2 * k + 1] == ensure_edit(hook_path, timeout, matcher, events[k]),
    decreases events.len(),
{
    if events.len() > 0 {
        let prev = events.drop_last();
        lemma_replace_each_index(prev, hook_path, timeout, matcher);
        assert forall|k: int| 0 <= k < events.len() implies replace_each_spec(
            events,
            hook_path,
            timeout,
            matcher,
        )[2 * k] == remove_edit(#[trigger] events[k]) && replace_each_spec(
            events,
            hook_path,
            timeout,
            matcher,
        )[2 * k + 1] == ensure_edit(hook_path, timeout, matcher, events[k]) by {
            if k < prev.len() {
                assert(events[k] == prev[k]);
            }
        }
    }
}

proof fn lemma_flat_pairs_entries(events: Seq<EventAction>, hook_path: Seq<char>, timeout: Option<u64>)
    ensures
        flat_pairs_spec(events, hook_path, timeout).len() == 2 * events.len(),
        forall|i: int|
            0 <= i < flat_pairs_spec(events, hook_path, timeout).len() && #[trigger] adds_entry(
                flat_pairs_spec(events, hook_path, timeout)[i],
            ) ==> i % 2 == 1 && timeout is Some && flat_pairs_spec(events, hook_path, timeout)[i]
                == flat_second_edit(hook_path, timeout, events[i / 2]),
{
    lemma_flat_pairs_index(events, hook_path, timeout);
    let fp = flat_pairs_spec(events, hook_path, timeout);
    assert forall|i: int| 0 <= i < fp.len() && #[trigger] adds_entry(fp[i]) implies i % 2 == 1
        && timeout is Some && fp[i] == flat_second_edit(hook_path, timeout, events[i / 2]) by {
        let k = i / 2;
        assert(0 <= k < events.len());
        let _ = events[k];
        if i % 2 == 0 {
            assert(i == 2 * k);
        } else {
            assert(i == 2 * k + 1);
        }
    }
}

proof fn lemma_replace_each_entries(
    events: Seq<EventAction>,
    hook_path: Seq<char>,
    timeout: u64,
    matcher: Option<Seq<char>>,
)
    ensures
        replace_each_spec(events, hook_path, timeout, matcher).len() == 2 * events.len(),
        forall|i: int|
            0 <= i < replace_each_spec(events, hook_path, timeout, matcher).len()
                && #[trigger] adds_entry(replace_each_spec(events, hook_path, timeout, matcher)[i])
                ==> i % 2 == 1 && replace_each_spec(events, hook_path, timeout, matcher)[i]
                == ensure_edit(hook_path, timeout, matcher, events[i / 2])
                && replace_each_spec(events, hook_path, timeout, matcher)[i - 1] == remove_edit(
                events[i / 2],
            ),
{
    lemma_replace_each_index(events, hook_path, timeout, matcher);
    let rs = replace_each_spec(events, hook_path, timeout, matcher);
    assert forall|i: int| 0 <= i < rs.len() && #[trigger] adds_entry(rs[i]) implies i % 2 == 1
        && rs[i] == ensure_edit(hook_path, timeout, matcher, events[i / 2]) && rs[i - 1]
        == remove_edit(events[i / 2]) by {
        let k = i / 2;
        assert(0 <= k < events.len());
        let _ = events[k];
        if i % 2 == 0 {
            assert(i == 2 * k);
        } else {
            assert(i == 2 * k + 1);
        }
    }
}

/// Whatever an installer adds to an agent's hook configuration, the matching
/// uninstaller takes out again: for Codex, Copilot CLI, Devin, Droid, Qoder
/// CLI, Qwen Code, Cursor and Mastra Code, every entry of the install plan for
/// the hook at `hook_path` has an edit of the uninstall plan that removes it.
pub proof fn law_uninstall_takes_out_what_install_adds(hook_path: Seq<char>)
    ensures
        takes_out_all(codex_install_edits_spec(hook_path), codex_uninstall_edits_spec(), hook_path),
        takes_out_all(
            copilot_install_edits_spec(hook_path),
            copilot_uninstall_edits_spec(),
            hook_path,
        ),
        takes_out_all(devin_install_edits_spec(hook_path), devin_uninstall_edits_spec(), hook_path),
        takes_out_all(droid_install_edits_spec(hook_path), droid_cleanup_edits_spec(), hook_path),
        takes_out_all(
            qodercli_install_edits_spec(hook_path),
            qodercli_uninstall_edits_spec(),
            hook_path,
        ),
        takes_out_all(qwen_install_edits_spec(hook_path), qwen_uninstall_edits_spec(), hook_path),
        takes_out_all(
            cursor_install_edits_spec(hook_path),
            cursor_uninstall_edits_spec(hook_path),
            hook_path,
        ),
        takes_out_all(
            mastracode_install_edits_spec(hook_path),
            mastracode_uninstall_edits_spec(hook_path),
            hook_path,
        ),
{
    let none: Seq<HookEditView> = seq![];
    // Codex: the session hook is the second edit of the uninstall plan.
    let ci = codex_install_edits_spec(hook_path);
    let cu = codex_uninstall_edits_spec();
    assert forall|i: int| 0 <= i < ci.len() && #[trigger] adds_entry(ci[i]) implies exists|j: int|
        0 <= j < cu.len() && takes_out(cu[j], ci[i], hook_path) by {
        lemma_removes_add_nothing(codex_replaced_hook_events_spec());
        if i < 6 {
            assert(ci[i] == removes_spec(codex_replaced_hook_events_spec())[i]);
        } else {
            assert(cu[1] == remove_edit(codex_removed_hook_events_spec()[1]));
            assert(takes_out(cu[1], ci[i], hook_path));
        }
    }
    // Copilot CLI: the direct entry of each event.
    let pr = copilot_removed_lifecycle_hook_events_spec();
    let pe = copilot_hook_events_spec();
    let pi = copilot_install_edits_spec(hook_path);
    let pu = copilot_uninstall_edits_spec();
    assert forall|i: int| 0 <= i < pi.len() && #[trigger] adds_entry(pi[i]) implies exists|j: int|
        0 <= j < pu.len() && takes_out(pu[j], pi[i], hook_path) by {
        let n = pr.len() + pe.len();
        if i < pr.len() {
            assert(pi[i] == direct_removes_spec(pr)[i]);
        } else if i < n {
            assert(pi[i] == direct_removes_spec(pe)[i - pr.len()]);
        } else {
            let k = i - n;
            assert(pu[k] == direct_removes_spec(pe)[k]);
            assert(takes_out(pu[k], pi[i], hook_path));
        }
    }
    // Devin, Droid, Qoder CLI: the removals of the same events.
    let dr = removes_spec(devin_removed_lifecycle_hook_events_spec());
    let de = removes_spec(devin_hook_events_spec());
    lemma_adds_nothing_concat(dr, de);
    lemma_ensures_taken_out(dr + de, dr, none, devin_hook_events_spec(), hook_path, 10, None);
    assert(devin_uninstall_edits_spec() =~= dr + de + none);
    let ds = seq![droid_session_cleanup()] + removes_spec(
        droid_removed_lifecycle_hook_events_spec(),
    );
    assert(adds_nothing(seq![droid_session_cleanup()]));
    lemma_adds_nothing_concat(
        seq![droid_session_cleanup()],
        removes_spec(droid_removed_lifecycle_hook_events_spec()),
    );
    lemma_adds_nothing_concat(ds, removes_spec(droid_hook_events_spec()));
    lemma_ensures_taken_out(
        ds + removes_spec(droid_hook_events_spec()),
        ds,
        none,
        droid_hook_events_spec(),
        hook_path,
        10,
        None,
    );
    assert(droid_cleanup_edits_spec() =~= ds + removes_spec(droid_hook_events_spec()) + none);
    let qr = removes_spec(qodercli_removed_lifecycle_hook_events_spec());
    let qe = removes_spec(qodercli_hook_events_spec());
    lemma_adds_nothing_concat(qr, qe);
    lemma_ensures_taken_out(qr + qe, qr, none, qodercli_hook_events_spec(), hook_path, 10, Some("*"@));
    assert(qodercli_uninstall_edits_spec() =~= qr + qe + none);
    // Qwen Code: the removal of event k stands at k.
    let we = qwen_hook_events_spec();
    let wi = qwen_install_edits_spec(hook_path);
    let wu = qwen_uninstall_edits_spec();
    lemma_replace_each_entries(we, hook_path, QWEN_HOOK_TIMEOUT_MS, Some("*"@));
    assert forall|i: int| 0 <= i < wi.len() && #[trigger] adds_entry(wi[i]) implies exists|j: int|
        0 <= j < wu.len() && takes_out(wu[j], wi[i], hook_path) by {
        let k = i / 2;
        assert(wu[k] == remove_edit(we[k]));
        assert(takes_out(wu[k], wi[i], hook_path));
    }
    // Cursor: `sessionStart` comes first in the uninstall plan.
    let ui = cursor_install_edits_spec(hook_path);
    let uu = cursor_uninstall_edits_spec(hook_path);
    assert forall|i: int| 0 <= i < ui.len() && #[trigger] adds_entry(ui[i]) implies exists|j: int|
        0 <= j < uu.len() && takes_out(uu[j], ui[i], hook_path) by {
        let sr = simple_removes_spec(
            cursor_replaced_hook_events_spec(),
            cursor_session_command(hook_path),
        );
        if i < sr.len() {
            assert(ui[i] == sr[i]);
        } else {
            assert(uu[0] == HookEditView::RemoveSimpleCommand {
                event: "sessionStart"@,
                command: cursor_session_command(hook_path),
            });
            assert(takes_out(uu[0], ui[i], hook_path));
        }
    }
    // Mastra Code: the first removal of each event of the uninstall plan.
    let mr = mastracode_removed_hook_events_spec();
    let me = mastracode_hook_events_spec();
    let mi = mastracode_install_edits_spec(hook_path);
    let mu = mastracode_uninstall_edits_spec(hook_path);
    lemma_flat_pairs_entries(mr, hook_path, None);
    lemma_flat_pairs_entries(me, hook_path, Some(MASTRACODE_HOOK_TIMEOUT_MS));
    lemma_flat_pairs_index(me, hook_path, None);
    assert forall|i: int| 0 <= i < mi.len() && #[trigger] adds_entry(mi[i]) implies exists|j: int|
        0 <= j < mu.len() && takes_out(mu[j], mi[i], hook_path) by {
        let fr = flat_pairs_spec(mr, hook_path, None);
        let fe = flat_pairs_spec(me, hook_path, Some(MASTRACODE_HOOK_TIMEOUT_MS));
        if i < fr.len() {
            assert(mi[i] == fr[i]);
        } else {
            let i2 = i - fr.len();
            assert(mi[i] == fe[i2]);
            assert(adds_entry(fe[i2]));
            let k = i2 / 2;
            let _ = me[k];
            assert(mu[2 * k] == flat_pairs_spec(me, hook_path, None)[2 * k]);
            assert(takes_out(mu[2 * k], mi[i], hook_path));
        }
    }
}

/// Before an installer adds an entry, it takes out the hook's entry for the
/// same event, so that an entry of an earlier install with other settings
/// does not stay beside the new one. This holds of the plans of Codex, Copilot
/// CLI, Devin, Droid, Qoder CLI, Qwen Code and Mastra Code for the hook at
/// `hook_path`.
pub proof fn law_install_clears_before_adding(hook_path: Seq<char>)
    ensures
        clears_before_adding(codex_install_edits_spec(hook_path), hook_path),
        clears_before_adding(copilot_install_edits_spec(hook_path), hook_path),
        clears_before_adding(devin_install_edits_spec(hook_path), hook_path),
        clears_before_adding(droid_install_edits_spec(hook_path), hook_path),
        clears_before_adding(qodercli_install_edits_spec(hook_path), hook_path),
        clears_before_adding(qwen_install_edits_spec(hook_path), hook_path),
        clears_before_adding(mastracode_install_edits_spec(hook_path), hook_path),
{
    // Codex: the session hook was taken out by the sixth edit.
    let ci = codex_install_edits_spec(hook_path);
    assert forall|i: int| 0 <= i < ci.len() && #[trigger] adds_entry(ci[i]) implies exists|j: int|
        0 <= j < i && takes_out(ci[j], ci[i], hook_path) by {
        lemma_removes_add_nothing(codex_replaced_hook_events_spec());
        if i < 6 {
            assert(ci[i] == removes_spec(codex_replaced_hook_events_spec())[i]);
        } else {
            assert(ci[5] == remove_edit(codex_replaced_hook_events_spec()[5]));
            assert(takes_out(ci[5], ci[i], hook_path));
        }
    }
    // Copilot CLI.
    let pr = copilot_removed_lifecycle_hook_events_spec();
    let pe = copilot_hook_events_spec();
    let pi = copilot_install_edits_spec(hook_path);
    assert forall|i: int| 0 <= i < pi.len() && #[trigger] adds_entry(pi[i]) implies exists|j: int|
        0 <= j < i && takes_out(pi[j], pi[i], hook_path) by {
        let n = pr.len() + pe.len();
        if i < pr.len() {
            assert(pi[i] == direct_removes_spec(pr)[i]);
        } else if i < n {
            assert(pi[i] == direct_removes_spec(pe)[i - pr.len()]);
        } else {
            let k = i - n;
            let j = pr.len() + k;
            assert(pi[j] == direct_removes_spec(pe)[k]);
            assert(takes_out(pi[j], pi[i], hook_path));
        }
    }
    // Devin, Droid, Qoder CLI.
    lemma_removes_add_nothing(devin_removed_lifecycle_hook_events_spec());
    lemma_remove_then_ensure_clears(
        removes_spec(devin_removed_lifecycle_hook_events_spec()),
        devin_hook_events_spec(),
        hook_path,
        10,
        None,
    );
    let ds = seq![droid_session_cleanup()] + removes_spec(
        droid_removed_lifecycle_hook_events_spec(),
    );
    assert(adds_nothing(seq![droid_session_cleanup()]));
    lemma_adds_nothing_concat(
        seq![droid_session_cleanup()],
        removes_spec(droid_removed_lifecycle_hook_events_spec()),
    );
    lemma_remove_then_ensure_clears(ds, droid_hook_events_spec(), hook_path, 10, None);
    assert(droid_install_edits_spec(hook_path) =~= ds + removes_spec(droid_hook_events_spec())
        + ensures_spec(droid_hook_events_spec(), hook_path, 10, None));
    lemma_removes_add_nothing(qodercli_removed_lifecycle_hook_events_spec());
    lemma_remove_then_ensure_clears(
        removes_spec(qodercli_removed_lifecycle_hook_events_spec()),
        qodercli_hook_events_spec(),
        hook_path,
        10,
        Some("*"@),
    );
    // Qwen Code: each hook is taken out just before it is added back.
    let we = qwen_hook_events_spec();
    let wi = qwen_install_edits_spec(hook_path);
    lemma_replace_each_entries(we, hook_path, QWEN_HOOK_TIMEOUT_MS, Some("*"@));
    assert forall|i: int| 0 <= i < wi.len() && #[trigger] adds_entry(wi[i]) implies exists|j: int|
        0 <= j < i && takes_out(wi[j], wi[i], hook_path) by {
        assert(takes_out(wi[i - 1], wi[i], hook_path));
    }
    // Mastra Code: likewise, in the second half of the plan.
    let mr = mastracode_removed_hook_events_spec();
    let me = mastracode_hook_events_spec();
    let mi = mastracode_install_edits_spec(hook_path);
    lemma_flat_pairs_entries(mr, hook_path, None);
    lemma_flat_pairs_entries(me, hook_path, Some(MASTRACODE_HOOK_TIMEOUT_MS));
    lemma_flat_pairs_index(me, hook_path, Some(MASTRACODE_HOOK_TIMEOUT_MS));
    assert forall|i: int| 0 <= i < mi.len() && #[trigger] adds_entry(mi[i]) implies exists|j: int|
        0 <= j < i && takes_out(mi[j], mi[i], hook_path) by {
        let fr = flat_pairs_spec(mr, hook_path, None);
        let fe = flat_pairs_spec(me, hook_path, Some(MASTRACODE_HOOK_TIMEOUT_MS));
        if i < fr.len() {
            assert(mi[i] == fr[i]);
        } else {
            let i2 = i - fr.len();
            assert(mi[i] == fe[i2]);
            assert(adds_entry(fe[i2]));
            let k = i2 / 2;
            let _ = me[k];
            assert(mi[i - 1] == fe[2 * k]);
            assert(takes_out(mi[i - 1], mi[i], hook_path));
        }
    }
}

} // verus!
