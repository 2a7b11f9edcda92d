//! Applying hook edits to an agent's hooks object. An event of the object
//! holds an array: of groups `{"matcher": .., "hooks": [entries]}` for the
//! grouped edits, or of entries for the others; an entry runs the command
//! of its `"command"` member. Taking a command out drops the entries that
//! run it, then a group left with no entry, then an event left with no
//! item. Registering a command first takes out the entries that run exactly
//! it, then appends a new one, so registering twice is registering once.
use vstd::prelude::*;
use crate::error::{ErrorKind, InstallError};
use crate::hook_plans::{edits_view, HookEdit, HookEditView};
use crate::hooks::{hook_command, hook_command_spec};
use crate::json::{
    find_member, first_member, items_view, jarray1, jstr, lemma_first_member_bounds,
    lemma_items_view_push, lemma_members_view_index, members_view,
    push_item, push_member, Json, JsonView,
};
use crate::text::starts_with;

verus! {

pub proof fn lemma_items_view_index(xs: Seq<Json>)
    ensures
        items_view(xs).len() == xs.len(),
        forall|j: int| 0 <= j < xs.len() ==> #[trigger] items_view(xs)[j] == xs[j].json_view(),
    decreases xs.len(),
{
    if xs.len() > 0 {
        lemma_items_view_index(xs.drop_first());
        assert forall|j: int| 0 <= j < xs.len() implies #[trigger] items_view(xs)[j]
            == xs[j].json_view() by {
            if j > 0 {
                assert(items_view(xs)[j] == items_view(xs.drop_first())[j - 1]);
            }
        }
    }
}

proof fn lemma_items_view_drop_first(xs: Seq<Json>)
    requires
        xs.len() > 0,
    ensures
        items_view(xs.remove(0)) == items_view(xs).drop_first(),
{
    assert(xs.remove(0) =~= xs.drop_first());
    lemma_items_view_index(xs);
    lemma_items_view_index(xs.drop_first());
    assert(items_view(xs.drop_first()) =~= items_view(xs).drop_first());
}

pub proof fn lemma_members_view_update(ms: Seq<(String, Json)>, i: int, m: (String, Json))
    requires
        0 <= i < ms.len(),
    ensures
        members_view(ms.update(i, m)) == members_view(ms).update(i, (m.0@, m.1.json_view())),
{
    lemma_members_view_index(ms);
    lemma_members_view_index(ms.update(i, m));
    assert(members_view(ms.update(i, m)) =~= members_view(ms).update(i, (m.0@, m.1.json_view())));
}

pub proof fn lemma_members_view_remove(ms: Seq<(String, Json)>, i: int)
    requires
        0 <= i < ms.len(),
    ensures
        members_view(ms.remove(i)) == members_view(ms).remove(i),
{
    lemma_members_view_index(ms);
    lemma_members_view_index(ms.remove(i));
    assert(members_view(ms.remove(i)) =~= members_view(ms).remove(i));
}

// ---------------------------------------------------------------------------
// Entries
// ---------------------------------------------------------------------------

/// The command an entry runs: its first `"command"` member, where that is a
/// string.
pub open spec fn entry_command(j: JsonView) -> Option<Seq<char>> {
    match j {
        JsonView::Object(ms) => {
            let i = first_member(ms, "command"@);
            if i >= 0 {
                match ms[i].1 {
                    JsonView::Str(c) => Some(c),
                    _ => None,
                }
            } else {
                None
            }
        },
        _ => None,
    }
}

/// `c` is `text`, or, where not `exact`, `text` then a space and arguments.
pub open spec fn command_hit(c: Seq<char>, text: Seq<char>, exact: bool) -> bool {
    c == text || (!exact && (text + seq![' ']).is_prefix_of(c))
}

/// The entry runs a command that is taken out.
pub open spec fn entry_hit(j: JsonView, text: Seq<char>, exact: bool) -> bool {
    match entry_command(j) {
        Some(c) => command_hit(c, text, exact),
        None => false,
    }
}

/// The entries of `s` that are not taken out.
pub open spec fn keep_entries(s: Seq<JsonView>, text: Seq<char>, exact: bool) -> Seq<JsonView>
    decreases s.len(),
{
    if s.len() == 0 {
        seq![]
    } else {
        (if entry_hit(s[0], text, exact) {
            seq![]
        } else {
            seq![s[0]]
        }) + keep_entries(s.drop_first(), text, exact)
    }
}

/// Some entry of `s` is taken out.
pub open spec fn any_hit(s: Seq<JsonView>, text: Seq<char>, exact: bool) -> bool
    decreases s.len(),
{
    s.len() > 0 && (entry_hit(s[0], text, exact) || any_hit(s.drop_first(), text, exact))
}

fn command_hit_exec(c: &str, text: &str, exact: bool) -> (b: bool)
    ensures
        b == command_hit(c@, text@, exact),
{
    if starts_with(c, text) && c.unicode_len() == text.unicode_len() {
        assert(c@ =~= text@);
        return true;
    }
    if exact {
        return false;
    }
    let mut spaced = text.to_owned();
    crate::text::push_char(&mut spaced, ' ');
    assert(spaced@ =~= text@ + seq![' ']);
    starts_with(c, spaced.as_str())
}

fn entry_hit_exec(j: &Json, text: &str, exact: bool) -> (b: bool)
    ensures
        b == entry_hit(j.json_view(), text@, exact),
{
    match j {
        Json::Object(ms) => {
            proof {
                lemma_members_view_index(ms@);
            }
            match find_member(ms, "command") {
                Some(i) => match &ms[i].1 {
                    Json::Str(c) => command_hit_exec(c.as_str(), text, exact),
                    _ => false,
                },
                None => false,
            }
        },
        _ => false,
    }
}

/// Drops the entries that run a command taken out; tells whether any did.
fn keep_entries_exec(items: Vec<Json>, text: &str, exact: bool) -> (r: (Vec<Json>, bool))
    ensures
        items_view(r.0@) == keep_entries(items_view(items@), text@, exact),
        r.1 == any_hit(items_view(items@), text@, exact),
{
    let ghost orig = items_view(items@);
    let mut rest = items;
    let mut out: Vec<Json> = Vec::new();
    let mut hit = false;
    assert(items_view(out@) =~= Seq::<JsonView>::empty());
    while rest.len() > 0
        invariant
            keep_entries(orig, text@, exact) == items_view(out@) + keep_entries(
                items_view(rest@),
                text@,
                exact,
            ),
            any_hit(orig, text@, exact) == (hit || any_hit(items_view(rest@), text@, exact)),
        decreases rest.len(),
    {
        let ghost before = rest@;
        proof {
            lemma_items_view_drop_first(before);
            lemma_items_view_index(before);
        }
        let x = rest.remove(0);
        let h = entry_hit_exec(&x, text, exact);
        if h {
            hit = true;
            assert(keep_entries(items_view(before), text@, exact) =~= keep_entries(
                items_view(rest@),
                text@,
                exact,
            ));
        } else {
            let ghost xo = out@;
            let ghost xv = x.json_view();
            out.push(x);
            proof {
                lemma_items_view_push(xo, x);
            }
            assert(keep_entries(items_view(before), text@, exact) =~= seq![xv] + keep_entries(
                items_view(rest@),
                text@,
                exact,
            ));
            assert(items_view(out@) + keep_entries(items_view(rest@), text@, exact) =~= items_view(
                xo,
            ) + (seq![xv] + keep_entries(items_view(rest@), text@, exact)));
        }
    }
    assert(items_view(rest@) =~= Seq::<JsonView>::empty());
    assert(items_view(out@) + Seq::<JsonView>::empty() =~= items_view(out@));
    (out, hit)
}

// ---------------------------------------------------------------------------
// Groups
// ---------------------------------------------------------------------------

/// A group with the entries taken out of its `"hooks"` array; `None` where
/// that leaves the array empty when it was not.
pub open spec fn strip_group(g: JsonView, text: Seq<char>, exact: bool) -> Option<JsonView> {
    match g {
        JsonView::Object(ms) => {
            let i = first_member(ms, "hooks"@);
            if i < 0 {
                Some(g)
            } else {
                match ms[i].1 {
                    JsonView::Array(hs) => {
                        let kept = keep_entries(hs, text, exact);
                        if kept.len() == 0 && hs.len() > 0 {
                            None
                        } else {
                            Some(JsonView::Object(ms.update(i, ("hooks"@, JsonView::Array(kept)))))
                        }
                    },
                    _ => Some(g),
                }
            }
        },
        _ => Some(g),
    }
}

/// Some entry of the group's `"hooks"` array is taken out.
pub open spec fn group_hit(g: JsonView, text: Seq<char>, exact: bool) -> bool {
    match g {
        JsonView::Object(ms) => {
            let i = first_member(ms, "hooks"@);
            i >= 0 && match ms[i].1 {
                JsonView::Array(hs) => any_hit(hs, text, exact),
                _ => false,
            }
        },
        _ => false,
    }
}

pub open spec fn strip_groups(s: Seq<JsonView>, text: Seq<char>, exact: bool) -> Seq<JsonView>
    decreases s.len(),
{
    if s.len() == 0 {
        seq![]
    } else {
        (match strip_group(s[0], text, exact) {
            Some(g) => seq![g],
            None => seq![],
        }) + strip_groups(s.drop_first(), text, exact)
    }
}

pub open spec fn groups_hit(s: Seq<JsonView>, text: Seq<char>, exact: bool) -> bool
    decreases s.len(),
{
    s.len() > 0 && (group_hit(s[0], text, exact) || groups_hit(s.drop_first(), text, exact))
}

fn strip_group_exec(g: Json, text: &str, exact: bool) -> (r: (Option<Json>, bool))
    ensures
        match (r.0, strip_group(g.json_view(), text@, exact)) {
            (Some(x), Some(y)) => x.json_view() == y,
            (None, None) => true,
            _ => false,
        },
        r.1 == group_hit(g.json_view(), text@, exact),
{
    let ghost gv = g.json_view();
    match g {
        Json::Object(mut ms) => {
            let ghost before = ms@;
            proof {
                lemma_members_view_index(before);
                lemma_first_member_bounds(members_view(before), "hooks"@);
            }
            match find_member(&ms, "hooks") {
                None => (Some(Json::Object(ms)), false),
                Some(i) => {
                    let (k, v) = ms.remove(i);
                    match v {
                        Json::Array(hs) => {
                            let n = hs.len();
                            proof {
                                lemma_items_view_index(hs@);
                            }
                            let (kept, hit) = keep_entries_exec(hs, text, exact);
                            proof {
                                lemma_items_view_index(kept@);
                            }
                            if kept.len() == 0 && n > 0 {
                                (None, hit)
                            } else {
                                let ghost m = (k, Json::Array(kept));
                                ms.insert(i, (k, Json::Array(kept)));
                                proof {
                                    assert(ms@ =~= before.update(i as int, m));
                                    lemma_members_view_update(before, i as int, m);
                                }
                                (Some(Json::Object(ms)), hit)
                            }
                        },
                        other => {
                            ms.insert(i, (k, other));
                            assert(ms@ =~= before);
                            (Some(Json::Object(ms)), false)
                        },
                    }
                },
            }
        },
        other => (Some(other), false),
    }
}

fn strip_groups_exec(items: Vec<Json>, text: &str, exact: bool) -> (r: (Vec<Json>, bool))
    ensures
        items_view(r.0@) == strip_groups(items_view(items@), text@, exact),
        r.1 == groups_hit(items_view(items@), text@, exact),
{
    let ghost orig = items_view(items@);
    let mut rest = items;
    let mut out: Vec<Json> = Vec::new();
    let mut hit = false;
    assert(items_view(out@) =~= Seq::<JsonView>::empty());
    while rest.len() > 0
        invariant
            strip_groups(orig, text@, exact) == items_view(out@) + strip_groups(
                items_view(rest@),
                text@,
                exact,
            ),
            groups_hit(orig, text@, exact) == (hit || groups_hit(items_view(rest@), text@, exact)),
        decreases rest.len(),
    {
        let ghost before = rest@;
        proof {
            lemma_items_view_drop_first(before);
            lemma_items_view_index(before);
        }
        let x = rest.remove(0);
        let (g, h) = strip_group_exec(x, text, exact);
        if h {
            hit = true;
        }
        match g {
            None => {
                assert(strip_groups(items_view(before), text@, exact) =~= strip_groups(
                    items_view(rest@),
                    text@,
                    exact,
                ));
            },
            Some(y) => {
                let ghost xo = out@;
                let ghost yv = y.json_view();
                out.push(y);
                proof {
                    lemma_items_view_push(xo, y);
                }
                assert(strip_groups(items_view(before), text@, exact) =~= seq![yv] + strip_groups(
                    items_view(rest@),
                    text@,
                    exact,
                ));
                assert(items_view(out@) + strip_groups(items_view(rest@), text@, exact)
                    =~= items_view(xo) + (seq![yv] + strip_groups(items_view(rest@), text@, exact)));
            },
        }
    }
    assert(items_view(rest@) =~= Seq::<JsonView>::empty());
    assert(items_view(out@) + Seq::<JsonView>::empty() =~= items_view(out@));
    (out, hit)
}

// ---------------------------------------------------------------------------
// Edits
// ---------------------------------------------------------------------------

/// The event an edit works on.
pub open spec fn edit_event(e: HookEditView) -> Seq<char> {
    match e {
        HookEditView::RemoveCommands { event, .. } => event,
        HookEditView::EnsureCommand { event, .. } => event,
        HookEditView::RemoveDirectCommands { event } => event,
        HookEditView::EnsureDirectCommand { event, .. } => event,
        HookEditView::RemoveSimpleCommand { event, .. } => event,
        HookEditView::EnsureSimpleCommand { event, .. } => event,
        HookEditView::RemoveFlatCommand { event, .. } => event,
        HookEditView::EnsureFlatCommand { event, .. } => event,
    }
}

/// The command an edit takes out for the hook at `hook_path`, and whether it
/// must match exactly (else arguments may follow it).
pub open spec fn edit_target(e: HookEditView, hook_path: Seq<char>) -> (Seq<char>, bool) {
    match e {
        HookEditView::RemoveCommands { action, .. } => match action {
            Some(a) => (hook_command_spec(hook_path, Some(a)), true),
            None => (hook_command_spec(hook_path, None), false),
        },
        HookEditView::RemoveDirectCommands { .. } => (hook_command_spec(hook_path, None), false),
        HookEditView::EnsureCommand { command, .. } => (command, true),
        HookEditView::EnsureDirectCommand { command, .. } => (command, true),
        HookEditView::RemoveSimpleCommand { command, .. } => (command, true),
        HookEditView::EnsureSimpleCommand { command, .. } => (command, true),
        HookEditView::RemoveFlatCommand { command, .. } => (command, true),
        HookEditView::EnsureFlatCommand { command, .. } => (command, true),
    }
}

/// The edit works on groups rather than entries.
pub open spec fn edit_grouped(e: HookEditView) -> bool {
    e is RemoveCommands || e is EnsureCommand
}

/// `{"type": "command", "command": command, "timeout": timeout}`.
pub open spec fn command_entry(command: Seq<char>, timeout: u64) -> JsonView {
    JsonView::Object(
        seq![
            ("type"@, JsonView::Str("command"@)),
            ("command"@, JsonView::Str(command)),
            ("timeout"@, JsonView::UInt(timeout)),
        ],
    )
}

/// What a registering edit appends to its event; `None` for a removal.
pub open spec fn new_item(e: HookEditView) -> Option<JsonView> {
    match e {
        HookEditView::EnsureCommand { command, timeout, matcher, .. } => Some(
            JsonView::Object(
                match matcher {
                    Some(m) => seq![("matcher"@, JsonView::Str(m))],
                    None => seq![],
                } + seq![("hooks"@, JsonView::Array(seq![command_entry(command, timeout)]))],
            ),
        ),
        HookEditView::EnsureDirectCommand { command, timeout, .. } => Some(
            command_entry(command, timeout),
        ),
        HookEditView::EnsureSimpleCommand { command, .. } => Some(
            JsonView::Object(seq![("command"@, JsonView::Str(command))]),
        ),
        HookEditView::EnsureFlatCommand { command, timeout, .. } => Some(
            command_entry(command, timeout),
        ),
        _ => None,
    }
}

/// The message of an event whose value is not an array.
pub open spec fn not_array_message(event: Seq<char>) -> Seq<char> {
    "hook entries for "@ + event + " must be an array"@
}

/// The hooks object after one edit, and whether the edit took an entry out.
pub open spec fn apply_edit(
    ms: Seq<(Seq<char>, JsonView)>,
    e: HookEditView,
    hook_path: Seq<char>,
) -> Result<(Seq<(Seq<char>, JsonView)>, bool), Seq<char>> {
    let ev = edit_event(e);
    let (text, exact) = edit_target(e, hook_path);
    let i = first_member(ms, ev);
    if i < 0 {
        match new_item(e) {
            Some(n) => Ok((ms.push((ev, JsonView::Array(seq![n]))), false)),
            None => Ok((ms, false)),
        }
    } else {
        match ms[i].1 {
            JsonView::Array(items) => {
                let kept = if edit_grouped(e) {
                    strip_groups(items, text, exact)
                } else {
                    keep_entries(items, text, exact)
                };
                let hit = if edit_grouped(e) {
                    groups_hit(items, text, exact)
                } else {
                    any_hit(items, text, exact)
                };
                match new_item(e) {
                    Some(n) => Ok((ms.update(i, (ev, JsonView::Array(kept.push(n)))), hit)),
                    None => if kept.len() == 0 && items.len() > 0 {
                        Ok((ms.remove(i), hit))
                    } else {
                        Ok((ms.update(i, (ev, JsonView::Array(kept))), hit))
                    },
                }
            },
            _ => Err(not_array_message(ev)),
        }
    }
}

/// The hooks object after the edits in order, and whether any took an entry
/// out; the first failure stops them.
pub open spec fn apply_edits(
    ms: Seq<(Seq<char>, JsonView)>,
    es: Seq<HookEditView>,
    hook_path: Seq<char>,
) -> Result<(Seq<(Seq<char>, JsonView)>, bool), Seq<char>>
    decreases es.len(),
{
    if es.len() == 0 {
        Ok((ms, false))
    } else {
        match apply_edit(ms, es[0], hook_path) {
            Err(m) => Err(m),
            Ok((m1, h1)) => match apply_edits(m1, es.drop_first(), hook_path) {
                Err(m) => Err(m),
                Ok((m2, h2)) => Ok((m2, h1 || h2)),
            },
        }
    }
}

fn edit_parts<'a>(e: &'a HookEdit, hook_path: &str) -> (r: (&'a str, String, bool))
    ensures
        r.0@ == edit_event(e@),
        (r.1@, r.2) == edit_target(e@, hook_path@),
{
    match e {
        HookEdit::RemoveCommands { event, action } => match action {
            Some(a) => (event.as_str(), hook_command(hook_path, Some(a.as_str())), true),
            None => (event.as_str(), hook_command(hook_path, None), false),
        },
        HookEdit::RemoveDirectCommands { event } => (
            event.as_str(),
            hook_command(hook_path, None),
            false,
        ),
        HookEdit::EnsureCommand { event, command, .. } => (event.as_str(), command.clone(), true),
        HookEdit::EnsureDirectCommand { event, command, .. } => (
            event.as_str(),
            command.clone(),
            true,
        ),
        HookEdit::RemoveSimpleCommand { event, command } => (event.as_str(), command.clone(), true),
        HookEdit::EnsureSimpleCommand { event, command } => (event.as_str(), command.clone(), true),
        HookEdit::RemoveFlatCommand { event, command } => (event.as_str(), command.clone(), true),
        HookEdit::EnsureFlatCommand { event, command, .. } => (
            event.as_str(),
            command.clone(),
            true,
        ),
    }
}

fn command_entry_exec(command: &str, timeout: u64) -> (j: Json)
    ensures
        j@ == command_entry(command@, timeout),
{
    let mut ms: Vec<(String, Json)> = Vec::new();
    assert(members_view(ms@) =~= Seq::<(Seq<char>, JsonView)>::empty());
    push_member(&mut ms, "type", jstr("command"));
    push_member(&mut ms, "command", jstr(command));
    push_member(&mut ms, "timeout", Json::UInt(timeout));
    assert(members_view(ms@) =~= seq![
        ("type"@, JsonView::Str("command"@)),
        ("command"@, JsonView::Str(command@)),
        ("timeout"@, JsonView::UInt(timeout)),
    ]);
    Json::Object(ms)
}

fn new_item_exec(e: &HookEdit) -> (r: Option<Json>)
    ensures
        match (r, new_item(e@)) {
            (Some(x), Some(y)) => x@ == y,
            (None, None) => true,
            _ => false,
        },
{
    match e {
        HookEdit::EnsureCommand { command, timeout, matcher, .. } => {
            let mut ms: Vec<(String, Json)> = Vec::new();
            assert(members_view(ms@) =~= Seq::<(Seq<char>, JsonView)>::empty());
            match matcher {
                Some(m) => push_member(&mut ms, "matcher", jstr(m.as_str())),
                None => {},
            }
            let ghost first = members_view(ms@);
            assert(first =~= match matcher {
                Some(m) => seq![("matcher"@, JsonView::Str(m@))],
                None => Seq::<(Seq<char>, JsonView)>::empty(),
            });
            push_member(&mut ms, "hooks", jarray1(command_entry_exec(command.as_str(), *timeout)));
            assert(members_view(ms@) =~= first + seq![
                ("hooks"@, JsonView::Array(seq![command_entry(command@, *timeout)])),
            ]);
            Some(Json::Object(ms))
        },
        HookEdit::EnsureDirectCommand { command, timeout, .. } => Some(
            command_entry_exec(command.as_str(), *timeout),
        ),
        HookEdit::EnsureSimpleCommand { command, .. } => Some(
            crate::json::jobject1("command", jstr(command.as_str())),
        ),
        HookEdit::EnsureFlatCommand { command, timeout, .. } => Some(
            command_entry_exec(command.as_str(), *timeout),
        ),
        _ => None,
    }
}

/// Applies one edit to the hooks object; tells whether it took an entry out.
pub fn apply_edit_exec(hooks: &mut Vec<(String, Json)>, e: &HookEdit, hook_path: &str) -> (r: Result<
    bool,
    InstallError,
>)
    ensures
        match apply_edit(members_view(old(hooks)@), e@, hook_path@) {
            Ok((ms, hit)) => r == Ok::<bool, InstallError>(hit) && members_view(final(hooks)@) == ms,
            Err(m) => r matches Err(err) && err.kind == ErrorKind::Other && err.message@ == m,
        },
{
    let ghost before = hooks@;
    let (event, text, exact) = edit_parts(e, hook_path);
    let grouped = match e {
        HookEdit::RemoveCommands { .. } => true,
        HookEdit::EnsureCommand { .. } => true,
        _ => false,
    };
    let item = new_item_exec(e);
    proof {
        lemma_members_view_index(before);
        lemma_first_member_bounds(members_view(before), event@);
    }
    match find_member(hooks, event) {
        None => match item {
            Some(n) => {
                push_member(hooks, event, jarray1(n));
                Ok(false)
            },
            None => Ok(false),
        },
        Some(i) => {
            let (k, v) = hooks.remove(i);
            match v {
                Json::Array(items) => {
                    let n_items = items.len();
                    proof {
                        lemma_items_view_index(items@);
                    }
                    let (mut kept, hit) = if grouped {
                        strip_groups_exec(items, text.as_str(), exact)
                    } else {
                        keep_entries_exec(items, text.as_str(), exact)
                    };
                    proof {
                        lemma_items_view_index(kept@);
                    }
                    match item {
                        Some(n) => {
                            push_item(&mut kept, n);
                            let ghost m = (k, Json::Array(kept));
                            hooks.insert(i, (k, Json::Array(kept)));
                            proof {
                                assert(hooks@ =~= before.update(i as int, m));
                                lemma_members_view_update(before, i as int, m);
                            }
                            Ok(hit)
                        },
                        None => {
                            if kept.len() == 0 && n_items > 0 {
                                proof {
                                    assert(hooks@ =~= before.remove(i as int));
                                    lemma_members_view_remove(before, i as int);
                                }
                                Ok(hit)
                            } else {
                                let ghost m = (k, Json::Array(kept));
                                hooks.insert(i, (k, Json::Array(kept)));
                                proof {
                                    assert(hooks@ =~= before.update(i as int, m));
                                    lemma_members_view_update(before, i as int, m);
                                }
                                Ok(hit)
                            }
                        },
                    }
                },
                other => {
                    hooks.insert(i, (k, other));
                    let mut msg = "hook entries for ".to_owned();
                    msg.append(event);
                    msg.append(" must be an array");
                    Err(InstallError::other(msg))
                },
            }
        },
    }
}

/// Applies the edits in order; the first failure stops them.
pub fn apply_edits_exec(hooks: &mut Vec<(String, Json)>, edits: &Vec<HookEdit>, hook_path: &str) -> (r:
    Result<bool, InstallError>)
    ensures
        match apply_edits(members_view(old(hooks)@), edits_view(edits@), hook_path@) {
            Ok((ms, hit)) => r == Ok::<bool, InstallError>(hit) && members_view(final(hooks)@) == ms,
            Err(m) => r matches Err(err) && err.kind == ErrorKind::Other && err.message@ == m,
        },
{
    let ghost es = edits_view(edits@);
    let ghost total = apply_edits(members_view(old(hooks)@), es, hook_path@);
    let mut hit = false;
    let mut i: usize = 0;
    proof {
        assert(es.skip(0) =~= es);
    }
    while i < edits.len()
        invariant
            i <= edits.len(),
            es == edits_view(edits@),
            es.len() == edits.len(),
            total == apply_edits(members_view(old(hooks)@), es, hook_path@),
            total == match apply_edits(members_view(hooks@), es.skip(i as int), hook_path@) {
                Err(m) => Err(m),
                Ok((m2, h2)) => Ok((m2, hit || h2)),
            },
        decreases edits.len() - i,
    {
        let ghost cur = members_view(hooks@);
        proof {
            assert(es.skip(i as int).drop_first() =~= es.skip(i + 1));
            assert(es.skip(i as int)[0] == es[i as int]);
            assert(es[i as int] == edits@[i as int]@);
        }
        proof {
            assert(apply_edits(cur, es.skip(i as int), hook_path@) == match apply_edit(
                cur,
                es[i as int],
                hook_path@,
            ) {
                Err(m) => Err(m),
                Ok((m1, h1)) => match apply_edits(m1, es.skip(i + 1), hook_path@) {
                    Err(m) => Err(m),
                    Ok((m2, h2)) => Ok((m2, h1 || h2)),
                },
            });
        }
        match apply_edit_exec(hooks, &edits[i], hook_path) {
            Ok(h) => {
                if h {
                    hit = true;
                }
            },
            Err(err) => {
                proof {
                    let step = apply_edit(cur, es[i as int], hook_path@);
                    assert(step is Err);
                    assert(apply_edits(cur, es.skip(i as int), hook_path@) == step);
                    assert(total == step);
                }
                return Err(err);
            },
        }
        i = i + 1;
    }
    proof {
        assert(es.skip(i as int) =~= Seq::<HookEditView>::empty());
        assert(apply_edits(members_view(hooks@), es.skip(i as int), hook_path@) == Ok::<
            (Seq<(Seq<char>, JsonView)>, bool),
            Seq<char>,
        >((members_view(hooks@), false)));
    }
    Ok(hit)
}

// ---------------------------------------------------------------------------
// Registering twice is registering once
// ---------------------------------------------------------------------------

proof fn lemma_keep_concat(a: Seq<JsonView>, b: Seq<JsonView>, text: Seq<char>, exact: bool)
    ensures
        keep_entries(a + b, text, exact) == keep_entries(a, text, exact) + keep_entries(b, text, exact),
    decreases a.len(),
{
    if a.len() > 0 {
        assert((a + b).drop_first() =~= a.drop_first() + b);
        assert((a + b)[0] == a[0]);
        lemma_keep_concat(a.drop_first(), b, text, exact);
        let h = if entry_hit(a[0], text, exact) {
            Seq::<JsonView>::empty()
        } else {
            seq![a[0]]
        };
        assert(h + (keep_entries(a.drop_first(), text, exact) + keep_entries(b, text, exact))
            =~= (h + keep_entries(a.drop_first(), text, exact)) + keep_entries(b, text, exact));
    } else {
        assert(a + b =~= b);
        assert(keep_entries(a, text, exact) =~= Seq::<JsonView>::empty());
        assert(keep_entries(a, text, exact) + keep_entries(b, text, exact) =~= keep_entries(b, text, exact));
    }
}

proof fn lemma_keep_single(x: JsonView, text: Seq<char>, exact: bool)
    ensures
        keep_entries(seq![x], text, exact) == (if entry_hit(x, text, exact) {
            Seq::<JsonView>::empty()
        } else {
            seq![x]
        }),
{
    assert(seq![x].drop_first() =~= Seq::<JsonView>::empty());
    assert(keep_entries(Seq::<JsonView>::empty(), text, exact) =~= Seq::<JsonView>::empty());
    assert(seq![x][0] == x);
    if entry_hit(x, text, exact) {
        assert(keep_entries(seq![x], text, exact) =~= Seq::<JsonView>::empty());
    } else {
        assert(keep_entries(seq![x], text, exact) =~= seq![x]);
    }
}

proof fn lemma_strip_single(g: JsonView, text: Seq<char>, exact: bool)
    ensures
        strip_groups(seq![g], text, exact) == match strip_group(g, text, exact) {
            Some(h) => seq![h],
            None => Seq::<JsonView>::empty(),
        },
{
    assert(seq![g].drop_first() =~= Seq::<JsonView>::empty());
    assert(strip_groups(Seq::<JsonView>::empty(), text, exact) =~= Seq::<JsonView>::empty());
    assert(seq![g][0] == g);
    match strip_group(g, text, exact) {
        Some(h) => assert(strip_groups(seq![g], text, exact) =~= seq![h]),
        None => assert(strip_groups(seq![g], text, exact) =~= Seq::<JsonView>::empty()),
    }
}

proof fn lemma_keep_idempotent(s: Seq<JsonView>, text: Seq<char>, exact: bool)
    ensures
        keep_entries(keep_entries(s, text, exact), text, exact) == keep_entries(s, text, exact),
    decreases s.len(),
{
    if s.len() > 0 {
        let rest = keep_entries(s.drop_first(), text, exact);
        lemma_keep_idempotent(s.drop_first(), text, exact);
        if entry_hit(s[0], text, exact) {
            assert(keep_entries(s, text, exact) =~= rest);
        } else {
            assert(keep_entries(s, text, exact) =~= seq![s[0]] + rest);
            lemma_keep_concat(seq![s[0]], rest, text, exact);
            lemma_keep_single(s[0], text, exact);
        }
    }
}

proof fn lemma_keep_push_hit(s: Seq<JsonView>, x: JsonView, text: Seq<char>, exact: bool)
    requires
        entry_hit(x, text, exact),
    ensures
        keep_entries(s.push(x), text, exact) == keep_entries(s, text, exact),
{
    assert(s.push(x) =~= s + seq![x]);
    lemma_keep_concat(s, seq![x], text, exact);
    lemma_keep_single(x, text, exact);
    assert(keep_entries(s, text, exact) + Seq::<JsonView>::empty() =~= keep_entries(s, text, exact));
}

proof fn lemma_strip_concat(a: Seq<JsonView>, b: Seq<JsonView>, text: Seq<char>, exact: bool)
    ensures
        strip_groups(a + b, text, exact) == strip_groups(a, text, exact) + strip_groups(b, text, exact),
    decreases a.len(),
{
    if a.len() > 0 {
        assert((a + b).drop_first() =~= a.drop_first() + b);
        assert((a + b)[0] == a[0]);
        lemma_strip_concat(a.drop_first(), b, text, exact);
        let h = match strip_group(a[0], text, exact) {
            Some(g) => seq![g],
            None => Seq::<JsonView>::empty(),
        };
        assert(h + (strip_groups(a.drop_first(), text, exact) + strip_groups(b, text, exact))
            =~= (h + strip_groups(a.drop_first(), text, exact)) + strip_groups(b, text, exact));
    } else {
        assert(a + b =~= b);
        assert(strip_groups(a, text, exact) + strip_groups(b, text, exact) =~= strip_groups(b, text, exact));
    }
}

proof fn lemma_strip_group_twice(g: JsonView, text: Seq<char>, exact: bool)
    ensures
        strip_group(g, text, exact) matches Some(g2) ==> strip_group(g2, text, exact) == Some(g2),
{
    if let JsonView::Object(ms) = g {
        let i = first_member(ms, "hooks"@);
        lemma_first_member_bounds(ms, "hooks"@);
        if i >= 0 {
            if let JsonView::Array(hs) = ms[i].1 {
                let kept = keep_entries(hs, text, exact);
                if !(kept.len() == 0 && hs.len() > 0) {
                    let ms2 = ms.update(i, ("hooks"@, JsonView::Array(kept)));
                    assert forall|j: int| 0 <= j < i implies #[trigger] ms2[j].0 != "hooks"@ by {
                        assert(ms2[j] == ms[j]);
                    }
                    crate::json::lemma_first_member(ms2, "hooks"@, i);
                    lemma_keep_idempotent(hs, text, exact);
                    assert(ms2.update(i, ("hooks"@, JsonView::Array(keep_entries(kept, text, exact))))
                        =~= ms2);
                }
            }
        }
    }
}

proof fn lemma_strip_idempotent(s: Seq<JsonView>, text: Seq<char>, exact: bool)
    ensures
        strip_groups(strip_groups(s, text, exact), text, exact) == strip_groups(s, text, exact),
    decreases s.len(),
{
    if s.len() > 0 {
        let rest = strip_groups(s.drop_first(), text, exact);
        lemma_strip_idempotent(s.drop_first(), text, exact);
        lemma_strip_group_twice(s[0], text, exact);
        match strip_group(s[0], text, exact) {
            None => {
                assert(strip_groups(s, text, exact) =~= rest);
            },
            Some(g) => {
                assert(strip_groups(s, text, exact) =~= seq![g] + rest);
                lemma_strip_concat(seq![g], rest, text, exact);
                lemma_strip_single(g, text, exact);
            },
        }
    }
}

/// The edit registers a command.
pub open spec fn is_registration(e: HookEditView) -> bool {
    ||| e is EnsureCommand
    ||| e is EnsureDirectCommand
    ||| e is EnsureSimpleCommand
    ||| e is EnsureFlatCommand
}

/// A group whose `"hooks"` array holds one entry, which runs `command`.
pub open spec fn runs_only(g: JsonView, command: Seq<char>) -> bool {
    &&& g matches JsonView::Object(gm)
    &&& first_member(gm, "hooks"@) >= 0
    &&& gm[first_member(gm, "hooks"@)].1 matches JsonView::Array(hs)
    &&& hs.len() == 1
    &&& entry_command(hs[0]) == Some(command)
}

proof fn lemma_new_item_taken_out(e: HookEditView, hook_path: Seq<char>)
    requires
        is_registration(e),
    ensures
        new_item(e) is Some,
        edit_grouped(e) ==> strip_group(new_item(e)->Some_0, edit_target(e, hook_path).0, true)
            is None,
        !edit_grouped(e) ==> entry_hit(new_item(e)->Some_0, edit_target(e, hook_path).0, true),
        !edit_grouped(e) ==> entry_command(new_item(e)->Some_0) == Some(edit_target(e, hook_path).0),
        edit_grouped(e) ==> runs_only(new_item(e)->Some_0, edit_target(e, hook_path).0),
        edit_target(e, hook_path).1,
{
    reveal_strlit("command");
    reveal_strlit("type");
    reveal_strlit("hooks");
    reveal_strlit("matcher");
    reveal_strlit("timeout");
    assert("type"@ != "command"@) by {
        assert("type"@.len() != "command"@.len());
    }
    assert("matcher"@ != "hooks"@) by {
        assert("matcher"@.len() != "hooks"@.len());
    }
    match e {
        HookEditView::EnsureCommand { command, timeout, matcher, .. } => {
            let entry = command_entry(command, timeout);
            let n = new_item(e)->Some_0;
            if let JsonView::Object(ems) = entry {
                crate::json::lemma_first_member(ems, "command"@, 1);
            }
            if let JsonView::Object(ms) = n {
                let i: int = if matcher is Some { 1 } else { 0 };
                crate::json::lemma_first_member(ms, "hooks"@, i);
                assert(ms[i].1 == JsonView::Array(seq![entry]));
                lemma_keep_single(entry, command, true);
            }
        },
        HookEditView::EnsureSimpleCommand { command, .. } => {
            if let JsonView::Object(ms) = new_item(e)->Some_0 {
                crate::json::lemma_first_member(ms, "command"@, 0);
            }
        },
        HookEditView::EnsureDirectCommand { command, timeout, .. } => {
            if let JsonView::Object(ems) = command_entry(command, timeout) {
                crate::json::lemma_first_member(ems, "command"@, 1);
            }
        },
        HookEditView::EnsureFlatCommand { command, timeout, .. } => {
            if let JsonView::Object(ems) = command_entry(command, timeout) {
                crate::json::lemma_first_member(ems, "command"@, 1);
            }
        },
        _ => {},
    }
}

/// Registering a command twice gives the hooks object that registering it
/// once gives: the second registration takes out the entry of the first
/// and appends it again.
pub proof fn law_registration_is_idempotent(
    ms: Seq<(Seq<char>, JsonView)>,
    e: HookEditView,
    hook_path: Seq<char>,
)
    requires
        is_registration(e),
    ensures
        apply_edit(ms, e, hook_path) matches Ok((ms1, _)) ==> (apply_edit(ms1, e, hook_path) matches Ok(
            (ms2, _),
        ) && ms2 == ms1),
{
    lemma_new_item_taken_out(e, hook_path);
    let ev = edit_event(e);
    let (text, exact) = edit_target(e, hook_path);
    let n = new_item(e)->Some_0;
    let i = first_member(ms, ev);
    lemma_first_member_bounds(ms, ev);
    if let Ok((ms1, _)) = apply_edit(ms, e, hook_path) {
        let items: Seq<JsonView> = if i < 0 {
            seq![]
        } else {
            ms[i].1->Array_0
        };
        let kept = if edit_grouped(e) {
            strip_groups(items, text, exact)
        } else {
            keep_entries(items, text, exact)
        };
        let j = if i < 0 {
            ms.len() as int
        } else {
            i
        };
        if i < 0 {
            assert(kept =~= Seq::<JsonView>::empty()) by {
                if edit_grouped(e) {
                    assert(strip_groups(items, text, exact) =~= Seq::<JsonView>::empty());
                } else {
                    assert(keep_entries(items, text, exact) =~= Seq::<JsonView>::empty());
                }
            }
            assert(ms1 == ms.push((ev, JsonView::Array(kept.push(n)))));
            assert forall|k: int| 0 <= k < j implies #[trigger] ms1[k].0 != ev by {
                assert(ms1[k] == ms[k]);
            }
        } else {
            assert(ms1 == ms.update(i, (ev, JsonView::Array(kept.push(n)))));
            assert forall|k: int| 0 <= k < j implies #[trigger] ms1[k].0 != ev by {
                assert(ms1[k] == ms[k]);
            }
        }
        crate::json::lemma_first_member(ms1, ev, j);
        assert(ms1[j].1 == JsonView::Array(kept.push(n)));
        if edit_grouped(e) {
            lemma_strip_concat(kept, seq![n], text, exact);
            assert(kept.push(n) =~= kept + seq![n]);
            lemma_strip_single(n, text, exact);
            lemma_strip_idempotent(items, text, exact);
            assert(strip_groups(kept.push(n), text, exact) =~= kept);
        } else {
            lemma_keep_push_hit(kept, n, text, exact);
            lemma_keep_idempotent(items, text, exact);
        }
        let ms2 = ms1.update(j, (ev, JsonView::Array(kept.push(n))));
        assert(ms2 =~= ms1);
    }
}

// ---------------------------------------------------------------------------
// A removal reports exactly a change
// ---------------------------------------------------------------------------

proof fn lemma_keep_changes_iff_hit(s: Seq<JsonView>, text: Seq<char>, exact: bool)
    ensures
        keep_entries(s, text, exact).len() <= s.len(),
        (keep_entries(s, text, exact) == s) == !any_hit(s, text, exact),
    decreases s.len(),
{
    if s.len() > 0 {
        let r = s.drop_first();
        lemma_keep_changes_iff_hit(r, text, exact);
        let kr = keep_entries(r, text, exact);
        if entry_hit(s[0], text, exact) {
            assert(keep_entries(s, text, exact) =~= kr);
        } else {
            assert(keep_entries(s, text, exact) =~= seq![s[0]] + kr);
            if kr == r {
                assert(seq![s[0]] + kr =~= s);
            }
            if keep_entries(s, text, exact) == s {
                assert((seq![s[0]] + kr).drop_first() =~= kr);
            }
        }
    } else {
        assert(keep_entries(s, text, exact) =~= s);
    }
}

proof fn lemma_strip_group_changes_iff_hit(g: JsonView, text: Seq<char>, exact: bool)
    ensures
        (strip_group(g, text, exact) == Some(g)) == !group_hit(g, text, exact),
{
    if let JsonView::Object(ms) = g {
        let i = first_member(ms, "hooks"@);
        lemma_first_member_bounds(ms, "hooks"@);
        if i >= 0 {
            if let JsonView::Array(hs) = ms[i].1 {
                let kept = keep_entries(hs, text, exact);
                lemma_keep_changes_iff_hit(hs, text, exact);
                if !(kept.len() == 0 && hs.len() > 0) {
                    let ms2 = ms.update(i, ("hooks"@, JsonView::Array(kept)));
                    if kept == hs {
                        assert(ms2 =~= ms);
                    }
                    if ms2 == ms {
                        assert(ms2[i] == ms[i]);
                    }
                }
            }
        }
    }
}

proof fn lemma_strip_changes_iff_hit(s: Seq<JsonView>, text: Seq<char>, exact: bool)
    ensures
        strip_groups(s, text, exact).len() <= s.len(),
        (strip_groups(s, text, exact) == s) == !groups_hit(s, text, exact),
    decreases s.len(),
{
    if s.len() > 0 {
        let r = s.drop_first();
        lemma_strip_changes_iff_hit(r, text, exact);
        lemma_strip_group_changes_iff_hit(s[0], text, exact);
        let sr = strip_groups(r, text, exact);
        match strip_group(s[0], text, exact) {
            None => {
                assert(strip_groups(s, text, exact) =~= sr);
            },
            Some(g) => {
                assert(strip_groups(s, text, exact) =~= seq![g] + sr);
                if g == s[0] && sr == r {
                    assert(seq![g] + sr =~= s);
                }
                if strip_groups(s, text, exact) == s {
                    assert((seq![g] + sr).drop_first() =~= sr);
                    assert((seq![g] + sr)[0] == g);
                }
            },
        }
    } else {
        assert(strip_groups(s, text, exact) =~= s);
    }
}

/// A removal reports that it took an entry out exactly when the hooks
/// object changed, whether the event keeps other entries, loses a whole
/// group, or is left empty and dropped.
pub proof fn law_removal_reports_exactly_a_change(
    ms: Seq<(Seq<char>, JsonView)>,
    e: HookEditView,
    hook_path: Seq<char>,
)
    requires
        !is_registration(e),
    ensures
        apply_edit(ms, e, hook_path) matches Ok((ms2, hit)) ==> (hit <==> ms2 != ms),
{
    let ev = edit_event(e);
    let (text, exact) = edit_target(e, hook_path);
    let i = first_member(ms, ev);
    lemma_first_member_bounds(ms, ev);
    assert(new_item(e) is None);
    if i >= 0 {
        if let JsonView::Array(items) = ms[i].1 {
            let kept = if edit_grouped(e) {
                strip_groups(items, text, exact)
            } else {
                keep_entries(items, text, exact)
            };
            lemma_strip_changes_iff_hit(items, text, exact);
            lemma_keep_changes_iff_hit(items, text, exact);
            if kept.len() == 0 && items.len() > 0 {
                assert(ms.remove(i).len() < ms.len());
            } else {
                let ms2 = ms.update(i, (ev, JsonView::Array(kept)));
                if kept == items {
                    assert(ms2 =~= ms);
                }
                if ms2 == ms {
                    assert(ms2[i] == ms[i]);
                }
            }
        }
    }
}

/// After a command is registered, its event holds an array whose last
/// item runs the command (for grouped events: a group holding just an entry
/// that runs it), and no earlier item runs it: the command is registered
/// exactly once.
pub proof fn law_registration_leaves_the_command_once(
    ms: Seq<(Seq<char>, JsonView)>,
    e: HookEditView,
    hook_path: Seq<char>,
)
    requires
        is_registration(e),
    ensures
        apply_edit(ms, e, hook_path) matches Ok((ms1, _)) ==> {
            let i = first_member(ms1, edit_event(e));
            let command = edit_target(e, hook_path).0;
            &&& i >= 0
            &&& ms1[i].1 matches JsonView::Array(items) && items.len() > 0 && (edit_grouped(e) ==> (
            runs_only(items.last(), command) && !groups_hit(items.drop_last(), command, true))) && (
            !edit_grouped(e) ==> (entry_command(items.last()) == Some(command) && !any_hit(
                items.drop_last(),
                command,
                true,
            )))
        },
{
    lemma_new_item_taken_out(e, hook_path);
    let ev = edit_event(e);
    let (text, exact) = edit_target(e, hook_path);
    let n = new_item(e)->Some_0;
    let i = first_member(ms, ev);
    lemma_first_member_bounds(ms, ev);
    if let Ok((ms1, _)) = apply_edit(ms, e, hook_path) {
        let items: Seq<JsonView> = if i < 0 {
            seq![]
        } else {
            ms[i].1->Array_0
        };
        let kept = if edit_grouped(e) {
            strip_groups(items, text, exact)
        } else {
            keep_entries(items, text, exact)
        };
        let j = if i < 0 {
            ms.len() as int
        } else {
            i
        };
        if i < 0 {
            assert(kept =~= Seq::<JsonView>::empty()) by {
                if edit_grouped(e) {
                    assert(strip_groups(items, text, exact) =~= Seq::<JsonView>::empty());
                } else {
                    assert(keep_entries(items, text, exact) =~= Seq::<JsonView>::empty());
                }
            }
            assert(ms1 == ms.push((ev, JsonView::Array(kept.push(n)))));
        } else {
            assert(ms1 == ms.update(i, (ev, JsonView::Array(kept.push(n)))));
        }
        assert forall|k: int| 0 <= k < j implies #[trigger] ms1[k].0 != ev by {
            assert(ms1[k] == ms[k]);
        }
        crate::json::lemma_first_member(ms1, ev, j);
        assert(kept.push(n).drop_last() =~= kept);
        if edit_grouped(e) {
            lemma_strip_idempotent(items, text, exact);
            lemma_strip_changes_iff_hit(kept, text, exact);
        } else {
            lemma_keep_idempotent(items, text, exact);
            lemma_keep_changes_iff_hit(kept, text, exact);
        }
    }
}

} // verus!
