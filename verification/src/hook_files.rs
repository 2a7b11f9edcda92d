//! The hook and settings files that herdr shares with an agent, from the
//! text read to the text written: the file is parsed (an absent file reads
//! as a default), its `"hooks"` object is found or made, the installer's or
//! uninstaller's edits are applied, and the result is printed again. An
//! installer always writes the file; an uninstaller writes it only where an
//! edit took an entry out.
use vstd::prelude::*;
use crate::error::{ErrorKind, InstallError};
use crate::hook_edit::{apply_edits, apply_edits_exec};
use crate::hook_plans::{
    codex_install_edits, codex_install_edits_spec, copilot_install_edits,
    copilot_install_edits_spec, cursor_install_edits, cursor_install_edits_spec,
    devin_install_edits, devin_install_edits_spec, droid_cleanup_edits, droid_cleanup_edits_spec,
    droid_install_edits, droid_install_edits_spec, edits_view, qodercli_install_edits,
    qodercli_install_edits_spec, HookEdit, HookEditView,
};
use crate::install::{cursor_version_spec, ensure_cursor_hooks_version};
use crate::json::{
    find_member, first_member, json_file_text, json_parse_result, json_pretty_text,
    lemma_first_member_bounds, lemma_members_view_index, members_view, parse_json, Json, JsonView,
};

verus! {

/// The message of a file that does not parse.
pub open spec fn parse_failure_message(path: Seq<char>, detail: Seq<char>) -> Seq<char> {
    "failed to parse "@ + path + ": "@ + detail
}

/// The message of a value that should be an object.
pub open spec fn not_object_message(what: Seq<char>, path: Seq<char>) -> Seq<char> {
    what + " at "@ + path + " must be a JSON object"@
}

/// The file's value: `text` parsed, or `default` where there is no file.
pub open spec fn read_hooks_file(text: Option<Seq<char>>, default: JsonView, path: Seq<char>) -> Result<
    JsonView,
    Seq<char>,
> {
    match text {
        None => Ok(default),
        Some(t) => match json_parse_result(t) {
            Ok(v) => Ok(v),
            Err(m) => Err(parse_failure_message(path, m)),
        },
    }
}

/// The file after the edits, and whether an edit took an entry out. The
/// file must be an object, and its `"hooks"` member, where there is one, an
/// object too (`label` names the file in the messages). Where there is none,
/// `create` makes an empty one; else the file is left as it is.
pub open spec fn edit_hooks_file(
    file: JsonView,
    path: Seq<char>,
    label: Seq<char>,
    create: bool,
    edits: Seq<HookEditView>,
    hook_path: Seq<char>,
) -> Result<(JsonView, bool), Seq<char>> {
    match file {
        JsonView::Object(ms) => {
            let i = first_member(ms, "hooks"@);
            if i < 0 {
                if !create {
                    Ok((file, false))
                } else {
                    match apply_edits(seq![], edits, hook_path) {
                        Err(m) => Err(m),
                        Ok((hs, hit)) => Ok(
                            (JsonView::Object(ms.push(("hooks"@, JsonView::Object(hs)))), hit),
                        ),
                    }
                }
            } else {
                match ms[i].1 {
                    JsonView::Object(hs0) => match apply_edits(hs0, edits, hook_path) {
                        Err(m) => Err(m),
                        Ok((hs, hit)) => Ok(
                            (JsonView::Object(ms.update(i, ("hooks"@, JsonView::Object(hs)))), hit),
                        ),
                    },
                    _ => Err(not_object_message(label + " hooks"@, path)),
                }
            }
        },
        _ => Err(not_object_message(label, path)),
    }
}

fn read_hooks_file_exec(text: Option<&str>, default: Json, path: &str) -> (r: Result<Json, InstallError>)
    ensures
        match read_hooks_file(
            match text {
                Some(t) => Some(t@),
                None => None,
            },
            default@,
            path@,
        ) {
            Ok(v) => r matches Ok(j) && j@ == v,
            Err(m) => r matches Err(e) && e.kind == ErrorKind::Other && e.message@ == m,
        },
{
    match text {
        None => Ok(default),
        Some(t) => match parse_json(t) {
            Ok(j) => Ok(j),
            Err(detail) => {
                let mut msg = "failed to parse ".to_owned();
                msg.append(path);
                msg.append(": ");
                msg.append(detail.as_str());
                Err(InstallError::other(msg))
            },
        },
    }
}

fn not_object(what: &str, suffix: &str, path: &str) -> (e: InstallError)
    ensures
        e.kind == ErrorKind::Other,
        e.message@ == not_object_message(what@ + suffix@, path@),
{
    let mut msg = what.to_owned();
    msg.append(suffix);
    msg.append(" at ");
    msg.append(path);
    msg.append(" must be a JSON object");
    InstallError::other(msg)
}

fn edit_hooks_file_exec(
    file: Json,
    path: &str,
    label: &str,
    create: bool,
    edits: &Vec<HookEdit>,
    hook_path: &str,
) -> (r: Result<(Json, bool), InstallError>)
    ensures
        match edit_hooks_file(file@, path@, label@, create, edits_view(edits@), hook_path@) {
            Ok((v, hit)) => r matches Ok((j, h)) && j@ == v && h == hit,
            Err(m) => r matches Err(e) && e.kind == ErrorKind::Other && e.message@ == m,
        },
{
    match file {
        Json::Object(mut ms) => {
            let ghost before = ms@;
            proof {
                lemma_members_view_index(before);
                lemma_first_member_bounds(members_view(before), "hooks"@);
            }
            match find_member(&ms, "hooks") {
                None => {
                    if !create {
                        return Ok((Json::Object(ms), false));
                    }
                    let mut hooks: Vec<(String, Json)> = Vec::new();
                    assert(members_view(hooks@) =~= Seq::<(Seq<char>, JsonView)>::empty());
                    match apply_edits_exec(&mut hooks, edits, hook_path) {
                        Err(e) => Err(e),
                        Ok(hit) => {
                            crate::json::push_member(&mut ms, "hooks", Json::Object(hooks));
                            Ok((Json::Object(ms), hit))
                        },
                    }
                },
                Some(i) => {
                    let (k, v) = ms.remove(i);
                    match v {
                        Json::Object(mut hooks) => match apply_edits_exec(&mut hooks, edits, hook_path) {
                            Err(e) => Err(e),
                            Ok(hit) => {
                                let ghost m = (k, Json::Object(hooks));
                                ms.insert(i, (k, Json::Object(hooks)));
                                proof {
                                    assert(ms@ =~= before.update(i as int, m));
                                    crate::hook_edit::lemma_members_view_update(before, i as int, m);
                                }
                                Ok((Json::Object(ms), hit))
                            },
                        },
                        _ => Err(not_object(label, " hooks", path)),
                    }
                },
            }
        },
        _ => {
            let e = not_object(label, "", path);
            assert(label@ + ""@ =~= label@) by {
                reveal_strlit("");
            }
            Err(e)
        },
    }
}

/// The text an installer writes: the file edited, a missing `"hooks"`
/// object made.
pub open spec fn install_file_text(
    text: Option<Seq<char>>,
    default: JsonView,
    path: Seq<char>,
    label: Seq<char>,
    edits: Seq<HookEditView>,
    hook_path: Seq<char>,
) -> Result<Seq<char>, Seq<char>> {
    match read_hooks_file(text, default, path) {
        Err(m) => Err(m),
        Ok(f) => match edit_hooks_file(f, path, label, true, edits, hook_path) {
            Err(m) => Err(m),
            Ok((v, _)) => Ok(json_pretty_text(v)),
        },
    }
}

/// The text an uninstaller writes: `None` where there is no file or no edit
/// took an entry out, and nothing is written.
pub open spec fn cleanup_file_text(
    text: Option<Seq<char>>,
    path: Seq<char>,
    label: Seq<char>,
    edits: Seq<HookEditView>,
    hook_path: Seq<char>,
) -> Result<Option<Seq<char>>, Seq<char>> {
    match text {
        None => Ok(None),
        Some(t) => match read_hooks_file(Some(t), JsonView::Null, path) {
            Err(m) => Err(m),
            Ok(f) => match edit_hooks_file(f, path, label, false, edits, hook_path) {
                Err(m) => Err(m),
                Ok((v, hit)) => Ok(
                    if hit {
                        Some(json_pretty_text(v))
                    } else {
                        None
                    },
                ),
            },
        },
    }
}

pub open spec fn opt_str(text: Option<&str>) -> Option<Seq<char>> {
    match text {
        Some(t) => Some(t@),
        None => None,
    }
}

pub open spec fn opt_string(text: Option<String>) -> Option<Seq<char>> {
    match text {
        Some(t) => Some(t@),
        None => None,
    }
}

fn empty_object() -> (j: Json)
    ensures
        j@ == JsonView::Object(seq![]),
{
    let ms: Vec<(String, Json)> = Vec::new();
    assert(members_view(ms@) =~= Seq::<(Seq<char>, JsonView)>::empty());
    Json::Object(ms)
}

/// The text an installer writes to the hooks file whose contents are `text`
/// (`None`: no file, read as `{}`) for the hook at `hook_path`.
pub fn install_hooks_file(
    text: Option<&str>,
    path: &str,
    label: &str,
    edits: &Vec<HookEdit>,
    hook_path: &str,
) -> (r: Result<String, InstallError>)
    ensures
        match install_file_text(
            opt_str(text),
            JsonView::Object(seq![]),
            path@,
            label@,
            edits_view(edits@),
            hook_path@,
        ) {
            Ok(t) => r matches Ok(s) && s@ == t,
            Err(m) => r matches Err(e) && e.kind == ErrorKind::Other && e.message@ == m,
        },
{
    let file = read_hooks_file_exec(text, empty_object(), path)?;
    let (edited, _) = edit_hooks_file_exec(file, path, label, true, edits, hook_path)?;
    Ok(json_file_text(&edited))
}

/// The text an uninstaller writes to the hooks file whose contents are
/// `text` (`None`: no file); `None` where there is nothing to write.
pub fn cleanup_hooks_file(
    text: Option<&str>,
    path: &str,
    label: &str,
    edits: &Vec<HookEdit>,
    hook_path: &str,
) -> (r: Result<Option<String>, InstallError>)
    ensures
        match cleanup_file_text(opt_str(text), path@, label@, edits_view(edits@), hook_path@) {
            Ok(t) => r matches Ok(s) && opt_string(s) == t,
            Err(m) => r matches Err(e) && e.kind == ErrorKind::Other && e.message@ == m,
        },
{
    match text {
        None => Ok(None),
        Some(t) => {
            let file = read_hooks_file_exec(Some(t), Json::Null, path)?;
            let (edited, hit) = edit_hooks_file_exec(file, path, label, false, edits, hook_path)?;
            if hit {
                Ok(Some(json_file_text(&edited)))
            } else {
                Ok(None)
            }
        },
    }
}

/// Droid's `settings.json` after install.
pub fn droid_install_settings(text: Option<&str>, path: &str, hook_path: &str) -> (r: Result<
    String,
    InstallError,
>)
    ensures
        match install_file_text(
            opt_str(text),
            JsonView::Object(seq![]),
            path@,
            "droid settings"@,
            droid_install_edits_spec(hook_path@),
            hook_path@,
        ) {
            Ok(t) => r matches Ok(s) && s@ == t,
            Err(m) => r matches Err(e) && e.kind == ErrorKind::Other && e.message@ == m,
        },
{
    install_hooks_file(text, path, "droid settings", &droid_install_edits(hook_path), hook_path)
}

/// A Droid hooks file with the hook taken out: the legacy `hooks.json`
/// (`label` "droid hooks file") on install and uninstall, and
/// `settings.json` ("droid settings") on uninstall. `None` where nothing is
/// written, so `is_some` is the `updated_*` flag of the result.
pub fn droid_remove_hooks(text: Option<&str>, path: &str, label: &str, hook_path: &str) -> (r: Result<
    Option<String>,
    InstallError,
>)
    ensures
        match cleanup_file_text(
            opt_str(text),
            path@,
            label@,
            droid_cleanup_edits_spec(),
            hook_path@,
        ) {
            Ok(t) => r matches Ok(s) && opt_string(s) == t,
            Err(m) => r matches Err(e) && e.kind == ErrorKind::Other && e.message@ == m,
        },
{
    cleanup_hooks_file(text, path, label, &droid_cleanup_edits(), hook_path)
}

/// Codex's `hooks.json` after install.
pub fn codex_install_hooks(text: Option<&str>, path: &str, hook_path: &str) -> (r: Result<
    String,
    InstallError,
>)
    ensures
        match install_file_text(
            opt_str(text),
            JsonView::Object(seq![]),
            path@,
            "codex hooks file"@,
            codex_install_edits_spec(hook_path@),
            hook_path@,
        ) {
            Ok(t) => r matches Ok(s) && s@ == t,
            Err(m) => r matches Err(e) && e.kind == ErrorKind::Other && e.message@ == m,
        },
{
    install_hooks_file(text, path, "codex hooks file", &codex_install_edits(hook_path), hook_path)
}

/// The Qoder CLI `settings.json` after install.
pub fn qodercli_install_settings(text: Option<&str>, path: &str, hook_path: &str) -> (r: Result<
    String,
    InstallError,
>)
    ensures
        match install_file_text(
            opt_str(text),
            JsonView::Object(seq![]),
            path@,
            "qodercli settings"@,
            qodercli_install_edits_spec(hook_path@),
            hook_path@,
        ) {
            Ok(t) => r matches Ok(s) && s@ == t,
            Err(m) => r matches Err(e) && e.kind == ErrorKind::Other && e.message@ == m,
        },
{
    install_hooks_file(text, path, "qodercli settings", &qodercli_install_edits(hook_path), hook_path)
}

/// Devin's `config.json` after install.
pub fn devin_install_settings(text: Option<&str>, path: &str, hook_path: &str) -> (r: Result<
    String,
    InstallError,
>)
    ensures
        match install_file_text(
            opt_str(text),
            JsonView::Object(seq![]),
            path@,
            "devin settings"@,
            devin_install_edits_spec(hook_path@),
            hook_path@,
        ) {
            Ok(t) => r matches Ok(s) && s@ == t,
            Err(m) => r matches Err(e) && e.kind == ErrorKind::Other && e.message@ == m,
        },
{
    install_hooks_file(text, path, "devin settings", &devin_install_edits(hook_path), hook_path)
}

/// The Copilot CLI `settings.json` after install.
pub fn copilot_install_settings(text: Option<&str>, path: &str, hook_path: &str) -> (r: Result<
    String,
    InstallError,
>)
    ensures
        match install_file_text(
            opt_str(text),
            JsonView::Object(seq![]),
            path@,
            "copilot settings"@,
            copilot_install_edits_spec(hook_path@),
            hook_path@,
        ) {
            Ok(t) => r matches Ok(s) && s@ == t,
            Err(m) => r matches Err(e) && e.kind == ErrorKind::Other && e.message@ == m,
        },
{
    install_hooks_file(text, path, "copilot settings", &copilot_install_edits(hook_path), hook_path)
}

/// The Cursor hooks file an absent one reads as: `{"version": 1}`.
pub open spec fn cursor_default_file() -> JsonView {
    JsonView::Object(seq![("version"@, JsonView::UInt(1))])
}

/// Cursor's `hooks.json` after install: read (an absent file as
/// `{"version": 1}`), given a `version` where it has none, then edited.
pub open spec fn cursor_install_text(text: Option<Seq<char>>, path: Seq<char>, hook_path: Seq<char>) -> Result<
    Seq<char>,
    Seq<char>,
> {
    match read_hooks_file(text, cursor_default_file(), path) {
        Err(m) => Err(m),
        Ok(f) => match cursor_version_spec(f) {
            None => Err("cursor hooks file at "@ + path + " must be a JSON object"@),
            Some(f2) => match edit_hooks_file(
                f2,
                path,
                "cursor hooks file"@,
                true,
                cursor_install_edits_spec(hook_path),
                hook_path,
            ) {
                Err(m) => Err(m),
                Ok((v, _)) => Ok(json_pretty_text(v)),
            },
        },
    }
}

/// Cursor's `hooks.json` after install.
pub fn cursor_install_hooks(text: Option<&str>, path: &str, hook_path: &str) -> (r: Result<
    String,
    InstallError,
>)
    ensures
        match cursor_install_text(opt_str(text), path@, hook_path@) {
            Ok(t) => r matches Ok(s) && s@ == t,
            Err(m) => r matches Err(e) && e.kind == ErrorKind::Other && e.message@ == m,
        },
{
    let default = crate::json::jobject1("version", Json::UInt(1));
    let file = read_hooks_file_exec(text, default, path)?;
    let file = ensure_cursor_hooks_version(file, path)?;
    let (edited, _) = edit_hooks_file_exec(
        file,
        path,
        "cursor hooks file",
        true,
        &cursor_install_edits(hook_path),
        hook_path,
    )?;
    Ok(json_file_text(&edited))
}

/// A file that is itself the hooks object (Mastra Code's `hooks.json`)
/// after the edits: `None` where nothing is to be written, which is where
/// there is no file on uninstall, or no edit took an entry out. `install`
/// reads an absent file as `{}` and always writes.
pub open spec fn flat_file_text(
    text: Option<Seq<char>>,
    path: Seq<char>,
    label: Seq<char>,
    edits: Seq<HookEditView>,
    hook_path: Seq<char>,
    install: bool,
) -> Result<Option<Seq<char>>, Seq<char>> {
    if text is None && !install {
        Ok(None)
    } else {
        match read_hooks_file(text, JsonView::Object(seq![]), path) {
            Err(m) => Err(m),
            Ok(JsonView::Object(ms)) => match apply_edits(ms, edits, hook_path) {
                Err(m) => Err(m),
                Ok((hs, hit)) => Ok(
                    if install || hit {
                        Some(json_pretty_text(JsonView::Object(hs)))
                    } else {
                        None
                    },
                ),
            },
            Ok(_) => Err(not_object_message(label, path)),
        }
    }
}

/// The text to write to a file that is itself the hooks object.
pub fn flat_hooks_file(
    text: Option<&str>,
    path: &str,
    label: &str,
    edits: &Vec<HookEdit>,
    hook_path: &str,
    install: bool,
) -> (r: Result<Option<String>, InstallError>)
    ensures
        match flat_file_text(opt_str(text), path@, label@, edits_view(edits@), hook_path@, install) {
            Ok(t) => r matches Ok(s) && opt_string(s) == t,
            Err(m) => r matches Err(e) && e.kind == ErrorKind::Other && e.message@ == m,
        },
{
    if text.is_none() && !install {
        return Ok(None);
    }
    let file = read_hooks_file_exec(text, empty_object(), path)?;
    match file {
        Json::Object(mut ms) => {
            let hit = apply_edits_exec(&mut ms, edits, hook_path)?;
            if install || hit {
                Ok(Some(json_file_text(&Json::Object(ms))))
            } else {
                Ok(None)
            }
        },
        _ => {
            let e = not_object(label, "", path);
            assert(label@ + ""@ =~= label@) by {
                reveal_strlit("");
            }
            Err(e)
        },
    }
}

} // verus!
