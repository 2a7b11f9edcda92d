//! Decisions of the installers that stand apart from the file operations:
//! when a directory counts as present, when an old file is herdr's, and
//! the edits herdr makes to hook files that it shares with the agent.
use vstd::prelude::*;
use crate::error::{ErrorKind, InstallError};
use crate::hooks::{antigravity_cli_block_spec, antigravity_cli_hook_block};
use crate::json::{
    find_member, first_member, law_object_insert_idempotent, law_object_remove_undoes_insert,
    object_insert, object_insert_spec, object_remove, object_remove_spec, Json,
    JsonView,
};
use crate::names::ANTIGRAVITY_CLI_HOOK_BLOCK_NAME;
use crate::text::{contains, contains_spec};

verus! {

/// Whether an extension directory must be created: not when it exists; yes
/// when its parent exists (the agent is installed); else the agent is
/// missing. `is_dir` and `parent_is_dir` say what the file system holds.
pub fn ensure_extension_dir(dir: &str, agent: &str, is_dir: bool, parent_is_dir: bool) -> (r: Result<
    bool,
    InstallError,
>)
    ensures
        is_dir ==> r == Ok::<bool, InstallError>(false),
        !is_dir && parent_is_dir ==> r == Ok::<bool, InstallError>(true),
        !is_dir && !parent_is_dir ==> (r matches Err(e) && e.kind == ErrorKind::Other && e.message@
            == agent@ + " extension directory not found at "@ + dir@ + ". install "@ + agent@
            + " first"@),
{
    if is_dir {
        return Ok(false);
    }
    if parent_is_dir {
        return Ok(true);
    }
    let mut msg = agent.to_owned();
    msg.append(" extension directory not found at ");
    msg.append(dir);
    msg.append(". install ");
    msg.append(agent);
    msg.append(" first");
    Err(InstallError::other(msg))
}

/// The message of an installer that finds no configuration directory for
/// its agent: `what` names the directory, `product` what to install.
pub open spec fn missing_config_dir_message(what: Seq<char>, dir: Seq<char>, product: Seq<char>) -> Seq<
    char,
> {
    what + " directory not found at "@ + dir + ". install "@ + product + " first"@
}

/// An installer goes on only where the agent's configuration directory
/// exists; `is_dir` says whether it does.
pub fn check_config_dir(what: &str, dir: &str, product: &str, is_dir: bool) -> (r: Result<
    (),
    InstallError,
>)
    ensures
        is_dir ==> r is Ok,
        !is_dir ==> (r matches Err(e) && e.kind == ErrorKind::Other && e.message@
            == missing_config_dir_message(what@, dir@, product@)),
{
    if is_dir {
        return Ok(());
    }
    let mut msg = what.to_owned();
    msg.append(" directory not found at ");
    msg.append(dir);
    msg.append(". install ");
    msg.append(product);
    msg.append(" first");
    Err(InstallError::other(msg))
}

/// OMP must not share Pi's extension directory: `same_dir` says whether the
/// two resolve to the same path.
pub fn install_omp_conflict(dir: &str, same_dir: bool) -> (r: Result<(), InstallError>)
    ensures
        !same_dir ==> r is Ok,
        same_dir ==> (r matches Err(e) && e.kind == ErrorKind::Other && e.message@
            == "Pi and OMP resolve to the same extension directory at "@ + dir@
            + "; configure separate agent directories before installing OMP"@),
{
    if same_dir {
        let mut msg = "Pi and OMP resolve to the same extension directory at ".to_owned();
        msg.append(dir);
        msg.append("; configure separate agent directories before installing OMP");
        Err(InstallError::other(msg))
    } else {
        Ok(())
    }
}

/// A Pi extension file in the OMP directory is herdr's when it carries the
/// Pi integration marker.
pub fn is_legacy_pi_extension(content: &str) -> (b: bool)
    ensures
        b == contains_spec(content@, "HERDR_INTEGRATION_ID=pi"@),
{
    contains(content, "HERDR_INTEGRATION_ID=pi")
}

/// The Cursor hooks file with a `version` member, added as `1` when
/// missing; only an object can take one.
pub fn ensure_cursor_hooks_version(file: Json, hooks_path: &str) -> (r: Result<Json, InstallError>)
    ensures
        match cursor_version_spec(file@) {
            Some(v) => r matches Ok(f) && f@ == v,
            None => r matches Err(e) && e.kind == ErrorKind::Other && e.message@
                == "cursor hooks file at "@ + hooks_path@ + " must be a JSON object"@,
        },
{
    match file {
        Json::Object(mut ms) => {
            match find_member(&ms, "version") {
                Some(_) => Ok(Json::Object(ms)),
                None => {
                    object_insert(&mut ms, "version", Json::UInt(1));
                    Ok(Json::Object(ms))
                },
            }
        },
        _ => {
            let mut msg = "cursor hooks file at ".to_owned();
            msg.append(hooks_path);
            msg.append(" must be a JSON object");
            Err(InstallError::other(msg))
        },
    }
}

/// The failure for an Antigravity CLI hooks file that is not an object.
pub open spec fn antigravity_not_object(hooks_path: Seq<char>) -> Seq<char> {
    "antigravity cli hooks file at "@ + hooks_path + " must be a JSON object"@
}

fn antigravity_not_object_error(hooks_path: &str) -> (e: InstallError)
    ensures
        e.kind == ErrorKind::Other,
        e.message@ == antigravity_not_object(hooks_path@),
{
    let mut msg = "antigravity cli hooks file at ".to_owned();
    msg.append(hooks_path);
    msg.append(" must be a JSON object");
    InstallError::other(msg)
}

/// The Antigravity CLI hooks file with the herdr block written afresh. The
/// block is herdr's, so it is replaced wholesale and every other named hook
/// is left as it is.
pub fn install_antigravity_cli_hooks(file: Json, hooks_path: &str, hook_path: &str) -> (r: Result<
    Json,
    InstallError,
>)
    ensures
        match file@ {
            JsonView::Object(ms) => r matches Ok(f) && f@ == JsonView::Object(
                object_insert_spec(
                    ms,
                    ANTIGRAVITY_CLI_HOOK_BLOCK_NAME@,
                    antigravity_cli_block_spec(hook_path@),
                ),
            ),
            _ => r matches Err(e) && e.kind == ErrorKind::Other && e.message@
                == antigravity_not_object(hooks_path@),
        },
{
    match file {
        Json::Object(mut ms) => {
            object_insert(&mut ms, ANTIGRAVITY_CLI_HOOK_BLOCK_NAME, antigravity_cli_hook_block(hook_path));
            Ok(Json::Object(ms))
        },
        _ => Err(antigravity_not_object_error(hooks_path)),
    }
}

/// The Antigravity CLI hooks file without the herdr block, and whether
/// there was one.
pub fn uninstall_antigravity_cli_hooks(file: Json, hooks_path: &str) -> (r: Result<
    (Json, bool),
    InstallError,
>)
    ensures
        match file@ {
            JsonView::Object(ms) => {
                r matches Ok((f, removed)) && removed == (first_member(
                    ms,
                    ANTIGRAVITY_CLI_HOOK_BLOCK_NAME@,
                ) >= 0) && f@ == JsonView::Object(
                    object_remove_spec(ms, ANTIGRAVITY_CLI_HOOK_BLOCK_NAME@),
                )
            },
            _ => r matches Err(e) && e.kind == ErrorKind::Other && e.message@
                == antigravity_not_object(hooks_path@),
        },
{
    match file {
        Json::Object(mut ms) => {
            let removed = object_remove(&mut ms, ANTIGRAVITY_CLI_HOOK_BLOCK_NAME);
            Ok((Json::Object(ms), removed))
        },
        _ => Err(antigravity_not_object_error(hooks_path)),
    }
}

/// What `ensure_cursor_hooks_version` makes of a hooks file: `None` when
/// it is not an object.
pub open spec fn cursor_version_spec(file: JsonView) -> Option<JsonView> {
    match file {
        JsonView::Object(ms) => if first_member(ms, "version"@) >= 0 {
            Some(file)
        } else {
            Some(JsonView::Object(object_insert_spec(ms, "version"@, JsonView::UInt(1))))
        },
        _ => None,
    }
}

/// Ensuring the Cursor hooks version twice is ensuring it once.
pub proof fn law_cursor_version_idempotent(file: JsonView)
    ensures
        cursor_version_spec(file) matches Some(f) ==> cursor_version_spec(f) == Some(f),
{
    if let JsonView::Object(ms) = file {
        if first_member(ms, "version"@) < 0 {
            law_object_insert_idempotent(ms, "version"@, JsonView::UInt(1));
            let once = object_insert_spec(ms, "version"@, JsonView::UInt(1));
            crate::json::lemma_first_member_bounds(ms, "version"@);
            assert forall|j: int| 0 <= j < once.len() - 1 implies #[trigger] once[j].0
                != "version"@ by {
                assert(once[j] == ms[j]);
            }
            crate::json::lemma_first_member(once, "version"@, ms.len() as int);
        }
    }
}

/// Installing the herdr Antigravity CLI block twice is installing it once.
pub proof fn law_antigravity_install_idempotent(ms: Seq<(Seq<char>, JsonView)>, hook_path: Seq<char>)
    ensures
        object_insert_spec(
            object_insert_spec(
                ms,
                ANTIGRAVITY_CLI_HOOK_BLOCK_NAME@,
                antigravity_cli_block_spec(hook_path),
            ),
            ANTIGRAVITY_CLI_HOOK_BLOCK_NAME@,
            antigravity_cli_block_spec(hook_path),
        ) == object_insert_spec(
            ms,
            ANTIGRAVITY_CLI_HOOK_BLOCK_NAME@,
            antigravity_cli_block_spec(hook_path),
        ),
{
    law_object_insert_idempotent(
        ms,
        ANTIGRAVITY_CLI_HOOK_BLOCK_NAME@,
        antigravity_cli_block_spec(hook_path),
    );
}

/// Uninstalling the Antigravity CLI block restores a hooks file that had
/// none before it was installed.
pub proof fn law_antigravity_uninstall_undoes_install(
    ms: Seq<(Seq<char>, JsonView)>,
    hook_path: Seq<char>,
)
    requires
        first_member(ms, ANTIGRAVITY_CLI_HOOK_BLOCK_NAME@) < 0,
    ensures
        object_remove_spec(
            object_insert_spec(
                ms,
                ANTIGRAVITY_CLI_HOOK_BLOCK_NAME@,
                antigravity_cli_block_spec(hook_path),
            ),
            ANTIGRAVITY_CLI_HOOK_BLOCK_NAME@,
        ) == ms,
{
    law_object_remove_undoes_insert(
        ms,
        ANTIGRAVITY_CLI_HOOK_BLOCK_NAME@,
        antigravity_cli_block_spec(hook_path),
    );
}

} // verus!
