//! Decisions around running the Trae CLI: which programs to try, what a
//! failed run is reported as, and the summary of a command's output.
use vstd::prelude::*;
use crate::error::{ErrorKind, InstallError};
use crate::names::{trae_cli_names, trae_cli_names_spec, TRAE_CLI_ENV_VAR, TRAE_PLUGIN_NAME};
use crate::paths::{join_path, join_path_spec};
use crate::text::{join_sep, join_strings, lines_of, split_lines, trim, trim_spec};
use crate::trae::{plugin_id_spec, trae_plugin_id};

verus! {

// ---------------------------------------------------------------------------
// Arguments
// ---------------------------------------------------------------------------

pub open spec fn args_view(v: Seq<String>) -> Seq<Seq<char>> {
    v.map_values(|s: String| s@)
}

fn push_arg(v: &mut Vec<String>, a: &str)
    ensures
        args_view(final(v)@) == args_view(old(v)@).push(a@),
{
    v.push(a.to_owned());
    assert(args_view(v@) =~= args_view(old(v)@).push(a@));
}

/// The arguments that install the plugin at `plugin_dir` from the local
/// directory, without asking.
pub open spec fn trae_plugin_install_args_spec(plugin_dir: Seq<char>) -> Seq<Seq<char>> {
    seq![
        "plugin"@,
        "install"@,
        "--type"@,
        "local"@,
        plugin_dir,
        "--name"@,
        TRAE_PLUGIN_NAME@,
        "--yes"@,
    ]
}

/// The Trae CLI arguments that install (or refresh) the herdr plugin.
pub fn trae_plugin_install_args(plugin_dir: &str) -> (v: Vec<String>)
    ensures
        args_view(v@) == trae_plugin_install_args_spec(plugin_dir@),
{
    let mut v: Vec<String> = Vec::new();
    assert(args_view(v@) =~= Seq::<Seq<char>>::empty());
    push_arg(&mut v, "plugin");
    push_arg(&mut v, "install");
    push_arg(&mut v, "--type");
    push_arg(&mut v, "local");
    push_arg(&mut v, plugin_dir);
    push_arg(&mut v, "--name");
    push_arg(&mut v, TRAE_PLUGIN_NAME);
    push_arg(&mut v, "--yes");
    assert(args_view(v@) =~= trae_plugin_install_args_spec(plugin_dir@));
    v
}

/// The Trae CLI arguments that uninstall the herdr plugin.
pub fn trae_plugin_uninstall_args() -> (v: Vec<String>)
    ensures
        args_view(v@) == seq!["plugin"@, "uninstall"@, plugin_id_spec()],
{
    let mut v: Vec<String> = Vec::new();
    assert(args_view(v@) =~= Seq::<Seq<char>>::empty());
    push_arg(&mut v, "plugin");
    push_arg(&mut v, "uninstall");
    let id = trae_plugin_id();
    push_arg(&mut v, id.as_str());
    assert(args_view(v@) =~= seq!["plugin"@, "uninstall"@, plugin_id_spec()]);
    v
}

// ---------------------------------------------------------------------------
// Candidates
// ---------------------------------------------------------------------------

/// `{home}/.local/bin/{name}`.
pub open spec fn local_bin_spec(home: Seq<char>, name: Seq<char>) -> Seq<char> {
    join_path_spec(join_path_spec(join_path_spec(home, ".local"@), "bin"@), name)
}

/// The programs tried, in order: the value of `HERDR_TRAE_CLI` when it is
/// set and not empty; else the Trae CLI names on `PATH`, then the same
/// names in `~/.local/bin` when the home directory is known.
pub open spec fn trae_cli_candidates_spec(env_value: Option<Seq<char>>, home: Option<Seq<char>>) -> Seq<
    Seq<char>,
> {
    let fallback = trae_cli_names_spec() + match home {
        Some(h) => trae_cli_names_spec().map_values(|n: Seq<char>| local_bin_spec(h, n)),
        None => Seq::<Seq<char>>::empty(),
    };
    match env_value {
        Some(v) => if v.len() > 0 {
            seq![v]
        } else {
            fallback
        },
        None => fallback,
    }
}

/// The programs to try for the Trae CLI, given the value of
/// `HERDR_TRAE_CLI` and the home directory, where known.
pub fn trae_cli_candidates(env_value: Option<&str>, home: Option<&str>) -> (r: Vec<String>)
    ensures
        r@.map_values(|s: String| s@) == trae_cli_candidates_spec(
            match env_value {
                Some(v) => Some(v@),
                None => None,
            },
            match home {
                Some(h) => Some(h@),
                None => None,
            },
        ),
{
    let mut out: Vec<String> = Vec::new();
    if let Some(v) = env_value {
        if !v.is_empty() {
            out.push(v.to_owned());
            assert(out@.map_values(|s: String| s@) =~= seq![v@]);
            return out;
        }
    }
    let names = trae_cli_names();
    let ghost ns = names@.map_values(|s: &str| s@);
    let mut i: usize = 0;
    while i < names.len()
        invariant
            i <= names.len(),
            ns == names@.map_values(|s: &str| s@),
            ns == trae_cli_names_spec(),
            out@.map_values(|s: String| s@) == ns.take(i as int),
        decreases names.len() - i,
    {
        let ghost before = out@;
        out.push(names[i].to_owned());
        assert(out@.map_values(|s: String| s@) =~= before.map_values(|s: String| s@).push(
            ns[i as int],
        ));
        assert(ns.take(i + 1) =~= ns.take(i as int).push(ns[i as int]));
        i = i + 1;
    }
    assert(ns.take(names.len() as int) =~= ns);
    if let Some(h) = home {
        let ghost f = |n: Seq<char>| local_bin_spec(h@, n);
        let mut j: usize = 0;
        while j < names.len()
            invariant
                j <= names.len(),
                ns == names@.map_values(|s: &str| s@),
                ns == trae_cli_names_spec(),
                f == (|n: Seq<char>| local_bin_spec(h@, n)),
                out@.map_values(|s: String| s@) == ns + ns.take(j as int).map_values(f),
            decreases names.len() - j,
        {
            let local = join_path(h, ".local");
            let bin = join_path(local.as_str(), "bin");
            let path = join_path(bin.as_str(), names[j]);
            let ghost before = out@;
            out.push(path);
            assert(out@.map_values(|s: String| s@) =~= before.map_values(|s: String| s@).push(
                f(ns[j as int]),
            ));
            assert(ns.take(j + 1).map_values(f) =~= ns.take(j as int).map_values(f).push(
                f(ns[j as int]),
            ));
            j = j + 1;
        }
        assert(ns.take(names.len() as int) =~= ns);
    } else {
        assert(out@.map_values(|s: String| s@) =~= ns + Seq::<Seq<char>>::empty());
    }
    out
}

// ---------------------------------------------------------------------------
// Failures
// ---------------------------------------------------------------------------

/// What a failure to start `candidate` means: a program that does not
/// exist is skipped (`None`); any other failure ends the search.
pub fn trae_cli_spawn_failure(candidate: &str, err: InstallError) -> (r: Option<InstallError>)
    ensures
        match err.kind {
            ErrorKind::NotFound => r is None,
            _ => r matches Some(e) && e.kind == ErrorKind::Other && e.message@ == "failed to run "@
                + candidate@ + ": "@ + err.message@,
        },
{
    match err.kind {
        ErrorKind::NotFound => None,
        _ => {
            let mut msg = "failed to run ".to_owned();
            msg.append(candidate);
            msg.append(": ");
            msg.append(err.message.as_str());
            Some(InstallError::other(msg))
        },
    }
}

/// The failure when no candidate could be started.
pub fn trae_cli_not_found() -> (e: InstallError)
    ensures
        e.kind == ErrorKind::NotFound,
        e.message@ == "trae cli not found (looked for "@ + join_sep(trae_cli_names_spec(), ", "@)
            + "); install trae first or set "@ + TRAE_CLI_ENV_VAR@,
{
    let names = trae_cli_names();
    let mut owned: Vec<String> = Vec::new();
    let ghost ns = names@.map_values(|s: &str| s@);
    let mut i: usize = 0;
    while i < names.len()
        invariant
            i <= names.len(),
            ns == names@.map_values(|s: &str| s@),
            owned@.map_values(|s: String| s@) == ns.take(i as int),
        decreases names.len() - i,
    {
        let ghost before = owned@;
        owned.push(names[i].to_owned());
        assert(owned@.map_values(|s: String| s@) =~= before.map_values(|s: String| s@).push(
            ns[i as int],
        ));
        assert(ns.take(i + 1) =~= ns.take(i as int).push(ns[i as int]));
        i = i + 1;
    }
    assert(ns.take(names.len() as int) =~= ns);
    let mut msg = "trae cli not found (looked for ".to_owned();
    let joined = join_strings(&owned, ", ");
    msg.append(joined.as_str());
    msg.append("); install trae first or set ");
    msg.append(TRAE_CLI_ENV_VAR);
    InstallError { kind: ErrorKind::NotFound, message: msg }
}

/// The failure of `{cli} plugin install` when it exited unsuccessfully.
pub fn trae_plugin_install_failure(cli: &str, success: bool, summary: &str) -> (r: Option<
    InstallError,
>)
    ensures
        success ==> r is None,
        !success ==> (r matches Some(e) && e.kind == ErrorKind::Other && e.message@ == "`"@ + cli@
            + " plugin install` failed: "@ + summary@),
{
    if success {
        None
    } else {
        let mut msg = "`".to_owned();
        msg.append(cli);
        msg.append(" plugin install` failed: ");
        msg.append(summary);
        Some(InstallError::other(msg))
    }
}

/// What unregistering the plugin gave: whether it was unregistered, and the
/// warning to report when it was not. `run` is the program used, whether it
/// exited successfully and the summary of its output, or the failure to run
/// any program.
pub fn trae_unregister_outcome(run: Result<(String, bool, String), InstallError>) -> (r: (
    bool,
    Option<String>,
))
    ensures
        match run {
            Ok((cli, success, summary)) => if success {
                r.0 && r.1 is None
            } else {
                !r.0 && (r.1 matches Some(w) && w@ == "`"@ + cli@ + " plugin uninstall "@
                    + plugin_id_spec() + "` failed: "@ + summary@)
            },
            Err(e) => !r.0 && (r.1 matches Some(w) && w@ == e.message@),
        },
{
    match run {
        Ok((cli, success, summary)) => {
            if success {
                (true, None)
            } else {
                let mut w = "`".to_owned();
                w.append(cli.as_str());
                w.append(" plugin uninstall ");
                let id = trae_plugin_id();
                w.append(id.as_str());
                w.append("` failed: ");
                w.append(summary.as_str());
                (false, Some(w))
            }
        },
        Err(e) => (false, Some(e.message)),
    }
}

// ---------------------------------------------------------------------------
// Output summary
// ---------------------------------------------------------------------------

/// The trimmed standard error, or the trimmed standard output when the
/// former is blank.
pub open spec fn output_text_spec(stderr: Seq<char>, stdout: Seq<char>) -> Seq<char> {
    if trim_spec(stderr).len() == 0 {
        trim_spec(stdout)
    } else {
        trim_spec(stderr)
    }
}

/// The last `n` lines, or all of them when there are fewer.
pub open spec fn last_lines(ls: Seq<Seq<char>>, n: nat) -> Seq<Seq<char>> {
    if ls.len() > n {
        ls.skip(ls.len() - n)
    } else {
        ls
    }
}

/// The last five lines of the output joined by `" | "`, then the exit
/// status in parentheses.
pub open spec fn output_summary_spec(stderr: Seq<char>, stdout: Seq<char>, status: Seq<char>) -> Seq<
    char,
> {
    join_sep(last_lines(lines_of(output_text_spec(stderr, stdout)), 5), " | "@) + " ("@ + status
        + ")"@
}

/// A one-line summary of a command's output: `stderr` and `stdout` as text
/// and `status` as its exit status displays.
pub fn command_output_summary(stderr: &str, stdout: &str, status: &str) -> (r: String)
    ensures
        r@ == output_summary_spec(stderr@, stdout@, status@),
{
    let err = trim(stderr);
    let text = if err.is_empty() {
        trim(stdout)
    } else {
        err
    };
    let lines = split_lines(text);
    let ghost ls = lines_of(text@);
    let start: usize = if lines.len() > 5 {
        lines.len() - 5
    } else {
        0
    };
    let mut tail: Vec<String> = Vec::new();
    let mut i: usize = start;
    while i < lines.len()
        invariant
            start <= i <= lines.len() == ls.len(),
            forall|j: int| 0 <= j < lines.len() ==> #[trigger] lines[j]@ == ls[j],
            tail@.map_values(|s: String| s@) == ls.subrange(start as int, i as int),
        decreases lines.len() - i,
    {
        let ghost before = tail@;
        tail.push(lines[i].clone());
        assert(tail@.map_values(|s: String| s@) =~= before.map_values(|s: String| s@).push(
            ls[i as int],
        ));
        assert(ls.subrange(start as int, i + 1) =~= ls.subrange(start as int, i as int).push(
            ls[i as int],
        ));
        i = i + 1;
    }
    assert(ls.subrange(start as int, ls.len() as int) =~= last_lines(ls, 5));
    let mut out = join_strings(&tail, " | ");
    out.append(" (");
    out.append(status);
    out.append(")");
    out
}

} // verus!
