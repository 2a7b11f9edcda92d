use herdr_targets::trae_cli::{trae_plugin_install_args, trae_plugin_uninstall_args};
use herdr_targets::error::{ErrorKind, InstallError};
use herdr_targets::trae_cli::{
    command_output_summary, trae_cli_candidates, trae_cli_not_found, trae_cli_spawn_failure,
    trae_plugin_install_failure, trae_unregister_outcome,
};

#[test]
fn candidates() {
    assert_eq!(trae_cli_candidates(Some("/opt/traex"), Some("/h")), vec!["/opt/traex".to_string()]);
    assert_eq!(
        trae_cli_candidates(Some(""), Some("/h")),
        vec!["traex", "traecli", "trae-cli", "/h/.local/bin/traex", "/h/.local/bin/traecli", "/h/.local/bin/trae-cli"]
    );
    assert_eq!(trae_cli_candidates(None, None), vec!["traex", "traecli", "trae-cli"]);
}

#[test]
fn spawn_failures() {
    let missing = InstallError { kind: ErrorKind::NotFound, message: "no such file".to_string() };
    assert_eq!(trae_cli_spawn_failure("traex", missing), None);
    let denied = InstallError {
        kind: ErrorKind::Io(std::io::ErrorKind::PermissionDenied),
        message: "denied".to_string(),
    };
    let e = trae_cli_spawn_failure("traex", denied).unwrap();
    assert_eq!(e.kind, ErrorKind::Other);
    assert_eq!(e.message, "failed to run traex: denied");
    let e = trae_cli_not_found();
    assert_eq!(e.kind, ErrorKind::NotFound);
    assert_eq!(
        e.message,
        "trae cli not found (looked for traex, traecli, trae-cli); install trae first or set HERDR_TRAE_CLI"
    );
}

#[test]
fn plugin_command_outcomes() {
    assert_eq!(trae_plugin_install_failure("traex", true, "ok"), None);
    assert_eq!(
        trae_plugin_install_failure("traex", false, "boom (exit status: 1)").unwrap().message,
        "`traex plugin install` failed: boom (exit status: 1)"
    );
    assert_eq!(trae_unregister_outcome(Ok(("traex".to_string(), true, String::new()))), (true, None));
    assert_eq!(
        trae_unregister_outcome(Ok(("traex".to_string(), false, "no".to_string()))),
        (false, Some("`traex plugin uninstall herdr@local` failed: no".to_string()))
    );
    assert_eq!(
        trae_unregister_outcome(Err(InstallError { kind: ErrorKind::Other, message: "m".to_string() })),
        (false, Some("m".to_string()))
    );
}

#[test]
fn output_summaries() {
    assert_eq!(
        command_output_summary("  \n", "one\ntwo\n", "exit status: 0"),
        "one | two (exit status: 0)"
    );
    assert_eq!(
        command_output_summary("e1\ne2\ne3\ne4\ne5\ne6\ne7\n", "ignored", "exit status: 2"),
        "e3 | e4 | e5 | e6 | e7 (exit status: 2)"
    );
    assert_eq!(command_output_summary("", "", "signal: 9"), " (signal: 9)");
}

#[test]
fn trae_cli_arguments() {
    assert_eq!(
        trae_plugin_install_args("/h/.trae/herdr-plugin"),
        vec!["plugin", "install", "--type", "local", "/h/.trae/herdr-plugin", "--name", "herdr", "--yes"]
    );
    assert_eq!(trae_plugin_uninstall_args(), vec!["plugin", "uninstall", "herdr@local"]);
}
