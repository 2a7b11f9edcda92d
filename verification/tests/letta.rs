use herdr_targets::error::{ErrorKind, InstallError};
use herdr_targets::json::{json_compact, Json};
use herdr_targets::letta::{
    cleanup_letta_install_artifact, combine_letta_install_errors, ensure_letta_session_hook,
    letta_artifact_file_name, letta_install_step, letta_stale_check, letta_target_check,
    ArtifactWarning, LettaAction, LettaEvent, LettaFile, LettaInstall,
};

fn failure(kind: ErrorKind, message: &str) -> InstallError {
    InstallError { kind, message: message.to_string() }
}

fn file(staged: &str, backup: &str) -> LettaFile {
    LettaFile { staged: staged.to_string(), backup: backup.to_string() }
}

#[test]
fn artifact_names() {
    assert_eq!(
        letta_artifact_file_name("settings.json", 4242, "staged"),
        "settings.json.herdr-install-4242-staged"
    );
    assert_eq!(letta_artifact_file_name("x", 0, "backup"), "x.herdr-install-0-backup");
    assert_eq!(
        letta_artifact_file_name("x", u32::MAX, "backup"),
        "x.herdr-install-4294967295-backup"
    );
}

#[test]
fn target_and_stale_checks() {
    assert!(letta_target_check("/t", false, false).is_ok());
    assert!(letta_target_check("/t", true, true).is_ok());
    let e = letta_target_check("/t", true, false).unwrap_err();
    assert_eq!(e, failure(ErrorKind::Other, "install target is not a file: /t"));
    assert!(letta_stale_check("/t", false, false).is_ok());
    let e = letta_stale_check("/t", false, true).unwrap_err();
    assert_eq!(e, failure(ErrorKind::AlreadyExists, "stale install artifact exists for /t"));
    assert!(letta_stale_check("/t", true, false).is_err());
}

#[test]
fn combining_errors() {
    let primary = failure(ErrorKind::Io(std::io::ErrorKind::PermissionDenied), "denied");
    assert_eq!(
        combine_letta_install_errors(primary, Ok(())),
        failure(ErrorKind::Io(std::io::ErrorKind::PermissionDenied), "denied")
    );
    let primary = failure(ErrorKind::Io(std::io::ErrorKind::PermissionDenied), "denied");
    assert_eq!(
        combine_letta_install_errors(primary, Err(failure(ErrorKind::NotFound, "missing"))),
        failure(
            ErrorKind::Io(std::io::ErrorKind::PermissionDenied),
            "denied; rollback failed: missing"
        )
    );
}

#[test]
fn cleanup_warns_only_on_failure() {
    assert_eq!(cleanup_letta_install_artifact("/a", Ok(true)), None);
    assert_eq!(cleanup_letta_install_artifact("/a", Ok(false)), None);
    assert_eq!(
        cleanup_letta_install_artifact("/a", Err(failure(ErrorKind::Other, "busy"))),
        Some(ArtifactWarning { path: "/a".to_string(), error: "busy".to_string() })
    );
}

#[test]
fn session_hook_is_added() {
    let mut hooks: Vec<(String, Json)> = Vec::new();
    ensure_letta_session_hook(&mut hooks, "'/h.sh' session".to_string()).unwrap();
    assert_eq!(
        json_compact(&Json::Object(hooks)),
        "{\"SessionStart\":[{\"hooks\":[{\"command\":\"'/h.sh' session\",\"quiet\":true,\"timeout\":10000,\"type\":\"command\"}]}]}"
    );
    let mut hooks = vec![
        ("Stop".to_string(), Json::Array(Vec::new())),
        ("SessionStart".to_string(), Json::Array(vec![Json::Null])),
    ];
    ensure_letta_session_hook(&mut hooks, "c".to_string()).unwrap();
    assert_eq!(hooks.len(), 2);
    match &hooks[1].1 {
        Json::Array(items) => assert_eq!(items.len(), 2),
        _ => panic!("SessionStart must stay an array"),
    }
}

#[test]
fn session_hook_needs_an_array() {
    let mut hooks = vec![("SessionStart".to_string(), Json::Bool(true))];
    let e = ensure_letta_session_hook(&mut hooks, "c".to_string()).unwrap_err();
    assert_eq!(e.message, "hook entries for SessionStart must be an array");
    assert_eq!(hooks, vec![("SessionStart".to_string(), Json::Bool(true))]);
}

#[test]
fn transaction_success() {
    let (s, a) = letta_install_step(
        LettaInstall::PreparingHook,
        LettaEvent::Prepared(Ok(file("h.s", "h.b"))),
    );
    assert_eq!(a, LettaAction::PrepareSettings);
    let (s, a) = letta_install_step(s, LettaEvent::Prepared(Ok(file("s.s", "s.b"))));
    assert_eq!(a, LettaAction::PublishHook { staged: "h.s".to_string(), backup: "h.b".to_string() });
    let (s, a) = letta_install_step(s, LettaEvent::Published(Ok(true)));
    assert_eq!(
        a,
        LettaAction::PublishSettings { staged: "s.s".to_string(), backup: "s.b".to_string() }
    );
    let (s, a) = letta_install_step(s, LettaEvent::Published(Ok(false)));
    assert_eq!(s, LettaInstall::Done);
    assert_eq!(a, LettaAction::Finish { cleanups: vec!["h.b".to_string()], result: Ok(()) });
}

#[test]
fn transaction_failures_clean_up_staged_files() {
    let (s, a) = letta_install_step(
        LettaInstall::PreparingHook,
        LettaEvent::Prepared(Err(failure(ErrorKind::Other, "p"))),
    );
    assert_eq!(s, LettaInstall::Done);
    assert_eq!(
        a,
        LettaAction::Finish { cleanups: Vec::new(), result: Err(failure(ErrorKind::Other, "p")) }
    );

    let (_, a) = letta_install_step(
        LettaInstall::PreparingSettings { hook: file("h.s", "h.b") },
        LettaEvent::Prepared(Err(failure(ErrorKind::Other, "q"))),
    );
    assert_eq!(
        a,
        LettaAction::Finish {
            cleanups: vec!["h.s".to_string()],
            result: Err(failure(ErrorKind::Other, "q")),
        }
    );

    let (_, a) = letta_install_step(
        LettaInstall::PublishingHook { hook: file("h.s", "h.b"), settings: file("s.s", "s.b") },
        LettaEvent::Published(Err(failure(ErrorKind::Other, "r"))),
    );
    assert_eq!(
        a,
        LettaAction::Finish {
            cleanups: vec!["h.s".to_string(), "s.s".to_string()],
            result: Err(failure(ErrorKind::Other, "r")),
        }
    );
}

#[test]
fn transaction_rolls_back_the_hook() {
    let (s, a) = letta_install_step(
        LettaInstall::PublishingSettings {
            hook: file("h.s", "h.b"),
            hook_had_original: true,
            settings: file("s.s", "s.b"),
        },
        LettaEvent::Published(Err(failure(ErrorKind::NotFound, "lost"))),
    );
    assert_eq!(a, LettaAction::RollBackHook { backup: "h.b".to_string(), had_original: true });
    let (s, a) = letta_install_step(
        s,
        LettaEvent::RolledBack(Err(failure(ErrorKind::Other, "stuck"))),
    );
    assert_eq!(s, LettaInstall::Done);
    assert_eq!(
        a,
        LettaAction::Finish {
            cleanups: vec!["s.s".to_string()],
            result: Err(failure(ErrorKind::NotFound, "lost; rollback failed: stuck")),
        }
    );
}

/// The two targets and the hook backup, in memory.
#[derive(Clone, Debug, PartialEq)]
struct Files {
    hook: Option<Vec<u8>>,
    settings: Option<Vec<u8>>,
    hook_backup: Option<Vec<u8>>,
}

/// Runs the transaction with publishing of the `fail_publish`-th file
/// (1: hook, 2: settings) failing; returns the files and the result.
fn run_letta(start: Files, fail_publish: u8) -> (Files, Result<(), InstallError>) {
    let mut files = start;
    let mut state = LettaInstall::PreparingHook;
    let mut event = LettaEvent::Prepared(Ok(file("h.staged", "h.backup")));
    loop {
        let (next, action) = letta_install_step(state, event);
        state = next;
        event = match action {
            LettaAction::PrepareSettings => LettaEvent::Prepared(Ok(file("s.staged", "s.backup"))),
            LettaAction::PublishHook { .. } => {
                if fail_publish == 1 {
                    LettaEvent::Published(Err(failure(ErrorKind::Other, "rename failed")))
                } else {
                    let had = files.hook.is_some();
                    if had {
                        files.hook_backup = files.hook.take();
                    }
                    files.hook = Some(b"new hook".to_vec());
                    LettaEvent::Published(Ok(had))
                }
            }
            LettaAction::PublishSettings { .. } => {
                if fail_publish == 2 {
                    LettaEvent::Published(Err(failure(ErrorKind::Other, "rename failed")))
                } else {
                    let had = files.settings.is_some();
                    files.settings = Some(b"new settings".to_vec());
                    LettaEvent::Published(Ok(had))
                }
            }
            LettaAction::RollBackHook { had_original, .. } => {
                files.hook = None;
                if had_original {
                    files.hook = files.hook_backup.take();
                }
                LettaEvent::RolledBack(Ok(()))
            }
            LettaAction::Finish { result, .. } => return (files, result),
        };
    }
}

#[test]
fn letta_install_is_all_or_nothing() {
    let start = Files {
        hook: Some(b"old hook".to_vec()),
        settings: Some(b"old settings".to_vec()),
        hook_backup: None,
    };
    let (ok, result) = run_letta(start.clone(), 0);
    assert!(result.is_ok());
    assert_eq!(ok.hook, Some(b"new hook".to_vec()));
    assert_eq!(ok.settings, Some(b"new settings".to_vec()));
    for fail in [1, 2] {
        let (after, result) = run_letta(start.clone(), fail);
        assert_eq!(result.unwrap_err().message, "rename failed");
        assert_eq!(after.hook, start.hook);
        assert_eq!(after.settings, start.settings);
    }
    let fresh = Files { hook: None, settings: None, hook_backup: None };
    let (after, result) = run_letta(fresh, 2);
    assert!(result.is_err());
    assert_eq!(after.hook, None);
    assert_eq!(after.settings, None);
}
