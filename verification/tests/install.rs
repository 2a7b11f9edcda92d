use herdr_targets::error::ErrorKind;
use herdr_targets::install::{
    check_config_dir, ensure_cursor_hooks_version, ensure_extension_dir, install_antigravity_cli_hooks,
    install_omp_conflict, is_legacy_pi_extension, uninstall_antigravity_cli_hooks,
};
use herdr_targets::json::{json_compact, Json};

#[test]
fn extension_directory_decisions() {
    assert_eq!(ensure_extension_dir("/e", "pi", true, false).unwrap(), false);
    assert_eq!(ensure_extension_dir("/e", "pi", false, true).unwrap(), true);
    let e = ensure_extension_dir("/e", "omp", false, false).unwrap_err();
    assert_eq!(e.kind, ErrorKind::Other);
    assert_eq!(e.message, "omp extension directory not found at /e. install omp first");
}

#[test]
fn omp_must_not_share_pi_directory() {
    assert!(install_omp_conflict("/d", false).is_ok());
    assert_eq!(
        install_omp_conflict("/d", true).unwrap_err().message,
        "Pi and OMP resolve to the same extension directory at /d; configure separate agent directories before installing OMP"
    );
}

#[test]
fn legacy_pi_extension_marker() {
    assert!(is_legacy_pi_extension("// HERDR_INTEGRATION_ID=pi\nexport {}"));
    assert!(!is_legacy_pi_extension("// HERDR_INTEGRATION_ID=omp"));
    assert!(!is_legacy_pi_extension(""));
}

#[test]
fn cursor_version() {
    let f = ensure_cursor_hooks_version(Json::Object(Vec::new()), "/c").unwrap();
    assert_eq!(json_compact(&f), "{\"version\":1}");
    let f = ensure_cursor_hooks_version(
        Json::Object(vec![("version".to_string(), Json::UInt(2))]),
        "/c",
    )
    .unwrap();
    assert_eq!(json_compact(&f), "{\"version\":2}");
    let e = ensure_cursor_hooks_version(Json::Array(Vec::new()), "/c/hooks.json").unwrap_err();
    assert_eq!(e.message, "cursor hooks file at /c/hooks.json must be a JSON object");
}

#[test]
fn antigravity_block_install_and_uninstall() {
    let start = Json::Object(vec![("mine".to_string(), Json::Bool(true))]);
    let installed = install_antigravity_cli_hooks(start, "/a/hooks.json", "/a/h.sh").unwrap();
    let text = json_compact(&installed);
    assert!(text.contains("\"herdr\":{\"SessionStart\""));
    assert!(text.contains("\"mine\":true"));
    // installing again replaces the block
    let again = install_antigravity_cli_hooks(installed, "/a/hooks.json", "/a/h.sh").unwrap();
    assert_eq!(json_compact(&again), text);
    let (removed, was) = uninstall_antigravity_cli_hooks(again, "/a/hooks.json").unwrap();
    assert!(was);
    assert_eq!(json_compact(&removed), "{\"mine\":true}");
    let (_, was) = uninstall_antigravity_cli_hooks(removed, "/a/hooks.json").unwrap();
    assert!(!was);
    let e = uninstall_antigravity_cli_hooks(Json::Null, "/a/hooks.json").unwrap_err();
    assert_eq!(e.message, "antigravity cli hooks file at /a/hooks.json must be a JSON object");
}

#[test]
fn missing_config_directory_is_reported() {
    assert!(check_config_dir("kilo config", "/h/.kilo", "kilo", true).is_ok());
    let e = check_config_dir("kilo config", "/h/.kilo", "kilo", false).unwrap_err();
    assert_eq!(e.kind, ErrorKind::Other);
    assert_eq!(e.message, "kilo config directory not found at /h/.kilo. install kilo first");
}
