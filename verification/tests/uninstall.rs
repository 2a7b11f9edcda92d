use herdr_targets::error::{ErrorKind, InstallError};
use herdr_targets::uninstall::{
    grok_paths, kilo_plugin_path, omp_extension_path, opencode_paths, pi_extension_path,
    uninstall_grok, uninstall_kilo, uninstall_omp, uninstall_opencode, uninstall_pi,
    GrokUninstallResult, OpenCodeUninstallResult,
};

fn failure(message: &str) -> InstallError {
    InstallError { kind: ErrorKind::Io(std::io::ErrorKind::PermissionDenied), message: message.to_string() }
}

#[test]
fn pi_and_omp() {
    assert_eq!(pi_extension_path("/x/ext"), "/x/ext/herdr.ts");
    let r = uninstall_pi("/x/ext", Ok(true)).unwrap();
    assert_eq!(r.extension_path, "/x/ext/herdr.ts");
    assert!(r.removed_extension);
    assert!(!uninstall_pi("/x/ext/", Ok(false)).unwrap().removed_extension);
    assert_eq!(uninstall_pi("/x", Err(failure("denied"))).unwrap_err(), failure("denied"));
    assert_eq!(omp_extension_path("/o/"), "/o/herdr-omp.ts");
    assert_eq!(uninstall_omp("/o", Ok(true)).unwrap().extension_path, "/o/herdr-omp.ts");
    assert_eq!(uninstall_omp("/o", Err(failure("e"))).unwrap_err().message, "e");
}

#[test]
fn kilo() {
    assert_eq!(kilo_plugin_path("/k"), "/k/plugin/herdr.js");
    let r = uninstall_kilo("/k", Ok(false)).unwrap();
    assert_eq!(r.plugin_path, "/k/plugin/herdr.js");
    assert!(!r.removed_plugin);
    assert!(uninstall_kilo("/k", Err(failure("x"))).is_err());
}

#[test]
fn grok() {
    let (hook, config) = grok_paths("/g");
    assert_eq!(hook, "/g/hooks/herdr-agent-state.sh");
    assert_eq!(config, "/g/hooks/herdr.json");
    assert_eq!(
        uninstall_grok("/g", Ok(true), Ok(false)).unwrap(),
        GrokUninstallResult {
            hook_path: hook,
            config_path: config,
            removed_hook_file: false,
            removed_config_file: true,
        }
    );
    assert_eq!(uninstall_grok("/g", Err(failure("c")), Err(failure("h"))).unwrap_err().message, "c");
    assert_eq!(uninstall_grok("/g", Ok(true), Err(failure("h"))).unwrap_err().message, "h");
}

#[test]
fn opencode_success() {
    let (plugin, tui, v2) = opencode_paths("/oc");
    assert_eq!(plugin, "/oc/plugins/herdr.js");
    assert_eq!(tui, "/oc/herdr-tui.js");
    assert_eq!(v2, "/oc/herdr-tui");
    let r = uninstall_opencode(
        "/oc",
        Ok(true),
        Ok(true),
        Ok(vec!["/oc/tui.json".to_string()]),
        Ok(true),
        Ok(false),
    )
    .unwrap();
    assert_eq!(
        r,
        OpenCodeUninstallResult {
            plugin_path: plugin,
            tui_plugin_path: tui,
            removed_plugin: true,
            removed_tui_plugin: false,
            updated_tui_configs: vec!["/oc/tui.json".to_string()],
        }
    );
}

#[test]
fn opencode_collects_every_failure() {
    let e = uninstall_opencode(
        "/oc",
        Err(failure("cli broke")),
        Err(failure("busy")),
        Ok(Vec::new()),
        Ok(true),
        Err(failure("gone")),
    )
    .unwrap_err();
    assert_eq!(e.kind, ErrorKind::Other);
    assert_eq!(
        e.message,
        "cli broke; failed to remove /oc/herdr-tui: busy; failed to remove /oc/herdr-tui.js: gone"
    );
    let e = uninstall_opencode("/oc", Ok(false), Ok(false), Err(failure("tui")), Ok(false), Ok(false))
        .unwrap_err();
    assert_eq!(e.message, "tui");
}
