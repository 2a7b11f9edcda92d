//! Uninstallers that only delete files herdr owns. Each one is given the
//! agent directory and what deleting each file gave, in the order in which
//! the files are deleted, and reports what it did.
use vstd::prelude::*;
use crate::error::InstallError;
use crate::names::{
    GROK_HOOK_CONFIG_INSTALL_NAME, GROK_HOOK_INSTALL_NAME, KILO_PLUGIN_INSTALL_NAME,
    OMP_EXTENSION_INSTALL_NAME, OPENCODE_PLUGIN_INSTALL_NAME, OPENCODE_TUI_PLUGIN_INSTALL_NAME,
    OPENCODE_V2_TUI_PLUGIN_DIR, PI_EXTENSION_INSTALL_NAME,
};
use crate::paths::{join_path, join_path_spec};
use crate::text::{join_sep, join_strings};

verus! {

#[derive(Debug, PartialEq, Eq)]
pub struct PiUninstallResult {
    pub extension_path: String,
    pub removed_extension: bool,
}

#[derive(Debug, PartialEq, Eq)]
pub struct OmpUninstallResult {
    pub extension_path: String,
    pub removed_extension: bool,
}

#[derive(Debug, PartialEq, Eq)]
pub struct KiloUninstallResult {
    pub plugin_path: String,
    pub removed_plugin: bool,
}

#[derive(Debug, PartialEq, Eq)]
pub struct GrokUninstallResult {
    pub hook_path: String,
    pub config_path: String,
    pub removed_hook_file: bool,
    pub removed_config_file: bool,
}

#[derive(Debug, PartialEq, Eq)]
pub struct OpenCodeUninstallResult {
    pub plugin_path: String,
    pub tui_plugin_path: String,
    pub removed_plugin: bool,
    pub removed_tui_plugin: bool,
    pub updated_tui_configs: Vec<String>,
}

// ---------------------------------------------------------------------------
// Pi, OMP and Kilo
// ---------------------------------------------------------------------------

/// The Pi extension file in the Pi extension directory.
pub fn pi_extension_path(extension_dir: &str) -> (r: String)
    ensures
        r@ == join_path_spec(extension_dir@, PI_EXTENSION_INSTALL_NAME@),
{
    join_path(extension_dir, PI_EXTENSION_INSTALL_NAME)
}

/// Removes the Pi extension: `removal` is what deleting
/// `pi_extension_path(extension_dir)` gave.
pub fn uninstall_pi(extension_dir: &str, removal: Result<bool, InstallError>) -> (r: Result<
    PiUninstallResult,
    InstallError,
>)
    ensures
        match removal {
            Ok(removed) => r matches Ok(res) && res.extension_path@ == join_path_spec(
                extension_dir@,
                PI_EXTENSION_INSTALL_NAME@,
            ) && res.removed_extension == removed,
            Err(e) => r == Err::<PiUninstallResult, InstallError>(e),
        },
{
    let extension_path = pi_extension_path(extension_dir);
    let removed_extension = removal?;
    Ok(PiUninstallResult { extension_path, removed_extension })
}

/// The OMP extension file in the OMP extension directory.
pub fn omp_extension_path(extension_dir: &str) -> (r: String)
    ensures
        r@ == join_path_spec(extension_dir@, OMP_EXTENSION_INSTALL_NAME@),
{
    join_path(extension_dir, OMP_EXTENSION_INSTALL_NAME)
}

/// Removes the OMP extension: `removal` is what deleting
/// `omp_extension_path(extension_dir)` gave.
pub fn uninstall_omp(extension_dir: &str, removal: Result<bool, InstallError>) -> (r: Result<
    OmpUninstallResult,
    InstallError,
>)
    ensures
        match removal {
            Ok(removed) => r matches Ok(res) && res.extension_path@ == join_path_spec(
                extension_dir@,
                OMP_EXTENSION_INSTALL_NAME@,
            ) && res.removed_extension == removed,
            Err(e) => r == Err::<OmpUninstallResult, InstallError>(e),
        },
{
    let extension_path = omp_extension_path(extension_dir);
    let removed_extension = removal?;
    Ok(OmpUninstallResult { extension_path, removed_extension })
}

/// `{kilo dir}/plugin/{KILO_PLUGIN_INSTALL_NAME}`.
pub open spec fn kilo_plugin_path_spec(kilo_dir: Seq<char>) -> Seq<char> {
    join_path_spec(join_path_spec(kilo_dir, "plugin"@), KILO_PLUGIN_INSTALL_NAME@)
}

/// The Kilo plugin file.
pub fn kilo_plugin_path(kilo_dir: &str) -> (r: String)
    ensures
        r@ == kilo_plugin_path_spec(kilo_dir@),
{
    let plugins = join_path(kilo_dir, "plugin");
    join_path(plugins.as_str(), KILO_PLUGIN_INSTALL_NAME)
}

/// Removes the Kilo plugin: `removal` is what deleting
/// `kilo_plugin_path(kilo_dir)` gave.
pub fn uninstall_kilo(kilo_dir: &str, removal: Result<bool, InstallError>) -> (r: Result<
    KiloUninstallResult,
    InstallError,
>)
    ensures
        match removal {
            Ok(removed) => r matches Ok(res) && res.plugin_path@ == kilo_plugin_path_spec(kilo_dir@)
                && res.removed_plugin == removed,
            Err(e) => r == Err::<KiloUninstallResult, InstallError>(e),
        },
{
    let plugin_path = kilo_plugin_path(kilo_dir);
    let removed_plugin = removal?;
    Ok(KiloUninstallResult { plugin_path, removed_plugin })
}

// ---------------------------------------------------------------------------
// Grok
// ---------------------------------------------------------------------------

/// `{grok dir}/hooks/{GROK_HOOK_INSTALL_NAME}`.
pub open spec fn grok_hook_path_spec(grok_dir: Seq<char>) -> Seq<char> {
    join_path_spec(join_path_spec(grok_dir, "hooks"@), GROK_HOOK_INSTALL_NAME@)
}

/// `{grok dir}/hooks/{GROK_HOOK_CONFIG_INSTALL_NAME}`.
pub open spec fn grok_config_path_spec(grok_dir: Seq<char>) -> Seq<char> {
    join_path_spec(join_path_spec(grok_dir, "hooks"@), GROK_HOOK_CONFIG_INSTALL_NAME@)
}

/// The Grok hook script and the herdr-owned Grok hook config.
pub fn grok_paths(grok_dir: &str) -> (r: (String, String))
    ensures
        r.0@ == grok_hook_path_spec(grok_dir@),
        r.1@ == grok_config_path_spec(grok_dir@),
{
    let hooks_dir = join_path(grok_dir, "hooks");
    let hook_path = join_path(hooks_dir.as_str(), GROK_HOOK_INSTALL_NAME);
    let config_path = join_path(hooks_dir.as_str(), GROK_HOOK_CONFIG_INSTALL_NAME);
    (hook_path, config_path)
}

/// Removes both herdr-owned Grok files, the config first: `config_removal`
/// is what deleting the config gave, and `hook_removal` what deleting the
/// hook script then gave (not consulted when the config could not be
/// deleted).
pub fn uninstall_grok(
    grok_dir: &str,
    config_removal: Result<bool, InstallError>,
    hook_removal: Result<bool, InstallError>,
) -> (r: Result<GrokUninstallResult, InstallError>)
    ensures
        match (config_removal, hook_removal) {
            (Err(e), _) => r == Err::<GrokUninstallResult, InstallError>(e),
            (Ok(_), Err(e)) => r == Err::<GrokUninstallResult, InstallError>(e),
            (Ok(config), Ok(hook)) => r matches Ok(res) && res.hook_path@ == grok_hook_path_spec(
                grok_dir@,
            ) && res.config_path@ == grok_config_path_spec(grok_dir@) && res.removed_config_file
                == config && res.removed_hook_file == hook,
        },
{
    let (hook_path, config_path) = grok_paths(grok_dir);
    let removed_config_file = config_removal?;
    let removed_hook_file = hook_removal?;
    Ok(GrokUninstallResult { hook_path, config_path, removed_hook_file, removed_config_file })
}

// ---------------------------------------------------------------------------
// OpenCode
// ---------------------------------------------------------------------------

/// `{opencode dir}/plugins/{OPENCODE_PLUGIN_INSTALL_NAME}`.
pub open spec fn opencode_plugin_path_spec(dir: Seq<char>) -> Seq<char> {
    join_path_spec(join_path_spec(dir, "plugins"@), OPENCODE_PLUGIN_INSTALL_NAME@)
}

/// `{opencode dir}/{OPENCODE_TUI_PLUGIN_INSTALL_NAME}`.
pub open spec fn opencode_tui_plugin_path_spec(dir: Seq<char>) -> Seq<char> {
    join_path_spec(dir, OPENCODE_TUI_PLUGIN_INSTALL_NAME@)
}

/// `{opencode dir}/{OPENCODE_V2_TUI_PLUGIN_DIR}`.
pub open spec fn opencode_v2_dir_spec(dir: Seq<char>) -> Seq<char> {
    join_path_spec(dir, OPENCODE_V2_TUI_PLUGIN_DIR@)
}

/// The OpenCode plugin file, the TUI plugin file and the v2 TUI plugin
/// directory.
pub fn opencode_paths(dir: &str) -> (r: (String, String, String))
    ensures
        r.0@ == opencode_plugin_path_spec(dir@),
        r.1@ == opencode_tui_plugin_path_spec(dir@),
        r.2@ == opencode_v2_dir_spec(dir@),
{
    let plugins = join_path(dir, "plugins");
    (
        join_path(plugins.as_str(), OPENCODE_PLUGIN_INSTALL_NAME),
        join_path(dir, OPENCODE_TUI_PLUGIN_INSTALL_NAME),
        join_path(dir, OPENCODE_V2_TUI_PLUGIN_DIR),
    )
}

/// The message of one failed step, if it failed.
pub open spec fn step_failure<T>(step: Result<T, InstallError>, what: Option<Seq<char>>) -> Seq<
    Seq<char>,
> {
    match step {
        Ok(_) => seq![],
        Err(e) => match what {
            None => seq![e.message@],
            Some(path) => seq!["failed to remove "@ + path + ": "@ + e.message@],
        },
    }
}

/// The messages of the failed OpenCode uninstall steps, in order.
pub open spec fn opencode_failures(
    dir: Seq<char>,
    cli: Result<bool, InstallError>,
    v2_dir: Result<bool, InstallError>,
    tui: Result<Vec<String>, InstallError>,
    plugin: Result<bool, InstallError>,
    tui_plugin: Result<bool, InstallError>,
) -> Seq<Seq<char>> {
    step_failure(cli, None) + step_failure(v2_dir, Some(opencode_v2_dir_spec(dir)))
        + step_failure(tui, None) + step_failure(plugin, Some(opencode_plugin_path_spec(dir)))
        + step_failure(tui_plugin, Some(opencode_tui_plugin_path_spec(dir)))
}

fn record_failure<T>(
    errors: &mut Vec<String>,
    step: &Result<T, InstallError>,
    what: Option<&str>,
)
    ensures
        final(errors)@.map_values(|l: String| l@) == old(errors)@.map_values(|l: String| l@)
            + step_failure(*step, match what {
            Some(p) => Some(p@),
            None => None,
        }),
{
    let ghost before = errors@;
    match step {
        Ok(_) => {
            assert(errors@.map_values(|l: String| l@) =~= before.map_values(|l: String| l@) + seq![]);
        },
        Err(e) => {
            let msg = match what {
                None => e.message.clone(),
                Some(path) => {
                    let mut m = "failed to remove ".to_owned();
                    m.append(path);
                    m.append(": ");
                    m.append(e.message.as_str());
                    m
                },
            };
            errors.push(msg);
            assert(errors@.map_values(|l: String| l@) =~= before.map_values(|l: String| l@).push(
                msg@,
            ));
        },
    }
}

/// Removes the OpenCode integration. Every step is tried whatever the
/// others gave: `cli` is what unregistering the CLI plugin gave, `v2_dir`
/// what deleting the v2 TUI plugin directory gave, `tui` what unregistering
/// the TUI plugin gave (the configs it changed), `plugin` and `tui_plugin`
/// what deleting the two plugin files gave. Any failure makes the whole
/// call fail with every failure's message, joined by `"; "`.
pub fn uninstall_opencode(
    dir: &str,
    cli: Result<bool, InstallError>,
    v2_dir: Result<bool, InstallError>,
    tui: Result<Vec<String>, InstallError>,
    plugin: Result<bool, InstallError>,
    tui_plugin: Result<bool, InstallError>,
) -> (r: Result<OpenCodeUninstallResult, InstallError>)
    ensures
        ({
            let failures = opencode_failures(dir@, cli, v2_dir, tui, plugin, tui_plugin);
            if failures.len() > 0 {
                r matches Err(e) && e.kind == crate::error::ErrorKind::Other && e.message@
                    == join_sep(failures, "; "@)
            } else {
                r matches Ok(res) && res.plugin_path@ == opencode_plugin_path_spec(dir@)
                    && res.tui_plugin_path@ == opencode_tui_plugin_path_spec(dir@)
                    && plugin == Ok::<bool, InstallError>(res.removed_plugin) && tui_plugin == Ok::<
                    bool,
                    InstallError,
                >(res.removed_tui_plugin) && tui == Ok::<Vec<String>, InstallError>(
                    res.updated_tui_configs,
                )
            }
        }),
{
    let (plugin_path, tui_plugin_path, v2_path) = opencode_paths(dir);
    let mut errors: Vec<String> = Vec::new();
    assert(errors@.map_values(|l: String| l@) =~= Seq::<Seq<char>>::empty());
    record_failure(&mut errors, &cli, None);
    record_failure(&mut errors, &v2_dir, Some(v2_path.as_str()));
    record_failure(&mut errors, &tui, None);
    record_failure(&mut errors, &plugin, Some(plugin_path.as_str()));
    record_failure(&mut errors, &tui_plugin, Some(tui_plugin_path.as_str()));
    assert(errors@.map_values(|l: String| l@) =~= opencode_failures(
        dir@,
        cli,
        v2_dir,
        tui,
        plugin,
        tui_plugin,
    ));
    if errors.len() > 0 {
        return Err(InstallError::other(join_strings(&errors, "; ")));
    }
    match (tui, plugin, tui_plugin) {
        (Ok(updated_tui_configs), Ok(removed_plugin), Ok(removed_tui_plugin)) => {
            Ok(OpenCodeUninstallResult {
                plugin_path,
                tui_plugin_path,
                removed_plugin,
                removed_tui_plugin,
                updated_tui_configs,
            })
        },
        _ => {
            proof {
                assert(false);
            }
            Err(InstallError::other(String::new()))
        },
    }
}

} // verus!
