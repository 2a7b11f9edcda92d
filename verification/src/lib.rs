pub mod text;
pub mod json;
pub mod digest;
pub mod names;
pub mod trae;
pub mod trae_laws;
pub mod error;
pub mod paths;
pub mod uninstall;
pub mod hooks;
pub mod trae_cli;
pub mod letta;
pub mod install;
pub mod hook_plans;
pub mod hook_plan_laws;
pub mod letta_laws;
pub mod hook_edit;
pub mod hook_files;
