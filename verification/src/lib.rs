use vstd::prelude::*;

pub mod model;
pub mod action_policy;
pub mod bundle_identifier;
pub mod text;
pub mod clone_specs;
pub mod path;
pub mod safety;
pub mod planner;
pub mod order;
pub mod app_inventory;
pub mod app_protection;
pub mod related_files;
pub mod orphan;
pub mod uninstall_plan;
pub mod uninstall_execution;
pub mod cancellation;
pub mod scanner;
pub mod scan_delta;
pub mod target;
pub mod app_metadata;
pub mod launch_agent;
pub mod cli_args;
pub mod mac_platform;
pub mod listing;
pub mod mac_orphan;
pub mod mac_related;
pub mod mac_inventory;
pub mod windows;
pub mod windows_cleanup;
pub mod trust;
pub mod gui_state;
pub mod executor;

verus! {

} // verus!
