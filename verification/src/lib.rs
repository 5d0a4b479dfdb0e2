//! Launcher logic for running Roblox under Wine: directory layout, package
//! manifests, registry answers, version checks and the decisions of the launch.
pub mod text;
pub mod paths;
pub mod number;
pub mod app_data;
pub mod client_settings;
pub mod mirror;
pub mod download;
pub mod runner;
pub mod flog;
