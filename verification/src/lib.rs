//! State, rules and screens of a config-driven TCP port monitor.

pub mod app;
pub mod app_laws;
pub mod clock;
pub mod clock_laws;
pub mod config;
pub mod config_laws;
pub mod csv;
pub mod csv_laws;
pub mod group;
pub mod group_laws;
pub mod host;
pub mod host_laws;
pub mod hyperv;
pub mod hyperv_laws;
pub mod keys;
pub mod keys_laws;
pub mod network;
pub mod network_laws;
pub mod scan;
pub mod scan_laws;
pub mod startup;
pub mod startup_laws;
pub mod state_laws;
pub mod text;
pub mod text_laws;
pub mod ui;
pub mod ui_laws;
