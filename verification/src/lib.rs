//! Gatekeeper: the verified core of an infrastructure health monitor and
//! self-healing engine, with its configuration model and setup wizard.

pub mod text;
pub mod config;
pub mod text_map;
pub mod checker;
pub mod cli;
pub mod log_appender;
pub mod healer;
pub mod monitor;
pub mod tui;
pub mod config_wizard;
pub mod wizard_laws;
