//! What operators and users do by hand, and what runs unattended.

pub mod admin;
pub mod admin_config;
pub mod arguments;
pub mod config;
pub mod environment;
pub mod federation;
pub mod governance;
pub mod services;
pub mod status;
pub mod submission;
pub mod sweep_approval;
pub mod sweep_execution;
pub mod token_metadata;
pub mod wallet;
pub mod withdraw_preflight;
