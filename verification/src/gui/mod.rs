//! The web interface: who may use it, and what it answers.

pub mod auth;
pub mod config_api;
pub mod json;
pub mod login;
pub mod reply;
pub mod server;
pub mod waveform;
