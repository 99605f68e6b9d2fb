//! The relay: it takes public requests and passes them through tunnels.

pub mod access;
pub mod access_laws;
pub mod config;
pub mod config_laws;
pub mod form_laws;
pub mod handler;
pub mod handler_laws;
pub mod http;
pub mod laws;
pub mod pages;
pub mod rate_limit;
pub mod registry;
pub mod registry_laws;
pub mod session;
pub mod session_laws;
