//! The client: it opens a tunnel and passes what comes through it to a local
//! server.

pub mod arg_laws;
pub mod args;
pub mod forward;
pub mod forward_laws;
pub mod laws;
pub mod pages;
pub mod tunnel;
pub mod tunnel_laws;
