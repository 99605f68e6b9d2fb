//! Self-hosted public URLs for localhost: the verified core of the relay and of
//! its client.

pub mod client;
pub mod close_codes;
pub mod environment;
pub mod headers;
pub mod html;
pub mod message;
pub mod outside;
pub mod page_laws;
pub mod proto;
pub mod proto_laws;
pub mod relay;
pub mod seq_laws;
pub mod seqs;
pub mod text;
pub mod text_laws;
pub mod tunnel_laws;
pub mod wire_laws;
