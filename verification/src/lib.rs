//! Core logic of a terminal client for a local model-serving daemon.
//!
//! The heart of the crate is the streamed chat pipeline: a line-delimited
//! event decoder ([`decode`]), a bounded relay that carries decoded events
//! from the streaming transport task to the session engine ([`api`]), and a
//! multi-session conversational state machine ([`chat`], [`app`]).  Network
//! transport and terminal rendering live in the host application; this crate
//! holds the decisions and the data they act on.

pub mod api;
pub mod app;
pub mod chat;
pub mod decode;
pub mod text;
pub mod ui;
