//! Core of a market chat bot: a TTL cache coordinator that serves
//! upstream data within caller-chosen freshness windows, the pure
//! presentation filters that turn JSON scalars into chat text, and the
//! responder decisions that tie commands to cache keys and endpoints.
pub mod cache;
pub mod escape;
pub mod filters;
pub mod fixed;
pub mod fmt;
pub mod parse;
pub mod responder;
pub mod text;
