//! A remote zero-knowledge proving service for an Aleo-style blockchain,
//! specified and verified around an opaque VM library.
//!
//! The crate holds the service's logic: typed configuration, the explorer
//! URL scheme, the program-resolution state machine with its registry
//! discipline, admission control for proving workers, the proving-pipeline
//! decisions, and the shaping of every HTTP response body.

pub mod config;
pub mod json;
pub mod explorer;
pub mod gate;
pub mod proving;
pub mod registry;
pub mod resolver;
pub mod urls;
pub mod response;
pub mod text;
