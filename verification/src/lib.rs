//! A verified message-interception core for a stdio LSP proxy that sits
//! between an editor and the Roslyn language server.
//!
//! The crate models JSON-RPC messages, the length-prefixed framing, the
//! bidirectional request-id mapping, and the ordered interceptor pipeline
//! that rewrites, blocks, answers, or injects messages in flight.

pub mod csharp;
pub mod debugger;
pub mod framing;
pub mod id_mapper;
pub mod json;
pub mod message;
pub mod middleware;
pub mod nuget;
pub mod platform;
pub mod project_info;
pub mod router;
pub mod text;
