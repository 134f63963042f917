//! A compiler from smart-contract interface metadata to typed client bindings.
//!
//! Given a metadata document (a type registry plus a list of constructors,
//! messages and events), the library resolves every referenced type,
//! classifies the entry points, and emits one self-contained source module
//! with data-type declarations, an event enum, an `Instance` handle and one
//! method per entry point.  The call/request values that the emitted module
//! hands to a connection are also defined here.

pub mod errors;
pub mod metadata;
pub mod strutil;
pub mod hexdata;
pub mod typeref;
pub mod classify;
pub mod codegen;
pub mod calls;
pub mod encode;
pub mod events;
pub mod connection;
