//! Core of a protocol server that exposes two dynamically registered
//! capability registries — tools and prompts — over a request/response
//! protocol, and dispatches each request to a caller-supplied handler that
//! runs inside a lock-governed host interpreter.
//!
//! The embedding (transport, async runtime, host interpreter, OS signals)
//! stays outside; it drives this crate through plain values. What is here
//! is the logic: the JSON value model and the host-value marshalling
//! boundary with its round-trip laws (`json`, `host`), the name-keyed
//! registries with their map semantics (`registry`), the lenient
//! descriptor parsers (`schema`), the request-scoped invalidatable
//! capability (`capability`), the dispatcher for the four request kinds
//! (`dispatch`), the cooperative lifecycle (`lifecycle`), and the error
//! taxonomy with its exact messages (`error`).

pub mod capability;
pub mod dispatch;
pub mod error;
pub mod host;
pub mod json;
pub mod lifecycle;
pub mod registry;
pub mod schema;
