//! Core of a small AI coding-assistant: a bounded conversation controller
//! that drives a language-model backend, a dispatcher that routes the
//! model's tool calls, and a sandboxed read-only codebase crawler.
//!
//! Everything that computes or decides lives here, with contracts; the
//! process edges (HTTP transport, stdin/stdout, scaffolding of config
//! files) live in the surrounding binary.

use vstd::prelude::*;

pub mod bootstrap;
pub mod controller;
pub mod crawler;
pub mod dispatcher;
pub mod jsonio;
pub mod messages;
pub mod response;
pub mod prompts;
pub mod rank;
pub mod strutil;

verus! {

} // verus!
