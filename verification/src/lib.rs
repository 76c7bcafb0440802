//! Context management, provider error handling, skills and tool plumbing for
//! stateful multi-turn LLM agents.
use vstd::prelude::*;

pub mod strs;
pub mod types;
pub mod json;
pub mod context;
pub mod provider;
pub mod tools;
pub mod session;
pub mod mcp;

verus! {
} // verus!
