//! Built-in prompt templates, grouped by the workflow they serve.

pub mod agent;
pub mod covenant;
pub mod fusion;
pub mod strike;
