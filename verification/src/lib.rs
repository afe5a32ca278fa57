//! A content-addressed hygiene engine for text fragments.
//!
//! Each submitted fragment is given a deterministic identity (a SHA3-256 hash
//! and a short base64 fingerprint), classified by language, and then driven
//! through an absorb/requeue cycle against a hygiene threshold.  The cycle's
//! outcome is a fully specified function of the input batch, the threshold and
//! the iteration cap.

pub mod bridge;
pub mod config;
pub mod covenant;
pub mod engine;
pub mod fusion;
pub mod hosted;
pub mod identity;
pub mod language;
pub mod laws;
pub mod metrics;
pub mod mock_engine;
pub mod oauth;
pub mod orchestrate;
pub mod prompts;
pub mod resources;
pub mod score;
pub mod service_config;
pub mod strike;
pub mod tenant;
pub mod text;
pub mod wide;

pub use engine::{CycleEvent, FragmentInput, FragmentReport, HarpoonCycle, HarpoonEngine};
pub use identity::{compute_anchor_hash, compute_fingerprint, fragment_hash};
pub use text::token_count;
