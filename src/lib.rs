//! Fallback-aware RPC dispatch for a DAG consensus network layer.
//!
//! The library holds the decisions: which candidate to contact next, when a
//! pulled result is ready, what a raw reply means. The caller performs the
//! network calls and the timer, and reports what happened.
pub mod crawler;
pub mod message;
pub mod session;
