//! Semantic validation: a walk over a message and what it holds, in a fixed
//! order, that stops at the first rule that is broken.

pub mod common;
pub mod logs;
pub mod metrics;
pub mod trace;
pub mod walk;
