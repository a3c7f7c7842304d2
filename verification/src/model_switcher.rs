//! Several models that share the same hardware, of which one is awake at a time.
//!
//! A request for a model that is asleep waits while the model that is awake is put to sleep and
//! the other is woken. A policy decides when that happens; callbacks do it.
pub mod callbacks;
pub mod policy;
pub mod switcher;
pub mod vllm;
