//! A small load balancer core: an elastic worker pool together with the
//! line-oriented reading and header parsing that feed work to it.
//!
//! The pool itself is modelled as a state machine over its shared state
//! (pending tasks plus liveness counters); the runtime that spreads that
//! state machine over operating-system threads lives outside this crate.

pub mod balancer;
pub mod util;
