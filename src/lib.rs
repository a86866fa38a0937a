//! Runtime core of a distributed-tracing library: per-context scope stacks,
//! a registry of live root spans, a rate-limited probabilistic sampler, a
//! span factory feeding a bounded reporting channel, and the process-wide
//! harness with its once-only installation.
pub mod events;
pub mod harness;
pub mod lifecycle;
pub mod live_set;
pub mod sampler;
pub mod scope;
pub mod tracer;
