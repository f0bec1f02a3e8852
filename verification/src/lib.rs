//! Client-side session pool for a remote streaming speech-synthesis service.
//!
//! Sessions to the remote service are slow to open and usable exactly once,
//! so a bounded pool keeps pre-opened sessions ready: a background warmer
//! supplies them, requests consume them freshest-first, and suspect sessions
//! are shed oldest-first.  A rolling latency tracker re-tunes the per-request
//! wait bound from observed successful latencies.
//!
//! - [`codec`] builds the outbound wire frames and decodes the inbound
//!   stream of one session.
//! - [`pool`] holds the bounded, ordered supply of ready sessions and the
//!   warmer that refills it.
//! - [`tracker`] records per-request latency samples and derives the
//!   adaptive wait bound.
//! - [`dispatch`] ties them together on the request path and routes across
//!   several independent pool instances.

pub mod codec;
pub mod dispatch;
pub mod pool;
pub mod tracker;
