//! Core of an HTTP/1.x reverse-proxy load balancer.
//!
//! The crate holds the decision logic of the proxy: the pool of upstream
//! addresses with its healthy subset, the per-client rate limiter, the
//! per-connection session state machine, the request model with the
//! `X-Forwarded-For` handling, and the health-check admission rule.
//! All socket work is left to the surrounding program, which feeds the
//! outcomes of its reads, writes and dials back into these functions.
//!
//! A few small verified helpers live beside the proxy core.

pub mod bytes;
pub mod config;
pub mod health;
pub mod httpmsg;
pub mod limiter;
pub mod pmap;
pub mod pool;
pub mod session;
pub mod util;
pub mod warmup;
