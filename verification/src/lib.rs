//! A verified host/service discovery engine.
//!
//! Given a target specification (a CIDR block, an explicit address list, a
//! single host, or a set of ports), the library enumerates discrete probe
//! targets, drives a cancellable scan run, and streams per-target outcomes
//! through an ordered result sink.  The actual probing (ICMP echo, TCP
//! connect, route tracing) is external I/O performed by the caller, which
//! feeds each probe's result back into the controller.

pub mod addr;
pub mod config;
pub mod engine;
pub mod errors;
pub mod sink;
pub mod target;
pub mod text;
pub mod utils;
