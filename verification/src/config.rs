//! Probe configuration: the strategy a run uses, the numeric options it
//! recognizes, and the fallback rule for reading options from raw text.

use vstd::prelude::*;
use crate::text::{all_digits, dec_val, parse_dec_u32};

verus! {

/// The probe strategy of a run: ICMP echo, TCP connect, or route tracing.
#[derive(Clone, Copy, Debug, PartialEq, Eq, Structural)]
pub enum ProbeKind {
    Icmp,
    TcpConnect,
    RouteTrace,
}

/// The options of one scan run.
#[derive(Clone, Copy, Debug, PartialEq, Eq, Structural)]
pub struct ProbeConfig {
    /// How many echo requests each target receives (at least 1).
    pub repeat_count: u32,
    /// Per-attempt timeout in milliseconds (at least 1).
    pub timeout_ms: u32,
    /// Wait between successive probes, in milliseconds.
    pub interval_ms: u32,
    /// Echo payload size in bytes.
    pub payload_size: u32,
    /// Time-to-live for echo requests.
    pub time_to_live: u32,
    /// Hop limit for route tracing.
    pub max_hops: u32,
    /// Whether reverse name resolution is requested.
    pub resolve_dns: bool,
}

/// The documented default configuration.
pub open spec fn default_config() -> ProbeConfig {
    ProbeConfig {
        repeat_count: 1,
        timeout_ms: 1000,
        interval_ms: 0,
        payload_size: 64,
        time_to_live: 128,
        max_hops: 30,
        resolve_dns: true,
    }
}

impl Default for ProbeConfig {
    /// The default options: one echo request, a one-second timeout, no
    /// inter-probe wait, a 64-byte payload, a TTL of 128, a hop limit of
    /// 30, and name resolution on.
    fn default() -> (c: Self)
        ensures
            c == default_config(),
    {
        ProbeConfig {
            repeat_count: 1,
            timeout_ms: 1000,
            interval_ms: 0,
            payload_size: 64,
            time_to_live: 128,
            max_hops: 30,
            resolve_dns: true,
        }
    }
}

/// The value a raw option field denotes: its number when it is a positive
/// decimal, the field's default otherwise.
pub open spec fn config_value_spec(t: Seq<char>, default: int) -> int {
    if t.len() > 0 && all_digits(t) && 1 <= dec_val(t) <= u32::MAX {
        dec_val(t)
    } else {
        default
    }
}

/// Reads one numeric option from raw field text: the parsed value when the
/// text is a positive decimal number, and `default` otherwise (including
/// for zero, non-numeric or empty text).
pub fn config_value(text: &str, default: u32) -> (r: u32)
    ensures
        r as int == config_value_spec(text@, default as int),
{
    match parse_dec_u32(text) {
        Some(v) => {
            if v >= 1 {
                v
            } else {
                default
            }
        },
        None => default,
    }
}

} // verus!
