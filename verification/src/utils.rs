//! Small shared helpers: timeout unit conversion, line sanitation, the
//! argument shaping for the platform reachability and route-tracing
//! utilities, and port-list parsing.

use vstd::prelude::*;
use crate::errors::ScanError;
use crate::text::{
    all_digits, dec_of, dec_val, find_char, first_sep_index, parse_dec_u32, split_at_seps,
    split_str, trim_str, trimmed, u32_to_dec,
};

verus! {

/// `ms` milliseconds expressed in whole seconds, rounded up, with a floor
/// of one second.
pub open spec fn secs_ceil(ms: int) -> int {
    if (ms + 999) / 1000 < 1 {
        1
    } else {
        (ms + 999) / 1000
    }
}

/// Converts milliseconds to seconds, rounding up, with a minimum of 1 second.
pub fn ms_to_secs_ceil(ms: u32) -> (secs: u32)
    ensures
        secs as int == secs_ceil(ms as int),
{
    if ms <= 1000 {
        1
    } else {
        (ms - 1) / 1000 + 1
    }
}

/// The ceiling conversion always rounds up and never returns less than one
/// second: the result covers `ms`, and no smaller positive second count does.
pub proof fn lemma_secs_ceil_rounds_up(ms: int)
    requires
        ms >= 0,
    ensures
        secs_ceil(ms) >= 1,
        secs_ceil(ms) * 1000 >= ms,
        secs_ceil(ms) > 1 ==> (secs_ceil(ms) - 1) * 1000 < ms,
{
    vstd::arithmetic::div_mod::lemma_fundamental_div_mod(ms + 999, 1000);
}

/// Trims a line and returns `None` if it is empty after trimming.
pub fn sanitize_line(s: &str) -> (r: Option<String>)
    ensures
        match r {
            Some(t) => trimmed(s@).len() > 0 && t@ == trimmed(s@),
            None => trimmed(s@).len() == 0,
        },
{
    let t = trim_str(s);
    if t.as_str().unicode_len() == 0 {
        None
    } else {
        Some(t)
    }
}

/// Builds the echo-request arguments for the Windows family:
/// `-n <count> -w <timeout in ms> <address>`.
pub fn ping_args_windows(count: u32, timeout_ms: u32, ip: &str) -> (args: Vec<String>)
    ensures
        args@.len() == 5,
        args@[0]@ == "-n"@,
        args@[1]@ == dec_of(count as int),
        args@[2]@ == "-w"@,
        args@[3]@ == dec_of(timeout_ms as int),
        args@[4]@ == ip@,
{
    let mut args: Vec<String> = Vec::new();
    args.push(String::from_str("-n"));
    args.push(u32_to_dec(count));
    args.push(String::from_str("-w"));
    args.push(u32_to_dec(timeout_ms));
    args.push(String::from_str(ip));
    args
}

/// Builds the echo-request arguments for the Unix family:
/// `-c <count> -W <timeout in whole seconds, rounded up> <address>`.
pub fn ping_args_unix(count: u32, timeout_ms: u32, ip: &str) -> (args: Vec<String>)
    ensures
        args@.len() == 5,
        args@[0]@ == "-c"@,
        args@[1]@ == dec_of(count as int),
        args@[2]@ == "-W"@,
        args@[3]@ == dec_of(secs_ceil(timeout_ms as int)),
        args@[4]@ == ip@,
{
    let secs = ms_to_secs_ceil(timeout_ms);
    let mut args: Vec<String> = Vec::new();
    args.push(String::from_str("-c"));
    args.push(u32_to_dec(count));
    args.push(String::from_str("-W"));
    args.push(u32_to_dec(secs));
    args.push(String::from_str(ip));
    args
}

/// Builds the route-tracing arguments for the Windows family:
/// `[-d] -h <max hops> -w <timeout in ms> <target>`, where `-d` suppresses
/// reverse name resolution.
pub fn tracert_args_windows(max_hops: u32, timeout_ms: u32, resolve_dns: bool, target: &str) -> (args:
    Vec<String>)
    ensures
        resolve_dns ==> args@.len() == 5 && args@[0]@ == "-h"@ && args@[1]@ == dec_of(
            max_hops as int,
        ) && args@[2]@ == "-w"@ && args@[3]@ == dec_of(timeout_ms as int) && args@[4]@ == target@,
        !resolve_dns ==> args@.len() == 6 && args@[0]@ == "-d"@ && args@[1]@ == "-h"@ && args@[2]@
            == dec_of(max_hops as int) && args@[3]@ == "-w"@ && args@[4]@ == dec_of(
            timeout_ms as int,
        ) && args@[5]@ == target@,
{
    let mut args: Vec<String> = Vec::new();
    if !resolve_dns {
        args.push(String::from_str("-d"));
    }
    args.push(String::from_str("-h"));
    args.push(u32_to_dec(max_hops));
    args.push(String::from_str("-w"));
    args.push(u32_to_dec(timeout_ms));
    args.push(String::from_str(target));
    args
}

/// Builds the route-tracing arguments for the Unix family:
/// `[-n] -m <max hops> -w <timeout in whole seconds, rounded up> <target>`,
/// where `-n` suppresses reverse name resolution.
pub fn traceroute_args_unix(max_hops: u32, timeout_ms: u32, resolve_dns: bool, target: &str) -> (args:
    Vec<String>)
    ensures
        resolve_dns ==> args@.len() == 5 && args@[0]@ == "-m"@ && args@[1]@ == dec_of(
            max_hops as int,
        ) && args@[2]@ == "-w"@ && args@[3]@ == dec_of(secs_ceil(timeout_ms as int)) && args@[4]@
            == target@,
        !resolve_dns ==> args@.len() == 6 && args@[0]@ == "-n"@ && args@[1]@ == "-m"@ && args@[2]@
            == dec_of(max_hops as int) && args@[3]@ == "-w"@ && args@[4]@ == dec_of(
            secs_ceil(timeout_ms as int),
        ) && args@[5]@ == target@,
{
    let mut args: Vec<String> = Vec::new();
    if !resolve_dns {
        args.push(String::from_str("-n"));
    }
    args.push(String::from_str("-m"));
    args.push(u32_to_dec(max_hops));
    let secs = ms_to_secs_ceil(timeout_ms);
    args.push(String::from_str("-w"));
    args.push(u32_to_dec(secs));
    args.push(String::from_str(target));
    args
}

/// Whether `t` is a valid port number token: a non-empty digit string
/// whose value is at most 65535.
pub open spec fn valid_port_num(t: Seq<char>) -> bool {
    t.len() > 0 && all_digits(t) && dec_val(t) <= 65535
}

/// The inclusive port range a trimmed, non-empty token denotes: a single
/// port stands for itself, `a-b` for the range from `a` to `b`.  `None`
/// when the token is malformed, out of range, or inverted.
pub open spec fn token_range(t: Seq<char>) -> Option<(int, int)> {
    let i = first_sep_index(t, '-');
    if i < t.len() {
        let a = trimmed(t.subrange(0, i));
        let b = trimmed(t.subrange(i + 1, t.len() as int));
        if valid_port_num(a) && valid_port_num(b) && dec_val(a) <= dec_val(b) {
            Some((dec_val(a), dec_val(b)))
        } else {
            None
        }
    } else {
        if valid_port_num(t) {
            Some((dec_val(t), dec_val(t)))
        } else {
            None
        }
    }
}

/// `acc` extended with the ports `lo..=hi`, in order, skipping any port
/// already present.
pub open spec fn add_ports(acc: Seq<u16>, lo: int, hi: int) -> Seq<u16>
    decreases hi - lo,
{
    if lo > hi || lo < 0 || hi > 65535 {
        acc
    } else {
        let acc1 = if acc.contains(lo as u16) {
            acc
        } else {
            acc.push(lo as u16)
        };
        if lo == hi {
            acc1
        } else {
            add_ports(acc1, lo + 1, hi)
        }
    }
}

/// Folds the comma-separated tokens into the accumulated port list:
/// blank tokens are skipped, each valid token contributes its range with
/// duplicates suppressed, and the first malformed token (trimmed) aborts
/// the fold.
pub open spec fn ports_fold(acc: Seq<u16>, tokens: Seq<Seq<char>>) -> Result<Seq<u16>, Seq<char>>
    decreases tokens.len(),
{
    if tokens.len() == 0 {
        Ok(acc)
    } else {
        let t = trimmed(tokens[0]);
        if t.len() == 0 {
            ports_fold(acc, tokens.drop_first())
        } else {
            match token_range(t) {
                Some(r) => ports_fold(add_ports(acc, r.0, r.1), tokens.drop_first()),
                None => Err(t),
            }
        }
    }
}

/// The port list denoted by `s`: its comma-separated tokens folded into a
/// deduplicated, first-seen-order list, or the first offending token.
pub open spec fn ports_of_spec(s: Seq<char>) -> Result<Seq<u16>, Seq<char>> {
    ports_fold(Seq::<u16>::empty(), split_at_seps(s, ','))
}

/// Whether `v` holds `x`.
fn vec_contains_u16(v: &Vec<u16>, x: u16) -> (r: bool)
    ensures
        r == v@.contains(x),
{
    let mut k: usize = 0;
    while k < v.len()
        invariant
            0 <= k <= v@.len(),
            forall|j: int| 0 <= j < k ==> v@[j] != x,
        decreases v@.len() - k,
    {
        if v[k] == x {
            return true;
        }
        k = k + 1;
    }
    false
}

/// Parses a trimmed token as a port number; `None` exactly when the token
/// is not a valid port.
fn parse_port_num(t: &str) -> (r: Option<u16>)
    ensures
        match r {
            Some(v) => valid_port_num(t@) && v as int == dec_val(t@),
            None => !valid_port_num(t@),
        },
{
    match parse_dec_u32(t) {
        Some(v) => {
            if v <= 65535 {
                Some(v as u16)
            } else {
                None
            }
        },
        None => None,
    }
}

/// Parses a trimmed, non-empty token as a port or an inclusive port range;
/// `None` exactly when the token denotes neither.
fn parse_token_range(t: &str) -> (r: Option<(u16, u16)>)
    ensures
        match r {
            Some(pr) => token_range(t@) == Some((pr.0 as int, pr.1 as int)),
            None => token_range(t@) is None,
        },
{
    let dash = find_char(t, '-');
    let n = t.unicode_len();
    if dash < n {
        let a = trim_str(t.substring_char(0, dash));
        let b = trim_str(t.substring_char(dash + 1, n));
        match (parse_port_num(a.as_str()), parse_port_num(b.as_str())) {
            (Some(va), Some(vb)) => {
                if va <= vb {
                    Some((va, vb))
                } else {
                    None
                }
            },
            _ => None,
        }
    } else {
        match parse_port_num(t) {
            Some(v) => Some((v, v)),
            None => None,
        }
    }
}

/// Extends `out` with the ports `lo..=hi` in order, skipping any port
/// already present.
fn push_port_range(out: &mut Vec<u16>, lo: u16, hi: u16)
    requires
        lo <= hi,
    ensures
        final(out)@ == add_ports(old(out)@, lo as int, hi as int),
{
    let ghost out_before = out@;
    let mut p: u32 = lo as u32;
    while p <= hi as u32
        invariant
            lo as int <= p as int <= hi as int + 1,
            hi <= 65535,
            add_ports(out_before, lo as int, hi as int) == add_ports(out@, p as int, hi as int),
        decreases hi as int + 1 - p as int,
    {
        let ghost prev = out@;
        if !vec_contains_u16(out, p as u16) {
            out.push(p as u16);
        }
        proof {
            assert((p as int) as u16 == p as u16);
            let acc1: Seq<u16> = if prev.contains((p as int) as u16) {
                prev
            } else {
                prev.push((p as int) as u16)
            };
            assert(out@ == acc1);
            assert(add_ports(prev, p as int, hi as int) == (if p as int == hi as int {
                acc1
            } else {
                add_ports(acc1, p as int + 1, hi as int)
            }));
        }
        p = p + 1;
    }
    proof {
        assert(add_ports(out@, p as int, hi as int) == out@);
    }
}

/// Parses a port list string such as `22,80,443` or with ranges such as
/// `8000-8010`.  Returns the ports in first-seen order with duplicates
/// suppressed, or the first malformed, out-of-range or inverted token as
/// an `InvalidSpec` error.
pub fn parse_ports(s: &str) -> (r: Result<Vec<u16>, ScanError>)
    ensures
        match r {
            Ok(v) => ports_of_spec(s@) == Ok::<Seq<u16>, Seq<char>>(v@),
            Err(ScanError::InvalidSpec(t)) => ports_of_spec(s@) == Err::<Seq<u16>, Seq<char>>(t@),
        },
{
    let tokens = split_str(s, ',');
    let ghost toks: Seq<Seq<char>> = tokens@.map_values(|t: String| t@);
    let mut out: Vec<u16> = Vec::new();
    let mut idx: usize = 0;
    proof {
        assert(toks.subrange(0, toks.len() as int) =~= toks);
        assert(out@ =~= Seq::<u16>::empty());
    }
    while idx < tokens.len()
        invariant
            0 <= idx <= tokens@.len(),
            toks == tokens@.map_values(|t: String| t@),
            toks == split_at_seps(s@, ','),
            ports_of_spec(s@) == ports_fold(out@, toks.subrange(idx as int, toks.len() as int)),
        decreases tokens@.len() - idx,
    {
        let ghost suffix = toks.subrange(idx as int, toks.len() as int);
        proof {
            assert(suffix[0] == toks[idx as int]);
            assert(suffix.drop_first() =~= toks.subrange(idx + 1, toks.len() as int));
        }
        let tok = trim_str(tokens[idx].as_str());
        if tok.as_str().unicode_len() == 0 {
            proof {
                assert(ports_fold(out@, suffix) == ports_fold(out@, suffix.drop_first()));
            }
        } else {
            match parse_token_range(tok.as_str()) {
                Some((lo, hi)) => {
                    proof {
                        assert(ports_fold(out@, suffix) == ports_fold(
                            add_ports(out@, lo as int, hi as int),
                            suffix.drop_first(),
                        ));
                    }
                    push_port_range(&mut out, lo, hi);
                },
                None => {
                    proof {
                        assert(ports_fold(out@, suffix) == Err::<Seq<u16>, Seq<char>>(tok@));
                    }
                    return Err(ScanError::InvalidSpec(tok));
                },
            }
        }
        idx = idx + 1;
    }
    proof {
        assert(toks.subrange(toks.len() as int, toks.len() as int) =~= Seq::<Seq<char>>::empty());
    }
    Ok(out)
}

} // verus!
