//! IPv4 addresses and CIDR blocks: parsing, dotted-decimal rendering, and
//! enumeration of the host addresses of a block (everything strictly
//! between the network and broadcast addresses, in ascending order).

use vstd::prelude::*;
use vstd::arithmetic::div_mod::{
    lemma_fundamental_div_mod, lemma_mod_bound, lemma_multiply_divide_lt,
};
use vstd::arithmetic::mul::lemma_mul_inequality;
use vstd::arithmetic::power2::{
    lemma2_to64, lemma_pow2_adds, lemma_pow2_pos, lemma_pow2_strictly_increases, pow2,
};
use vstd::bits::lemma_u64_shl_is_mul;
use crate::errors::ScanError;
use crate::text::{
    all_digits, dec_of, dec_val, parse_dec_u32, split_at_seps, split_str, u32_to_dec,
};

verus! {

/// Whether `t` is a valid dotted-decimal octet: one to three digits, no
/// leading zero, value at most 255.
pub open spec fn valid_octet_token(t: Seq<char>) -> bool {
    1 <= t.len() <= 3 && all_digits(t) && dec_val(t) <= 255 && (t.len() > 1 ==> t[0] != '0')
}

/// The address denoted by `s` in dotted-decimal notation (exactly four
/// valid octets separated by dots), or `None`.
pub open spec fn parse_ipv4_spec(s: Seq<char>) -> Option<int> {
    let ts = split_at_seps(s, '.');
    if ts.len() == 4 && valid_octet_token(ts[0]) && valid_octet_token(ts[1]) && valid_octet_token(
        ts[2],
    ) && valid_octet_token(ts[3]) {
        Some(
            ((dec_val(ts[0]) * 256 + dec_val(ts[1])) * 256 + dec_val(ts[2])) * 256 + dec_val(
                ts[3],
            ),
        )
    } else {
        None
    }
}

/// Parses one octet token.
fn parse_octet(t: &str) -> (r: Option<u32>)
    ensures
        match r {
            Some(v) => valid_octet_token(t@) && v as int == dec_val(t@) && v <= 255,
            None => !valid_octet_token(t@),
        },
{
    let n = t.unicode_len();
    if n == 0 || n > 3 {
        return None;
    }
    if n > 1 && t.get_char(0) == '0' {
        return None;
    }
    match parse_dec_u32(t) {
        Some(v) => {
            if v <= 255 {
                Some(v)
            } else {
                None
            }
        },
        None => None,
    }
}

/// Parses `s` as a dotted-decimal IPv4 address.
pub fn parse_ipv4(s: &str) -> (r: Option<u32>)
    ensures
        match r {
            Some(v) => parse_ipv4_spec(s@) == Some(v as int),
            None => parse_ipv4_spec(s@) is None,
        },
{
    let parts = split_str(s, '.');
    if parts.len() != 4 {
        return None;
    }
    let o0 = match parse_octet(parts[0].as_str()) {
        Some(v) => v,
        None => {
            return None;
        },
    };
    let o1 = match parse_octet(parts[1].as_str()) {
        Some(v) => v,
        None => {
            return None;
        },
    };
    let o2 = match parse_octet(parts[2].as_str()) {
        Some(v) => v,
        None => {
            return None;
        },
    };
    let o3 = match parse_octet(parts[3].as_str()) {
        Some(v) => v,
        None => {
            return None;
        },
    };
    Some(((o0 * 256 + o1) * 256 + o2) * 256 + o3)
}

/// The dotted-decimal rendering of the 32-bit address `a`.
pub open spec fn ipv4_str(a: int) -> Seq<char> {
    dec_of(a / 0x1000000 % 256) + seq!['.'] + dec_of(a / 0x10000 % 256) + seq!['.'] + dec_of(
        a / 0x100 % 256,
    ) + seq!['.'] + dec_of(a % 256)
}

/// Renders `a` in dotted-decimal notation.
pub fn ipv4_to_string(a: u32) -> (r: String)
    ensures
        r@ == ipv4_str(a as int),
{
    proof {
        reveal_strlit(".");
    }
    let mut s = u32_to_dec(a / 16777216 % 256);
    s.append(".");
    s.append(u32_to_dec(a / 65536 % 256).as_str());
    s.append(".");
    s.append(u32_to_dec(a / 256 % 256).as_str());
    s.append(".");
    s.append(u32_to_dec(a % 256).as_str());
    proof {
        assert("."@ =~= seq!['.']);
        assert(s@ =~= ipv4_str(a as int));
    }
    s
}

/// An IPv4 network expressed as an address plus a prefix length, defining
/// a contiguous address range.
#[derive(Clone, Copy, Debug, PartialEq, Eq, Structural)]
pub struct CidrBlock {
    pub addr: u32,
    pub prefix: u8,
}

/// The number of addresses a block of the given prefix length spans.
pub open spec fn block_size(prefix: int) -> int {
    pow2((32 - prefix) as nat) as int
}

/// The lowest address of the block: the address with its host bits cleared.
pub open spec fn network_of(b: CidrBlock) -> int {
    b.addr as int - (b.addr as int) % block_size(b.prefix as int)
}

/// The highest address of the block: the address with its host bits set.
pub open spec fn broadcast_of(b: CidrBlock) -> int {
    network_of(b) + block_size(b.prefix as int) - 1
}

impl CidrBlock {
    /// A prefix length never exceeds the width of an address.
    pub open spec fn wf(self) -> bool {
        self.prefix <= 32
    }
}

/// Basic range facts about a block: its size is positive, the network
/// address is in range and at most the block's address, and the broadcast
/// address lies between the address and the top of the address space.
pub proof fn lemma_cidr_bounds(b: CidrBlock)
    requires
        b.wf(),
    ensures
        block_size(b.prefix as int) >= 1,
        0 <= network_of(b) <= b.addr as int,
        b.addr as int <= broadcast_of(b) < 0x1_0000_0000,
        network_of(b) == block_size(b.prefix as int) * ((b.addr as int) / block_size(
            b.prefix as int,
        )),
{
    let a = b.addr as int;
    let p = b.prefix as int;
    let bs = block_size(p);
    lemma_pow2_pos((32 - p) as nat);
    lemma_fundamental_div_mod(a, bs);
    lemma_mod_bound(a, bs);
    lemma_pow2_adds((32 - p) as nat, p as nat);
    lemma2_to64();
    assert(bs * pow2(p as nat) == 0x1_0000_0000);
    lemma_pow2_pos(p as nat);
    lemma_multiply_divide_lt(a, bs, pow2(p as nat) as int);
    let q = a / bs;
    assert(q <= pow2(p as nat) - 1);
    lemma_mul_inequality(q, pow2(p as nat) - 1, bs);
    assert(q * bs <= (pow2(p as nat) - 1) * bs);
    assert((pow2(p as nat) - 1) * bs == pow2(p as nat) * bs - bs) by (nonlinear_arith);
    assert(q * bs == bs * q) by (nonlinear_arith);
    assert(pow2(p as nat) * bs == bs * pow2(p as nat)) by (nonlinear_arith);
    assert(bs * q <= 0x1_0000_0000 - bs);
    if q < 0 {
        assert(bs * q <= -bs) by (nonlinear_arith)
            requires
                bs >= 1 && q <= -1,
        ;
        assert(a % bs >= bs);
        assert(false);
    }
    assert(bs * q >= 0) by (nonlinear_arith)
        requires
            bs >= 1 && q >= 0,
    ;
}

/// The number of addresses the block spans, as an executable value.
fn block_size_u64(prefix: u8) -> (r: u64)
    requires
        prefix <= 32,
    ensures
        r as int == block_size(prefix as int),
        r >= 1,
{
    let shift: u64 = (32 - prefix) as u64;
    proof {
        lemma2_to64();
        if shift < 32 {
            lemma_pow2_strictly_increases(shift as nat, 32);
        }
        lemma_pow2_pos(shift as nat);
        lemma_u64_shl_is_mul(1u64, shift);
    }
    1u64 << shift
}

impl CidrBlock {
    /// The network address of the block.
    pub fn network(&self) -> (r: u32)
        requires
            self.wf(),
        ensures
            r as int == network_of(*self),
    {
        proof {
            lemma_cidr_bounds(*self);
            lemma_fundamental_div_mod(self.addr as int, block_size(self.prefix as int));
            lemma_mod_bound(self.addr as int, block_size(self.prefix as int));
        }
        let bs = block_size_u64(self.prefix);
        let a = self.addr as u64;
        let q = a / bs;
        proof {
            assert(q as int == (self.addr as int) / block_size(self.prefix as int));
            assert((q as int) * (bs as int) == (bs as int) * (q as int)) by (nonlinear_arith);
            assert((q as int) * (bs as int) == network_of(*self));
        }
        (q * bs) as u32
    }

    /// The broadcast address of the block.
    pub fn broadcast(&self) -> (r: u32)
        requires
            self.wf(),
        ensures
            r as int == broadcast_of(*self),
    {
        proof {
            lemma_cidr_bounds(*self);
        }
        let bs = block_size_u64(self.prefix);
        let net = self.network();
        ((net as u64) + bs - 1) as u32
    }
}

/// The host addresses of the block: every address strictly between the
/// network and broadcast addresses, in ascending order.
pub open spec fn host_seq(b: CidrBlock) -> Seq<u32> {
    let n = network_of(b);
    let br = broadcast_of(b);
    if br - n >= 2 {
        Seq::new((br - n - 1) as nat, |i: int| (n + 1 + i) as u32)
    } else {
        Seq::empty()
    }
}

impl CidrBlock {
    /// Enumerates the host addresses of the block in ascending order.
    pub fn host_addresses(&self) -> (r: Vec<u32>)
        requires
            self.wf(),
        ensures
            r@ == host_seq(*self),
    {
        proof {
            lemma_cidr_bounds(*self);
        }
        let net = self.network();
        let br = self.broadcast();
        let mut out: Vec<u32> = Vec::new();
        if br - net >= 2 {
            let mut a: u32 = net + 1;
            while a < br
                invariant
                    net as int + 1 <= a as int <= br as int,
                    br as int - net as int >= 2,
                    net as int == network_of(*self),
                    br as int == broadcast_of(*self),
                    out@.len() == a as int - net as int - 1,
                    forall|k: int|
                        0 <= k < out@.len() ==> (#[trigger] out@[k]) as int == net as int + 1 + k,
                decreases br as int - a as int,
            {
                out.push(a);
                a = a + 1;
            }
            proof {
                assert forall|k: int| 0 <= k < out@.len() implies out@[k] == host_seq(*self)[k] by {
                    assert(out@[k] as int == net as int + 1 + k);
                }
                assert(out@ =~= host_seq(*self));
            }
        } else {
            proof {
                assert(host_seq(*self) =~= Seq::<u32>::empty());
            }
        }
        out
    }
}

/// The enumerated host sequence is exact: it holds an address if and only
/// if that address lies strictly between the network and broadcast
/// addresses (so those two are excluded and everything else is included),
/// and it is strictly ascending, so each host appears exactly once.
pub proof fn lemma_host_seq_exact(b: CidrBlock)
    requires
        b.wf(),
    ensures
        forall|a: u32|
            #[trigger] host_seq(b).contains(a) <==> (network_of(b) < (a as int) && (a as int) < broadcast_of(b)),
        forall|i: int, j: int|
            #![trigger host_seq(b)[i], host_seq(b)[j]]
            0 <= i < j < host_seq(b).len() ==> host_seq(b)[i] < host_seq(b)[j],
{
    lemma_cidr_bounds(b);
    let n = network_of(b);
    let br = broadcast_of(b);
    assert forall|a: u32| #[trigger] host_seq(b).contains(a) implies n < (a as int) && (a as int) < br by {
        let i = choose|i: int| 0 <= i < host_seq(b).len() && host_seq(b)[i] == a;
        assert(host_seq(b)[i] == (n + 1 + i) as u32);
    }
    assert forall|a: u32| n < (a as int) && (a as int) < br implies #[trigger] host_seq(b).contains(a) by {
        let idx = a as int - n - 1;
        assert(host_seq(b)[idx] == a);
    }
}

/// Whether `t` is a valid prefix-length token: one or two digits with
/// value at most 32.
pub open spec fn valid_prefix_token(t: Seq<char>) -> bool {
    1 <= t.len() <= 2 && all_digits(t) && dec_val(t) <= 32
}

/// The block denoted by `s` in CIDR notation (`address/prefix`), or `None`.
pub open spec fn parse_cidr_spec(s: Seq<char>) -> Option<(int, int)> {
    let ts = split_at_seps(s, '/');
    if ts.len() == 2 && valid_prefix_token(ts[1]) {
        match parse_ipv4_spec(ts[0]) {
            Some(a) => Some((a, dec_val(ts[1]))),
            None => None,
        }
    } else {
        None
    }
}

/// Parses one prefix-length token.
fn parse_prefix(t: &str) -> (r: Option<u8>)
    ensures
        match r {
            Some(v) => valid_prefix_token(t@) && v as int == dec_val(t@) && v <= 32,
            None => !valid_prefix_token(t@),
        },
{
    let n = t.unicode_len();
    if n == 0 || n > 2 {
        return None;
    }
    match parse_dec_u32(t) {
        Some(v) => {
            if v <= 32 {
                Some(v as u8)
            } else {
                None
            }
        },
        None => None,
    }
}

/// Parses `s` in CIDR notation (`address/prefix`).  Fails with
/// `InvalidSpec`, carrying `s` itself, when `s` is not a valid block.
pub fn parse_cidr(s: &str) -> (r: Result<CidrBlock, ScanError>)
    ensures
        match r {
            Ok(b) => b.wf() && parse_cidr_spec(s@) == Some((b.addr as int, b.prefix as int)),
            Err(ScanError::InvalidSpec(t)) => parse_cidr_spec(s@) is None && t@ == s@,
        },
{
    let parts = split_str(s, '/');
    if parts.len() == 2 {
        let addr_o = parse_ipv4(parts[0].as_str());
        let pfx_o = parse_prefix(parts[1].as_str());
        match (addr_o, pfx_o) {
            (Some(addr), Some(prefix)) => {
                return Ok(CidrBlock { addr, prefix });
            },
            _ => {},
        }
    }
    Err(ScanError::InvalidSpec(String::from_str(s)))
}

} // verus!
