//! Target specifications and their enumeration into discrete probe
//! targets: a CIDR block expands to its host addresses in ascending
//! order, an explicit list to one target per non-blank line (unparsable
//! lines become explicit invalid markers, never silently dropped), a
//! single host to itself, and a port set to one target per port.

use vstd::prelude::*;
use crate::addr::{host_seq, ipv4_str, parse_ipv4, parse_ipv4_spec, CidrBlock};
use crate::text::{trim_str, trimmed};

verus! {

/// One discrete probe target.
pub enum Target {
    /// A literal IPv4 address.
    Address(u32),
    /// A hostname, resolved by the probing layer.
    Hostname(String),
    /// One TCP port on an address.
    Port(u32, u16),
    /// An input line that did not parse as an address; reported as such,
    /// never probed.
    Invalid(String),
}

/// The mathematical value of a `Target`.
pub enum TargetView {
    Address(u32),
    Hostname(Seq<char>),
    Port(u32, u16),
    Invalid(Seq<char>),
}

impl View for Target {
    type V = TargetView;

    open spec fn view(&self) -> TargetView {
        match self {
            Target::Address(a) => TargetView::Address(*a),
            Target::Hostname(h) => TargetView::Hostname(h@),
            Target::Port(a, p) => TargetView::Port(*a, *p),
            Target::Invalid(s) => TargetView::Invalid(s@),
        }
    }
}

/// The text a target is reported under: the dotted address for address
/// and port targets, the hostname, or the offending input line.
pub open spec fn render_target_spec(t: TargetView) -> Seq<char> {
    match t {
        TargetView::Address(a) => ipv4_str(a as int),
        TargetView::Hostname(h) => h,
        TargetView::Port(a, p) => ipv4_str(a as int),
        TargetView::Invalid(s) => s,
    }
}

/// Renders the text a target is reported under.
pub(crate) fn render_target(t: &Target) -> (r: String)
    ensures
        r@ == render_target_spec(t@),
{
    match t {
        Target::Address(a) => crate::addr::ipv4_to_string(*a),
        Target::Hostname(h) => h.clone(),
        Target::Port(a, p) => crate::addr::ipv4_to_string(*a),
        Target::Invalid(s) => s.clone(),
    }
}

/// An exact copy of a target.
pub(crate) fn clone_target(t: &Target) -> (r: Target)
    ensures
        r == *t,
{
    match t {
        Target::Address(a) => Target::Address(*a),
        Target::Hostname(h) => Target::Hostname(h.clone()),
        Target::Port(a, p) => Target::Port(*a, *p),
        Target::Invalid(s) => Target::Invalid(s.clone()),
    }
}

/// Whether a target is an invalid-input marker.
pub(crate) fn target_is_invalid(t: &Target) -> (r: bool)
    ensures
        r == (t@ is Invalid),
{
    match t {
        Target::Invalid(_) => true,
        _ => false,
    }
}

/// A target specification: one scan mode, carrying only the fields
/// relevant to it.
pub enum TargetSpec {
    /// Every host of a CIDR block.
    CidrBlock(CidrBlock),
    /// Explicit address lines, one candidate per line.
    ExplicitList(Vec<String>),
    /// One host, by name or address.
    SingleHost(String),
    /// A set of TCP ports on one address.
    PortRange(u32, Vec<u16>),
}

/// The mathematical value of a `TargetSpec`.
pub enum TargetSpecView {
    CidrBlock(CidrBlock),
    ExplicitList(Seq<Seq<char>>),
    SingleHost(Seq<char>),
    PortRange(u32, Seq<u16>),
}

impl View for TargetSpec {
    type V = TargetSpecView;

    open spec fn view(&self) -> TargetSpecView {
        match self {
            TargetSpec::CidrBlock(b) => TargetSpecView::CidrBlock(*b),
            TargetSpec::ExplicitList(lines) => TargetSpecView::ExplicitList(
                lines@.map_values(|l: String| l@),
            ),
            TargetSpec::SingleHost(h) => TargetSpecView::SingleHost(h@),
            TargetSpec::PortRange(a, ps) => TargetSpecView::PortRange(*a, ps@),
        }
    }
}

impl TargetSpec {
    /// A CIDR specification carries a valid prefix length.
    pub open spec fn wf(self) -> bool {
        match self {
            TargetSpec::CidrBlock(b) => b.wf(),
            _ => true,
        }
    }
}

/// The targets of one explicit-list line: nothing for a blank line, the
/// address for a line that parses, and an invalid marker (carrying the
/// trimmed line) otherwise.
pub open spec fn line_targets(l: Seq<char>) -> Seq<TargetView> {
    let t = trimmed(l);
    if t.len() == 0 {
        Seq::empty()
    } else {
        match parse_ipv4_spec(t) {
            Some(a) => seq![TargetView::Address(a as u32)],
            None => seq![TargetView::Invalid(t)],
        }
    }
}

/// The targets of a whole explicit list, in line order.
pub open spec fn list_targets(lines: Seq<Seq<char>>) -> Seq<TargetView>
    decreases lines.len(),
{
    if lines.len() == 0 {
        Seq::empty()
    } else {
        line_targets(lines[0]) + list_targets(lines.drop_first())
    }
}

/// Enumerating one more line appends that line's targets.
proof fn lemma_list_targets_push(lines: Seq<Seq<char>>, l: Seq<char>)
    ensures
        list_targets(lines.push(l)) == list_targets(lines) + line_targets(l),
    decreases lines.len(),
{
    if lines.len() == 0 {
        reveal_with_fuel(list_targets, 3);
        assert(lines.push(l).drop_first() =~= Seq::<Seq<char>>::empty());
        assert(lines.push(l)[0] == l);
        assert(list_targets(lines.push(l)) =~= list_targets(lines) + line_targets(l));
    } else {
        lemma_list_targets_push(lines.drop_first(), l);
        assert(lines.push(l).drop_first() =~= lines.drop_first().push(l));
        assert(list_targets(lines.push(l)) =~= list_targets(lines) + line_targets(l));
    }
}

/// The ordered sequence of targets a specification denotes.
pub open spec fn enumerate_spec(ts: TargetSpecView) -> Seq<TargetView> {
    match ts {
        TargetSpecView::CidrBlock(b) => host_seq(b).map_values(|a: u32| TargetView::Address(a)),
        TargetSpecView::ExplicitList(lines) => list_targets(lines),
        TargetSpecView::SingleHost(h) => if trimmed(h).len() == 0 {
            Seq::empty()
        } else {
            seq![TargetView::Hostname(trimmed(h))]
        },
        TargetSpecView::PortRange(a, ps) => Seq::new(
            ps.len(),
            |i: int| TargetView::Port(a, ps[i]),
        ),
    }
}

/// Expands a specification into its ordered, finite sequence of discrete
/// probe targets.
pub fn enumerate(ts: &TargetSpec) -> (r: Vec<Target>)
    requires
        ts.wf(),
    ensures
        r@.map_values(|t: Target| t@) == enumerate_spec(ts@),
{
    match ts {
        TargetSpec::CidrBlock(b) => {
            let hosts = b.host_addresses();
            let mut out: Vec<Target> = Vec::new();
            let mut i: usize = 0;
            while i < hosts.len()
                invariant
                    0 <= i <= hosts@.len(),
                    hosts@ == host_seq(*b),
                    out@.len() == i,
                    forall|k: int|
                        0 <= k < i ==> (#[trigger] out@[k])@ == TargetView::Address(hosts@[k]),
                decreases hosts@.len() - i,
            {
                out.push(Target::Address(hosts[i]));
                i = i + 1;
            }
            proof {
                assert(out@.map_values(|t: Target| t@) =~= enumerate_spec(ts@));
            }
            out
        },
        TargetSpec::ExplicitList(lines) => {
            let ghost lview: Seq<Seq<char>> = lines@.map_values(|l: String| l@);
            let mut out: Vec<Target> = Vec::new();
            let mut i: usize = 0;
            proof {
                assert(lview.subrange(0, 0) =~= Seq::<Seq<char>>::empty());
                assert(out@.map_values(|t: Target| t@) =~= list_targets(lview.subrange(0, 0)));
            }
            while i < lines.len()
                invariant
                    0 <= i <= lines@.len(),
                    lview == lines@.map_values(|l: String| l@),
                    out@.map_values(|t: Target| t@) == list_targets(
                        lview.subrange(0, i as int),
                    ),
                decreases lines@.len() - i,
            {
                proof {
                    assert(lview.subrange(0, i + 1) =~= lview.subrange(0, i as int).push(
                        lview[i as int],
                    ));
                    lemma_list_targets_push(lview.subrange(0, i as int), lview[i as int]);
                }
                let t = trim_str(lines[i].as_str());
                if t.as_str().unicode_len() == 0 {
                    proof {
                        assert(out@.map_values(|t: Target| t@) =~= list_targets(
                            lview.subrange(0, i + 1),
                        ));
                    }
                } else {
                    match parse_ipv4(t.as_str()) {
                        Some(a) => {
                            out.push(Target::Address(a));
                        },
                        None => {
                            out.push(Target::Invalid(t));
                        },
                    }
                    proof {
                        assert(out@.map_values(|t: Target| t@) =~= list_targets(
                            lview.subrange(0, i + 1),
                        ));
                    }
                }
                i = i + 1;
            }
            proof {
                assert(lview.subrange(0, lview.len() as int) =~= lview);
            }
            out
        },
        TargetSpec::SingleHost(h) => {
            let t = trim_str(h.as_str());
            let mut out: Vec<Target> = Vec::new();
            if t.as_str().unicode_len() == 0 {
                proof {
                    assert(out@.map_values(|t: Target| t@) =~= enumerate_spec(ts@));
                }
            } else {
                out.push(Target::Hostname(t));
                proof {
                    assert(out@.map_values(|t: Target| t@) =~= enumerate_spec(ts@));
                }
            }
            out
        },
        TargetSpec::PortRange(a, ps) => {
            let mut out: Vec<Target> = Vec::new();
            let mut i: usize = 0;
            while i < ps.len()
                invariant
                    0 <= i <= ps@.len(),
                    out@.len() == i,
                    forall|k: int|
                        0 <= k < i ==> (#[trigger] out@[k])@ == TargetView::Port(*a, ps@[k]),
                decreases ps@.len() - i,
            {
                out.push(Target::Port(*a, ps[i]));
                i = i + 1;
            }
            proof {
                assert(out@.map_values(|t: Target| t@) =~= enumerate_spec(ts@));
            }
            out
        },
    }
}

} // verus!
