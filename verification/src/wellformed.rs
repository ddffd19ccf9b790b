//! When a rule makes sense to netfilter.

use vstd::prelude::*;

use crate::checks::equals;
use crate::nft::{Expr, Meta, Operand, Payload, RuleView};
use crate::proto::{icmpv6_number, ipv4_number, ipv6_number, tcp_number, udp_number};

verus! {

/// What tells whether a packet has the header that a field belongs to: the metadata to load, and
/// the value that it must have.
pub open spec fn guard(field: Payload) -> (Meta, u8) {
    match field {
        Payload::Ipv4Saddr | Payload::Ipv4Daddr => (Meta::NfProto, ipv4_number()),
        Payload::Ipv6Saddr | Payload::Ipv6Daddr => (Meta::NfProto, ipv6_number()),
        Payload::UdpSport | Payload::UdpDport => (Meta::L4Proto, udp_number()),
        Payload::TcpSport | Payload::TcpDport => (Meta::L4Proto, tcp_number()),
        Payload::Icmpv6Type | Payload::Icmpv6Code => (Meta::L4Proto, icmpv6_number()),
    }
}

/// The expression at `i` loads the metadata that guards the field, and the next one checks it.
pub open spec fn guards(exprs: Seq<Expr>, i: int, field: Payload) -> bool {
    exprs[i] == Expr::Meta(guard(field).0) && exprs[i + 1] == equals(Operand::U8(guard(field).1))
}

/// Before a header field is loaded, the protocol that has this header is checked.
pub open spec fn guarded(exprs: Seq<Expr>) -> bool {
    forall|i: int|
        0 <= i < exprs.len() ==> match #[trigger] exprs[i] {
            Expr::Payload(field) => exists|j: int|
                0 <= j && j + 1 < i && #[trigger] guards(exprs, j, field),
            _ => true,
        }
}

/// The operands have the same width.
pub open spec fn same_width(first: Operand, second: Operand) -> bool {
    match (first, second) {
        (Operand::U8(_), Operand::U8(_)) => true,
        (Operand::U16 { .. }, Operand::U16 { .. }) => true,
        (Operand::U32(_), Operand::U32(_)) => true,
        (Operand::V4(_), Operand::V4(_)) => true,
        (Operand::V6(_), Operand::V6(_)) => true,
        _ => false,
    }
}

/// Masks are as wide as what is combined with the masked value.
pub open spec fn widths_agree(exprs: Seq<Expr>) -> bool {
    forall|i: int|
        0 <= i < exprs.len() ==> match #[trigger] exprs[i] {
            Expr::Bitwise { mask, xor } => same_width(mask, xor),
            _ => true,
        }
}

/// The rule ends in its only verdict, checks a protocol before it loads a field of the header of
/// that protocol, and combines operands of one width only.
pub open spec fn well_built(rule: RuleView) -> bool {
    &&& rule.exprs.len() > 0
    &&& rule.exprs.last() is Verdict
    &&& forall|i: int|
        0 <= i < rule.exprs.len() - 1 ==> !(#[trigger] rule.exprs[i] is Verdict)
    &&& guarded(rule.exprs)
    &&& widths_agree(rule.exprs)
}

/// The index of the interface that the rule checks, if the first thing it checks is the
/// interface.
pub open spec fn iface_of(rule: RuleView) -> Option<u32> {
    if rule.exprs.len() >= 2 && (rule.exprs[0] == Expr::Meta(Meta::Iif) || rule.exprs[0]
        == Expr::Meta(Meta::Oif)) {
        match rule.exprs[1] {
            Expr::Compare { data: Operand::U32(index), .. } => Some(index),
            _ => None,
        }
    } else {
        None
    }
}

/// The indices of the interfaces that the rules check, in order.
pub open spec fn ifaces_of(rules: Seq<RuleView>) -> Seq<u32>
    decreases rules.len(),
{
    if rules.len() == 0 {
        Seq::empty()
    } else {
        let before = ifaces_of(rules.drop_last());
        match iface_of(rules.last()) {
            Some(index) => before.push(index),
            None => before,
        }
    }
}

} // verus!
