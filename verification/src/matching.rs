//! Which packets pass the checks of [`crate::checks`].

use vstd::prelude::*;

use crate::checks::{addr_field, addr_operand, endpoint_check, equals, established_check};
use crate::checks::{icmpv6_check, iface_check, ip_check, l3proto_check, l4number_check};
use crate::checks::{mask_operand, net_check, port_check, port_field, port_operand};
use crate::checks::{verdict_exprs, zero_operand};
use crate::checks::{Direction, End};
use crate::net::{Endpoint, IpAddr, IpNetwork, TransportProtocol};
use crate::nft::{ChainName, CompareOp, Expr, Meta, Operand, Payload, RuleView, Verdict};
use crate::packet::{first_verdict, rule_verdict, run, step, Eval, Packet};
use crate::proto::{icmpv6_number, spec_l4proto, CT_STATE_ESTABLISHED};

verus! {

/// The expressions let the evaluation of a rule go on if the condition holds, and end it if not.
pub open spec fn is_check(exprs: Seq<Expr>, packet: Packet, condition: bool) -> bool {
    forall|register: Option<Operand>|
        {
            let state = #[trigger] run(Eval::Running(register), exprs, packet);
            if condition {
                state is Running
            } else {
                state is NoMatch
            }
        }
}

/// The evaluation of the rule gets to its end without a decision if the condition holds, and
/// ends before that if not.
pub open spec fn reaches(rule: RuleView, packet: Packet, condition: bool) -> bool {
    let state = run(Eval::Running(None), rule.exprs, packet);
    if condition {
        state is Running
    } else {
        state is NoMatch
    }
}

/// The rule decides on the packet, with this verdict, if the condition holds, and does not match
/// it if not.
pub open spec fn decides(
    rule: RuleView,
    packet: Packet,
    condition: bool,
    verdict: Verdict,
) -> bool {
    rule_verdict(rule, packet) == if condition {
        Some(verdict)
    } else {
        None
    }
}

/// Once the evaluation of a rule has ended, no expression changes that.
pub proof fn lemma_run_ended(state: Eval, exprs: Seq<Expr>, packet: Packet)
    requires
        !(state is Running),
    ensures
        run(state, exprs, packet) == state,
    decreases exprs.len(),
{
    if exprs.len() > 0 {
        lemma_run_ended(state, exprs.drop_first(), packet);
    }
}

/// Expressions are evaluated one after the other.
pub proof fn lemma_run_append(state: Eval, first: Seq<Expr>, second: Seq<Expr>, packet: Packet)
    ensures
        run(state, first + second, packet) == run(run(state, first, packet), second, packet),
    decreases first.len(),
{
    if first.len() == 0 {
        assert(first + second =~= second);
    } else {
        assert((first + second).drop_first() =~= first.drop_first() + second);
        lemma_run_append(step(state, first[0], packet), first.drop_first(), second, packet);
    }
}

/// Evaluating a single expression.
pub proof fn lemma_run_one(state: Eval, expr: Expr, packet: Packet)
    ensures
        run(state, seq![expr], packet) == step(state, expr, packet),
{
    reveal_with_fuel(run, 2);
    assert(seq![expr].drop_first() =~= Seq::empty());
}

/// Loading a value and comparing it.
pub proof fn lemma_run_two(state: Eval, first: Expr, second: Expr, packet: Packet)
    ensures
        run(state, seq![first, second], packet) == step(
            step(state, first, packet),
            second,
            packet,
        ),
{
    assert(seq![first, second] =~= seq![first] + seq![second]);
    lemma_run_append(state, seq![first], seq![second], packet);
    lemma_run_one(state, first, packet);
    lemma_run_one(step(state, first, packet), second, packet);
}

/// Two checks in a row check that both conditions hold.
pub proof fn lemma_both(
    first: Seq<Expr>,
    second: Seq<Expr>,
    packet: Packet,
    condition: bool,
    and_then: bool,
)
    requires
        is_check(first, packet, condition),
        condition ==> is_check(second, packet, and_then),
    ensures
        is_check(first + second, packet, condition && and_then),
{
    assert forall|register: Option<Operand>|
        {
            let state = #[trigger] run(Eval::Running(register), first + second, packet);
            if condition && and_then {
                state is Running
            } else {
                state is NoMatch
            }
        } by {
        lemma_run_append(Eval::Running(register), first, second, packet);
        let state = run(Eval::Running(register), first, packet);
        if condition {
            let between = state->Running_0;
            assert(state == Eval::Running(between));
        } else {
            lemma_run_ended(state, second, packet);
        }
    }
}

/// A rule with no expressions lets everything get to its end.
pub proof fn lemma_empty(chain: ChainName, packet: Packet)
    ensures
        reaches(RuleView::empty(chain), packet, true),
{
}

/// A rule with one more check at its end.
pub proof fn lemma_with(
    rule: RuleView,
    exprs: Seq<Expr>,
    packet: Packet,
    condition: bool,
    and_then: bool,
)
    requires
        reaches(rule, packet, condition),
        is_check(exprs, packet, and_then),
    ensures
        reaches(rule.with(exprs), packet, condition && and_then),
{
    let state = run(Eval::Running(None), rule.exprs, packet);
    lemma_run_append(Eval::Running(None), rule.exprs, exprs, packet);
    if condition {
        assert(state == Eval::Running(state->Running_0));
    } else {
        lemma_run_ended(state, exprs, packet);
    }
}

/// A rule with a verdict at its end.
pub proof fn lemma_verdict(
    rule: RuleView,
    packet: Packet,
    condition: bool,
    verdict: Verdict,
    counters: bool,
)
    requires
        reaches(rule, packet, condition),
    ensures
        decides(rule.with(verdict_exprs(verdict, counters)), packet, condition, verdict),
{
    let state = run(Eval::Running(None), rule.exprs, packet);
    let exprs = verdict_exprs(verdict, counters);
    lemma_run_append(Eval::Running(None), rule.exprs, exprs, packet);
    if condition {
        if counters {
            lemma_run_two(state, Expr::Counter, Expr::Verdict(verdict), packet);
        } else {
            lemma_run_one(state, Expr::Verdict(verdict), packet);
        }
    } else {
        lemma_run_ended(state, exprs, packet);
    }
}

/// Loading a value that the packet has and comparing it.
proof fn lemma_load_equals(expr: Expr, data: Operand, packet: Packet)
    requires
        expr is Meta || expr is CtState || expr is Payload,
    ensures
        is_check(seq![expr, equals(data)], packet, packet.load(expr) == Some(data)),
{
    let exprs = seq![expr, equals(data)];
    assert forall|register: Option<Operand>|
        {
            let state = #[trigger] run(Eval::Running(register), exprs, packet);
            if packet.load(expr) == Some(data) {
                state is Running
            } else {
                state is NoMatch
            }
        } by {
        lemma_run_two(Eval::Running(register), expr, equals(data), packet);
    }
}

/// Which packets pass a check of the interface.
pub proof fn lemma_iface_check(direction: Direction, index: u32, packet: Packet)
    ensures
        is_check(
            iface_check(direction, index),
            packet,
            match direction {
                Direction::In => packet.iif == index,
                Direction::Out => packet.oif == index,
            },
        ),
{
    lemma_load_equals(iface_check(direction, index)[0], Operand::U32(index), packet);
    assert(iface_check(direction, index) =~= seq![
        iface_check(direction, index)[0],
        equals(Operand::U32(index)),
    ]);
}

/// Which packets pass a check of the transport layer protocol number.
pub proof fn lemma_l4number_check(number: u8, packet: Packet)
    ensures
        is_check(l4number_check(number), packet, packet.l4proto == Some(number)),
{
    lemma_load_equals(Expr::Meta(Meta::L4Proto), Operand::U8(number), packet);
}

/// Which packets pass a check of an address.
pub proof fn lemma_ip_check(end: End, addr: IpAddr, packet: Packet)
    ensures
        is_check(ip_check(end, addr), packet, packet.has_addr(end, addr)),
{
    let family = packet.nfproto == crate::proto::spec_l3proto(addr);
    let field = Expr::Payload(addr_field(addr, end));
    lemma_load_equals(
        Expr::Meta(Meta::NfProto),
        Operand::U8(crate::proto::spec_l3proto(addr)),
        packet,
    );
    lemma_load_equals(field, addr_operand(addr), packet);
    lemma_both(
        l3proto_check(addr),
        seq![field, equals(addr_operand(addr))],
        packet,
        family,
        packet.load(field) == Some(addr_operand(addr)),
    );
    assert(packet.has_addr(end, addr) <==> family && packet.load(field) == Some(
        addr_operand(addr),
    ));
}

/// Which packets pass a check of a network.
pub proof fn lemma_net_check(end: End, net: IpNetwork, packet: Packet)
    ensures
        is_check(net_check(end, net), packet, packet.in_net(end, net)),
{
    let addr = net.spec_ip();
    let family = packet.nfproto == crate::proto::spec_l3proto(addr);
    let field = Expr::Payload(addr_field(addr, end));
    let mask = Expr::Bitwise { mask: mask_operand(net), xor: zero_operand(net) };
    let compare = equals(addr_operand(addr));
    let rest = seq![field, mask, compare];
    lemma_load_equals(
        Expr::Meta(Meta::NfProto),
        Operand::U8(crate::proto::spec_l3proto(addr)),
        packet,
    );
    if family {
        assert forall|register: Option<Operand>|
            {
                let state = #[trigger] run(Eval::Running(register), rest, packet);
                if packet.in_net(end, net) {
                    state is Running
                } else {
                    state is NoMatch
                }
            } by {
            let start = Eval::Running(register);
            assert(rest =~= seq![field, mask] + seq![compare]);
            lemma_run_append(start, seq![field, mask], seq![compare], packet);
            lemma_run_two(start, field, mask, packet);
            lemma_run_one(run(start, seq![field, mask], packet), compare, packet);
            assert(forall|x: u32| #[trigger] (x ^ 0u32) == x) by (bit_vector);
            assert(forall|x: u128| #[trigger] (x ^ 0u128) == x) by (bit_vector);
        }
    }
    lemma_both(l3proto_check(addr), rest, packet, family, packet.in_net(end, net));
    assert(packet.in_net(end, net) ==> family);
}

/// The bytes of a port make up the port.
proof fn lemma_port_operand(port: u16, high: u8, low: u8)
    ensures
        port_operand(port) == (Operand::U16 { high, low }) <==> high * 256 + low == port,
{
    assert(port == 256 * (port / 256) + port % 256);
}

/// Which packets pass a check of a port.
pub proof fn lemma_port_check(protocol: TransportProtocol, end: End, port: u16, packet: Packet)
    ensures
        is_check(port_check(protocol, end, port), packet, packet.has_port(protocol, end, port)),
{
    let number = spec_l4proto(protocol);
    let field = Expr::Payload(port_field(protocol, end));
    if packet.transport.len() >= 2 {
        lemma_port_operand(port, packet.transport[0], packet.transport[1]);
    }
    if packet.transport.len() >= 4 {
        lemma_port_operand(port, packet.transport[2], packet.transport[3]);
    }
    lemma_l4number_check(number, packet);
    lemma_load_equals(field, port_operand(port), packet);
    lemma_both(
        l4number_check(number),
        seq![field, equals(port_operand(port))],
        packet,
        packet.l4proto == Some(number),
        packet.load(field) == Some(port_operand(port)),
    );
}

/// Which packets pass a check of an endpoint.
pub proof fn lemma_endpoint_check(end: End, endpoint: Endpoint, packet: Packet)
    ensures
        is_check(
            endpoint_check(end, endpoint),
            packet,
            packet.has_addr(end, endpoint.address.ip) && packet.has_port(
                endpoint.protocol,
                end,
                endpoint.address.port,
            ),
        ),
{
    lemma_ip_check(end, endpoint.address.ip, packet);
    lemma_port_check(endpoint.protocol, end, endpoint.address.port, packet);
    lemma_both(
        ip_check(end, endpoint.address.ip),
        port_check(endpoint.protocol, end, endpoint.address.port),
        packet,
        packet.has_addr(end, endpoint.address.ip),
        packet.has_port(endpoint.protocol, end, endpoint.address.port),
    );
}

/// Which packets pass a check for an ICMPv6 message.
pub proof fn lemma_icmpv6_check(message_type: u8, packet: Packet)
    ensures
        is_check(icmpv6_check(message_type), packet, packet.is_icmpv6(message_type)),
{
    let number = l4number_check(icmpv6_number());
    let of_type = seq![
        Expr::Payload(Payload::Icmpv6Type),
        equals(Operand::U8(message_type)),
    ];
    let of_code = seq![Expr::Payload(Payload::Icmpv6Code), equals(Operand::U8(0))];
    lemma_l4number_check(icmpv6_number(), packet);
    lemma_load_equals(
        Expr::Payload(Payload::Icmpv6Type),
        Operand::U8(message_type),
        packet,
    );
    lemma_load_equals(Expr::Payload(Payload::Icmpv6Code), Operand::U8(0), packet);
    lemma_both(
        of_type,
        of_code,
        packet,
        packet.load(Expr::Payload(Payload::Icmpv6Type)) == Some(Operand::U8(message_type)),
        packet.load(Expr::Payload(Payload::Icmpv6Code)) == Some(Operand::U8(0)),
    );
    lemma_both(
        number,
        of_type + of_code,
        packet,
        packet.l4proto == Some(icmpv6_number()),
        packet.load(Expr::Payload(Payload::Icmpv6Type)) == Some(Operand::U8(message_type))
            && packet.load(Expr::Payload(Payload::Icmpv6Code)) == Some(Operand::U8(0)),
    );
    assert(number + (of_type + of_code) =~= icmpv6_check(message_type));
}

/// Which packets pass a check for an established connection.
pub proof fn lemma_established_check(packet: Packet)
    ensures
        is_check(established_check(), packet, packet.established()),
{
    let mask = Expr::Bitwise {
        mask: Operand::U32(CT_STATE_ESTABLISHED),
        xor: Operand::U32(0),
    };
    let compare = Expr::Compare { op: CompareOp::Neq, data: Operand::U32(0) };
    assert forall|register: Option<Operand>|
        {
            let state = #[trigger] run(Eval::Running(register), established_check(), packet);
            if packet.established() {
                state is Running
            } else {
                state is NoMatch
            }
        } by {
        let start = Eval::Running(register);
        assert(established_check() =~= seq![Expr::CtState, mask] + seq![compare]);
        lemma_run_append(start, seq![Expr::CtState, mask], seq![compare], packet);
        lemma_run_two(start, Expr::CtState, mask, packet);
        lemma_run_one(run(start, seq![Expr::CtState, mask], packet), compare, packet);
        assert(forall|x: u32| #[trigger] (x ^ 0u32) == x) by (bit_vector);
    }
}

/// The rules of a chain are consulted one after the other.
pub proof fn lemma_first_verdict_append(
    first: Seq<RuleView>,
    second: Seq<RuleView>,
    chain: ChainName,
    packet: Packet,
)
    ensures
        first_verdict(first + second, chain, packet) == match first_verdict(first, chain, packet) {
            Some(verdict) => Some(verdict),
            None => first_verdict(second, chain, packet),
        },
    decreases second.len(),
{
    if second.len() == 0 {
        assert(first + second =~= first);
    } else {
        assert((first + second).drop_last() =~= first + second.drop_last());
        lemma_first_verdict_append(first, second.drop_last(), chain, packet);
    }
}

/// What a single rule decides.
pub proof fn lemma_first_verdict_one(rule: RuleView, chain: ChainName, packet: Packet)
    ensures
        first_verdict(seq![rule], chain, packet) == if rule.chain == chain {
            rule_verdict(rule, packet)
        } else {
            None
        },
{
    reveal_with_fuel(first_verdict, 2);
    assert(seq![rule].drop_last() =~= Seq::empty());
}

} // verus!
