//! The building blocks of rules: what a rule checks of a packet before it decides.

use vstd::prelude::*;

use crate::error::Error;
use crate::net::{Endpoint, IpAddr, IpNetwork, Ipv4Addr, Ipv6Addr, TransportProtocol};
use crate::net::{v4_mask, v6_mask};
use crate::nft::{Chain, CompareOp, Expr, Meta, Operand, Payload, Rule, RuleView, Verdict};
use crate::proto::{icmpv6_number, icmpv6_proto, l3proto, l4proto};
use crate::proto::{spec_l3proto, spec_l4proto, CT_STATE_ESTABLISHED};

verus! {

/// The direction of a packet.
#[derive(Clone, Copy, Debug, PartialEq, Eq, Hash, Structural)]
pub enum Direction {
    In,
    Out,
}

/// One end of a packet's way.
#[derive(Clone, Copy, Debug, PartialEq, Eq, Hash, Structural)]
pub enum End {
    Src,
    Dst,
}

/// Goes on if the loaded value equals the operand.
pub open spec fn equals(data: Operand) -> Expr {
    Expr::Compare { op: CompareOp::Eq, data }
}

/// A port as an operand: its two bytes, the most significant one first.
pub open spec fn port_operand(port: u16) -> Operand {
    Operand::U16 { high: (port / 256) as u8, low: (port % 256) as u8 }
}

/// The bytes of a port in network byte order, as they stand in a packet.
pub fn port_bytes(port: u16) -> (bytes: [u8; 2])
    ensures
        bytes@ == seq![(port / 256) as u8, (port % 256) as u8],
{
    let bytes: [u8; 2] = [(port / 256) as u8, (port % 256) as u8];
    assert(bytes@ =~= seq![(port / 256) as u8, (port % 256) as u8]);
    bytes
}

/// An address as an operand.
pub open spec fn addr_operand(addr: IpAddr) -> Operand {
    match addr {
        IpAddr::V4(addr) => Operand::V4(addr),
        IpAddr::V6(addr) => Operand::V6(addr),
    }
}

/// The field that holds the address at an end, in the network header of the family of `addr`.
pub open spec fn addr_field(addr: IpAddr, end: End) -> Payload {
    match (addr, end) {
        (IpAddr::V4(_), End::Src) => Payload::Ipv4Saddr,
        (IpAddr::V4(_), End::Dst) => Payload::Ipv4Daddr,
        (IpAddr::V6(_), End::Src) => Payload::Ipv6Saddr,
        (IpAddr::V6(_), End::Dst) => Payload::Ipv6Daddr,
    }
}

/// The field that holds the port at an end, in the transport header of the protocol.
pub open spec fn port_field(protocol: TransportProtocol, end: End) -> Payload {
    match (protocol, end) {
        (TransportProtocol::Udp, End::Src) => Payload::UdpSport,
        (TransportProtocol::Udp, End::Dst) => Payload::UdpDport,
        (TransportProtocol::Tcp, End::Src) => Payload::TcpSport,
        (TransportProtocol::Tcp, End::Dst) => Payload::TcpDport,
    }
}

/// Checks the interface that a packet comes in on or goes out on.
pub open spec fn iface_check(direction: Direction, index: u32) -> Seq<Expr> {
    let loaded = match direction {
        Direction::In => Meta::Iif,
        Direction::Out => Meta::Oif,
    };
    seq![Expr::Meta(loaded), equals(Operand::U32(index))]
}

/// Checks that the network layer protocol is that of the address.
pub open spec fn l3proto_check(addr: IpAddr) -> Seq<Expr> {
    seq![Expr::Meta(Meta::NfProto), equals(Operand::U8(spec_l3proto(addr)))]
}

/// Checks that the transport layer protocol has the number.
pub open spec fn l4number_check(number: u8) -> Seq<Expr> {
    seq![Expr::Meta(Meta::L4Proto), equals(Operand::U8(number))]
}

/// Checks the address at an end. The network layer protocol is checked before the network
/// header is read.
pub open spec fn ip_check(end: End, addr: IpAddr) -> Seq<Expr> {
    l3proto_check(addr) + seq![
        Expr::Payload(addr_field(addr, end)),
        equals(addr_operand(addr)),
    ]
}

/// The mask of a network as an operand.
pub open spec fn mask_operand(net: IpNetwork) -> Operand {
    match net {
        IpNetwork::V4(net) => Operand::V4(Ipv4Addr { bits: v4_mask(net.prefix) }),
        IpNetwork::V6(net) => Operand::V6(Ipv6Addr { bits: v6_mask(net.prefix) }),
    }
}

/// An operand of zeros, as wide as an address of the network.
pub open spec fn zero_operand(net: IpNetwork) -> Operand {
    match net {
        IpNetwork::V4(_) => Operand::V4(Ipv4Addr { bits: 0 }),
        IpNetwork::V6(_) => Operand::V6(Ipv6Addr { bits: 0 }),
    }
}

/// Checks that the address at an end is in the network. The network layer protocol is checked
/// before the network header is read.
pub open spec fn net_check(end: End, net: IpNetwork) -> Seq<Expr> {
    l3proto_check(net.spec_ip()) + seq![
        Expr::Payload(addr_field(net.spec_ip(), end)),
        Expr::Bitwise { mask: mask_operand(net), xor: zero_operand(net) },
        equals(addr_operand(net.spec_ip())),
    ]
}

/// Checks the port at an end. The transport layer protocol is checked before the transport
/// header is read.
pub open spec fn port_check(protocol: TransportProtocol, end: End, port: u16) -> Seq<Expr> {
    l4number_check(spec_l4proto(protocol)) + seq![
        Expr::Payload(port_field(protocol, end)),
        equals(port_operand(port)),
    ]
}

/// Checks the address, the protocol and the port at an end.
pub open spec fn endpoint_check(end: End, endpoint: Endpoint) -> Seq<Expr> {
    ip_check(end, endpoint.address.ip) + port_check(endpoint.protocol, end, endpoint.address.port)
}

/// Checks that a packet is an ICMPv6 message of the type, with code zero.
pub open spec fn icmpv6_check(message_type: u8) -> Seq<Expr> {
    l4number_check(icmpv6_number()) + seq![
        Expr::Payload(Payload::Icmpv6Type),
        equals(Operand::U8(message_type)),
        Expr::Payload(Payload::Icmpv6Code),
        equals(Operand::U8(0)),
    ]
}

/// Checks that a packet belongs to an established connection.
pub open spec fn established_check() -> Seq<Expr> {
    seq![
        Expr::CtState,
        Expr::Bitwise { mask: Operand::U32(CT_STATE_ESTABLISHED), xor: Operand::U32(0) },
        Expr::Compare { op: CompareOp::Neq, data: Operand::U32(0) },
    ]
}

/// The end of a rule: the verdict, after a packet counter if counters are wanted.
pub open spec fn verdict_exprs(verdict: Verdict, counters: bool) -> Seq<Expr> {
    if counters {
        seq![Expr::Counter, Expr::Verdict(verdict)]
    } else {
        seq![Expr::Verdict(verdict)]
    }
}

/// Adds [`l3proto_check`] to the rule.
pub fn check_l3proto(rule: &mut Rule, addr: IpAddr)
    ensures
        final(rule)@ == old(rule)@.with(l3proto_check(addr)),
        final(rule).chain == old(rule).chain,
        final(rule).exprs@ == old(rule).exprs@ + seq![
            Expr::Meta(Meta::NfProto),
            Expr::Compare {
                op: CompareOp::Eq,
                data: Operand::U8(
                    match addr {
                        IpAddr::V4(_) => 2,
                        IpAddr::V6(_) => 10,
                    },
                ),
            },
        ],
{
    rule.add_expr(Expr::Meta(Meta::NfProto));
    rule.add_expr(Expr::Compare { op: CompareOp::Eq, data: Operand::U8(l3proto(addr)) });
    assert(rule@.exprs =~= old(rule)@.exprs + l3proto_check(addr));
}

/// Adds [`l4number_check`] to the rule.
pub fn check_l4number(rule: &mut Rule, number: u8)
    ensures
        final(rule)@ == old(rule)@.with(l4number_check(number)),
        final(rule).chain == old(rule).chain,
        final(rule).exprs@ == old(rule).exprs@ + seq![
            Expr::Meta(Meta::L4Proto),
            Expr::Compare { op: CompareOp::Eq, data: Operand::U8(number) },
        ],
{
    rule.add_expr(Expr::Meta(Meta::L4Proto));
    rule.add_expr(Expr::Compare { op: CompareOp::Eq, data: Operand::U8(number) });
    assert(rule@.exprs =~= old(rule)@.exprs + l4number_check(number));
}

/// Adds a check of the transport layer protocol to the rule.
pub fn check_l4proto(rule: &mut Rule, protocol: TransportProtocol)
    ensures
        final(rule)@ == old(rule)@.with(l4number_check(spec_l4proto(protocol))),
        final(rule).chain == old(rule).chain,
        final(rule).exprs@ == old(rule).exprs@ + seq![
            Expr::Meta(Meta::L4Proto),
            Expr::Compare {
                op: CompareOp::Eq,
                data: Operand::U8(
                    match protocol {
                        TransportProtocol::Udp => 17,
                        TransportProtocol::Tcp => 6,
                    },
                ),
            },
        ],
{
    check_l4number(rule, l4proto(protocol));
}

/// Adds [`port_check`] to the rule.
pub fn check_port(rule: &mut Rule, protocol: TransportProtocol, end: End, port: u16)
    ensures
        final(rule)@ == old(rule)@.with(port_check(protocol, end, port)),
        final(rule).chain == old(rule).chain,
        final(rule).exprs@.len() == old(rule).exprs@.len() + 4,
        final(rule).exprs@.drop_last() == old(rule).exprs@ + seq![
            Expr::Meta(Meta::L4Proto),
            Expr::Compare {
                op: CompareOp::Eq,
                data: Operand::U8(
                    match protocol {
                        TransportProtocol::Udp => 17,
                        TransportProtocol::Tcp => 6,
                    },
                ),
            },
            Expr::Payload(
                match (protocol, end) {
                    (TransportProtocol::Udp, End::Src) => Payload::UdpSport,
                    (TransportProtocol::Udp, End::Dst) => Payload::UdpDport,
                    (TransportProtocol::Tcp, End::Src) => Payload::TcpSport,
                    (TransportProtocol::Tcp, End::Dst) => Payload::TcpDport,
                },
            ),
        ],
        final(rule).exprs@.last() matches Expr::Compare {
            op: CompareOp::Eq,
            data: Operand::U16 { high, low },
        } && high * 256 + low == port,
{
    // Must check transport layer protocol before loading transport layer payload
    check_l4proto(rule, protocol);

    rule.add_expr(
        Expr::Payload(
            match (protocol, end) {
                (TransportProtocol::Udp, End::Src) => Payload::UdpSport,
                (TransportProtocol::Udp, End::Dst) => Payload::UdpDport,
                (TransportProtocol::Tcp, End::Src) => Payload::TcpSport,
                (TransportProtocol::Tcp, End::Dst) => Payload::TcpDport,
            },
        ),
    );
    let bytes = port_bytes(port);
    rule.add_expr(
        Expr::Compare { op: CompareOp::Eq, data: Operand::U16 { high: bytes[0], low: bytes[1] } },
    );
    assert(rule@.exprs =~= old(rule)@.exprs + port_check(protocol, end, port));
}

/// Loads the address at an end, from the network header of the family of `addr`.
fn load_addr(rule: &mut Rule, end: End, addr: IpAddr)
    ensures
        final(rule)@ == old(rule)@.with(seq![Expr::Payload(addr_field(addr, end))]),
{
    rule.add_expr(
        Expr::Payload(
            match (addr, end) {
                (IpAddr::V4(_), End::Src) => Payload::Ipv4Saddr,
                (IpAddr::V4(_), End::Dst) => Payload::Ipv4Daddr,
                (IpAddr::V6(_), End::Src) => Payload::Ipv6Saddr,
                (IpAddr::V6(_), End::Dst) => Payload::Ipv6Daddr,
            },
        ),
    );
}

/// Compares the loaded value with an address.
fn compare_addr(rule: &mut Rule, addr: IpAddr)
    ensures
        final(rule)@ == old(rule)@.with(seq![equals(addr_operand(addr))]),
{
    let data = match addr {
        IpAddr::V4(addr) => Operand::V4(addr),
        IpAddr::V6(addr) => Operand::V6(addr),
    };
    rule.add_expr(Expr::Compare { op: CompareOp::Eq, data });
}

/// Adds [`ip_check`] to the rule.
pub fn check_ip(rule: &mut Rule, end: End, addr: IpAddr)
    ensures
        final(rule)@ == old(rule)@.with(ip_check(end, addr)),
        final(rule).chain == old(rule).chain,
        final(rule).exprs@ == old(rule).exprs@ + match addr {
            IpAddr::V4(v4) => seq![
                Expr::Meta(Meta::NfProto),
                Expr::Compare { op: CompareOp::Eq, data: Operand::U8(2) },
                Expr::Payload(
                    match end {
                        End::Src => Payload::Ipv4Saddr,
                        End::Dst => Payload::Ipv4Daddr,
                    },
                ),
                Expr::Compare { op: CompareOp::Eq, data: Operand::V4(v4) },
            ],
            IpAddr::V6(v6) => seq![
                Expr::Meta(Meta::NfProto),
                Expr::Compare { op: CompareOp::Eq, data: Operand::U8(10) },
                Expr::Payload(
                    match end {
                        End::Src => Payload::Ipv6Saddr,
                        End::Dst => Payload::Ipv6Daddr,
                    },
                ),
                Expr::Compare { op: CompareOp::Eq, data: Operand::V6(v6) },
            ],
        },
{
    // Must check network layer protocol before loading network layer payload
    check_l3proto(rule, addr);

    load_addr(rule, end, addr);
    compare_addr(rule, addr);
    assert(rule@.exprs =~= old(rule)@.exprs + ip_check(end, addr));
}

/// Adds [`net_check`] to the rule.
pub fn check_net(rule: &mut Rule, end: End, net: IpNetwork)
    requires
        net.wf(),
    ensures
        final(rule)@ == old(rule)@.with(net_check(end, net)),
        final(rule).chain == old(rule).chain,
        final(rule).exprs@ == old(rule).exprs@ + match net {
            IpNetwork::V4(v4) => seq![
                Expr::Meta(Meta::NfProto),
                Expr::Compare { op: CompareOp::Eq, data: Operand::U8(2) },
                Expr::Payload(
                    match end {
                        End::Src => Payload::Ipv4Saddr,
                        End::Dst => Payload::Ipv4Daddr,
                    },
                ),
                Expr::Bitwise {
                    mask: Operand::V4(Ipv4Addr { bits: v4_mask(v4.prefix) }),
                    xor: Operand::V4(Ipv4Addr { bits: 0 }),
                },
                Expr::Compare { op: CompareOp::Eq, data: Operand::V4(v4.addr) },
            ],
            IpNetwork::V6(v6) => seq![
                Expr::Meta(Meta::NfProto),
                Expr::Compare { op: CompareOp::Eq, data: Operand::U8(10) },
                Expr::Payload(
                    match end {
                        End::Src => Payload::Ipv6Saddr,
                        End::Dst => Payload::Ipv6Daddr,
                    },
                ),
                Expr::Bitwise {
                    mask: Operand::V6(Ipv6Addr { bits: v6_mask(v6.prefix) }),
                    xor: Operand::V6(Ipv6Addr { bits: 0 }),
                },
                Expr::Compare { op: CompareOp::Eq, data: Operand::V6(v6.addr) },
            ],
        },
{
    // Must check network layer protocol before loading network layer payload
    check_l3proto(rule, net.ip());

    load_addr(rule, end, net.ip());
    let expr = match net {
        IpNetwork::V4(net) => Expr::Bitwise {
            mask: Operand::V4(net.mask()),
            xor: Operand::V4(Ipv4Addr { bits: 0 }),
        },
        IpNetwork::V6(net) => Expr::Bitwise {
            mask: Operand::V6(net.mask()),
            xor: Operand::V6(Ipv6Addr { bits: 0 }),
        },
    };
    rule.add_expr(expr);
    compare_addr(rule, net.ip());
    assert(rule@.exprs =~= old(rule)@.exprs + net_check(end, net));
}

/// Adds [`endpoint_check`] to the rule.
pub fn check_endpoint(rule: &mut Rule, end: End, endpoint: &Endpoint)
    ensures
        final(rule)@ == old(rule)@.with(endpoint_check(end, *endpoint)),
{
    check_ip(rule, end, endpoint.address.ip);
    check_port(rule, endpoint.protocol, end, endpoint.address.port);
    assert(rule@.exprs =~= old(rule)@.exprs + endpoint_check(end, *endpoint));
}

/// Adds [`icmpv6_check`] to the rule.
pub fn check_icmpv6(rule: &mut Rule, message_type: u8)
    ensures
        final(rule)@ == old(rule)@.with(icmpv6_check(message_type)),
        final(rule).chain == old(rule).chain,
        final(rule).exprs@ == old(rule).exprs@ + seq![
            Expr::Meta(Meta::L4Proto),
            Expr::Compare { op: CompareOp::Eq, data: Operand::U8(58) },
            Expr::Payload(Payload::Icmpv6Type),
            Expr::Compare { op: CompareOp::Eq, data: Operand::U8(message_type) },
            Expr::Payload(Payload::Icmpv6Code),
            Expr::Compare { op: CompareOp::Eq, data: Operand::U8(0) },
        ],
{
    check_l4number(rule, icmpv6_proto());

    rule.add_expr(Expr::Payload(Payload::Icmpv6Type));
    rule.add_expr(Expr::Compare { op: CompareOp::Eq, data: Operand::U8(message_type) });
    rule.add_expr(Expr::Payload(Payload::Icmpv6Code));
    rule.add_expr(Expr::Compare { op: CompareOp::Eq, data: Operand::U8(0) });
    assert(rule@.exprs =~= old(rule)@.exprs + icmpv6_check(message_type));
}

/// Adds [`established_check`] to the rule.
pub fn check_established(rule: &mut Rule)
    ensures
        final(rule)@ == old(rule)@.with(established_check()),
        final(rule).chain == old(rule).chain,
        final(rule).exprs@ == old(rule).exprs@ + seq![
            Expr::CtState,
            Expr::Bitwise { mask: Operand::U32(2), xor: Operand::U32(0) },
            Expr::Compare { op: CompareOp::Neq, data: Operand::U32(0) },
        ],
{
    rule.add_expr(Expr::CtState);
    rule.add_expr(
        Expr::Bitwise { mask: Operand::U32(CT_STATE_ESTABLISHED), xor: Operand::U32(0) },
    );
    rule.add_expr(Expr::Compare { op: CompareOp::Neq, data: Operand::U32(0) });
    assert(rule@.exprs =~= old(rule)@.exprs + established_check());
}

/// Adds [`iface_check`] to the rule, given what came of translating the name of the interface
/// into its index.
pub fn check_iface(
    rule: &mut Rule,
    direction: Direction,
    iface: &str,
    lookup: Result<u32, std::io::Error>,
) -> (added: Result<(), Error>)
    ensures
        match lookup {
            Ok(index) => added is Ok && final(rule)@ == old(rule)@.with(
                iface_check(direction, index),
            ),
            Err(cause) => (added matches Err(Error::LookupIfaceIndexError(name, source)) && name@
                == iface@ && source == cause) && final(rule)@ == old(rule)@,
        },
        final(rule).chain == old(rule).chain,
        lookup matches Ok(index) ==> final(rule).exprs@ == old(rule).exprs@ + seq![
            Expr::Meta(
                match direction {
                    Direction::In => Meta::Iif,
                    Direction::Out => Meta::Oif,
                },
            ),
            Expr::Compare { op: CompareOp::Eq, data: Operand::U32(index) },
        ],
        lookup is Err ==> final(rule).exprs@ == old(rule).exprs@,
{
    let iface_index = match lookup {
        Ok(index) => index,
        Err(cause) => {
            return Err(Error::LookupIfaceIndexError(iface.to_owned(), cause));
        },
    };
    rule.add_expr(
        Expr::Meta(
            match direction {
                Direction::In => Meta::Iif,
                Direction::Out => Meta::Oif,
            },
        ),
    );
    rule.add_expr(Expr::Compare { op: CompareOp::Eq, data: Operand::U32(iface_index) });
    assert(rule@.exprs =~= old(rule)@.exprs + iface_check(direction, iface_index));
    Ok(())
}

/// Adds [`verdict_exprs`] to the rule.
pub fn add_verdict(rule: &mut Rule, verdict: Verdict, counters: bool)
    ensures
        final(rule)@ == old(rule)@.with(verdict_exprs(verdict, counters)),
        final(rule).chain == old(rule).chain,
        counters ==> final(rule).exprs@ == old(rule).exprs@ + seq![
            Expr::Counter,
            Expr::Verdict(verdict),
        ],
        !counters ==> final(rule).exprs@ == old(rule).exprs@ + seq![Expr::Verdict(verdict)],
{
    if counters {
        rule.add_expr(Expr::Counter);
    }
    rule.add_expr(Expr::Verdict(verdict));
    assert(rule@.exprs =~= old(rule)@.exprs + verdict_exprs(verdict, counters));
}

/// A rule that accepts what comes in or goes out on an interface.
pub open spec fn interface_rule(
    chain: Chain,
    direction: Direction,
    index: u32,
    counters: bool,
) -> RuleView {
    RuleView::empty(chain.name).with(iface_check(direction, index)).with(
        verdict_exprs(Verdict::Accept, counters),
    )
}

/// Creates [`interface_rule`], given what came of translating the name of the interface into
/// its index.
pub fn allow_interface_rule(
    chain: &Chain,
    direction: Direction,
    iface: &str,
    lookup: Result<u32, std::io::Error>,
    counters: bool,
) -> (rule: Result<Rule, Error>)
    ensures
        match lookup {
            Ok(index) => rule matches Ok(rule) && rule@ == interface_rule(
                *chain,
                direction,
                index,
                counters,
            ),
            Err(cause) => rule matches Err(Error::LookupIfaceIndexError(name, source)) && name@
                == iface@ && source == cause,
        },
        lookup matches Ok(index) ==> (rule matches Ok(rule) && rule.chain == chain.name
            && rule.exprs@ == seq![
            Expr::Meta(
                match direction {
                    Direction::In => Meta::Iif,
                    Direction::Out => Meta::Oif,
                },
            ),
            Expr::Compare { op: CompareOp::Eq, data: Operand::U32(index) },
        ] + (if counters {
            seq![Expr::Counter, Expr::Verdict(Verdict::Accept)]
        } else {
            seq![Expr::Verdict(Verdict::Accept)]
        })),
{
    let mut rule = Rule::new(chain);
    match check_iface(&mut rule, direction, iface, lookup) {
        Ok(_) => {},
        Err(error) => {
            return Err(error);
        },
    }
    add_verdict(&mut rule, Verdict::Accept, counters);
    Ok(rule)
}

} // verus!
