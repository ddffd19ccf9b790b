//! What rules do to packets.
//!
//! The functions here define how netfilter evaluates the rules of a chain on a packet. The
//! expressions of a rule are evaluated from first to last. As soon as one does not match, the
//! packet is handed to the next rule of the chain.

use vstd::prelude::*;

use crate::checks::End;
use crate::net::{IpAddr, IpNetwork, Ipv4Addr, Ipv6Addr, TransportProtocol};
use crate::nft::{ChainName, CompareOp, Expr, Meta, Operand, Payload, RuleView, Verdict};
use crate::proto::{icmpv6_number, ipv4_number, ipv6_number, spec_l4proto, CT_STATE_ESTABLISHED};

verus! {

/// What rules can read of a packet. Of a network header that the packet does not have, the fields
/// are arbitrary; of a transport header that is not at hand, as in a later fragment, there are no
/// bytes.
pub struct Packet {
    /// The index of the interface that the packet came in on.
    pub iif: u32,
    /// The index of the interface that the packet goes out on.
    pub oif: u32,
    /// The state of the connection that the packet belongs to.
    pub ct_state: u32,
    /// The number of the network layer protocol.
    pub nfproto: u8,
    pub ipv4_saddr: Ipv4Addr,
    pub ipv4_daddr: Ipv4Addr,
    pub ipv6_saddr: Ipv6Addr,
    pub ipv6_daddr: Ipv6Addr,
    /// The number of the transport layer protocol.
    pub l4proto: Option<u8>,
    /// The bytes of the transport header, in the order in which they are sent. If there are ports,
    /// the first two bytes are the source port and the next two the destination port, the most
    /// significant byte first. Of an ICMPv6 message, the first byte is the type and the second one
    /// the code.
    pub transport: Seq<u8>,
}

impl Packet {
    /// The address at an end, if the packet is of a protocol that has one.
    pub open spec fn addr(self, end: End) -> Option<IpAddr> {
        if self.nfproto == ipv4_number() {
            Some(
                IpAddr::V4(
                    match end {
                        End::Src => self.ipv4_saddr,
                        End::Dst => self.ipv4_daddr,
                    },
                ),
            )
        } else if self.nfproto == ipv6_number() {
            Some(
                IpAddr::V6(
                    match end {
                        End::Src => self.ipv6_saddr,
                        End::Dst => self.ipv6_daddr,
                    },
                ),
            )
        } else {
            None
        }
    }

    /// Whether this is the address at an end.
    pub open spec fn has_addr(self, end: End, addr: IpAddr) -> bool {
        self.addr(end) == Some(addr)
    }

    /// Whether the address at an end is in the network.
    pub open spec fn in_net(self, end: End, net: IpNetwork) -> bool {
        match self.addr(end) {
            Some(addr) => net.covers(addr),
            None => false,
        }
    }

    /// Whether the address at an end is in one of the networks.
    pub open spec fn in_nets(self, end: End, nets: Seq<IpNetwork>) -> bool {
        exists|i: int| 0 <= i < nets.len() && self.in_net(end, #[trigger] nets[i])
    }

    /// Whether the packet is of the transport protocol and has the port at an end.
    pub open spec fn has_port(self, protocol: TransportProtocol, end: End, port: u16) -> bool {
        self.l4proto == Some(spec_l4proto(protocol)) && match end {
            End::Src => self.transport.len() >= 2 && self.transport[0] * 256 + self.transport[1]
                == port,
            End::Dst => self.transport.len() >= 4 && self.transport[2] * 256 + self.transport[3]
                == port,
        }
    }

    /// Whether the packet is an ICMPv6 message of the type, with code zero.
    pub open spec fn is_icmpv6(self, message_type: u8) -> bool {
        self.l4proto == Some(icmpv6_number()) && self.transport.len() >= 2 && self.transport[0]
            == message_type && self.transport[1] == 0
    }

    /// Whether the packet belongs to an established connection.
    pub open spec fn established(self) -> bool {
        self.ct_state & CT_STATE_ESTABLISHED != 0
    }

    /// The value that an expression loads into the register. `None` if the packet does not
    /// have it, or if the expression loads nothing.
    pub open spec fn load(self, expr: Expr) -> Option<Operand> {
        match expr {
            Expr::Meta(Meta::NfProto) => Some(Operand::U8(self.nfproto)),
            Expr::Meta(Meta::L4Proto) => match self.l4proto {
                Some(number) => Some(Operand::U8(number)),
                None => None,
            },
            Expr::Meta(Meta::Iif) => Some(Operand::U32(self.iif)),
            Expr::Meta(Meta::Oif) => Some(Operand::U32(self.oif)),
            Expr::CtState => Some(Operand::U32(self.ct_state)),
            Expr::Payload(Payload::Ipv4Saddr) => Some(Operand::V4(self.ipv4_saddr)),
            Expr::Payload(Payload::Ipv4Daddr) => Some(Operand::V4(self.ipv4_daddr)),
            Expr::Payload(Payload::Ipv6Saddr) => Some(Operand::V6(self.ipv6_saddr)),
            Expr::Payload(Payload::Ipv6Daddr) => Some(Operand::V6(self.ipv6_daddr)),
            Expr::Payload(Payload::UdpSport) | Expr::Payload(Payload::TcpSport) => {
                if self.transport.len() >= 2 {
                    Some(Operand::U16 { high: self.transport[0], low: self.transport[1] })
                } else {
                    None
                }
            },
            Expr::Payload(Payload::UdpDport) | Expr::Payload(Payload::TcpDport) => {
                if self.transport.len() >= 4 {
                    Some(Operand::U16 { high: self.transport[2], low: self.transport[3] })
                } else {
                    None
                }
            },
            Expr::Payload(Payload::Icmpv6Type) => if self.transport.len() >= 1 {
                Some(Operand::U8(self.transport[0]))
            } else {
                None
            },
            Expr::Payload(Payload::Icmpv6Code) => if self.transport.len() >= 2 {
                Some(Operand::U8(self.transport[1]))
            } else {
                None
            },
            _ => None,
        }
    }
}

/// How far the evaluation of a rule has come.
pub enum Eval {
    /// The next expression is evaluated, with this value in the register.
    Running(Option<Operand>),
    /// The packet does not match the rule.
    NoMatch,
    /// The rule has decided.
    Decided(Verdict),
}

/// The value, masked and then combined by exclusive or. `None` if the widths differ.
pub open spec fn bitwise(value: Operand, mask: Operand, xor: Operand) -> Option<Operand> {
    match (value, mask, xor) {
        (Operand::U32(value), Operand::U32(mask), Operand::U32(xor)) => Some(
            Operand::U32((value & mask) ^ xor),
        ),
        (Operand::V4(value), Operand::V4(mask), Operand::V4(xor)) => Some(
            Operand::V4(Ipv4Addr { bits: (value.bits & mask.bits) ^ xor.bits }),
        ),
        (Operand::V6(value), Operand::V6(mask), Operand::V6(xor)) => Some(
            Operand::V6(Ipv6Addr { bits: (value.bits & mask.bits) ^ xor.bits }),
        ),
        _ => None,
    }
}

/// Evaluates one expression of a rule on a packet.
pub open spec fn step(state: Eval, expr: Expr, packet: Packet) -> Eval {
    match state {
        Eval::Running(register) => match expr {
            Expr::Meta(_) | Expr::CtState | Expr::Payload(_) => match packet.load(expr) {
                Some(value) => Eval::Running(Some(value)),
                None => Eval::NoMatch,
            },
            Expr::Bitwise { mask, xor } => match register {
                Some(value) => match bitwise(value, mask, xor) {
                    Some(result) => Eval::Running(Some(result)),
                    None => Eval::NoMatch,
                },
                None => Eval::NoMatch,
            },
            Expr::Compare { op: CompareOp::Eq, data } => if register == Some(data) {
                state
            } else {
                Eval::NoMatch
            },
            Expr::Compare { op: CompareOp::Neq, data } => if register != Some(data) {
                state
            } else {
                Eval::NoMatch
            },
            Expr::Counter => state,
            Expr::Verdict(verdict) => Eval::Decided(verdict),
        },
        _ => state,
    }
}

/// Evaluates expressions of a rule on a packet, from first to last.
pub open spec fn run(state: Eval, exprs: Seq<Expr>, packet: Packet) -> Eval
    decreases exprs.len(),
{
    if exprs.len() == 0 {
        state
    } else {
        run(step(state, exprs[0], packet), exprs.drop_first(), packet)
    }
}

/// What a rule decides on a packet. `None` if the packet does not match it.
pub open spec fn rule_verdict(rule: RuleView, packet: Packet) -> Option<Verdict> {
    match run(Eval::Running(None), rule.exprs, packet) {
        Eval::Decided(verdict) => Some(verdict),
        _ => None,
    }
}

/// What the first rule of the chain that matches the packet decides on it. `None` if none does.
pub open spec fn first_verdict(
    rules: Seq<RuleView>,
    chain: ChainName,
    packet: Packet,
) -> Option<Verdict>
    decreases rules.len(),
{
    if rules.len() == 0 {
        None
    } else {
        match first_verdict(rules.drop_last(), chain, packet) {
            Some(verdict) => Some(verdict),
            None => if rules.last().chain == chain {
                rule_verdict(rules.last(), packet)
            } else {
                None
            },
        }
    }
}

/// What happens to a packet that a chain with these rules sees, if the chain drops what no rule
/// decides on.
pub open spec fn chain_verdict(
    rules: Seq<RuleView>,
    chain: ChainName,
    packet: Packet,
) -> Verdict {
    match first_verdict(rules, chain, packet) {
        Some(verdict) => verdict,
        None => Verdict::Drop,
    }
}

} // verus!
