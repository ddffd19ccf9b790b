//! What checks, rules and batches hold, element by element.
//!
//! Everything here is stated on the expressions and messages themselves, so that a reader can tell
//! what is sent to netfilter without looking up how it is put together.

use vstd::prelude::*;

use crate::batch::{bootstrap, input_chain, lookups_left, output_chain, policy_batch};
use crate::batch::PolicyBatchView;
use crate::checks::{endpoint_check, established_check, icmpv6_check, iface_check};
use crate::checks::{interface_rule, ip_check, l3proto_check, l4number_check, net_check};
use crate::checks::{port_check, verdict_exprs, Direction, End};
use crate::error::Error;
use crate::firewall::{all_found, reset_batch, TABLE_NAME};
use crate::net::{v4_mask, v6_mask, Endpoint, IpAddr, IpNetwork, Ipv4Addr, Ipv6Addr};
use crate::net::{Ipv4Network, Ipv6Network, SocketAddr, TransportProtocol, TunnelMetadata};
use crate::net::{TunnelView, IPV4_BROADCAST_BITS};
use crate::nft::{rule_messages, Batch, BatchView, Chain, ChainName, CompareOp, Expr, Hook};
use crate::nft::{Message, MessageView, Meta, MsgType, Object, ObjectView, Operand, Payload};
use crate::nft::{Rule, RuleView, Table, TableView, Verdict};
use crate::policy::{FirewallPolicy, IfaceLookups, NetworkParameters, ParametersView, PolicyView};
use crate::policy::LOOPBACK_IFACE_NAME;
use crate::proto::{spec_control_proto, spec_l3proto, spec_l4proto};
use crate::proto::{CT_STATE_ESTABLISHED, DNS_PORT};
use crate::proto::{REDIRECT, ROUTER_ADVERTISEMENT, ROUTER_SOLICITATION};
use crate::rules;

verus! {

/// The numbers and names that have a meaning outside of this library.
pub proof fn law_constants()
    ensures
        DNS_PORT == 53,
        CT_STATE_ESTABLISHED == 2,
        ROUTER_SOLICITATION == 133,
        ROUTER_ADVERTISEMENT == 134,
        REDIRECT == 137,
        IPV4_BROADCAST_BITS == 0xffff_ffff,
        TABLE_NAME@ == "mullvad"@,
        LOOPBACK_IFACE_NAME@ == "lo"@,
        ChainName::Input.spec_as_str() == "input"@,
        ChainName::Output.spec_as_str() == "output"@,
{
}

/// The protocol numbers of addresses and transport protocols.
pub proof fn law_protocol_numbers(addr: IpAddr, protocol: TransportProtocol)
    ensures
        addr is V4 ==> spec_l3proto(addr) == 2 && spec_control_proto(addr) == 1,
        addr is V6 ==> spec_l3proto(addr) == 10 && spec_control_proto(addr) == 58,
        protocol is Udp ==> spec_l4proto(protocol) == 17,
        protocol is Tcp ==> spec_l4proto(protocol) == 6,
{
}

/// What a check of an interface holds.
pub proof fn law_iface_check(index: u32)
    ensures
        iface_check(Direction::In, index) == seq![
            Expr::Meta(Meta::Iif),
            Expr::Compare { op: CompareOp::Eq, data: Operand::U32(index) },
        ],
        iface_check(Direction::Out, index) == seq![
            Expr::Meta(Meta::Oif),
            Expr::Compare { op: CompareOp::Eq, data: Operand::U32(index) },
        ],
{
}

/// What a check of a transport layer protocol number holds.
pub proof fn law_l4number_check(number: u8)
    ensures
        l4number_check(number) == seq![
            Expr::Meta(Meta::L4Proto),
            Expr::Compare { op: CompareOp::Eq, data: Operand::U8(number) },
        ],
{
}

/// What a check of an IPv4 address holds.
pub proof fn law_v4_check(addr: Ipv4Addr, end: End)
    ensures
        ip_check(end, IpAddr::V4(addr)) == seq![
            Expr::Meta(Meta::NfProto),
            Expr::Compare { op: CompareOp::Eq, data: Operand::U8(2) },
            Expr::Payload(
                match end {
                    End::Src => Payload::Ipv4Saddr,
                    End::Dst => Payload::Ipv4Daddr,
                },
            ),
            Expr::Compare { op: CompareOp::Eq, data: Operand::V4(addr) },
        ],
        l3proto_check(IpAddr::V4(addr)) == ip_check(end, IpAddr::V4(addr)).take(2),
{
}

/// What a check of an IPv6 address holds.
pub proof fn law_v6_check(addr: Ipv6Addr, end: End)
    ensures
        ip_check(end, IpAddr::V6(addr)) == seq![
            Expr::Meta(Meta::NfProto),
            Expr::Compare { op: CompareOp::Eq, data: Operand::U8(10) },
            Expr::Payload(
                match end {
                    End::Src => Payload::Ipv6Saddr,
                    End::Dst => Payload::Ipv6Daddr,
                },
            ),
            Expr::Compare { op: CompareOp::Eq, data: Operand::V6(addr) },
        ],
        l3proto_check(IpAddr::V6(addr)) == ip_check(end, IpAddr::V6(addr)).take(2),
{
}

/// What a check of an IPv4 network holds. Of the mask, the bits within the prefix are ones and
/// the others zeros.
pub proof fn law_v4_net_check(net: Ipv4Network, end: End)
    ensures
        ({
            let check = net_check(end, IpNetwork::V4(net));
            &&& check.len() == 5
            &&& check[0] == Expr::Meta(Meta::NfProto)
            &&& check[1] == (Expr::Compare { op: CompareOp::Eq, data: Operand::U8(2) })
            &&& check[2] == Expr::Payload(
                match end {
                    End::Src => Payload::Ipv4Saddr,
                    End::Dst => Payload::Ipv4Daddr,
                },
            )
            &&& check[3] matches Expr::Bitwise { mask: Operand::V4(mask), xor: Operand::V4(xor) }
                && xor.bits == 0 && mask.bits == v4_mask(net.prefix)
            &&& check[4] == (Expr::Compare { op: CompareOp::Eq, data: Operand::V4(net.addr) })
        }),
{
}

/// What a check of an IPv6 network holds. Of the mask, the bits within the prefix are ones and
/// the others zeros.
pub proof fn law_v6_net_check(net: Ipv6Network, end: End)
    ensures
        ({
            let check = net_check(end, IpNetwork::V6(net));
            &&& check.len() == 5
            &&& check[0] == Expr::Meta(Meta::NfProto)
            &&& check[1] == (Expr::Compare { op: CompareOp::Eq, data: Operand::U8(10) })
            &&& check[2] == Expr::Payload(
                match end {
                    End::Src => Payload::Ipv6Saddr,
                    End::Dst => Payload::Ipv6Daddr,
                },
            )
            &&& check[3] matches Expr::Bitwise { mask: Operand::V6(mask), xor: Operand::V6(xor) }
                && xor.bits == 0 && mask.bits == v6_mask(net.prefix)
            &&& check[4] == (Expr::Compare { op: CompareOp::Eq, data: Operand::V6(net.addr) })
        }),
{
}

/// What a check of a port holds. The port is compared by its two bytes, the most significant one
/// first.
pub proof fn law_port_check(protocol: TransportProtocol, end: End, port: u16)
    ensures
        ({
            let check = port_check(protocol, end, port);
            &&& check.len() == 4
            &&& check[0] == Expr::Meta(Meta::L4Proto)
            &&& check[1] == (Expr::Compare {
                op: CompareOp::Eq,
                data: Operand::U8(
                    match protocol {
                        TransportProtocol::Udp => 17,
                        TransportProtocol::Tcp => 6,
                    },
                ),
            })
            &&& check[2] == Expr::Payload(
                match (protocol, end) {
                    (TransportProtocol::Udp, End::Src) => Payload::UdpSport,
                    (TransportProtocol::Udp, End::Dst) => Payload::UdpDport,
                    (TransportProtocol::Tcp, End::Src) => Payload::TcpSport,
                    (TransportProtocol::Tcp, End::Dst) => Payload::TcpDport,
                },
            )
            &&& check[3] matches Expr::Compare {
                op: CompareOp::Eq,
                data: Operand::U16 { high, low },
            } && high * 256 + low == port
        }),
{
    assert(port == 256 * (port / 256) + port % 256);
}

/// A check of an endpoint is one of its address, then one of its port.
pub proof fn law_endpoint_check(end: End, ip: IpAddr, port: u16, protocol: TransportProtocol)
    ensures
        endpoint_check(end, Endpoint { address: SocketAddr { ip, port }, protocol }) == ip_check(
            end,
            ip,
        ) + port_check(protocol, end, port),
{
}

/// What a check for an ICMPv6 message holds.
pub proof fn law_icmpv6_check(message_type: u8)
    ensures
        icmpv6_check(message_type) == seq![
            Expr::Meta(Meta::L4Proto),
            Expr::Compare { op: CompareOp::Eq, data: Operand::U8(58) },
            Expr::Payload(Payload::Icmpv6Type),
            Expr::Compare { op: CompareOp::Eq, data: Operand::U8(message_type) },
            Expr::Payload(Payload::Icmpv6Code),
            Expr::Compare { op: CompareOp::Eq, data: Operand::U8(0) },
        ],
{
}

/// What a check for an established connection holds.
pub proof fn law_established_check()
    ensures
        established_check() == seq![
            Expr::CtState,
            Expr::Bitwise { mask: Operand::U32(2), xor: Operand::U32(0) },
            Expr::Compare { op: CompareOp::Neq, data: Operand::U32(0) },
        ],
{
}

/// How a rule ends: with its verdict, which a packet counter may precede.
pub proof fn law_verdict_exprs(verdict: Verdict)
    ensures
        verdict_exprs(verdict, false) == seq![Expr::Verdict(verdict)],
        verdict_exprs(verdict, true) == seq![Expr::Counter, Expr::Verdict(verdict)],
{
}

/// Rules are built by adding expressions at their end.
pub proof fn law_rules_grow_at_the_end(rule: RuleView, exprs: Seq<Expr>, chain: ChainName)
    ensures
        RuleView::empty(chain).chain == chain,
        RuleView::empty(chain).exprs.len() == 0,
        rule.with(exprs).chain == rule.chain,
        rule.with(exprs).exprs == rule.exprs + exprs,
{
}

/// Everything is let through on an interface.
pub proof fn law_interface_rules(out_index: u32, in_index: u32, counters: bool)
    ensures
        ({
            let all = rules::interface_rules(out_index, in_index, counters);
            &&& all.len() == 2
            &&& all[0].chain == ChainName::Output
            &&& all[0].exprs
                == iface_check(Direction::Out, out_index) + verdict_exprs(Verdict::Accept, counters)
            &&& all[1].chain == ChainName::Input
            &&& all[1].exprs
                == iface_check(Direction::In, in_index) + verdict_exprs(Verdict::Accept, counters)
        }),
{
    let all = rules::interface_rules(out_index, in_index, counters);
    assert(all[0].exprs =~= iface_check(Direction::Out, out_index)
        + verdict_exprs(Verdict::Accept, counters));
    assert(all[1].exprs =~= iface_check(Direction::In, in_index)
        + verdict_exprs(Verdict::Accept, counters));
}

/// A single rule for an interface.
pub proof fn law_interface_rule(chain: Chain, direction: Direction, index: u32, counters: bool)
    ensures
        interface_rule(chain, direction, index, counters).chain == chain.name,
        interface_rule(chain, direction, index, counters).exprs == iface_check(direction, index)
            + verdict_exprs(Verdict::Accept, counters),
{
    assert(interface_rule(chain, direction, index, counters).exprs =~= iface_check(direction, index)
        + verdict_exprs(Verdict::Accept, counters));
}

/// DHCPv4 requests go out from the client port to the server port, to everyone. Responses come in
/// from the server port to the client port.
pub proof fn law_dhcpv4_client_rules(params: ParametersView, counters: bool)
    ensures
        ({
            let all = rules::dhcpv4_client_rules(params, counters);
            &&& all.len() == 2
            &&& all[0].chain == ChainName::Output
            &&& all[0].exprs
                == port_check(TransportProtocol::Udp, End::Src, params.dhcpv4_client_port)
                + ip_check(End::Dst, IpAddr::V4(Ipv4Addr { bits: 0xffff_ffff }))
                + port_check(TransportProtocol::Udp, End::Dst, params.dhcpv4_server_port)
                + verdict_exprs(Verdict::Accept, counters)
            &&& all[1].chain == ChainName::Input
            &&& all[1].exprs
                == port_check(TransportProtocol::Udp, End::Src, params.dhcpv4_server_port)
                + port_check(TransportProtocol::Udp, End::Dst, params.dhcpv4_client_port)
                + verdict_exprs(Verdict::Accept, counters)
        }),
{
    let all = rules::dhcpv4_client_rules(params, counters);
    assert(all[0].exprs =~= port_check(TransportProtocol::Udp, End::Src, params.dhcpv4_client_port)
        + ip_check(End::Dst, IpAddr::V4(Ipv4Addr { bits: 0xffff_ffff }))
        + port_check(TransportProtocol::Udp, End::Dst, params.dhcpv4_server_port)
        + verdict_exprs(Verdict::Accept, counters));
    assert(all[1].exprs =~= port_check(TransportProtocol::Udp, End::Src, params.dhcpv4_server_port)
        + port_check(TransportProtocol::Udp, End::Dst, params.dhcpv4_client_port)
        + verdict_exprs(Verdict::Accept, counters));
}

/// DHCPv6 requests go out from the client port of a link-local address to the server port of each
/// server.
pub proof fn law_dhcpv6_request_rules(
    params: ParametersView,
    servers: Seq<Ipv6Addr>,
    counters: bool,
    i: int,
)
    requires
        0 <= i < servers.len(),
    ensures
        rules::dhcpv6_request_rules(params, servers, counters).len() == servers.len(),
        rules::dhcpv6_request_rules(params, servers, counters)[i].chain == ChainName::Output,
        rules::dhcpv6_request_rules(params, servers, counters)[i].exprs
            == net_check(End::Src, IpNetwork::V6(params.ipv6_link_local))
            + port_check(TransportProtocol::Udp, End::Src, params.dhcpv6_client_port)
            + ip_check(End::Dst, IpAddr::V6(servers[i]))
            + port_check(TransportProtocol::Udp, End::Dst, params.dhcpv6_server_port)
            + verdict_exprs(Verdict::Accept, counters),
{
    assert(rules::dhcpv6_request_rules(params, servers, counters)[i].exprs
        =~= net_check(End::Src, IpNetwork::V6(params.ipv6_link_local))
        + port_check(TransportProtocol::Udp, End::Src, params.dhcpv6_client_port)
        + ip_check(End::Dst, IpAddr::V6(servers[i]))
        + port_check(TransportProtocol::Udp, End::Dst, params.dhcpv6_server_port)
        + verdict_exprs(Verdict::Accept, counters));
}

/// DHCPv6 responses come in from the server port to the client port, between link-local addresses.
pub proof fn law_dhcpv6_response_rule(params: ParametersView, counters: bool)
    ensures
        rules::dhcpv6_response_rule(params, counters).chain == ChainName::Input,
        rules::dhcpv6_response_rule(params, counters).exprs
            == net_check(End::Src, IpNetwork::V6(params.ipv6_link_local))
            + port_check(TransportProtocol::Udp, End::Src, params.dhcpv6_server_port)
            + net_check(End::Dst, IpNetwork::V6(params.ipv6_link_local))
            + port_check(TransportProtocol::Udp, End::Dst, params.dhcpv6_client_port)
            + verdict_exprs(Verdict::Accept, counters),
{
    assert(rules::dhcpv6_response_rule(params, counters).exprs
        =~= net_check(End::Src, IpNetwork::V6(params.ipv6_link_local))
        + port_check(TransportProtocol::Udp, End::Src, params.dhcpv6_server_port)
        + net_check(End::Dst, IpNetwork::V6(params.ipv6_link_local))
        + port_check(TransportProtocol::Udp, End::Dst, params.dhcpv6_client_port)
        + verdict_exprs(Verdict::Accept, counters));
}

/// Router solicitations go out to all routers. Router advertisements and redirects come in from
/// link-local addresses.
pub proof fn law_ndp_rules(params: ParametersView, counters: bool)
    ensures
        ({
            let all = rules::ndp_rules(params, counters);
            &&& all.len() == 3
            &&& all[0].chain == ChainName::Output
            &&& all[0].exprs
                == ip_check(End::Dst, IpAddr::V6(params.router_solicitation_out_dst_addr))
                + icmpv6_check(133) + verdict_exprs(Verdict::Accept, counters)
            &&& all[1].chain == ChainName::Input
            &&& all[1].exprs == net_check(End::Src, IpNetwork::V6(params.ipv6_link_local))
                + icmpv6_check(134) + verdict_exprs(Verdict::Accept, counters)
            &&& all[2].chain == ChainName::Input
            &&& all[2].exprs == net_check(End::Src, IpNetwork::V6(params.ipv6_link_local))
                + icmpv6_check(137) + verdict_exprs(Verdict::Accept, counters)
        }),
{
    let all = rules::ndp_rules(params, counters);
    assert(all[0].exprs =~= ip_check(End::Dst, IpAddr::V6(params.router_solicitation_out_dst_addr))
        + icmpv6_check(133) + verdict_exprs(Verdict::Accept, counters));
    assert(all[1].exprs =~= net_check(End::Src, IpNetwork::V6(params.ipv6_link_local))
        + icmpv6_check(134) + verdict_exprs(Verdict::Accept, counters));
    assert(all[2].exprs =~= net_check(End::Src, IpNetwork::V6(params.ipv6_link_local))
        + icmpv6_check(137) + verdict_exprs(Verdict::Accept, counters));
}

/// What this host needs to configure its own addresses, in order.
pub proof fn law_dhcp_client_rules(params: ParametersView, counters: bool)
    ensures
        rules::dhcp_client_rules(params, counters) == rules::dhcpv4_client_rules(params, counters)
            + rules::dhcpv6_request_rules(params, params.dhcpv6_server_addrs, counters) + seq![
            rules::dhcpv6_response_rule(params, counters),
        ] + rules::ndp_rules(params, counters),
{
}

/// What comes from an endpoint is let in on established connections, what goes to it is let out.
pub proof fn law_endpoint_rules(endpoint: Endpoint, counters: bool)
    ensures
        ({
            let all = rules::endpoint_rules(endpoint, counters);
            &&& all.len() == 2
            &&& all[0].chain == ChainName::Input
            &&& all[0].exprs == endpoint_check(End::Src, endpoint) + established_check()
                + verdict_exprs(Verdict::Accept, counters)
            &&& all[1].chain == ChainName::Output
            &&& all[1].exprs
                == endpoint_check(End::Dst, endpoint) + verdict_exprs(Verdict::Accept, counters)
        }),
{
    let all = rules::endpoint_rules(endpoint, counters);
    assert(all[0].exprs =~= endpoint_check(End::Src, endpoint) + established_check()
        + verdict_exprs(Verdict::Accept, counters));
    assert(all[1].exprs =~= endpoint_check(End::Dst, endpoint)
        + verdict_exprs(Verdict::Accept, counters));
}

/// Control messages of the family of a host go out to it and come in from it.
pub proof fn law_ping_rules(host: IpAddr, counters: bool)
    ensures
        ({
            let all = rules::ping_rules(host, counters);
            &&& all.len() == 2
            &&& all[0].chain == ChainName::Output
            &&& all[0].exprs == ip_check(End::Dst, host) + l4number_check(
                if host is V4 {
                    1
                } else {
                    58
                },
            ) + verdict_exprs(Verdict::Accept, counters)
            &&& all[1].chain == ChainName::Input
            &&& all[1].exprs == ip_check(End::Src, host) + l4number_check(
                if host is V4 {
                    1
                } else {
                    58
                },
            ) + verdict_exprs(Verdict::Accept, counters)
        }),
{
    let all = rules::ping_rules(host, counters);
    assert(all[0].exprs =~= ip_check(End::Dst, host) + l4number_check(
                if host is V4 {
                    1
                } else {
                    58
                },
            ) + verdict_exprs(Verdict::Accept, counters));
    assert(all[1].exprs =~= ip_check(End::Src, host) + l4number_check(
                if host is V4 {
                    1
                } else {
                    58
                },
            ) + verdict_exprs(Verdict::Accept, counters));
}

/// Without hosts, networks or servers there are no rules for them.
pub proof fn law_nothing_takes_no_rules(params: ParametersView, counters: bool)
    ensures
        rules::pingable_hosts_rules(Seq::empty(), counters).len() == 0,
        rules::lan_nets_rules(Seq::empty(), counters).len() == 0,
        rules::multicast_rules(Seq::empty(), counters).len() == 0,
        rules::block_tunnel_ips_rules(Seq::empty(), counters).len() == 0,
        rules::dhcpv6_request_rules(params, Seq::empty(), counters).len() == 0,
{
}

/// A DNS query goes out on an interface, to port 53 of a host.
pub proof fn law_dns_rule(index: u32, protocol: TransportProtocol, host: IpAddr, counters: bool)
    ensures
        rules::dns_rule(index, protocol, host, counters).chain == ChainName::Output,
        rules::dns_rule(index, protocol, host, counters).exprs == iface_check(
            Direction::Out,
            index,
        ) + port_check(protocol, End::Dst, 53) + ip_check(End::Dst, host)
            + verdict_exprs(Verdict::Accept, counters),
{
    assert(rules::dns_rule(index, protocol, host, counters).exprs =~= iface_check(
        Direction::Out,
        index,
    ) + port_check(protocol, End::Dst, 53) + ip_check(End::Dst, host)
        + verdict_exprs(Verdict::Accept, counters));
}

/// DNS queries go out to every gateway of a tunnel, each by a rule with an index of its own.
pub proof fn law_dns_rules(
    indices: Seq<u32>,
    tunnel: TunnelView,
    protocol: TransportProtocol,
    counters: bool,
)
    ensures
        rules::gateway_count(tunnel) == 1 + (if tunnel.ipv6_gateway is Some {
            1int
        } else {
            0
        }),
        rules::dns_rules(indices, tunnel, protocol, counters).len() == rules::gateway_count(tunnel),
        rules::dns_rules(indices, tunnel, protocol, counters)[0] == rules::dns_rule(
            indices[0],
            protocol,
            IpAddr::V4(tunnel.ipv4_gateway),
            counters,
        ),
        tunnel.ipv6_gateway matches Some(gateway) ==> rules::dns_rules(
            indices,
            tunnel,
            protocol,
            counters,
        )[1] == rules::dns_rule(indices[1], protocol, IpAddr::V6(gateway), counters),
{
}

/// No other DNS query goes out, over UDP or TCP.
pub proof fn law_drop_dns_rules(counters: bool)
    ensures
        ({
            let all = rules::drop_dns_rules(counters);
            &&& all.len() == 2
            &&& all[0].chain == ChainName::Output
            &&& all[0].exprs
                == port_check(TransportProtocol::Udp, End::Dst, 53)
                    + verdict_exprs(Verdict::Drop, counters)
            &&& all[1].chain == ChainName::Output
            &&& all[1].exprs
                == port_check(TransportProtocol::Tcp, End::Dst, 53)
                    + verdict_exprs(Verdict::Drop, counters)
        }),
{
    let all = rules::drop_dns_rules(counters);
    assert(all[0].exprs =~= port_check(TransportProtocol::Udp, End::Dst, 53)
        + verdict_exprs(Verdict::Drop, counters));
    assert(all[1].exprs =~= port_check(TransportProtocol::Tcp, End::Dst, 53)
        + verdict_exprs(Verdict::Drop, counters));
}

/// Traffic with a local network goes out and comes in.
pub proof fn law_lan_net_rules(net: IpNetwork, counters: bool)
    ensures
        ({
            let all = rules::lan_net_rules(net, counters);
            &&& all.len() == 2
            &&& all[0].chain == ChainName::Output
            &&& all[0].exprs == net_check(End::Dst, net) + verdict_exprs(Verdict::Accept, counters)
            &&& all[1].chain == ChainName::Input
            &&& all[1].exprs == net_check(End::Src, net) + verdict_exprs(Verdict::Accept, counters)
        }),
{
    let all = rules::lan_net_rules(net, counters);
    assert(all[0].exprs =~= net_check(End::Dst, net) + verdict_exprs(Verdict::Accept, counters));
    assert(all[1].exprs =~= net_check(End::Src, net) + verdict_exprs(Verdict::Accept, counters));
}

/// Each local network gets a pair of rules of its own, in order.
pub proof fn law_each_lan_net_has_its_pair(nets: Seq<IpNetwork>, counters: bool, i: int)
    requires
        0 <= i < nets.len(),
    ensures
        rules::lan_nets_rules(nets, counters).len() == 2 * nets.len(),
        rules::lan_nets_rules(nets, counters).subrange(2 * i, 2 * i + 2) == rules::lan_net_rules(
            nets[i],
            counters,
        ),
    decreases nets.len(),
{
    let all = rules::lan_nets_rules(nets, counters);
    let before = nets.drop_last();
    if before.len() > 0 {
        let j = if i < before.len() {
            i
        } else {
            0
        };
        law_each_lan_net_has_its_pair(before, counters, j);
    } else {
        assert(rules::lan_nets_rules(before, counters) =~= Seq::empty());
    }
    if i < before.len() {
        assert(all.subrange(2 * i, 2 * i + 2) =~= rules::lan_nets_rules(before, counters).subrange(
            2 * i,
            2 * i + 2,
        ));
    } else {
        assert(all.subrange(2 * i, 2 * i + 2) =~= rules::lan_net_rules(nets[i], counters));
    }
}

/// Traffic goes out to each multicast network.
pub proof fn law_multicast_rules(nets: Seq<IpNetwork>, counters: bool, i: int)
    requires
        0 <= i < nets.len(),
    ensures
        rules::multicast_rules(nets, counters).len() == nets.len(),
        rules::multicast_rules(nets, counters)[i].chain == ChainName::Output,
        rules::multicast_rules(nets, counters)[i].exprs == net_check(End::Dst, nets[i])
            + verdict_exprs(Verdict::Accept, counters),
{
    assert(rules::multicast_rules(nets, counters)[i].exprs =~= net_check(End::Dst, nets[i])
        + verdict_exprs(Verdict::Accept, counters));
}

/// DHCPv4 responses go out from the server port to the client port. Requests come in from the
/// client port to the server port, to everyone.
pub proof fn law_dhcp_server_rules(params: ParametersView, counters: bool)
    ensures
        ({
            let all = rules::dhcp_server_rules(params, counters);
            &&& all.len() == 2
            &&& all[0].chain == ChainName::Output
            &&& all[0].exprs
                == port_check(TransportProtocol::Udp, End::Src, params.dhcpv4_server_port)
                + port_check(TransportProtocol::Udp, End::Dst, params.dhcpv4_client_port)
                + verdict_exprs(Verdict::Accept, counters)
            &&& all[1].chain == ChainName::Input
            &&& all[1].exprs
                == port_check(TransportProtocol::Udp, End::Src, params.dhcpv4_client_port)
                + ip_check(End::Dst, IpAddr::V4(Ipv4Addr { bits: 0xffff_ffff }))
                + port_check(TransportProtocol::Udp, End::Dst, params.dhcpv4_server_port)
                + verdict_exprs(Verdict::Accept, counters)
        }),
{
    let all = rules::dhcp_server_rules(params, counters);
    assert(all[0].exprs =~= port_check(TransportProtocol::Udp, End::Src, params.dhcpv4_server_port)
        + port_check(TransportProtocol::Udp, End::Dst, params.dhcpv4_client_port)
        + verdict_exprs(Verdict::Accept, counters));
    assert(all[1].exprs =~= port_check(TransportProtocol::Udp, End::Src, params.dhcpv4_client_port)
        + ip_check(End::Dst, IpAddr::V4(Ipv4Addr { bits: 0xffff_ffff }))
        + port_check(TransportProtocol::Udp, End::Dst, params.dhcpv4_server_port)
        + verdict_exprs(Verdict::Accept, counters));
}

/// What the local network needs, in order, and only if it is let through.
pub proof fn law_lan_rules(params: ParametersView, counters: bool)
    ensures
        rules::lan_rules(params, counters) == rules::lan_nets_rules(
            params.allowed_lan_nets,
            counters,
        ) + rules::multicast_rules(params.allowed_lan_multicast_nets, counters)
            + rules::dhcp_server_rules(params, counters),
        rules::lan_rules_if(true, params, counters) == rules::lan_rules(params, counters),
        rules::lan_rules_if(false, params, counters).len() == 0,
{
}

/// The rules of a policy, in order: loopback, what configures addresses, what only this policy
/// has, and the local network if it is let through.
pub proof fn law_policy_rules(
    policy: PolicyView,
    params: ParametersView,
    indices: Seq<u32>,
    counters: bool,
)
    ensures
        rules::policy_rules(policy, params, indices, counters) == rules::interface_rules(
            indices[0],
            indices[1],
            counters,
        ) + rules::dhcp_client_rules(params, counters) + rules::specific_rules(
            policy,
            indices.skip(2),
            counters,
        ) + (if match policy {
            PolicyView::Connecting { allow_lan, .. } => allow_lan,
            PolicyView::Connected { allow_lan, .. } => allow_lan,
            PolicyView::Blocked { allow_lan } => allow_lan,
        } {
            rules::lan_rules(params, counters)
        } else {
            Seq::empty()
        }),
{
}

/// The rules that only one kind of policy has, in order. Each rule that checks the tunnel interface
/// takes the next index.
pub proof fn law_specific_rules(policy: PolicyView, indices: Seq<u32>, counters: bool)
    ensures
        policy matches PolicyView::Blocked { .. } ==> rules::specific_rules(
            policy,
            indices,
            counters,
        ) == rules::drop_dns_rules(counters),
        policy matches PolicyView::Connecting { peer_endpoint, pingable_hosts, .. }
            ==> rules::specific_rules(policy, indices, counters) == rules::pingable_hosts_rules(
            pingable_hosts,
            counters,
        ) + rules::endpoint_rules(peer_endpoint, counters) + rules::drop_dns_rules(counters),
        policy matches PolicyView::Connected { peer_endpoint, tunnel, allow_lan } ==> {
            let count = if tunnel.ipv6_gateway is Some {
                2int
            } else {
                1
            };
            rules::specific_rules(policy, indices, counters) == rules::endpoint_rules(
                peer_endpoint,
                counters,
            ) + rules::dns_rules(indices, tunnel, TransportProtocol::Udp, counters)
                + rules::dns_rules(indices.skip(count), tunnel, TransportProtocol::Tcp, counters)
                + rules::drop_dns_rules(counters) + rules::interface_rules(
                indices[2 * count],
                indices[2 * count + 1],
                counters,
            ) + (if allow_lan {
                rules::block_tunnel_ips_rules(tunnel.ips, counters)
            } else {
                Seq::empty()
            })
        },
{
    if let PolicyView::Connected { peer_endpoint, tunnel, allow_lan } = policy {
        let count = rules::gateway_count(tunnel);
        let block = if allow_lan {
            rules::block_tunnel_ips_rules(tunnel.ips, counters)
        } else {
            Seq::empty()
        };
        assert(rules::specific_rules(policy, indices, counters) =~= rules::endpoint_rules(
            peer_endpoint,
            counters,
        ) + rules::dns_rules(indices, tunnel, TransportProtocol::Udp, counters) + rules::dns_rules(
            indices.skip(count),
            tunnel,
            TransportProtocol::Tcp,
            counters,
        ) + rules::drop_dns_rules(counters) + rules::interface_rules(
            indices[2 * count],
            indices[2 * count + 1],
            counters,
        ) + block);
    }
}

/// The two chains: each sees one direction, and drops what no rule decides on.
pub proof fn law_chains()
    ensures
        output_chain() == (Chain {
            name: ChainName::Output,
            hook: Hook::Out,
            priority: 0,
            policy: Verdict::Drop,
        }),
        input_chain() == (Chain {
            name: ChainName::Input,
            hook: Hook::In,
            priority: 0,
            policy: Verdict::Drop,
        }),
{
}

/// The messages of a batch: the table is added, removed and added again, the chains are added, and
/// then one message adds each rule, in order.
pub proof fn law_policy_batch(
    table: TableView,
    policy: PolicyView,
    params: ParametersView,
    indices: Seq<u32>,
    counters: bool,
)
    ensures
        ({
            let batch = policy_batch(table, policy, params, indices, counters);
            let added = rules::policy_rules(policy, params, indices, counters);
            &&& batch.table == table
            &&& batch.messages.len() == 5 + added.len()
            &&& batch.messages[0] == (MessageView {
                object: ObjectView::Table,
                msg_type: MsgType::Add,
            })
            &&& batch.messages[1] == (MessageView {
                object: ObjectView::Table,
                msg_type: MsgType::Del,
            })
            &&& batch.messages[2] == (MessageView {
                object: ObjectView::Table,
                msg_type: MsgType::Add,
            })
            &&& batch.messages[3] == (MessageView {
                object: ObjectView::Chain(output_chain()),
                msg_type: MsgType::Add,
            })
            &&& batch.messages[4] == (MessageView {
                object: ObjectView::Chain(input_chain()),
                msg_type: MsgType::Add,
            })
            &&& forall|i: int|
                0 <= i < added.len() ==> #[trigger] batch.messages[i + 5] == (MessageView {
                    object: ObjectView::Rule(added[i]),
                    msg_type: MsgType::Add,
                })
            &&& batch == bootstrap(table).add_rules(added)
        }),
{
}

/// Batches grow at their end.
pub proof fn law_batches_grow_at_the_end(
    batch: BatchView,
    object: ObjectView,
    msg_type: MsgType,
    added: Seq<RuleView>,
    i: int,
)
    ensures
        batch.push(object, msg_type).table == batch.table,
        batch.push(object, msg_type).messages == batch.messages.push(
            MessageView { object, msg_type },
        ),
        batch.add_rules(added).table == batch.table,
        batch.add_rules(added).messages == batch.messages + rule_messages(added),
        rule_messages(added).len() == added.len(),
        0 <= i < added.len() ==> rule_messages(added)[i] == (MessageView {
            object: ObjectView::Rule(added[i]),
            msg_type: MsgType::Add,
        }),
{
}

/// What adding rules does to a batch that is being filled: the rules are added at its end, and
/// nothing else changes.
pub proof fn law_states_grow_at_the_end(state: PolicyBatchView, added: Seq<RuleView>)
    ensures
        state.add_rules(added).batch == state.batch.add_rules(added),
        state.add_rules(added).params == state.params,
        state.add_rules(added).counters == state.counters,
        state.add_rules(added).indices == state.indices,
        state.add_rules(added).failure == state.failure,
{
}

/// What adding rules that check an interface does to a batch that is being filled. If there are
/// indices for all of them, each takes one. If not, those with an index are added, and the result
/// names the interface and the cause.
pub proof fn law_states_take_indices(
    state: PolicyBatchView,
    added: Seq<RuleView>,
    iface: Seq<char>,
    after: PolicyBatchView,
    result: Result<(), Error>,
)
    requires
        state.extended(added, iface, after, result),
    ensures
        after.params == state.params,
        after.counters == state.counters,
        added.len() <= state.indices.len() ==> result is Ok && after.batch == state.batch.add_rules(
            added,
        ) && after.indices == state.indices.skip(added.len() as int) && after.failure
            == state.failure,
        added.len() > state.indices.len() ==> (result matches Err(
            Error::LookupIfaceIndexError(name, source),
        ) && name@ == iface && state.failure == Some(source)) && after.batch
            == state.batch.add_rules(added.take(state.indices.len() as int)) && after.indices.len()
            == 0 && after.failure is None,
{
}

/// How many indices of the tunnel interface a policy takes.
pub proof fn law_tunnel_indices(policy: PolicyView)
    ensures
        lookups_left(policy) == match policy {
            PolicyView::Connected { tunnel, .. } => if tunnel.ipv6_gateway is Some {
                6int
            } else {
                4
            },
            _ => 0,
        },
{
}

/// The messages that reset the firewall: the table is added and removed.
pub proof fn law_reset_batch(table: TableView)
    ensures
        reset_batch(table).table == table,
        reset_batch(table).messages == seq![
            MessageView { object: ObjectView::Table, msg_type: MsgType::Add },
            MessageView { object: ObjectView::Table, msg_type: MsgType::Del },
        ],
{
}

/// The models of tables, chains, rules and messages hold what these hold.
pub proof fn law_netfilter_models(
    table: Table,
    rule: Rule,
    object: Object,
    message: Message,
    batch: Batch,
    i: int,
)
    ensures
        table@.name == table.name@ && table@.family == table.family,
        rule@.chain == rule.chain && rule@.exprs == rule.exprs@,
        object is Table <==> object@ is Table,
        object matches Object::Chain(chain) ==> object@ == ObjectView::Chain(chain),
        object matches Object::Rule(rule) ==> object@ == ObjectView::Rule(rule@),
        message@.object == message.object@ && message@.msg_type == message.msg_type,
        batch@.table == batch.table@,
        batch@.messages.len() == batch.messages@.len(),
        0 <= i < batch.messages@.len() ==> batch@.messages[i] == batch.messages@[i]@,
{
}

/// The models of policies and parameters hold what these hold.
pub proof fn law_policy_models(
    policy: FirewallPolicy,
    tunnel: TunnelMetadata,
    params: NetworkParameters,
)
    ensures
        policy matches FirewallPolicy::Connecting { peer_endpoint, pingable_hosts, allow_lan }
            ==> policy@ == (PolicyView::Connecting {
            peer_endpoint,
            pingable_hosts: pingable_hosts@,
            allow_lan,
        }),
        policy matches FirewallPolicy::Connected { peer_endpoint, tunnel, allow_lan } ==> policy@
            == (PolicyView::Connected { peer_endpoint, tunnel: tunnel@, allow_lan }),
        policy matches FirewallPolicy::Blocked { allow_lan } ==> policy@ == (PolicyView::Blocked {
            allow_lan,
        }),
        tunnel@.interface == tunnel.interface@,
        tunnel@.ips == tunnel.ips@,
        tunnel@.ipv4_gateway == tunnel.ipv4_gateway,
        tunnel@.ipv6_gateway == tunnel.ipv6_gateway,
        params@.dhcpv4_server_port == params.dhcpv4_server_port,
        params@.dhcpv4_client_port == params.dhcpv4_client_port,
        params@.dhcpv6_server_port == params.dhcpv6_server_port,
        params@.dhcpv6_client_port == params.dhcpv6_client_port,
        params@.dhcpv6_server_addrs == params.dhcpv6_server_addrs@,
        params@.ipv6_link_local == params.ipv6_link_local,
        params@.router_solicitation_out_dst_addr == params.router_solicitation_out_dst_addr,
        params@.allowed_lan_nets == params.allowed_lan_nets@,
        params@.allowed_lan_multicast_nets == params.allowed_lan_multicast_nets@,
{
}

/// All that is asked of parameters is that no prefix is longer than an address of its family.
pub proof fn law_parameters_are_free(params: ParametersView, net: IpNetwork)
    ensures
        net matches IpNetwork::V4(net) ==> (net.wf() <==> net.prefix <= 32),
        net matches IpNetwork::V6(net) ==> (net.wf() <==> net.prefix <= 128),
        net.wf() <==> (match net {
            IpNetwork::V4(net) => net.prefix <= 32,
            IpNetwork::V6(net) => net.prefix <= 128,
        }),
        params.wf() <==> params.ipv6_link_local.prefix <= 128 && (forall|i: int|
            0 <= i < params.allowed_lan_nets.len() ==> (#[trigger] params.allowed_lan_nets[i]).wf())
            && (forall|i: int|
            0 <= i < params.allowed_lan_multicast_nets.len() ==> (
            #[trigger] params.allowed_lan_multicast_nets[i]).wf()),
{
}

/// A lookup is over once there is an index for every name, or one name could not be translated.
pub proof fn law_lookups_are_over(lookups: IfaceLookups, count: nat)
    ensures
        lookups.over(count) <==> lookups.indices@.len() >= count || lookups.failure is Some,
{
}

/// All expected names are found if each of them is among those found.
pub proof fn law_all_found(expected: Seq<Seq<char>>, found: Seq<Seq<char>>)
    ensures
        all_found(expected, found) <==> forall|i: int|
            0 <= i < expected.len() ==> found.contains(#[trigger] expected[i]),
{
}

} // verus!
