//! The rules that each policy stands for.

use vstd::prelude::*;

use crate::checks::{Direction, End};
use crate::checks::{endpoint_check, established_check, icmpv6_check, iface_check, ip_check};
use crate::checks::{l4number_check, net_check, port_check, verdict_exprs};
use crate::net::{Endpoint, IpAddr, IpNetwork, Ipv4Addr, Ipv6Addr, SocketAddr};
use crate::net::{TransportProtocol, TunnelView, IPV4_BROADCAST_BITS};
use crate::nft::{ChainName, RuleView, Verdict};
use crate::policy::{ParametersView, PolicyView};
use crate::proto::{spec_control_proto, DNS_PORT};
use crate::proto::{REDIRECT, ROUTER_ADVERTISEMENT, ROUTER_SOLICITATION};

verus! {

/// The limited broadcast address.
pub open spec fn broadcast() -> IpAddr {
    IpAddr::V4(Ipv4Addr { bits: IPV4_BROADCAST_BITS })
}

/// A rule of the output chain without expressions.
pub open spec fn output() -> RuleView {
    RuleView::empty(ChainName::Output)
}

/// A rule of the input chain without expressions.
pub open spec fn input() -> RuleView {
    RuleView::empty(ChainName::Input)
}

/// The rules that let everything through on an interface.
pub open spec fn interface_rules(out_index: u32, in_index: u32, counters: bool) -> Seq<RuleView> {
    seq![
        output().with(iface_check(Direction::Out, out_index)).with(
            verdict_exprs(Verdict::Accept, counters),
        ),
        input().with(iface_check(Direction::In, in_index)).with(
            verdict_exprs(Verdict::Accept, counters),
        ),
    ]
}

/// The rule that lets a DHCPv6 request out to a server address.
pub open spec fn dhcpv6_request_rule(
    params: ParametersView,
    server: Ipv6Addr,
    counters: bool,
) -> RuleView {
    output().with(net_check(End::Src, IpNetwork::V6(params.ipv6_link_local))).with(
        port_check(TransportProtocol::Udp, End::Src, params.dhcpv6_client_port),
    ).with(ip_check(End::Dst, IpAddr::V6(server))).with(
        port_check(TransportProtocol::Udp, End::Dst, params.dhcpv6_server_port),
    ).with(verdict_exprs(Verdict::Accept, counters))
}

/// The rules that let DHCPv4 requests out and responses in.
pub open spec fn dhcpv4_client_rules(params: ParametersView, counters: bool) -> Seq<RuleView> {
    seq![
        output().with(
            port_check(TransportProtocol::Udp, End::Src, params.dhcpv4_client_port),
        ).with(ip_check(End::Dst, broadcast())).with(
            port_check(TransportProtocol::Udp, End::Dst, params.dhcpv4_server_port),
        ).with(verdict_exprs(Verdict::Accept, counters)),
        input().with(
            port_check(TransportProtocol::Udp, End::Src, params.dhcpv4_server_port),
        ).with(port_check(TransportProtocol::Udp, End::Dst, params.dhcpv4_client_port)).with(
            verdict_exprs(Verdict::Accept, counters),
        ),
    ]
}

/// The rules that let DHCPv6 requests out to the server addresses.
pub open spec fn dhcpv6_request_rules(
    params: ParametersView,
    servers: Seq<Ipv6Addr>,
    counters: bool,
) -> Seq<RuleView> {
    servers.map_values(|server: Ipv6Addr| dhcpv6_request_rule(params, server, counters))
}

/// The rule that lets DHCPv6 responses in.
pub open spec fn dhcpv6_response_rule(params: ParametersView, counters: bool) -> RuleView {
    input().with(net_check(End::Src, IpNetwork::V6(params.ipv6_link_local))).with(
        port_check(TransportProtocol::Udp, End::Src, params.dhcpv6_server_port),
    ).with(net_check(End::Dst, IpNetwork::V6(params.ipv6_link_local))).with(
        port_check(TransportProtocol::Udp, End::Dst, params.dhcpv6_client_port),
    ).with(verdict_exprs(Verdict::Accept, counters))
}

/// The rules that let router solicitations out, and router advertisements and redirects in.
pub open spec fn ndp_rules(params: ParametersView, counters: bool) -> Seq<RuleView> {
    let link_local = IpNetwork::V6(params.ipv6_link_local);
    seq![
        output().with(
            ip_check(End::Dst, IpAddr::V6(params.router_solicitation_out_dst_addr)),
        ).with(icmpv6_check(ROUTER_SOLICITATION)).with(verdict_exprs(Verdict::Accept, counters)),
        input().with(net_check(End::Src, link_local)).with(
            icmpv6_check(ROUTER_ADVERTISEMENT),
        ).with(verdict_exprs(Verdict::Accept, counters)),
        input().with(net_check(End::Src, link_local)).with(icmpv6_check(REDIRECT)).with(
            verdict_exprs(Verdict::Accept, counters),
        ),
    ]
}

/// The rules that let this host configure its own addresses.
pub open spec fn dhcp_client_rules(params: ParametersView, counters: bool) -> Seq<RuleView> {
    dhcpv4_client_rules(params, counters) + dhcpv6_request_rules(
        params,
        params.dhcpv6_server_addrs,
        counters,
    ) + seq![dhcpv6_response_rule(params, counters)] + ndp_rules(params, counters)
}

/// The rules that let through what goes to an endpoint and what comes back from it.
pub open spec fn endpoint_rules(endpoint: Endpoint, counters: bool) -> Seq<RuleView> {
    seq![
        input().with(endpoint_check(End::Src, endpoint)).with(established_check()).with(
            verdict_exprs(Verdict::Accept, counters),
        ),
        output().with(endpoint_check(End::Dst, endpoint)).with(
            verdict_exprs(Verdict::Accept, counters),
        ),
    ]
}

/// The rules that let control messages through to and from a host.
pub open spec fn ping_rules(host: IpAddr, counters: bool) -> Seq<RuleView> {
    seq![
        output().with(ip_check(End::Dst, host)).with(
            l4number_check(spec_control_proto(host)),
        ).with(verdict_exprs(Verdict::Accept, counters)),
        input().with(ip_check(End::Src, host)).with(
            l4number_check(spec_control_proto(host)),
        ).with(verdict_exprs(Verdict::Accept, counters)),
    ]
}

/// The rules that let control messages through to and from each host.
pub open spec fn pingable_hosts_rules(hosts: Seq<IpAddr>, counters: bool) -> Seq<RuleView>
    decreases hosts.len(),
{
    if hosts.len() == 0 {
        Seq::empty()
    } else {
        pingable_hosts_rules(hosts.drop_last(), counters) + ping_rules(hosts.last(), counters)
    }
}

/// The rule that lets DNS queries out to a host on an interface.
pub open spec fn dns_rule(
    index: u32,
    protocol: TransportProtocol,
    host: IpAddr,
    counters: bool,
) -> RuleView {
    output().with(iface_check(Direction::Out, index)).with(
        port_check(protocol, End::Dst, DNS_PORT),
    ).with(ip_check(End::Dst, host)).with(verdict_exprs(Verdict::Accept, counters))
}

/// The number of gateways of a tunnel.
pub open spec fn gateway_count(tunnel: TunnelView) -> int {
    if tunnel.ipv6_gateway is Some {
        2
    } else {
        1
    }
}

/// The rules that let DNS queries out to the gateways of a tunnel. Each rule takes the next
/// index.
pub open spec fn dns_rules(
    indices: Seq<u32>,
    tunnel: TunnelView,
    protocol: TransportProtocol,
    counters: bool,
) -> Seq<RuleView> {
    let v4 = dns_rule(indices[0], protocol, IpAddr::V4(tunnel.ipv4_gateway), counters);
    match tunnel.ipv6_gateway {
        Some(gateway) => seq![v4, dns_rule(indices[1], protocol, IpAddr::V6(gateway), counters)],
        None => seq![v4],
    }
}

/// The rules that let no DNS queries out.
pub open spec fn drop_dns_rules(counters: bool) -> Seq<RuleView> {
    seq![
        output().with(port_check(TransportProtocol::Udp, End::Dst, DNS_PORT)).with(
            verdict_exprs(Verdict::Drop, counters),
        ),
        output().with(port_check(TransportProtocol::Tcp, End::Dst, DNS_PORT)).with(
            verdict_exprs(Verdict::Drop, counters),
        ),
    ]
}

/// The rule that lets nothing in to an address of the tunnel.
pub open spec fn block_tunnel_ip_rule(ip: IpAddr, counters: bool) -> RuleView {
    input().with(ip_check(End::Dst, ip)).with(verdict_exprs(Verdict::Drop, counters))
}

/// The rules that let nothing in to the addresses of the tunnel.
pub open spec fn block_tunnel_ips_rules(ips: Seq<IpAddr>, counters: bool) -> Seq<RuleView> {
    ips.map_values(|ip: IpAddr| block_tunnel_ip_rule(ip, counters))
}

/// The rules that let through traffic with a network.
pub open spec fn lan_net_rules(net: IpNetwork, counters: bool) -> Seq<RuleView> {
    seq![
        output().with(net_check(End::Dst, net)).with(verdict_exprs(Verdict::Accept, counters)),
        input().with(net_check(End::Src, net)).with(verdict_exprs(Verdict::Accept, counters)),
    ]
}

/// The rules that let through traffic with each network.
pub open spec fn lan_nets_rules(nets: Seq<IpNetwork>, counters: bool) -> Seq<RuleView>
    decreases nets.len(),
{
    if nets.len() == 0 {
        Seq::empty()
    } else {
        lan_nets_rules(nets.drop_last(), counters) + lan_net_rules(nets.last(), counters)
    }
}

/// The rule that lets traffic out to a multicast network.
pub open spec fn multicast_rule(net: IpNetwork, counters: bool) -> RuleView {
    output().with(net_check(End::Dst, net)).with(verdict_exprs(Verdict::Accept, counters))
}

/// The rules that let traffic out to each multicast network.
pub open spec fn multicast_rules(nets: Seq<IpNetwork>, counters: bool) -> Seq<RuleView> {
    nets.map_values(|net: IpNetwork| multicast_rule(net, counters))
}

/// The endpoint that DHCPv4 requests go to.
pub open spec fn dhcpv4_request_endpoint(params: ParametersView) -> Endpoint {
    Endpoint {
        address: SocketAddr { ip: broadcast(), port: params.dhcpv4_server_port },
        protocol: TransportProtocol::Udp,
    }
}

/// The rules that let this host serve DHCPv4.
pub open spec fn dhcp_server_rules(params: ParametersView, counters: bool) -> Seq<RuleView> {
    seq![
        output().with(
            port_check(TransportProtocol::Udp, End::Src, params.dhcpv4_server_port),
        ).with(port_check(TransportProtocol::Udp, End::Dst, params.dhcpv4_client_port)).with(
            verdict_exprs(Verdict::Accept, counters),
        ),
        input().with(
            port_check(TransportProtocol::Udp, End::Src, params.dhcpv4_client_port),
        ).with(endpoint_check(End::Dst, dhcpv4_request_endpoint(params))).with(
            verdict_exprs(Verdict::Accept, counters),
        ),
    ]
}

/// The rules that let through traffic with the local network.
pub open spec fn lan_rules(params: ParametersView, counters: bool) -> Seq<RuleView> {
    lan_nets_rules(params.allowed_lan_nets, counters) + multicast_rules(
        params.allowed_lan_multicast_nets,
        counters,
    ) + dhcp_server_rules(params, counters)
}

/// The rules that let through traffic with the local network, if it is allowed.
pub open spec fn lan_rules_if(
    allow_lan: bool,
    params: ParametersView,
    counters: bool,
) -> Seq<RuleView> {
    if allow_lan {
        lan_rules(params, counters)
    } else {
        Seq::empty()
    }
}

/// The rules that a tunnel takes: DNS queries go to its gateways only, everything else may go
/// through the tunnel. Each rule that checks the tunnel interface takes the next index.
pub open spec fn tunnel_rules(
    tunnel: TunnelView,
    indices: Seq<u32>,
    counters: bool,
) -> Seq<RuleView> {
    let count = gateway_count(tunnel);
    dns_rules(indices, tunnel, TransportProtocol::Udp, counters) + dns_rules(
        indices.skip(count),
        tunnel,
        TransportProtocol::Tcp,
        counters,
    ) + drop_dns_rules(counters) + interface_rules(
        indices[2 * count],
        indices[2 * count + 1],
        counters,
    )
}

/// The rules of a policy, but for those that let through the local network. `indices` are those
/// of the tunnel interface.
pub open spec fn specific_rules(
    policy: PolicyView,
    indices: Seq<u32>,
    counters: bool,
) -> Seq<RuleView> {
    match policy {
        PolicyView::Connecting { peer_endpoint, pingable_hosts, .. } => {
            pingable_hosts_rules(pingable_hosts, counters) + endpoint_rules(
                peer_endpoint,
                counters,
            ) + drop_dns_rules(counters)
        },
        PolicyView::Connected { peer_endpoint, tunnel, allow_lan } => {
            endpoint_rules(peer_endpoint, counters) + tunnel_rules(tunnel, indices, counters) + (
            if allow_lan {
                block_tunnel_ips_rules(tunnel.ips, counters)
            } else {
                Seq::empty()
            })
        },
        PolicyView::Blocked { .. } => drop_dns_rules(counters),
    }
}

/// All rules of a policy, in order. `indices` are those of the interfaces that
/// [`crate::policy::iface_names`] lists.
pub open spec fn policy_rules(
    policy: PolicyView,
    params: ParametersView,
    indices: Seq<u32>,
    counters: bool,
) -> Seq<RuleView> {
    interface_rules(indices[0], indices[1], counters) + dhcp_client_rules(params, counters)
        + specific_rules(policy, indices.skip(2), counters) + lan_rules_if(
        policy.allow_lan(),
        params,
        counters,
    )
}

} // verus!
