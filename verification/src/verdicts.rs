//! What becomes of a packet under a policy, in terms of the packet and the policy alone.

use vstd::prelude::*;

use crate::checks::End;
use crate::net::{Endpoint, IpAddr, IpNetwork, Ipv6Addr, TransportProtocol, TunnelView};
use crate::nft::Verdict;
use crate::packet::Packet;
use crate::policy::{ParametersView, PolicyView};
use crate::proto::{spec_control_proto, DNS_PORT};
use crate::proto::{REDIRECT, ROUTER_ADVERTISEMENT, ROUTER_SOLICITATION};
use crate::rules::{broadcast, gateway_count};

verus! {

/// The packet is a DHCPv4 request.
pub open spec fn is_dhcpv4_request(params: ParametersView, packet: Packet) -> bool {
    &&& packet.has_port(TransportProtocol::Udp, End::Src, params.dhcpv4_client_port)
    &&& packet.has_addr(End::Dst, broadcast())
    &&& packet.has_port(TransportProtocol::Udp, End::Dst, params.dhcpv4_server_port)
}

/// The packet is a DHCPv4 response.
pub open spec fn is_dhcpv4_response(params: ParametersView, packet: Packet) -> bool {
    &&& packet.has_port(TransportProtocol::Udp, End::Src, params.dhcpv4_server_port)
    &&& packet.has_port(TransportProtocol::Udp, End::Dst, params.dhcpv4_client_port)
}

/// The packet is a DHCPv6 request to the server.
pub open spec fn is_dhcpv6_request_to(
    params: ParametersView,
    server: Ipv6Addr,
    packet: Packet,
) -> bool {
    &&& packet.in_net(End::Src, IpNetwork::V6(params.ipv6_link_local))
    &&& packet.has_port(TransportProtocol::Udp, End::Src, params.dhcpv6_client_port)
    &&& packet.has_addr(End::Dst, IpAddr::V6(server))
    &&& packet.has_port(TransportProtocol::Udp, End::Dst, params.dhcpv6_server_port)
}

/// The packet is a DHCPv6 request to one of the servers.
pub open spec fn is_dhcpv6_request(params: ParametersView, packet: Packet) -> bool {
    exists|i: int|
        0 <= i < params.dhcpv6_server_addrs.len() && is_dhcpv6_request_to(
            params,
            #[trigger] params.dhcpv6_server_addrs[i],
            packet,
        )
}

/// The packet is a DHCPv6 response.
pub open spec fn is_dhcpv6_response(params: ParametersView, packet: Packet) -> bool {
    &&& packet.in_net(End::Src, IpNetwork::V6(params.ipv6_link_local))
    &&& packet.has_port(TransportProtocol::Udp, End::Src, params.dhcpv6_server_port)
    &&& packet.in_net(End::Dst, IpNetwork::V6(params.ipv6_link_local))
    &&& packet.has_port(TransportProtocol::Udp, End::Dst, params.dhcpv6_client_port)
}

/// The packet is one that this host sends to configure its own addresses.
pub open spec fn configures_out(params: ParametersView, packet: Packet) -> bool {
    ||| is_dhcpv4_request(params, packet)
    ||| is_dhcpv6_request(params, packet)
    ||| packet.has_addr(End::Dst, IpAddr::V6(params.router_solicitation_out_dst_addr))
        && packet.is_icmpv6(ROUTER_SOLICITATION)
}

/// The packet is one that this host receives to configure its own addresses.
pub open spec fn configures_in(params: ParametersView, packet: Packet) -> bool {
    ||| is_dhcpv4_response(params, packet)
    ||| is_dhcpv6_response(params, packet)
    ||| packet.in_net(End::Src, IpNetwork::V6(params.ipv6_link_local)) && (packet.is_icmpv6(
        ROUTER_ADVERTISEMENT,
    ) || packet.is_icmpv6(REDIRECT))
}

/// The packet goes to the endpoint.
pub open spec fn goes_to(endpoint: Endpoint, packet: Packet) -> bool {
    packet.has_addr(End::Dst, endpoint.address.ip) && packet.has_port(
        endpoint.protocol,
        End::Dst,
        endpoint.address.port,
    )
}

/// The packet comes from the endpoint, on a connection that is established.
pub open spec fn comes_from(endpoint: Endpoint, packet: Packet) -> bool {
    &&& packet.has_addr(End::Src, endpoint.address.ip)
    &&& packet.has_port(endpoint.protocol, End::Src, endpoint.address.port)
    &&& packet.established()
}

/// The packet is a control message whose address at an end is that of one of the hosts.
pub open spec fn pings(hosts: Seq<IpAddr>, end: End, packet: Packet) -> bool {
    exists|i: int|
        0 <= i < hosts.len() && packet.has_addr(end, #[trigger] hosts[i]) && packet.l4proto == Some(
            spec_control_proto(hosts[i]),
        )
}

/// The packet is a DNS query.
pub open spec fn is_dns(packet: Packet) -> bool {
    ||| packet.has_port(TransportProtocol::Udp, End::Dst, DNS_PORT)
    ||| packet.has_port(TransportProtocol::Tcp, End::Dst, DNS_PORT)
}

/// The packet is a DNS query over the protocol to a gateway of the tunnel, on the interface
/// whose index the rule for that gateway holds.
pub open spec fn queries_gateway(
    tunnel: TunnelView,
    indices: Seq<u32>,
    protocol: TransportProtocol,
    packet: Packet,
) -> bool {
    packet.has_port(protocol, End::Dst, DNS_PORT) && {
        ||| packet.oif == indices[0] && packet.has_addr(
            End::Dst,
            IpAddr::V4(tunnel.ipv4_gateway),
        )
        ||| tunnel.ipv6_gateway matches Some(gateway) && packet.oif == indices[1]
            && packet.has_addr(End::Dst, IpAddr::V6(gateway))
    }
}

/// The packet is a DNS query to a gateway of the tunnel, through the tunnel.
pub open spec fn queries_gateways(
    tunnel: TunnelView,
    indices: Seq<u32>,
    packet: Packet,
) -> bool {
    ||| queries_gateway(tunnel, indices, TransportProtocol::Udp, packet)
    ||| queries_gateway(
        tunnel,
        indices.skip(gateway_count(tunnel)),
        TransportProtocol::Tcp,
        packet,
    )
}

/// One of the addresses is the destination.
pub open spec fn goes_to_any(addrs: Seq<IpAddr>, packet: Packet) -> bool {
    exists|i: int| 0 <= i < addrs.len() && packet.has_addr(End::Dst, #[trigger] addrs[i])
}

/// The packet goes out to the local network.
pub open spec fn lan_out(params: ParametersView, packet: Packet) -> bool {
    ||| packet.in_nets(End::Dst, params.allowed_lan_nets)
    ||| packet.in_nets(End::Dst, params.allowed_lan_multicast_nets)
    ||| is_dhcpv4_response(params, packet)
}

/// The packet comes in from the local network.
pub open spec fn lan_in(params: ParametersView, packet: Packet) -> bool {
    ||| packet.in_nets(End::Src, params.allowed_lan_nets)
    ||| is_dhcpv4_request(params, packet)
}

/// The outgoing packet is accepted before DNS queries are dropped.
pub open spec fn out_before_dns(policy: PolicyView, indices: Seq<u32>, packet: Packet) -> bool {
    match policy {
        PolicyView::Connecting { peer_endpoint, pingable_hosts, .. } => {
            pings(pingable_hosts, End::Dst, packet) || goes_to(peer_endpoint, packet)
        },
        PolicyView::Connected { peer_endpoint, tunnel, .. } => goes_to(peer_endpoint, packet)
            || queries_gateways(tunnel, indices, packet),
        PolicyView::Blocked { .. } => false,
    }
}

/// The outgoing packet goes through the tunnel.
pub open spec fn out_through_tunnel(
    policy: PolicyView,
    indices: Seq<u32>,
    packet: Packet,
) -> bool {
    match policy {
        PolicyView::Connected { tunnel, .. } => packet.oif == indices[2 * gateway_count(tunnel)],
        _ => false,
    }
}

/// What becomes of a packet that goes out. `indices` are those of the interfaces that
/// [`crate::policy::iface_names`] lists.
pub open spec fn out_verdict(
    policy: PolicyView,
    params: ParametersView,
    indices: Seq<u32>,
    packet: Packet,
) -> Verdict {
    if packet.oif == indices[0] || configures_out(params, packet) || out_before_dns(
        policy,
        indices.skip(2),
        packet,
    ) {
        Verdict::Accept
    } else if is_dns(packet) {
        Verdict::Drop
    } else if out_through_tunnel(policy, indices.skip(2), packet) {
        Verdict::Accept
    } else if policy.allow_lan() && lan_out(params, packet) {
        Verdict::Accept
    } else {
        Verdict::Drop
    }
}

/// The incoming packet comes from a host that the policy talks to, or through the tunnel.
pub open spec fn in_from_peer(policy: PolicyView, indices: Seq<u32>, packet: Packet) -> bool {
    match policy {
        PolicyView::Connecting { peer_endpoint, pingable_hosts, .. } => {
            pings(pingable_hosts, End::Src, packet) || comes_from(peer_endpoint, packet)
        },
        PolicyView::Connected { peer_endpoint, tunnel, .. } => comes_from(peer_endpoint, packet)
            || packet.iif == indices[2 * gateway_count(tunnel) + 1],
        PolicyView::Blocked { .. } => false,
    }
}

/// The incoming packet goes to an address inside the tunnel.
pub open spec fn in_to_tunnel_ip(policy: PolicyView, packet: Packet) -> bool {
    match policy {
        PolicyView::Connected { tunnel, .. } => goes_to_any(tunnel.ips, packet),
        _ => false,
    }
}

/// What becomes of a packet that comes in. `indices` are those of the interfaces that
/// [`crate::policy::iface_names`] lists.
pub open spec fn in_verdict(
    policy: PolicyView,
    params: ParametersView,
    indices: Seq<u32>,
    packet: Packet,
) -> Verdict {
    if packet.iif == indices[1] || configures_in(params, packet) || in_from_peer(
        policy,
        indices.skip(2),
        packet,
    ) {
        Verdict::Accept
    } else if in_to_tunnel_ip(policy, packet) {
        Verdict::Drop
    } else if policy.allow_lan() && lan_in(params, packet) {
        Verdict::Accept
    } else {
        Verdict::Drop
    }
}

} // verus!
