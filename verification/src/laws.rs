//! What holds of every policy.

use vstd::prelude::*;

use crate::batch::{bootstrap, input_chain, output_chain, policy_batch};
use crate::checks::End;
use crate::deciding::{lemma_dhcp_client_rules, lemma_interface_rules, lemma_lan_rules_if};
use crate::deciding::lemma_specific_rules;
use crate::firewall::reset_batch;
use crate::matching::lemma_first_verdict_append;
use crate::net::{Endpoint, IpAddr, Ipv4Addr, Ipv6Addr, SocketAddr, TransportProtocol};
use crate::net::TunnelView;
use crate::nft::{rule_messages, ChainName, Hook, MessageView, RuleView, TableView};
use crate::packet::{chain_verdict, Packet};
use crate::policy::{iface_names, law_lookup_names, ParametersView, PolicyView};
use crate::proto::DNS_PORT;
use crate::rules;
use crate::rules::policy_rules;
use crate::ruleset::Ruleset;
use crate::shape::{lemma_policy_ifaces, lemma_policy_rules};
use crate::verdicts;
use crate::verdicts::{in_verdict, out_verdict};
use crate::wellformed::{ifaces_of, well_built};

verus! {

/// The rules of a policy do to every packet what the policy says.
pub proof fn law_policy_verdict(
    policy: PolicyView,
    params: ParametersView,
    indices: Seq<u32>,
    counters: bool,
    packet: Packet,
)
    ensures
        chain_verdict(
            policy_rules(policy, params, indices, counters),
            ChainName::Output,
            packet,
        ) == out_verdict(policy, params, indices, packet),
        chain_verdict(
            policy_rules(policy, params, indices, counters),
            ChainName::Input,
            packet,
        ) == in_verdict(policy, params, indices, packet),
{
    let out = ChainName::Output;
    let inn = ChainName::Input;
    let loopback = rules::interface_rules(indices[0], indices[1], counters);
    let dhcp = rules::dhcp_client_rules(params, counters);
    let specific = rules::specific_rules(policy, indices.skip(2), counters);
    let lan = rules::lan_rules_if(policy.allow_lan(), params, counters);
    lemma_interface_rules(indices[0], indices[1], counters, packet);
    lemma_dhcp_client_rules(params, counters, packet);
    lemma_specific_rules(policy, indices.skip(2), counters, packet);
    lemma_lan_rules_if(policy.allow_lan(), params, counters, packet);
    lemma_first_verdict_append(loopback, dhcp, out, packet);
    lemma_first_verdict_append(loopback, dhcp, inn, packet);
    lemma_first_verdict_append(loopback + dhcp, specific, out, packet);
    lemma_first_verdict_append(loopback + dhcp, specific, inn, packet);
    lemma_first_verdict_append(loopback + dhcp + specific, lan, out, packet);
    lemma_first_verdict_append(loopback + dhcp + specific, lan, inn, packet);
}

/// Carrying out messages that add rules adds these rules.
proof fn lemma_after_rules(start: Ruleset, messages: Seq<MessageView>, added: Seq<RuleView>)
    ensures
        start.after(messages + rule_messages(added)) == (Ruleset {
            rules: start.after(messages).rules + added,
            ..start.after(messages)
        }),
    decreases added.len(),
{
    let all = messages + rule_messages(added);
    if added.len() == 0 {
        assert(all =~= messages);
        assert(start.after(messages).rules + added =~= start.after(messages).rules);
    } else {
        let before = added.drop_last();
        assert(all.drop_last() =~= messages + rule_messages(before));
        lemma_after_rules(start, messages, before);
        assert(start.after(messages).rules + added =~= (start.after(messages).rules
            + before).push(added.last()));
    }
}

/// Whatever the table held, after the first messages of a batch it holds the two chains and
/// nothing else.
proof fn lemma_after_bootstrap(start: Ruleset, table: TableView)
    ensures
        start.after(bootstrap(table).messages) == (Ruleset {
            present: true,
            chains: seq![output_chain(), input_chain()],
            rules: Seq::empty(),
        }),
{
    let head = bootstrap(table).messages;
    lemma_after_next(start, head, 1);
    lemma_after_next(start, head, 2);
    lemma_after_next(start, head, 3);
    lemma_after_next(start, head, 4);
    assert(head.take(5) =~= head);
    assert(start.after(head).chains =~= seq![output_chain(), input_chain()]);
}

/// Whatever the table held, afterwards it exists and holds the two chains, with the rules of the
/// policy and no others.
pub proof fn law_batch_replaces_ruleset(
    start: Ruleset,
    table: TableView,
    policy: PolicyView,
    params: ParametersView,
    indices: Seq<u32>,
    counters: bool,
)
    ensures
        start.after(policy_batch(table, policy, params, indices, counters).messages) == (Ruleset {
            present: true,
            chains: seq![output_chain(), input_chain()],
            rules: policy_rules(policy, params, indices, counters),
        }),
{
    let added = policy_rules(policy, params, indices, counters);
    lemma_after_bootstrap(start, table);
    lemma_after_rules(start, bootstrap(table).messages, added);
    assert(Seq::empty() + added =~= added);
}

/// Whatever the table held, once the batch of a policy has been carried out every packet is dealt
/// with as the policy says.
pub proof fn law_batch_enforces_policy(
    start: Ruleset,
    table: TableView,
    policy: PolicyView,
    params: ParametersView,
    indices: Seq<u32>,
    counters: bool,
    packet: Packet,
)
    ensures
        start.after(policy_batch(table, policy, params, indices, counters).messages).verdict(
            Hook::Out,
            packet,
        ) == out_verdict(policy, params, indices, packet),
        start.after(policy_batch(table, policy, params, indices, counters).messages).verdict(
            Hook::In,
            packet,
        ) == in_verdict(policy, params, indices, packet),
{
    let end = start.after(policy_batch(table, policy, params, indices, counters).messages);
    law_batch_replaces_ruleset(start, table, policy, params, indices, counters);
    law_policy_verdict(policy, params, indices, counters, packet);
    assert(end.chains[0] == output_chain() && end.chains[1] == input_chain());
}

/// Packet counters change nothing about what becomes of a packet.
pub proof fn law_counters_are_passive(
    policy: PolicyView,
    params: ParametersView,
    indices: Seq<u32>,
    chain: ChainName,
    packet: Packet,
)
    ensures
        chain_verdict(policy_rules(policy, params, indices, true), chain, packet) == chain_verdict(
            policy_rules(policy, params, indices, false),
            chain,
            packet,
        ),
{
    law_policy_verdict(policy, params, indices, true, packet);
    law_policy_verdict(policy, params, indices, false, packet);
}

/// Every rule of every policy is well built.
pub proof fn law_rules_are_well_built(
    policy: PolicyView,
    params: ParametersView,
    indices: Seq<u32>,
    counters: bool,
    i: int,
)
    requires
        0 <= i < policy_rules(policy, params, indices, counters).len(),
    ensures
        well_built(policy_rules(policy, params, indices, counters)[i]),
{
    lemma_policy_rules(policy, params, indices, counters);
}

/// What goes out or comes in on the loopback interface is let through, whatever the policy.
pub proof fn law_loopback_is_open(
    policy: PolicyView,
    params: ParametersView,
    indices: Seq<u32>,
    counters: bool,
    packet: Packet,
)
    ensures
        packet.oif == indices[0] ==> chain_verdict(
            policy_rules(policy, params, indices, counters),
            ChainName::Output,
            packet,
        ) is Accept,
        packet.iif == indices[1] ==> chain_verdict(
            policy_rules(policy, params, indices, counters),
            ChainName::Input,
            packet,
        ) is Accept,
{
    law_policy_verdict(policy, params, indices, counters, packet);
}

/// The endpoint of the tunnel, where the policy has one.
pub open spec fn peer(policy: PolicyView) -> Option<Endpoint> {
    match policy {
        PolicyView::Connecting { peer_endpoint, .. } => Some(peer_endpoint),
        PolicyView::Connected { peer_endpoint, .. } => Some(peer_endpoint),
        PolicyView::Blocked { .. } => None,
    }
}

/// What goes to the endpoint of the tunnel is let through, also if the endpoint has the port of
/// DNS. What comes back from it on an established connection is let through as well.
pub proof fn law_peer_is_reachable(
    policy: PolicyView,
    params: ParametersView,
    indices: Seq<u32>,
    counters: bool,
    packet: Packet,
)
    ensures
        peer(policy) matches Some(endpoint) ==> verdicts::goes_to(endpoint, packet)
            ==> chain_verdict(
            policy_rules(policy, params, indices, counters),
            ChainName::Output,
            packet,
        ) is Accept,
        peer(policy) matches Some(endpoint) ==> verdicts::comes_from(endpoint, packet)
            ==> chain_verdict(
            policy_rules(policy, params, indices, counters),
            ChainName::Input,
            packet,
        ) is Accept,
{
    law_policy_verdict(policy, params, indices, counters, packet);
}

/// The packet is a DNS query through the tunnel to a gateway of the tunnel.
pub open spec fn queries_gateway_of(
    policy: PolicyView,
    indices: Seq<u32>,
    packet: Packet,
) -> bool {
    match policy {
        PolicyView::Connected { tunnel, .. } => verdicts::queries_gateways(
            tunnel,
            indices.skip(2),
            packet,
        ),
        _ => false,
    }
}

/// DNS does not leak: a DNS query is let out only on the loopback interface, to the endpoint of
/// the tunnel, or through the tunnel to one of its gateways. Letting through the local network
/// or everything else in the tunnel does not change that. DHCP servers must not be expected at
/// the port of DNS.
pub proof fn law_dns_does_not_leak(
    policy: PolicyView,
    params: ParametersView,
    indices: Seq<u32>,
    counters: bool,
    packet: Packet,
)
    requires
        params.dhcpv4_server_port != DNS_PORT,
        params.dhcpv6_server_port != DNS_PORT,
        verdicts::is_dns(packet),
    ensures
        chain_verdict(
            policy_rules(policy, params, indices, counters),
            ChainName::Output,
            packet,
        ) is Accept <==> {
            ||| packet.oif == indices[0]
            ||| peer(policy) matches Some(endpoint) && verdicts::goes_to(endpoint, packet)
            ||| queries_gateway_of(policy, indices, packet)
        },
{
    law_policy_verdict(policy, params, indices, counters, packet);
    if let PolicyView::Connecting { pingable_hosts, .. } = policy {
        assert(!verdicts::pings(pingable_hosts, End::Dst, packet));
    }
}

/// The names of [`iface_names`] were translated into the same index each time: `loopback` for the
/// loopback interface, `tunnel` for that of the tunnel.
pub open spec fn stable_indices(
    policy: PolicyView,
    indices: Seq<u32>,
    loopback: u32,
    tunnel: u32,
) -> bool {
    &&& indices.len() == iface_names(policy).len()
    &&& forall|i: int| 0 <= i < indices.len() ==> #[trigger] indices[i] == if i < 2 {
        loopback
    } else {
        tunnel
    }
}

/// If each name was translated into the index of the interface with that name, the rules for the
/// loopback interface hold the index of `lo`, and those for the tunnel hold the index of the
/// tunnel interface.
pub proof fn law_rules_hold_the_index_of_their_interface(
    policy: PolicyView,
    indices: Seq<u32>,
    index_of: spec_fn(Seq<char>) -> u32,
)
    requires
        policy is Connected,
        indices.len() == iface_names(policy).len(),
        forall|i: int|
            0 <= i < indices.len() ==> #[trigger] indices[i] == index_of(iface_names(policy)[i]),
    ensures
        stable_indices(policy, indices, index_of("lo"@), index_of(policy->tunnel.interface)),
        forall|i: int|
            0 <= i < indices.len() ==> #[trigger] indices[i] == if i < 2 {
                index_of("lo"@)
            } else {
                index_of(policy->tunnel.interface)
            },
{
    law_lookup_names(policy);
}

/// While the tunnel is up, what goes out on the interface that has the name of the tunnel
/// interface is let through unless it is a DNS query, what comes in on it is let through, and a
/// DNS query on it to a gateway of the tunnel is let through as well.
pub proof fn law_named_tunnel_is_open(
    policy: PolicyView,
    params: ParametersView,
    indices: Seq<u32>,
    counters: bool,
    packet: Packet,
    index_of: spec_fn(Seq<char>) -> u32,
)
    requires
        policy is Connected,
        indices.len() == iface_names(policy).len(),
        forall|i: int|
            0 <= i < indices.len() ==> #[trigger] indices[i] == index_of(iface_names(policy)[i]),
    ensures
        packet.iif == index_of(policy->tunnel.interface) ==> chain_verdict(
            policy_rules(policy, params, indices, counters),
            ChainName::Input,
            packet,
        ) is Accept,
        packet.oif == index_of(policy->tunnel.interface) && packet.l4proto != Some(17u8)
            && packet.l4proto != Some(6u8) ==> chain_verdict(
            policy_rules(policy, params, indices, counters),
            ChainName::Output,
            packet,
        ) is Accept,
        packet.oif == index_of(policy->tunnel.interface) && packet.transport.len() >= 4 && !(
        packet.transport[2] == 0 && packet.transport[3] == 53) ==> chain_verdict(
            policy_rules(policy, params, indices, counters),
            ChainName::Output,
            packet,
        ) is Accept,
        packet.oif == index_of(policy->tunnel.interface) && packet.nfproto == 2 && packet.ipv4_daddr
            == policy->tunnel.ipv4_gateway ==> chain_verdict(
            policy_rules(policy, params, indices, counters),
            ChainName::Output,
            packet,
        ) is Accept,
        packet.oif == index_of(policy->tunnel.interface) && packet.nfproto == 10 && (
        policy->tunnel.ipv6_gateway == Some(packet.ipv6_daddr)) ==> chain_verdict(
            policy_rules(policy, params, indices, counters),
            ChainName::Output,
            packet,
        ) is Accept,
{
    let rest = indices.skip(2);
    let count = rules::gateway_count(policy->tunnel);
    law_policy_verdict(policy, params, indices, counters, packet);
    law_rules_hold_the_index_of_their_interface(policy, indices, index_of);
    law_tunnel_is_open(
        policy,
        params,
        indices,
        counters,
        packet,
        index_of("lo"@),
        index_of(policy->tunnel.interface),
    );
    assert(rest[0] == indices[2] && rest.skip(count)[0] == indices[2 + count]);
    if policy->tunnel.ipv6_gateway is Some {
        assert(rest[1] == indices[3] && rest.skip(count)[1] == indices[3 + count]);
    }
}

/// The address is that of a gateway of the tunnel.
pub open spec fn is_gateway(tunnel: TunnelView, addr: IpAddr) -> bool {
    ||| addr == IpAddr::V4(tunnel.ipv4_gateway)
    ||| tunnel.ipv6_gateway matches Some(gateway) && addr == IpAddr::V6(gateway)
}

/// While the tunnel is up, a DNS query is let out exactly if it goes out on the loopback
/// interface, or to the endpoint of the tunnel, or on the tunnel interface to a gateway of the
/// tunnel.
pub proof fn law_connected_dns(
    policy: PolicyView,
    params: ParametersView,
    indices: Seq<u32>,
    counters: bool,
    packet: Packet,
    loopback_index: u32,
    tunnel_index: u32,
)
    requires
        params.dhcpv4_server_port != DNS_PORT,
        params.dhcpv6_server_port != DNS_PORT,
        verdicts::is_dns(packet),
        policy is Connected,
        stable_indices(policy, indices, loopback_index, tunnel_index),
    ensures
        chain_verdict(
            policy_rules(policy, params, indices, counters),
            ChainName::Output,
            packet,
        ) is Accept <==> {
            ||| packet.oif == loopback_index
            ||| verdicts::goes_to(policy->Connected_peer_endpoint, packet)
            ||| packet.oif == tunnel_index && (packet.addr(End::Dst) matches Some(addr)
                && is_gateway(policy->tunnel, addr))
        },
{
    law_dns_does_not_leak(policy, params, indices, counters, packet);
    let rest = indices.skip(2);
    let count = rules::gateway_count(policy->tunnel);
    assert(rest[0] == indices[2] && rest.skip(count)[0] == indices[2 + count]);
    if policy->tunnel.ipv6_gateway is Some {
        assert(rest[1] == indices[3] && rest.skip(count)[1] == indices[3 + count]);
    }
}

/// While the tunnel is up, whatever comes in on the tunnel interface is let through, and whatever
/// goes out on it as well unless it is a DNS query.
pub proof fn law_tunnel_is_open(
    policy: PolicyView,
    params: ParametersView,
    indices: Seq<u32>,
    counters: bool,
    packet: Packet,
    loopback_index: u32,
    tunnel_index: u32,
)
    requires
        policy is Connected,
        stable_indices(policy, indices, loopback_index, tunnel_index),
    ensures
        packet.iif == tunnel_index ==> chain_verdict(
            policy_rules(policy, params, indices, counters),
            ChainName::Input,
            packet,
        ) is Accept,
        packet.oif == tunnel_index && !verdicts::is_dns(packet) ==> chain_verdict(
            policy_rules(policy, params, indices, counters),
            ChainName::Output,
            packet,
        ) is Accept,
{
    law_policy_verdict(policy, params, indices, counters, packet);
    let count = rules::gateway_count(policy->tunnel);
    assert(indices.skip(2)[2 * count] == indices[2 + 2 * count]);
    assert(indices.skip(2)[2 * count + 1] == indices[3 + 2 * count]);
}

/// While the tunnel is up, what comes in to an address inside the tunnel is dropped, even if it
/// comes from the local network and that is let through. Excepted is what comes in on the
/// tunnel interface or the loopback interface, what comes from the endpoint of the tunnel, and
/// what this host configures its addresses with.
pub proof fn law_tunnel_ips_are_shielded(
    policy: PolicyView,
    params: ParametersView,
    indices: Seq<u32>,
    counters: bool,
    packet: Packet,
    loopback_index: u32,
    tunnel_index: u32,
)
    requires
        policy is Connected,
        stable_indices(policy, indices, loopback_index, tunnel_index),
        verdicts::goes_to_any(policy->tunnel.ips, packet),
        packet.iif != loopback_index,
        packet.iif != tunnel_index,
        !verdicts::comes_from(policy->Connected_peer_endpoint, packet),
        !verdicts::configures_in(params, packet),
    ensures
        chain_verdict(
            policy_rules(policy, params, indices, counters),
            ChainName::Input,
            packet,
        ) is Drop,
{
    law_policy_verdict(policy, params, indices, counters, packet);
    let count = rules::gateway_count(policy->tunnel);
    assert(indices.skip(2)[2 * count + 1] == indices[3 + 2 * count]);
}

/// Under the policy that blocks, without the local network, only the loopback interface and what
/// this host configures its addresses with is let through.
pub proof fn law_blocked_is_closed(
    params: ParametersView,
    indices: Seq<u32>,
    counters: bool,
    packet: Packet,
)
    ensures
        chain_verdict(
            policy_rules(PolicyView::Blocked { allow_lan: false }, params, indices, counters),
            ChainName::Output,
            packet,
        ) is Accept <==> packet.oif == indices[0] || verdicts::configures_out(params, packet),
        chain_verdict(
            policy_rules(PolicyView::Blocked { allow_lan: false }, params, indices, counters),
            ChainName::Input,
            packet,
        ) is Accept <==> packet.iif == indices[1] || verdicts::configures_in(params, packet),
{
    law_policy_verdict(
        PolicyView::Blocked { allow_lan: false },
        params,
        indices,
        counters,
        packet,
    );
}

/// What is meant by the words that laws use of packets, in terms of what stands in a packet.
pub proof fn law_packet_words(
    packet: Packet,
    v4: Ipv4Addr,
    v6: Ipv6Addr,
    port: u16,
    message_type: u8,
)
    ensures
        packet.has_addr(End::Src, IpAddr::V4(v4)) <==> packet.nfproto == 2 && packet.ipv4_saddr
            == v4,
        packet.has_addr(End::Dst, IpAddr::V4(v4)) <==> packet.nfproto == 2 && packet.ipv4_daddr
            == v4,
        packet.has_addr(End::Src, IpAddr::V6(v6)) <==> packet.nfproto == 10 && packet.ipv6_saddr
            == v6,
        packet.has_addr(End::Dst, IpAddr::V6(v6)) <==> packet.nfproto == 10 && packet.ipv6_daddr
            == v6,
        packet.has_port(TransportProtocol::Udp, End::Src, port) <==> packet.l4proto == Some(17u8)
            && packet.transport.len() >= 2 && packet.transport[0] * 256 + packet.transport[1]
            == port,
        packet.has_port(TransportProtocol::Udp, End::Dst, port) <==> packet.l4proto == Some(17u8)
            && packet.transport.len() >= 4 && packet.transport[2] * 256 + packet.transport[3]
            == port,
        packet.has_port(TransportProtocol::Tcp, End::Src, port) <==> packet.l4proto == Some(6u8)
            && packet.transport.len() >= 2 && packet.transport[0] * 256 + packet.transport[1]
            == port,
        packet.has_port(TransportProtocol::Tcp, End::Dst, port) <==> packet.l4proto == Some(6u8)
            && packet.transport.len() >= 4 && packet.transport[2] * 256 + packet.transport[3]
            == port,
        packet.is_icmpv6(message_type) <==> packet.l4proto == Some(58u8) && packet.transport.len()
            >= 2 && packet.transport[0] == message_type && packet.transport[1] == 0,
        packet.established() <==> packet.ct_state & 2 != 0,
{
}

/// What goes to the endpoint of the tunnel by IPv4 is let out, whatever its port: the packet is of
/// the protocol of the endpoint, and has its address and, in the third and fourth byte of the
/// transport header, its port.
pub proof fn law_v4_peer_is_reachable(
    policy: PolicyView,
    params: ParametersView,
    indices: Seq<u32>,
    counters: bool,
    packet: Packet,
    addr: Ipv4Addr,
    port: u16,
    protocol: TransportProtocol,
)
    requires
        match policy {
            PolicyView::Connecting { peer_endpoint, .. } => peer_endpoint == (Endpoint {
                address: SocketAddr { ip: IpAddr::V4(addr), port },
                protocol,
            }),
            PolicyView::Connected { peer_endpoint, .. } => peer_endpoint == (Endpoint {
                address: SocketAddr { ip: IpAddr::V4(addr), port },
                protocol,
            }),
            PolicyView::Blocked { .. } => false,
        },
        packet.nfproto == 2,
        packet.ipv4_daddr == addr,
        packet.l4proto == Some(
            match protocol {
                TransportProtocol::Udp => 17u8,
                TransportProtocol::Tcp => 6u8,
            },
        ),
        packet.transport.len() >= 4,
        packet.transport[2] * 256 + packet.transport[3] == port,
    ensures
        chain_verdict(
            policy_rules(policy, params, indices, counters),
            ChainName::Output,
            packet,
        ) is Accept,
{
    law_policy_verdict(policy, params, indices, counters, packet);
}

/// What goes to the endpoint of the tunnel by IPv6 is let out, whatever its port: the packet is of
/// the protocol of the endpoint, and has its address and, in the third and fourth byte of the
/// transport header, its port.
pub proof fn law_v6_peer_is_reachable(
    policy: PolicyView,
    params: ParametersView,
    indices: Seq<u32>,
    counters: bool,
    packet: Packet,
    addr: Ipv6Addr,
    port: u16,
    protocol: TransportProtocol,
)
    requires
        match policy {
            PolicyView::Connecting { peer_endpoint, .. } => peer_endpoint == (Endpoint {
                address: SocketAddr { ip: IpAddr::V6(addr), port },
                protocol,
            }),
            PolicyView::Connected { peer_endpoint, .. } => peer_endpoint == (Endpoint {
                address: SocketAddr { ip: IpAddr::V6(addr), port },
                protocol,
            }),
            PolicyView::Blocked { .. } => false,
        },
        packet.nfproto == 10,
        packet.ipv6_daddr == addr,
        packet.l4proto == Some(
            match protocol {
                TransportProtocol::Udp => 17u8,
                TransportProtocol::Tcp => 6u8,
            },
        ),
        packet.transport.len() >= 4,
        packet.transport[2] * 256 + packet.transport[3] == port,
    ensures
        chain_verdict(
            policy_rules(policy, params, indices, counters),
            ChainName::Output,
            packet,
        ) is Accept,
{
    law_policy_verdict(policy, params, indices, counters, packet);
}

/// A packet over UDP or TCP with 0 and 53 in the third and fourth byte of its transport header is
/// dropped while the tunnel is being set up or everything is blocked, unless it goes out on the
/// loopback interface or to the endpoint of the tunnel. DHCP servers must not be expected at that
/// port.
pub proof fn law_no_dns_without_tunnel(
    policy: PolicyView,
    params: ParametersView,
    indices: Seq<u32>,
    counters: bool,
    packet: Packet,
)
    requires
        params.dhcpv4_server_port != 53,
        params.dhcpv6_server_port != 53,
        packet.l4proto == Some(17u8) || packet.l4proto == Some(6u8),
        packet.transport.len() >= 4,
        packet.transport[2] == 0,
        packet.transport[3] == 53,
        packet.oif != indices[0],
        match policy {
            PolicyView::Connecting { peer_endpoint, .. } => match peer_endpoint.address.ip {
                IpAddr::V4(addr) => packet.nfproto != 2 || packet.ipv4_daddr != addr,
                IpAddr::V6(addr) => packet.nfproto != 10 || packet.ipv6_daddr != addr,
            },
            PolicyView::Connected { .. } => false,
            PolicyView::Blocked { .. } => true,
        },
    ensures
        chain_verdict(
            policy_rules(policy, params, indices, counters),
            ChainName::Output,
            packet,
        ) is Drop,
{
    law_dns_does_not_leak(policy, params, indices, counters, packet);
}

/// The policy with traffic with the local network let through or not.
pub open spec fn with_lan(policy: PolicyView, allow_lan: bool) -> PolicyView {
    match policy {
        PolicyView::Connecting { peer_endpoint, pingable_hosts, .. } => PolicyView::Connecting {
            peer_endpoint,
            pingable_hosts,
            allow_lan,
        },
        PolicyView::Connected { peer_endpoint, tunnel, .. } => PolicyView::Connected {
            peer_endpoint,
            tunnel,
            allow_lan,
        },
        PolicyView::Blocked { .. } => PolicyView::Blocked { allow_lan },
    }
}

/// Letting through the local network takes nothing away, and adds nothing but packets to and
/// from the local network.
pub proof fn law_lan_only_adds_lan(
    policy: PolicyView,
    params: ParametersView,
    indices: Seq<u32>,
    counters: bool,
    packet: Packet,
)
    ensures
        ({
            let without = chain_verdict(
                policy_rules(with_lan(policy, false), params, indices, counters),
                ChainName::Output,
                packet,
            );
            let with = chain_verdict(
                policy_rules(with_lan(policy, true), params, indices, counters),
                ChainName::Output,
                packet,
            );
            (without is Accept ==> with is Accept) && (with is Accept && without is Drop
                ==> verdicts::lan_out(params, packet) && !verdicts::is_dns(packet))
        }),
        ({
            let without = chain_verdict(
                policy_rules(with_lan(policy, false), params, indices, counters),
                ChainName::Input,
                packet,
            );
            let with = chain_verdict(
                policy_rules(with_lan(policy, true), params, indices, counters),
                ChainName::Input,
                packet,
            );
            (without is Accept ==> with is Accept) && (with is Accept && without is Drop
                ==> verdicts::lan_in(params, packet))
        }),
{
    law_policy_verdict(with_lan(policy, false), params, indices, counters, packet);
    law_policy_verdict(with_lan(policy, true), params, indices, counters, packet);
}

/// The rules of a policy that check an interface check those whose names [`iface_names`] lists,
/// in the same order.
pub proof fn law_each_index_has_its_rule(
    policy: PolicyView,
    params: ParametersView,
    indices: Seq<u32>,
    counters: bool,
)
    requires
        indices.len() == iface_names(policy).len(),
    ensures
        ifaces_of(policy_rules(policy, params, indices, counters)) == indices,
{
    lemma_policy_ifaces(policy, params, indices, counters);
}

/// Every message can be carried out, given what the table holds when the messages before it have
/// been.
pub open spec fn carried_out(start: Ruleset, messages: Seq<MessageView>) -> bool {
    forall|i: int|
        0 <= i < messages.len() ==> start.after(messages.take(i)).admits(#[trigger] messages[i])
}

/// The table exists whenever the first messages of a batch need it.
proof fn lemma_bootstrap_presence(start: Ruleset, table: TableView, i: int)
    requires
        0 <= i < 5,
    ensures
        start.after(bootstrap(table).messages.take(i)).admits(bootstrap(table).messages[i]),
{
    let head = bootstrap(table).messages;
    lemma_after_next(start, head, 0);
    lemma_after_next(start, head, 2);
    lemma_after_next(start, head, 3);
    assert(i == 0 || i == 1 || i == 2 || i == 3 || i == 4);
}

/// What the table holds after one more message.
proof fn lemma_after_next(start: Ruleset, messages: Seq<MessageView>, i: int)
    requires
        0 <= i < messages.len(),
    ensures
        start.after(messages.take(i + 1)) == start.after(messages.take(i)).after_one(messages[i]),
{
    assert(messages.take(i + 1).drop_last() =~= messages.take(i));
    assert(messages.take(i + 1).last() == messages[i]);
}

/// The chains exist when the rules are added.
proof fn lemma_rules_have_chains(
    start: Ruleset,
    table: TableView,
    added: Seq<RuleView>,
    i: int,
)
    requires
        0 <= i < added.len(),
    ensures
        start.after(bootstrap(table).messages + rule_messages(added.take(i))).has_chain(
            added[i].chain,
        ),
{
    let head = bootstrap(table).messages;
    let state = start.after(head + rule_messages(added.take(i)));
    lemma_after_rules(start, head, added.take(i));
    lemma_after_bootstrap(start, table);
    if added[i].chain is Output {
        assert(state.chains[0].name == added[i].chain);
    } else {
        assert(state.chains[1].name == added[i].chain);
    }
}

/// Netfilter can carry out the batch of a policy, whatever the table held.
pub proof fn law_policy_batch_can_be_carried_out(
    start: Ruleset,
    table: TableView,
    policy: PolicyView,
    params: ParametersView,
    indices: Seq<u32>,
    counters: bool,
)
    ensures
        carried_out(start, policy_batch(table, policy, params, indices, counters).messages),
{
    let messages = policy_batch(table, policy, params, indices, counters).messages;
    let head = bootstrap(table).messages;
    let added = policy_rules(policy, params, indices, counters);
    assert forall|i: int| 0 <= i < messages.len() implies start.after(messages.take(i)).admits(
        #[trigger] messages[i],
    ) by {
        if i < 5 {
            lemma_bootstrap_presence(start, table, i);
            assert(messages.take(i) =~= head.take(i));
            assert(messages[i] == head[i]);
        } else {
            lemma_rules_have_chains(start, table, added, i - 5);
            assert(messages.take(i) =~= head + rule_messages(added.take(i - 5)));
            assert(messages[i] == rule_messages(added)[i - 5]);
        }
    }
}

/// Netfilter can carry out the batch that resets the firewall, whatever the table held.
pub proof fn law_reset_batch_can_be_carried_out(start: Ruleset, table: TableView)
    ensures
        carried_out(start, reset_batch(table).messages),
{
    let messages = reset_batch(table).messages;
    lemma_after_next(start, messages, 0);
    assert forall|i: int| 0 <= i < messages.len() implies start.after(messages.take(i)).admits(
        #[trigger] messages[i],
    ) by {
        assert(i == 0 || i == 1);
    }
}

/// Whatever the table held, once the batch that resets the firewall has been carried out it does
/// not exist, and every packet is let through.
pub proof fn law_reset_removes_ruleset(
    start: Ruleset,
    table: TableView,
    hook: Hook,
    packet: Packet,
)
    ensures
        start.after(reset_batch(table).messages) == Ruleset::absent(),
        start.after(reset_batch(table).messages).verdict(hook, packet) is Accept,
{
    let messages = reset_batch(table).messages;
    assert(messages.last() == messages[1]);
}

} // verus!
