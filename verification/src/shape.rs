//! How the rules of a policy are built.

use vstd::prelude::*;

use crate::batch::lookups_left;
use crate::checks::{endpoint_check, established_check, icmpv6_check, iface_check};
use crate::checks::{ip_check, l4number_check, net_check, port_check, verdict_exprs};
use crate::checks::{Direction, End};
use crate::net::{Endpoint, IpAddr, IpNetwork, TransportProtocol, TunnelView};
use crate::nft::{ChainName, Expr, RuleView, Verdict};
use crate::policy::{ParametersView, PolicyView};
use crate::rules;
use crate::wellformed::{guarded, guards, iface_of, ifaces_of, well_built, widths_agree};

verus! {

/// Expressions that a rule can start with: loads are guarded, widths agree, and nothing is
/// decided yet.
pub open spec fn is_prefix(exprs: Seq<Expr>) -> bool {
    &&& guarded(exprs)
    &&& widths_agree(exprs)
    &&& forall|i: int| 0 <= i < exprs.len() ==> !(#[trigger] exprs[i] is Verdict)
}

/// Every rule is well built.
pub open spec fn all_well_built(rules: Seq<RuleView>) -> bool {
    forall|i: int| 0 <= i < rules.len() ==> well_built(#[trigger] rules[i])
}

/// A prefix followed by a prefix is a prefix.
proof fn lemma_append(first: Seq<Expr>, second: Seq<Expr>)
    requires
        is_prefix(first),
        is_prefix(second),
    ensures
        is_prefix(first + second),
{
    let both = first + second;
    assert forall|i: int| 0 <= i < both.len() implies match #[trigger] both[i] {
        Expr::Payload(field) => exists|j: int|
            0 <= j && j + 1 < i && #[trigger] guards(both, j, field),
        _ => true,
    } by {
        if i < first.len() {
            assert(both[i] == first[i]);
            if let Expr::Payload(field) = first[i] {
                let j = choose|j: int| 0 <= j && j + 1 < i && #[trigger] guards(first, j, field);
                assert(guards(both, j, field));
            }
        } else {
            let k = i - first.len();
            assert(both[i] == second[k]);
            if let Expr::Payload(field) = second[k] {
                let j = choose|j: int| 0 <= j && j + 1 < k && #[trigger] guards(second, j, field);
                assert(guards(both, j + first.len(), field));
            }
        }
    }
    assert forall|i: int| 0 <= i < both.len() implies (match #[trigger] both[i] {
        Expr::Bitwise { mask, xor } => crate::wellformed::same_width(mask, xor),
        _ => true,
    }) && !(both[i] is Verdict) by {
        if i < first.len() {
            assert(both[i] == first[i]);
        } else {
            assert(both[i] == second[i - first.len()]);
        }
    }
}

/// The empty sequence of expressions is a prefix.
proof fn lemma_nothing(chain: ChainName)
    ensures
        is_prefix(RuleView::empty(chain).exprs),
{
}

/// A prefix followed by a verdict is well built.
proof fn lemma_verdict(rule: RuleView, verdict: Verdict, counters: bool)
    requires
        is_prefix(rule.exprs),
    ensures
        well_built(rule.with(verdict_exprs(verdict, counters))),
{
    let done = rule.with(verdict_exprs(verdict, counters));
    let before = if counters {
        rule.exprs + seq![Expr::Counter]
    } else {
        rule.exprs
    };
    if counters {
        lemma_append(rule.exprs, seq![Expr::Counter]);
    }
    assert(done.exprs =~= before.push(Expr::Verdict(verdict)));
    assert forall|i: int| 0 <= i < done.exprs.len() implies match #[trigger] done.exprs[i] {
        Expr::Payload(field) => exists|j: int|
            0 <= j && j + 1 < i && #[trigger] guards(done.exprs, j, field),
        _ => true,
    } by {
        if i < before.len() {
            assert(done.exprs[i] == before[i]);
            if let Expr::Payload(field) = before[i] {
                let j = choose|j: int| 0 <= j && j + 1 < i && #[trigger] guards(before, j, field);
                assert(guards(done.exprs, j, field));
            }
        }
    }
    assert forall|i: int| 0 <= i < done.exprs.len() implies match #[trigger] done.exprs[i] {
        Expr::Bitwise { mask, xor } => crate::wellformed::same_width(mask, xor),
        _ => true,
    } by {
        if i < before.len() {
            assert(done.exprs[i] == before[i]);
        }
    }
    assert forall|i: int| 0 <= i < done.exprs.len() - 1 implies !(
    #[trigger] done.exprs[i] is Verdict) by {
        assert(done.exprs[i] == before[i]);
    }
}

/// Every check is a prefix.
proof fn lemma_checks()
    ensures
        forall|direction: Direction, index: u32| is_prefix(#[trigger] iface_check(direction, index)),
        forall|number: u8| is_prefix(#[trigger] l4number_check(number)),
        forall|end: End, addr: IpAddr| is_prefix(#[trigger] ip_check(end, addr)),
        forall|end: End, net: IpNetwork| is_prefix(#[trigger] net_check(end, net)),
        forall|protocol: TransportProtocol, end: End, port: u16|
            is_prefix(#[trigger] port_check(protocol, end, port)),
        forall|end: End, endpoint: Endpoint| is_prefix(#[trigger] endpoint_check(end, endpoint)),
        forall|message_type: u8| is_prefix(#[trigger] icmpv6_check(message_type)),
        is_prefix(established_check()),
{
    assert forall|end: End, addr: IpAddr| is_prefix(#[trigger] ip_check(end, addr)) by {
        let exprs = ip_check(end, addr);
        assert(guards(exprs, 0, crate::checks::addr_field(addr, end)));
    }
    assert forall|end: End, net: IpNetwork| is_prefix(#[trigger] net_check(end, net)) by {
        let exprs = net_check(end, net);
        assert(guards(exprs, 0, crate::checks::addr_field(net.spec_ip(), end)));
    }
    assert forall|protocol: TransportProtocol, end: End, port: u16|
        is_prefix(#[trigger] port_check(protocol, end, port)) by {
        let exprs = port_check(protocol, end, port);
        assert(guards(exprs, 0, crate::checks::port_field(protocol, end)));
    }
    assert forall|end: End, endpoint: Endpoint|
        is_prefix(#[trigger] endpoint_check(end, endpoint)) by {
        lemma_append(
            ip_check(end, endpoint.address.ip),
            port_check(endpoint.protocol, end, endpoint.address.port),
        );
    }
    assert forall|message_type: u8| is_prefix(#[trigger] icmpv6_check(message_type)) by {
        let exprs = icmpv6_check(message_type);
        assert(guards(exprs, 0, crate::nft::Payload::Icmpv6Type));
        assert(guards(exprs, 0, crate::nft::Payload::Icmpv6Code));
    }
}

/// Rules made of checks and a verdict are well built.
proof fn lemma_rules()
    ensures
        forall|chain: ChainName| is_prefix((#[trigger] RuleView::empty(chain)).exprs),
        forall|rule: RuleView, exprs: Seq<Expr>|
            is_prefix(rule.exprs) && is_prefix(exprs) ==> is_prefix(
                (#[trigger] rule.with(exprs)).exprs,
            ),
        forall|rule: RuleView, verdict: Verdict, counters: bool|
            is_prefix(rule.exprs) ==> well_built(
                #[trigger] rule.with(verdict_exprs(verdict, counters)),
            ),
{
    assert forall|chain: ChainName| is_prefix((#[trigger] RuleView::empty(chain)).exprs) by {
        lemma_nothing(chain);
    }
    assert forall|rule: RuleView, exprs: Seq<Expr>|
        is_prefix(rule.exprs) && is_prefix(exprs) implies is_prefix(
        (#[trigger] rule.with(exprs)).exprs,
    ) by {
        lemma_append(rule.exprs, exprs);
    }
    assert forall|rule: RuleView, verdict: Verdict, counters: bool|
        is_prefix(rule.exprs) implies well_built(
        #[trigger] rule.with(verdict_exprs(verdict, counters)),
    ) by {
        lemma_verdict(rule, verdict, counters);
    }
}

/// Groups of well built rules, put together.
proof fn lemma_groups(first: Seq<RuleView>, second: Seq<RuleView>)
    requires
        all_well_built(first),
        all_well_built(second),
    ensures
        all_well_built(first + second),
{
    let both = first + second;
    assert forall|i: int| 0 <= i < both.len() implies well_built(#[trigger] both[i]) by {
        if i < first.len() {
            assert(both[i] == first[i]);
        } else {
            assert(both[i] == second[i - first.len()]);
        }
    }
}

/// The rules that every policy has are well built.
proof fn lemma_common_rules(params: ParametersView, out_index: u32, in_index: u32, counters: bool)
    ensures
        all_well_built(rules::interface_rules(out_index, in_index, counters)),
        all_well_built(rules::dhcp_client_rules(params, counters)),
{
    lemma_checks();
    lemma_rules();
    let v4 = rules::dhcpv4_client_rules(params, counters);
    let requests = rules::dhcpv6_request_rules(params, params.dhcpv6_server_addrs, counters);
    let response = seq![rules::dhcpv6_response_rule(params, counters)];
    let ndp = rules::ndp_rules(params, counters);
    assert(all_well_built(v4));
    assert(all_well_built(requests));
    assert(all_well_built(response));
    assert(all_well_built(ndp));
    lemma_groups(v4, requests);
    lemma_groups(v4 + requests, response);
    lemma_groups(v4 + requests + response, ndp);
}

/// The rules for pingable hosts are well built.
proof fn lemma_pingable_hosts_rules(hosts: Seq<IpAddr>, counters: bool)
    ensures
        all_well_built(rules::pingable_hosts_rules(hosts, counters)),
    decreases hosts.len(),
{
    if hosts.len() > 0 {
        lemma_pingable_hosts_rules(hosts.drop_last(), counters);
        assert(all_well_built(rules::ping_rules(hosts.last(), counters))) by {
            lemma_checks();
            lemma_rules();
        }
        lemma_groups(
            rules::pingable_hosts_rules(hosts.drop_last(), counters),
            rules::ping_rules(hosts.last(), counters),
        );
    }
}

/// The rules for networks are well built.
proof fn lemma_lan_nets_rules(nets: Seq<IpNetwork>, counters: bool)
    ensures
        all_well_built(rules::lan_nets_rules(nets, counters)),
    decreases nets.len(),
{
    if nets.len() > 0 {
        lemma_lan_nets_rules(nets.drop_last(), counters);
        assert(all_well_built(rules::lan_net_rules(nets.last(), counters))) by {
            lemma_checks();
            lemma_rules();
        }
        lemma_groups(
            rules::lan_nets_rules(nets.drop_last(), counters),
            rules::lan_net_rules(nets.last(), counters),
        );
    }
}

/// The rules for the local network are well built.
proof fn lemma_lan_rules(params: ParametersView, counters: bool)
    ensures
        all_well_built(rules::lan_rules(params, counters)),
{
    let lan = rules::lan_nets_rules(params.allowed_lan_nets, counters);
    let multicast = rules::multicast_rules(params.allowed_lan_multicast_nets, counters);
    let dhcp = rules::dhcp_server_rules(params, counters);
    lemma_lan_nets_rules(params.allowed_lan_nets, counters);
    assert(all_well_built(multicast) && all_well_built(dhcp)) by {
        lemma_checks();
        lemma_rules();
    }
    lemma_groups(lan, multicast);
    lemma_groups(lan + multicast, dhcp);
}

/// The rules that only this policy has are well built.
proof fn lemma_specific_rules(policy: PolicyView, indices: Seq<u32>, counters: bool)
    ensures
        all_well_built(rules::specific_rules(policy, indices, counters)),
{
    let block = rules::drop_dns_rules(counters);
    assert(all_well_built(block)) by {
        lemma_checks();
        lemma_rules();
    }
    match policy {
        PolicyView::Connecting { peer_endpoint, pingable_hosts, .. } => {
            let ping = rules::pingable_hosts_rules(pingable_hosts, counters);
            let relay = rules::endpoint_rules(peer_endpoint, counters);
            lemma_pingable_hosts_rules(pingable_hosts, counters);
            assert(all_well_built(relay)) by {
                lemma_checks();
                lemma_rules();
            }
            lemma_groups(ping, relay);
            lemma_groups(ping + relay, block);
        },
        PolicyView::Connected { peer_endpoint, tunnel, allow_lan } => {
            let count = rules::gateway_count(tunnel);
            let relay = rules::endpoint_rules(peer_endpoint, counters);
            let udp = rules::dns_rules(indices, tunnel, TransportProtocol::Udp, counters);
            let tcp = rules::dns_rules(
                indices.skip(count),
                tunnel,
                TransportProtocol::Tcp,
                counters,
            );
            let allow = rules::interface_rules(
                indices[2 * count],
                indices[2 * count + 1],
                counters,
            );
            let ips = rules::block_tunnel_ips_rules(tunnel.ips, counters);
            assert(all_well_built(relay) && all_well_built(udp) && all_well_built(tcp)
                && all_well_built(allow) && all_well_built(ips)) by {
                lemma_checks();
                lemma_rules();
            }
            lemma_groups(udp, tcp);
            lemma_groups(udp + tcp, block);
            lemma_groups(udp + tcp + block, allow);
            let inside = rules::tunnel_rules(tunnel, indices, counters);
            lemma_groups(relay, inside);
            lemma_groups(relay + inside, ips);
            lemma_groups(relay + inside, Seq::empty());
        },
        PolicyView::Blocked { .. } => {},
    }
}

/// Every rule of every policy is well built.
pub proof fn lemma_policy_rules(
    policy: PolicyView,
    params: ParametersView,
    indices: Seq<u32>,
    counters: bool,
)
    ensures
        all_well_built(rules::policy_rules(policy, params, indices, counters)),
{
    let loopback = rules::interface_rules(indices[0], indices[1], counters);
    let dhcp = rules::dhcp_client_rules(params, counters);
    let specific = rules::specific_rules(policy, indices.skip(2), counters);
    let lan = rules::lan_rules_if(policy.allow_lan(), params, counters);
    lemma_common_rules(params, indices[0], indices[1], counters);
    lemma_specific_rules(policy, indices.skip(2), counters);
    lemma_lan_rules(params, counters);
    lemma_groups(loopback, dhcp);
    lemma_groups(loopback + dhcp, specific);
    lemma_groups(loopback + dhcp + specific, lan);
}

/// The interfaces that two groups of rules check.
proof fn lemma_ifaces_append(first: Seq<RuleView>, second: Seq<RuleView>)
    ensures
        ifaces_of(first + second) == ifaces_of(first) + ifaces_of(second),
    decreases second.len(),
{
    if second.len() == 0 {
        assert(first + second =~= first);
        assert(ifaces_of(first) + ifaces_of(second) =~= ifaces_of(first));
    } else {
        assert((first + second).drop_last() =~= first + second.drop_last());
        lemma_ifaces_append(first, second.drop_last());
        assert(ifaces_of(first + second) =~= ifaces_of(first) + ifaces_of(second));
    }
}

/// No rule of the group checks an interface.
proof fn lemma_no_ifaces(group: Seq<RuleView>)
    requires
        forall|i: int| 0 <= i < group.len() ==> iface_of(#[trigger] group[i]) is None,
    ensures
        ifaces_of(group) == Seq::<u32>::empty(),
    decreases group.len(),
{
    if group.len() > 0 {
        let rest = group.drop_last();
        assert forall|i: int| 0 <= i < rest.len() implies iface_of(#[trigger] rest[i]) is None by {
            assert(rest[i] == group[i]);
        }
        assert(group.last() == group[group.len() - 1]);
        lemma_no_ifaces(rest);
    }
}

/// The rules for an interface check it.
proof fn lemma_interface_ifaces(out_index: u32, in_index: u32, counters: bool)
    ensures
        ifaces_of(rules::interface_rules(out_index, in_index, counters)) == seq![
            out_index,
            in_index,
        ],
{
    let group = rules::interface_rules(out_index, in_index, counters);
    reveal_with_fuel(ifaces_of, 3);
    assert(iface_of(group[0]) == Some(out_index));
    assert(iface_of(group[1]) == Some(in_index));
    assert(group.drop_last() =~= seq![group[0]]);
    assert(seq![group[0]].drop_last() =~= Seq::empty());
    assert(ifaces_of(group) =~= seq![out_index, in_index]);
}

/// The rules for DNS queries to the gateways of a tunnel check its interface.
proof fn lemma_dns_ifaces(
    indices: Seq<u32>,
    tunnel: TunnelView,
    protocol: TransportProtocol,
    counters: bool,
)
    requires
        indices.len() >= rules::gateway_count(tunnel),
    ensures
        ifaces_of(rules::dns_rules(indices, tunnel, protocol, counters)) == indices.take(
            rules::gateway_count(tunnel),
        ),
{
    let group = rules::dns_rules(indices, tunnel, protocol, counters);
    reveal_with_fuel(ifaces_of, 3);
    assert(iface_of(group[0]) == Some(indices[0]));
    if tunnel.ipv6_gateway is Some {
        assert(iface_of(group[1]) == Some(indices[1]));
        assert(group.drop_last() =~= seq![group[0]]);
        assert(seq![group[0]].drop_last() =~= Seq::empty());
        assert(ifaces_of(group) =~= indices.take(2));
    } else {
        assert(group.drop_last() =~= Seq::empty());
        assert(ifaces_of(group) =~= indices.take(1));
    }
}

/// The rules by which this host configures its addresses check no interface.
proof fn lemma_dhcp_client_ifaces(params: ParametersView, counters: bool)
    ensures
        ifaces_of(rules::dhcp_client_rules(params, counters)) == Seq::<u32>::empty(),
{
    let v4 = rules::dhcpv4_client_rules(params, counters);
    let requests = rules::dhcpv6_request_rules(params, params.dhcpv6_server_addrs, counters);
    let response = seq![rules::dhcpv6_response_rule(params, counters)];
    let ndp = rules::ndp_rules(params, counters);
    lemma_no_ifaces(v4);
    lemma_no_ifaces(requests);
    lemma_no_ifaces(response);
    lemma_no_ifaces(ndp);
    lemma_ifaces_append(v4, requests);
    lemma_ifaces_append(v4 + requests, response);
    lemma_ifaces_append(v4 + requests + response, ndp);
}

/// The rules for pingable hosts check no interface.
proof fn lemma_pingable_hosts_ifaces(hosts: Seq<IpAddr>, counters: bool)
    ensures
        ifaces_of(rules::pingable_hosts_rules(hosts, counters)) == Seq::<u32>::empty(),
    decreases hosts.len(),
{
    if hosts.len() > 0 {
        let before = rules::pingable_hosts_rules(hosts.drop_last(), counters);
        let last = rules::ping_rules(hosts.last(), counters);
        lemma_pingable_hosts_ifaces(hosts.drop_last(), counters);
        lemma_no_ifaces(last);
        lemma_ifaces_append(before, last);
    }
}

/// The rules for networks check no interface.
proof fn lemma_lan_nets_ifaces(nets: Seq<IpNetwork>, counters: bool)
    ensures
        ifaces_of(rules::lan_nets_rules(nets, counters)) == Seq::<u32>::empty(),
    decreases nets.len(),
{
    if nets.len() > 0 {
        let before = rules::lan_nets_rules(nets.drop_last(), counters);
        let last = rules::lan_net_rules(nets.last(), counters);
        lemma_lan_nets_ifaces(nets.drop_last(), counters);
        lemma_no_ifaces(last);
        lemma_ifaces_append(before, last);
    }
}

/// The rules for the local network check no interface.
proof fn lemma_lan_ifaces(allow_lan: bool, params: ParametersView, counters: bool)
    ensures
        ifaces_of(rules::lan_rules_if(allow_lan, params, counters)) == Seq::<u32>::empty(),
{
    let lan = rules::lan_nets_rules(params.allowed_lan_nets, counters);
    let multicast = rules::multicast_rules(params.allowed_lan_multicast_nets, counters);
    let dhcp = rules::dhcp_server_rules(params, counters);
    lemma_lan_nets_ifaces(params.allowed_lan_nets, counters);
    lemma_no_ifaces(multicast);
    lemma_no_ifaces(dhcp);
    lemma_ifaces_append(lan, multicast);
    lemma_ifaces_append(lan + multicast, dhcp);
}

/// The rules that only this policy has check the tunnel interface, if any.
proof fn lemma_specific_ifaces(policy: PolicyView, indices: Seq<u32>, counters: bool)
    requires
        indices.len() == lookups_left(policy),
    ensures
        ifaces_of(rules::specific_rules(policy, indices, counters)) == indices,
{
    let block = rules::drop_dns_rules(counters);
    lemma_no_ifaces(block);
    match policy {
        PolicyView::Connecting { peer_endpoint, pingable_hosts, .. } => {
            let ping = rules::pingable_hosts_rules(pingable_hosts, counters);
            let relay = rules::endpoint_rules(peer_endpoint, counters);
            lemma_pingable_hosts_ifaces(pingable_hosts, counters);
            lemma_no_ifaces(relay);
            lemma_ifaces_append(ping, relay);
            lemma_ifaces_append(ping + relay, block);
            assert(ifaces_of(ping + relay + block) =~= indices);
        },
        PolicyView::Connected { peer_endpoint, tunnel, allow_lan } => {
            let count = rules::gateway_count(tunnel);
            let relay = rules::endpoint_rules(peer_endpoint, counters);
            let udp = rules::dns_rules(indices, tunnel, TransportProtocol::Udp, counters);
            let tcp = rules::dns_rules(
                indices.skip(count),
                tunnel,
                TransportProtocol::Tcp,
                counters,
            );
            let allow = rules::interface_rules(
                indices[2 * count],
                indices[2 * count + 1],
                counters,
            );
            let inside = rules::tunnel_rules(tunnel, indices, counters);
            let ips = if allow_lan {
                rules::block_tunnel_ips_rules(tunnel.ips, counters)
            } else {
                Seq::empty()
            };
            lemma_no_ifaces(relay);
            lemma_dns_ifaces(indices, tunnel, TransportProtocol::Udp, counters);
            lemma_dns_ifaces(indices.skip(count), tunnel, TransportProtocol::Tcp, counters);
            lemma_interface_ifaces(indices[2 * count], indices[2 * count + 1], counters);
            lemma_no_ifaces(ips);
            lemma_ifaces_append(udp, tcp);
            lemma_ifaces_append(udp + tcp, block);
            lemma_ifaces_append(udp + tcp + block, allow);
            lemma_ifaces_append(relay, inside);
            lemma_ifaces_append(relay + inside, ips);
            assert(ifaces_of(relay + inside + ips) =~= indices);
        },
        PolicyView::Blocked { .. } => {
            assert(ifaces_of(block) =~= indices);
        },
    }
}

/// The rules of a policy check the interfaces with the given indices, in order.
pub proof fn lemma_policy_ifaces(
    policy: PolicyView,
    params: ParametersView,
    indices: Seq<u32>,
    counters: bool,
)
    requires
        indices.len() == 2 + lookups_left(policy),
    ensures
        ifaces_of(rules::policy_rules(policy, params, indices, counters)) == indices,
{
    let loopback = rules::interface_rules(indices[0], indices[1], counters);
    let dhcp = rules::dhcp_client_rules(params, counters);
    let specific = rules::specific_rules(policy, indices.skip(2), counters);
    let lan = rules::lan_rules_if(policy.allow_lan(), params, counters);
    lemma_interface_ifaces(indices[0], indices[1], counters);
    lemma_dhcp_client_ifaces(params, counters);
    lemma_specific_ifaces(policy, indices.skip(2), counters);
    lemma_lan_ifaces(policy.allow_lan(), params, counters);
    lemma_ifaces_append(loopback, dhcp);
    lemma_ifaces_append(loopback + dhcp, specific);
    lemma_ifaces_append(loopback + dhcp + specific, lan);
    assert(ifaces_of(loopback + dhcp + specific + lan) =~= indices);
}

} // verus!
