//! How the rules of a policy are put together, and how groups of rules relate to each other.

use vstd::prelude::*;

use crate::batch::{lemma_add_no_rules, lemma_add_rules, policy_batch, PolicyBatchView};
use crate::checks::{ip_check, verdict_exprs, End};
use crate::laws::with_lan;
use crate::net::{Endpoint, IpAddr, TransportProtocol, TunnelView};
use crate::nft::{rule_messages, ChainName, RuleView, TableView, Verdict};
use crate::policy::{ParametersView, PolicyView};
use crate::rules;
use crate::rules::policy_rules;

verus! {

/// While a tunnel is being set up, the rules that only this policy has are those for the pingable
/// hosts, then those for the endpoint of the tunnel, then those that drop DNS queries, then, if
/// the local network is let through, those for the local network.
pub proof fn law_connecting_order(
    state: PolicyBatchView,
    peer_endpoint: Endpoint,
    pingable_hosts: Seq<IpAddr>,
    allow_lan: bool,
)
    ensures
        state.add_rules(
            rules::pingable_hosts_rules(pingable_hosts, state.counters),
        ).add_rules(rules::endpoint_rules(peer_endpoint, state.counters)).add_rules(
            rules::drop_dns_rules(state.counters),
        ).add_rules(rules::lan_rules_if(allow_lan, state.params, state.counters))
            == state.add_rules(
            rules::specific_rules(
                PolicyView::Connecting { peer_endpoint, pingable_hosts, allow_lan },
                state.indices,
                state.counters,
            ) + rules::lan_rules_if(allow_lan, state.params, state.counters),
        ),
{
    let ping = rules::pingable_hosts_rules(pingable_hosts, state.counters);
    let relay = rules::endpoint_rules(peer_endpoint, state.counters);
    let block = rules::drop_dns_rules(state.counters);
    let lan = rules::lan_rules_if(allow_lan, state.params, state.counters);
    lemma_add_rules(state.batch, ping, relay);
    lemma_add_rules(state.batch, ping + relay, block);
    lemma_add_rules(state.batch, ping + relay + block, lan);
}

/// The rules that shield the addresses of a tunnel, if the local network is let through.
pub open spec fn shield_rules_if(
    allow_lan: bool,
    tunnel: TunnelView,
    counters: bool,
) -> Seq<RuleView> {
    if allow_lan {
        rules::block_tunnel_ips_rules(tunnel.ips, counters)
    } else {
        Seq::empty()
    }
}

/// While a tunnel is up, the rules that only this policy has are those for the endpoint of the
/// tunnel, then those for DNS queries to the gateways over UDP and over TCP, then those that drop
/// all other DNS queries, then those for the tunnel, and then, if the local network is let
/// through, those that shield the addresses of the tunnel and those for the local network.
pub proof fn law_connected_order(
    state: PolicyBatchView,
    peer_endpoint: Endpoint,
    tunnel: TunnelView,
    allow_lan: bool,
)
    ensures
        ({
            let count = rules::gateway_count(tunnel);
            state.add_rules(rules::endpoint_rules(peer_endpoint, state.counters)).add_rules(
                rules::dns_rules(state.indices, tunnel, TransportProtocol::Udp, state.counters),
            ).add_rules(
                rules::dns_rules(
                    state.indices.skip(count),
                    tunnel,
                    TransportProtocol::Tcp,
                    state.counters,
                ),
            ).add_rules(rules::drop_dns_rules(state.counters)).add_rules(
                rules::interface_rules(
                    state.indices[2 * count],
                    state.indices[2 * count + 1],
                    state.counters,
                ),
            ).add_rules(shield_rules_if(allow_lan, tunnel, state.counters)).add_rules(
                rules::lan_rules_if(allow_lan, state.params, state.counters),
            )
        }) == state.add_rules(
            rules::specific_rules(
                PolicyView::Connected { peer_endpoint, tunnel, allow_lan },
                state.indices,
                state.counters,
            ) + rules::lan_rules_if(allow_lan, state.params, state.counters),
        ),
{
    let count = rules::gateway_count(tunnel);
    let relay = rules::endpoint_rules(peer_endpoint, state.counters);
    let udp = rules::dns_rules(state.indices, tunnel, TransportProtocol::Udp, state.counters);
    let tcp = rules::dns_rules(
        state.indices.skip(count),
        tunnel,
        TransportProtocol::Tcp,
        state.counters,
    );
    let block = rules::drop_dns_rules(state.counters);
    let allow = rules::interface_rules(
        state.indices[2 * count],
        state.indices[2 * count + 1],
        state.counters,
    );
    let shield = shield_rules_if(allow_lan, tunnel, state.counters);
    let lan = rules::lan_rules_if(allow_lan, state.params, state.counters);
    let policy = PolicyView::Connected { peer_endpoint, tunnel, allow_lan };
    lemma_add_rules(state.batch, relay, udp);
    lemma_add_rules(state.batch, relay + udp, tcp);
    lemma_add_rules(state.batch, relay + udp + tcp, block);
    lemma_add_rules(state.batch, relay + udp + tcp + block, allow);
    lemma_add_rules(state.batch, relay + udp + tcp + block + allow, shield);
    lemma_add_rules(state.batch, relay + udp + tcp + block + allow + shield, lan);
    assert(relay + udp + tcp + block + allow + shield =~= rules::specific_rules(
        policy,
        state.indices,
        state.counters,
    ));
}

/// The rules that come with the local network: for a tunnel that is up those that shield its
/// addresses, then those for the local network.
pub open spec fn rules_for_lan(
    policy: PolicyView,
    params: ParametersView,
    counters: bool,
) -> Seq<RuleView> {
    match policy {
        PolicyView::Connected { tunnel, .. } => rules::block_tunnel_ips_rules(tunnel.ips, counters)
            + rules::lan_rules(params, counters),
        _ => rules::lan_rules(params, counters),
    }
}

/// Letting through the local network only appends rules: no rule is removed, changed or preceded
/// by another. There is at least one such rule.
pub proof fn law_lan_appends_rules(
    table: TableView,
    policy: PolicyView,
    params: ParametersView,
    indices: Seq<u32>,
    counters: bool,
)
    ensures
        rules_for_lan(policy, params, counters).len() > 0,
        policy_rules(with_lan(policy, true), params, indices, counters) == policy_rules(
            with_lan(policy, false),
            params,
            indices,
            counters,
        ) + rules_for_lan(policy, params, counters),
        policy_batch(table, with_lan(policy, true), params, indices, counters).messages
            == policy_batch(
            table,
            with_lan(policy, false),
            params,
            indices,
            counters,
        ).messages + rule_messages(rules_for_lan(policy, params, counters)),
{
    let with = policy_rules(with_lan(policy, true), params, indices, counters);
    let without = policy_rules(with_lan(policy, false), params, indices, counters);
    let added = rules_for_lan(policy, params, counters);
    assert(rules::dhcp_server_rules(params, counters).len() == 2);
    assert(with =~= without + added);
    assert(rule_messages(without + added) =~= rule_messages(without) + rule_messages(added));
}

/// For each address of a tunnel there is one rule that shields it: it drops what comes in to that
/// address.
pub proof fn law_each_tunnel_ip_is_shielded(ips: Seq<IpAddr>, counters: bool)
    ensures
        rules::block_tunnel_ips_rules(ips, counters).len() == ips.len(),
        forall|i: int|
            0 <= i < ips.len() ==> (#[trigger] rules::block_tunnel_ips_rules(ips, counters)[i])
                == (RuleView {
                chain: ChainName::Input,
                exprs: ip_check(End::Dst, ips[i]) + verdict_exprs(Verdict::Drop, counters),
            }),
{
    assert forall|i: int| 0 <= i < ips.len() implies (
    #[trigger] rules::block_tunnel_ips_rules(ips, counters)[i]) == (RuleView {
        chain: ChainName::Input,
        exprs: ip_check(End::Dst, ips[i]) + verdict_exprs(Verdict::Drop, counters),
    }) by {
        assert(Seq::empty() + ip_check(End::Dst, ips[i]) =~= ip_check(End::Dst, ips[i]));
    }
}

/// The rules for the hosts of two lists, one after the other, are those for the hosts of both.
proof fn lemma_pingable_hosts_append(first: Seq<IpAddr>, second: Seq<IpAddr>, counters: bool)
    ensures
        rules::pingable_hosts_rules(first + second, counters) == rules::pingable_hosts_rules(
            first,
            counters,
        ) + rules::pingable_hosts_rules(second, counters),
    decreases second.len(),
{
    let before = rules::pingable_hosts_rules(first, counters);
    if second.len() == 0 {
        assert(first + second =~= first);
        assert(before + rules::pingable_hosts_rules(second, counters) =~= before);
    } else {
        lemma_pingable_hosts_append(first, second.drop_last(), counters);
        assert((first + second).drop_last() =~= first + second.drop_last());
        assert(before + rules::pingable_hosts_rules(second, counters) =~= before
            + rules::pingable_hosts_rules(second.drop_last(), counters) + rules::ping_rules(
            second.last(),
            counters,
        ));
    }
}

/// Allowing the hosts of one list to be pinged and then those of another is allowing those of
/// both lists at once. An empty list changes nothing.
pub proof fn law_pingable_hosts_append(
    state: PolicyBatchView,
    first: Seq<IpAddr>,
    second: Seq<IpAddr>,
)
    ensures
        rules::pingable_hosts_rules(first + second, state.counters) == rules::pingable_hosts_rules(
            first,
            state.counters,
        ) + rules::pingable_hosts_rules(second, state.counters),
        state.add_rules(rules::pingable_hosts_rules(first, state.counters)).add_rules(
            rules::pingable_hosts_rules(second, state.counters),
        ) == state.add_rules(rules::pingable_hosts_rules(first + second, state.counters)),
        state.add_rules(rules::pingable_hosts_rules(Seq::empty(), state.counters)) == state,
{
    lemma_pingable_hosts_append(first, second, state.counters);
    lemma_add_rules(
        state.batch,
        rules::pingable_hosts_rules(first, state.counters),
        rules::pingable_hosts_rules(second, state.counters),
    );
    lemma_add_no_rules(state.batch);
}

/// Each host in a list gets a pair of rules of its own, also if it is listed twice.
pub proof fn law_each_pingable_host_has_its_pair(hosts: Seq<IpAddr>, counters: bool, i: int)
    requires
        0 <= i < hosts.len(),
    ensures
        rules::pingable_hosts_rules(hosts, counters).len() == 2 * hosts.len(),
        rules::pingable_hosts_rules(hosts, counters).subrange(2 * i, 2 * i + 2)
            == rules::ping_rules(hosts[i], counters),
    decreases hosts.len(),
{
    let all = rules::pingable_hosts_rules(hosts, counters);
    let before = hosts.drop_last();
    if before.len() > 0 {
        let j = if i < before.len() {
            i
        } else {
            0
        };
        law_each_pingable_host_has_its_pair(before, counters, j);
    } else {
        assert(rules::pingable_hosts_rules(before, counters) =~= Seq::empty());
    }
    if i < before.len() {
        assert(all.subrange(2 * i, 2 * i + 2) =~= rules::pingable_hosts_rules(
            before,
            counters,
        ).subrange(2 * i, 2 * i + 2));
    } else {
        assert(all.subrange(2 * i, 2 * i + 2) =~= rules::ping_rules(hosts[i], counters));
    }
}

/// What a DHCPv4 client may send, a server may receive, and the other way round: the rules of the
/// server are those of the client with the chains exchanged.
pub proof fn law_dhcp_server_mirrors_client(params: ParametersView, counters: bool)
    ensures
        ({
            let client = rules::dhcp_client_rules(params, counters);
            let server = rules::dhcp_server_rules(params, counters);
            &&& server.len() == 2
            &&& server[0] == (RuleView { chain: ChainName::Output, exprs: client[1].exprs })
            &&& server[1] == (RuleView { chain: ChainName::Input, exprs: client[0].exprs })
            &&& client[0].chain == ChainName::Output
            &&& client[1].chain == ChainName::Input
        }),
{
    let client = rules::dhcp_client_rules(params, counters);
    let server = rules::dhcp_server_rules(params, counters);
    assert(client[0] == rules::dhcpv4_client_rules(params, counters)[0]);
    assert(client[1] == rules::dhcpv4_client_rules(params, counters)[1]);
    assert(server[0].exprs =~= client[1].exprs);
    assert(server[1].exprs =~= client[0].exprs);
}

} // verus!
