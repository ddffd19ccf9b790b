//! What the groups of rules of [`crate::rules`] decide.

use vstd::prelude::*;

use crate::checks::{endpoint_check, established_check, icmpv6_check, iface_check, ip_check};
use crate::checks::{l4number_check, net_check, port_check, verdict_exprs};
use crate::checks::{Direction, End};
use crate::matching::{decides, is_check, lemma_empty, lemma_endpoint_check};
use crate::matching::{lemma_established_check, lemma_first_verdict_append};
use crate::matching::{lemma_first_verdict_one, lemma_icmpv6_check, lemma_iface_check};
use crate::matching::{lemma_ip_check, lemma_l4number_check, lemma_net_check, lemma_port_check};
use crate::matching::{lemma_verdict, lemma_with};
use crate::net::{Endpoint, IpAddr, IpNetwork, TransportProtocol, TunnelView};
use crate::nft::{ChainName, Expr, RuleView, Verdict};
use crate::packet::{first_verdict, Packet};
use crate::policy::{ParametersView, PolicyView};
use crate::proto::{spec_control_proto, DNS_PORT};
use crate::proto::{REDIRECT, ROUTER_ADVERTISEMENT, ROUTER_SOLICITATION};
use crate::rules;
use crate::verdicts;

verus! {

/// The rules decide on the packet, with this verdict, if the condition holds, and leave it to
/// later rules if not.
pub open spec fn group_decides(
    group: Seq<RuleView>,
    chain: ChainName,
    packet: Packet,
    condition: bool,
    verdict: Verdict,
) -> bool {
    first_verdict(group, chain, packet) == if condition {
        Some(verdict)
    } else {
        None
    }
}

/// A rule that makes one check.
proof fn lemma_rule1(
    chain: ChainName,
    check: Seq<Expr>,
    packet: Packet,
    condition: bool,
    verdict: Verdict,
    counters: bool,
)
    requires
        is_check(check, packet, condition),
    ensures
        decides(
            RuleView::empty(chain).with(check).with(
                verdict_exprs(verdict, counters),
            ),
            packet,
            condition,
            verdict,
        ),
{
    let rule = RuleView::empty(chain);
    lemma_empty(chain, packet);
    lemma_with(rule, check, packet, true, condition);
    lemma_verdict(rule.with(check), packet, condition, verdict, counters);
}

/// A rule that makes two checks.
proof fn lemma_rule2(
    chain: ChainName,
    first: Seq<Expr>,
    second: Seq<Expr>,
    packet: Packet,
    condition: bool,
    and_then: bool,
    verdict: Verdict,
    counters: bool,
)
    requires
        is_check(first, packet, condition),
        is_check(second, packet, and_then),
    ensures
        decides(
            RuleView::empty(chain).with(first).with(second).with(
                verdict_exprs(verdict, counters),
            ),
            packet,
            condition && and_then,
            verdict,
        ),
{
    let rule = RuleView::empty(chain);
    lemma_empty(chain, packet);
    lemma_with(rule, first, packet, true, condition);
    lemma_with(rule.with(first), second, packet, condition, and_then);
    lemma_verdict(
        rule.with(first).with(second),
        packet,
        condition && and_then,
        verdict,
        counters,
    );
}

/// A rule that makes three checks.
proof fn lemma_rule3(
    chain: ChainName,
    first: Seq<Expr>,
    second: Seq<Expr>,
    third: Seq<Expr>,
    packet: Packet,
    c1: bool,
    c2: bool,
    c3: bool,
    verdict: Verdict,
    counters: bool,
)
    requires
        is_check(first, packet, c1),
        is_check(second, packet, c2),
        is_check(third, packet, c3),
    ensures
        decides(
            RuleView::empty(chain).with(first).with(second).with(third).with(
                verdict_exprs(verdict, counters),
            ),
            packet,
            c1 && c2 && c3,
            verdict,
        ),
{
    let rule = RuleView::empty(chain);
    lemma_empty(chain, packet);
    lemma_with(rule, first, packet, true, c1);
    lemma_with(rule.with(first), second, packet, c1, c2);
    lemma_with(rule.with(first).with(second), third, packet, c1 && c2, c3);
    lemma_verdict(
        rule.with(first).with(second).with(third),
        packet,
        c1 && c2 && c3,
        verdict,
        counters,
    );
}

/// A rule that makes four checks.
proof fn lemma_rule4(
    chain: ChainName,
    first: Seq<Expr>,
    second: Seq<Expr>,
    third: Seq<Expr>,
    fourth: Seq<Expr>,
    packet: Packet,
    c1: bool,
    c2: bool,
    c3: bool,
    c4: bool,
    verdict: Verdict,
    counters: bool,
)
    requires
        is_check(first, packet, c1),
        is_check(second, packet, c2),
        is_check(third, packet, c3),
        is_check(fourth, packet, c4),
    ensures
        decides(
            RuleView::empty(chain).with(first).with(second).with(third).with(fourth).with(
                verdict_exprs(verdict, counters),
            ),
            packet,
            c1 && c2 && c3 && c4,
            verdict,
        ),
{
    let rule = RuleView::empty(chain).with(first).with(second).with(third);
    lemma_empty(chain, packet);
    lemma_with(RuleView::empty(chain), first, packet, true, c1);
    lemma_with(RuleView::empty(chain).with(first), second, packet, c1, c2);
    lemma_with(RuleView::empty(chain).with(first).with(second), third, packet, c1 && c2, c3);
    lemma_with(rule, fourth, packet, c1 && c2 && c3, c4);
    lemma_verdict(rule.with(fourth), packet, c1 && c2 && c3 && c4, verdict, counters);
}

/// What rules decide, each on its own condition, with the same verdict.
proof fn lemma_group(
    group: Seq<RuleView>,
    chain: ChainName,
    packet: Packet,
    condition: spec_fn(int) -> bool,
    verdict: Verdict,
)
    requires
        forall|i: int|
            0 <= i < group.len() ==> decides(
                #[trigger] group[i],
                packet,
                condition(i),
                verdict,
            ),
    ensures
        group_decides(
            group,
            chain,
            packet,
            exists|i: int|
                0 <= i < group.len() && (#[trigger] group[i]).chain == chain && condition(i),
            verdict,
        ),
    decreases group.len(),
{
    if group.len() > 0 {
        let rest = group.drop_last();
        let last = group.len() - 1;
        assert(group.last() == group[last]);
        assert forall|i: int| 0 <= i < rest.len() implies decides(
            #[trigger] rest[i],
            packet,
            condition(i),
            verdict,
        ) by {
            assert(rest[i] == group[i]);
        }
        lemma_group(rest, chain, packet, condition, verdict);
        if exists|i: int| 0 <= i < rest.len() && (#[trigger] rest[i]).chain == chain && condition(i) {
            let i = choose|i: int|
                0 <= i < rest.len() && (#[trigger] rest[i]).chain == chain && condition(i);
            assert(rest[i] == group[i]);
        } else {
            assert forall|i: int| 0 <= i < rest.len() implies !((#[trigger] group[i]).chain == chain
                && condition(i)) by {
                assert(rest[i] == group[i]);
            }
        }
    }
}

/// What two rules with the same verdict decide.
proof fn lemma_pair(
    group: Seq<RuleView>,
    packet: Packet,
    c0: bool,
    c1: bool,
    verdict: Verdict,
)
    requires
        group.len() == 2,
        decides(group[0], packet, c0, verdict),
        decides(group[1], packet, c1, verdict),
    ensures
        group_decides(
            group,
            ChainName::Output,
            packet,
            group[0].chain is Output && c0 || group[1].chain is Output && c1,
            verdict,
        ),
        group_decides(
            group,
            ChainName::Input,
            packet,
            group[0].chain is Input && c0 || group[1].chain is Input && c1,
            verdict,
        ),
{
    let condition = |i: int| if i == 0 { c0 } else { c1 };
    lemma_group(group, ChainName::Output, packet, condition, verdict);
    lemma_group(group, ChainName::Input, packet, condition, verdict);
    assert(group[0].chain == group[0].chain && group[1].chain == group[1].chain);
}

/// What the rules for an interface decide.
pub proof fn lemma_interface_rules(out_index: u32, in_index: u32, counters: bool, packet: Packet)
    ensures
        group_decides(
            rules::interface_rules(out_index, in_index, counters),
            ChainName::Output,
            packet,
            packet.oif == out_index,
            Verdict::Accept,
        ),
        group_decides(
            rules::interface_rules(out_index, in_index, counters),
            ChainName::Input,
            packet,
            packet.iif == in_index,
            Verdict::Accept,
        ),
{
    let group = rules::interface_rules(out_index, in_index, counters);
    lemma_iface_check(Direction::Out, out_index, packet);
    lemma_iface_check(Direction::In, in_index, packet);
    lemma_rule1(
        ChainName::Output,
        iface_check(Direction::Out, out_index),
        packet,
        packet.oif == out_index,
        Verdict::Accept,
        counters,
    );
    lemma_rule1(
        ChainName::Input,
        iface_check(Direction::In, in_index),
        packet,
        packet.iif == in_index,
        Verdict::Accept,
        counters,
    );
    lemma_pair(group, packet, packet.oif == out_index, packet.iif == in_index, Verdict::Accept);
}

/// What the rules for a DHCPv4 client decide.
proof fn lemma_dhcpv4_client_rules(params: ParametersView, counters: bool, packet: Packet)
    ensures
        group_decides(
            rules::dhcpv4_client_rules(params, counters),
            ChainName::Output,
            packet,
            verdicts::is_dhcpv4_request(params, packet),
            Verdict::Accept,
        ),
        group_decides(
            rules::dhcpv4_client_rules(params, counters),
            ChainName::Input,
            packet,
            verdicts::is_dhcpv4_response(params, packet),
            Verdict::Accept,
        ),
{
    let udp = TransportProtocol::Udp;
    let group = rules::dhcpv4_client_rules(params, counters);
    lemma_port_check(udp, End::Src, params.dhcpv4_client_port, packet);
    lemma_port_check(udp, End::Src, params.dhcpv4_server_port, packet);
    lemma_port_check(udp, End::Dst, params.dhcpv4_client_port, packet);
    lemma_port_check(udp, End::Dst, params.dhcpv4_server_port, packet);
    lemma_ip_check(End::Dst, rules::broadcast(), packet);
    lemma_rule3(
        ChainName::Output,
        port_check(udp, End::Src, params.dhcpv4_client_port),
        ip_check(End::Dst, rules::broadcast()),
        port_check(udp, End::Dst, params.dhcpv4_server_port),
        packet,
        packet.has_port(udp, End::Src, params.dhcpv4_client_port),
        packet.has_addr(End::Dst, rules::broadcast()),
        packet.has_port(udp, End::Dst, params.dhcpv4_server_port),
        Verdict::Accept,
        counters,
    );
    lemma_rule2(
        ChainName::Input,
        port_check(udp, End::Src, params.dhcpv4_server_port),
        port_check(udp, End::Dst, params.dhcpv4_client_port),
        packet,
        packet.has_port(udp, End::Src, params.dhcpv4_server_port),
        packet.has_port(udp, End::Dst, params.dhcpv4_client_port),
        Verdict::Accept,
        counters,
    );
    lemma_pair(
        group,
        packet,
        verdicts::is_dhcpv4_request(params, packet),
        verdicts::is_dhcpv4_response(params, packet),
        Verdict::Accept,
    );
}

/// What the rules for DHCPv6 requests decide.
proof fn lemma_dhcpv6_request_rules(params: ParametersView, counters: bool, packet: Packet)
    ensures
        group_decides(
            rules::dhcpv6_request_rules(params, params.dhcpv6_server_addrs, counters),
            ChainName::Output,
            packet,
            verdicts::is_dhcpv6_request(params, packet),
            Verdict::Accept,
        ),
        group_decides(
            rules::dhcpv6_request_rules(params, params.dhcpv6_server_addrs, counters),
            ChainName::Input,
            packet,
            false,
            Verdict::Accept,
        ),
{
    let udp = TransportProtocol::Udp;
    let servers = params.dhcpv6_server_addrs;
    let link_local = IpNetwork::V6(params.ipv6_link_local);
    let group = rules::dhcpv6_request_rules(params, servers, counters);
    let condition = |i: int| verdicts::is_dhcpv6_request_to(params, servers[i], packet);
    lemma_net_check(End::Src, link_local, packet);
    lemma_port_check(udp, End::Src, params.dhcpv6_client_port, packet);
    lemma_port_check(udp, End::Dst, params.dhcpv6_server_port, packet);
    assert forall|i: int| 0 <= i < group.len() implies decides(
        #[trigger] group[i],
        packet,
        condition(i),
        Verdict::Accept,
    ) by {
        lemma_ip_check(End::Dst, IpAddr::V6(servers[i]), packet);
        lemma_rule4(
            ChainName::Output,
            net_check(End::Src, link_local),
            port_check(udp, End::Src, params.dhcpv6_client_port),
            ip_check(End::Dst, IpAddr::V6(servers[i])),
            port_check(udp, End::Dst, params.dhcpv6_server_port),
            packet,
            packet.in_net(End::Src, link_local),
            packet.has_port(udp, End::Src, params.dhcpv6_client_port),
            packet.has_addr(End::Dst, IpAddr::V6(servers[i])),
            packet.has_port(udp, End::Dst, params.dhcpv6_server_port),
            Verdict::Accept,
            counters,
        );
    }
    lemma_group(group, ChainName::Output, packet, condition, Verdict::Accept);
    lemma_group(group, ChainName::Input, packet, condition, Verdict::Accept);
    if verdicts::is_dhcpv6_request(params, packet) {
        let i = choose|i: int|
            0 <= i < servers.len() && verdicts::is_dhcpv6_request_to(
                params,
                #[trigger] servers[i],
                packet,
            );
        assert(group[i].chain == ChainName::Output && condition(i));
    } else {
        assert forall|i: int| 0 <= i < group.len() implies !((#[trigger] group[i]).chain
            == ChainName::Output && condition(i)) by {
            assert(!verdicts::is_dhcpv6_request_to(params, servers[i], packet));
        }
    }
}

/// What the rule for DHCPv6 responses decides.
proof fn lemma_dhcpv6_response_rule(params: ParametersView, counters: bool, packet: Packet)
    ensures
        group_decides(
            seq![rules::dhcpv6_response_rule(params, counters)],
            ChainName::Output,
            packet,
            false,
            Verdict::Accept,
        ),
        group_decides(
            seq![rules::dhcpv6_response_rule(params, counters)],
            ChainName::Input,
            packet,
            verdicts::is_dhcpv6_response(params, packet),
            Verdict::Accept,
        ),
{
    let udp = TransportProtocol::Udp;
    let link_local = IpNetwork::V6(params.ipv6_link_local);
    let rule = rules::dhcpv6_response_rule(params, counters);
    lemma_net_check(End::Src, link_local, packet);
    lemma_net_check(End::Dst, link_local, packet);
    lemma_port_check(udp, End::Src, params.dhcpv6_server_port, packet);
    lemma_port_check(udp, End::Dst, params.dhcpv6_client_port, packet);
    lemma_rule4(
        ChainName::Input,
        net_check(End::Src, link_local),
        port_check(udp, End::Src, params.dhcpv6_server_port),
        net_check(End::Dst, link_local),
        port_check(udp, End::Dst, params.dhcpv6_client_port),
        packet,
        packet.in_net(End::Src, link_local),
        packet.has_port(udp, End::Src, params.dhcpv6_server_port),
        packet.in_net(End::Dst, link_local),
        packet.has_port(udp, End::Dst, params.dhcpv6_client_port),
        Verdict::Accept,
        counters,
    );
    lemma_first_verdict_one(rule, ChainName::Output, packet);
    lemma_first_verdict_one(rule, ChainName::Input, packet);
}

/// What the rules that find routers decide.
proof fn lemma_ndp_rules(params: ParametersView, counters: bool, packet: Packet)
    ensures
        group_decides(
            rules::ndp_rules(params, counters),
            ChainName::Output,
            packet,
            packet.has_addr(End::Dst, IpAddr::V6(params.router_solicitation_out_dst_addr))
                && packet.is_icmpv6(ROUTER_SOLICITATION),
            Verdict::Accept,
        ),
        group_decides(
            rules::ndp_rules(params, counters),
            ChainName::Input,
            packet,
            packet.in_net(End::Src, IpNetwork::V6(params.ipv6_link_local)) && (packet.is_icmpv6(
                ROUTER_ADVERTISEMENT,
            ) || packet.is_icmpv6(REDIRECT)),
            Verdict::Accept,
        ),
{
    let group = rules::ndp_rules(params, counters);
    let router = IpAddr::V6(params.router_solicitation_out_dst_addr);
    let link_local = IpNetwork::V6(params.ipv6_link_local);
    let c0 = packet.has_addr(End::Dst, router) && packet.is_icmpv6(ROUTER_SOLICITATION);
    let c1 = packet.in_net(End::Src, link_local) && packet.is_icmpv6(ROUTER_ADVERTISEMENT);
    let c2 = packet.in_net(End::Src, link_local) && packet.is_icmpv6(REDIRECT);
    lemma_ip_check(End::Dst, router, packet);
    lemma_net_check(End::Src, link_local, packet);
    lemma_icmpv6_check(ROUTER_SOLICITATION, packet);
    lemma_icmpv6_check(ROUTER_ADVERTISEMENT, packet);
    lemma_icmpv6_check(REDIRECT, packet);
    lemma_rule2(
        ChainName::Output,
        ip_check(End::Dst, router),
        icmpv6_check(ROUTER_SOLICITATION),
        packet,
        packet.has_addr(End::Dst, router),
        packet.is_icmpv6(ROUTER_SOLICITATION),
        Verdict::Accept,
        counters,
    );
    lemma_rule2(
        ChainName::Input,
        net_check(End::Src, link_local),
        icmpv6_check(ROUTER_ADVERTISEMENT),
        packet,
        packet.in_net(End::Src, link_local),
        packet.is_icmpv6(ROUTER_ADVERTISEMENT),
        Verdict::Accept,
        counters,
    );
    lemma_rule2(
        ChainName::Input,
        net_check(End::Src, link_local),
        icmpv6_check(REDIRECT),
        packet,
        packet.in_net(End::Src, link_local),
        packet.is_icmpv6(REDIRECT),
        Verdict::Accept,
        counters,
    );
    let condition = |i: int|
        if i == 0 {
            c0
        } else if i == 1 {
            c1
        } else {
            c2
        };
    lemma_group(group, ChainName::Output, packet, condition, Verdict::Accept);
    lemma_group(group, ChainName::Input, packet, condition, Verdict::Accept);
    assert(group[0].chain is Output && group[1].chain is Input && group[2].chain is Input);
}

/// What the rules by which this host configures its addresses decide.
pub proof fn lemma_dhcp_client_rules(params: ParametersView, counters: bool, packet: Packet)
    ensures
        group_decides(
            rules::dhcp_client_rules(params, counters),
            ChainName::Output,
            packet,
            verdicts::configures_out(params, packet),
            Verdict::Accept,
        ),
        group_decides(
            rules::dhcp_client_rules(params, counters),
            ChainName::Input,
            packet,
            verdicts::configures_in(params, packet),
            Verdict::Accept,
        ),
{
    let v4 = rules::dhcpv4_client_rules(params, counters);
    let requests = rules::dhcpv6_request_rules(params, params.dhcpv6_server_addrs, counters);
    let response = seq![rules::dhcpv6_response_rule(params, counters)];
    let ndp = rules::ndp_rules(params, counters);
    lemma_dhcpv4_client_rules(params, counters, packet);
    lemma_dhcpv6_request_rules(params, counters, packet);
    lemma_dhcpv6_response_rule(params, counters, packet);
    lemma_ndp_rules(params, counters, packet);
    lemma_first_verdict_append(v4, requests, ChainName::Output, packet);
    lemma_first_verdict_append(v4, requests, ChainName::Input, packet);
    lemma_first_verdict_append(v4 + requests, response, ChainName::Output, packet);
    lemma_first_verdict_append(v4 + requests, response, ChainName::Input, packet);
    lemma_first_verdict_append(v4 + requests + response, ndp, ChainName::Output, packet);
    lemma_first_verdict_append(v4 + requests + response, ndp, ChainName::Input, packet);
}

/// What the rules for an endpoint decide.
proof fn lemma_endpoint_rules(endpoint: Endpoint, counters: bool, packet: Packet)
    ensures
        group_decides(
            rules::endpoint_rules(endpoint, counters),
            ChainName::Output,
            packet,
            verdicts::goes_to(endpoint, packet),
            Verdict::Accept,
        ),
        group_decides(
            rules::endpoint_rules(endpoint, counters),
            ChainName::Input,
            packet,
            verdicts::comes_from(endpoint, packet),
            Verdict::Accept,
        ),
{
    let group = rules::endpoint_rules(endpoint, counters);
    lemma_endpoint_check(End::Src, endpoint, packet);
    lemma_endpoint_check(End::Dst, endpoint, packet);
    lemma_established_check(packet);
    lemma_rule2(
        ChainName::Input,
        endpoint_check(End::Src, endpoint),
        established_check(),
        packet,
        packet.has_addr(End::Src, endpoint.address.ip) && packet.has_port(
            endpoint.protocol,
            End::Src,
            endpoint.address.port,
        ),
        packet.established(),
        Verdict::Accept,
        counters,
    );
    lemma_rule1(
        ChainName::Output,
        endpoint_check(End::Dst, endpoint),
        packet,
        verdicts::goes_to(endpoint, packet),
        Verdict::Accept,
        counters,
    );
    lemma_pair(
        group,
        packet,
        verdicts::comes_from(endpoint, packet),
        verdicts::goes_to(endpoint, packet),
        Verdict::Accept,
    );
}

/// The packet is a control message whose address at an end is that of the host.
spec fn pings_host(host: IpAddr, end: End, packet: Packet) -> bool {
    packet.has_addr(end, host) && packet.l4proto == Some(spec_control_proto(host))
}

/// What the rules for a pingable host decide.
proof fn lemma_ping_rules(host: IpAddr, counters: bool, packet: Packet)
    ensures
        group_decides(
            rules::ping_rules(host, counters),
            ChainName::Output,
            packet,
            pings_host(host, End::Dst, packet),
            Verdict::Accept,
        ),
        group_decides(
            rules::ping_rules(host, counters),
            ChainName::Input,
            packet,
            pings_host(host, End::Src, packet),
            Verdict::Accept,
        ),
{
    let number = spec_control_proto(host);
    lemma_ip_check(End::Src, host, packet);
    lemma_ip_check(End::Dst, host, packet);
    lemma_l4number_check(number, packet);
    lemma_rule2(
        ChainName::Output,
        ip_check(End::Dst, host),
        l4number_check(number),
        packet,
        packet.has_addr(End::Dst, host),
        packet.l4proto == Some(number),
        Verdict::Accept,
        counters,
    );
    lemma_rule2(
        ChainName::Input,
        ip_check(End::Src, host),
        l4number_check(number),
        packet,
        packet.has_addr(End::Src, host),
        packet.l4proto == Some(number),
        Verdict::Accept,
        counters,
    );
    lemma_pair(
        rules::ping_rules(host, counters),
        packet,
        pings_host(host, End::Dst, packet),
        pings_host(host, End::Src, packet),
        Verdict::Accept,
    );
}

/// Pinging one of the hosts is pinging the last or one of the others.
proof fn lemma_pings_last(hosts: Seq<IpAddr>, end: End, packet: Packet)
    requires
        hosts.len() > 0,
    ensures
        verdicts::pings(hosts, end, packet) <==> verdicts::pings(hosts.drop_last(), end, packet)
            || pings_host(hosts.last(), end, packet),
{
    let rest = hosts.drop_last();
    if verdicts::pings(hosts, end, packet) {
        let i = choose|i: int|
            0 <= i < hosts.len() && packet.has_addr(end, #[trigger] hosts[i]) && packet.l4proto
                == Some(spec_control_proto(hosts[i]));
        if i < rest.len() {
            assert(rest[i] == hosts[i]);
        }
    }
    if verdicts::pings(rest, end, packet) {
        let i = choose|i: int|
            0 <= i < rest.len() && packet.has_addr(end, #[trigger] rest[i]) && packet.l4proto
                == Some(spec_control_proto(rest[i]));
        assert(rest[i] == hosts[i]);
    }
    if pings_host(hosts.last(), end, packet) {
        assert(hosts.last() == hosts[hosts.len() - 1]);
    }
}

/// What the rules for pingable hosts decide.
proof fn lemma_pingable_hosts_rules(hosts: Seq<IpAddr>, counters: bool, packet: Packet)
    ensures
        group_decides(
            rules::pingable_hosts_rules(hosts, counters),
            ChainName::Output,
            packet,
            verdicts::pings(hosts, End::Dst, packet),
            Verdict::Accept,
        ),
        group_decides(
            rules::pingable_hosts_rules(hosts, counters),
            ChainName::Input,
            packet,
            verdicts::pings(hosts, End::Src, packet),
            Verdict::Accept,
        ),
    decreases hosts.len(),
{
    if hosts.len() > 0 {
        let rest = hosts.drop_last();
        let before = rules::pingable_hosts_rules(rest, counters);
        let last = rules::ping_rules(hosts.last(), counters);
        lemma_pingable_hosts_rules(rest, counters, packet);
        lemma_ping_rules(hosts.last(), counters, packet);
        lemma_first_verdict_append(before, last, ChainName::Output, packet);
        lemma_first_verdict_append(before, last, ChainName::Input, packet);
        lemma_pings_last(hosts, End::Dst, packet);
        lemma_pings_last(hosts, End::Src, packet);
    }
}

/// What a rule for DNS queries to a host decides.
proof fn lemma_dns_rule(
    index: u32,
    protocol: TransportProtocol,
    host: IpAddr,
    counters: bool,
    packet: Packet,
)
    ensures
        decides(
            rules::dns_rule(index, protocol, host, counters),
            packet,
            packet.oif == index && packet.has_port(protocol, End::Dst, DNS_PORT)
                && packet.has_addr(End::Dst, host),
            Verdict::Accept,
        ),
{
    lemma_iface_check(Direction::Out, index, packet);
    lemma_port_check(protocol, End::Dst, DNS_PORT, packet);
    lemma_ip_check(End::Dst, host, packet);
    lemma_rule3(
        ChainName::Output,
        iface_check(Direction::Out, index),
        port_check(protocol, End::Dst, DNS_PORT),
        ip_check(End::Dst, host),
        packet,
        packet.oif == index,
        packet.has_port(protocol, End::Dst, DNS_PORT),
        packet.has_addr(End::Dst, host),
        Verdict::Accept,
        counters,
    );
}

/// What the rules for DNS queries to the gateways of a tunnel decide.
proof fn lemma_dns_rules(
    indices: Seq<u32>,
    tunnel: TunnelView,
    protocol: TransportProtocol,
    counters: bool,
    packet: Packet,
)
    ensures
        group_decides(
            rules::dns_rules(indices, tunnel, protocol, counters),
            ChainName::Output,
            packet,
            verdicts::queries_gateway(tunnel, indices, protocol, packet),
            Verdict::Accept,
        ),
        group_decides(
            rules::dns_rules(indices, tunnel, protocol, counters),
            ChainName::Input,
            packet,
            false,
            Verdict::Accept,
        ),
{
    let group = rules::dns_rules(indices, tunnel, protocol, counters);
    let v4 = IpAddr::V4(tunnel.ipv4_gateway);
    lemma_dns_rule(indices[0], protocol, v4, counters, packet);
    match tunnel.ipv6_gateway {
        Some(gateway) => {
            let v6 = IpAddr::V6(gateway);
            lemma_dns_rule(indices[1], protocol, v6, counters, packet);
            lemma_pair(
                group,
                packet,
                packet.oif == indices[0] && packet.has_port(protocol, End::Dst, DNS_PORT)
                    && packet.has_addr(End::Dst, v4),
                packet.oif == indices[1] && packet.has_port(protocol, End::Dst, DNS_PORT)
                    && packet.has_addr(End::Dst, v6),
                Verdict::Accept,
            );
        },
        None => {
            lemma_first_verdict_one(group[0], ChainName::Output, packet);
            lemma_first_verdict_one(group[0], ChainName::Input, packet);
            assert(group =~= seq![group[0]]);
        },
    }
}

/// What the rules that drop DNS queries decide.
proof fn lemma_drop_dns_rules(counters: bool, packet: Packet)
    ensures
        group_decides(
            rules::drop_dns_rules(counters),
            ChainName::Output,
            packet,
            verdicts::is_dns(packet),
            Verdict::Drop,
        ),
        group_decides(
            rules::drop_dns_rules(counters),
            ChainName::Input,
            packet,
            false,
            Verdict::Drop,
        ),
{
    let udp = TransportProtocol::Udp;
    let tcp = TransportProtocol::Tcp;
    lemma_port_check(udp, End::Dst, DNS_PORT, packet);
    lemma_port_check(tcp, End::Dst, DNS_PORT, packet);
    lemma_rule1(
        ChainName::Output,
        port_check(udp, End::Dst, DNS_PORT),
        packet,
        packet.has_port(udp, End::Dst, DNS_PORT),
        Verdict::Drop,
        counters,
    );
    lemma_rule1(
        ChainName::Output,
        port_check(tcp, End::Dst, DNS_PORT),
        packet,
        packet.has_port(tcp, End::Dst, DNS_PORT),
        Verdict::Drop,
        counters,
    );
    lemma_pair(
        rules::drop_dns_rules(counters),
        packet,
        packet.has_port(udp, End::Dst, DNS_PORT),
        packet.has_port(tcp, End::Dst, DNS_PORT),
        Verdict::Drop,
    );
}

/// What the rules that block the addresses of a tunnel decide.
proof fn lemma_block_tunnel_ips_rules(ips: Seq<IpAddr>, counters: bool, packet: Packet)
    ensures
        group_decides(
            rules::block_tunnel_ips_rules(ips, counters),
            ChainName::Output,
            packet,
            false,
            Verdict::Drop,
        ),
        group_decides(
            rules::block_tunnel_ips_rules(ips, counters),
            ChainName::Input,
            packet,
            verdicts::goes_to_any(ips, packet),
            Verdict::Drop,
        ),
{
    let group = rules::block_tunnel_ips_rules(ips, counters);
    let condition = |i: int| packet.has_addr(End::Dst, ips[i]);
    assert forall|i: int| 0 <= i < group.len() implies decides(
        #[trigger] group[i],
        packet,
        condition(i),
        Verdict::Drop,
    ) by {
        lemma_ip_check(End::Dst, ips[i], packet);
        lemma_rule1(
            ChainName::Input,
            ip_check(End::Dst, ips[i]),
            packet,
            packet.has_addr(End::Dst, ips[i]),
            Verdict::Drop,
            counters,
        );
    }
    lemma_group(group, ChainName::Output, packet, condition, Verdict::Drop);
    lemma_group(group, ChainName::Input, packet, condition, Verdict::Drop);
    if verdicts::goes_to_any(ips, packet) {
        let i = choose|i: int| 0 <= i < ips.len() && packet.has_addr(End::Dst, #[trigger] ips[i]);
        assert(group[i].chain == ChainName::Input && condition(i));
    } else {
        assert forall|i: int| 0 <= i < group.len() implies !((#[trigger] group[i]).chain
            == ChainName::Input && condition(i)) by {
            assert(!packet.has_addr(End::Dst, ips[i]));
        }
    }
}

/// What the rules for a network decide.
proof fn lemma_lan_net_rules(net: IpNetwork, counters: bool, packet: Packet)
    ensures
        group_decides(
            rules::lan_net_rules(net, counters),
            ChainName::Output,
            packet,
            packet.in_net(End::Dst, net),
            Verdict::Accept,
        ),
        group_decides(
            rules::lan_net_rules(net, counters),
            ChainName::Input,
            packet,
            packet.in_net(End::Src, net),
            Verdict::Accept,
        ),
{
    lemma_net_check(End::Src, net, packet);
    lemma_net_check(End::Dst, net, packet);
    lemma_rule1(
        ChainName::Output,
        net_check(End::Dst, net),
        packet,
        packet.in_net(End::Dst, net),
        Verdict::Accept,
        counters,
    );
    lemma_rule1(
        ChainName::Input,
        net_check(End::Src, net),
        packet,
        packet.in_net(End::Src, net),
        Verdict::Accept,
        counters,
    );
    lemma_pair(
        rules::lan_net_rules(net, counters),
        packet,
        packet.in_net(End::Dst, net),
        packet.in_net(End::Src, net),
        Verdict::Accept,
    );
}

/// Being in one of the networks is being in the last or in one of the others.
proof fn lemma_in_nets_last(nets: Seq<IpNetwork>, end: End, packet: Packet)
    requires
        nets.len() > 0,
    ensures
        packet.in_nets(end, nets) <==> packet.in_nets(end, nets.drop_last()) || packet.in_net(
            end,
            nets.last(),
        ),
{
    let rest = nets.drop_last();
    if packet.in_nets(end, nets) {
        let i = choose|i: int| 0 <= i < nets.len() && packet.in_net(end, #[trigger] nets[i]);
        if i < rest.len() {
            assert(rest[i] == nets[i]);
        }
    }
    if packet.in_nets(end, rest) {
        let i = choose|i: int| 0 <= i < rest.len() && packet.in_net(end, #[trigger] rest[i]);
        assert(rest[i] == nets[i]);
    }
    if packet.in_net(end, nets.last()) {
        assert(nets.last() == nets[nets.len() - 1]);
    }
}

/// What the rules for networks decide.
proof fn lemma_lan_nets_rules(nets: Seq<IpNetwork>, counters: bool, packet: Packet)
    ensures
        group_decides(
            rules::lan_nets_rules(nets, counters),
            ChainName::Output,
            packet,
            packet.in_nets(End::Dst, nets),
            Verdict::Accept,
        ),
        group_decides(
            rules::lan_nets_rules(nets, counters),
            ChainName::Input,
            packet,
            packet.in_nets(End::Src, nets),
            Verdict::Accept,
        ),
    decreases nets.len(),
{
    if nets.len() > 0 {
        let rest = nets.drop_last();
        let before = rules::lan_nets_rules(rest, counters);
        let last = rules::lan_net_rules(nets.last(), counters);
        lemma_lan_nets_rules(rest, counters, packet);
        lemma_lan_net_rules(nets.last(), counters, packet);
        lemma_first_verdict_append(before, last, ChainName::Output, packet);
        lemma_first_verdict_append(before, last, ChainName::Input, packet);
        lemma_in_nets_last(nets, End::Dst, packet);
        lemma_in_nets_last(nets, End::Src, packet);
    }
}

/// What the rules for multicast networks decide.
proof fn lemma_multicast_rules(nets: Seq<IpNetwork>, counters: bool, packet: Packet)
    ensures
        group_decides(
            rules::multicast_rules(nets, counters),
            ChainName::Output,
            packet,
            packet.in_nets(End::Dst, nets),
            Verdict::Accept,
        ),
        group_decides(
            rules::multicast_rules(nets, counters),
            ChainName::Input,
            packet,
            false,
            Verdict::Accept,
        ),
{
    let group = rules::multicast_rules(nets, counters);
    let condition = |i: int| packet.in_net(End::Dst, nets[i]);
    assert forall|i: int| 0 <= i < group.len() implies decides(
        #[trigger] group[i],
        packet,
        condition(i),
        Verdict::Accept,
    ) by {
        lemma_net_check(End::Dst, nets[i], packet);
        lemma_rule1(
            ChainName::Output,
            net_check(End::Dst, nets[i]),
            packet,
            packet.in_net(End::Dst, nets[i]),
            Verdict::Accept,
            counters,
        );
    }
    lemma_group(group, ChainName::Output, packet, condition, Verdict::Accept);
    lemma_group(group, ChainName::Input, packet, condition, Verdict::Accept);
    if packet.in_nets(End::Dst, nets) {
        let i = choose|i: int| 0 <= i < nets.len() && packet.in_net(End::Dst, #[trigger] nets[i]);
        assert(group[i].chain == ChainName::Output && condition(i));
    } else {
        assert forall|i: int| 0 <= i < group.len() implies !((#[trigger] group[i]).chain
            == ChainName::Output && condition(i)) by {
            assert(!packet.in_net(End::Dst, nets[i]));
        }
    }
}

/// What the rules for a DHCPv4 server decide.
proof fn lemma_dhcp_server_rules(params: ParametersView, counters: bool, packet: Packet)
    ensures
        group_decides(
            rules::dhcp_server_rules(params, counters),
            ChainName::Output,
            packet,
            verdicts::is_dhcpv4_response(params, packet),
            Verdict::Accept,
        ),
        group_decides(
            rules::dhcp_server_rules(params, counters),
            ChainName::Input,
            packet,
            verdicts::is_dhcpv4_request(params, packet),
            Verdict::Accept,
        ),
{
    let udp = TransportProtocol::Udp;
    let endpoint = rules::dhcpv4_request_endpoint(params);
    lemma_port_check(udp, End::Src, params.dhcpv4_client_port, packet);
    lemma_port_check(udp, End::Src, params.dhcpv4_server_port, packet);
    lemma_port_check(udp, End::Dst, params.dhcpv4_client_port, packet);
    lemma_endpoint_check(End::Dst, endpoint, packet);
    lemma_rule2(
        ChainName::Output,
        port_check(udp, End::Src, params.dhcpv4_server_port),
        port_check(udp, End::Dst, params.dhcpv4_client_port),
        packet,
        packet.has_port(udp, End::Src, params.dhcpv4_server_port),
        packet.has_port(udp, End::Dst, params.dhcpv4_client_port),
        Verdict::Accept,
        counters,
    );
    lemma_rule2(
        ChainName::Input,
        port_check(udp, End::Src, params.dhcpv4_client_port),
        endpoint_check(End::Dst, endpoint),
        packet,
        packet.has_port(udp, End::Src, params.dhcpv4_client_port),
        packet.has_addr(End::Dst, endpoint.address.ip) && packet.has_port(
            endpoint.protocol,
            End::Dst,
            endpoint.address.port,
        ),
        Verdict::Accept,
        counters,
    );
    lemma_pair(
        rules::dhcp_server_rules(params, counters),
        packet,
        verdicts::is_dhcpv4_response(params, packet),
        verdicts::is_dhcpv4_request(params, packet),
        Verdict::Accept,
    );
}

/// What the rules for the local network decide.
pub proof fn lemma_lan_rules_if(
    allow_lan: bool,
    params: ParametersView,
    counters: bool,
    packet: Packet,
)
    ensures
        group_decides(
            rules::lan_rules_if(allow_lan, params, counters),
            ChainName::Output,
            packet,
            allow_lan && verdicts::lan_out(params, packet),
            Verdict::Accept,
        ),
        group_decides(
            rules::lan_rules_if(allow_lan, params, counters),
            ChainName::Input,
            packet,
            allow_lan && verdicts::lan_in(params, packet),
            Verdict::Accept,
        ),
{
    if allow_lan {
        let lan = rules::lan_nets_rules(params.allowed_lan_nets, counters);
        let multicast = rules::multicast_rules(params.allowed_lan_multicast_nets, counters);
        let dhcp = rules::dhcp_server_rules(params, counters);
        lemma_lan_nets_rules(params.allowed_lan_nets, counters, packet);
        lemma_multicast_rules(params.allowed_lan_multicast_nets, counters, packet);
        lemma_dhcp_server_rules(params, counters, packet);
        lemma_first_verdict_append(lan, multicast, ChainName::Output, packet);
        lemma_first_verdict_append(lan, multicast, ChainName::Input, packet);
        lemma_first_verdict_append(lan + multicast, dhcp, ChainName::Output, packet);
        lemma_first_verdict_append(lan + multicast, dhcp, ChainName::Input, packet);
    }
}

/// What the rules of a tunnel decide.
proof fn lemma_tunnel_rules(
    tunnel: TunnelView,
    indices: Seq<u32>,
    counters: bool,
    packet: Packet,
)
    ensures
        first_verdict(
            rules::tunnel_rules(tunnel, indices, counters),
            ChainName::Output,
            packet,
        ) == if verdicts::queries_gateways(tunnel, indices, packet) {
            Some(Verdict::Accept)
        } else if verdicts::is_dns(packet) {
            Some(Verdict::Drop)
        } else if packet.oif == indices[2 * rules::gateway_count(tunnel)] {
            Some(Verdict::Accept)
        } else {
            None
        },
        group_decides(
            rules::tunnel_rules(tunnel, indices, counters),
            ChainName::Input,
            packet,
            packet.iif == indices[2 * rules::gateway_count(tunnel) + 1],
            Verdict::Accept,
        ),
{
    let count = rules::gateway_count(tunnel);
    let udp = rules::dns_rules(indices, tunnel, TransportProtocol::Udp, counters);
    let tcp = rules::dns_rules(indices.skip(count), tunnel, TransportProtocol::Tcp, counters);
    let block = rules::drop_dns_rules(counters);
    let allow = rules::interface_rules(indices[2 * count], indices[2 * count + 1], counters);
    lemma_dns_rules(indices, tunnel, TransportProtocol::Udp, counters, packet);
    lemma_dns_rules(indices.skip(count), tunnel, TransportProtocol::Tcp, counters, packet);
    lemma_drop_dns_rules(counters, packet);
    lemma_interface_rules(indices[2 * count], indices[2 * count + 1], counters, packet);
    lemma_first_verdict_append(udp, tcp, ChainName::Output, packet);
    lemma_first_verdict_append(udp, tcp, ChainName::Input, packet);
    lemma_first_verdict_append(udp + tcp, block, ChainName::Output, packet);
    lemma_first_verdict_append(udp + tcp, block, ChainName::Input, packet);
    lemma_first_verdict_append(udp + tcp + block, allow, ChainName::Output, packet);
    lemma_first_verdict_append(udp + tcp + block, allow, ChainName::Input, packet);
}

/// What the rules decide that only this policy has.
pub proof fn lemma_specific_rules(
    policy: PolicyView,
    indices: Seq<u32>,
    counters: bool,
    packet: Packet,
)
    ensures
        first_verdict(
            rules::specific_rules(policy, indices, counters),
            ChainName::Output,
            packet,
        ) == if verdicts::out_before_dns(policy, indices, packet) {
            Some(Verdict::Accept)
        } else if verdicts::is_dns(packet) {
            Some(Verdict::Drop)
        } else if verdicts::out_through_tunnel(policy, indices, packet) {
            Some(Verdict::Accept)
        } else {
            None
        },
        first_verdict(
            rules::specific_rules(policy, indices, counters),
            ChainName::Input,
            packet,
        ) == if verdicts::in_from_peer(policy, indices, packet) {
            Some(Verdict::Accept)
        } else if policy.allow_lan() && verdicts::in_to_tunnel_ip(policy, packet) {
            Some(Verdict::Drop)
        } else {
            None
        },
{
    let out = ChainName::Output;
    let inn = ChainName::Input;
    match policy {
        PolicyView::Connecting { peer_endpoint, pingable_hosts, .. } => {
            let ping = rules::pingable_hosts_rules(pingable_hosts, counters);
            let relay = rules::endpoint_rules(peer_endpoint, counters);
            let block = rules::drop_dns_rules(counters);
            lemma_pingable_hosts_rules(pingable_hosts, counters, packet);
            lemma_endpoint_rules(peer_endpoint, counters, packet);
            lemma_drop_dns_rules(counters, packet);
            lemma_first_verdict_append(ping, relay, out, packet);
            lemma_first_verdict_append(ping, relay, inn, packet);
            lemma_first_verdict_append(ping + relay, block, out, packet);
            lemma_first_verdict_append(ping + relay, block, inn, packet);
        },
        PolicyView::Connected { peer_endpoint, tunnel, allow_lan } => {
            let relay = rules::endpoint_rules(peer_endpoint, counters);
            let inside = rules::tunnel_rules(tunnel, indices, counters);
            let block = if allow_lan {
                rules::block_tunnel_ips_rules(tunnel.ips, counters)
            } else {
                Seq::empty()
            };
            lemma_endpoint_rules(peer_endpoint, counters, packet);
            lemma_tunnel_rules(tunnel, indices, counters, packet);
            lemma_block_tunnel_ips_rules(tunnel.ips, counters, packet);
            lemma_first_verdict_append(relay, inside, out, packet);
            lemma_first_verdict_append(relay, inside, inn, packet);
            lemma_first_verdict_append(relay + inside, block, out, packet);
            lemma_first_verdict_append(relay + inside, block, inn, packet);
        },
        PolicyView::Blocked { .. } => {
            lemma_drop_dns_rules(counters, packet);
        },
    }
}

} // verus!
