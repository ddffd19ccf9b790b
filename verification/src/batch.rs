//! Turns a policy into the batch of messages that puts it into effect.

use vstd::prelude::*;

use crate::checks::{add_verdict, allow_interface_rule, check_endpoint, check_established};
use crate::checks::{check_icmpv6, check_iface, check_ip, check_l4number, check_net, check_port};
use crate::checks::{Direction, End};
use crate::error::Error;
use crate::net::{Endpoint, IpAddr, IpNetwork, Ipv4Addr, SocketAddr};
use crate::net::{TransportProtocol, TunnelMetadata, TunnelView, IPV4_BROADCAST_BITS};
use crate::nft::{Batch, BatchView, Chain, ChainName, Hook, MessageView, MsgType, Object};
use crate::nft::{ObjectView, Rule, RuleView, Table, TableView, Verdict};
use crate::policy::{FirewallPolicy, IfaceLookups, NetworkParameters, ParametersView, PolicyView};
use crate::policy::{iface_names, law_lookup_names, tunnel_lookups, LOOPBACK_IFACE_NAME};
use crate::proto::{control_proto, DNS_PORT, REDIRECT, ROUTER_ADVERTISEMENT, ROUTER_SOLICITATION};
use crate::rules;

verus! {

/// A batch that is being filled with the rules of a policy.
pub struct PolicyBatch {
    batch: Batch,
    in_chain: Chain,
    out_chain: Chain,
    params: NetworkParameters,
    counters: bool,
    lookups: IfaceLookups,
}

/// The model of a [`PolicyBatch`].
pub struct PolicyBatchView {
    /// The messages so far.
    pub batch: BatchView,
    pub params: ParametersView,
    /// Whether rules count packets.
    pub counters: bool,
    /// The interface indices that no rule has taken yet.
    pub indices: Seq<u32>,
    /// Why there are no more indices.
    pub failure: Option<std::io::Error>,
}

/// The chain that sees what goes out. It drops what no rule accepts.
pub open spec fn output_chain() -> Chain {
    Chain { name: ChainName::Output, hook: Hook::Out, priority: 0, policy: Verdict::Drop }
}

/// The chain that sees what comes in. It drops what no rule accepts.
pub open spec fn input_chain() -> Chain {
    Chain { name: ChainName::Input, hook: Hook::In, priority: 0, policy: Verdict::Drop }
}

/// The batch that makes sure that the table exists, holds the two chains, and nothing else.
pub open spec fn bootstrap(table: TableView) -> BatchView {
    BatchView {
        table,
        messages: seq![
            MessageView { object: ObjectView::Table, msg_type: MsgType::Add },
            MessageView { object: ObjectView::Table, msg_type: MsgType::Del },
            MessageView { object: ObjectView::Table, msg_type: MsgType::Add },
            MessageView { object: ObjectView::Chain(output_chain()), msg_type: MsgType::Add },
            MessageView { object: ObjectView::Chain(input_chain()), msg_type: MsgType::Add },
        ],
    }
}

/// The batch that puts a policy into effect. `indices` are those of the interfaces that
/// [`iface_names`] lists.
pub open spec fn policy_batch(
    table: TableView,
    policy: PolicyView,
    params: ParametersView,
    indices: Seq<u32>,
    counters: bool,
) -> BatchView {
    bootstrap(table).add_rules(rules::policy_rules(policy, params, indices, counters))
}

/// Adding rules twice is adding them at once.
pub proof fn lemma_add_rules(batch: BatchView, first: Seq<RuleView>, second: Seq<RuleView>)
    ensures
        batch.add_rules(first).add_rules(second) == batch.add_rules(first + second),
{
    assert(batch.add_rules(first).add_rules(second).messages =~= batch.add_rules(
        first + second,
    ).messages);
}

/// Adding no rules changes nothing.
pub proof fn lemma_add_no_rules(batch: BatchView)
    ensures
        batch.add_rules(Seq::empty()) == batch,
{
    assert(batch.add_rules(Seq::empty()).messages =~= batch.messages);
}

impl PolicyBatchView {
    /// This state with the rules added to the batch.
    pub open spec fn add_rules(self, rules: Seq<RuleView>) -> PolicyBatchView {
        PolicyBatchView { batch: self.batch.add_rules(rules), ..self }
    }

    /// What adding `rules` to the state `self` comes to, where each rule takes an index of the
    /// interface `iface`: `after`, and `result`. Once the indices run out no more rules are
    /// added, and the result says why they did.
    pub open spec fn extended(
        self,
        rules: Seq<RuleView>,
        iface: Seq<char>,
        after: PolicyBatchView,
        result: Result<(), Error>,
    ) -> bool {
        let taken = rules.len() as int;
        let have = self.indices.len() as int;
        if taken <= have {
            result is Ok && after == (PolicyBatchView {
                indices: self.indices.skip(taken),
                ..self.add_rules(rules)
            })
        } else {
            failed_for(iface, self.failure, result) && after == (PolicyBatchView {
                indices: Seq::empty(),
                failure: None,
                ..self.add_rules(rules.take(have))
            })
        }
    }
}

/// The result says that the name of the interface could not be translated, and why.
pub open spec fn failed_for<T>(
    iface: Seq<char>,
    failure: Option<std::io::Error>,
    result: Result<T, Error>,
) -> bool {
    result matches Err(Error::LookupIfaceIndexError(name, source)) && name@ == iface
        && failure == Some(source)
}

/// How many rules of a policy check an interface, beside those for the loopback interface.
pub open spec fn lookups_left(policy: PolicyView) -> int {
    match policy {
        PolicyView::Connected { tunnel, .. } => tunnel_lookups(tunnel) as int,
        _ => 0,
    }
}

/// How many of the rules of a tunnel are added if there are only so many indices of the tunnel
/// interface, and too few.
pub open spec fn tunnel_rules_before_failure(tunnel: TunnelView, have: nat) -> int {
    if have < 2 * rules::gateway_count(tunnel) {
        have as int
    } else {
        (have + 2) as int
    }
}

impl PolicyBatch {
    /// The model of this value.
    pub closed spec fn view(self) -> PolicyBatchView {
        PolicyBatchView {
            batch: self.batch@,
            params: self.params@,
            counters: self.counters,
            indices: self.lookups.indices@,
            failure: self.lookups.failure,
        }
    }

    /// The chains are the two that the batch creates, and the networks are valid.
    pub closed spec fn wf(self) -> bool {
        &&& self.out_chain == output_chain()
        &&& self.in_chain == input_chain()
        &&& self.params@.wf()
    }

    /// Bootstrap a new batch and add the initial messages creating the table and chains.
    pub fn new(
        table: &Table,
        params: NetworkParameters,
        counters: bool,
        lookups: IfaceLookups,
    ) -> (this: PolicyBatch)
        requires
            params@.wf(),
        ensures
            this.wf(),
            this@ == (PolicyBatchView {
                batch: bootstrap(table@),
                params: params@,
                counters,
                indices: lookups.indices@,
                failure: lookups.failure,
            }),
    {
        let mut batch = Batch::new(Table { name: table.name.clone(), family: table.family });
        let out_chain = Chain {
            name: ChainName::Output,
            hook: Hook::Out,
            priority: 0,
            policy: Verdict::Drop,
        };
        let in_chain = Chain {
            name: ChainName::Input,
            hook: Hook::In,
            priority: 0,
            policy: Verdict::Drop,
        };

        // A little dance that will make sure the table exists, but is cleared.
        batch.add(Object::Table, MsgType::Add);
        batch.add(Object::Table, MsgType::Del);
        batch.add(Object::Table, MsgType::Add);
        batch.add(Object::Chain(out_chain), MsgType::Add);
        batch.add(Object::Chain(in_chain), MsgType::Add);

        assert(batch@.messages =~= bootstrap(table@).messages);
        PolicyBatch { batch, in_chain, out_chain, params, counters, lookups }
    }

    /// Adds a rule to the batch.
    fn add_rule(&mut self, rule: Rule)
        ensures
            old(self).wf() ==> final(self).wf(),
            final(self)@ == old(self)@.add_rules(seq![rule@]),
    {
        self.batch.add_rule(rule);
    }

    /// Takes the outcome of the next translation of an interface name.
    fn next_lookup(&mut self) -> (lookup: Result<u32, std::io::Error>)
        requires
            old(self)@.indices.len() > 0 || old(self)@.failure is Some,
        ensures
            old(self).wf() ==> final(self).wf(),
            if old(self)@.indices.len() > 0 {
                lookup == Ok::<u32, std::io::Error>(old(self)@.indices[0]) && final(self)@ == (
                PolicyBatchView { indices: old(self)@.indices.skip(1), ..old(self)@ })
            } else {
                (lookup matches Err(cause) && old(self)@.failure == Some(cause)) && final(self)@
                    == (PolicyBatchView { failure: None, ..old(self)@ })
            },
    {
        if self.lookups.indices.len() > 0 {
            let index = self.lookups.indices.remove(0);
            assert(self.lookups.indices@ =~= old(self)@.indices.skip(1));
            Ok(index)
        } else {
            Err(self.lookups.failure.take().unwrap())
        }
    }

    /// Adds a rule that accepts what goes out on an interface, and one that accepts what comes
    /// in on it.
    fn add_interface_rules(&mut self, iface: &str) -> (added: Result<(), Error>)
        requires
            old(self).wf(),
            old(self)@.indices.len() >= 2 || old(self)@.failure is Some,
        ensures
            final(self).wf(),
            old(self)@.extended(
                rules::interface_rules(
                    old(self)@.indices[0],
                    old(self)@.indices[1],
                    old(self)@.counters,
                ),
                iface@,
                final(self)@,
                added,
            ),
    {
        let ghost rules = rules::interface_rules(
            self@.indices[0],
            self@.indices[1],
            self@.counters,
        );
        proof {
            lemma_add_rules(self@.batch, rules.take(1), rules.skip(1));
            lemma_add_no_rules(self@.batch);
            assert(rules.take(0) =~= Seq::empty());
            assert(rules.take(1) + rules.skip(1) =~= rules);
            assert(rules.take(1) =~= seq![rules[0]]);
            assert(rules.skip(1) =~= seq![rules[1]]);
        }
        let lookup = self.next_lookup();
        let rule = allow_interface_rule(
            &self.out_chain,
            Direction::Out,
            iface,
            lookup,
            self.counters,
        );
        match rule {
            Ok(rule) => self.add_rule(rule),
            Err(error) => {
                assert(self@.indices =~= Seq::empty());
                return Err(error);
            },
        }
        let lookup = self.next_lookup();
        let rule = allow_interface_rule(
            &self.in_chain,
            Direction::In,
            iface,
            lookup,
            self.counters,
        );
        match rule {
            Ok(rule) => self.add_rule(rule),
            Err(error) => {
                assert(self@.indices =~= Seq::empty());
                return Err(error);
            },
        }
        assert(self@.indices =~= old(self)@.indices.skip(2));
        Ok(())
    }

    /// Lets everything through on the loopback interface.
    pub fn add_loopback_rules(&mut self) -> (added: Result<(), Error>)
        requires
            old(self).wf(),
            old(self)@.indices.len() >= 2 || old(self)@.failure is Some,
        ensures
            final(self).wf(),
            old(self)@.extended(
                rules::interface_rules(
                    old(self)@.indices[0],
                    old(self)@.indices[1],
                    old(self)@.counters,
                ),
                LOOPBACK_IFACE_NAME@,
                final(self)@,
                added,
            ),
    {
        self.add_interface_rules(LOOPBACK_IFACE_NAME)
    }

    /// Lets everything through on the tunnel interface.
    pub fn add_allow_tunnel_rules(&mut self, tunnel: &TunnelMetadata) -> (added: Result<(), Error>)
        requires
            old(self).wf(),
            old(self)@.indices.len() >= 2 || old(self)@.failure is Some,
        ensures
            final(self).wf(),
            old(self)@.extended(
                rules::interface_rules(
                    old(self)@.indices[0],
                    old(self)@.indices[1],
                    old(self)@.counters,
                ),
                tunnel@.interface,
                final(self)@,
                added,
            ),
    {
        self.add_interface_rules(tunnel.interface.as_str())
    }

    /// Lets DHCPv4 requests out and responses in.
    fn add_dhcpv4_client_rules(&mut self)
        requires
            old(self).wf(),
        ensures
            final(self).wf(),
            final(self)@ == old(self)@.add_rules(
                rules::dhcpv4_client_rules(old(self)@.params, old(self)@.counters),
            ),
    {
        let udp = TransportProtocol::Udp;
        let broadcast = IpAddr::V4(Ipv4Addr { bits: IPV4_BROADCAST_BITS });
        // Outgoing DHCPv4 request
        let mut out_v4 = Rule::new(&self.out_chain);
        check_port(&mut out_v4, udp, End::Src, self.params.dhcpv4_client_port);
        check_ip(&mut out_v4, End::Dst, broadcast);
        check_port(&mut out_v4, udp, End::Dst, self.params.dhcpv4_server_port);
        add_verdict(&mut out_v4, Verdict::Accept, self.counters);
        let ghost first = out_v4@;
        self.add_rule(out_v4);
        // Incoming DHCPv4 response
        let mut in_v4 = Rule::new(&self.in_chain);
        check_port(&mut in_v4, udp, End::Src, self.params.dhcpv4_server_port);
        check_port(&mut in_v4, udp, End::Dst, self.params.dhcpv4_client_port);
        add_verdict(&mut in_v4, Verdict::Accept, self.counters);
        let ghost second = in_v4@;
        self.add_rule(in_v4);
        proof {
            lemma_add_rules(old(self)@.batch, seq![first], seq![second]);
            assert(seq![first] + seq![second] =~= rules::dhcpv4_client_rules(
                self@.params,
                self@.counters,
            ));
        }
    }

    /// Lets DHCPv6 requests out and responses in.
    fn add_dhcpv6_client_rules(&mut self)
        requires
            old(self).wf(),
        ensures
            final(self).wf(),
            final(self)@ == old(self)@.add_rules(
                rules::dhcpv6_request_rules(
                    old(self)@.params,
                    old(self)@.params.dhcpv6_server_addrs,
                    old(self)@.counters,
                ) + seq![rules::dhcpv6_response_rule(old(self)@.params, old(self)@.counters)],
            ),
    {
        let udp = TransportProtocol::Udp;
        let link_local = IpNetwork::V6(self.params.ipv6_link_local);
        let ghost servers = self@.params.dhcpv6_server_addrs;
        let ghost requests = rules::dhcpv6_request_rules(self@.params, servers, self@.counters);
        let mut i: usize = 0;
        proof {
            lemma_add_no_rules(self@.batch);
            assert(requests.take(0) =~= Seq::empty());
        }
        while i < self.params.dhcpv6_server_addrs.len()
            invariant
                old(self).wf(),
                self.wf(),
                i <= servers.len(),
                servers == old(self)@.params.dhcpv6_server_addrs,
                requests == rules::dhcpv6_request_rules(
                    old(self)@.params,
                    servers,
                    old(self)@.counters,
                ),
                udp == TransportProtocol::Udp,
                link_local == IpNetwork::V6(old(self)@.params.ipv6_link_local),
                self@ == old(self)@.add_rules(requests.take(i as int)),
            decreases servers.len() - i,
        {
            let mut out_v6 = Rule::new(&self.out_chain);
            check_net(&mut out_v6, End::Src, link_local);
            check_port(&mut out_v6, udp, End::Src, self.params.dhcpv6_client_port);
            check_ip(&mut out_v6, End::Dst, IpAddr::V6(self.params.dhcpv6_server_addrs[i]));
            check_port(&mut out_v6, udp, End::Dst, self.params.dhcpv6_server_port);
            add_verdict(&mut out_v6, Verdict::Accept, self.counters);
            proof {
                assert(out_v6@ == requests[i as int]);
                lemma_add_rules(old(self)@.batch, requests.take(i as int), seq![out_v6@]);
                assert(requests.take(i as int) + seq![out_v6@] =~= requests.take(i + 1));
            }
            self.add_rule(out_v6);
            i = i + 1;
        }
        let mut in_v6 = Rule::new(&self.in_chain);
        check_net(&mut in_v6, End::Src, link_local);
        check_port(&mut in_v6, udp, End::Src, self.params.dhcpv6_server_port);
        check_net(&mut in_v6, End::Dst, link_local);
        check_port(&mut in_v6, udp, End::Dst, self.params.dhcpv6_client_port);
        add_verdict(&mut in_v6, Verdict::Accept, self.counters);
        proof {
            assert(requests.take(i as int) =~= requests);
            lemma_add_rules(old(self)@.batch, requests, seq![in_v6@]);
        }
        self.add_rule(in_v6);
    }

    /// Lets the parts of the Neighbor Discovery Protocol through that find routers.
    fn add_ndp_rules(&mut self)
        requires
            old(self).wf(),
        ensures
            final(self).wf(),
            final(self)@ == old(self)@.add_rules(
                rules::ndp_rules(old(self)@.params, old(self)@.counters),
            ),
    {
        let link_local = IpNetwork::V6(self.params.ipv6_link_local);
        // Outgoing Router solicitation (part of NDP)
        let mut solicitation = Rule::new(&self.out_chain);
        check_ip(
            &mut solicitation,
            End::Dst,
            IpAddr::V6(self.params.router_solicitation_out_dst_addr),
        );
        check_icmpv6(&mut solicitation, ROUTER_SOLICITATION);
        add_verdict(&mut solicitation, Verdict::Accept, self.counters);
        let ghost first = solicitation@;
        self.add_rule(solicitation);
        // Incoming Router advertisement (part of NDP)
        let mut advertisement = Rule::new(&self.in_chain);
        check_net(&mut advertisement, End::Src, link_local);
        check_icmpv6(&mut advertisement, ROUTER_ADVERTISEMENT);
        add_verdict(&mut advertisement, Verdict::Accept, self.counters);
        let ghost second = advertisement@;
        self.add_rule(advertisement);
        // Incoming Redirect (part of NDP)
        let mut redirect = Rule::new(&self.in_chain);
        check_net(&mut redirect, End::Src, link_local);
        check_icmpv6(&mut redirect, REDIRECT);
        add_verdict(&mut redirect, Verdict::Accept, self.counters);
        let ghost third = redirect@;
        self.add_rule(redirect);
        proof {
            lemma_add_rules(old(self)@.batch, seq![first], seq![second]);
            lemma_add_rules(old(self)@.batch, seq![first] + seq![second], seq![third]);
            assert(seq![first] + seq![second] + seq![third] =~= rules::ndp_rules(
                self@.params,
                self@.counters,
            ));
        }
    }

    /// Lets this host configure its own addresses.
    pub fn add_dhcp_client_rules(&mut self)
        requires
            old(self).wf(),
        ensures
            final(self).wf(),
            final(self)@ == old(self)@.add_rules(
                rules::dhcp_client_rules(old(self)@.params, old(self)@.counters),
            ),
    {
        let ghost v4 = rules::dhcpv4_client_rules(self@.params, self@.counters);
        let ghost v6 = rules::dhcpv6_request_rules(
            self@.params,
            self@.params.dhcpv6_server_addrs,
            self@.counters,
        ) + seq![rules::dhcpv6_response_rule(self@.params, self@.counters)];
        let ghost ndp = rules::ndp_rules(self@.params, self@.counters);
        self.add_dhcpv4_client_rules();
        self.add_dhcpv6_client_rules();
        self.add_ndp_rules();
        proof {
            lemma_add_rules(old(self)@.batch, v4, v6);
            lemma_add_rules(old(self)@.batch, v4 + v6, ndp);
            assert(v4 + v6 + ndp =~= rules::dhcp_client_rules(self@.params, self@.counters));
        }
    }

    /// Lets through what goes to the endpoint, and what comes back from it.
    pub fn add_allow_endpoint_rules(&mut self, endpoint: &Endpoint)
        requires
            old(self).wf(),
        ensures
            final(self).wf(),
            final(self)@ == old(self)@.add_rules(
                rules::endpoint_rules(*endpoint, old(self)@.counters),
            ),
    {
        let mut in_rule = Rule::new(&self.in_chain);
        check_endpoint(&mut in_rule, End::Src, endpoint);
        check_established(&mut in_rule);
        add_verdict(&mut in_rule, Verdict::Accept, self.counters);
        let ghost first = in_rule@;
        self.add_rule(in_rule);

        let mut out_rule = Rule::new(&self.out_chain);
        check_endpoint(&mut out_rule, End::Dst, endpoint);
        add_verdict(&mut out_rule, Verdict::Accept, self.counters);
        let ghost second = out_rule@;
        self.add_rule(out_rule);
        proof {
            lemma_add_rules(old(self)@.batch, seq![first], seq![second]);
            assert(seq![first] + seq![second] =~= rules::endpoint_rules(
                *endpoint,
                self@.counters,
            ));
        }
    }

    /// Lets control messages through to and from the host.
    fn add_ping_rules(&mut self, host: IpAddr)
        requires
            old(self).wf(),
        ensures
            final(self).wf(),
            final(self)@ == old(self)@.add_rules(rules::ping_rules(host, old(self)@.counters)),
    {
        let number = control_proto(host);

        let mut out_rule = Rule::new(&self.out_chain);
        check_ip(&mut out_rule, End::Dst, host);
        check_l4number(&mut out_rule, number);
        add_verdict(&mut out_rule, Verdict::Accept, self.counters);
        let ghost first = out_rule@;
        self.add_rule(out_rule);

        let mut in_rule = Rule::new(&self.in_chain);
        check_ip(&mut in_rule, End::Src, host);
        check_l4number(&mut in_rule, number);
        add_verdict(&mut in_rule, Verdict::Accept, self.counters);
        let ghost second = in_rule@;
        self.add_rule(in_rule);
        proof {
            lemma_add_rules(old(self)@.batch, seq![first], seq![second]);
            assert(seq![first] + seq![second] =~= rules::ping_rules(host, self@.counters));
        }
    }

    /// Lets control messages through to and from the hosts.
    pub fn add_allow_icmp_pingable_hosts(&mut self, pingable_hosts: &Vec<IpAddr>)
        requires
            old(self).wf(),
        ensures
            final(self).wf(),
            final(self)@ == old(self)@.add_rules(
                rules::pingable_hosts_rules(pingable_hosts@, old(self)@.counters),
            ),
    {
        let ghost hosts = pingable_hosts@;
        let ghost mut done: int = 0;
        let mut i: usize = 0;
        proof {
            lemma_add_no_rules(self@.batch);
        }
        while i < pingable_hosts.len()
            invariant
                self.wf(),
                hosts == pingable_hosts@,
                i <= hosts.len(),
                done == i,
                self@ == old(self)@.add_rules(
                    rules::pingable_hosts_rules(hosts.take(done), old(self)@.counters),
                ),
            decreases hosts.len() - i,
        {
            self.add_ping_rules(pingable_hosts[i]);
            proof {
                lemma_add_rules(
                    old(self)@.batch,
                    rules::pingable_hosts_rules(hosts.take(done), self@.counters),
                    rules::ping_rules(hosts[done], self@.counters),
                );
                assert(hosts.take(done + 1).drop_last() =~= hosts.take(done));
                done = done + 1;
            }
            i = i + 1;
        }
        assert(hosts.take(done) =~= hosts);
    }

    /// Lets DNS queries out to the host on the interface.
    pub fn add_allow_dns_rule(
        &mut self,
        interface: &str,
        protocol: TransportProtocol,
        host: IpAddr,
    ) -> (added: Result<(), Error>)
        requires
            old(self).wf(),
            old(self)@.indices.len() >= 1 || old(self)@.failure is Some,
        ensures
            final(self).wf(),
            old(self)@.extended(
                seq![
                    rules::dns_rule(old(self)@.indices[0], protocol, host, old(self)@.counters),
                ],
                interface@,
                final(self)@,
                added,
            ),
    {
        let ghost rules = seq![
            rules::dns_rule(self@.indices[0], protocol, host, self@.counters),
        ];
        let lookup = self.next_lookup();
        let mut allow_rule = Rule::new(&self.out_chain);
        match check_iface(&mut allow_rule, Direction::Out, interface, lookup) {
            Ok(_) => {},
            Err(error) => {
                proof {
                    lemma_add_no_rules(old(self)@.batch);
                    assert(rules.take(0) =~= Seq::empty());
                    assert(self@.indices =~= Seq::empty());
                }
                return Err(error);
            },
        }
        check_port(&mut allow_rule, protocol, End::Dst, DNS_PORT);
        check_ip(&mut allow_rule, End::Dst, host);
        add_verdict(&mut allow_rule, Verdict::Accept, self.counters);
        self.add_rule(allow_rule);
        Ok(())
    }

    /// Blocks all outgoing DNS on both TCP and UDP.
    pub fn add_drop_dns_rule(&mut self)
        requires
            old(self).wf(),
        ensures
            final(self).wf(),
            final(self)@ == old(self)@.add_rules(rules::drop_dns_rules(old(self)@.counters)),
    {
        let mut block_udp_rule = Rule::new(&self.out_chain);
        check_port(&mut block_udp_rule, TransportProtocol::Udp, End::Dst, DNS_PORT);
        add_verdict(&mut block_udp_rule, Verdict::Drop, self.counters);
        let ghost first = block_udp_rule@;
        self.add_rule(block_udp_rule);

        let mut block_tcp_rule = Rule::new(&self.out_chain);
        check_port(&mut block_tcp_rule, TransportProtocol::Tcp, End::Dst, DNS_PORT);
        add_verdict(&mut block_tcp_rule, Verdict::Drop, self.counters);
        let ghost second = block_tcp_rule@;
        self.add_rule(block_tcp_rule);
        proof {
            lemma_add_rules(old(self)@.batch, seq![first], seq![second]);
            assert(seq![first] + seq![second] =~= rules::drop_dns_rules(self@.counters));
        }
    }

    /// Adds rules for stopping [CVE-2019-14899](https://seclists.org/oss-sec/2019/q4/122).
    /// An attacker on the same local network as the VPN connected device could figure out
    /// the tunnel IP the device used if the device was set to not filter reverse path
    /// (rp_filter.) These rules stop all packets coming in to the tunnel IP. As such, these
    /// rules must come after the rule allowing the tunnel, otherwise even the tunnel can't talk
    /// to that IP.
    pub fn add_block_cve_2019_14899(&mut self, tunnel: &TunnelMetadata)
        requires
            old(self).wf(),
        ensures
            final(self).wf(),
            final(self)@ == old(self)@.add_rules(
                rules::block_tunnel_ips_rules(tunnel@.ips, old(self)@.counters),
            ),
    {
        let ghost rules = rules::block_tunnel_ips_rules(tunnel@.ips, self@.counters);
        let mut i: usize = 0;
        proof {
            lemma_add_no_rules(self@.batch);
            assert(rules.take(0) =~= Seq::empty());
        }
        while i < tunnel.ips.len()
            invariant
                self.wf(),
                i <= tunnel.ips.len(),
                rules == rules::block_tunnel_ips_rules(tunnel@.ips, old(self)@.counters),
                self@ == old(self)@.add_rules(rules.take(i as int)),
            decreases tunnel.ips.len() - i,
        {
            let mut rule = Rule::new(&self.in_chain);
            check_ip(&mut rule, End::Dst, tunnel.ips[i]);
            add_verdict(&mut rule, Verdict::Drop, self.counters);
            proof {
                assert(rule@ == rules[i as int]);
                lemma_add_rules(old(self)@.batch, rules.take(i as int), seq![rule@]);
                assert(rules.take(i as int) + seq![rule@] =~= rules.take(i + 1));
            }
            self.add_rule(rule);
            i = i + 1;
        }
        assert(rules.take(i as int) =~= rules);
    }

    /// Lets DNS queries out to the gateways of the tunnel.
    pub fn add_allow_dns_rules(
        &mut self,
        tunnel: &TunnelMetadata,
        protocol: TransportProtocol,
    ) -> (added: Result<(), Error>)
        requires
            old(self).wf(),
            old(self)@.indices.len() >= rules::gateway_count(tunnel@) || old(self)@.failure is Some,
        ensures
            final(self).wf(),
            old(self)@.extended(
                rules::dns_rules(old(self)@.indices, tunnel@, protocol, old(self)@.counters),
                tunnel@.interface,
                final(self)@,
                added,
            ),
    {
        let ghost rules = rules::dns_rules(self@.indices, tunnel@, protocol, self@.counters);
        proof {
            assert(rules.take(0) =~= seq![rules[0]].take(0));
            assert(rules.take(1) =~= seq![rules[0]]);
        }
        match self.add_allow_dns_rule(
            tunnel.interface.as_str(),
            protocol,
            IpAddr::V4(tunnel.ipv4_gateway),
        ) {
            Ok(_) => {},
            Err(error) => {
                return Err(error);
            },
        }
        if let Some(ipv6_gateway) = tunnel.ipv6_gateway {
            let ghost between = self@;
            let added = self.add_allow_dns_rule(
                tunnel.interface.as_str(),
                protocol,
                IpAddr::V6(ipv6_gateway),
            );
            proof {
                lemma_add_rules(old(self)@.batch, seq![rules[0]], seq![rules[1]]);
                assert(seq![rules[0]] + seq![rules[1]] =~= rules);
                lemma_add_no_rules(between.batch);
                assert(seq![rules[1]].take(0) =~= Seq::empty());
                if old(self)@.indices.len() >= 2 {
                    assert(between.indices[0] == old(self)@.indices[1]);
                    assert(self@.indices =~= old(self)@.indices.skip(2));
                }
            }
            return added;
        }
        Ok(())
    }

    /// Lets this host serve DHCPv4.
    pub fn add_dhcp_server_rules(&mut self)
        requires
            old(self).wf(),
        ensures
            final(self).wf(),
            final(self)@ == old(self)@.add_rules(
                rules::dhcp_server_rules(old(self)@.params, old(self)@.counters),
            ),
    {
        let udp = TransportProtocol::Udp;
        // Outgoing DHCPv4 response
        let mut out_v4 = Rule::new(&self.out_chain);
        check_port(&mut out_v4, udp, End::Src, self.params.dhcpv4_server_port);
        check_port(&mut out_v4, udp, End::Dst, self.params.dhcpv4_client_port);
        add_verdict(&mut out_v4, Verdict::Accept, self.counters);
        let ghost first = out_v4@;
        self.add_rule(out_v4);
        // Incoming DHCPv4 request
        let mut in_v4 = Rule::new(&self.in_chain);
        check_port(&mut in_v4, udp, End::Src, self.params.dhcpv4_client_port);
        let endpoint = Endpoint {
            address: SocketAddr {
                ip: IpAddr::V4(Ipv4Addr { bits: IPV4_BROADCAST_BITS }),
                port: self.params.dhcpv4_server_port,
            },
            protocol: udp,
        };
        check_endpoint(&mut in_v4, End::Dst, &endpoint);
        add_verdict(&mut in_v4, Verdict::Accept, self.counters);
        let ghost second = in_v4@;
        self.add_rule(in_v4);
        proof {
            lemma_add_rules(old(self)@.batch, seq![first], seq![second]);
            assert(seq![first] + seq![second] =~= rules::dhcp_server_rules(
                self@.params,
                self@.counters,
            ));
        }
    }

    /// Lets through traffic with the networks that count as local.
    fn add_lan_nets_rules(&mut self)
        requires
            old(self).wf(),
        ensures
            final(self).wf(),
            final(self)@ == old(self)@.add_rules(
                rules::lan_nets_rules(old(self)@.params.allowed_lan_nets, old(self)@.counters),
            ),
    {
        let ghost nets = self@.params.allowed_lan_nets;
        let mut i: usize = 0;
        proof {
            lemma_add_no_rules(self@.batch);
        }
        while i < self.params.allowed_lan_nets.len()
            invariant
                self.wf(),
                nets == old(self)@.params.allowed_lan_nets,
                i <= nets.len(),
                self@ == old(self)@.add_rules(
                    rules::lan_nets_rules(nets.take(i as int), old(self)@.counters),
                ),
            decreases nets.len() - i,
        {
            let net = self.params.allowed_lan_nets[i];
            assert(net == nets[i as int]);
            let ghost before = self@;

            let mut out_rule = Rule::new(&self.out_chain);
            check_net(&mut out_rule, End::Dst, net);
            add_verdict(&mut out_rule, Verdict::Accept, self.counters);
            let ghost first = out_rule@;
            self.add_rule(out_rule);

            let mut in_rule = Rule::new(&self.in_chain);
            check_net(&mut in_rule, End::Src, net);
            add_verdict(&mut in_rule, Verdict::Accept, self.counters);
            let ghost second = in_rule@;
            self.add_rule(in_rule);
            proof {
                lemma_add_rules(before.batch, seq![first], seq![second]);
                assert(seq![first] + seq![second] =~= rules::lan_net_rules(net, self@.counters));
                lemma_add_rules(
                    old(self)@.batch,
                    rules::lan_nets_rules(nets.take(i as int), self@.counters),
                    rules::lan_net_rules(net, self@.counters),
                );
                assert(nets.take(i + 1).drop_last() =~= nets.take(i as int));
            }
            i = i + 1;
        }
        assert(nets.take(i as int) =~= nets);
    }

    /// Lets traffic out to the multicast networks.
    fn add_multicast_rules(&mut self)
        requires
            old(self).wf(),
        ensures
            final(self).wf(),
            final(self)@ == old(self)@.add_rules(
                rules::multicast_rules(
                    old(self)@.params.allowed_lan_multicast_nets,
                    old(self)@.counters,
                ),
            ),
    {
        let ghost nets = self@.params.allowed_lan_multicast_nets;
        let ghost rules = rules::multicast_rules(nets, self@.counters);
        let mut i: usize = 0;
        proof {
            lemma_add_no_rules(self@.batch);
            assert(rules.take(0) =~= Seq::empty());
        }
        while i < self.params.allowed_lan_multicast_nets.len()
            invariant
                self.wf(),
                nets == old(self)@.params.allowed_lan_multicast_nets,
                rules == rules::multicast_rules(nets, old(self)@.counters),
                i <= nets.len(),
                self@ == old(self)@.add_rules(rules.take(i as int)),
            decreases nets.len() - i,
        {
            let net = self.params.allowed_lan_multicast_nets[i];
            assert(net == nets[i as int]);
            let mut rule = Rule::new(&self.out_chain);
            check_net(&mut rule, End::Dst, net);
            add_verdict(&mut rule, Verdict::Accept, self.counters);
            proof {
                assert(rule@ == rules[i as int]);
                lemma_add_rules(old(self)@.batch, rules.take(i as int), seq![rule@]);
                assert(rules.take(i as int) + seq![rule@] =~= rules.take(i + 1));
            }
            self.add_rule(rule);
            i = i + 1;
        }
        assert(rules.take(i as int) =~= rules);
    }

    /// Lets through traffic with the local network.
    pub fn add_allow_lan_rules(&mut self)
        requires
            old(self).wf(),
        ensures
            final(self).wf(),
            final(self)@ == old(self)@.add_rules(
                rules::lan_rules(old(self)@.params, old(self)@.counters),
            ),
    {
        // LAN -> LAN
        self.add_lan_nets_rules();
        // LAN -> Multicast
        self.add_multicast_rules();
        self.add_dhcp_server_rules();
        proof {
            let lan = rules::lan_nets_rules(self@.params.allowed_lan_nets, self@.counters);
            let multicast = rules::multicast_rules(
                self@.params.allowed_lan_multicast_nets,
                self@.counters,
            );
            let dhcp = rules::dhcp_server_rules(self@.params, self@.counters);
            lemma_add_rules(old(self)@.batch, lan, multicast);
            lemma_add_rules(old(self)@.batch, lan + multicast, dhcp);
        }
    }

    /// Adds the rules that a tunnel takes.
    fn add_tunnel_rules(&mut self, tunnel: &TunnelMetadata) -> (added: Result<(), Error>)
        requires
            old(self).wf(),
            old(self)@.indices.len() >= tunnel_lookups(tunnel@) || old(self)@.failure is Some,
        ensures
            final(self).wf(),
            old(self)@.indices.len() >= tunnel_lookups(tunnel@) ==> added is Ok && final(self)@ == (
            PolicyBatchView {
                indices: old(self)@.indices.skip(tunnel_lookups(tunnel@) as int),
                ..old(self)@.add_rules(
                    rules::tunnel_rules(tunnel@, old(self)@.indices, old(self)@.counters),
                )
            }),
            old(self)@.indices.len() < tunnel_lookups(tunnel@) ==> failed_for(
                tunnel@.interface,
                old(self)@.failure,
                added,
            ) && final(self)@ == (PolicyBatchView {
                indices: Seq::empty(),
                failure: None,
                ..old(self)@.add_rules(
                    rules::tunnel_rules(tunnel@, old(self)@.indices, old(self)@.counters).take(
                        tunnel_rules_before_failure(tunnel@, old(self)@.indices.len()),
                    ),
                )
            }),
    {
        let ghost indices = self@.indices;
        let ghost count = rules::gateway_count(tunnel@);
        let ghost all = rules::tunnel_rules(tunnel@, indices, self@.counters);
        let ghost udp = rules::dns_rules(indices, tunnel@, TransportProtocol::Udp, self@.counters);
        let ghost tcp = rules::dns_rules(
            indices.skip(count),
            tunnel@,
            TransportProtocol::Tcp,
            self@.counters,
        );
        let ghost block = rules::drop_dns_rules(self@.counters);
        match self.add_allow_dns_rules(tunnel, TransportProtocol::Udp) {
            Ok(_) => {},
            Err(error) => {
                assert(udp.take(indices.len() as int) =~= all.take(indices.len() as int));
                return Err(error);
            },
        }
        match self.add_allow_dns_rules(tunnel, TransportProtocol::Tcp) {
            Ok(_) => {},
            Err(error) => {
                proof {
                    let some = tcp.take(indices.len() - count);
                    lemma_add_rules(old(self)@.batch, udp, some);
                    assert(udp + some =~= all.take(indices.len() as int));
                }
                return Err(error);
            },
        }
        // Important to block DNS *before* we allow the tunnel and allow LAN. So DNS
        // can't leak to the wrong IPs in the tunnel or on the LAN.
        self.add_drop_dns_rule();
        proof {
            lemma_add_rules(old(self)@.batch, udp, tcp);
            lemma_add_rules(old(self)@.batch, udp + tcp, block);
            assert(self@.indices =~= indices.skip(2 * count));
        }
        let added = self.add_allow_tunnel_rules(tunnel);
        proof {
            let allow = rules::interface_rules(
                indices.skip(2 * count)[0],
                indices.skip(2 * count)[1],
                self@.counters,
            );
            if indices.len() >= 2 * count + 2 {
                lemma_add_rules(old(self)@.batch, udp + tcp + block, allow);
                assert(self@.indices =~= indices.skip(2 * count + 2));
            } else {
                let some = allow.take(indices.len() - 2 * count);
                lemma_add_rules(old(self)@.batch, udp + tcp + block, some);
                assert(udp + tcp + block + some =~= all.take(indices.len() as int + 2));
            }
        }
        added
    }

    /// Adds the rules that only this policy has.
    pub fn add_policy_specific_rules(&mut self, policy: &FirewallPolicy) -> (added: Result<
        (),
        Error,
    >)
        requires
            old(self).wf(),
            old(self)@.indices.len() >= lookups_left(policy@) || old(self)@.failure is Some,
        ensures
            final(self).wf(),
            old(self)@.indices.len() >= lookups_left(policy@) ==> added is Ok && final(self)@ == (
            PolicyBatchView {
                indices: old(self)@.indices.skip(lookups_left(policy@)),
                ..old(self)@.add_rules(
                    rules::specific_rules(policy@, old(self)@.indices, old(self)@.counters)
                        + rules::lan_rules_if(
                        policy@.allow_lan(),
                        old(self)@.params,
                        old(self)@.counters,
                    ),
                )
            }),
            old(self)@.indices.len() < lookups_left(policy@) ==> (policy@ matches
                PolicyView::Connected { tunnel, .. } && failed_for(
                tunnel.interface,
                old(self)@.failure,
                added,
            ) && final(self)@ == (PolicyBatchView {
                indices: Seq::empty(),
                failure: None,
                ..old(self)@.add_rules(
                    rules::specific_rules(policy@, old(self)@.indices, old(self)@.counters).take(
                        2 + tunnel_rules_before_failure(tunnel, old(self)@.indices.len()),
                    ),
                )
            })),
    {
        let ghost specific = rules::specific_rules(policy@, self@.indices, self@.counters);
        let allow_lan = match policy {
            FirewallPolicy::Connecting { peer_endpoint, pingable_hosts, allow_lan } => {
                self.add_allow_icmp_pingable_hosts(pingable_hosts);
                self.add_allow_endpoint_rules(peer_endpoint);
                // Important to block DNS after allow relay rule (so the relay can operate
                // over port 53) but before allow LAN (so DNS does not leak to the LAN)
                self.add_drop_dns_rule();
                proof {
                    let ping = rules::pingable_hosts_rules(pingable_hosts@, self@.counters);
                    let relay = rules::endpoint_rules(*peer_endpoint, self@.counters);
                    let block = rules::drop_dns_rules(self@.counters);
                    lemma_add_rules(old(self)@.batch, ping, relay);
                    lemma_add_rules(old(self)@.batch, ping + relay, block);
                }
                *allow_lan
            },
            FirewallPolicy::Connected { peer_endpoint, tunnel, allow_lan } => {
                self.add_allow_endpoint_rules(peer_endpoint);
                let ghost relay = rules::endpoint_rules(*peer_endpoint, self@.counters);
                let ghost inside = rules::tunnel_rules(tunnel@, self@.indices, self@.counters);
                match self.add_tunnel_rules(tunnel) {
                    Ok(_) => {},
                    Err(error) => {
                        proof {
                            let count = tunnel_rules_before_failure(
                                tunnel@,
                                old(self)@.indices.len(),
                            );
                            lemma_add_rules(old(self)@.batch, relay, inside.take(count));
                            assert(relay + inside.take(count) =~= specific.take(2 + count));
                        }
                        return Err(error);
                    },
                }
                if *allow_lan {
                    self.add_block_cve_2019_14899(tunnel);
                }
                proof {
                    let block = rules::block_tunnel_ips_rules(tunnel@.ips, self@.counters);
                    lemma_add_rules(old(self)@.batch, relay, inside);
                    lemma_add_rules(old(self)@.batch, relay + inside, block);
                    assert(relay + inside + Seq::empty() =~= relay + inside);
                }
                *allow_lan
            },
            FirewallPolicy::Blocked { allow_lan } => {
                // Important to drop DNS before allowing LAN (to stop DNS leaking to the LAN)
                self.add_drop_dns_rule();
                *allow_lan
            },
        };
        proof {
            assert(self@ == (PolicyBatchView {
                indices: old(self)@.indices.skip(lookups_left(policy@)),
                ..old(self)@.add_rules(specific)
            })) by {
                assert(old(self)@.indices.skip(0) =~= old(self)@.indices);
            }
            lemma_add_rules(
                old(self)@.batch,
                specific,
                rules::lan_rules_if(allow_lan, self@.params, self@.counters),
            );
            lemma_add_no_rules(self@.batch);
        }

        if allow_lan {
            self.add_allow_lan_rules();
        }
        Ok(())
    }

    /// Finalize the batch by adding every firewall rule needed to satisfy the given policy.
    ///
    /// The interface names of [`iface_names`] have to be translated beforehand. If that failed,
    /// so does this.
    pub fn finalize(self, policy: &FirewallPolicy) -> (batch: Result<Batch, Error>)
        requires
            self.wf(),
            self@.indices.len() >= iface_names(policy@).len() || self@.failure is Some,
        ensures
            self@.indices.len() >= iface_names(policy@).len() ==> (batch matches Ok(batch)
                && batch@ == self@.batch.add_rules(
                rules::policy_rules(policy@, self@.params, self@.indices, self@.counters),
            )),
            self@.indices.len() < iface_names(policy@).len() ==> failed_for(
                iface_names(policy@)[self@.indices.len() as int],
                self@.failure,
                batch,
            ),
            batch is Ok <==> self@.indices.len() >= match policy {
                FirewallPolicy::Connected { tunnel, .. } => if tunnel.ipv6_gateway is Some {
                    8int
                } else {
                    6
                },
                _ => 2,
            },
            batch is Err ==> (batch matches Err(Error::LookupIfaceIndexError(name, source))
                && self@.failure == Some(source) && if self@.indices.len() < 2 {
                name@ == "lo"@
            } else {
                policy matches FirewallPolicy::Connected { tunnel, .. } && name@
                    == tunnel.interface@
            }),
    {
        let mut this = self;
        proof {
            law_lookup_names(policy@);
        }
        let ghost counters = self@.counters;
        let ghost loopback = rules::interface_rules(self@.indices[0], self@.indices[1], counters);
        let ghost dhcp = rules::dhcp_client_rules(self@.params, counters);
        let ghost specific = rules::specific_rules(policy@, self@.indices.skip(2), counters);
        let ghost lan = rules::lan_rules_if(policy@.allow_lan(), self@.params, counters);
        match this.add_loopback_rules() {
            Ok(_) => {},
            Err(error) => {
                return Err(error);
            },
        }
        this.add_dhcp_client_rules();
        match this.add_policy_specific_rules(policy) {
            Ok(_) => {},
            Err(error) => {
                return Err(error);
            },
        }
        proof {
            lemma_add_rules(self@.batch, loopback, dhcp);
            lemma_add_rules(self@.batch, loopback + dhcp, specific + lan);
            assert(loopback + dhcp + (specific + lan) =~= rules::policy_rules(
                policy@,
                self@.params,
                self@.indices,
                counters,
            ));
        }
        Ok(this.batch)
    }
}

} // verus!
