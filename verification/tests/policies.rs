use talpid_firewall::batch::PolicyBatch;
use talpid_firewall::error::Error;
use talpid_firewall::net::{Endpoint, IpAddr, IpNetwork, Ipv4Addr, Ipv4Network, Ipv6Addr};
use talpid_firewall::net::{Ipv6Network, SocketAddr, TransportProtocol, TunnelMetadata};
use talpid_firewall::nft::{Batch, ChainName, CompareOp, Expr, Hook, Meta, MsgType, Object};
use talpid_firewall::nft::{Operand, Payload, ProtoFamily, Rule, Table, Verdict};
use talpid_firewall::policy::{add_counters, iface_lookups, FirewallPolicy, IfaceLookups};
use talpid_firewall::policy::NetworkParameters;

const LOOPBACK: u32 = 1;
const TUNNEL: u32 = 9;
const ETHERNET: u32 = 2;

const LINK_LOCAL: u128 = 0xfe80 << 112;
const ALL_ROUTERS: u128 = (0xff02 << 112) | 2;
const DHCPV6_SERVER: u128 = (0xff02 << 112) | 0x1_0002;

fn v4(octets: [u8; 4]) -> Ipv4Addr {
    Ipv4Addr { bits: u32::from_be_bytes(octets) }
}

fn v6(bits: u128) -> Ipv6Addr {
    Ipv6Addr { bits }
}

fn net4(octets: [u8; 4], prefix: u8) -> IpNetwork {
    IpNetwork::V4(Ipv4Network { addr: v4(octets), prefix })
}

/// The two bytes of a port, as they stand in a packet.
fn port_operand(port: u16) -> Operand {
    let [high, low] = port.to_be_bytes();
    Operand::U16 { high, low }
}

fn params() -> NetworkParameters {
    let link_local = Ipv6Network { addr: v6(LINK_LOCAL), prefix: 10 };
    NetworkParameters {
        dhcpv4_server_port: 67,
        dhcpv4_client_port: 68,
        dhcpv6_server_port: 547,
        dhcpv6_client_port: 546,
        dhcpv6_server_addrs: vec![v6(DHCPV6_SERVER)],
        ipv6_link_local: link_local,
        router_solicitation_out_dst_addr: v6(ALL_ROUTERS),
        allowed_lan_nets: vec![net4([192, 168, 0, 0], 16), IpNetwork::V6(link_local)],
        allowed_lan_multicast_nets: vec![net4([239, 0, 0, 0], 8)],
    }
}

fn peer(port: u16) -> Endpoint {
    Endpoint {
        address: SocketAddr { ip: IpAddr::V4(v4([185, 65, 134, 1])), port },
        protocol: TransportProtocol::Udp,
    }
}

fn tunnel(ipv6_gateway: Option<Ipv6Addr>) -> TunnelMetadata {
    TunnelMetadata {
        interface: "wg0".to_string(),
        ips: vec![IpAddr::V4(v4([10, 8, 0, 2])), IpAddr::V6(v6(0xfd00 << 112))],
        ipv4_gateway: v4([10, 8, 0, 1]),
        ipv6_gateway,
    }
}

fn connecting(allow_lan: bool) -> FirewallPolicy {
    FirewallPolicy::Connecting {
        peer_endpoint: peer(53),
        pingable_hosts: vec![IpAddr::V4(v4([10, 8, 0, 1])), IpAddr::V6(v6(0xfd01 << 112))],
        allow_lan,
    }
}

fn connected(allow_lan: bool, ipv6_gateway: Option<Ipv6Addr>) -> FirewallPolicy {
    FirewallPolicy::Connected {
        peer_endpoint: peer(1194),
        tunnel: tunnel(ipv6_gateway),
        allow_lan,
    }
}

fn blocked(allow_lan: bool) -> FirewallPolicy {
    FirewallPolicy::Blocked { allow_lan }
}

fn table() -> Table {
    Table { name: "mullvad".to_string(), family: ProtoFamily::Inet }
}

fn index_of(name: &str) -> u32 {
    match name {
        "lo" => LOOPBACK,
        "wg0" => TUNNEL,
        other => panic!("unexpected interface {}", other),
    }
}

fn lookups(policy: &FirewallPolicy) -> IfaceLookups {
    let indices = iface_lookups(policy).iter().map(|name| index_of(name)).collect();
    IfaceLookups { indices, failure: None }
}

fn batch(policy: &FirewallPolicy, counters: bool) -> Batch {
    PolicyBatch::new(&table(), params(), counters, lookups(policy)).finalize(policy).unwrap()
}

fn rules(batch: &Batch) -> Vec<Rule> {
    batch.messages[5..]
        .iter()
        .map(|message| match &message.object {
            Object::Rule(rule) => {
                assert_eq!(message.msg_type, MsgType::Add);
                rule.clone()
            }
            other => panic!("not a rule: {:?}", other),
        })
        .collect()
}

/// What rules read of a packet.
#[derive(Clone, Copy)]
struct Packet {
    iface: u32,
    src: IpAddr,
    dst: IpAddr,
    l4proto: u8,
    sport: u16,
    dport: u16,
    ct_state: u32,
}

fn udp(src: IpAddr, sport: u16, dst: IpAddr, dport: u16) -> Packet {
    Packet { iface: ETHERNET, src, dst, l4proto: 17, sport, dport, ct_state: 8 }
}

fn tcp(src: IpAddr, sport: u16, dst: IpAddr, dport: u16) -> Packet {
    Packet { l4proto: 6, ..udp(src, sport, dst, dport) }
}

/// An ICMP message whose type and code are the two bytes of `head`.
fn icmp(src: IpAddr, dst: IpAddr, head: u16) -> Packet {
    let l4proto = match dst {
        IpAddr::V4(_) => 1,
        IpAddr::V6(_) => 58,
    };
    Packet { l4proto, ..udp(src, head, dst, 0) }
}

impl Packet {
    fn on(self, iface: u32) -> Packet {
        Packet { iface, ..self }
    }

    fn load(&self, expr: &Expr) -> Operand {
        let v4 = |addr: IpAddr| match addr {
            IpAddr::V4(addr) => Operand::V4(addr),
            IpAddr::V6(_) => panic!("no IPv4 header"),
        };
        let v6 = |addr: IpAddr| match addr {
            IpAddr::V6(addr) => Operand::V6(addr),
            IpAddr::V4(_) => panic!("no IPv6 header"),
        };
        match expr {
            Expr::Meta(Meta::NfProto) => match self.src {
                IpAddr::V4(_) => Operand::U8(2),
                IpAddr::V6(_) => Operand::U8(10),
            },
            Expr::Meta(Meta::L4Proto) => Operand::U8(self.l4proto),
            Expr::Meta(_) => Operand::U32(self.iface),
            Expr::CtState => Operand::U32(self.ct_state),
            Expr::Payload(field) => match field {
                Payload::Ipv4Saddr => v4(self.src),
                Payload::Ipv4Daddr => v4(self.dst),
                Payload::Ipv6Saddr => v6(self.src),
                Payload::Ipv6Daddr => v6(self.dst),
                Payload::UdpSport | Payload::TcpSport => port_operand(self.sport),
                Payload::UdpDport | Payload::TcpDport => port_operand(self.dport),
                Payload::Icmpv6Type => Operand::U8((self.sport >> 8) as u8),
                Payload::Icmpv6Code => Operand::U8((self.sport & 0xff) as u8),
            },
            other => panic!("loads nothing: {:?}", other),
        }
    }

    /// What the rule decides, if the packet matches it.
    fn verdict(&self, rule: &Rule) -> Option<Verdict> {
        let mut register = Operand::U8(0);
        for expr in &rule.exprs {
            match expr {
                Expr::Bitwise { mask, xor } => {
                    register = match (register, mask, xor) {
                        (Operand::U32(value), Operand::U32(mask), Operand::U32(xor)) => {
                            Operand::U32((value & mask) ^ xor)
                        }
                        (Operand::V4(value), Operand::V4(mask), Operand::V4(xor)) => {
                            Operand::V4(Ipv4Addr { bits: (value.bits & mask.bits) ^ xor.bits })
                        }
                        (Operand::V6(value), Operand::V6(mask), Operand::V6(xor)) => {
                            Operand::V6(Ipv6Addr { bits: (value.bits & mask.bits) ^ xor.bits })
                        }
                        other => panic!("widths differ: {:?}", other),
                    }
                }
                Expr::Compare { op: CompareOp::Eq, data } => {
                    if register != *data {
                        return None;
                    }
                }
                Expr::Compare { op: CompareOp::Neq, data } => {
                    if register == *data {
                        return None;
                    }
                }
                Expr::Counter => {}
                Expr::Verdict(verdict) => return Some(*verdict),
                load => register = self.load(load),
            }
        }
        None
    }

    /// What the chain decides, given that it drops what no rule decides on.
    fn passes(&self, policy: &FirewallPolicy, chain: ChainName) -> bool {
        let verdicts: Vec<bool> = [false, true]
            .iter()
            .map(|counters| {
                rules(&batch(policy, *counters))
                    .iter()
                    .filter(|rule| rule.chain == chain)
                    .find_map(|rule| self.verdict(rule))
                    == Some(Verdict::Accept)
            })
            .collect();
        // Counters change nothing.
        assert_eq!(verdicts[0], verdicts[1]);
        verdicts[0]
    }

    fn gets_out(&self, policy: &FirewallPolicy) -> bool {
        self.passes(policy, ChainName::Output)
    }

    fn gets_in(&self, policy: &FirewallPolicy) -> bool {
        self.passes(policy, ChainName::Input)
    }
}

fn host() -> IpAddr {
    IpAddr::V4(v4([192, 168, 1, 5]))
}

fn lan_host() -> IpAddr {
    IpAddr::V4(v4([192, 168, 1, 7]))
}

fn internet_host() -> IpAddr {
    IpAddr::V4(v4([8, 8, 8, 8]))
}

fn relay() -> IpAddr {
    peer(0).address.ip
}

fn gateway() -> IpAddr {
    IpAddr::V4(v4([10, 8, 0, 1]))
}

fn gateway6() -> Ipv6Addr {
    v6((0xfd00 << 112) | 1)
}

fn broadcast() -> IpAddr {
    IpAddr::V4(v4([255, 255, 255, 255]))
}

fn all_policies() -> Vec<FirewallPolicy> {
    let mut policies = vec![];
    for allow_lan in [false, true] {
        policies.push(connecting(allow_lan));
        policies.push(connected(allow_lan, None));
        policies.push(connected(allow_lan, Some(gateway6())));
        policies.push(blocked(allow_lan));
    }
    policies
}

#[test]
fn interface_names_are_listed_per_rule() {
    assert_eq!(iface_lookups(&blocked(true)), vec!["lo", "lo"]);
    assert_eq!(iface_lookups(&connecting(false)), vec!["lo", "lo"]);
    assert_eq!(
        iface_lookups(&connected(false, None)),
        vec!["lo", "lo", "wg0", "wg0", "wg0", "wg0"]
    );
    assert_eq!(
        iface_lookups(&connected(false, Some(gateway6()))),
        vec!["lo", "lo", "wg0", "wg0", "wg0", "wg0", "wg0", "wg0"]
    );
}

#[test]
fn counters_are_switched_on_by_one() {
    assert!(add_counters(Some("1".to_string())));
    assert!(!add_counters(Some("0".to_string())));
    assert!(!add_counters(Some("11".to_string())));
    assert!(!add_counters(Some("".to_string())));
    assert!(!add_counters(None));
}

#[test]
fn batch_starts_with_an_empty_table() {
    for policy in all_policies() {
        let batch = batch(&policy, false);
        assert_eq!(batch.table.name, "mullvad");
        let types: Vec<MsgType> = batch.messages[..5].iter().map(|m| m.msg_type).collect();
        assert_eq!(
            types,
            vec![MsgType::Add, MsgType::Del, MsgType::Add, MsgType::Add, MsgType::Add]
        );
        for message in &batch.messages[..3] {
            assert!(matches!(message.object, Object::Table));
        }
        match (&batch.messages[3].object, &batch.messages[4].object) {
            (Object::Chain(out_chain), Object::Chain(in_chain)) => {
                assert_eq!(out_chain.name, ChainName::Output);
                assert_eq!(out_chain.hook, Hook::Out);
                assert_eq!(in_chain.name, ChainName::Input);
                assert_eq!(in_chain.hook, Hook::In);
                for chain in [out_chain, in_chain] {
                    assert_eq!(chain.priority, 0);
                    assert_eq!(chain.policy, Verdict::Drop);
                }
            }
            other => panic!("not chains: {:?}", other),
        }
    }
}

#[test]
fn number_of_rules() {
    // Loopback: 2, DHCPv4: 2, DHCPv6: 2, NDP: 3, LAN: 4 + 1 + 2.
    let always = 9;
    let lan = 7;
    assert_eq!(rules(&batch(&blocked(false), false)).len(), always + 2);
    assert_eq!(rules(&batch(&blocked(true), false)).len(), always + 2 + lan);
    assert_eq!(rules(&batch(&connecting(false), false)).len(), always + 4 + 2 + 2);
    assert_eq!(rules(&batch(&connecting(true), false)).len(), always + 4 + 2 + 2 + lan);
    assert_eq!(rules(&batch(&connected(false, None), false)).len(), always + 2 + 2 + 2 + 2);
    let v6 = connected(true, Some(gateway6()));
    assert_eq!(rules(&batch(&v6, false)).len(), always + 2 + 4 + 2 + 2 + 2 + lan);
}

#[test]
fn blocked_rules_in_full() {
    let eq = |data: Operand| Expr::Compare { op: CompareOp::Eq, data };
    let port = |field: Payload, port: u16| {
        vec![
            Expr::Meta(Meta::L4Proto),
            eq(Operand::U8(17)),
            Expr::Payload(field),
            eq(port_operand(port)),
        ]
    };
    let v6_addr = |field: Payload, addr: u128| {
        vec![
            Expr::Meta(Meta::NfProto),
            eq(Operand::U8(10)),
            Expr::Payload(field),
            eq(Operand::V6(v6(addr))),
        ]
    };
    let link_local = |field: Payload| {
        vec![
            Expr::Meta(Meta::NfProto),
            eq(Operand::U8(10)),
            Expr::Payload(field),
            Expr::Bitwise {
                mask: Operand::V6(v6(0xffc0 << 112)),
                xor: Operand::V6(v6(0)),
            },
            eq(Operand::V6(v6(LINK_LOCAL))),
        ]
    };
    let control = |message_type: u8| {
        vec![
            Expr::Meta(Meta::L4Proto),
            eq(Operand::U8(58)),
            Expr::Payload(Payload::Icmpv6Type),
            eq(Operand::U8(message_type)),
            Expr::Payload(Payload::Icmpv6Code),
            eq(Operand::U8(0)),
        ]
    };
    let iface = |meta: Meta| vec![Expr::Meta(meta), eq(Operand::U32(LOOPBACK))];
    let broadcast = vec![
        Expr::Meta(Meta::NfProto),
        eq(Operand::U8(2)),
        Expr::Payload(Payload::Ipv4Daddr),
        eq(Operand::V4(v4([255, 255, 255, 255]))),
    ];
    let dns = |number: u8, field: Payload| {
        vec![
            Expr::Meta(Meta::L4Proto),
            eq(Operand::U8(number)),
            Expr::Payload(field),
            eq(Operand::U16 { high: 0, low: 53 }),
        ]
    };
    let out = ChainName::Output;
    let inn = ChainName::Input;
    let (accept, drop) = (Verdict::Accept, Verdict::Drop);
    let expected: Vec<(ChainName, Vec<Expr>, Verdict)> = vec![
        (out, iface(Meta::Oif), accept),
        (inn, iface(Meta::Iif), accept),
        (
            out,
            [port(Payload::UdpSport, 68), broadcast, port(Payload::UdpDport, 67)].concat(),
            accept,
        ),
        (inn, [port(Payload::UdpSport, 67), port(Payload::UdpDport, 68)].concat(), accept),
        (
            out,
            [
                link_local(Payload::Ipv6Saddr),
                port(Payload::UdpSport, 546),
                v6_addr(Payload::Ipv6Daddr, DHCPV6_SERVER),
                port(Payload::UdpDport, 547),
            ]
            .concat(),
            accept,
        ),
        (
            inn,
            [
                link_local(Payload::Ipv6Saddr),
                port(Payload::UdpSport, 547),
                link_local(Payload::Ipv6Daddr),
                port(Payload::UdpDport, 546),
            ]
            .concat(),
            accept,
        ),
        (out, [v6_addr(Payload::Ipv6Daddr, ALL_ROUTERS), control(133)].concat(), accept),
        (inn, [link_local(Payload::Ipv6Saddr), control(134)].concat(), accept),
        (inn, [link_local(Payload::Ipv6Saddr), control(137)].concat(), accept),
        (out, dns(17, Payload::UdpDport), drop),
        (out, dns(6, Payload::TcpDport), drop),
    ];
    for counters in [false, true] {
        let rules = rules(&batch(&blocked(false), counters));
        assert_eq!(rules.len(), expected.len());
        for (rule, (chain, checks, verdict)) in rules.iter().zip(&expected) {
            let mut exprs = checks.clone();
            if counters {
                exprs.push(Expr::Counter);
            }
            exprs.push(Expr::Verdict(*verdict));
            assert_eq!(rule.chain, *chain);
            assert_eq!(rule.exprs, exprs);
        }
    }
}

#[test]
fn lookup_failures_name_the_interface() {
    let policy = connected(true, Some(gateway6()));
    let names = iface_lookups(&policy);
    for i in 0..names.len() {
        let lookups = IfaceLookups {
            indices: names[..i].iter().map(|name| index_of(name)).collect(),
            failure: Some(std::io::Error::from_raw_os_error(19)),
        };
        match PolicyBatch::new(&table(), params(), false, lookups).finalize(&policy) {
            Err(Error::LookupIfaceIndexError(name, cause)) => {
                assert_eq!(name, names[i]);
                assert_eq!(cause.raw_os_error(), Some(19));
            }
            other => panic!("unexpected: {:?}", other),
        }
    }
}

#[test]
fn each_rule_takes_its_own_index() {
    let policy = connected(true, Some(gateway6()));
    let lookups = IfaceLookups { indices: vec![11, 12, 13, 14, 15, 16, 17, 18], failure: None };
    let batch = PolicyBatch::new(&table(), params(), false, lookups).finalize(&policy).unwrap();
    let found: Vec<u32> = rules(&batch)
        .iter()
        .filter_map(|rule| match (rule.exprs[0], rule.exprs[1]) {
            (
                Expr::Meta(Meta::Iif) | Expr::Meta(Meta::Oif),
                Expr::Compare { op: CompareOp::Eq, data: Operand::U32(index) },
            ) => Some(index),
            _ => None,
        })
        .collect();
    assert_eq!(found, vec![11, 12, 13, 14, 15, 16, 17, 18]);
}

#[test]
fn rules_end_in_their_only_verdict() {
    for policy in all_policies() {
        for rule in rules(&batch(&policy, true)) {
            let is_verdict = |expr: &Expr| matches!(expr, Expr::Verdict(_));
            let last = rule.exprs.len() - 1;
            assert!(is_verdict(&rule.exprs[last]));
            assert!(!rule.exprs[..last].iter().any(is_verdict));
        }
    }
}

#[test]
fn loopback_is_open() {
    for policy in all_policies() {
        assert!(udp(host(), 4000, internet_host(), 53).on(LOOPBACK).gets_out(&policy));
        assert!(tcp(internet_host(), 80, host(), 4000).on(LOOPBACK).gets_in(&policy));
    }
}

#[test]
fn dhcp_and_ndp_are_open() {
    let own6 = IpAddr::V6(v6(LINK_LOCAL | 5));
    let router6 = IpAddr::V6(v6(LINK_LOCAL | 1));
    let global6 = IpAddr::V6(v6(0x2001 << 112));
    for policy in all_policies() {
        assert!(udp(host(), 68, broadcast(), 67).gets_out(&policy));
        assert!(!udp(host(), 68, internet_host(), 67).gets_out(&policy));
        assert!(udp(internet_host(), 67, host(), 68).gets_in(&policy));
        let server = IpAddr::V6(v6(DHCPV6_SERVER));
        assert!(udp(own6, 546, server, 547).gets_out(&policy));
        assert!(!udp(global6, 546, IpAddr::V6(v6(0x2002 << 112)), 547).gets_out(&policy));
        assert!(udp(router6, 547, own6, 546).gets_in(&policy));
        assert!(icmp(own6, IpAddr::V6(v6(ALL_ROUTERS)), 133 << 8).gets_out(&policy));
        assert!(icmp(router6, own6, 134 << 8).gets_in(&policy));
        assert!(icmp(router6, own6, 137 << 8).gets_in(&policy));
        assert!(!icmp(global6, own6, 134 << 8).gets_in(&policy));
    }
    // Another code is another message.
    assert!(!icmp(router6, own6, (134 << 8) | 1).gets_in(&blocked(false)));
}

#[test]
fn peer_is_reachable_even_on_the_port_of_dns() {
    let policy = connecting(false);
    assert!(udp(host(), 4000, relay(), 53).gets_out(&policy));
    assert!(!tcp(host(), 4000, relay(), 53).gets_out(&policy));
    assert!(!udp(host(), 4000, relay(), 54).gets_out(&policy));
    let answer = udp(relay(), 53, host(), 4000);
    assert!(!answer.gets_in(&policy));
    assert!(Packet { ct_state: 2, ..answer }.gets_in(&policy));
    assert!(udp(host(), 4000, relay(), 1194).gets_out(&connected(false, None)));
    assert!(!udp(host(), 4000, relay(), 1194).gets_out(&blocked(false)));
}

#[test]
fn pingable_hosts_answer() {
    let policy = connecting(false);
    let host6 = IpAddr::V6(v6(LINK_LOCAL | 5));
    let pingable6 = IpAddr::V6(v6(0xfd01 << 112));
    assert!(icmp(host(), gateway(), 8 << 8).gets_out(&policy));
    assert!(icmp(gateway(), host(), 0).gets_in(&policy));
    assert!(icmp(host6, pingable6, 128 << 8).gets_out(&policy));
    assert!(icmp(pingable6, host6, 129 << 8).gets_in(&policy));
    assert!(!icmp(host(), internet_host(), 8 << 8).gets_out(&policy));
    assert!(!udp(host(), 4000, gateway(), 7).gets_out(&policy));
}

#[test]
fn dns_does_not_leak() {
    for policy in all_policies() {
        for query in [
            udp(host(), 4000, internet_host(), 53),
            tcp(host(), 4000, internet_host(), 53),
            udp(host(), 4000, lan_host(), 53),
            tcp(host(), 4000, lan_host(), 53),
        ] {
            assert!(!query.gets_out(&policy));
            assert!(!query.on(TUNNEL).gets_out(&policy));
        }
        assert!(!udp(host(), 4000, gateway(), 53).gets_out(&policy));
    }
}

#[test]
fn gateways_resolve_names() {
    let tunnel_ip = IpAddr::V4(v4([10, 8, 0, 2]));
    let tunnel_ip6 = IpAddr::V6(v6(0xfd00 << 112));
    let v6_gateway = IpAddr::V6(gateway6());
    for allow_lan in [false, true] {
        let both = connected(allow_lan, Some(gateway6()));
        let one = connected(allow_lan, None);
        for policy in [&both, &one] {
            assert!(udp(tunnel_ip, 4000, gateway(), 53).on(TUNNEL).gets_out(policy));
            assert!(tcp(tunnel_ip, 4000, gateway(), 53).on(TUNNEL).gets_out(policy));
        }
        assert!(udp(tunnel_ip6, 4000, v6_gateway, 53).on(TUNNEL).gets_out(&both));
        assert!(tcp(tunnel_ip6, 4000, v6_gateway, 53).on(TUNNEL).gets_out(&both));
        assert!(!udp(tunnel_ip6, 4000, v6_gateway, 53).on(TUNNEL).gets_out(&one));
    }
}

#[test]
fn tunnel_is_open() {
    let tunnel_ip = IpAddr::V4(v4([10, 8, 0, 2]));
    for allow_lan in [false, true] {
        let policy = connected(allow_lan, None);
        let request = tcp(tunnel_ip, 4000, internet_host(), 80);
        let answer = tcp(internet_host(), 80, tunnel_ip, 4000);
        assert!(request.on(TUNNEL).gets_out(&policy));
        assert!(answer.on(TUNNEL).gets_in(&policy));
        assert!(!request.gets_out(&policy));
        assert!(!answer.gets_in(&policy));
        assert!(!request.on(TUNNEL).gets_out(&connecting(allow_lan)));
    }
}

#[test]
fn tunnel_addresses_are_shielded() {
    let tunnel_ip = IpAddr::V4(v4([10, 8, 0, 2]));
    let policy = connected(true, None);
    assert!(tcp(lan_host(), 80, host(), 4000).gets_in(&policy));
    assert!(!tcp(lan_host(), 80, tunnel_ip, 4000).gets_in(&policy));
    assert!(tcp(lan_host(), 80, tunnel_ip, 4000).on(TUNNEL).gets_in(&policy));
    let lan6 = IpAddr::V6(v6(LINK_LOCAL | 9));
    assert!(!tcp(lan6, 80, IpAddr::V6(v6(0xfd00 << 112)), 4000).gets_in(&policy));
}

#[test]
fn blocked_is_closed() {
    let policy = blocked(false);
    for dst in [internet_host(), lan_host(), relay(), gateway()] {
        assert!(!tcp(host(), 4000, dst, 80).gets_out(&policy));
        assert!(!tcp(dst, 80, host(), 4000).gets_in(&policy));
        assert!(!icmp(host(), dst, 8 << 8).gets_out(&policy));
    }
}

#[test]
fn local_network_is_open_if_allowed() {
    let multicast = IpAddr::V4(v4([239, 1, 2, 3]));
    let pairs = [
        (connecting(false), connecting(true)),
        (connected(false, None), connected(true, None)),
        (blocked(false), blocked(true)),
    ];
    for (without, with) in pairs {
        let local = [
            tcp(host(), 4000, lan_host(), 80),
            udp(host(), 4000, multicast, 5353),
            udp(host(), 67, internet_host(), 68),
        ];
        for packet in local {
            assert!(!packet.gets_out(&without));
            assert!(packet.gets_out(&with));
        }
        let local = [tcp(lan_host(), 80, host(), 4000), udp(internet_host(), 68, broadcast(), 67)];
        for packet in local {
            assert!(!packet.gets_in(&without));
            assert!(packet.gets_in(&with));
        }
        assert!(!tcp(host(), 4000, internet_host(), 80).gets_out(&with));
        assert!(!udp(multicast, 5353, host(), 4000).gets_in(&with));
    }
}

#[test]
fn lookups_stop_at_the_first_failure() {
    let names = iface_lookups(&connected(false, None));
    for failing in [0, 1, 3, 6] {
        let mut lookups = IfaceLookups::new();
        let mut asked = vec![];
        while let Some(name) = lookups.next_name(&names) {
            let i = asked.len();
            asked.push(name.clone());
            let lookup = if i == failing {
                Err(std::io::Error::from_raw_os_error(19))
            } else {
                Ok(index_of(name))
            };
            assert_eq!(lookups.record(lookup), i != failing);
        }
        let done = failing.min(names.len());
        assert_eq!(asked, names[..names.len().min(failing + 1)].to_vec());
        assert_eq!(lookups.indices.len(), done);
        assert_eq!(lookups.failure.is_some(), failing < names.len());
    }
}

/// The rules as chains and expressions, which can be compared.
fn contents(policy: &FirewallPolicy) -> Vec<(ChainName, Vec<Expr>)> {
    rules(&batch(policy, false)).into_iter().map(|rule| (rule.chain, rule.exprs)).collect()
}

#[test]
fn local_network_only_appends_rules() {
    let pairs = [
        (connecting(false), connecting(true), 7),
        (connected(false, None), connected(true, None), 2 + 7),
        (blocked(false), blocked(true), 7),
    ];
    for (without, with, added) in pairs {
        let without = contents(&without);
        let with = contents(&with);
        assert_eq!(with.len(), without.len() + added);
        assert_eq!(with[..without.len()], without[..]);
    }
    let with = contents(&connected(true, None));
    for (chain, exprs) in &with[with.len() - 9..with.len() - 7] {
        assert_eq!(*chain, ChainName::Input);
        assert_eq!(exprs.last(), Some(&Expr::Verdict(Verdict::Drop)));
    }
}

#[test]
fn dhcp_server_mirrors_client() {
    let rules = contents(&blocked(true));
    let client = &rules[2..4];
    let server = &rules[rules.len() - 2..];
    assert_eq!(client[0].0, ChainName::Output);
    assert_eq!(client[1].0, ChainName::Input);
    assert_eq!(server[0], (ChainName::Output, client[1].1.clone()));
    assert_eq!(server[1], (ChainName::Input, client[0].1.clone()));
}

/// The messages of a batch to which rules for the hosts of each list were added in turn.
fn ping_messages(lists: &[Vec<IpAddr>]) -> Vec<(ChainName, Vec<Expr>)> {
    let mut state = PolicyBatch::new(&table(), params(), false, lookups(&blocked(false)));
    for hosts in lists {
        state.add_allow_icmp_pingable_hosts(hosts);
    }
    rules(&state.finalize(&blocked(false)).unwrap())
        .into_iter()
        .map(|rule| (rule.chain, rule.exprs))
        .collect()
}

#[test]
fn pingable_hosts_may_be_added_in_parts() {
    let a = vec![host(), lan_host()];
    let b = vec![gateway(), host()];
    let both = [a.clone(), b.clone()].concat();
    assert_eq!(ping_messages(&[a.clone(), b]), ping_messages(&[both]));
    assert_eq!(ping_messages(&[vec![]]), ping_messages(&[]));
    let twice = ping_messages(&[vec![host(), host()]]);
    assert_eq!(twice[0..2], twice[2..4]);
    assert_eq!(twice.len(), ping_messages(&[]).len() + 4);
}

#[test]
fn specific_rules_come_in_order() {
    let always = 9;
    let connecting_rules = contents(&connecting(false));
    assert_eq!(connecting_rules[always..always + 4], ping_messages(&[vec![
        IpAddr::V4(v4([10, 8, 0, 1])),
        IpAddr::V6(v6(0xfd01 << 112)),
    ]])[..4]);
    let mut relay_rules =
        PolicyBatch::new(&table(), params(), false, lookups(&blocked(false)));
    relay_rules.add_allow_endpoint_rules(&peer(53));
    relay_rules.add_drop_dns_rule();
    let relay_rules: Vec<(ChainName, Vec<Expr>)> =
        rules(&relay_rules.finalize(&blocked(false)).unwrap())
            .into_iter()
            .map(|rule| (rule.chain, rule.exprs))
            .collect();
    assert_eq!(connecting_rules[always + 4..], relay_rules[..4]);
}
