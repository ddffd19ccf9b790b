use talpid_firewall::checks::{add_verdict, allow_interface_rule, check_endpoint, check_established};
use talpid_firewall::checks::{check_icmpv6, check_iface, check_ip, check_l3proto, check_l4number};
use talpid_firewall::checks::{check_l4proto, check_net, check_port, port_bytes, Direction, End};
use talpid_firewall::error::Error;
use talpid_firewall::net::{Endpoint, IpAddr, IpNetwork, Ipv4Addr, Ipv4Network, Ipv6Addr};
use talpid_firewall::net::{Ipv6Network, SocketAddr, TransportProtocol};
use talpid_firewall::nft::{Chain, ChainName, CompareOp, Expr, Hook, Meta, Operand, Payload, Rule};
use talpid_firewall::nft::Verdict;
use talpid_firewall::proto::{control_proto, icmpv6_proto, l3proto, l4proto};

fn chain() -> Chain {
    Chain { name: ChainName::Output, hook: Hook::Out, priority: 0, policy: Verdict::Drop }
}

fn rule() -> Rule {
    Rule::new(&chain())
}

fn eq(data: Operand) -> Expr {
    Expr::Compare { op: CompareOp::Eq, data }
}

fn v4(octets: [u8; 4]) -> IpAddr {
    IpAddr::V4(Ipv4Addr { bits: u32::from_be_bytes(octets) })
}

fn v6(bits: u128) -> IpAddr {
    IpAddr::V6(Ipv6Addr { bits })
}

fn mask4(prefix: u8) -> u32 {
    Ipv4Network { addr: Ipv4Addr { bits: 0x0a01_0203 }, prefix }.mask().bits
}

fn mask6(prefix: u8) -> u128 {
    Ipv6Network { addr: Ipv6Addr { bits: 1 }, prefix }.mask().bits
}

#[test]
fn v4_masks() {
    assert_eq!(mask4(0), 0);
    assert_eq!(mask4(1), 0x8000_0000);
    assert_eq!(mask4(12), 0xfff0_0000);
    assert_eq!(mask4(24), 0xffff_ff00);
    assert_eq!(mask4(32), 0xffff_ffff);
}

#[test]
fn v6_masks() {
    assert_eq!(mask6(0), 0);
    assert_eq!(mask6(7), 0xfe << 120);
    assert_eq!(mask6(10), 0xffc0 << 112);
    assert_eq!(mask6(64), 0xffff_ffff_ffff_ffff << 64);
    assert_eq!(mask6(128), u128::MAX);
}

#[test]
fn network_address() {
    let net4 = Ipv4Network { addr: Ipv4Addr { bits: 5 }, prefix: 8 };
    assert_eq!(IpNetwork::V4(net4).ip(), IpAddr::V4(Ipv4Addr { bits: 5 }));
    let net6 = Ipv6Network { addr: Ipv6Addr { bits: 6 }, prefix: 8 };
    assert_eq!(IpNetwork::V6(net6).ip(), IpAddr::V6(Ipv6Addr { bits: 6 }));
}

#[test]
fn protocol_numbers() {
    assert_eq!(l3proto(v4([1, 2, 3, 4])), 2);
    assert_eq!(l3proto(v6(1)), 10);
    assert_eq!(l4proto(TransportProtocol::Udp), 17);
    assert_eq!(l4proto(TransportProtocol::Tcp), 6);
    assert_eq!(control_proto(v4([1, 2, 3, 4])), 1);
    assert_eq!(control_proto(v6(1)), 58);
    assert_eq!(icmpv6_proto(), 58);
}

#[test]
fn chain_names() {
    assert_eq!(ChainName::Input.as_str(), "input");
    assert_eq!(ChainName::Output.as_str(), "output");
}

#[test]
fn l3proto_is_compared() {
    let mut rule = rule();
    check_l3proto(&mut rule, v4([1, 2, 3, 4]));
    check_l3proto(&mut rule, v6(1));
    assert_eq!(
        rule.exprs,
        vec![
            Expr::Meta(Meta::NfProto),
            eq(Operand::U8(2)),
            Expr::Meta(Meta::NfProto),
            eq(Operand::U8(10)),
        ]
    );
}

#[test]
fn l4proto_is_compared() {
    let mut rule = rule();
    check_l4proto(&mut rule, TransportProtocol::Tcp);
    check_l4number(&mut rule, 1);
    assert_eq!(
        rule.exprs,
        vec![
            Expr::Meta(Meta::L4Proto),
            eq(Operand::U8(6)),
            Expr::Meta(Meta::L4Proto),
            eq(Operand::U8(1)),
        ]
    );
}

#[test]
fn ports_are_loaded_from_the_header_of_the_protocol() {
    let cases = [
        (TransportProtocol::Udp, End::Src, 17, Payload::UdpSport),
        (TransportProtocol::Udp, End::Dst, 17, Payload::UdpDport),
        (TransportProtocol::Tcp, End::Src, 6, Payload::TcpSport),
        (TransportProtocol::Tcp, End::Dst, 6, Payload::TcpDport),
    ];
    for (protocol, end, number, field) in cases {
        let mut rule = rule();
        check_port(&mut rule, protocol, end, 53);
        assert_eq!(
            rule.exprs,
            vec![
                Expr::Meta(Meta::L4Proto),
                eq(Operand::U8(number)),
                Expr::Payload(field),
                eq(Operand::U16 { high: 0, low: 53 }),
            ]
        );
    }
}

#[test]
fn ports_are_compared_in_network_byte_order() {
    let mut rule = rule();
    check_port(&mut rule, TransportProtocol::Tcp, End::Dst, 443);
    assert_eq!(
        rule.exprs,
        vec![
            Expr::Meta(Meta::L4Proto),
            eq(Operand::U8(6)),
            Expr::Payload(Payload::TcpDport),
            eq(Operand::U16 { high: 0x01, low: 0xbb }),
        ]
    );
    for port in [0, 1, 255, 256, 443, 1194, 51820, u16::MAX] {
        assert_eq!(port_bytes(port), port.to_be_bytes());
    }
}

#[test]
fn addresses_are_loaded_from_the_header_of_the_family() {
    let cases = [
        (v4([10, 0, 0, 1]), End::Src, 2, Payload::Ipv4Saddr),
        (v4([10, 0, 0, 1]), End::Dst, 2, Payload::Ipv4Daddr),
        (v6((0xfe80 << 112) | 1), End::Src, 10, Payload::Ipv6Saddr),
        (v6((0xfe80 << 112) | 1), End::Dst, 10, Payload::Ipv6Daddr),
    ];
    for (addr, end, number, field) in cases {
        let mut rule = rule();
        check_ip(&mut rule, end, addr);
        let operand = match addr {
            IpAddr::V4(addr) => Operand::V4(addr),
            IpAddr::V6(addr) => Operand::V6(addr),
        };
        assert_eq!(
            rule.exprs,
            vec![
                Expr::Meta(Meta::NfProto),
                eq(Operand::U8(number)),
                Expr::Payload(field),
                eq(operand),
            ]
        );
    }
}

#[test]
fn v4_networks_are_masked() {
    let addr = Ipv4Addr { bits: 0xac10_0000 };
    let mut rule = rule();
    check_net(&mut rule, End::Dst, IpNetwork::V4(Ipv4Network { addr, prefix: 12 }));
    assert_eq!(
        rule.exprs,
        vec![
            Expr::Meta(Meta::NfProto),
            eq(Operand::U8(2)),
            Expr::Payload(Payload::Ipv4Daddr),
            Expr::Bitwise {
                mask: Operand::V4(Ipv4Addr { bits: 0xfff0_0000 }),
                xor: Operand::V4(Ipv4Addr { bits: 0 }),
            },
            eq(Operand::V4(addr)),
        ]
    );
}

#[test]
fn v6_networks_are_masked() {
    let addr = Ipv6Addr { bits: 0xfe80 << 112 };
    let mut rule = rule();
    check_net(&mut rule, End::Src, IpNetwork::V6(Ipv6Network { addr, prefix: 10 }));
    assert_eq!(
        rule.exprs,
        vec![
            Expr::Meta(Meta::NfProto),
            eq(Operand::U8(10)),
            Expr::Payload(Payload::Ipv6Saddr),
            Expr::Bitwise {
                mask: Operand::V6(Ipv6Addr { bits: 0xffc0 << 112 }),
                xor: Operand::V6(Ipv6Addr { bits: 0 }),
            },
            eq(Operand::V6(addr)),
        ]
    );
}

#[test]
fn endpoints_are_checked_by_address_and_port() {
    let ip = v4([185, 65, 134, 1]);
    let endpoint = Endpoint {
        address: SocketAddr { ip, port: 1194 },
        protocol: TransportProtocol::Tcp,
    };
    let mut checked = rule();
    check_endpoint(&mut checked, End::Dst, &endpoint);
    let mut expected = rule();
    check_ip(&mut expected, End::Dst, ip);
    check_port(&mut expected, TransportProtocol::Tcp, End::Dst, 1194);
    assert_eq!(checked.exprs, expected.exprs);
    assert_eq!(checked.exprs.len(), 8);
}

#[test]
fn control_messages_have_code_zero() {
    let mut rule = rule();
    check_icmpv6(&mut rule, 133);
    assert_eq!(
        rule.exprs,
        vec![
            Expr::Meta(Meta::L4Proto),
            eq(Operand::U8(58)),
            Expr::Payload(Payload::Icmpv6Type),
            eq(Operand::U8(133)),
            Expr::Payload(Payload::Icmpv6Code),
            eq(Operand::U8(0)),
        ]
    );
}

#[test]
fn established_is_a_bit_of_the_state() {
    let mut rule = rule();
    check_established(&mut rule);
    assert_eq!(
        rule.exprs,
        vec![
            Expr::CtState,
            Expr::Bitwise { mask: Operand::U32(2), xor: Operand::U32(0) },
            Expr::Compare { op: CompareOp::Neq, data: Operand::U32(0) },
        ]
    );
}

#[test]
fn interfaces_are_checked_by_index() {
    let mut rule = rule();
    check_iface(&mut rule, Direction::In, "wg0", Ok(7)).unwrap();
    check_iface(&mut rule, Direction::Out, "wg0", Ok(8)).unwrap();
    let expected = vec![
        Expr::Meta(Meta::Iif),
        eq(Operand::U32(7)),
        Expr::Meta(Meta::Oif),
        eq(Operand::U32(8)),
    ];
    assert_eq!(rule.exprs, expected);
    let cause = std::io::Error::from_raw_os_error(19);
    match check_iface(&mut rule, Direction::Out, "wg0", Err(cause)) {
        Err(Error::LookupIfaceIndexError(name, cause)) => {
            assert_eq!(name, "wg0");
            assert_eq!(cause.raw_os_error(), Some(19));
        }
        other => panic!("unexpected: {:?}", other),
    }
    assert_eq!(rule.exprs, expected);
}

#[test]
fn counters_come_before_the_verdict() {
    let mut rule = rule();
    add_verdict(&mut rule, Verdict::Drop, false);
    add_verdict(&mut rule, Verdict::Accept, true);
    assert_eq!(
        rule.exprs,
        vec![Expr::Verdict(Verdict::Drop), Expr::Counter, Expr::Verdict(Verdict::Accept)]
    );
}

#[test]
fn interface_rules_accept() {
    let rule = allow_interface_rule(&chain(), Direction::Out, "lo", Ok(1), true).unwrap();
    assert_eq!(rule.chain, ChainName::Output);
    assert_eq!(
        rule.exprs,
        vec![
            Expr::Meta(Meta::Oif),
            eq(Operand::U32(1)),
            Expr::Counter,
            Expr::Verdict(Verdict::Accept),
        ]
    );
    let cause = std::io::Error::from_raw_os_error(19);
    assert!(matches!(
        allow_interface_rule(&chain(), Direction::Out, "lo", Err(cause), true),
        Err(Error::LookupIfaceIndexError(_, _))
    ));
}
