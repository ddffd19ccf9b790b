//! Protocol numbers, as the kernel and the Internet protocols assign them.

use vstd::prelude::*;

use crate::net::{IpAddr, TransportProtocol};

verus! {

/// The port that DNS queries are sent to.
pub const DNS_PORT: u16 = 53;

/// The bit of the connection tracking state that marks packets of an established connection.
pub const CT_STATE_ESTABLISHED: u32 = 2;

/// The ICMPv6 type of a router solicitation.
pub const ROUTER_SOLICITATION: u8 = 133;

/// The ICMPv6 type of a router advertisement.
pub const ROUTER_ADVERTISEMENT: u8 = 134;

/// The ICMPv6 type of a redirect.
pub const REDIRECT: u8 = 137;

/// The network layer protocol number of IPv4.
pub open spec fn ipv4_number() -> u8 {
    2
}

/// The network layer protocol number of IPv6.
pub open spec fn ipv6_number() -> u8 {
    10
}

/// The IP protocol number of ICMP, the control protocol of IPv4.
pub open spec fn icmp_number() -> u8 {
    1
}

/// The IP protocol number of ICMPv6, the control protocol of IPv6.
pub open spec fn icmpv6_number() -> u8 {
    58
}

/// The IP protocol number of TCP.
pub open spec fn tcp_number() -> u8 {
    6
}

/// The IP protocol number of UDP.
pub open spec fn udp_number() -> u8 {
    17
}

/// Reads `libc::NFPROTO_IPV4`, which is 2.
#[verifier::external_body]
fn outside_nfproto_ipv4() -> (number: i32)
    ensures
        number == ipv4_number(),
{
    libc::NFPROTO_IPV4
}

/// Reads `libc::NFPROTO_IPV6`, which is 10.
#[verifier::external_body]
fn outside_nfproto_ipv6() -> (number: i32)
    ensures
        number == ipv6_number(),
{
    libc::NFPROTO_IPV6
}

/// Reads `libc::IPPROTO_ICMP`, which is 1.
#[verifier::external_body]
fn outside_ipproto_icmp() -> (number: i32)
    ensures
        number == icmp_number(),
{
    libc::IPPROTO_ICMP
}

/// Reads `libc::IPPROTO_ICMPV6`, which is 58.
#[verifier::external_body]
fn outside_ipproto_icmpv6() -> (number: i32)
    ensures
        number == icmpv6_number(),
{
    libc::IPPROTO_ICMPV6
}

/// Reads `libc::IPPROTO_TCP`, which is 6.
#[verifier::external_body]
fn outside_ipproto_tcp() -> (number: i32)
    ensures
        number == tcp_number(),
{
    libc::IPPROTO_TCP
}

/// Reads `libc::IPPROTO_UDP`, which is 17.
#[verifier::external_body]
fn outside_ipproto_udp() -> (number: i32)
    ensures
        number == udp_number(),
{
    libc::IPPROTO_UDP
}

/// A number that fits in a byte, as a byte.
fn byte(number: i32) -> (byte: u8)
    requires
        0 <= number < 256,
    ensures
        byte == number,
{
    number as u8
}

/// The network layer protocol number of an address.
pub open spec fn spec_l3proto(addr: IpAddr) -> u8 {
    match addr {
        IpAddr::V4(_) => ipv4_number(),
        IpAddr::V6(_) => ipv6_number(),
    }
}

/// The network layer protocol number of an address.
pub fn l3proto(addr: IpAddr) -> (number: u8)
    ensures
        number == spec_l3proto(addr),
        addr is V4 ==> number == 2,
        addr is V6 ==> number == 10,
{
    match addr {
        IpAddr::V4(_) => byte(outside_nfproto_ipv4()),
        IpAddr::V6(_) => byte(outside_nfproto_ipv6()),
    }
}

/// The IP protocol number of a transport protocol.
pub open spec fn spec_l4proto(protocol: TransportProtocol) -> u8 {
    match protocol {
        TransportProtocol::Udp => udp_number(),
        TransportProtocol::Tcp => tcp_number(),
    }
}

/// The IP protocol number of a transport protocol.
pub fn l4proto(protocol: TransportProtocol) -> (number: u8)
    ensures
        number == spec_l4proto(protocol),
        protocol is Udp ==> number == 17,
        protocol is Tcp ==> number == 6,
{
    match protocol {
        TransportProtocol::Udp => byte(outside_ipproto_udp()),
        TransportProtocol::Tcp => byte(outside_ipproto_tcp()),
    }
}

/// The IP protocol number of the control protocol that goes with the family of an address.
pub open spec fn spec_control_proto(addr: IpAddr) -> u8 {
    match addr {
        IpAddr::V4(_) => icmp_number(),
        IpAddr::V6(_) => icmpv6_number(),
    }
}

/// The IP protocol number of the control protocol that goes with the family of an address.
pub fn control_proto(addr: IpAddr) -> (number: u8)
    ensures
        number == spec_control_proto(addr),
        addr is V4 ==> number == 1,
        addr is V6 ==> number == 58,
{
    match addr {
        IpAddr::V4(_) => byte(outside_ipproto_icmp()),
        IpAddr::V6(_) => byte(outside_ipproto_icmpv6()),
    }
}

/// The IP protocol number of ICMPv6.
pub fn icmpv6_proto() -> (number: u8)
    ensures
        number == icmpv6_number(),
        number == 58,
{
    byte(outside_ipproto_icmpv6())
}

} // verus!
