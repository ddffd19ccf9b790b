//! Addresses, networks and endpoints.

use vstd::prelude::*;

verus! {

/// An IPv4 address, as the number whose most significant byte is the first octet.
#[derive(Clone, Copy, Debug, PartialEq, Eq, Hash, Structural)]
pub struct Ipv4Addr {
    pub bits: u32,
}

/// The number of the IPv4 limited broadcast address, 255.255.255.255.
pub const IPV4_BROADCAST_BITS: u32 = 0xffff_ffff;

/// An IPv6 address, as the number whose most significant byte is the first octet.
#[derive(Clone, Copy, Debug, PartialEq, Eq, Hash, Structural)]
pub struct Ipv6Addr {
    pub bits: u128,
}

/// An address of either family.
#[derive(Clone, Copy, Debug, PartialEq, Eq, Hash, Structural)]
pub enum IpAddr {
    V4(Ipv4Addr),
    V6(Ipv6Addr),
}

/// An IPv4 address together with the length of its network prefix.
#[derive(Clone, Copy, Debug, PartialEq, Eq, Hash, Structural)]
pub struct Ipv4Network {
    pub addr: Ipv4Addr,
    pub prefix: u8,
}

/// An IPv6 address together with the length of its network prefix.
#[derive(Clone, Copy, Debug, PartialEq, Eq, Hash, Structural)]
pub struct Ipv6Network {
    pub addr: Ipv6Addr,
    pub prefix: u8,
}

/// A network of either family.
#[derive(Clone, Copy, Debug, PartialEq, Eq, Hash, Structural)]
pub enum IpNetwork {
    V4(Ipv4Network),
    V6(Ipv6Network),
}

/// The 32-bit number whose `prefix` most significant bits are ones and whose other bits are
/// zeros.
pub open spec fn v4_mask(prefix: u8) -> u32 {
    if prefix == 0 {
        0u32
    } else {
        0xffff_ffffu32 << ((32 - prefix) as u32)
    }
}

/// The 128-bit number whose `prefix` most significant bits are ones and whose other bits are
/// zeros.
pub open spec fn v6_mask(prefix: u8) -> u128 {
    if prefix == 0 {
        0u128
    } else {
        0xffff_ffff_ffff_ffff_ffff_ffff_ffff_ffffu128 << ((128 - prefix) as u128)
    }
}

/// Calls `ipnetwork::Ipv4Network::mask` on the network with this address and prefix length:
/// the `prefix` most significant bits of the mask are ones, the others zeros. Building the
/// network fails for a prefix longer than 32 bits, which is ruled out here.
#[verifier::external_body]
fn outside_v4_mask(addr: u32, prefix: u8) -> (mask: u32)
    requires
        prefix <= 32,
    ensures
        mask == v4_mask(prefix),
{
    u32::from(ipnetwork::Ipv4Network::new(addr.into(), prefix).unwrap().mask())
}

/// Calls `ipnetwork::Ipv6Network::mask` on the network with this address and prefix length:
/// the `prefix` most significant bits of the mask are ones, the others zeros. Building the
/// network fails for a prefix longer than 128 bits, which is ruled out here.
#[verifier::external_body]
fn outside_v6_mask(addr: u128, prefix: u8) -> (mask: u128)
    requires
        prefix <= 128,
    ensures
        mask == v6_mask(prefix),
{
    u128::from(ipnetwork::Ipv6Network::new(addr.into(), prefix).unwrap().mask())
}

/// Of a mask, the `prefix` most significant bits are ones and the others zeros.
pub proof fn law_v4_mask_bits(prefix: u8)
    requires
        prefix <= 32,
    ensures
        forall|i: u32|
            #![trigger v4_mask(prefix) >> i]
            i < 32 ==> (((v4_mask(prefix) >> i) & 1) == 1 <==> i + prefix >= 32),
{
    let mask = v4_mask(prefix);
    assert forall|i: u32|
        #![trigger mask >> i]
        i < 32 implies (((mask >> i) & 1) == 1 <==> i + prefix >= 32) by {
        if prefix == 0 {
            assert(((0u32 >> i) & 1) == 0) by (bit_vector);
        } else {
            let shift = (32 - prefix) as u32;
            assert((((0xffff_ffffu32 << shift) >> i) & 1) == 1 <==> i >= shift) by (bit_vector)
                requires
                    i < 32,
                    shift < 32,
            ;
        }
    }
}

/// Of a mask, the `prefix` most significant bits are ones and the others zeros.
pub proof fn law_v6_mask_bits(prefix: u8)
    requires
        prefix <= 128,
    ensures
        forall|i: u128|
            #![trigger v6_mask(prefix) >> i]
            i < 128 ==> (((v6_mask(prefix) >> i) & 1) == 1 <==> i + prefix >= 128),
{
    let mask = v6_mask(prefix);
    assert forall|i: u128|
        #![trigger mask >> i]
        i < 128 implies (((mask >> i) & 1) == 1 <==> i + prefix >= 128) by {
        if prefix == 0 {
            assert(((0u128 >> i) & 1) == 0) by (bit_vector);
        } else {
            let shift = (128 - prefix) as u128;
            assert((((0xffff_ffff_ffff_ffff_ffff_ffff_ffff_ffffu128 << shift) >> i) & 1) == 1
                <==> i >= shift) by (bit_vector)
                requires
                    i < 128,
                    shift < 128,
            ;
        }
    }
}

impl Ipv4Network {
    /// The prefix is no longer than an address.
    pub open spec fn wf(self) -> bool {
        self.prefix <= 32
    }

    /// Whether `addr`, cut to the prefix length, equals the address of this network.
    pub open spec fn covers(self, addr: Ipv4Addr) -> bool {
        addr.bits & v4_mask(self.prefix) == self.addr.bits
    }

    /// The network mask.
    pub fn mask(&self) -> (mask: Ipv4Addr)
        requires
            self.wf(),
        ensures
            mask.bits == v4_mask(self.prefix),
            forall|i: u32|
                #![trigger mask.bits >> i]
                i < 32 ==> (((mask.bits >> i) & 1) == 1 <==> i + self.prefix >= 32),
    {
        proof {
            law_v4_mask_bits(self.prefix);
        }
        Ipv4Addr { bits: outside_v4_mask(self.addr.bits, self.prefix) }
    }
}

impl Ipv6Network {
    /// The prefix is no longer than an address.
    pub open spec fn wf(self) -> bool {
        self.prefix <= 128
    }

    /// Whether `addr`, cut to the prefix length, equals the address of this network.
    pub open spec fn covers(self, addr: Ipv6Addr) -> bool {
        addr.bits & v6_mask(self.prefix) == self.addr.bits
    }

    /// The network mask.
    pub fn mask(&self) -> (mask: Ipv6Addr)
        requires
            self.wf(),
        ensures
            mask.bits == v6_mask(self.prefix),
            forall|i: u128|
                #![trigger mask.bits >> i]
                i < 128 ==> (((mask.bits >> i) & 1) == 1 <==> i + self.prefix >= 128),
    {
        proof {
            law_v6_mask_bits(self.prefix);
        }
        Ipv6Addr { bits: outside_v6_mask(self.addr.bits, self.prefix) }
    }
}

impl IpNetwork {
    /// The prefix is no longer than an address of the family.
    pub open spec fn wf(self) -> bool {
        match self {
            IpNetwork::V4(net) => net.wf(),
            IpNetwork::V6(net) => net.wf(),
        }
    }

    /// Whether `addr` is of the family and, cut to the prefix length, equals the address of
    /// this network.
    pub open spec fn covers(self, addr: IpAddr) -> bool {
        match (self, addr) {
            (IpNetwork::V4(net), IpAddr::V4(addr)) => net.covers(addr),
            (IpNetwork::V6(net), IpAddr::V6(addr)) => net.covers(addr),
            _ => false,
        }
    }

    /// The address this network was made with.
    pub open spec fn spec_ip(self) -> IpAddr {
        match self {
            IpNetwork::V4(net) => IpAddr::V4(net.addr),
            IpNetwork::V6(net) => IpAddr::V6(net.addr),
        }
    }

    /// The address this network was made with.
    pub fn ip(&self) -> (addr: IpAddr)
        ensures
            addr == self.spec_ip(),
            self matches IpNetwork::V4(net) ==> addr == IpAddr::V4(net.addr),
            self matches IpNetwork::V6(net) ==> addr == IpAddr::V6(net.addr),
    {
        match self {
            IpNetwork::V4(net) => IpAddr::V4(net.addr),
            IpNetwork::V6(net) => IpAddr::V6(net.addr),
        }
    }
}

/// The transport protocols that an endpoint can be reached over.
#[derive(Clone, Copy, Debug, PartialEq, Eq, Hash, Structural)]
pub enum TransportProtocol {
    Udp,
    Tcp,
}

/// An address and a port.
#[derive(Clone, Copy, Debug, PartialEq, Eq, Hash, Structural)]
pub struct SocketAddr {
    pub ip: IpAddr,
    pub port: u16,
}

/// A network address reached over a transport protocol.
#[derive(Clone, Copy, Debug, PartialEq, Eq, Hash, Structural)]
pub struct Endpoint {
    pub address: SocketAddr,
    pub protocol: TransportProtocol,
}

/// What is known of a tunnel that is up.
#[derive(Clone, Debug)]
pub struct TunnelMetadata {
    /// The name of the tunnel's network interface.
    pub interface: String,
    /// The addresses of this host inside the tunnel.
    pub ips: Vec<IpAddr>,
    /// The gateway inside the tunnel. It also resolves DNS queries.
    pub ipv4_gateway: Ipv4Addr,
    /// The IPv6 gateway inside the tunnel, where the tunnel has one.
    pub ipv6_gateway: Option<Ipv6Addr>,
}

/// The model of a [`TunnelMetadata`].
pub struct TunnelView {
    pub interface: Seq<char>,
    pub ips: Seq<IpAddr>,
    pub ipv4_gateway: Ipv4Addr,
    pub ipv6_gateway: Option<Ipv6Addr>,
}

impl View for TunnelMetadata {
    type V = TunnelView;

    open spec fn view(&self) -> TunnelView {
        TunnelView {
            interface: self.interface@,
            ips: self.ips@,
            ipv4_gateway: self.ipv4_gateway,
            ipv6_gateway: self.ipv6_gateway,
        }
    }
}

} // verus!
