//! What the firewall is asked to do, and what it has to know to do so.

use vstd::prelude::*;

use crate::net::{Endpoint, IpAddr, IpNetwork, Ipv6Addr, Ipv6Network, TunnelMetadata, TunnelView};

verus! {

/// What traffic to let through.
#[derive(Clone, Debug)]
pub enum FirewallPolicy {
    /// While a tunnel is being set up: only what setting it up takes.
    Connecting {
        /// The endpoint that the tunnel is set up to.
        peer_endpoint: Endpoint,
        /// Hosts that may be pinged.
        pingable_hosts: Vec<IpAddr>,
        /// Whether to let through traffic with the local network.
        allow_lan: bool,
    },
    /// While a tunnel is up: what goes through the tunnel.
    Connected {
        /// The endpoint that the tunnel leads to.
        peer_endpoint: Endpoint,
        /// The tunnel.
        tunnel: TunnelMetadata,
        /// Whether to let through traffic with the local network.
        allow_lan: bool,
    },
    /// Nothing.
    Blocked {
        /// Whether to let through traffic with the local network.
        allow_lan: bool,
    },
}

/// The model of a [`FirewallPolicy`].
pub enum PolicyView {
    Connecting { peer_endpoint: Endpoint, pingable_hosts: Seq<IpAddr>, allow_lan: bool },
    Connected { peer_endpoint: Endpoint, tunnel: TunnelView, allow_lan: bool },
    Blocked { allow_lan: bool },
}

impl View for FirewallPolicy {
    type V = PolicyView;

    open spec fn view(&self) -> PolicyView {
        match self {
            FirewallPolicy::Connecting { peer_endpoint, pingable_hosts, allow_lan } => {
                PolicyView::Connecting {
                    peer_endpoint: *peer_endpoint,
                    pingable_hosts: pingable_hosts@,
                    allow_lan: *allow_lan,
                }
            },
            FirewallPolicy::Connected { peer_endpoint, tunnel, allow_lan } => {
                PolicyView::Connected {
                    peer_endpoint: *peer_endpoint,
                    tunnel: tunnel@,
                    allow_lan: *allow_lan,
                }
            },
            FirewallPolicy::Blocked { allow_lan } => PolicyView::Blocked { allow_lan: *allow_lan },
        }
    }
}

impl PolicyView {
    /// Whether traffic with the local network is let through.
    pub open spec fn allow_lan(self) -> bool {
        match self {
            PolicyView::Connecting { allow_lan, .. } => allow_lan,
            PolicyView::Connected { allow_lan, .. } => allow_lan,
            PolicyView::Blocked { allow_lan } => allow_lan,
        }
    }
}

/// The ports, addresses and networks that rules refer to under every policy.
#[derive(Clone, Debug)]
pub struct NetworkParameters {
    /// The UDP port of DHCPv4 servers.
    pub dhcpv4_server_port: u16,
    /// The UDP port of DHCPv4 clients.
    pub dhcpv4_client_port: u16,
    /// The UDP port of DHCPv6 servers.
    pub dhcpv6_server_port: u16,
    /// The UDP port of DHCPv6 clients.
    pub dhcpv6_client_port: u16,
    /// The addresses that DHCPv6 requests may go to.
    pub dhcpv6_server_addrs: Vec<Ipv6Addr>,
    /// The network of IPv6 addresses that are valid on one link only.
    pub ipv6_link_local: Ipv6Network,
    /// The address that router solicitations go to.
    pub router_solicitation_out_dst_addr: Ipv6Addr,
    /// The networks that count as local.
    pub allowed_lan_nets: Vec<IpNetwork>,
    /// The multicast and broadcast networks that reach local hosts only.
    pub allowed_lan_multicast_nets: Vec<IpNetwork>,
}

/// The model of a [`NetworkParameters`].
pub struct ParametersView {
    pub dhcpv4_server_port: u16,
    pub dhcpv4_client_port: u16,
    pub dhcpv6_server_port: u16,
    pub dhcpv6_client_port: u16,
    pub dhcpv6_server_addrs: Seq<Ipv6Addr>,
    pub ipv6_link_local: Ipv6Network,
    pub router_solicitation_out_dst_addr: Ipv6Addr,
    pub allowed_lan_nets: Seq<IpNetwork>,
    pub allowed_lan_multicast_nets: Seq<IpNetwork>,
}

impl View for NetworkParameters {
    type V = ParametersView;

    open spec fn view(&self) -> ParametersView {
        ParametersView {
            dhcpv4_server_port: self.dhcpv4_server_port,
            dhcpv4_client_port: self.dhcpv4_client_port,
            dhcpv6_server_port: self.dhcpv6_server_port,
            dhcpv6_client_port: self.dhcpv6_client_port,
            dhcpv6_server_addrs: self.dhcpv6_server_addrs@,
            ipv6_link_local: self.ipv6_link_local,
            router_solicitation_out_dst_addr: self.router_solicitation_out_dst_addr,
            allowed_lan_nets: self.allowed_lan_nets@,
            allowed_lan_multicast_nets: self.allowed_lan_multicast_nets@,
        }
    }
}

/// Every network of the sequence has a prefix that fits its family.
pub open spec fn nets_wf(nets: Seq<IpNetwork>) -> bool {
    forall|i: int| 0 <= i < nets.len() ==> (#[trigger] nets[i]).wf()
}

impl ParametersView {
    /// Every network has a prefix that fits its family.
    pub open spec fn wf(self) -> bool {
        &&& self.ipv6_link_local.wf()
        &&& nets_wf(self.allowed_lan_nets)
        &&& nets_wf(self.allowed_lan_multicast_nets)
    }
}

/// The name of the loopback interface.
pub const LOOPBACK_IFACE_NAME: &'static str = "lo";

/// What came of translating the names of [`iface_names`] into interface indices, in order. The
/// first name that cannot be translated ends the translation.
#[derive(Debug)]
pub struct IfaceLookups {
    /// The indices of the interfaces whose names were translated.
    pub indices: Vec<u32>,
    /// Why the next name was not translated.
    pub failure: Option<std::io::Error>,
}

impl IfaceLookups {
    /// The translation of so many names is over: there is an index for each, or one could not be
    /// translated.
    pub open spec fn over(self, count: nat) -> bool {
        self.indices@.len() >= count || self.failure is Some
    }

    /// Nothing has been translated yet.
    pub fn new() -> (lookups: IfaceLookups)
        ensures
            lookups.indices@ == Seq::<u32>::empty(),
            lookups.failure is None,
    {
        IfaceLookups { indices: Vec::new(), failure: None }
    }

    /// The name to translate next, if the translation goes on.
    pub fn next_name<'a>(&self, names: &'a Vec<String>) -> (name: Option<&'a String>)
        ensures
            name is None <==> self.over(names@.len()),
            name is None <==> (self.indices@.len() >= names@.len() || self.failure is Some),
            name matches Some(name) ==> *name == names@[self.indices@.len() as int],
    {
        if self.failure.is_none() && self.indices.len() < names.len() {
            Some(&names[self.indices.len()])
        } else {
            None
        }
    }

    /// Takes what came of translating the next name: its index, or why it was not translated.
    /// Says whether the translation goes on. It does not after the first failure.
    pub fn record(&mut self, lookup: Result<u32, std::io::Error>) -> (go_on: bool)
        requires
            old(self).failure is None,
        ensures
            go_on <==> lookup is Ok,
            match lookup {
                Ok(index) => final(self).indices@ == old(self).indices@.push(index)
                    && final(self).failure is None,
                Err(cause) => final(self).indices@ == old(self).indices@ && final(self).failure
                    == Some(cause),
            },
    {
        match lookup {
            Ok(index) => {
                self.indices.push(index);
                true
            },
            Err(cause) => {
                self.failure = Some(cause);
                false
            },
        }
    }
}

/// How many rules check the tunnel interface.
pub open spec fn tunnel_lookups(tunnel: TunnelView) -> nat {
    if tunnel.ipv6_gateway is Some {
        6
    } else {
        4
    }
}

/// The interface names whose indices the rules of a policy hold: one name for each rule that
/// checks an interface, in the order of the rules.
pub open spec fn iface_names(policy: PolicyView) -> Seq<Seq<char>> {
    let loopback = Seq::new(2, |i: int| LOOPBACK_IFACE_NAME@);
    match policy {
        PolicyView::Connected { tunnel, .. } => loopback + Seq::new(
            tunnel_lookups(tunnel),
            |i: int| tunnel.interface,
        ),
        _ => loopback,
    }
}

/// The names to translate are that of the loopback interface, twice, and after that, while a
/// tunnel is up, that of the tunnel interface and no other: once for each gateway over UDP, once
/// for each over TCP, and once for each direction of the tunnel itself.
pub proof fn law_lookup_names(policy: PolicyView)
    ensures
        iface_names(policy).len() == match policy {
            PolicyView::Connected { tunnel, .. } => if tunnel.ipv6_gateway is Some {
                8int
            } else {
                6
            },
            _ => 2,
        },
        iface_names(policy)[0] == "lo"@,
        iface_names(policy)[1] == "lo"@,
        policy matches PolicyView::Connected { tunnel, .. } ==> forall|i: int|
            2 <= i < iface_names(policy).len() ==> #[trigger] iface_names(policy)[i]
                == tunnel.interface,
{
}

/// Appends the name to the list, `count` times.
fn push_name(names: &mut Vec<String>, name: &str, count: usize)
    ensures
        final(names)@.map_values(|name: String| name@) == old(names)@.map_values(
            |name: String| name@,
        ) + Seq::new(count as nat, |i: int| name@),
{
    let ghost start = names@.map_values(|name: String| name@);
    let mut i: usize = 0;
    assert(names@.map_values(|name: String| name@) =~= start + Seq::new(0, |i: int| name@));
    while i < count
        invariant
            i <= count,
            names@.map_values(|name: String| name@) == start + Seq::new(i as nat, |i: int| name@),
        decreases count - i,
    {
        let ghost before = names@;
        names.push(name.to_owned());
        i = i + 1;
        assert(names@.map_values(|name: String| name@) =~= before.map_values(
            |name: String| name@,
        ).push(name@));
        assert(names@.map_values(|name: String| name@) =~= start + Seq::new(
            i as nat,
            |i: int| name@,
        ));
    }
}

/// Returns [`iface_names`], the interface names to translate before the policy can be turned
/// into rules.
pub fn iface_lookups(policy: &FirewallPolicy) -> (names: Vec<String>)
    ensures
        names@.map_values(|name: String| name@) == iface_names(policy@),
        names@.len() == match policy {
            FirewallPolicy::Connected { tunnel, .. } => if tunnel.ipv6_gateway is Some {
                8int
            } else {
                6
            },
            _ => 2,
        },
        names@[0]@ == "lo"@,
        names@[1]@ == "lo"@,
        policy matches FirewallPolicy::Connected { tunnel, .. } ==> forall|i: int|
            2 <= i < names@.len() ==> (#[trigger] names@[i])@ == tunnel.interface@,
{
    let mut names: Vec<String> = Vec::new();
    assert(names@.map_values(|name: String| name@) =~= Seq::empty());
    push_name(&mut names, LOOPBACK_IFACE_NAME, 2);
    match policy {
        FirewallPolicy::Connected { tunnel, .. } => {
            let count: usize = if tunnel.ipv6_gateway.is_some() {
                6
            } else {
                4
            };
            push_name(&mut names, tunnel.interface.as_str(), count);
        },
        _ => {},
    }
    assert(names@.map_values(|name: String| name@) =~= iface_names(policy@));
    proof {
        law_lookup_names(policy@);
        assert forall|i: int| 0 <= i < names@.len() implies (#[trigger] names@[i])@ == iface_names(
            policy@,
        )[i] by {
            assert(names@.map_values(|name: String| name@)[i] == names@[i]@);
        }
    }
    names
}

/// Whether rules should have packet counters, given the value of the environment variable
/// `TALPID_FIREWALL_DEBUG`, where it is set to text. Useful for debugging the rules.
pub fn add_counters(variable: Option<String>) -> (counters: bool)
    ensures
        counters <==> (variable matches Some(value) && value@ == "1"@),
{
    match variable {
        Some(value) => value == "1".to_owned(),
        None => false,
    }
}

} // verus!
