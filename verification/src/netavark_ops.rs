//! The request that wires a container to its bridge.

use crate::ipv4::Ipv4Net;
use crate::name_map::NameMap;
use crate::network::{netns_name_spec, veth_host_name};
use vstd::prelude::*;

verus! {

/// The option that fixes the name of the host end of the interface pair.
pub const OPTION_HOST_INTERFACE_NAME: &'static str = "host_interface_name";

#[derive(Debug)]
pub struct Subnet {
    pub subnet: Ipv4Net,
    pub gateway: Option<u32>,
}

/// A bridge network as the network stack is told of it.
#[derive(Debug)]
pub struct Network {
    pub driver: String,
    pub id: String,
    pub name: String,
    pub network_interface: Option<String>,
    pub internal: bool,
    pub dns_enabled: bool,
    pub ipv6_enabled: bool,
    pub subnets: Vec<Subnet>,
}

/// What one container is given on one network.
#[derive(Debug)]
pub struct PerNetworkOptions {
    pub interface_name: String,
    pub static_ips: Vec<u32>,
    pub options: NameMap<String>,
}

#[derive(Debug)]
pub struct NamedPerNetworkOptions {
    pub name: String,
    pub opts: PerNetworkOptions,
}

#[derive(Debug)]
pub struct NetworkOptions {
    pub container_id: String,
    pub container_name: String,
    pub networks: Vec<NamedPerNetworkOptions>,
    pub network_info: NameMap<Network>,
}

impl Network {
    /// An isolated bridge: internal, and its one subnet has no gateway. The bridge
    /// name serves as id, as name and as interface.
    pub open spec fn is_isolated_bridge(&self, bridge_name: Seq<char>, subnet: Ipv4Net) -> bool {
        &&& self.driver@ == "bridge"@
        &&& self.id@ == bridge_name
        &&& self.name@ == bridge_name
        &&& self.network_interface matches Some(i) && i@ == bridge_name
        &&& self.internal
        &&& !self.dns_enabled
        &&& !self.ipv6_enabled
        &&& self.subnets@.len() == 1
        &&& self.subnets@[0].subnet == subnet
        &&& self.subnets@[0].gateway is None
    }
}

impl PerNetworkOptions {
    /// One fixed address, the asked-for interface inside, and the package's own name
    /// for the interface outside.
    pub open spec fn is_for(&self, pkg: Seq<char>, ip: u32, interface: Seq<char>) -> bool {
        &&& self.interface_name@ == interface
        &&& self.static_ips@ == seq![ip]
        &&& self.options.wf()
        &&& self.options@.dom() == set![OPTION_HOST_INTERFACE_NAME@]
        &&& self.options@[OPTION_HOST_INTERFACE_NAME@]@ == netns_name_spec(pkg)
    }
}

impl NetworkOptions {
    /// One container on one isolated bridge.
    pub open spec fn attaches(
        &self,
        pkg: Seq<char>,
        bridge_name: Seq<char>,
        subnet: Ipv4Net,
        ip: u32,
        interface: Seq<char>,
    ) -> bool {
        &&& self.container_id@ == pkg
        &&& self.container_name@ == pkg
        &&& self.networks@.len() == 1
        &&& self.networks@[0].name@ == bridge_name
        &&& self.networks@[0].opts.is_for(pkg, ip, interface)
        &&& self.network_info.wf()
        &&& self.network_info@.dom() == set![bridge_name]
        &&& self.network_info@[bridge_name].is_isolated_bridge(bridge_name, subnet)
    }
}

pub fn build_bridge_network(bridge_name: &str, subnet: Ipv4Net) -> (r: Network)
    ensures
        r.is_isolated_bridge(bridge_name@, subnet),
{
    let mut subnets: Vec<Subnet> = Vec::new();
    subnets.push(Subnet { subnet, gateway: None });
    Network {
        driver: "bridge".to_owned(),
        id: bridge_name.to_owned(),
        name: bridge_name.to_owned(),
        network_interface: Some(bridge_name.to_owned()),
        internal: true,
        dns_enabled: false,
        ipv6_enabled: false,
        subnets,
    }
}

pub fn build_per_network_opts(pkg: &str, container_ip: u32, container_interface: &str) -> (r:
    PerNetworkOptions)
    ensures
        r.is_for(pkg@, container_ip, container_interface@),
        r.interface_name@ == container_interface@,
        r.static_ips@ == seq![container_ip],
{
    let mut options: NameMap<String> = NameMap::new();
    let _ = options.insert(OPTION_HOST_INTERFACE_NAME.to_owned(), veth_host_name(pkg));
    let mut static_ips: Vec<u32> = Vec::new();
    static_ips.push(container_ip);
    assert(static_ips@ =~= seq![container_ip]);
    assert(options@.dom() =~= set![OPTION_HOST_INTERFACE_NAME@]);
    PerNetworkOptions { interface_name: container_interface.to_owned(), static_ips, options }
}

/// The request that puts `pkg` on the bridge `bridge_name` with one fixed address.
pub fn build_network_options(
    pkg: &str,
    bridge_name: &str,
    subnet: Ipv4Net,
    container_ip: u32,
    container_interface: &str,
) -> (r: NetworkOptions)
    ensures
        r.attaches(pkg@, bridge_name@, subnet, container_ip, container_interface@),
        r.networks@.len() == 1,
        r.networks@[0].name@ == bridge_name@,
        r.networks@[0].opts.interface_name@ == container_interface@,
        r.networks@[0].opts.static_ips@ == seq![container_ip],
{
    let mut network_info: NameMap<Network> = NameMap::new();
    let _ = network_info.insert(bridge_name.to_owned(), build_bridge_network(bridge_name, subnet));
    let mut networks: Vec<NamedPerNetworkOptions> = Vec::new();
    networks.push(
        NamedPerNetworkOptions {
            name: bridge_name.to_owned(),
            opts: build_per_network_opts(pkg, container_ip, container_interface),
        },
    );
    assert(network_info@.dom() =~= set![bridge_name@]);
    NetworkOptions {
        container_id: pkg.to_owned(),
        container_name: pkg.to_owned(),
        networks,
        network_info,
    }
}

/// The request that attaches a container says so: the interface inside has the name that was
/// asked for, it has the one address that was given, it hangs on the bridge of that name,
/// and the interface outside has the name of the package's namespace.
pub proof fn law_request_says_what_was_asked(
    o: NetworkOptions,
    pkg: Seq<char>,
    bridge_name: Seq<char>,
    subnet: Ipv4Net,
    ip: u32,
    interface: Seq<char>,
)
    requires
        o.attaches(pkg, bridge_name, subnet, ip, interface),
    ensures
        o.container_id@ == pkg,
        o.container_name@ == pkg,
        o.networks@.len() == 1,
        o.networks@[0].name@ == bridge_name,
        o.networks@[0].opts.interface_name@ == interface,
        o.networks@[0].opts.static_ips@.len() == 1,
        o.networks@[0].opts.static_ips@[0] == ip,
        o.networks@[0].opts.options@.dom().contains("host_interface_name"@),
        o.networks@[0].opts.options@["host_interface_name"@]@ == "ssam-"@ + crate::network::hex(
            crate::network::sha256(vstd::utf8::encode_utf8(pkg)).take(5),
        ),
        forall|option: Seq<char>| #[trigger]
            o.networks@[0].opts.options@.dom().contains(option) ==> option
                == "host_interface_name"@,
{
    assert(set!["host_interface_name"@].contains("host_interface_name"@));
}

/// The bridge of a request is closed off: it is internal, its subnet is the one that was
/// given and has no gateway, and no other network is told of.
pub proof fn law_bridge_is_isolated(
    o: NetworkOptions,
    pkg: Seq<char>,
    bridge_name: Seq<char>,
    subnet: Ipv4Net,
    ip: u32,
    interface: Seq<char>,
    other: Seq<char>,
)
    requires
        o.attaches(pkg, bridge_name, subnet, ip, interface),
    ensures
        o.network_info@.dom().contains(other) <==> other == bridge_name,
        o.network_info@[bridge_name].driver@ == "bridge"@,
        o.network_info@[bridge_name].id@ == bridge_name,
        o.network_info@[bridge_name].name@ == bridge_name,
        o.network_info@[bridge_name].network_interface is Some,
        o.network_info@[bridge_name].network_interface->0@ == bridge_name,
        o.network_info@[bridge_name].internal,
        !o.network_info@[bridge_name].dns_enabled,
        !o.network_info@[bridge_name].ipv6_enabled,
        o.network_info@[bridge_name].subnets@.len() == 1,
        o.network_info@[bridge_name].subnets@[0].subnet == subnet,
        o.network_info@[bridge_name].subnets@[0].gateway is None,
{
    assert(set![bridge_name].contains(bridge_name));
}

/// Two requests that differ in what was asked for differ: one request cannot serve two
/// packages, interfaces, addresses or bridges.
pub proof fn law_requests_differ(
    o: NetworkOptions,
    a: (Seq<char>, Seq<char>, Ipv4Net, u32, Seq<char>),
    b: (Seq<char>, Seq<char>, Ipv4Net, u32, Seq<char>),
)
    requires
        o.attaches(a.0, a.1, a.2, a.3, a.4),
        o.attaches(b.0, b.1, b.2, b.3, b.4),
    ensures
        a == b,
{
    assert(seq![a.3][0] == seq![b.3][0]);
}

} // verus!
