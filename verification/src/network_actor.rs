//! State of the bridge network: which bridge has which subnet of the pool, and which
//! interface has which address of its bridge.
//!
//! A bridge is made on the first attach and goes with the last detach.

use crate::allocator::{
    host_allocated, held_by_other, is_host_of, is_slot_of, keys_unique, reserved_name,
    slot_allocated, BridgeIpAllocator, SubnetAllocator,
};
use crate::configuration::BridgeConfig;
use crate::ipv4::{cidr, cidr_notation, lemma_network_bounds, Ipv4Net};
use crate::name_map::NameMap;
use crate::netavark_ops::{build_network_options, NetworkOptions};
use crate::network::{
    bridge_name, bridge_name_spec, interface_name_fault, is_managed_netns, netns_name_spec,
    validate_interface_name, veth_host_name,
};
use crate::text::optional_text;
use vstd::prelude::*;

verus! {

/// One bridge: its subnet, and the address that each interface on it holds.
pub struct BridgeView {
    pub subnet: Ipv4Net,
    pub held: Map<Seq<char>, u32>,
}

/// The whole network: the pool, the slot that each bridge holds, and the bridges.
pub struct NetView {
    pub pool: Ipv4Net,
    pub prefix: u8,
    pub slots: Map<Seq<char>, u32>,
    pub bridges: Map<Seq<char>, BridgeView>,
}

impl View for BridgeIpAllocator {
    type V = BridgeView;

    open spec fn view(&self) -> BridgeView {
        BridgeView { subnet: self.subnet_spec(), held: self.held() }
    }
}

/// Owns every live bridge's subnet and addresses.
#[derive(Debug)]
pub struct NetworkActor {
    subnets: SubnetAllocator,
    bridges: NameMap<BridgeIpAllocator>,
}

/// Why the network could not be set up.
#[derive(Debug, Clone, Copy, PartialEq, Eq, Structural)]
pub enum NetworkError {
    /// The base of the pool is not in CIDR notation.
    InvalidBase,
    /// The prefix length of a bridge subnet does not fit the pool.
    PrefixOutOfRange,
}

impl NetworkError {
    pub fn message(&self) -> (r: String)
        ensures
            r@ == match *self {
                NetworkError::InvalidBase => "Invalid network base"@,
                NetworkError::PrefixOutOfRange => "subnet prefix out of range for the network base"@,
            },
    {
        match self {
            NetworkError::InvalidBase => "Invalid network base".to_owned(),
            NetworkError::PrefixOutOfRange =>
                "subnet prefix out of range for the network base".to_owned(),
        }
    }
}

/// Why an attach failed.
#[derive(Debug, Clone, Copy, PartialEq, Eq, Structural)]
pub enum AttachError {
    /// The asked-for interface name breaks a rule of the kernel.
    InvalidInterface,
    /// Interface and namespace are live, but their bridge is not known.
    UntrackedBridge,
    /// Interface and namespace are live, but their address is not known.
    UntrackedAddress,
    /// The path of the namespace is not text.
    NetnsPath,
    /// The pool has no free subnet.
    NoSubnet,
    /// The subnet has no free address; `created` tells whether the bridge was made
    /// for this attach.
    NoAddress { created: bool },
    /// Wiring the interface failed.
    SetupFailed,
}

/// What an attach gives out and leaves: a bridge is made where there is none, in the
/// lowest free slot, and the interface gets the lowest free address on it.
pub open spec fn container_ip_allocated(
    before: NetView,
    br: Seq<char>,
    veth: Seq<char>,
    r: Result<(Ipv4Net, u32), AttachError>,
    after: NetView,
) -> bool {
    &&& after.pool == before.pool
    &&& after.prefix == before.prefix
    &&& if before.bridges.dom().contains(br) {
        let b = before.bridges[br];
        &&& after.slots == before.slots
        &&& after.bridges.dom().contains(br)
        &&& after.bridges == before.bridges.insert(br, after.bridges[br])
        &&& after.bridges[br].subnet == b.subnet
        &&& match r {
            Ok(got) => got.0 == b.subnet && host_allocated(
                b.subnet,
                b.held,
                veth,
                Some(got.1),
                after.bridges[br].held,
            ),
            Err(e) => e == AttachError::NoAddress { created: false } && host_allocated(
                b.subnet,
                b.held,
                veth,
                None,
                after.bridges[br].held,
            ),
        }
    } else if r == Err::<(Ipv4Net, u32), AttachError>(AttachError::NoSubnet) {
        after == before && slot_allocated(
            before.pool,
            before.prefix,
            before.slots,
            br,
            None,
            after.slots,
        )
    } else {
        let b = after.bridges[br];
        &&& after.bridges.dom().contains(br)
        &&& after.bridges == before.bridges.insert(br, b)
        &&& b.subnet.prefix_len == before.prefix
        &&& slot_allocated(
            before.pool,
            before.prefix,
            before.slots,
            br,
            Some(b.subnet.addr),
            after.slots,
        )
        &&& match r {
            Ok(got) => got.0 == b.subnet && host_allocated(
                b.subnet,
                Map::empty(),
                veth,
                Some(got.1),
                b.held,
            ),
            Err(e) => e == AttachError::NoAddress { created: true } && host_allocated(
                b.subnet,
                Map::empty(),
                veth,
                None,
                b.held,
            ),
        }
    }
}

/// The network after a bridge has gone, which it does not while an interface of the
/// daemon's is still on it.
pub open spec fn bridge_destroyed(n: NetView, br: Seq<char>, has_slaves: bool) -> NetView {
    if has_slaves {
        n
    } else {
        NetView { slots: n.slots.remove(br), bridges: n.bridges.remove(br), ..n }
    }
}

/// The network after an interface has given up its address.
pub open spec fn address_released(n: NetView, br: Seq<char>, veth: Seq<char>) -> NetView {
    if n.bridges.dom().contains(br) {
        let b = n.bridges[br];
        NetView {
            bridges: n.bridges.insert(br, BridgeView { held: b.held.remove(veth), ..b }),
            ..n
        }
    } else {
        n
    }
}

/// Whether a known bridge has no address in use.
pub open spec fn is_unused(n: NetView, br: Seq<char>) -> bool {
    n.bridges.dom().contains(br) && n.bridges[br].held =~= Map::<Seq<char>, u32>::empty()
}

/// The network after an interface has gone: its address is free, and a bridge that is
/// then unused goes too.
pub open spec fn attach_undone(n: NetView, br: Seq<char>, veth: Seq<char>, has_slaves: bool) -> NetView {
    let m = address_released(n, br, veth);
    if is_unused(m, br) {
        bridge_destroyed(m, br, has_slaves)
    } else {
        m
    }
}

/// A live container's interface, with the subnet seen on its bridge.
#[derive(Debug)]
pub struct RestoredAttach {
    pub br: String,
    pub subnet: Ipv4Net,
    pub veth: String,
    pub ip: u32,
}

/// One finding of the scan at start.
#[derive(Debug)]
pub enum RestoreEntry {
    /// The bridge's subnet and the container's address are both known.
    Attach(RestoredAttach),
    /// The address is in use, but no more is certain. It must not be given out again.
    ReserveIp { ip: u32, veth: String, master: Option<String> },
}

/// One bridge after `veth` has claimed `ip` on it, where it may.
pub open spec fn address_claimed(b: BridgeView, veth: Seq<char>, ip: u32) -> BridgeView {
    if is_host_of(b.subnet, ip as int) && !held_by_other(b.held, veth, ip as int) {
        BridgeView { held: b.held.insert(veth, ip), ..b }
    } else {
        b
    }
}

/// Whether a bridge may claim a subnet: it is a slot of the pool that no other holds.
pub open spec fn may_claim_subnet(n: NetView, br: Seq<char>, subnet: Ipv4Net) -> bool {
    &&& subnet.prefix_len == n.prefix
    &&& is_slot_of(n.pool, n.prefix, subnet.network_spec())
    &&& !held_by_other(n.slots, br, subnet.network_spec())
}

/// The network after a live container has been recognised.
pub open spec fn attach_restored(
    n: NetView,
    br: Seq<char>,
    subnet: Ipv4Net,
    veth: Seq<char>,
    ip: u32,
) -> NetView {
    if may_claim_subnet(n, br, subnet) {
        let b = if n.bridges.dom().contains(br) {
            n.bridges[br]
        } else {
            BridgeView { subnet, held: Map::empty() }
        };
        NetView {
            slots: n.slots.insert(br, subnet.network_spec() as u32),
            bridges: n.bridges.insert(br, address_claimed(b, veth, ip)),
            ..n
        }
    } else {
        n
    }
}

/// The network after an address has been put aside: on its bridge where that is known,
/// and else by holding the whole slot around it.
pub open spec fn address_reserved(
    n: NetView,
    ip: u32,
    veth: Seq<char>,
    master: Option<Seq<char>>,
) -> NetView {
    if master is Some && n.bridges.dom().contains(master->0) {
        let br = master->0;
        NetView {
            bridges: n.bridges.insert(br, address_claimed(n.bridges[br], veth, ip)),
            ..n
        }
    } else {
        let slot = (Ipv4Net { addr: ip, prefix_len: n.prefix }).network_spec();
        let name = reserved_name(slot as u32);
        if is_slot_of(n.pool, n.prefix, slot) && !held_by_other(n.slots, name, slot) {
            NetView { slots: n.slots.insert(name, slot as u32), ..n }
        } else {
            n
        }
    }
}

/// The network after the recognised containers of a plan.
pub open spec fn attaches_applied(n: NetView, plan: Seq<RestoreEntry>) -> NetView
    decreases plan.len(),
{
    if plan.len() == 0 {
        n
    } else {
        let m = attaches_applied(n, plan.drop_last());
        match plan.last() {
            RestoreEntry::Attach(a) => attach_restored(m, a.br@, a.subnet, a.veth@, a.ip),
            RestoreEntry::ReserveIp { .. } => m,
        }
    }
}

/// The network after the mere reservations of a plan.
pub open spec fn reserves_applied(n: NetView, plan: Seq<RestoreEntry>) -> NetView
    decreases plan.len(),
{
    if plan.len() == 0 {
        n
    } else {
        let m = reserves_applied(n, plan.drop_last());
        match plan.last() {
            RestoreEntry::Attach(_) => m,
            RestoreEntry::ReserveIp { ip, veth, master } => address_reserved(
                m,
                ip,
                veth@,
                optional_text(master),
            ),
        }
    }
}

/// Every subnet in a plan has a prefix of at most 32 bits.
pub open spec fn plan_wf(plan: Seq<RestoreEntry>) -> bool {
    forall|i: int|
        0 <= i < plan.len() ==> (#[trigger] plan[i] matches RestoreEntry::Attach(a) ==> a.subnet.wf())
}

impl View for NetworkActor {
    type V = NetView;

    closed spec fn view(&self) -> NetView {
        NetView {
            pool: self.subnets.pool_spec(),
            prefix: self.subnets.prefix_spec(),
            slots: self.subnets.held(),
            bridges: self.bridges@.map_values(|b: BridgeIpAllocator| b@),
        }
    }
}

/// What comes of making a network over a pool, given in CIDR notation, with subnets of a
/// given prefix length: one without bridges, where the notation can be read and the pool
/// holds such a subnet.
pub open spec fn is_network_over(
    base: Seq<char>,
    size: u8,
    r: Result<NetworkActor, NetworkError>,
) -> bool {
    match cidr_notation(base) {
        None => r == Err::<NetworkActor, NetworkError>(NetworkError::InvalidBase),
        Some(base) => if 1 <= size <= 32 && base.1 <= size {
            &&& r matches Ok(a)
            &&& a.wf()
            &&& a@ == (NetView {
                pool: Ipv4Net { addr: base.0, prefix_len: base.1 },
                prefix: size,
                slots: Map::empty(),
                bridges: Map::empty(),
            })
        } else {
            r == Err::<NetworkActor, NetworkError>(NetworkError::PrefixOutOfRange)
        },
    }
}

impl NetworkActor {
    pub closed spec fn wf(&self) -> bool {
        &&& self.subnets.wf()
        &&& self.bridges.wf()
        &&& forall|br: Seq<char>| #[trigger]
            self.bridges@.dom().contains(br) ==> self.bridge_wf(self.bridges@[br])
    }

    /// A bridge's allocator is sound and its subnet is a slot of the pool.
    closed spec fn bridge_wf(&self, b: BridgeIpAllocator) -> bool {
        &&& b.wf()
        &&& b.subnet_spec().prefix_len == self.subnets.prefix_spec()
        &&& self.subnets.is_slot(b.subnet_spec().network_spec())
    }

    /// What holds of the network in every state: no two bridges share a slot, no two
    /// interfaces on a bridge share an address, and each address is a host of its
    /// bridge's subnet, which lies in the pool.
    pub proof fn law_no_address_shared(&self)
        requires
            self.wf(),
        ensures
            keys_unique(self@.slots),
            forall|br: Seq<char>| #[trigger]
                self@.bridges.dom().contains(br) ==> keys_unique(self@.bridges[br].held)
                    && is_slot_of(
                    self@.pool,
                    self@.prefix,
                    self@.bridges[br].subnet.network_spec(),
                ),
            forall|br: Seq<char>, veth: Seq<char>|
                #![trigger self@.bridges[br].held.dom().contains(veth)]
                self@.bridges.dom().contains(br) && self@.bridges[br].held.dom().contains(veth)
                    ==> is_host_of(
                    self@.bridges[br].subnet,
                    self@.bridges[br].held[veth] as int,
                ),
    {
        assert forall|br: Seq<char>| #[trigger] self@.bridges.dom().contains(br) implies keys_unique(
            self@.bridges[br].held,
        ) && is_slot_of(self@.pool, self@.prefix, self@.bridges[br].subnet.network_spec()) by {
            assert(self.bridge_wf(self.bridges@[br]));
        }
        assert forall|br: Seq<char>, veth: Seq<char>|
            #![trigger self@.bridges[br].held.dom().contains(veth)]
            self@.bridges.dom().contains(br) && self@.bridges[br].held.dom().contains(
                veth,
            ) implies is_host_of(
            self@.bridges[br].subnet,
            self@.bridges[br].held[veth] as int,
        ) by {
            let b = self.bridges@[br];
            assert(self.bridge_wf(b));
            assert(b.held().dom().contains(veth));
        }
    }

    /// The network over the pool of `config`, with no bridge yet.
    pub fn new(config: &BridgeConfig) -> (r: Result<Self, NetworkError>)
        ensures
            is_network_over(config.base_spec(), config.size_spec(), r),
            forall|a: u32, p: u8|
                p <= 32 && config.base_spec() == #[trigger] cidr(a, p) ==> cidr_notation(
                    config.base_spec(),
                ) == Some((a, p)),
    {
        let pool = match Ipv4Net::parse(config.base().as_str()) {
            Some(pool) => pool,
            None => {
                return Err(NetworkError::InvalidBase);
            },
        };
        match SubnetAllocator::new(pool, config.size()) {
            Ok(subnets) => {
                let actor = NetworkActor { subnets, bridges: NameMap::new() };
                assert(actor@.bridges =~= Map::<Seq<char>, BridgeView>::empty());
                Ok(actor)
            },
            Err(_) => Err(NetworkError::PrefixOutOfRange),
        }
    }

    pub fn pool(&self) -> (r: Ipv4Net)
        ensures
            r == self@.pool,
    {
        self.subnets.pool()
    }

    pub fn subnet_prefix(&self) -> (r: u8)
        ensures
            r == self@.prefix,
    {
        self.subnets.subnet_prefix()
    }

    pub fn has_bridge(&self, br: &str) -> (r: bool)
        ensures
            r == self@.bridges.dom().contains(br@),
    {
        self.bridges.contains(br)
    }

    /// The address of `veth` on bridge `br`, if both are known.
    pub fn ip_for(&self, br: &str, veth: &str) -> (r: Option<u32>)
        requires
            self.wf(),
        ensures
            r == if self@.bridges.dom().contains(br@) && self@.bridges[br@].held.dom().contains(
                veth@,
            ) {
                Some(self@.bridges[br@].held[veth@])
            } else {
                None
            },
    {
        match self.bridges.get(br) {
            Some(state) => {
                assert(self.bridge_wf(self.bridges@[br@]));
                state.ip_for(veth)
            },
            None => None,
        }
    }

    /// Whether a live interface and namespace can be kept as they are. Where they are
    /// live but not known here, the attach is refused.
    pub fn adopt_existing(&self, br: &str, veth: &str, live: bool) -> (r: Result<bool, AttachError>)
        requires
            self.wf(),
        ensures
            r == if !live {
                Ok::<bool, AttachError>(false)
            } else if !self@.bridges.dom().contains(br@) {
                Err(AttachError::UntrackedBridge)
            } else if !self@.bridges[br@].held.dom().contains(veth@) {
                Err(AttachError::UntrackedAddress)
            } else {
                Ok(true)
            },
    {
        if !live {
            return Ok(false);
        }
        match self.bridges.get(br) {
            None => Err(AttachError::UntrackedBridge),
            Some(state) => {
                assert(self.bridge_wf(self.bridges@[br@]));
                match state.ip_for(veth) {
                    None => Err(AttachError::UntrackedAddress),
                    Some(_) => Ok(true),
                }
            },
        }
    }

    /// The subnet of bridge `br`, made where it is not there, and an address on it for
    /// `veth`.
    pub fn allocate_container_ip(&mut self, br: &str, veth: &str) -> (r: Result<
        (Ipv4Net, u32),
        AttachError,
    >)
        requires
            old(self).wf(),
        ensures
            final(self).wf(),
            container_ip_allocated(old(self)@, br@, veth@, r, final(self)@),
    {
        let ghost before = self@;
        let (created, mut state) = match self.bridges.remove(br) {
            Some(state) => {
                assert(self.bridge_wf(state));
                (false, state)
            },
            None => {
                match self.subnets.allocate(br) {
                    Ok(subnet) => {
                        proof {
                            lemma_network_bounds(subnet);
                            lemma_slot_is_network(subnet);
                        }
                        (true, BridgeIpAllocator::new(subnet))
                    },
                    Err(_) => {
                        assert(self@.bridges =~= before.bridges);
                        return Err(AttachError::NoSubnet);
                    },
                }
            },
        };
        let ghost fresh = state@;
        let got = state.allocate(veth);
        let subnet = state.subnet();
        let _ = self.bridges.insert(br.to_owned(), state);
        assert(self@.bridges =~= before.bridges.insert(br@, state@));
        match got {
            Ok(ip) => Ok((subnet, ip)),
            Err(_) => Err(AttachError::NoAddress { created }),
        }
    }

    /// Lets an unused bridge go, unless an interface of the daemon's is still on it:
    /// freeing its subnet could then give a live bridge's subnet away. The result
    /// tells whether the link itself is to be deleted.
    pub fn destroy_bridge(&mut self, br: &str, has_slaves: bool) -> (r: bool)
        requires
            old(self).wf(),
        ensures
            final(self).wf(),
            final(self)@ == bridge_destroyed(old(self)@, br@, has_slaves),
            r == !has_slaves,
    {
        if has_slaves {
            return false;
        }
        let ghost before = self@;
        self.subnets.release(br);
        let _ = self.bridges.remove(br);
        assert(self@.bridges =~= before.bridges.remove(br@));
        true
    }

    /// Frees the address of `veth`; the result tells whether its bridge is then unused.
    fn release_address(&mut self, br: &str, veth: &str) -> (r: bool)
        requires
            old(self).wf(),
        ensures
            final(self).wf(),
            final(self)@ == address_released(old(self)@, br@, veth@),
            r == is_unused(final(self)@, br@),
    {
        let ghost before = self@;
        match self.bridges.remove(br) {
            Some(mut state) => {
                assert(self.bridge_wf(state));
                state.release(veth);
                let unused = state.is_empty();
                let _ = self.bridges.insert(br.to_owned(), state);
                assert(self@.bridges =~= before.bridges.insert(br@, state@));
                unused
            },
            None => {
                assert(self@.bridges =~= before.bridges);
                false
            },
        }
    }

    /// Undoes a fresh attach that failed. The result tells whether the link of the
    /// bridge is to be deleted.
    pub fn rollback_attach(&mut self, br: &str, veth: &str, has_slaves: bool) -> (r: bool)
        requires
            old(self).wf(),
        ensures
            final(self).wf(),
            final(self)@ == attach_undone(old(self)@, br@, veth@, has_slaves),
            r == (!has_slaves && is_unused(address_released(old(self)@, br@, veth@), br@)),
    {
        if self.release_address(br, veth) {
            self.destroy_bridge(br, has_slaves)
        } else {
            false
        }
    }

    /// Detaches `veth` once its link has been dealt with. Where the link could not be
    /// deleted, its address stays in use. The result tells whether the link of the
    /// bridge is to be deleted.
    pub fn detach(&mut self, br: &str, veth: &str, veth_deleted: bool, has_slaves: bool) -> (r: bool)
        requires
            old(self).wf(),
        ensures
            final(self).wf(),
            final(self)@ == if veth_deleted {
                attach_undone(old(self)@, br@, veth@, has_slaves)
            } else {
                old(self)@
            },
            r == (veth_deleted && !has_slaves && is_unused(
                address_released(old(self)@, br@, veth@),
                br@,
            )),
    {
        if veth_deleted {
            self.rollback_attach(br, veth, has_slaves)
        } else {
            false
        }
    }

    /// Claims the subnet and the address of a recognised container.
    pub fn claim_restored_attach(&mut self, att: &RestoredAttach)
        requires
            old(self).wf(),
            att.subnet.wf(),
        ensures
            final(self).wf(),
            final(self)@ == attach_restored(
                old(self)@,
                att.br@,
                att.subnet,
                att.veth@,
                att.ip,
            ),
    {
        let ghost before = self@;
        if self.subnets.claim(att.br.as_str(), att.subnet).is_err() {
            assert(self@.bridges =~= before.bridges);
            return ;
        }
        let mut state = match self.bridges.remove(att.br.as_str()) {
            Some(state) => {
                assert(self.bridge_wf(state));
                state
            },
            None => BridgeIpAllocator::new(att.subnet),
        };
        let ghost fresh = state@;
        let _ = state.claim(att.veth.as_str(), att.ip);
        assert(state@ == address_claimed(fresh, att.veth@, att.ip));
        let _ = self.bridges.insert(att.br.clone(), state);
        assert(self@.bridges =~= before.bridges.insert(att.br@, state@));
    }

    /// Puts an address aside.
    pub fn reserve_ip(&mut self, ip: u32, veth: &str, master: &Option<String>)
        requires
            old(self).wf(),
        ensures
            final(self).wf(),
            final(self)@ == address_reserved(old(self)@, ip, veth@, optional_text(*master)),
    {
        let ghost before = self@;
        if let Some(br) = master {
            if let Some(mut state) = self.bridges.remove(br.as_str()) {
                assert(self.bridge_wf(state));
                let ghost fresh = state@;
                let _ = state.claim(veth, ip);
                assert(state@ == address_claimed(fresh, veth@, ip));
                let _ = self.bridges.insert(br.clone(), state);
                assert(self@.bridges =~= before.bridges.insert(br@, state@));
                return ;
            }
        }
        self.subnets.reserve_containing(ip);
        assert(self@.bridges =~= before.bridges);
    }

    /// Takes over what the scan found: the recognised containers first, then the
    /// addresses that are merely put aside.
    pub fn apply_restore_plan(&mut self, plan: &Vec<RestoreEntry>)
        requires
            old(self).wf(),
            plan_wf(plan@),
        ensures
            final(self).wf(),
            final(self)@ == reserves_applied(attaches_applied(old(self)@, plan@), plan@),
    {
        let mut i: usize = 0;
        assert(plan@.take(0) =~= Seq::empty());
        while i < plan.len()
            invariant
                i <= plan@.len(),
                plan_wf(plan@),
                self.wf(),
                self@ == attaches_applied(old(self)@, plan@.take(i as int)),
            decreases plan.len() - i,
        {
            let ghost upto = plan@.take(i + 1);
            assert(upto.drop_last() =~= plan@.take(i as int));
            assert(upto.last() == plan@[i as int]);
            match &plan[i] {
                RestoreEntry::Attach(att) => self.claim_restored_attach(att),
                RestoreEntry::ReserveIp { .. } => {},
            }
            i += 1;
        }
        assert(plan@.take(i as int) =~= plan@);
        let ghost mid = self@;
        let mut j: usize = 0;
        while j < plan.len()
            invariant
                j <= plan@.len(),
                self.wf(),
                self@ == reserves_applied(mid, plan@.take(j as int)),
            decreases plan.len() - j,
        {
            let ghost upto = plan@.take(j + 1);
            assert(upto.drop_last() =~= plan@.take(j as int));
            assert(upto.last() == plan@[j as int]);
            match &plan[j] {
                RestoreEntry::Attach(_) => {},
                RestoreEntry::ReserveIp { ip, veth, master } => {
                    self.reserve_ip(*ip, veth.as_str(), master);
                },
            }
            j += 1;
        }
        assert(plan@.take(j as int) =~= plan@);
    }
}

/// What has to be done next for an attach.
#[derive(Debug)]
pub enum AttachAction {
    /// See whether the interface and the namespace are both there.
    CheckLive,
    /// Delete an interface that is left over; that it fails does no harm.
    DeleteStaleVeth,
    /// See whether the path of the namespace is text.
    ResolveNetns,
    /// Wire the interface into the namespace with the address that it was given.
    RunSetup { options: NetworkOptions, subnet: Ipv4Net, ip: u32 },
    /// Delete the interface that wiring left half made.
    DeleteHalfVeth,
    /// See whether an interface of the daemon's is still on the bridge.
    CheckSlaves,
    /// Delete the link of the bridge.
    DeleteBridge,
    /// Nothing: the attach has ended.
    Finish(Result<(), AttachError>),
}

/// What came of it.
#[derive(Debug, Clone, Copy, PartialEq, Eq, Structural)]
pub enum AttachEvent {
    Live(bool),
    StaleVethDeleted,
    NetnsResolved(bool),
    SetupDone(bool),
    /// With whether an interface of the daemon's is still on the bridge.
    HalfVethDeleted(bool),
    Slaves(bool),
    BridgeDeleted,
}

/// An attach under way.
#[derive(Debug)]
pub struct AttachFlow {
    pub pkg: String,
    pub interface: String,
    pub br: String,
    pub veth: String,
    pub action: AttachAction,
    /// Why it is going to fail, once that is certain.
    pub failure: AttachError,
}

impl AttachFlow {
    /// The interface and the bridge are those of the package and of the bridge id.
    pub open spec fn same_names(&self, other: &AttachFlow) -> bool {
        &&& self.pkg@ == other.pkg@
        &&& self.interface@ == other.interface@
        &&& self.br@ == other.br@
        &&& self.veth@ == other.veth@
    }

    pub fn new(pkg: &str, bridge_id: &str, container_interface: &str) -> (r: Result<
        AttachFlow,
        AttachError,
    >)
        ensures
            match interface_name_fault(container_interface@) {
                Some(_) => r == Err::<AttachFlow, AttachError>(AttachError::InvalidInterface),
                None => {
                    &&& r matches Ok(f)
                    &&& f.pkg@ == pkg@
                    &&& f.interface@ == container_interface@
                    &&& f.br@ == bridge_name_spec(bridge_id@)
                    &&& f.veth@ == netns_name_spec(pkg@)
                    &&& f.action == AttachAction::CheckLive
                },
            },
    {
        if validate_interface_name(container_interface).is_err() {
            return Err(AttachError::InvalidInterface);
        }
        Ok(
            AttachFlow {
                pkg: pkg.to_owned(),
                interface: container_interface.to_owned(),
                br: bridge_name(bridge_id),
                veth: veth_host_name(pkg),
                action: AttachAction::CheckLive,
                failure: AttachError::SetupFailed,
            },
        )
    }
}

/// One step of an attach: what the outcome `event` of the pending action makes of the
/// network `n` and of the flow `f`. An event that does not belong to the action changes
/// nothing.
pub open spec fn attach_step(
    n: NetView,
    f: AttachFlow,
    event: AttachEvent,
    n2: NetView,
    f2: AttachFlow,
) -> bool {
    let br = f.br@;
    let veth = f.veth@;
    &&& f2.same_names(&f)
    &&& match (f.action, event) {
        (AttachAction::CheckLive, AttachEvent::Live(live)) => {
            &&& n2 == n
            &&& f2.failure == f.failure
            &&& if !live {
                f2.action == AttachAction::DeleteStaleVeth
            } else if !n.bridges.dom().contains(br) {
                f2.action == AttachAction::Finish(Err(AttachError::UntrackedBridge))
            } else if !n.bridges[br].held.dom().contains(veth) {
                f2.action == AttachAction::Finish(Err(AttachError::UntrackedAddress))
            } else {
                f2.action == AttachAction::Finish(Ok(()))
            }
        },
        (AttachAction::DeleteStaleVeth, AttachEvent::StaleVethDeleted) => {
            &&& n2 == n
            &&& f2.failure == f.failure
            &&& f2.action == AttachAction::ResolveNetns
        },
        (AttachAction::ResolveNetns, AttachEvent::NetnsResolved(is_text)) => if !is_text {
            &&& n2 == n
            &&& f2.failure == f.failure
            &&& f2.action == AttachAction::Finish(Err(AttachError::NetnsPath))
        } else {
            match f2.action {
                AttachAction::RunSetup { options, subnet, ip } => {
                    &&& options.attaches(f.pkg@, br, subnet, ip, f.interface@)
                    &&& container_ip_allocated(n, br, veth, Ok((subnet, ip)), n2)
                    &&& f2.failure == f.failure
                },
                AttachAction::CheckSlaves => {
                    &&& f2.failure == AttachError::NoAddress { created: true }
                    &&& container_ip_allocated(n, br, veth, Err(f2.failure), n2)
                },
                AttachAction::Finish(Err(e)) => {
                    &&& e != AttachError::NoAddress { created: true }
                    &&& container_ip_allocated(n, br, veth, Err(e), n2)
                    &&& f2.failure == f.failure
                },
                _ => false,
            }
        },
        (AttachAction::RunSetup { .. }, AttachEvent::SetupDone(ok)) => {
            &&& n2 == n
            &&& if ok {
                f2.action == AttachAction::Finish(Ok(())) && f2.failure == f.failure
            } else {
                f2.action == AttachAction::DeleteHalfVeth && f2.failure == AttachError::SetupFailed
            }
        },
        (AttachAction::DeleteHalfVeth, AttachEvent::HalfVethDeleted(has_slaves)) => {
            &&& n2 == attach_undone(n, br, veth, has_slaves)
            &&& f2.failure == f.failure
            &&& f2.action == if !has_slaves && is_unused(address_released(n, br, veth), br) {
                AttachAction::DeleteBridge
            } else {
                AttachAction::Finish(Err(f.failure))
            }
        },
        (AttachAction::CheckSlaves, AttachEvent::Slaves(has_slaves)) => {
            &&& n2 == bridge_destroyed(n, br, has_slaves)
            &&& f2.failure == f.failure
            &&& f2.action == if has_slaves {
                AttachAction::Finish(Err(f.failure))
            } else {
                AttachAction::DeleteBridge
            }
        },
        (AttachAction::DeleteBridge, AttachEvent::BridgeDeleted) => {
            &&& n2 == n
            &&& f2.failure == f.failure
            &&& f2.action == AttachAction::Finish(Err(f.failure))
        },
        _ => n2 == n && f2.action == f.action && f2.failure == f.failure,
    }
}

impl NetworkActor {
    /// Takes an attach one step further.
    pub fn attach_next(&mut self, flow: AttachFlow, event: AttachEvent) -> (r: AttachFlow)
        requires
            old(self).wf(),
        ensures
            final(self).wf(),
            final(self)@.pool == old(self)@.pool,
            final(self)@.prefix == old(self)@.prefix,
            attach_step(old(self)@, flow, event, final(self)@, r),
    {
        let mut flow = flow;
        match (&flow.action, event) {
            (AttachAction::CheckLive, AttachEvent::Live(live)) => {
                flow.action =
                match self.adopt_existing(flow.br.as_str(), flow.veth.as_str(), live) {
                    Ok(true) => AttachAction::Finish(Ok(())),
                    Ok(false) => AttachAction::DeleteStaleVeth,
                    Err(e) => AttachAction::Finish(Err(e)),
                };
            },
            (AttachAction::DeleteStaleVeth, AttachEvent::StaleVethDeleted) => {
                flow.action = AttachAction::ResolveNetns;
            },
            (AttachAction::ResolveNetns, AttachEvent::NetnsResolved(is_text)) => {
                if !is_text {
                    flow.action = AttachAction::Finish(Err(AttachError::NetnsPath));
                } else {
                    match self.allocate_container_ip(flow.br.as_str(), flow.veth.as_str()) {
                        Ok((subnet, ip)) => {
                            let options = build_network_options(
                                flow.pkg.as_str(),
                                flow.br.as_str(),
                                subnet,
                                ip,
                                flow.interface.as_str(),
                            );
                            flow.action = AttachAction::RunSetup { options, subnet, ip };
                        },
                        Err(AttachError::NoAddress { created: true }) => {
                            flow.failure = AttachError::NoAddress { created: true };
                            flow.action = AttachAction::CheckSlaves;
                        },
                        Err(e) => {
                            flow.action = AttachAction::Finish(Err(e));
                        },
                    }
                }
            },
            (AttachAction::RunSetup { .. }, AttachEvent::SetupDone(ok)) => {
                if ok {
                    flow.action = AttachAction::Finish(Ok(()));
                } else {
                    flow.failure = AttachError::SetupFailed;
                    flow.action = AttachAction::DeleteHalfVeth;
                }
            },
            (AttachAction::DeleteHalfVeth, AttachEvent::HalfVethDeleted(has_slaves)) => {
                if self.rollback_attach(flow.br.as_str(), flow.veth.as_str(), has_slaves) {
                    flow.action = AttachAction::DeleteBridge;
                } else {
                    flow.action = AttachAction::Finish(Err(flow.failure));
                }
            },
            (AttachAction::CheckSlaves, AttachEvent::Slaves(has_slaves)) => {
                if self.destroy_bridge(flow.br.as_str(), has_slaves) {
                    flow.action = AttachAction::DeleteBridge;
                } else {
                    flow.action = AttachAction::Finish(Err(flow.failure));
                }
            },
            (AttachAction::DeleteBridge, AttachEvent::BridgeDeleted) => {
                flow.action = AttachAction::Finish(Err(flow.failure));
            },
            _ => {},
        }
        flow
    }
}

/// What is known of the bridge that an interface is on.
#[derive(Debug)]
pub enum MasterLookup {
    /// The interface has this master.
    Found(String),
    /// It has none.
    Absent,
    /// The question could not be answered.
    Failed,
}

/// The container's own address, if one of the addresses in its namespace lies in the
/// pool. Each address comes with its prefix length; one that is not IPv4 is `None`.
pub fn container_ipv4_in_pool(addr: Option<u32>, prefix: u8, pool: Ipv4Net) -> (r: Option<Ipv4Net>)
    requires
        pool.wf(),
    ensures
        r == match addr {
            Some(a) if prefix <= 32 && pool.network_spec() <= a <= pool.broadcast_spec() => Some(
                Ipv4Net { addr: a, prefix_len: prefix },
            ),
            _ => None::<Ipv4Net>,
        },
{
    match addr {
        Some(a) => match Ipv4Net::new(a, prefix) {
            Some(net) => if pool.contains(a) {
                Some(net)
            } else {
                None
            },
            None => None,
        },
        None => None,
    }
}

pub open spec fn lies_in_pool(found: (u8, Option<u32>), pool: Ipv4Net) -> bool {
    found.0 <= 32 && found.1 is Some && pool.network_spec() <= found.1->0 <= pool.broadcast_spec()
}

/// The first address of a namespace that lies in the pool.
pub fn first_container_ipv4(found: &Vec<(u8, Option<u32>)>, pool: Ipv4Net) -> (r: Option<Ipv4Net>)
    requires
        pool.wf(),
    ensures
        match r {
            Some(net) => exists|i: int|
                {
                    &&& 0 <= i < found@.len()
                    &&& #[trigger] lies_in_pool(found@[i], pool)
                    &&& net == (Ipv4Net { addr: found@[i].1->0, prefix_len: found@[i].0 })
                    &&& forall|j: int| 0 <= j < i ==> !#[trigger] lies_in_pool(found@[j], pool)
                },
            None => forall|j: int|
                0 <= j < found@.len() ==> !#[trigger] lies_in_pool(found@[j], pool),
        },
        r matches Some(net) ==> net.wf(),
{
    let mut i: usize = 0;
    while i < found.len()
        invariant
            i <= found@.len(),
            pool.wf(),
            forall|j: int| 0 <= j < i ==> !#[trigger] lies_in_pool(found@[j], pool),
        decreases found.len() - i,
    {
        let (prefix, addr) = found[i];
        if let Some(net) = container_ipv4_in_pool(addr, prefix, pool) {
            assert(lies_in_pool(found@[i as int], pool));
            return Some(net);
        }
        i += 1;
    }
    None
}

/// What one namespace contributes to the restore plan.
pub open spec fn is_restore_entry(
    name: Seq<char>,
    container: Option<Ipv4Net>,
    master: MasterLookup,
    subnet_prefix: u8,
    r: Option<RestoreEntry>,
) -> bool {
    match container {
        None => r is None,
        Some(c) => match master {
            MasterLookup::Failed => {
                &&& r matches Some(RestoreEntry::ReserveIp { ip, veth, master: m })
                &&& ip == c.addr
                &&& veth@ == name
                &&& m is None
            },
            MasterLookup::Found(br) => if !"ssb-"@.is_prefix_of(br@) {
                r is None
            } else if c.prefix_len != subnet_prefix {
                &&& r matches Some(RestoreEntry::ReserveIp { ip, veth, master: m })
                &&& ip == c.addr
                &&& veth@ == name
                &&& m == Some(br)
            } else {
                &&& r matches Some(RestoreEntry::Attach(a))
                &&& a.br == br
                &&& a.subnet.addr == c.network_spec()
                &&& a.subnet.prefix_len == c.prefix_len
                &&& a.veth@ == name
                &&& a.ip == c.addr
            },
            MasterLookup::Absent => r is None,
        },
    }
}

/// What one namespace contributes to the restore plan. A master that is not one of the
/// daemon's bridges, or none, means that the interface is not the daemon's. A lookup
/// that failed proves nothing, so the address is put aside.
pub fn build_restore_entry(
    name: &str,
    container: Option<Ipv4Net>,
    master: MasterLookup,
    subnet_prefix: u8,
) -> (r: Option<RestoreEntry>)
    requires
        container matches Some(c) ==> c.wf(),
    ensures
        is_restore_entry(name@, container, master, subnet_prefix, r),
        r matches Some(e) ==> plan_wf(seq![e]),
{
    let container = match container {
        Some(c) => c,
        None => {
            return None;
        },
    };
    let master = match master {
        MasterLookup::Found(br) => br,
        MasterLookup::Absent => {
            return None;
        },
        MasterLookup::Failed => {
            return Some(
                RestoreEntry::ReserveIp { ip: container.addr, veth: name.to_owned(), master: None },
            );
        },
    };
    if !crate::text::starts_with(master.as_str(), "ssb-") {
        return None;
    }
    if container.prefix_len != subnet_prefix {
        return Some(
            RestoreEntry::ReserveIp {
                ip: container.addr,
                veth: name.to_owned(),
                master: Some(master),
            },
        );
    }
    Some(
        RestoreEntry::Attach(
            RestoredAttach {
                br: master,
                subnet: container.trunc(),
                veth: name.to_owned(),
                ip: container.addr,
            },
        ),
    )
}

/// An entry of the directory of namespaces: its name, where that is text; the container's
/// address, where the namespace could be read; and the bridge of its interface.
#[derive(Debug)]
pub struct FoundNetns {
    pub name: Option<String>,
    pub container: Option<Option<Ipv4Net>>,
    pub master: MasterLookup,
}

/// Whether an entry of the directory contributes to the restore plan.
pub open spec fn contributes(f: FoundNetns) -> bool {
    &&& f.name matches Some(name)
    &&& "ssam-"@.is_prefix_of(name@)
    &&& f.container matches Some(Some(_))
    &&& match f.master {
        MasterLookup::Found(br) => "ssb-"@.is_prefix_of(br@),
        MasterLookup::Absent => false,
        MasterLookup::Failed => true,
    }
}

/// A plan holds what the entries of the directory contribute, in order.
pub open spec fn is_restore_plan(
    found: Seq<FoundNetns>,
    subnet_prefix: u8,
    plan: Seq<RestoreEntry>,
) -> bool
    decreases found.len(),
{
    if found.len() == 0 {
        plan.len() == 0
    } else if contributes(found.last()) {
        &&& plan.len() > 0
        &&& is_restore_entry(
            found.last().name->0@,
            found.last().container->0,
            found.last().master,
            subnet_prefix,
            Some(plan.last()),
        )
        &&& is_restore_plan(found.drop_last(), subnet_prefix, plan.drop_last())
    } else {
        is_restore_plan(found.drop_last(), subnet_prefix, plan)
    }
}

/// The restore plan by the entries of the directory of namespaces. A directory that is not
/// there, or cannot be read, has none.
pub fn collect_restore_plan(found: Option<Vec<FoundNetns>>, subnet_prefix: u8) -> (r: Vec<
    RestoreEntry,
>)
    requires
        found matches Some(all) ==> forall|i: int|
            0 <= i < all@.len() ==> ((#[trigger] all@[i]).container matches Some(Some(c))
                ==> c.wf()),
    ensures
        match found {
            Some(all) => is_restore_plan(all@, subnet_prefix, r@),
            None => r@.len() == 0,
        },
        plan_wf(r@),
        forall|i: int|
            0 <= i < r@.len() ==> ((#[trigger] r@[i]) matches RestoreEntry::Attach(a)
                ==> "ssb-"@.is_prefix_of(a.br@)),
{
    let mut out: Vec<RestoreEntry> = Vec::new();
    let all = match found {
        Some(all) => all,
        None => {
            return out;
        },
    };
    let ghost entries = all@;
    let ghost mut n: int = 0;
    assert(entries.take(0) =~= Seq::empty());
    for f in it: all
        invariant
            it.seq() == entries,
            it.index() == n,
            forall|i: int|
                0 <= i < entries.len() ==> ((#[trigger] entries[i]).container matches Some(Some(c))
                    ==> c.wf()),
            is_restore_plan(entries.take(n), subnet_prefix, out@),
            plan_wf(out@),
            forall|i: int|
                0 <= i < out@.len() ==> ((#[trigger] out@[i]) matches RestoreEntry::Attach(a)
                    ==> "ssb-"@.is_prefix_of(a.br@)),
    {
        let ghost upto = entries.take(n + 1);
        assert(f == entries[n]);
        assert(upto.drop_last() =~= entries.take(n));
        assert(upto.last() == f);
        proof {
            n = n + 1;
        }
        let FoundNetns { name, container, master } = f;
        if let (Some(name), Some(container)) = (name, container) {
            if is_managed_netns(name.as_str()) {
                let entry = build_restore_entry(name.as_str(), container, master, subnet_prefix);
                if let Some(entry) = entry {
                    let ghost before = out@;
                    assert(seq![entry][0] == entry);
                    out.push(entry);
                    assert(out@.drop_last() =~= before);
                }
            }
        }
    }
    assert(entries.take(n) =~= entries);
    out
}

/// Undoing a fresh attach leaves the network as it was: the address is free again, and
/// a bridge that was made for it is gone together with its subnet.
pub proof fn law_rollback_restores(
    before: NetView,
    br: Seq<char>,
    veth: Seq<char>,
    got: (Ipv4Net, u32),
    after: NetView,
)
    requires
        container_ip_allocated(before, br, veth, Ok((got.0, got.1)), after),
        if before.bridges.dom().contains(br) {
            !before.bridges[br].held.dom().contains(veth) && !is_unused(before, br)
        } else {
            !before.slots.dom().contains(br)
        },
    ensures
        attach_undone(after, br, veth, false) == before,
{
    let undone = attach_undone(after, br, veth, false);
    if before.bridges.dom().contains(br) {
        let b = before.bridges[br];
        assert(b.held.insert(veth, got.1).remove(veth) =~= b.held);
        assert(undone.bridges =~= before.bridges);
    } else {
        let m = address_released(after, br, veth);
        assert(m.bridges[br].held =~= Map::<Seq<char>, u32>::empty());
        assert(undone.slots =~= before.slots);
        assert(undone.bridges =~= before.bridges);
    }
}

/// A slot's network address is the network address of its subnet.
proof fn lemma_slot_is_network(subnet: Ipv4Net)
    requires
        subnet.wf(),
        subnet.addr as int % crate::ipv4::block_size(subnet.prefix_len) as int == 0,
    ensures
        subnet.network_spec() == subnet.addr,
{
}

/// An attachment that goes on is still of the same package, interface, bridge and pair.
pub proof fn law_attachment_keeps_its_names(a: AttachFlow, b: AttachFlow)
    requires
        a.same_names(&b),
    ensures
        a.pkg@ == b.pkg@,
        a.interface@ == b.interface@,
        a.br@ == b.br@,
        a.veth@ == b.veth@,
{
}

} // verus!
