//! In-memory address allocation for the bridge network.
//!
//! Allocation hands out the lowest free key, so no two ids ever hold the same
//! address. Nothing is persisted: after a restart the addresses that surviving
//! containers use are claimed again before anything new is allocated.

use crate::ipv4::{
    block_size, dotted, dotted_text, law_dotted_is_unique, lemma_network_bounds, Ipv4Net,
};
use crate::name_map::NameMap;
use crate::text::join2;
use vstd::arithmetic::power2::{lemma2_to64, lemma_pow2_pos, lemma_pow2_strictly_increases, pow2};
use vstd::prelude::*;

verus! {

/// Whether some id holds `key`.
pub open spec fn is_held(held: Map<Seq<char>, u32>, key: int) -> bool {
    exists|id: Seq<char>| #[trigger] held.dom().contains(id) && held[id] == key
}

/// Whether some id other than `id` holds `key`.
pub open spec fn held_by_other(held: Map<Seq<char>, u32>, id: Seq<char>, key: int) -> bool {
    exists|o: Seq<char>| #[trigger] held.dom().contains(o) && held[o] == key && o != id
}

/// No key is held by two ids.
pub open spec fn keys_unique(held: Map<Seq<char>, u32>) -> bool {
    forall|a: Seq<char>, b: Seq<char>|
        #![trigger held[a], held[b]]
        held.dom().contains(a) && held.dom().contains(b) && held[a] == held[b] ==> a == b
}

/// Whether `c` is one of `start`, `start + step`, `start + 2 * step`, ...
pub open spec fn on_grid(start: u32, step: u32, c: int) -> bool {
    if step == 0 {
        c == start
    } else {
        c >= start && (c - start) % step as int == 0
    }
}

/// What an allocation gives out and leaves: what `id` holds already, or else the lowest key
/// from `start` to `last` that is free.
pub open spec fn key_allocated(
    before: Map<Seq<char>, u32>,
    id: Seq<char>,
    start: u32,
    step: u32,
    last: u32,
    got: Option<u32>,
    after: Map<Seq<char>, u32>,
) -> bool {
    if before.dom().contains(id) {
        got == Some(before[id]) && after == before
    } else {
        match got {
            Some(key) => {
                &&& after == before.insert(id, key)
                &&& on_grid(start, step, key as int)
                &&& key <= last
                &&& !is_held(before, key as int)
                &&& forall|c: int|
                    on_grid(start, step, c) && c < key ==> #[trigger] is_held(before, c)
            },
            None => {
                &&& after == before
                &&& forall|c: int|
                    on_grid(start, step, c) && c <= last ==> #[trigger] is_held(before, c)
            },
        }
    }
}

/// Lowest-free allocator over slot keys.
#[derive(Debug)]
pub struct SlotAllocator {
    attached: NameMap<u32>,
}

impl View for SlotAllocator {
    type V = Map<Seq<char>, u32>;

    /// The key that each id holds.
    closed spec fn view(&self) -> Map<Seq<char>, u32> {
        self.attached@
    }
}

impl SlotAllocator {
    pub closed spec fn wf(&self) -> bool {
        self.attached.wf() && keys_unique(self.attached@)
    }

    pub proof fn lemma_unique(&self)
        requires
            self.wf(),
        ensures
            keys_unique(self@),
    {
    }

    pub fn new() -> (r: Self)
        ensures
            r.wf(),
            r@ == Map::<Seq<char>, u32>::empty(),
    {
        SlotAllocator { attached: NameMap::new() }
    }

    /// The id that holds `key`, if any.
    fn owner_of(&self, key: u32) -> (r: Option<&String>)
        requires
            self.wf(),
        ensures
            r is None <==> !is_held(self@, key as int),
            r matches Some(o) ==> self@.dom().contains(o@) && self@[o@] == key,
    {
        proof {
            self.attached.lemma_listing();
        }
        let mut i: usize = 0;
        while i < self.attached.len()
            invariant
                self.wf(),
                i <= self.attached.listing().len(),
                forall|j: int|
                    0 <= j < i ==> (#[trigger] self.attached.listing()[j]).1 != key,
            decreases self.attached.listing().len() - i,
        {
            if *self.attached.value_at(i) == key {
                proof {
                    self.attached.lemma_listing();
                    assert(self@.dom().contains(self.attached.listing()[i as int].0@));
                }
                return Some(self.attached.name_at(i));
            }
            i += 1;
        }
        proof {
            self.attached.lemma_listing();
        }
        None
    }

    /// The key of `id`, or else the lowest free one of `start`, `start + step`, ...
    /// up to `last`, which `id` then holds. Nothing changes where all are taken. Without a
    /// step there is `start` alone, and for an `id` that holds nothing it must then be
    /// free or beyond `last`.
    pub fn allocate(&mut self, id: &str, start: u32, step: u32, last: u32) -> (r: Option<u32>)
        requires
            old(self).wf(),
            step >= 1 || old(self)@.dom().contains(id@) || start > last || !is_held(
                old(self)@,
                start as int,
            ),
        ensures
            final(self).wf(),
            key_allocated(old(self)@, id@, start, step, last, r, final(self)@),
    {
        if let Some(existing) = self.attached.get(id) {
            return Some(*existing);
        }
        let mut key: u32 = start;
        if step == 0 {
            if start > last {
                return None;
            }
            self.attached.insert(id.to_owned(), start);
            return Some(start);
        }
        proof {
            vstd::arithmetic::div_mod::lemma_small_mod(0, step as nat);
        }
        while key <= last
            invariant
                self.wf(),
                self@ == old(self)@,
                !self@.dom().contains(id@),
                step >= 1,
                start <= key,
                (key - start) % step as int == 0,
                forall|c: int|
                    start <= c < key && (c - start) % step as int == 0 ==> #[trigger] is_held(
                        self@,
                        c,
                    ),
            decreases u32::MAX - key,
        {
            if self.owner_of(key).is_none() {
                self.attached.insert(id.to_owned(), key);
                return Some(key);
            }
            assert forall|c: int|
                start <= c < key + step && (c - start) % step as int == 0 implies #[trigger] is_held(
                self@,
                c,
            ) by {
                if c > key {
                    lemma_no_multiple_between(c - start, key - start, step as int);
                }
            }
            proof {
                vstd::arithmetic::div_mod::lemma_mod_add_multiples_vanish(
                    key - start,
                    step as int,
                );
            }
            match key.checked_add(step) {
                Some(next) => {
                    key = next;
                },
                None => {
                    return None;
                },
            }
        }
        None
    }

    /// Files `key` under `id`, which gives up any other key. Where another id holds
    /// `key`, that id is handed back and nothing changes.
    pub fn claim(&mut self, id: &str, key: u32) -> (r: Result<(), String>)
        requires
            old(self).wf(),
        ensures
            final(self).wf(),
            r is Err <==> held_by_other(old(self)@, id@, key as int),
            r matches Err(owner) ==> {
                &&& old(self)@.dom().contains(owner@)
                &&& old(self)@[owner@] == key
                &&& owner@ != id@
                &&& final(self)@ == old(self)@
            },
            r is Ok ==> final(self)@ == old(self)@.insert(id@, key),
    {
        let owner = match self.owner_of(key) {
            Some(owner) => Some(owner.clone()),
            None => None,
        };
        if let Some(owner) = owner {
            if !crate::text::is_same(owner.as_str(), id) {
                return Err(owner);
            }
        }
        self.attached.insert(id.to_owned(), key);
        Ok(())
    }

    /// The key of `id` is free again. An id that holds none changes nothing.
    pub fn release(&mut self, id: &str)
        requires
            old(self).wf(),
        ensures
            final(self).wf(),
            final(self)@ == old(self)@.remove(id@),
    {
        let _ = self.attached.remove(id);
    }

    pub fn get(&self, id: &str) -> (r: Option<u32>)
        requires
            self.wf(),
        ensures
            r == if self@.dom().contains(id@) {
                Some(self@[id@])
            } else {
                None
            },
    {
        match self.attached.get(id) {
            Some(key) => Some(*key),
            None => None,
        }
    }

    pub fn is_empty(&self) -> (r: bool)
        ensures
            r == (self@ =~= Map::<Seq<char>, u32>::empty()),
    {
        self.attached.is_empty()
    }
}

pub(crate) proof fn lemma_no_multiple_between(c: int, k: int, step: int)
    requires
        step >= 1,
        k < c,
        k % step == 0,
        c % step == 0,
    ensures
        c >= k + step,
{
    let d = c - k;
    vstd::arithmetic::div_mod::lemma_sub_mod_noop(c, k, step);
    assert(d % step == 0) by {
        assert((c % step - k % step) % step == 0) by {
            vstd::arithmetic::div_mod::lemma_small_mod(0, step as nat);
        }
    }
    if d < step {
        vstd::arithmetic::div_mod::lemma_small_mod(d as nat, step as nat);
    }
}

/// Why an address or a subnet was not handed out.
#[derive(Debug, PartialEq, Eq)]
pub enum AllocError {
    /// Every host address of the subnet is taken.
    SubnetFull,
    /// The address is no usable host of the bridge subnet.
    NotAHost,
    /// Another id holds it.
    Owned(String),
    /// The prefix length of a bridge subnet does not fit the pool.
    PrefixOutOfRange,
    /// Every slot of the pool is taken.
    PoolExhausted,
    /// The subnet is no slot of the pool: its prefix length differs.
    PrefixMismatch,
    /// The subnet lies outside the pool.
    OutsidePool,
}

/// A usable host of a subnet: neither its network nor its broadcast address.
pub open spec fn is_host_of(subnet: Ipv4Net, addr: int) -> bool {
    subnet.network_spec() < addr < subnet.broadcast_spec()
}

/// What asking for a host address gives and leaves: an id keeps the address that it
/// holds, and else gets the lowest free one, if any is free.
pub open spec fn host_allocated(
    subnet: Ipv4Net,
    before: Map<Seq<char>, u32>,
    id: Seq<char>,
    got: Option<u32>,
    after: Map<Seq<char>, u32>,
) -> bool {
    if before.dom().contains(id) {
        got == Some(before[id]) && after == before
    } else {
        match got {
            Some(ip) => {
                &&& after == before.insert(id, ip)
                &&& is_host_of(subnet, ip as int)
                &&& !is_held(before, ip as int)
                &&& forall|c: int|
                    is_host_of(subnet, c) && c < ip ==> #[trigger] is_held(before, c)
            },
            None => {
                &&& after == before
                &&& forall|c: int| is_host_of(subnet, c) ==> #[trigger] is_held(before, c)
            },
        }
    }
}

/// The network address of a subnet of `prefix` bits that lies in `pool`.
pub open spec fn is_slot_of(pool: Ipv4Net, prefix: u8, addr: int) -> bool {
    &&& pool.network_spec() <= addr
    &&& addr + block_size(prefix) - 1 <= pool.broadcast_spec()
    &&& addr % (block_size(prefix) as int) == 0
}

/// What asking for a bridge subnet gives and leaves: a bridge keeps the slot that it
/// holds, and else gets the lowest free one, if any is free.
pub open spec fn slot_allocated(
    pool: Ipv4Net,
    prefix: u8,
    before: Map<Seq<char>, u32>,
    bridge: Seq<char>,
    got: Option<u32>,
    after: Map<Seq<char>, u32>,
) -> bool {
    if before.dom().contains(bridge) {
        got == Some(before[bridge]) && after == before
    } else {
        match got {
            Some(addr) => {
                &&& after == before.insert(bridge, addr)
                &&& is_slot_of(pool, prefix, addr as int)
                &&& !is_held(before, addr as int)
                &&& forall|c: int|
                    is_slot_of(pool, prefix, c) && c < addr ==> #[trigger] is_held(before, c)
            },
            None => {
                &&& after == before
                &&& forall|c: int| is_slot_of(pool, prefix, c) ==> #[trigger] is_held(before, c)
            },
        }
    }
}

/// Tracks which network id holds which host address of one bridge subnet.
#[derive(Debug)]
pub struct BridgeIpAllocator {
    subnet: Ipv4Net,
    slots: SlotAllocator,
}

impl BridgeIpAllocator {
    pub closed spec fn subnet_spec(&self) -> Ipv4Net {
        self.subnet
    }

    /// The address that each id holds.
    pub closed spec fn held(&self) -> Map<Seq<char>, u32> {
        self.slots@
    }

    /// Every held address is a usable host, and no two ids share one.
    pub open spec fn wf(&self) -> bool {
        &&& self.parts_wf()
        &&& self.subnet_spec().wf()
        &&& keys_unique(self.held())
        &&& forall|id: Seq<char>|
            #[trigger] self.held().dom().contains(id) ==> self.is_host(self.held()[id] as int)
    }

    pub closed spec fn parts_wf(&self) -> bool {
        self.slots.wf()
    }

    /// A usable host: neither the network nor the broadcast address.
    pub open spec fn is_host(&self, addr: int) -> bool {
        is_host_of(self.subnet_spec(), addr)
    }

    pub fn new(subnet: Ipv4Net) -> (r: Self)
        requires
            subnet.wf(),
        ensures
            r.wf(),
            r.subnet_spec() == subnet,
            r.held() == Map::<Seq<char>, u32>::empty(),
    {
        BridgeIpAllocator { subnet, slots: SlotAllocator::new() }
    }

    pub fn subnet(&self) -> (r: Ipv4Net)
        ensures
            r == self.subnet_spec(),
    {
        self.subnet
    }

    /// The address of `netid`, or else the lowest free host address, which `netid`
    /// then holds.
    pub fn allocate(&mut self, netid: &str) -> (r: Result<u32, AllocError>)
        requires
            old(self).wf(),
        ensures
            final(self).wf(),
            final(self).subnet_spec() == old(self).subnet_spec(),
            host_allocated(
                old(self).subnet_spec(),
                old(self).held(),
                netid@,
                r.ok(),
                final(self).held(),
            ),
            r matches Err(e) ==> e == AllocError::SubnetFull,
    {
        proof {
            lemma_network_bounds(self.subnet);
        }
        let broadcast: u32 = self.subnet.broadcast();
        let network: u32 = self.subnet.network();
        if broadcast == 0 || network == u32::MAX {
            // The subnet of the first or of the last address alone: it has no host.
            return match self.slots.get(netid) {
                Some(ip) => Ok(ip),
                None => Err(AllocError::SubnetFull),
            };
        }
        match self.slots.allocate(netid, network + 1, 1, broadcast - 1) {
            Some(ip) => {
                proof {
                    self.slots.lemma_unique();
                }
                Ok(ip)
            },
            None => Err(AllocError::SubnetFull),
        }
    }

    /// Records that `netid` uses `ip`; another address that it held is free again.
    pub fn claim(&mut self, netid: &str, ip: u32) -> (r: Result<(), AllocError>)
        requires
            old(self).wf(),
        ensures
            final(self).wf(),
            final(self).subnet_spec() == old(self).subnet_spec(),
            r is Ok <==> old(self).is_host(ip as int) && !held_by_other(
                old(self).held(),
                netid@,
                ip as int,
            ),
            r is Ok ==> final(self).held() == old(self).held().insert(netid@, ip),
            r is Err ==> final(self).held() == old(self).held(),
            r matches Err(AllocError::Owned(o)) ==> old(self).is_host(ip as int) && old(
                self,
            ).held().dom().contains(o@) && old(self).held()[o@] == ip && o@ != netid@,
            r matches Err(e) ==> if old(self).is_host(ip as int) {
                e is Owned
            } else {
                e is NotAHost
            },
    {
        proof {
            lemma_network_bounds(self.subnet);
        }
        let network: u32 = self.subnet.network();
        let broadcast: u32 = self.subnet.broadcast();
        if !(network < ip && ip < broadcast) {
            return Err(AllocError::NotAHost);
        }
        match self.slots.claim(netid, ip) {
            Ok(()) => {
                proof {
                    self.slots.lemma_unique();
                }
                Ok(())
            },
            Err(owner) => Err(AllocError::Owned(owner)),
        }
    }

    /// The address of `netid` is free again. An id that holds none changes nothing.
    pub fn release(&mut self, netid: &str)
        requires
            old(self).wf(),
        ensures
            final(self).wf(),
            final(self).subnet_spec() == old(self).subnet_spec(),
            final(self).held() == old(self).held().remove(netid@),
    {
        self.slots.release(netid);
    }

    /// The address of `netid`, if it holds one; none is ever made here.
    pub fn ip_for(&self, netid: &str) -> (r: Option<u32>)
        requires
            self.wf(),
        ensures
            r == if self.held().dom().contains(netid@) {
                Some(self.held()[netid@])
            } else {
                None
            },
    {
        self.slots.get(netid)
    }

    /// Whether nobody holds an address.
    pub fn is_empty(&self) -> (r: bool)
        ensures
            r == (self.held() =~= Map::<Seq<char>, u32>::empty()),
    {
        self.slots.is_empty()
    }
}

/// Carves a pool into equal subnets, one for each bridge.
#[derive(Debug)]
pub struct SubnetAllocator {
    pool: Ipv4Net,
    subnet_prefix: u8,
    step: u32,
    slots: SlotAllocator,
}

/// The name under which a slot is held that no known bridge owns.
pub open spec fn reserved_name(network: u32) -> Seq<char> {
    "reserved:"@ + dotted(network)
}

impl SubnetAllocator {
    pub closed spec fn pool_spec(&self) -> Ipv4Net {
        self.pool
    }

    pub closed spec fn prefix_spec(&self) -> u8 {
        self.subnet_prefix
    }

    /// The network address of the slot that each bridge holds.
    pub closed spec fn held(&self) -> Map<Seq<char>, u32> {
        self.slots@
    }

    pub open spec fn step_spec(&self) -> int {
        block_size(self.prefix_spec()) as int
    }

    pub closed spec fn parts_wf(&self) -> bool {
        self.slots.wf() && self.step == self.step_spec()
    }

    /// The network address of a slot of the pool.
    pub open spec fn is_slot(&self, addr: int) -> bool {
        is_slot_of(self.pool_spec(), self.prefix_spec(), addr)
    }

    /// Every held slot is a slot of the pool, and no two bridges share one.
    pub open spec fn wf(&self) -> bool {
        &&& self.parts_wf()
        &&& self.pool_spec().wf()
        &&& 1 <= self.prefix_spec() <= 32
        &&& self.pool_spec().prefix_len <= self.prefix_spec()
        &&& keys_unique(self.held())
        &&& forall|b: Seq<char>|
            #[trigger] self.held().dom().contains(b) ==> self.is_slot(self.held()[b] as int)
    }

    /// Bridge subnets of `subnet_prefix` bits: no shorter than the prefix of the
    /// pool, and neither zero nor over 32 bits.
    pub fn new(pool: Ipv4Net, subnet_prefix: u8) -> (r: Result<Self, AllocError>)
        requires
            pool.wf(),
        ensures
            r is Ok <==> 1 <= subnet_prefix <= 32 && pool.prefix_len <= subnet_prefix,
            r matches Ok(a) ==> {
                &&& a.wf()
                &&& a.pool_spec() == pool
                &&& a.prefix_spec() == subnet_prefix
                &&& a.held() == Map::<Seq<char>, u32>::empty()
            },
            r matches Err(e) ==> e == AllocError::PrefixOutOfRange,
    {
        let min: u8 = if pool.prefix_len > 1 {
            pool.prefix_len
        } else {
            1
        };
        if subnet_prefix < min || subnet_prefix > 32 {
            return Err(AllocError::PrefixOutOfRange);
        }
        let shift: u32 = 32 - subnet_prefix as u32;
        let step: u32 = 1u32 << shift;
        proof {
            lemma2_to64();
            if shift < 31 {
                lemma_pow2_strictly_increases(shift as nat, 31);
            }
            vstd::bits::lemma_u32_shl_is_mul(1, shift);
        }
        Ok(SubnetAllocator { pool, subnet_prefix, step, slots: SlotAllocator::new() })
    }

    /// The subnet of `bridge_name`, or else the lowest free slot of the pool, which
    /// the bridge then holds.
    pub fn allocate(&mut self, bridge_name: &str) -> (r: Result<Ipv4Net, AllocError>)
        requires
            old(self).wf(),
        ensures
            final(self).wf(),
            final(self).pool_spec() == old(self).pool_spec(),
            final(self).prefix_spec() == old(self).prefix_spec(),
            r matches Ok(n) ==> n.prefix_len == old(self).prefix_spec() && old(self).is_slot(
                n.addr as int,
            ),
            slot_allocated(
                old(self).pool_spec(),
                old(self).prefix_spec(),
                old(self).held(),
                bridge_name@,
                match r {
                    Ok(n) => Some(n.addr),
                    Err(_) => None,
                },
                final(self).held(),
            ),
            r matches Err(e) ==> e == AllocError::PoolExhausted,
    {
        proof {
            self.lemma_slot_grid();
        }
        let pool_broadcast: u32 = self.pool.broadcast();
        let start: u32 = self.pool.network();
        let last: u32 = pool_broadcast - (self.step - 1);
        match self.slots.allocate(bridge_name, start, self.step, last) {
            Some(addr) => {
                proof {
                    self.slots.lemma_unique();
                    let before = old(self);
                    before.lemma_on_grid(addr as int);
                    assert forall|c: int| before.is_slot(c) && c < addr && !before.held().dom().contains(
                        bridge_name@,
                    ) implies #[trigger] is_held(before.held(), c) by {
                        before.lemma_on_grid(c);
                    }
                }
                Ok(Ipv4Net { addr, prefix_len: self.subnet_prefix })
            },
            None => {
                proof {
                    let before = old(self);
                    assert forall|c: int| before.is_slot(c) implies #[trigger] is_held(
                        before.held(),
                        c,
                    ) by {
                        before.lemma_on_grid(c);
                    }
                }
                Err(AllocError::PoolExhausted)
            },
        }
    }

    /// Counting from the pool's first address, the slots are a grid of whole steps.
    proof fn lemma_slot_grid(&self)
        requires
            self.wf(),
        ensures
            1 <= self.step_spec(),
            self.pool_spec().network_spec() % self.step_spec() == 0,
            self.pool_spec().network_spec() + self.step_spec() - 1
                <= self.pool_spec().broadcast_spec(),
            0 <= self.pool_spec().network_spec() <= self.pool_spec().broadcast_spec() <= u32::MAX,
    {
        let p = self.pool_spec();
        let k = (32 - self.prefix_spec()) as nat;
        let j = (self.prefix_spec() - p.prefix_len) as nat;
        lemma_network_bounds(p);
        lemma_pow2_pos(k);
        lemma_pow2_pos(j);
        vstd::arithmetic::power2::lemma_pow2_adds(k, j);
        assert(k + j == 32 - p.prefix_len);
        let size = block_size(p.prefix_len) as int;
        let step = self.step_spec();
        let m = pow2(j) as int;
        assert(size == step * m);
        assert(m >= 1);
        assert(step <= size) by (nonlinear_arith)
            requires
                size == step * m,
                m >= 1,
                step >= 1,
        ;
        let q = p.network_spec() / size;
        vstd::arithmetic::div_mod::lemma_fundamental_div_mod(p.network_spec(), size);
        assert(p.network_spec() == (m * q) * step) by (nonlinear_arith)
            requires
                p.network_spec() == size * q,
                size == step * m,
        ;
        vstd::arithmetic::div_mod::lemma_mod_multiples_basic(m * q, step);
    }

    proof fn lemma_on_grid(&self, addr: int)
        requires
            self.wf(),
        ensures
            (addr - self.pool_spec().network_spec()) % self.step_spec() == 0 <==> addr
                % self.step_spec() == 0,
    {
        self.lemma_slot_grid();
        let n = self.pool_spec().network_spec();
        let step = self.step_spec();
        vstd::arithmetic::div_mod::lemma_sub_mod_noop(addr, n, step);
        vstd::arithmetic::div_mod::lemma_mod_bound(addr, step);
        vstd::arithmetic::div_mod::lemma_small_mod((addr % step) as nat, step as nat);
    }

    /// Records that `bridge_name` uses `subnet`; another slot that it held is free
    /// again.
    pub fn claim(&mut self, bridge_name: &str, subnet: Ipv4Net) -> (r: Result<(), AllocError>)
        requires
            old(self).wf(),
            subnet.wf(),
        ensures
            final(self).wf(),
            final(self).pool_spec() == old(self).pool_spec(),
            final(self).prefix_spec() == old(self).prefix_spec(),
            r is Ok <==> {
                &&& subnet.prefix_len == old(self).prefix_spec()
                &&& old(self).is_slot(subnet.network_spec())
                &&& !held_by_other(old(self).held(), bridge_name@, subnet.network_spec())
            },
            r is Ok ==> final(self).held() == old(self).held().insert(
                bridge_name@,
                subnet.network_spec() as u32,
            ),
            r is Err ==> final(self).held() == old(self).held(),
            r matches Err(e) ==> if subnet.prefix_len != old(self).prefix_spec() {
                e is PrefixMismatch
            } else if !old(self).is_slot(subnet.network_spec()) {
                e is OutsidePool
            } else {
                e is Owned
            },
            r matches Err(AllocError::Owned(o)) ==> old(self).held().dom().contains(o@) && old(
                self,
            ).held()[o@] == subnet.network_spec() && o@ != bridge_name@,
    {
        proof {
            self.lemma_slot_grid();
            lemma_network_bounds(subnet);
        }
        if subnet.prefix_len != self.subnet_prefix {
            return Err(AllocError::PrefixMismatch);
        }
        let addr: u32 = subnet.network();
        let pool_network: u32 = self.pool.network();
        let pool_broadcast: u32 = self.pool.broadcast();
        if !(addr >= pool_network && addr.saturating_add(self.step - 1) <= pool_broadcast) {
            return Err(AllocError::OutsidePool);
        }
        match self.slots.claim(bridge_name, addr) {
            Ok(()) => {
                proof {
                    self.slots.lemma_unique();
                }
                Ok(())
            },
            Err(owner) => Err(AllocError::Owned(owner)),
        }
    }

    /// The slot of `bridge_name` is free again. A bridge without one changes nothing.
    pub fn release(&mut self, bridge_name: &str)
        requires
            old(self).wf(),
        ensures
            final(self).wf(),
            final(self).pool_spec() == old(self).pool_spec(),
            final(self).prefix_spec() == old(self).prefix_spec(),
            final(self).held() == old(self).held().remove(bridge_name@),
    {
        self.slots.release(bridge_name);
    }

    /// Holds the slot around `ip` under a name of its own. A slot outside the pool,
    /// or one that a bridge holds, is left as it is.
    pub fn reserve_containing(&mut self, ip: u32)
        requires
            old(self).wf(),
        ensures
            final(self).wf(),
            final(self).pool_spec() == old(self).pool_spec(),
            final(self).prefix_spec() == old(self).prefix_spec(),
            ({
                let slot = (Ipv4Net { addr: ip, prefix_len: old(self).prefix_spec() }).network_spec();
                let name = reserved_name(slot as u32);
                if old(self).is_slot(slot) && !held_by_other(old(self).held(), name, slot) {
                    final(self).held() == old(self).held().insert(name, slot as u32)
                } else {
                    final(self).held() == old(self).held()
                }
            }),
    {
        let slot = match Ipv4Net::new(ip, self.subnet_prefix) {
            Some(net) => net.trunc(),
            None => {
                return ;
            },
        };
        proof {
            lemma_network_bounds(Ipv4Net { addr: ip, prefix_len: self.prefix_spec() });
        }
        let name = join2("reserved:", dotted_text(slot.network()).as_str());
        let _ = self.claim(name.as_str(), slot);
    }

    pub fn pool(&self) -> (r: Ipv4Net)
        ensures
            r == self.pool_spec(),
    {
        self.pool
    }

    pub fn subnet_prefix(&self) -> (r: u8)
        ensures
            r == self.prefix_spec(),
    {
        self.subnet_prefix
    }
}

/// No two ids share an address of a bridge subnet.
pub proof fn law_bridge_addresses_unique(alloc: &BridgeIpAllocator, a: Seq<char>, b: Seq<char>)
    requires
        alloc.wf(),
        alloc.held().dom().contains(a),
        alloc.held().dom().contains(b),
        a != b,
    ensures
        alloc.held()[a] != alloc.held()[b],
{
}

/// The subnets of two bridges have no address in common.
pub proof fn law_bridge_subnets_disjoint(
    alloc: &SubnetAllocator,
    a: Seq<char>,
    b: Seq<char>,
    addr: int,
)
    requires
        alloc.wf(),
        alloc.held().dom().contains(a),
        alloc.held().dom().contains(b),
        a != b,
        alloc.held()[a] <= addr < alloc.held()[a] + alloc.step_spec(),
    ensures
        !(alloc.held()[b] <= addr < alloc.held()[b] + alloc.step_spec()),
{
    alloc.lemma_slot_grid();
    let x = alloc.held()[a] as int;
    let y = alloc.held()[b] as int;
    let step = alloc.step_spec();
    if y <= addr < y + step {
        if x < y {
            lemma_no_multiple_between(y, x, step);
        } else {
            lemma_no_multiple_between(x, y, step);
        }
    }
}

/// A claimed address is held, so that no allocation hands it out again, and the
/// address that its id held before is free.
pub proof fn law_claim_blocks_and_frees(held: Map<Seq<char>, u32>, id: Seq<char>, key: u32)
    requires
        keys_unique(held),
        !held_by_other(held, id, key as int),
    ensures
        is_held(held.insert(id, key), key as int),
        keys_unique(held.insert(id, key)),
        held.dom().contains(id) && held[id] != key ==> !is_held(
            held.insert(id, key),
            held[id] as int,
        ),
{
    let after = held.insert(id, key);
    assert(after.dom().contains(id) && after[id] == key);
}

/// What is released can be claimed by anyone: a key that is unique to `id` is held
/// by nobody after its release.
pub proof fn law_release_frees(held: Map<Seq<char>, u32>, id: Seq<char>)
    requires
        keys_unique(held),
        held.dom().contains(id),
    ensures
        !is_held(held.remove(id), held[id] as int),
{
}

/// Allocating is idempotent: an id that got a key gets the same again, whatever the range
/// is then, and nothing changes.
pub proof fn law_allocate_is_idempotent(
    before: Map<Seq<char>, u32>,
    id: Seq<char>,
    first: (u32, u32, u32),
    got: Option<u32>,
    between: Map<Seq<char>, u32>,
    second: (u32, u32, u32),
    again: Option<u32>,
    after: Map<Seq<char>, u32>,
)
    requires
        key_allocated(before, id, first.0, first.1, first.2, got, between),
        key_allocated(between, id, second.0, second.1, second.2, again, after),
    ensures
        got is Some ==> again == got && after == between,
        between.dom().contains(id) ==> again == Some(between[id]) && after == between,
{
}

/// A release undoes an allocation: where `id` held nothing before, all is as it was.
pub proof fn law_release_undoes_allocate(
    before: Map<Seq<char>, u32>,
    id: Seq<char>,
    start: u32,
    step: u32,
    last: u32,
    got: Option<u32>,
    after: Map<Seq<char>, u32>,
)
    requires
        !before.dom().contains(id),
        key_allocated(before, id, start, step, last, got, after),
    ensures
        after.remove(id) == before,
{
}

/// A release undoes a claim: where `id` held nothing before, all is as it was.
pub proof fn law_release_undoes_claim(held: Map<Seq<char>, u32>, id: Seq<char>, key: u32)
    requires
        !held.dom().contains(id),
    ensures
        held.insert(id, key).remove(id) == held,
{
}

/// A release takes nothing from anyone else, and changes nothing where `id` holds nothing.
pub proof fn law_release_keeps_others(held: Map<Seq<char>, u32>, id: Seq<char>, other: Seq<char>)
    ensures
        other != id ==> held.remove(id).dom().contains(other) == held.dom().contains(other),
        other != id && held.dom().contains(other) ==> held.remove(id)[other] == held[other],
        !held.remove(id).dom().contains(id),
        !held.dom().contains(id) ==> held.remove(id) == held,
{
}

/// What is given lies a whole number of steps behind the start and not behind the end, is held
/// by nobody, and everything that lies on a step before it is held; where nothing is given,
/// everything up to the end is held. Who holds something already keeps it.
pub proof fn law_lowest_free_key_is_given(
    before: Map<Seq<char>, u32>,
    id: Seq<char>,
    start: u32,
    step: u32,
    last: u32,
    got: Option<u32>,
    after: Map<Seq<char>, u32>,
    m: nat,
)
    requires
        step > 0,
        key_allocated(before, id, start, step, last, got, after),
    ensures
        before.dom().contains(id) ==> got == Some(before[id]) && after == before,
        !before.dom().contains(id) ==> (got matches Some(key) ==> {
            &&& after == before.insert(id, key)
            &&& start <= key <= last
            &&& (key - start) % (step as int) == 0
            &&& !is_held(before, key as int)
            &&& start + m * step < key ==> is_held(before, start + m * step)
        }),
        !before.dom().contains(id) && got is None ==> {
            &&& after == before
            &&& start + m * step <= last ==> is_held(before, start + m * step)
        },
{
    assert(m * step >= 0) by (nonlinear_arith)
        requires
            step > 0,
    ;
    vstd::arithmetic::div_mod::lemma_mod_multiples_basic(m as int, step as int);
    assert(on_grid(start, step, start + m * step));
}

/// A network that is put aside is held under a name of its own.
pub proof fn law_names_of_reserved_networks(a: u32, b: u32)
    ensures
        reserved_name(a) == "reserved:"@ + dotted(a),
        reserved_name(a) == reserved_name(b) <==> a == b,
{
    if reserved_name(a) == reserved_name(b) {
        let n = "reserved:"@.len() as int;
        assert(reserved_name(a).skip(n) =~= dotted(a));
        assert(reserved_name(b).skip(n) =~= dotted(b));
        law_dotted_is_unique(a, b);
    }
}

/// A subnet that begins on a multiple of its size is a slot of the pool if and only if every
/// address of it lies in the pool; one that begins between such multiples is none.
pub proof fn law_slots_of_a_pool(pool: Ipv4Net, prefix: u8, addr: int)
    requires
        pool.wf(),
        pool.prefix_len <= prefix <= 32,
        addr % (block_size(prefix) as int) == 0,
    ensures
        is_slot_of(pool, prefix, addr) <==> pool.network_spec() <= addr && addr + block_size(prefix)
            <= pool.network_spec() + block_size(pool.prefix_len),
        !is_slot_of(pool, prefix, addr + 1) || block_size(prefix) == 1,
{
    lemma_network_bounds(pool);
    let b = block_size(prefix) as int;
    lemma_pow2_pos((32 - prefix) as nat);
    if b > 1 {
        assert((addr + 1) % b == 1) by {
            vstd::arithmetic::div_mod::lemma_small_mod(1, b as nat);
            vstd::arithmetic::div_mod::lemma_add_mod_noop(addr, 1, b);
        }
    }
}

} // verus!
