//! What holds of the bridge network as a whole.

use crate::allocator::{
    held_by_other, host_allocated, is_held, is_host_of, is_slot_of, keys_unique,
    lemma_no_multiple_between, reserved_name, slot_allocated,
};
use crate::ipv4::{
    block_size, cidr_notation, dotted, law_dotted_is_unique, lemma_network_bounds, Ipv4Net,
};
use crate::network_actor::{
    address_claimed, address_released, address_reserved, attach_restored, attach_step,
    attach_undone, attaches_applied, bridge_destroyed, container_ip_allocated, is_network_over,
    is_restore_entry, is_restore_plan, may_claim_subnet, reserves_applied, AttachAction,
    AttachError, AttachEvent, AttachFlow, BridgeView, FoundNetns, MasterLookup, NetView,
    NetworkActor, NetworkError, RestoreEntry,
};
use crate::text::optional_text;
use vstd::arithmetic::power2::{lemma2_to64, lemma_pow2_strictly_increases};
use vstd::prelude::*;

verus! {

/// The name of a bridge of the daemon's.
pub open spec fn is_bridge_name(br: Seq<char>) -> bool {
    "ssb-"@.is_prefix_of(br)
}

/// A bridge holds the slot that its subnet is, its addresses are hosts of that subnet, and
/// no two of its interfaces share one.
pub open spec fn is_sound_bridge(n: NetView, br: Seq<char>) -> bool {
    let b = n.bridges[br];
    &&& is_bridge_name(br)
    &&& b.subnet.prefix_len == n.prefix
    &&& n.slots.dom().contains(br)
    &&& n.slots[br] == b.subnet.network_spec()
    &&& keys_unique(b.held)
    &&& forall|veth: Seq<char>| #[trigger]
        b.held.dom().contains(veth) ==> is_host_of(b.subnet, b.held[veth] as int)
}

/// No two hold the same slot, slots lie on the grid of their size, a slot that is put aside
/// is held under its own name, and each bridge is sound.
pub open spec fn is_sound(n: NetView) -> bool {
    &&& n.prefix <= 32
    &&& keys_unique(n.slots)
    &&& forall|k: Seq<char>| #[trigger]
        n.slots.dom().contains(k) ==> n.slots[k] as int % (block_size(n.prefix) as int) == 0
    &&& forall|slot: u32| #[trigger]
        n.slots.dom().contains(reserved_name(slot)) ==> n.slots[reserved_name(slot)] == slot
    &&& forall|br: Seq<char>| #[trigger] n.bridges.dom().contains(br) ==> is_sound_bridge(n, br)
}

/// A network without bridges and slots is sound.
pub proof fn law_new_network_is_sound(n: NetView)
    requires
        n.prefix <= 32,
        n.slots == Map::<Seq<char>, u32>::empty(),
        n.bridges == Map::<Seq<char>, BridgeView>::empty(),
    ensures
        is_sound(n),
{
}

/// Slots on the grid that have an address in common are the same.
proof fn lemma_slots_apart(prefix: u8, x: int, y: int, addr: int)
    requires
        prefix <= 32,
        x % (block_size(prefix) as int) == 0,
        y % (block_size(prefix) as int) == 0,
        x <= addr < x + block_size(prefix),
        y <= addr < y + block_size(prefix),
    ensures
        x == y,
{
    lemma_network_bounds(Ipv4Net { addr: 0, prefix_len: prefix });
    let step = block_size(prefix) as int;
    if x < y {
        lemma_no_multiple_between(y, x, step);
    } else if y < x {
        lemma_no_multiple_between(x, y, step);
    }
}

/// No two interfaces share an address, on whatever bridges they are.
pub proof fn law_no_two_interfaces_share_an_address(
    n: NetView,
    br_a: Seq<char>,
    a: Seq<char>,
    br_b: Seq<char>,
    b: Seq<char>,
)
    requires
        is_sound(n),
        n.bridges.dom().contains(br_a),
        n.bridges[br_a].held.dom().contains(a),
        n.bridges.dom().contains(br_b),
        n.bridges[br_b].held.dom().contains(b),
        (br_a, a) != (br_b, b),
    ensures
        n.bridges[br_a].held[a] != n.bridges[br_b].held[b],
{
    assert(is_sound_bridge(n, br_a) && is_sound_bridge(n, br_b));
    let x = n.bridges[br_a].held[a];
    let y = n.bridges[br_b].held[b];
    if x == y && br_a != br_b {
        lemma_slots_apart(n.prefix, n.slots[br_a] as int, n.slots[br_b] as int, x as int);
    }
}

/// An address in a slot that is put aside, or that another bridge holds, is not given out:
/// no interface on the bridge has it.
pub proof fn law_set_aside_is_never_issued(
    n: NetView,
    holder: Seq<char>,
    ip: u32,
    br: Seq<char>,
    veth: Seq<char>,
)
    requires
        is_sound(n),
        n.slots.dom().contains(holder),
        n.slots[holder] <= ip < n.slots[holder] + block_size(n.prefix),
        holder != br,
        n.bridges.dom().contains(br),
        n.bridges[br].held.dom().contains(veth),
    ensures
        n.bridges[br].held[veth] != ip,
{
    assert(is_sound_bridge(n, br));
    if n.bridges[br].held[veth] == ip {
        lemma_slots_apart(n.prefix, n.slots[holder] as int, n.slots[br] as int, ip as int);
    }
}

/// A host that was free may be given out.
proof fn lemma_host_allocated(
    subnet: Ipv4Net,
    before: Map<Seq<char>, u32>,
    id: Seq<char>,
    got: Option<u32>,
    after: Map<Seq<char>, u32>,
)
    requires
        host_allocated(subnet, before, id, got, after),
        keys_unique(before),
        forall|v: Seq<char>| #[trigger]
            before.dom().contains(v) ==> is_host_of(subnet, before[v] as int),
    ensures
        keys_unique(after),
        forall|v: Seq<char>| #[trigger]
            after.dom().contains(v) ==> is_host_of(subnet, after[v] as int),
{
    if !before.dom().contains(id) && got is Some {
        assert forall|a: Seq<char>, b: Seq<char>|
            #![trigger after[a], after[b]]
            after.dom().contains(a) && after.dom().contains(b) && after[a] == after[b] implies a
            == b by {
            if a != id && b == id {
                assert(before.dom().contains(a) && before[a] == got->0);
                assert(is_held(before, got->0 as int));
            }
            if b != id && a == id {
                assert(before.dom().contains(b) && before[b] == got->0);
                assert(is_held(before, got->0 as int));
            }
            if a != id && b != id {
                assert(before[a] == before[b]);
            }
        }
    }
}

/// Attaching an interface keeps the network sound.
pub proof fn law_attach_keeps_sound(
    before: NetView,
    br: Seq<char>,
    veth: Seq<char>,
    r: Result<(Ipv4Net, u32), AttachError>,
    after: NetView,
)
    requires
        is_sound(before),
        is_bridge_name(br),
        container_ip_allocated(before, br, veth, r, after),
    ensures
        is_sound(after),
{
    if before.bridges.dom().contains(br) {
        assert(is_sound_bridge(before, br));
        let b = before.bridges[br];
        let got = match r {
            Ok(g) => Some(g.1),
            Err(_) => None,
        };
        lemma_host_allocated(b.subnet, b.held, veth, got, after.bridges[br].held);
        assert forall|x: Seq<char>| #[trigger] after.bridges.dom().contains(x) implies is_sound_bridge(
            after,
            x,
        ) by {
            assert(before.bridges.dom().contains(x));
            assert(is_sound_bridge(before, x));
        }
    } else if after != before {
        lemma_no_reserved_bridge(br);
        let b = after.bridges[br];
        let got = match r {
            Ok(g) => Some(g.1),
            Err(_) => None,
        };
        lemma_host_allocated(b.subnet, Map::empty(), veth, got, b.held);
        let step = block_size(before.prefix) as int;
        assert(b.subnet.addr as int % step == 0);
        assert(b.subnet.network_spec() == b.subnet.addr);
        assert(after.slots.dom().contains(br) && after.slots[br] == b.subnet.addr);
        assert(keys_unique(after.slots)) by {
            assert forall|p: Seq<char>, q: Seq<char>|
                #![trigger after.slots[p], after.slots[q]]
                after.slots.dom().contains(p) && after.slots.dom().contains(q) && after.slots[p]
                    == after.slots[q] implies p == q by {
                if !before.slots.dom().contains(br) {
                    if p != br && q == br {
                        assert(before.slots.dom().contains(p));
                        assert(is_held(before.slots, after.slots[br] as int));
                    }
                    if q != br && p == br {
                        assert(before.slots.dom().contains(q));
                        assert(is_held(before.slots, after.slots[br] as int));
                    }
                    if p != br && q != br {
                        assert(before.slots[p] == before.slots[q]);
                    }
                } else {
                    assert(before.slots[p] == before.slots[q]);
                }
            }
        }
        assert forall|x: Seq<char>| #[trigger] after.bridges.dom().contains(x) implies is_sound_bridge(
            after,
            x,
        ) by {
            if x != br {
                assert(before.bridges.dom().contains(x));
                assert(is_sound_bridge(before, x));
            }
        }
    }
}

proof fn lemma_released(n: NetView, br: Seq<char>, veth: Seq<char>)
    requires
        is_sound(n),
    ensures
        is_sound(address_released(n, br, veth)),
{
    let m = address_released(n, br, veth);
    assert forall|x: Seq<char>| #[trigger] m.bridges.dom().contains(x) implies is_sound_bridge(
        m,
        x,
    ) by {
        assert(n.bridges.dom().contains(x));
        assert(is_sound_bridge(n, x));
        if x == br {
            let (held, left) = (n.bridges[x].held, m.bridges[x].held);
            assert forall|a: Seq<char>, b: Seq<char>|
                #![trigger left[a], left[b]]
                left.dom().contains(a) && left.dom().contains(b) && left[a] == left[b] implies a
                == b by {
                assert(held[a] == held[b]);
            }
        }
    }
}

/// Detaching an interface, with or without its bridge, keeps the network sound.
pub proof fn law_detach_keeps_sound(n: NetView, br: Seq<char>, veth: Seq<char>, has_slaves: bool)
    requires
        is_sound(n),
    ensures
        is_sound(address_released(n, br, veth)),
        is_sound(bridge_destroyed(n, br, has_slaves)),
        is_sound(attach_undone(n, br, veth, has_slaves)),
{
    lemma_released(n, br, veth);
    lemma_destroyed(n, br, has_slaves);
    lemma_destroyed(address_released(n, br, veth), br, has_slaves);
}

proof fn lemma_destroyed(n: NetView, br: Seq<char>, has_slaves: bool)
    requires
        is_sound(n),
    ensures
        is_sound(bridge_destroyed(n, br, has_slaves)),
{
    let m = bridge_destroyed(n, br, has_slaves);
    assert(keys_unique(m.slots)) by {
        assert forall|a: Seq<char>, b: Seq<char>|
            #![trigger m.slots[a], m.slots[b]]
            m.slots.dom().contains(a) && m.slots.dom().contains(b) && m.slots[a]
                == m.slots[b] implies a == b by {
            assert(n.slots[a] == n.slots[b]);
        }
    }
    assert forall|x: Seq<char>| #[trigger] m.bridges.dom().contains(x) implies is_sound_bridge(
        m,
        x,
    ) by {
        assert(n.bridges.dom().contains(x));
        assert(is_sound_bridge(n, x));
    }
}

/// A claim on an address keeps a bridge's addresses unique and hosts.
proof fn lemma_claimed(b: BridgeView, veth: Seq<char>, ip: u32)
    requires
        keys_unique(b.held),
        forall|v: Seq<char>| #[trigger]
            b.held.dom().contains(v) ==> is_host_of(b.subnet, b.held[v] as int),
    ensures
        ({
            let c = address_claimed(b, veth, ip);
            &&& c.subnet == b.subnet
            &&& keys_unique(c.held)
            &&& forall|v: Seq<char>| #[trigger]
                c.held.dom().contains(v) ==> is_host_of(c.subnet, c.held[v] as int)
        }),
{
    let c = address_claimed(b, veth, ip);
    if c.held != b.held {
        assert forall|p: Seq<char>, q: Seq<char>|
            #![trigger c.held[p], c.held[q]]
            c.held.dom().contains(p) && c.held.dom().contains(q) && c.held[p] == c.held[q] implies p
            == q by {
            if p != veth && q != veth {
                assert(b.held[p] == b.held[q]);
            }
            if p != veth && q == veth {
                assert(b.held.dom().contains(p));
            }
            if q != veth && p == veth {
                assert(b.held.dom().contains(q));
            }
        }
    }
}

/// A slot that nobody else holds may be taken.
proof fn lemma_slot_taken(slots: Map<Seq<char>, u32>, k: Seq<char>, slot: u32)
    requires
        keys_unique(slots),
        !crate::allocator::held_by_other(slots, k, slot as int),
    ensures
        keys_unique(slots.insert(k, slot)),
{
    let after = slots.insert(k, slot);
    assert forall|p: Seq<char>, q: Seq<char>|
        #![trigger after[p], after[q]]
        after.dom().contains(p) && after.dom().contains(q) && after[p] == after[q] implies p
        == q by {
        if p != k && q != k {
            assert(slots[p] == slots[q]);
        }
        if p != k && q == k {
            assert(slots.dom().contains(p));
        }
        if q != k && p == k {
            assert(slots.dom().contains(q));
        }
    }
}

/// Recognising a live container keeps the network sound, unless its bridge is known with
/// another subnet.
pub proof fn law_restored_attach_keeps_sound(
    n: NetView,
    br: Seq<char>,
    subnet: Ipv4Net,
    veth: Seq<char>,
    ip: u32,
)
    requires
        is_sound(n),
        is_bridge_name(br),
        n.bridges.dom().contains(br) ==> n.bridges[br].subnet.network_spec()
            == subnet.network_spec(),
    ensures
        is_sound(attach_restored(n, br, subnet, veth, ip)),
{
    if may_claim_subnet(n, br, subnet) {
        let m = attach_restored(n, br, subnet, veth, ip);
        lemma_network_bounds(subnet);
        lemma_slot_taken(n.slots, br, subnet.network_spec() as u32);
        lemma_no_reserved_bridge(br);
        let b = if n.bridges.dom().contains(br) {
            assert(is_sound_bridge(n, br));
            n.bridges[br]
        } else {
            BridgeView { subnet, held: Map::empty() }
        };
        lemma_claimed(b, veth, ip);
        assert forall|x: Seq<char>| #[trigger] m.bridges.dom().contains(x) implies is_sound_bridge(
            m,
            x,
        ) by {
            if x != br {
                assert(n.bridges.dom().contains(x));
                assert(is_sound_bridge(n, x));
            }
        }
    }
}

/// The name of a slot that is put aside is no bridge's, and no other slot's.
proof fn lemma_reserved_name(slot: u32)
    ensures
        !is_bridge_name(reserved_name(slot)),
        forall|other: u32| #[trigger] reserved_name(other) == reserved_name(slot) ==> other == slot,
{
    reveal_strlit("ssb-");
    reveal_strlit("reserved:");
    assert("ssb-"@.len() == 4 && "ssb-"@[0] == 's');
    assert(reserved_name(slot)[0] == 'r');
    if is_bridge_name(reserved_name(slot)) {
        assert("ssb-"@[0] == reserved_name(slot).subrange(0, 4)[0]);
    }
    assert forall|other: u32| #[trigger]
        reserved_name(other) == reserved_name(slot) implies other == slot by {
        let n = "reserved:"@.len() as int;
        assert(reserved_name(other).skip(n) =~= dotted(other));
        assert(reserved_name(slot).skip(n) =~= dotted(slot));
        law_dotted_is_unique(other, slot);
    }
}

proof fn lemma_no_reserved_bridge(br: Seq<char>)
    requires
        is_bridge_name(br),
    ensures
        forall|slot: u32| #[trigger] reserved_name(slot) != br,
{
    assert forall|slot: u32| #[trigger] reserved_name(slot) != br by {
        lemma_reserved_name(slot);
    }
}

/// Putting an address aside takes nothing away: every slot stays held as it was, and so
/// does every address of every other interface.
pub proof fn law_reserve_keeps_others(
    n: NetView,
    ip: u32,
    veth: Seq<char>,
    master: Option<Seq<char>>,
    br: Seq<char>,
    id: Seq<char>,
)
    requires
        is_sound(n),
    ensures
        n.slots.dom().contains(br) ==> address_reserved(n, ip, veth, master).slots.dom().contains(
            br,
        ) && address_reserved(n, ip, veth, master).slots[br] == n.slots[br],
        n.bridges.dom().contains(br) && n.bridges[br].held.dom().contains(id) && id != veth ==> {
            let after = address_reserved(n, ip, veth, master);
            &&& after.bridges.dom().contains(br)
            &&& after.bridges[br].held.dom().contains(id)
            &&& after.bridges[br].held[id] == n.bridges[br].held[id]
        },
{
}

/// Putting an address aside keeps the network sound.
pub proof fn law_reserve_keeps_sound(n: NetView, ip: u32, veth: Seq<char>, master: Option<Seq<char>>)
    requires
        is_sound(n),
    ensures
        is_sound(address_reserved(n, ip, veth, master)),
{
    let m = address_reserved(n, ip, veth, master);
    if master is Some && n.bridges.dom().contains(master->0) {
        let br = master->0;
        assert(is_sound_bridge(n, br));
        lemma_claimed(n.bridges[br], veth, ip);
        assert forall|x: Seq<char>| #[trigger] m.bridges.dom().contains(x) implies is_sound_bridge(
            m,
            x,
        ) by {
            assert(n.bridges.dom().contains(x));
            assert(is_sound_bridge(n, x));
        }
    } else {
        let net = Ipv4Net { addr: ip, prefix_len: n.prefix };
        lemma_network_bounds(net);
        let slot = net.network_spec() as u32;
        lemma_reserved_name(slot);
        if m.slots != n.slots {
            lemma_slot_taken(n.slots, reserved_name(slot), slot);
        }
        assert forall|x: Seq<char>| #[trigger] m.bridges.dom().contains(x) implies is_sound_bridge(
            m,
            x,
        ) by {
            assert(is_sound_bridge(n, x));
        }
    }
}

/// The bridge and the subnet that an entry of a plan names, where it is a container that
/// was recognised.
pub open spec fn names_subnet(entry: RestoreEntry, br: Seq<char>, network: int) -> bool {
    entry matches RestoreEntry::Attach(a) && a.br@ == br && a.subnet.network_spec() == network
}

/// A plan tells of the daemon's bridges only, and of no bridge two different subnets.
pub open spec fn is_consistent_plan(n: NetView, plan: Seq<RestoreEntry>) -> bool {
    &&& forall|i: int|
        0 <= i < plan.len() ==> ((#[trigger] plan[i]) matches RestoreEntry::Attach(a) ==> {
            &&& is_bridge_name(a.br@)
            &&& n.bridges.dom().contains(a.br@) ==> n.bridges[a.br@].subnet.network_spec()
                == a.subnet.network_spec()
        })
    &&& forall|i: int, j: int, br: Seq<char>, x: int, y: int|
        0 <= i < plan.len() && 0 <= j < plan.len() && #[trigger] names_subnet(plan[i], br, x)
            && #[trigger] names_subnet(plan[j], br, y) ==> x == y
}

proof fn lemma_attaches_sound(n: NetView, plan: Seq<RestoreEntry>, k: int)
    requires
        is_sound(n),
        is_consistent_plan(n, plan),
        0 <= k <= plan.len(),
    ensures
        is_sound(attaches_applied(n, plan.take(k))),
        forall|br: Seq<char>| #[trigger]
            attaches_applied(n, plan.take(k)).bridges.dom().contains(br) ==> {
                let network = attaches_applied(n, plan.take(k)).bridges[br].subnet.network_spec();
                ||| n.bridges.dom().contains(br) && n.bridges[br].subnet.network_spec() == network
                ||| exists|i: int| 0 <= i < k && #[trigger] names_subnet(plan[i], br, network)
            },
    decreases k,
{
    if k > 0 {
        lemma_attaches_sound(n, plan, k - 1);
        let upto = plan.take(k);
        assert(upto.drop_last() =~= plan.take(k - 1));
        assert(upto.last() == plan[k - 1]);
        let m = attaches_applied(n, plan.take(k - 1));
        if let RestoreEntry::Attach(a) = plan[k - 1] {
            let network = a.subnet.network_spec();
            assert(names_subnet(plan[k - 1], a.br@, network));
            if m.bridges.dom().contains(a.br@) {
                let known = m.bridges[a.br@].subnet.network_spec();
                if !(n.bridges.dom().contains(a.br@) && n.bridges[a.br@].subnet.network_spec()
                    == known) {
                    let i = choose|i: int|
                        0 <= i < k - 1 && #[trigger] names_subnet(plan[i], a.br@, known);
                    assert(names_subnet(plan[i], a.br@, known));
                }
                assert(known == network);
            }
            law_restored_attach_keeps_sound(m, a.br@, a.subnet, a.veth@, a.ip);
            let after = attach_restored(m, a.br@, a.subnet, a.veth@, a.ip);
            assert(after == attaches_applied(n, upto));
            assert forall|br: Seq<char>| #[trigger] after.bridges.dom().contains(br) implies ({
                let x = after.bridges[br].subnet.network_spec();
                ||| n.bridges.dom().contains(br) && n.bridges[br].subnet.network_spec() == x
                ||| exists|i: int| 0 <= i < k && #[trigger] names_subnet(plan[i], br, x)
            }) by {
                let x = after.bridges[br].subnet.network_spec();
                if br == a.br@ && may_claim_subnet(m, br, a.subnet) {
                    assert(x == network);
                    assert(names_subnet(plan[k - 1], br, x));
                } else {
                    assert(m.bridges.dom().contains(br) && m.bridges[br] == after.bridges[br]);
                    if !(n.bridges.dom().contains(br) && n.bridges[br].subnet.network_spec() == x) {
                        let i = choose|i: int|
                            0 <= i < k - 1 && #[trigger] names_subnet(plan[i], br, x);
                        assert(names_subnet(plan[i], br, x));
                    }
                }
            }
        } else {
            assert forall|br: Seq<char>| #[trigger] m.bridges.dom().contains(br) implies ({
                let x = m.bridges[br].subnet.network_spec();
                ||| n.bridges.dom().contains(br) && n.bridges[br].subnet.network_spec() == x
                ||| exists|i: int| 0 <= i < k && #[trigger] names_subnet(plan[i], br, x)
            }) by {
                let x = m.bridges[br].subnet.network_spec();
                if !(n.bridges.dom().contains(br) && n.bridges[br].subnet.network_spec() == x) {
                    let i = choose|i: int| 0 <= i < k - 1 && #[trigger] names_subnet(plan[i], br, x);
                    assert(names_subnet(plan[i], br, x));
                }
            }
        }
    } else {
        assert(plan.take(0) =~= Seq::empty());
    }
}

proof fn lemma_reserves_sound(n: NetView, plan: Seq<RestoreEntry>)
    requires
        is_sound(n),
    ensures
        is_sound(reserves_applied(n, plan)),
    decreases plan.len(),
{
    if plan.len() > 0 {
        lemma_reserves_sound(n, plan.drop_last());
        if let RestoreEntry::ReserveIp { ip, veth, master } = plan.last() {
            law_reserve_keeps_sound(
                reserves_applied(n, plan.drop_last()),
                ip,
                veth@,
                optional_text(master),
            );
        }
    }
}

/// What a scan of the host finds is taken over into a sound network, so that no address of
/// a live container is given out again.
pub proof fn law_restore_keeps_sound(n: NetView, plan: Seq<RestoreEntry>)
    requires
        is_sound(n),
        is_consistent_plan(n, plan),
    ensures
        is_sound(reserves_applied(attaches_applied(n, plan), plan)),
{
    lemma_attaches_sound(n, plan, plan.len() as int);
    assert(plan.take(plan.len() as int) =~= plan);
    lemma_reserves_sound(attaches_applied(n, plan), plan);
}

/// A container that outlived the daemon keeps its exact address: where its subnet and its
/// address may be claimed, they are, and attaching it again gives the same.
pub proof fn law_restored_address_is_kept(
    n: NetView,
    br: Seq<char>,
    subnet: Ipv4Net,
    veth: Seq<char>,
    ip: u32,
    r: Result<(Ipv4Net, u32), AttachError>,
    after: NetView,
)
    requires
        may_claim_subnet(n, br, subnet),
        !n.bridges.dom().contains(br),
        is_host_of(subnet, ip as int),
        container_ip_allocated(attach_restored(n, br, subnet, veth, ip), br, veth, r, after),
    ensures
        r == Ok::<(Ipv4Net, u32), AttachError>((subnet, ip)),
        after.bridges[br].held == Map::<Seq<char>, u32>::empty().insert(veth, ip),
{
    let m = attach_restored(n, br, subnet, veth, ip);
    assert(m.bridges.dom().contains(br));
    assert(m.bridges[br].held.dom().contains(veth) && m.bridges[br].held[veth] == ip);
}

/// Whatever becomes of an attach, each step of it leaves the network sound.
pub proof fn law_attach_steps_keep_sound(
    n: NetView,
    f: AttachFlow,
    event: AttachEvent,
    n2: NetView,
    f2: AttachFlow,
)
    requires
        is_sound(n),
        is_bridge_name(f.br@),
        attach_step(n, f, event, n2, f2),
    ensures
        is_sound(n2),
        is_bridge_name(f2.br@),
{
    match (f.action, event) {
        (AttachAction::ResolveNetns, AttachEvent::NetnsResolved(is_text)) => if is_text {
            match f2.action {
                AttachAction::RunSetup { subnet, ip, .. } => {
                    law_attach_keeps_sound(n, f.br@, f.veth@, Ok((subnet, ip)), n2);
                },
                AttachAction::CheckSlaves => {
                    law_attach_keeps_sound(n, f.br@, f.veth@, Err(f2.failure), n2);
                },
                AttachAction::Finish(Err(e)) => {
                    law_attach_keeps_sound(n, f.br@, f.veth@, Err(e), n2);
                },
                _ => {},
            }
        },
        (AttachAction::DeleteHalfVeth, AttachEvent::HalfVethDeleted(has_slaves)) => {
            law_detach_keeps_sound(n, f.br@, f.veth@, has_slaves);
        },
        (AttachAction::CheckSlaves, AttachEvent::Slaves(has_slaves)) => {
            law_detach_keeps_sound(n, f.br@, f.veth@, has_slaves);
        },
        _ => {},
    }
}

/// A bridge that was made for an attach which then found no address on it leaves nothing
/// behind: once it is destroyed, the network is as it was.
pub proof fn law_failed_attach_leaves_nothing(
    before: NetView,
    br: Seq<char>,
    veth: Seq<char>,
    after: NetView,
)
    requires
        !before.slots.dom().contains(br),
        container_ip_allocated(
            before,
            br,
            veth,
            Err(AttachError::NoAddress { created: true }),
            after,
        ),
    ensures
        bridge_destroyed(after, br, false) == before,
{
    assert(after.slots.remove(br) =~= before.slots);
    assert(after.bridges.remove(br) =~= before.bridges);
}

/// Undoing an attach leaves the network as it was: the address of an interface that had
/// none before is free again, and a bridge that was made for it is gone with its slot.
pub proof fn law_undone_attach_leaves_nothing(
    before: NetView,
    br: Seq<char>,
    veth: Seq<char>,
    got: (Ipv4Net, u32),
    after: NetView,
)
    requires
        container_ip_allocated(before, br, veth, Ok(got), after),
        if before.bridges.dom().contains(br) {
            !before.bridges[br].held.dom().contains(veth)
        } else {
            !before.slots.dom().contains(br)
        },
    ensures
        before.bridges.dom().contains(br) ==> address_released(after, br, veth) == before,
        !before.bridges.dom().contains(br) ==> attach_undone(after, br, veth, false) == before,
{
    let m = address_released(after, br, veth);
    if before.bridges.dom().contains(br) {
        assert(m.bridges[br].held =~= before.bridges[br].held);
        assert(m.bridges =~= before.bridges);
    } else {
        assert(m.bridges[br].held =~= Map::<Seq<char>, u32>::empty());
        assert(bridge_destroyed(m, br, false).slots =~= before.slots);
        assert(bridge_destroyed(m, br, false).bridges =~= before.bridges);
    }
}

/// Attaching is idempotent: where interface and namespace are live and their address is
/// known, it ends at once and changes nothing.
pub proof fn law_live_attach_changes_nothing(
    n: NetView,
    f: AttachFlow,
    n2: NetView,
    f2: AttachFlow,
)
    requires
        f.action == AttachAction::CheckLive,
        n.bridges.dom().contains(f.br@),
        n.bridges[f.br@].held.dom().contains(f.veth@),
        attach_step(n, f, AttachEvent::Live(true), n2, f2),
    ensures
        n2 == n,
        f2.action == AttachAction::Finish(Ok(())),
{
}

/// The containers that a plan recognises, in order.
pub open spec fn attaches_of(plan: Seq<RestoreEntry>) -> Seq<RestoreEntry>
    decreases plan.len(),
{
    if plan.len() == 0 {
        Seq::empty()
    } else if plan.last() is Attach {
        attaches_of(plan.drop_last()).push(plan.last())
    } else {
        attaches_of(plan.drop_last())
    }
}

/// The addresses that a plan merely puts aside, in order.
pub open spec fn reserves_of(plan: Seq<RestoreEntry>) -> Seq<RestoreEntry>
    decreases plan.len(),
{
    if plan.len() == 0 {
        Seq::empty()
    } else if plan.last() is ReserveIp {
        reserves_of(plan.drop_last()).push(plan.last())
    } else {
        reserves_of(plan.drop_last())
    }
}

proof fn lemma_parts(n: NetView, plan: Seq<RestoreEntry>)
    ensures
        attaches_applied(n, plan) == attaches_applied(n, attaches_of(plan)),
        reserves_applied(n, plan) == reserves_applied(n, reserves_of(plan)),
    decreases plan.len(),
{
    if plan.len() > 0 {
        lemma_parts(n, plan.drop_last());
        if plan.last() is Attach {
            assert(attaches_of(plan).drop_last() =~= attaches_of(plan.drop_last()));
        } else {
            assert(reserves_of(plan).drop_last() =~= reserves_of(plan.drop_last()));
        }
    }
}

/// The recognised containers of a plan are taken over before any address is put aside,
/// however the scan came upon them.
pub proof fn law_attaches_come_first(n: NetView, plan: Seq<RestoreEntry>)
    ensures
        reserves_applied(attaches_applied(n, plan), plan) == reserves_applied(
            attaches_applied(n, attaches_of(plan)),
            reserves_of(plan),
        ),
{
    lemma_parts(n, plan);
    lemma_parts(attaches_applied(n, plan), plan);
}

/// The address that is given out is a host of the subnet that was free, and the lowest of
/// those: every host below it is in use. It is then the asker's, and no other's changes.
pub proof fn law_lowest_free_address_is_given(
    subnet: Ipv4Net,
    before: Map<Seq<char>, u32>,
    id: Seq<char>,
    ip: u32,
    after: Map<Seq<char>, u32>,
    lower: u32,
    other: Seq<char>,
)
    requires
        !before.dom().contains(id),
        host_allocated(subnet, before, id, Some(ip), after),
    ensures
        subnet.network_spec() < ip < subnet.network_spec() + block_size(subnet.prefix_len) - 1,
        forall|o: Seq<char>| #[trigger] before.dom().contains(o) ==> before[o] != ip,
        subnet.network_spec() < lower < ip ==> exists|o: Seq<char>| #[trigger]
            before.dom().contains(o) && before[o] == lower,
        after.dom().contains(id),
        after[id] == ip,
        other != id ==> after.dom().contains(other) == before.dom().contains(other),
        other != id && before.dom().contains(other) ==> after[other] == before[other],
{
    assert(!is_held(before, ip as int));
    assert forall|o: Seq<char>| #[trigger] before.dom().contains(o) implies before[o] != ip by {
        if before[o] == ip {
            assert(is_held(before, ip as int));
        }
    }
    if subnet.network_spec() < lower < ip {
        assert(is_host_of(subnet, lower as int));
        assert(is_held(before, lower as int));
    }
}

/// On a bridge that nobody is on, the first address behind that of the network is given out,
/// unless the subnet has no host at all.
pub proof fn law_first_address_is_given(
    subnet: Ipv4Net,
    id: Seq<char>,
    got: Option<u32>,
    after: Map<Seq<char>, u32>,
)
    requires
        subnet.wf(),
        host_allocated(subnet, Map::empty(), id, got, after),
    ensures
        subnet.prefix_len <= 30 ==> got is Some && got->0 == subnet.network_spec() + 1,
        subnet.prefix_len > 30 ==> got is None,
{
    let none = Map::<Seq<char>, u32>::empty();
    assert forall|c: int| !#[trigger] is_held(none, c) by {}
    lemma_network_bounds(subnet);
    lemma2_to64();
    if subnet.prefix_len <= 30 {
        if subnet.prefix_len < 30 {
            lemma_pow2_strictly_increases(
                2,
                (32 - subnet.prefix_len) as nat,
            );
        }
        assert(block_size(subnet.prefix_len) >= 4);
        assert(is_host_of(subnet, subnet.network_spec() + 1));
        assert(!is_held(none, subnet.network_spec() + 1));
    } else {
        assert(block_size(subnet.prefix_len) <= 2);
    }
}

/// No address is refused while a host of the subnet is free.
pub proof fn law_refused_only_where_full(
    subnet: Ipv4Net,
    before: Map<Seq<char>, u32>,
    id: Seq<char>,
    after: Map<Seq<char>, u32>,
    host: u32,
)
    requires
        host_allocated(subnet, before, id, None, after),
        subnet.network_spec() < host < subnet.network_spec() + block_size(subnet.prefix_len) - 1,
    ensures
        exists|o: Seq<char>| #[trigger] before.dom().contains(o) && before[o] == host,
        after == before,
{
    assert(is_host_of(subnet, host as int));
    assert(is_held(before, host as int));
}

/// A new bridge gets the lowest free slot of the pool: it lies in the pool with all of its
/// addresses, on the grid of its size, and every slot below it is taken.
pub proof fn law_lowest_free_slot_is_given(
    pool: Ipv4Net,
    prefix: u8,
    before: Map<Seq<char>, u32>,
    bridge: Seq<char>,
    slot: u32,
    after: Map<Seq<char>, u32>,
    lower: u32,
)
    requires
        !before.dom().contains(bridge),
        slot_allocated(pool, prefix, before, bridge, Some(slot), after),
    ensures
        pool.network_spec() <= slot,
        slot + block_size(prefix) <= pool.network_spec() + block_size(pool.prefix_len),
        slot as int % block_size(prefix) as int == 0,
        forall|o: Seq<char>| #[trigger] before.dom().contains(o) ==> before[o] != slot,
        pool.network_spec() <= lower < slot && lower as int % block_size(prefix) as int == 0
            ==> exists|o: Seq<char>| #[trigger] before.dom().contains(o) && before[o] == lower,
        after == before.insert(bridge, slot),
{
    assert(!is_held(before, slot as int));
    assert forall|o: Seq<char>| #[trigger] before.dom().contains(o) implies before[o] != slot by {
        if before[o] == slot {
            assert(is_held(before, slot as int));
        }
    }
    if pool.network_spec() <= lower < slot && lower as int % block_size(prefix) as int == 0 {
        assert(is_slot_of(pool, prefix, lower as int));
        assert(is_held(before, lower as int));
    }
}

/// An attach gives out an address on the bridge that was asked for, notes it for the interface
/// that asked, and leaves every other bridge alone.
pub proof fn law_attach_gives_an_address(
    before: NetView,
    br: Seq<char>,
    veth: Seq<char>,
    got: (Ipv4Net, u32),
    after: NetView,
    other: Seq<char>,
)
    requires
        container_ip_allocated(before, br, veth, Ok(got), after),
    ensures
        after.bridges.dom().contains(br),
        after.bridges[br].subnet == got.0,
        after.bridges[br].held.dom().contains(veth),
        after.bridges[br].held[veth] == got.1,
        before.bridges.dom().contains(br) ==> got.0 == before.bridges[br].subnet,
        before.bridges.dom().contains(br) && before.bridges[br].held.dom().contains(veth) ==> got.1
            == before.bridges[br].held[veth],
        !before.bridges.dom().contains(br) ==> got.0.prefix_len == before.prefix
            && after.slots.dom().contains(br) && after.slots[br] == got.0.addr,
        other != br ==> after.bridges.dom().contains(other) == before.bridges.dom().contains(other),
        other != br && before.bridges.dom().contains(other) ==> after.bridges[other]
            == before.bridges[other],
{
}

/// What is wired into the container is what was given out: the interface inside that was asked
/// for, the address that the network has noted for it, on the bridge of the attach.
pub proof fn law_wired_as_given(n: NetView, f: AttachFlow, n2: NetView, f2: AttachFlow)
    requires
        f.action is ResolveNetns,
        attach_step(n, f, AttachEvent::NetnsResolved(true), n2, f2),
        f2.action is RunSetup,
    ensures
        ({
            let options = f2.action->RunSetup_options;
            let ip = f2.action->RunSetup_ip;
            &&& options.container_id@ == f.pkg@
            &&& options.networks@.len() == 1
            &&& options.networks@[0].name@ == f.br@
            &&& options.networks@[0].opts.interface_name@ == f.interface@
            &&& options.networks@[0].opts.static_ips@ == seq![ip]
            &&& n2.bridges.dom().contains(f.br@)
            &&& n2.bridges[f.br@].held.dom().contains(f.veth@)
            &&& n2.bridges[f.br@].held[f.veth@] == ip
            &&& n2.bridges[f.br@].subnet == f2.action->RunSetup_subnet
            &&& options.network_info@[f.br@].subnets@[0].subnet == f2.action->RunSetup_subnet
        }),
{
}

/// How an attach goes when nothing fails: what is left over of the interface is deleted, the
/// namespace is found, the interface is wired, and that is all.
pub proof fn law_attach_when_nothing_fails(n: NetView, f: AttachFlow, n2: NetView, f2: AttachFlow)
    ensures
        f.action is CheckLive && attach_step(n, f, AttachEvent::Live(false), n2, f2) ==> n2 == n
            && f2.action is DeleteStaleVeth,
        f.action is DeleteStaleVeth && attach_step(n, f, AttachEvent::StaleVethDeleted, n2, f2)
            ==> n2 == n && f2.action is ResolveNetns,
        f.action is RunSetup && attach_step(n, f, AttachEvent::SetupDone(true), n2, f2) ==> n2 == n
            && f2.action == AttachAction::Finish(Ok(())),
{
}

/// What follows when wiring fails: what it left is deleted, the address is free again, and the
/// attach ends in that error. A live interface that is not known is an error, and so is a
/// namespace without a path.
pub proof fn law_attach_when_something_fails(
    n: NetView,
    f: AttachFlow,
    has_slaves: bool,
    n2: NetView,
    f2: AttachFlow,
)
    ensures
        f.action is CheckLive && attach_step(n, f, AttachEvent::Live(true), n2, f2)
            && !n.bridges.dom().contains(f.br@) ==> f2.action == AttachAction::Finish(
            Err(AttachError::UntrackedBridge),
        ),
        f.action is ResolveNetns && attach_step(n, f, AttachEvent::NetnsResolved(false), n2, f2)
            ==> n2 == n && f2.action == AttachAction::Finish(Err(AttachError::NetnsPath)),
        f.action is RunSetup && attach_step(n, f, AttachEvent::SetupDone(false), n2, f2)
            ==> f2.action is DeleteHalfVeth && f2.failure == AttachError::SetupFailed,
        f.action is DeleteHalfVeth && attach_step(
            n,
            f,
            AttachEvent::HalfVethDeleted(has_slaves),
            n2,
            f2,
        ) ==> {
            &&& n2.bridges.dom().contains(f.br@) ==> !n2.bridges[f.br@].held.dom().contains(
                f.veth@,
            )
            &&& f2.action is DeleteBridge || f2.action == AttachAction::Finish(Err(f.failure))
            &&& f2.action is DeleteBridge ==> !has_slaves && !n2.bridges.dom().contains(f.br@)
            &&& f2.failure == f.failure
        },
        f.action is CheckSlaves && attach_step(n, f, AttachEvent::Slaves(has_slaves), n2, f2) ==> if has_slaves {
            f2.action == AttachAction::Finish(Err(f.failure)) && n2 == n
        } else {
            f2.action is DeleteBridge && !n2.bridges.dom().contains(f.br@)
                && !n2.slots.dom().contains(f.br@)
        },
        f.action is DeleteBridge && attach_step(n, f, AttachEvent::BridgeDeleted, n2, f2)
            ==> f2.action == AttachAction::Finish(Err(f.failure)),
{
}

/// A bridge goes, with its slot, unless an interface is still on it; no other does.
pub proof fn law_bridge_goes_when_unused(n: NetView, br: Seq<char>, other: Seq<char>)
    ensures
        bridge_destroyed(n, br, true) == n,
        !bridge_destroyed(n, br, false).bridges.dom().contains(br),
        !bridge_destroyed(n, br, false).slots.dom().contains(br),
        other != br ==> bridge_destroyed(n, br, false).bridges.dom().contains(other)
            == n.bridges.dom().contains(other),
        other != br && n.bridges.dom().contains(other) ==> bridge_destroyed(
            n,
            br,
            false,
        ).bridges[other] == n.bridges[other],
        other != br ==> bridge_destroyed(n, br, false).slots.dom().contains(other)
            == n.slots.dom().contains(other),
{
}

/// An interface that goes frees its own address and no other.
pub proof fn law_address_is_freed(n: NetView, br: Seq<char>, veth: Seq<char>, other: Seq<char>)
    requires
        n.bridges.dom().contains(br),
    ensures
        ({
            let m = address_released(n, br, veth);
            &&& m.bridges.dom().contains(br)
            &&& !m.bridges[br].held.dom().contains(veth)
            &&& m.bridges[br].subnet == n.bridges[br].subnet
            &&& other != veth ==> m.bridges[br].held.dom().contains(other)
                == n.bridges[br].held.dom().contains(other)
            &&& other != veth && n.bridges[br].held.dom().contains(other)
                ==> m.bridges[br].held[other] == n.bridges[br].held[other]
            &&& m.slots == n.slots
        }),
{
}

/// What the scan makes of a namespace: one with an address on a bridge of the daemon's is taken
/// over as it is; where the sizes differ, or the bridge cannot be told, its address is only put
/// aside; and what is on no bridge of the daemon's is not the daemon's.
pub proof fn law_what_the_scan_takes_over(
    name: Seq<char>,
    c: Ipv4Net,
    br: String,
    subnet_prefix: u8,
    r: Option<RestoreEntry>,
)
    ensures
        is_restore_entry(
            name,
            None,
            MasterLookup::Found(br),
            subnet_prefix,
            r,
        ) ==> r is None,
        is_restore_entry(
            name,
            Some(c),
            MasterLookup::Absent,
            subnet_prefix,
            r,
        ) ==> r is None,
        is_restore_entry(
            name,
            Some(c),
            MasterLookup::Failed,
            subnet_prefix,
            r,
        ) ==> (r matches Some(RestoreEntry::ReserveIp { ip, veth, master }) && ip == c.addr && veth@
            == name && master is None),
        is_restore_entry(
            name,
            Some(c),
            MasterLookup::Found(br),
            subnet_prefix,
            r,
        ) ==> {
            let ours = "ssb-"@.is_prefix_of(br@);
            &&& r is None <==> !ours
            &&& r matches Some(RestoreEntry::Attach(a)) ==> c.prefix_len == subnet_prefix && a.br@
                == br@ && a.veth@ == name && a.ip == c.addr && a.subnet.addr == c.network_spec()
                && a.subnet.prefix_len == c.prefix_len
            &&& r matches Some(RestoreEntry::ReserveIp { ip, veth, master }) ==> c.prefix_len
                != subnet_prefix && ip == c.addr && veth@ == name && (master matches Some(b) && b@
                == br@)
        },
{
}

/// An address that is put aside is held from then on, if it lies in the pool and was free: by
/// its interface where its bridge is known, and else with the whole slot around it.
pub proof fn law_address_put_aside_is_held(
    n: NetView,
    ip: u32,
    veth: Seq<char>,
    br: Seq<char>,
)
    requires
        is_sound(n),
    ensures
        n.bridges.dom().contains(br) && n.bridges[br].subnet.network_spec() < ip
            < n.bridges[br].subnet.network_spec() + block_size(n.bridges[br].subnet.prefix_len) - 1
            && !held_by_other(n.bridges[br].held, veth, ip as int) ==> {
            let m = address_reserved(n, ip, veth, Some(br));
            m.bridges[br].held.dom().contains(veth) && m.bridges[br].held[veth] == ip
        },
        ({
            let slot = ip - ip as int % block_size(n.prefix) as int;
            let m = address_reserved(n, ip, veth, None);
            is_slot_of(n.pool, n.prefix, slot) && !is_held(n.slots, slot)
                ==> m.slots.dom().contains(reserved_name(slot as u32)) && m.slots[reserved_name(
                slot as u32,
            )] == slot
        }),
{
    let slot = ip - ip as int % block_size(n.prefix) as int;
    lemma_network_bounds(Ipv4Net { addr: ip, prefix_len: n.prefix });
    if is_slot_of(n.pool, n.prefix, slot) && !is_held(n.slots, slot) {
        let name = reserved_name(slot as u32);
        assert(!held_by_other(n.slots, name, slot)) by {
            if held_by_other(n.slots, name, slot) {
                assert(is_held(n.slots, slot));
            }
        }
    }
}

/// A bridge that was made for an attach is either wired or looked at again: an attach that ends
/// at once with an error leaves the bridges that there were.
pub proof fn law_new_bridge_is_not_left(n: NetView, f: AttachFlow, n2: NetView, f2: AttachFlow)
    requires
        f.action is ResolveNetns,
        attach_step(n, f, AttachEvent::NetnsResolved(true), n2, f2),
    ensures
        f2.action is RunSetup || f2.action is CheckSlaves || f2.action is Finish,
        f2.action is Finish ==> n2.bridges.dom().contains(f.br@) == n.bridges.dom().contains(f.br@),
        f2.action is CheckSlaves ==> {
            &&& !n.bridges.dom().contains(f.br@)
            &&& n2.bridges.dom().contains(f.br@)
            &&& f2.failure == AttachError::NoAddress { created: true }
        },
        f2.action is RunSetup ==> n2.bridges.dom().contains(f.br@)
            && n2.bridges[f.br@].held.dom().contains(f.veth@),
{
}

/// Each namespace of the daemon's that has an address and lies on one of its bridges, or on a
/// link that could not be asked for, has one entry in the plan, in the order of the namespaces;
/// no other has.
pub proof fn law_namespaces_in_the_plan(
    found: Seq<FoundNetns>,
    last: FoundNetns,
    subnet_prefix: u8,
    plan: Seq<RestoreEntry>,
)
    requires
        is_restore_plan(found.push(last), subnet_prefix, plan),
    ensures
        ({
            let ours = last.name is Some && "ssam-"@.is_prefix_of(last.name->0@);
            let placed = last.container is Some && last.container->0 is Some;
            let on_bridge = last.master is Failed || (last.master matches MasterLookup::Found(br)
                && "ssb-"@.is_prefix_of(br@));
            if ours && placed && on_bridge {
                &&& plan.len() > 0
                &&& is_restore_plan(found, subnet_prefix, plan.drop_last())
                &&& plan.last() matches RestoreEntry::Attach(a) ==> a.veth@ == last.name->0@ && a.ip
                    == (last.container->0->0).addr
                &&& plan.last() matches RestoreEntry::ReserveIp { ip, veth, master } ==> veth@
                    == last.name->0@ && ip == (last.container->0->0).addr
            } else {
                is_restore_plan(found, subnet_prefix, plan)
            }
        }),
{
    assert(found.push(last).drop_last() =~= found);
}

/// A network is made over the pool that its base names, with subnets of the asked-for size, and
/// holds nothing; a base that is no pool or a size that does not fit into it is refused.
pub proof fn law_network_over_a_pool(
    base: Seq<char>,
    size: u8,
    r: Result<NetworkActor, NetworkError>,
)
    requires
        is_network_over(base, size, r),
    ensures
        r is Ok <==> {
            &&& cidr_notation(base) is Some
            &&& 1 <= size <= 32
            &&& (cidr_notation(base)->0).1 <= size
        },
        r matches Ok(a) ==> {
            &&& a@.pool.addr == (cidr_notation(base)->0).0
            &&& a@.pool.prefix_len == (cidr_notation(base)->0).1
            &&& a@.prefix == size
            &&& a@.slots.dom().is_empty()
            &&& a@.bridges.dom().is_empty()
        },
        cidr_notation(base) is None <==> r == Err::<NetworkActor, NetworkError>(
            NetworkError::InvalidBase,
        ),
{
    assert(Map::<Seq<char>, u32>::empty().dom() =~= Set::empty());
    assert(Map::<Seq<char>, BridgeView>::empty().dom() =~= Set::empty());
}

/// What an attach will fail with is known from the step that failed on, and is kept until the
/// end.
pub proof fn law_failure_is_kept(
    n: NetView,
    f: AttachFlow,
    event: AttachEvent,
    n2: NetView,
    f2: AttachFlow,
)
    requires
        attach_step(n, f, event, n2, f2),
    ensures
        f2.failure == f.failure || {
            ||| f.action is RunSetup && f2.action is DeleteHalfVeth && f2.failure
                == AttachError::SetupFailed
            ||| f.action is ResolveNetns && f2.action is CheckSlaves && f2.failure
                == AttachError::NoAddress { created: true }
        },
{
}

} // verus!
