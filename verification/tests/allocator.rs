use ssamd::allocator::{AllocError, BridgeIpAllocator, SlotAllocator, SubnetAllocator};
use ssamd::ipv4::{dotted_text, parse_ipv4, Ipv4Net};
use ssamd::network::veth_host_name;

fn net(text: &str) -> Ipv4Net {
    Ipv4Net::parse(text).unwrap()
}

fn addr(a: u8, b: u8, c: u8, d: u8) -> u32 {
    u32::from_be_bytes([a, b, c, d])
}

fn net29() -> Ipv4Net {
    // 10.0.0.0/29: network .0, broadcast .7 reserved -> usable .1..=.6.
    net("10.0.0.0/29")
}

fn pool16() -> Ipv4Net {
    net("10.0.0.0/16")
}

#[test]
fn veth_host_name_is_stable_and_sized() {
    let name = veth_host_name("foo");
    assert_eq!(name, veth_host_name("foo"));
    assert_eq!(name.len(), 15);
    assert!(name.starts_with("ssam-"));
}

#[test]
fn allocate_skips_network_broadcast() {
    let mut alloc = BridgeIpAllocator::new(net29());
    assert_eq!(alloc.allocate("a").unwrap(), addr(10, 0, 0, 1));
}

#[test]
fn allocate_errors_on_exhaustion() {
    let mut alloc = BridgeIpAllocator::new(net29());
    for i in 0..6 {
        alloc.allocate(&format!("p{i}")).unwrap();
    }
    assert!(alloc.allocate("overflow").is_err());
}

#[test]
fn allocate_is_idempotent() {
    let mut alloc = BridgeIpAllocator::new(net29());
    let first = alloc.allocate("foo").unwrap();
    let again = alloc.allocate("foo").unwrap();
    assert_eq!(first, again);
}

#[test]
fn allocate_gives_distinct_sequential_ips() {
    let mut alloc = BridgeIpAllocator::new(net29());
    assert_eq!(alloc.allocate("a").unwrap(), addr(10, 0, 0, 1));
    assert_eq!(alloc.allocate("b").unwrap(), addr(10, 0, 0, 2));
    assert_eq!(alloc.allocate("c").unwrap(), addr(10, 0, 0, 3));
}

#[test]
fn release_frees_the_lowest_slot_for_reuse() {
    let mut alloc = BridgeIpAllocator::new(net29());
    let a = alloc.allocate("a").unwrap();
    let _b = alloc.allocate("b").unwrap();
    alloc.release("a");
    assert_eq!(alloc.allocate("c").unwrap(), a);
    alloc.release("ghost");
}

#[test]
fn reuse_prefers_lowest_freed_then_high_water() {
    let mut alloc = BridgeIpAllocator::new(net29());
    let _a = alloc.allocate("a").unwrap();
    let _b = alloc.allocate("b").unwrap();
    let _c = alloc.allocate("c").unwrap();
    alloc.release("b");
    assert_eq!(alloc.allocate("d").unwrap(), addr(10, 0, 0, 2));
    assert_eq!(alloc.allocate("e").unwrap(), addr(10, 0, 0, 4));
}

#[test]
fn claim_holds_address_and_blocks_reissue() {
    let mut alloc = BridgeIpAllocator::new(net29());
    let claimed = addr(10, 0, 0, 2);
    alloc.claim("inuse", claimed).unwrap();
    assert_eq!(alloc.allocate("inuse").unwrap(), claimed);
    assert_eq!(alloc.allocate("new").unwrap(), addr(10, 0, 0, 1));
}

#[test]
fn claim_then_release_frees_the_address() {
    let mut alloc = BridgeIpAllocator::new(net29());
    let ip = addr(10, 0, 0, 1);
    alloc.claim("inuse", ip).unwrap();
    assert_eq!(alloc.allocate("inuse").unwrap(), ip);
    alloc.release("inuse");
    assert_eq!(alloc.allocate("new").unwrap(), ip);
}

#[test]
fn claim_rejects_address_owned_by_another_id() {
    let mut alloc = BridgeIpAllocator::new(net29());
    let ip = addr(10, 0, 0, 2);
    alloc.claim("first", ip).unwrap();
    assert!(alloc.claim("second", ip).is_err());
    assert_eq!(alloc.allocate("first").unwrap(), ip);
    assert_eq!(alloc.allocate("second").unwrap(), addr(10, 0, 0, 1));
}

#[test]
fn claim_same_id_same_address_is_idempotent() {
    let mut alloc = BridgeIpAllocator::new(net29());
    let ip = addr(10, 0, 0, 2);
    alloc.claim("inuse", ip).unwrap();
    alloc.claim("inuse", ip).unwrap();
    assert_eq!(alloc.allocate("inuse").unwrap(), ip);
}

#[test]
fn claim_rejects_network_and_broadcast() {
    let mut alloc = BridgeIpAllocator::new(net29());
    assert!(alloc.claim("net", addr(10, 0, 0, 0)).is_err());
    assert!(alloc.claim("bcast", addr(10, 0, 0, 7)).is_err());
    alloc.claim("host", addr(10, 0, 0, 6)).unwrap();
}

#[test]
fn claim_high_address_does_not_strand_low_gap() {
    let mut alloc = BridgeIpAllocator::new(net29());
    alloc.claim("inuse", addr(10, 0, 0, 6)).unwrap();
    assert_eq!(alloc.allocate("a").unwrap(), addr(10, 0, 0, 1));
    assert_eq!(alloc.allocate("b").unwrap(), addr(10, 0, 0, 2));
    assert_eq!(alloc.allocate("inuse").unwrap(), addr(10, 0, 0, 6));
}

#[test]
fn reclaim_same_id_new_address_frees_old() {
    let mut alloc = BridgeIpAllocator::new(net29());
    alloc.claim("inuse", addr(10, 0, 0, 4)).unwrap();
    alloc.claim("inuse", addr(10, 0, 0, 5)).unwrap();
    assert_eq!(alloc.allocate("inuse").unwrap(), addr(10, 0, 0, 5));
    let _a = alloc.allocate("a").unwrap();
    let _b = alloc.allocate("b").unwrap();
    let _c = alloc.allocate("c").unwrap();
    assert_eq!(alloc.allocate("d").unwrap(), addr(10, 0, 0, 4));
}

#[test]
fn subnet_new_rejects_prefix_out_of_range() {
    let pool = net("10.0.0.0/30");
    assert!(SubnetAllocator::new(pool, 29).is_err());
    assert!(SubnetAllocator::new(pool16(), 40).is_err());
}

#[test]
fn subnet_allocate_gives_distinct_sequential_slots() {
    let mut alloc = SubnetAllocator::new(pool16(), 29).unwrap();
    assert_eq!(alloc.allocate("a").unwrap(), net("10.0.0.0/29"));
    assert_eq!(alloc.allocate("b").unwrap(), net("10.0.0.8/29"));
    assert_eq!(alloc.allocate("c").unwrap(), net("10.0.0.16/29"));
}

#[test]
fn subnet_allocate_is_idempotent() {
    let mut alloc = SubnetAllocator::new(pool16(), 29).unwrap();
    let first = alloc.allocate("foo").unwrap();
    assert_eq!(first, alloc.allocate("foo").unwrap());
}

#[test]
fn subnet_allocate_errors_on_exhaustion() {
    let pool = net("10.0.0.0/30");
    let mut alloc = SubnetAllocator::new(pool, 30).unwrap();
    assert_eq!(alloc.allocate("a").unwrap(), pool);
    assert_eq!(alloc.allocate("b").unwrap_err(), AllocError::PoolExhausted);
}

#[test]
fn subnet_release_reuses_lowest_freed_before_high_water() {
    let mut alloc = SubnetAllocator::new(pool16(), 29).unwrap();
    let _a = alloc.allocate("a").unwrap();
    let b = alloc.allocate("b").unwrap();
    let _c = alloc.allocate("c").unwrap();
    alloc.release("b");
    assert_eq!(alloc.allocate("d").unwrap(), b);
    assert_eq!(alloc.allocate("e").unwrap(), net("10.0.0.24/29"));
}

#[test]
fn subnet_claim_holds_slot_and_blocks_reissue() {
    let mut alloc = SubnetAllocator::new(pool16(), 29).unwrap();
    alloc.claim("inuse", net("10.0.0.0/29")).unwrap();
    assert_eq!(alloc.allocate("new").unwrap(), net("10.0.0.8/29"));
}

#[test]
fn subnet_claim_rejects_foreign_owned_slot() {
    let mut alloc = SubnetAllocator::new(pool16(), 29).unwrap();
    let s = net("10.0.0.0/29");
    alloc.claim("first", s).unwrap();
    assert!(alloc.claim("second", s).is_err());
}

#[test]
fn subnet_claim_rejects_wrong_prefix_or_out_of_pool() {
    let mut alloc = SubnetAllocator::new(pool16(), 29).unwrap();
    assert!(alloc.claim("y", net("10.1.0.0/29")).is_err());
    assert!(alloc.claim("z", net("10.0.0.0/28")).is_err());
}

#[test]
fn reserve_containing_holds_slot_for_fresh_allocate() {
    let mut alloc = SubnetAllocator::new(pool16(), 29).unwrap();
    alloc.reserve_containing(addr(10, 0, 0, 3));
    assert_eq!(alloc.allocate("new").unwrap(), net("10.0.0.8/29"));
}

#[test]
fn reserve_containing_is_idempotent_per_slot() {
    let mut alloc = SubnetAllocator::new(pool16(), 29).unwrap();
    alloc.reserve_containing(addr(10, 0, 0, 3));
    alloc.reserve_containing(addr(10, 0, 0, 5));
    assert_eq!(alloc.allocate("new").unwrap(), net("10.0.0.8/29"));
}

#[test]
fn reserve_containing_is_noop_when_slot_owned_by_a_bridge() {
    let mut alloc = SubnetAllocator::new(pool16(), 29).unwrap();
    let held = alloc.allocate("a").unwrap();
    alloc.reserve_containing(addr(10, 0, 0, 2));
    assert_eq!(alloc.allocate("a").unwrap(), held);
}

#[test]
fn reserve_containing_is_noop_out_of_pool() {
    let mut alloc = SubnetAllocator::new(pool16(), 29).unwrap();
    alloc.reserve_containing(addr(10, 1, 0, 3));
    assert_eq!(alloc.allocate("a").unwrap(), net("10.0.0.0/29"));
}

#[test]
fn each_refusal_has_its_own_error() {
    let mut ips = BridgeIpAllocator::new(net29());
    assert_eq!(ips.claim("a", addr(10, 0, 0, 7)).unwrap_err(), AllocError::NotAHost);
    ips.claim("a", addr(10, 0, 0, 2)).unwrap();
    assert_eq!(
        ips.claim("b", addr(10, 0, 0, 2)).unwrap_err(),
        AllocError::Owned("a".to_string())
    );
    let mut full = BridgeIpAllocator::new(net("10.0.0.0/31"));
    assert_eq!(full.allocate("a").unwrap_err(), AllocError::SubnetFull);

    let mut nets = SubnetAllocator::new(pool16(), 29).unwrap();
    assert_eq!(nets.claim("a", net("10.0.0.0/28")).unwrap_err(), AllocError::PrefixMismatch);
    assert_eq!(nets.claim("a", net("10.1.0.0/29")).unwrap_err(), AllocError::OutsidePool);
    nets.claim("a", net("10.0.0.0/29")).unwrap();
    assert_eq!(
        nets.claim("b", net("10.0.0.3/29")).unwrap_err(),
        AllocError::Owned("a".to_string())
    );
    assert_eq!(
        SubnetAllocator::new(pool16(), 0).unwrap_err(),
        AllocError::PrefixOutOfRange
    );
}

#[test]
fn a_failed_claim_changes_nothing() {
    let mut ips = BridgeIpAllocator::new(net29());
    ips.claim("a", addr(10, 0, 0, 2)).unwrap();
    ips.claim("b", addr(10, 0, 0, 3)).unwrap();
    assert!(ips.claim("b", addr(10, 0, 0, 2)).is_err());
    assert_eq!(ips.ip_for("a"), Some(addr(10, 0, 0, 2)));
    assert_eq!(ips.ip_for("b"), Some(addr(10, 0, 0, 3)));
    assert_eq!(ips.ip_for("c"), None);
    assert!(!ips.is_empty());
}

#[test]
fn slots_step_and_stop() {
    let mut slots = SlotAllocator::new();
    assert!(slots.is_empty());
    assert_eq!(slots.allocate("a", 10, 5, 20), Some(10));
    assert_eq!(slots.allocate("b", 10, 5, 20), Some(15));
    assert_eq!(slots.allocate("c", 10, 5, 20), Some(20));
    assert_eq!(slots.allocate("d", 10, 5, 20), None);
    assert_eq!(slots.allocate("b", 10, 5, 20), Some(15));
    slots.release("b");
    assert_eq!(slots.get("b"), None);
    assert_eq!(slots.claim("c", 10), Err("a".to_string()));
    assert_eq!(slots.claim("c", 15), Ok(()));
    assert_eq!(slots.allocate("d", 10, 5, 20), Some(20));
    // The last key of all has no successor.
    assert_eq!(slots.allocate("e", u32::MAX, 5, u32::MAX), Some(u32::MAX));
    assert_eq!(slots.allocate("f", u32::MAX, 5, u32::MAX), None);
}

#[test]
fn network_and_broadcast_of_a_network() {
    let n = net("172.16.123.123/16");
    assert_eq!(n.network(), addr(172, 16, 0, 0));
    assert_eq!(n.broadcast(), addr(172, 16, 255, 255));
    assert_eq!(n.trunc(), net("172.16.0.0/16"));
    assert!(n.contains(addr(172, 16, 1, 2)));
    assert!(!n.contains(addr(172, 17, 1, 2)));
    let all = net("1.2.3.4/0");
    assert_eq!(all.network(), 0);
    assert_eq!(all.broadcast(), u32::MAX);
    let one = net("1.2.3.4/32");
    assert_eq!(one.network(), one.broadcast());
    assert!(Ipv4Net::new(0, 33).is_none());
    assert!(Ipv4Net::parse("10.0.0.0/33").is_none());
    assert!(Ipv4Net::parse("not-a-pool").is_none());
}

#[test]
fn notation_of_addresses_and_networks() {
    assert_eq!(dotted_text(addr(192, 168, 0, 1)), "192.168.0.1");
    assert_eq!(net("10.0.0.8/29").to_text(), "10.0.0.8/29");
    assert_eq!(parse_ipv4("172.20.0.1"), Some(addr(172, 20, 0, 1)));
    assert_eq!(parse_ipv4("172.20.0"), None);
}

#[test]
fn the_last_address_alone_is_no_host() {
    let mut alloc = BridgeIpAllocator::new(net("255.255.255.255/32"));
    assert!(matches!(alloc.allocate("a"), Err(AllocError::SubnetFull)));
    assert!(matches!(alloc.claim("a", u32::MAX), Err(AllocError::NotAHost)));
    assert!(alloc.is_empty());
    let mut alloc = BridgeIpAllocator::new(net("0.0.0.0/32"));
    assert!(matches!(alloc.allocate("a"), Err(AllocError::SubnetFull)));
    assert!(matches!(alloc.claim("a", 0), Err(AllocError::NotAHost)));
}

#[test]
fn without_a_step_there_is_one_key() {
    let mut alloc = SlotAllocator::new();
    assert_eq!(alloc.allocate("a", 5, 0, 4), None);
    assert_eq!(alloc.allocate("a", 5, 0, 9), Some(5));
    assert_eq!(alloc.allocate("a", 7, 0, 0), Some(5));
    assert_eq!(alloc.allocate("a", 9, 3, 20), Some(5));
}

#[test]
fn a_release_undoes_an_allocation_and_nothing_else() {
    let mut alloc = SlotAllocator::new();
    assert_eq!(alloc.allocate("a", 0, 8, 64), Some(0));
    assert_eq!(alloc.allocate("b", 0, 8, 64), Some(8));
    alloc.release("b");
    assert_eq!((alloc.get("a"), alloc.get("b")), (Some(0), None));
    alloc.release("c");
    assert_eq!(alloc.get("a"), Some(0));
    assert!(alloc.claim("c", 8).is_ok());
    alloc.release("c");
    assert_eq!(alloc.allocate("d", 0, 8, 64), Some(8));
}
