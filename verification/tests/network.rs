use ssamd::ipv4::{parse_ipv4, Ipv4Net};
use ssamd::netavark_ops::build_network_options;
use ssamd::network::{
    bridge_name, controller_of, create_netns_next, ensure_netns_tree_trusted, has_managed_slave,
    hash10, is_managed_netns, is_removed, is_root_only_dir, is_unmounted, link_name, link_path,
    managed_links, netns_dir, netns_name, netns_path,
    pkg_hash10, validate_interface_name, verify_is_netns, veth_host_name, DirStat,
    InterfaceNameError, LinkAttribute, NetnsCreation, NetnsError, NotNetns, NsProbe,
    RemovalOutcome, CLONE_NEWNET, DEFAULT_CONTAINER_INTERFACE,
};
use ssamd::network_actor::container_ipv4_in_pool;

#[test]
fn netns_name_matches_veth_suffix() {
    let pkg = "foo";
    let ns = netns_name(pkg);
    let veth = veth_host_name(pkg);
    assert_eq!(ns, veth, "netns and veth names must share the suffix");
    assert!(ns.starts_with("ssam-"));
}

#[test]
fn bridge_name_is_stable_sized_and_distinct() {
    let name = bridge_name("foo");
    assert_eq!(name, bridge_name("foo"));
    assert_eq!(name.len(), 14);
    assert!(name.starts_with("ssb-"));
    assert_ne!(name, veth_host_name("foo"));
}

#[test]
fn netns_path_is_under_temp_dir() {
    assert_eq!(netns_path("/tmp", "ssam-abcdef0123"), "/tmp/ssam/netns/ssam-abcdef0123");
    assert_eq!(netns_dir("/var/tmp/"), "/var/tmp/ssam/netns");
}

#[test]
fn package_id_is_the_head_of_the_digest() {
    // SHA-256 of "abc" begins ba7816bf8f.
    assert_eq!(pkg_hash10("abc"), "ba7816bf8f");
    assert_eq!(netns_name("abc"), "ssam-ba7816bf8f");
    assert_eq!(bridge_name("abc"), "ssb-ba7816bf8f");
    assert_eq!(hash10(&[0, 1, 0xab, 0xff, 0x10, 0x99]), "0001abff10");
}

#[test]
fn validate_interface_name_accepts_and_rejects() {
    assert!(validate_interface_name("ssam-br0").is_ok());
    assert!(validate_interface_name("eth0").is_ok());
    assert!(validate_interface_name("").is_err());
    assert!(validate_interface_name("0123456789abcdef").is_err());
    assert!(validate_interface_name("eth/0").is_err());
    assert!(validate_interface_name("eth 0").is_err());
    assert!(validate_interface_name("..").is_err());
}

#[test]
fn interface_name_errors_are_told_apart() {
    assert_eq!(validate_interface_name("").unwrap_err(), InterfaceNameError::Length);
    // Eight characters of two bytes each.
    assert_eq!(
        validate_interface_name("\u{e9}\u{e9}\u{e9}\u{e9}\u{e9}\u{e9}\u{e9}\u{e9}").unwrap_err(),
        InterfaceNameError::Length
    );
    assert_eq!(validate_interface_name(".").unwrap_err(), InterfaceNameError::Dots);
    assert_eq!(validate_interface_name("a:b").unwrap_err(), InterfaceNameError::Character);
    assert_eq!(validate_interface_name("a\tb").unwrap_err(), InterfaceNameError::Character);
    assert_eq!(validate_interface_name("a\u{7f}").unwrap_err(), InterfaceNameError::Character);
    assert_eq!(validate_interface_name("a\u{a0}").unwrap_err(), InterfaceNameError::Character);
    assert!(validate_interface_name("...").is_ok());
    assert!(validate_interface_name(DEFAULT_CONTAINER_INTERFACE).is_ok());
}

const BR: &str = "ssb-0123456789";

#[test]
fn build_network_options_has_no_gateway_and_is_always_internal() {
    let opts = build_network_options(
        "pkg-a",
        BR,
        Ipv4Net::parse("172.20.0.0/29").unwrap(),
        parse_ipv4("172.20.0.1").unwrap(),
        "eth0",
    );
    let net = opts.network_info.get(BR).unwrap();
    assert!(net.internal);
    assert_eq!(net.subnets[0].gateway, None);
    assert_eq!(net.driver, "bridge");
    assert_eq!(net.id, BR);
    assert_eq!(opts.networks.len(), 1);
    assert_eq!(opts.networks[0].opts.static_ips, vec![parse_ipv4("172.20.0.1").unwrap()]);
    assert_eq!(
        opts.networks[0].opts.options.get("host_interface_name"),
        Some(&veth_host_name("pkg-a"))
    );
}

#[test]
fn container_ipv4_in_pool_accepts_in_pool_rejects_out_of_pool() {
    let pool = Ipv4Net::parse("172.20.0.0/16").unwrap();
    assert_eq!(
        container_ipv4_in_pool(parse_ipv4("172.20.0.5"), 29, pool),
        Some(Ipv4Net::parse("172.20.0.5/29").unwrap())
    );
    assert_eq!(container_ipv4_in_pool(parse_ipv4("10.0.0.5"), 29, pool), None);
    assert_eq!(container_ipv4_in_pool(None, 29, pool), None);
    assert_eq!(container_ipv4_in_pool(parse_ipv4("172.20.0.5"), 33, pool), None);
}

#[test]
fn only_a_directory_for_root_alone_is_trusted() {
    let good = DirStat { is_dir: true, uid: 0, mode: 0o40700 };
    assert!(is_root_only_dir(good));
    assert!(!is_root_only_dir(DirStat { is_dir: false, ..good }));
    assert!(!is_root_only_dir(DirStat { uid: 1000, ..good }));
    assert!(!is_root_only_dir(DirStat { mode: 0o40755, ..good }));
    assert!(ensure_netns_tree_trusted(good, good));
    assert!(!ensure_netns_tree_trusted(good, DirStat { uid: 1, ..good }));
}

fn create_netns(answers: &[bool]) -> NetnsCreation {
    answers.iter().fold(NetnsCreation::CheckPath, |step, &answer| create_netns_next(step, answer))
}

#[test]
fn a_namespace_is_kept_and_a_leftover_is_replaced() {
    assert_eq!(create_netns(&[true, true]), NetnsCreation::Kept);
    assert_eq!(create_netns(&[true, false]), NetnsCreation::UnmountStale);
    assert_eq!(create_netns(&[true, false, true, true]), NetnsCreation::CreateTarget);
    assert_eq!(create_netns(&[false]), NetnsCreation::CreateTarget);
    assert_eq!(create_netns(&[false, true, true]), NetnsCreation::Created);
}

#[test]
fn creating_a_namespace_can_fail_at_each_step() {
    let failed = NetnsCreation::Failed;
    assert_eq!(create_netns(&[true, false, false]), failed(NetnsError::Unmount));
    assert_eq!(create_netns(&[true, false, true, false]), failed(NetnsError::Remove));
    assert_eq!(create_netns(&[false, false]), failed(NetnsError::Target));
    assert_eq!(create_netns(&[false, true, false]), NetnsCreation::RemoveTarget);
    assert_eq!(create_netns(&[false, true, false, false]), failed(NetnsError::Bind));
}

#[test]
fn what_is_gone_need_not_be_undone() {
    assert!(is_unmounted(RemovalOutcome::NotMounted));
    assert!(is_unmounted(RemovalOutcome::NotFound));
    assert!(!is_unmounted(RemovalOutcome::Failed));
    assert!(is_removed(RemovalOutcome::NotFound));
    assert!(!is_removed(RemovalOutcome::NotMounted));
}

#[test]
fn verify_is_netns_rejects_non_netns_path() {
    let mount_namespace = NsProbe::Kind(0x0002_0000);
    let err = verify_is_netns(mount_namespace)
        .expect_err("a mount namespace is not a network namespace");
    assert!(err.message().contains("not a network namespace"), "unexpected error: {err:?}");
    assert_eq!(verify_is_netns(NsProbe::Unopened), Err(NotNetns::Unopened));
    assert_eq!(verify_is_netns(NsProbe::Unanswered), Err(NotNetns::Unanswered));
    assert_eq!(verify_is_netns(NsProbe::Kind(CLONE_NEWNET)), Ok(()));
}

#[test]
fn the_controller_of_a_link_is_named_among_its_attributes() {
    let attributes = vec![
        LinkAttribute::Other,
        LinkAttribute::IfName("ssam-0123456789".to_string()),
        LinkAttribute::Controller(7),
        LinkAttribute::Controller(8),
    ];
    assert_eq!(controller_of(&attributes), Some(7));
    assert_eq!(link_name(&attributes).as_deref(), Some("ssam-0123456789"));
    assert_eq!(controller_of(&vec![LinkAttribute::Other]), None);
    assert_eq!(link_name(&vec![LinkAttribute::Controller(1)]), None);
    assert_eq!(link_path("eth0"), "/sys/class/net/eth0");
}

#[test]
fn links_are_told_apart_by_prefix() {
    let names: Vec<String> =
        ["lo", "ssam-a", "eth0", "ssb-b", "ssam-c"].iter().map(|s| s.to_string()).collect();
    let (veths, bridges) = managed_links(&names);
    assert_eq!(veths, vec!["ssam-a".to_string(), "ssam-c".to_string()]);
    assert_eq!(bridges, vec!["ssb-b".to_string()]);
    assert!(has_managed_slave(&names));
    assert!(!has_managed_slave(&vec!["eth0".to_string()]));
    assert!(is_managed_netns("ssam-x"));
    assert!(!is_managed_netns("ssb-x"));
}

#[test]
fn exists_false_for_unknown_interface() {
    let path = link_path("definitely-not-a-real-iface-xyz");
    assert!(!std::path::Path::new(&path).exists());
}

#[test]
fn create_netns_idempotent() {
    assert_eq!(create_netns(&[false, true, true]), NetnsCreation::Created);
    assert_eq!(create_netns(&[true, true]), NetnsCreation::Kept);
}
