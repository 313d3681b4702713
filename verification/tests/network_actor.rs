use ssamd::configuration::{BridgeConfig, NetworkConfig, PoolConfig};
use ssamd::ipv4::{parse_ipv4, Ipv4Net};
use ssamd::network::{bridge_name, veth_host_name};
use ssamd::network_actor::{
    build_restore_entry, collect_restore_plan, first_container_ipv4, AttachAction, AttachError,
    AttachEvent, AttachFlow, FoundNetns,
    MasterLookup, NetworkActor, NetworkError, RestoreEntry, RestoredAttach,
};

fn config(base: &str) -> BridgeConfig {
    BridgeConfig {
        enabled: true,
        addr_pool: Some(PoolConfig { base: Some(base.to_owned()), size: Some(29) }),
    }
}

fn ip(text: &str) -> u32 {
    parse_ipv4(text).unwrap()
}

fn net(text: &str) -> Ipv4Net {
    Ipv4Net::parse(text).unwrap()
}

#[test]
fn new_parses_valid_pool() {
    let actor = NetworkActor::new(&config("172.20.0.0/16")).unwrap();
    assert!(!actor.has_bridge(&bridge_name("x")));
    assert_eq!(actor.pool(), net("172.20.0.0/16"));
}

#[test]
fn new_defaults_size_when_omitted() {
    let mut cfg = config("172.20.0.0/16");
    cfg.addr_pool.as_mut().unwrap().size = None;
    let actor = NetworkActor::new(&cfg).unwrap();
    assert_eq!(actor.subnet_prefix(), 29);
}

#[test]
fn new_errors_on_bad_base() {
    let err = NetworkActor::new(&config("not-a-pool")).unwrap_err();
    assert_eq!(err, NetworkError::InvalidBase);
    assert!(err.message().contains("base"));
}

#[test]
fn new_errors_on_a_pool_smaller_than_a_subnet() {
    let err = NetworkActor::new(&config("172.20.0.0/30")).unwrap_err();
    assert_eq!(err, NetworkError::PrefixOutOfRange);
}

#[test]
fn bridge_network_of_a_network_section() {
    let bridge = BridgeConfig::of_network(&NetworkConfig {
        bridge_enabled: true,
        bridge_name: "ssam-br0".to_string(),
        subnet: "172.20.0.0/16".to_string(),
        gateway: ip("172.20.0.1"),
    });
    assert!(bridge.enabled);
    assert_eq!(bridge.base(), "172.20.0.0/16");
    assert_eq!(bridge.size(), 29);
}

#[test]
fn apply_restore_plan_attach_registers_bridge_and_ip() {
    let mut actor = NetworkActor::new(&config("172.20.0.0/16")).unwrap();
    let br = bridge_name("x");
    let veth = veth_host_name("x");
    let plan = vec![RestoreEntry::Attach(RestoredAttach {
        br: br.clone(),
        subnet: net("172.20.0.0/29"),
        veth: veth.clone(),
        ip: ip("172.20.0.1"),
    })];
    actor.apply_restore_plan(&plan);
    assert!(actor.has_bridge(&br));
    assert_eq!(actor.ip_for(&br, &veth), Some(ip("172.20.0.1")));
}

#[test]
fn apply_restore_plan_reserve_blocks_reissue() {
    let mut actor = NetworkActor::new(&config("172.20.0.0/16")).unwrap();
    let plan = vec![RestoreEntry::ReserveIp {
        ip: ip("172.20.0.3"),
        veth: veth_host_name("unknown"),
        master: None,
    }];
    actor.apply_restore_plan(&plan);
    // .3 sits in slot 172.20.0.0/29; a fresh subnet must skip it.
    let (subnet, _) = actor.allocate_container_ip("fresh", "veth").unwrap();
    assert_eq!(subnet, net("172.20.0.8/29"));
}

#[test]
fn apply_restore_plan_attach_wins_over_reserve_in_same_slot() {
    let mut actor = NetworkActor::new(&config("172.20.0.0/16")).unwrap();
    let br = bridge_name("x");
    let veth = veth_host_name("x");
    let demoted_veth = veth_host_name("y");
    let plan = vec![
        RestoreEntry::ReserveIp {
            ip: ip("172.20.0.3"),
            veth: demoted_veth.clone(),
            master: Some(br.clone()),
        },
        RestoreEntry::Attach(RestoredAttach {
            br: br.clone(),
            subnet: net("172.20.0.0/29"),
            veth: veth.clone(),
            ip: ip("172.20.0.1"),
        }),
    ];
    actor.apply_restore_plan(&plan);
    assert_eq!(actor.ip_for(&br, &veth), Some(ip("172.20.0.1")));
    assert_eq!(actor.ip_for(&br, &demoted_veth), Some(ip("172.20.0.3")));
    assert_eq!(
        actor.allocate_container_ip(&br, "new-sibling-1").unwrap().1,
        ip("172.20.0.2")
    );
    assert_eq!(
        actor.allocate_container_ip(&br, "new-sibling-2").unwrap().1,
        ip("172.20.0.4")
    );
    // Detach frees the real key: no permanent leak.
    actor.detach(&br, &demoted_veth, true, false);
    assert_eq!(
        actor.allocate_container_ip(&br, "new-sibling-3").unwrap().1,
        ip("172.20.0.3")
    );
}

#[test]
fn apply_restore_plan_reserve_falls_back_when_bridge_unseen() {
    let mut actor = NetworkActor::new(&config("172.20.0.0/16")).unwrap();
    let br = bridge_name("x");
    let plan = vec![RestoreEntry::ReserveIp {
        ip: ip("172.20.0.3"),
        veth: veth_host_name("y"),
        master: Some(br.clone()),
    }];
    actor.apply_restore_plan(&plan);
    assert!(!actor.has_bridge(&br));
    let (subnet, _) = actor.allocate_container_ip("fresh", "veth").unwrap();
    assert_eq!(subnet, net("172.20.0.8/29"));
}

#[test]
fn rollback_attach_destroys_now_empty_bridge() {
    let mut actor = NetworkActor::new(&config("172.20.0.0/16")).unwrap();
    let br = bridge_name("x");
    let veth = veth_host_name("x");
    actor.allocate_container_ip(&br, &veth).unwrap();
    assert!(actor.has_bridge(&br));
    assert!(actor.rollback_attach(&br, &veth, false));
    assert!(!actor.has_bridge(&br));
}

#[test]
fn a_bridge_with_interfaces_left_on_it_is_kept() {
    let mut actor = NetworkActor::new(&config("172.20.0.0/16")).unwrap();
    let br = bridge_name("x");
    let veth = veth_host_name("x");
    actor.allocate_container_ip(&br, &veth).unwrap();
    assert!(!actor.rollback_attach(&br, &veth, true));
    assert!(actor.has_bridge(&br));
    // Its subnet is not given out again.
    assert_eq!(actor.allocate_container_ip("other", "v").unwrap().0, net("172.20.0.8/29"));
}

#[test]
fn detach_keeps_the_address_of_an_interface_that_stays() {
    let mut actor = NetworkActor::new(&config("172.20.0.0/16")).unwrap();
    actor.allocate_container_ip("br", "v").unwrap();
    assert!(!actor.detach("br", "v", false, false));
    assert_eq!(actor.ip_for("br", "v"), Some(ip("172.20.0.1")));
    assert!(actor.detach("br", "v", true, false));
    assert_eq!(actor.ip_for("br", "v"), None);
}

#[test]
fn attach_runs_to_the_end() {
    let mut actor = NetworkActor::new(&config("172.20.0.0/16")).unwrap();
    let flow = AttachFlow::new("pkg", "pkg", "eth0").unwrap();
    assert!(matches!(flow.action, AttachAction::CheckLive));
    let flow = actor.attach_next(flow, AttachEvent::Live(false));
    assert!(matches!(flow.action, AttachAction::DeleteStaleVeth));
    let flow = actor.attach_next(flow, AttachEvent::StaleVethDeleted);
    assert!(matches!(flow.action, AttachAction::ResolveNetns));
    let flow = actor.attach_next(flow, AttachEvent::NetnsResolved(true));
    match &flow.action {
        AttachAction::RunSetup { options, subnet, ip: given } => {
            assert_eq!(*subnet, net("172.20.0.0/29"));
            assert_eq!(*given, ip("172.20.0.1"));
            assert_eq!(options.container_id, "pkg");
        }
        _ => panic!("expected the wiring"),
    }
    let flow = actor.attach_next(flow, AttachEvent::SetupDone(true));
    assert!(matches!(flow.action, AttachAction::Finish(Ok(()))));

    // A second attach adopts what is there.
    let again = AttachFlow::new("pkg", "pkg", "eth0").unwrap();
    let again = actor.attach_next(again, AttachEvent::Live(true));
    assert!(matches!(again.action, AttachAction::Finish(Ok(()))));
}

#[test]
fn a_failed_attach_leaves_nothing_behind() {
    let mut actor = NetworkActor::new(&config("172.20.0.0/16")).unwrap();
    let flow = AttachFlow::new("pkg", "pkg", "eth0").unwrap();
    let br = flow.br.clone();
    let flow = actor.attach_next(flow, AttachEvent::Live(false));
    let flow = actor.attach_next(flow, AttachEvent::StaleVethDeleted);
    let flow = actor.attach_next(flow, AttachEvent::NetnsResolved(true));
    let flow = actor.attach_next(flow, AttachEvent::SetupDone(false));
    assert!(matches!(flow.action, AttachAction::DeleteHalfVeth));
    let flow = actor.attach_next(flow, AttachEvent::HalfVethDeleted(false));
    assert!(matches!(flow.action, AttachAction::DeleteBridge));
    let flow = actor.attach_next(flow, AttachEvent::BridgeDeleted);
    assert!(matches!(flow.action, AttachAction::Finish(Err(AttachError::SetupFailed))));
    assert!(!actor.has_bridge(&br));
}

#[test]
fn attach_refusals() {
    assert_eq!(
        AttachFlow::new("pkg", "pkg", "eth 0").unwrap_err(),
        AttachError::InvalidInterface
    );
    let mut actor = NetworkActor::new(&config("172.20.0.0/16")).unwrap();
    let flow = AttachFlow::new("pkg", "pkg", "eth0").unwrap();
    let flow = actor.attach_next(flow, AttachEvent::Live(true));
    assert!(matches!(flow.action, AttachAction::Finish(Err(AttachError::UntrackedBridge))));

    let br = bridge_name("pkg");
    actor.allocate_container_ip(&br, "other").unwrap();
    let flow = AttachFlow::new("pkg", "pkg", "eth0").unwrap();
    let flow = actor.attach_next(flow, AttachEvent::Live(true));
    assert!(matches!(flow.action, AttachAction::Finish(Err(AttachError::UntrackedAddress))));

    let flow = AttachFlow::new("pkg", "pkg", "eth0").unwrap();
    let flow = actor.attach_next(flow, AttachEvent::Live(false));
    let flow = actor.attach_next(flow, AttachEvent::StaleVethDeleted);
    let flow = actor.attach_next(flow, AttachEvent::NetnsResolved(false));
    assert!(matches!(flow.action, AttachAction::Finish(Err(AttachError::NetnsPath))));
}

#[test]
fn attach_without_a_free_address_or_subnet() {
    let cfg = BridgeConfig {
        enabled: true,
        addr_pool: Some(PoolConfig { base: Some("10.0.0.0/31".to_owned()), size: Some(31) }),
    };
    let mut actor = NetworkActor::new(&cfg).unwrap();
    let flow = AttachFlow::new("pkg", "pkg", "eth0").unwrap();
    let flow = actor.attach_next(flow, AttachEvent::Live(false));
    let flow = actor.attach_next(flow, AttachEvent::StaleVethDeleted);
    let flow = actor.attach_next(flow, AttachEvent::NetnsResolved(true));
    assert!(matches!(flow.action, AttachAction::CheckSlaves));
    let flow = actor.attach_next(flow, AttachEvent::Slaves(false));
    assert!(matches!(flow.action, AttachAction::DeleteBridge));
    let flow = actor.attach_next(flow, AttachEvent::BridgeDeleted);
    assert!(matches!(
        flow.action,
        AttachAction::Finish(Err(AttachError::NoAddress { created: true }))
    ));

    assert_eq!(
        actor.allocate_container_ip("a", "v").unwrap_err(),
        AttachError::NoAddress { created: true }
    );
    assert_eq!(
        actor.allocate_container_ip("a", "v").unwrap_err(),
        AttachError::NoAddress { created: false }
    );
    assert_eq!(actor.allocate_container_ip("b", "v").unwrap_err(), AttachError::NoSubnet);
}

#[test]
fn restore_entries_follow_the_master() {
    let found = net("172.20.0.5/29");
    assert!(build_restore_entry("ssam-x", None, MasterLookup::Failed, 29).is_none());
    assert!(build_restore_entry("ssam-x", Some(found), MasterLookup::Absent, 29).is_none());
    assert!(build_restore_entry(
        "ssam-x",
        Some(found),
        MasterLookup::Found("docker0".to_string()),
        29
    )
    .is_none());
    match build_restore_entry("ssam-x", Some(found), MasterLookup::Failed, 29) {
        Some(RestoreEntry::ReserveIp { ip: held, veth, master }) => {
            assert_eq!(held, ip("172.20.0.5"));
            assert_eq!(veth, "ssam-x");
            assert!(master.is_none());
        }
        _ => panic!("expected a reservation"),
    }
    match build_restore_entry(
        "ssam-x",
        Some(net("172.20.0.5/24")),
        MasterLookup::Found("ssb-y".to_string()),
        29,
    ) {
        Some(RestoreEntry::ReserveIp { master, .. }) => {
            assert_eq!(master, Some("ssb-y".to_string()));
        }
        _ => panic!("expected a reservation"),
    }
    match build_restore_entry(
        "ssam-x",
        Some(found),
        MasterLookup::Found("ssb-y".to_string()),
        29,
    ) {
        Some(RestoreEntry::Attach(a)) => {
            assert_eq!(a.br, "ssb-y");
            assert_eq!(a.subnet, net("172.20.0.0/29"));
            assert_eq!(a.ip, ip("172.20.0.5"));
        }
        _ => panic!("expected an attach"),
    }
}

#[test]
fn the_first_address_in_the_pool_counts() {
    let pool = net("172.20.0.0/16");
    let found = vec![
        (8, Some(ip("127.0.0.1"))),
        (64, None),
        (29, Some(ip("172.20.0.5"))),
        (29, Some(ip("172.20.0.6"))),
    ];
    assert_eq!(first_container_ipv4(&found, pool), Some(net("172.20.0.5/29")));
    assert_eq!(first_container_ipv4(&vec![(8, Some(ip("127.0.0.1")))], pool), None);
}

#[test]
fn a_pool_of_the_last_address_alone_has_no_host() {
    let cfg = BridgeConfig {
        enabled: true,
        addr_pool: Some(PoolConfig {
            base: Some("255.255.255.255/32".to_owned()),
            size: Some(32),
        }),
    };
    let mut actor = NetworkActor::new(&cfg).unwrap();
    assert_eq!(
        actor.allocate_container_ip("a", "v"),
        Err(AttachError::NoAddress { created: true })
    );
    assert_eq!(
        actor.allocate_container_ip("a", "v"),
        Err(AttachError::NoAddress { created: false })
    );
    assert_eq!(actor.allocate_container_ip("b", "v"), Err(AttachError::NoSubnet));
    assert!(actor.destroy_bridge("a", false));
    assert!(!actor.has_bridge("a"));
    assert_eq!(
        actor.allocate_container_ip("b", "v"),
        Err(AttachError::NoAddress { created: true })
    );
}

#[test]
fn an_undone_attach_leaves_nothing() {
    let mut actor = NetworkActor::new(&config("172.20.0.0/16")).unwrap();
    actor.allocate_container_ip("br", "v").unwrap();
    let (_, given) = actor.allocate_container_ip("br", "w").unwrap();
    assert!(!actor.rollback_attach("br", "w", false));
    assert_eq!(actor.allocate_container_ip("br", "x").unwrap().1, given);
    assert!(!actor.rollback_attach("br", "x", false));
    assert!(actor.rollback_attach("br", "v", false));
    assert!(!actor.has_bridge("br"));
    assert_eq!(actor.allocate_container_ip("other", "v").unwrap().0, net("172.20.0.0/29"));
}

fn found(name: Option<&str>, container: Option<Option<&str>>, master: MasterLookup) -> FoundNetns {
    FoundNetns {
        name: name.map(str::to_string),
        container: container.map(|c| c.map(net)),
        master,
    }
}

#[test]
fn the_scan_skips_what_is_not_the_daemons() {
    let on = |br: &str| MasterLookup::Found(br.to_string());
    let scan = vec![
        found(None, Some(Some("172.20.0.9/29")), on("ssb-1")),
        found(Some("other"), Some(Some("172.20.0.9/29")), on("ssb-1")),
        found(Some("ssam-a"), None, on("ssb-1")),
        found(Some("ssam-b"), Some(None), on("ssb-1")),
        found(Some("ssam-c"), Some(Some("172.20.0.9/29")), on("docker0")),
        found(Some("ssam-d"), Some(Some("172.20.0.9/29")), MasterLookup::Absent),
        found(Some("ssam-e"), Some(Some("172.20.0.11/28")), on("ssb-1")),
        found(Some("ssam-f"), Some(Some("172.20.0.9/29")), on("ssb-1")),
        found(Some("ssam-g"), Some(Some("172.20.0.25/29")), MasterLookup::Failed),
    ];
    let plan = collect_restore_plan(Some(scan), 29);
    assert_eq!(plan.len(), 3);
    assert!(matches!(&plan[0], RestoreEntry::ReserveIp { ip: a, veth, master }
        if *a == ip("172.20.0.11") && veth == "ssam-e" && master.as_deref() == Some("ssb-1")));
    assert!(matches!(&plan[1], RestoreEntry::Attach(a)
        if a.br == "ssb-1" && a.subnet == net("172.20.0.8/29") && a.ip == ip("172.20.0.9")));
    assert!(matches!(&plan[2], RestoreEntry::ReserveIp { veth, master, .. }
        if veth == "ssam-g" && master.is_none()));
    assert!(collect_restore_plan(None, 29).is_empty());
}

#[test]
fn a_container_that_outlived_the_daemon_keeps_its_address() {
    let mut actor = NetworkActor::new(&config("172.20.0.0/16")).unwrap();
    let (br, veth) = (bridge_name("x"), veth_host_name("x"));
    actor.apply_restore_plan(&vec![RestoreEntry::Attach(RestoredAttach {
        br: br.clone(),
        subnet: net("172.20.0.16/29"),
        veth: veth.clone(),
        ip: ip("172.20.0.20"),
    })]);
    assert_eq!(
        actor.allocate_container_ip(&br, &veth).unwrap(),
        (net("172.20.0.16/29"), ip("172.20.0.20"))
    );
}

#[test]
fn no_two_interfaces_share_an_address() {
    let mut actor = NetworkActor::new(&config("10.0.0.0/26")).unwrap();
    actor.apply_restore_plan(&vec![RestoreEntry::ReserveIp {
        ip: ip("10.0.0.9"),
        veth: "ssam-live".to_string(),
        master: None,
    }]);
    let mut given = vec![ip("10.0.0.9")];
    for bridge in 0..8 {
        for package in 0..7 {
            let br = bridge_name(&format!("bridge{bridge}"));
            let veth = veth_host_name(&format!("package{bridge}-{package}"));
            if let Ok((_, address)) = actor.allocate_container_ip(&br, &veth) {
                assert!(!given.contains(&address));
                given.push(address);
            }
        }
    }
    assert_eq!(given.len(), 1 + 7 * 6);
}
