use ssamd::bundle::{ContainerRuntime, DataMountPaths, Linux, NetworkMode, OciSpec, Process};
use ssamd::network::netns_name;
use ssamd::package::{
    package_info, receiver_next, resolve_network_mode, Package, PackageContext, PackageError,
    PackageFile, PackageMetadata, PackageSurroundings, QuotaInformation, ReceiverAction,
    ReceiverEvent,
};
use ssamd::package_status::{
    BrokenReason, ExecutionResult, ExecutionStatus, PackagePhase, PackageStatus,
};
use ssamd::state_machine::{Outcome, Reply};
use ssamd::systemd::ContainerServiceType;
use ssamd::transition::Operation;

fn metadata() -> PackageMetadata {
    PackageMetadata {
        name: "test-pkg".to_string(),
        description: "unit test package".to_string(),
        version: "1.0.0".to_string(),
        autostart: Some(false),
        service_type: "simple".to_string(),
        remain_after_exit: Some(true),
        bus_name: None,
        network_mode: None,
        bridge_interface_name: None,
        security_seccomp: true,
        security_mac: false,
    }
}

fn context(metadata: PackageMetadata) -> PackageContext {
    PackageContext::new(
        "/pkgs/test-pkg.ssam".to_string(),
        PackageFile { metadata, seccomp_policy: b"{}".to_vec() },
    )
}

fn around(has_network: bool) -> PackageSurroundings {
    PackageSurroundings {
        oci_template: OciSpec {
            linux: Linux { seccomp: None, namespaces: None, cgroups_path: None },
            process: Process { apparmor_profile: None },
            root: None,
            mounts: None,
        },
        mount_point: "/mnt/test-pkg".to_string(),
        data_mounts: Some(DataMountPaths::new("/data/test-pkg".to_string(), None)),
        packages_cgroup: String::new(),
        temp_dir: "/tmp".to_string(),
        has_network,
    }
}

#[test]
fn a_package_is_made_from_its_file() {
    let package = Package::new(context(metadata()), around(true)).unwrap();
    assert_eq!(package.get_name(), "test-pkg");
    assert_eq!(package.get_version(), "1.0.0");
    assert_eq!(package.get_metadata().description, "unit test package");
    assert_eq!(package.get_package_file_path(), "/pkgs/test-pkg.ssam");
    assert!(!package.is_autostart());
    assert_eq!(package.get_status(), PackageStatus::Verified);
    assert_eq!(package.container_interface(), "eth0");
    assert!(!package.uses_bridge());
    assert_eq!(package.service_info().service_type, ContainerServiceType::Simple);
    assert_eq!(package.service_info().remain_after_exit, Some(true));
    let command = package.command();
    assert_eq!(command.runtime, ContainerRuntime::CRun);
    assert_eq!(command.spec.network_mode, NetworkMode::Host);
    assert_eq!(command.spec.cgroups_path, "system.slice");
    assert_eq!(command.spec.seccomp_policy.as_deref(), Some(&b"{}"[..]));
    assert_eq!(command.spec.bridge_netns_path, None);
}

#[test]
fn a_package_on_a_bridge_has_a_namespace() {
    let bridged = PackageMetadata {
        network_mode: Some("bridge".to_string()),
        bridge_interface_name: Some("net0".to_string()),
        security_seccomp: false,
        ..metadata()
    };
    let package = Package::new(context(bridged.clone()), around(true)).unwrap();
    assert!(package.uses_bridge());
    assert_eq!(package.container_interface(), "net0");
    assert_eq!(package.command().spec.seccomp_policy, None);
    assert_eq!(
        package.command().spec.bridge_netns_path,
        Some(format!("/tmp/ssam/netns/{}", netns_name("test-pkg")))
    );
    let package = Package::new(context(bridged), around(false)).unwrap();
    assert!(!package.uses_bridge());
    assert_eq!(package.command().spec.network_mode, NetworkMode::Host);
}

#[test]
fn network_mode_and_service_type_must_be_known() {
    let wrong = PackageMetadata { network_mode: Some("wifi".to_string()), ..metadata() };
    assert_eq!(
        Package::new(context(wrong), around(true)).err(),
        Some(PackageError::InvalidNetworkMode)
    );
    let wrong = PackageMetadata { service_type: "daemon".to_string(), ..metadata() };
    assert_eq!(
        Package::new(context(wrong), around(true)).err(),
        Some(PackageError::InvalidServiceType)
    );
    let mode = |name: &str, net| resolve_network_mode(&Some(name.to_string()), net);
    assert_eq!(mode("none", false), Ok(NetworkMode::Isolated));
    assert_eq!(mode("bridge", false), Ok(NetworkMode::Host));
    assert_eq!(mode("bridge", true), Ok(NetworkMode::Bridge));
    assert_eq!(resolve_network_mode(&None, true), Ok(NetworkMode::Host));
}

#[test]
fn packages_start_by_themselves_unless_they_say_otherwise() {
    let autostart = |autostart| context(PackageMetadata { autostart, ..metadata() }).is_autostart();
    assert!(autostart(None));
    assert!(autostart(Some(true)));
    assert!(!autostart(Some(false)));
}

#[test]
fn a_package_is_set_up_and_perhaps_started() {
    let requests = |autostart| {
        let own = PackageMetadata { autostart, ..metadata() };
        Package::new(context(own), around(true)).unwrap().initialize()
    };
    assert_eq!(requests(Some(false)), [PackageStatus::SettingUp]);
    assert_eq!(requests(None), [PackageStatus::SettingUp, PackageStatus::StartRequested]);
}

#[test]
fn a_package_goes_through_its_life() {
    let mut package = Package::new(context(metadata()), around(true)).unwrap();
    assert!(!package.teardown());
    assert!(matches!(package.setup(), Reply::Perform(Operation::Setup)));
    assert!(!package.is_idle());
    assert!(matches!(package.completed(Outcome::Done(Ok(()))), Reply::Finished(Ok(()))));
    assert!(matches!(package.request_start(), Reply::Perform(Operation::Start)));
    let started = ExecutionResult::Success(ExecutionStatus::Active("active".to_string()));
    assert!(matches!(package.completed(Outcome::Executed(Ok(started))), Reply::Finished(Ok(()))));
    assert_eq!(package.get_status(), PackageStatus::Running("active".to_string()));
    assert!(package.teardown());
    assert!(matches!(package.cleanup(), Reply::Finished(Err(_))));
    assert!(matches!(package.request_stop(), Reply::Perform(Operation::Stop)));
    let stopped = ExecutionResult::Success(ExecutionStatus::Inactive("inactive".to_string()));
    package.completed(Outcome::Executed(Ok(stopped)));
    assert!(matches!(package.prepare_upgrade(), Reply::Perform(Operation::Teardown)));
    package.completed(Outcome::Done(Ok(())));
    assert_eq!(package.get_status(), PackageStatus::Upgrading);
    assert!(package.is_idle());
}

#[test]
fn a_package_can_be_told_of() {
    let package = Package::new(context(metadata()), around(true)).unwrap();
    let info = package.get_package_info(Some(4096));
    assert_eq!(info.package_name, "test-pkg");
    assert_eq!(info.package_path, "/pkgs/test-pkg.ssam");
    assert_eq!(info.package_status, PackageStatus::Verified.to_text());
    assert_eq!(info.package_metadata.version, "1.0.0");
    assert_eq!(info.quota_info, QuotaInformation { enabled: true, limit: 4096 });
    let info = package_info(&context(metadata()), &PackageStatus::Ready, None);
    assert_eq!(info.quota_info, QuotaInformation { enabled: false, limit: 0 });
}

#[test]
fn states_of_the_unit_are_followed() {
    let next = receiver_next(ReceiverEvent::State(ExecutionStatus::Active("failed".to_string())));
    assert!(matches!(next, ReceiverAction::TransitionTo(PackageStatus::Running(s)) if s == "failed"));
    let next = receiver_next(ReceiverEvent::Closed);
    assert!(matches!(next, ReceiverAction::EndWithError(PackageStatus::Error(e))
        if e == "Channel closed"));
    let next = receiver_next(ReceiverEvent::TransitionFailed("no".to_string()));
    assert!(matches!(next, ReceiverAction::EndWithError(PackageStatus::Error(e)) if e == "no"));
}

#[test]
fn statuses_are_compared_with_their_text() {
    let running = |s: &str| PackageStatus::Running(s.to_string());
    assert_eq!(running("active"), running("active"));
    assert_ne!(running("active"), running("failed"));
    assert_ne!(running("active"), PackageStatus::Ready);
    let broken = |s: &str| PackageStatus::Broken(BrokenReason::new(s, "d"));
    assert_eq!(broken("a").clone(), broken("a"));
    assert_ne!(broken("a"), broken("b"));
    assert_ne!(running("active").to_text(), PackageStatus::Ready.to_text());
    assert_ne!(PackagePhase::Parse.to_text(), "");
}
