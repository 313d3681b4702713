use ssamd::bundle::{
    build_apparmor_profile, configure_network_namespace, make_bind_mounts, BundleDir, BundleError,
    ContainerBundleSpec, ContainerCommand, ContainerRuntime, ContainerSettings, DataMountPaths,
    Linux, LinuxNamespace, LinuxNamespaceType, Mount, NetworkMode, OciSpec, Process, ProfileLookup,
    Root, TransientRuntimeConfig,
};
use ssamd::network::netns_name;
use ssamd::oci::HostArch;
use ssamd::package_status::ExecutionResult;
use ssamd::package_volume::DataDirectory;

const HOST: HostArch = HostArch::X86_64;

fn create_test_seccomp_policy() -> Vec<u8> {
    br#"{"defaultAction": "SCMP_ACT_ERRNO", "syscalls": []}"#.to_vec()
}

fn create_test_oci_spec() -> OciSpec {
    OciSpec {
        linux: Linux { seccomp: None, namespaces: None, cgroups_path: None },
        process: Process { apparmor_profile: None },
        root: Some(Root { path: "/".to_string(), readonly: false }),
        mounts: Some(vec![Mount {
            destination: "/proc".to_string(),
            source: "proc".to_string(),
            typ: "proc".to_string(),
            options: vec![],
        }]),
    }
}

fn create_test_oci_spec_with_network_ns() -> OciSpec {
    let mut spec = create_test_oci_spec();
    let namespace = |typ| LinuxNamespace { typ, path: None };
    spec.linux.namespaces = Some(vec![
        namespace(LinuxNamespaceType::Pid),
        namespace(LinuxNamespaceType::Network),
        namespace(LinuxNamespaceType::Mount),
    ]);
    spec
}

fn bundle_spec(oci_template: OciSpec, network_mode: NetworkMode, name: &str) -> ContainerBundleSpec {
    ContainerBundleSpec {
        oci_template,
        seccomp_policy: None,
        mac_enabled: false,
        network_mode,
        cgroups_path: "/sys/fs/cgroup/system.slice".to_owned(),
        package_name: name.to_owned(),
        mount_point: "/tmp/mount".to_owned(),
        data_mounts: None,
        bridge_netns_path: None,
    }
}

fn new_config(spec: ContainerBundleSpec) -> Result<TransientRuntimeConfig, BundleError> {
    TransientRuntimeConfig::new(spec, "/tmp/mount", ProfileLookup::Disabled, HOST)
}

fn count_network(config: &TransientRuntimeConfig) -> usize {
    let namespaces = config.conf.linux.namespaces.as_ref().expect("Should have namespaces");
    namespaces.iter().filter(|ns| ns.typ == LinuxNamespaceType::Network).count()
}

#[test]
fn test_transient_runtime_config_actual_new_function() {
    let mut spec = bundle_spec(create_test_oci_spec(), NetworkMode::Isolated, "test-package");
    spec.seccomp_policy = Some(create_test_seccomp_policy());
    spec.mac_enabled = true;
    let result = new_config(spec);
    assert!(result.is_ok());
    let config = result.unwrap();
    assert_eq!(
        config.conf.linux.cgroups_path.as_deref(),
        Some("/sys/fs/cgroup/system.slice/test-package.service/container")
    );
    let root = config.conf.root.unwrap();
    assert_eq!(root.path, "/tmp/mount");
    assert!(root.readonly);
}

#[test]
fn test_transient_runtime_config_actual_new_with_data_directory() {
    let data = DataDirectory::new(
        "/tmp/data".to_string(),
        &Some("/app/data:/var/log".to_string()),
        None,
    );
    let mut spec = bundle_spec(create_test_oci_spec(), NetworkMode::Isolated, "test-package");
    spec.seccomp_policy = Some(create_test_seccomp_policy());
    spec.mac_enabled = true;
    spec.data_mounts = Some(DataMountPaths::new(
        data.path().to_string(),
        data.data_dirs().cloned(),
    ));
    let result = new_config(spec);
    assert!(result.is_ok());
    let mounts = result.unwrap().conf.mounts.unwrap();
    assert_eq!(mounts.len(), 3);
    assert_eq!(mounts[0].typ, "proc");
    assert_eq!(mounts[1].typ, "none");
    assert_eq!(mounts[1].options, ["rbind", "rw"]);
    assert_eq!(mounts[1].source, "/tmp/data/app/data");
    assert_eq!(mounts[1].destination, "/app/data");
    assert_eq!(mounts[2].source, "/tmp/data/var/log");
    assert_eq!(mounts[2].destination, "/var/log");
}

#[test]
fn test_transient_runtime_config_seccomp_disabled() {
    let name = "test-package-no-seccomp";
    let mut spec = bundle_spec(create_test_oci_spec(), NetworkMode::Isolated, name);
    spec.mac_enabled = true;
    let result = new_config(spec);
    assert!(result.is_ok());
    assert!(result.unwrap().conf.linux.seccomp.is_none());
}

#[test]
fn test_transient_runtime_config_seccomp() {
    let name = "test-package-with-seccomp";
    let mut spec = bundle_spec(create_test_oci_spec(), NetworkMode::Isolated, name);
    spec.seccomp_policy = Some(create_test_seccomp_policy());
    spec.mac_enabled = true;
    let result = new_config(spec);
    assert!(result.is_ok());
    let seccomp = result.unwrap().conf.linux.seccomp;
    assert!(seccomp.is_some());
    let json: serde_json::Value = serde_json::from_slice(&seccomp.unwrap().policy).unwrap();
    assert!(json.get("defaultAction").is_some());
}

fn create_test_container_command() -> ContainerCommand {
    let mut spec = bundle_spec(create_test_oci_spec(), NetworkMode::Isolated, "test-container");
    spec.seccomp_policy = Some(create_test_seccomp_policy());
    spec.mac_enabled = true;
    ContainerCommand::new("test-container".to_string(), ContainerRuntime::CRun, spec)
}

#[test]
fn test_container_command_new() {
    let executor = create_test_container_command();
    assert!(format!("{executor:?}").contains("test-container"));
    assert!(format!("{executor:?}").contains("CRun"));
}

#[test]
fn test_container_command_get_start_args() {
    let executor = create_test_container_command();
    let bundle = BundleDir::Present(Some("/tmp/bundle".to_string()));
    let start_args = executor.get_start_cmd(&bundle).expect("Should get start command");
    assert_eq!(start_args.len(), 5);
    assert_eq!(start_args[0], "/usr/bin/crun");
    assert_eq!(start_args[1], "run");
    assert_eq!(start_args[2], "--bundle");
    assert_eq!(start_args[3], "/tmp/bundle");
    assert_eq!(start_args[4], "test-container");
}

#[test]
fn test_container_command_get_stop_args() {
    let executor = create_test_container_command();
    let stop_args = executor.get_stop_cmd();
    assert_eq!(stop_args.len(), 4);
    assert_eq!(stop_args[0], "/usr/bin/crun");
    assert_eq!(stop_args[1], "delete");
    assert_eq!(stop_args[2], "--force");
    assert_eq!(stop_args[3], "test-container");
}

#[test]
fn test_container_command_get_start_args_bundle_not_exists() {
    let executor = create_test_container_command();
    let result = executor.get_start_cmd(&BundleDir::Missing);
    assert!(result.is_err(), "Should fail when bundle path doesn't exist");
    let error_msg = result.unwrap_err().message();
    assert!(
        error_msg.contains("Bundle path does not exist"),
        "Error should mention bundle path: {error_msg}"
    );
}

#[test]
fn test_container_command_unprepared_get_start_args_error() {
    let executor = create_test_container_command();
    let result = executor.get_start_cmd(&BundleDir::NotPrepared);
    assert!(result.is_err(), "Should fail before prepare");
    let error_msg = result.unwrap_err().message();
    assert!(
        error_msg.contains("not prepared"),
        "Error should mention preparation state: {error_msg}"
    );
}

#[test]
fn a_bundle_path_that_is_no_text_is_an_error() {
    let executor = create_test_container_command();
    let error = executor.get_start_cmd(&BundleDir::Present(None)).unwrap_err();
    assert_eq!(error.message(), "Invalid bundle path");
}

#[test]
fn test_container_command_prepared_get_start_args_valid() {
    let executor = create_test_container_command();
    let bundle = BundleDir::Present(Some("/tmp/bundle".to_string()));
    let start_args = executor.get_start_cmd(&bundle).expect("Should get start command");
    assert_eq!(start_args[0], "/usr/bin/crun");
    assert_eq!(start_args[1], "run");
    assert_eq!(start_args[2], "--bundle");
    assert_eq!(start_args[3], "/tmp/bundle");
    assert_eq!(start_args[4], "test-container");
}

#[test]
fn test_container_runtime_display() {
    let runtime = ContainerRuntime::CRun;
    assert_eq!(runtime.to_text(), "/usr/bin/crun");
}

#[test]
fn test_container_command_debug_format() {
    let executor = create_test_container_command();
    let debug_str = format!("{executor:?}");
    assert!(debug_str.contains("ContainerCommand"));
    assert!(debug_str.contains("test-container"));
    assert!(debug_str.contains("CRun"));
    assert!(debug_str.contains("ContainerBundleSpec"));
}

#[test]
fn test_container_runtime_variants() {
    let crun = ContainerRuntime::CRun;
    assert_eq!(crun.to_text(), "/usr/bin/crun");
    assert_eq!(format!("{crun:?}"), "CRun");
}

#[test]
fn test_execution_result_variants() {
    let failure_result = ExecutionResult::Failure("Test failure".to_string());
    assert_eq!(format!("{failure_result:?}"), "Failure(\"Test failure\")");
    let timeout_result = ExecutionResult::Timeout;
    assert_eq!(format!("{timeout_result:?}"), "Timeout");
}

#[test]
fn test_host_network_mode_removes_network_namespace() {
    let oci_spec = create_test_oci_spec_with_network_ns();
    let result = new_config(bundle_spec(oci_spec, NetworkMode::Host, "test-host-net"));
    assert!(result.is_ok());
    let config = result.unwrap();
    assert_eq!(count_network(&config), 0, "Host mode should remove network namespace");
    let namespaces = config.conf.linux.namespaces.unwrap();
    let has_pid_ns = namespaces.iter().any(|ns| ns.typ == LinuxNamespaceType::Pid);
    assert!(has_pid_ns, "Non-network namespaces should remain");
    assert_eq!(namespaces.len(), 2);
}

#[test]
fn test_none_network_mode_ensures_network_namespace_present() {
    let oci_spec = create_test_oci_spec();
    let result = new_config(bundle_spec(oci_spec, NetworkMode::Isolated, "test-none-net"));
    assert!(result.is_ok());
    assert_eq!(count_network(&result.unwrap()), 1);
}

#[test]
fn test_none_network_mode_does_not_duplicate_existing_namespace() {
    let oci_spec = create_test_oci_spec_with_network_ns();
    let result = new_config(bundle_spec(oci_spec, NetworkMode::Isolated, "test-none-dup"));
    assert!(result.is_ok());
    assert_eq!(
        count_network(&result.unwrap()),
        1,
        "Should not duplicate existing network namespace"
    );
}

#[test]
fn bridge_sets_path() {
    let mut spec = bundle_spec(create_test_oci_spec(), NetworkMode::Bridge, "test-bridge-path");
    spec.bridge_netns_path = Some("/run/netns/ssam-test".to_string());
    let result = new_config(spec);
    assert!(result.is_ok());
    let namespaces = result.unwrap().conf.linux.namespaces.unwrap();
    let net_ns = namespaces.iter().find(|ns| ns.typ == LinuxNamespaceType::Network);
    assert!(net_ns.is_some(), "Bridge mode must add a network namespace entry");
    assert_eq!(net_ns.unwrap().path.as_deref(), Some("/run/netns/ssam-test"));
}

#[test]
fn bridge_without_path_errors() {
    let spec = bundle_spec(create_test_oci_spec(), NetworkMode::Bridge, "test-bridge-no-path");
    let result = new_config(spec);
    assert!(result.is_err(), "Bridge without netns path must error");
    let err_msg = result.unwrap_err().message();
    assert!(
        err_msg.contains("bridge network mode requires a netns path"),
        "Error must describe missing netns path: {err_msg}"
    );
}

#[test]
fn namespaces_of_a_package_are_replaced() {
    let own = LinuxNamespace {
        typ: LinuxNamespaceType::Network,
        path: Some("/proc/1/ns/net".to_string()),
    };
    let out = configure_network_namespace(vec![own], NetworkMode::Isolated, &None).unwrap();
    assert_eq!(out.len(), 1);
    assert!(out[0].path.is_none());
}

#[test]
fn profile_is_the_packages_own_or_the_default() {
    let profile = |lookup| build_apparmor_profile("p", lookup);
    assert_eq!(profile(ProfileLookup::Read { found: true }).as_deref(), Some("ssam-prof-p"));
    assert_eq!(profile(ProfileLookup::Read { found: false }).as_deref(), Some("container-default"));
    assert!(profile(ProfileLookup::Unknown).is_none());
    assert!(profile(ProfileLookup::Disabled).is_none());
    assert_eq!(profile(ProfileLookup::Unreadable).as_deref(), Some("container-default"));

    let mut spec = bundle_spec(create_test_oci_spec(), NetworkMode::Host, "p");
    spec.mac_enabled = true;
    let lookup = ProfileLookup::Read { found: true };
    let config = TransientRuntimeConfig::new(spec, "/r", lookup, HOST).unwrap();
    assert_eq!(config.conf.process.apparmor_profile.as_deref(), Some("ssam-prof-p"));
    let spec = bundle_spec(create_test_oci_spec(), NetworkMode::Host, "p");
    let config = TransientRuntimeConfig::new(spec, "/r", lookup, HOST).unwrap();
    assert!(config.conf.process.apparmor_profile.is_none());
}

#[test]
fn data_directories_are_mounted_below_the_root() {
    let mounts = make_bind_mounts("/data/p", &vec!["/a".to_string(), "b/c".to_string()]);
    assert_eq!(mounts[0].source, "/data/p/a");
    assert_eq!(mounts[0].destination, "/a");
    assert_eq!(mounts[1].source, "/data/p/b/c");
    assert_eq!(mounts[1].destination, "/b/c");
}

#[test]
fn a_template_without_mounts_is_given_none() {
    let mut template = create_test_oci_spec();
    template.mounts = None;
    let mut spec = bundle_spec(template, NetworkMode::Host, "p");
    spec.data_mounts = Some(DataMountPaths::new("/d".to_string(), Some(vec!["/a".to_string()])));
    assert!(new_config(spec).unwrap().conf.mounts.is_none());
}

#[test]
fn a_command_follows_what_the_package_says() {
    let from = |seccomp, mode| {
        ContainerCommand::from_package(
            "pkg".to_string(),
            ContainerRuntime::CRun,
            create_test_oci_spec(),
            ContainerSettings { seccomp, mac: true, seccomp_policy: vec![1, 2] },
            mode,
            "/cg".to_string(),
            "/mnt/pkg".to_string(),
            None,
            "/tmp",
        )
    };
    let command = from(true, NetworkMode::Bridge);
    assert_eq!(command.spec.seccomp_policy, Some(vec![1, 2]));
    assert_eq!(
        command.spec.bridge_netns_path,
        Some(format!("/tmp/ssam/netns/{}", netns_name("pkg")))
    );
    let command = from(false, NetworkMode::Host);
    assert_eq!(command.spec.seccomp_policy, None);
    assert_eq!(command.spec.bridge_netns_path, None);
}

#[test]
fn network_modes_go_by_name() {
    assert_eq!(NetworkMode::parse("host"), Some(NetworkMode::Host));
    assert_eq!(NetworkMode::parse("none"), Some(NetworkMode::Isolated));
    assert_eq!(NetworkMode::parse("bridge"), Some(NetworkMode::Bridge));
    assert_eq!(NetworkMode::parse("Host"), None);
}
