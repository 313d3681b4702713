use ssamd::configuration::{Common, Configuration};
use ssamd::daemon::{Daemon, RunAction, StartError, DEFAULT_RPC_BIND_IP_ADDR};

#[test]
fn validate_rejects_empty_bundled_dir() {
    let result = Daemon::validate_package_dirs("", "/some/path", false);
    assert!(result.is_err());
    assert!(result.unwrap_err().message().contains("bundled_packages_dir must not be empty"));
}

#[test]
fn validate_rejects_empty_downloaded_dir() {
    let result = Daemon::validate_package_dirs("/some/path", "", true);
    assert!(result.is_err());
    assert!(result.unwrap_err().message().contains("downloaded_packages_dir must not be empty"));
}

#[test]
fn validate_rejects_nonexistent_bundled_dir() {
    let result = Daemon::validate_package_dirs("/tmp/no_such_dir", "/tmp/downloaded", false);
    assert!(result.is_err(), "nonexistent bundled_dir should be rejected");
    assert_eq!(
        result.unwrap_err().message(),
        "Bundled packages directory does not exist: /tmp/no_such_dir"
    );
    assert!(Daemon::validate_package_dirs("/tmp/dir", "/tmp/downloaded", true).is_ok());
}

fn config(bundled: &str, cgroup: &str, bind: Option<&str>) -> Configuration {
    let text = |s: &str| s.to_string();
    Configuration::new(
        Common {
            bundled_packages_dir: text(bundled),
            downloaded_packages_dir: text("/d"),
            packages_data_root: text("/data"),
            packages_overlayfs_root: text(""),
            packages_mnt_root: text("/mnt"),
            public_key_file_path: text("/key"),
            packages_cgroup: text(cgroup),
            packages_ext: text("ssam"),
            rpc_bind_ip: bind.map(text),
        },
        None,
    )
}

#[test]
fn the_key_must_be_a_file() {
    let config = config("/b", "", None);
    let error = Daemon::setup_runtime_environ(&config, false).unwrap_err();
    assert_eq!(error.message(), "Public key file not found: /key");
    assert_eq!(Daemon::setup_runtime_environ(&config, true).unwrap(), ["/d", "/data", "/mnt"]);
}

#[test]
fn a_configured_control_group_must_be_there() {
    assert!(Daemon::package_cgroup_exists("", false).is_ok());
    assert!(Daemon::package_cgroup_exists("a.slice", true).is_ok());
    assert_eq!(
        Daemon::package_cgroup_exists("a.slice", false).unwrap_err().message(),
        "Cgroup a.slice does not exist. Check your build configuration."
    );
}

#[test]
fn the_address_to_listen_on_defaults_to_the_local_host() {
    assert_eq!(DEFAULT_RPC_BIND_IP_ADDR, u32::from_be_bytes([127, 0, 0, 1]));
    assert_eq!(Daemon::bind_address(Some("10.1.2.3")), u32::from_be_bytes([10, 1, 2, 3]));
    assert_eq!(Daemon::bind_address(Some("10.1.2")), DEFAULT_RPC_BIND_IP_ADDR);
    assert_eq!(Daemon::bind_address(Some("::1")), DEFAULT_RPC_BIND_IP_ADDR);
    assert_eq!(Daemon::bind_address(None), DEFAULT_RPC_BIND_IP_ADDR);
}

#[test]
fn the_daemon_starts_step_by_step() {
    let own = config("/b", "a.slice", Some("10.0.0.1"));
    let action = Daemon::run_first(&own, true, true);
    assert!(matches!(&action, RunAction::MakeDirs(dirs) if dirs == &["/d", "/data", "/mnt"]));
    let action = Daemon::run_next(&own, action, true);
    assert!(matches!(action, RunAction::CheckCgroup));
    let action = Daemon::run_next(&own, action, true);
    assert!(matches!(action, RunAction::LoadPackages));
    let action = Daemon::run_next(&own, action, true);
    assert!(matches!(action, RunAction::NotifyReady));
    let action = Daemon::run_next(&own, action, true);
    assert!(matches!(action, RunAction::Serve(0x0a00_0001)));
    let action = Daemon::run_next(&own, action, false);
    assert!(matches!(action, RunAction::Stopped));

    let without = config("/b", "", None);
    let action = Daemon::run_next(&without, RunAction::MakeDirs(vec![]), true);
    assert!(matches!(action, RunAction::LoadPackages));
    let action = Daemon::run_next(&without, RunAction::NotifyReady, true);
    assert!(matches!(action, RunAction::Serve(DEFAULT_RPC_BIND_IP_ADDR)));
}

#[test]
fn the_start_can_fail_at_each_step() {
    let own = config("/b", "a.slice", None);
    let failed = |action| match action {
        RunAction::Failed(e) => e.message(),
        other => panic!("not failed: {other:?}"),
    };
    let message = failed(Daemon::run_first(&config("", "", None), true, true));
    assert_eq!(message, StartError::EmptyBundledDir.message());
    let message = failed(Daemon::run_first(&own, false, true));
    assert_eq!(message, "Bundled packages directory does not exist: /b");
    let message = failed(Daemon::run_first(&own, true, false));
    assert_eq!(message, "Public key file not found: /key");
    let message = failed(Daemon::run_next(&own, RunAction::MakeDirs(vec![]), false));
    assert_eq!(message, StartError::MakeDir.message());
    let message = failed(Daemon::run_next(&own, RunAction::CheckCgroup, false));
    assert_eq!(message, "Cgroup a.slice does not exist. Check your build configuration.");
    let message = failed(Daemon::run_next(&own, RunAction::LoadPackages, false));
    assert_eq!(message, StartError::Packages.message());
    let message = failed(Daemon::run_next(&own, RunAction::NotifyReady, false));
    assert_eq!(message, StartError::Notify.message());
}
