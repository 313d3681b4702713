use ssamd::configuration::NetworkConfig;
use ssamd::network_actor::NetworkError;
use ssamd::package::PackageMetadata;
use ssamd::package_manager::{
    all_package_info, check_version, is_valid_package_name, package_statuses, plan_reload,
    InstallOrder, InstallRefusal, LoadAction, ManagerError, PackageEntry, PackageInfoResult,
    PackageLookup, PackageManagerActor, RemoveAction, RemoveEvent, RemoveFlow, RemoveRefusal,
    SourceFile, UpgradeAction, UpgradeEvent,
};
use ssamd::package_status::{BrokenReason, PackageStatus};
use ssamd::pkg_file::InstallMode;
use ssamd::store::BrokenPackageInfo;

type Manager = PackageManagerActor<u32>;

const BUNDLED: &str = "/nonexistent/bundled";
const DOWNLOADED: &str = "/tmp/downloaded";

fn make_pm() -> Manager {
    Manager::new(Some(BUNDLED.to_string()), Some(DOWNLOADED.to_string()), "ssam".to_string())
        .unwrap()
}

fn entry(path: &str, version: &str, handle: u32) -> PackageEntry<u32> {
    PackageEntry { path: path.to_string(), version: version.to_string(), handle }
}

fn broken(path: &str, summary: &str, detail: &str) -> BrokenPackageInfo {
    BrokenPackageInfo {
        package_path: path.to_string(),
        broken_info: BrokenReason::new(summary, detail),
    }
}

fn metadata(name: &str, version: &str) -> Option<PackageMetadata> {
    Some(PackageMetadata {
        name: name.to_string(),
        description: String::new(),
        version: version.to_string(),
        autostart: None,
        service_type: "simple".to_string(),
        remain_after_exit: None,
        bus_name: None,
        network_mode: None,
        bridge_interface_name: None,
        security_seccomp: false,
        security_mac: false,
    })
}

/// Removes a package on a system where everything succeeds, and tells which files went.
fn remove(pm: &mut Manager, name: &str, purge: bool) -> (Result<(), RemoveRefusal>, Vec<String>) {
    let mut removals = vec![];
    let mut flow = pm.remove_package(name, purge);
    loop {
        let event = match &flow.action {
            RemoveAction::Teardown | RemoveAction::Purge => RemoveEvent::Done(true),
            RemoveAction::RemoveFile(path) => {
                removals.push(path.clone());
                RemoveEvent::Done(true)
            }
            RemoveAction::RecoverInstalled(_) | RemoveAction::RecoverBundled(_) => {
                RemoveEvent::Recovered(None)
            }
            RemoveAction::Removed => return (Ok(()), removals),
            RemoveAction::Failed(e) => return (Err(*e), removals),
        };
        flow = pm.remove_next(flow, event);
    }
}

#[test]
fn test_install_rejects_source_inside_package_dir() {
    let pm = make_pm();
    let result = pm.ensure_external_source(&Some(format!("{DOWNLOADED}/test-pkg.ssam")));
    assert!(result.is_err());
    let err_msg = result.unwrap_err().message();
    assert!(
        err_msg.contains("inside the downloaded package directory"),
        "expected source-in-pkgdir error, got: {err_msg}"
    );
}

#[test]
fn test_install_rejects_source_inside_bundled_dir() {
    let pm = make_pm();
    let result = pm.ensure_external_source(&Some(format!("{BUNDLED}/test-pkg.ssam")));
    assert!(result.is_err());
    let err_msg = result.unwrap_err().message();
    assert!(
        err_msg.contains("inside the bundled package directory"),
        "expected source-in-bundled-dir error, got: {err_msg}"
    );
}

#[test]
fn a_source_is_looked_at_before_it_is_read() {
    let pm = make_pm();
    let source = |exists, is_package_file, canonical: Option<&str>| {
        pm.check_source(&SourceFile {
            exists,
            is_package_file,
            canonical: canonical.map(str::to_string),
        })
    };
    assert_eq!(source(false, false, None), Err(InstallRefusal::FileNotFound));
    assert_eq!(source(true, false, Some("/a.txt")), Err(InstallRefusal::NotAPackageFile));
    assert_eq!(source(true, true, None), Err(InstallRefusal::Unresolved));
    assert_eq!(source(true, true, Some("/media/a.ssam")), Ok(()));
    assert_eq!(source(true, true, Some("/tmp/downloaded-not/a.ssam")), Ok(()));
}

#[test]
fn test_valid_package_name_accepts_simple_name() {
    assert!(is_valid_package_name("my-package"));
    assert!(is_valid_package_name("pkg_v2.3"));
    assert!(is_valid_package_name("nginx"));
}

#[test]
fn test_valid_package_name_rejects_traversal() {
    assert!(!is_valid_package_name("../evil"));
    assert!(!is_valid_package_name("../../evil"));
    assert!(!is_valid_package_name("sub/../evil"));
    assert!(!is_valid_package_name(".."));
}

#[test]
fn test_valid_package_name_rejects_subdirectory() {
    assert!(!is_valid_package_name("subdir/name"));
}

#[test]
fn test_valid_package_name_rejects_absolute_path() {
    assert!(!is_valid_package_name("/abs/name"));
    assert!(!is_valid_package_name("/etc/passwd"));
}

#[test]
fn test_valid_package_name_rejects_empty() {
    assert!(!is_valid_package_name(""));
}

#[test]
fn test_valid_package_name_rejects_trailing_slash() {
    assert!(!is_valid_package_name("pkg/"));
}

#[test]
fn test_is_bundled_package_detection() {
    let pm = make_pm();
    assert!(pm.is_bundled_package("/nonexistent/bundled/pkg.ssam"));
    assert!(!pm.is_bundled_package("/tmp/downloaded/pkg.ssam"));
    assert!(!pm.is_bundled_package("/nonexistent/bundled-extra/pkg.ssam"));
}

#[test]
fn test_remove_broken_bundled_package_is_rejected() {
    let mut pm = make_pm();
    pm.insert_broken(
        "broken-bundled-pkg".to_string(),
        broken(
            "/nonexistent/bundled/broken-bundled-pkg.ssam",
            "parse failure",
            "mock broken package for testing",
        ),
    );
    let (result, _) = remove(&mut pm, "broken-bundled-pkg", true);
    assert!(result.is_err(), "should reject removal of broken bundled package");
    let err_msg = result.unwrap_err().message();
    assert!(
        err_msg.contains("Cannot remove broken bundled package"),
        "expected bundled rejection error, got: {err_msg}"
    );
}

#[test]
fn test_remove_broken_downloaded_package_succeeds() {
    let mut pm = make_pm();
    let pkg_path = "/tmp/downloaded/broken-dl.ssam";
    pm.insert_broken(
        "broken-dl".to_string(),
        broken(pkg_path, "parse failure", "corrupted package"),
    );
    let (result, removals) = remove(&mut pm, "broken-dl", true);
    assert!(result.is_ok(), "removing broken downloaded package should succeed");
    assert!(
        pm.get_broken("broken-dl").is_none(),
        "broken entry should be cleared from store"
    );
    assert_eq!(removals, [pkg_path]);
}

#[test]
fn test_remove_broken_downloaded_restores_bundled() {
    let mut pm = make_pm();
    let broken_dl_path = "/tmp/downloaded/shared-pkg.ssam";
    pm.insert_bundled_path(
        "shared-pkg".to_string(),
        "/nonexistent/bundled/shared-pkg.ssam".to_string(),
    );
    pm.insert_broken(
        "shared-pkg".to_string(),
        broken(broken_dl_path, "parse failure", "corrupted download"),
    );
    let (result, removals) = remove(&mut pm, "shared-pkg", true);
    assert!(result.is_ok(), "removing broken downloaded should succeed");
    assert!(pm.get_broken("shared-pkg").is_none(), "broken entry should be cleared");
    assert_eq!(removals, [broken_dl_path], "should remove the broken downloaded file");
    assert!(
        pm.get_bundled_path("shared-pkg").is_some(),
        "bundled_path should persist after removing the downloaded override"
    );
}

#[test]
fn a_bundled_package_is_not_removed() {
    let mut pm = make_pm();
    pm.store_package("p".to_string(), entry("/nonexistent/bundled/p.ssam", "1.0.0", 1));
    let (result, removals) = remove(&mut pm, "p", true);
    assert_eq!(result, Err(RemoveRefusal::Bundled));
    assert!(removals.is_empty());
    assert!(pm.get_package("p").is_some());
}

#[test]
fn removing_an_installed_package_brings_the_bundled_one_back() {
    let mut pm = make_pm();
    pm.insert_bundled_path("p".to_string(), "/nonexistent/bundled/p.ssam".to_string());
    pm.store_package("p".to_string(), entry("/tmp/downloaded/p.ssam", "2.0.0", 2));
    let flow = pm.remove_package("p", false);
    assert!(matches!(flow.action, RemoveAction::Teardown));
    let flow = pm.remove_next(flow, RemoveEvent::Done(true));
    assert!(matches!(&flow.action, RemoveAction::RemoveFile(p) if p == "/tmp/downloaded/p.ssam"));
    let flow = pm.remove_next(flow, RemoveEvent::Done(true));
    assert!(
        matches!(&flow.action, RemoveAction::RecoverBundled(p) if p == "/nonexistent/bundled/p.ssam")
    );
    let bundled = entry("/nonexistent/bundled/p.ssam", "1.0.0", 1);
    let flow = pm.remove_next(flow, RemoveEvent::Recovered(Some(bundled)));
    assert!(matches!(flow.action, RemoveAction::Removed));
    assert_eq!(pm.get_package("p").unwrap().version, "1.0.0");
}

#[test]
fn a_removal_can_fail_at_each_step() {
    let mut pm = make_pm();
    let installed = || entry("/tmp/downloaded/p.ssam", "2.0.0", 2);
    let failed = |flow: &RemoveFlow, refusal| {
        matches!(flow.action, RemoveAction::Failed(e) if e == refusal)
    };
    pm.store_package("p".to_string(), installed());
    let flow = pm.remove_package("p", true);
    let flow = pm.remove_next(flow, RemoveEvent::Done(false));
    assert!(failed(&flow, RemoveRefusal::Teardown));
    assert!(pm.get_package("p").is_some());

    let flow = pm.remove_package("p", true);
    let flow = pm.remove_next(flow, RemoveEvent::Done(true));
    assert!(pm.get_package("p").is_none());
    let flow = pm.remove_next(flow, RemoveEvent::Done(false));
    assert!(matches!(&flow.action, RemoveAction::RecoverInstalled(_)));
    let flow = pm.remove_next(flow, RemoveEvent::Recovered(Some(installed())));
    assert!(failed(&flow, RemoveRefusal::Purge));
    assert_eq!(pm.get_package("p").unwrap().handle, 2);

    let flow = pm.remove_package("p", false);
    let flow = pm.remove_next(flow, RemoveEvent::Done(true));
    let flow = pm.remove_next(flow, RemoveEvent::Done(false));
    assert!(failed(&flow, RemoveRefusal::RemoveFile));
}

#[test]
fn test_get_package_names_empty() {
    assert!(make_pm().get_package_names().is_empty());
}

#[test]
fn test_get_packages_status_empty() {
    let pm = make_pm();
    assert!(package_statuses(vec![], &pm.broken_packages()).is_empty());
}

#[test]
fn test_get_all_package_info_empty() {
    let pm = make_pm();
    assert!(all_package_info(vec![], pm.broken_packages()).is_empty());
}

#[test]
fn test_get_package_info_not_found() {
    assert!(matches!(make_pm().find("nonexistent"), PackageLookup::NotFound));
}

#[test]
fn test_remove_package_not_found() {
    let (result, removals) = remove(&mut make_pm(), "nonexistent", true);
    assert!(result.is_err());
    assert_eq!(result, Err(RemoveRefusal::NotFound));
    assert!(removals.is_empty());
}

#[test]
fn test_install_package_invalid_path() {
    // There is no file at "/nonexistent/path.ssam".
    let result = make_pm().check_source(&SourceFile {
        exists: false,
        is_package_file: false,
        canonical: None,
    });
    assert!(result.is_err());
}

#[test]
fn packages_are_listed_by_name() {
    let mut pm = make_pm();
    pm.load_parsed_package("a".to_string(), Ok(entry("/x/a.ssam", "1.0.0", 1)), String::new());
    pm.load_parsed_package("b".to_string(), Ok(entry("/x/b.ssam", "1.0.0", 2)), String::new());
    pm.load_parsed_package("a".to_string(), Ok(entry("/y/a.ssam", "1.1.0", 3)), String::new());
    pm.load_parsed_package(
        "c.ssam".to_string(),
        Err(BrokenReason::new("bad", "worse")),
        "/x/c.ssam".to_string(),
    );
    let mut names = pm.get_package_names();
    names.sort();
    assert_eq!(names, ["a", "b"]);
    assert!(matches!(pm.find("a"), PackageLookup::Normal(e) if e.handle == 3));
    assert!(matches!(pm.find("c.ssam"), PackageLookup::Broken(b) if b.package_path == "/x/c.ssam"));
    let sound = vec![("a".to_string(), PackageStatus::Ready)];
    let statuses = package_statuses(sound, &pm.broken_packages());
    assert_eq!(statuses[0], ("a".to_string(), PackageStatus::Ready));
    assert_eq!(
        statuses[1],
        ("c.ssam".to_string(), PackageStatus::Broken(BrokenReason::new("bad", "worse")))
    );
    let infos = all_package_info(vec![], pm.broken_packages());
    assert!(matches!(&infos[0], PackageInfoResult::Broken { filename, .. } if filename == "c.ssam"));
    pm.teardown_all();
    assert!(pm.get_package_names().is_empty());
    assert!(pm.broken_packages().is_empty());
}

#[test]
fn versions_decide_whether_a_package_is_installed() {
    let mut pm = make_pm();
    pm.store_package("p".to_string(), entry("/tmp/downloaded/p.ssam", "1.2.3", 1));
    let mut prepare = |version: &str, force| {
        pm.prepare_install_package(&metadata("p", version), force, true).map(|plan| plan.dest)
    };
    assert_eq!(prepare("1.2.3", false), Err(InstallRefusal::NotNewer));
    assert_eq!(prepare("1.2.2", false), Err(InstallRefusal::NotNewer));
    assert_eq!(prepare("1.2.3-rc.1", false), Err(InstallRefusal::NotNewer));
    assert_eq!(prepare("1.2", false), Err(InstallRefusal::InvalidVersion));
    assert_eq!(prepare("1.2.3", true).unwrap(), "/tmp/downloaded/p.ssam");
    assert_eq!(prepare("1.2.2", true).unwrap(), "/tmp/downloaded/p.ssam");
    assert_eq!(prepare("1.10.0", false).unwrap(), "/tmp/downloaded/p.ssam");
    assert_eq!(check_version(None, true), Some(InstallRefusal::InvalidVersion));
    assert_eq!(check_version(Some(true), false), Some(InstallRefusal::NotNewer));
    assert_eq!(check_version(Some(false), false), None);
}

#[test]
fn an_installation_is_planned() {
    let mut pm = make_pm();
    assert_eq!(
        pm.prepare_install_package(&None, false, true).unwrap_err(),
        InstallRefusal::Broken
    );
    assert_eq!(
        pm.prepare_install_package(&metadata("a/b", "1.0.0"), false, true).unwrap_err(),
        InstallRefusal::InvalidName
    );
    assert_eq!(
        pm.prepare_install_package(&metadata("p", "1.0.0"), false, false).unwrap_err(),
        InstallRefusal::VolumeMetadata
    );
    pm.insert_broken("p.ssam".to_string(), broken("/tmp/downloaded/p.ssam", "x", "y"));
    let plan = pm.prepare_install_package(&metadata("p", "1.0.0"), false, true).unwrap();
    assert_eq!(plan.dest, "/tmp/downloaded/p.ssam");
    assert!(plan.existing.is_none());
    assert!(pm.get_broken("p.ssam").is_some());
    pm.insert_broken("q.ssam".to_string(), broken("/tmp/downloaded/q.ssam", "x", "y"));
    pm.forget_broken("/tmp/downloaded/..");
    assert!(pm.get_broken("p.ssam").is_some());
    pm.forget_broken(&plan.dest);
    assert!(pm.get_broken("p.ssam").is_none());
    assert!(pm.get_broken("q.ssam").is_some());

    pm.store_package("p".to_string(), entry("/nonexistent/bundled/p.ssam", "1.0.0", 1));
    let plan = pm.prepare_install_package(&metadata("p", "1.1.0"), false, true).unwrap();
    assert!(matches!(plan.existing, Some((InstallMode::UpgradeBundled, _))));
    pm.store_package("p".to_string(), entry("/tmp/downloaded/p.ssam", "1.0.0", 1));
    let plan = pm.prepare_install_package(&metadata("p", "1.1.0"), false, true).unwrap();
    assert!(matches!(plan.existing, Some((InstallMode::UpgradeDownloaded { installed_path }, _))
        if installed_path == "/tmp/downloaded/p.ssam"));
}

#[test]
fn a_failed_upgrade_reads_the_installed_package_again() {
    let mut pm = make_pm();
    let old = || entry("/tmp/downloaded/p.ssam", "1.0.0", 1);
    let new = || entry("/tmp/downloaded/p.ssam", "1.1.0", 2);
    pm.store_package("p".to_string(), old());
    let plan = pm.prepare_install_package(&metadata("p", "1.1.0"), false, true).unwrap();
    let order = InstallOrder { source: "/new/p.ssam".to_string(), plan, remove_data: true };
    let install = || UpgradeAction::Install {
        source: "/new/p.ssam".to_string(),
        dest: "/tmp/downloaded/p.ssam".to_string(),
        mode: InstallMode::UpgradeDownloaded {
            installed_path: "/tmp/downloaded/p.ssam".to_string(),
        },
        remove_data: true,
    };
    assert_eq!(order.first(), UpgradeAction::PrepareUpgrade);
    let refused = pm.install_next(&order, order.first(), UpgradeEvent::Prepared(false));
    assert_eq!(refused, UpgradeAction::Failed(InstallRefusal::PrepareUpgrade));
    let action = pm.install_next(&order, order.first(), UpgradeEvent::Prepared(true));
    assert_eq!(action, install());
    let failed = pm.install_next(&order, action, UpgradeEvent::Installed(None));
    assert_eq!(failed, UpgradeAction::Recover { path: "/tmp/downloaded/p.ssam".to_string() });
    let end = pm.install_next(&order, failed, UpgradeEvent::Recovered(Some(old())));
    assert_eq!(end, UpgradeAction::Failed(InstallRefusal::Install));
    assert_eq!(pm.get_package("p").unwrap().handle, 1);
    let end = pm.install_next(&order, install(), UpgradeEvent::Installed(Some(new())));
    assert_eq!(end, UpgradeAction::Installed);
    assert_eq!(pm.get_package("p").unwrap().handle, 2);
}

#[test]
fn a_new_package_that_fails_to_install_leaves_the_store_unchanged() {
    let mut pm = make_pm();
    let plan = pm.prepare_install_package(&metadata("q", "1.0.0"), false, true).unwrap();
    let order = InstallOrder { source: "/new/q.ssam".to_string(), plan, remove_data: true };
    let first = order.first();
    assert_eq!(
        first,
        UpgradeAction::Install {
            source: "/new/q.ssam".to_string(),
            dest: "/tmp/downloaded/q.ssam".to_string(),
            mode: InstallMode::Fresh,
            remove_data: false,
        }
    );
    let end = pm.install_next(&order, first, UpgradeEvent::Installed(None));
    assert_eq!(end, UpgradeAction::Failed(InstallRefusal::Install));
    assert!(pm.get_package("q").is_none());
}

#[test]
fn what_was_installed_is_loaded_in_place_of_what_came_with_the_system() {
    let names = |l: &[&str]| l.iter().map(|s| s.to_string()).collect::<Vec<_>>();
    assert_eq!(
        plan_reload(&names(&["a", "b"]), &names(&["b", "c"])),
        [
            LoadAction::RecordBundled(0),
            LoadAction::LoadBundled(0),
            LoadAction::RecordBundled(1),
            LoadAction::LoadDownloaded(0),
            LoadAction::LoadDownloaded(1),
        ]
    );
}

#[test]
fn the_two_directories_must_be_two() {
    let dir = |s: &str| Some(s.to_string());
    let error = |b, d| Manager::new(b, d, "ssam".to_string()).err();
    assert_eq!(error(None, None), Some(ManagerError::BundledUnresolved));
    assert_eq!(error(dir("/a"), None), Some(ManagerError::DownloadedUnresolved));
    assert_eq!(error(dir("/a/b"), dir("/a//b/")), Some(ManagerError::SameDirectory));
    assert_eq!(error(dir("/a/b"), dir("/a")), None);
}

#[test]
fn there_is_a_network_where_it_is_enabled() {
    let network = |bridge_enabled, subnet: &str| NetworkConfig {
        bridge_enabled,
        bridge_name: "br".to_string(),
        subnet: subnet.to_string(),
        gateway: 0,
    };
    let make = |config: Option<&NetworkConfig>| {
        Manager::from_config(
            Some("/b".to_string()),
            Some("/d".to_string()),
            "ssam".to_string(),
            config,
        )
    };
    assert!(make(None).unwrap().1.is_none());
    assert!(make(Some(&network(false, "nonsense"))).unwrap().1.is_none());
    let (pm, actor) = make(Some(&network(true, "10.0.0.0/16"))).unwrap();
    assert_eq!(pm.bundled_dir(), "/b");
    assert_eq!(pm.downloaded_dir(), "/d");
    assert_eq!(actor.unwrap().subnet_prefix(), 29);
    assert_eq!(
        make(Some(&network(true, "nonsense"))).err(),
        Some(ManagerError::Network(NetworkError::InvalidBase))
    );
    assert_eq!(
        make(Some(&network(true, "10.0.0.0/30"))).err(),
        Some(ManagerError::Network(NetworkError::PrefixOutOfRange))
    );
}
