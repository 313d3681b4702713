use ssamd::package::{PackageFile, PackageMetadata};
use ssamd::package_status::BrokenReason;
use ssamd::parser::{is_package_file, package_files, parse_package_file, DirItem};

const EXT: &str = "ssam";

fn file(path: &str) -> Option<DirItem> {
    Some(DirItem { path: path.to_string(), is_file: true })
}

#[test]
fn test_is_package_file() {
    assert!(is_package_file(true, &format!("/tmp/d/foo.{EXT}"), EXT));
    assert!(!is_package_file(true, "/tmp/d/bar.txt", EXT));
}

#[test]
fn test_is_package_file_case_insensitive() {
    assert!(is_package_file(true, &format!("/tmp/d/foo.{}", EXT.to_uppercase()), EXT));
}

#[test]
fn what_is_no_file_is_no_package_file() {
    assert!(!is_package_file(false, "/tmp/d/foo.ssam", EXT));
    assert!(!is_package_file(true, "/tmp/d/.ssam", EXT));
    assert!(!is_package_file(true, "/tmp/d/ssam", EXT));
    assert!(is_package_file(true, "/tmp/d/foo.bar.SsAm", EXT));
}

#[test]
fn test_parse_package_uses_from_path() {
    let p = "/tmp/.tmpQx12".to_string();
    let res = parse_package_file(p.clone(), Err(BrokenReason::new("parse", "too short")))
        .expect("parse should return wrapper result");
    assert_eq!(res.path, p);
    assert!(!res.package_name.is_empty());
    assert_eq!(res.package_name, ".tmpQx12");
    assert!(res.package_file.is_err());
}

#[test]
fn a_sound_package_goes_by_its_own_name() {
    let metadata = PackageMetadata {
        name: "pkg".to_string(),
        description: String::new(),
        version: "1.0.0".to_string(),
        autostart: None,
        service_type: "simple".to_string(),
        remain_after_exit: None,
        bus_name: None,
        network_mode: None,
        bridge_interface_name: None,
        security_seccomp: false,
        security_mac: false,
    };
    let package_file = PackageFile { metadata, seccomp_policy: vec![] };
    let res = parse_package_file("/d/x.ssam".to_string(), Ok(package_file)).unwrap();
    assert_eq!(res.package_name, "pkg");
    assert!(parse_package_file("/".to_string(), Err(BrokenReason::new("", ""))).is_none());
    assert!(parse_package_file("/a/..".to_string(), Err(BrokenReason::new("", ""))).is_none());
}

#[test]
fn test_parse_packages_from_dir_filters_non_package_files() {
    let listing = vec![file("/d/a.ssam"), file("/d/b.txt")];
    let results = package_files(Some(listing), EXT);
    assert_eq!(results.len(), 1);
    assert!(results[0].ends_with("a.ssam"));
}

#[test]
fn test_dir_stream_returns_none_on_read_dir_error() {
    assert!(package_files(None, EXT).is_empty());
}

#[test]
fn test_entry_result_to_path_logs_and_returns_none_on_err() {
    let listing = vec![None, file("/d/a.ssam"), None, file("/d/b.ssam")];
    assert_eq!(package_files(Some(listing), EXT), ["/d/a.ssam", "/d/b.ssam"]);
}
