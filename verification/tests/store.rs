use ssamd::package_status::BrokenReason;
use ssamd::store::{BrokenPackageInfo, PackageStore};
use std::sync::Arc;

struct MockPackage;

fn broken(path: &str, summary: &str, detail: &str) -> BrokenPackageInfo {
    BrokenPackageInfo {
        package_path: path.to_string(),
        broken_info: BrokenReason::new(summary, detail),
    }
}

#[test]
fn hashmap_package_store_basic() {
    let mut store = PackageStore::<Arc<MockPackage>>::new();
    let pkg = Arc::new(MockPackage);

    // initially empty
    assert!(store.get("a").is_none());

    // insert
    let prev = store.insert("a".to_string(), pkg.clone());
    assert!(prev.is_none());
    assert!(store.get("a").is_some());

    // get
    let got = store.get("a").expect("package should exist");
    assert!(Arc::ptr_eq(got, &pkg));

    // get_all
    let all = store.get_all();
    assert_eq!(all.len(), 1);

    // remove
    let removed = store.remove("a");
    assert!(removed.is_some());
    assert!(store.get("a").is_none());

    // clear (no-op) and verify empty
    store.clear();
    assert_eq!(store.get_all().len(), 0);
}

#[test]
fn broken_package_flow() {
    let mut store = PackageStore::<Arc<MockPackage>>::new();

    // insert broken
    store.insert_broken("b".to_string(), broken("/broken/b.ssam", "reason", "detailed reason"));

    // get_broken with key
    let bp = store.get_broken("b");
    assert_eq!(bp.as_ref().map(|i| i.broken_info.summary.as_str()), Some("reason"));
    assert_eq!(bp.as_ref().map(|i| i.package_path.as_str()), Some("/broken/b.ssam"));

    // get_broken_all
    let all_broken = store.get_broken_all();
    assert_eq!(all_broken.len(), 1);
    assert_eq!(all_broken.get("b").map(|i| i.broken_info.summary.as_str()), Some("reason"));

    // remove_broken
    let removed = store.remove_broken("b");
    assert_eq!(removed.as_ref().map(|i| i.broken_info.summary.as_str()), Some("reason"));

    // now empty
    assert!(store.get_broken("b").is_none());
    assert!(store.get_broken_all().is_empty());

    // clear_broken
    store.insert_broken("x".to_string(), broken("/broken/x.ssam", "r", "r"));
    store.clear_broken();
    assert!(store.get_broken("x").is_none());
    assert!(store.get_broken_all().is_empty());
}

#[test]
fn package_store_clear_all() {
    let mut store = PackageStore::<Arc<MockPackage>>::new();
    store.insert("p".to_string(), Arc::new(MockPackage));
    store.insert_broken("p2".to_string(), broken("/broken/p2.ssam", "r", "r"));
    store.insert_bundled_path("p3".to_string(), "/bundled/p3.ssam".to_string());

    store.clear_all();

    assert!(store.get_all().is_empty());
    assert!(store.get_broken_all().is_empty());
    assert!(store.get_bundled_path("p3").is_none());
}

#[test]
fn bundled_path_flow() {
    let mut store = PackageStore::<Arc<MockPackage>>::new();
    assert!(store.get_bundled_path("a").is_none());
    store.insert_bundled_path("a".to_string(), "/bundled/a.ssam".to_string());
    let path = store.get_bundled_path("a");
    assert_eq!(path.map(String::as_str), Some("/bundled/a.ssam"));
    store.clear_bundled_paths();
    assert!(store.get_bundled_path("a").is_none());
}

#[test]
fn a_package_that_is_inserted_again_is_replaced() {
    let mut store = PackageStore::<u32>::new();
    assert_eq!(store.insert("a".to_string(), 1), None);
    assert_eq!(store.insert("b".to_string(), 2), None);
    assert_eq!(store.insert("a".to_string(), 3), Some(1));
    assert_eq!(store.get_all().len(), 2);
    assert_eq!(store.get("a"), Some(&3));
    assert_eq!(store.get("b"), Some(&2));
}
