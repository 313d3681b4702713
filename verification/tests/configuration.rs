use ssamd::configuration::{
    bundled_packages_dir, default_config_path, downloaded_packages_dir, init, init_refusal,
    network_config, packages_cgroup, packages_data_root, packages_ext, packages_mnt_root,
    packages_overlayfs_root, public_key_file_path, rpc_bind_ip, BridgeConfig, ConfigError,
    Configuration, Document, Entry, GlobalConfig, InitError, NamedEntry, Section,
};

const TEST_CONFIG: &str = r#"
    [common]
    bundled_packages_dir = "/var/lib/ssamd/bundled"
    downloaded_packages_dir = "/test/packages"
    packages_data_root = "/test/data"
    packages_overlayfs_root = "/test/overlay"
    packages_mnt_root = "/test/mnt"
    public_key_file_path = "/test/key.pub"
    packages_cgroup = "test.slice"
    packages_ext = "tpkg"
"#;

const SYSTEM_CONFIG: &str = r#"
    [common]
    bundled_packages_dir = "/var/lib/ssamd/bundled"
    downloaded_packages_dir = "/var/lib/ssamd/downloaded"
    packages_data_root = "/var/lib/ssamd/data"
    packages_overlayfs_root = ""
    packages_mnt_root = "/var/lib/ssamd/mnt"
    public_key_file_path = "/var/lib/ssamd/keys/test.pub.key"
    packages_cgroup = ""
    packages_ext = "ssam"
"#;

const NETWORK: &str = r#"
    [network]
    bridge_enabled = true
    bridge_name = "ssam-br0"
    subnet = "172.20.0.0/16"
    gateway = "172.20.0.1"
"#;

#[test]
fn test_valid_config_file() {
    let config = Configuration::parse(
        r#"
            [common]
            bundled_packages_dir = "/custom/base"
            downloaded_packages_dir = "/custom/packages"
            packages_data_root = "/custom/data"
            packages_overlayfs_root = "/custom/overlay"
            packages_mnt_root = "/custom/mnt"
            public_key_file_path = "/custom/key.pub"
            packages_cgroup = "custom.slice"
            packages_ext = "cpkg"
        "#,
    );
    assert!(config.is_ok());
    let config = config.unwrap();
    assert_eq!(config.bundled_packages_dir(), "/custom/base");
    assert_eq!(config.downloaded_packages_dir(), "/custom/packages");
}

#[test]
fn test_invalid_toml() {
    let config = Configuration::parse(
        r"
            [common]
            downloaded_packages_dir = [this is not valid toml
        ",
    );
    assert!(config.is_err());
}

#[test]
fn test_partial_config() {
    let config = Configuration::parse(
        r#"
            [common]
            downloaded_packages_dir = "/custom/packages"
            # Other fields are not specified - should fail due to missing required fields
        "#,
    );
    assert!(config.is_err());
    let err = config.unwrap_err();
    assert!(err.message().contains("Failed to parse config file"));
}

#[test]
fn test_configuration_with_all_fields() {
    let config = Configuration::parse(
        r#"
            [common]
            bundled_packages_dir = "/test/base"
            downloaded_packages_dir = "/test/packages"
            packages_data_root = "/test/data"
            packages_overlayfs_root = "/test/overlay"
            packages_mnt_root = "/test/mnt"
            public_key_file_path = "/test/key.pub"
            packages_cgroup = "test.slice"
            packages_ext = "tpkg"
        "#,
    )
    .unwrap();
    assert_eq!(config.bundled_packages_dir(), "/test/base");
    assert_eq!(config.downloaded_packages_dir(), "/test/packages");
    assert_eq!(config.packages_data_root(), "/test/data");
    assert_eq!(config.packages_overlayfs_root(), "/test/overlay");
    assert_eq!(config.packages_mnt_root(), "/test/mnt");
    assert_eq!(config.public_key_file_path(), "/test/key.pub");
    assert_eq!(config.packages_cgroup(), "test.slice");
    assert_eq!(config.packages_ext(), "tpkg");
    assert!(config.rpc_bind_ip().is_none());
}

#[test]
fn test_configuration_getter_operations() {
    let config = Configuration::parse(TEST_CONFIG).unwrap();
    let dir = config.downloaded_packages_dir();
    assert_eq!(dir.len(), "/test/packages".len());
    assert_eq!(dir.to_uppercase(), "/TEST/PACKAGES");
    assert!(std::path::Path::new(dir).is_absolute());
}

#[test]
fn test_configuration_direct_access() {
    let config = Configuration::parse(TEST_CONFIG).unwrap();
    let base_dir: &str = config.bundled_packages_dir();
    assert_eq!(base_dir, "/var/lib/ssamd/bundled");
    let dir: &str = config.downloaded_packages_dir();
    assert_eq!(dir, "/test/packages");
    let data_root: &str = config.packages_data_root();
    assert_eq!(data_root, "/test/data");
}

#[test]
fn test_getter_no_allocation() {
    let config = Configuration::parse(TEST_CONFIG).unwrap();
    let dir1 = config.downloaded_packages_dir();
    let dir2 = config.downloaded_packages_dir();
    assert_eq!(dir1, dir2);
    assert_eq!(dir1, "/test/packages");
    assert_eq!(dir1.as_ptr(), dir2.as_ptr());
}

#[test]
fn test_configuration_clone() {
    let config1 = Configuration::parse(TEST_CONFIG).unwrap();
    let config2 = config1.clone();
    assert_eq!(config1.downloaded_packages_dir(), config2.downloaded_packages_dir());
    assert_eq!(config1.bundled_packages_dir(), config2.bundled_packages_dir());
}

#[test]
fn test_global_config_uses_testconfig() {
    let mut global = GlobalConfig::new();
    init(&mut global, Configuration::parse(SYSTEM_CONFIG).ok());
    assert_eq!(bundled_packages_dir(&global), "/var/lib/ssamd/bundled");
    assert_eq!(downloaded_packages_dir(&global), "/var/lib/ssamd/downloaded");
    assert_eq!(packages_data_root(&global), "/var/lib/ssamd/data");
    assert_eq!(packages_overlayfs_root(&global), "");
    assert_eq!(packages_mnt_root(&global), "/var/lib/ssamd/mnt");
    assert_eq!(public_key_file_path(&global), "/var/lib/ssamd/keys/test.pub.key");
    assert_eq!(packages_cgroup(&global), "");
    assert_eq!(packages_ext(&global), "ssam");
    assert!(rpc_bind_ip(&global).is_none());
    assert!(network_config(&global).is_none());
}

#[test]
fn the_configuration_is_set_once() {
    let mut global = GlobalConfig::new();
    assert!(global.get().is_none());
    assert_eq!(init_refusal(&global, &None), Some(InitError::LoadFailed));
    let config = Configuration::parse(SYSTEM_CONFIG).ok();
    assert_eq!(init_refusal(&global, &config), None);
    init(&mut global, config);
    let other = Configuration::parse(TEST_CONFIG).ok();
    assert_eq!(init_refusal(&global, &other), Some(InitError::AlreadyInitialized));
    assert_eq!(init_refusal(&global, &None), Some(InitError::LoadFailed));
    assert_eq!(packages_ext(&global), "ssam");
}

#[test]
fn test_default_config_path_in_test_mode() {
    let exe = "/src/ssamd/testdata/testconfig/ssamd";
    assert_eq!(default_config_path(Some(exe)), "/src/ssamd/testdata/testconfig/ssamd.toml");
}

#[test]
fn configuration_is_looked_for_beside_the_program() {
    assert_eq!(default_config_path(Some("/usr/bin/ssamd")), "/usr/bin/ssamd.toml");
    assert_eq!(default_config_path(Some("/ssamd")), "/ssamd.toml");
    assert_eq!(default_config_path(Some("/")), "./ssamd.toml");
    assert_eq!(default_config_path(None), "./ssamd.toml");
}

#[test]
fn test_network_config_present() {
    let content = format!("{SYSTEM_CONFIG}{NETWORK}");
    let config = Configuration::parse(&content).unwrap();
    let net = config.network_config();
    assert!(net.is_some());
    let net = net.unwrap();
    assert!(net.bridge_enabled);
    assert_eq!(net.bridge_name, "ssam-br0");
    assert_eq!(net.subnet, "172.20.0.0/16");
    assert_eq!(net.gateway, u32::from_be_bytes([172, 20, 0, 1]));

    let bridge = BridgeConfig::of_network(net);
    assert!(bridge.enabled);
    assert_eq!(bridge.base(), "172.20.0.0/16");
    assert_eq!(bridge.size(), 29);
}

#[test]
fn test_network_config_absent() {
    let config = Configuration::parse(SYSTEM_CONFIG).unwrap();
    assert!(config.network_config().is_none());
}

#[test]
fn an_incomplete_network_is_refused() {
    for broken in [
        NETWORK.replace("bridge_enabled = true", "bridge_enabled = 1"),
        NETWORK.replace("bridge_name = \"ssam-br0\"", ""),
        NETWORK.replace("172.20.0.1", "172.20.0"),
        NETWORK.replace("172.20.0.1", "172.20.0.01"),
        NETWORK.replace("[network]", "[other]"),
    ] {
        let content = format!("{SYSTEM_CONFIG}{broken}");
        if broken.contains("[other]") {
            assert!(Configuration::parse(&content).unwrap().network_config().is_none());
        } else {
            assert_eq!(Configuration::parse(&content).unwrap_err(), ConfigError::Parse);
        }
    }
    let content = format!("network = 1\n{SYSTEM_CONFIG}");
    assert_eq!(Configuration::parse(&content).unwrap_err(), ConfigError::Parse);
}

#[test]
fn the_address_to_listen_on_is_a_string_if_it_is_there() {
    let set = SYSTEM_CONFIG.replace("packages_ext", "rpc_bind_ip = \"10.0.0.1\"\npackages_ext");
    assert_eq!(Configuration::parse(&set).unwrap().rpc_bind_ip(), Some("10.0.0.1"));
    let wrong = SYSTEM_CONFIG.replace("packages_ext", "rpc_bind_ip = 10\npackages_ext");
    assert_eq!(Configuration::parse(&wrong).unwrap_err(), ConfigError::Parse);
}

const FIELDS: [&str; 8] = ["/b", "/d", "/data", "", "/mnt", "/key", "", "ssam"];

fn quoted(texts: &[&str]) -> String {
    texts.iter().map(|t| format!("{t:?}")).collect::<Vec<_>>().join(", ")
}

#[test]
fn a_section_may_be_a_list_of_its_fields_in_order() {
    let all = format!("common = [{}, \"10.0.0.1\"]", quoted(&FIELDS));
    let config = Configuration::parse(&all).unwrap();
    assert_eq!(config.bundled_packages_dir(), "/b");
    assert_eq!(config.downloaded_packages_dir(), "/d");
    assert_eq!(config.packages_data_root(), "/data");
    assert_eq!(config.packages_overlayfs_root(), "");
    assert_eq!(config.packages_mnt_root(), "/mnt");
    assert_eq!(config.public_key_file_path(), "/key");
    assert_eq!(config.packages_cgroup(), "");
    assert_eq!(config.packages_ext(), "ssam");
    assert_eq!(config.rpc_bind_ip(), Some("10.0.0.1"));
    assert!(config.network_config().is_none());

    let too_short = format!("common = [{}]", quoted(&FIELDS));
    assert_eq!(Configuration::parse(&too_short).unwrap_err(), ConfigError::Parse);
    let no_text = format!("common = [{}, 1]", quoted(&FIELDS));
    assert_eq!(Configuration::parse(&no_text).unwrap_err(), ConfigError::Parse);
    let longer = format!("common = [{}, \"10.0.0.1\", 1, {{ }}]", quoted(&FIELDS));
    assert_eq!(Configuration::parse(&longer).unwrap().rpc_bind_ip(), Some("10.0.0.1"));

    let network = |list: &str| Configuration::parse(&format!("network = [{list}]\n{SYSTEM_CONFIG}"));
    let config = network("true, 'br', '10.0.0.0/8', '10.0.0.1'").unwrap();
    let read = config.network_config().unwrap();
    assert!(read.bridge_enabled);
    assert_eq!((read.bridge_name.as_str(), read.subnet.as_str()), ("br", "10.0.0.0/8"));
    assert_eq!(read.gateway, 0x0a00_0001);
    assert!(network("true, 'br', '10.0.0.0/8'").is_err());
    assert!(network("'br', true, '10.0.0.0/8', '10.0.0.1'").is_err());
    assert!(network("true, 'br', '10.0.0.0/8', '10.0.0'").is_err());
    assert!(network("").is_err());
    let tables = format!("{SYSTEM_CONFIG}\n{}", NETWORK.replace("[network]", "[[network]]"));
    assert!(Configuration::parse(&tables).is_err());
}

#[test]
fn what_means_nothing_is_passed_over_if_it_can_be_read() {
    let too_large = format!("1{}", "0".repeat(40));
    let at_top = |value: &str| Configuration::parse(&format!("x = {value}\n{SYSTEM_CONFIG}"));
    let inside = |value: &str| Configuration::parse(&format!("{SYSTEM_CONFIG}\nx = {value}"));
    let passed = [
        "1",
        "1.5",
        "1979-05-27",
        "18446744073709551615",
        "340282366920938463463374607431768211455",
        "[{ y = 2 }]",
        "{ '$__toml_private_datetime' = 3 }",
    ];
    for value in passed {
        assert!(at_top(value).is_ok(), "{value}");
        assert!(inside(value).is_ok(), "{value}");
    }
    for value in [too_large.clone(), format!("[{{ y = {too_large} }}]"), "1e999".to_string()] {
        assert!(at_top(&value).is_err(), "{value}");
        assert!(inside(&value).is_err(), "{value}");
    }
    let key = "'$__toml_private_datetime' = '1979-05-27'";
    assert!(Configuration::parse(&format!("{SYSTEM_CONFIG}\n{key}")).is_ok());
    let beyond = format!("common = [{}, '10.0.0.1', {too_large}]", quoted(&FIELDS));
    assert!(Configuration::parse(&beyond).is_ok());
}

fn text(s: &str) -> Entry {
    Entry { text: Some(s.to_string()), flag: None }
}

fn named(name: &str, value: Entry) -> NamedEntry {
    NamedEntry { name: name.to_string(), value, readable: true }
}

fn common_table() -> Vec<NamedEntry> {
    let names = [
        "bundled_packages_dir",
        "downloaded_packages_dir",
        "packages_data_root",
        "packages_overlayfs_root",
        "packages_mnt_root",
        "public_key_file_path",
        "packages_cgroup",
        "packages_ext",
    ];
    names.iter().zip(FIELDS).map(|(name, value)| named(name, text(value))).collect()
}

fn document(common: Vec<NamedEntry>, network: Option<Section>) -> Document {
    Document { common: Some(Section::Table(common)), network, others_readable: true }
}

#[test]
fn a_document_is_a_configuration_where_it_is_complete() {
    let read = |d: Document| Configuration::of_document(&d);
    let config = read(document(common_table(), None)).unwrap();
    assert_eq!(config.bundled_packages_dir(), "/b");
    assert_eq!(config.packages_mnt_root(), "/mnt");
    assert!(config.rpc_bind_ip().is_none());

    let mut missing = common_table();
    missing.remove(6);
    assert!(read(document(missing, None)).is_err());
    let mut no_text = common_table();
    no_text.push(named("rpc_bind_ip", Entry { text: None, flag: Some(true) }));
    assert!(read(document(no_text, None)).is_err());
    let mut unknown = common_table();
    unknown.push(named("x", Entry { text: None, flag: None }));
    assert!(read(document(unknown, None)).is_ok());
    let mut unreadable = common_table();
    unreadable.push(NamedEntry { readable: false, ..named("x", text("")) });
    assert!(read(document(unreadable, None)).is_err());
    let hidden = Document { others_readable: false, ..document(common_table(), None) };
    assert!(read(hidden).is_err());
    assert!(read(Document { common: None, ..document(vec![], None) }).is_err());
    assert!(read(Document { common: Some(Section::Other), ..document(vec![], None) }).is_err());

    let flag = || Entry { text: None, flag: Some(false) };
    let list = vec![flag(), text("br"), text("10.0.0.0/8"), text("10.0.0.1")];
    let config = read(document(common_table(), Some(Section::List(list)))).unwrap();
    assert_eq!(config.network_config().unwrap().gateway, 0x0a00_0001);
    assert!(!config.network_config().unwrap().bridge_enabled);
    assert!(read(document(common_table(), Some(Section::Other))).is_err());
}
