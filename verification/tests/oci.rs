use ssamd::oci::{
    build_seccomp_config, convert_arch_map_to_architectures, parse_arch, read_arch_map,
    seccomp_architectures, seccomp_config, Arch, ArchMapEntry, HostArch,
};

const TEST_ARCH_MAP: &str = r#"{"archMap": [
    {
        "architecture": "SCMP_ARCH_X86_64",
        "subArchitectures": [
            "SCMP_ARCH_X86",
            "SCMP_ARCH_X32"
        ]
    },
    {
        "architecture": "SCMP_ARCH_AARCH64",
        "subArchitectures": [
            "SCMP_ARCH_ARM"
        ]
    },
    {
        "architecture": "SCMP_ARCH_X86",
        "subArchitectures": []
    },
    {
        "architecture": "SCMP_ARCH_ARM",
        "subArchitectures": []
    }
]}"#;

fn convert(document: &str, host: HostArch) -> Option<Vec<Arch>> {
    convert_arch_map_to_architectures(&read_arch_map(document).unwrap(), host)
}

#[test]
fn test_host_arch_to_oci_arch() {
    assert_eq!(HostArch::X86.to_oci_arch(), Some(Arch::ScmpArchX86));
    assert_eq!(HostArch::X86_64.to_oci_arch(), Some(Arch::ScmpArchX86_64));
    assert_eq!(HostArch::Arm.to_oci_arch(), Some(Arch::ScmpArchArm));
    assert_eq!(HostArch::Aarch64.to_oci_arch(), Some(Arch::ScmpArchAarch64));
    assert_eq!(HostArch::Unsupported.to_oci_arch(), None);
}

#[test]
fn test_oci_arch_to_string() {
    assert_eq!(oci_spec::runtime::Arch::ScmpArchX86.to_string(), "SCMP_ARCH_X86");
    assert_eq!(oci_spec::runtime::Arch::ScmpArchX86_64.to_string(), "SCMP_ARCH_X86_64");
    assert_eq!(oci_spec::runtime::Arch::ScmpArchArm.to_string(), "SCMP_ARCH_ARM");
    assert_eq!(oci_spec::runtime::Arch::ScmpArchAarch64.to_string(), "SCMP_ARCH_AARCH64");
}

#[test]
fn every_architecture_is_read_by_its_name() {
    let named = [
        ("NATIVE", Arch::ScmpArchNative),
        ("X86", Arch::ScmpArchX86),
        ("X86_64", Arch::ScmpArchX86_64),
        ("X32", Arch::ScmpArchX32),
        ("ARM", Arch::ScmpArchArm),
        ("AARCH64", Arch::ScmpArchAarch64),
        ("MIPS", Arch::ScmpArchMips),
        ("MIPS64", Arch::ScmpArchMips64),
        ("MIPS64N32", Arch::ScmpArchMips64n32),
        ("MIPSEL", Arch::ScmpArchMipsel),
        ("MIPSEL64", Arch::ScmpArchMipsel64),
        ("MIPSEL64N32", Arch::ScmpArchMipsel64n32),
        ("PPC", Arch::ScmpArchPpc),
        ("PPC64", Arch::ScmpArchPpc64),
        ("PPC64LE", Arch::ScmpArchPpc64le),
        ("S390", Arch::ScmpArchS390),
        ("S390X", Arch::ScmpArchS390x),
        ("PARISC", Arch::ScmpArchParisc),
        ("PARISC64", Arch::ScmpArchParisc64),
        ("RISCV64", Arch::ScmpArchRiscv64),
        ("LOONGARCH64", Arch::ScmpArchLoongarch64),
        ("M68K", Arch::ScmpArchM68k),
        ("SH", Arch::ScmpArchSh),
        ("SHEB", Arch::ScmpArchSheb),
    ];
    for (name, arch) in named {
        assert_eq!(parse_arch(&format!("SCMP_ARCH_{name}")), Some(arch));
    }
    assert_eq!(parse_arch("scmp_arch_x86"), None);
    assert_eq!(parse_arch(""), None);
    assert_eq!(Arch::of_token(0xc000_003e), Some(Arch::ScmpArchX86_64));
    assert_eq!(Arch::of_token(1), None);
}

#[test]
fn hosts_go_by_their_compiler_names() {
    assert_eq!(HostArch::from_name("x86"), HostArch::X86);
    assert_eq!(HostArch::from_name("x86_64"), HostArch::X86_64);
    assert_eq!(HostArch::from_name("arm"), HostArch::Arm);
    assert_eq!(HostArch::from_name("aarch64"), HostArch::Aarch64);
    assert_eq!(HostArch::from_name("riscv64"), HostArch::Unsupported);
}

#[test]
fn test_convert_arch_map_x86_64() {
    let result = convert(TEST_ARCH_MAP, HostArch::X86_64);
    assert!(result.is_some());
    let archs = result.unwrap();
    assert_eq!(archs.len(), 3);
    assert_eq!(archs[0], Arch::ScmpArchX86_64);
    assert_eq!(archs[1], Arch::ScmpArchX86);
    assert_eq!(archs[2], Arch::ScmpArchX32);
}

#[test]
fn test_convert_arch_map_aarch64() {
    let result = convert(TEST_ARCH_MAP, HostArch::Aarch64);
    assert!(result.is_some());
    let archs = result.unwrap();
    assert_eq!(archs.len(), 2);
    assert_eq!(archs[0], Arch::ScmpArchAarch64);
    assert_eq!(archs[1], Arch::ScmpArchArm);
}

#[test]
fn test_convert_arch_map_x86() {
    let result = convert(TEST_ARCH_MAP, HostArch::X86);
    assert!(result.is_some());
    let archs = result.unwrap();
    assert_eq!(archs.len(), 1);
    assert_eq!(archs[0], Arch::ScmpArchX86);
}

#[test]
fn test_convert_arch_map_arm() {
    let result = convert(TEST_ARCH_MAP, HostArch::Arm);
    assert!(result.is_some());
    let archs = result.unwrap();
    assert_eq!(archs.len(), 1);
    assert_eq!(archs[0], Arch::ScmpArchArm);
}

#[test]
fn test_convert_arch_map_unsupported() {
    assert!(convert(TEST_ARCH_MAP, HostArch::Unsupported).is_none());
}

#[test]
fn test_convert_arch_map_no_matching_entry() {
    let map = r#"{"archMap": [{"architecture": "SCMP_ARCH_MIPS", "subArchitectures": []}]}"#;
    assert!(convert(map, HostArch::X86_64).is_none());
}

#[test]
fn test_convert_arch_map_without_sub_architectures() {
    let result = convert(
        r#"{"archMap": [{"architecture": "SCMP_ARCH_X86_64"}]}"#,
        HostArch::X86_64,
    );
    assert!(result.is_some());
    let archs = result.unwrap();
    assert_eq!(archs.len(), 1);
    assert_eq!(archs[0], Arch::ScmpArchX86_64);
}

#[test]
fn test_convert_arch_map_with_empty_sub_architectures() {
    let result = convert(
        r#"{"archMap": [{"architecture": "SCMP_ARCH_X86_64", "subArchitectures": []}]}"#,
        HostArch::X86_64,
    );
    assert!(result.is_some());
    let archs = result.unwrap();
    assert_eq!(archs.len(), 1);
}

#[test]
fn test_convert_arch_map_with_invalid_sub_architecture() {
    let result = convert(
        r#"{"archMap": [{
            "architecture": "SCMP_ARCH_X86_64",
            "subArchitectures": ["SCMP_ARCH_X86", "INVALID_ARCH", "SCMP_ARCH_X32"]
        }]}"#,
        HostArch::X86_64,
    );
    assert!(result.is_some());
    let archs = result.unwrap();
    assert_eq!(archs.len(), 3);
    assert_eq!(archs[0], Arch::ScmpArchX86_64);
    assert_eq!(archs[1], Arch::ScmpArchX86);
    assert_eq!(archs[2], Arch::ScmpArchX32);
}

#[test]
fn test_convert_arch_map_empty_array() {
    let arch_map: Vec<ArchMapEntry> = vec![];
    assert!(convert_arch_map_to_architectures(&arch_map, HostArch::X86_64).is_none());
}

#[test]
fn what_is_no_string_in_the_table_is_passed_over() {
    let map = r#"{"archMap": [
        7,
        {"architecture": 1},
        {"architecture": "SCMP_ARCH_ARM", "subArchitectures": [null, "SCMP_ARCH_X32", 3]}
    ]}"#;
    let entries = read_arch_map(map).unwrap();
    assert_eq!(entries.len(), 3);
    assert!(entries[0].architecture.is_none());
    assert!(entries[1].architecture.is_none());
    assert_eq!(
        convert(map, HostArch::Arm),
        Some(vec![Arch::ScmpArchArm, Arch::ScmpArchX32])
    );
    assert!(read_arch_map(r#"{"archMap": {}}"#).is_none());
    assert!(read_arch_map("{}").is_none());
    assert!(seccomp_architectures(&None, HostArch::Arm).is_none());
}

#[test]
fn a_policy_amounts_to_a_filter() {
    let policy = br#"{
        "defaultAction": "SCMP_ACT_ERRNO",
        "archMap": [{"architecture": "SCMP_ARCH_ARM"}],
        "syscalls": []
    }"#
    .to_vec();
    let filter = build_seccomp_config(Some(&policy), HostArch::Arm).unwrap();
    assert_eq!(filter.policy, policy);
    assert_eq!(filter.architectures, Some(vec![Arch::ScmpArchArm]));
    let filter = build_seccomp_config(Some(&policy), HostArch::X86).unwrap();
    assert_eq!(filter.architectures, None);

    let map = read_arch_map(TEST_ARCH_MAP);
    let filter = seccomp_config(&policy, true, &map, HostArch::Aarch64).unwrap();
    assert_eq!(filter.policy, policy);
    assert_eq!(filter.architectures, Some(vec![Arch::ScmpArchAarch64, Arch::ScmpArchArm]));
    assert!(seccomp_config(&policy, false, &map, HostArch::Aarch64).is_none());

    assert!(build_seccomp_config(None, HostArch::Arm).is_none());
    assert!(build_seccomp_config(Some(&b"no json".to_vec()), HostArch::Arm).is_none());
    let unknown = br#"{"defaultAction": "SCMP_ACT_DANCE"}"#.to_vec();
    assert!(build_seccomp_config(Some(&unknown), HostArch::Arm).is_none());
}
