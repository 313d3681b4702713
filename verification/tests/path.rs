use ssamd::ipv4::{dotted_text, parse_ipv4, Ipv4Net};
use ssamd::path::{
    components_of, eq_ignore_case, extension, file_name, is_parent_of, join, parent,
    path_starts_with, same_path, split_text, strip_root, with_extension,
};
use ssamd::text::{decimal_signed_text, decimal_text, is_control, is_white_space};
use std::path::Path;

const PATHS: [&str; 18] = [
    "",
    "/",
    "//",
    ".",
    "..",
    "a",
    "a/b",
    "/a/b.c",
    "/a/./b/",
    "a/../b",
    "./x.tar.gz",
    "/.hidden",
    "/a/b.",
    "a//b/.",
    "/a/..",
    "./.",
    "///a///b///",
    "a/.b.c",
];

#[test]
fn paths_are_read_as_the_system_reads_them() {
    for p in PATHS {
        let path = Path::new(p);
        assert_eq!(
            file_name(p).as_deref(),
            path.file_name().and_then(|n| n.to_str()),
            "file name of {p:?}"
        );
        assert_eq!(
            extension(p).as_deref(),
            path.extension().and_then(|n| n.to_str()),
            "extension of {p:?}"
        );
        assert_eq!(
            parent(p).as_deref(),
            path.parent().and_then(|s| s.to_str()),
            "parent of {p:?}"
        );
        for ext in ["x", "tar.gz", ""] {
            assert_eq!(
                with_extension(p, ext),
                path.with_extension(ext).to_str().unwrap(),
                "{p:?} with extension {ext:?}"
            );
        }
        assert_eq!(
            strip_root(p),
            path.strip_prefix("/").unwrap_or(path).to_str().unwrap(),
            "{p:?} below the root"
        );
        assert_eq!(components_of(p).len(), path.components().count(), "components of {p:?}");
        for q in PATHS {
            assert_eq!(
                path_starts_with(p, q),
                path.starts_with(q),
                "whether {p:?} starts with {q:?}"
            );
            assert_eq!(same_path(p, q), path == Path::new(q), "whether {p:?} is {q:?}");
            assert_eq!(join(p, q), path.join(q).to_str().unwrap(), "{q:?} joined to {p:?}");
        }
    }
}

#[test]
fn a_file_lies_directly_in_its_directory() {
    assert!(is_parent_of("/a/b", "/a/b/c.ssam"));
    assert!(!is_parent_of("/a/b", "/a/b/c/d.ssam"));
    assert!(!is_parent_of("/a/b", "/a/bc/d.ssam"));
}

#[test]
fn extensions_are_replaced() {
    assert_eq!(with_extension("/a/b.ssam", "ssam.old"), "/a/b.ssam.old");
    assert_eq!(with_extension("/a/b", "x"), "/a/b.x");
    assert_eq!(strip_root("/a/b"), "a/b");
    assert_eq!(strip_root("a/b"), "a/b");
    assert_eq!(split_text("/app/data:/var/log", ':'), ["/app/data", "/var/log"]);
    assert_eq!(split_text("", ':'), [""]);
    assert!(eq_ignore_case("SsAm", "ssam"));
    assert!(!eq_ignore_case("ssam", "sam"));
}

#[test]
fn characters_are_sorted_as_unicode_does() {
    for c in '\0'..=char::MAX {
        assert_eq!(is_white_space(c), c.is_whitespace(), "white space {c:?}");
        assert_eq!(is_control(c), c.is_control(), "control {c:?}");
    }
}

#[test]
fn numbers_are_written_in_decimal() {
    assert_eq!(decimal_text(0), "0");
    assert_eq!(decimal_text(u64::MAX), u64::MAX.to_string());
    assert_eq!(decimal_signed_text(i64::MIN), i64::MIN.to_string());
    assert_eq!(decimal_signed_text(42), "42");
}

#[test]
fn addresses_are_written_and_read_back() {
    for addr in [0, 1, 0x0a00_0001, 0xc0a8_0aff, u32::MAX] {
        assert_eq!(parse_ipv4(&dotted_text(addr)), Some(addr));
        for prefix in [0, 8, 29, 32] {
            let net = Ipv4Net::new(addr, prefix).unwrap();
            assert_eq!(Ipv4Net::parse(&net.to_text()), Some(net));
        }
    }
    assert_eq!(dotted_text(0xc0a8_0a01), "192.168.10.1");
    for text in ["", "1.2.3", "1.2.3.4.5", "256.1.1.1", "01.2.3.4", "1.2.3.4 ", "+1.2.3.4"] {
        assert_eq!(parse_ipv4(text), None, "{text:?}");
    }
    assert_eq!(Ipv4Net::parse("10.0.0.0/33"), None);
    assert_eq!(Ipv4Net::new(0, 33), None);
}
