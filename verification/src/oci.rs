//! The OCI runtime configuration of a package's container.

use crate::path::texts;
use crate::text::is_same;
use vstd::prelude::*;

verus! {

/// The architecture of the host, as far as containers are confined on it.
#[derive(Debug, Clone, Copy, PartialEq, Eq, Structural)]
pub enum HostArch {
    X86,
    X86_64,
    Arm,
    Aarch64,
    Unsupported,
}

/// An architecture that a system call filter knows.
#[derive(Debug, Clone, Copy, PartialEq, Eq, Structural)]
pub enum Arch {
    ScmpArchNative,
    ScmpArchX86,
    ScmpArchX86_64,
    ScmpArchX32,
    ScmpArchArm,
    ScmpArchAarch64,
    ScmpArchMips,
    ScmpArchMips64,
    ScmpArchMips64n32,
    ScmpArchMipsel,
    ScmpArchMipsel64,
    ScmpArchMipsel64n32,
    ScmpArchPpc,
    ScmpArchPpc64,
    ScmpArchPpc64le,
    ScmpArchS390,
    ScmpArchS390x,
    ScmpArchParisc,
    ScmpArchParisc64,
    ScmpArchRiscv64,
    ScmpArchLoongarch64,
    ScmpArchM68k,
    ScmpArchSh,
    ScmpArchSheb,
}

/// The number by which an architecture goes.
pub open spec fn arch_token(a: Arch) -> u32 {
    match a {
        Arch::ScmpArchNative => 0x0000_0000,
        Arch::ScmpArchX86 => 0x4000_0003,
        Arch::ScmpArchX86_64 => 0xc000_003e,
        Arch::ScmpArchX32 => 0x4000_003e,
        Arch::ScmpArchArm => 0x4000_0028,
        Arch::ScmpArchAarch64 => 0xc000_00b7,
        Arch::ScmpArchMips => 0x0000_0008,
        Arch::ScmpArchMips64 => 0x8000_0008,
        Arch::ScmpArchMips64n32 => 0xa000_0008,
        Arch::ScmpArchMipsel => 0x4000_0008,
        Arch::ScmpArchMipsel64 => 0xc000_0008,
        Arch::ScmpArchMipsel64n32 => 0xe000_0008,
        Arch::ScmpArchPpc => 0x0000_0014,
        Arch::ScmpArchPpc64 => 0x8000_0015,
        Arch::ScmpArchPpc64le => 0xc000_0015,
        Arch::ScmpArchS390 => 0x0000_0016,
        Arch::ScmpArchS390x => 0x8000_0016,
        Arch::ScmpArchParisc => 0x0000_000f,
        Arch::ScmpArchParisc64 => 0x8000_000f,
        Arch::ScmpArchRiscv64 => 0xc000_00f3,
        Arch::ScmpArchLoongarch64 => 0xc000_0102,
        Arch::ScmpArchM68k => 0x0000_0004,
        Arch::ScmpArchSh => 0x4000_002a,
        Arch::ScmpArchSheb => 0x0000_002a,
    }
}

impl Arch {
    /// The architecture that goes by a number.
    pub fn of_token(token: u32) -> (r: Option<Arch>)
        ensures
            r matches Some(a) ==> arch_token(a) == token,
            r is None ==> forall|a: Arch| #[trigger] arch_token(a) != token,
    {
        match token {
            0x0000_0000 => Some(Arch::ScmpArchNative),
            0x4000_0003 => Some(Arch::ScmpArchX86),
            0xc000_003e => Some(Arch::ScmpArchX86_64),
            0x4000_003e => Some(Arch::ScmpArchX32),
            0x4000_0028 => Some(Arch::ScmpArchArm),
            0xc000_00b7 => Some(Arch::ScmpArchAarch64),
            0x0000_0008 => Some(Arch::ScmpArchMips),
            0x8000_0008 => Some(Arch::ScmpArchMips64),
            0xa000_0008 => Some(Arch::ScmpArchMips64n32),
            0x4000_0008 => Some(Arch::ScmpArchMipsel),
            0xc000_0008 => Some(Arch::ScmpArchMipsel64),
            0xe000_0008 => Some(Arch::ScmpArchMipsel64n32),
            0x0000_0014 => Some(Arch::ScmpArchPpc),
            0x8000_0015 => Some(Arch::ScmpArchPpc64),
            0xc000_0015 => Some(Arch::ScmpArchPpc64le),
            0x0000_0016 => Some(Arch::ScmpArchS390),
            0x8000_0016 => Some(Arch::ScmpArchS390x),
            0x0000_000f => Some(Arch::ScmpArchParisc),
            0x8000_000f => Some(Arch::ScmpArchParisc64),
            0xc000_00f3 => Some(Arch::ScmpArchRiscv64),
            0xc000_0102 => Some(Arch::ScmpArchLoongarch64),
            0x0000_0004 => Some(Arch::ScmpArchM68k),
            0x4000_002a => Some(Arch::ScmpArchSh),
            0x0000_002a => Some(Arch::ScmpArchSheb),
            _ => None,
        }
    }
}

/// No two architectures go by the same number.
pub proof fn law_arch_tokens_distinct(a: Arch, b: Arch)
    requires
        arch_token(a) == arch_token(b),
    ensures
        a == b,
{
}

/// The architecture that a name stands for.
pub open spec fn named_arch(name: Seq<char>) -> Option<Arch> {
    if name == "SCMP_ARCH_NATIVE"@ {
        Some(Arch::ScmpArchNative)
    } else if name == "SCMP_ARCH_X86"@ {
        Some(Arch::ScmpArchX86)
    } else if name == "SCMP_ARCH_X86_64"@ {
        Some(Arch::ScmpArchX86_64)
    } else if name == "SCMP_ARCH_X32"@ {
        Some(Arch::ScmpArchX32)
    } else if name == "SCMP_ARCH_ARM"@ {
        Some(Arch::ScmpArchArm)
    } else if name == "SCMP_ARCH_AARCH64"@ {
        Some(Arch::ScmpArchAarch64)
    } else if name == "SCMP_ARCH_MIPS"@ {
        Some(Arch::ScmpArchMips)
    } else if name == "SCMP_ARCH_MIPS64"@ {
        Some(Arch::ScmpArchMips64)
    } else if name == "SCMP_ARCH_MIPS64N32"@ {
        Some(Arch::ScmpArchMips64n32)
    } else if name == "SCMP_ARCH_MIPSEL"@ {
        Some(Arch::ScmpArchMipsel)
    } else if name == "SCMP_ARCH_MIPSEL64"@ {
        Some(Arch::ScmpArchMipsel64)
    } else if name == "SCMP_ARCH_MIPSEL64N32"@ {
        Some(Arch::ScmpArchMipsel64n32)
    } else if name == "SCMP_ARCH_PPC"@ {
        Some(Arch::ScmpArchPpc)
    } else if name == "SCMP_ARCH_PPC64"@ {
        Some(Arch::ScmpArchPpc64)
    } else if name == "SCMP_ARCH_PPC64LE"@ {
        Some(Arch::ScmpArchPpc64le)
    } else if name == "SCMP_ARCH_S390"@ {
        Some(Arch::ScmpArchS390)
    } else if name == "SCMP_ARCH_S390X"@ {
        Some(Arch::ScmpArchS390x)
    } else if name == "SCMP_ARCH_PARISC"@ {
        Some(Arch::ScmpArchParisc)
    } else if name == "SCMP_ARCH_PARISC64"@ {
        Some(Arch::ScmpArchParisc64)
    } else if name == "SCMP_ARCH_RISCV64"@ {
        Some(Arch::ScmpArchRiscv64)
    } else if name == "SCMP_ARCH_LOONGARCH64"@ {
        Some(Arch::ScmpArchLoongarch64)
    } else if name == "SCMP_ARCH_M68K"@ {
        Some(Arch::ScmpArchM68k)
    } else if name == "SCMP_ARCH_SH"@ {
        Some(Arch::ScmpArchSh)
    } else if name == "SCMP_ARCH_SHEB"@ {
        Some(Arch::ScmpArchSheb)
    } else {
        None
    }
}

/// `<oci_spec::runtime::Arch as FromStr>::from_str`, with the number that the crate
/// gives each architecture. The names that it reads are those of the architectures in
/// upper case, with underscores between the words.
#[verifier::external_body]
fn oci_parse_arch(name: &str) -> (r: Option<u32>)
    ensures
        r == match named_arch(name@) {
            Some(a) => Some(arch_token(a)),
            None => None,
        },
{
    name.parse::<oci_spec::runtime::Arch>().ok().map(|a| a as u32)
}

/// `<oci_spec::runtime::Arch as Display>::fmt`, for the architectures of the supported
/// hosts.
#[verifier::external_body]
fn oci_arch_text(host: HostArch) -> (r: Option<String>)
    ensures
        r is None <==> host is Unsupported,
        r matches Some(s) ==> Some(s@) == host_arch_name(host),
{
    match host {
        HostArch::X86 => Some(oci_spec::runtime::Arch::ScmpArchX86.to_string()),
        HostArch::X86_64 => Some(oci_spec::runtime::Arch::ScmpArchX86_64.to_string()),
        HostArch::Arm => Some(oci_spec::runtime::Arch::ScmpArchArm.to_string()),
        HostArch::Aarch64 => Some(oci_spec::runtime::Arch::ScmpArchAarch64.to_string()),
        HostArch::Unsupported => None,
    }
}

/// The name of the host's architecture in a system call filter.
pub open spec fn host_arch_name(host: HostArch) -> Option<Seq<char>> {
    match host {
        HostArch::X86 => Some("SCMP_ARCH_X86"@),
        HostArch::X86_64 => Some("SCMP_ARCH_X86_64"@),
        HostArch::Arm => Some("SCMP_ARCH_ARM"@),
        HostArch::Aarch64 => Some("SCMP_ARCH_AARCH64"@),
        HostArch::Unsupported => None,
    }
}

pub open spec fn host_arch(host: HostArch) -> Option<Arch> {
    match host {
        HostArch::X86 => Some(Arch::ScmpArchX86),
        HostArch::X86_64 => Some(Arch::ScmpArchX86_64),
        HostArch::Arm => Some(Arch::ScmpArchArm),
        HostArch::Aarch64 => Some(Arch::ScmpArchAarch64),
        HostArch::Unsupported => None,
    }
}

impl HostArch {
    /// The architecture by the name that the compiler gives it.
    pub fn from_name(name: &str) -> (r: HostArch)
        ensures
            r is X86 <==> name@ == "x86"@,
            r is X86_64 <==> name@ == "x86_64"@,
            r is Arm <==> name@ == "arm"@,
            r is Aarch64 <==> name@ == "aarch64"@,
    {
        proof {
            reveal_strlit("x86");
            reveal_strlit("x86_64");
            reveal_strlit("arm");
            reveal_strlit("aarch64");
            assert("x86"@.len() == 3 && "x86_64"@.len() == 6 && "arm"@.len() == 3
                && "aarch64"@.len() == 7);
            assert("x86"@[0] == 'x' && "arm"@[0] == 'a');
        }
        if is_same(name, "x86") {
            HostArch::X86
        } else if is_same(name, "x86_64") {
            HostArch::X86_64
        } else if is_same(name, "arm") {
            HostArch::Arm
        } else if is_same(name, "aarch64") {
            HostArch::Aarch64
        } else {
            HostArch::Unsupported
        }
    }

    pub fn to_oci_arch(self) -> (r: Option<Arch>)
        ensures
            r == host_arch(self),
    {
        match self {
            HostArch::X86 => Some(Arch::ScmpArchX86),
            HostArch::X86_64 => Some(Arch::ScmpArchX86_64),
            HostArch::Arm => Some(Arch::ScmpArchArm),
            HostArch::Aarch64 => Some(Arch::ScmpArchAarch64),
            HostArch::Unsupported => None,
        }
    }
}

pub fn parse_arch(name: &str) -> (r: Option<Arch>)
    ensures
        r == named_arch(name@),
{
    let token = match oci_parse_arch(name) {
        Some(token) => token,
        None => {
            return None;
        },
    };
    let r = Arch::of_token(token);
    proof {
        let a = named_arch(name@)->0;
        assert(arch_token(a) == token);
        law_arch_tokens_distinct(r->0, a);
    }
    r
}

/// The name of the host's architecture stands for it.
proof fn lemma_host_arch_is_named(host: HostArch)
    ensures
        host_arch_name(host) matches Some(name) ==> named_arch(name) == host_arch(host),
{
    reveal_strlit("SCMP_ARCH_NATIVE");
    reveal_strlit("SCMP_ARCH_X86");
    reveal_strlit("SCMP_ARCH_X86_64");
    reveal_strlit("SCMP_ARCH_X32");
    reveal_strlit("SCMP_ARCH_ARM");
    reveal_strlit("SCMP_ARCH_AARCH64");
    assert("SCMP_ARCH_NATIVE"@.len() == 16 && "SCMP_ARCH_X86"@.len() == 13
        && "SCMP_ARCH_X86_64"@.len() == 16 && "SCMP_ARCH_X32"@.len() == 13
        && "SCMP_ARCH_ARM"@.len() == 13 && "SCMP_ARCH_AARCH64"@.len() == 17);
    assert("SCMP_ARCH_NATIVE"@[10] == 'N' && "SCMP_ARCH_X86_64"@[10] == 'X');
    assert("SCMP_ARCH_X86"@[11] == '8' && "SCMP_ARCH_X32"@[11] == '3' && "SCMP_ARCH_ARM"@[11]
        == 'R');
}

/// One entry of a filter's table of architectures: the main one, and those that run on
/// it too. What is not a string there is `None`.
#[derive(Debug)]
pub struct ArchMapEntry {
    pub architecture: Option<String>,
    pub sub_architectures: Option<Vec<Option<String>>>,
}

/// The architectures that names stand for, in order; what stands for none is left out.
pub open spec fn named_archs(names: Seq<Option<String>>) -> Seq<Arch>
    decreases names.len(),
{
    if names.len() == 0 {
        Seq::empty()
    } else {
        let before = named_archs(names.drop_last());
        match names.last() {
            Some(name) => match named_arch(name@) {
                Some(a) => before.push(a),
                None => before,
            },
            None => before,
        }
    }
}

/// Whether an entry is that of the host.
pub open spec fn is_host_entry(entry: ArchMapEntry, host: HostArch) -> bool {
    &&& entry.architecture matches Some(name)
    &&& Some(name@) == host_arch_name(host)
}

/// What an entry says for the host: its own architecture first, then the others.
pub open spec fn entry_archs(entry: ArchMapEntry, host: HostArch) -> Seq<Arch> {
    seq![host_arch(host)->0] + match entry.sub_architectures {
        Some(subs) => named_archs(subs@),
        None => Seq::empty(),
    }
}

/// What the first entry for the host says, if there is one.
pub open spec fn map_archs(entries: Seq<ArchMapEntry>, host: HostArch) -> Option<Seq<Arch>>
    decreases entries.len(),
{
    if entries.len() == 0 {
        None
    } else if is_host_entry(entries[0], host) {
        Some(entry_archs(entries[0], host))
    } else {
        map_archs(entries.drop_first(), host)
    }
}

fn entry_architectures(entry: &ArchMapEntry, main: Arch) -> (r: Vec<Arch>)
    ensures
        forall|host: HostArch|
            #[trigger] host_arch(host) == Some(main) ==> r@ == entry_archs(*entry, host),
{
    let mut out: Vec<Arch> = Vec::new();
    out.push(main);
    let names = match &entry.sub_architectures {
        Some(names) => names,
        None => {
            assert(out@ =~= seq![main] + Seq::empty());
            return out;
        },
    };
    let mut i: usize = 0;
    assert(names@.take(0) =~= Seq::empty());
    assert(out@ =~= seq![main] + named_archs(names@.take(0)));
    while i < names.len()
        invariant
            i <= names@.len(),
            out@ == seq![main] + named_archs(names@.take(i as int)),
        decreases names.len() - i,
    {
        let ghost upto = names@.take(i + 1);
        assert(upto.drop_last() =~= names@.take(i as int));
        assert(upto.last() == names@[i as int]);
        if let Some(name) = &names[i] {
            if let Some(a) = parse_arch(name.as_str()) {
                out.push(a);
            }
        }
        assert(out@ =~= seq![main] + named_archs(upto));
        i += 1;
    }
    assert(names@.take(i as int) =~= names@);
    out
}

/// The architectures that a filter is to cover on `host`: what the first entry for it
/// says. Without an entry, or on a host that is not supported, there are none.
pub fn convert_arch_map_to_architectures(arch_map: &Vec<ArchMapEntry>, host: HostArch) -> (r: Option<
    Vec<Arch>,
>)
    ensures
        r is Some <==> map_archs(arch_map@, host) is Some,
        r matches Some(archs) ==> Some(archs@) == map_archs(arch_map@, host),
{
    let host_name = match oci_arch_text(host) {
        Some(name) => name,
        None => {
            proof {
                lemma_no_host_entry(arch_map@, host);
            }
            return None;
        },
    };
    let mut i: usize = 0;
    assert(arch_map@.skip(0) =~= arch_map@);
    while i < arch_map.len()
        invariant
            i <= arch_map@.len(),
            Some(host_name@) == host_arch_name(host),
            map_archs(arch_map@, host) == map_archs(arch_map@.skip(i as int), host),
        decreases arch_map.len() - i,
    {
        let entry = &arch_map[i];
        let ghost rest = arch_map@.skip(i as int);
        assert(rest[0] == arch_map@[i as int]);
        assert(rest.drop_first() =~= arch_map@.skip(i + 1));
        if let Some(name) = &entry.architecture {
            if is_same(name.as_str(), host_name.as_str()) {
                proof {
                    lemma_host_arch_is_named(host);
                }
                if let Some(main) = parse_arch(name.as_str()) {
                    assert(Some(main) == host_arch(host));
                    return Some(entry_architectures(entry, main));
                }
            }
        }
        i += 1;
    }
    assert(arch_map@.skip(i as int).len() == 0);
    None
}

proof fn lemma_no_host_entry(entries: Seq<ArchMapEntry>, host: HostArch)
    requires
        host_arch_name(host) is None,
    ensures
        map_archs(entries, host) is None,
    decreases entries.len(),
{
    if entries.len() > 0 {
        lemma_no_host_entry(entries.drop_first(), host);
    }
}

/// What `serde_json` makes of a JSON document, printed again; nothing where it is none.
pub uninterp spec fn json_document(bytes: Seq<u8>) -> Option<Seq<char>>;

/// `serde_json::from_slice` into a `Value`, and the text of that value.
#[verifier::external_body]
fn json_read(bytes: &[u8]) -> (r: Option<String>)
    ensures
        r is Some <==> json_document(bytes@) is Some,
        r matches Some(t) ==> Some(t@) == json_document(bytes@),
{
    let value = serde_json::from_slice::<serde_json::Value>(bytes).ok()?;
    Some(value.to_string())
}

/// The text of a member of a JSON object; nothing where there is none.
pub uninterp spec fn json_member(document: Seq<char>, key: Seq<char>) -> Option<Seq<char>>;

/// `serde_json::Value::get` by a key, on the value that a text stands for.
#[verifier::external_body]
fn json_get(document: &str, key: &str) -> (r: Option<String>)
    ensures
        r is Some <==> json_member(document@, key@) is Some,
        r matches Some(t) ==> Some(t@) == json_member(document@, key@),
{
    let value = serde_json::from_str::<serde_json::Value>(document).ok()?;
    value.get(key).map(|v| v.to_string())
}

/// The texts of the elements of a JSON array; nothing where the value is no array.
pub uninterp spec fn json_elements(document: Seq<char>) -> Option<Seq<Seq<char>>>;

/// `serde_json::Value::as_array`, on the value that a text stands for.
#[verifier::external_body]
fn json_array(document: &str) -> (r: Option<Vec<String>>)
    ensures
        r is Some <==> json_elements(document@) is Some,
        r matches Some(v) ==> Some(texts(v@)) == json_elements(document@),
{
    let value = serde_json::from_str::<serde_json::Value>(document).ok()?;
    value.as_array().map(|a| a.iter().map(|v| v.to_string()).collect())
}

/// The characters of a JSON string; nothing where the value is no string.
pub uninterp spec fn json_string(document: Seq<char>) -> Option<Seq<char>>;

/// `serde_json::Value::as_str`, on the value that a text stands for.
#[verifier::external_body]
fn json_str(document: &str) -> (r: Option<String>)
    ensures
        r is Some <==> json_string(document@) is Some,
        r matches Some(t) ==> Some(t@) == json_string(document@),
{
    let value = serde_json::from_str::<serde_json::Value>(document).ok()?;
    value.as_str().map(|s| s.to_owned())
}

/// Whether a JSON document is a system call filter to `oci_spec`.
pub uninterp spec fn is_linux_seccomp(document: Seq<char>) -> bool;

/// `serde_json::from_value` into an `oci_spec::runtime::LinuxSeccomp`, on the value that a
/// text stands for.
#[verifier::external_body]
fn reads_as_linux_seccomp(document: &str) -> (r: bool)
    ensures
        r == is_linux_seccomp(document@),
{
    let value = serde_json::from_str::<serde_json::Value>(document);
    value.and_then(serde_json::from_value::<oci_spec::runtime::LinuxSeccomp>).is_ok()
}

/// An optional string holds the characters that it should.
pub open spec fn holds(s: Option<String>, expected: Option<Seq<char>>) -> bool {
    match s {
        Some(t) => expected == Some(t@),
        None => expected is None,
    }
}

/// The string at a key of a JSON object, if there is one there.
pub open spec fn string_member(document: Seq<char>, key: Seq<char>) -> Option<Seq<char>> {
    match json_member(document, key) {
        Some(v) => json_string(v),
        None => None,
    }
}

/// The array at a key of a JSON object, if there is one there.
pub open spec fn array_member(document: Seq<char>, key: Seq<char>) -> Option<Seq<Seq<char>>> {
    match json_member(document, key) {
        Some(v) => json_elements(v),
        None => None,
    }
}

/// An entry of the table of architectures is what its JSON text says.
pub open spec fn entry_reads(entry: ArchMapEntry, document: Seq<char>) -> bool {
    &&& holds(entry.architecture, string_member(document, "architecture"@))
    &&& match entry.sub_architectures {
        Some(subs) => {
            &&& array_member(document, "subArchitectures"@) matches Some(items)
            &&& subs@.len() == items.len()
            &&& forall|i: int| 0 <= i < items.len() ==> holds(#[trigger] subs@[i], json_string(items[i]))
        },
        None => array_member(document, "subArchitectures"@) is None,
    }
}

fn read_string_member(document: &str, key: &str) -> (r: Option<String>)
    ensures
        holds(r, string_member(document@, key@)),
{
    match json_get(document, key) {
        Some(v) => json_str(v.as_str()),
        None => None,
    }
}

fn read_array_member(document: &str, key: &str) -> (r: Option<Vec<String>>)
    ensures
        r is Some <==> array_member(document@, key@) is Some,
        r matches Some(v) ==> Some(texts(v@)) == array_member(document@, key@),
{
    match json_get(document, key) {
        Some(v) => json_array(v.as_str()),
        None => None,
    }
}

fn read_arch_map_entry(document: &str) -> (r: ArchMapEntry)
    ensures
        entry_reads(r, document@),
{
    let architecture = read_string_member(document, "architecture");
    let sub_architectures = match read_array_member(document, "subArchitectures") {
        Some(items) => {
            let mut subs: Vec<Option<String>> = Vec::new();
            let mut i: usize = 0;
            while i < items.len()
                invariant
                    i <= items@.len(),
                    subs@.len() == i,
                    forall|j: int|
                        0 <= j < i ==> holds(#[trigger] subs@[j], json_string(texts(items@)[j])),
                decreases items.len() - i,
            {
                let s = json_str(items[i].as_str());
                subs.push(s);
                i += 1;
            }
            Some(subs)
        },
        None => None,
    };
    ArchMapEntry { architecture, sub_architectures }
}

/// The table of architectures of a filter is what its JSON text says.
pub open spec fn arch_map_reads(arch_map: Option<Vec<ArchMapEntry>>, document: Seq<char>) -> bool {
    match arch_map {
        Some(entries) => {
            &&& array_member(document, "archMap"@) matches Some(items)
            &&& entries@.len() == items.len()
            &&& forall|i: int| 0 <= i < items.len() ==> entry_reads(#[trigger] entries@[i], items[i])
        },
        None => array_member(document, "archMap"@) is None,
    }
}

pub fn read_arch_map(document: &str) -> (r: Option<Vec<ArchMapEntry>>)
    ensures
        arch_map_reads(r, document@),
{
    match read_array_member(document, "archMap") {
        Some(items) => {
            let mut entries: Vec<ArchMapEntry> = Vec::new();
            let mut i: usize = 0;
            while i < items.len()
                invariant
                    i <= items@.len(),
                    entries@.len() == i,
                    forall|j: int|
                        0 <= j < i ==> entry_reads(#[trigger] entries@[j], texts(items@)[j]),
                decreases items.len() - i,
            {
                let entry = read_arch_map_entry(items[i].as_str());
                entries.push(entry);
                i += 1;
            }
            Some(entries)
        },
        None => None,
    }
}

/// A system call filter: its JSON source, and the architectures that it covers in place
/// of those that the source may name.
#[derive(Debug)]
pub struct SeccompConfig {
    pub policy: Vec<u8>,
    pub architectures: Option<Vec<Arch>>,
}

/// The architectures of a filter, by its table.
pub fn seccomp_architectures(arch_map: &Option<Vec<ArchMapEntry>>, host: HostArch) -> (r: Option<
    Vec<Arch>,
>)
    ensures
        architectures_follow(*arch_map, host, r),
{
    match arch_map {
        Some(m) => convert_arch_map_to_architectures(m, host),
        None => None,
    }
}

/// The filter that a policy amounts to on `host`, by what was read out of it: whether it
/// is a filter at all, and the table of architectures in it.
pub fn seccomp_config(
    policy: &Vec<u8>,
    is_filter: bool,
    arch_map: &Option<Vec<ArchMapEntry>>,
    host: HostArch,
) -> (r: Option<SeccompConfig>)
    ensures
        r is Some <==> is_filter,
        r matches Some(s) ==> s.policy@ == policy@ && architectures_follow(
            *arch_map,
            host,
            s.architectures,
        ),
{
    if !is_filter {
        return None;
    }
    let architectures = seccomp_architectures(arch_map, host);
    let mut copy: Vec<u8> = Vec::new();
    copy.extend_from_slice(policy.as_slice());
    assert(copy@ =~= policy@);
    Some(SeccompConfig { policy: copy, architectures })
}

/// A filter is what a policy amounts to on `host`: there is one where the policy is a
/// JSON document that reads as a filter, and its architectures are those of the
/// policy's table.
pub open spec fn seccomp_follows(
    policy: Option<Seq<u8>>,
    host: HostArch,
    seccomp: Option<SeccompConfig>,
) -> bool {
    let is_filter = policy is Some && json_document(policy->0) is Some && is_linux_seccomp(
        json_document(policy->0)->0,
    );
    match seccomp {
        Some(s) => {
            &&& is_filter
            &&& s.policy@ == policy->0
            &&& exists|m: Option<Vec<ArchMapEntry>>|
                #[trigger] arch_map_reads(m, json_document(policy->0)->0) && architectures_follow(
                    m,
                    host,
                    s.architectures,
                )
        },
        None => !is_filter,
    }
}

/// The filter that a policy amounts to on `host`. Without a policy, or with one that is
/// no filter, there is none.
pub fn build_seccomp_config(policy: Option<&Vec<u8>>, host: HostArch) -> (r: Option<SeccompConfig>)
    ensures
        seccomp_follows(
            match policy {
                Some(p) => Some(p@),
                None => None,
            },
            host,
            r,
        ),
{
    let policy = match policy {
        Some(policy) => policy,
        None => {
            return None;
        },
    };
    let document = match json_read(policy.as_slice()) {
        Some(document) => document,
        None => {
            return None;
        },
    };
    let arch_map = read_arch_map(document.as_str());
    assert(document@ == json_document(policy@)->0);
    assert(arch_map_reads(arch_map, json_document(policy@)->0));
    let is_filter = reads_as_linux_seccomp(document.as_str());
    seccomp_config(policy, is_filter, &arch_map, host)
}

/// The architectures are what the table says for the host.
pub open spec fn architectures_follow(
    arch_map: Option<Vec<ArchMapEntry>>,
    host: HostArch,
    archs: Option<Vec<Arch>>,
) -> bool {
    let expected = match arch_map {
        Some(m) => map_archs(m@, host),
        None => None,
    };
    match archs {
        Some(a) => expected == Some(a@),
        None => expected is None,
    }
}

/// On each host that is supported a filter goes by the name of that host's architecture.
pub proof fn law_architectures_of_hosts()
    ensures
        host_arch(HostArch::X86) == Some(Arch::ScmpArchX86),
        host_arch(HostArch::X86_64) == Some(Arch::ScmpArchX86_64),
        host_arch(HostArch::Arm) == Some(Arch::ScmpArchArm),
        host_arch(HostArch::Aarch64) == Some(Arch::ScmpArchAarch64),
        host_arch(HostArch::Unsupported) is None,
        host_arch_name(HostArch::X86) == Some("SCMP_ARCH_X86"@),
        host_arch_name(HostArch::X86_64) == Some("SCMP_ARCH_X86_64"@),
        host_arch_name(HostArch::Arm) == Some("SCMP_ARCH_ARM"@),
        host_arch_name(HostArch::Aarch64) == Some("SCMP_ARCH_AARCH64"@),
        host_arch_name(HostArch::Unsupported) is None,
{
}

/// What a filter covers is what the first entry for the host says: the architecture of the host
/// first, and then those that the entry adds.
pub proof fn law_first_entry_for_the_host_counts(entries: Seq<ArchMapEntry>, host: HostArch, i: int)
    requires
        0 <= i < entries.len(),
        host_arch_name(host) is Some,
        entries[i].architecture is Some && Some(entries[i].architecture->0@) == host_arch_name(host),
        forall|j: int|
            0 <= j < i ==> !((#[trigger] entries[j]).architecture is Some && Some(
                entries[j].architecture->0@,
            ) == host_arch_name(host)),
    ensures
        map_archs(entries, host) is Some,
        ({
            let archs = map_archs(entries, host)->0;
            let added = match entries[i].sub_architectures {
                Some(subs) => named_archs(subs@),
                None => Seq::empty(),
            };
            archs.len() == 1 + added.len() && Some(archs[0]) == host_arch(host) && archs.skip(1)
                == added
        }),
    decreases i,
{
    if i == 0 {
        let archs = map_archs(entries, host)->0;
        let added = match entries[0].sub_architectures {
            Some(subs) => named_archs(subs@),
            None => Seq::empty(),
        };
        assert(archs.skip(1) =~= added);
    } else {
        let rest = entries.drop_first();
        assert forall|j: int| 0 <= j < i - 1 implies #[trigger] rest[j] == entries[j + 1] by {}
        assert(!is_host_entry(entries[0], host));
        law_first_entry_for_the_host_counts(rest, host, i - 1);
    }
}

/// A table without an entry for the host covers nothing.
pub proof fn law_no_entry_for_the_host(entries: Seq<ArchMapEntry>, host: HostArch)
    requires
        forall|j: int|
            0 <= j < entries.len() ==> !((#[trigger] entries[j]).architecture is Some && Some(
                entries[j].architecture->0@,
            ) == host_arch_name(host)),
    ensures
        map_archs(entries, host) is None,
    decreases entries.len(),
{
    if entries.len() > 0 {
        let rest = entries.drop_first();
        assert forall|j: int| 0 <= j < rest.len() implies #[trigger] rest[j] == entries[j + 1] by {}
        assert(!is_host_entry(entries[0], host));
        law_no_entry_for_the_host(rest, host);
    }
}

/// The architectures of names come in the order of the names, and a name that stands for none
/// is left out.
pub proof fn law_names_of_architectures(names: Seq<Option<String>>, name: Option<String>)
    ensures
        named_archs(Seq::empty()).len() == 0,
        name is None ==> named_archs(names.push(name)) == named_archs(names),
        name matches Some(n) ==> named_archs(names.push(name)) == (match named_arch(n@) {
            Some(a) => named_archs(names).push(a),
            None => named_archs(names),
        }),
{
    assert(names.push(name).drop_last() =~= names);
}

/// There is a filter where a policy reads as one, and else none.
pub proof fn law_policies_that_are_filters(
    policy: Option<Seq<u8>>,
    host: HostArch,
    seccomp: Option<SeccompConfig>,
)
    requires
        seccomp_follows(policy, host, seccomp),
    ensures
        seccomp is Some <==> (policy is Some && json_document(policy->0) is Some
            && is_linux_seccomp(json_document(policy->0)->0)),
        seccomp matches Some(s) ==> s.policy@ == policy->0,
        seccomp matches Some(s) ==> (array_member(json_document(policy->0)->0, "archMap"@) is None
            ==> s.architectures is None),
{
}

/// An entry of the table is what stands under its two names.
pub proof fn law_entries_of_the_table(entry: ArchMapEntry, document: Seq<char>)
    requires
        entry_reads(entry, document),
    ensures
        entry.architecture matches Some(name) ==> json_member(document, "architecture"@) is Some
            && json_string(json_member(document, "architecture"@)->0) == Some(name@),
        entry.sub_architectures matches Some(subs) ==> json_member(document, "subArchitectures"@)
            is Some && json_elements(json_member(document, "subArchitectures"@)->0) is Some
            && subs@.len() == json_elements(json_member(document, "subArchitectures"@)->0)->0.len(),
{
}

/// An architecture is known by one name alone, and every one of these names is known.
pub proof fn law_architecture_has_one_name(name: Seq<char>)
    ensures
        named_arch(name) == Some(Arch::ScmpArchNative) ==> name == "SCMP_ARCH_NATIVE"@,
        named_arch(name) == Some(Arch::ScmpArchX86) ==> name == "SCMP_ARCH_X86"@,
        named_arch(name) == Some(Arch::ScmpArchX86_64) ==> name == "SCMP_ARCH_X86_64"@,
        named_arch(name) == Some(Arch::ScmpArchX32) ==> name == "SCMP_ARCH_X32"@,
        named_arch(name) == Some(Arch::ScmpArchArm) ==> name == "SCMP_ARCH_ARM"@,
        named_arch(name) == Some(Arch::ScmpArchAarch64) ==> name == "SCMP_ARCH_AARCH64"@,
        named_arch(name) == Some(Arch::ScmpArchMips) ==> name == "SCMP_ARCH_MIPS"@,
        named_arch(name) == Some(Arch::ScmpArchMips64) ==> name == "SCMP_ARCH_MIPS64"@,
        named_arch(name) == Some(Arch::ScmpArchMips64n32) ==> name == "SCMP_ARCH_MIPS64N32"@,
        named_arch(name) == Some(Arch::ScmpArchMipsel) ==> name == "SCMP_ARCH_MIPSEL"@,
        named_arch(name) == Some(Arch::ScmpArchMipsel64) ==> name == "SCMP_ARCH_MIPSEL64"@,
        named_arch(name) == Some(Arch::ScmpArchMipsel64n32) ==> name == "SCMP_ARCH_MIPSEL64N32"@,
        named_arch(name) == Some(Arch::ScmpArchPpc) ==> name == "SCMP_ARCH_PPC"@,
        named_arch(name) == Some(Arch::ScmpArchPpc64) ==> name == "SCMP_ARCH_PPC64"@,
        named_arch(name) == Some(Arch::ScmpArchPpc64le) ==> name == "SCMP_ARCH_PPC64LE"@,
        named_arch(name) == Some(Arch::ScmpArchS390) ==> name == "SCMP_ARCH_S390"@,
        named_arch(name) == Some(Arch::ScmpArchS390x) ==> name == "SCMP_ARCH_S390X"@,
        named_arch(name) == Some(Arch::ScmpArchParisc) ==> name == "SCMP_ARCH_PARISC"@,
        named_arch(name) == Some(Arch::ScmpArchParisc64) ==> name == "SCMP_ARCH_PARISC64"@,
        named_arch(name) == Some(Arch::ScmpArchRiscv64) ==> name == "SCMP_ARCH_RISCV64"@,
        named_arch(name) == Some(Arch::ScmpArchLoongarch64) ==> name == "SCMP_ARCH_LOONGARCH64"@,
        named_arch(name) == Some(Arch::ScmpArchM68k) ==> name == "SCMP_ARCH_M68K"@,
        named_arch(name) == Some(Arch::ScmpArchSh) ==> name == "SCMP_ARCH_SH"@,
        named_arch(name) == Some(Arch::ScmpArchSheb) ==> name == "SCMP_ARCH_SHEB"@,
        named_arch(name) is Some <==> {
            ||| name == "SCMP_ARCH_NATIVE"@
            ||| name == "SCMP_ARCH_X86"@
            ||| name == "SCMP_ARCH_X86_64"@
            ||| name == "SCMP_ARCH_X32"@
            ||| name == "SCMP_ARCH_ARM"@
            ||| name == "SCMP_ARCH_AARCH64"@
            ||| name == "SCMP_ARCH_MIPS"@
            ||| name == "SCMP_ARCH_MIPS64"@
            ||| name == "SCMP_ARCH_MIPS64N32"@
            ||| name == "SCMP_ARCH_MIPSEL"@
            ||| name == "SCMP_ARCH_MIPSEL64"@
            ||| name == "SCMP_ARCH_MIPSEL64N32"@
            ||| name == "SCMP_ARCH_PPC"@
            ||| name == "SCMP_ARCH_PPC64"@
            ||| name == "SCMP_ARCH_PPC64LE"@
            ||| name == "SCMP_ARCH_S390"@
            ||| name == "SCMP_ARCH_S390X"@
            ||| name == "SCMP_ARCH_PARISC"@
            ||| name == "SCMP_ARCH_PARISC64"@
            ||| name == "SCMP_ARCH_RISCV64"@
            ||| name == "SCMP_ARCH_LOONGARCH64"@
            ||| name == "SCMP_ARCH_M68K"@
            ||| name == "SCMP_ARCH_SH"@
            ||| name == "SCMP_ARCH_SHEB"@
        },
{
}

} // verus!
