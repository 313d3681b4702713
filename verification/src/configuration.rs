//! Configuration of the daemon.

use crate::ipv4::{dotted, parse_ipv4};
use crate::path::{join, joined, parent, parent_components, parent_text, texts};
use crate::text::{is_same, optional_text};
use vstd::prelude::*;

verus! {

/// A value of a document, as far as it counts: what it says where it is a string, and
/// where it is a truth value.
#[derive(Debug)]
pub struct Entry {
    pub text: Option<String>,
    pub flag: Option<bool>,
}

impl View for Entry {
    type V = (Option<Seq<char>>, Option<bool>);

    open spec fn view(&self) -> (Option<Seq<char>>, Option<bool>) {
        (optional_text(self.text), self.flag)
    }
}

/// Several values, each by its view.
pub open spec fn entries_view(entries: Seq<Entry>) -> Seq<(Option<Seq<char>>, Option<bool>)> {
    Seq::new(entries.len(), |i: int| entries[i]@)
}

/// Several values with their names, each by its view.
pub open spec fn named_view(entries: Seq<(String, Entry)>) -> Seq<
    (Seq<char>, (Option<Seq<char>>, Option<bool>)),
> {
    Seq::new(entries.len(), |i: int| (entries[i].0@, entries[i].1@))
}

/// The names at the top of a document; nothing where a text is no document.
pub uninterp spec fn toml_names(content: Seq<char>) -> Option<Seq<Seq<char>>>;

/// `toml::de::DeTable::parse`, and the keys of the table that it gives.
#[verifier::external_body]
fn toml_read_names(content: &str) -> (r: Option<Vec<String>>)
    ensures
        r is Some <==> toml_names(content@) is Some,
        r matches Some(v) ==> Some(texts(v@)) == toml_names(content@),
{
    let table = toml::de::DeTable::parse(content).ok()?;
    Some(table.get_ref().keys().map(|k| k.get_ref().to_string()).collect())
}

/// The values of a section that is a list; nothing where it is none.
pub uninterp spec fn toml_list(content: Seq<char>, section: Seq<char>) -> Option<
    Seq<(Option<Seq<char>>, Option<bool>)>,
>;

/// `toml::de::DeValue::as_array`, on a section of the document that a text stands for, with
/// `as_str` and `as_bool` of each element.
#[verifier::external_body]
fn toml_read_list(content: &str, section: &str) -> (r: Option<Vec<Entry>>)
    ensures
        r is Some <==> toml_list(content@, section@) is Some,
        r matches Some(v) ==> Some(entries_view(v@)) == toml_list(content@, section@),
{
    let table = toml::de::DeTable::parse(content).ok()?;
    let items = table.get_ref().get(section)?.get_ref().as_array()?;
    let entry = |v: &toml::de::DeValue| Entry {
        text: v.as_str().map(|s| s.to_owned()),
        flag: v.as_bool(),
    };
    Some(items.iter().map(|v| entry(v.get_ref())).collect())
}

/// The values of a section that is a table, with their names; nothing where it is none.
pub uninterp spec fn toml_table(content: Seq<char>, section: Seq<char>) -> Option<
    Seq<(Seq<char>, (Option<Seq<char>>, Option<bool>))>,
>;

/// `toml::de::DeValue::as_table`, on a section of the document that a text stands for, with
/// `as_str` and `as_bool` of each value.
#[verifier::external_body]
fn toml_read_table(content: &str, section: &str) -> (r: Option<Vec<(String, Entry)>>)
    ensures
        r is Some <==> toml_table(content@, section@) is Some,
        r matches Some(v) ==> Some(named_view(v@)) == toml_table(content@, section@),
{
    let table = toml::de::DeTable::parse(content).ok()?;
    let items = table.get_ref().get(section)?.get_ref().as_table()?;
    let entry = |v: &toml::de::DeValue| Entry {
        text: v.as_str().map(|s| s.to_owned()),
        flag: v.as_bool(),
    };
    Some(items.iter().map(|(k, v)| (k.get_ref().to_string(), entry(v.get_ref()))).collect())
}

/// Whether the value at the top of a document under a name can be passed over: numbers
/// that are too large cannot.
pub uninterp spec fn toml_readable(content: Seq<char>, name: Seq<char>) -> bool;

/// `toml::de::ValueDeserializer`, read as a `serde::de::IgnoredAny`, on a value at the top of
/// the document that a text stands for.
#[verifier::external_body]
fn toml_can_read(content: &str, name: &str) -> (r: bool)
    ensures
        r == toml_readable(content@, name@),
{
    let table = toml::de::DeTable::parse(content).map(|t| t.into_inner()).unwrap_or_default();
    let value = table.get(name).cloned().map(toml::de::ValueDeserializer::from);
    let read = value.map(<serde::de::IgnoredAny as serde::Deserialize>::deserialize);
    read.is_some_and(|r| r.is_ok())
}

/// Whether the value of a section under a name can be passed over.
pub uninterp spec fn toml_entry_readable(
    content: Seq<char>,
    section: Seq<char>,
    name: Seq<char>,
) -> bool;

/// `toml::de::ValueDeserializer`, read as a `serde::de::IgnoredAny`, on a value of a section
/// of the document that a text stands for.
#[verifier::external_body]
fn toml_can_read_entry(content: &str, section: &str, name: &str) -> (r: bool)
    ensures
        r == toml_entry_readable(content@, section@, name@),
{
    let table = toml::de::DeTable::parse(content).map(|t| t.into_inner()).unwrap_or_default();
    let value = table.get(section).and_then(|s| s.get_ref().get(name)).cloned();
    let value = value.map(toml::de::ValueDeserializer::from);
    let read = value.map(<serde::de::IgnoredAny as serde::Deserialize>::deserialize);
    read.is_some_and(|r| r.is_ok())
}

/// What every installation of the daemon has to say.
#[derive(Debug)]
pub struct Common {
    pub bundled_packages_dir: String,
    pub downloaded_packages_dir: String,
    pub packages_data_root: String,
    /// Below which overlays are kept; empty where none are used.
    pub packages_overlayfs_root: String,
    pub packages_mnt_root: String,
    pub public_key_file_path: String,
    /// The control group of the packages; may be empty.
    pub packages_cgroup: String,
    pub packages_ext: String,
    pub rpc_bind_ip: Option<String>,
}

fn copy_text(s: &Option<String>) -> (r: Option<String>)
    ensures
        r == *s,
{
    match s {
        Some(t) => Some(t.clone()),
        None => None,
    }
}

impl Clone for Common {
    fn clone(&self) -> (r: Self)
        ensures
            r == *self,
    {
        Common {
            bundled_packages_dir: self.bundled_packages_dir.clone(),
            downloaded_packages_dir: self.downloaded_packages_dir.clone(),
            packages_data_root: self.packages_data_root.clone(),
            packages_overlayfs_root: self.packages_overlayfs_root.clone(),
            packages_mnt_root: self.packages_mnt_root.clone(),
            public_key_file_path: self.public_key_file_path.clone(),
            packages_cgroup: self.packages_cgroup.clone(),
            packages_ext: self.packages_ext.clone(),
            rpc_bind_ip: copy_text(&self.rpc_bind_ip),
        }
    }
}

/// The network of the daemon.
#[derive(Debug)]
pub struct NetworkConfig {
    /// Whether the daemon has a bridge network.
    pub bridge_enabled: bool,
    pub bridge_name: String,
    /// The pool of addresses in CIDR notation.
    pub subnet: String,
    /// The address of the bridge.
    pub gateway: u32,
}

impl Clone for NetworkConfig {
    fn clone(&self) -> (r: Self)
        ensures
            r == *self,
    {
        NetworkConfig {
            bridge_enabled: self.bridge_enabled,
            bridge_name: self.bridge_name.clone(),
            subnet: self.subnet.clone(),
            gateway: self.gateway,
        }
    }
}

/// The addresses that bridges are given subnets of.
#[derive(Debug)]
pub struct PoolConfig {
    pub base: Option<String>,
    pub size: Option<u8>,
}

/// The bridge network.
#[derive(Debug)]
pub struct BridgeConfig {
    pub enabled: bool,
    pub addr_pool: Option<PoolConfig>,
}

impl BridgeConfig {
    /// The pool in CIDR notation; nothing where it is not configured.
    pub open spec fn base_spec(&self) -> Seq<char> {
        match self.addr_pool {
            Some(PoolConfig { base: Some(base), .. }) => base@,
            _ => Seq::empty(),
        }
    }

    /// The prefix length of a bridge subnet; 29 bits where it is not configured.
    pub open spec fn size_spec(&self) -> u8 {
        match self.addr_pool {
            Some(PoolConfig { size: Some(size), .. }) => size,
            _ => 29,
        }
    }

    pub fn base(&self) -> (r: String)
        ensures
            r@ == self.base_spec(),
    {
        match &self.addr_pool {
            Some(pool) => match &pool.base {
                Some(base) => base.clone(),
                None => String::new(),
            },
            None => String::new(),
        }
    }

    pub fn size(&self) -> (r: u8)
        ensures
            r == self.size_spec(),
    {
        match &self.addr_pool {
            Some(pool) => match pool.size {
                Some(size) => size,
                None => 29,
            },
            None => 29,
        }
    }

    /// The bridge network over the pool that a network configuration names.
    pub fn of_network(network: &NetworkConfig) -> (r: Self)
        ensures
            r.enabled == network.bridge_enabled,
            r.base_spec() == network.subnet@,
            r.size_spec() == 29,
    {
        BridgeConfig {
            enabled: network.bridge_enabled,
            addr_pool: Some(PoolConfig { base: Some(network.subnet.clone()), size: None }),
        }
    }
}

/// The whole configuration. Without a network section there is no network.
#[derive(Debug)]
pub struct Configuration {
    common: Common,
    network: Option<NetworkConfig>,
}

/// Why a configuration was not taken.
#[derive(Debug, Clone, Copy, PartialEq, Eq, Structural)]
pub enum ConfigError {
    /// It is no document, or a required entry is missing or of the wrong kind.
    Parse,
}

impl ConfigError {
    pub fn message(&self) -> (r: &'static str)
        ensures
            r@ == "Failed to parse config file"@,
    {
        "Failed to parse config file"
    }
}

/// A value of a table.
#[derive(Debug)]
pub struct NamedEntry {
    pub name: String,
    pub value: Entry,
    /// Whether it can be passed over where its name means nothing.
    pub readable: bool,
}

pub struct NamedEntryView {
    pub name: Seq<char>,
    pub value: (Option<Seq<char>>, Option<bool>),
    pub readable: bool,
}

impl View for NamedEntry {
    type V = NamedEntryView;

    open spec fn view(&self) -> NamedEntryView {
        NamedEntryView { name: self.name@, value: self.value@, readable: self.readable }
    }
}

/// A section of a document. It gives its fields by name in a table, or in their order in
/// a list.
#[derive(Debug)]
pub enum Section {
    List(Vec<Entry>),
    /// No two values have the same name.
    Table(Vec<NamedEntry>),
    /// Any other kind of value.
    Other,
}

pub enum SectionView {
    List(Seq<(Option<Seq<char>>, Option<bool>)>),
    Table(Seq<NamedEntryView>),
    Other,
}

/// Several named values, each by its view.
pub open spec fn table_view(entries: Seq<NamedEntry>) -> Seq<NamedEntryView> {
    Seq::new(entries.len(), |i: int| entries[i]@)
}

impl View for Section {
    type V = SectionView;

    open spec fn view(&self) -> SectionView {
        match *self {
            Section::List(items) => SectionView::List(entries_view(items@)),
            Section::Table(entries) => SectionView::Table(table_view(entries@)),
            Section::Other => SectionView::Other,
        }
    }
}

/// The names that mean something at the top of a document, or in one of its sections.
#[derive(Debug, Clone, Copy, PartialEq, Eq, Structural)]
pub enum Scope {
    Top,
    Common,
    Network,
}

pub open spec fn is_known(scope: Scope, name: Seq<char>) -> bool {
    match scope {
        Scope::Top => name == "common"@ || name == "network"@,
        Scope::Common => {
            ||| name == "bundled_packages_dir"@
            ||| name == "downloaded_packages_dir"@
            ||| name == "packages_data_root"@
            ||| name == "packages_overlayfs_root"@
            ||| name == "packages_mnt_root"@
            ||| name == "public_key_file_path"@
            ||| name == "packages_cgroup"@
            ||| name == "packages_ext"@
            ||| name == "rpc_bind_ip"@
        },
        Scope::Network => {
            ||| name == "bridge_enabled"@
            ||| name == "bridge_name"@
            ||| name == "subnet"@
            ||| name == "gateway"@
        },
    }
}

fn knows(scope: Scope, name: &str) -> (r: bool)
    ensures
        r == is_known(scope, name@),
{
    match scope {
        Scope::Top => is_same(name, "common") || is_same(name, "network"),
        Scope::Common => is_same(name, "bundled_packages_dir") || is_same(
            name,
            "downloaded_packages_dir",
        ) || is_same(name, "packages_data_root") || is_same(name, "packages_overlayfs_root")
            || is_same(name, "packages_mnt_root") || is_same(name, "public_key_file_path")
            || is_same(name, "packages_cgroup") || is_same(name, "packages_ext") || is_same(
            name,
            "rpc_bind_ip",
        ),
        Scope::Network => is_same(name, "bridge_enabled") || is_same(name, "bridge_name")
            || is_same(name, "subnet") || is_same(name, "gateway"),
    }
}

/// The value of a table under a name.
pub open spec fn value_named(entries: Seq<NamedEntryView>, name: Seq<char>) -> Option<
    (Option<Seq<char>>, Option<bool>),
>
    decreases entries.len(),
{
    if entries.len() == 0 {
        None
    } else if entries.last().name == name {
        Some(entries.last().value)
    } else {
        value_named(entries.drop_last(), name)
    }
}

fn find_value<'a>(entries: &'a Vec<NamedEntry>, name: &str) -> (r: Option<&'a Entry>)
    ensures
        match value_named(table_view(entries@), name@) {
            Some(value) => r matches Some(e) && e@ == value,
            None => r is None,
        },
{
    let mut i: usize = entries.len();
    assert(table_view(entries@).take(i as int) =~= table_view(entries@));
    while i > 0
        invariant
            i <= entries@.len(),
            value_named(table_view(entries@), name@) == value_named(
                table_view(entries@).take(i as int),
                name@,
            ),
        decreases i,
    {
        assert(table_view(entries@).take(i as int).drop_last() =~= table_view(entries@).take(
            i - 1,
        ));
        i -= 1;
        if is_same(entries[i].name.as_str(), name) {
            return Some(&entries[i].value);
        }
    }
    None
}

/// Whether every value of a table can be passed over or has a name that means something.
pub open spec fn all_passable(entries: Seq<NamedEntryView>, scope: Scope) -> bool {
    forall|i: int|
        0 <= i < entries.len() ==> is_known(scope, (#[trigger] entries[i]).name)
            || entries[i].readable
}

fn all_pass(entries: &Vec<NamedEntry>, scope: Scope) -> (r: bool)
    ensures
        r == all_passable(table_view(entries@), scope),
{
    let mut i: usize = 0;
    while i < entries.len()
        invariant
            i <= entries@.len(),
            forall|j: int|
                0 <= j < i ==> is_known(scope, (#[trigger] table_view(entries@)[j]).name)
                    || table_view(entries@)[j].readable,
        decreases entries.len() - i,
    {
        if !entries[i].readable && !knows(scope, entries[i].name.as_str()) {
            assert(!is_known(scope, table_view(entries@)[i as int].name));
            return false;
        }
        i += 1;
    }
    true
}

impl SectionView {
    /// The value of a field, which is `name` in a table and number `place` in a list.
    pub open spec fn field(self, name: Seq<char>, place: int) -> Option<
        (Option<Seq<char>>, Option<bool>),
    > {
        match self {
            SectionView::List(items) => if 0 <= place < items.len() {
                Some(items[place])
            } else {
                None
            },
            SectionView::Table(entries) => value_named(entries, name),
            SectionView::Other => None,
        }
    }

    /// The string that a field is.
    pub open spec fn text(self, name: Seq<char>, place: int) -> Option<Seq<char>> {
        match self.field(name, place) {
            Some(value) => value.0,
            None => None,
        }
    }

    /// The truth value that a field is.
    pub open spec fn flag(self, name: Seq<char>, place: int) -> Option<bool> {
        match self.field(name, place) {
            Some(value) => value.1,
            None => None,
        }
    }

    /// Whether all that means nothing can be passed over. What a list has beyond its
    /// fields is not looked at.
    pub open spec fn passes(self, scope: Scope) -> bool {
        match self {
            SectionView::Table(entries) => all_passable(entries, scope),
            _ => true,
        }
    }
}

impl Section {
    fn field(&self, name: &str, place: usize) -> (r: Option<&Entry>)
        ensures
            match self@.field(name@, place as int) {
                Some(value) => r matches Some(e) && e@ == value,
                None => r is None,
            },
    {
        match self {
            Section::List(items) => if place < items.len() {
                Some(&items[place])
            } else {
                None
            },
            Section::Table(entries) => find_value(entries, name),
            Section::Other => None,
        }
    }

    fn text(&self, name: &str, place: usize) -> (r: Option<String>)
        ensures
            optional_text(r) == self@.text(name@, place as int),
    {
        match self.field(name, place) {
            Some(value) => copy_text(&value.text),
            None => None,
        }
    }

    fn flag(&self, name: &str, place: usize) -> (r: Option<bool>)
        ensures
            r == self@.flag(name@, place as int),
    {
        match self.field(name, place) {
            Some(value) => value.flag,
            None => None,
        }
    }

    fn passes(&self, scope: Scope) -> (r: bool)
        ensures
            r == self@.passes(scope),
    {
        match self {
            Section::Table(entries) => all_pass(entries, scope),
            _ => true,
        }
    }
}

/// A document, as far as it counts.
#[derive(Debug)]
pub struct Document {
    pub common: Option<Section>,
    pub network: Option<Section>,
    /// Whether all else can be passed over.
    pub others_readable: bool,
}

pub struct DocumentView {
    pub common: Option<SectionView>,
    pub network: Option<SectionView>,
    pub others_readable: bool,
}

/// A section that may be missing.
pub open spec fn optional_section(s: Option<Section>) -> Option<SectionView> {
    match s {
        Some(section) => Some(section@),
        None => None,
    }
}

impl View for Document {
    type V = DocumentView;

    open spec fn view(&self) -> DocumentView {
        DocumentView {
            common: optional_section(self.common),
            network: optional_section(self.network),
            others_readable: self.others_readable,
        }
    }
}

/// The common section is what `c` says.
pub open spec fn common_reads(s: SectionView, c: Common) -> bool {
    &&& s.text("bundled_packages_dir"@, 0) == Some(c.bundled_packages_dir@)
    &&& s.text("downloaded_packages_dir"@, 1) == Some(c.downloaded_packages_dir@)
    &&& s.text("packages_data_root"@, 2) == Some(c.packages_data_root@)
    &&& s.text("packages_overlayfs_root"@, 3) == Some(c.packages_overlayfs_root@)
    &&& s.text("packages_mnt_root"@, 4) == Some(c.packages_mnt_root@)
    &&& s.text("public_key_file_path"@, 5) == Some(c.public_key_file_path@)
    &&& s.text("packages_cgroup"@, 6) == Some(c.packages_cgroup@)
    &&& s.text("packages_ext"@, 7) == Some(c.packages_ext@)
    &&& s.text("rpc_bind_ip"@, 8) == optional_text(c.rpc_bind_ip)
}

/// Whether the common section says all that it must. The address to listen on may be left
/// out of a table, but not of a list.
pub open spec fn common_complete(s: SectionView) -> bool {
    &&& s.text("bundled_packages_dir"@, 0) is Some
    &&& s.text("downloaded_packages_dir"@, 1) is Some
    &&& s.text("packages_data_root"@, 2) is Some
    &&& s.text("packages_overlayfs_root"@, 3) is Some
    &&& s.text("packages_mnt_root"@, 4) is Some
    &&& s.text("public_key_file_path"@, 5) is Some
    &&& s.text("packages_cgroup"@, 6) is Some
    &&& s.text("packages_ext"@, 7) is Some
    &&& s is List || s.field("rpc_bind_ip"@, 8) is Some ==> s.text("rpc_bind_ip"@, 8) is Some
    &&& s.passes(Scope::Common)
}

/// The network section is what `n` says.
pub open spec fn network_reads(s: SectionView, n: NetworkConfig) -> bool {
    &&& s.flag("bridge_enabled"@, 0) == Some(n.bridge_enabled)
    &&& s.text("bridge_name"@, 1) == Some(n.bridge_name@)
    &&& s.text("subnet"@, 2) == Some(n.subnet@)
    &&& s.text("gateway"@, 3) == Some(dotted(n.gateway))
}

/// Whether the network section says all that it must.
pub open spec fn network_complete(s: SectionView) -> bool {
    &&& s.flag("bridge_enabled"@, 0) is Some
    &&& s.text("bridge_name"@, 1) is Some
    &&& s.text("subnet"@, 2) is Some
    &&& s.text("gateway"@, 3) matches Some(g)
    &&& exists|a: u32| g == #[trigger] dotted(a)
    &&& s.passes(Scope::Network)
}

/// Whether a document is a configuration: all of the common section but the address to
/// listen on is required; of the network section, all or nothing.
pub open spec fn is_configuration(d: DocumentView) -> bool {
    &&& d.others_readable
    &&& d.common matches Some(s)
    &&& common_complete(s)
    &&& d.network matches Some(s) ==> network_complete(s)
}

/// The configuration that a document is.
pub open spec fn document_reads(d: DocumentView, c: Common, n: Option<NetworkConfig>) -> bool {
    &&& d.common matches Some(s)
    &&& common_reads(s, c)
    &&& match d.network {
        Some(s) => n matches Some(n) && network_reads(s, n),
        None => n is None,
    }
}

/// What a section of a text holds, if the section is there.
pub open spec fn section_of(content: Seq<char>, section: Seq<char>) -> SectionView {
    match toml_list(content, section) {
        Some(items) => SectionView::List(items),
        None => match toml_table(content, section) {
            Some(entries) => SectionView::Table(
                Seq::new(
                    entries.len(),
                    |i: int|
                        NamedEntryView {
                            name: entries[i].0,
                            value: entries[i].1,
                            readable: toml_entry_readable(content, section, entries[i].0),
                        },
                ),
            ),
            None => SectionView::Other,
        },
    }
}

/// The document that a text is; nothing where it is none.
pub open spec fn document_of(content: Seq<char>) -> Option<DocumentView> {
    match toml_names(content) {
        Some(names) => Some(
            DocumentView {
                common: if names.contains("common"@) {
                    Some(section_of(content, "common"@))
                } else {
                    None
                },
                network: if names.contains("network"@) {
                    Some(section_of(content, "network"@))
                } else {
                    None
                },
                others_readable: forall|i: int|
                    0 <= i < names.len() ==> is_known(Scope::Top, #[trigger] names[i])
                        || toml_readable(content, names[i]),
            },
        ),
        None => None,
    }
}

fn read_section(content: &str, section: &str) -> (r: Section)
    ensures
        r@ == section_of(content@, section@),
{
    if let Some(items) = toml_read_list(content, section) {
        return Section::List(items);
    }
    let entries = match toml_read_table(content, section) {
        Some(entries) => entries,
        None => {
            return Section::Other;
        },
    };
    let mut out: Vec<NamedEntry> = Vec::new();
    let mut i: usize = 0;
    while i < entries.len()
        invariant
            i <= entries@.len(),
            out@.len() == i,
            forall|j: int|
                0 <= j < i ==> (#[trigger] out@[j])@ == (NamedEntryView {
                    name: entries@[j].0@,
                    value: entries@[j].1@,
                    readable: toml_entry_readable(content@, section@, entries@[j].0@),
                }),
        decreases entries.len() - i,
    {
        let name = entries[i].0.clone();
        let value = Entry { text: copy_text(&entries[i].1.text), flag: entries[i].1.flag };
        let readable = toml_can_read_entry(content, section, name.as_str());
        out.push(NamedEntry { name, value, readable });
        i += 1;
    }
    proof {
        let read = toml_table(content@, section@)->0;
        assert(read == named_view(entries@));
        assert(table_view(out@) =~= Seq::new(
            read.len(),
            |j: int|
                NamedEntryView {
                    name: read[j].0,
                    value: read[j].1,
                    readable: toml_entry_readable(content@, section@, read[j].0),
                },
        ));
    }
    Section::Table(out)
}

fn read_document(content: &str) -> (r: Option<Document>)
    ensures
        match document_of(content@) {
            Some(d) => r matches Some(x) && x@ == d,
            None => r is None,
        },
{
    let names = toml_read_names(content)?;
    let mut common: Option<Section> = None;
    let mut network: Option<Section> = None;
    let mut others_readable = true;
    let mut i: usize = 0;
    while i < names.len()
        invariant
            i <= names@.len(),
            optional_section(common) == if texts(names@).take(i as int).contains("common"@) {
                Some(section_of(content@, "common"@))
            } else {
                None
            },
            optional_section(network) == if texts(names@).take(i as int).contains("network"@) {
                Some(section_of(content@, "network"@))
            } else {
                None
            },
            others_readable == (forall|j: int|
                0 <= j < i ==> is_known(Scope::Top, #[trigger] texts(names@)[j])
                    || toml_readable(content@, texts(names@)[j])),
        decreases names.len() - i,
    {
        let name = names[i].as_str();
        proof {
            let before = texts(names@).take(i as int);
            assert(texts(names@)[i as int] == name@);
            assert(texts(names@).take(i + 1) =~= before.push(name@));
            assert forall|n: Seq<char>| #[trigger]
                before.push(name@).contains(n) == (before.contains(n) || n == name@) by {
                if before.contains(n) {
                    let j = choose|j: int| 0 <= j < before.len() && before[j] == n;
                    assert(before.push(name@)[j] == n);
                }
                if n == name@ {
                    assert(before.push(name@)[before.len() as int] == n);
                }
            }
            reveal_strlit("common");
            reveal_strlit("network");
            assert("common"@.len() != "network"@.len());
        }
        if is_same(name, "common") {
            common = Some(read_section(content, "common"));
        } else if is_same(name, "network") {
            network = Some(read_section(content, "network"));
        } else if !toml_can_read(content, name) {
            others_readable = false;
        }
        i += 1;
    }
    assert(texts(names@).take(i as int) =~= texts(names@));
    Some(Document { common, network, others_readable })
}

fn common_of(s: &Section) -> (r: Option<Common>)
    ensures
        r is Some <==> common_complete(s@),
        r matches Some(c) ==> common_reads(s@, c),
{
    if !s.passes(Scope::Common) {
        return None;
    }
    let is_list = match s {
        Section::List(_) => true,
        _ => false,
    };
    let rpc_bind_ip = if is_list || s.field("rpc_bind_ip", 8).is_some() {
        Some(s.text("rpc_bind_ip", 8)?)
    } else {
        None
    };
    Some(
        Common {
            bundled_packages_dir: s.text("bundled_packages_dir", 0)?,
            downloaded_packages_dir: s.text("downloaded_packages_dir", 1)?,
            packages_data_root: s.text("packages_data_root", 2)?,
            packages_overlayfs_root: s.text("packages_overlayfs_root", 3)?,
            packages_mnt_root: s.text("packages_mnt_root", 4)?,
            public_key_file_path: s.text("public_key_file_path", 5)?,
            packages_cgroup: s.text("packages_cgroup", 6)?,
            packages_ext: s.text("packages_ext", 7)?,
            rpc_bind_ip,
        },
    )
}

fn network_of(s: &Section) -> (r: Option<NetworkConfig>)
    ensures
        r is Some <==> network_complete(s@),
        r matches Some(n) ==> network_reads(s@, n),
{
    if !s.passes(Scope::Network) {
        return None;
    }
    let gateway_text = s.text("gateway", 3)?;
    let gateway: u32 = parse_ipv4(gateway_text.as_str())?;
    Some(
        NetworkConfig {
            bridge_enabled: s.flag("bridge_enabled", 0)?,
            bridge_name: s.text("bridge_name", 1)?,
            subnet: s.text("subnet", 2)?,
            gateway,
        },
    )
}

impl Configuration {
    pub closed spec fn common_spec(&self) -> Common {
        self.common
    }

    pub closed spec fn network_spec(&self) -> Option<NetworkConfig> {
        self.network
    }

    pub fn new(common: Common, network: Option<NetworkConfig>) -> (r: Self)
        ensures
            r.common_spec() == common,
            r.network_spec() == network,
    {
        Configuration { common, network }
    }

    /// The configuration that a document is.
    pub fn of_document(d: &Document) -> (r: Result<Self, ConfigError>)
        ensures
            r is Ok <==> is_configuration(d@),
            r matches Ok(c) ==> document_reads(d@, c.common_spec(), c.network_spec()),
            r matches Err(e) ==> e == ConfigError::Parse,
    {
        if !d.others_readable {
            return Err(ConfigError::Parse);
        }
        let common = match &d.common {
            Some(section) => common_of(section),
            None => None,
        };
        let common = match common {
            Some(common) => common,
            None => {
                return Err(ConfigError::Parse);
            },
        };
        let network = match &d.network {
            Some(section) => match network_of(section) {
                Some(network) => Some(network),
                None => {
                    return Err(ConfigError::Parse);
                },
            },
            None => None,
        };
        Ok(Configuration { common, network })
    }

    /// Reads a configuration.
    pub fn parse(content: &str) -> (r: Result<Self, ConfigError>)
        ensures
            r is Ok <==> (document_of(content@) matches Some(d) && is_configuration(d)),
            r matches Ok(c) ==> (document_of(content@) matches Some(d) && document_reads(
                d,
                c.common_spec(),
                c.network_spec(),
            )),
            r matches Err(e) ==> e == ConfigError::Parse,
    {
        match read_document(content) {
            Some(d) => Configuration::of_document(&d),
            None => Err(ConfigError::Parse),
        }
    }

    pub fn bundled_packages_dir(&self) -> (r: &str)
        ensures
            r@ == self.common_spec().bundled_packages_dir@,
    {
        self.common.bundled_packages_dir.as_str()
    }

    pub fn downloaded_packages_dir(&self) -> (r: &str)
        ensures
            r@ == self.common_spec().downloaded_packages_dir@,
    {
        self.common.downloaded_packages_dir.as_str()
    }

    pub fn packages_data_root(&self) -> (r: &str)
        ensures
            r@ == self.common_spec().packages_data_root@,
    {
        self.common.packages_data_root.as_str()
    }

    pub fn packages_overlayfs_root(&self) -> (r: &str)
        ensures
            r@ == self.common_spec().packages_overlayfs_root@,
    {
        self.common.packages_overlayfs_root.as_str()
    }

    pub fn packages_mnt_root(&self) -> (r: &str)
        ensures
            r@ == self.common_spec().packages_mnt_root@,
    {
        self.common.packages_mnt_root.as_str()
    }

    pub fn public_key_file_path(&self) -> (r: &str)
        ensures
            r@ == self.common_spec().public_key_file_path@,
    {
        self.common.public_key_file_path.as_str()
    }

    pub fn packages_cgroup(&self) -> (r: &str)
        ensures
            r@ == self.common_spec().packages_cgroup@,
    {
        self.common.packages_cgroup.as_str()
    }

    pub fn packages_ext(&self) -> (r: &str)
        ensures
            r@ == self.common_spec().packages_ext@,
    {
        self.common.packages_ext.as_str()
    }

    pub fn rpc_bind_ip(&self) -> (r: Option<&str>)
        ensures
            match self.common_spec().rpc_bind_ip {
                Some(ip) => r matches Some(s) && s@ == ip@,
                None => r is None,
            },
    {
        match &self.common.rpc_bind_ip {
            Some(ip) => Some(ip.as_str()),
            None => None,
        }
    }

    pub fn network_config(&self) -> (r: Option<&NetworkConfig>)
        ensures
            match self.network_spec() {
                Some(n) => r matches Some(x) && *x == n,
                None => r is None,
            },
    {
        match &self.network {
            Some(n) => Some(n),
            None => None,
        }
    }
}

impl Clone for Configuration {
    fn clone(&self) -> (r: Self)
        ensures
            r.common_spec() == self.common_spec(),
            r.network_spec() == self.network_spec(),
    {
        let network = match &self.network {
            Some(n) => Some(n.clone()),
            None => None,
        };
        Configuration { common: self.common.clone(), network }
    }
}

/// Where the configuration file is looked for: beside the program, or in the current
/// directory where the program does not know its place.
pub fn default_config_path(exe_path: Option<&str>) -> (r: String)
    ensures
        r@ == match exe_path {
            Some(exe) => if parent_components(exe@) is Some {
                joined(parent_text(exe@), "ssamd.toml"@)
            } else {
                "./ssamd.toml"@
            },
            None => "./ssamd.toml"@,
        },
{
    match exe_path {
        Some(exe) => match parent(exe) {
            Some(dir) => join(dir.as_str(), "ssamd.toml"),
            None => "./ssamd.toml".to_owned(),
        },
        None => "./ssamd.toml".to_owned(),
    }
}

/// The configuration of the running daemon, which is set once.
#[derive(Debug)]
pub struct GlobalConfig {
    config: Option<Configuration>,
}

/// Why the configuration could not be set.
#[derive(Debug, Clone, Copy, PartialEq, Eq, Structural)]
pub enum InitError {
    /// There was none to set.
    LoadFailed,
    AlreadyInitialized,
}

impl GlobalConfig {
    pub closed spec fn config_spec(&self) -> Option<Configuration> {
        self.config
    }

    pub open spec fn is_set(&self) -> bool {
        self.config_spec() is Some
    }

    pub open spec fn common(&self) -> Common {
        self.config_spec()->0.common_spec()
    }

    pub fn new() -> (r: Self)
        ensures
            !r.is_set(),
    {
        GlobalConfig { config: None }
    }

    pub fn get(&self) -> (r: Option<&Configuration>)
        ensures
            match self.config_spec() {
                Some(c) => r matches Some(x) && *x == c,
                None => r is None,
            },
    {
        match &self.config {
            Some(c) => Some(c),
            None => None,
        }
    }
}

/// Why a configuration that was loaded, or could not be, must not be set.
pub open spec fn init_error(current: Option<Configuration>, loaded: Option<Configuration>) -> Option<
    InitError,
> {
    if loaded is None {
        Some(InitError::LoadFailed)
    } else if current is Some {
        Some(InitError::AlreadyInitialized)
    } else {
        None
    }
}

/// Tells whether the configuration can be set; it cannot be without one, nor twice.
pub fn init_refusal(global: &GlobalConfig, loaded: &Option<Configuration>) -> (r: Option<InitError>)
    ensures
        r == init_error(global.config_spec(), *loaded),
{
    if loaded.is_none() {
        Some(InitError::LoadFailed)
    } else if global.config.is_some() {
        Some(InitError::AlreadyInitialized)
    } else {
        None
    }
}

/// Sets the configuration that was loaded.
pub fn init(global: &mut GlobalConfig, loaded: Option<Configuration>)
    requires
        init_error(old(global).config_spec(), loaded) is None,
    ensures
        final(global).is_set(),
        final(global).config_spec() == loaded,
{
    global.config = loaded;
}

fn configured(global: &GlobalConfig) -> (r: &Configuration)
    requires
        global.is_set(),
    ensures
        Some(*r) == global.config_spec(),
{
    match &global.config {
        Some(c) => c,
        None => vstd::pervasive::unreached(),
    }
}

pub fn bundled_packages_dir(global: &GlobalConfig) -> (r: &str)
    requires
        global.is_set(),
    ensures
        r@ == global.common().bundled_packages_dir@,
{
    configured(global).bundled_packages_dir()
}

pub fn downloaded_packages_dir(global: &GlobalConfig) -> (r: &str)
    requires
        global.is_set(),
    ensures
        r@ == global.common().downloaded_packages_dir@,
{
    configured(global).downloaded_packages_dir()
}

pub fn packages_data_root(global: &GlobalConfig) -> (r: &str)
    requires
        global.is_set(),
    ensures
        r@ == global.common().packages_data_root@,
{
    configured(global).packages_data_root()
}

pub fn packages_overlayfs_root(global: &GlobalConfig) -> (r: &str)
    requires
        global.is_set(),
    ensures
        r@ == global.common().packages_overlayfs_root@,
{
    configured(global).packages_overlayfs_root()
}

pub fn packages_mnt_root(global: &GlobalConfig) -> (r: &str)
    requires
        global.is_set(),
    ensures
        r@ == global.common().packages_mnt_root@,
{
    configured(global).packages_mnt_root()
}

pub fn public_key_file_path(global: &GlobalConfig) -> (r: &str)
    requires
        global.is_set(),
    ensures
        r@ == global.common().public_key_file_path@,
{
    configured(global).public_key_file_path()
}

pub fn packages_cgroup(global: &GlobalConfig) -> (r: &str)
    requires
        global.is_set(),
    ensures
        r@ == global.common().packages_cgroup@,
{
    configured(global).packages_cgroup()
}

pub fn packages_ext(global: &GlobalConfig) -> (r: &str)
    requires
        global.is_set(),
    ensures
        r@ == global.common().packages_ext@,
{
    configured(global).packages_ext()
}

pub fn rpc_bind_ip(global: &GlobalConfig) -> (r: Option<&str>)
    requires
        global.is_set(),
    ensures
        match global.common().rpc_bind_ip {
            Some(ip) => r matches Some(s) && s@ == ip@,
            None => r is None,
        },
{
    configured(global).rpc_bind_ip()
}

pub fn network_config(global: &GlobalConfig) -> (r: Option<&NetworkConfig>)
    requires
        global.is_set(),
    ensures
        match global.config_spec()->0.network_spec() {
            Some(n) => r matches Some(x) && *x == n,
            None => r is None,
        },
{
    configured(global).network_config()
}

/// What was set first stays: once a configuration is set, none can be set again, whatever
/// is loaded.
pub proof fn law_first_configuration_stays(first: Configuration, loaded: Option<Configuration>)
    ensures
        init_error(Some(first), loaded) is Some,
{
}

/// Each field of the common section is read from the entry of its name in a table, and from
/// its place in a list.
pub proof fn law_fields_of_the_common_section(s: SectionView, c: Common)
    requires
        common_complete(s),
        common_reads(s, c),
    ensures
        s is Table ==> {
            let at = |name: Seq<char>| value_named(s->Table_0, name);
            &&& at("bundled_packages_dir"@) is Some && (at("bundled_packages_dir"@)->0).0 == Some(
                c.bundled_packages_dir@,
            )
            &&& (at("downloaded_packages_dir"@)->0).0 == Some(c.downloaded_packages_dir@)
            &&& (at("packages_data_root"@)->0).0 == Some(c.packages_data_root@)
            &&& (at("packages_overlayfs_root"@)->0).0 == Some(c.packages_overlayfs_root@)
            &&& (at("packages_mnt_root"@)->0).0 == Some(c.packages_mnt_root@)
            &&& (at("public_key_file_path"@)->0).0 == Some(c.public_key_file_path@)
            &&& (at("packages_cgroup"@)->0).0 == Some(c.packages_cgroup@)
            &&& (at("packages_ext"@)->0).0 == Some(c.packages_ext@)
            &&& c.rpc_bind_ip is Some <==> at("rpc_bind_ip"@) is Some
            &&& c.rpc_bind_ip matches Some(ip) ==> (at("rpc_bind_ip"@)->0).0 == Some(ip@)
        },
        s matches SectionView::List(items) ==> {
            &&& items.len() >= 9
            &&& items[0].0 == Some(c.bundled_packages_dir@)
            &&& items[1].0 == Some(c.downloaded_packages_dir@)
            &&& items[2].0 == Some(c.packages_data_root@)
            &&& items[3].0 == Some(c.packages_overlayfs_root@)
            &&& items[4].0 == Some(c.packages_mnt_root@)
            &&& items[5].0 == Some(c.public_key_file_path@)
            &&& items[6].0 == Some(c.packages_cgroup@)
            &&& items[7].0 == Some(c.packages_ext@)
            &&& c.rpc_bind_ip matches Some(ip) && items[8].0 == Some(ip@)
        },
        !(s is Other),
{
}

/// Each field of the network section is read from the entry of its name in a table, and from
/// its place in a list.
pub proof fn law_fields_of_the_network_section(s: SectionView, n: NetworkConfig)
    requires
        network_complete(s),
        network_reads(s, n),
    ensures
        s is Table ==> {
            let at = |name: Seq<char>| value_named(s->Table_0, name);
            &&& at("bridge_enabled"@) is Some && (at("bridge_enabled"@)->0).1 == Some(
                n.bridge_enabled,
            )
            &&& (at("bridge_name"@)->0).0 == Some(n.bridge_name@)
            &&& (at("subnet"@)->0).0 == Some(n.subnet@)
            &&& (at("gateway"@)->0).0 == Some(dotted(n.gateway))
        },
        s matches SectionView::List(items) ==> {
            &&& items.len() >= 4
            &&& items[0].1 == Some(n.bridge_enabled)
            &&& items[1].0 == Some(n.bridge_name@)
            &&& items[2].0 == Some(n.subnet@)
            &&& items[3].0 == Some(dotted(n.gateway))
        },
        !(s is Other),
{
}

/// The value of a table under a name is that of the entry of the name.
pub proof fn law_values_are_found_by_name(entries: Seq<NamedEntryView>, i: int)
    requires
        0 <= i < entries.len(),
        forall|j: int| 0 <= j < entries.len() && j != i ==> (#[trigger] entries[j]).name
            != entries[i].name,
    ensures
        value_named(entries, entries[i].name) == Some(entries[i].value),
    decreases entries.len(),
{
    let rest = entries.drop_last();
    if i < rest.len() {
        assert(rest[i] == entries[i]);
        assert(entries[entries.len() - 1] == entries.last());
        assert forall|j: int| 0 <= j < rest.len() && j != i implies (#[trigger] rest[j]).name
            != rest[i].name by {
            assert(rest[j] == entries[j]);
        }
        law_values_are_found_by_name(rest, i);
    }
}

/// A name that no entry has stands for nothing.
pub proof fn law_no_entry_no_value(entries: Seq<NamedEntryView>, name: Seq<char>)
    ensures
        value_named(entries, name) is Some ==> exists|i: int|
            0 <= i < entries.len() && (#[trigger] entries[i]).name == name,
    decreases entries.len(),
{
    if entries.len() > 0 {
        let rest = entries.drop_last();
        law_no_entry_no_value(rest, name);
        assert(entries[entries.len() - 1] == entries.last());
        if exists|i: int| 0 <= i < rest.len() && (#[trigger] rest[i]).name == name {
            let i = choose|i: int| 0 <= i < rest.len() && (#[trigger] rest[i]).name == name;
            assert(entries[i] == rest[i]);
        }
    }
}

/// A document is a configuration only with a complete common section, and without a network
/// section there is no network.
pub proof fn law_documents_that_are_configurations(d: DocumentView, c: Common, n: Option<NetworkConfig>)
    requires
        is_configuration(d),
        document_reads(d, c, n),
    ensures
        d.others_readable,
        d.common is Some && common_complete(d.common->0) && common_reads(d.common->0, c),
        n is Some <==> d.network is Some,
        n is Some ==> network_complete(d.network->0) && network_reads(d.network->0, n->0),
{
}

/// A section is there if and only if the document names it, and what it holds is what the
/// document holds under that name; the entries beside the two sections only have to be readable.
pub proof fn law_sections_of_a_document(content: Seq<char>, names: Seq<Seq<char>>)
    requires
        toml_names(content) == Some(names),
    ensures
        document_of(content) matches Some(d) && {
            &&& d.common is Some <==> names.contains("common"@)
            &&& d.network is Some <==> names.contains("network"@)
            &&& d.common matches Some(s) ==> s == section_of(content, "common"@)
            &&& d.network matches Some(s) ==> s == section_of(content, "network"@)
            &&& !d.others_readable <==> exists|i: int|
                0 <= i < names.len() && (#[trigger] names[i]) != "common"@ && names[i] != "network"@
                    && !toml_readable(content, names[i])
        },
{
}

/// A section that is a list holds its items; one that is a table holds its entries, in their
/// order and under their names.
pub proof fn law_what_a_section_holds(content: Seq<char>, section: Seq<char>)
    ensures
        toml_list(content, section) matches Some(items) ==> section_of(content, section)
            == SectionView::List(items),
        toml_list(content, section) is None ==> (toml_table(content, section) matches Some(entries)
            ==> {
            &&& section_of(content, section) matches SectionView::Table(held)
            &&& held.len() == entries.len()
            &&& forall|i: int|
                0 <= i < entries.len() ==> {
                    &&& (#[trigger] held[i]).name == entries[i].0
                    &&& held[i].value == entries[i].1
                    &&& held[i].readable == toml_entry_readable(content, section, entries[i].0)
                }
        }),
        toml_list(content, section) is None && toml_table(content, section) is None ==> section_of(
            content,
            section,
        ) is Other,
{
}

/// The pool of addresses is what the configuration says; the subnets in it have prefixes of 29
/// bits where it says nothing.
pub proof fn law_pool_of_a_configuration(config: BridgeConfig, base: String, size: u8)
    ensures
        config.addr_pool == Some(PoolConfig { base: Some(base), size: Some(size) }) ==> (
        config.base_spec() == base@ && config.size_spec() == size),
        config.addr_pool == Some(PoolConfig { base: Some(base), size: None }) ==> (
        config.base_spec() == base@ && config.size_spec() == 29),
        config.addr_pool is None ==> config.base_spec().len() == 0 && config.size_spec() == 29,
{
}

/// A table may hold entries of any name that can be read; of those that have a meaning nothing
/// more is asked here. A section that is no table holds no names.
pub proof fn law_entries_that_may_stand(entries: Seq<NamedEntryView>, scope: Scope, i: int)
    ensures
        SectionView::Table(entries).passes(scope) && 0 <= i < entries.len() && !entries[i].readable
            ==> is_known(scope, entries[i].name),
        !SectionView::Table(entries).passes(scope) ==> exists|k: int|
            0 <= k < entries.len() && !(#[trigger] entries[k]).readable && !is_known(
                scope,
                entries[k].name,
            ),
        SectionView::Other.passes(scope),
{
}

/// The names that have a meaning.
pub proof fn law_names_with_a_meaning(name: Seq<char>)
    ensures
        is_known(Scope::Top, name) <==> name == "common"@ || name == "network"@,
        is_known(Scope::Network, name) <==> {
            ||| name == "bridge_enabled"@
            ||| name == "bridge_name"@
            ||| name == "subnet"@
            ||| name == "gateway"@
        },
        is_known(Scope::Common, name) <==> {
            ||| name == "bundled_packages_dir"@
            ||| name == "downloaded_packages_dir"@
            ||| name == "packages_data_root"@
            ||| name == "packages_overlayfs_root"@
            ||| name == "packages_mnt_root"@
            ||| name == "public_key_file_path"@
            ||| name == "packages_cgroup"@
            ||| name == "packages_ext"@
            ||| name == "rpc_bind_ip"@
        },
{
}

} // verus!
