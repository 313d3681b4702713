//! The runtime configuration that a container is started from: what the package brings,
//! with what the daemon sets.

use crate::network::{netns_dir_spec, netns_name, netns_name_spec, netns_path};
use crate::oci::{build_seccomp_config, seccomp_follows, HostArch, SeccompConfig};
use crate::path::{below_root, join, joined, strip_root, texts};
use crate::text::{is_same, join2};
use vstd::prelude::*;
use vstd::string::StringExecFns;

verus! {

/// How a container is connected.
#[derive(Debug, Clone, Copy, PartialEq, Eq, Structural)]
pub enum NetworkMode {
    /// It shares the network of the host.
    Host,
    /// It has a network of its own with nothing in it.
    Isolated,
    /// It is on a bridge.
    Bridge,
}

pub open spec fn network_mode_name(m: NetworkMode) -> Seq<char> {
    match m {
        NetworkMode::Host => "host"@,
        NetworkMode::Isolated => "none"@,
        NetworkMode::Bridge => "bridge"@,
    }
}

impl NetworkMode {
    pub fn parse(name: &str) -> (r: Option<NetworkMode>)
        ensures
            r matches Some(m) ==> network_mode_name(m) == name@,
            r is None ==> forall|m: NetworkMode| #[trigger] network_mode_name(m) != name@,
    {
        if is_same(name, "host") {
            Some(NetworkMode::Host)
        } else if is_same(name, "none") {
            Some(NetworkMode::Isolated)
        } else if is_same(name, "bridge") {
            Some(NetworkMode::Bridge)
        } else {
            None
        }
    }
}

/// The kinds of namespace.
#[derive(Debug, Clone, Copy, PartialEq, Eq, Structural)]
pub enum LinuxNamespaceType {
    Mount,
    Cgroup,
    Uts,
    Ipc,
    User,
    Pid,
    Network,
    Time,
}

/// A namespace of a container: a new one, or the one at a path.
#[derive(Debug)]
pub struct LinuxNamespace {
    pub typ: LinuxNamespaceType,
    pub path: Option<String>,
}

pub open spec fn path_view(p: Option<String>) -> Option<Seq<char>> {
    match p {
        Some(s) => Some(s@),
        None => None,
    }
}

pub open spec fn namespace_views(ns: Seq<LinuxNamespace>) -> Seq<
    (LinuxNamespaceType, Option<Seq<char>>),
> {
    Seq::new(ns.len(), |i: int| (ns[i].typ, path_view(ns[i].path)))
}

/// The namespaces that are not of the network.
pub open spec fn without_network(ns: Seq<(LinuxNamespaceType, Option<Seq<char>>)>) -> Seq<
    (LinuxNamespaceType, Option<Seq<char>>),
>
    decreases ns.len(),
{
    if ns.len() == 0 {
        Seq::empty()
    } else if ns.last().0 == LinuxNamespaceType::Network {
        without_network(ns.drop_last())
    } else {
        without_network(ns.drop_last()).push(ns.last())
    }
}

/// The network namespace that a mode calls for.
pub open spec fn network_part(mode: NetworkMode, netns: Option<Seq<char>>) -> Seq<
    (LinuxNamespaceType, Option<Seq<char>>),
> {
    match mode {
        NetworkMode::Host => Seq::empty(),
        NetworkMode::Isolated => seq![(LinuxNamespaceType::Network, None)],
        NetworkMode::Bridge => seq![(LinuxNamespaceType::Network, netns)],
    }
}

/// Why a container's configuration could not be made.
#[derive(Debug, Clone, Copy, PartialEq, Eq, Structural)]
pub enum BundleError {
    /// A container on a bridge needs the path of its namespace.
    MissingNetnsPath,
}

impl BundleError {
    pub fn message(&self) -> (r: &'static str)
        ensures
            r@ == "bridge network mode requires a netns path"@,
    {
        "bridge network mode requires a netns path"
    }
}

fn copy_path(p: &Option<String>) -> (r: Option<String>)
    ensures
        r == *p,
{
    match p {
        Some(s) => Some(s.clone()),
        None => None,
    }
}

/// Gives a container the network namespace that its mode calls for, in place of any that
/// it brings.
pub fn configure_network_namespace(
    namespaces: Vec<LinuxNamespace>,
    network_mode: NetworkMode,
    bridge_netns_path: &Option<String>,
) -> (r: Result<Vec<LinuxNamespace>, BundleError>)
    ensures
        r is Err <==> network_mode is Bridge && bridge_netns_path is None,
        r matches Err(e) ==> e == BundleError::MissingNetnsPath,
        r matches Ok(ns) ==> namespace_views(ns@) == without_network(namespace_views(namespaces@))
            + network_part(network_mode, path_view(*bridge_netns_path)),
{
    let mut out: Vec<LinuxNamespace> = Vec::new();
    let ghost all = namespace_views(namespaces@);
    assert(all.take(0) =~= Seq::empty());
    assert(namespace_views(out@) =~= Seq::empty());
    let mut i: usize = 0;
    while i < namespaces.len()
        invariant
            i <= namespaces@.len(),
            all == namespace_views(namespaces@),
            namespace_views(out@) == without_network(all.take(i as int)),
        decreases namespaces.len() - i,
    {
        assert(all.take(i + 1).drop_last() =~= all.take(i as int));
        assert(all.take(i + 1).last() == all[i as int]);
        let ghost before = namespace_views(out@);
        if namespaces[i].typ != LinuxNamespaceType::Network {
            let ns = LinuxNamespace {
                typ: namespaces[i].typ,
                path: copy_path(&namespaces[i].path),
            };
            out.push(ns);
            assert(namespace_views(out@) =~= before.push(all[i as int]));
        }
        i += 1;
    }
    assert(all.take(i as int) =~= all);
    let ghost kept = namespace_views(out@);
    match network_mode {
        NetworkMode::Host => {
            assert(kept =~= kept + Seq::empty());
        },
        NetworkMode::Isolated => {
            out.push(LinuxNamespace { typ: LinuxNamespaceType::Network, path: None });
            assert(namespace_views(out@) =~= kept + network_part(network_mode, None));
        },
        NetworkMode::Bridge => {
            if bridge_netns_path.is_none() {
                return Err(BundleError::MissingNetnsPath);
            }
            let path = copy_path(bridge_netns_path);
            out.push(LinuxNamespace { typ: LinuxNamespaceType::Network, path });
            assert(namespace_views(out@) =~= kept + network_part(network_mode, path_view(path)));
        },
    }
    Ok(out)
}

/// What the host says of a package's AppArmor profile.
#[derive(Debug, Clone, Copy, PartialEq, Eq, Structural)]
pub enum ProfileLookup {
    /// Whether AppArmor is enabled cannot be told.
    Unknown,
    Disabled,
    /// The profiles cannot be read.
    Unreadable,
    /// The profiles were read, and the package's own is among them or not.
    Read { found: bool },
}

/// The name of a package's own profile.
pub open spec fn profile_name_spec(package_name: Seq<char>) -> Seq<char> {
    "ssam-prof-"@ + package_name
}

pub fn profile_name(package_name: &str) -> (r: String)
    ensures
        r@ == profile_name_spec(package_name@),
{
    join2("ssam-prof-", package_name)
}

/// The profile that a container runs under: the package's own, or the default one where
/// none of its own is found. Where AppArmor is off, or it cannot be told whether it is
/// on, there is none.
pub open spec fn apparmor_profile_spec(package_name: Seq<char>, lookup: ProfileLookup) -> Option<
    Seq<char>,
> {
    match lookup {
        ProfileLookup::Read { found: true } => Some(profile_name_spec(package_name)),
        ProfileLookup::Read { found: false } => Some("container-default"@),
        ProfileLookup::Unreadable => Some("container-default"@),
        ProfileLookup::Unknown => None,
        ProfileLookup::Disabled => None,
    }
}

pub fn build_apparmor_profile(package_name: &str, lookup: ProfileLookup) -> (r: Option<String>)
    ensures
        path_view(r) == apparmor_profile_spec(package_name@, lookup),
{
    match lookup {
        ProfileLookup::Read { found } => if found {
            Some(profile_name(package_name))
        } else {
            Some("container-default".to_owned())
        },
        ProfileLookup::Unreadable => Some("container-default".to_owned()),
        ProfileLookup::Unknown => None,
        ProfileLookup::Disabled => None,
    }
}

/// A directory of the host that is seen inside a container.
#[derive(Debug)]
pub struct Mount {
    pub destination: String,
    pub source: String,
    pub typ: String,
    pub options: Vec<String>,
}

/// What a bind mount is: writable, and with all that is mounted below.
pub open spec fn is_bind_mount(m: Mount, root: Seq<char>, dir: Seq<char>) -> bool {
    &&& m.source@ == joined(root, below_root(dir))
    &&& m.destination@ == joined("/"@, dir)
    &&& m.typ@ == "none"@
    &&& texts(m.options@) == seq!["rbind"@, "rw"@]
}

/// The mounts that put each data directory of a package at its place in the container.
pub fn make_bind_mounts(package_data_root: &str, data_dirs: &Vec<String>) -> (r: Vec<Mount>)
    ensures
        r@.len() == data_dirs@.len(),
        forall|i: int|
            0 <= i < r@.len() ==> is_bind_mount(
                #[trigger] r@[i],
                package_data_root@,
                data_dirs@[i]@,
            ),
{
    let mut out: Vec<Mount> = Vec::new();
    let mut i: usize = 0;
    while i < data_dirs.len()
        invariant
            i <= data_dirs@.len(),
            out@.len() == i,
            forall|j: int|
                0 <= j < i ==> is_bind_mount(
                    #[trigger] out@[j],
                    package_data_root@,
                    data_dirs@[j]@,
                ),
        decreases data_dirs.len() - i,
    {
        let dir = data_dirs[i].as_str();
        let mut options: Vec<String> = Vec::new();
        options.push("rbind".to_owned());
        options.push("rw".to_owned());
        assert(texts(options@) =~= seq!["rbind"@, "rw"@]);
        let m = Mount {
            destination: join("/", dir),
            source: join(package_data_root, strip_root(dir).as_str()),
            typ: "none".to_owned(),
            options,
        };
        out.push(m);
        i += 1;
    }
    out
}

/// The Linux part of a configuration.
#[derive(Debug)]
pub struct Linux {
    pub seccomp: Option<SeccompConfig>,
    pub namespaces: Option<Vec<LinuxNamespace>>,
    pub cgroups_path: Option<String>,
}

#[derive(Debug)]
pub struct Process {
    pub apparmor_profile: Option<String>,
}

#[derive(Debug)]
pub struct Root {
    pub path: String,
    pub readonly: bool,
}

/// What the daemon reads and sets of a runtime configuration. Where the package's own
/// has no Linux or process part, it is the runtime's default that stands here.
#[derive(Debug)]
pub struct OciSpec {
    pub linux: Linux,
    pub process: Process,
    pub root: Option<Root>,
    pub mounts: Option<Vec<Mount>>,
}

/// Where a package keeps its data, and the directories inside that it wants to see.
#[derive(Debug)]
pub struct DataMountPaths {
    pub root: String,
    pub dirs: Vec<String>,
}

impl DataMountPaths {
    pub fn new(root: String, data_dirs: Option<Vec<String>>) -> (r: Self)
        ensures
            r.root == root,
            r.dirs@ == match data_dirs {
                Some(dirs) => dirs@,
                None => Seq::empty(),
            },
    {
        DataMountPaths {
            root,
            dirs: match data_dirs {
                Some(dirs) => dirs,
                None => Vec::new(),
            },
        }
    }
}

/// All that goes into a container's configuration.
#[derive(Debug)]
pub struct ContainerBundleSpec {
    pub oci_template: OciSpec,
    pub seccomp_policy: Option<Vec<u8>>,
    pub mac_enabled: bool,
    pub network_mode: NetworkMode,
    pub cgroups_path: String,
    pub package_name: String,
    pub mount_point: String,
    pub data_mounts: Option<DataMountPaths>,
    pub bridge_netns_path: Option<String>,
}

/// The control group of a package's container.
pub open spec fn container_cgroup(cgroups_path: Seq<char>, package_name: Seq<char>) -> Seq<char> {
    joined(cgroups_path, package_name + ".service/container"@)
}

pub open spec fn template_namespaces(t: OciSpec) -> Seq<(LinuxNamespaceType, Option<Seq<char>>)> {
    match t.linux.namespaces {
        Some(ns) => namespace_views(ns@),
        None => Seq::empty(),
    }
}

pub open spec fn policy_view(p: Option<Vec<u8>>) -> Option<Seq<u8>> {
    match p {
        Some(v) => Some(v@),
        None => None,
    }
}

/// The mounts of a configuration: those of the package, then its data directories. A
/// package that lists no mounts at all is given none.
pub open spec fn mounts_follow(
    template: Option<Vec<Mount>>,
    data: Option<DataMountPaths>,
    mounts: Option<Vec<Mount>>,
) -> bool {
    match template {
        None => mounts is None,
        Some(own) => {
            let n = own@.len();
            let extra = match data {
                Some(d) => d.dirs@.len(),
                None => 0,
            };
            &&& mounts matches Some(m)
            &&& m@.len() == n + extra
            &&& m@.take(n as int) == own@
            &&& forall|i: int|
                0 <= i < extra ==> is_bind_mount(
                    #[trigger] m@[n + i],
                    data->0.root@,
                    data->0.dirs@[i]@,
                )
        },
    }
}

/// A configuration is the one for a bundle, with the root file system at `rootfs`.
pub open spec fn is_runtime_config(
    conf: OciSpec,
    spec: ContainerBundleSpec,
    rootfs: Seq<char>,
    lookup: ProfileLookup,
    host: HostArch,
) -> bool {
    &&& seccomp_follows(policy_view(spec.seccomp_policy), host, conf.linux.seccomp)
    &&& conf.linux.namespaces matches Some(ns)
    &&& namespace_views(ns@) == without_network(template_namespaces(spec.oci_template))
        + network_part(spec.network_mode, path_view(spec.bridge_netns_path))
    &&& path_view(conf.linux.cgroups_path) == Some(
        container_cgroup(spec.cgroups_path@, spec.package_name@),
    )
    &&& path_view(conf.process.apparmor_profile) == if spec.mac_enabled {
        apparmor_profile_spec(spec.package_name@, lookup)
    } else {
        None
    }
    &&& conf.root matches Some(root)
    &&& root.path@ == rootfs
    &&& root.readonly
    &&& mounts_follow(spec.oci_template.mounts, spec.data_mounts, conf.mounts)
}

fn append_mounts(mounts: Option<Vec<Mount>>, data: &Option<DataMountPaths>) -> (r: Option<
    Vec<Mount>,
>)
    ensures
        mounts_follow(mounts, *data, r),
{
    let mut mounts = match mounts {
        Some(mounts) => mounts,
        None => {
            return None;
        },
    };
    let ghost own = mounts@;
    if let Some(d) = data {
        let mut extra = make_bind_mounts(d.root.as_str(), &d.dirs);
        let ghost binds = extra@;
        mounts.append(&mut extra);
        assert(mounts@ =~= own + binds);
        assert forall|i: int| 0 <= i < binds.len() implies is_bind_mount(
            #[trigger] mounts@[own.len() + i],
            d.root@,
            d.dirs@[i]@,
        ) by {
            assert(mounts@[own.len() + i] == binds[i]);
        }
    }
    assert(mounts@.take(own.len() as int) =~= own);
    Some(mounts)
}

/// The configuration of a container.
#[derive(Debug)]
pub struct TransientRuntimeConfig {
    pub conf: OciSpec,
}

impl TransientRuntimeConfig {
    /// The configuration for a bundle. `rootfs_path` is the mount point of the package,
    /// made absolute; `lookup` is what the host says of the package's profile.
    pub fn new(
        spec: ContainerBundleSpec,
        rootfs_path: &str,
        lookup: ProfileLookup,
        host: HostArch,
    ) -> (r: Result<Self, BundleError>)
        ensures
            r is Err <==> spec.network_mode is Bridge && spec.bridge_netns_path is None,
            r matches Err(e) ==> e == BundleError::MissingNetnsPath,
            r matches Ok(c) ==> is_runtime_config(c.conf, spec, rootfs_path@, lookup, host),
    {
        let seccomp = build_seccomp_config(spec.seccomp_policy.as_ref(), host);
        let template = match spec.oci_template.linux.namespaces {
            Some(ns) => ns,
            None => {
                let none: Vec<LinuxNamespace> = Vec::new();
                assert(namespace_views(none@) =~= Seq::empty());
                none
            },
        };
        let namespaces = match configure_network_namespace(
            template,
            spec.network_mode,
            &spec.bridge_netns_path,
        ) {
            Ok(ns) => ns,
            Err(e) => {
                return Err(e);
            },
        };
        let apparmor_profile = if spec.mac_enabled {
            build_apparmor_profile(spec.package_name.as_str(), lookup)
        } else {
            None
        };
        let cgroup = join(
            spec.cgroups_path.as_str(),
            join2(spec.package_name.as_str(), ".service/container").as_str(),
        );
        let mounts = append_mounts(spec.oci_template.mounts, &spec.data_mounts);
        Ok(
            TransientRuntimeConfig {
                conf: OciSpec {
                    linux: Linux {
                        seccomp,
                        namespaces: Some(namespaces),
                        cgroups_path: Some(cgroup),
                    },
                    process: Process { apparmor_profile },
                    root: Some(Root { path: rootfs_path.to_owned(), readonly: true }),
                    mounts,
                },
            },
        )
    }
}

pub open spec fn network_count(ns: Seq<(LinuxNamespaceType, Option<Seq<char>>)>) -> nat
    decreases ns.len(),
{
    if ns.len() == 0 {
        0
    } else {
        network_count(ns.drop_last()) + if ns.last().0 == LinuxNamespaceType::Network {
            1nat
        } else {
            0nat
        }
    }
}

proof fn lemma_without_network(ns: Seq<(LinuxNamespaceType, Option<Seq<char>>)>)
    ensures
        network_count(without_network(ns)) == 0,
        without_network(without_network(ns)) == without_network(ns),
    decreases ns.len(),
{
    if ns.len() > 0 {
        lemma_without_network(ns.drop_last());
        if ns.last().0 != LinuxNamespaceType::Network {
            assert(without_network(ns).drop_last() =~= without_network(ns.drop_last()));
        }
    }
}

/// Whatever a package brings, its container has no network namespace of its own in host
/// mode and exactly one in any other; its other namespaces stay as they are.
pub proof fn law_network_namespace_follows_mode(
    ns: Seq<(LinuxNamespaceType, Option<Seq<char>>)>,
    mode: NetworkMode,
    netns: Option<Seq<char>>,
)
    ensures
        network_count(without_network(ns) + network_part(mode, netns)) == if mode is Host {
            0nat
        } else {
            1nat
        },
        without_network(without_network(ns) + network_part(mode, netns)) == without_network(ns),
{
    lemma_without_network(ns);
    let kept = without_network(ns);
    let all = kept + network_part(mode, netns);
    if mode is Host {
        assert(all =~= kept);
    } else {
        assert(all.drop_last() =~= kept);
    }
}

/// The runtime that starts containers.
#[derive(Debug, Clone, Copy, PartialEq, Eq, Structural)]
pub enum ContainerRuntime {
    CRun,
}

impl ContainerRuntime {
    pub fn to_text(&self) -> (r: String)
        ensures
            r@ == "/usr/bin/crun"@,
    {
        "/usr/bin/crun".to_owned()
    }
}

/// Why a command line could not be given.
#[derive(Debug)]
pub enum CommandError {
    /// The configuration has not been made yet.
    NotPrepared,
    /// The directory of the configuration is gone.
    BundleMissing,
    /// The path of the configuration is not text.
    BundlePath,
}

impl CommandError {
    pub fn message(&self) -> (r: &'static str)
        ensures
            r@ == match *self {
                CommandError::NotPrepared => "OCI runtime config not prepared"@,
                CommandError::BundleMissing => "Bundle path does not exist"@,
                CommandError::BundlePath => "Invalid bundle path"@,
            },
    {
        match self {
            CommandError::NotPrepared => "OCI runtime config not prepared",
            CommandError::BundleMissing => "Bundle path does not exist",
            CommandError::BundlePath => "Invalid bundle path",
        }
    }
}

/// The directory of a container's configuration.
#[derive(Debug)]
pub enum BundleDir {
    NotPrepared,
    Missing,
    /// It is there; its path, where it is text.
    Present(Option<String>),
}

/// The command lines of a package's container.
#[derive(Debug)]
pub struct ContainerCommand {
    pub name: String,
    pub runtime: ContainerRuntime,
    pub spec: ContainerBundleSpec,
}

/// What a package's own data says of its container.
#[derive(Debug)]
pub struct ContainerSettings {
    /// Whether system calls are filtered.
    pub seccomp: bool,
    /// Whether the container is to be confined by a profile.
    pub mac: bool,
    pub seccomp_policy: Vec<u8>,
}

/// The command line that starts a container from its configuration.
pub open spec fn start_command(bundle: Seq<char>, name: Seq<char>) -> Seq<Seq<char>> {
    seq!["/usr/bin/crun"@, "run"@, "--bundle"@, bundle, name]
}

/// The command line that removes a container.
pub open spec fn stop_command(name: Seq<char>) -> Seq<Seq<char>> {
    seq!["/usr/bin/crun"@, "delete"@, "--force"@, name]
}

/// A container is run, from the configuration that was made for it, and deleted, each time by
/// its own name, which comes last.
pub proof fn law_commands_of_a_container(bundle: Seq<char>, name: Seq<char>)
    ensures
        start_command(bundle, name)[0] == "/usr/bin/crun"@,
        start_command(bundle, name)[1] == "run"@,
        start_command(bundle, name)[2] == "--bundle"@,
        start_command(bundle, name)[3] == bundle,
        start_command(bundle, name).last() == name,
        start_command(bundle, name).len() == 5,
        stop_command(name)[0] == "/usr/bin/crun"@,
        stop_command(name)[1] == "delete"@,
        stop_command(name)[2] == "--force"@,
        stop_command(name).last() == name,
        stop_command(name).len() == 4,
{
}

impl ContainerCommand {
    pub fn new(name: String, runtime: ContainerRuntime, spec: ContainerBundleSpec) -> (r: Self)
        ensures
            r == (ContainerCommand { name, runtime, spec }),
    {
        ContainerCommand { name, runtime, spec }
    }

    /// The command for a package: its filter only where it wants one, and the path of its
    /// network namespace only on a bridge.
    pub fn from_package(
        name: String,
        runtime: ContainerRuntime,
        oci_template: OciSpec,
        settings: ContainerSettings,
        network_mode: NetworkMode,
        cgroups_path: String,
        mount_point: String,
        data_mounts: Option<DataMountPaths>,
        temp_dir: &str,
    ) -> (r: Self)
        ensures
            r.name == name,
            r.runtime == runtime,
            r.spec.oci_template == oci_template,
            r.spec.seccomp_policy == if settings.seccomp {
                Some(settings.seccomp_policy)
            } else {
                None
            },
            r.spec.mac_enabled == settings.mac,
            r.spec.network_mode == network_mode,
            r.spec.cgroups_path == cgroups_path,
            r.spec.package_name == name,
            r.spec.mount_point == mount_point,
            r.spec.data_mounts == data_mounts,
            path_view(r.spec.bridge_netns_path) == if network_mode is Bridge {
                Some(joined(netns_dir_spec(temp_dir@), netns_name_spec(name@)))
            } else {
                None
            },
    {
        let seccomp_policy = if settings.seccomp {
            Some(settings.seccomp_policy)
        } else {
            None
        };
        let bridge_netns_path = if network_mode == NetworkMode::Bridge {
            Some(netns_path(temp_dir, netns_name(name.as_str()).as_str()))
        } else {
            None
        };
        let spec = ContainerBundleSpec {
            oci_template,
            seccomp_policy,
            mac_enabled: settings.mac,
            network_mode,
            cgroups_path,
            package_name: name.clone(),
            mount_point,
            data_mounts,
            bridge_netns_path,
        };
        ContainerCommand::new(name, runtime, spec)
    }

    /// The command line that starts the container from its configuration.
    pub fn get_start_cmd(&self, bundle: &BundleDir) -> (r: Result<Vec<String>, CommandError>)
        ensures
            match bundle {
                BundleDir::NotPrepared => r matches Err(CommandError::NotPrepared),
                BundleDir::Missing => r matches Err(CommandError::BundleMissing),
                BundleDir::Present(None) => r matches Err(CommandError::BundlePath),
                BundleDir::Present(Some(path)) => {
                    &&& r matches Ok(cmd)
                    &&& texts(cmd@) == start_command(path@, self.name@)
                    &&& texts(cmd@) == seq![
                        "/usr/bin/crun"@,
                        "run"@,
                        "--bundle"@,
                        path@,
                        self.name@,
                    ]
                },
            },
    {
        match bundle {
            BundleDir::NotPrepared => Err(CommandError::NotPrepared),
            BundleDir::Missing => Err(CommandError::BundleMissing),
            BundleDir::Present(None) => Err(CommandError::BundlePath),
            BundleDir::Present(Some(path)) => {
                let mut cmd: Vec<String> = Vec::new();
                cmd.push(self.runtime.to_text());
                cmd.push("run".to_owned());
                cmd.push("--bundle".to_owned());
                cmd.push(path.clone());
                cmd.push(self.name.clone());
                assert(texts(cmd@) =~= seq![
                    "/usr/bin/crun"@,
                    "run"@,
                    "--bundle"@,
                    path@,
                    self.name@,
                ]);
                Ok(cmd)
            },
        }
    }

    /// The command line that removes the container, whether or not it still runs.
    pub fn get_stop_cmd(&self) -> (r: Vec<String>)
        ensures
            texts(r@) == stop_command(self.name@),
            texts(r@) == seq!["/usr/bin/crun"@, "delete"@, "--force"@, self.name@],
    {
        let mut cmd: Vec<String> = Vec::new();
        cmd.push(self.runtime.to_text());
        cmd.push("delete".to_owned());
        cmd.push("--force".to_owned());
        cmd.push(self.name.clone());
        assert(texts(cmd@) =~= seq!["/usr/bin/crun"@, "delete"@, "--force"@, self.name@]);
        cmd
    }
}

/// The root of a container is the mount point that was given, and cannot be written to.
pub proof fn law_root_is_read_only(
    conf: OciSpec,
    spec: ContainerBundleSpec,
    rootfs: Seq<char>,
    lookup: ProfileLookup,
    host: HostArch,
)
    requires
        is_runtime_config(conf, spec, rootfs, lookup, host),
    ensures
        conf.root is Some,
        conf.root->0.path@ == rootfs,
        conf.root->0.readonly,
        conf.linux.cgroups_path is Some,
        conf.linux.cgroups_path->0@ == joined(
            spec.cgroups_path@,
            spec.package_name@ + ".service/container"@,
        ),
{
}

/// A container is confined by a profile only where that is asked for: then by the package's own
/// if it is loaded, else by the default one, as long as AppArmor is on.
pub proof fn law_profile_of_a_container(
    conf: OciSpec,
    spec: ContainerBundleSpec,
    rootfs: Seq<char>,
    lookup: ProfileLookup,
    host: HostArch,
)
    requires
        is_runtime_config(conf, spec, rootfs, lookup, host),
    ensures
        !spec.mac_enabled ==> conf.process.apparmor_profile is None,
        spec.mac_enabled && lookup == (ProfileLookup::Read { found: true }) ==> (
        conf.process.apparmor_profile matches Some(p) && p@ == "ssam-prof-"@ + spec.package_name@),
        spec.mac_enabled && (lookup == (ProfileLookup::Read { found: false }) || lookup
            is Unreadable) ==> (conf.process.apparmor_profile matches Some(p) && p@
            == "container-default"@),
        spec.mac_enabled && (lookup is Disabled || lookup is Unknown)
            ==> conf.process.apparmor_profile is None,
{
}

/// A container has a filter only where the package brings a policy, and then it is that very
/// policy.
pub proof fn law_filter_of_a_container(
    conf: OciSpec,
    spec: ContainerBundleSpec,
    rootfs: Seq<char>,
    lookup: ProfileLookup,
    host: HostArch,
)
    requires
        is_runtime_config(conf, spec, rootfs, lookup, host),
    ensures
        conf.linux.seccomp matches Some(s) ==> (spec.seccomp_policy matches Some(p) && s.policy@
            == p@),
        spec.seccomp_policy is None ==> conf.linux.seccomp is None,
{
}

/// The namespaces of a container: those of the package that are not of the network, and by its
/// mode no network namespace, a new one, or the one at the path that was made for it.
pub proof fn law_namespaces_of_a_container(
    conf: OciSpec,
    spec: ContainerBundleSpec,
    rootfs: Seq<char>,
    lookup: ProfileLookup,
    host: HostArch,
    ns: (LinuxNamespaceType, Option<Seq<char>>),
)
    requires
        is_runtime_config(conf, spec, rootfs, lookup, host),
    ensures
        conf.linux.namespaces is Some,
        ({
            let all = namespace_views(conf.linux.namespaces->0@);
            let own = match spec.oci_template.linux.namespaces {
                Some(own) => namespace_views(own@),
                None => Seq::empty(),
            };
            &&& ns.0 != LinuxNamespaceType::Network ==> (all.contains(ns) <==> own.contains(ns))
            &&& ns.0 == LinuxNamespaceType::Network ==> (all.contains(ns) <==> match spec.network_mode {
                NetworkMode::Host => false,
                NetworkMode::Isolated => ns.1 is None,
                NetworkMode::Bridge => ns.1 == path_view(spec.bridge_netns_path),
            })
        }),
{
    let own = template_namespaces(spec.oci_template);
    let kept = without_network(own);
    let part = network_part(spec.network_mode, path_view(spec.bridge_netns_path));
    let all = kept + part;
    lemma_kept_namespaces(own, ns);
    if kept.contains(ns) {
        let i = choose|i: int| 0 <= i < kept.len() && kept[i] == ns;
        assert(all[i] == ns);
    }
    if all.contains(ns) {
        let i = choose|i: int| 0 <= i < all.len() && all[i] == ns;
        if i < kept.len() {
            assert(kept[i] == ns);
        } else {
            assert(part[i - kept.len()] == ns);
        }
    }
    if part.len() > 0 {
        assert(all[kept.len() as int] == part[0]);
    }
}

proof fn lemma_kept_namespaces(
    ns: Seq<(LinuxNamespaceType, Option<Seq<char>>)>,
    x: (LinuxNamespaceType, Option<Seq<char>>),
)
    ensures
        without_network(ns).contains(x) <==> ns.contains(x) && x.0 != LinuxNamespaceType::Network,
    decreases ns.len(),
{
    if ns.len() > 0 {
        let before = ns.drop_last();
        lemma_kept_namespaces(before, x);
        let (all, rest) = (without_network(ns), without_network(before));
        assert(ns[ns.len() - 1] == ns.last());
        if ns.contains(x) {
            let i = choose|i: int| 0 <= i < ns.len() && ns[i] == x;
            if i < before.len() {
                assert(before[i] == x);
            }
        }
        if before.contains(x) {
            let i = choose|i: int| 0 <= i < before.len() && before[i] == x;
            assert(ns[i] == x);
        }
        if rest.contains(x) {
            let i = choose|i: int| 0 <= i < rest.len() && rest[i] == x;
            assert(all[i] == x);
        }
        if all.contains(x) {
            let i = choose|i: int| 0 <= i < all.len() && all[i] == x;
            if i < rest.len() {
                assert(rest[i] == x);
            }
        }
        if ns.last().0 != LinuxNamespaceType::Network {
            assert(all[all.len() - 1] == ns.last());
        }
    }
}

/// The mounts of a container: those of the package, in order, and behind them its data
/// directories, each at its own place and to be written to.
pub proof fn law_mounts_of_a_container(
    conf: OciSpec,
    spec: ContainerBundleSpec,
    rootfs: Seq<char>,
    lookup: ProfileLookup,
    host: HostArch,
    i: int,
)
    requires
        is_runtime_config(conf, spec, rootfs, lookup, host),
        spec.oci_template.mounts is Some,
    ensures
        conf.mounts is Some,
        ({
            let own = spec.oci_template.mounts->0@;
            let all = conf.mounts->0@;
            &&& spec.data_mounts is None ==> all == own
            &&& 0 <= i < own.len() ==> all[i] == own[i]
            &&& spec.data_mounts matches Some(data) ==> {
                &&& all.len() == own.len() + data.dirs@.len()
                &&& 0 <= i < data.dirs@.len() ==> {
                    let m = all[own.len() + i];
                    &&& m.source@ == joined(data.root@, below_root(data.dirs@[i]@))
                    &&& m.destination@ == joined("/"@, data.dirs@[i]@)
                    &&& m.typ@ == "none"@
                    &&& m.options@.len() == 2
                    &&& m.options@[0]@ == "rbind"@
                    &&& m.options@[1]@ == "rw"@
                }
            }
        }),
{
    let own = spec.oci_template.mounts->0@;
    let all = conf.mounts->0@;
    assert(all.take(own.len() as int) == own);
    if 0 <= i < own.len() {
        assert(all.take(own.len() as int)[i] == own[i]);
    }
    if spec.data_mounts is None {
        assert(all =~= all.take(own.len() as int));
    }
    if let Some(data) = spec.data_mounts {
        if 0 <= i < data.dirs@.len() {
            let m = all[own.len() + i];
            assert(is_bind_mount(m, data.root@, data.dirs@[i]@));
            assert(texts(m.options@).len() == 2);
            assert(texts(m.options@)[0] == "rbind"@);
            assert(texts(m.options@)[1] == "rw"@);
        }
    }
}

/// The words for the ways a container is connected.
pub proof fn law_words_for_network_modes()
    ensures
        network_mode_name(NetworkMode::Host) == "host"@,
        network_mode_name(NetworkMode::Isolated) == "none"@,
        network_mode_name(NetworkMode::Bridge) == "bridge"@,
{
}

} // verus!
