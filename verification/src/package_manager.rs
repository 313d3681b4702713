//! Installing, removing and loading packages.

use crate::configuration::{BridgeConfig, NetworkConfig};
use crate::name_map::{map_of, names_distinct};
use crate::network_actor::{is_network_over, NetworkActor, NetworkError};
use crate::package::{PackageInfo, PackageMetadata};
use crate::package_status::{BrokenReason, PackageStatus, StatusView};
use crate::path::{
    components, file_name, file_name_spec, is_parent_of, is_under, join, joined,
    parent_components, path_starts_with, same_path, texts,
};
use crate::pkg_file::InstallMode;
use crate::store::{BrokenPackageInfo, PackageStore, StoreView};
use crate::text::{chars_of, decimal, is_same, join2};
use vstd::prelude::*;
use vstd::string::StringExecFns;

verus! {

/// Ask for a package.
#[derive(Debug)]
pub struct GetPackage {
    pub package_name: String,
}

/// Ask for a package to be installed from a file.
#[derive(Debug)]
pub struct InstallPackage {
    pub path: String,
    pub force: bool,
    pub remove_data: bool,
}

/// Ask for a package to be removed.
#[derive(Debug)]
pub struct RemovePackage {
    pub package_name: String,
    pub purge_volume: bool,
}

/// Ask for a package to be started.
#[derive(Debug)]
pub struct StartPackage {
    pub package_name: String,
}

/// Ask for a package to be stopped.
#[derive(Debug)]
pub struct StopPackage {
    pub package_name: String,
}

/// Ask for the status of every package.
#[derive(Debug)]
pub struct GetPackagesStatus;

/// Ask for the names of the packages.
#[derive(Debug)]
pub struct GetPackageNames;

/// Ask for all there is to tell of every package.
#[derive(Debug)]
pub struct GetAllPackageInfo;

/// Tear every package down.
#[derive(Debug)]
pub struct TeardownPackageManager;

/// Ask for all there is to tell of a package.
#[derive(Debug)]
pub struct GetPackageInfo {
    pub package_name: String,
}

/// Whether `semver` orders one version before another or as equal; nothing where one of
/// them is no version.
pub uninterp spec fn version_at_most(a: Seq<char>, b: Seq<char>) -> Option<bool>;

/// A version that is no more than its three numbers.
pub open spec fn release(major: u64, minor: u64, patch: u64) -> Seq<char> {
    decimal(major as nat) + "."@ + decimal(minor as nat) + "."@ + decimal(patch as nat)
}

/// The number that counts most decides which of two releases is the older.
pub open spec fn release_at_most(a: (u64, u64, u64), b: (u64, u64, u64)) -> bool {
    a.0 < b.0 || (a.0 == b.0 && (a.1 < b.1 || (a.1 == b.1 && a.2 <= b.2)))
}

/// `semver::Version::parse` of both texts, and `<=` between the versions. A version is at
/// most itself, and releases are ordered by their numbers.
#[verifier::external_body]
fn semver_at_most(a: &str, b: &str) -> (r: Option<bool>)
    ensures
        r == version_at_most(a@, b@),
        a@ == b@ && r is Some ==> r == Some(true),
        forall|x: (u64, u64, u64), y: (u64, u64, u64)|
            a@ == #[trigger] release(x.0, x.1, x.2) && b@ == #[trigger] release(y.0, y.1, y.2)
                ==> r == Some(release_at_most(x, y)),
{
    let a = semver::Version::parse(a).ok()?;
    let b = semver::Version::parse(b).ok()?;
    Some(a <= b)
}

/// Whether a name can stand as one step of a path: it is not empty, holds no separator,
/// and is neither `.` nor `..`.
pub open spec fn is_safe_segment(name: Seq<char>) -> bool {
    &&& name.len() > 0
    &&& !name.contains('/')
    &&& name != seq!['.']
    &&& name != seq!['.', '.']
}

pub fn is_valid_package_name(name: &str) -> (r: bool)
    ensures
        r == is_safe_segment(name@),
{
    proof {
        reveal_strlit(".");
        reveal_strlit("..");
        assert("."@ =~= seq!['.']);
        assert(".."@ =~= seq!['.', '.']);
    }
    if name.is_empty() || is_same(name, ".") || is_same(name, "..") {
        return false;
    }
    let chars = chars_of(name);
    let mut i: usize = 0;
    while i < chars.len()
        invariant
            i <= chars@.len(),
            chars@ == name@,
            forall|j: int| 0 <= j < i ==> name@[j] != '/',
        decreases chars.len() - i,
    {
        if chars[i] == '/' {
            assert(name@[i as int] == '/');
            return false;
        }
        i += 1;
    }
    true
}

/// Why an installation is refused or fails.
#[derive(Debug, Clone, Copy, PartialEq, Eq, Structural)]
pub enum InstallRefusal {
    FileNotFound,
    NotAPackageFile,
    /// The path of the file cannot be resolved.
    Unresolved,
    InsideDownloaded,
    InsideBundled,
    /// The file cannot be read as a package.
    Broken,
    /// One of the versions is no version.
    InvalidVersion,
    /// The same or a newer version is installed.
    NotNewer,
    InvalidName,
    /// The package does not say what its volume needs.
    VolumeMetadata,
    /// The installed package could not be stopped for the upgrade.
    PrepareUpgrade,
    /// The installation itself failed.
    Install,
}

impl InstallRefusal {
    pub fn message(&self) -> (r: &'static str)
        ensures
            r@ == match *self {
                InstallRefusal::FileNotFound => "File not found"@,
                InstallRefusal::NotAPackageFile => "Invalid package file"@,
                InstallRefusal::Unresolved => "Cannot resolve source path"@,
                InstallRefusal::InsideDownloaded =>
                    "Source file is inside the downloaded package directory"@,
                InstallRefusal::InsideBundled =>
                    "Source file is inside the bundled package directory"@,
                InstallRefusal::Broken => "Failed to parse package from file"@,
                InstallRefusal::InvalidVersion => "Invalid package version"@,
                InstallRefusal::NotNewer =>
                    "A same or newer version of package is already installed"@,
                InstallRefusal::InvalidName => "Invalid package name"@,
                InstallRefusal::VolumeMetadata => "Failed to create volume metadata"@,
                InstallRefusal::PrepareUpgrade => "Cannot prepare upgrade for package"@,
                InstallRefusal::Install => "Failed to install package from file"@,
            },
    {
        match self {
            InstallRefusal::FileNotFound => "File not found",
            InstallRefusal::NotAPackageFile => "Invalid package file",
            InstallRefusal::Unresolved => "Cannot resolve source path",
            InstallRefusal::InsideDownloaded =>
                "Source file is inside the downloaded package directory",
            InstallRefusal::InsideBundled => "Source file is inside the bundled package directory",
            InstallRefusal::Broken => "Failed to parse package from file",
            InstallRefusal::InvalidVersion => "Invalid package version",
            InstallRefusal::NotNewer => "A same or newer version of package is already installed",
            InstallRefusal::InvalidName => "Invalid package name",
            InstallRefusal::VolumeMetadata => "Failed to create volume metadata",
            InstallRefusal::PrepareUpgrade => "Cannot prepare upgrade for package",
            InstallRefusal::Install => "Failed to install package from file",
        }
    }
}

/// A package in the store: the file it was made from, its version, and the package.
#[derive(Debug)]
pub struct PackageEntry<H> {
    pub path: String,
    pub version: String,
    pub handle: H,
}

/// What is known under a name.
#[derive(Debug)]
pub enum PackageLookup<'a, H> {
    Normal(&'a PackageEntry<H>),
    Broken(&'a BrokenPackageInfo),
    NotFound,
}

/// What is known of the file that a package is to be installed from.
#[derive(Debug)]
pub struct SourceFile {
    pub exists: bool,
    pub is_package_file: bool,
    /// Its path with symbolic links resolved, where that is possible.
    pub canonical: Option<String>,
}

/// What an installation is going to do.
#[derive(Debug)]
pub struct InstallPlan {
    pub package_name: String,
    pub dest: String,
    /// The version that is installed now: what is done about it, and where its file is.
    pub existing: Option<(InstallMode, String)>,
}

/// Manages the packages of two directories: one that came with the system, and one for
/// what was installed since.
#[derive(Debug)]
pub struct PackageManagerActor<H> {
    bundled_dir: String,
    downloaded_dir: String,
    packages_ext: String,
    store: PackageStore<PackageEntry<H>>,
}

/// Why there is no manager.
#[derive(Debug, Clone, Copy, PartialEq, Eq, Structural)]
pub enum ManagerError {
    Network(NetworkError),
    /// The path of the bundled directory cannot be resolved.
    BundledUnresolved,
    /// The path of the directory for installed packages cannot be resolved.
    DownloadedUnresolved,
    SameDirectory,
}

/// What is wrong with the two directories.
pub open spec fn manager_error(bundled_dir: Option<String>, downloaded_dir: Option<String>) -> Option<
    ManagerError,
> {
    match (bundled_dir, downloaded_dir) {
        (None, _) => Some(ManagerError::BundledUnresolved),
        (_, None) => Some(ManagerError::DownloadedUnresolved),
        (Some(b), Some(d)) => if components(b@) == components(d@) {
            Some(ManagerError::SameDirectory)
        } else {
            None
        },
    }
}

/// Whether the new version may be installed over the old.
pub open spec fn version_refusal(
    new_version: Seq<char>,
    installed: Option<Seq<char>>,
    force: bool,
) -> Option<InstallRefusal> {
    match installed {
        None => None,
        Some(old_version) => match version_at_most(new_version, old_version) {
            None => Some(InstallRefusal::InvalidVersion),
            Some(at_most) => if at_most && !force {
                Some(InstallRefusal::NotNewer)
            } else {
                None
            },
        },
    }
}

/// The rule by which a version is refused, on what the comparison of the versions gave.
pub fn check_version(at_most: Option<bool>, force: bool) -> (r: Option<InstallRefusal>)
    ensures
        r == match at_most {
            None => Some(InstallRefusal::InvalidVersion),
            Some(m) => if m && !force {
                Some(InstallRefusal::NotNewer)
            } else {
                None::<InstallRefusal>
            },
        },
{
    match at_most {
        None => Some(InstallRefusal::InvalidVersion),
        Some(m) => if m && !force {
            Some(InstallRefusal::NotNewer)
        } else {
            None
        },
    }
}

/// Where an installed package's file goes.
pub open spec fn dest_path(dir: Seq<char>, name: Seq<char>, ext: Seq<char>) -> Seq<char> {
    joined(dir, name + "."@ + ext)
}

impl<H> PackageManagerActor<H> {
    pub closed spec fn bundled_dir_spec(&self) -> Seq<char> {
        self.bundled_dir@
    }

    pub closed spec fn downloaded_dir_spec(&self) -> Seq<char> {
        self.downloaded_dir@
    }

    pub closed spec fn ext_spec(&self) -> Seq<char> {
        self.packages_ext@
    }

    pub closed spec fn store_spec(&self) -> StoreView<PackageEntry<H>> {
        self.store@
    }

    pub closed spec fn wf(&self) -> bool {
        self.store.wf()
    }

    /// The directories are those of the other.
    pub open spec fn same_dirs(&self, other: &Self) -> bool {
        &&& self.bundled_dir_spec() == other.bundled_dir_spec()
        &&& self.downloaded_dir_spec() == other.downloaded_dir_spec()
        &&& self.ext_spec() == other.ext_spec()
    }

    /// Whether a file came with the system: it lies directly in the bundled directory.
    pub open spec fn is_bundled_spec(&self, path: Seq<char>) -> bool {
        parent_components(path) == Some(components(self.bundled_dir_spec()))
    }

    /// A manager of two directories that knows no package yet. They are given with symbolic
    /// links resolved, as far as that is possible, and must not be the same.
    pub fn new(
        bundled_dir: Option<String>,
        downloaded_dir: Option<String>,
        packages_ext: String,
    ) -> (r: Result<Self, ManagerError>)
        ensures
            manager_error(bundled_dir, downloaded_dir) matches Some(e) ==> r == Err::<
                Self,
                ManagerError,
            >(e),
            manager_error(bundled_dir, downloaded_dir) is None ==> (r matches Ok(m)
                && m.is_new_over(bundled_dir->0@, downloaded_dir->0@, packages_ext@)),
    {
        let bundled_dir = match bundled_dir {
            Some(dir) => dir,
            None => {
                return Err(ManagerError::BundledUnresolved);
            },
        };
        let downloaded_dir = match downloaded_dir {
            Some(dir) => dir,
            None => {
                return Err(ManagerError::DownloadedUnresolved);
            },
        };
        if same_path(bundled_dir.as_str(), downloaded_dir.as_str()) {
            return Err(ManagerError::SameDirectory);
        }
        Ok(
            PackageManagerActor {
                bundled_dir,
                downloaded_dir,
                packages_ext,
                store: PackageStore::new(),
            },
        )
    }

    /// The manager knows no package, and has these directories.
    pub open spec fn is_new_over(
        &self,
        bundled_dir: Seq<char>,
        downloaded_dir: Seq<char>,
        packages_ext: Seq<char>,
    ) -> bool {
        &&& self.wf()
        &&& self.bundled_dir_spec() == bundled_dir
        &&& self.downloaded_dir_spec() == downloaded_dir
        &&& self.ext_spec() == packages_ext
        &&& self.store_spec() == (StoreView::<PackageEntry<H>> {
            packages: Map::empty(),
            broken: Map::empty(),
            bundled: Map::empty(),
        })
    }

    /// The manager that a configuration calls for, and the bridge network where that is
    /// enabled.
    pub fn from_config(
        bundled_dir: Option<String>,
        downloaded_dir: Option<String>,
        packages_ext: String,
        network: Option<&NetworkConfig>,
    ) -> (r: Result<(Self, Option<NetworkActor>), ManagerError>)
        ensures
            match network {
                Some(n) if n.bridge_enabled => exists|made: Result<NetworkActor, NetworkError>|
                    {
                        &&& #[trigger] is_network_over(n.subnet@, 29, made)
                        &&& match made {
                            Err(e) => r == Err::<(Self, Option<NetworkActor>), ManagerError>(
                                ManagerError::Network(e),
                            ),
                            Ok(actor) => {
                                &&& manager_error(bundled_dir, downloaded_dir) matches Some(e)
                                    ==> r == Err::<(Self, Option<NetworkActor>), ManagerError>(e)
                                &&& manager_error(bundled_dir, downloaded_dir) is None ==> (
                                r matches Ok(m) && m.0.is_new_over(
                                    bundled_dir->0@,
                                    downloaded_dir->0@,
                                    packages_ext@,
                                ) && m.1 == Some(actor))
                            },
                        }
                    },
                _ => {
                    &&& manager_error(bundled_dir, downloaded_dir) matches Some(e) ==> r == Err::<
                        (Self, Option<NetworkActor>),
                        ManagerError,
                    >(e)
                    &&& manager_error(bundled_dir, downloaded_dir) is None ==> (r matches Ok(m)
                        && m.0.is_new_over(bundled_dir->0@, downloaded_dir->0@, packages_ext@)
                        && m.1 is None)
                },
            },
    {
        let network = match network {
            Some(n) => if n.bridge_enabled {
                let made = NetworkActor::new(&BridgeConfig::of_network(n));
                assert(is_network_over(n.subnet@, 29, made));
                match made {
                    Ok(actor) => Some(actor),
                    Err(e) => {
                        return Err(ManagerError::Network(e));
                    },
                }
            } else {
                None
            },
            None => None,
        };
        match PackageManagerActor::new(bundled_dir, downloaded_dir, packages_ext) {
            Ok(manager) => Ok((manager, network)),
            Err(e) => Err(e),
        }
    }

    pub fn is_bundled_package(&self, path: &str) -> (r: bool)
        ensures
            r == self.is_bundled_spec(path@),
    {
        is_parent_of(self.bundled_dir.as_str(), path)
    }

    pub fn bundled_dir(&self) -> (r: &str)
        ensures
            r@ == self.bundled_dir_spec(),
    {
        self.bundled_dir.as_str()
    }

    pub fn downloaded_dir(&self) -> (r: &str)
        ensures
            r@ == self.downloaded_dir_spec(),
    {
        self.downloaded_dir.as_str()
    }

    /// A package is installed from outside the two directories only.
    pub fn ensure_external_source(&self, canonical: &Option<String>) -> (r: Result<
        (),
        InstallRefusal,
    >)
        ensures
            r == match *canonical {
                None => Err::<(), InstallRefusal>(InstallRefusal::Unresolved),
                Some(path) => if is_under(path@, self.downloaded_dir_spec()) {
                    Err(InstallRefusal::InsideDownloaded)
                } else if is_under(path@, self.bundled_dir_spec()) {
                    Err(InstallRefusal::InsideBundled)
                } else {
                    Ok(())
                },
            },
    {
        match canonical {
            None => Err(InstallRefusal::Unresolved),
            Some(path) => if path_starts_with(path.as_str(), self.downloaded_dir.as_str()) {
                Err(InstallRefusal::InsideDownloaded)
            } else if path_starts_with(path.as_str(), self.bundled_dir.as_str()) {
                Err(InstallRefusal::InsideBundled)
            } else {
                Ok(())
            },
        }
    }

    /// What the file must be before it is even read.
    pub open spec fn source_refusal(&self, source: SourceFile) -> Option<InstallRefusal> {
        if !source.exists {
            Some(InstallRefusal::FileNotFound)
        } else if !source.is_package_file {
            Some(InstallRefusal::NotAPackageFile)
        } else {
            match source.canonical {
                None => Some(InstallRefusal::Unresolved),
                Some(path) => if is_under(path@, self.downloaded_dir_spec()) {
                    Some(InstallRefusal::InsideDownloaded)
                } else if is_under(path@, self.bundled_dir_spec()) {
                    Some(InstallRefusal::InsideBundled)
                } else {
                    None
                },
            }
        }
    }

    pub fn check_source(&self, source: &SourceFile) -> (r: Result<(), InstallRefusal>)
        ensures
            r == match self.source_refusal(*source) {
                Some(e) => Err::<(), InstallRefusal>(e),
                None => Ok(()),
            },
    {
        if !source.exists {
            return Err(InstallRefusal::FileNotFound);
        }
        if !source.is_package_file {
            return Err(InstallRefusal::NotAPackageFile);
        }
        self.ensure_external_source(&source.canonical)
    }

    pub open spec fn installed_version(&self, name: Seq<char>) -> Option<Seq<char>> {
        if self.store_spec().packages.dom().contains(name) {
            Some(self.store_spec().packages[name].version@)
        } else {
            None
        }
    }

    /// Why a package that was read is not installed; `volume_ok` tells whether it says
    /// what its volume needs.
    pub open spec fn package_refusal(
        &self,
        metadata: Option<PackageMetadata>,
        force: bool,
        volume_ok: bool,
    ) -> Option<InstallRefusal> {
        match metadata {
            None => Some(InstallRefusal::Broken),
            Some(m) => match version_refusal(m.version@, self.installed_version(m.name@), force) {
                Some(e) => Some(e),
                None => if !is_safe_segment(m.name@) {
                    Some(InstallRefusal::InvalidName)
                } else if !volume_ok {
                    Some(InstallRefusal::VolumeMetadata)
                } else {
                    None
                },
            },
        }
    }

    /// Decides on a package that was read from a file (`None` where that failed), and
    /// plans its installation. Nothing changes by it. Unless it is
    /// forced, a version is not installed over itself, nor a release over a later one.
    pub fn prepare_install_package(
        &self,
        metadata: &Option<PackageMetadata>,
        force: bool,
        volume_ok: bool,
    ) -> (r: Result<InstallPlan, InstallRefusal>)
        requires
            self.wf(),
        ensures
            match self.package_refusal(*metadata, force, volume_ok) {
                Some(e) => r == Err::<InstallPlan, InstallRefusal>(e),
                None => {
                    let name = metadata->0.name@;
                    let dest = dest_path(self.downloaded_dir_spec(), name, self.ext_spec());
                    &&& r matches Ok(plan)
                    &&& plan.package_name@ == name
                    &&& plan.dest@ == dest
                    &&& match plan.existing {
                        None => !self.store_spec().packages.dom().contains(name),
                        Some((mode, path)) => {
                            &&& self.store_spec().packages.dom().contains(name)
                            &&& path@ == self.store_spec().packages[name].path@
                            &&& match mode {
                                InstallMode::Fresh => false,
                                InstallMode::UpgradeBundled => self.is_bundled_spec(path@),
                                InstallMode::UpgradeDownloaded { installed_path } => !self.is_bundled_spec(path@) && installed_path@ == path@,
                            }
                        },
                    }
                },
            },
            (metadata is Some && self.store_spec().packages.dom().contains(
                metadata->0.name@,
            )) ==> {
                let new_version = metadata->0.version@;
                let installed = self.store_spec().packages[metadata->0.name@].version@;
                &&& new_version == installed && !force ==> (r matches Err(e) && (e is NotNewer
                    || e is InvalidVersion))
                &&& forall|x: (u64, u64, u64), y: (u64, u64, u64)|
                    new_version == #[trigger] release(x.0, x.1, x.2) && installed
                        == #[trigger] release(y.0, y.1, y.2) ==> version_at_most(
                        new_version,
                        installed,
                    ) == Some(release_at_most(x, y))
            },
    {
        let metadata = match metadata {
            Some(metadata) => metadata,
            None => {
                return Err(InstallRefusal::Broken);
            },
        };
        let name = metadata.name.as_str();
        if let Some(installed) = self.store.get(name) {
            let at_most = semver_at_most(metadata.version.as_str(), installed.version.as_str());
            if let Some(e) = check_version(at_most, force) {
                return Err(e);
            }
        }
        if !is_valid_package_name(name) {
            return Err(InstallRefusal::InvalidName);
        }
        let mut filename = join2(name, ".");
        filename.append(self.packages_ext.as_str());
        let dest = join(self.downloaded_dir.as_str(), filename.as_str());
        if !volume_ok {
            return Err(InstallRefusal::VolumeMetadata);
        }
        let existing = match self.store.get(name) {
            Some(installed) => {
                let path = installed.path.clone();
                let mode = if self.is_bundled_package(path.as_str()) {
                    InstallMode::UpgradeBundled
                } else {
                    InstallMode::UpgradeDownloaded { installed_path: path.clone() }
                };
                Some((mode, path))
            },
            None => None,
        };
        Ok(InstallPlan { package_name: metadata.name.clone(), dest, existing })
    }

    /// Forgets the broken file that stood at `dest`, if any did.
    pub fn forget_broken(&mut self, dest: &str)
        requires
            old(self).wf(),
        ensures
            final(self).wf(),
            final(self).same_dirs(old(self)),
            final(self).store_spec() == (match file_name_spec(dest@) {
                Some(file) => StoreView {
                    broken: old(self).store_spec().broken.remove(file),
                    ..old(self).store_spec()
                },
                None => old(self).store_spec(),
            }),
    {
        if let Some(file) = file_name(dest) {
            let _ = self.store.remove_broken(file.as_str());
        }
    }

    /// The entry for a package, if it is known and sound.
    pub fn get_package(&self, name: &str) -> (r: Option<&PackageEntry<H>>)
        requires
            self.wf(),
        ensures
            r is Some <==> self.store_spec().packages.dom().contains(name@),
            r matches Some(p) ==> *p == self.store_spec().packages[name@],
    {
        self.store.get(name)
    }

    /// What is known under a name: a sound package before a broken one.
    pub fn find(&self, name: &str) -> (r: PackageLookup<'_, H>)
        requires
            self.wf(),
        ensures
            match r {
                PackageLookup::Normal(p) => self.store_spec().packages.dom().contains(name@) && *p
                    == self.store_spec().packages[name@],
                PackageLookup::Broken(b) => !self.store_spec().packages.dom().contains(name@)
                    && self.store_spec().broken.dom().contains(name@) && *b
                    == self.store_spec().broken[name@],
                PackageLookup::NotFound => !self.store_spec().packages.dom().contains(name@)
                    && !self.store_spec().broken.dom().contains(name@),
            },
    {
        match self.store.get(name) {
            Some(entry) => PackageLookup::Normal(entry),
            None => match self.store.get_broken(name) {
                Some(broken) => PackageLookup::Broken(broken),
                None => PackageLookup::NotFound,
            },
        }
    }

    pub fn get_broken(&self, name: &str) -> (r: Option<&BrokenPackageInfo>)
        requires
            self.wf(),
        ensures
            r is Some <==> self.store_spec().broken.dom().contains(name@),
            r matches Some(b) ==> *b == self.store_spec().broken[name@],
    {
        self.store.get_broken(name)
    }

    pub fn get_bundled_path(&self, name: &str) -> (r: Option<&String>)
        requires
            self.wf(),
        ensures
            r is Some <==> self.store_spec().bundled.dom().contains(name@),
            r matches Some(p) ==> *p == self.store_spec().bundled[name@],
    {
        self.store.get_bundled_path(name)
    }

    pub fn store(&self) -> (r: &PackageStore<PackageEntry<H>>)
        requires
            self.wf(),
        ensures
            r.wf(),
            r@ == self.store_spec(),
    {
        &self.store
    }

    pub fn insert_broken(&mut self, name: String, info: BrokenPackageInfo)
        requires
            old(self).wf(),
        ensures
            final(self).wf(),
            final(self).same_dirs(old(self)),
            final(self).store_spec() == (StoreView {
                broken: old(self).store_spec().broken.insert(name@, info),
                ..old(self).store_spec()
            }),
    {
        self.store.insert_broken(name, info);
    }

    pub fn insert_bundled_path(&mut self, name: String, path: String)
        requires
            old(self).wf(),
        ensures
            final(self).wf(),
            final(self).same_dirs(old(self)),
            final(self).store_spec() == (StoreView {
                bundled: old(self).store_spec().bundled.insert(name@, path),
                ..old(self).store_spec()
            }),
    {
        self.store.insert_bundled_path(name, path);
    }

    /// Files a package under its name.
    pub fn store_package(&mut self, name: String, entry: PackageEntry<H>)
        requires
            old(self).wf(),
        ensures
            final(self).wf(),
            final(self).same_dirs(old(self)),
            final(self).store_spec() == (StoreView {
                packages: old(self).store_spec().packages.insert(name@, entry),
                ..old(self).store_spec()
            }),
    {
        let _ = self.store.insert(name, entry);
    }

    /// Files a package that was read again from its file, or forgets it where that
    /// failed.
    pub fn try_recover(&mut self, name: &str, recovered: Option<PackageEntry<H>>)
        requires
            old(self).wf(),
        ensures
            final(self).wf(),
            final(self).same_dirs(old(self)),
            final(self).store_spec() == recovered_store(old(self).store_spec(), name@, recovered),
    {
        match recovered {
            Some(entry) => {
                let _ = self.store.insert(name.to_owned(), entry);
            },
            None => {
                let _ = self.store.remove(name);
            },
        }
    }

    /// Empties the store of packages, sound and broken, at the end.
    pub fn teardown_all(&mut self)
        requires
            old(self).wf(),
        ensures
            final(self).wf(),
            final(self).same_dirs(old(self)),
            final(self).store_spec() == (StoreView {
                packages: Map::empty(),
                broken: Map::empty(),
                ..old(self).store_spec()
            }),
    {
        self.store.clear();
        self.store.clear_broken();
    }

    pub fn clear_all(&mut self)
        requires
            old(self).wf(),
        ensures
            final(self).wf(),
            final(self).same_dirs(old(self)),
            final(self).store_spec() == (StoreView::<PackageEntry<H>> {
                packages: Map::empty(),
                broken: Map::empty(),
                bundled: Map::empty(),
            }),
    {
        self.store.clear_all();
    }
}

/// The store after a package was read again, or could not be.
pub open spec fn recovered_store<H>(
    store: StoreView<PackageEntry<H>>,
    name: Seq<char>,
    recovered: Option<PackageEntry<H>>,
) -> StoreView<PackageEntry<H>> {
    match recovered {
        Some(entry) => StoreView { packages: store.packages.insert(name, entry), ..store },
        None => StoreView { packages: store.packages.remove(name), ..store },
    }
}

/// Why a package is not removed.
#[derive(Debug, Clone, Copy, PartialEq, Eq, Structural)]
pub enum RemoveRefusal {
    NotFound,
    /// The package came with the system.
    Bundled,
    /// The broken package came with the system.
    BrokenBundled,
    Teardown,
    Purge,
    RemoveFile,
}

impl RemoveRefusal {
    pub fn message(&self) -> (r: &'static str)
        ensures
            r@ == match *self {
                RemoveRefusal::NotFound => "Package not found"@,
                RemoveRefusal::Bundled => "Cannot remove bundled package"@,
                RemoveRefusal::BrokenBundled => "Cannot remove broken bundled package"@,
                RemoveRefusal::Teardown => "Failed to teardown package before removal"@,
                RemoveRefusal::Purge => "Failed to purge package volume for package"@,
                RemoveRefusal::RemoveFile => "Failed to remove package file"@,
            },
    {
        match self {
            RemoveRefusal::NotFound => "Package not found",
            RemoveRefusal::Bundled => "Cannot remove bundled package",
            RemoveRefusal::BrokenBundled => "Cannot remove broken bundled package",
            RemoveRefusal::Teardown => "Failed to teardown package before removal",
            RemoveRefusal::Purge => "Failed to purge package volume for package",
            RemoveRefusal::RemoveFile => "Failed to remove package file",
        }
    }
}

/// What a removal has to do next.
#[derive(Debug)]
pub enum RemoveAction {
    /// Tear the package down.
    Teardown,
    /// Throw its data away.
    Purge,
    /// Read the package at this path again: its data could not be thrown away.
    RecoverInstalled(String),
    /// Remove the file at this path.
    RemoveFile(String),
    /// Read the package that came with the system again, at this path.
    RecoverBundled(String),
    Removed,
    Failed(RemoveRefusal),
}

pub enum RemoveView {
    Teardown,
    Purge,
    RecoverInstalled(Seq<char>),
    RemoveFile(Seq<char>),
    RecoverBundled(Seq<char>),
    Removed,
    Failed(RemoveRefusal),
}

impl View for RemoveAction {
    type V = RemoveView;

    open spec fn view(&self) -> RemoveView {
        match self {
            RemoveAction::Teardown => RemoveView::Teardown,
            RemoveAction::Purge => RemoveView::Purge,
            RemoveAction::RecoverInstalled(p) => RemoveView::RecoverInstalled(p@),
            RemoveAction::RemoveFile(p) => RemoveView::RemoveFile(p@),
            RemoveAction::RecoverBundled(p) => RemoveView::RecoverBundled(p@),
            RemoveAction::Removed => RemoveView::Removed,
            RemoveAction::Failed(e) => RemoveView::Failed(*e),
        }
    }
}

/// What came of it.
#[derive(Debug)]
pub enum RemoveEvent<H> {
    Done(bool),
    Recovered(Option<PackageEntry<H>>),
}

/// A removal under way.
#[derive(Debug)]
pub struct RemoveFlow {
    pub name: String,
    pub path: String,
    pub purge: bool,
    pub action: RemoveAction,
}

/// How a removal begins. What came with the system stays; a broken file is forgotten at
/// once.
pub open spec fn removal_begins<H>(
    m: PackageManagerActor<H>,
    name: Seq<char>,
) -> (RemoveView, Seq<char>, StoreView<PackageEntry<H>>) {
    let store = m.store_spec();
    if store.packages.dom().contains(name) {
        let path = store.packages[name].path@;
        if m.is_bundled_spec(path) {
            (RemoveView::Failed(RemoveRefusal::Bundled), path, store)
        } else {
            (RemoveView::Teardown, path, store)
        }
    } else if store.broken.dom().contains(name) {
        let path = store.broken[name].package_path@;
        if m.is_bundled_spec(path) {
            (RemoveView::Failed(RemoveRefusal::BrokenBundled), path, store)
        } else {
            (
                RemoveView::RemoveFile(path),
                path,
                StoreView { broken: store.broken.remove(name), ..store },
            )
        }
    } else {
        (RemoveView::Failed(RemoveRefusal::NotFound), Seq::empty(), store)
    }
}

/// One step of a removal: the next action and the store after it.
pub open spec fn removal_step<H>(
    store: StoreView<PackageEntry<H>>,
    name: Seq<char>,
    path: Seq<char>,
    purge: bool,
    action: RemoveView,
    event: RemoveEvent<H>,
) -> (RemoveView, StoreView<PackageEntry<H>>) {
    match (action, event) {
        (RemoveView::Teardown, RemoveEvent::Done(ok)) => if !ok {
            (RemoveView::Failed(RemoveRefusal::Teardown), store)
        } else {
            (
                if purge {
                    RemoveView::Purge
                } else {
                    RemoveView::RemoveFile(path)
                },
                StoreView { packages: store.packages.remove(name), ..store },
            )
        },
        (RemoveView::Purge, RemoveEvent::Done(ok)) => if ok {
            (RemoveView::RemoveFile(path), store)
        } else {
            (RemoveView::RecoverInstalled(path), store)
        },
        (RemoveView::RecoverInstalled(_), RemoveEvent::Recovered(entry)) => (
            RemoveView::Failed(RemoveRefusal::Purge),
            recovered_store(store, name, entry),
        ),
        (RemoveView::RemoveFile(_), RemoveEvent::Done(ok)) => if !ok {
            (RemoveView::Failed(RemoveRefusal::RemoveFile), store)
        } else if store.bundled.dom().contains(name) {
            (RemoveView::RecoverBundled(store.bundled[name]@), store)
        } else {
            (RemoveView::Removed, store)
        },
        (RemoveView::RecoverBundled(_), RemoveEvent::Recovered(entry)) => (
            RemoveView::Removed,
            recovered_store(store, name, entry),
        ),
        _ => (action, store),
    }
}

impl<H> PackageManagerActor<H> {
    /// Begins to remove a package.
    pub fn remove_package(&mut self, name: &str, purge: bool) -> (r: RemoveFlow)
        requires
            old(self).wf(),
        ensures
            final(self).wf(),
            final(self).same_dirs(old(self)),
            r.name@ == name@,
            r.purge == purge,
            (r.action@, r.path@, final(self).store_spec()) == removal_begins(*old(self), name@),
    {
        if let Some(entry) = self.store.get(name) {
            let path = entry.path.clone();
            let action = if self.is_bundled_package(path.as_str()) {
                RemoveAction::Failed(RemoveRefusal::Bundled)
            } else {
                RemoveAction::Teardown
            };
            return RemoveFlow { name: name.to_owned(), path, purge, action };
        }
        if let Some(broken) = self.store.get_broken(name) {
            let path = broken.package_path.clone();
            if self.is_bundled_package(path.as_str()) {
                return RemoveFlow {
                    name: name.to_owned(),
                    path,
                    purge,
                    action: RemoveAction::Failed(RemoveRefusal::BrokenBundled),
                };
            }
            let _ = self.store.remove_broken(name);
            let file = path.clone();
            return RemoveFlow {
                name: name.to_owned(),
                path,
                purge,
                action: RemoveAction::RemoveFile(file),
            };
        }
        RemoveFlow {
            name: name.to_owned(),
            path: String::new(),
            purge,
            action: RemoveAction::Failed(RemoveRefusal::NotFound),
        }
    }

    /// Takes a removal one step further.
    pub fn remove_next(&mut self, flow: RemoveFlow, event: RemoveEvent<H>) -> (r: RemoveFlow)
        requires
            old(self).wf(),
        ensures
            final(self).wf(),
            final(self).same_dirs(old(self)),
            r.name == flow.name,
            r.path == flow.path,
            r.purge == flow.purge,
            (r.action@, final(self).store_spec()) == removal_step(
                old(self).store_spec(),
                flow.name@,
                flow.path@,
                flow.purge,
                flow.action@,
                event,
            ),
    {
        let RemoveFlow { name, path, purge, action } = flow;
        let action = match (action, event) {
            (RemoveAction::Teardown, RemoveEvent::Done(ok)) => if !ok {
                RemoveAction::Failed(RemoveRefusal::Teardown)
            } else {
                let _ = self.store.remove(name.as_str());
                if purge {
                    RemoveAction::Purge
                } else {
                    RemoveAction::RemoveFile(path.clone())
                }
            },
            (RemoveAction::Purge, RemoveEvent::Done(ok)) => if ok {
                RemoveAction::RemoveFile(path.clone())
            } else {
                RemoveAction::RecoverInstalled(path.clone())
            },
            (RemoveAction::RecoverInstalled(_), RemoveEvent::Recovered(entry)) => {
                self.try_recover(name.as_str(), entry);
                RemoveAction::Failed(RemoveRefusal::Purge)
            },
            (RemoveAction::RemoveFile(_), RemoveEvent::Done(ok)) => if !ok {
                RemoveAction::Failed(RemoveRefusal::RemoveFile)
            } else {
                match self.store.get_bundled_path(name.as_str()) {
                    Some(bundled) => RemoveAction::RecoverBundled(bundled.clone()),
                    None => RemoveAction::Removed,
                }
            },
            (RemoveAction::RecoverBundled(_), RemoveEvent::Recovered(entry)) => {
                self.try_recover(name.as_str(), entry);
                RemoveAction::Removed
            },
            (action, _) => action,
        };
        RemoveFlow { name, path, purge, action }
    }
}

/// An installation that is planned.
#[derive(Debug)]
pub struct InstallOrder {
    /// The new package file.
    pub source: String,
    pub plan: InstallPlan,
    /// Whether the data of an installed version is to be thrown away.
    pub remove_data: bool,
}

/// What an installation has to do next, once it is planned.
#[derive(Debug, PartialEq, Eq)]
pub enum UpgradeAction {
    /// Stop the installed package and let go of its file system.
    PrepareUpgrade,
    /// Carry the installation out; `remove_data` tells whether data is thrown away.
    Install { source: String, dest: String, mode: InstallMode, remove_data: bool },
    /// Read the package that was installed at `path` again.
    Recover { path: String },
    Installed,
    Failed(InstallRefusal),
}

/// The new file goes where it was planned to. A new package has no data to throw away.
pub open spec fn install_action(order: InstallOrder) -> UpgradeAction {
    UpgradeAction::Install {
        source: order.source,
        dest: order.plan.dest,
        mode: match order.plan.existing {
            Some((mode, _)) => mode,
            None => InstallMode::Fresh,
        },
        remove_data: order.remove_data && order.plan.existing is Some,
    }
}

/// A version that is installed is stopped first.
pub open spec fn first_upgrade_action(order: InstallOrder) -> UpgradeAction {
    if order.plan.existing is Some {
        UpgradeAction::PrepareUpgrade
    } else {
        install_action(order)
    }
}

/// What came of it: success with a package, or not.
#[derive(Debug)]
pub enum UpgradeEvent<H> {
    Prepared(bool),
    Installed(Option<PackageEntry<H>>),
    Recovered(Option<PackageEntry<H>>),
}

/// One step of an installation: the next action and the store after it. Where a package
/// that is new fails to install, the store is unchanged; one that was to be upgraded is
/// read again.
pub open spec fn upgrade_step<H>(
    store: StoreView<PackageEntry<H>>,
    order: InstallOrder,
    action: UpgradeAction,
    event: UpgradeEvent<H>,
) -> (UpgradeAction, StoreView<PackageEntry<H>>) {
    let name = order.plan.package_name@;
    match (action, event) {
        (UpgradeAction::PrepareUpgrade, UpgradeEvent::Prepared(ok)) => if ok {
            (install_action(order), store)
        } else {
            (UpgradeAction::Failed(InstallRefusal::PrepareUpgrade), store)
        },
        (UpgradeAction::Install { .. }, UpgradeEvent::Installed(built)) => match built {
            Some(entry) => (
                UpgradeAction::Installed,
                StoreView { packages: store.packages.insert(name, entry), ..store },
            ),
            None => match order.plan.existing {
                Some((_, path)) => (UpgradeAction::Recover { path }, store),
                None => (UpgradeAction::Failed(InstallRefusal::Install), store),
            },
        },
        (UpgradeAction::Recover { .. }, UpgradeEvent::Recovered(entry)) => (
            UpgradeAction::Failed(InstallRefusal::Install),
            recovered_store(store, name, entry),
        ),
        _ => (action, store),
    }
}

impl InstallOrder {
    fn install(&self) -> (r: UpgradeAction)
        ensures
            r == install_action(*self),
            r matches UpgradeAction::Install { source, dest, remove_data, .. } && source
                == self.source && dest == self.plan.dest && (remove_data <==> self.remove_data
                && self.plan.existing is Some),
    {
        let (mode, remove_data) = match &self.plan.existing {
            Some((mode, _)) => (mode.clone(), self.remove_data),
            None => (InstallMode::Fresh, false),
        };
        UpgradeAction::Install {
            source: self.source.clone(),
            dest: self.plan.dest.clone(),
            mode,
            remove_data,
        }
    }

    /// The first action of the installation.
    pub fn first(&self) -> (r: UpgradeAction)
        ensures
            r == first_upgrade_action(*self),
    {
        if self.plan.existing.is_some() {
            UpgradeAction::PrepareUpgrade
        } else {
            self.install()
        }
    }
}

impl<H> PackageManagerActor<H> {
    /// Takes an installation one step further.
    pub fn install_next(
        &mut self,
        order: &InstallOrder,
        action: UpgradeAction,
        event: UpgradeEvent<H>,
    ) -> (r: UpgradeAction)
        requires
            old(self).wf(),
        ensures
            final(self).wf(),
            final(self).same_dirs(old(self)),
            (r, final(self).store_spec()) == upgrade_step(
                old(self).store_spec(),
                *order,
                action,
                event,
            ),
    {
        match (action, event) {
            (UpgradeAction::PrepareUpgrade, UpgradeEvent::Prepared(ok)) => if ok {
                order.install()
            } else {
                UpgradeAction::Failed(InstallRefusal::PrepareUpgrade)
            },
            (UpgradeAction::Install { .. }, UpgradeEvent::Installed(built)) => match built {
                Some(entry) => {
                    self.store_package(order.plan.package_name.clone(), entry);
                    UpgradeAction::Installed
                },
                None => match &order.plan.existing {
                    Some((_, path)) => UpgradeAction::Recover { path: path.clone() },
                    None => UpgradeAction::Failed(InstallRefusal::Install),
                },
            },
            (UpgradeAction::Recover { .. }, UpgradeEvent::Recovered(entry)) => {
                self.try_recover(order.plan.package_name.as_str(), entry);
                UpgradeAction::Failed(InstallRefusal::Install)
            },
            (action, _) => action,
        }
    }
}

/// The next action and the store after any number of events.
pub open spec fn upgrade_run<H>(
    store: StoreView<PackageEntry<H>>,
    order: InstallOrder,
    events: Seq<UpgradeEvent<H>>,
) -> (UpgradeAction, StoreView<PackageEntry<H>>)
    decreases events.len(),
{
    if events.len() == 0 {
        (first_upgrade_action(order), store)
    } else {
        let before = upgrade_run(store, order, events.drop_last());
        upgrade_step(before.1, order, before.0, events.last())
    }
}

/// Whatever happens, an installation is only ever carried out as it was planned, no other
/// package is touched, and until it is installed or read again the package is what it was.
pub proof fn law_install_follows_plan<H>(
    store: StoreView<PackageEntry<H>>,
    order: InstallOrder,
    events: Seq<UpgradeEvent<H>>,
    other: Seq<char>,
)
    requires
        other != order.plan.package_name@,
    ensures
        ({
            let (action, after) = upgrade_run(store, order, events);
            &&& action is Install ==> action == install_action(order)
            &&& action matches UpgradeAction::Recover { path } ==> order.plan.existing matches Some(
                x,
            ) && path == x.1
            &&& after.packages.dom().contains(other) == store.packages.dom().contains(other)
            &&& store.packages.dom().contains(other) ==> after.packages[other]
                == store.packages[other]
            &&& action is PrepareUpgrade || action is Install || action is Recover ==> after
                == store
        }),
    decreases events.len(),
{
    if events.len() > 0 {
        law_install_follows_plan(store, order, events.drop_last(), other);
    }
}

/// What loading the packages consists of.
#[derive(Debug, Clone, Copy, PartialEq, Eq, Structural)]
pub enum LoadAction {
    /// Note where the bundled package with this index lies.
    RecordBundled(usize),
    LoadBundled(usize),
    LoadDownloaded(usize),
}

/// What is done for the bundled packages: each is noted, and loaded unless one of that
/// name was installed.
pub open spec fn bundled_actions(bundled: Seq<Seq<char>>, downloaded: Seq<Seq<char>>) -> Seq<LoadAction>
    decreases bundled.len(),
{
    if bundled.len() == 0 {
        Seq::empty()
    } else {
        let i = (bundled.len() - 1) as usize;
        let before = bundled_actions(bundled.drop_last(), downloaded).push(
            LoadAction::RecordBundled(i),
        );
        if downloaded.contains(bundled.last()) {
            before
        } else {
            before.push(LoadAction::LoadBundled(i))
        }
    }
}

/// What is done for the installed packages: each is loaded.
pub open spec fn downloaded_actions(n: nat) -> Seq<LoadAction> {
    Seq::new(n, |i: int| LoadAction::LoadDownloaded(i as usize))
}

fn names_contain(names: &Vec<String>, name: &str) -> (r: bool)
    ensures
        r == texts(names@).contains(name@),
{
    let mut i: usize = 0;
    while i < names.len()
        invariant
            i <= names@.len(),
            forall|j: int| 0 <= j < i ==> (#[trigger] names@[j])@ != name@,
        decreases names.len() - i,
    {
        if is_same(names[i].as_str(), name) {
            assert(texts(names@)[i as int] == name@);
            return true;
        }
        i += 1;
    }
    assert forall|j: int| 0 <= j < texts(names@).len() implies texts(names@)[j] != name@ by {
        assert(texts(names@)[j] == names@[j]@);
    }
    false
}

/// Plans the loading of the packages of both directories, given by name. What was
/// installed always comes before what came with the system, even where it is broken.
pub fn plan_reload(bundled: &Vec<String>, downloaded: &Vec<String>) -> (r: Vec<LoadAction>)
    ensures
        r@ == bundled_actions(texts(bundled@), texts(downloaded@)) + downloaded_actions(
            downloaded@.len(),
        ),
{
    let mut out: Vec<LoadAction> = Vec::new();
    let ghost b = texts(bundled@);
    let ghost d = texts(downloaded@);
    let mut i: usize = 0;
    assert(b.take(0) =~= Seq::empty());
    while i < bundled.len()
        invariant
            i <= bundled@.len(),
            b == texts(bundled@),
            d == texts(downloaded@),
            out@ == bundled_actions(b.take(i as int), d),
        decreases bundled.len() - i,
    {
        assert(b.take(i + 1).drop_last() =~= b.take(i as int));
        assert(b.take(i + 1).last() == bundled@[i as int]@);
        out.push(LoadAction::RecordBundled(i));
        if !names_contain(downloaded, bundled[i].as_str()) {
            out.push(LoadAction::LoadBundled(i));
        }
        i += 1;
    }
    assert(b.take(i as int) =~= b);
    let ghost first = out@;
    let mut j: usize = 0;
    assert(first + downloaded_actions(0) =~= first);
    while j < downloaded.len()
        invariant
            j <= downloaded@.len(),
            out@ == first + downloaded_actions(j as nat),
        decreases downloaded.len() - j,
    {
        out.push(LoadAction::LoadDownloaded(j));
        j += 1;
        assert(out@ =~= first + downloaded_actions(j as nat));
    }
    out
}

impl<H> PackageManagerActor<H> {
    /// Files one package that was looked at: a sound one among the packages, and a broken
    /// one among the broken, with the path of its file.
    pub fn load_parsed_package(
        &mut self,
        name: String,
        loaded: Result<PackageEntry<H>, BrokenReason>,
        broken_path: String,
    )
        requires
            old(self).wf(),
        ensures
            final(self).wf(),
            final(self).same_dirs(old(self)),
            final(self).store_spec() == (match loaded {
                Ok(entry) => StoreView {
                    packages: old(self).store_spec().packages.insert(name@, entry),
                    ..old(self).store_spec()
                },
                Err(broken_info) => StoreView {
                    broken: old(self).store_spec().broken.insert(
                        name@,
                        BrokenPackageInfo { package_path: broken_path, broken_info },
                    ),
                    ..old(self).store_spec()
                },
            }),
    {
        match loaded {
            Ok(entry) => {
                let _ = self.store.insert(name, entry);
            },
            Err(broken_info) => {
                self.store.insert_broken(
                    name,
                    BrokenPackageInfo { package_path: broken_path, broken_info },
                );
            },
        }
    }
}

pub open spec fn status_views(s: Seq<(String, PackageStatus)>) -> Seq<(Seq<char>, StatusView)> {
    Seq::new(s.len(), |i: int| (s[i].0@, s[i].1@))
}

/// The status of every package: that of the sound ones, as given, then that of the broken
/// ones.
pub fn package_statuses(
    sound: Vec<(String, PackageStatus)>,
    broken: &Vec<(String, BrokenPackageInfo)>,
) -> (r: Vec<(String, PackageStatus)>)
    ensures
        status_views(r@) == status_views(sound@) + Seq::new(
            broken@.len(),
            |i: int|
                (
                    broken@[i].0@,
                    StatusView::Broken(
                        broken@[i].1.broken_info.summary@,
                        broken@[i].1.broken_info.detail@,
                    ),
                ),
        ),
{
    let mut out = sound;
    let ghost head = status_views(out@);
    let ghost tail = Seq::new(
        broken@.len(),
        |i: int|
            (
                broken@[i].0@,
                StatusView::Broken(
                    broken@[i].1.broken_info.summary@,
                    broken@[i].1.broken_info.detail@,
                ),
            ),
    );
    let mut i: usize = 0;
    assert(head + tail.take(0) =~= head);
    while i < broken.len()
        invariant
            i <= broken@.len(),
            tail.len() == broken@.len(),
            tail == Seq::new(
                broken@.len(),
                |i: int|
                    (
                        broken@[i].0@,
                        StatusView::Broken(
                            broken@[i].1.broken_info.summary@,
                            broken@[i].1.broken_info.detail@,
                        ),
                    ),
            ),
            status_views(out@) == head + tail.take(i as int),
        decreases broken.len() - i,
    {
        let ghost before = out@;
        let name = broken[i].0.clone();
        let status = PackageStatus::Broken(broken[i].1.broken_info.clone());
        let ghost added = (name@, status@);
        out.push((name, status));
        assert(status_views(out@) =~= status_views(before).push(added));
        assert(head + tail.take(i + 1) =~= (head + tail.take(i as int)).push(tail[i as int]));
        i += 1;
    }
    assert(tail.take(i as int) =~= tail);
    out
}

impl<H> PackageManagerActor<H> {
    /// The names of the sound packages, each once.
    pub fn get_package_names(&self) -> (r: Vec<String>)
        requires
            self.wf(),
        ensures
            texts(r@).no_duplicates(),
            forall|name: Seq<char>|
                #[trigger] texts(r@).contains(name) <==> self.store_spec().packages.dom().contains(
                    name,
                ),
    {
        let all = self.store.get_all();
        let ghost listed = all.listing();
        let mut out: Vec<String> = Vec::new();
        let mut i: usize = 0;
        while i < all.len()
            invariant
                i <= listed.len(),
                listed == all.listing(),
                out@.len() == i,
                forall|j: int| 0 <= j < i ==> (#[trigger] out@[j])@ == listed[j].0@,
            decreases listed.len() - i,
        {
            out.push(all.name_at(i).clone());
            i += 1;
        }
        proof {
            all.lemma_listing();
            assert forall|a: int, b: int|
                0 <= a < texts(out@).len() && 0 <= b < texts(out@).len() && a != b implies texts(
                out@,
            )[a] != texts(out@)[b] by {
                assert(texts(out@)[a] == listed[a].0@ && texts(out@)[b] == listed[b].0@);
                if a < b {
                    assert(listed[a].0@ != listed[b].0@);
                } else {
                    assert(listed[b].0@ != listed[a].0@);
                }
            }
            assert forall|name: Seq<char>| #[trigger]
                texts(out@).contains(name) <==> self.store_spec().packages.dom().contains(
                    name,
                ) by {
                if texts(out@).contains(name) {
                    let j = texts(out@).index_of(name);
                    assert(listed[j].0@ == name);
                }
                if self.store_spec().packages.dom().contains(name) {
                    let j = choose|j: int| 0 <= j < listed.len() && (#[trigger] listed[j]).0@ == name;
                    assert(texts(out@)[j] == name);
                }
            }
        }
        out
    }

    /// The broken packages, each once.
    pub fn broken_packages(&self) -> (r: Vec<(String, BrokenPackageInfo)>)
        requires
            self.wf(),
        ensures
            names_distinct(r@),
            map_of(r@) == self.store_spec().broken,
    {
        let all = self.store.get_broken_all();
        let ghost listed = all.listing();
        let mut out: Vec<(String, BrokenPackageInfo)> = Vec::new();
        let mut i: usize = 0;
        while i < all.len()
            invariant
                i <= listed.len(),
                listed == all.listing(),
                out@ == listed.take(i as int),
            decreases listed.len() - i,
        {
            out.push((all.name_at(i).clone(), all.value_at(i).clone()));
            i += 1;
            assert(out@ =~= listed.take(i as int));
        }
        proof {
            all.lemma_listing();
            assert(out@ =~= listed);
        }
        out
    }
}

/// What there is to tell of a package, sound or broken.
#[derive(Debug)]
pub enum PackageInfoResult {
    Normal(PackageInfo),
    Broken { filename: String, info: BrokenPackageInfo },
}

/// What there is to tell of every package: of the sound ones, as given, then of the broken
/// ones.
pub fn all_package_info(sound: Vec<PackageInfo>, broken: Vec<(String, BrokenPackageInfo)>) -> (r: Vec<
    PackageInfoResult,
>)
    ensures
        r@ == Seq::new(sound@.len(), |i: int| PackageInfoResult::Normal(sound@[i])) + Seq::new(
            broken@.len(),
            |i: int| PackageInfoResult::Broken { filename: broken@[i].0, info: broken@[i].1 },
        ),
{
    let ghost all = Seq::new(sound@.len(), |i: int| PackageInfoResult::Normal(sound@[i]))
        + Seq::new(
        broken@.len(),
        |i: int| PackageInfoResult::Broken { filename: broken@[i].0, info: broken@[i].1 },
    );
    let ghost n = sound@.len();
    let mut out: Vec<PackageInfoResult> = Vec::new();
    for info in it: sound
        invariant
            it.seq() == sound@,
            n == sound@.len(),
            n <= all.len(),
            forall|i: int| 0 <= i < n ==> all[i] == PackageInfoResult::Normal(#[trigger] sound@[i]),
            out@ == all.take(it.index()),
    {
        out.push(PackageInfoResult::Normal(info));
        assert(out@ =~= all.take(it.index() + 1));
    }
    for entry in it: broken
        invariant
            it.seq() == broken@,
            all.len() == n + broken@.len(),
            forall|i: int|
                0 <= i < broken@.len() ==> all[n + i] == (PackageInfoResult::Broken {
                    filename: (#[trigger] broken@[i]).0,
                    info: broken@[i].1,
                }),
            out@ == all.take(n + it.index()),
    {
        out.push(PackageInfoResult::Broken { filename: entry.0, info: entry.1 });
        assert(out@ =~= all.take(n + it.index() + 1));
    }
    assert(out@ =~= all);
    out
}

/// A package that came with the system is never removed: the request is refused at once,
/// and nothing changes.
pub proof fn law_bundled_is_never_removed<H>(m: PackageManagerActor<H>, name: Seq<char>)
    requires
        m.store_spec().packages.dom().contains(name),
        m.is_bundled_spec(m.store_spec().packages[name].path@),
    ensures
        removal_begins(m, name).0 == RemoveView::Failed(RemoveRefusal::Bundled),
        removal_begins(m, name).2 == m.store_spec(),
{
}

/// A removal that is refused, whatever the reason, leaves the store as it was.
pub proof fn law_refused_removal_changes_nothing<H>(m: PackageManagerActor<H>, name: Seq<char>)
    requires
        removal_begins(m, name).0 is Failed,
    ensures
        removal_begins(m, name).2 == m.store_spec(),
{
}

/// The actions and the store that a sequence of events leads a removal to.
pub open spec fn removal_run<H>(
    m: PackageManagerActor<H>,
    name: Seq<char>,
    purge: bool,
    events: Seq<RemoveEvent<H>>,
) -> (RemoveView, StoreView<PackageEntry<H>>)
    decreases events.len(),
{
    let begin = removal_begins(m, name);
    if events.len() == 0 {
        (begin.0, begin.2)
    } else {
        let before = removal_run(m, name, purge, events.drop_last());
        removal_step(before.1, name, begin.1, purge, before.0, events.last())
    }
}

/// Whatever happens, a removal touches nothing but the package that it is about, and where
/// the bundled packages lie is never forgotten.
pub proof fn law_removal_touches_one_package<H>(
    m: PackageManagerActor<H>,
    name: Seq<char>,
    purge: bool,
    events: Seq<RemoveEvent<H>>,
)
    ensures
        ({
            let now = removal_run(m, name, purge, events).1;
            &&& now.packages.remove(name) == m.store_spec().packages.remove(name)
            &&& now.broken.remove(name) == m.store_spec().broken.remove(name)
            &&& now.bundled == m.store_spec().bundled
        }),
    decreases events.len(),
{
    let now = removal_run(m, name, purge, events).1;
    if events.len() > 0 {
        law_removal_touches_one_package(m, name, purge, events.drop_last());
    }
    assert(now.packages.remove(name) =~= m.store_spec().packages.remove(name));
    assert(now.broken.remove(name) =~= m.store_spec().broken.remove(name));
}

/// The file of a package is asked to be removed only once the package has been torn down,
/// or was broken; and it is never one that came with the system.
pub proof fn law_bundled_file_is_kept<H>(
    m: PackageManagerActor<H>,
    name: Seq<char>,
    purge: bool,
    events: Seq<RemoveEvent<H>>,
)
    ensures
        removal_run(m, name, purge, events).0 matches RemoveView::RemoveFile(path) ==> path
            == removal_begins(m, name).1 && !m.is_bundled_spec(path),
        removal_run(m, name, purge, events).0 is Teardown || removal_run(
            m,
            name,
            purge,
            events,
        ).0 is Purge ==> !m.is_bundled_spec(removal_begins(m, name).1),
    decreases events.len(),
{
    if events.len() > 0 {
        law_bundled_file_is_kept(m, name, purge, events.drop_last());
    }
}

/// What was installed overrides what came with the system: no bundled package is loaded
/// whose name an installed one has.
pub proof fn law_downloaded_overrides_bundled(
    bundled: Seq<Seq<char>>,
    downloaded: Seq<Seq<char>>,
    k: int,
)
    requires
        bundled.len() <= usize::MAX,
        0 <= k < bundled_actions(bundled, downloaded).len(),
    ensures
        bundled_actions(bundled, downloaded)[k] matches LoadAction::LoadBundled(i) ==> i
            < bundled.len() && !downloaded.contains(bundled[i as int]),
        bundled_actions(bundled, downloaded)[k] matches LoadAction::RecordBundled(i) ==> i
            < bundled.len(),
    decreases bundled.len(),
{
    let rest = bundled.drop_last();
    let before = bundled_actions(rest, downloaded);
    if k < before.len() {
        law_downloaded_overrides_bundled(rest, downloaded, k);
        assert(bundled_actions(bundled, downloaded)[k] == before[k]);
        if let LoadAction::LoadBundled(i) = before[k] {
            assert(rest[i as int] == bundled[i as int]);
        }
    }
}

/// With a safe name, and an extension without separators, the file of an installed package
/// lies directly in the directory for installed packages.
pub proof fn law_installed_file_lies_in_its_dir(dir: Seq<char>, name: Seq<char>, ext: Seq<char>)
    requires
        is_safe_segment(name),
        !ext.contains('/'),
    ensures
        parent_components(dest_path(dir, name, ext)) == Some(components(dir)),
        is_under(dest_path(dir, name, ext), dir),
{
    reveal_strlit(".");
    let file = name + "."@ + ext;
    assert forall|i: int| 0 <= i < file.len() implies file[i] != '/' by {
        if i < name.len() {
            assert(name.contains(name[i]));
        } else if i > name.len() {
            assert(ext.contains(ext[i - name.len() - 1]));
        }
    }
    crate::path::law_joined_lies_in_dir(dir, file);
    crate::path::law_child_is_under(dest_path(dir, name, ext), dir);
}

/// Whatever happens, an installation copies the file that it was given to the place that was
/// planned, replaces what was planned to be replaced, and throws data away where that was
/// asked for and there is an installed version, and nowhere else.
pub proof fn law_data_goes_only_where_asked<H>(
    store: StoreView<PackageEntry<H>>,
    order: InstallOrder,
    events: Seq<UpgradeEvent<H>>,
)
    ensures
        upgrade_run(store, order, events).0 matches UpgradeAction::Install {
            source,
            dest,
            mode,
            remove_data,
        } ==> {
            &&& source == order.source
            &&& dest == order.plan.dest
            &&& remove_data <==> order.remove_data && order.plan.existing is Some
            &&& order.plan.existing is None ==> mode is Fresh
            &&& order.plan.existing matches Some(x) ==> mode == x.0
        },
    decreases events.len(),
{
    if events.len() > 0 {
        law_data_goes_only_where_asked(store, order, events.drop_last());
    }
}

/// A new package is installed at once. Where it is, it is filed under its name; where it
/// fails, the store is as it was.
pub proof fn law_new_package_is_installed<H>(
    store: StoreView<PackageEntry<H>>,
    order: InstallOrder,
    built: Option<PackageEntry<H>>,
)
    requires
        order.plan.existing is None,
    ensures
        upgrade_run(store, order, Seq::<UpgradeEvent<H>>::empty()).0 is Install,
        ({
            let end = upgrade_run(store, order, seq![UpgradeEvent::Installed(built)]);
            match built {
                Some(entry) => {
                    &&& end.0 is Installed
                    &&& end.1.packages.dom().contains(order.plan.package_name@)
                    &&& end.1.packages[order.plan.package_name@] == entry
                    &&& end.1.broken == store.broken
                    &&& end.1.bundled == store.bundled
                },
                None => end.0 == UpgradeAction::Failed(InstallRefusal::Install) && end.1 == store,
            }
        }),
{
    let one = seq![UpgradeEvent::Installed(built)];
    assert(one.drop_last() =~= Seq::<UpgradeEvent<H>>::empty());
    reveal_with_fuel(upgrade_run, 2);
}

/// An upgrade stops the installed package first, and ends there where that fails. It then
/// installs; where that fails too, the installed package is read again from its file, and
/// is what it was read to be, or gone.
pub proof fn law_package_is_upgraded<H>(
    store: StoreView<PackageEntry<H>>,
    order: InstallOrder,
    built: Option<PackageEntry<H>>,
    again: Option<PackageEntry<H>>,
)
    requires
        order.plan.existing is Some,
    ensures
        upgrade_run(store, order, Seq::<UpgradeEvent<H>>::empty()) == (
            UpgradeAction::PrepareUpgrade,
            store,
        ),
        upgrade_run(store, order, seq![UpgradeEvent::Prepared(false)]) == (
            UpgradeAction::Failed(InstallRefusal::PrepareUpgrade),
            store,
        ),
        upgrade_run(store, order, seq![UpgradeEvent::Prepared(true)]).0 is Install,
        ({
            let end = upgrade_run(
                store,
                order,
                seq![UpgradeEvent::Prepared(true), UpgradeEvent::Installed(built)],
            );
            match built {
                Some(entry) => end.0 is Installed
                    && end.1.packages[order.plan.package_name@] == entry,
                None => end.0 == (UpgradeAction::Recover { path: (order.plan.existing->0).1 })
                    && end.1 == store,
            }
        }),
        ({
            let end = upgrade_run(
                store,
                order,
                seq![
                    UpgradeEvent::Prepared(true),
                    UpgradeEvent::Installed(None),
                    UpgradeEvent::Recovered(again),
                ],
            );
            &&& end.0 == UpgradeAction::Failed(InstallRefusal::Install)
            &&& end.1.packages.dom().contains(order.plan.package_name@) <==> again is Some
            &&& again matches Some(entry) ==> end.1.packages[order.plan.package_name@] == entry
        }),
{
    let none = Seq::<UpgradeEvent<H>>::empty();
    let refused = seq![UpgradeEvent::<H>::Prepared(false)];
    let one = seq![UpgradeEvent::<H>::Prepared(true)];
    let two = seq![UpgradeEvent::Prepared(true), UpgradeEvent::Installed(built)];
    let failed = seq![UpgradeEvent::<H>::Prepared(true), UpgradeEvent::Installed(None)];
    let three = seq![
        UpgradeEvent::Prepared(true),
        UpgradeEvent::Installed(None),
        UpgradeEvent::Recovered(again),
    ];
    assert(refused.drop_last() =~= none);
    assert(one.drop_last() =~= none);
    assert(two.drop_last() =~= one);
    assert(failed.drop_last() =~= one);
    assert(three.drop_last() =~= failed);
    reveal_with_fuel(upgrade_run, 4);
}

/// Whether a step of a removal was carried out, as the event number `i`.
pub open spec fn done_at<H>(
    m: PackageManagerActor<H>,
    name: Seq<char>,
    purge: bool,
    events: Seq<RemoveEvent<H>>,
    i: int,
    action: RemoveView,
) -> bool {
    &&& 0 <= i < events.len()
    &&& removal_run(m, name, purge, events.take(i)).0 == action
    &&& events[i] == RemoveEvent::<H>::Done(true)
}

/// Whether a package was read again from a file, as the event number `i`.
pub open spec fn read_again_at<H>(
    m: PackageManagerActor<H>,
    name: Seq<char>,
    purge: bool,
    events: Seq<RemoveEvent<H>>,
    i: int,
    path: Seq<char>,
) -> bool {
    &&& 0 <= i < events.len()
    &&& removal_run(m, name, purge, events.take(i)).0 == RemoveView::RecoverBundled(path)
    &&& events[i] is Recovered
}

/// The file of the package that goes by a name, sound or broken.
pub open spec fn file_of<H>(m: PackageManagerActor<H>, name: Seq<char>) -> Seq<char> {
    if m.store_spec().packages.dom().contains(name) {
        m.store_spec().packages[name].path@
    } else {
        m.store_spec().broken[name].package_path@
    }
}

/// A removal ends well only after the file of the package was removed; and where a package
/// of that name came with the system, only after that was read again, from its own path.
pub proof fn law_removed_means_file_removed<H>(
    m: PackageManagerActor<H>,
    name: Seq<char>,
    purge: bool,
    events: Seq<RemoveEvent<H>>,
)
    ensures
        removal_run(m, name, purge, events).0 is Removed || removal_run(
            m,
            name,
            purge,
            events,
        ).0 is RecoverBundled ==> exists|i: int| #[trigger]
            done_at(m, name, purge, events, i, RemoveView::RemoveFile(file_of(m, name))),
        removal_run(m, name, purge, events).0 is Removed
            && m.store_spec().bundled.dom().contains(name) ==> exists|i: int| #[trigger]
            read_again_at(m, name, purge, events, i, m.store_spec().bundled[name]@),
        removal_run(m, name, purge, events).0 matches RemoveView::RecoverBundled(path)
            ==> m.store_spec().bundled.dom().contains(name) && path
            == m.store_spec().bundled[name]@,
    decreases events.len(),
{
    if events.len() > 0 {
        let before = events.drop_last();
        let last = events.len() - 1;
        law_removed_means_file_removed(m, name, purge, before);
        law_removal_touches_one_package(m, name, purge, before);
        law_bundled_file_is_kept(m, name, purge, before);
        assert(events.take(last) =~= before);
        let file = RemoveView::RemoveFile(file_of(m, name));
        if exists|i: int| #[trigger] done_at(m, name, purge, before, i, file) {
            let i = choose|i: int| #[trigger] done_at(m, name, purge, before, i, file);
            assert(before.take(i) =~= events.take(i));
            assert(done_at(m, name, purge, events, i, file));
        }
        if m.store_spec().bundled.dom().contains(name) {
            let path = m.store_spec().bundled[name]@;
            if exists|i: int| #[trigger] read_again_at(m, name, purge, before, i, path) {
                let i = choose|i: int| #[trigger] read_again_at(m, name, purge, before, i, path);
                assert(before.take(i) =~= events.take(i));
                assert(read_again_at(m, name, purge, events, i, path));
            }
            if removal_run(m, name, purge, before).0 is RecoverBundled && events.last()
                is Recovered {
                assert(read_again_at(m, name, purge, events, last, path));
            }
        }
        lemma_file_to_remove(m, name, purge, before);
        if removal_run(m, name, purge, before).0 is RemoveFile && events.last() == RemoveEvent::<
            H,
        >::Done(true) {
            assert(done_at(m, name, purge, events, last, file));
        }
    }
}

/// What was done before the last event was done.
proof fn lemma_done_before<H>(
    m: PackageManagerActor<H>,
    name: Seq<char>,
    purge: bool,
    events: Seq<RemoveEvent<H>>,
    action: RemoveView,
)
    requires
        events.len() > 0,
    ensures
        (exists|i: int| #[trigger] done_at(m, name, purge, events.drop_last(), i, action))
            ==> exists|i: int| #[trigger] done_at(m, name, purge, events, i, action),
{
    let before = events.drop_last();
    if exists|i: int| #[trigger] done_at(m, name, purge, before, i, action) {
        let i = choose|i: int| #[trigger] done_at(m, name, purge, before, i, action);
        assert(before.take(i) =~= events.take(i));
        assert(done_at(m, name, purge, events, i, action));
    }
}

/// What is removed is the file of the package.
proof fn lemma_file_to_remove<H>(
    m: PackageManagerActor<H>,
    name: Seq<char>,
    purge: bool,
    events: Seq<RemoveEvent<H>>,
)
    ensures
        removal_run(m, name, purge, events).0 matches RemoveView::RemoveFile(path) ==> path
            == file_of(m, name),
        removal_run(m, name, purge, events).0 is Teardown || removal_run(
            m,
            name,
            purge,
            events,
        ).0 is Purge ==> m.store_spec().packages.dom().contains(name),
    decreases events.len(),
{
    if events.len() > 0 {
        lemma_file_to_remove(m, name, purge, events.drop_last());
    }
}

/// The file of a sound package is removed only after the package was torn down, and where its
/// data is to go too, only after that has gone. Data is thrown away only where that was
/// asked for. The file of a package that came with the system is never removed.
pub proof fn law_file_is_removed_last<H>(
    m: PackageManagerActor<H>,
    name: Seq<char>,
    purge: bool,
    events: Seq<RemoveEvent<H>>,
)
    ensures
        removal_run(m, name, purge, events).0 matches RemoveView::RemoveFile(path) ==> {
            &&& path == file_of(m, name)
            &&& parent_components(path) != Some(components(m.bundled_dir_spec()))
            &&& m.store_spec().packages.dom().contains(name) ==> exists|i: int| #[trigger]
                done_at(m, name, purge, events, i, RemoveView::Teardown)
            &&& m.store_spec().packages.dom().contains(name) && purge ==> exists|i: int| #[trigger]
                done_at(m, name, purge, events, i, RemoveView::Purge)
        },
        removal_run(m, name, purge, events).0 is Purge ==> purge && exists|i: int| #[trigger]
            done_at(m, name, purge, events, i, RemoveView::Teardown),
        removal_run(m, name, purge, events).0 matches RemoveView::RecoverInstalled(path) ==> purge
            && path == file_of(m, name),
    decreases events.len(),
{
    lemma_file_to_remove(m, name, purge, events);
    law_bundled_file_is_kept(m, name, purge, events);
    if events.len() > 0 {
        let before = events.drop_last();
        let last = events.len() - 1;
        law_file_is_removed_last(m, name, purge, before);
        lemma_file_to_remove(m, name, purge, before);
        assert(events.take(last) =~= before);
        lemma_done_before(m, name, purge, events, RemoveView::Teardown);
        lemma_done_before(m, name, purge, events, RemoveView::Purge);
        let now = removal_run(m, name, purge, before).0;
        if events.last() == RemoveEvent::<H>::Done(true) && (now is Teardown || now is Purge) {
            assert(done_at(m, name, purge, events, last, now));
        }
    }
}

/// How the removal of an installed package goes when nothing fails: it is torn down and
/// forgotten, its data goes where that was asked for, its file goes, and what came with the
/// system under its name is back.
pub proof fn law_removal_when_nothing_fails<H>(
    m: PackageManagerActor<H>,
    name: Seq<char>,
    bundled: Option<PackageEntry<H>>,
)
    requires
        m.store_spec().packages.dom().contains(name),
        parent_components(m.store_spec().packages[name].path@) != Some(
            components(m.bundled_dir_spec()),
        ),
    ensures
        ({
            let ok = RemoveEvent::<H>::Done(true);
            let path = m.store_spec().packages[name].path@;
            let kept = removal_run(m, name, false, seq![ok]);
            let purged = removal_run(m, name, true, seq![ok, ok]);
            let there = m.store_spec().bundled.dom().contains(name);
            let end = removal_run(m, name, false, seq![ok, ok]);
            let last = removal_run(m, name, false, seq![ok, ok, RemoveEvent::Recovered(bundled)]);
            &&& removal_run(m, name, false, Seq::<RemoveEvent<H>>::empty()).0 is Teardown
            &&& removal_run(m, name, true, seq![ok]).0 is Purge
            &&& kept.0 == RemoveView::RemoveFile(path)
            &&& !kept.1.packages.dom().contains(name)
            &&& purged.0 == RemoveView::RemoveFile(path)
            &&& !there ==> end.0 is Removed
            &&& there ==> end.0 == RemoveView::RecoverBundled(m.store_spec().bundled[name]@)
            &&& there ==> last.0 is Removed
            &&& there ==> (last.1.packages.dom().contains(name) <==> bundled is Some)
            &&& there && bundled is Some ==> last.1.packages[name] == bundled->0
        }),
{
    let ok = RemoveEvent::<H>::Done(true);
    let none = Seq::<RemoveEvent<H>>::empty();
    let one = seq![ok];
    let two = seq![ok, ok];
    let three = seq![ok, ok, RemoveEvent::Recovered(bundled)];
    assert(one.drop_last() =~= none);
    assert(two.drop_last() =~= one);
    assert(three.drop_last() =~= two);
    reveal_with_fuel(removal_run, 4);
}

/// How a removal goes when something fails: a package that cannot be torn down stays; one
/// whose data cannot be thrown away is read again from its file; and a file that cannot be
/// removed ends the removal.
pub proof fn law_removal_when_something_fails<H>(
    m: PackageManagerActor<H>,
    name: Seq<char>,
    purge: bool,
    again: Option<PackageEntry<H>>,
)
    requires
        m.store_spec().packages.dom().contains(name),
        parent_components(m.store_spec().packages[name].path@) != Some(
            components(m.bundled_dir_spec()),
        ),
    ensures
        ({
            let ok = RemoveEvent::<H>::Done(true);
            let bad = RemoveEvent::<H>::Done(false);
            let path = m.store_spec().packages[name].path@;
            let last = removal_run(m, name, true, seq![ok, bad, RemoveEvent::Recovered(again)]);
            &&& removal_run(m, name, purge, seq![bad]) == (
                RemoveView::Failed(RemoveRefusal::Teardown),
                m.store_spec(),
            )
            &&& removal_run(m, name, true, seq![ok, bad]).0 == RemoveView::RecoverInstalled(path)
            &&& last.0 == RemoveView::Failed(RemoveRefusal::Purge)
            &&& last.1.packages.dom().contains(name) <==> again is Some
            &&& again is Some ==> last.1.packages[name] == again->0
            &&& removal_run(m, name, false, seq![ok, bad]).0 == RemoveView::Failed(
                RemoveRefusal::RemoveFile,
            )
            &&& removal_run(m, name, true, seq![ok, ok, bad]).0 == RemoveView::Failed(
                RemoveRefusal::RemoveFile,
            )
        }),
{
    let ok = RemoveEvent::<H>::Done(true);
    let bad = RemoveEvent::<H>::Done(false);
    let none = Seq::<RemoveEvent<H>>::empty();
    let one = seq![ok];
    assert(seq![bad].drop_last() =~= none);
    assert(one.drop_last() =~= none);
    assert(seq![ok, bad].drop_last() =~= one);
    assert(seq![ok, ok].drop_last() =~= one);
    assert(seq![ok, bad, RemoveEvent::Recovered(again)].drop_last() =~= seq![ok, bad]);
    assert(seq![ok, ok, bad].drop_last() =~= seq![ok, ok]);
    reveal_with_fuel(removal_run, 4);
}

/// How a removal begins: a package that is not known, or that came with the system, is not
/// removed; of a broken one that was installed, the file goes at once, and it is forgotten.
pub proof fn law_removal_begins<H>(m: PackageManagerActor<H>, name: Seq<char>)
    ensures
        ({
            let store = m.store_spec();
            let sound = store.packages.dom().contains(name);
            let broken = !sound && store.broken.dom().contains(name);
            let of_system = parent_components(file_of(m, name)) == Some(
                components(m.bundled_dir_spec()),
            );
            let begin = removal_begins(m, name);
            &&& !sound && !broken ==> begin.0 == RemoveView::Failed(RemoveRefusal::NotFound)
            &&& sound && of_system ==> begin.0 == RemoveView::Failed(RemoveRefusal::Bundled)
            &&& broken && of_system ==> begin.0 == RemoveView::Failed(RemoveRefusal::BrokenBundled)
            &&& sound && !of_system ==> begin.0 is Teardown && begin.2 == store
            &&& broken && !of_system ==> begin.0 == RemoveView::RemoveFile(file_of(m, name))
                && !begin.2.broken.dom().contains(name) && begin.2.packages == store.packages
            &&& sound || broken ==> begin.1 == file_of(m, name)
            &&& begin.0 is Failed ==> begin.2 == store
        }),
{
}

/// What directly lies in the bundled directory came with the system.
pub proof fn law_what_came_with_the_system<H>(m: PackageManagerActor<H>, name: Seq<char>)
    requires
        name.len() > 0,
        !name.contains('/'),
        name != seq!['.'],
    ensures
        m.is_bundled_spec(joined(m.bundled_dir_spec(), name)),
        components(m.downloaded_dir_spec()) != components(m.bundled_dir_spec())
            ==> !m.is_bundled_spec(joined(m.downloaded_dir_spec(), name)),
{
    crate::path::law_joined_lies_in_dir(m.bundled_dir_spec(), name);
    crate::path::law_joined_lies_in_dir(m.downloaded_dir_spec(), name);
}

/// A version is refused where it is at most the one that is installed, unless that is forced;
/// where nothing is installed, none is.
pub proof fn law_versions_that_are_refused(new: Seq<char>, installed: Seq<char>, force: bool)
    ensures
        version_refusal(new, None, force) is None,
        version_at_most(new, installed) == Some(true) && !force ==> version_refusal(
            new,
            Some(installed),
            force,
        ) == Some(InstallRefusal::NotNewer),
        version_at_most(new, installed) == Some(true) && force ==> version_refusal(
            new,
            Some(installed),
            force,
        ) is None,
        version_at_most(new, installed) == Some(false) ==> version_refusal(
            new,
            Some(installed),
            force,
        ) is None,
        version_at_most(new, installed) is None ==> version_refusal(new, Some(installed), force)
            == Some(InstallRefusal::InvalidVersion),
{
}

/// Releases are ordered by major, then minor, then patch number.
pub proof fn law_releases_are_ordered(a: (u64, u64, u64), b: (u64, u64, u64))
    ensures
        a.0 < b.0 ==> release_at_most(a, b) && !release_at_most(b, a),
        a.0 == b.0 && a.1 < b.1 ==> release_at_most(a, b) && !release_at_most(b, a),
        a.0 == b.0 && a.1 == b.1 && a.2 < b.2 ==> release_at_most(a, b) && !release_at_most(b, a),
        release_at_most(a, a),
{
}

/// A package that was read is installed if and only if its name can stand in a path, it says
/// what its volume needs, and it is newer than what is installed, or that is forced.
pub proof fn law_packages_that_are_installed<H>(
    m: PackageManagerActor<H>,
    metadata: Option<PackageMetadata>,
    force: bool,
    volume_ok: bool,
)
    ensures
        m.package_refusal(metadata, force, volume_ok) is None <==> {
            &&& metadata matches Some(p)
            &&& p.name@.len() > 0 && !p.name@.contains('/') && p.name@ != seq!['.'] && p.name@
                != seq!['.', '.']
            &&& volume_ok
            &&& m.store_spec().packages.dom().contains(p.name@) ==> {
                let order = version_at_most(
                    p.version@,
                    m.store_spec().packages[p.name@].version@,
                );
                order == Some(false) || (force && order is Some)
            }
        },
        metadata is None ==> m.package_refusal(metadata, force, volume_ok) == Some(
            InstallRefusal::Broken,
        ),
{
}

/// A package is installed from a package file that is there and lies outside both
/// directories, and from nothing else.
pub proof fn law_files_that_are_installed<H>(m: PackageManagerActor<H>, source: SourceFile)
    ensures
        m.source_refusal(source) is None <==> {
            &&& source.exists
            &&& source.is_package_file
            &&& source.canonical matches Some(path)
            &&& !components(m.downloaded_dir_spec()).is_prefix_of(components(path@))
            &&& !components(m.bundled_dir_spec()).is_prefix_of(components(path@))
        },
        !source.exists ==> m.source_refusal(source) == Some(InstallRefusal::FileNotFound),
{
}

/// The file of an installed package: in the directory, by the package's name and the
/// extension of package files.
pub proof fn law_place_of_installed_file(dir: Seq<char>, name: Seq<char>, ext: Seq<char>)
    requires
        dir.len() > 0,
        dir.last() != '/',
        name.len() > 0,
        name[0] != '/',
    ensures
        dest_path(dir, name, ext) == dir + "/"@ + name + "."@ + ext,
{
    reveal_strlit("/");
    assert(dest_path(dir, name, ext) =~= dir + "/"@ + name + "."@ + ext);
}

/// Every bundled package is noted, and it is loaded if and only if none of its name was
/// installed.
pub proof fn law_bundled_packages_are_loaded(
    bundled: Seq<Seq<char>>,
    downloaded: Seq<Seq<char>>,
    i: int,
)
    requires
        bundled.len() <= usize::MAX,
        0 <= i < bundled.len(),
    ensures
        bundled_actions(bundled, downloaded).contains(LoadAction::RecordBundled(i as usize)),
        bundled_actions(bundled, downloaded).contains(LoadAction::LoadBundled(i as usize))
            <==> !downloaded.contains(bundled[i]),
    decreases bundled.len(),
{
    let rest = bundled.drop_last();
    let before = bundled_actions(rest, downloaded);
    let all = bundled_actions(bundled, downloaded);
    let n = before.len() as int;
    assert forall|k: int| 0 <= k < n implies all[k] == before[k] by {}
    assert(all[n] == LoadAction::RecordBundled((bundled.len() - 1) as usize));
    if i < rest.len() {
        law_bundled_packages_are_loaded(rest, downloaded, i);
        let a = LoadAction::RecordBundled(i as usize);
        let k = choose|k: int| 0 <= k < n && before[k] == a;
        assert(all[k] == a);
        let b = LoadAction::LoadBundled(i as usize);
        if before.contains(b) {
            let k = choose|k: int| 0 <= k < n && before[k] == b;
            assert(all[k] == b);
        }
        if all.contains(b) {
            let k = choose|k: int| 0 <= k < all.len() && all[k] == b;
            assert(k < n);
            assert(before[k] == b);
        }
    } else {
        let b = LoadAction::LoadBundled(i as usize);
        if !downloaded.contains(bundled[i]) {
            assert(all[n + 1] == b);
        }
        if all.contains(b) {
            let k = choose|k: int| 0 <= k < all.len() && all[k] == b;
            if k < n {
                law_downloaded_overrides_bundled(rest, downloaded, k);
            }
        }
    }
}

/// Every installed package is loaded, in order, and each once.
pub proof fn law_installed_packages_are_loaded(n: nat, i: int)
    requires
        0 <= i < n,
        n <= usize::MAX,
    ensures
        downloaded_actions(n).len() == n,
        downloaded_actions(n)[i] == LoadAction::LoadDownloaded(i as usize),
{
}

/// A package that was read again is what was read; one that could not be is forgotten. No
/// other changes.
pub proof fn law_package_read_again<H>(
    store: StoreView<PackageEntry<H>>,
    name: Seq<char>,
    read: Option<PackageEntry<H>>,
    other: Seq<char>,
)
    ensures
        recovered_store(store, name, read).packages.dom().contains(name) <==> read is Some,
        read matches Some(entry) ==> recovered_store(store, name, read).packages[name] == entry,
        other != name ==> recovered_store(store, name, read).packages.dom().contains(other)
            == store.packages.dom().contains(other),
        other != name && store.packages.dom().contains(other) ==> recovered_store(
            store,
            name,
            read,
        ).packages[other] == store.packages[other],
        recovered_store(store, name, read).broken == store.broken,
        recovered_store(store, name, read).bundled == store.bundled,
{
}

/// There is a manager if both directories are known and differ.
pub proof fn law_directories_of_a_manager(bundled: Option<String>, downloaded: Option<String>)
    ensures
        manager_error(bundled, downloaded) is None <==> (bundled is Some && downloaded is Some
            && components(bundled->0@) != components(downloaded->0@)),
        bundled is None ==> manager_error(bundled, downloaded) == Some(
            ManagerError::BundledUnresolved,
        ),
        bundled is Some && downloaded is None ==> manager_error(bundled, downloaded) == Some(
            ManagerError::DownloadedUnresolved,
        ),
{
}

/// A release is written as its three numbers with dots between them.
pub proof fn law_text_of_a_release(major: u64, minor: u64, patch: u64)
    ensures
        release(major, minor, patch) == decimal(major as nat) + seq!['.'] + decimal(minor as nat)
            + seq!['.'] + decimal(patch as nat),
{
    reveal_strlit(".");
    assert("."@ =~= seq!['.']);
}

} // verus!
