//! What a package has on disk: its file system, and a directory for its data.

use crate::name_map::NameMap;
use crate::path::{split, split_text, texts};
use std::sync::Arc;
use vstd::prelude::*;

verus! {

/// A package's file system: the part of the package file that holds it, and where it is
/// mounted.
#[derive(Debug)]
pub struct PackageFsMetadata {
    pub path: String,
    pub mount_point: String,
    pub overlayfs_root: String,
    pub fstype: String,
    pub pkgfs_offset: u64,
    pub length: u64,
}

/// A package's file system, as it is used.
#[derive(Debug)]
pub struct PackageFileSystem {
    pub package_name: String,
    pub pkgfs_meta: PackageFsMetadata,
}

impl PackageFileSystem {
    pub fn package_name(&self) -> (r: &str)
        ensures
            r@ == self.package_name@,
    {
        self.package_name.as_str()
    }

    pub fn mount_point(&self) -> (r: &str)
        ensures
            r@ == self.pkgfs_meta.mount_point@,
    {
        self.pkgfs_meta.mount_point.as_str()
    }
}

/// What a package says of its data.
#[derive(Debug)]
pub struct DataDirMetadata {
    pub package_name: String,
    pub path: String,
    /// The directories inside the container, with colons between them.
    pub data_dirs: Option<String>,
    pub storage_limit: Option<i64>,
}

/// A directory for a package's data.
#[derive(Debug)]
pub struct DataDirectory {
    path: String,
    data_dirs: Option<Vec<String>>,
    block_limit: Option<u64>,
}

impl DataDirectory {
    pub closed spec fn path_spec(&self) -> Seq<char> {
        self.path@
    }

    pub closed spec fn dirs_spec(&self) -> Option<Seq<Seq<char>>> {
        match self.data_dirs {
            Some(d) => Some(texts(d@)),
            None => None,
        }
    }

    pub closed spec fn limit_spec(&self) -> Option<u64> {
        self.block_limit
    }

    /// The data directory at `path`; `block_limit` is its quota, where it has one.
    pub fn new(path: String, data_dirs: &Option<String>, block_limit: Option<u64>) -> (r: Self)
        ensures
            r.path_spec() == path@,
            r.dirs_spec() == match *data_dirs {
                Some(list) => Some(split(list@, ':')),
                None => None,
            },
            r.limit_spec() == block_limit,
    {
        let data_dirs = match data_dirs {
            Some(list) => Some(split_text(list.as_str(), ':')),
            None => None,
        };
        DataDirectory { path, data_dirs, block_limit }
    }

    pub fn path(&self) -> (r: &str)
        ensures
            r@ == self.path_spec(),
    {
        self.path.as_str()
    }

    pub fn data_dirs(&self) -> (r: Option<&Vec<String>>)
        ensures
            match self.dirs_spec() {
                Some(d) => r matches Some(v) && texts(v@) == d,
                None => r is None,
            },
    {
        match &self.data_dirs {
            Some(d) => Some(d),
            None => None,
        }
    }

    pub fn block_limit(&self) -> (r: Option<u64>)
        ensures
            r == self.limit_spec(),
    {
        self.block_limit
    }
}

/// What a package needs on disk.
#[derive(Debug)]
pub struct PackageVolumeMetadata {
    package_name: String,
    pkgfs_meta: PackageFsMetadata,
    data_meta: DataDirMetadata,
}

impl PackageVolumeMetadata {
    pub closed spec fn name_spec(&self) -> Seq<char> {
        self.package_name@
    }

    pub closed spec fn pkgfs_spec(&self) -> PackageFsMetadata {
        self.pkgfs_meta
    }

    pub closed spec fn data_spec(&self) -> DataDirMetadata {
        self.data_meta
    }

    pub fn new(package_name: String, pkgfs_meta: PackageFsMetadata, data_meta: DataDirMetadata) -> (r:
        Self)
        ensures
            r.name_spec() == package_name@,
            r.pkgfs_spec() == pkgfs_meta,
            r.data_spec() == data_meta,
    {
        PackageVolumeMetadata { package_name, pkgfs_meta, data_meta }
    }

    pub fn data_dir(&self) -> (r: &str)
        ensures
            r@ == self.data_spec().path@,
    {
        self.data_meta.path.as_str()
    }

    pub fn data_meta(&self) -> (r: &DataDirMetadata)
        ensures
            *r == self.data_spec(),
    {
        &self.data_meta
    }
}

/// Ask for a package's volume.
#[derive(Debug)]
pub struct AcquireVolume {
    pub volume_meta: PackageVolumeMetadata,
}

/// Ask for a package's volume to be thrown away.
#[derive(Debug)]
pub struct PurgeVolume {
    pub name: String,
}

/// Ask for the quota of a package.
#[derive(Debug)]
pub struct GetQuotaInfo {
    pub name: String,
}

#[derive(Debug)]
pub struct PackageVolumeInner {
    pub package_name: String,
    pub pkgfs: PackageFileSystem,
    pub data_directory: Option<DataDirectory>,
}

/// A package's volume, which all who use it share.
#[derive(Debug)]
pub struct PackageVolume {
    pub inner: Arc<PackageVolumeInner>,
}

impl Clone for PackageVolume {
    fn clone(&self) -> (r: Self)
        ensures
            r == *self,
    {
        PackageVolume { inner: self.inner.clone() }
    }
}

impl PackageVolume {
    pub fn new(package_name: String, pkgfs: PackageFileSystem, data_directory: Option<DataDirectory>) -> (r:
        Self)
        ensures
            *r.inner == (PackageVolumeInner { package_name, pkgfs, data_directory }),
    {
        PackageVolume {
            inner: Arc::new(PackageVolumeInner { package_name, pkgfs, data_directory }),
        }
    }

    pub fn data_directory(&self) -> (r: Option<&DataDirectory>)
        ensures
            match self.inner.data_directory {
                Some(d) => r matches Some(x) && *x == d,
                None => r is None,
            },
    {
        match &self.inner.data_directory {
            Some(d) => Some(d),
            None => None,
        }
    }

    pub fn packagefs(&self) -> (r: &PackageFileSystem)
        ensures
            *r == self.inner.pkgfs,
    {
        &self.inner.pkgfs
    }

    pub fn get_mount_point(&self) -> (r: &str)
        ensures
            r@ == self.inner.pkgfs.pkgfs_meta.mount_point@,
    {
        self.inner.pkgfs.mount_point()
    }

    pub fn package_name(&self) -> (r: &str)
        ensures
            r@ == self.inner.package_name@,
    {
        self.inner.package_name.as_str()
    }
}

/// The volumes of all packages.
#[derive(Debug)]
pub struct PackageVolumeManagerActor {
    volumes: NameMap<PackageVolume>,
}

impl View for PackageVolumeManagerActor {
    type V = Map<Seq<char>, PackageVolume>;

    closed spec fn view(&self) -> Map<Seq<char>, PackageVolume> {
        self.volumes@
    }
}

impl PackageVolumeManagerActor {
    pub closed spec fn wf(&self) -> bool {
        self.volumes.wf()
    }

    pub fn new() -> (r: Self)
        ensures
            r.wf(),
            r@ == Map::<Seq<char>, PackageVolume>::empty(),
    {
        PackageVolumeManagerActor { volumes: NameMap::new() }
    }

    /// Files the volume of a package, in place of one that it may have had, and hands it
    /// out. Without a data directory, which may have failed to be made, the package runs
    /// all the same.
    pub fn acquire_volume(
        &mut self,
        meta: PackageVolumeMetadata,
        data_directory: Option<DataDirectory>,
    ) -> (r: PackageVolume)
        requires
            old(self).wf(),
        ensures
            final(self).wf(),
            final(self)@ == old(self)@.insert(meta.name_spec(), r),
            r.inner.package_name@ == meta.name_spec(),
            r.inner.pkgfs.package_name@ == meta.name_spec(),
            r.inner.pkgfs.pkgfs_meta == meta.pkgfs_spec(),
            r.inner.data_directory == data_directory,
    {
        let PackageVolumeMetadata { package_name, pkgfs_meta, data_meta: _ } = meta;
        let pkgfs = PackageFileSystem { package_name: package_name.clone(), pkgfs_meta };
        let volume = PackageVolume::new(package_name.clone(), pkgfs, data_directory);
        let _ = self.volumes.insert(package_name, volume.clone());
        volume
    }

    pub fn get_volume(&self, name: &str) -> (r: Option<&PackageVolume>)
        requires
            self.wf(),
        ensures
            r is Some <==> self@.dom().contains(name@),
            r matches Some(v) ==> *v == self@[name@],
    {
        self.volumes.get(name)
    }

    /// Forgets the volume of a package and hands it out, for its data directory to be
    /// removed. A package without a volume is no failure.
    pub fn purge_volume(&mut self, name: &str) -> (r: Option<PackageVolume>)
        requires
            old(self).wf(),
        ensures
            final(self).wf(),
            final(self)@ == old(self)@.remove(name@),
            r == if old(self)@.dom().contains(name@) {
                Some(old(self)@[name@])
            } else {
                None
            },
    {
        self.volumes.remove(name)
    }

    /// The quota of a package: none where it has no volume, no data directory or no
    /// limit.
    pub fn get_quota_info(&self, name: &str) -> (r: Option<u64>)
        requires
            self.wf(),
        ensures
            r == if self@.dom().contains(name@) {
                match self@[name@].inner.data_directory {
                    Some(d) => d.limit_spec(),
                    None => None,
                }
            } else {
                None
            },
    {
        match self.volumes.get(name) {
            Some(volume) => match &volume.inner.data_directory {
                Some(d) => d.block_limit(),
                None => None,
            },
            None => None,
        }
    }
}

} // verus!
