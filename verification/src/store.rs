//! The packages that the daemon knows: those it runs, those whose file is broken, and
//! those that came with the system.

use crate::name_map::NameMap;
use crate::package_status::BrokenReason;
use vstd::prelude::*;

verus! {

/// A package whose file could not be read.
#[derive(Debug)]
pub struct BrokenPackageInfo {
    pub package_path: String,
    pub broken_info: BrokenReason,
}

impl Clone for BrokenPackageInfo {
    fn clone(&self) -> (r: Self)
        ensures
            r == *self,
    {
        BrokenPackageInfo {
            package_path: self.package_path.clone(),
            broken_info: self.broken_info.clone(),
        }
    }
}

/// What the store holds.
pub struct StoreView<T> {
    pub packages: Map<Seq<char>, T>,
    pub broken: Map<Seq<char>, BrokenPackageInfo>,
    pub bundled: Map<Seq<char>, String>,
}

/// The three tables, each by package name. A broken file goes by its file name.
#[derive(Debug)]
pub struct PackageStore<T> {
    packages: NameMap<T>,
    broken_packages: NameMap<BrokenPackageInfo>,
    bundled_packages: NameMap<String>,
}

impl<T> View for PackageStore<T> {
    type V = StoreView<T>;

    closed spec fn view(&self) -> StoreView<T> {
        StoreView {
            packages: self.packages@,
            broken: self.broken_packages@,
            bundled: self.bundled_packages@,
        }
    }
}

impl<T> PackageStore<T> {
    pub closed spec fn wf(&self) -> bool {
        self.packages.wf() && self.broken_packages.wf() && self.bundled_packages.wf()
    }

    pub fn new() -> (r: Self)
        ensures
            r.wf(),
            r@ == (StoreView::<T> {
                packages: Map::empty(),
                broken: Map::empty(),
                bundled: Map::empty(),
            }),
    {
        PackageStore {
            packages: NameMap::new(),
            broken_packages: NameMap::new(),
            bundled_packages: NameMap::new(),
        }
    }

    pub fn get(&self, name: &str) -> (r: Option<&T>)
        requires
            self.wf(),
        ensures
            r is Some <==> self@.packages.dom().contains(name@),
            r matches Some(p) ==> *p == self@.packages[name@],
    {
        self.packages.get(name)
    }

    /// Every package, with its name.
    pub fn get_all(&self) -> (r: &NameMap<T>)
        requires
            self.wf(),
        ensures
            r.wf(),
            r@ == self@.packages,
    {
        &self.packages
    }

    pub fn insert(&mut self, name: String, package: T) -> (r: Option<T>)
        requires
            old(self).wf(),
        ensures
            final(self).wf(),
            final(self)@ == (StoreView {
                packages: old(self)@.packages.insert(name@, package),
                ..old(self)@
            }),
            r is Some <==> old(self)@.packages.dom().contains(name@),
            r matches Some(p) ==> p == old(self)@.packages[name@],
    {
        self.packages.insert(name, package)
    }

    pub fn remove(&mut self, name: &str) -> (r: Option<T>)
        requires
            old(self).wf(),
        ensures
            final(self).wf(),
            final(self)@ == (StoreView {
                packages: old(self)@.packages.remove(name@),
                ..old(self)@
            }),
            r is Some <==> old(self)@.packages.dom().contains(name@),
            r matches Some(p) ==> p == old(self)@.packages[name@],
    {
        self.packages.remove(name)
    }

    pub fn clear(&mut self)
        requires
            old(self).wf(),
        ensures
            final(self).wf(),
            final(self)@ == (StoreView { packages: Map::empty(), ..old(self)@ }),
    {
        self.packages.clear();
    }

    pub fn get_broken(&self, name: &str) -> (r: Option<&BrokenPackageInfo>)
        requires
            self.wf(),
        ensures
            r is Some <==> self@.broken.dom().contains(name@),
            r matches Some(b) ==> *b == self@.broken[name@],
    {
        self.broken_packages.get(name)
    }

    /// Every broken package, with its name.
    pub fn get_broken_all(&self) -> (r: &NameMap<BrokenPackageInfo>)
        requires
            self.wf(),
        ensures
            r.wf(),
            r@ == self@.broken,
    {
        &self.broken_packages
    }

    pub fn insert_broken(&mut self, name: String, info: BrokenPackageInfo)
        requires
            old(self).wf(),
        ensures
            final(self).wf(),
            final(self)@ == (StoreView {
                broken: old(self)@.broken.insert(name@, info),
                ..old(self)@
            }),
    {
        let _ = self.broken_packages.insert(name, info);
    }

    pub fn remove_broken(&mut self, name: &str) -> (r: Option<BrokenPackageInfo>)
        requires
            old(self).wf(),
        ensures
            final(self).wf(),
            final(self)@ == (StoreView { broken: old(self)@.broken.remove(name@), ..old(self)@ }),
            r is Some <==> old(self)@.broken.dom().contains(name@),
            r matches Some(b) ==> b == old(self)@.broken[name@],
    {
        self.broken_packages.remove(name)
    }

    pub fn clear_broken(&mut self)
        requires
            old(self).wf(),
        ensures
            final(self).wf(),
            final(self)@ == (StoreView { broken: Map::empty(), ..old(self)@ }),
    {
        self.broken_packages.clear();
    }

    /// The file of the package that came with the system under this name.
    pub fn get_bundled_path(&self, name: &str) -> (r: Option<&String>)
        requires
            self.wf(),
        ensures
            r is Some <==> self@.bundled.dom().contains(name@),
            r matches Some(p) ==> *p == self@.bundled[name@],
    {
        self.bundled_packages.get(name)
    }

    pub fn insert_bundled_path(&mut self, name: String, path: String)
        requires
            old(self).wf(),
        ensures
            final(self).wf(),
            final(self)@ == (StoreView {
                bundled: old(self)@.bundled.insert(name@, path),
                ..old(self)@
            }),
    {
        let _ = self.bundled_packages.insert(name, path);
    }

    pub fn clear_bundled_paths(&mut self)
        requires
            old(self).wf(),
        ensures
            final(self).wf(),
            final(self)@ == (StoreView { bundled: Map::empty(), ..old(self)@ }),
    {
        self.bundled_packages.clear();
    }

    pub fn clear_all(&mut self)
        requires
            old(self).wf(),
        ensures
            final(self).wf(),
            final(self)@ == (StoreView::<T> {
                packages: Map::empty(),
                broken: Map::empty(),
                bundled: Map::empty(),
            }),
    {
        self.clear();
        self.clear_broken();
        self.clear_bundled_paths();
    }
}

} // verus!
