//! Recognising package files.

use crate::package::PackageFile;
use crate::package_status::BrokenReason;
use crate::path::{
    eq_ignore_case, extension, extension_spec, file_name, file_name_spec, same_ignoring_case,
    texts,
};
use vstd::prelude::*;

verus! {

/// Whether a path has the extension of package files, in capitals or not.
pub open spec fn has_package_extension(path: Seq<char>, packages_ext: Seq<char>) -> bool {
    extension_spec(path) matches Some(ext) && same_ignoring_case(ext, packages_ext)
}

/// Whether a path is that of a package file: a file, with the extension of one.
pub fn is_package_file(is_file: bool, path: &str, packages_ext: &str) -> (r: bool)
    ensures
        r == (is_file && has_package_extension(path@, packages_ext@)),
{
    if !is_file {
        return false;
    }
    match extension(path) {
        Some(ext) => eq_ignore_case(ext.as_str(), packages_ext),
        None => false,
    }
}

/// An entry of a directory.
#[derive(Debug)]
pub struct DirItem {
    pub path: String,
    pub is_file: bool,
}

/// The paths of the package files among the entries of a directory, in order. An entry
/// that could not be read is left out.
pub open spec fn package_paths(items: Seq<Option<DirItem>>, packages_ext: Seq<char>) -> Seq<
    Seq<char>,
>
    decreases items.len(),
{
    if items.len() == 0 {
        Seq::empty()
    } else {
        let before = package_paths(items.drop_last(), packages_ext);
        match items.last() {
            Some(item) => if item.is_file && has_package_extension(item.path@, packages_ext) {
                before.push(item.path@)
            } else {
                before
            },
            None => before,
        }
    }
}

/// The package files of a directory. One that cannot be listed has none.
pub fn package_files(listing: Option<Vec<Option<DirItem>>>, packages_ext: &str) -> (r: Vec<String>)
    ensures
        texts(r@) == match listing {
            Some(items) => package_paths(items@, packages_ext@),
            None => Seq::empty(),
        },
{
    let mut out: Vec<String> = Vec::new();
    assert(texts(out@) =~= Seq::empty());
    let items = match listing {
        Some(items) => items,
        None => {
            return out;
        },
    };
    let mut i: usize = 0;
    assert(items@.take(0) =~= Seq::empty());
    while i < items.len()
        invariant
            i <= items@.len(),
            texts(out@) == package_paths(items@.take(i as int), packages_ext@),
        decreases items.len() - i,
    {
        let ghost upto = items@.take(i + 1);
        assert(upto.drop_last() =~= items@.take(i as int));
        if let Some(item) = &items[i] {
            if is_package_file(item.is_file, item.path.as_str(), packages_ext) {
                let ghost before = texts(out@);
                out.push(item.path.clone());
                assert(texts(out@) =~= before.push(item.path@));
            }
        }
        i += 1;
    }
    assert(items@.take(i as int) =~= items@);
    out
}

/// A package file that was looked at: what it holds, or why it is broken.
#[derive(Debug)]
pub struct PackageParseResult {
    pub package_name: String,
    pub path: String,
    pub package_file: Result<PackageFile, BrokenReason>,
}

/// What a look at a package file amounts to. A sound package goes by the name that it
/// gives itself, a broken one by that of its file. A path that names no file is `None`.
pub fn parse_package_file(path: String, package_file: Result<PackageFile, BrokenReason>) -> (r: Option<
    PackageParseResult,
>)
    ensures
        r is Some <==> file_name_spec(path@) is Some,
        r matches Some(p) ==> {
            &&& p.path == path
            &&& p.package_file == package_file
            &&& p.package_name@ == match package_file {
                Ok(file) => file.metadata.name@,
                Err(_) => file_name_spec(path@)->0,
            }
        },
{
    let filename = match file_name(path.as_str()) {
        Some(name) => name,
        None => {
            return None;
        },
    };
    let package_name = match &package_file {
        Ok(file) => file.metadata.name.clone(),
        Err(_) => filename,
    };
    Some(PackageParseResult { package_name, path, package_file })
}

/// The package files of a directory are its files with the extension of packages: none is left
/// out, and nothing else is taken.
pub proof fn law_package_files_are_found(
    items: Seq<Option<DirItem>>,
    packages_ext: Seq<char>,
    path: Seq<char>,
)
    ensures
        package_paths(items, packages_ext).contains(path) <==> exists|i: int|
            0 <= i < items.len() && ((#[trigger] items[i]) matches Some(item) && item.is_file
                && item.path@ == path && (extension_spec(path) matches Some(ext)
                && same_ignoring_case(ext, packages_ext))),
    decreases items.len(),
{
    if items.len() > 0 {
        let before = items.drop_last();
        let last = items.len() - 1;
        law_package_files_are_found(before, packages_ext, path);
        let (all, rest) = (
            package_paths(items, packages_ext),
            package_paths(before, packages_ext),
        );
        if rest.contains(path) {
            let k = choose|k: int| 0 <= k < rest.len() && rest[k] == path;
            assert(all[k] == path);
            let i = choose|i: int|
                0 <= i < before.len() && ((#[trigger] before[i]) matches Some(item) && item.is_file
                    && item.path@ == path && (extension_spec(path) matches Some(ext)
                    && same_ignoring_case(ext, packages_ext)));
            assert(items[i] == before[i]);
        }
        if all.contains(path) {
            let k = choose|k: int| 0 <= k < all.len() && all[k] == path;
            if k < rest.len() {
                assert(rest[k] == path);
            } else {
                assert(items[last] == items.last());
            }
        }
        if exists|i: int|
            0 <= i < items.len() && ((#[trigger] items[i]) matches Some(item) && item.is_file
                && item.path@ == path && (extension_spec(path) matches Some(ext)
                && same_ignoring_case(ext, packages_ext))) {
            let i = choose|i: int|
                0 <= i < items.len() && ((#[trigger] items[i]) matches Some(item) && item.is_file
                    && item.path@ == path && (extension_spec(path) matches Some(ext)
                    && same_ignoring_case(ext, packages_ext)));
            if i < last {
                assert(before[i] == items[i]);
                let k = choose|k: int| 0 <= k < rest.len() && rest[k] == path;
                assert(all[k] == path);
            } else {
                assert(all[all.len() - 1] == path);
            }
        }
    }
}

} // verus!
