//! Which image at which size: assets, and the keys of their builds.

use std::path::PathBuf;

use vstd::prelude::*;

use crate::geometry::{at_least_one, Size};

verus! {

/// `std::path::PathBuf`. A path is carried through and compared, never taken
/// apart.
#[verifier::external_type_specification]
#[verifier::external_body]
pub struct ExPathBuf(PathBuf);

/// What `==` on paths goes by: it holds between two paths exactly when this is
/// the same for both.
pub uninterp spec fn path_identity(path: PathBuf) -> int;

/// Calls `PathBuf`'s `==`. It is an equivalence relation, as `Eq` promises, so
/// it sorts the paths into classes of equal ones; [`path_identity`] names the
/// class of a path, and the call tells whether two paths share it.
#[verifier::external_body]
fn paths_equal(a: &PathBuf, b: &PathBuf) -> (r: bool)
    ensures
        r == (path_identity(*a) == path_identity(*b)),
{
    a == b
}

/// Calls `PathBuf::clone`, which returns a duplicate: a path equal to the one
/// given.
#[verifier::external_body]
fn clone_path(path: &PathBuf) -> (r: PathBuf)
    ensures
        path_identity(r) == path_identity(*path),
{
    path.clone()
}

/// An image file that belongs to an entry.
#[derive(Debug, PartialEq, Eq)]
pub struct ImageAsset {
    pub entry_path: PathBuf,
    pub file_name: String,
}

/// The images to build ahead of viewing, and the size to build them at.
#[derive(Debug, PartialEq, Eq)]
pub struct WarmRequest {
    pub assets: Vec<ImageAsset>,
    pub size: Size,
}

/// An asset (entry and file) rendered at a specific cell size.
pub struct CacheKey {
    pub entry_path: PathBuf,
    pub file_name: String,
    pub width: u16,
    pub height: u16,
}

/// What tells one [`CacheKey`] from another.
pub struct KeyView {
    pub path: int,
    pub file_name: Seq<char>,
    pub width: int,
    pub height: int,
}

impl View for CacheKey {
    type V = KeyView;

    open spec fn view(&self) -> KeyView {
        KeyView {
            path: path_identity(self.entry_path),
            file_name: self.file_name@,
            width: self.width as int,
            height: self.height as int,
        }
    }
}

/// `length`, or one cell where `length` is zero.
pub open spec fn nonzero_length(length: int) -> int {
    if length == 0 {
        1
    } else {
        length
    }
}

impl ImageAsset {
    /// The key of this asset's build at `area`.
    pub open spec fn key_at(&self, area: Size) -> KeyView {
        KeyView {
            path: path_identity(self.entry_path),
            file_name: self.file_name@,
            width: nonzero_length(area.width as int),
            height: nonzero_length(area.height as int),
        }
    }
}

impl Clone for ImageAsset {
    fn clone(&self) -> (asset: ImageAsset)
        ensures
            path_identity(asset.entry_path) == path_identity(self.entry_path),
            asset.file_name@ == self.file_name@,
    {
        ImageAsset {
            entry_path: clone_path(&self.entry_path),
            file_name: self.file_name.clone(),
        }
    }
}

impl Clone for CacheKey {
    fn clone(&self) -> (key: CacheKey)
        ensures
            key@ == self@,
    {
        CacheKey {
            entry_path: clone_path(&self.entry_path),
            file_name: self.file_name.clone(),
            width: self.width,
            height: self.height,
        }
    }
}

impl CacheKey {
    /// The key of the build of `asset` at `area`. An image is never built at
    /// less than one cell either way.
    pub fn new(asset: &ImageAsset, area: Size) -> (key: CacheKey)
        ensures
            key@ == asset.key_at(area),
    {
        CacheKey {
            entry_path: clone_path(&asset.entry_path),
            file_name: asset.file_name.clone(),
            width: at_least_one(area.width),
            height: at_least_one(area.height),
        }
    }

    /// Whether the two keys stand for the same build.
    pub fn same_as(&self, other: &CacheKey) -> (r: bool)
        ensures
            r == (self@ == other@),
    {
        paths_equal(&self.entry_path, &other.entry_path) && self.file_name == other.file_name
            && self.width == other.width && self.height == other.height
    }
}

} // verus!
