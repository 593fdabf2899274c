//! Representation of one image entry: its path, display name (the file
//! stem), and file name.

use vstd::prelude::*;

use crate::paths::{copy_bytes, spec_file_name, spec_file_stem, spec_stem};

verus! {

/// One addressable image entry.
pub struct Image {
    /// Full path of the entry.
    pub path: Vec<u8>,
    /// The file stem: the file name up to its last dot.
    pub name: Vec<u8>,
    /// The file name: the path after its last separator.
    pub file_name: Vec<u8>,
}

impl Image {
    /// Describe the entry at `path`; `None` when the path has no resolvable
    /// file name.
    pub fn new(path: &Vec<u8>) -> (r: Option<Image>)
        ensures
            match r {
                Some(img) => {
                    &&& spec_file_name(path@) matches Some(n) && img.file_name@ == n
                        && img.name@ == spec_stem(n)
                    &&& img.path@ == path@
                },
                None => spec_file_name(path@) is None,
            },
    {
        let file_name = match crate::paths::file_name(path) {
            Some(n) => n,
            None => {
                return None;
            },
        };
        let name = match crate::paths::file_stem(path) {
            Some(s) => s,
            None => vstd::pervasive::unreached(),
        };
        Some(Image { path: copy_bytes(path), name, file_name })
    }

    /// The full path of the entry.
    pub fn path(&self) -> (r: Vec<u8>)
        ensures
            r@ == self.path@,
    {
        copy_bytes(&self.path)
    }

    /// The display name of the entry.
    pub fn name(&self) -> (r: Vec<u8>)
        ensures
            r@ == self.name@,
    {
        copy_bytes(&self.name)
    }

    /// The file name of the entry.
    pub fn file_name(&self) -> (r: Vec<u8>)
        ensures
            r@ == self.file_name@,
    {
        copy_bytes(&self.file_name)
    }
}

} // verus!
