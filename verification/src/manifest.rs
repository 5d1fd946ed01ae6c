//! The on-disk representation of one package's manifest: its path, its
//! raw bytes, and the name of the package it declares (absent for a
//! virtual workspace-root manifest).  The struct never writes to disk;
//! it only derives new content.

use crate::bytes::view_of_opt;
use crate::remove_dev_deps;
use vstd::prelude::*;

verus! {

#[verifier::ext_equal]
pub struct ManifestView {
    pub path: Seq<u8>,
    pub raw: Seq<u8>,
    pub package_name: Option<Seq<u8>>,
}

pub struct Manifest {
    pub path: Vec<u8>,
    pub raw: Vec<u8>,
    pub package_name: Option<Vec<u8>>,
}

impl View for Manifest {
    type V = ManifestView;

    open spec fn view(&self) -> ManifestView {
        ManifestView {
            path: self.path@,
            raw: self.raw@,
            package_name: view_of_opt(self.package_name),
        }
    }
}

impl Manifest {
    pub fn new(path: Vec<u8>, raw: Vec<u8>, package_name: Option<Vec<u8>>) -> (r: Manifest)
        ensures
            r@.path == path@,
            r@.raw == raw@,
            r@.package_name == view_of_opt(package_name),
    {
        Manifest { path, raw, package_name }
    }

    /// A virtual manifest is a workspace root that declares no package
    /// of its own.
    pub fn is_virtual(&self) -> (r: bool)
        ensures
            r == (self@.package_name is None),
    {
        self.package_name.is_none()
    }

    /// The manifest's bytes with every dev-dependency table removed;
    /// pure, the manifest itself is untouched.
    pub fn remove_dev_deps(&self) -> (r: Vec<u8>)
        ensures
            r@ == remove_dev_deps::remove_dev_deps_spec(self@.raw),
    {
        remove_dev_deps::remove_dev_deps(&self.raw)
    }
}

} // verus!
