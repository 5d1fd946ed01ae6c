//! The workspace description, consumed read-only: one entry per
//! workspace package, in workspace declaration order, plus the
//! workspace root path.  The caller obtains it from the build tool's
//! metadata output and hands it over as plain values, each package's
//! manifest bytes and feature arguments already in hand.

use crate::bytes::views_of;
use vstd::prelude::*;

verus! {

#[verifier::ext_equal]
pub struct MetaPackageView {
    pub name: Seq<u8>,
    pub manifest_path: Seq<u8>,
    pub manifest_raw: Seq<u8>,
    pub private: bool,
    pub feature_args: Seq<Seq<u8>>,
}

pub struct MetaPackage {
    pub name: Vec<u8>,
    pub manifest_path: Vec<u8>,
    /// The bytes of the package's manifest file as read from disk.
    pub manifest_raw: Vec<u8>,
    /// Whether the package is not publishable.
    pub private: bool,
    /// The feature-selection arguments the feature policy produced for
    /// this package.
    pub feature_args: Vec<Vec<u8>>,
}

impl View for MetaPackage {
    type V = MetaPackageView;

    open spec fn view(&self) -> MetaPackageView {
        MetaPackageView {
            name: self.name@,
            manifest_path: self.manifest_path@,
            manifest_raw: self.manifest_raw@,
            private: self.private,
            feature_args: views_of(self.feature_args@),
        }
    }
}

#[verifier::ext_equal]
pub struct MetadataView {
    pub packages: Seq<MetaPackageView>,
    pub workspace_root: Seq<u8>,
}

pub struct Metadata {
    pub packages: Vec<MetaPackage>,
    pub workspace_root: Vec<u8>,
}

impl View for Metadata {
    type V = MetadataView;

    open spec fn view(&self) -> MetadataView {
        MetadataView {
            packages: Seq::new(
                self.packages@.len(),
                |i: int| self.packages@[i]@,
            ),
            workspace_root: self.workspace_root@,
        }
    }
}

} // verus!
