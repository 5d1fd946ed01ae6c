//! A selected workspace package: its name, its manifest, and the Kind
//! tag that decides skip-versus-execute; plus the run-wide Progress
//! counters, threaded explicitly through the run.

use crate::bytes::{copy_byte_vecs, copy_bytes, views_of};
use crate::cli::{Args, ArgsView};
use crate::manifest::{Manifest, ManifestView};
use crate::metadata::{MetaPackage, MetaPackageView};
use vstd::prelude::*;

verus! {

/// Closed tag: whether the package receives an invocation or is
/// skipped as private.  Decided once at selection time.
#[derive(Clone, Copy, PartialEq, Eq, Structural, Debug)]
pub enum Kind {
    Normal,
    SkipAsPrivate,
}

#[verifier::ext_equal]
pub struct PackageView {
    pub name: Seq<u8>,
    pub manifest_path: Seq<u8>,
    pub manifest: ManifestView,
    pub kind: Kind,
    pub feature_args: Seq<Seq<u8>>,
}

impl PackageView {
    /// The package's manifest path and its manifest agree.
    pub open spec fn wf(self) -> bool {
        self.manifest_path == self.manifest.path
    }
}

pub struct Package {
    pub name: Vec<u8>,
    pub manifest_path: Vec<u8>,
    pub manifest: Manifest,
    pub kind: Kind,
    pub feature_args: Vec<Vec<u8>>,
}

impl View for Package {
    type V = PackageView;

    open spec fn view(&self) -> PackageView {
        PackageView {
            name: self.name@,
            manifest_path: self.manifest_path@,
            manifest: self.manifest@,
            kind: self.kind,
            feature_args: views_of(self.feature_args@),
        }
    }
}

/// The Kind a selected package receives: SkipAsPrivate exactly when
/// the run ignores private packages and the package is private.
pub open spec fn kind_of(a: ArgsView, private: bool) -> Kind {
    if a.ignore_private && private {
        Kind::SkipAsPrivate
    } else {
        Kind::Normal
    }
}

/// The Package built from one workspace-metadata entry.
pub open spec fn package_of(mp: MetaPackageView, a: ArgsView) -> PackageView {
    PackageView {
        name: mp.name,
        manifest_path: mp.manifest_path,
        manifest: ManifestView {
            path: mp.manifest_path,
            raw: mp.manifest_raw,
            package_name: Some(mp.name),
        },
        kind: kind_of(a, mp.private),
        feature_args: mp.feature_args,
    }
}

impl Package {
    pub fn from_metadata(mp: &MetaPackage, args: &Args) -> (p: Package)
        ensures
            p@ == package_of(mp@, args@),
            p@.wf(),
    {
        let kind = if args.ignore_private && mp.private {
            Kind::SkipAsPrivate
        } else {
            Kind::Normal
        };
        let manifest = Manifest::new(
            copy_bytes(&mp.manifest_path),
            copy_bytes(&mp.manifest_raw),
            Some(copy_bytes(&mp.name)),
        );
        let p = Package {
            name: copy_bytes(&mp.name),
            manifest_path: copy_bytes(&mp.manifest_path),
            manifest,
            kind,
            feature_args: copy_byte_vecs(&mp.feature_args),
        };
        proof {
            assert(p@ =~= package_of(mp@, args@));
        }
        p
    }
}

/// Run-wide counters: how many packages have been visited, out of how
/// many selected.  The total is fixed once the set is known; the
/// current count only increases, one per package visited, skipped
/// packages included.
pub struct Progress {
    pub count: usize,
    pub total: usize,
}

impl Progress {
    pub fn new(total: usize) -> (r: Progress)
        ensures
            r.count == 0,
            r.total == total,
    {
        Progress { count: 0, total }
    }

    pub fn tick(&mut self)
        requires
            old(self).count < old(self).total,
        ensures
            final(self).count == old(self).count + 1,
            final(self).total == old(self).total,
    {
        self.count = self.count + 1;
    }
}

} // verus!
