//! The scoped restoration guard.  The library never touches the disk:
//! a guard handle captures a manifest's original bytes and, on its
//! finalization or release, yields the write operation that reinstates
//! them — exactly once, however the enclosing scope ends.  The caller
//! performs the yielded write and calls `release` from every exit
//! path (typically from a drop guard of its own).

use crate::bytes::copy_bytes;
use crate::cli::Args;
use crate::manifest::Manifest;
use vstd::prelude::*;

verus! {

#[verifier::ext_equal]
pub struct WriteOpView {
    pub path: Seq<u8>,
    pub content: Seq<u8>,
}

/// One write of a whole file: these are the only mutations the run
/// ever asks for.
pub struct WriteOp {
    pub path: Vec<u8>,
    pub content: Vec<u8>,
}

impl View for WriteOp {
    type V = WriteOpView;

    open spec fn view(&self) -> WriteOpView {
        WriteOpView { path: self.path@, content: self.content@ }
    }
}

/// Run-wide restoration policy: manifests are written back when
/// dev-dependency suppression is on and the persisting variant is
/// off.
pub struct Restore {
    pub needs_restore: bool,
}

impl Restore {
    pub fn new(args: &Args) -> (r: Restore)
        ensures
            r.needs_restore == crate::cli::restores_manifests(args@),
    {
        Restore { needs_restore: args.no_dev_deps && !args.remove_dev_deps }
    }

    /// Open a guard over one manifest, capturing its original bytes
    /// before any mutation of the file.
    pub fn set_manifest(&self, manifest: &Manifest) -> (h: RestoreHandle)
        ensures
            h.needs_restore == self.needs_restore,
            h.path@ == manifest@.path,
            h.original@ == manifest@.raw,
            !h.restored,
    {
        RestoreHandle {
            needs_restore: self.needs_restore,
            path: copy_bytes(&manifest.path),
            original: copy_bytes(&manifest.raw),
            restored: false,
        }
    }
}

/// A guard bound to one file path and one captured content snapshot.
/// `done` and `release` both yield the restoring write the first time
/// one of them runs, and nothing afterwards: the original content is
/// written back exactly once per handle.
pub struct RestoreHandle {
    pub needs_restore: bool,
    pub path: Vec<u8>,
    pub original: Vec<u8>,
    pub restored: bool,
}

impl RestoreHandle {
    /// The write that reinstates the captured content, owed exactly
    /// once while the policy asks for restoration.
    pub open spec fn pending_restore(self) -> Option<WriteOpView> {
        if self.needs_restore && !self.restored {
            Some(WriteOpView { path: self.path@, content: self.original@ })
        } else {
            None
        }
    }

    /// Explicit finalization on the success path; idempotent.
    pub fn done(&mut self) -> (w: Option<WriteOp>)
        ensures
            final(self).restored,
            final(self).needs_restore == old(self).needs_restore,
            final(self).path@ == old(self).path@,
            final(self).original@ == old(self).original@,
            (w is Some) == (old(self).pending_restore() is Some),
            w matches Some(op) ==> op@ == old(self).pending_restore().unwrap(),
    {
        self.take_restore()
    }

    /// Release at scope end; restores exactly as `done` would if
    /// `done` never ran.
    pub fn release(&mut self) -> (w: Option<WriteOp>)
        ensures
            final(self).restored,
            final(self).needs_restore == old(self).needs_restore,
            final(self).path@ == old(self).path@,
            final(self).original@ == old(self).original@,
            (w is Some) == (old(self).pending_restore() is Some),
            w matches Some(op) ==> op@ == old(self).pending_restore().unwrap(),
    {
        self.take_restore()
    }

    fn take_restore(&mut self) -> (w: Option<WriteOp>)
        ensures
            final(self).restored,
            final(self).needs_restore == old(self).needs_restore,
            final(self).path@ == old(self).path@,
            final(self).original@ == old(self).original@,
            (w is Some) == (old(self).pending_restore() is Some),
            w matches Some(op) ==> op@ == old(self).pending_restore().unwrap(),
    {
        if self.needs_restore && !self.restored {
            self.restored = true;
            Some(
                WriteOp {
                    path: copy_bytes(&self.path),
                    content: copy_bytes(&self.original),
                },
            )
        } else {
            self.restored = true;
            None
        }
    }
}

} // verus!
