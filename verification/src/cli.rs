//! The resolved run configuration.  Argument parsing itself stays
//! outside the library; what arrives here are plain values: the
//! subcommand, the passthrough arguments, the selection flags and the
//! dev-dependency suppression flags.

use crate::bytes::{view_of_opt, views_of};
use vstd::prelude::*;

verus! {

#[derive(Clone, Copy, PartialEq, Eq, Structural, Debug)]
pub enum Coloring {
    Auto,
    Always,
    Never,
}

/// The bytes of the value passed to the color option: `auto`,
/// `always` or `never`.
pub open spec fn coloring_bytes(c: Coloring) -> Seq<u8> {
    match c {
        Coloring::Auto => seq![97u8, 117u8, 116u8, 111u8],
        Coloring::Always => seq![97u8, 108u8, 119u8, 97u8, 121u8, 115u8],
        Coloring::Never => seq![110u8, 101u8, 118u8, 101u8, 114u8],
    }
}

/// The bytes of `--color`.
pub open spec fn color_flag() -> Seq<u8> {
    seq![45u8, 45u8, 99u8, 111u8, 108u8, 111u8, 114u8]
}

impl Coloring {
    pub fn as_bytes(&self) -> (r: Vec<u8>)
        ensures
            r@ == coloring_bytes(*self),
    {
        let mut v: Vec<u8> = Vec::new();
        match self {
            Coloring::Auto => {
                v.push(97u8);
                v.push(117u8);
                v.push(116u8);
                v.push(111u8);
                proof {
                    assert(v@ =~= coloring_bytes(*self));
                }
            },
            Coloring::Always => {
                v.push(97u8);
                v.push(108u8);
                v.push(119u8);
                v.push(97u8);
                v.push(121u8);
                v.push(115u8);
                proof {
                    assert(v@ =~= coloring_bytes(*self));
                }
            },
            Coloring::Never => {
                v.push(110u8);
                v.push(101u8);
                v.push(118u8);
                v.push(101u8);
                v.push(114u8);
                proof {
                    assert(v@ =~= coloring_bytes(*self));
                }
            },
        }
        v
    }
}

pub fn make_color_flag() -> (r: Vec<u8>)
    ensures
        r@ == color_flag(),
{
    let mut v: Vec<u8> = Vec::new();
    v.push(45u8);
    v.push(45u8);
    v.push(99u8);
    v.push(111u8);
    v.push(108u8);
    v.push(111u8);
    v.push(114u8);
    proof {
        assert(v@ =~= color_flag());
    }
    v
}

#[verifier::ext_equal]
pub struct ArgsView {
    pub subcommand: Option<Seq<u8>>,
    pub passthrough: Seq<Seq<u8>>,
    pub workspace: bool,
    pub package: Seq<Seq<u8>>,
    pub exclude: Seq<Seq<u8>>,
    pub no_dev_deps: bool,
    pub remove_dev_deps: bool,
    pub ignore_private: bool,
    pub color: Option<Coloring>,
}

pub struct Args {
    /// The wrapped tool's subcommand, if any.
    pub subcommand: Option<Vec<u8>>,
    /// Caller-supplied arguments handed through to every invocation.
    pub passthrough: Vec<Vec<u8>>,
    /// Run on every workspace package.
    pub workspace: bool,
    /// Explicit package names to run on.
    pub package: Vec<Vec<u8>>,
    /// Package names left out of a workspace-wide run.
    pub exclude: Vec<Vec<u8>>,
    /// Strip dev-dependency tables around each invocation, restoring
    /// the manifest afterward.
    pub no_dev_deps: bool,
    /// Strip dev-dependency tables and keep the manifests stripped.
    pub remove_dev_deps: bool,
    /// Skip private packages instead of running on them.
    pub ignore_private: bool,
    pub color: Option<Coloring>,
}

impl View for Args {
    type V = ArgsView;

    open spec fn view(&self) -> ArgsView {
        ArgsView {
            subcommand: view_of_opt(self.subcommand),
            passthrough: views_of(self.passthrough@),
            workspace: self.workspace,
            package: views_of(self.package@),
            exclude: views_of(self.exclude@),
            no_dev_deps: self.no_dev_deps,
            remove_dev_deps: self.remove_dev_deps,
            ignore_private: self.ignore_private,
            color: self.color,
        }
    }
}

/// Whether the run strips dev-dependency tables before invoking.
pub open spec fn suppresses_dev_deps(a: ArgsView) -> bool {
    a.no_dev_deps || a.remove_dev_deps
}

/// Whether a stripped manifest is written back afterward: suppression
/// is on and the persisting variant is off.
pub open spec fn restores_manifests(a: ArgsView) -> bool {
    a.no_dev_deps && !a.remove_dev_deps
}

} // verus!
