//! Package selection: which workspace packages receive an invocation.
//!
//! The selected set follows the run configuration, in workspace
//! declaration order, never reordered:
//! - workspace-wide: every package whose name is not excluded; an
//!   exclude name matching no package yields a warning, not an error;
//! - an explicit package list: every listed name must match a
//!   workspace package, or selection fails naming the first unmatched
//!   one, and nothing runs;
//! - otherwise, a virtual current manifest selects every package;
//! - otherwise, the single package matching the current manifest's
//!   package name (possibly none).

use crate::bytes::{bytes_eq, copy_bytes, views_of};
use crate::cli::{Args, ArgsView};
use crate::manifest::{Manifest, ManifestView};
use crate::metadata::{MetaPackageView, Metadata, MetadataView};
use crate::package::{package_of, Package, PackageView, Progress};
use vstd::prelude::*;

verus! {

/// Whether `n` occurs among `names`.
pub open spec fn name_listed(names: Seq<Seq<u8>>, n: Seq<u8>) -> bool {
    exists|i: int| 0 <= i < names.len() && names[i] == n
}

/// Whether some package among `pkgs` is named `n`.
pub open spec fn workspace_has(pkgs: Seq<MetaPackageView>, n: Seq<u8>) -> bool {
    exists|i: int| 0 <= i < pkgs.len() && pkgs[i].name == n
}

/// The packages whose name is not excluded, in order.
pub open spec fn filter_not_excluded(pkgs: Seq<MetaPackageView>, excl: Seq<Seq<u8>>) -> Seq<
    MetaPackageView,
>
    decreases pkgs.len(),
{
    if pkgs.len() == 0 {
        Seq::empty()
    } else {
        let init = filter_not_excluded(pkgs.drop_last(), excl);
        if name_listed(excl, pkgs.last().name) {
            init
        } else {
            init.push(pkgs.last())
        }
    }
}

/// The packages whose name is listed, in order.
pub open spec fn filter_listed(pkgs: Seq<MetaPackageView>, names: Seq<Seq<u8>>) -> Seq<
    MetaPackageView,
>
    decreases pkgs.len(),
{
    if pkgs.len() == 0 {
        Seq::empty()
    } else {
        let init = filter_listed(pkgs.drop_last(), names);
        if name_listed(names, pkgs.last().name) {
            init.push(pkgs.last())
        } else {
            init
        }
    }
}

/// The first listed name that matches no workspace package.
pub open spec fn first_unmatched(names: Seq<Seq<u8>>, pkgs: Seq<MetaPackageView>) -> Option<
    Seq<u8>,
>
    decreases names.len(),
{
    if names.len() == 0 {
        None
    } else if !workspace_has(pkgs, names.first()) {
        Some(names.first())
    } else {
        first_unmatched(names.drop_first(), pkgs)
    }
}

/// The first package named `n`, if any.
pub open spec fn first_named(pkgs: Seq<MetaPackageView>, n: Seq<u8>) -> Option<MetaPackageView>
    decreases pkgs.len(),
{
    if pkgs.len() == 0 {
        None
    } else if pkgs.first().name == n {
        Some(pkgs.first())
    } else {
        first_named(pkgs.drop_first(), n)
    }
}

/// The exclude names that match no workspace package, in order: each
/// yields a warning.
pub open spec fn unknown_excludes(excl: Seq<Seq<u8>>, pkgs: Seq<MetaPackageView>) -> Seq<Seq<u8>>
    decreases excl.len(),
{
    if excl.len() == 0 {
        Seq::empty()
    } else {
        let init = unknown_excludes(excl.drop_last(), pkgs);
        if workspace_has(pkgs, excl.last()) {
            init
        } else {
            init.push(excl.last())
        }
    }
}

/// The selected workspace entries, or the first unmatched explicit
/// package name.
pub open spec fn selected_metas(a: ArgsView, cur: ManifestView, md: MetadataView) -> Result<
    Seq<MetaPackageView>,
    Seq<u8>,
> {
    if a.workspace {
        Ok(filter_not_excluded(md.packages, a.exclude))
    } else if a.package.len() > 0 {
        match first_unmatched(a.package, md.packages) {
            Some(s) => Err(s),
            None => Ok(filter_listed(md.packages, a.package)),
        }
    } else if cur.package_name is None {
        Ok(md.packages)
    } else {
        match first_named(md.packages, cur.package_name.unwrap()) {
            Some(p) => Ok(seq![p]),
            None => Ok(Seq::empty()),
        }
    }
}

/// The warnings a selection emits: one per unknown exclude name, on a
/// workspace-wide run only.
pub open spec fn selection_warnings(a: ArgsView, md: MetadataView) -> Seq<Seq<u8>> {
    if a.workspace {
        unknown_excludes(a.exclude, md.packages)
    } else {
        Seq::empty()
    }
}

/// The Package set built from selected entries.
pub open spec fn packages_of(metas: Seq<MetaPackageView>, a: ArgsView) -> Seq<PackageView> {
    Seq::new(metas.len(), |i: int| package_of(metas[i], a))
}

/// The views of a vector of packages.
pub open spec fn package_views(s: Seq<Package>) -> Seq<PackageView> {
    Seq::new(s.len(), |i: int| s[i]@)
}

pub enum SelectionError {
    UnmatchedPackageSpec(Vec<u8>),
}

/// A selected run: the packages in order, the warnings, and the
/// progress counters initialized to the set's length.
pub struct Selection {
    pub packages: Vec<Package>,
    pub warnings: Vec<Vec<u8>>,
    pub progress: Progress,
}

fn name_listed_exec(names: &Vec<Vec<u8>>, n: &Vec<u8>) -> (r: bool)
    ensures
        r == name_listed(views_of(names@), n@),
{
    let mut i: usize = 0;
    while i < names.len()
        invariant
            i <= names@.len(),
            forall|k: int| 0 <= k < i ==> names@[k]@ != n@,
        decreases names@.len() - i,
    {
        if bytes_eq(&names[i], n) {
            proof {
                assert(views_of(names@)[i as int] == n@);
            }
            return true;
        }
        i = i + 1;
    }
    proof {
        assert forall|k: int| 0 <= k < views_of(names@).len() implies views_of(names@)[k]
            != n@ by {
            assert(views_of(names@)[k] == names@[k]@);
        }
    }
    false
}

fn workspace_has_exec(metadata: &Metadata, n: &Vec<u8>) -> (r: bool)
    ensures
        r == workspace_has(metadata@.packages, n@),
{
    let mut i: usize = 0;
    while i < metadata.packages.len()
        invariant
            i <= metadata.packages@.len(),
            forall|k: int| 0 <= k < i ==> metadata.packages@[k]@.name != n@,
        decreases metadata.packages@.len() - i,
    {
        if bytes_eq(&metadata.packages[i].name, n) {
            proof {
                assert(metadata@.packages[i as int].name == n@);
            }
            return true;
        }
        i = i + 1;
    }
    proof {
        assert forall|k: int| 0 <= k < metadata@.packages.len() implies metadata@.packages[k].name
            != n@ by {
            assert(metadata@.packages[k] == metadata.packages@[k]@);
        }
    }
    false
}

proof fn lemma_first_unmatched_at(names: Seq<Seq<u8>>, pkgs: Seq<MetaPackageView>, i: int)
    requires
        0 <= i <= names.len(),
        forall|k: int| 0 <= k < i ==> workspace_has(pkgs, names[k]),
        i < names.len() ==> !workspace_has(pkgs, names[i]),
    ensures
        first_unmatched(names, pkgs) == if i < names.len() {
            Some(names[i])
        } else {
            None::<Seq<u8>>
        },
    decreases names.len(),
{
    if names.len() == 0 {
    } else if i == 0 {
    } else {
        assert(workspace_has(pkgs, names.first()));
        assert forall|k: int| 0 <= k < i - 1 implies workspace_has(
            pkgs,
            names.drop_first()[k],
        ) by {
            assert(names.drop_first()[k] == names[k + 1]);
        }
        lemma_first_unmatched_at(names.drop_first(), pkgs, i - 1);
    }
}

proof fn lemma_first_named_at(pkgs: Seq<MetaPackageView>, n: Seq<u8>, i: int)
    requires
        0 <= i <= pkgs.len(),
        forall|k: int| 0 <= k < i ==> pkgs[k].name != n,
        i < pkgs.len() ==> pkgs[i].name == n,
    ensures
        first_named(pkgs, n) == if i < pkgs.len() {
            Some(pkgs[i])
        } else {
            None::<MetaPackageView>
        },
    decreases pkgs.len(),
{
    if pkgs.len() == 0 {
    } else if i == 0 {
    } else {
        assert forall|k: int| 0 <= k < i - 1 implies pkgs.drop_first()[k].name != n by {
            assert(pkgs.drop_first()[k] == pkgs[k + 1]);
        }
        lemma_first_named_at(pkgs.drop_first(), n, i - 1);
    }
}

/// Every selection is no larger than the workspace package list.
pub proof fn lemma_selected_le(a: ArgsView, cur: ManifestView, md: MetadataView)
    ensures
        selected_metas(a, cur, md) matches Ok(metas) ==> metas.len() <= md.packages.len(),
{
    lemma_filter_not_excluded_le(md.packages, a.exclude);
    lemma_filter_listed_le(md.packages, a.package);
    if !a.workspace && a.package.len() == 0 && !(cur.package_name is None) {
        lemma_first_named_le(md.packages, cur.package_name.unwrap());
    }
}

proof fn lemma_filter_not_excluded_le(pkgs: Seq<MetaPackageView>, excl: Seq<Seq<u8>>)
    ensures
        filter_not_excluded(pkgs, excl).len() <= pkgs.len(),
    decreases pkgs.len(),
{
    if pkgs.len() > 0 {
        lemma_filter_not_excluded_le(pkgs.drop_last(), excl);
    }
}

proof fn lemma_filter_listed_le(pkgs: Seq<MetaPackageView>, names: Seq<Seq<u8>>)
    ensures
        filter_listed(pkgs, names).len() <= pkgs.len(),
    decreases pkgs.len(),
{
    if pkgs.len() > 0 {
        lemma_filter_listed_le(pkgs.drop_last(), names);
    }
}

proof fn lemma_first_named_le(pkgs: Seq<MetaPackageView>, n: Seq<u8>)
    ensures
        first_named(pkgs, n) is Some ==> pkgs.len() >= 1,
    decreases pkgs.len(),
{
    if pkgs.len() > 0 {
        lemma_first_named_le(pkgs.drop_first(), n);
    }
}

/// Appending one selected entry keeps the package views aligned with
/// the selected entries.
proof fn lemma_package_views_push(
    p_old: Seq<Package>,
    p_new: Seq<Package>,
    metas: Seq<MetaPackageView>,
    m: MetaPackageView,
    a: ArgsView,
)
    requires
        package_views(p_old) == packages_of(metas, a),
        p_new.len() == p_old.len() + 1,
        forall|k: int| 0 <= k < p_old.len() ==> p_new[k] == p_old[k],
        p_new[p_new.len() - 1]@ == package_of(m, a),
    ensures
        package_views(p_new) == packages_of(metas.push(m), a),
{
    assert(package_views(p_old).len() == p_old.len());
    assert(packages_of(metas, a).len() == metas.len());
    assert forall|k: int|
        0 <= k < p_new.len() implies package_views(p_new)[k] == packages_of(
        metas.push(m),
        a,
    )[k] by {
        if k < p_old.len() {
            assert(package_views(p_old)[k] == packages_of(metas, a)[k]);
        }
    }
    assert(package_views(p_new) =~= packages_of(metas.push(m), a));
}

/// The selected packages in workspace order, their Kind decided, the
/// warnings, and the progress counters; or the first unmatched
/// explicit package name, with which nothing is run.
pub fn select_packages(args: &Args, current_manifest: &Manifest, metadata: &Metadata) -> (r:
    Result<Selection, SelectionError>)
    ensures
        (r is Ok) == (selected_metas(args@, current_manifest@, metadata@) is Ok),
        r matches Ok(sel) ==> {
            &&& package_views(sel.packages@) == packages_of(
                selected_metas(args@, current_manifest@, metadata@)->Ok_0,
                args@,
            )
            &&& views_of(sel.warnings@) == selection_warnings(args@, metadata@)
            &&& sel.progress.count == 0
            &&& sel.progress.total == sel.packages@.len()
            &&& forall|i: int| 0 <= i < sel.packages@.len() ==> (#[trigger] sel.packages@[i]@).wf()
        },
        r matches Err(SelectionError::UnmatchedPackageSpec(s)) ==> selected_metas(
            args@,
            current_manifest@,
            metadata@,
        ) == Err::<Seq<MetaPackageView>, Seq<u8>>(s@),
{
    let ghost a = args@;
    let ghost mdp = metadata@.packages;
    proof {
        assert(a.package.len() == args.package@.len());
        assert(a.exclude.len() == args.exclude@.len());
        assert(mdp.len() == metadata.packages@.len());
    }
    let mut warnings: Vec<Vec<u8>> = Vec::new();
    let mut packages: Vec<Package> = Vec::new();
    if args.workspace {
        let mut i: usize = 0;
        proof {
            assert(views_of(warnings@) =~= unknown_excludes(a.exclude.take(0), mdp));
        }
        while i < args.exclude.len()
            invariant
                i <= args.exclude@.len(),
                a == args@,
                mdp == metadata@.packages,
                warnings@.len() <= i,
                views_of(warnings@) == unknown_excludes(a.exclude.take(i as int), mdp),
            decreases args.exclude@.len() - i,
        {
            let ghost w_old = warnings@;
            let known = workspace_has_exec(metadata, &args.exclude[i]);
            if !known {
                warnings.push(copy_bytes(&args.exclude[i]));
            }
            i = i + 1;
            proof {
                let t = a.exclude.take(i as int);
                assert(t.drop_last() =~= a.exclude.take(i - 1));
                assert(t.last() == a.exclude[i - 1]);
                assert(a.exclude[i - 1] == args.exclude@[i - 1]@);
                assert forall|k: int|
                    0 <= k < warnings@.len() implies views_of(warnings@)[k] == unknown_excludes(
                    t,
                    mdp,
                )[k] by {
                    if k < w_old.len() {
                        assert(views_of(w_old)[k] == unknown_excludes(a.exclude.take(i - 1), mdp)[k]);
                    }
                }
                assert(views_of(warnings@) =~= unknown_excludes(t, mdp));
            }
        }
        proof {
            assert(a.exclude.take(a.exclude.len() as int) =~= a.exclude);
        }
        let mut j: usize = 0;
        proof {
            assert(package_views(packages@) =~= packages_of(
                filter_not_excluded(mdp.take(0), a.exclude),
                a,
            ));
        }
        while j < metadata.packages.len()
            invariant
                j <= metadata.packages@.len(),
                a == args@,
                mdp == metadata@.packages,
                package_views(packages@) == packages_of(
                    filter_not_excluded(mdp.take(j as int), a.exclude),
                    a,
                ),
                forall|i: int| 0 <= i < packages@.len() ==> (#[trigger] packages@[i]@).wf(),
            decreases metadata.packages@.len() - j,
        {
            let ghost p_old = packages@;
            let ghost j0 = j as int;
            let excluded = name_listed_exec(&args.exclude, &metadata.packages[j].name);
            proof {
                assert(mdp[j0] == metadata.packages@[j0]@);
            }
            if !excluded {
                let pk = Package::from_metadata(&metadata.packages[j], args);
                proof {
                    assert(pk@ == package_of(mdp[j0], a));
                }
                packages.push(pk);
            }
            j = j + 1;
            proof {
                let t = mdp.take(j as int);
                assert(t.drop_last() =~= mdp.take(j0));
                assert(t.last() == mdp[j0]);
                let init = filter_not_excluded(mdp.take(j0), a.exclude);
                if excluded {
                    assert(filter_not_excluded(t, a.exclude) == init);
                } else {
                    assert(filter_not_excluded(t, a.exclude) == init.push(mdp[j0]));
                    lemma_package_views_push(p_old, packages@, init, mdp[j0], a);
                }
            }
        }
        proof {
            assert(mdp.take(mdp.len() as int) =~= mdp);
        }
        let total = packages.len();
        Ok(Selection { packages, warnings, progress: Progress::new(total) })
    } else if !args.package.is_empty() {
        let mut i: usize = 0;
        while i < args.package.len()
            invariant
                i <= args.package@.len(),
                a == args@,
                mdp == metadata@.packages,
                !a.workspace,
                a.package.len() == args.package@.len(),
                a.package.len() > 0,
                forall|k: int| 0 <= k < i ==> workspace_has(mdp, a.package[k]),
            decreases args.package@.len() - i,
        {
            let known = workspace_has_exec(metadata, &args.package[i]);
            proof {
                assert(a.package[i as int] == args.package@[i as int]@);
            }
            if !known {
                proof {
                    lemma_first_unmatched_at(a.package, mdp, i as int);
                }
                return Err(
                    SelectionError::UnmatchedPackageSpec(copy_bytes(&args.package[i])),
                );
            }
            i = i + 1;
        }
        proof {
            lemma_first_unmatched_at(a.package, mdp, a.package.len() as int);
        }
        let mut j: usize = 0;
        proof {
            assert(package_views(packages@) =~= packages_of(
                filter_listed(mdp.take(0), a.package),
                a,
            ));
        }
        while j < metadata.packages.len()
            invariant
                j <= metadata.packages@.len(),
                a == args@,
                mdp == metadata@.packages,
                package_views(packages@) == packages_of(
                    filter_listed(mdp.take(j as int), a.package),
                    a,
                ),
                forall|i: int| 0 <= i < packages@.len() ==> (#[trigger] packages@[i]@).wf(),
            decreases metadata.packages@.len() - j,
        {
            let ghost p_old = packages@;
            let ghost j0 = j as int;
            let listed = name_listed_exec(&args.package, &metadata.packages[j].name);
            proof {
                assert(mdp[j0] == metadata.packages@[j0]@);
            }
            if listed {
                let pk = Package::from_metadata(&metadata.packages[j], args);
                proof {
                    assert(pk@ == package_of(mdp[j0], a));
                }
                packages.push(pk);
            }
            j = j + 1;
            proof {
                let t = mdp.take(j as int);
                assert(t.drop_last() =~= mdp.take(j0));
                assert(t.last() == mdp[j0]);
                let init = filter_listed(mdp.take(j0), a.package);
                if listed {
                    assert(filter_listed(t, a.package) == init.push(mdp[j0]));
                    lemma_package_views_push(p_old, packages@, init, mdp[j0], a);
                } else {
                    assert(filter_listed(t, a.package) == init);
                }
            }
        }
        proof {
            assert(mdp.take(mdp.len() as int) =~= mdp);
            assert(views_of(warnings@) =~= selection_warnings(a, metadata@));
        }
        let total = packages.len();
        Ok(Selection { packages, warnings, progress: Progress::new(total) })
    } else if current_manifest.is_virtual() {
        let mut j: usize = 0;
        proof {
            assert(package_views(packages@) =~= packages_of(mdp.take(0), a));
        }
        while j < metadata.packages.len()
            invariant
                j <= metadata.packages@.len(),
                a == args@,
                mdp == metadata@.packages,
                package_views(packages@) == packages_of(mdp.take(j as int), a),
                forall|i: int| 0 <= i < packages@.len() ==> (#[trigger] packages@[i]@).wf(),
            decreases metadata.packages@.len() - j,
        {
            let ghost p_old = packages@;
            let ghost j0 = j as int;
            proof {
                assert(mdp[j0] == metadata.packages@[j0]@);
            }
            let pk = Package::from_metadata(&metadata.packages[j], args);
            proof {
                assert(pk@ == package_of(mdp[j0], a));
            }
            packages.push(pk);
            j = j + 1;
            proof {
                assert(mdp.take(j as int) =~= mdp.take(j0).push(mdp[j0]));
                lemma_package_views_push(p_old, packages@, mdp.take(j0), mdp[j0], a);
            }
        }
        proof {
            assert(mdp.take(mdp.len() as int) =~= mdp);
            assert(views_of(warnings@) =~= selection_warnings(a, metadata@));
        }
        let total = packages.len();
        Ok(Selection { packages, warnings, progress: Progress::new(total) })
    } else {
        let current_name = match &current_manifest.package_name {
            Some(n) => n,
            None => {
                // unreachable: the virtual case was taken above
                proof {
                    assert(false);
                }
                return Err(SelectionError::UnmatchedPackageSpec(Vec::new()));
            },
        };
        let ghost n = current_name@;
        proof {
            assert(current_manifest@.package_name == Some(n));
        }
        let mut j: usize = 0;
        let mut found = false;
        while j < metadata.packages.len() && !found
            invariant
                j <= metadata.packages@.len(),
                a == args@,
                mdp == metadata@.packages,
                current_manifest@.package_name == Some(n),
                n == current_name@,
                !found ==> forall|k: int| 0 <= k < j ==> (#[trigger] mdp[k]).name != n,
                !found ==> packages@.len() == 0,
                found ==> j >= 1 && j <= mdp.len() && mdp[j - 1].name == n && (forall|k: int|
                    0 <= k < j - 1 ==> (#[trigger] mdp[k]).name != n),
                found ==> package_views(packages@) == seq![package_of(mdp[j - 1], a)],
                forall|i: int| 0 <= i < packages@.len() ==> (#[trigger] packages@[i]@).wf(),
            decreases metadata.packages@.len() - j,
        {
            let ghost j0 = j as int;
            proof {
                assert(mdp[j0] == metadata.packages@[j0]@);
            }
            if bytes_eq(&metadata.packages[j].name, current_name) {
                let pk = Package::from_metadata(&metadata.packages[j], args);
                proof {
                    assert(pk@ == package_of(mdp[j0], a));
                }
                packages.push(pk);
                found = true;
                proof {
                    assert(mdp[j0].name == n);
                    assert(package_views(packages@) =~= seq![package_of(mdp[j0], a)]);
                }
            }
            j = j + 1;
        }
        proof {
            if found {
                lemma_first_named_at(mdp, n, j - 1);
                assert(first_named(mdp, n) == Some(mdp[j - 1]));
                assert(selected_metas(a, current_manifest@, metadata@) == Ok::<
                    Seq<MetaPackageView>,
                    Seq<u8>,
                >(seq![mdp[j - 1]]));
                assert(packages_of(seq![mdp[j - 1]], a) =~= seq![package_of(mdp[j - 1], a)]);
            } else {
                lemma_first_named_at(mdp, n, mdp.len() as int);
                assert(selected_metas(a, current_manifest@, metadata@) == Ok::<
                    Seq<MetaPackageView>,
                    Seq<u8>,
                >(Seq::empty()));
                assert(package_views(packages@) =~= packages_of(Seq::empty(), a));
            }
            assert(views_of(warnings@) =~= selection_warnings(a, metadata@));
        }
        let total = packages.len();
        Ok(Selection { packages, warnings, progress: Progress::new(total) })
    }
}


/// Excluding only names that match no workspace package selects every
/// package unchanged, and each such name yields a warning.
pub proof fn lemma_exclude_unknown_names_keeps_all(
    pkgs: Seq<MetaPackageView>,
    excl: Seq<Seq<u8>>,
)
    requires
        forall|i: int| 0 <= i < excl.len() ==> !workspace_has(pkgs, #[trigger] excl[i]),
    ensures
        filter_not_excluded(pkgs, excl) == pkgs,
        unknown_excludes(excl, pkgs) == excl,
{
    lemma_filter_unknown(pkgs, pkgs, excl);
    lemma_unknown_excludes_all(excl, pkgs);
}

proof fn lemma_filter_unknown(
    pkgs: Seq<MetaPackageView>,
    whole: Seq<MetaPackageView>,
    excl: Seq<Seq<u8>>,
)
    requires
        forall|i: int| 0 <= i < excl.len() ==> !workspace_has(whole, #[trigger] excl[i]),
        pkgs.len() <= whole.len(),
        forall|k: int| 0 <= k < pkgs.len() ==> pkgs[k] == whole[k],
    ensures
        filter_not_excluded(pkgs, excl) == pkgs,
    decreases pkgs.len(),
{
    if pkgs.len() > 0 {
        assert forall|k: int|
            0 <= k < pkgs.drop_last().len() implies pkgs.drop_last()[k] == whole[k] by {
            assert(pkgs.drop_last()[k] == pkgs[k]);
        }
        lemma_filter_unknown(pkgs.drop_last(), whole, excl);
        if name_listed(excl, pkgs.last().name) {
            let i = choose|i: int| 0 <= i < excl.len() && excl[i] == pkgs.last().name;
            assert(whole[pkgs.len() - 1] == pkgs.last());
            assert(workspace_has(whole, excl[i]));
            assert(false);
        }
        assert(filter_not_excluded(pkgs, excl) == pkgs.drop_last().push(pkgs.last()));
        assert(pkgs.drop_last().push(pkgs.last()) =~= pkgs);
    } else {
        assert(filter_not_excluded(pkgs, excl) =~= pkgs);
    }
}

proof fn lemma_unknown_excludes_all(excl: Seq<Seq<u8>>, pkgs: Seq<MetaPackageView>)
    requires
        forall|i: int| 0 <= i < excl.len() ==> !workspace_has(pkgs, #[trigger] excl[i]),
    ensures
        unknown_excludes(excl, pkgs) == excl,
    decreases excl.len(),
{
    if excl.len() > 0 {
        assert forall|i: int|
            0 <= i < excl.drop_last().len() implies !workspace_has(
            pkgs,
            #[trigger] excl.drop_last()[i],
        ) by {
            assert(excl.drop_last()[i] == excl[i]);
        }
        lemma_unknown_excludes_all(excl.drop_last(), pkgs);
        assert(!workspace_has(pkgs, excl.last()));
        assert(excl.drop_last().push(excl.last()) =~= excl);
    } else {
        assert(unknown_excludes(excl, pkgs) =~= excl);
    }
}

/// A virtual (package-less) current manifest, with no workspace flag
/// and no explicit package list, selects the full workspace package
/// list, in order.
pub proof fn lemma_virtual_manifest_selects_all(a: ArgsView, cur: ManifestView, md: MetadataView)
    requires
        !a.workspace,
        a.package.len() == 0,
        cur.package_name is None,
    ensures
        selected_metas(a, cur, md) == Ok::<Seq<MetaPackageView>, Seq<u8>>(md.packages),
{
}

} // verus!
