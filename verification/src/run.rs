//! The per-package execution and the whole-run orchestration.
//!
//! The library performs no I/O: the outcome of each package's
//! subprocess invocation (and of the manifest write before it) arrives
//! as an event, and the run's effect is returned as a report — the
//! command line composed for each package, every file write the run
//! asks for, in order, and the error that ended it, if any.  The run
//! is fail-fast: packages after the first failure are never processed;
//! skipped private packages never count as failures.

use crate::bytes::{copy_bytes, views_of};
use crate::cli::{
    coloring_bytes, color_flag, make_color_flag, restores_manifests, suppresses_dev_deps, Args,
    ArgsView,
};
use crate::manifest::{Manifest, ManifestView};
use crate::metadata::{Metadata, MetadataView};
use crate::package::{Kind, Package, PackageView, Progress};
use crate::process::{ProcessBuilder, ProcessBuilderView};
use crate::remove_dev_deps::remove_dev_deps_spec;
use crate::restore::{Restore, WriteOp, WriteOpView};
use crate::select::{
    package_views, packages_of, select_packages, selected_metas, selection_warnings, Selection,
    SelectionError,
};
use vstd::prelude::*;

verus! {

/// What the driver observed for one package: the manifest write
/// before the invocation failed, or the invocation itself failed or
/// succeeded.
#[derive(Clone, Copy, PartialEq, Eq, Structural, Debug)]
pub enum PackageEvent {
    WriteFailed,
    InvokeFailed,
    InvokeSucceeded,
}

/// A package's terminal state within one run.
#[derive(Clone, Copy, PartialEq, Eq, Structural, Debug)]
pub enum PackageStatus {
    Skipped,
    Ran,
    WriteFailed,
    InvokeFailed,
}

pub enum RunErrorView {
    UnmatchedPackageSpec(Seq<u8>),
    ManifestWriteFailed(Seq<u8>),
    InvocationFailed(Seq<u8>),
}

/// The error that ends a run: an explicit package name matching
/// nothing (before anything runs), a manifest write failure (with the
/// file's path), or a failed invocation (with the package's name).
pub enum RunError {
    UnmatchedPackageSpec(Vec<u8>),
    ManifestWriteFailed(Vec<u8>),
    InvocationFailed(Vec<u8>),
}

impl View for RunError {
    type V = RunErrorView;

    open spec fn view(&self) -> RunErrorView {
        match self {
            RunError::UnmatchedPackageSpec(s) => RunErrorView::UnmatchedPackageSpec(s@),
            RunError::ManifestWriteFailed(p) => RunErrorView::ManifestWriteFailed(p@),
            RunError::InvocationFailed(n) => RunErrorView::InvocationFailed(n@),
        }
    }
}

pub open spec fn error_view(e: Option<RunError>) -> Option<RunErrorView> {
    match e {
        Some(x) => Some(x@),
        None => None,
    }
}

#[verifier::ext_equal]
pub struct PackageReportView {
    pub name: Seq<u8>,
    pub status: PackageStatus,
    pub line: Option<ProcessBuilderView>,
    pub writes: Seq<WriteOpView>,
}

/// What happened to one package: its status, the command line
/// composed for it (absent when skipped), and every write of its
/// manifest file, in order.
pub struct PackageReport {
    pub name: Vec<u8>,
    pub status: PackageStatus,
    pub line: Option<ProcessBuilder>,
    pub writes: Vec<WriteOp>,
}

pub open spec fn write_views(s: Seq<WriteOp>) -> Seq<WriteOpView> {
    Seq::new(s.len(), |i: int| s[i]@)
}

impl View for PackageReport {
    type V = PackageReportView;

    open spec fn view(&self) -> PackageReportView {
        PackageReportView {
            name: self.name@,
            status: self.status,
            line: match self.line {
                Some(l) => Some(l@),
                None => None,
            },
            writes: write_views(self.writes@),
        }
    }
}

pub open spec fn report_views(s: Seq<PackageReport>) -> Seq<PackageReportView> {
    Seq::new(s.len(), |i: int| s[i]@)
}

/// The whole run: one report per processed package in order, the
/// selection warnings, the error that ended the run if any, and the
/// final progress counters.
pub struct RunReport {
    pub reports: Vec<PackageReport>,
    pub warnings: Vec<Vec<u8>>,
    pub error: Option<RunError>,
    pub progress: Progress,
}

/// The bytes of `--manifest-path`.
pub open spec fn manifest_path_flag() -> Seq<u8> {
    seq![45u8, 45u8, 109u8, 97u8, 110u8, 105u8, 102u8, 101u8, 115u8, 116u8, 45u8, 112u8, 97u8, 116u8, 104u8]
}

fn make_manifest_path_flag() -> (r: Vec<u8>)
    ensures
        r@ == manifest_path_flag(),
{
    let mut v: Vec<u8> = Vec::new();
    v.push(45u8);
    v.push(45u8);
    v.push(109u8);
    v.push(97u8);
    v.push(110u8);
    v.push(105u8);
    v.push(102u8);
    v.push(101u8);
    v.push(115u8);
    v.push(116u8);
    v.push(45u8);
    v.push(112u8);
    v.push(97u8);
    v.push(116u8);
    v.push(104u8);
    proof {
        assert(v@ =~= manifest_path_flag());
    }
    v
}

/// The base command line: the program, the subcommand if any, the
/// caller-supplied passthrough arguments, and the color option if
/// configured.
pub open spec fn base_line_spec(cargo: Seq<u8>, a: ArgsView) -> ProcessBuilderView {
    ProcessBuilderView {
        program: cargo,
        args: (match a.subcommand {
            Some(s) => seq![s],
            None => Seq::<Seq<u8>>::empty(),
        }) + a.passthrough + (match a.color {
            Some(c) => seq![color_flag(), coloring_bytes(c)],
            None => Seq::<Seq<u8>>::empty(),
        }),
    }
}

/// The command line composed for one package: the base line, the
/// package's feature arguments, and an explicit manifest-path
/// argument.
pub open spec fn composed_line(base: ProcessBuilderView, p: PackageView) -> ProcessBuilderView {
    ProcessBuilderView {
        program: base.program,
        args: base.args + p.feature_args + seq![manifest_path_flag(), p.manifest_path],
    }
}

/// Every write of a package's manifest during its processing: none
/// without suppression or for a skipped package; the stripped content
/// first, and — unless the suppression is the persisting variant —
/// the original content written back last, on success and failure
/// alike.
pub open spec fn package_writes(p: PackageView, a: ArgsView) -> Seq<WriteOpView> {
    if p.kind is SkipAsPrivate || !suppresses_dev_deps(a) {
        Seq::empty()
    } else {
        let mutated = WriteOpView {
            path: p.manifest_path,
            content: remove_dev_deps_spec(p.manifest.raw),
        };
        if restores_manifests(a) {
            seq![mutated, WriteOpView { path: p.manifest.path, content: p.manifest.raw }]
        } else {
            seq![mutated]
        }
    }
}

pub open spec fn package_status(p: PackageView, e: PackageEvent, a: ArgsView) -> PackageStatus {
    if p.kind is SkipAsPrivate {
        PackageStatus::Skipped
    } else if suppresses_dev_deps(a) && e is WriteFailed {
        PackageStatus::WriteFailed
    } else if e is InvokeFailed {
        PackageStatus::InvokeFailed
    } else {
        PackageStatus::Ran
    }
}

/// What one package's processing yields.
pub open spec fn package_step(
    p: PackageView,
    e: PackageEvent,
    a: ArgsView,
    base: ProcessBuilderView,
) -> PackageReportView {
    PackageReportView {
        name: p.name,
        status: package_status(p, e, a),
        line: if p.kind is SkipAsPrivate {
            None
        } else {
            Some(composed_line(base, p))
        },
        writes: package_writes(p, a),
    }
}

/// Whether this package's processing ends the run.
pub open spec fn step_fails(p: PackageView, e: PackageEvent, a: ArgsView) -> bool {
    !(p.kind is SkipAsPrivate) && ((suppresses_dev_deps(a) && e is WriteFailed)
        || e is InvokeFailed)
}

pub open spec fn step_error(p: PackageView, e: PackageEvent, a: ArgsView) -> RunErrorView {
    if suppresses_dev_deps(a) && e is WriteFailed {
        RunErrorView::ManifestWriteFailed(p.manifest_path)
    } else {
        RunErrorView::InvocationFailed(p.name)
    }
}

/// How many packages a fail-fast run over `sel[k..]` processes.
pub open spec fn run_length_from(
    sel: Seq<PackageView>,
    ev: Seq<PackageEvent>,
    a: ArgsView,
    k: int,
) -> int
    decreases sel.len() - k,
{
    if k < 0 || k >= sel.len() {
        0
    } else if step_fails(sel[k], ev[k], a) {
        1
    } else {
        1 + run_length_from(sel, ev, a, k + 1)
    }
}

/// The reports of a fail-fast run over `sel[k..]`.
pub open spec fn run_steps_from(
    sel: Seq<PackageView>,
    ev: Seq<PackageEvent>,
    a: ArgsView,
    base: ProcessBuilderView,
    k: int,
) -> Seq<PackageReportView>
    decreases sel.len() - k,
{
    if k < 0 || k >= sel.len() {
        Seq::empty()
    } else {
        let rep = package_step(sel[k], ev[k], a, base);
        if step_fails(sel[k], ev[k], a) {
            seq![rep]
        } else {
            seq![rep] + run_steps_from(sel, ev, a, base, k + 1)
        }
    }
}

/// The error of a fail-fast run over `sel[k..]`, if any.
pub open spec fn run_error_from(
    sel: Seq<PackageView>,
    ev: Seq<PackageEvent>,
    a: ArgsView,
    k: int,
) -> Option<RunErrorView>
    decreases sel.len() - k,
{
    if k < 0 || k >= sel.len() {
        None
    } else if step_fails(sel[k], ev[k], a) {
        Some(step_error(sel[k], ev[k], a))
    } else {
        run_error_from(sel, ev, a, k + 1)
    }
}

/// The reports of a whole run: empty when selection fails.
pub open spec fn run_reports_spec(
    a: ArgsView,
    cur: ManifestView,
    md: MetadataView,
    cargo: Seq<u8>,
    ev: Seq<PackageEvent>,
) -> Seq<PackageReportView> {
    match selected_metas(a, cur, md) {
        Err(_) => Seq::empty(),
        Ok(metas) => run_steps_from(packages_of(metas, a), ev, a, base_line_spec(cargo, a), 0),
    }
}

/// The error of a whole run: the first unmatched explicit package
/// name, or the first failing package's error.
pub open spec fn run_error_spec(
    a: ArgsView,
    cur: ManifestView,
    md: MetadataView,
    ev: Seq<PackageEvent>,
) -> Option<RunErrorView> {
    match selected_metas(a, cur, md) {
        Err(s) => Some(RunErrorView::UnmatchedPackageSpec(s)),
        Ok(metas) => run_error_from(packages_of(metas, a), ev, a, 0),
    }
}

/// The writes of one package's dev-dependency suppression, and its
/// status given the invocation outcome.  With suppression off, no
/// write happens.  With it on, the stripped content is written, and
/// the restore guard yields the write of the original content on
/// every path — explicit finalization on success, release otherwise.
fn no_dev_deps(args: &Args, package: &Package, restore: &Restore, outcome: PackageEvent) -> (r:
    (Vec<WriteOp>, PackageStatus))
    requires
        package@.wf(),
        restore.needs_restore == restores_manifests(args@),
        !(package@.kind is SkipAsPrivate),
        suppresses_dev_deps(args@) || !(outcome is WriteFailed),
    ensures
        write_views(r.0@) == package_writes(package@, args@),
        r.1 == package_status(package@, outcome, args@),
{
    let mut writes: Vec<WriteOp> = Vec::new();
    if args.no_dev_deps || args.remove_dev_deps {
        let new_content = package.manifest.remove_dev_deps();
        let mut handle = restore.set_manifest(&package.manifest);
        writes.push(
            WriteOp { path: copy_bytes(&package.manifest_path), content: new_content },
        );
        let status = match outcome {
            PackageEvent::WriteFailed => PackageStatus::WriteFailed,
            PackageEvent::InvokeFailed => PackageStatus::InvokeFailed,
            PackageEvent::InvokeSucceeded => PackageStatus::Ran,
        };
        let w = match outcome {
            PackageEvent::InvokeSucceeded => handle.done(),
            _ => handle.release(),
        };
        if let Some(op) = w {
            writes.push(op);
        }
        proof {
            assert(write_views(writes@) =~= package_writes(package@, args@));
        }
        (writes, status)
    } else {
        let status = if outcome == PackageEvent::InvokeFailed {
            PackageStatus::InvokeFailed
        } else {
            PackageStatus::Ran
        };
        proof {
            assert(write_views(writes@) =~= package_writes(package@, args@));
        }
        (writes, status)
    }
}

/// One package's processing: a skipped private package is reported
/// and nothing more; otherwise the command line is composed from the
/// base line, the package's feature arguments and its manifest path,
/// the manifest is stripped and restored around the invocation when
/// suppression asks for it, and the outcome decides the status.
/// The progress counter advances by one, skipped packages included.
pub fn exec_on_package(
    args: &Args,
    package: &Package,
    line: &ProcessBuilder,
    restore: &Restore,
    progress: &mut Progress,
    outcome: PackageEvent,
) -> (r: PackageReport)
    requires
        package@.wf(),
        restore.needs_restore == restores_manifests(args@),
        suppresses_dev_deps(args@) || !(outcome is WriteFailed),
        old(progress).count < old(progress).total,
    ensures
        r@ == package_step(package@, outcome, args@, line@),
        final(progress).count == old(progress).count + 1,
        final(progress).total == old(progress).total,
{
    progress.tick();
    match package.kind {
        Kind::SkipAsPrivate => {
            let r = PackageReport {
                name: copy_bytes(&package.name),
                status: PackageStatus::Skipped,
                line: None,
                writes: Vec::new(),
            };
            proof {
                assert(write_views(r.writes@) =~= package_writes(package@, args@));
                assert(r@ =~= package_step(package@, outcome, args@, line@));
            }
            r
        },
        Kind::Normal => {
            let mut composed = line.duplicate();
            composed.append_args(&package.feature_args);
            composed.arg(make_manifest_path_flag());
            composed.arg(copy_bytes(&package.manifest_path));
            proof {
                assert(composed@.args =~= composed_line(line@, package@).args);
                assert(composed@ =~= composed_line(line@, package@));
            }
            let (writes, status) = no_dev_deps(args, package, restore, outcome);
            let r = PackageReport {
                name: copy_bytes(&package.name),
                status,
                line: Some(composed),
                writes,
            };
            proof {
                assert(r@ =~= package_step(package@, outcome, args@, line@));
            }
            r
        },
    }
}

/// Appending one report keeps the report views aligned.
proof fn lemma_report_views_push(
    r_old: Seq<PackageReport>,
    r_new: Seq<PackageReport>,
    expected: Seq<PackageReportView>,
    v: PackageReportView,
)
    requires
        report_views(r_old) == expected,
        r_new.len() == r_old.len() + 1,
        forall|k: int| 0 <= k < r_old.len() ==> r_new[k] == r_old[k],
        r_new[r_new.len() - 1]@ == v,
    ensures
        report_views(r_new) == expected.push(v),
{
    assert(report_views(r_old).len() == r_old.len());
    assert forall|k: int|
        0 <= k < r_new.len() implies report_views(r_new)[k] == expected.push(v)[k] by {
        if k < r_old.len() {
            assert(report_views(r_old)[k] == expected[k]);
        }
    }
    assert(report_views(r_new) =~= expected.push(v));
}

/// The whole run.  Selection decides the package set (or fails before
/// anything runs); each selected package is processed in order, the
/// event at its index standing for the outside outcome of its
/// invocation; the first failure ends the run.  The report holds what
/// a driver must do and in what order, and what the run decided.
pub fn exec_on_workspace(
    args: &Args,
    current_manifest: &Manifest,
    metadata: &Metadata,
    cargo: &Vec<u8>,
    outcomes: &Vec<PackageEvent>,
) -> (r: RunReport)
    requires
        args@.subcommand is Some || args@.remove_dev_deps,
        outcomes@.len() >= metadata@.packages.len(),
        suppresses_dev_deps(args@) || forall|i: int|
            0 <= i < outcomes@.len() ==> !(outcomes@[i] is WriteFailed),
    ensures
        report_views(r.reports@) == run_reports_spec(
            args@,
            current_manifest@,
            metadata@,
            cargo@,
            outcomes@,
        ),
        error_view(r.error) == run_error_spec(args@, current_manifest@, metadata@, outcomes@),
        views_of(r.warnings@) == selection_warnings(args@, metadata@),
        r.progress.count == r.reports@.len(),
        selected_metas(args@, current_manifest@, metadata@) matches Ok(metas) ==> r.progress.total
            == metas.len(),
        selected_metas(args@, current_manifest@, metadata@) is Err ==> r.progress.total == 0,
{
    let ghost a = args@;
    let restore = Restore::new(args);
    match select_packages(args, current_manifest, metadata) {
        Err(SelectionError::UnmatchedPackageSpec(s)) => {
            let r = RunReport {
                reports: Vec::new(),
                warnings: Vec::new(),
                error: Some(RunError::UnmatchedPackageSpec(s)),
                progress: Progress::new(0),
            };
            proof {
                assert(report_views(r.reports@) =~= run_reports_spec(
                    a,
                    current_manifest@,
                    metadata@,
                    cargo@,
                    outcomes@,
                ));
                assert(!a.workspace);
                assert(views_of(r.warnings@) =~= selection_warnings(a, metadata@));
            }
            r
        },
        Ok(Selection { packages, warnings, mut progress }) => {
            let ghost metas = selected_metas(a, current_manifest@, metadata@)->Ok_0;
            let ghost selv = package_views(packages@);
            proof {
                crate::select::lemma_selected_le(a, current_manifest@, metadata@);
                assert(package_views(packages@).len() == packages@.len());
                assert(packages_of(metas, a).len() == metas.len());
                assert(packages@.len() <= outcomes@.len());
            }
            let mut base = ProcessBuilder::new(copy_bytes(cargo));
            match &args.subcommand {
                Some(sub) => {
                    base.arg(copy_bytes(sub));
                },
                None => {},
            }
            base.append_args(&args.passthrough);
            match &args.color {
                Some(color) => {
                    base.arg(make_color_flag());
                    base.arg(color.as_bytes());
                },
                None => {},
            }
            let ghost basev = base_line_spec(cargo@, a);
            proof {
                assert(base@.args =~= basev.args);
                assert(base@ =~= basev);
            }
            let mut reports: Vec<PackageReport> = Vec::new();
            let mut error: Option<RunError> = None;
            let mut idx: usize = 0;
            proof {
                assert(report_views(reports@) + run_steps_from(selv, outcomes@, a, basev, 0)
                    =~= run_steps_from(selv, outcomes@, a, basev, 0));
            }
            while idx < packages.len() && error.is_none()
                invariant
                    idx <= packages@.len(),
                    a == args@,
                    selv == package_views(packages@),
                    selv.len() == packages@.len(),
                    packages@.len() <= outcomes@.len(),
                    base@ == basev,
                    restore.needs_restore == restores_manifests(a),
                    suppresses_dev_deps(a) || forall|i: int|
                        0 <= i < outcomes@.len() ==> !(outcomes@[i] is WriteFailed),
                    forall|i: int| 0 <= i < packages@.len() ==> (#[trigger] packages@[i]@).wf(),
                    progress.count == idx,
                    progress.total == packages@.len(),
                    reports@.len() == idx,
                    error is None ==> forall|i: int|
                        0 <= i < idx ==> !step_fails(selv[i], outcomes@[i], a),
                    error is None ==> report_views(reports@) + run_steps_from(
                        selv,
                        outcomes@,
                        a,
                        basev,
                        idx as int,
                    ) == run_steps_from(selv, outcomes@, a, basev, 0),
                    error is None ==> run_error_from(selv, outcomes@, a, idx as int)
                        == run_error_from(selv, outcomes@, a, 0),
                    error is Some ==> report_views(reports@) == run_steps_from(
                        selv,
                        outcomes@,
                        a,
                        basev,
                        0,
                    ),
                    error is Some ==> error_view(error) == run_error_from(selv, outcomes@, a, 0),
                decreases packages@.len() - idx,
            {
                let ghost j0 = idx as int;
                let ghost reports_old = reports@;
                let p = &packages[idx];
                proof {
                    assert(p@ == selv[j0]);
                }
                let outcome = outcomes[idx];
                let rep = exec_on_package(args, p, &base, &restore, &mut progress, outcome);
                let failed_now = rep.status == PackageStatus::WriteFailed || rep.status
                    == PackageStatus::InvokeFailed;
                proof {
                    assert(rep@ == package_step(selv[j0], outcomes@[j0], a, basev));
                    assert(failed_now == step_fails(selv[j0], outcomes@[j0], a));
                }
                if failed_now {
                    let e = if rep.status == PackageStatus::WriteFailed {
                        RunError::ManifestWriteFailed(copy_bytes(&p.manifest_path))
                    } else {
                        RunError::InvocationFailed(copy_bytes(&p.name))
                    };
                    proof {
                        assert(e@ == step_error(selv[j0], outcomes@[j0], a));
                    }
                    error = Some(e);
                }
                reports.push(rep);
                idx = idx + 1;
                proof {
                    let ghost repv = package_step(selv[j0], outcomes@[j0], a, basev);
                    lemma_report_views_push(
                        reports_old,
                        reports@,
                        report_views(reports_old),
                        repv,
                    );
                    if failed_now {
                        assert(run_steps_from(selv, outcomes@, a, basev, j0) =~= seq![repv]);
                        assert(report_views(reports_old) + seq![repv] =~= report_views(
                            reports_old,
                        ).push(repv));
                        assert(run_error_from(selv, outcomes@, a, j0) == Some(
                            step_error(selv[j0], outcomes@[j0], a),
                        ));
                    } else {
                        assert(run_steps_from(selv, outcomes@, a, basev, j0) == seq![repv]
                            + run_steps_from(selv, outcomes@, a, basev, j0 + 1));
                        assert(report_views(reports_old).push(repv) + run_steps_from(
                            selv,
                            outcomes@,
                            a,
                            basev,
                            j0 + 1,
                        ) =~= report_views(reports_old) + (seq![repv] + run_steps_from(
                            selv,
                            outcomes@,
                            a,
                            basev,
                            j0 + 1,
                        )));
                        assert(run_error_from(selv, outcomes@, a, j0) == run_error_from(
                            selv,
                            outcomes@,
                            a,
                            j0 + 1,
                        ));
                    }
                }
            }
            proof {
                if error is None {
                    assert(idx == packages@.len());
                    assert(run_steps_from(selv, outcomes@, a, basev, idx as int)
                        =~= Seq::<PackageReportView>::empty());
                    assert(report_views(reports@) + Seq::<PackageReportView>::empty()
                        =~= report_views(reports@));
                    assert(run_error_from(selv, outcomes@, a, idx as int) is None);
                }
                assert(selv == packages_of(metas, a));
            }
            RunReport { reports, warnings, error, progress }
        },
    }
}


proof fn lemma_run_steps_index(
    sel: Seq<PackageView>,
    ev: Seq<PackageEvent>,
    a: ArgsView,
    base: ProcessBuilderView,
    k: int,
)
    requires
        0 <= k <= sel.len(),
    ensures
        0 <= run_length_from(sel, ev, a, k) <= sel.len() - k,
        run_steps_from(sel, ev, a, base, k).len() == run_length_from(sel, ev, a, k),
        forall|i: int|
            0 <= i < run_length_from(sel, ev, a, k) ==> run_steps_from(sel, ev, a, base, k)[i]
                == package_step(sel[k + i], ev[k + i], a, base),
    decreases sel.len() - k,
{
    if k < sel.len() && !step_fails(sel[k], ev[k], a) {
        lemma_run_steps_index(sel, ev, a, base, k + 1);
    }
}

/// With dev-dependency suppression set and the persisting variant
/// off, every processed package's manifest file ends its processing
/// with its original bytes: the last write a report holds for it, if
/// it holds any, reinstates the content exactly — whether its own
/// invocation succeeded or failed, and wherever in the run the
/// processing stopped.
pub proof fn lemma_suppression_restores_manifests(
    sel: Seq<PackageView>,
    ev: Seq<PackageEvent>,
    a: ArgsView,
    base: ProcessBuilderView,
)
    requires
        restores_manifests(a),
    ensures
        forall|i: int|
            0 <= i < run_steps_from(sel, ev, a, base, 0).len() ==> {
                let rep = #[trigger] run_steps_from(sel, ev, a, base, 0)[i];
                rep.writes.len() > 0 ==> rep.writes.last() == (WriteOpView {
                    path: sel[i].manifest.path,
                    content: sel[i].manifest.raw,
                })
            },
{
    lemma_run_steps_index(sel, ev, a, base, 0);
    assert forall|i: int| 0 <= i < run_steps_from(sel, ev, a, base, 0).len() implies {
        let rep = #[trigger] run_steps_from(sel, ev, a, base, 0)[i];
        rep.writes.len() > 0 ==> rep.writes.last() == (WriteOpView {
            path: sel[i].manifest.path,
            content: sel[i].manifest.raw,
        })
    } by {
        assert(run_steps_from(sel, ev, a, base, 0)[i] == package_step(sel[i], ev[i], a, base));
    }
}

/// The run is fail-fast: exactly the packages up to and including the
/// first failing one are processed; everything before it succeeded or
/// was skipped; the packages after it are never touched; and the run
/// reports an error exactly when some processed package failed.
pub proof fn lemma_fail_fast(
    sel: Seq<PackageView>,
    ev: Seq<PackageEvent>,
    a: ArgsView,
    base: ProcessBuilderView,
)
    ensures
        run_steps_from(sel, ev, a, base, 0).len() == run_length_from(sel, ev, a, 0),
        0 <= run_length_from(sel, ev, a, 0) <= sel.len(),
        forall|i: int|
            0 <= i < run_length_from(sel, ev, a, 0) - 1 ==> !step_fails(sel[i], ev[i], a),
        run_length_from(sel, ev, a, 0) < sel.len() ==> step_fails(
            sel[run_length_from(sel, ev, a, 0) - 1],
            ev[run_length_from(sel, ev, a, 0) - 1],
            a,
        ),
        (run_error_from(sel, ev, a, 0) is Some) == (run_length_from(sel, ev, a, 0) > 0
            && step_fails(
            sel[run_length_from(sel, ev, a, 0) - 1],
            ev[run_length_from(sel, ev, a, 0) - 1],
            a,
        )),
{
    lemma_fail_fast_from(sel, ev, a, base, 0);
}

proof fn lemma_fail_fast_from(
    sel: Seq<PackageView>,
    ev: Seq<PackageEvent>,
    a: ArgsView,
    base: ProcessBuilderView,
    k: int,
)
    requires
        0 <= k <= sel.len(),
    ensures
        run_steps_from(sel, ev, a, base, k).len() == run_length_from(sel, ev, a, k),
        0 <= run_length_from(sel, ev, a, k) <= sel.len() - k,
        forall|i: int|
            k <= i < k + run_length_from(sel, ev, a, k) - 1 ==> !step_fails(sel[i], ev[i], a),
        k + run_length_from(sel, ev, a, k) < sel.len() ==> run_length_from(sel, ev, a, k) > 0
            && step_fails(
            sel[k + run_length_from(sel, ev, a, k) - 1],
            ev[k + run_length_from(sel, ev, a, k) - 1],
            a,
        ),
        (run_error_from(sel, ev, a, k) is Some) == (run_length_from(sel, ev, a, k) > 0
            && step_fails(
            sel[k + run_length_from(sel, ev, a, k) - 1],
            ev[k + run_length_from(sel, ev, a, k) - 1],
            a,
        )),
    decreases sel.len() - k,
{
    if k < sel.len() && !step_fails(sel[k], ev[k], a) {
        lemma_fail_fast_from(sel, ev, a, base, k + 1);
    }
}

/// A package marked SkipAsPrivate is reported as skipped, no command
/// line is composed for it, its manifest is never written, and its
/// presence never fails or ends the run.
pub proof fn lemma_skip_private(
    p: PackageView,
    e: PackageEvent,
    a: ArgsView,
    base: ProcessBuilderView,
)
    requires
        p.kind is SkipAsPrivate,
    ensures
        package_step(p, e, a, base).status is Skipped,
        package_step(p, e, a, base).line is None,
        package_step(p, e, a, base).writes == Seq::<WriteOpView>::empty(),
        !step_fails(p, e, a),
{
}

/// An explicit package list holding a name that matches no workspace
/// package ends the run before anything is processed: no report, and
/// the error names the first unmatched spec.
pub proof fn lemma_unmatched_package_aborts(
    a: ArgsView,
    cur: ManifestView,
    md: MetadataView,
    cargo: Seq<u8>,
    ev: Seq<PackageEvent>,
)
    requires
        !a.workspace,
        a.package.len() > 0,
        crate::select::first_unmatched(a.package, md.packages) is Some,
    ensures
        run_reports_spec(a, cur, md, cargo, ev) == Seq::<PackageReportView>::empty(),
        run_error_spec(a, cur, md, ev) == Some(
            RunErrorView::UnmatchedPackageSpec(
                crate::select::first_unmatched(a.package, md.packages).unwrap(),
            ),
        ),
{
}

} // verus!
