use cargo_hack::cli::{Args, Coloring};
use cargo_hack::manifest::Manifest;
use cargo_hack::metadata::{MetaPackage, Metadata};
use cargo_hack::package::Progress;
use cargo_hack::remove_dev_deps::remove_dev_deps;
use cargo_hack::restore::Restore;
use cargo_hack::run::{exec_on_workspace, PackageEvent, PackageStatus, RunError};
use cargo_hack::select::{select_packages, SelectionError};

const RAW_A: &str = "[package]\nname = \"a\"\n[dev-dependencies]\nx = \"1\"\n";
const RAW_B: &str = "[package]\nname = \"b\"\n[dev-dependencies]\ny = \"1\"\n";
const RAW_C: &str = "[package]\nname = \"c\"\n[dependencies]\nz = \"1\"\n";

fn base_args() -> Args {
    Args {
        subcommand: Some(b"check".to_vec()),
        passthrough: Vec::new(),
        workspace: false,
        package: Vec::new(),
        exclude: Vec::new(),
        no_dev_deps: false,
        remove_dev_deps: false,
        ignore_private: false,
        color: None,
    }
}

fn meta_package(name: &str, raw: &str, private: bool) -> MetaPackage {
    let path = format!("/ws/{}/Cargo.toml", name);
    MetaPackage {
        name: name.as_bytes().to_vec(),
        manifest_path: path.as_bytes().to_vec(),
        manifest_raw: raw.as_bytes().to_vec(),
        private,
        feature_args: Vec::new(),
    }
}

fn workspace_abc() -> Metadata {
    Metadata {
        packages: vec![
            meta_package("a", RAW_A, false),
            meta_package("b", RAW_B, false),
            meta_package("c", RAW_C, false),
        ],
        workspace_root: b"/ws".to_vec(),
    }
}

fn virtual_manifest() -> Manifest {
    Manifest::new(b"/ws/Cargo.toml".to_vec(), b"[workspace]\n".to_vec(), None)
}

fn ok_events(n: usize) -> Vec<PackageEvent> {
    vec![PackageEvent::InvokeSucceeded; n]
}

#[test]
fn virtual_manifest_selects_all_packages() {
    let args = base_args();
    let r = exec_on_workspace(&args, &virtual_manifest(), &workspace_abc(), &b"cargo".to_vec(), &ok_events(3));
    assert!(r.error.is_none());
    assert_eq!(r.reports.len(), 3);
    assert_eq!(r.reports[0].name, b"a".to_vec());
    assert_eq!(r.reports[1].name, b"b".to_vec());
    assert_eq!(r.reports[2].name, b"c".to_vec());
    assert_eq!(r.progress.count, 3);
    assert_eq!(r.progress.total, 3);
}

#[test]
fn workspace_exclude_removes_named_package() {
    let mut args = base_args();
    args.workspace = true;
    args.exclude = vec![b"b".to_vec()];
    let r = exec_on_workspace(&args, &virtual_manifest(), &workspace_abc(), &b"cargo".to_vec(), &ok_events(3));
    assert!(r.error.is_none());
    assert!(r.warnings.is_empty());
    assert_eq!(r.reports.len(), 2);
    assert_eq!(r.reports[0].name, b"a".to_vec());
    assert_eq!(r.reports[1].name, b"c".to_vec());
}

#[test]
fn excluding_unknown_name_keeps_all_and_warns() {
    let mut args = base_args();
    args.workspace = true;
    args.exclude = vec![b"zzz".to_vec()];
    let r = exec_on_workspace(&args, &virtual_manifest(), &workspace_abc(), &b"cargo".to_vec(), &ok_events(3));
    assert!(r.error.is_none());
    assert_eq!(r.reports.len(), 3);
    assert_eq!(r.warnings, vec![b"zzz".to_vec()]);
}

#[test]
fn unmatched_package_spec_runs_nothing() {
    let mut args = base_args();
    args.package = vec![b"nope".to_vec()];
    let r = exec_on_workspace(&args, &virtual_manifest(), &workspace_abc(), &b"cargo".to_vec(), &ok_events(3));
    assert!(r.reports.is_empty());
    assert_eq!(r.progress.total, 0);
    match r.error {
        Some(RunError::UnmatchedPackageSpec(s)) => assert_eq!(s, b"nope".to_vec()),
        _ => panic!("expected an unmatched package spec error"),
    }
}

#[test]
fn explicit_package_list_selects_named_packages() {
    let mut args = base_args();
    args.package = vec![b"c".to_vec(), b"a".to_vec()];
    let r = exec_on_workspace(&args, &virtual_manifest(), &workspace_abc(), &b"cargo".to_vec(), &ok_events(3));
    assert!(r.error.is_none());
    assert_eq!(r.reports.len(), 2);
    assert_eq!(r.reports[0].name, b"a".to_vec());
    assert_eq!(r.reports[1].name, b"c".to_vec());
}

#[test]
fn current_package_manifest_selects_single_package() {
    let args = base_args();
    let cur = Manifest::new(
        b"/ws/b/Cargo.toml".to_vec(),
        RAW_B.as_bytes().to_vec(),
        Some(b"b".to_vec()),
    );
    let r = exec_on_workspace(&args, &cur, &workspace_abc(), &b"cargo".to_vec(), &ok_events(3));
    assert!(r.error.is_none());
    assert_eq!(r.reports.len(), 1);
    assert_eq!(r.reports[0].name, b"b".to_vec());
}

#[test]
fn suppression_writes_stripped_then_restores_original() {
    let mut args = base_args();
    args.no_dev_deps = true;
    let r = exec_on_workspace(&args, &virtual_manifest(), &workspace_abc(), &b"cargo".to_vec(), &ok_events(3));
    assert!(r.error.is_none());
    for (i, raw) in [RAW_A, RAW_B, RAW_C].iter().enumerate() {
        let writes = &r.reports[i].writes;
        assert_eq!(writes.len(), 2);
        assert_eq!(writes[0].content, remove_dev_deps(&raw.as_bytes().to_vec()));
        assert_eq!(writes[1].content, raw.as_bytes().to_vec());
        assert_eq!(writes[0].path, writes[1].path);
    }
}

#[test]
fn persisting_variant_strips_without_restoring() {
    let mut args = base_args();
    args.subcommand = None;
    args.remove_dev_deps = true;
    let r = exec_on_workspace(&args, &virtual_manifest(), &workspace_abc(), &b"cargo".to_vec(), &ok_events(3));
    assert!(r.error.is_none());
    for (i, raw) in [RAW_A, RAW_B, RAW_C].iter().enumerate() {
        let writes = &r.reports[i].writes;
        assert_eq!(writes.len(), 1);
        assert_eq!(writes[0].content, remove_dev_deps(&raw.as_bytes().to_vec()));
    }
}

#[test]
fn no_suppression_never_writes_manifests() {
    let args = base_args();
    let r = exec_on_workspace(&args, &virtual_manifest(), &workspace_abc(), &b"cargo".to_vec(), &ok_events(3));
    assert!(r.error.is_none());
    for rep in &r.reports {
        assert!(rep.writes.is_empty());
    }
}

#[test]
fn second_failure_stops_third_package_first_already_restored() {
    let mut args = base_args();
    args.no_dev_deps = true;
    let events = vec![
        PackageEvent::InvokeSucceeded,
        PackageEvent::InvokeFailed,
        PackageEvent::InvokeSucceeded,
    ];
    let r = exec_on_workspace(&args, &virtual_manifest(), &workspace_abc(), &b"cargo".to_vec(), &events);
    assert_eq!(r.reports.len(), 2);
    assert_eq!(r.reports[0].status, PackageStatus::Ran);
    assert_eq!(r.reports[1].status, PackageStatus::InvokeFailed);
    match &r.error {
        Some(RunError::InvocationFailed(n)) => assert_eq!(n, &b"b".to_vec()),
        _ => panic!("expected an invocation failure"),
    }
    // the first package's manifest was already restored before the abort
    let first = &r.reports[0].writes;
    assert_eq!(first.last().unwrap().content, RAW_A.as_bytes().to_vec());
    // the failing package's manifest is restored too
    let second = &r.reports[1].writes;
    assert_eq!(second.last().unwrap().content, RAW_B.as_bytes().to_vec());
    assert_eq!(r.progress.count, 2);
    assert_eq!(r.progress.total, 3);
}

#[test]
fn manifest_write_failure_aborts_with_path_and_restores() {
    let mut args = base_args();
    args.no_dev_deps = true;
    let events = vec![
        PackageEvent::WriteFailed,
        PackageEvent::InvokeSucceeded,
        PackageEvent::InvokeSucceeded,
    ];
    let r = exec_on_workspace(&args, &virtual_manifest(), &workspace_abc(), &b"cargo".to_vec(), &events);
    assert_eq!(r.reports.len(), 1);
    assert_eq!(r.reports[0].status, PackageStatus::WriteFailed);
    match &r.error {
        Some(RunError::ManifestWriteFailed(p)) => assert_eq!(p, &b"/ws/a/Cargo.toml".to_vec()),
        _ => panic!("expected a manifest write failure"),
    }
    let writes = &r.reports[0].writes;
    assert_eq!(writes.last().unwrap().content, RAW_A.as_bytes().to_vec());
}

#[test]
fn private_package_is_skipped_not_failed() {
    let mut args = base_args();
    args.ignore_private = true;
    let metadata = Metadata {
        packages: vec![
            meta_package("a", RAW_A, false),
            meta_package("p", "[package]\nname = \"p\"\n", true),
            meta_package("c", RAW_C, false),
        ],
        workspace_root: b"/ws".to_vec(),
    };
    let r = exec_on_workspace(&args, &virtual_manifest(), &metadata, &b"cargo".to_vec(), &ok_events(3));
    assert!(r.error.is_none());
    assert_eq!(r.reports.len(), 3);
    assert_eq!(r.reports[1].status, PackageStatus::Skipped);
    assert!(r.reports[1].line.is_none());
    assert!(r.reports[1].writes.is_empty());
    assert_eq!(r.reports[2].status, PackageStatus::Ran);
    assert_eq!(r.progress.count, 3);
}

#[test]
fn private_package_runs_without_ignore_private() {
    let args = base_args();
    let metadata = Metadata {
        packages: vec![meta_package("p", "[package]\nname = \"p\"\n", true)],
        workspace_root: b"/ws".to_vec(),
    };
    let r = exec_on_workspace(&args, &virtual_manifest(), &metadata, &b"cargo".to_vec(), &ok_events(1));
    assert_eq!(r.reports[0].status, PackageStatus::Ran);
    assert!(r.reports[0].line.is_some());
}

#[test]
fn composed_line_holds_all_arguments_in_order() {
    let mut args = base_args();
    args.passthrough = vec![b"--verbose".to_vec()];
    args.color = Some(Coloring::Always);
    let mut p = meta_package("a", RAW_A, false);
    p.feature_args = vec![b"--features".to_vec(), b"f1".to_vec()];
    let metadata = Metadata { packages: vec![p], workspace_root: b"/ws".to_vec() };
    let r = exec_on_workspace(&args, &virtual_manifest(), &metadata, &b"cargo".to_vec(), &ok_events(1));
    let line = r.reports[0].line.as_ref().unwrap();
    assert_eq!(line.program, b"cargo".to_vec());
    assert_eq!(
        line.args,
        vec![
            b"check".to_vec(),
            b"--verbose".to_vec(),
            b"--color".to_vec(),
            b"always".to_vec(),
            b"--features".to_vec(),
            b"f1".to_vec(),
            b"--manifest-path".to_vec(),
            b"/ws/a/Cargo.toml".to_vec(),
        ]
    );
}

#[test]
fn coloring_values_spell_out() {
    assert_eq!(Coloring::Auto.as_bytes(), b"auto".to_vec());
    assert_eq!(Coloring::Always.as_bytes(), b"always".to_vec());
    assert_eq!(Coloring::Never.as_bytes(), b"never".to_vec());
}

#[test]
fn restore_handle_yields_write_exactly_once() {
    let mut args = base_args();
    args.no_dev_deps = true;
    let restore = Restore::new(&args);
    let m = Manifest::new(
        b"/ws/a/Cargo.toml".to_vec(),
        RAW_A.as_bytes().to_vec(),
        Some(b"a".to_vec()),
    );
    let mut handle = restore.set_manifest(&m);
    let w = handle.done().expect("the first finalization restores");
    assert_eq!(w.path, b"/ws/a/Cargo.toml".to_vec());
    assert_eq!(w.content, RAW_A.as_bytes().to_vec());
    assert!(handle.done().is_none());
    assert!(handle.release().is_none());
}

#[test]
fn restore_handle_release_restores_when_done_never_ran() {
    let mut args = base_args();
    args.no_dev_deps = true;
    let restore = Restore::new(&args);
    let m = Manifest::new(b"p".to_vec(), b"content".to_vec(), Some(b"a".to_vec()));
    let mut handle = restore.set_manifest(&m);
    let w = handle.release().expect("release restores if done never ran");
    assert_eq!(w.content, b"content".to_vec());
    assert!(handle.release().is_none());
}

#[test]
fn restore_disabled_for_persisting_variant() {
    let mut args = base_args();
    args.no_dev_deps = true;
    args.remove_dev_deps = true;
    let restore = Restore::new(&args);
    let m = Manifest::new(b"p".to_vec(), b"content".to_vec(), Some(b"a".to_vec()));
    let mut handle = restore.set_manifest(&m);
    assert!(handle.done().is_none());
}

#[test]
fn select_packages_reports_first_unmatched_spec() {
    let mut args = base_args();
    args.package = vec![b"a".to_vec(), b"nope".to_vec(), b"also-nope".to_vec()];
    let r = select_packages(&args, &virtual_manifest(), &workspace_abc());
    match r {
        Err(SelectionError::UnmatchedPackageSpec(s)) => assert_eq!(s, b"nope".to_vec()),
        Ok(_) => panic!("selection must fail"),
    }
}

#[test]
fn selection_initializes_progress() {
    let mut args = base_args();
    args.workspace = true;
    let sel = match select_packages(&args, &virtual_manifest(), &workspace_abc()) {
        Ok(s) => s,
        Err(_) => panic!("selection must succeed"),
    };
    assert_eq!(sel.progress.count, 0);
    assert_eq!(sel.progress.total, 3);
    assert_eq!(sel.packages.len(), 3);
}

#[test]
fn progress_ticks_by_one() {
    let mut p = Progress::new(2);
    assert_eq!(p.count, 0);
    p.tick();
    p.tick();
    assert_eq!(p.count, 2);
    assert_eq!(p.total, 2);
}

#[test]
fn empty_workspace_runs_nothing_successfully() {
    let mut args = base_args();
    args.workspace = true;
    let metadata = Metadata { packages: Vec::new(), workspace_root: b"/ws".to_vec() };
    let r = exec_on_workspace(&args, &virtual_manifest(), &metadata, &b"cargo".to_vec(), &Vec::new());
    assert!(r.error.is_none());
    assert!(r.reports.is_empty());
    assert_eq!(r.progress.total, 0);
}

#[test]
fn skipped_package_still_advances_progress() {
    let mut args = base_args();
    args.ignore_private = true;
    let metadata = Metadata {
        packages: vec![meta_package("p", "[package]\nname = \"p\"\n", true)],
        workspace_root: b"/ws".to_vec(),
    };
    let sel = match select_packages(&args, &virtual_manifest(), &metadata) {
        Ok(s) => s,
        Err(_) => panic!("selection must succeed"),
    };
    let restore = Restore::new(&args);
    let mut progress = sel.progress;
    let base = cargo_hack::process::ProcessBuilder::new(b"cargo".to_vec());
    let report = cargo_hack::run::exec_on_package(
        &args,
        &sel.packages[0],
        &base,
        &restore,
        &mut progress,
        PackageEvent::InvokeSucceeded,
    );
    assert_eq!(report.status, PackageStatus::Skipped);
    assert!(report.line.is_none());
    assert_eq!(progress.count, 1);
    assert_eq!(progress.total, 1);
}
