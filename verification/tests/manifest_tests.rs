use cargo_hack::manifest::Manifest;
use cargo_hack::remove_dev_deps::remove_dev_deps;

fn strip(input: &str) -> Vec<u8> {
    remove_dev_deps(&input.as_bytes().to_vec())
}

#[test]
fn removes_dev_dependencies_table() {
    let input = "[package]\nname = \"a\"\n\n[dev-dependencies]\nfoo = \"1\"\n\n[dependencies]\nbar = \"1\"\n";
    let expected = "[package]\nname = \"a\"\n\n[dependencies]\nbar = \"1\"\n";
    assert_eq!(strip(input), expected.as_bytes().to_vec());
}

#[test]
fn removes_target_dev_dependencies_table() {
    let input = "[target.'cfg(unix)'.dev-dependencies]\nx = \"1\"\n[dependencies]\ny = \"1\"\n";
    let expected = "[dependencies]\ny = \"1\"\n";
    assert_eq!(strip(input), expected.as_bytes().to_vec());
}

#[test]
fn keeps_manifest_without_dev_dependencies_unchanged() {
    let input = "[package]\nname = \"a\"\n\n[dependencies]\nbar = \"1\"\n\n[features]\ndefault = []\n";
    assert_eq!(strip(input), input.as_bytes().to_vec());
}

#[test]
fn removal_is_idempotent() {
    let input = "[dev-dependencies]\nfoo = \"1\"\n[package]\nname = \"a\"\n[target.'cfg(windows)'.dev-dependencies]\nz = \"1\"\n";
    let once = strip(input);
    let twice = remove_dev_deps(&once);
    assert_eq!(once, twice);
}

#[test]
fn removes_table_without_trailing_newline() {
    let input = "[dev-dependencies]\nfoo = \"1\"";
    assert_eq!(strip(input), Vec::<u8>::new());
}

#[test]
fn recognizes_header_with_surrounding_blanks() {
    let input = "  [dev-dependencies]  \nfoo = \"1\"\n[dependencies]\nbar = \"1\"\n";
    let expected = "[dependencies]\nbar = \"1\"\n";
    assert_eq!(strip(input), expected.as_bytes().to_vec());
}

#[test]
fn recognizes_header_with_carriage_return() {
    let input = "[dev-dependencies]\r\nfoo = \"1\"\r\n[dependencies]\r\nbar = \"1\"\r\n";
    let expected = "[dependencies]\r\nbar = \"1\"\r\n";
    assert_eq!(strip(input), expected.as_bytes().to_vec());
}

#[test]
fn keeps_similarly_named_tables() {
    let input = "[dev-dependencies-extra]\nfoo = \"1\"\n[my-dev-dependencies]\nbar = \"1\"\n";
    assert_eq!(strip(input), input.as_bytes().to_vec());
}

#[test]
fn empty_manifest_stays_empty() {
    assert_eq!(strip(""), Vec::<u8>::new());
}

#[test]
fn manifest_method_matches_module_function() {
    let raw = "[dev-dependencies]\nfoo = \"1\"\n[dependencies]\nbar = \"1\"\n";
    let m = Manifest::new(
        b"/ws/a/Cargo.toml".to_vec(),
        raw.as_bytes().to_vec(),
        Some(b"a".to_vec()),
    );
    assert_eq!(m.remove_dev_deps(), strip(raw));
    assert_eq!(m.raw, raw.as_bytes().to_vec());
}

#[test]
fn virtual_manifest_has_no_package_name() {
    let m = Manifest::new(b"/ws/Cargo.toml".to_vec(), b"[workspace]\n".to_vec(), None);
    assert!(m.is_virtual());
    let p = Manifest::new(
        b"/ws/a/Cargo.toml".to_vec(),
        b"[package]\n".to_vec(),
        Some(b"a".to_vec()),
    );
    assert!(!p.is_virtual());
}
