use cargo_hack::process::ProcessBuilder;

#[test]
fn duplicating_a_template_leaves_it_untouched() {
    let mut base = ProcessBuilder::new(b"cargo".to_vec());
    base.arg(b"check".to_vec());
    let mut copy = base.duplicate();
    copy.arg(b"--manifest-path".to_vec());
    copy.arg(b"/ws/a/Cargo.toml".to_vec());
    assert_eq!(base.args, vec![b"check".to_vec()]);
    assert_eq!(
        copy.args,
        vec![
            b"check".to_vec(),
            b"--manifest-path".to_vec(),
            b"/ws/a/Cargo.toml".to_vec(),
        ]
    );
    assert_eq!(copy.program, b"cargo".to_vec());
}

#[test]
fn append_args_keeps_order() {
    let mut line = ProcessBuilder::new(b"cargo".to_vec());
    line.append_args(&vec![b"one".to_vec(), b"two".to_vec()]);
    assert_eq!(line.args, vec![b"one".to_vec(), b"two".to_vec()]);
}
