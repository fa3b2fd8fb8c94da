use laurn::mount::{ancestors_of, Exposure, MountMode, MountOp, SetupError, SourceKind};

fn exposure(source: &[u8], target: &[u8], mode: MountMode, optional: bool) -> Exposure {
    Exposure { source: source.to_vec(), target: target.to_vec(), mode, optional }
}

#[test]
fn ancestors_are_outermost_first() {
    assert_eq!(
        ancestors_of(b"/tmp/root/nix/store/abc"),
        vec![
            b"/tmp".to_vec(),
            b"/tmp/root".to_vec(),
            b"/tmp/root/nix".to_vec(),
            b"/tmp/root/nix/store".to_vec(),
        ]
    );
    assert_eq!(ancestors_of(b"/a//b"), vec![b"/a".to_vec()]);
    assert!(ancestors_of(b"/").is_empty());
}

#[test]
fn read_only_directory_is_bound_then_remounted() {
    let e = exposure(b"/nix/store/abc", b"/r/nix/store/abc", MountMode::RO, false);
    let ops = e.ops(Some(SourceKind::Directory)).expect("ops");
    assert_eq!(
        ops,
        vec![
            MountOp::MakeDir(b"/r".to_vec()),
            MountOp::MakeDir(b"/r/nix".to_vec()),
            MountOp::MakeDir(b"/r/nix/store".to_vec()),
            MountOp::MakeDir(b"/r/nix/store/abc".to_vec()),
            MountOp::Bind {
                source: b"/nix/store/abc".to_vec(),
                target: b"/r/nix/store/abc".to_vec(),
            },
            MountOp::RemountReadOnly(b"/r/nix/store/abc".to_vec()),
        ]
    );
}

#[test]
fn writable_device_gets_a_file_node() {
    let e = exposure(b"/dev/null", b"/r/dev/null", MountMode::RW, false);
    let ops = e.ops(Some(SourceKind::CharDevice)).expect("ops");
    assert_eq!(
        ops,
        vec![
            MountOp::MakeDir(b"/r".to_vec()),
            MountOp::MakeDir(b"/r/dev".to_vec()),
            MountOp::MakeFile(b"/r/dev/null".to_vec()),
            MountOp::Bind { source: b"/dev/null".to_vec(), target: b"/r/dev/null".to_vec() },
        ]
    );
}

#[test]
fn missing_optional_source_is_skipped() {
    let e = exposure(b"/home/u/.nonexistent-xyz", b"/r/home/u/.nonexistent-xyz", MountMode::RW, true);
    assert_eq!(e.ops(None), Ok(vec![]));
}

#[test]
fn missing_required_source_fails() {
    let e = exposure(b"/nix/store/gone", b"/r/nix/store/gone", MountMode::RO, false);
    assert_eq!(e.ops(None), Err(SetupError::Stat));
}

#[test]
fn source_kind_from_stat_mode() {
    assert_eq!(SourceKind::of_mode(0o040755), SourceKind::Directory);
    assert_eq!(SourceKind::of_mode(0o100644), SourceKind::File);
    assert_eq!(SourceKind::of_mode(0o020666), SourceKind::CharDevice);
    assert_eq!(SourceKind::of_mode(0o140777), SourceKind::Other);
    assert_eq!(SourceKind::of_mode(0o120777), SourceKind::Other);
}
