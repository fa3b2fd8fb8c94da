use laurn::utils::merge;

#[test]
fn merge_absolute_path_under_root() {
    assert_eq!(merge(b"/tmp/root", b"/nix/store/a"), b"/tmp/root/nix/store/a".to_vec());
    assert_eq!(merge(b"/tmp/root/", b"/nix"), b"/tmp/root/nix".to_vec());
    assert_eq!(merge(b"/tmp/root", b"//etc"), b"/tmp/root/etc".to_vec());
}

#[test]
fn merge_relative_path_is_a_join() {
    assert_eq!(merge(b"/home/u", b".cargo"), b"/home/u/.cargo".to_vec());
    assert_eq!(merge(b"", b"a/b"), b"a/b".to_vec());
}

#[test]
fn merge_root_alone() {
    assert_eq!(merge(b"/tmp/root", b"/"), b"/tmp/root/".to_vec());
}
