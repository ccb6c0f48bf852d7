use binwalk::sandbox::sanitize_path;
use std::path::PathBuf;

fn segments(path: &[u8]) -> Vec<String> {
    sanitize_path(path)
        .into_iter()
        .map(|seg| String::from_utf8(seg).unwrap())
        .collect()
}

#[test]
fn test_plain_path() {
    assert_eq!(segments(b"a/b/c.txt"), vec!["a", "b", "c.txt"]);
}

#[test]
fn test_traversal_is_clamped() {
    // parent-directory traversal never yields a path outside the root
    assert_eq!(segments(b"../../etc/passwd"), vec!["etc", "passwd"]);
    assert_eq!(segments(b"a/../../b"), vec!["b"]);
    assert_eq!(segments(b"a/b/../c"), vec!["a", "c"]);
    assert_eq!(segments(b".."), Vec::<String>::new());
}

#[test]
fn test_dot_and_empty_segments() {
    assert_eq!(segments(b"./a//b/./c/"), vec!["a", "b", "c"]);
    assert_eq!(segments(b"/absolute/name"), vec!["absolute", "name"]);
    assert_eq!(segments(b""), Vec::<String>::new());
    assert_eq!(segments(b"."), Vec::<String>::new());
}

#[test]
fn test_joined_path_stays_under_root() {
    let root = PathBuf::from("/tmp/sandbox-root");
    for evil in [
        b"../../../../etc/passwd".as_slice(),
        b"a/../../../x".as_slice(),
        b"/etc/shadow".as_slice(),
        b"./../up".as_slice(),
    ] {
        let mut joined = root.clone();
        for seg in segments(evil) {
            joined.push(seg);
        }
        assert!(joined.starts_with(&root));
    }
}
