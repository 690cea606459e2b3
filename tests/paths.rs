use lanshare::path::sanitize_relative_path;
use lanshare::transfer::{nested_path, resolve_target, Destination, FileMeta};

fn meta(name: &str, relative_path: Option<&str>) -> FileMeta {
    FileMeta {
        name: name.to_string(),
        size: 10,
        index: 0,
        total: 1,
        relative_path: relative_path.map(|p| p.to_string()),
    }
}

#[test]
fn sanitize_rejects_parent_in_middle() {
    assert_eq!(sanitize_relative_path("a/../b"), None);
}

#[test]
fn sanitize_rejects_leading_parent() {
    assert_eq!(sanitize_relative_path("../etc/passwd"), None);
}

#[test]
fn sanitize_rejects_null_byte() {
    assert_eq!(sanitize_relative_path("a\0b"), None);
}

#[test]
fn sanitize_keeps_plain_path() {
    assert_eq!(sanitize_relative_path("sub/dir/file.txt"), Some("sub/dir/file.txt".to_string()));
}

#[test]
fn sanitize_normalizes_separators_and_dots() {
    assert_eq!(sanitize_relative_path("./a//b\\c/."), Some("a/b/c".to_string()));
}

#[test]
fn sanitize_rejects_backslash_parent() {
    assert_eq!(sanitize_relative_path("dir\\..\\x"), None);
}

#[test]
fn sanitize_rejects_empty_and_dot_only() {
    assert_eq!(sanitize_relative_path(""), None);
    assert_eq!(sanitize_relative_path("./."), None);
    assert_eq!(sanitize_relative_path("//"), None);
}

#[test]
fn sanitize_keeps_dots_inside_names() {
    assert_eq!(sanitize_relative_path("a/..b/c.."), Some("a/..b/c..".to_string()));
}

#[test]
fn target_uses_sanitized_relative_path() {
    let t = resolve_target("/home/u/Downloads", &meta("file.txt", Some("sub/dir/file.txt")));
    assert!(!t.path_rejected);
    match t.destination {
        Some(Destination::File { path, create_dir }) => {
            assert_eq!(path, "/home/u/Downloads/sub/dir/file.txt");
            assert_eq!(create_dir, Some("/home/u/Downloads/sub/dir".to_string()));
        }
        _ => panic!("expected a file destination"),
    }
}

#[test]
fn target_falls_back_to_flat_name_on_traversal() {
    let t = resolve_target("/save/", &meta("passwd", Some("../etc/passwd")));
    assert!(t.path_rejected);
    match t.destination {
        Some(Destination::File { path, create_dir }) => {
            assert_eq!(path, "/save/passwd");
            assert_eq!(create_dir, None);
        }
        _ => panic!("expected a file destination"),
    }
}

#[test]
fn target_without_relative_path() {
    let t = resolve_target("/save", &meta("a.bin", None));
    assert!(!t.path_rejected);
    match t.destination {
        Some(Destination::File { path, create_dir }) => {
            assert_eq!(path, "/save/a.bin");
            assert_eq!(create_dir, None);
        }
        _ => panic!("expected a file destination"),
    }
}

#[test]
fn target_in_document_tree() {
    let t = resolve_target("content://tree/primary", &meta("f.txt", Some("photos/2024/f.txt")));
    assert!(!t.path_rejected);
    match t.destination {
        Some(Destination::Document { tree, subdirectory, name }) => {
            assert_eq!(tree, "content://tree/primary");
            assert_eq!(subdirectory, Some("photos/2024".to_string()));
            assert_eq!(name, "f.txt");
        }
        _ => panic!("expected a document destination"),
    }
}

#[test]
fn target_in_document_tree_flat_name() {
    let t = resolve_target("content://tree", &meta("f.txt", Some("f.txt")));
    match t.destination {
        Some(Destination::Document { subdirectory, .. }) => assert_eq!(subdirectory, None),
        _ => panic!("expected a document destination"),
    }
}

#[test]
fn nested_relative_path() {
    assert_eq!(nested_path("photos", "a.jpg"), "photos/a.jpg");
}

#[test]
fn flat_name_keeps_last_component_only() {
    let t = resolve_target("/save", &meta("../x", None));
    match t.destination {
        Some(Destination::File { path, .. }) => assert_eq!(path, "/save/x"),
        _ => panic!("expected a file destination"),
    }
    let t = resolve_target("/save", &meta("dir\\y.txt", Some("../y.txt")));
    assert!(t.path_rejected);
    match t.destination {
        Some(Destination::File { path, .. }) => assert_eq!(path, "/save/y.txt"),
        _ => panic!("expected a file destination"),
    }
}

#[test]
fn unsafe_name_gets_no_destination() {
    assert!(resolve_target("/save", &meta("..", None)).destination.is_none());
    assert!(resolve_target("/save", &meta("a\0b", Some("../p"))).destination.is_none());
    assert!(resolve_target("content://t", &meta("x/", Some("d/x"))).destination.is_none());
}

#[test]
fn unsafe_name_with_accepted_path_is_stored_by_path() {
    let t = resolve_target("/save", &meta("..", Some("d/f")));
    match t.destination {
        Some(Destination::File { path, .. }) => assert_eq!(path, "/save/d/f"),
        _ => panic!("expected a file destination"),
    }
}
