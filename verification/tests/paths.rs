use chat_to_chat::paths::{
    allowed_path_inputs, canonicalize_target, checked_existing_path, checked_target_path, is_path_allowed,
    normalize_allowed_paths, normalize_path, should_skip_dir, AllowedPath,
};

fn dir(p: &str) -> AllowedPath {
    AllowedPath { path: p.to_string(), is_file: false }
}

fn file(p: &str) -> AllowedPath {
    AllowedPath { path: p.to_string(), is_file: true }
}

#[test]
fn skipped_directories() {
    for name in [".git", "node_modules", "target", "dist"] {
        assert!(should_skip_dir(&format!("/a/{name}")));
    }
    assert!(!should_skip_dir("/a/src"));
    assert!(!should_skip_dir("/"));
}

#[test]
fn authorised_by_directory_prefix_or_exact_file() {
    let allowed = vec![dir("/a/b"), file("/c/d.txt")];
    assert!(is_path_allowed("/a/b", &allowed));
    assert!(is_path_allowed("/a/b/c/e.txt", &allowed));
    assert!(!is_path_allowed("/a/bc", &allowed));
    assert!(is_path_allowed("/c/d.txt", &allowed));
    assert!(!is_path_allowed("/c/d.txt.bak", &allowed));
    assert!(!is_path_allowed("/a/b", &[]));
}

#[test]
fn configured_paths_are_trimmed_and_blank_ones_dropped() {
    let inputs = allowed_path_inputs(&[" /a ".to_string(), "  ".to_string(), "/b".to_string()]);
    assert_eq!(inputs, vec!["/a".to_string(), "/b".to_string()]);
}

#[test]
fn first_resolution_error_wins() {
    let ok = normalize_allowed_paths(&[Ok("/a".into()), Ok("/b".into())]);
    assert_eq!(ok, Ok(vec!["/a".to_string(), "/b".to_string()]));
    let err = normalize_allowed_paths(&[Ok("/a".into()), Err("e1".into()), Err("e2".into())]);
    assert_eq!(err, Err("e1".to_string()));
}

#[test]
fn normalising_existing_and_new_paths() {
    assert_eq!(canonicalize_target("/a/b", true), Some("/a/b".to_string()));
    assert_eq!(canonicalize_target("/a/b", false), Some("/a".to_string()));
    assert_eq!(canonicalize_target("/", false), None);
    assert_eq!(normalize_path("/x/./y", true, Some(Ok("/x/y".into()))), Ok("/x/y".to_string()));
    assert_eq!(
        normalize_path("/x", true, Some(Err("denied".into()))),
        Err("解析路径失败 /x: denied".to_string())
    );
    assert_eq!(normalize_path("/l/new.txt", false, Some(Ok("/real".into()))), Ok("/real/new.txt".to_string()));
    assert_eq!(
        normalize_path("/nope/new.txt", false, Some(Err("missing".into()))),
        Err("解析父目录失败 /nope: missing".to_string())
    );
    assert_eq!(normalize_path("/", false, None), Err("路径无效: /".to_string()));
}

#[test]
fn checked_paths() {
    let allowed = vec![dir("/a")];
    assert_eq!(checked_existing_path(Ok("/a/x".into()), true, &allowed), Ok("/a/x".to_string()));
    assert_eq!(checked_existing_path(Ok("/a/x".into()), false, &allowed), Err("路径不存在: /a/x".to_string()));
    assert_eq!(checked_existing_path(Ok("/b".into()), true, &allowed), Err("未授权路径: /b".to_string()));
    assert_eq!(checked_existing_path(Err("e".into()), true, &allowed), Err("e".to_string()));
    assert_eq!(checked_target_path(Ok("/a/new".into()), &allowed), Ok("/a/new".to_string()));
    assert_eq!(checked_target_path(Ok("/b/new".into()), &allowed), Err("未授权路径: /b/new".to_string()));
}
