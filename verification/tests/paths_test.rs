use xmcl::paths::{
    is_within_root, keep_selected_file, normalize_relative_path, safe_join, selected_file_paths,
};

#[test]
fn normalize_plain_path() {
    assert_eq!(normalize_relative_path("mods/a.jar"), Some("mods/a.jar".to_string()));
}

#[test]
fn normalize_drops_current_dir_and_empty_pieces() {
    assert_eq!(normalize_relative_path("./mods//a.jar/"), Some("mods/a.jar".to_string()));
    assert_eq!(normalize_relative_path("config/./x.toml"), Some("config/x.toml".to_string()));
}

#[test]
fn normalize_rejects_parent_and_absolute() {
    assert_eq!(normalize_relative_path("../secret"), None);
    assert_eq!(normalize_relative_path("mods/../../x"), None);
    assert_eq!(normalize_relative_path("/etc/passwd"), None);
}

#[test]
fn normalize_rejects_empty() {
    assert_eq!(normalize_relative_path(""), None);
    assert_eq!(normalize_relative_path("."), None);
    assert_eq!(normalize_relative_path("./"), None);
}

#[test]
fn normalize_keeps_dots_in_names() {
    assert_eq!(normalize_relative_path("...x/..y"), Some("...x/..y".to_string()));
}

#[test]
fn normalize_is_idempotent_on_examples() {
    for p in ["./a//b/", "x/./y", "saves/World 1/level.dat"] {
        let once = normalize_relative_path(p).unwrap();
        assert_eq!(normalize_relative_path(&once), Some(once.clone()));
    }
}

#[test]
fn safe_join_inserts_separator() {
    assert_eq!(safe_join("/games/inst", "mods/a.jar"), Some("/games/inst/mods/a.jar".to_string()));
    assert_eq!(safe_join("/games/inst/", "mods/a.jar"), Some("/games/inst/mods/a.jar".to_string()));
    assert_eq!(safe_join("", "a"), Some("a".to_string()));
}

#[test]
fn safe_join_rejects_escape() {
    assert_eq!(safe_join("/games/inst", "../other"), None);
    assert_eq!(safe_join("/games/inst", "/abs"), None);
}

#[test]
fn within_root_by_components() {
    assert!(is_within_root("/a/b/c", "/a/b"));
    assert!(is_within_root("/a/b", "/a/b"));
    assert!(!is_within_root("/a/bc", "/a/b"));
    assert!(is_within_root("/a//b/./c", "/a/b"));
    assert!(!is_within_root("a/b", "/a"));
    assert!(is_within_root("/x", ""));
    assert!(is_within_root("/x", "/"));
}

#[test]
fn selected_files_keep_order_and_drop_unsafe() {
    let sel = vec![
        "mods/a.jar".to_string(),
        "../x".to_string(),
        "./config/b.toml".to_string(),
    ];
    let r = selected_file_paths("/inst", &sel);
    assert_eq!(
        r,
        vec![
            ("mods/a.jar".to_string(), "/inst/mods/a.jar".to_string()),
            ("config/b.toml".to_string(), "/inst/config/b.toml".to_string()),
        ]
    );
}

#[test]
fn selected_file_filter() {
    assert!(keep_selected_file(&Some("/g/inst/mods/a.jar".to_string()), "/g/inst"));
    assert!(!keep_selected_file(&Some("/g/other/a.jar".to_string()), "/g/inst"));
    assert!(!keep_selected_file(&Some("/g/instance2/a.jar".to_string()), "/g/inst"));
    assert!(!keep_selected_file(&None, "/g/inst"));
}
