use xeno_editor::editor::Editor;
use xeno_editor::file_ops::{
    create_dir_plan, created_dir_notice, delete_dir_plan, deleted_dir_notice, is_cross_device_rename, op_target,
    remove_dir_error, rename_error, rename_plan, renamed_notice, same_path, save_plan, FileOpError,
};

fn s(x: &str) -> String {
    x.to_string()
}

#[test]
fn is_cross_device_rename_detects_exdev() {
    let exdev = std::io::Error::from_raw_os_error(18); // EXDEV
    assert!(is_cross_device_rename(exdev.raw_os_error()));

    let enoent = std::io::Error::from_raw_os_error(2); // ENOENT
    assert!(!is_cross_device_rename(enoent.raw_os_error()));
}

#[test]
fn op_target_resolves_against_the_file_directory_or_cwd() {
    assert_eq!(op_target(&Some(s("/w/src/a.rs")), &s("b.rs")), "/w/src/b.rs");
    assert_eq!(op_target(&Some(s("/w/src/a.rs")), &s("/tmp/x")), "/tmp/x");
    assert_eq!(op_target(&None, &s("new/dir")), "./new/dir");
    assert_eq!(op_target(&None, &s("/abs")), "/abs");
}

#[test]
fn create_dir_plan_cases() {
    match create_dir_plan(&s("/d"), true, false) {
        Err(FileOpError::Failed(m)) => assert_eq!(m, "Path exists and is not a directory: /d"),
        other => panic!("unexpected {:?}", other),
    }
    match create_dir_plan(&s("/d"), true, true) {
        Ok(Some(m)) => assert_eq!(m, "Directory already exists: /d"),
        other => panic!("unexpected {:?}", other),
    }
    assert!(matches!(create_dir_plan(&s("/d"), false, false), Ok(None)));
    assert_eq!(created_dir_notice(&s("/d")), "Created directory /d");
}

#[test]
fn delete_dir_plan_cases() {
    match delete_dir_plan(&s("/f.txt"), false) {
        Err(FileOpError::InvalidArgument(m)) => assert_eq!(m, "Not a directory: /f.txt"),
        other => panic!("unexpected {:?}", other),
    }
    assert!(delete_dir_plan(&s("/d"), true).is_ok());
    match remove_dir_error(&s("/d"), Some(39), s("os error 39")) {
        FileOpError::Failed(m) => assert_eq!(m, "Directory not empty: /d"),
        other => panic!("unexpected {:?}", other),
    }
    assert!(matches!(remove_dir_error(&s("/d"), Some(66), s("x")), FileOpError::Failed(_)));
    match remove_dir_error(&s("/d"), Some(13), s("Permission denied")) {
        FileOpError::Io(m) => assert_eq!(m, "Permission denied"),
        other => panic!("unexpected {:?}", other),
    }
    assert_eq!(deleted_dir_notice(&s("/d")), "Deleted directory /d");
}

#[test]
fn rename_errors_and_notice() {
    match rename_error(&s("/a"), &s("/b"), Some(18), s("ignored")) {
        FileOpError::Failed(m) => assert_eq!(m, "Cross-device rename not supported (EXDEV): /a -> /b"),
        other => panic!("unexpected {:?}", other),
    }
    assert!(matches!(rename_error(&s("/a"), &s("/b"), None, s("boom")), FileOpError::Io(m) if m == "boom"));
    assert_eq!(renamed_notice(&s("/b")), "Renamed to /b");
}

#[test]
fn save_needs_a_path_and_clears_modified() {
    match save_plan(&None) {
        Err(FileOpError::InvalidArgument(m)) => assert_eq!(m, "No filename. Use :write <filename>"),
        other => panic!("unexpected {:?}", other),
    }
    assert_eq!(save_plan(&Some(s("/p"))).unwrap(), "/p");

    let mut e = Editor::from_content("x".chars().collect(), Some(s("/p")));
    e.core.buffers.docs[0].modified = true;
    assert!(e.is_modified());
    e.mark_focused_saved();
    assert!(!e.is_modified());
    assert_eq!(e.core.buffers.docs[0].path.as_deref(), Some("/p"));
}

#[test]
fn rename_current_file_noop_for_same_path() {
    let old = Some(s("/d/a"));
    assert!(matches!(rename_plan(&old, false, &s("./a")), Ok(None)), "./a from /d is /d/a");
    assert!(matches!(rename_plan(&old, false, &s("/d//a/")), Ok(None)), "repeated and trailing separators");
    assert!(matches!(rename_plan(&old, false, &s("/d/./a")), Ok(None)));
    assert!(matches!(rename_plan(&old, false, &s("a")), Ok(None)));
    match rename_plan(&old, false, &s("../a")) {
        Ok(Some((from, to))) => {
            assert_eq!(from, "/d/a");
            assert_eq!(to, "/d/../a", "`..` is a component of its own");
        },
        _ => panic!("a different path is renamed"),
    }
    assert!(same_path(&s("a/b"), &s("a//b/")));
    assert!(same_path(&s("./a"), &s(".//a")));
    assert!(!same_path(&s("./a"), &s("a")), "a leading `.` is kept");
    assert!(!same_path(&s("/a"), &s("a")));
}
