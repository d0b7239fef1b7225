use lite_dev_cpp::file_dialog::FileDialogKind;
use lite_dev_cpp::file_ops::{
    candidate_name, check_destination, choose_child_name, dialog_destination, existing_message,
    failure_message, free_destination, path_contains, trash_outcome, trash_script,
    unique_child_name,
};

#[test]
fn candidate_names_number_the_stem() {
    assert_eq!(candidate_name("untitled.cpp", 2), "untitled 2.cpp");
    assert_eq!(candidate_name("New Folder", 13), "New Folder 13");
    assert_eq!(candidate_name(".bashrc", 2), ".bashrc 2");
    assert_eq!(candidate_name("a.tar.gz", 999), "a.tar 999.gz");
}

#[test]
fn free_names_are_kept() {
    assert_eq!(unique_child_name("/definitely/not/here", "untitled.cpp"), "untitled.cpp");
}

#[test]
fn taken_names_get_the_first_free_number() {
    // the root folder always holds `tmp`
    let name = unique_child_name("/", "tmp");
    assert!(name.starts_with("tmp "));
    assert!(!std::path::Path::new("/").join(&name).exists());
}

#[test]
fn containment_is_by_whole_components() {
    assert!(path_contains("/a/b", "/a/b"));
    assert!(path_contains("/a/b", "/a/b/c.cpp"));
    assert!(path_contains("/a/b/", "/a/b/c.cpp"));
    assert!(!path_contains("/a/b", "/a/bc"));
    assert!(!path_contains("/a/b/c", "/a/b"));
}

#[test]
fn trash_script_names_the_path_as_a_string() {
    assert_eq!(
        trash_script("/x/\"q\".c"),
        "tell application \"Finder\" to delete POSIX file \"/x/\\\"q\\\".c\""
    );
}

#[test]
fn the_first_free_name_is_chosen() {
    assert_eq!(choose_child_name("untitled.cpp", &[false]), "untitled.cpp");
    assert_eq!(choose_child_name("untitled.cpp", &[true, true, false]), "untitled 3.cpp");
    assert_eq!(choose_child_name("New Folder", &[true, false, false]), "New Folder 2");
    assert_eq!(choose_child_name("untitled.cpp", &[true, true]), "untitled.cpp");
    assert_eq!(choose_child_name("untitled.cpp", &[]), "untitled.cpp");
}

#[test]
fn dialogs_put_entries_inside_or_beside_their_target() {
    assert_eq!(dialog_destination(FileDialogKind::NewFile, "/p/src", "a.c").unwrap(), "/p/src/a.c");
    assert_eq!(dialog_destination(FileDialogKind::NewFolder, "/p", "lib").unwrap(), "/p/lib");
    assert_eq!(dialog_destination(FileDialogKind::Rename, "/p/src/a.c", "b.c").unwrap(), "/p/src/b.c");
    assert_eq!(
        dialog_destination(FileDialogKind::Rename, "/", "b.c").unwrap_err(),
        "Cannot rename a path without a parent folder."
    );
}

#[test]
fn taken_destinations_are_refused() {
    assert_eq!(check_destination(FileDialogKind::NewFile, "/p/a.c".to_owned(), false).unwrap(), "/p/a.c");
    assert_eq!(
        check_destination(FileDialogKind::NewFile, "/p/a.c".to_owned(), true).unwrap_err(),
        "File already exists: /p/a.c"
    );
    assert_eq!(existing_message(FileDialogKind::NewFolder, "/p/d"), "Folder already exists: /p/d");
    assert_eq!(existing_message(FileDialogKind::Rename, "/p/b.c"), "Target already exists: /p/b.c");
    // the root folder always holds `tmp`
    assert_eq!(free_destination(FileDialogKind::NewFolder, "/", "tmp").unwrap_err(), "Folder already exists: /tmp");
    assert_eq!(
        free_destination(FileDialogKind::NewFile, "/definitely/not/here", "a.c").unwrap(),
        "/definitely/not/here/a.c"
    );
}

#[test]
fn file_system_failures_name_the_entry() {
    assert_eq!(
        failure_message(FileDialogKind::NewFile, "/p", "/p/a.c", "denied"),
        "Could not create file /p/a.c: denied"
    );
    assert_eq!(
        failure_message(FileDialogKind::NewFolder, "/p", "/p/d", "denied"),
        "Could not create folder /p/d: denied"
    );
    assert_eq!(
        failure_message(FileDialogKind::Rename, "/p/a.c", "/p/b.c", "busy"),
        "Could not rename /p/a.c to /p/b.c: busy"
    );
}

#[test]
fn trash_failures_report_the_exit_code() {
    assert!(trash_outcome(true, Some(0)).is_ok());
    assert_eq!(trash_outcome(false, Some(1)).unwrap_err(), "Finder returned exit code 1");
    assert_eq!(trash_outcome(false, None).unwrap_err(), "Finder returned exit code -1");
}

#[test]
fn containment_chains() {
    assert!(path_contains("/p/src", "/p/src"));
    assert!(path_contains("/p", "/p/src") && path_contains("/p/src", "/p/src/main.c"));
    assert!(path_contains("/p", "/p/src/main.c"));
    assert!(path_contains("/p/./src", "/p/src/main.c"));
}

#[test]
fn bare_names_get_numbered_alternatives() {
    assert_eq!(choose_child_name("untitled.cpp", &[true, false]), "untitled 2.cpp");
    assert_eq!(candidate_name("main.c", 10), "main 10.c");
}
