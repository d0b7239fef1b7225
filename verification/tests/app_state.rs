use lite_dev_cpp::app::{FileDialogRequest, LiteDevCppApp, PendingAction, MAX_OUTPUT_BYTES};
use lite_dev_cpp::compiler::BuildResult;
use lite_dev_cpp::config::{AppConfig, CompilerConfig};
use lite_dev_cpp::file_dialog::{FileDialogKind, FileDialogState, UnsavedResponse};
use lite_dev_cpp::project::FileNode;

fn fresh() -> LiteDevCppApp {
    LiteDevCppApp::new(Ok(AppConfig::default()))
}

fn with_file(path: &str, text: &str) -> LiteDevCppApp {
    let mut app = fresh();
    let p = app.open_file(path.to_owned()).unwrap();
    app.open_file_now(p, Ok(text.to_owned()));
    app
}

fn result(code: i32, stdout: &str, stderr: &str) -> BuildResult {
    BuildResult { executable: "/w/a".to_owned(), stdout: stdout.to_owned(), stderr: stderr.to_owned(), exit_code: code }
}

#[test]
fn starts_with_a_greeting_or_the_config_error() {
    let app = fresh();
    assert_eq!(app.output, "Open a folder to begin.\n");
    let custom = CompilerConfig { c_compiler: "gcc".to_owned(), cpp_compiler: "g++".to_owned() };
    let app = LiteDevCppApp::new(Ok(AppConfig { compiler: custom }));
    assert_eq!(app.config.compiler.c_compiler, "gcc");
    let app = LiteDevCppApp::new(Err("bad toml".to_owned()));
    assert_eq!(app.output, "Could not load config; using defaults: bad toml\n");
    assert_eq!(app.config.compiler.cpp_compiler, "clang++");
    assert!(!app.dirty && app.current_file.is_none());
}

#[test]
fn opening_a_folder_builds_the_tree_and_closes_the_file() {
    let mut app = with_file("/old/x.c", "int x;");
    let entries = vec![
        FileNode { name: "b.c".to_owned(), path: "/p/b.c".to_owned(), is_dir: false, children: vec![] },
        FileNode { name: "a".to_owned(), path: "/p/a".to_owned(), is_dir: true, children: vec![] },
    ];
    app.open_folder("/p".to_owned(), Ok(entries));
    let project = app.project.as_ref().unwrap();
    assert_eq!(project.root(), "/p");
    assert_eq!(project.nodes()[0].name, "a");
    assert!(app.current_file.is_none());
    assert_eq!(app.editor_text, "");
    assert!(app.output.ends_with("Opened folder: /p\n"));
    app.open_folder("/q".to_owned(), Err("denied".to_owned()));
    assert!(app.output.ends_with("Could not open folder: denied\n"));
    assert_eq!(app.project.as_ref().unwrap().root(), "/p");
}

#[test]
fn unsaved_changes_hold_requests_back() {
    let mut app = with_file("/p/main.c", "int main;");
    app.dirty = true;
    assert!(app.open_file("/p/other.c".to_owned()).is_none());
    assert!(matches!(app.pending_action, Some(PendingAction::OpenFile(ref p)) if p == "/p/other.c"));
    assert!(app.request_action(PendingAction::OpenFolder("/q".to_owned())).is_none());
    assert!(matches!(app.pending_action, Some(PendingAction::OpenFolder(_))));
    let next = app.unsaved_response(UnsavedResponse::Save, false);
    assert!(next.is_none());
    assert!(app.pending_action.is_some());
    let next = app.unsaved_response(UnsavedResponse::Discard, false);
    assert!(matches!(next, Some(PendingAction::OpenFolder(ref f)) if f == "/q"));
    assert!(app.pending_action.is_none());
    app.request_action(PendingAction::Close);
    assert!(app.unsaved_response(UnsavedResponse::Cancel, true).is_none());
    assert!(app.pending_action.is_none());
}

#[test]
fn clean_state_performs_requests_at_once() {
    let mut app = with_file("/p/main.c", "");
    assert_eq!(app.open_file("/p/b.c".to_owned()), Some("/p/b.c".to_owned()));
    assert!(matches!(app.request_action(PendingAction::Close), Some(PendingAction::Close)));
    assert!(app.pending_action.is_none());
}

#[test]
fn reading_errors_are_reported() {
    let mut app = fresh();
    app.open_file_now("/p/x.c".to_owned(), Err("not found".to_owned()));
    assert!(app.output.ends_with("Could not open file /p/x.c: not found\n"));
    assert!(app.current_file.is_none());
}

#[test]
fn saving_reports_its_outcome() {
    let mut app = fresh();
    assert!(!app.save_current_file(Ok(())));
    assert!(app.output.ends_with("No file is open.\n"));
    let mut app = with_file("/p/m.c", "x");
    app.dirty = true;
    assert!(!app.save_current_file(Err("read-only".to_owned())));
    assert!(app.dirty);
    assert!(app.output.ends_with("Could not save file /p/m.c: read-only\n"));
    assert!(app.save_current_file(Ok(())));
    assert!(!app.dirty);
    assert!(app.output.ends_with("Saved file: /p/m.c\n"));
    app.save_app_config(Ok("/cfg/config.toml".to_owned()));
    assert!(app.output.ends_with("Saved config: /cfg/config.toml\n"));
    app.save_app_config(Err("io".to_owned()));
    assert!(app.output.ends_with("Could not save config: io\n"));
}

#[test]
fn builds_start_only_for_saved_sources() {
    let mut app = fresh();
    assert!(app.build_current_file().is_none());
    assert!(app.output.ends_with("Open a C/C++ file before building.\n"));
    let mut app = with_file("/p/notes.txt", "");
    assert!(app.build_current_file().is_none());
    assert!(app.output.ends_with("The current file is not a supported C/C++ source file.\n"));
    let mut app = with_file("/p/main.cpp", "");
    app.dirty = true;
    assert!(app.needs_save_before_build());
    assert!(app.build_current_file().is_none());
    assert!(app.output.ends_with("Build cancelled because the file could not be saved.\n"));
    app.dirty = false;
    assert_eq!(app.build_and_run_current_file(), Some("/p/main.cpp".to_owned()));
    assert!(app.building && app.run_after_build);
    assert!(app.output.ends_with("Build started...\n"));
    assert!(!app.needs_save_before_build());
    assert!(app.build_current_file().is_none());
    assert!(app.output.ends_with("A build is already running.\n"));
}

#[test]
fn finished_builds_are_reported() {
    let mut app = with_file("/w/main.c", "");
    app.build_and_run_current_file();
    let run_now = app.finish_build(Ok(result(0, "hello", "  \n")));
    assert!(run_now);
    assert!(!app.building && !app.run_after_build);
    assert_eq!(app.last_executable, Some("/w/a".to_owned()));
    assert!(app.output.ends_with("== Build: exit code 0 ==\n-- stdout --\nhello\nExecutable: /w/a\n"));

    app.build_current_file();
    let run_now = app.finish_build(Ok(result(-1, "", "error: x\n")));
    assert!(!run_now);
    assert_eq!(app.last_executable, None);
    assert!(app.output.ends_with("== Build: exit code -1 ==\n-- stderr --\nerror: x\nExecutable: /w/a\n"));

    app.build_current_file();
    assert!(!app.finish_build(Err("no such compiler".to_owned())));
    assert!(app.output.ends_with("Build failed: no such compiler\n"));

    app.build_current_file();
    app.build_worker_lost();
    assert!(!app.building);
    assert!(app.output.ends_with("Build worker stopped unexpectedly.\n"));
}

#[test]
fn build_reports_with_other_labels_omit_the_executable() {
    let mut app = fresh();
    app.append_build_result("Check", &result(3, "", ""));
    assert!(app.output.ends_with("== Check: exit code 3 ==\n"));
}

#[test]
fn running_needs_a_built_executable() {
    let mut app = fresh();
    assert!(app.run_last_executable().is_none());
    assert!(app.output.ends_with("Build the current file before running it.\n"));
    app.last_executable = Some("/w/a".to_owned());
    assert_eq!(app.run_last_executable(), Some(("/w/a".to_owned(), "/w".to_owned())));
    app.finish_run("/w/a", Ok(()));
    assert!(app.output.ends_with("Launched in terminal: /w/a\n"));
    app.finish_run("/w/a", Err("no terminal".to_owned()));
    assert!(app.output.ends_with("Run failed: no terminal\n"));
    app.last_executable = Some("/".to_owned());
    assert!(app.run_last_executable().is_none());
    assert!(app.output.ends_with("The executable path has no parent folder.\n"));
}

#[test]
fn output_is_capped_and_keeps_its_end() {
    let mut app = fresh();
    let long = "é".repeat(150_000);
    app.push_output(&long);
    assert!(app.output.len() <= MAX_OUTPUT_BYTES);
    assert!(app.output.ends_with("é\n"));
    assert_eq!(app.output.len(), MAX_OUTPUT_BYTES - 1);
    app.push_output("tail");
    assert!(app.output.len() <= MAX_OUTPUT_BYTES);
    assert!(app.output.ends_with("é\ntail\n"));
}

#[test]
fn naming_dialogs_validate_the_name() {
    let mut app = fresh();
    assert!(app.apply_file_dialog().is_none());
    app.start_rename("/p/old.c".to_owned());
    let dialog = app.file_dialog.as_ref().unwrap();
    assert_eq!(dialog.kind, FileDialogKind::Rename);
    assert_eq!(dialog.value, "old.c");
    app.file_dialog.as_mut().unwrap().value = "   ".to_owned();
    assert!(app.apply_file_dialog().is_none());
    assert!(app.output.ends_with("Name cannot be empty.\n"));
    assert!(app.file_dialog.is_some());
    app.file_dialog.as_mut().unwrap().value = "a/b.c".to_owned();
    assert!(app.apply_file_dialog().is_none());
    assert!(app.output.ends_with("Name cannot contain '/'.\n"));
    app.file_dialog.as_mut().unwrap().value = "  new.c \n".to_owned();
    let request = app.apply_file_dialog().unwrap();
    assert_eq!(request.name, "new.c");
    assert!(app.file_dialog.is_none());
}

#[test]
fn new_entries_are_offered_free_names() {
    let mut app = fresh();
    app.start_new_file("/definitely/not/here".to_owned());
    let dialog = app.file_dialog.as_ref().unwrap();
    assert_eq!(dialog.kind, FileDialogKind::NewFile);
    assert_eq!(dialog.value, "untitled.cpp");
    assert_eq!(dialog.target, "/definitely/not/here");
    app.start_new_folder("/definitely/not/here".to_owned());
    assert_eq!(app.file_dialog.as_ref().unwrap().value, "New Folder");
}

#[test]
fn renaming_moves_the_open_file_along() {
    let mut app = with_file("/p/src/main.c", "");
    app.last_executable = Some("/p/src/a".to_owned());
    app.file_dialog = Some(FileDialogState { kind: FileDialogKind::Rename, target: "/p/src".to_owned(), value: "lib".to_owned() });
    let request = app.apply_file_dialog().unwrap();
    assert!(app.finish_file_dialog(request, Ok("/p/lib".to_owned())));
    assert_eq!(app.current_file, Some("/p/lib/main.c".to_owned()));
    assert_eq!(app.last_executable, None);
    assert!(app.output.ends_with("Renamed /p/src to /p/lib\n"));
}

#[test]
fn renaming_another_entry_keeps_the_open_file() {
    let mut app = with_file("/p/main.c", "");
    app.last_executable = Some("/p/a".to_owned());
    app.file_dialog = Some(FileDialogState { kind: FileDialogKind::Rename, target: "/p/other.c".to_owned(), value: "x.c".to_owned() });
    let request = app.apply_file_dialog().unwrap();
    assert!(app.finish_file_dialog(request, Ok("/p/x.c".to_owned())));
    assert_eq!(app.current_file, Some("/p/main.c".to_owned()));
    assert_eq!(app.last_executable, Some("/p/a".to_owned()));
}

#[test]
fn failed_dialog_actions_reopen_the_dialog() {
    let mut app = fresh();
    app.file_dialog = Some(FileDialogState { kind: FileDialogKind::NewFile, target: "/p".to_owned(), value: "a.c".to_owned() });
    let request = app.apply_file_dialog().unwrap();
    assert!(!app.finish_file_dialog(request, Err("File already exists: /p/a.c".to_owned())));
    assert!(app.output.ends_with("File already exists: /p/a.c\n"));
    assert_eq!(app.file_dialog.as_ref().unwrap().value, "a.c");
    let request = app.apply_file_dialog().unwrap();
    assert!(app.finish_file_dialog(request, Ok("/p/a.c".to_owned())));
    assert!(app.output.ends_with("Created file: /p/a.c\n"));
    app.file_dialog = Some(FileDialogState { kind: FileDialogKind::NewFolder, target: "/p".to_owned(), value: "d".to_owned() });
    let request = app.apply_file_dialog().unwrap();
    assert!(app.finish_file_dialog(request, Ok("/p/d".to_owned())));
    assert!(app.output.ends_with("Created folder: /p/d\n"));
}

#[test]
fn deleting_the_folder_of_the_open_file_closes_it() {
    let mut app = with_file("/p/src/main.c", "text");
    app.dirty = true;
    assert!(!app.finish_delete("/p/src", Err("Finder returned exit code 1".to_owned())));
    assert!(app.current_file.is_some());
    assert!(app.output.ends_with("Could not move to Trash: Finder returned exit code 1\n"));
    assert!(app.finish_delete("/p/other", Ok(())));
    assert!(app.current_file.is_some());
    assert!(app.finish_delete("/p/src", Ok(())));
    assert!(app.current_file.is_none());
    assert_eq!(app.editor_text, "");
    assert!(!app.dirty);
    assert!(app.output.ends_with("Moved to Trash: /p/src\n"));
}

#[test]
fn deletion_waits_for_confirmation() {
    let mut app = fresh();
    assert!(app.confirm_delete_candidate().is_none());
    app.mark_for_delete("/p/old.c".to_owned());
    assert_eq!(app.delete_candidate.as_deref(), Some("/p/old.c"));
    assert_eq!(app.confirm_delete_candidate().as_deref(), Some("/p/old.c"));
    assert!(app.delete_candidate.is_none());
}

#[test]
fn tree_actions_report_their_outcome() {
    let mut app = fresh();
    app.finish_reveal("/p/a.c", Ok(()));
    assert!(app.output.ends_with("Revealed in Finder: /p/a.c\n"));
    app.finish_reveal("/p/a.c", Err("no Finder".to_owned()));
    assert!(app.output.ends_with("Could not reveal in Finder: no Finder\n"));
    app.finish_copy_path("/p/a.c");
    assert!(app.output.ends_with("Copied path: /p/a.c\n"));
}

#[test]
fn title_names_the_file_and_marks_changes() {
    let mut app = fresh();
    assert_eq!(app.current_title(), "No file open");
    let mut app2 = with_file("/p/m.c", "");
    assert_eq!(app2.current_title(), "/p/m.c");
    app2.dirty = true;
    assert_eq!(app2.current_title(), "/p/m.c *");
    app.dirty = true;
    assert_eq!(app.current_title(), "No file open");
}

#[test]
fn closing_with_unsaved_changes_waits_for_an_answer() {
    let mut app = with_file("/p/m.c", "");
    assert!(!app.handle_close_request(true));
    app.dirty = true;
    assert!(!app.handle_close_request(false));
    assert!(app.handle_close_request(true));
    assert!(matches!(app.pending_action, Some(PendingAction::Close)));
    let action = app.unsaved_response(UnsavedResponse::Save, true);
    assert!(matches!(action, Some(PendingAction::Close)));
    app.allow_close_now();
    assert!(!app.handle_close_request(true));
}

#[test]
fn refreshing_rebuilds_the_tree() {
    let mut app = fresh();
    app.refresh_project(Ok(vec![]));
    assert_eq!(app.output, "Open a folder to begin.\n");
    app.open_folder("/p".to_owned(), Ok(vec![]));
    let entry = FileNode { name: "n.c".to_owned(), path: "/p/n.c".to_owned(), is_dir: false, children: vec![] };
    app.refresh_project(Ok(vec![entry]));
    assert_eq!(app.project.as_ref().unwrap().nodes().len(), 1);
    assert!(app.output.ends_with("File tree refreshed.\n"));
    app.refresh_project(Err("gone".to_owned()));
    assert!(app.output.ends_with("Could not refresh file tree: gone\n"));
    assert_eq!(app.project.as_ref().unwrap().nodes().len(), 1);
}

#[test]
fn toolbar_actions_follow_the_state() {
    let mut app = fresh();
    assert!(!app.can_save() && !app.can_build() && !app.can_run() && !app.can_refresh());
    app.open_folder("/p".to_owned(), Ok(vec![]));
    assert!(app.can_refresh());
    let notes = with_file("/p/notes.txt", "x");
    assert!(notes.can_save() && !notes.can_build());
    let mut app2 = with_file("/p/main.cpp", "int main;");
    assert!(app2.can_build());
    assert!(app2.build_current_file().is_some());
    assert!(!app2.can_build() && !app2.can_run());
    assert!(!app2.finish_build(Ok(result(0, "", ""))));
    assert!(app2.can_run() && app2.can_build());
}

#[test]
fn a_created_file_is_opened() {
    let request = |kind| FileDialogRequest {
        dialog: FileDialogState { kind, target: "/p".to_owned(), value: "a.c".to_owned() },
        name: "a.c".to_owned(),
    };
    let made = Ok("/p/a.c".to_owned());
    assert_eq!(LiteDevCppApp::file_to_open(&request(FileDialogKind::NewFile), &made).as_deref(), Some("/p/a.c"));
    assert!(LiteDevCppApp::file_to_open(&request(FileDialogKind::NewFolder), &made).is_none());
    assert!(LiteDevCppApp::file_to_open(&request(FileDialogKind::Rename), &made).is_none());
    assert!(LiteDevCppApp::file_to_open(&request(FileDialogKind::NewFile), &Err("taken".to_owned())).is_none());
}
