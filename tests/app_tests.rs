use codonn::app::CodeEditorApp;

#[test]
fn starts_empty_with_greeting() {
    let app = CodeEditorApp::new();
    assert_eq!(app.text, "");
    assert!(app.file_path.is_none());
    assert!(app.open_files.is_empty());
    assert!(app.show_sidebar && app.show_terminal);
    assert_eq!(app.terminal_output.snapshot(), "🖥️ Terminal Ready\nType commands below\n> ");
    let d = CodeEditorApp::default();
    assert_eq!(d.terminal_output.snapshot(), app.terminal_output.snapshot());
    assert!(d.show_sidebar && d.show_terminal);
    assert_eq!(d.current_file_index, 0);
    assert!(d.terminal_input.is_empty());
    assert!(d.root_folder.is_none());
    assert!(d.file_tree_expanded.is_empty());
    assert!(d.breadcrumb_path.is_empty());
}

#[test]
fn opening_adds_a_tab_once() {
    let mut app = CodeEditorApp::new();
    app.open_document("a.rs".to_string(), "fn a() {}".to_string());
    app.open_document("b.rs".to_string(), "fn b() {}".to_string());
    assert_eq!(app.open_files, vec!["a.rs", "b.rs"]);
    assert_eq!(app.current_file_index, 1);
    app.open_document("a.rs".to_string(), "fn a2() {}".to_string());
    assert_eq!(app.open_files, vec!["a.rs", "b.rs"]);
    assert_eq!(app.current_file_index, 1);
    assert_eq!(app.text, "fn a2() {}");
    assert_eq!(app.file_path.as_deref(), Some("a.rs"));
}

#[test]
fn selecting_a_tab_names_its_file() {
    let mut app = CodeEditorApp::new();
    app.open_document("a.rs".to_string(), String::new());
    app.open_document("b.rs".to_string(), String::new());
    let p = app.select_tab(0);
    assert_eq!(p, "a.rs");
    assert_eq!(app.current_file_index, 0);
    app.load_document(p, "loaded".to_string());
    assert_eq!(app.text, "loaded");
}

#[test]
fn closing_last_tab_moves_selection_back() {
    let mut app = CodeEditorApp::new();
    for p in ["a", "b", "c"] {
        app.open_document(p.to_string(), String::new());
    }
    app.close_tab(2);
    assert_eq!(app.open_files, vec!["a", "b"]);
    assert_eq!(app.current_file_index, 1);
    app.close_tab(0);
    assert_eq!(app.open_files, vec!["b"]);
    assert_eq!(app.current_file_index, 0);
    app.close_tab(0);
    assert!(app.open_files.is_empty());
    assert_eq!(app.current_file_index, 0);
}

#[test]
fn panels_toggle() {
    let mut app = CodeEditorApp::new();
    app.toggle_sidebar();
    assert!(!app.show_sidebar);
    app.toggle_terminal();
    assert!(!app.show_terminal);
    app.toggle_sidebar();
    assert!(app.show_sidebar);
}

#[test]
fn folders_expand_and_collapse() {
    let mut app = CodeEditorApp::new();
    assert!(!app.is_expanded("root/src"));
    app.toggle_folder("root/src");
    assert!(app.is_expanded("root/src"));
    assert!(!app.is_expanded("root/docs"));
    app.toggle_folder("root/src");
    assert!(!app.is_expanded("root/src"));
}

#[test]
fn breadcrumbs_follow_folder() {
    let mut app = CodeEditorApp::new();
    app.select_root_crumb();
    assert!(app.breadcrumb_path.is_empty());
    app.open_folder("/home/me/proj".to_string());
    assert_eq!(app.root_folder.as_deref(), Some("/home/me/proj"));
    assert_eq!(app.breadcrumb_path, vec!["/home/me/proj"]);
    app.breadcrumb_path.push("/home/me/proj/src".to_string());
    app.breadcrumb_path.push("/home/me/proj/src/ui".to_string());
    app.select_crumb(1);
    assert_eq!(app.breadcrumb_path, vec!["/home/me/proj", "/home/me/proj/src"]);
    app.select_root_crumb();
    assert_eq!(app.breadcrumb_path, vec!["/home/me/proj"]);
}

#[test]
fn saving_without_file_has_no_target() {
    let app = CodeEditorApp::new();
    assert!(app.save_target().is_none());
    assert_eq!(app.terminal_output.snapshot(), "🖥️ Terminal Ready\nType commands below\n> ");
}

#[test]
fn saving_reports_path() {
    let mut app = CodeEditorApp::new();
    app.open_document("notes.txt".to_string(), "hi".to_string());
    let target = app.save_target().unwrap();
    assert_eq!(target, "notes.txt");
    app.terminal_output.clear();
    app.record_saved(&target);
    assert_eq!(app.terminal_output.snapshot(), "✓ Saved: notes.txt\n");
}

#[test]
fn terminal_clear_empties_output() {
    let mut app = CodeEditorApp::new();
    app.append_output("lots of output\n> ");
    app.clear_terminal();
    assert_eq!(app.terminal_output.snapshot(), "");
    app.append_output("late\n");
    assert_eq!(app.terminal_output.snapshot(), "late\n");
}

#[test]
fn typed_command_is_taken_once() {
    let mut app = CodeEditorApp::new();
    assert!(app.take_command().is_none());
    app.terminal_input = "ls -la".to_string();
    assert_eq!(app.take_command().as_deref(), Some("ls -la"));
    assert_eq!(app.terminal_input, "");
    assert!(app.take_command().is_none());
}
