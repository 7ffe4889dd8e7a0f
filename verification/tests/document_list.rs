use edit::goto::Point;
use edit::documents::{get_display_name, untitled_name_for, DocumentManager, FileId};
use edit::file_type::FileType;

fn names(m: &DocumentManager) -> Vec<String> {
    m.all_documents().iter().map(|d| d.filename.clone()).collect()
}

#[test]
fn untitled_documents_are_numbered() {
    let mut m = DocumentManager::new();
    assert_eq!(m.active_index(), None);
    assert!(m.active().is_none());
    m.add_untitled();
    m.add_untitled();
    m.add_untitled();
    assert_eq!(names(&m), vec!["Untitled-3.txt", "Untitled-2.txt", "Untitled-1.txt"]);
    assert_eq!(m.active().unwrap().new_file_counter, 3);
    assert_eq!(m.active_index(), Some(0));
    assert_eq!(m.len(), 3);
}

#[test]
fn untitled_name_formatting() {
    assert_eq!(untitled_name_for(0), "Untitled-0.txt");
    assert_eq!(untitled_name_for(7), "Untitled-7.txt");
    assert_eq!(untitled_name_for(10), "Untitled-10.txt");
    assert_eq!(untitled_name_for(1234567), "Untitled-1234567.txt");
}

#[test]
fn untitled_number_follows_largest() {
    let mut m = DocumentManager::new();
    m.add_untitled().new_file_counter = 41;
    let d = m.add_untitled();
    assert_eq!(d.filename, "Untitled-42.txt");
    assert_eq!(d.new_file_counter, 42);
}

#[test]
fn cycling_documents() {
    let mut m = DocumentManager::new();
    assert!(!m.switch_to_next());
    m.add_untitled();
    assert!(!m.switch_to_next());
    assert!(!m.switch_to_previous());
    m.add_untitled();
    m.add_untitled();
    let start = names(&m);
    assert!(m.switch_to_next());
    assert_eq!(names(&m), vec!["Untitled-2.txt", "Untitled-1.txt", "Untitled-3.txt"]);
    assert!(m.switch_to_previous());
    assert_eq!(names(&m), start);
    assert!(m.switch_to_previous());
    assert_eq!(names(&m), vec!["Untitled-1.txt", "Untitled-3.txt", "Untitled-2.txt"]);
}

#[test]
fn switching_by_index() {
    let mut m = DocumentManager::new();
    for _ in 0..4 {
        m.add_untitled();
    }
    assert!(m.switch_to_index(2));
    assert_eq!(names(&m), vec!["Untitled-2.txt", "Untitled-4.txt", "Untitled-3.txt", "Untitled-1.txt"]);
    assert!(m.switch_to_index(0));
    assert_eq!(names(&m), vec!["Untitled-2.txt", "Untitled-4.txt", "Untitled-3.txt", "Untitled-1.txt"]);
    assert!(!m.switch_to_index(4));
    assert_eq!(m.len(), 4);
}

#[test]
fn update_active_moves_first_match() {
    let mut m = DocumentManager::new();
    for _ in 0..3 {
        m.add_untitled();
    }
    assert!(m.update_active(|d| d.new_file_counter <= 2));
    assert_eq!(names(&m), vec!["Untitled-2.txt", "Untitled-3.txt", "Untitled-1.txt"]);
    assert!(!m.update_active(|d| d.new_file_counter > 10));
    assert_eq!(names(&m), vec!["Untitled-2.txt", "Untitled-3.txt", "Untitled-1.txt"]);
}

#[test]
fn removing_the_active_document() {
    let mut m = DocumentManager::new();
    m.remove_active();
    assert_eq!(m.len(), 0);
    m.add_untitled();
    m.add_untitled();
    m.remove_active();
    assert_eq!(names(&m), vec!["Untitled-1.txt"]);
}

#[test]
fn opening_a_file_replaces_pristine_untitled() {
    let mut m = DocumentManager::new();
    m.add_untitled();
    let id = FileId { device: 1, inode: 99 };
    let doc = m.add_file_path("project/src/main.rs".to_string(), Some(id), None);
    assert_eq!(doc.filename, "main.rs");
    assert_eq!(doc.dir.as_deref(), Some("project/src"));
    assert_eq!(doc.path.as_deref(), Some("project/src/main.rs"));
    assert_eq!(doc.file_type, FileType::Rust);
    assert_eq!(doc.ruler, 0);
    assert_eq!(doc.file_id, Some(id));
    assert_eq!(doc.syntax_highlighter.as_ref().unwrap().current_theme(), "base16-mocha.dark");
    assert_eq!(m.len(), 1);
}

#[test]
fn dirty_untitled_is_kept() {
    let mut m = DocumentManager::new();
    m.add_untitled().is_dirty = true;
    m.add_file_path("notes.md".to_string(), None, None);
    assert_eq!(names(&m), vec!["notes.md", "Untitled-1.txt"]);
    assert_eq!(m.active().unwrap().file_type, FileType::Markdown);
}

#[test]
fn opening_an_open_file_activates_it() {
    let mut m = DocumentManager::new();
    m.add_file_path("a.py".to_string(), Some(FileId { device: 1, inode: 1 }), None);
    m.add_file_path("b.py".to_string(), Some(FileId { device: 1, inode: 2 }), None);
    assert_eq!(names(&m), vec!["b.py", "a.py"]);
    let doc = m.add_file_path("./a.py".to_string(), Some(FileId { device: 1, inode: 1 }), None);
    assert_eq!(doc.filename, "a.py");
    assert_eq!(names(&m), vec!["a.py", "b.py"]);
    // A new file (no identity yet) is always opened anew.
    m.add_file_path("c.py".to_string(), None, None);
    m.add_file_path("c.py".to_string(), None, None);
    assert_eq!(m.len(), 4);
}

#[test]
fn commit_message_gets_ruler() {
    let mut m = DocumentManager::new();
    let doc = m.add_file_path(".git/COMMIT_EDITMSG".to_string(), None, None);
    assert_eq!(doc.ruler, 72);
    assert_eq!(doc.filename, "COMMIT_EDITMSG");
    assert_eq!(doc.file_type, FileType::Plain);
}

#[test]
fn display_names() {
    let mut m = DocumentManager::new();
    let d = m.add_untitled();
    assert_eq!(get_display_name(d), "Untitled-1.txt");
    d.filename = String::new();
    assert_eq!(get_display_name(d), "Untitled");
}

#[test]
fn active_mut_changes_front() {
    let mut m = DocumentManager::new();
    m.add_untitled();
    m.add_untitled();
    m.active_mut().unwrap().is_dirty = true;
    let docs = m.all_documents();
    assert!(docs[0].is_dirty);
    assert!(!docs[1].is_dirty);
}

#[test]
fn cycling_through_all_documents_returns_to_start() {
    let mut m = DocumentManager::new();
    for _ in 0..5 {
        m.add_untitled();
    }
    let start = names(&m);
    for _ in 0..5 {
        assert!(m.switch_to_next());
    }
    assert_eq!(names(&m), start);
}

#[test]
fn opening_moves_the_cursor_to_the_goto_position() {
    let mut m = DocumentManager::new();
    let id = FileId { device: 3, inode: 7 };
    let doc = m.add_file_path("a.rs".to_string(), Some(id), Some(Point { x: 4, y: 9 }));
    assert_eq!(doc.cursor, Point { x: 4, y: 9 });
    // A file that does not exist yet keeps its cursor at the start.
    let doc = m.add_file_path("new.rs".to_string(), None, Some(Point { x: 1, y: 2 }));
    assert_eq!(doc.cursor, Point { x: 0, y: 0 });
    // Opening the first file again moves its cursor; without a position it stays.
    let doc = m.add_file_path("./a.rs".to_string(), Some(id), Some(Point { x: 0, y: 3 }));
    assert_eq!(doc.filename, "a.rs");
    assert_eq!(doc.cursor, Point { x: 0, y: 3 });
    let doc = m.add_file_path("a.rs".to_string(), Some(id), None);
    assert_eq!(doc.cursor, Point { x: 0, y: 3 });
    assert_eq!(m.len(), 2);
}
