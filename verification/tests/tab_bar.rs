use edit::documents::DocumentManager;
use edit::file_type::FileType;
use edit::tabs::{draw_ghibli_tab_bar, file_icon, TabBar, TabKey};

fn two_docs() -> DocumentManager {
    let mut m = DocumentManager::new();
    m.add_untitled().is_dirty = true;
    m.add_file_path("main.rs".to_string(), None, None);
    m
}

fn names(m: &DocumentManager) -> Vec<String> {
    m.all_documents().iter().map(|d| d.filename.clone()).collect()
}

#[test]
fn hidden_with_one_document() {
    let mut m = DocumentManager::new();
    m.add_untitled();
    assert_eq!(draw_ghibli_tab_bar(&mut m, Some(TabKey::AltRight)), TabBar::Hidden);
    assert_eq!(draw_ghibli_tab_bar(&mut m, None), TabBar::Hidden);
}

#[test]
fn tabs_are_shown() {
    let mut m = two_docs();
    match draw_ghibli_tab_bar(&mut m, None) {
        TabBar::Show { tabs, hint } => {
            assert_eq!(tabs, "[🦀 main.rs] 🌿  📄 ● Untitled-1.txt ");
            assert_eq!(hint, " [Alt+← →: Navigate | F1-F9: Jump | Ctrl+PgUp/PgDn: Switch]");
        }
        other => panic!("unexpected {:?}", other),
    }
}

#[test]
fn keys_switch_documents() {
    let mut m = two_docs();
    assert_eq!(draw_ghibli_tab_bar(&mut m, Some(TabKey::AltRight)), TabBar::Switched { rerender: true });
    assert_eq!(names(&m), vec!["Untitled-1.txt", "main.rs"]);
    assert_eq!(draw_ghibli_tab_bar(&mut m, Some(TabKey::CtrlPageUp)), TabBar::Switched { rerender: true });
    assert_eq!(names(&m), vec!["main.rs", "Untitled-1.txt"]);
    assert_eq!(draw_ghibli_tab_bar(&mut m, Some(TabKey::Function(2))), TabBar::Switched { rerender: true });
    assert_eq!(names(&m), vec!["Untitled-1.txt", "main.rs"]);
    assert_eq!(draw_ghibli_tab_bar(&mut m, Some(TabKey::Function(9))), TabBar::Switched { rerender: false });
    assert_eq!(names(&m), vec!["Untitled-1.txt", "main.rs"]);
    assert!(matches!(draw_ghibli_tab_bar(&mut m, Some(TabKey::Function(10))), TabBar::Show { .. }));
    assert!(matches!(draw_ghibli_tab_bar(&mut m, Some(TabKey::Other)), TabBar::Show { .. }));
}

#[test]
fn icons() {
    assert_eq!(file_icon(FileType::Rust), "🦀");
    assert_eq!(file_icon(FileType::C), "⚙");
    assert_eq!(file_icon(FileType::Cpp), "⚙");
    assert_eq!(file_icon(FileType::YAML), "⚙️");
    assert_eq!(file_icon(FileType::TOML), "📄");
    assert_eq!(file_icon(FileType::Plain), "📄");
}
