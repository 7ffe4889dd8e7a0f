use vstd::prelude::*;

use crate::documents::{get_display_name, spec_display_name, Document, DocumentManager, move_to_front, rotate_backward, rotate_forward};
use crate::file_type::FileType;

verus! {

/// The icon shown before a document's name in the tab bar.
pub open spec fn spec_file_icon(file_type: FileType) -> Seq<char> {
    match file_type {
        FileType::Rust => "🦀"@,
        FileType::JavaScript => "⚡"@,
        FileType::TypeScript => "💙"@,
        FileType::Python => "🐍"@,
        FileType::HTML => "🌐"@,
        FileType::CSS => "🎨"@,
        FileType::YAML => "⚙️"@,
        FileType::JSON => "{}"@,
        FileType::Markdown => "📝"@,
        FileType::Shell => "🐚"@,
        FileType::Go => "🐹"@,
        FileType::Java => "☕"@,
        FileType::C | FileType::Cpp => "⚙"@,
        FileType::CSharp => "#"@,
        FileType::Ruby => "💎"@,
        FileType::PHP => "🐘"@,
        FileType::SQL => "🗄"@,
        FileType::XML => "🏷"@,
        FileType::Swift => "🐦"@,
        FileType::Kotlin => "🎯"@,
        FileType::Lua => "🌙"@,
        FileType::Diff => "±"@,
        _ => "📄"@,
    }
}

/// The icon shown before a document's name in the tab bar.
pub fn file_icon(file_type: FileType) -> (r: &'static str)
    ensures
        r@ == spec_file_icon(file_type),
{
    match file_type {
        FileType::Rust => "🦀",
        FileType::JavaScript => "⚡",
        FileType::TypeScript => "💙",
        FileType::Python => "🐍",
        FileType::HTML => "🌐",
        FileType::CSS => "🎨",
        FileType::YAML => "⚙️",
        FileType::JSON => "{}",
        FileType::Markdown => "📝",
        FileType::Shell => "🐚",
        FileType::Go => "🐹",
        FileType::Java => "☕",
        FileType::C | FileType::Cpp => "⚙",
        FileType::CSharp => "#",
        FileType::Ruby => "💎",
        FileType::PHP => "🐘",
        FileType::SQL => "🗄",
        FileType::XML => "🏷",
        FileType::Swift => "🐦",
        FileType::Kotlin => "🎯",
        FileType::Lua => "🌙",
        FileType::Diff => "±",
        _ => "📄",
    }
}

/// The text of one tab: icon, a dot when there are unsaved changes, and the name.
pub open spec fn spec_tab_text(doc: Document) -> Seq<char> {
    spec_file_icon(doc.file_type) + if doc.is_dirty {
        " ● "@
    } else {
        " "@
    } + spec_display_name(doc.filename@)
}

/// A tab as shown in the bar: the active one in brackets, the others padded with spaces.
pub open spec fn spec_tab_entry(doc: Document, index: int, active: int) -> Seq<char> {
    if index == active {
        "["@ + spec_tab_text(doc) + "]"@
    } else {
        " "@ + spec_tab_text(doc) + " "@
    }
}

/// The tabs of all documents, separated by " 🌿 ".
pub open spec fn spec_tab_bar(docs: Seq<Document>, active: int) -> Seq<char>
    decreases docs.len(),
{
    if docs.len() == 0 {
        Seq::empty()
    } else {
        let n: int = docs.len() - 1;
        let before = spec_tab_bar(docs.drop_last(), active);
        (if n > 0 {
            before + " 🌿 "@
        } else {
            before
        }) + spec_tab_entry(docs[n], n, active)
    }
}

fn tab_text(doc: &Document) -> (r: String)
    ensures
        r@ == spec_tab_text(*doc),
{
    let mut r = String::from_str(file_icon(doc.file_type));
    if doc.is_dirty {
        r.append(" ● ");
    } else {
        r.append(" ");
    }
    let name = get_display_name(doc);
    r.append(name.as_str());
    r
}

/// The label of the tab bar for `docs`, the document at `active` shown as active.
pub fn tab_bar_label(docs: &Vec<&Document>, active: usize) -> (r: String)
    ensures
        r@ == spec_tab_bar(docs@.map_values(|d: &Document| *d), active as int),
{
    let ghost ds = docs@.map_values(|d: &Document| *d);
    let mut r = String::new();
    let mut i: usize = 0;
    while i < docs.len()
        invariant
            i <= docs@.len(),
            ds == docs@.map_values(|d: &Document| *d),
            r@ == spec_tab_bar(ds.take(i as int), active as int),
        decreases docs.len() - i,
    {
        assert(ds.take(i + 1).drop_last() =~= ds.take(i as int));
        assert(ds.take(i + 1)[i as int] == *docs@[i as int]);
        if i > 0 {
            r.append(" 🌿 ");
        }
        let text = tab_text(docs[i]);
        if i == active {
            r.append("[");
            r.append(text.as_str());
            r.append("]");
        } else {
            r.append(" ");
            r.append(text.as_str());
            r.append(" ");
        }
        i = i + 1;
    }
    assert(ds.take(docs@.len() as int) =~= ds);
    r
}

/// The keys the tab bar reacts to.
#[derive(Debug, Clone, Copy, PartialEq, Eq, Structural)]
pub enum TabKey {
    AltRight,
    AltLeft,
    CtrlPageDown,
    CtrlPageUp,
    /// A function key F1, F2, ... (its number).
    Function(u8),
    /// Any other key.
    Other,
}

/// What the tab bar does on a frame.
#[derive(Debug, PartialEq, Eq)]
pub enum TabBar {
    /// Fewer than two documents: no tab bar, keys are left alone.
    Hidden,
    /// A key switched (or tried to switch) documents; nothing is drawn this frame.
    Switched {
        rerender: bool,
    },
    /// The bar to draw: the tabs and a hint on the keys.
    Show {
        tabs: String,
        hint: &'static str,
    },
}

/// The hint shown after the tabs.
pub open spec fn tab_hint() -> Seq<char> {
    " [Alt+← →: Navigate | F1-F9: Jump | Ctrl+PgUp/PgDn: Switch]"@
}

/// Whether `r` shows the tabs of `docs` (the first one active) and the hint.
pub open spec fn shows_tabs(r: TabBar, docs: Seq<Document>) -> bool {
    &&& r matches TabBar::Show { tabs, hint }
    &&& tabs@ == spec_tab_bar(docs, 0)
    &&& hint@ == tab_hint()
}

/// Studio Ghibli themed tab bar: with two documents or more, Alt+Right and Ctrl+PageDown
/// switch to the next document, Alt+Left and Ctrl+PageUp to the previous one, F1 to F9 to
/// the document at that position; with no such key, the tabs are shown.
pub fn draw_ghibli_tab_bar(documents: &mut DocumentManager, key: Option<TabKey>) -> (r: TabBar)
    ensures
        ({
            let docs = old(documents).docs();
            if docs.len() <= 1 {
                r == TabBar::Hidden && final(documents).docs() == docs
            } else {
                match key {
                    Some(TabKey::AltRight) | Some(TabKey::CtrlPageDown) => r == (TabBar::Switched { rerender: true })
                        && final(documents).docs() == rotate_forward(docs),
                    Some(TabKey::AltLeft) | Some(TabKey::CtrlPageUp) => r == (TabBar::Switched { rerender: true })
                        && final(documents).docs() == rotate_backward(docs),
                    Some(TabKey::Function(n)) => if 1 <= n <= 9 {
                        if n - 1 < docs.len() {
                            r == (TabBar::Switched { rerender: true }) && final(documents).docs()
                                == move_to_front(docs, n - 1)
                        } else {
                            r == (TabBar::Switched { rerender: false }) && final(documents).docs() == docs
                        }
                    } else {
                        final(documents).docs() == docs && shows_tabs(r, docs)
                    },
                    _ => final(documents).docs() == docs && shows_tabs(r, docs),
                }
            }
        }),
{
    let document_count: usize = documents.len();
    if document_count <= 1 {
        return TabBar::Hidden;
    }
    match key {
        Some(TabKey::AltRight) | Some(TabKey::CtrlPageDown) => {
            documents.switch_to_next();
            return TabBar::Switched { rerender: true };
        },
        Some(TabKey::AltLeft) | Some(TabKey::CtrlPageUp) => {
            documents.switch_to_previous();
            return TabBar::Switched { rerender: true };
        },
        Some(TabKey::Function(n)) => {
            if 1 <= n && n <= 9 {
                let switched = documents.switch_to_index((n - 1) as usize);
                return TabBar::Switched { rerender: switched };
            }
        },
        _ => {},
    }
    let all = documents.all_documents();
    let active_index = match documents.active_index() {
        Some(i) => i,
        None => 0,
    };
    let tabs = tab_bar_label(&all, active_index);
    assert(all@.map_values(|d: &Document| *d) =~= documents.docs());
    TabBar::Show { tabs, hint: " [Alt+← →: Navigate | F1-F9: Jump | Ctrl+PgUp/PgDn: Switch]" }
}


/// Every tab shows its icon, then ` ● ` when its document has unsaved changes and a plain
/// space when it has not, then its name; the inactive tabs are padded with a space on each
/// side, and the active tab shows the very same text in brackets.
pub proof fn lemma_tab_entries(doc: Document, i: int, active: int)
    requires
        i != active,
    ensures
        spec_tab_entry(doc, i, active) == " "@ + spec_file_icon(doc.file_type) + (if doc.is_dirty {
            " ● "@
        } else {
            " "@
        }) + spec_display_name(doc.filename@) + " "@,
        spec_tab_entry(doc, active, active) == "["@ + spec_tab_entry(doc, i, active).subrange(
            1,
            spec_tab_entry(doc, i, active).len() - 1,
        ) + "]"@,
{
    reveal_strlit(" ");
    let inner = spec_tab_text(doc);
    let e = spec_tab_entry(doc, i, active);
    assert(e.subrange(1, e.len() - 1) =~= inner);
}


/// The icon of each language in the tab bar; languages without one of their own get the
/// page icon.
pub proof fn lemma_file_icons()
    ensures
        spec_file_icon(FileType::Rust) == "🦀"@,
        spec_file_icon(FileType::JavaScript) == "⚡"@,
        spec_file_icon(FileType::TypeScript) == "💙"@,
        spec_file_icon(FileType::Python) == "🐍"@,
        spec_file_icon(FileType::HTML) == "🌐"@,
        spec_file_icon(FileType::CSS) == "🎨"@,
        spec_file_icon(FileType::YAML) == "⚙️"@,
        spec_file_icon(FileType::JSON) == "{}"@,
        spec_file_icon(FileType::Markdown) == "📝"@,
        spec_file_icon(FileType::Shell) == "🐚"@,
        spec_file_icon(FileType::Go) == "🐹"@,
        spec_file_icon(FileType::Java) == "☕"@,
        spec_file_icon(FileType::C) == "⚙"@,
        spec_file_icon(FileType::Cpp) == "⚙"@,
        spec_file_icon(FileType::CSharp) == "#"@,
        spec_file_icon(FileType::Ruby) == "💎"@,
        spec_file_icon(FileType::PHP) == "🐘"@,
        spec_file_icon(FileType::SQL) == "🗄"@,
        spec_file_icon(FileType::XML) == "🏷"@,
        spec_file_icon(FileType::Swift) == "🐦"@,
        spec_file_icon(FileType::Kotlin) == "🎯"@,
        spec_file_icon(FileType::Lua) == "🌙"@,
        spec_file_icon(FileType::Diff) == "±"@,
        spec_file_icon(FileType::Plain) == "📄"@,
        spec_file_icon(FileType::Dockerfile) == "📄"@,
        spec_file_icon(FileType::TOML) == "📄"@,
        spec_file_icon(FileType::Makefile) == "📄"@,
        spec_file_icon(FileType::Scala) == "📄"@,
        spec_file_icon(FileType::PowerShell) == "📄"@,
        spec_file_icon(FileType::Perl) == "📄"@,
        spec_file_icon(FileType::Less) == "📄"@,
{
}


/// The tab bar shows the tabs in the order of the documents, separated by ` 🌿 `: adding a
/// document at the end adds the separator and its tab.
pub proof fn lemma_tab_bar_order(docs: Seq<Document>, doc: Document, active: int)
    ensures
        spec_tab_bar(seq![doc], active) == spec_tab_entry(doc, 0, active),
        docs.len() > 0 ==> spec_tab_bar(docs.push(doc), active) == spec_tab_bar(docs, active) + " 🌿 "@
            + spec_tab_entry(doc, docs.len() as int, active),
{
    assert(seq![doc].drop_last() =~= Seq::<Document>::empty());
    assert(spec_tab_bar(Seq::<Document>::empty(), active) == Seq::<char>::empty());
    assert(Seq::<char>::empty() + spec_tab_entry(doc, 0, active) =~= spec_tab_entry(doc, 0, active));
    assert(docs.push(doc).drop_last() =~= docs);
}

} // verus!
