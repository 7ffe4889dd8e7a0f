use vstd::prelude::*;

use crate::file_type::{spec_detect_file_type, FileType};
use crate::goto::Point;
use crate::highlight::{first_present, ghibli_themes, SyntaxHighlighter};
use crate::paths::{file_name_of, parent_of, path_file_name, path_parent};
use crate::syntect_api::default_theme_names;
use crate::text::{chars_of, is_literal, string_of};

verus! {

/// Identifies a file on disk (device and inode), so that a file opened twice is recognised.
#[derive(Debug, Clone, Copy, PartialEq, Eq, Structural)]
pub struct FileId {
    pub device: u64,
    pub inode: u64,
}

/// Whether two optional file identities are the same.
pub fn same_file_id(a: &Option<FileId>, b: &Option<FileId>) -> (r: bool)
    ensures
        r == (*a == *b),
{
    match (a, b) {
        (Some(x), Some(y)) => x.device == y.device && x.inode == y.inode,
        (None, None) => true,
        _ => false,
    }
}

/// The character of a decimal digit.
pub open spec fn digit_char(d: int) -> char {
    (d + 48) as char
}

/// `n` written in decimal, without leading zeros.
pub open spec fn decimal(n: nat) -> Seq<char>
    decreases n,
{
    if n < 10 {
        seq![digit_char(n as int)]
    } else {
        decimal(n / 10).push(digit_char((n % 10) as int))
    }
}

fn push_decimal(n: usize, out: &mut Vec<char>)
    ensures
        final(out)@ == old(out)@ + decimal(n as nat),
    decreases n,
{
    if n >= 10 {
        push_decimal(n / 10, out);
    }
    let d: u8 = (n % 10) as u8;
    let c = (48u8 + d) as char;
    assert(c == digit_char((n % 10) as int));
    out.push(c);
}

/// The name of the untitled document numbered `n`.
pub open spec fn untitled_name(n: nat) -> Seq<char> {
    "Untitled-"@ + decimal(n) + ".txt"@
}

/// "Untitled-<n>.txt".
pub fn untitled_name_for(n: usize) -> (r: String)
    ensures
        r@ == untitled_name(n as nat),
{
    let mut digits: Vec<char> = Vec::new();
    push_decimal(n, &mut digits);
    assert(digits@ =~= decimal(n as nat));
    let number = string_of(&digits, 0, digits.len());
    assert(digits@.subrange(0, digits@.len() as int) =~= digits@);
    let mut r = String::from_str("Untitled-");
    r.append(number.as_str());
    r.append(".txt");
    r
}

/// The ruler column of a file: 72 for a commit message, none (0) otherwise.
pub open spec fn spec_ruler_for(filename: Seq<char>) -> usize {
    if filename == "COMMIT_EDITMSG"@ {
        72
    } else {
        0
    }
}

/// An open document. `is_dirty`, `ruler` and `cursor` stand for the state of its text
/// buffer that the document list reads and sets.
pub struct Document {
    pub path: Option<String>,
    pub dir: Option<String>,
    pub filename: String,
    pub file_id: Option<FileId>,
    pub new_file_counter: usize,
    pub syntax_highlighter: Option<SyntaxHighlighter>,
    pub file_type: FileType,
    pub is_dirty: bool,
    pub ruler: usize,
    pub cursor: Point,
}

/// The start of a text: line 0, column 0.
pub open spec fn origin() -> Point {
    Point { x: 0, y: 0 }
}

/// Where the cursor of a newly opened file goes: to `goto` when the file was read and
/// `goto` is not the start, else to the start.
pub open spec fn opening_cursor(file_id: Option<FileId>, goto: Option<Point>) -> Point {
    match goto {
        Some(g) => if file_id is Some && g != origin() {
            g
        } else {
            origin()
        },
        None => origin(),
    }
}

/// A document with its cursor moved to `goto`, when there is one.
pub open spec fn moved_to(doc: Document, goto: Option<Point>) -> Document {
    match goto {
        Some(g) => Document { cursor: g, ..doc },
        None => doc,
    }
}

/// The file name of a path, or nothing.
pub open spec fn file_name_or_empty(path: Seq<char>) -> Seq<char> {
    match path_file_name(path) {
        Some(n) => n,
        None => Seq::empty(),
    }
}

/// What `set_path(path)` makes of a document: its path, file name, directory, file type,
/// ruler and a highlighter set to the first Studio Ghibli theme available.
pub open spec fn describes_path(doc: Document, path: Seq<char>) -> bool {
    &&& doc.path matches Some(p) && p@ == path
    &&& doc.filename@ == file_name_or_empty(path)
    &&& doc.dir matches Some(d) && d@ == match path_parent(path) {
        Some(parent) => parent,
        None => Seq::empty(),
    }
    &&& doc.file_type == spec_detect_file_type(file_name_or_empty(path))
    &&& doc.ruler == spec_ruler_for(file_name_or_empty(path))
    &&& doc.syntax_highlighter matches Some(h) && h.wf() && h.theme() == "base16-mocha.dark"@
}

impl Document {
    /// A document with no path, no name and no highlighter.
    fn blank(file_id: Option<FileId>) -> (r: Self)
        ensures
            r.path is None,
            r.dir is None,
            r.filename@ == Seq::<char>::empty(),
            r.file_id == file_id,
            r.new_file_counter == 0,
            r.syntax_highlighter is None,
            r.file_type == FileType::Plain,
            !r.is_dirty,
            r.ruler == 0,
            r.cursor == origin(),
    {
        Document {
            path: None,
            dir: None,
            filename: String::new(),
            file_id,
            new_file_counter: 0,
            syntax_highlighter: None,
            file_type: FileType::Plain,
            is_dirty: false,
            ruler: 0,
            cursor: Point { x: 0, y: 0 },
        }
    }

    /// Gives the document the path `path`: its file name, directory and file type follow
    /// from it, it gets a highlighter with a Studio Ghibli theme, and its ruler is set.
    pub fn set_path(&mut self, path: String)
        ensures
            describes_path(*final(self), path@),
            final(self).file_id == old(self).file_id,
            final(self).new_file_counter == old(self).new_file_counter,
            final(self).is_dirty == old(self).is_dirty,
            final(self).cursor == old(self).cursor,
    {
        let filename = match file_name_of(path.as_str()) {
            Some(n) => n,
            None => String::new(),
        };
        let dir = match parent_of(path.as_str()) {
            Some(d) => d,
            None => String::new(),
        };
        self.file_type = SyntaxHighlighter::detect_file_type(filename.as_str());
        self.filename = filename;
        self.dir = Some(dir);
        self.path = Some(path);
        let mut highlighter = SyntaxHighlighter::new();
        proof {
            let names = default_theme_names();
            assert(names.contains("base16-mocha.dark"@));
            assert(ghibli_themes()[0] == "base16-mocha.dark"@);
            assert(first_present(names, ghibli_themes()) == Some(0int));
        }
        highlighter.set_ghibli_theme();
        self.syntax_highlighter = Some(highlighter);
        self.update_file_mode();
    }

    /// Sets the ruler: 72 columns for a commit message, none otherwise.
    fn update_file_mode(&mut self)
        ensures
            final(self).ruler == spec_ruler_for(old(self).filename@),
            final(self).path == old(self).path,
            final(self).dir == old(self).dir,
            final(self).filename == old(self).filename,
            final(self).file_id == old(self).file_id,
            final(self).new_file_counter == old(self).new_file_counter,
            final(self).syntax_highlighter == old(self).syntax_highlighter,
            final(self).file_type == old(self).file_type,
            final(self).is_dirty == old(self).is_dirty,
            final(self).cursor == old(self).cursor,
    {
        let name = chars_of(self.filename.as_str());
        self.ruler = if is_literal(&name, "COMMIT_EDITMSG") {
            72
        } else {
            0
        };
    }
}

/// The name shown for a document in the tab bar: "Untitled" when it has no file name.
pub open spec fn spec_display_name(filename: Seq<char>) -> Seq<char> {
    if filename.len() == 0 {
        "Untitled"@
    } else {
        filename
    }
}

/// The name shown for a document in the tab bar.
pub fn get_display_name(doc: &Document) -> (r: String)
    ensures
        r@ == spec_display_name(doc.filename@),
{
    if doc.filename.as_str().is_empty() {
        String::from_str("Untitled")
    } else {
        doc.filename.clone()
    }
}

/// The list with its element `i` moved to the front, the others keeping their order.
pub open spec fn move_to_front<T>(s: Seq<T>, i: int) -> Seq<T> {
    seq![s[i]] + s.remove(i)
}

/// The list with its first element moved to the back.
pub open spec fn rotate_forward<T>(s: Seq<T>) -> Seq<T> {
    s.drop_first().push(s[0])
}

/// The list with its last element moved to the front.
pub open spec fn rotate_backward<T>(s: Seq<T>) -> Seq<T> {
    seq![s.last()] + s.drop_last()
}

/// The largest untitled-document number in use (0 when there is none).
pub open spec fn max_counter(docs: Seq<Document>) -> nat
    decreases docs.len(),
{
    if docs.len() == 0 {
        0
    } else {
        let rest = max_counter(docs.drop_last());
        if docs.last().new_file_counter > rest {
            docs.last().new_file_counter as nat
        } else {
            rest
        }
    }
}

proof fn lemma_max_counter(docs: Seq<Document>)
    ensures
        forall|i: int| 0 <= i < docs.len() ==> (#[trigger] docs[i]).new_file_counter <= max_counter(docs),
        max_counter(docs) <= usize::MAX,
    decreases docs.len(),
{
    if docs.len() > 0 {
        lemma_max_counter(docs.drop_last());
        assert forall|i: int| 0 <= i < docs.len() implies (#[trigger] docs[i]).new_file_counter <= max_counter(docs) by {
            if i < docs.len() - 1 {
                assert(docs[i] == docs.drop_last()[i]);
            }
        }
    }
}

/// A document that can be replaced when another file is opened: it has no path, no file
/// and no unsaved changes.
pub open spec fn is_pristine(doc: Document) -> bool {
    doc.path is None && doc.file_id is None && !doc.is_dirty
}

/// The open documents; the first one is the active document.
pub struct DocumentManager {
    list: Vec<Document>,
}

impl Default for DocumentManager {
    fn default() -> (r: Self)
        ensures
            r.docs().len() == 0,
    {
        DocumentManager { list: Vec::new() }
    }
}

impl DocumentManager {
    /// The documents, the active one first.
    pub closed spec fn docs(self) -> Seq<Document> {
        self.list@
    }

    /// No open document.
    pub fn new() -> (r: Self)
        ensures
            r.docs().len() == 0,
    {
        DocumentManager { list: Vec::new() }
    }

    /// The number of open documents.
    pub fn len(&self) -> (r: usize)
        ensures
            r == self.docs().len(),
    {
        self.list.len()
    }

    /// The active document, if any.
    pub fn active(&self) -> (r: Option<&Document>)
        ensures
            match r {
                Some(d) => self.docs().len() > 0 && *d == self.docs()[0],
                None => self.docs().len() == 0,
            },
    {
        self.list.first()
    }

    /// The active document, to change it.
    pub fn active_mut(&mut self) -> (r: Option<&mut Document>)
        ensures
            match r {
                Some(d) => old(self).docs().len() > 0 && *d == old(self).docs()[0] && final(self).docs()
                    == old(self).docs().update(0, *final(d)),
                None => old(self).docs().len() == 0 && final(self).docs() == old(self).docs(),
            },
    {
        self.list.first_mut()
    }

    /// Makes the first document for which `func` holds the active one; false (and nothing
    /// changes) when there is none.
    pub fn update_active<F: Fn(&Document) -> bool>(&mut self, func: F) -> (r: bool)
        requires
            forall|i: int| 0 <= i < old(self).docs().len() ==> func.requires((&old(self).docs()[i],)),
        ensures
            r ==> exists|k: int|
                0 <= k < old(self).docs().len() && func.ensures((&old(self).docs()[k],), true)
                    && (forall|j: int| 0 <= j < k ==> func.ensures((&old(self).docs()[j],), false))
                    && final(self).docs() == move_to_front(old(self).docs(), k),
            !r ==> final(self).docs() == old(self).docs() && forall|j: int|
                0 <= j < old(self).docs().len() ==> func.ensures((&old(self).docs()[j],), false),
    {
        let mut i: usize = 0;
        while i < self.list.len()
            invariant
                i <= self.list@.len(),
                self.list@ == old(self).docs(),
                forall|k: int| 0 <= k < old(self).docs().len() ==> func.requires((&old(self).docs()[k],)),
                forall|j: int| 0 <= j < i ==> func.ensures((&old(self).docs()[j],), false),
            decreases self.list.len() - i,
        {
            let found = func(&self.list[i]);
            if found {
                let doc = self.list.remove(i);
                self.list.insert(0, doc);
                assert(self.list@ =~= move_to_front(old(self).docs(), i as int));
                return true;
            }
            i = i + 1;
        }
        false
    }

    /// Closes the active document.
    pub fn remove_active(&mut self)
        ensures
            final(self).docs() == if old(self).docs().len() > 0 {
                old(self).docs().drop_first()
            } else {
                old(self).docs()
            },
    {
        if self.list.len() > 0 {
            self.list.remove(0);
            assert(self.list@ =~= old(self).docs().drop_first());
        }
    }

    /// Get all documents as a vector (for tab display)
    pub fn all_documents(&self) -> (r: Vec<&Document>)
        ensures
            r@.len() == self.docs().len(),
            forall|i: int| 0 <= i < r@.len() ==> *(#[trigger] r@[i]) == self.docs()[i],
    {
        let mut r: Vec<&Document> = Vec::new();
        let mut i: usize = 0;
        while i < self.list.len()
            invariant
                i <= self.list@.len(),
                r@.len() == i,
                forall|k: int| 0 <= k < i ==> *(#[trigger] r@[k]) == self.list@[k],
            decreases self.list.len() - i,
        {
            r.push(&self.list[i]);
            i = i + 1;
        }
        r
    }

    /// Get the index of the currently active document (always the first, if any)
    pub fn active_index(&self) -> (r: Option<usize>)
        ensures
            r == if self.docs().len() == 0 {
                None::<usize>
            } else {
                Some(0usize)
            },
    {
        if self.list.len() == 0 {
            None
        } else {
            Some(0)
        }
    }

    /// Switch to document at the given index: it becomes the active one, the others keep
    /// their order. False (and nothing changes) for an index past the end.
    pub fn switch_to_index(&mut self, index: usize) -> (r: bool)
        ensures
            r == (index < old(self).docs().len()),
            r ==> final(self).docs() == move_to_front(old(self).docs(), index as int),
            !r ==> final(self).docs() == old(self).docs(),
    {
        if index >= self.list.len() {
            return false;
        }
        if index == 0 {
            assert(self.list@ =~= move_to_front(old(self).docs(), 0));
            return true;
        }
        let doc = self.list.remove(index);
        self.list.insert(0, doc);
        assert(self.list@ =~= move_to_front(old(self).docs(), index as int));
        true
    }

    /// Switch to the next document (cycle forward): the active document goes to the back.
    /// False (and nothing changes) with fewer than two documents.
    pub fn switch_to_next(&mut self) -> (r: bool)
        ensures
            r == (old(self).docs().len() > 1),
            r ==> final(self).docs() == rotate_forward(old(self).docs()),
            !r ==> final(self).docs() == old(self).docs(),
    {
        if self.list.len() <= 1 {
            return false;
        }
        let doc = self.list.remove(0);
        self.list.push(doc);
        assert(self.list@ =~= rotate_forward(old(self).docs()));
        true
    }

    /// Switch to the previous document (cycle backward): the last document becomes the
    /// active one. False (and nothing changes) with fewer than two documents.
    pub fn switch_to_previous(&mut self) -> (r: bool)
        ensures
            r == (old(self).docs().len() > 1),
            r ==> final(self).docs() == rotate_backward(old(self).docs()),
            !r ==> final(self).docs() == old(self).docs(),
    {
        if self.list.len() <= 1 {
            return false;
        }
        let doc = self.list.pop().unwrap();
        self.list.insert(0, doc);
        assert(self.list@ =~= rotate_backward(old(self).docs()));
        true
    }

    /// Names `doc` "Untitled-<n>.txt", with `n` one more than the largest number of the open
    /// documents.
    pub fn gen_untitled_name(&self, doc: &mut Document)
        requires
            max_counter(self.docs()) < usize::MAX,
        ensures
            final(doc).new_file_counter == max_counter(self.docs()) + 1,
            forall|i: int|
                0 <= i < self.docs().len() ==> (#[trigger] self.docs()[i]).new_file_counter
                    < final(doc).new_file_counter,
            final(doc).filename@ == untitled_name(max_counter(self.docs()) + 1),
            final(doc).path == old(doc).path,
            final(doc).dir == old(doc).dir,
            final(doc).file_id == old(doc).file_id,
            final(doc).syntax_highlighter == old(doc).syntax_highlighter,
            final(doc).file_type == old(doc).file_type,
            final(doc).is_dirty == old(doc).is_dirty,
            final(doc).ruler == old(doc).ruler,
            final(doc).cursor == old(doc).cursor,
    {
        let mut new_file_counter: usize = 0;
        let mut i: usize = 0;
        while i < self.list.len()
            invariant
                i <= self.list@.len(),
                new_file_counter as nat == max_counter(self.list@.take(i as int)),
            decreases self.list.len() - i,
        {
            assert(self.list@.take(i + 1).drop_last() =~= self.list@.take(i as int));
            if self.list[i].new_file_counter > new_file_counter {
                new_file_counter = self.list[i].new_file_counter;
            }
            i = i + 1;
        }
        assert(self.list@.take(self.list@.len() as int) =~= self.list@);
        proof {
            lemma_max_counter(self.list@);
        }
        new_file_counter = new_file_counter + 1;
        doc.filename = untitled_name_for(new_file_counter);
        doc.new_file_counter = new_file_counter;
    }

    /// Opens a new untitled document and makes it the active one.
    pub fn add_untitled(&mut self) -> (r: &mut Document)
        requires
            max_counter(old(self).docs()) < usize::MAX,
        ensures
            r.path is None,
            r.dir is None,
            r.file_id is None,
            r.syntax_highlighter is None,
            !r.is_dirty,
            r.ruler == 0,
            r.cursor == origin(),
            r.file_type == FileType::Plain,
            r.new_file_counter == max_counter(old(self).docs()) + 1,
            forall|i: int|
                0 <= i < old(self).docs().len() ==> (#[trigger] old(self).docs()[i]).new_file_counter
                    < r.new_file_counter,
            r.filename@ == untitled_name(max_counter(old(self).docs()) + 1),
            final(self).docs() == seq![*final(r)] + old(self).docs(),
    {
        let mut doc = Document::blank(None);
        self.gen_untitled_name(&mut doc);
        self.list.insert(0, doc);
        &mut self.list[0]
    }

    /// Opens the file at `path` (whose identity on disk is `file_id`, when it exists) and
    /// makes it the active document, its cursor at `goto`. A file that is already open is
    /// made active again. A pristine untitled active document is replaced by the new one.
    pub fn add_file_path(&mut self, path: String, file_id: Option<FileId>, goto: Option<Point>) -> (r: &mut Document)
        ensures
            ({
                let docs = old(self).docs();
                let already = file_id is Some && exists|k: int| 0 <= k < docs.len() && (#[trigger] docs[k]).file_id == file_id;
                &&& already ==> exists|k: int|
                    0 <= k < docs.len() && docs[k].file_id == file_id && (forall|j: int|
                        0 <= j < k ==> (#[trigger] docs[j]).file_id != file_id) && final(self).docs()
                        == move_to_front(docs, k).update(0, *final(r)) && *r == moved_to(docs[k], goto)
                &&& !already ==> {
                    &&& describes_path(*r, path@)
                    &&& r.file_id == file_id
                    &&& r.new_file_counter == 0
                    &&& !r.is_dirty
                    &&& r.cursor == opening_cursor(file_id, goto)
                    &&& final(self).docs() == seq![*final(r)] + if docs.len() > 0 && is_pristine(docs[0]) {
                        docs.drop_first()
                    } else {
                        docs
                    }
                }
            }),
    {
        let ghost docs = self.list@;
        if file_id.is_some() {
            let wanted = file_id;
            let is_wanted = (|doc: &Document| -> (b: bool)
                ensures
                    b == (doc.file_id == wanted),
                { same_file_id(&doc.file_id, &wanted) });
            let found = self.update_active(is_wanted);
            if found {
                let doc = &mut self.list[0];
                if let Some(g) = goto {
                    doc.cursor = g;
                }
                return doc;
            }
            assert forall|k: int| 0 <= k < docs.len() implies (#[trigger] docs[k]).file_id != file_id by {
                assert(!(docs[k].file_id == wanted));
            }
        }
        let mut doc = Document::blank(file_id);
        if let Some(g) = goto {
            if file_id.is_some() && !(g.x == 0 && g.y == 0) {
                doc.cursor = g;
            }
        }
        doc.set_path(path);
        if self.list.len() > 0 {
            let active = &self.list[0];
            if active.path.is_none() && active.file_id.is_none() && !active.is_dirty {
                self.remove_active();
            }
        }
        self.list.insert(0, doc);
        &mut self.list[0]
    }
}

/// Switching to the previous document undoes switching to the next one, and switching to
/// the next one undoes switching to the previous one.
pub proof fn lemma_next_and_previous_are_inverse<T>(s: Seq<T>)
    requires
        s.len() > 1,
    ensures
        rotate_backward(rotate_forward(s)) == s,
        rotate_forward(rotate_backward(s)) == s,
{
    assert(rotate_backward(rotate_forward(s)) =~= s);
    assert(rotate_forward(rotate_backward(s)) =~= s);
}

/// Switching documents (to an index, forward or backward) neither opens nor closes any:
/// the same documents stay open, as many times each.
pub proof fn lemma_switching_keeps_documents<T>(s: Seq<T>, i: int)
    requires
        0 <= i < s.len(),
    ensures
        move_to_front(s, i).to_multiset() == s.to_multiset(),
        rotate_forward(s).to_multiset() == s.to_multiset(),
        rotate_backward(s).to_multiset() == s.to_multiset(),
        move_to_front(s, i).len() == s.len(),
        rotate_forward(s).len() == s.len(),
        rotate_backward(s).len() == s.len(),
{
    broadcast use vstd::seq_lib::group_to_multiset_ensures;
    broadcast use vstd::multiset::group_multiset_axioms;

    vstd::seq_lib::to_multiset_remove(s, i);
    vstd::seq_lib::to_multiset_insert(s.remove(i), 0, s[i]);
    assert(move_to_front(s, i) =~= s.remove(i).insert(0, s[i]));
    assert(s.to_multiset().contains(s[i]));
    assert(s.to_multiset().remove(s[i]).insert(s[i]) =~= s.to_multiset());

    vstd::seq_lib::to_multiset_remove(s, 0);
    vstd::seq_lib::to_multiset_build(s.remove(0), s[0]);
    assert(rotate_forward(s) =~= s.remove(0).push(s[0]));
    assert(s.to_multiset().contains(s[0]));
    assert(s.to_multiset().remove(s[0]).insert(s[0]) =~= s.to_multiset());

    let l: int = s.len() - 1;
    vstd::seq_lib::to_multiset_remove(s, l);
    vstd::seq_lib::to_multiset_insert(s.remove(l), 0, s[l]);
    assert(rotate_backward(s) =~= s.remove(l).insert(0, s[l]));
    assert(s.to_multiset().contains(s[l]));
    assert(s.to_multiset().remove(s[l]).insert(s[l]) =~= s.to_multiset());
}

/// Switching to index `i` makes document `i` the active one and keeps the others in their
/// order behind it.
pub proof fn lemma_switch_to_index_front<T>(s: Seq<T>, i: int)
    requires
        0 <= i < s.len(),
    ensures
        move_to_front(s, i)[0] == s[i],
        move_to_front(s, i).drop_first() == s.remove(i),
{
    assert(move_to_front(s, i).drop_first() =~= s.remove(i));
}

/// `k` switches forward.
pub open spec fn rotate_forward_times<T>(s: Seq<T>, k: nat) -> Seq<T>
    decreases k,
{
    if k == 0 {
        s
    } else {
        rotate_forward(rotate_forward_times(s, (k - 1) as nat))
    }
}

/// Switching forward once per open document comes back to the document one started from,
/// with the documents in their first order.
pub proof fn lemma_full_cycle<T>(s: Seq<T>)
    requires
        s.len() > 0,
    ensures
        rotate_forward_times(s, s.len()) == s,
{
    lemma_rotate_forward_times(s, s.len());
    assert(s.skip(s.len() as int) + s.take(s.len() as int) =~= s);
}

proof fn lemma_rotate_forward_times<T>(s: Seq<T>, k: nat)
    requires
        s.len() > 0,
        k <= s.len(),
    ensures
        rotate_forward_times(s, k) == s.skip(k as int) + s.take(k as int),
    decreases k,
{
    if k == 0 {
        assert(s.skip(0) + s.take(0) =~= s);
    } else {
        lemma_rotate_forward_times(s, (k - 1) as nat);
        let prev = s.skip(k - 1) + s.take(k - 1);
        assert(prev[0] == s[k - 1]);
        assert(rotate_forward(prev) =~= s.skip(k as int) + s.take(k as int));
    }
}

proof fn lemma_decimal_len(n: nat)
    ensures
        decimal(n).len() >= 1,
    decreases n,
{
    if n >= 10 {
        lemma_decimal_len(n / 10);
    }
}

proof fn lemma_decimal_injective(m: nat, n: nat)
    requires
        decimal(m) == decimal(n),
    ensures
        m == n,
    decreases m + n,
{
    lemma_decimal_len(m / 10);
    lemma_decimal_len(n / 10);
    let dm = decimal(m);
    let dn = decimal(n);
    assert(dm.last() == dn.last());
    assert(digit_char((m % 10) as int) == dm.last());
    assert(digit_char((n % 10) as int) == dn.last());
    assert((m % 10) == (n % 10)) by {
        assert(((m % 10) as int + 48) as char == ((n % 10) as int + 48) as char);
    }
    if m >= 10 && n >= 10 {
        assert(decimal(m / 10) =~= dm.drop_last());
        assert(decimal(n / 10) =~= dn.drop_last());
        lemma_decimal_injective(m / 10, n / 10);
    } else if m >= 10 {
        assert(dm.len() >= 2);
    } else if n >= 10 {
        assert(dn.len() >= 2);
    }
}

/// Different numbers give different untitled names.
pub proof fn lemma_untitled_names_distinct(m: nat, n: nat)
    requires
        m != n,
    ensures
        untitled_name(m) != untitled_name(n),
{
    if untitled_name(m) == untitled_name(n) {
        let a = "Untitled-"@;
        let b = ".txt"@;
        assert(decimal(m) =~= untitled_name(m).subrange(a.len() as int, untitled_name(m).len() - b.len()));
        assert(decimal(n) =~= untitled_name(n).subrange(a.len() as int, untitled_name(n).len() - b.len()));
        lemma_decimal_injective(m, n);
    }
}


/// A commit message gets a ruler at column 72; every other file gets none.
pub proof fn lemma_commit_message_ruler(filename: Seq<char>)
    ensures
        spec_ruler_for("COMMIT_EDITMSG"@) == 72,
        filename != "COMMIT_EDITMSG"@ ==> spec_ruler_for(filename) == 0,
{
}


/// The number that the decimal digits `s` write.
pub open spec fn decimal_value(s: Seq<char>) -> int
    decreases s.len(),
{
    if s.len() == 0 {
        0
    } else {
        decimal_value(s.drop_last()) * 10 + (s.last() as u32 - 48)
    }
}

/// `decimal(n)` writes `n` in base 10: its characters are the digits `0` to `9`, it reads
/// back as `n`, and it has no leading zero.
pub proof fn lemma_decimal_writes_n(n: nat)
    ensures
        forall|i: int| 0 <= i < decimal(n).len() ==> '0' <= #[trigger] decimal(n)[i] <= '9',
        decimal_value(decimal(n)) == n,
        decimal(n).len() > 1 ==> decimal(n)[0] != '0',
    decreases n,
{
    let d = (n % 10) as int;
    assert(0 <= d < 10);
    assert((digit_char(d) as u32) == d + 48);
    assert(decimal_value(Seq::<char>::empty()) == 0);
    if n < 10 {
        assert(decimal(n).drop_last() =~= Seq::<char>::empty());
        assert(decimal(n).last() == digit_char(n as int));
        assert(n % 10 == n);
    } else {
        lemma_decimal_writes_n(n / 10);
        assert(decimal(n).drop_last() =~= decimal(n / 10));
        assert(decimal(n).last() == digit_char(d));
        assert((n / 10) * 10 + n % 10 == n) by (nonlinear_arith);
        if n / 10 >= 10 {
            lemma_decimal_len((n / 10) / 10);
        }
        assert forall|i: int| 0 <= i < decimal(n).len() implies '0' <= #[trigger] decimal(n)[i] <= '9' by {
            if i < decimal(n / 10).len() {
                assert(decimal(n)[i] == decimal(n / 10)[i]);
            }
        }
        if decimal(n / 10).len() == 1 {
            assert(n / 10 < 10);
            assert(n / 10 >= 1);
            assert(decimal(n)[0] == digit_char((n / 10) as int));
        } else {
            assert(decimal(n)[0] == decimal(n / 10)[0]);
        }
    }
}

} // verus!
