use vstd::prelude::*;

use syntect::easy::HighlightLines;
use syntect::highlighting::{Style, Theme, ThemeSet};
use syntect::parsing::{SyntaxReference, SyntaxSet};

verus! {

#[verifier::external_type_specification]
#[verifier::external_body]
pub struct ExSyntaxSet(SyntaxSet);

#[verifier::external_type_specification]
#[verifier::external_body]
pub struct ExSyntaxReference(SyntaxReference);

#[verifier::external_type_specification]
#[verifier::external_body]
pub struct ExThemeSet(ThemeSet);

#[verifier::external_type_specification]
#[verifier::external_body]
pub struct ExTheme(Theme);

#[verifier::external_type_specification]
#[verifier::external_body]
pub struct ExStyle(Style);

#[verifier::external_type_specification]
#[verifier::external_body]
pub struct ExSyntectError(syntect::Error);

/// The syntaxes a `SyntaxSet` holds, in its order: for each, its `name` and its
/// `file_extensions`.
pub uninterp spec fn syntax_entries(set: SyntaxSet) -> Seq<(Seq<char>, Seq<Seq<char>>)>;

/// The syntax at position `i` of a `SyntaxSet`'s `syntaxes`.
pub uninterp spec fn syntax_at(set: SyntaxSet, i: int) -> SyntaxReference;

/// The keys of a `ThemeSet`'s `themes` map.
pub uninterp spec fn theme_names(themes: ThemeSet) -> Set<Seq<char>>;

/// The theme stored under `name` in a `ThemeSet`'s `themes` map.
pub uninterp spec fn theme_in(themes: ThemeSet, name: Seq<char>) -> Theme;

/// `Style::default()` with its foreground set to the color `(r, g, b, a)`.
pub uninterp spec fn styled(r: u8, g: u8, b: u8, a: u8) -> Style;

/// What a fresh `HighlightLines::new(syntax, theme)` gives for `highlight_line(line, set)`:
/// the styled pieces, or `None` when syntect reports an error.
pub uninterp spec fn syntect_highlight(
    syntax: SyntaxReference,
    theme: Theme,
    line: Seq<char>,
    set: SyntaxSet,
) -> Option<Seq<(Style, Seq<char>)>>;

/// `Style::default()`: black foreground (the `Color::BLACK` it is defined with).
pub open spec fn plain_style() -> Style {
    styled(0, 0, 0, 255)
}

/// ASCII lower case of a character (`char::to_ascii_lowercase`).
pub open spec fn ascii_lower(c: char) -> char {
    if 'A' <= c && c <= 'Z' {
        ((c as u32) + 32) as char
    } else {
        c
    }
}

/// `str::eq_ignore_ascii_case`: equal once both sides are in ASCII lower case.
pub open spec fn eq_ignore_ascii_case(a: Seq<char>, b: Seq<char>) -> bool {
    a.len() == b.len() && forall|i: int| 0 <= i < a.len() ==> ascii_lower(a[i]) == ascii_lower(b[i])
}

/// Whether a syntax of the set has the name `name`.
pub open spec fn has_syntax_named(entries: Seq<(Seq<char>, Seq<Seq<char>>)>, name: Seq<char>) -> bool {
    exists|i: int| 0 <= i < entries.len() && #[trigger] entries[i].0 == name
}

/// The position of the last syntax of the set named `name`.
pub open spec fn last_named(entries: Seq<(Seq<char>, Seq<Seq<char>>)>, name: Seq<char>) -> Option<int>
    decreases entries.len(),
{
    if entries.len() == 0 {
        None
    } else if entries.last().0 == name {
        Some(entries.len() - 1)
    } else {
        last_named(entries.drop_last(), name)
    }
}

/// There is a last syntax named `name` exactly when some syntax has that name, and it has it.
pub proof fn lemma_last_named(entries: Seq<(Seq<char>, Seq<Seq<char>>)>, name: Seq<char>)
    ensures
        last_named(entries, name) is Some == has_syntax_named(entries, name),
        last_named(entries, name) matches Some(i) ==> 0 <= i < entries.len() && entries[i].0 == name,
    decreases entries.len(),
{
    if entries.len() > 0 && entries.last().0 != name {
        let rest = entries.drop_last();
        lemma_last_named(rest, name);
        if has_syntax_named(entries, name) {
            let i = choose|i: int| 0 <= i < entries.len() && #[trigger] entries[i].0 == name;
            assert(rest[i] == entries[i]);
        }
        if has_syntax_named(rest, name) {
            let i = choose|i: int| 0 <= i < rest.len() && #[trigger] rest[i].0 == name;
            assert(rest[i] == entries[i]);
        }
    } else if entries.len() > 0 {
        assert(entries[entries.len() - 1].0 == name);
    }
}

/// Whether the syntax `entry` lists the extension `ext`, ignoring ASCII case.
pub open spec fn lists_extension(entry: (Seq<char>, Seq<Seq<char>>), ext: Seq<char>) -> bool {
    exists|j: int| 0 <= j < entry.1.len() && eq_ignore_ascii_case(#[trigger] entry.1[j], ext)
}

/// Whether a syntax of the set lists the extension `ext`, ignoring ASCII case.
pub open spec fn has_syntax_with_extension(
    entries: Seq<(Seq<char>, Seq<Seq<char>>)>,
    ext: Seq<char>,
) -> bool {
    exists|i: int| 0 <= i < entries.len() && lists_extension(#[trigger] entries[i], ext)
}

/// The position of the last syntax of the set that lists `ext` (ignoring ASCII case).
pub open spec fn last_with_extension(entries: Seq<(Seq<char>, Seq<Seq<char>>)>, ext: Seq<char>) -> Option<int>
    decreases entries.len(),
{
    if entries.len() == 0 {
        None
    } else if lists_extension(entries.last(), ext) {
        Some(entries.len() - 1)
    } else {
        last_with_extension(entries.drop_last(), ext)
    }
}

/// There is a last syntax listing `ext` exactly when some syntax lists it, and it does
/// list it.
pub proof fn lemma_last_with_extension(entries: Seq<(Seq<char>, Seq<Seq<char>>)>, ext: Seq<char>)
    ensures
        last_with_extension(entries, ext) is Some == has_syntax_with_extension(entries, ext),
        last_with_extension(entries, ext) matches Some(i) ==> 0 <= i < entries.len()
            && lists_extension(entries[i], ext),
    decreases entries.len(),
{
    if entries.len() > 0 && !lists_extension(entries.last(), ext) {
        let rest = entries.drop_last();
        lemma_last_with_extension(rest, ext);
        if has_syntax_with_extension(entries, ext) {
            let i = choose|i: int| 0 <= i < entries.len() && lists_extension(#[trigger] entries[i], ext);
            assert(rest[i] == entries[i]);
        }
        if has_syntax_with_extension(rest, ext) {
            let i = choose|i: int| 0 <= i < rest.len() && lists_extension(#[trigger] rest[i], ext);
            assert(rest[i] == entries[i]);
        }
    } else if entries.len() > 0 {
        assert(lists_extension(entries[entries.len() - 1], ext));
    }
}

/// The texts of a list of pieces, joined in order.
pub open spec fn concat_texts(texts: Seq<Seq<char>>) -> Seq<char>
    decreases texts.len(),
{
    if texts.len() == 0 {
        Seq::empty()
    } else {
        concat_texts(texts.drop_last()) + texts.last()
    }
}

/// The text of each styled piece.
pub open spec fn piece_texts<'a>(pieces: Seq<(Style, &'a str)>) -> Seq<Seq<char>> {
    pieces.map_values(|p: (Style, &'a str)| p.1@)
}

/// Whether `a` comes before `b` in the order of `String`: lexicographic by bytes, which for
/// UTF-8 text is lexicographic by code points.
pub open spec fn text_less(a: Seq<char>, b: Seq<char>) -> bool {
    exists|k: int|
        0 <= k <= a.len() && k <= b.len() && #[trigger] a.take(k) == b.take(k) && ((k == a.len()
            && k < b.len()) || (k < a.len() && k < b.len() && (a[k] as u32) < (b[k] as u32)))
}

/// Each styled piece with its text.
pub open spec fn pieces_view<'a>(pieces: Seq<(Style, &'a str)>) -> Seq<(Style, Seq<char>)> {
    pieces.map_values(|p: (Style, &'a str)| (p.0, p.1@))
}

/// The themes that `ThemeSet::load_defaults` documents.
pub open spec fn default_theme_names() -> Set<Seq<char>> {
    set![
        "base16-ocean.dark"@,
        "base16-eighties.dark"@,
        "base16-mocha.dark"@,
        "base16-ocean.light"@,
        "InspiredGitHub"@,
        "Solarized (dark)"@,
        "Solarized (light)"@,
    ]
}

/// `SyntaxSet::load_defaults_newlines`. The syntaxes it loads come from a binary dump, so
/// nothing is stated of them.
#[verifier::external_body]
pub(crate) fn load_default_syntaxes() -> SyntaxSet {
    SyntaxSet::load_defaults_newlines()
}

/// `ThemeSet::load_defaults`, whose documentation lists the seven theme names it loads.
#[verifier::external_body]
pub(crate) fn load_default_themes() -> (r: ThemeSet)
    ensures
        theme_names(r) == default_theme_names(),
{
    ThemeSet::load_defaults()
}

/// `SyntaxSet::find_syntax_by_extension`, with the `name` of the syntax found: it searches
/// the syntaxes from the last for one that lists `ext`, ignoring ASCII case.
#[verifier::external_body]
pub(crate) fn find_syntax_by_extension<'a>(set: &'a SyntaxSet, ext: &str) -> (r: Option<(&'a SyntaxReference, String)>)
    ensures
        r is Some == has_syntax_with_extension(syntax_entries(*set), ext@),
        r matches Some(found) ==> last_with_extension(syntax_entries(*set), ext@) matches Some(i)
            && found.1@ == syntax_entries(*set)[i].0 && *found.0 == syntax_at(*set, i),
{
    set.find_syntax_by_extension(ext).map(|s| (s, s.name.clone()))
}

/// `SyntaxSet::find_syntax_by_name`, with the `name` of the syntax found: it searches the
/// syntaxes from the last for one whose name is `name`.
#[verifier::external_body]
pub(crate) fn find_syntax_by_name<'a>(set: &'a SyntaxSet, name: &str) -> (r: Option<(&'a SyntaxReference, String)>)
    ensures
        r is Some == has_syntax_named(syntax_entries(*set), name@),
        r matches Some(found) ==> last_named(syntax_entries(*set), name@) matches Some(i)
            && found.1@ == name@ && *found.0 == syntax_at(*set, i),
{
    set.find_syntax_by_name(name).map(|s| (s, s.name.clone()))
}

/// The name and extensions of every syntax of the set, in order (`SyntaxSet::syntaxes`).
#[verifier::external_body]
pub(crate) fn syntax_list(set: &SyntaxSet) -> (r: Vec<(String, Vec<String>)>)
    ensures
        r@.len() == syntax_entries(*set).len(),
        forall|i: int|
            0 <= i < r@.len() ==> (#[trigger] r@[i]).0@ == syntax_entries(*set)[i].0
                && r@[i].1@.map_values(|e: String| e@) == syntax_entries(*set)[i].1,
{
    set.syntaxes().iter().map(|s| (s.name.clone(), s.file_extensions.clone())).collect()
}

/// `BTreeMap::contains_key` on the set's `themes`.
#[verifier::external_body]
pub(crate) fn has_theme(themes: &ThemeSet, name: &str) -> (r: bool)
    ensures
        r == theme_names(*themes).contains(name@),
{
    themes.themes.contains_key(name)
}

/// `BTreeMap::insert` on the set's `themes`: afterwards `name` is among the keys and holds
/// `theme`; every other key keeps its theme.
#[verifier::external_body]
pub(crate) fn insert_theme(themes: &mut ThemeSet, name: String, theme: Theme)
    ensures
        theme_names(*final(themes)) == theme_names(*old(themes)).insert(name@),
        theme_in(*final(themes), name@) == theme,
        forall|n: Seq<char>| n != name@ ==> #[trigger] theme_in(*final(themes), n) == theme_in(*old(themes), n),
{
    themes.themes.insert(name, theme);
}

/// `BTreeMap::keys` on the set's `themes`, each key copied: every key once, in sorted order.
#[verifier::external_body]
pub(crate) fn theme_name_list(themes: &ThemeSet) -> (r: Vec<String>)
    ensures
        forall|i: int| 0 <= i < r@.len() ==> theme_names(*themes).contains(#[trigger] r@[i]@),
        forall|n: Seq<char>|
            theme_names(*themes).contains(n) ==> exists|i: int| 0 <= i < r@.len() && #[trigger] r@[i]@ == n,
        forall|i: int, j: int| 0 <= i < j < r@.len() ==> r@[i]@ != r@[j]@,
        forall|i: int, j: int| 0 <= i < j < r@.len() ==> text_less(r@[i]@, r@[j]@),
{
    themes.themes.keys().map(|k| k.to_string()).collect()
}

/// The theme stored under `name` (indexing the `themes` map, which panics on a missing key).
#[verifier::external_body]
pub(crate) fn theme_named<'a>(themes: &'a ThemeSet, name: &str) -> (r: &'a Theme)
    requires
        theme_names(*themes).contains(name@),
    ensures
        *r == theme_in(*themes, name@),
{
    &themes.themes[name]
}

/// `Style::default()`.
#[verifier::external_body]
pub(crate) fn default_style() -> (r: Style)
    ensures
        r == plain_style(),
{
    Style::default()
}

/// `Style::default()` with its foreground set to the color `(r, g, b, a)`.
#[verifier::external_body]
pub(crate) fn style_with_foreground(r: u8, g: u8, b: u8, a: u8) -> (s: Style)
    ensures
        s == styled(r, g, b, a),
{
    Style { foreground: syntect::highlighting::Color { r, g, b, a }, ..Style::default() }
}

/// `HighlightLines::new(syntax, theme)` followed by `highlight_line(line, set)` on that
/// fresh highlighter, with `syntax` one of `set`'s syntaxes (syntect documents a wrong
/// result or a panic otherwise). Its pieces are documented to join back into the line; where syntect
/// cuts the line and which styles it gives are only named (`syntect_highlight`).
#[verifier::external_body]
pub(crate) fn highlight_with<'b>(
    syntax: &SyntaxReference,
    theme: &Theme,
    line: &'b str,
    set: &SyntaxSet,
) -> (r: Result<Vec<(Style, &'b str)>, syntect::Error>)
    requires
        exists|i: int| 0 <= i < syntax_entries(*set).len() && *syntax == syntax_at(*set, i),
    ensures
        match r {
            Ok(pieces) => syntect_highlight(*syntax, *theme, line@, *set) == Some(pieces_view(pieces@))
                && concat_texts(piece_texts(pieces@)) == line@,
            Err(_) => syntect_highlight(*syntax, *theme, line@, *set) is None,
        },
{
    HighlightLines::new(syntax, theme).highlight_line(line, set)
}

} // verus!
