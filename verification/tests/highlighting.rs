use edit::file_type::FileType;
use edit::highlight::{
    syntax_candidates, yaml_segments, yaml_token_color, SyntaxHighlighter, SyntaxQuery, YamlToken,
    MAX_CACHE_SIZE,
};

#[test]
fn new_highlighter_uses_mocha_theme() {
    let h = SyntaxHighlighter::new();
    assert_eq!(h.current_theme(), "base16-mocha.dark");
}

#[test]
fn ghibli_theme_is_first_available() {
    let mut h = SyntaxHighlighter::new();
    assert!(h.set_theme("InspiredGitHub"));
    assert!(h.set_ghibli_theme());
    assert_eq!(h.current_theme(), "base16-mocha.dark");
}

#[test]
fn set_theme_only_to_existing_theme() {
    let mut h = SyntaxHighlighter::new();
    assert!(h.set_theme("Solarized (dark)"));
    assert_eq!(h.current_theme(), "Solarized (dark)");
    assert!(!h.set_theme("No Such Theme"));
    assert_eq!(h.current_theme(), "Solarized (dark)");
}

#[test]
fn default_themes_are_listed() {
    let h = SyntaxHighlighter::new();
    // Listed in sorted order: upper case before lower case.
    assert_eq!(h.available_themes(), vec![
        "InspiredGitHub", "Solarized (dark)", "Solarized (light)", "base16-eighties.dark",
        "base16-mocha.dark", "base16-ocean.dark", "base16-ocean.light",
    ]);
}

#[test]
fn custom_theme_is_added_and_selected() {
    let mut h = SyntaxHighlighter::new();
    h.load_custom_theme("/themes/forest-night.tmTheme", syntect::highlighting::Theme::default());
    assert_eq!(h.current_theme(), "forest-night");
    assert!(h.available_themes().contains(&"forest-night".to_string()));
    assert_eq!(h.available_themes().len(), 8);
}

#[test]
fn syntax_lookup_by_extension() {
    let h = SyntaxHighlighter::new();
    assert!(h.has_syntax_for_extension("rs"));
    assert!(h.has_syntax_for_extension("RS"));
    assert!(!h.has_syntax_for_extension("definitely-not-an-extension"));
    assert!(h.has_plain_text_syntax());
}

#[test]
fn syntax_listing_format() {
    let h = SyntaxHighlighter::new();
    let list = h.list_available_syntaxes();
    assert!(!list.is_empty());
    assert!(list.iter().any(|s| s.starts_with("Rust (") && s.contains("rs")));
    assert!(list.iter().any(|s| s == "Plain Text (txt)"));
}

#[test]
fn debug_syntax_names() {
    let h = SyntaxHighlighter::new();
    assert_eq!(h.debug_syntax_for_filetype(FileType::Rust), "FileType: Rust -> Syntax: Rust");
    assert_eq!(h.debug_syntax_for_filetype(FileType::Plain), "FileType: Plain -> Syntax: Plain Text");
    assert_eq!(h.debug_syntax_for_filetype(FileType::Python), "FileType: Python -> Syntax: Python");
    assert!(h.debug_syntax_for_filetype(FileType::CSharp).starts_with("FileType: CSharp -> Syntax: "));
}

#[test]
fn syntax_choice_follows_candidates() {
    let h = SyntaxHighlighter::new();
    assert_eq!(h.syntax_choice(FileType::Plain), None);
    assert_eq!(h.syntax_choice(FileType::Rust), Some(0));
    assert_eq!(h.syntax_choice(FileType::Go), Some(0));
}

#[test]
fn candidate_tables() {
    assert_eq!(
        syntax_candidates(FileType::Kotlin),
        vec![SyntaxQuery::ByExtension("kt"), SyntaxQuery::ByName("Kotlin"), SyntaxQuery::ByExtension("java")]
    );
    assert_eq!(
        syntax_candidates(FileType::Makefile),
        vec![SyntaxQuery::ByName("Makefile"), SyntaxQuery::ByName("Make"), SyntaxQuery::ByExtension("mk")]
    );
    assert!(syntax_candidates(FileType::Plain).is_empty());
}

#[test]
fn highlighting_covers_the_line_and_is_cached() {
    let mut h = SyntaxHighlighter::new();
    let line = "fn main() { let x = 1; }";
    let regions = h.highlight_line(line, FileType::Rust, 0);
    let joined: String = regions.iter().map(|(_, t)| *t).collect();
    assert_eq!(joined, line);
    assert!(regions.len() > 1);
    assert_eq!(h.current_theme(), "base16-mocha.dark");
}

#[test]
fn cache_survives_many_lines() {
    let mut h = SyntaxHighlighter::new();
    for i in 0..(MAX_CACHE_SIZE + 5) {
        let line = format!("let v{} = {};", i, i);
        let regions = h.highlight_line(&line, FileType::Rust, i);
        assert!(!regions.is_empty());
        assert!(h.cached_lines() <= MAX_CACHE_SIZE + 1);
    }
    assert_eq!(h.cached_lines(), MAX_CACHE_SIZE + 1);
    h.clear_cache();
    assert_eq!(h.cached_lines(), 0);
}

#[test]
fn same_line_is_cached_once() {
    let mut h = SyntaxHighlighter::new();
    for _ in 0..3 {
        h.highlight_line("let a = 1;", FileType::Rust, 7);
    }
    assert_eq!(h.cached_lines(), 1);
    h.highlight_line("let a = 1;", FileType::Rust, 8);
    assert_eq!(h.cached_lines(), 2);
    assert!(h.set_theme("InspiredGitHub"));
    assert_eq!(h.cached_lines(), 0);
    assert!(!h.set_theme("missing"));
}

#[test]
fn yaml_pieces() {
    assert_eq!(yaml_segments("key: value"), vec![(YamlToken::Key, 0, 4), (YamlToken::Plain, 4, 10)]);
    assert_eq!(yaml_segments("a:"), vec![(YamlToken::Key, 0, 2)]);
    assert_eq!(yaml_segments("  # note: x"), vec![(YamlToken::Comment, 0, 11)]);
    assert_eq!(
        yaml_segments("  - item"),
        vec![(YamlToken::Plain, 0, 2), (YamlToken::Dash, 2, 3), (YamlToken::Plain, 3, 8)]
    );
    assert_eq!(yaml_segments("-"), vec![(YamlToken::Plain, 0, 0), (YamlToken::Dash, 0, 1)]);
    assert_eq!(
        yaml_segments("- a: b"),
        vec![(YamlToken::Plain, 0, 0), (YamlToken::Dash, 0, 1), (YamlToken::Plain, 1, 6)]
    );
    assert_eq!(yaml_segments("plain"), vec![(YamlToken::Plain, 0, 5)]);
    assert_eq!(yaml_segments(""), vec![(YamlToken::Plain, 0, 0)]);
    assert_eq!(yaml_segments("é: ü"), vec![(YamlToken::Key, 0, 2), (YamlToken::Plain, 2, 4)]);
}

#[test]
fn yaml_colors() {
    assert_eq!(yaml_token_color(YamlToken::Comment), Some((156, 142, 124, 255)));
    assert_eq!(yaml_token_color(YamlToken::Key), Some((76, 119, 79, 255)));
    assert_eq!(yaml_token_color(YamlToken::Dash), Some((147, 112, 179, 255)));
    assert_eq!(yaml_token_color(YamlToken::Plain), None);
}

#[test]
fn yaml_is_highlighted_natively_when_available() {
    let mut h = SyntaxHighlighter::new();
    let regions = h.highlight_line("key: value", FileType::YAML, 3);
    let joined: String = regions.iter().map(|(_, t)| *t).collect();
    assert_eq!(joined, "key: value");
}

#[test]
fn debug_syntax_is_an_available_syntax() {
    let h = SyntaxHighlighter::new();
    let listed = h.list_available_syntaxes();
    for ft in [FileType::Rust, FileType::Python, FileType::Plain, FileType::Kotlin, FileType::Less, FileType::YAML, FileType::TypeScript] {
        let d = h.debug_syntax_for_filetype(ft);
        let name = d.split(" -> Syntax: ").nth(1).unwrap().to_string();
        assert!(listed.iter().any(|s| s.starts_with(&format!("{} (", name))), "{} not listed", name);
    }
}

#[test]
fn syntect_error_gives_the_whole_line() {
    let line = "let x = 1;";
    let err = syntect::Error::Fmt(std::fmt::Error);
    let pieces = edit::highlight::regions_or_whole_line(Err(err), line);
    assert_eq!(pieces.len(), 1);
    assert_eq!(pieces[0].1, line);
    assert_eq!(pieces[0].0, syntect::highlighting::Style::default());
    let style = syntect::highlighting::Style::default();
    let ok = edit::highlight::regions_or_whole_line(Ok(vec![(style, "let "), (style, "x = 1;")]), line);
    assert_eq!(ok.len(), 2);
}
