use vstd::prelude::*;

use syntect::highlighting::{Style, Theme, ThemeSet};
use syntect::parsing::{SyntaxReference, SyntaxSet};

use crate::file_type::{
    classify_file, has_char, lemma_classify_in_directory, spec_classify_file, spec_detect_file_type,
    FileType,
};
use crate::indent::SmartIndenter;
use crate::paths::{
    after_last_slash, ascii_lowercase, ends_in_plain_name, extension_of, is_ascii_text,
    lemma_after_last_slash, extension_of_name, file_name_of, file_stem_of,
    str_to_lowercase, to_lowercase,
};
use crate::syntect_api::{
    concat_texts, default_style, find_syntax_by_extension, find_syntax_by_name, has_syntax_named,
    has_syntax_with_extension, has_theme, highlight_with, insert_theme, last_named,
    last_with_extension, lemma_last_named, lemma_last_with_extension, load_default_syntaxes,
    load_default_themes, piece_texts, pieces_view, plain_style, style_with_foreground, styled,
    syntax_at, syntax_entries, syntax_list, syntect_highlight, theme_in, theme_name_list,
    theme_named, theme_names,
};
use crate::text::{
    chars_of, find_char, first_index_of, lemma_first_index_of, lemma_leading_white_space,
    lemma_starts_with_char, leading_white_space, seq_ends_with, seq_starts_with, skip_white_space,
    trim_start,
};

verus! {

/// One place to look for a syntax: by file extension or by name.
#[derive(Debug, Clone, Copy, PartialEq, Eq)]
pub enum SyntaxQuery {
    ByExtension(&'static str),
    ByName(&'static str),
}

impl View for SyntaxQuery {
    type V = (bool, Seq<char>);

    open spec fn view(&self) -> (bool, Seq<char>) {
        match self {
            SyntaxQuery::ByExtension(e) => (true, e@),
            SyntaxQuery::ByName(n) => (false, n@),
        }
    }
}

pub open spec fn queries_view(queries: Seq<SyntaxQuery>) -> Seq<(bool, Seq<char>)> {
    queries.map_values(|q: SyntaxQuery| q@)
}

/// The syntaxes to look for, in order, when highlighting a file type: `(true, e)` looks
/// for a syntax with extension `e`, `(false, n)` for a syntax named `n`. Plain text is the
/// fallback after all of them.
pub open spec fn spec_syntax_candidates(file_type: FileType) -> Seq<(bool, Seq<char>)> {
    match file_type {
        FileType::Plain => Seq::empty(),
        FileType::Python => seq![(true, "py"@)],
        FileType::Rust => seq![(true, "rs"@)],
        FileType::JavaScript => seq![(true, "js"@)],
        FileType::TypeScript => seq![(true, "ts"@), (false, "TypeScript"@), (false, "TypeScript (JavaScript)"@), (true, "js"@)],
        FileType::HTML => seq![(true, "html"@)],
        FileType::CSS => seq![(true, "css"@)],
        FileType::Dockerfile => seq![(false, "Dockerfile"@), (false, "Docker"@)],
        FileType::YAML => seq![(true, "yaml"@), (true, "yml"@), (false, "YAML"@), (true, "json"@)],
        FileType::JSON => seq![(true, "json"@), (false, "JSON"@)],
        FileType::Markdown => seq![(true, "md"@), (false, "Markdown"@), (false, "Markdown GFM"@)],
        FileType::Shell => seq![(true, "sh"@), (false, "Shell Script"@), (false, "Bash"@), (false, "Shell"@)],
        FileType::Go => seq![(true, "go"@), (false, "Go"@)],
        FileType::Java => seq![(true, "java"@), (false, "Java"@)],
        FileType::C => seq![(true, "c"@), (false, "C"@)],
        FileType::Cpp => seq![(true, "cpp"@), (true, "cc"@), (false, "C++"@)],
        FileType::CSharp => seq![(true, "cs"@), (false, "C#"@)],
        FileType::Ruby => seq![(true, "rb"@), (false, "Ruby"@)],
        FileType::PHP => seq![(true, "php"@), (false, "PHP"@)],
        FileType::SQL => seq![(true, "sql"@), (false, "SQL"@)],
        FileType::TOML => seq![(true, "toml"@), (false, "TOML"@)],
        FileType::XML => seq![(true, "xml"@), (false, "XML"@)],
        FileType::Makefile => seq![(false, "Makefile"@), (false, "Make"@), (true, "mk"@)],
        FileType::Swift => seq![(true, "swift"@), (false, "Swift"@)],
        FileType::Scala => seq![(true, "scala"@), (false, "Scala"@)],
        FileType::Lua => seq![(true, "lua"@), (false, "Lua"@)],
        FileType::PowerShell => seq![(true, "ps1"@), (false, "PowerShell"@), (false, "Powershell"@)],
        FileType::Perl => seq![(true, "pl"@), (false, "Perl"@)],
        FileType::Less => seq![(true, "less"@), (false, "Less"@), (true, "css"@)],
        FileType::Diff => seq![(true, "diff"@), (false, "Diff"@)],
        FileType::Kotlin => seq![(true, "kt"@), (false, "Kotlin"@), (true, "java"@)],
    }
}

/// The syntaxes to look for, in order, when highlighting `file_type`.
pub fn syntax_candidates(file_type: FileType) -> (r: Vec<SyntaxQuery>)
    ensures
        queries_view(r@) == spec_syntax_candidates(file_type),
{
    let r = match file_type {
        FileType::Plain => Vec::new(),
        FileType::Python => vec![SyntaxQuery::ByExtension("py")],
        FileType::Rust => vec![SyntaxQuery::ByExtension("rs")],
        FileType::JavaScript => vec![SyntaxQuery::ByExtension("js")],
        FileType::TypeScript => vec![SyntaxQuery::ByExtension("ts"), SyntaxQuery::ByName("TypeScript"), SyntaxQuery::ByName("TypeScript (JavaScript)"), SyntaxQuery::ByExtension("js")],
        FileType::HTML => vec![SyntaxQuery::ByExtension("html")],
        FileType::CSS => vec![SyntaxQuery::ByExtension("css")],
        FileType::Dockerfile => vec![SyntaxQuery::ByName("Dockerfile"), SyntaxQuery::ByName("Docker")],
        FileType::YAML => vec![SyntaxQuery::ByExtension("yaml"), SyntaxQuery::ByExtension("yml"), SyntaxQuery::ByName("YAML"), SyntaxQuery::ByExtension("json")],
        FileType::JSON => vec![SyntaxQuery::ByExtension("json"), SyntaxQuery::ByName("JSON")],
        FileType::Markdown => vec![SyntaxQuery::ByExtension("md"), SyntaxQuery::ByName("Markdown"), SyntaxQuery::ByName("Markdown GFM")],
        FileType::Shell => vec![SyntaxQuery::ByExtension("sh"), SyntaxQuery::ByName("Shell Script"), SyntaxQuery::ByName("Bash"), SyntaxQuery::ByName("Shell")],
        FileType::Go => vec![SyntaxQuery::ByExtension("go"), SyntaxQuery::ByName("Go")],
        FileType::Java => vec![SyntaxQuery::ByExtension("java"), SyntaxQuery::ByName("Java")],
        FileType::C => vec![SyntaxQuery::ByExtension("c"), SyntaxQuery::ByName("C")],
        FileType::Cpp => vec![SyntaxQuery::ByExtension("cpp"), SyntaxQuery::ByExtension("cc"), SyntaxQuery::ByName("C++")],
        FileType::CSharp => vec![SyntaxQuery::ByExtension("cs"), SyntaxQuery::ByName("C#")],
        FileType::Ruby => vec![SyntaxQuery::ByExtension("rb"), SyntaxQuery::ByName("Ruby")],
        FileType::PHP => vec![SyntaxQuery::ByExtension("php"), SyntaxQuery::ByName("PHP")],
        FileType::SQL => vec![SyntaxQuery::ByExtension("sql"), SyntaxQuery::ByName("SQL")],
        FileType::TOML => vec![SyntaxQuery::ByExtension("toml"), SyntaxQuery::ByName("TOML")],
        FileType::XML => vec![SyntaxQuery::ByExtension("xml"), SyntaxQuery::ByName("XML")],
        FileType::Makefile => vec![SyntaxQuery::ByName("Makefile"), SyntaxQuery::ByName("Make"), SyntaxQuery::ByExtension("mk")],
        FileType::Swift => vec![SyntaxQuery::ByExtension("swift"), SyntaxQuery::ByName("Swift")],
        FileType::Scala => vec![SyntaxQuery::ByExtension("scala"), SyntaxQuery::ByName("Scala")],
        FileType::Lua => vec![SyntaxQuery::ByExtension("lua"), SyntaxQuery::ByName("Lua")],
        FileType::PowerShell => vec![SyntaxQuery::ByExtension("ps1"), SyntaxQuery::ByName("PowerShell"), SyntaxQuery::ByName("Powershell")],
        FileType::Perl => vec![SyntaxQuery::ByExtension("pl"), SyntaxQuery::ByName("Perl")],
        FileType::Less => vec![SyntaxQuery::ByExtension("less"), SyntaxQuery::ByName("Less"), SyntaxQuery::ByExtension("css")],
        FileType::Diff => vec![SyntaxQuery::ByExtension("diff"), SyntaxQuery::ByName("Diff")],
        FileType::Kotlin => vec![SyntaxQuery::ByExtension("kt"), SyntaxQuery::ByName("Kotlin"), SyntaxQuery::ByExtension("java")],
    };
    assert(queries_view(r@) =~= spec_syntax_candidates(file_type));
    r
}

/// The name `{:?}` prints for a file type.
pub open spec fn spec_file_type_name(file_type: FileType) -> Seq<char> {
    match file_type {
        FileType::Plain => "Plain"@,
        FileType::Python => "Python"@,
        FileType::Rust => "Rust"@,
        FileType::JavaScript => "JavaScript"@,
        FileType::TypeScript => "TypeScript"@,
        FileType::HTML => "HTML"@,
        FileType::CSS => "CSS"@,
        FileType::Dockerfile => "Dockerfile"@,
        FileType::YAML => "YAML"@,
        FileType::JSON => "JSON"@,
        FileType::Markdown => "Markdown"@,
        FileType::Shell => "Shell"@,
        FileType::Go => "Go"@,
        FileType::Java => "Java"@,
        FileType::C => "C"@,
        FileType::Cpp => "Cpp"@,
        FileType::CSharp => "CSharp"@,
        FileType::Ruby => "Ruby"@,
        FileType::PHP => "PHP"@,
        FileType::SQL => "SQL"@,
        FileType::TOML => "TOML"@,
        FileType::XML => "XML"@,
        FileType::Makefile => "Makefile"@,
        FileType::Swift => "Swift"@,
        FileType::Scala => "Scala"@,
        FileType::Lua => "Lua"@,
        FileType::PowerShell => "PowerShell"@,
        FileType::Perl => "Perl"@,
        FileType::Less => "Less"@,
        FileType::Diff => "Diff"@,
        FileType::Kotlin => "Kotlin"@,
    }
}

/// The name `{:?}` prints for a file type.
pub fn file_type_name(file_type: FileType) -> (r: &'static str)
    ensures
        r@ == spec_file_type_name(file_type),
{
    match file_type {
        FileType::Plain => "Plain",
        FileType::Python => "Python",
        FileType::Rust => "Rust",
        FileType::JavaScript => "JavaScript",
        FileType::TypeScript => "TypeScript",
        FileType::HTML => "HTML",
        FileType::CSS => "CSS",
        FileType::Dockerfile => "Dockerfile",
        FileType::YAML => "YAML",
        FileType::JSON => "JSON",
        FileType::Markdown => "Markdown",
        FileType::Shell => "Shell",
        FileType::Go => "Go",
        FileType::Java => "Java",
        FileType::C => "C",
        FileType::Cpp => "Cpp",
        FileType::CSharp => "CSharp",
        FileType::Ruby => "Ruby",
        FileType::PHP => "PHP",
        FileType::SQL => "SQL",
        FileType::TOML => "TOML",
        FileType::XML => "XML",
        FileType::Makefile => "Makefile",
        FileType::Swift => "Swift",
        FileType::Scala => "Scala",
        FileType::Lua => "Lua",
        FileType::PowerShell => "PowerShell",
        FileType::Perl => "Perl",
        FileType::Less => "Less",
        FileType::Diff => "Diff",
        FileType::Kotlin => "Kotlin",
    }
}


/// Whether the syntaxes `entries` answer the query `q`.
pub open spec fn query_found(entries: Seq<(Seq<char>, Seq<Seq<char>>)>, q: (bool, Seq<char>)) -> bool {
    if q.0 {
        has_syntax_with_extension(entries, q.1)
    } else {
        has_syntax_named(entries, q.1)
    }
}

/// The position of the first query of `queries` that the syntaxes answer.
pub open spec fn first_found(
    entries: Seq<(Seq<char>, Seq<Seq<char>>)>,
    queries: Seq<(bool, Seq<char>)>,
) -> Option<int>
    decreases queries.len(),
{
    if queries.len() == 0 {
        None
    } else if query_found(entries, queries[0]) {
        Some(0)
    } else {
        match first_found(entries, queries.drop_first()) {
            Some(k) => Some(k + 1),
            None => None,
        }
    }
}

proof fn lemma_first_found(
    entries: Seq<(Seq<char>, Seq<Seq<char>>)>,
    queries: Seq<(bool, Seq<char>)>,
    i: int,
)
    requires
        0 <= i <= queries.len(),
        forall|j: int| 0 <= j < i ==> !query_found(entries, #[trigger] queries[j]),
    ensures
        i < queries.len() && query_found(entries, queries[i]) ==> first_found(entries, queries)
            == Some(i),
        i == queries.len() ==> first_found(entries, queries) is None,
    decreases i,
{
    if i > 0 {
        let rest = queries.drop_first();
        assert forall|j: int| 0 <= j < i - 1 implies !query_found(entries, #[trigger] rest[j]) by {
            assert(rest[j] == queries[j + 1]);
        }
        lemma_first_found(entries, rest, i - 1);
        assert(!query_found(entries, queries[0]));
    }
}

proof fn lemma_first_found_is_found(
    entries: Seq<(Seq<char>, Seq<Seq<char>>)>,
    queries: Seq<(bool, Seq<char>)>,
)
    ensures
        first_found(entries, queries) matches Some(k) ==> 0 <= k < queries.len() && query_found(
            entries,
            queries[k],
        ),
    decreases queries.len(),
{
    if queries.len() > 0 && !query_found(entries, queries[0]) {
        lemma_first_found_is_found(entries, queries.drop_first());
    }
}

/// The name of the syntax a query finds: the last syntax listing the extension, or the
/// name asked for.
pub open spec fn query_result_name(entries: Seq<(Seq<char>, Seq<Seq<char>>)>, q: (bool, Seq<char>)) -> Seq<char> {
    if q.0 {
        match last_with_extension(entries, q.1) {
            Some(i) => entries[i].0,
            None => Seq::empty(),
        }
    } else {
        q.1
    }
}

/// The name of the syntax used to highlight `file_type`: that of the first candidate the
/// set answers, else "Plain Text".
pub open spec fn resolved_syntax_name(entries: Seq<(Seq<char>, Seq<Seq<char>>)>, file_type: FileType) -> Seq<char> {
    match first_found(entries, spec_syntax_candidates(file_type)) {
        Some(k) => query_result_name(entries, spec_syntax_candidates(file_type)[k]),
        None => "Plain Text"@,
    }
}

/// The syntax used to highlight a file type is one the set has: its name is the name of
/// one of the set's syntaxes.
pub proof fn lemma_resolved_syntax_is_available(
    entries: Seq<(Seq<char>, Seq<Seq<char>>)>,
    file_type: FileType,
)
    requires
        first_found(entries, spec_syntax_candidates(file_type)) is Some || has_syntax_named(
            entries,
            "Plain Text"@,
        ),
    ensures
        has_syntax_named(entries, resolved_syntax_name(entries, file_type)),
{
    let cands = spec_syntax_candidates(file_type);
    lemma_first_found_is_found(entries, cands);
    if let Some(k) = first_found(entries, cands) {
        let q = cands[k];
        if q.0 {
            lemma_last_with_extension(entries, q.1);
            let i = last_with_extension(entries, q.1)->0;
            assert(entries[i].0 == resolved_syntax_name(entries, file_type));
        }
    }
}

/// The position in the set of the syntax a query finds: the last syntax listing the
/// extension, or the last one with the name asked for.
pub open spec fn query_index(entries: Seq<(Seq<char>, Seq<Seq<char>>)>, q: (bool, Seq<char>)) -> int {
    if q.0 {
        last_with_extension(entries, q.1)->0
    } else {
        last_named(entries, q.1)->0
    }
}

/// The position in the set of the syntax used to highlight `file_type`: that of the first
/// candidate the set answers, else that of the last syntax named "Plain Text".
pub open spec fn resolved_index(entries: Seq<(Seq<char>, Seq<Seq<char>>)>, file_type: FileType) -> int {
    match first_found(entries, spec_syntax_candidates(file_type)) {
        Some(k) => query_index(entries, spec_syntax_candidates(file_type)[k]),
        None => last_named(entries, "Plain Text"@)->0,
    }
}

/// Looks up one query in the set; the syntax found comes with its name.
fn find_query<'a>(set: &'a SyntaxSet, q: &SyntaxQuery) -> (r: Option<(&'a SyntaxReference, String)>)
    ensures
        r is Some == query_found(syntax_entries(*set), q@),
        r matches Some(found) ==> found.1@ == query_result_name(syntax_entries(*set), q@)
            && *found.0 == syntax_at(*set, query_index(syntax_entries(*set), q@)),
{
    match q {
        SyntaxQuery::ByExtension(e) => find_syntax_by_extension(set, e),
        SyntaxQuery::ByName(n) => find_syntax_by_name(set, n),
    }
}

/// Which candidate of `syntax_candidates(file_type)` the set answers first (`None`: plain
/// text is used).
fn choose_syntax(set: &SyntaxSet, file_type: FileType) -> (r: Option<usize>)
    ensures
        match r {
            Some(k) => k < spec_syntax_candidates(file_type).len() && first_found(
                syntax_entries(*set),
                spec_syntax_candidates(file_type),
            ) == Some(k as int),
            None => first_found(syntax_entries(*set), spec_syntax_candidates(file_type)) is None,
        },
{
    let candidates = syntax_candidates(file_type);
    let ghost entries = syntax_entries(*set);
    let ghost qs = queries_view(candidates@);
    let mut i: usize = 0;
    while i < candidates.len()
        invariant
            i <= candidates@.len(),
            qs == queries_view(candidates@),
            qs == spec_syntax_candidates(file_type),
            entries == syntax_entries(*set),
            forall|j: int| 0 <= j < i ==> !query_found(entries, #[trigger] qs[j]),
        decreases candidates.len() - i,
    {
        assert(qs[i as int] == candidates@[i as int]@);
        if find_query(set, &candidates[i]).is_some() {
            proof {
                lemma_first_found(entries, qs, i as int);
            }
            return Some(i);
        }
        i = i + 1;
    }
    proof {
        lemma_first_found(entries, qs, i as int);
    }
    None
}

/// `SyntaxSet::find_syntax_plain_text`, with the syntax's name: the syntax named
/// "Plain Text" (it panics when there is none).
#[verifier::external_body]
fn find_syntax_plain_text(set: &SyntaxSet) -> (r: (&SyntaxReference, String))
    requires
        has_syntax_named(syntax_entries(*set), "Plain Text"@),
    ensures
        r.1@ == "Plain Text"@,
        *r.0 == syntax_at(*set, last_named(syntax_entries(*set), "Plain Text"@)->0),
{
    let syntax = set.find_syntax_plain_text();
    (syntax, syntax.name.clone())
}

/// The syntax used to highlight `file_type`, with its name: the first candidate that the
/// set has, else plain text.
fn resolve_syntax<'a>(set: &'a SyntaxSet, file_type: FileType) -> (r: (&'a SyntaxReference, String))
    requires
        first_found(syntax_entries(*set), spec_syntax_candidates(file_type)) is Some
            || has_syntax_named(syntax_entries(*set), "Plain Text"@),
    ensures
        r.1@ == resolved_syntax_name(syntax_entries(*set), file_type),
        *r.0 == syntax_at(*set, resolved_index(syntax_entries(*set), file_type)),
        0 <= resolved_index(syntax_entries(*set), file_type) < syntax_entries(*set).len(),
{
    proof {
        let entries = syntax_entries(*set);
        let cands = spec_syntax_candidates(file_type);
        lemma_first_found_is_found(entries, cands);
        lemma_last_named(entries, "Plain Text"@);
        if let Some(k) = first_found(entries, cands) {
            lemma_last_with_extension(entries, cands[k].1);
            lemma_last_named(entries, cands[k].1);
        }
    }
    match choose_syntax(set, file_type) {
        Some(k) => {
            let candidates = syntax_candidates(file_type);
            assert(queries_view(candidates@).len() == candidates@.len());
            assert(queries_view(candidates@)[k as int] == candidates@[k as int]@);
            match find_query(set, &candidates[k]) {
                Some(found) => found,
                None => find_syntax_plain_text(set),
            }
        },
        None => find_syntax_plain_text(set),
    }
}

/// The kinds of piece a YAML line is cut into when no YAML syntax is available.
#[derive(Debug, Clone, Copy, PartialEq, Eq, Structural)]
pub enum YamlToken {
    Comment,
    Key,
    Plain,
    Dash,
}

/// The foreground color of each kind of YAML piece (`None`: the default style).
pub open spec fn spec_yaml_token_color(token: YamlToken) -> Option<(u8, u8, u8, u8)> {
    match token {
        YamlToken::Comment => Some((156, 142, 124, 255)),
        YamlToken::Key => Some((76, 119, 79, 255)),
        YamlToken::Dash => Some((147, 112, 179, 255)),
        YamlToken::Plain => None,
    }
}

/// The foreground color of each kind of YAML piece (`None`: the default style).
pub fn yaml_token_color(token: YamlToken) -> (r: Option<(u8, u8, u8, u8)>)
    ensures
        r == spec_yaml_token_color(token),
{
    match token {
        YamlToken::Comment => Some((156, 142, 124, 255)),
        YamlToken::Key => Some((76, 119, 79, 255)),
        YamlToken::Dash => Some((147, 112, 179, 255)),
        YamlToken::Plain => None,
    }
}

/// How a YAML line is cut into pieces (kind, first character, end), when no YAML syntax is
/// available: a comment is one piece; a key line is cut after its first `:`; a list item
/// around its first `-`; anything else is one plain piece.
pub open spec fn spec_yaml_segments(line: Seq<char>) -> Seq<(YamlToken, int, int)> {
    let n = line.len() as int;
    let t = trim_start(line);
    if seq_starts_with(t, seq!['#']) {
        seq![(YamlToken::Comment, 0, n)]
    } else if first_index_of(line, ':') is Some && !seq_starts_with(t, seq!['-']) {
        let c = first_index_of(line, ':')->0;
        if c + 1 < n {
            seq![(YamlToken::Key, 0, c + 1), (YamlToken::Plain, c + 1, n)]
        } else {
            seq![(YamlToken::Key, 0, c + 1)]
        }
    } else if seq_starts_with(t, seq!['-']) {
        let d = first_index_of(line, '-')->0;
        if d + 1 < n {
            seq![(YamlToken::Plain, 0, d), (YamlToken::Dash, d, d + 1), (YamlToken::Plain, d + 1, n)]
        } else {
            seq![(YamlToken::Plain, 0, d), (YamlToken::Dash, d, d + 1)]
        }
    } else {
        seq![(YamlToken::Plain, 0, n)]
    }
}

pub open spec fn segments_view(segments: Seq<(YamlToken, usize, usize)>) -> Seq<(YamlToken, int, int)> {
    segments.map_values(|s: (YamlToken, usize, usize)| (s.0, s.1 as int, s.2 as int))
}

/// The style of each kind of YAML piece: the default style with the kind's foreground
/// color, or the default style itself.
pub open spec fn spec_yaml_style(token: YamlToken) -> Style {
    match spec_yaml_token_color(token) {
        Some(c) => styled(c.0, c.1, c.2, c.3),
        None => plain_style(),
    }
}

/// The hand-made highlighting of a YAML line: each piece of `spec_yaml_segments` with the
/// style of its kind.
pub open spec fn spec_yaml_highlight(line: Seq<char>) -> Seq<(Style, Seq<char>)> {
    let segments = spec_yaml_segments(line);
    Seq::new(
        segments.len(),
        |i: int| (spec_yaml_style(segments[i].0), line.subrange(segments[i].1, segments[i].2)),
    )
}

/// Cuts a YAML line into pieces (kind, first character, end).
pub fn yaml_segments(line: &str) -> (r: Vec<(YamlToken, usize, usize)>)
    ensures
        segments_view(r@) == spec_yaml_segments(line@),
{
    let v = chars_of(line);
    let n: usize = v.len();
    let lo: usize = skip_white_space(&v);
    proof {
        lemma_leading_white_space(v@);
    }
    let ghost t = trim_start(v@);
    proof {
        lemma_starts_with_char(t, '#');
        lemma_starts_with_char(t, '-');
        if lo < n {
            assert(t[0] == v@[lo as int]);
        }
    }
    proof {
        lemma_first_index_of(v@, ':');
        lemma_first_index_of(v@, '-');
    }
    if lo < n && v[lo] == '#' {
        let r = vec![(YamlToken::Comment, 0, n)];
        assert(segments_view(r@) =~= spec_yaml_segments(line@));
        return r;
    }
    let dash_first = lo < n && v[lo] == '-';
    let colon = find_char(&v, ':');
    if colon.is_some() && !dash_first {
        let c: usize = colon.unwrap();
        let r = if c + 1 < n {
            vec![(YamlToken::Key, 0, c + 1), (YamlToken::Plain, c + 1, n)]
        } else {
            vec![(YamlToken::Key, 0, c + 1)]
        };
        assert(segments_view(r@) =~= spec_yaml_segments(line@));
        return r;
    }
    if dash_first {
        let found = find_char(&v, '-');
        let d: usize = found.unwrap();
        let r = if d + 1 < n {
            vec![(YamlToken::Plain, 0, d), (YamlToken::Dash, d, d + 1), (YamlToken::Plain, d + 1, n)]
        } else {
            vec![(YamlToken::Plain, 0, d), (YamlToken::Dash, d, d + 1)]
        };
        assert(segments_view(r@) =~= spec_yaml_segments(line@));
        return r;
    }
    let r = vec![(YamlToken::Plain, 0, n)];
    assert(segments_view(r@) =~= spec_yaml_segments(line@));
    r
}

/// The pieces of a YAML line tile it: the first starts at 0, each ends where the next
/// starts, the last ends at the end of the line, and none runs backwards.
pub proof fn lemma_yaml_segments_tile(line: Seq<char>)
    ensures
        ({
            let s = spec_yaml_segments(line);
            &&& s.len() > 0
            &&& s[0].1 == 0
            &&& s[s.len() - 1].2 == line.len()
            &&& forall|i: int| 0 <= i < s.len() ==> s[i].1 <= #[trigger] s[i].2
            &&& forall|i: int| 0 <= i < s.len() - 1 ==> #[trigger] s[i].2 == s[i + 1].1
        }),
{
    let t = trim_start(line);
    let lo = leading_white_space(line) as int;
    lemma_leading_white_space(line);
    lemma_first_index_of(line, ':');
    lemma_first_index_of(line, '-');
    lemma_starts_with_char(t, '#');
    lemma_starts_with_char(t, '-');
    if lo < line.len() {
        assert(t[0] == line[lo]);
    }
    let s = spec_yaml_segments(line);
    assert(s.len() > 0);
}

/// How many highlighted lines the cache keeps before it starts dropping old ones.
pub const MAX_CACHE_SIZE: usize = 1000;

/// A highlighted line kept in the cache, with the pieces it was cut into.
pub struct CachedLine {
    line: String,
    line_number: usize,
    styles: Vec<(Style, String)>,
}

/// A line with the styles of its ranges.
pub struct HighlightedText<'a> {
    pub text: &'a str,
    pub styles: Vec<(Style, std::ops::Range<usize>)>,
}

/// The cache (its keys or its entries) after dropping the oldest entries beyond
/// `MAX_CACHE_SIZE`.
pub open spec fn spec_prune<A>(entries: Seq<A>) -> Seq<A> {
    if entries.len() > MAX_CACHE_SIZE {
        entries.skip(entries.len() - MAX_CACHE_SIZE)
    } else {
        entries
    }
}

/// The styled pieces a cached line holds, each with its text.
pub open spec fn styles_view(styles: Seq<(Style, String)>) -> Seq<(Style, Seq<char>)> {
    styles.map_values(|p: (Style, String)| (p.0, p.1@))
}

/// A cached line: its key (line, line number) and its styled pieces.
pub closed spec fn cached_view(c: CachedLine) -> ((Seq<char>, usize), Seq<(Style, Seq<char>)>) {
    ((c.line@, c.line_number), styles_view(c.styles@))
}

/// The cache after storing `pieces` under `key`: an entry with that key gets the new
/// pieces in place, a new key comes last.
pub open spec fn spec_cache_store(
    entries: Seq<((Seq<char>, usize), Seq<(Style, Seq<char>)>)>,
    key: (Seq<char>, usize),
    pieces: Seq<(Style, Seq<char>)>,
) -> Seq<((Seq<char>, usize), Seq<(Style, Seq<char>)>)> {
    if exists|i: int| 0 <= i < entries.len() && #[trigger] entries[i].0 == key {
        entries.map_values(
            |e: ((Seq<char>, usize), Seq<(Style, Seq<char>)>)|
                if e.0 == key {
                    (key, pieces)
                } else {
                    e
                },
        )
    } else {
        entries.push((key, pieces))
    }
}

/// The cache keys after storing `key`: an entry with that key is replaced in place, a new
/// key comes last.
pub open spec fn spec_cache_insert(keys: Seq<(Seq<char>, usize)>, key: (Seq<char>, usize)) -> Seq<(Seq<char>, usize)> {
    if keys.contains(key) {
        keys
    } else {
        keys.push(key)
    }
}

/// No key occurs twice.
pub open spec fn keys_unique(keys: Seq<(Seq<char>, usize)>) -> bool {
    forall|i: int, j: int| 0 <= i < j < keys.len() ==> keys[i] != keys[j]
}

/// The themes that `set_ghibli_theme` tries, in order.
pub open spec fn ghibli_themes() -> Seq<Seq<char>> {
    seq![
        "base16-mocha.dark"@,
        "base16-eighties.dark"@,
        "base16-tomorrow.dark"@,
        "base16-atelier-forest.dark"@,
        "base16-atelier-heath.dark"@,
        "Monokai"@,
        "Solarized (dark)"@,
    ]
}

/// The position of the first of `candidates` that is one of `names`.
pub open spec fn first_present(names: Set<Seq<char>>, candidates: Seq<Seq<char>>) -> Option<int>
    decreases candidates.len(),
{
    if candidates.len() == 0 {
        None
    } else if names.contains(candidates[0]) {
        Some(0)
    } else {
        match first_present(names, candidates.drop_first()) {
            Some(k) => Some(k + 1),
            None => None,
        }
    }
}

proof fn lemma_first_present(names: Set<Seq<char>>, candidates: Seq<Seq<char>>, i: int)
    requires
        0 <= i <= candidates.len(),
        forall|j: int| 0 <= j < i ==> !names.contains(#[trigger] candidates[j]),
    ensures
        i < candidates.len() && names.contains(candidates[i]) ==> first_present(names, candidates) == Some(i),
        i == candidates.len() ==> first_present(names, candidates) is None,
    decreases i,
{
    if i > 0 {
        let rest = candidates.drop_first();
        assert forall|j: int| 0 <= j < i - 1 implies !names.contains(#[trigger] rest[j]) by {
            assert(rest[j] == candidates[j + 1]);
        }
        lemma_first_present(names, rest, i - 1);
    }
}

/// Syntax highlighting with syntect's syntaxes and themes, with a cache of highlighted lines.
pub struct SyntaxHighlighter {
    syntax_set: SyntaxSet,
    theme_set: ThemeSet,
    current_theme: String,
    highlight_cache: Vec<CachedLine>,
}

impl SyntaxHighlighter {
    /// The current theme is one of the set, and the cache holds at most
    /// `MAX_CACHE_SIZE + 1` lines, each (line, line number) once.
    pub closed spec fn wf(self) -> bool {
        &&& theme_names(self.theme_set).contains(self.current_theme@)
        &&& self.highlight_cache@.len() <= MAX_CACHE_SIZE + 1
        &&& keys_unique(self.cache_keys())
    }

    /// The (line, line number) of each cached line, oldest first.
    pub closed spec fn cache_keys(self) -> Seq<(Seq<char>, usize)> {
        self.highlight_cache@.map_values(|c: CachedLine| (c.line@, c.line_number))
    }

    /// Each cached line, oldest first: its (line, line number) and the styled pieces kept
    /// for it.
    pub closed spec fn cache_entries(self) -> Seq<((Seq<char>, usize), Seq<(Style, Seq<char>)>)> {
        self.highlight_cache@.map_values(|c: CachedLine| cached_view(c))
    }

    /// The theme stored under `name`.
    pub closed spec fn theme_of(self, name: Seq<char>) -> Theme {
        theme_in(self.theme_set, name)
    }

    /// What syntect gives for `line` of a `file_type` file, with the syntax highlighting
    /// picks and the current theme; the whole line in the default style when syntect fails.
    pub closed spec fn syntect_pieces(self, file_type: FileType, line: Seq<char>) -> Seq<(Style, Seq<char>)> {
        match syntect_highlight(
            syntax_at(self.syntax_set, resolved_index(syntax_entries(self.syntax_set), file_type)),
            theme_in(self.theme_set, self.current_theme@),
            line,
            self.syntax_set,
        ) {
            Some(pieces) => pieces,
            None => seq![(plain_style(), line)],
        }
    }

    /// The name of the theme in use.
    pub closed spec fn theme(self) -> Seq<char> {
        self.current_theme@
    }

    /// The names of the themes available.
    pub closed spec fn themes(self) -> Set<Seq<char>> {
        theme_names(self.theme_set)
    }

    /// The syntaxes available (name and extensions of each).
    pub closed spec fn syntaxes(self) -> Seq<(Seq<char>, Seq<Seq<char>>)> {
        syntax_entries(self.syntax_set)
    }

    /// Whether a syntax named "Plain Text" is available, the fallback of highlighting.
    pub open spec fn has_plain_text(self) -> bool {
        has_syntax_named(self.syntaxes(), "Plain Text"@)
    }

    /// Whether highlighting `file_type` finds a syntax: one of its candidates, or plain text.
    pub open spec fn finds_syntax(self, file_type: FileType) -> bool {
        first_found(self.syntaxes(), spec_syntax_candidates(file_type)) is Some || self.has_plain_text()
    }

    /// Whether a native YAML syntax is available.
    pub open spec fn has_native_yaml(self) -> bool {
        has_syntax_with_extension(self.syntaxes(), "yaml"@) || has_syntax_with_extension(
            self.syntaxes(),
            "yml"@,
        )
    }

    /// A highlighter with syntect's default syntaxes and themes, using the theme
    /// "base16-mocha.dark", with an empty cache.
    pub fn new() -> (r: Self)
        ensures
            r.wf(),
            r.theme() == "base16-mocha.dark"@,
            r.themes() == crate::syntect_api::default_theme_names(),
            r.cache_keys().len() == 0,
    {
        let syntax_set = load_default_syntaxes();
        let theme_set = load_default_themes();
        let current_theme = String::from_str("base16-mocha.dark");
        let r = Self { syntax_set, theme_set, current_theme, highlight_cache: Vec::new() };
        assert(r.cache_keys() =~= Seq::empty());
        r
    }

    /// How many highlighted lines the cache holds.
    pub fn cached_lines(&self) -> (r: usize)
        ensures
            r == self.cache_keys().len(),
    {
        self.highlight_cache.len()
    }

    /// The name of the theme in use.
    pub fn current_theme(&self) -> (r: &str)
        ensures
            r@ == self.theme(),
    {
        self.current_theme.as_str()
    }

    /// Tries the Studio Ghibli–like themes in order and switches to the first one that is
    /// available; false when none is.
    pub fn set_ghibli_theme(&mut self) -> (r: bool)
        requires
            old(self).wf(),
        ensures
            final(self).wf(),
            r == first_present(old(self).themes(), ghibli_themes()) is Some,
            r ==> final(self).theme() == ghibli_themes()[first_present(old(self).themes(), ghibli_themes())->0]
                && final(self).cache_keys().len() == 0,
            !r ==> *final(self) == *old(self),
            final(self).themes() == old(self).themes(),
            final(self).syntaxes() == old(self).syntaxes(),
            forall|name: Seq<char>| #[trigger] final(self).theme_of(name) == old(self).theme_of(name),
    {
        let candidates = [
            "base16-mocha.dark",
            "base16-eighties.dark",
            "base16-tomorrow.dark",
            "base16-atelier-forest.dark",
            "base16-atelier-heath.dark",
            "Monokai",
            "Solarized (dark)",
        ];
        let ghost names = self.themes();
        let ghost cs = ghibli_themes();
        assert(candidates@.map_values(|c: &str| c@) =~= cs);
        let mut i: usize = 0;
        while i < 7
            invariant
                i <= 7,
                cs == ghibli_themes(),
                candidates@.map_values(|c: &str| c@) == cs,
                candidates@.len() == 7,
                *self == *old(self),
                self.wf(),
                names == old(self).themes(),
                forall|j: int| 0 <= j < i ==> !names.contains(#[trigger] cs[j]),
            decreases 7 - i,
        {
            assert(candidates@[i as int]@ == cs[i as int]);
            if self.set_theme(candidates[i]) {
                proof {
                    lemma_first_present(names, cs, i as int);
                }
                return true;
            }
            i = i + 1;
        }
        proof {
            lemma_first_present(names, cs, 7);
        }
        false
    }

    /// Detects the language of a file from its name.
    pub fn detect_file_type(filename: &str) -> (r: FileType)
        ensures
            r == spec_detect_file_type(filename@),
            ends_in_plain_name(filename@) ==> r == spec_classify_file(
                filename@,
                after_last_slash(filename@),
                str_to_lowercase(filename@),
                extension_of_name(after_last_slash(filename@)),
            ),
            ends_in_plain_name(filename@) && is_ascii_text(filename@) ==> r == spec_classify_file(
                filename@,
                after_last_slash(filename@),
                ascii_lowercase(filename@),
                extension_of_name(after_last_slash(filename@)),
            ),
            ({
                let name = after_last_slash(filename@);
                ends_in_plain_name(filename@) && has_char(filename@, '/') && !(seq_starts_with(
                    filename@,
                    ".github/"@,
                ) && (name == ".yml"@ || name == ".yaml"@)) ==> r == spec_classify_file(
                    name,
                    name,
                    name,
                    extension_of_name(name),
                )
            }),
    {
        let name = file_name_of(filename);
        let lowercase = to_lowercase(filename);
        let extension = extension_of(filename);
        let basename: &str = match &name {
            Some(n) => n.as_str(),
            None => filename,
        };
        proof {
            let f = filename@;
            let name = after_last_slash(f);
            lemma_after_last_slash(f);
            if ends_in_plain_name(f) && has_char(f, '/') && !(seq_starts_with(f, ".github/"@) && (
            name == ".yml"@ || name == ".yaml"@)) {
                assert(seq_ends_with(f, name));
                assert(!has_char(name, '/'));
                lemma_classify_in_directory(f, name, lowercase@);
            }
        }
        match &extension {
            Some(e) => classify_file(filename, basename, lowercase.as_str(), Some(e.as_str())),
            None => classify_file(filename, basename, lowercase.as_str(), None),
        }
    }

    /// Which candidate of `syntax_candidates(file_type)` highlighting uses: the first one
    /// the syntax set has; `None` when it has none of them, and plain text is used.
    pub fn syntax_choice(&self, file_type: FileType) -> (r: Option<usize>)
        ensures
            match r {
                Some(k) => first_found(self.syntaxes(), spec_syntax_candidates(file_type)) == Some(k as int),
                None => first_found(self.syntaxes(), spec_syntax_candidates(file_type)) is None,
            },
    {
        choose_syntax(&self.syntax_set, file_type)
    }

    /// Whether a syntax named "Plain Text" is available.
    pub fn has_plain_text_syntax(&self) -> (r: bool)
        ensures
            r == self.has_plain_text(),
    {
        find_syntax_by_name(&self.syntax_set, "Plain Text").is_some()
    }

    /// Highlights one line of a file of type `file_type`. YAML lines are cut by hand when no
    /// YAML syntax is available (and not cached); otherwise syntect highlights the line with
    /// the syntax `syntax_choice` picks and the current theme, and the result is cached under
    /// (line, line number) after dropping the oldest cached lines beyond `MAX_CACHE_SIZE`.
    pub fn highlight_line<'a>(&'a mut self, line: &'a str, file_type: FileType, line_number: usize) -> (r: Vec<(Style, &'a str)>)
        requires
            old(self).wf(),
            (file_type == FileType::YAML && !old(self).has_native_yaml()) || old(self).finds_syntax(
                file_type,
            ),
        ensures
            final(self).wf(),
            final(self).theme() == old(self).theme(),
            final(self).themes() == old(self).themes(),
            final(self).syntaxes() == old(self).syntaxes(),
            final(self).cache_keys().len() <= MAX_CACHE_SIZE + 1,
            concat_texts(piece_texts(r@)) == line@,
            file_type == FileType::YAML && !old(self).has_native_yaml() ==> {
                &&& pieces_view(r@) == spec_yaml_highlight(line@)
                &&& *final(self) == *old(self)
            },
            !(file_type == FileType::YAML && !old(self).has_native_yaml()) ==> {
                &&& pieces_view(r@) == old(self).syntect_pieces(file_type, line@)
                &&& final(self).cache_keys() == spec_cache_insert(
                    spec_prune(old(self).cache_keys()),
                    (line@, line_number),
                )
                &&& final(self).cache_entries() == spec_cache_store(
                    spec_prune(old(self).cache_entries()),
                    (line@, line_number),
                    pieces_view(r@),
                )
                &&& forall|name: Seq<char>| #[trigger] final(self).theme_of(name) == old(self).theme_of(name)
            },
    {
        if file_type == FileType::YAML {
            if let Some(custom_highlight) = self.custom_yaml_highlight(line) {
                return custom_highlight;
            }
        }
        let syntax = resolve_syntax(&self.syntax_set, file_type).0;
        let theme = theme_named(&self.theme_set, self.current_theme.as_str());
        let highlighted = regions_or_whole_line(highlight_with(syntax, theme, line, &self.syntax_set), line);
        assert(pieces_view(highlighted@) == old(self).syntect_pieces(file_type, line@));
        let ghost hv = pieces_view(highlighted@);
        let mut cached: Vec<(Style, String)> = Vec::new();
        assert(styles_view(cached@) =~= hv.take(0));
        let mut i: usize = 0;
        while i < highlighted.len()
            invariant
                i <= highlighted@.len(),
                cached@.len() == i,
                hv == pieces_view(highlighted@),
                styles_view(cached@) == hv.take(i as int),
                *self == *old(self),
            decreases highlighted.len() - i,
        {
            let (style, text) = highlighted[i];
            assert(hv[i as int] == (style, text@));
            let owned_text = String::from_str(text);
            assert(owned_text@ == text@);
            let ghost prev = cached@;
            cached.push((style, owned_text));
            assert(cached@ == prev.push((style, owned_text)));
            assert forall|k: int| 0 <= k < i + 1 implies #[trigger] styles_view(cached@)[k] == hv.take(i + 1)[k] by {
                if k < i {
                    assert(cached@[k] == prev[k]);
                    assert(styles_view(prev)[k] == hv.take(i as int)[k]);
                }
            }
            assert(styles_view(cached@) =~= hv.take(i + 1));
            i = i + 1;
        }
        assert(hv.take(highlighted@.len() as int) =~= hv);
        if self.highlight_cache.len() >= MAX_CACHE_SIZE {
            self.prune_cache_if_needed();
        }
        let ghost mid = self.cache_keys();
        assert(mid.len() <= MAX_CACHE_SIZE);
        self.store_in_cache(CachedLine { line: String::from_str(line), line_number, styles: cached });
        assert(self.cache_keys().len() <= mid.len() + 1);
        assert(self.highlight_cache@.len() == self.cache_keys().len());
        assert(theme_names(self.theme_set).contains(self.current_theme@));
        highlighted
    }

    /// Stores a highlighted line, replacing the entry with the same (line, line number).
    fn store_in_cache(&mut self, entry: CachedLine)
        requires
            keys_unique(old(self).cache_keys()),
            old(self).cache_keys().len() <= MAX_CACHE_SIZE,
        ensures
            keys_unique(final(self).cache_keys()),
            final(self).cache_keys() == spec_cache_insert(old(self).cache_keys(), (entry.line@, entry.line_number)),
            final(self).cache_entries() == spec_cache_store(
                old(self).cache_entries(),
                (entry.line@, entry.line_number),
                styles_view(entry.styles@),
            ),
            final(self).theme_set == old(self).theme_set,
            final(self).syntax_set == old(self).syntax_set,
            final(self).theme() == old(self).theme(),
            final(self).themes() == old(self).themes(),
            final(self).syntaxes() == old(self).syntaxes(),
    {
        let ghost keys = self.cache_keys();
        let ghost entries = self.cache_entries();
        let ghost key = (entry.line@, entry.line_number);
        let ghost pieces = styles_view(entry.styles@);
        let mut i: usize = 0;
        while i < self.highlight_cache.len()
            invariant
                i <= self.highlight_cache@.len(),
                keys == self.cache_keys(),
                entries == self.cache_entries(),
                keys.len() == self.highlight_cache@.len(),
                entries.len() == self.highlight_cache@.len(),
                keys_unique(keys),
                keys == old(self).cache_keys(),
                entries == old(self).cache_entries(),
                self.theme_set == old(self).theme_set,
                self.syntax_set == old(self).syntax_set,
                self.theme() == old(self).theme(),
                self.themes() == old(self).themes(),
                self.syntaxes() == old(self).syntaxes(),
                key == (entry.line@, entry.line_number),
                pieces == styles_view(entry.styles@),
                forall|j: int| 0 <= j < i ==> keys[j] != key,
            decreases self.highlight_cache.len() - i,
        {
            if self.highlight_cache[i].line_number == entry.line_number && self.highlight_cache[i].line == entry.line {
                let ghost before = self.highlight_cache@;
                assert(keys[i as int] == (self.highlight_cache@[i as int].line@, self.highlight_cache@[i as int].line_number));
                assert(keys[i as int] == key);
                assert(keys.contains(key));
                proof {
                    assert(entries[i as int].0 == key);
                    assert forall|c: int| 0 <= c < entries.len() && c != i implies #[trigger] entries[c].0 != key by {
                        assert(keys[c] == entries[c].0);
                    }
                    assert(spec_cache_store(entries, key, pieces) =~= entries.update(i as int, (key, pieces)));
                }
                assert(cached_view(entry) == (key, pieces));
                self.highlight_cache.set(i, entry);
                assert(self.highlight_cache@ == before.update(i as int, entry));
                assert(self.cache_keys() =~= keys);
                assert forall|j: int| 0 <= j < entries.len() implies #[trigger] self.cache_entries()[j]
                    == entries.update(i as int, (key, pieces))[j] by {
                    if j != i {
                        assert(self.highlight_cache@[j] == before[j]);
                        assert(entries[j] == cached_view(before[j]));
                    }
                }
                assert(self.cache_entries() =~= entries.update(i as int, (key, pieces)));
                assert(spec_cache_store(entries, key, pieces) == entries.update(i as int, (key, pieces)));
                return;
            }
            i = i + 1;
        }
        assert(!keys.contains(key));
        assert forall|c: int| 0 <= c < entries.len() implies #[trigger] entries[c].0 != key by {
            assert(keys[c] == entries[c].0);
        }
        assert(cached_view(entry) == (key, pieces));
        self.highlight_cache.push(entry);
        assert(self.cache_keys() =~= keys.push(key));
        assert(self.cache_entries() =~= entries.push((key, pieces)));
        assert(spec_cache_store(entries, key, pieces) == entries.push((key, pieces)));
    }

    /// Drops the oldest cached lines beyond `MAX_CACHE_SIZE`.
    fn prune_cache_if_needed(&mut self)
        requires
            old(self).wf(),
        ensures
            final(self).wf(),
            final(self).cache_keys() == spec_prune(old(self).cache_keys()),
            final(self).cache_entries() == spec_prune(old(self).cache_entries()),
            final(self).theme_set == old(self).theme_set,
            final(self).syntax_set == old(self).syntax_set,
            final(self).theme() == old(self).theme(),
            final(self).themes() == old(self).themes(),
            final(self).syntaxes() == old(self).syntaxes(),
    {
        if self.highlight_cache.len() > MAX_CACHE_SIZE {
            let to_remove = self.highlight_cache.len() - MAX_CACHE_SIZE;
            let ghost all = self.highlight_cache@;
            let mut k: usize = 0;
            while k < to_remove
                invariant
                    k <= to_remove,
                    to_remove == all.len() - MAX_CACHE_SIZE,
                    all == old(self).highlight_cache@,
                    self.highlight_cache@ == all.skip(k as int),
                    self.theme_set == old(self).theme_set,
                    self.syntax_set == old(self).syntax_set,
                    theme_names(self.theme_set).contains(self.current_theme@),
                    self.theme() == old(self).theme(),
                    self.themes() == old(self).themes(),
                    self.syntaxes() == old(self).syntaxes(),
                decreases to_remove - k,
            {
                self.highlight_cache.remove(0);
                assert(self.highlight_cache@ =~= all.skip(k + 1));
                k = k + 1;
            }
            let ghost old_keys = old(self).cache_keys();
            assert(self.cache_keys() =~= old_keys.skip(to_remove as int));
            assert(self.cache_entries() =~= old(self).cache_entries().skip(to_remove as int));
            assert forall|a: int, b: int| 0 <= a < b < self.cache_keys().len() implies self.cache_keys()[a]
                != self.cache_keys()[b] by {
                assert(self.cache_keys()[a] == old_keys[a + to_remove]);
                assert(self.cache_keys()[b] == old_keys[b + to_remove]);
            }
        }
    }

    /// Empties the cache.
    pub fn clear_cache(&mut self)
        requires
            old(self).wf(),
        ensures
            final(self).wf(),
            final(self).cache_keys().len() == 0,
            final(self).cache_entries().len() == 0,
            final(self).theme() == old(self).theme(),
            final(self).themes() == old(self).themes(),
            final(self).syntaxes() == old(self).syntaxes(),
            forall|name: Seq<char>| #[trigger] final(self).theme_of(name) == old(self).theme_of(name),
    {
        self.highlight_cache.clear();
        assert(self.cache_keys() =~= Seq::empty());
    }

    /// Switches to the theme `theme_name` and empties the cache, if such a theme exists;
    /// otherwise changes nothing and returns false.
    pub fn set_theme(&mut self, theme_name: &str) -> (r: bool)
        requires
            old(self).wf(),
        ensures
            final(self).wf(),
            r == old(self).themes().contains(theme_name@),
            r ==> final(self).theme() == theme_name@ && final(self).cache_keys().len() == 0,
            !r ==> *final(self) == *old(self),
            final(self).themes() == old(self).themes(),
            final(self).syntaxes() == old(self).syntaxes(),
            forall|name: Seq<char>| #[trigger] final(self).theme_of(name) == old(self).theme_of(name),
    {
        if has_theme(&self.theme_set, theme_name) {
            self.current_theme = String::from_str(theme_name);
            self.clear_cache();
            true
        } else {
            false
        }
    }

    /// Adds `theme` under the stem of the file name of `path` ("custom" when the path has
    /// no file name), switches to it and empties the cache.
    pub fn load_custom_theme(&mut self, path: &str, theme: Theme)
        requires
            old(self).wf(),
        ensures
            final(self).wf(),
            final(self).theme() == match crate::paths::path_file_name(path@) {
                Some(n) => crate::paths::stem_of_name(n),
                None => "custom"@,
            },
            final(self).themes() == old(self).themes().insert(final(self).theme()),
            final(self).theme_of(final(self).theme()) == theme,
            forall|name: Seq<char>| name != final(self).theme() ==> #[trigger] final(self).theme_of(name)
                == old(self).theme_of(name),
            final(self).cache_keys().len() == 0,
            final(self).syntaxes() == old(self).syntaxes(),
    {
        let theme_name = match file_stem_of(path) {
            Some(stem) => stem,
            None => String::from_str("custom"),
        };
        insert_theme(&mut self.theme_set, theme_name.clone(), theme);
        self.current_theme = theme_name;
        self.clear_cache();
    }

    /// The names of the available themes, each once, in sorted order.
    pub fn available_themes(&self) -> (r: Vec<String>)
        ensures
            forall|i: int| 0 <= i < r@.len() ==> self.themes().contains(#[trigger] r@[i]@),
            forall|n: Seq<char>| self.themes().contains(n) ==> exists|i: int| 0 <= i < r@.len() && #[trigger] r@[i]@ == n,
            forall|i: int, j: int| 0 <= i < j < r@.len() ==> r@[i]@ != r@[j]@,
            forall|i: int, j: int| 0 <= i < j < r@.len() ==> crate::syntect_api::text_less(r@[i]@, r@[j]@),
    {
        theme_name_list(&self.theme_set)
    }

    /// Every available syntax as "name (ext1, ext2, ...)".
    pub fn list_available_syntaxes(&self) -> (r: Vec<String>)
        ensures
            r@.len() == self.syntaxes().len(),
            forall|i: int| 0 <= i < r@.len() ==> (#[trigger] r@[i])@ == syntax_description(self.syntaxes()[i]),
    {
        let entries = syntax_list(&self.syntax_set);
        let mut r: Vec<String> = Vec::new();
        let mut i: usize = 0;
        while i < entries.len()
            invariant
                i <= entries@.len(),
                entries@.len() == self.syntaxes().len(),
                forall|k: int|
                    0 <= k < entries@.len() ==> (#[trigger] entries@[k]).0@ == self.syntaxes()[k].0
                        && entries@[k].1@.map_values(|e: String| e@) == self.syntaxes()[k].1,
                r@.len() == i,
                forall|k: int| 0 <= k < i ==> (#[trigger] r@[k])@ == syntax_description(self.syntaxes()[k]),
            decreases entries.len() - i,
        {
            let d = describe_syntax(&entries[i].0, &entries[i].1);
            r.push(d);
            i = i + 1;
        }
        r
    }

    /// Whether some syntax lists the extension `extension` (ignoring ASCII case).
    pub fn has_syntax_for_extension(&self, extension: &str) -> (r: bool)
        ensures
            r == has_syntax_with_extension(self.syntaxes(), extension@),
    {
        find_syntax_by_extension(&self.syntax_set, extension).is_some()
    }

    /// "FileType: <type> -> Syntax: <name of the syntax highlighting would use>".
    pub fn debug_syntax_for_filetype(&self, file_type: FileType) -> (r: String)
        requires
            self.finds_syntax(file_type),
        ensures
            r@ == debug_prefix(file_type) + resolved_syntax_name(self.syntaxes(), file_type),
    {
        let name = resolve_syntax(&self.syntax_set, file_type).1;
        let mut r = String::from_str("FileType: ");
        r.append(file_type_name(file_type));
        r.append(" -> Syntax: ");
        r.append(name.as_str());
        r
    }

    /// Cuts a YAML line by hand, when no YAML syntax is available (`None` otherwise).
    fn custom_yaml_highlight<'b>(&self, line: &'b str) -> (r: Option<Vec<(Style, &'b str)>>)
        ensures
            r is None == self.has_native_yaml(),
            r matches Some(pieces) ==> concat_texts(piece_texts(pieces@)) == line@,
            r matches Some(pieces) ==> pieces_view(pieces@) == spec_yaml_highlight(line@),
    {
        if find_syntax_by_extension(&self.syntax_set, "yaml").is_some() || find_syntax_by_extension(&self.syntax_set, "yml").is_some() {
            return None;
        }
        let segments = yaml_segments(line);
        proof {
            lemma_yaml_segments_tile(line@);
        }
        let ghost spec = spec_yaml_segments(line@);
        let mut result: Vec<(Style, &'b str)> = Vec::new();
        let mut i: usize = 0;
        while i < segments.len()
            invariant
                i <= segments@.len(),
                segments_view(segments@) == spec,
                spec == spec_yaml_segments(line@),
                spec.len() > 0,
                spec[spec.len() - 1].2 == line@.len(),
                forall|k: int| 0 <= k < spec.len() ==> spec[k].1 <= #[trigger] spec[k].2,
                forall|k: int| 0 <= k < spec.len() - 1 ==> #[trigger] spec[k].2 == spec[k + 1].1,
                spec[0].1 == 0,
                result@.len() == i,
                forall|k: int| 0 <= k < i ==> (#[trigger] result@[k]).1@ == line@.subrange(spec[k].1, spec[k].2),
                forall|k: int| 0 <= k < i ==> (#[trigger] result@[k]).0 == spec_yaml_style(spec[k].0),
            decreases segments.len() - i,
        {
            let (token, start, end) = segments[i];
            assert(spec[i as int] == (token, start as int, end as int));
            proof {
                lemma_segment_in_line(spec, i as int, line@.len() as int);
            }
            let style = match yaml_token_color(token) {
                Some((r, g, b, a)) => style_with_foreground(r, g, b, a),
                None => default_style(),
            };
            result.push((style, line.substring_char(start, end)));
            i = i + 1;
        }
        proof {
            let texts = piece_texts(result@);
            assert forall|k: int| 0 <= k < texts.len() implies #[trigger] texts[k] == line@.subrange(
                spec[k].1,
                spec[k].2,
            ) by {
                assert(texts[k] == result@[k].1@);
            }
            lemma_tiling_concat(line@, spec, texts, spec.len() as int);
            assert(texts.take(spec.len() as int) =~= texts);
            assert(line@.subrange(0, line@.len() as int) =~= line@);
            assert(pieces_view(result@) =~= spec_yaml_highlight(line@));
        }
        Some(result)
    }

    /// An indenter holding the rule of every language that has one.
    pub fn create_smart_indenter() -> (r: SmartIndenter)
        ensures
            forall|file_type: FileType| #[trigger] r.rule_for(file_type) == crate::indent::spec_rule_for(file_type),
    {
        SmartIndenter::new()
    }
}

/// The pieces syntect gave for `line`, or, when it reported an error, the whole line in the
/// default style.
pub fn regions_or_whole_line<'b>(result: Result<Vec<(Style, &'b str)>, syntect::Error>, line: &'b str) -> (r: Vec<(Style, &'b str)>)
    ensures
        match result {
            Ok(pieces) => r@ == pieces@,
            Err(_) => pieces_view(r@) == seq![(plain_style(), line@)] && concat_texts(piece_texts(r@))
                == line@,
        },
{
    match result {
        Ok(regions) => regions,
        Err(_) => {
            let whole = vec![(default_style(), line)];
            assert(piece_texts(whole@).drop_last() =~= Seq::<Seq<char>>::empty());
            assert(concat_texts(Seq::<Seq<char>>::empty()) == Seq::<char>::empty());
            assert(piece_texts(whole@).last() == line@);
            assert(concat_texts(piece_texts(whole@)) =~= line@);
            assert(pieces_view(whole@) =~= seq![(plain_style(), line@)]);
            whole
        },
    }
}

/// The pieces of a line cut along a tiling join back into the line: the first `k` of them
/// make the line up to the end of piece `k - 1`.
proof fn lemma_tiling_concat(line: Seq<char>, spec: Seq<(YamlToken, int, int)>, texts: Seq<Seq<char>>, k: int)
    requires
        0 < k <= spec.len(),
        texts.len() == spec.len(),
        spec[0].1 == 0,
        spec[spec.len() - 1].2 == line.len(),
        forall|j: int| 0 <= j < spec.len() ==> spec[j].1 <= #[trigger] spec[j].2,
        forall|j: int| 0 <= j < spec.len() - 1 ==> #[trigger] spec[j].2 == spec[j + 1].1,
        forall|j: int| 0 <= j < texts.len() ==> #[trigger] texts[j] == line.subrange(spec[j].1, spec[j].2),
    ensures
        concat_texts(texts.take(k)) == line.subrange(0, spec[k - 1].2),
    decreases k,
{
    lemma_segment_in_line(spec, k - 1, line.len() as int);
    assert(texts.take(k).drop_last() =~= texts.take(k - 1));
    assert(texts.take(k).last() == texts[k - 1]);
    if k == 1 {
        assert(texts.take(0) =~= Seq::<Seq<char>>::empty());
        assert(concat_texts(texts.take(0)) == Seq::<char>::empty());
        assert(concat_texts(texts.take(1)) =~= texts[0]);
    } else {
        lemma_tiling_concat(line, spec, texts, k - 1);
        lemma_segment_in_line(spec, k - 2, line.len() as int);
        assert(spec[k - 2].2 == spec[k - 1].1);
        assert(line.subrange(0, spec[k - 2].2) + line.subrange(spec[k - 1].1, spec[k - 1].2)
            =~= line.subrange(0, spec[k - 1].2));
    }
}

/// A piece of a tiling lies within the line.
proof fn lemma_segment_in_line(spec: Seq<(YamlToken, int, int)>, i: int, n: int)
    requires
        0 <= i < spec.len(),
        spec[0].1 == 0,
        spec[spec.len() - 1].2 == n,
        forall|k: int| 0 <= k < spec.len() ==> spec[k].1 <= #[trigger] spec[k].2,
        forall|k: int| 0 <= k < spec.len() - 1 ==> #[trigger] spec[k].2 == spec[k + 1].1,
    ensures
        0 <= spec[i].1 <= spec[i].2 <= n,
    decreases spec.len() - i,
{
    lemma_segment_start(spec, i);
    lemma_segment_end(spec, i, n);
}

proof fn lemma_segment_start(spec: Seq<(YamlToken, int, int)>, i: int)
    requires
        0 <= i < spec.len(),
        spec[0].1 == 0,
        forall|k: int| 0 <= k < spec.len() ==> spec[k].1 <= #[trigger] spec[k].2,
        forall|k: int| 0 <= k < spec.len() - 1 ==> #[trigger] spec[k].2 == spec[k + 1].1,
    ensures
        0 <= spec[i].1,
    decreases i,
{
    if i > 0 {
        lemma_segment_start(spec, i - 1);
        assert(spec[i - 1].2 == spec[i].1);
    }
}

proof fn lemma_segment_end(spec: Seq<(YamlToken, int, int)>, i: int, n: int)
    requires
        0 <= i < spec.len(),
        spec[spec.len() - 1].2 == n,
        forall|k: int| 0 <= k < spec.len() ==> spec[k].1 <= #[trigger] spec[k].2,
        forall|k: int| 0 <= k < spec.len() - 1 ==> #[trigger] spec[k].2 == spec[k + 1].1,
    ensures
        spec[i].2 <= n,
    decreases spec.len() - i,
{
    if i < spec.len() - 1 {
        lemma_segment_end(spec, i + 1, n);
        assert(spec[i].2 == spec[i + 1].1);
    }
}

/// "FileType: <type> -> Syntax: ", how `debug_syntax_for_filetype` starts.
pub open spec fn debug_prefix(file_type: FileType) -> Seq<char> {
    "FileType: "@ + spec_file_type_name(file_type) + " -> Syntax: "@
}

/// The extensions joined with ", ".
pub open spec fn join_extensions(extensions: Seq<Seq<char>>) -> Seq<char>
    decreases extensions.len(),
{
    if extensions.len() == 0 {
        Seq::empty()
    } else if extensions.len() == 1 {
        extensions[0]
    } else {
        join_extensions(extensions.drop_last()) + ", "@ + extensions.last()
    }
}

/// "name (ext1, ext2, ...)".
pub open spec fn syntax_description(entry: (Seq<char>, Seq<Seq<char>>)) -> Seq<char> {
    entry.0 + " ("@ + join_extensions(entry.1) + ")"@
}

fn describe_syntax(name: &String, extensions: &Vec<String>) -> (r: String)
    ensures
        r@ == syntax_description((name@, extensions@.map_values(|e: String| e@))),
{
    let ghost exts = extensions@.map_values(|e: String| e@);
    let mut joined = String::new();
    let mut i: usize = 0;
    while i < extensions.len()
        invariant
            i <= extensions@.len(),
            exts == extensions@.map_values(|e: String| e@),
            joined@ == join_extensions(exts.take(i as int)),
        decreases extensions.len() - i,
    {
        assert(exts.take(i + 1).drop_last() =~= exts.take(i as int));
        assert(exts.take(i + 1).last() == extensions@[i as int]@);
        if i > 0 {
            joined.append(", ");
        } else {
            assert(exts.take(1) =~= seq![exts[0]]);
        }
        joined.append(extensions[i].as_str());
        i = i + 1;
    }
    assert(exts.take(extensions@.len() as int) =~= exts);
    let mut r = String::new();
    r.append(name.as_str());
    r.append(" (");
    r.append(joined.as_str());
    r.append(")");
    r
}


/// The file extension that names each language's own syntax (`java` for Java, ...).
pub open spec fn own_extension(file_type: FileType) -> Option<Seq<char>> {
    match file_type {
        FileType::Python => Some("py"@),
        FileType::Rust => Some("rs"@),
        FileType::JavaScript => Some("js"@),
        FileType::TypeScript => Some("ts"@),
        FileType::HTML => Some("html"@),
        FileType::CSS => Some("css"@),
        FileType::YAML => Some("yaml"@),
        FileType::JSON => Some("json"@),
        FileType::Markdown => Some("md"@),
        FileType::Shell => Some("sh"@),
        FileType::Go => Some("go"@),
        FileType::Java => Some("java"@),
        FileType::C => Some("c"@),
        FileType::Cpp => Some("cpp"@),
        FileType::CSharp => Some("cs"@),
        FileType::Ruby => Some("rb"@),
        FileType::PHP => Some("php"@),
        FileType::SQL => Some("sql"@),
        FileType::TOML => Some("toml"@),
        FileType::XML => Some("xml"@),
        FileType::Swift => Some("swift"@),
        FileType::Scala => Some("scala"@),
        FileType::Lua => Some("lua"@),
        FileType::PowerShell => Some("ps1"@),
        FileType::Perl => Some("pl"@),
        FileType::Less => Some("less"@),
        FileType::Diff => Some("diff"@),
        FileType::Kotlin => Some("kt"@),
        _ => None,
    }
}

/// When the syntax set has a syntax listing a language's own extension, files of that
/// language are highlighted with it: with the last syntax listing that extension.
pub proof fn lemma_own_extension_wins(entries: Seq<(Seq<char>, Seq<Seq<char>>)>, file_type: FileType)
    requires
        own_extension(file_type) matches Some(e) && has_syntax_with_extension(entries, e),
    ensures
        resolved_index(entries, file_type) == last_with_extension(entries, own_extension(file_type)->0)->0,
        resolved_syntax_name(entries, file_type) == entries[last_with_extension(
            entries,
            own_extension(file_type)->0,
        )->0].0,
{
    let cands = spec_syntax_candidates(file_type);
    assert(cands[0] == (true, own_extension(file_type)->0));
    lemma_last_with_extension(entries, own_extension(file_type)->0);
    assert(query_found(entries, cands[0]));
    assert(first_found(entries, cands) == Some(0int));
}

/// Dockerfiles and makefiles are highlighted with the syntax named `Dockerfile` or
/// `Makefile` (the last one of that name) when the set has one.
pub proof fn lemma_named_syntax_wins(entries: Seq<(Seq<char>, Seq<Seq<char>>)>, file_type: FileType)
    requires
        file_type == FileType::Dockerfile || file_type == FileType::Makefile,
        has_syntax_named(
            entries,
            if file_type == FileType::Dockerfile {
                "Dockerfile"@
            } else {
                "Makefile"@
            },
        ),
    ensures
        resolved_syntax_name(entries, file_type) == if file_type == FileType::Dockerfile {
            "Dockerfile"@
        } else {
            "Makefile"@
        },
        resolved_index(entries, file_type) == last_named(
            entries,
            if file_type == FileType::Dockerfile {
                "Dockerfile"@
            } else {
                "Makefile"@
            },
        )->0,
{
    let cands = spec_syntax_candidates(file_type);
    assert(query_found(entries, cands[0]));
    assert(first_found(entries, cands) == Some(0int));
}

/// Plain text is highlighted with the last syntax named `Plain Text`.
pub proof fn lemma_plain_uses_plain_text(entries: Seq<(Seq<char>, Seq<Seq<char>>)>)
    ensures
        resolved_syntax_name(entries, FileType::Plain) == "Plain Text"@,
        resolved_index(entries, FileType::Plain) == last_named(entries, "Plain Text"@)->0,
{
}


/// The colors of hand-cut YAML pieces: comments in a warm grey, keys in green, list dashes
/// in purple, the rest in the default style.
pub proof fn lemma_yaml_colors()
    ensures
        spec_yaml_style(YamlToken::Comment) == styled(156, 142, 124, 255),
        spec_yaml_style(YamlToken::Key) == styled(76, 119, 79, 255),
        spec_yaml_style(YamlToken::Dash) == styled(147, 112, 179, 255),
        spec_yaml_style(YamlToken::Plain) == plain_style(),
{
}

/// With syntect's default themes, the Studio Ghibli theme chosen is `base16-mocha.dark`,
/// the first one tried.
pub proof fn lemma_default_ghibli_theme()
    ensures
        first_present(crate::syntect_api::default_theme_names(), ghibli_themes()) == Some(0int),
        ghibli_themes()[0] == "base16-mocha.dark"@,
{
    assert(crate::syntect_api::default_theme_names().contains("base16-mocha.dark"@));
}

/// Pruning keeps the newest entries: a suffix of the cache, `MAX_CACHE_SIZE` long when the
/// cache was longer, the whole cache otherwise.
pub proof fn lemma_prune_keeps_newest<A>(entries: Seq<A>)
    ensures
        spec_prune(entries).len() == if entries.len() > MAX_CACHE_SIZE {
            MAX_CACHE_SIZE as nat
        } else {
            entries.len()
        },
        forall|k: int|
            0 <= k < spec_prune(entries).len() ==> #[trigger] spec_prune(entries)[k] == entries[entries.len()
                - spec_prune(entries).len() + k],
{
}

} // verus!
