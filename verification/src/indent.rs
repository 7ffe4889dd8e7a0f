use vstd::prelude::*;

use crate::file_type::FileType;
use crate::text::{chars_of, seq_contains, trim, trimmed_contains};

verus! {

/// What `regex::Regex::new(pattern)` followed by `Regex::is_match(text)` gives: `Some(m)` when
/// the pattern compiles, `m` telling whether the regex matches somewhere in `text`; `None`
/// when the pattern is refused.
pub uninterp spec fn regex_match_result(pattern: Seq<char>, text: Seq<char>) -> Option<bool>;

/// Compiles `pattern` with `regex::Regex::new` and asks `Regex::is_match` about `text`.
/// The contract only names the outcome (`regex_match_result`); what a pattern matches is
/// the regex crate's and is not stated here.
#[verifier::external_body]
fn regex_is_match(pattern: &str, text: &str) -> (r: Option<bool>)
    ensures
        r == regex_match_result(pattern@, text@),
{
    match regex::Regex::new(pattern) {
        Ok(re) => Some(re.is_match(text)),
        Err(_) => None,
    }
}

/// The text of each pattern of a list.
pub open spec fn patterns_view(patterns: Seq<String>) -> Seq<Seq<char>> {
    patterns.map_values(|p: String| p@)
}

/// Whether some pattern of the list compiles and matches `text`.
pub open spec fn any_pattern_matches(patterns: Seq<Seq<char>>, text: Seq<char>) -> bool {
    exists|i: int| 0 <= i < patterns.len() && regex_match_result(patterns[i], text) == Some(true)
}

/// Whether some pattern of `patterns` compiles and matches `text`.
pub fn any_match(patterns: &Vec<String>, text: &str) -> (r: bool)
    ensures
        r == any_pattern_matches(patterns_view(patterns@), text@),
{
    let ghost ps = patterns_view(patterns@);
    let mut i: usize = 0;
    while i < patterns.len()
        invariant
            i <= patterns@.len(),
            ps == patterns_view(patterns@),
            forall|j: int| 0 <= j < i ==> regex_match_result(#[trigger] ps[j], text@) != Some(true),
        decreases patterns.len() - i,
    {
        if let Some(true) = regex_is_match(patterns[i].as_str(), text) {
            assert(ps[i as int] == patterns@[i as int]@);
            return true;
        }
        i = i + 1;
    }
    false
}

fn owned(s: &str) -> (r: String)
    ensures
        r@ == s@,
{
    s.to_owned()
}

/// The patterns of a rule: (increase, decrease, decrease-and-keep).
pub type RuleView = (Seq<Seq<char>>, Seq<Seq<char>>, Seq<Seq<char>>);

/// Smart indentation rule for a language
#[derive(Debug)]
pub struct IndentRule {
    /// Patterns that increase indent on next line
    pub increase_patterns: Vec<String>,
    /// Patterns that decrease current line indent
    pub decrease_patterns: Vec<String>,
    /// Patterns that both decrease current line and keep same indent for next
    pub decrease_increase_patterns: Vec<String>,
}

impl View for IndentRule {
    type V = RuleView;

    open spec fn view(&self) -> RuleView {
        (
            patterns_view(self.increase_patterns@),
            patterns_view(self.decrease_patterns@),
            patterns_view(self.decrease_increase_patterns@),
        )
    }
}

/// The patterns of the python rule: (increase, decrease, decrease-and-keep).
pub open spec fn spec_python_rule() -> RuleView {
    (seq![r#":\s*(?:#.*)?$"#@, r#"^\s*@\w+"#@], seq![r#"^\s*(elif|else|except|finally|break|continue|pass|return)\b"#@], seq![r#"^\s*(elif|else|except|finally).*:\s*(?:#.*)?$"#@])
}

/// The patterns of the rust rule: (increase, decrease, decrease-and-keep).
pub open spec fn spec_rust_rule() -> RuleView {
    (seq![r#"\{\s*(?://.*)?$"#@, r#"=>\s*(?://.*)?$"#@], seq![r#"^\s*\}"#@], seq![r#"^\s*\}\s*else\s*\{"#@])
}

/// The patterns of the brace-based rule: (increase, decrease, decrease-and-keep).
pub open spec fn spec_brace_based_rule() -> RuleView {
    (seq![r#"\{\s*(?://.*)?$"#@, r#"=>\s*(?://.*)?$"#@], seq![r#"^\s*\}"#@], seq![r#"^\s*\}\s*else\s*(if\s*\()?\{?"#@, r#"^\s*\}\s*catch\s*\("#@, r#"^\s*\}\s*finally\s*\{"#@])
}

/// The patterns of the html rule: (increase, decrease, decrease-and-keep).
pub open spec fn spec_html_rule() -> RuleView {
    (seq![r#"<[a-zA-Z][^/>]*>$"#@, r#"<(div|p|ul|ol|li|table|tr|td|th|head|body|html|section|article|nav|aside|header|footer|main)[^>]*>"#@], seq![r#"^\s*</"#@], Seq::<Seq<char>>::empty())
}

/// The patterns of the css rule: (increase, decrease, decrease-and-keep).
pub open spec fn spec_css_rule() -> RuleView {
    (seq![r#"\{\s*(?:/\*.*\*/\s*)?$"#@], seq![r#"^\s*\}"#@], Seq::<Seq<char>>::empty())
}

/// The patterns of the yaml rule: (increase, decrease, decrease-and-keep).
pub open spec fn spec_yaml_rule() -> RuleView {
    (seq![r#":\s*$"#@, r#":\s*\|"#@, r#":\s*>"#@, r#"^\s*-\s*$"#@, r#"^\s*-\s+\w+:\s*$"#@], Seq::<Seq<char>>::empty(), Seq::<Seq<char>>::empty())
}

/// The patterns of the json rule: (increase, decrease, decrease-and-keep).
pub open spec fn spec_json_rule() -> RuleView {
    (seq![r#"[\[{]\s*$"#@], seq![r#"^\s*[\]}]"#@], Seq::<Seq<char>>::empty())
}

/// The patterns of the shell rule: (increase, decrease, decrease-and-keep).
pub open spec fn spec_shell_rule() -> RuleView {
    (seq![r#"\bdo\s*$"#@, r#"\bthen\s*$"#@, r#"\{\s*$"#@, r#"\(\s*$"#@], seq![r#"^\s*(done|fi|esac)\b"#@, r#"^\s*\}\s*$"#@, r#"^\s*\)\s*$"#@], seq![r#"^\s*(elif|else)\b"#@])
}

/// The patterns of the ruby rule: (increase, decrease, decrease-and-keep).
pub open spec fn spec_ruby_rule() -> RuleView {
    (seq![r#"\bdo\s*(?:\|[^|]*\|)?\s*$"#@, r#"\{\s*(?:#.*)?$"#@, r#"^\s*(class|module|def|if|unless|while|until|for|case|begin)\b"#@], seq![r#"^\s*end\b"#@, r#"^\s*\}"#@], seq![r#"^\s*(elsif|else|rescue|ensure|when)\b"#@])
}

/// The patterns of the lua rule: (increase, decrease, decrease-and-keep).
pub open spec fn spec_lua_rule() -> RuleView {
    (seq![r#"\bdo\s*$"#@, r#"\bthen\s*$"#@, r#"\bfunction\b.*\)\s*$"#@, r#"^\s*(if|for|while|repeat)\b"#@], seq![r#"^\s*(end|until)\b"#@], seq![r#"^\s*(elseif|else)\b"#@])
}


impl IndentRule {
    /// Indentation rule for Python.
    pub fn python() -> (r: Self)
        ensures
            r@ == spec_python_rule(),
    {
        let r = Self {
            increase_patterns: vec![owned(r#":\s*(?:#.*)?$"#), owned(r#"^\s*@\w+"#)],
            decrease_patterns: vec![owned(r#"^\s*(elif|else|except|finally|break|continue|pass|return)\b"#)],
            decrease_increase_patterns: vec![owned(r#"^\s*(elif|else|except|finally).*:\s*(?:#.*)?$"#)],
        };
        assert(r@.0 =~= spec_python_rule().0);
        assert(r@.1 =~= spec_python_rule().1);
        assert(r@.2 =~= spec_python_rule().2);
        r
    }

    /// Indentation rule for Rust.
    pub fn rust() -> (r: Self)
        ensures
            r@ == spec_rust_rule(),
    {
        let r = Self {
            increase_patterns: vec![owned(r#"\{\s*(?://.*)?$"#), owned(r#"=>\s*(?://.*)?$"#)],
            decrease_patterns: vec![owned(r#"^\s*\}"#)],
            decrease_increase_patterns: vec![owned(r#"^\s*\}\s*else\s*\{"#)],
        };
        assert(r@.0 =~= spec_rust_rule().0);
        assert(r@.1 =~= spec_rust_rule().1);
        assert(r@.2 =~= spec_rust_rule().2);
        r
    }

    /// Shared brace-based rule for JS, TS, Java, C, C++, C#, Go, Swift, Scala, Kotlin, PHP.
    pub fn brace_based() -> (r: Self)
        ensures
            r@ == spec_brace_based_rule(),
    {
        let r = Self {
            increase_patterns: vec![owned(r#"\{\s*(?://.*)?$"#), owned(r#"=>\s*(?://.*)?$"#)],
            decrease_patterns: vec![owned(r#"^\s*\}"#)],
            decrease_increase_patterns: vec![owned(r#"^\s*\}\s*else\s*(if\s*\()?\{?"#), owned(r#"^\s*\}\s*catch\s*\("#), owned(r#"^\s*\}\s*finally\s*\{"#)],
        };
        assert(r@.0 =~= spec_brace_based_rule().0);
        assert(r@.1 =~= spec_brace_based_rule().1);
        assert(r@.2 =~= spec_brace_based_rule().2);
        r
    }

    /// Indentation rule for tag-based languages (HTML, XML).
    pub fn html() -> (r: Self)
        ensures
            r@ == spec_html_rule(),
    {
        let r = Self {
            increase_patterns: vec![owned(r#"<[a-zA-Z][^/>]*>$"#), owned(r#"<(div|p|ul|ol|li|table|tr|td|th|head|body|html|section|article|nav|aside|header|footer|main)[^>]*>"#)],
            decrease_patterns: vec![owned(r#"^\s*</"#)],
            decrease_increase_patterns: Vec::new(),
        };
        assert(r@.0 =~= spec_html_rule().0);
        assert(r@.1 =~= spec_html_rule().1);
        assert(r@.2 =~= spec_html_rule().2);
        r
    }

    /// Indentation rule for style sheets (CSS, Less).
    pub fn css() -> (r: Self)
        ensures
            r@ == spec_css_rule(),
    {
        let r = Self {
            increase_patterns: vec![owned(r#"\{\s*(?:/\*.*\*/\s*)?$"#)],
            decrease_patterns: vec![owned(r#"^\s*\}"#)],
            decrease_increase_patterns: Vec::new(),
        };
        assert(r@.0 =~= spec_css_rule().0);
        assert(r@.1 =~= spec_css_rule().1);
        assert(r@.2 =~= spec_css_rule().2);
        r
    }

    /// Indentation rule for YAML.
    pub fn yaml() -> (r: Self)
        ensures
            r@ == spec_yaml_rule(),
    {
        let r = Self {
            increase_patterns: vec![owned(r#":\s*$"#), owned(r#":\s*\|"#), owned(r#":\s*>"#), owned(r#"^\s*-\s*$"#), owned(r#"^\s*-\s+\w+:\s*$"#)],
            decrease_patterns: Vec::new(),
            decrease_increase_patterns: Vec::new(),
        };
        assert(r@.0 =~= spec_yaml_rule().0);
        assert(r@.1 =~= spec_yaml_rule().1);
        assert(r@.2 =~= spec_yaml_rule().2);
        r
    }

    /// Indentation rule for JSON.
    pub fn json() -> (r: Self)
        ensures
            r@ == spec_json_rule(),
    {
        let r = Self {
            increase_patterns: vec![owned(r#"[\[{]\s*$"#)],
            decrease_patterns: vec![owned(r#"^\s*[\]}]"#)],
            decrease_increase_patterns: Vec::new(),
        };
        assert(r@.0 =~= spec_json_rule().0);
        assert(r@.1 =~= spec_json_rule().1);
        assert(r@.2 =~= spec_json_rule().2);
        r
    }

    /// Indentation rule for shell scripts.
    pub fn shell() -> (r: Self)
        ensures
            r@ == spec_shell_rule(),
    {
        let r = Self {
            increase_patterns: vec![owned(r#"\bdo\s*$"#), owned(r#"\bthen\s*$"#), owned(r#"\{\s*$"#), owned(r#"\(\s*$"#)],
            decrease_patterns: vec![owned(r#"^\s*(done|fi|esac)\b"#), owned(r#"^\s*\}\s*$"#), owned(r#"^\s*\)\s*$"#)],
            decrease_increase_patterns: vec![owned(r#"^\s*(elif|else)\b"#)],
        };
        assert(r@.0 =~= spec_shell_rule().0);
        assert(r@.1 =~= spec_shell_rule().1);
        assert(r@.2 =~= spec_shell_rule().2);
        r
    }

    /// Indentation rule for Ruby.
    pub fn ruby() -> (r: Self)
        ensures
            r@ == spec_ruby_rule(),
    {
        let r = Self {
            increase_patterns: vec![owned(r#"\bdo\s*(?:\|[^|]*\|)?\s*$"#), owned(r#"\{\s*(?:#.*)?$"#), owned(r#"^\s*(class|module|def|if|unless|while|until|for|case|begin)\b"#)],
            decrease_patterns: vec![owned(r#"^\s*end\b"#), owned(r#"^\s*\}"#)],
            decrease_increase_patterns: vec![owned(r#"^\s*(elsif|else|rescue|ensure|when)\b"#)],
        };
        assert(r@.0 =~= spec_ruby_rule().0);
        assert(r@.1 =~= spec_ruby_rule().1);
        assert(r@.2 =~= spec_ruby_rule().2);
        r
    }

    /// Indentation rule for Lua.
    pub fn lua() -> (r: Self)
        ensures
            r@ == spec_lua_rule(),
    {
        let r = Self {
            increase_patterns: vec![owned(r#"\bdo\s*$"#), owned(r#"\bthen\s*$"#), owned(r#"\bfunction\b.*\)\s*$"#), owned(r#"^\s*(if|for|while|repeat)\b"#)],
            decrease_patterns: vec![owned(r#"^\s*(end|until)\b"#)],
            decrease_increase_patterns: vec![owned(r#"^\s*(elseif|else)\b"#)],
        };
        assert(r@.0 =~= spec_lua_rule().0);
        assert(r@.1 =~= spec_lua_rule().1);
        assert(r@.2 =~= spec_lua_rule().2);
        r
    }

    /// Same rule as `brace_based`.
    pub fn javascript() -> (r: Self)
        ensures
            r@ == spec_brace_based_rule(),
    {
        Self::brace_based()
    }
}

/// The indentation rule of each language, if it has one.
pub open spec fn spec_rule_for(file_type: FileType) -> Option<RuleView> {
    match file_type {
        FileType::Python => Some(spec_python_rule()),
        FileType::Rust => Some(spec_rust_rule()),
        FileType::JavaScript | FileType::TypeScript | FileType::Go | FileType::Java | FileType::C | FileType::Cpp | FileType::CSharp | FileType::PHP | FileType::Swift | FileType::Scala | FileType::Kotlin | FileType::PowerShell => Some(spec_brace_based_rule()),
        FileType::HTML | FileType::XML => Some(spec_html_rule()),
        FileType::CSS | FileType::Less => Some(spec_css_rule()),
        FileType::YAML => Some(spec_yaml_rule()),
        FileType::JSON => Some(spec_json_rule()),
        FileType::Shell => Some(spec_shell_rule()),
        FileType::Ruby => Some(spec_ruby_rule()),
        FileType::Lua => Some(spec_lua_rule()),
        _ => None,
    }
}

/// Number of leading spaces and tabs of `s`.
pub open spec fn leading_blanks(s: Seq<char>) -> nat
    decreases s.len(),
{
    if s.len() > 0 && (s[0] == ' ' || s[0] == '\t') {
        1 + leading_blanks(s.drop_first())
    } else {
        0
    }
}

/// The width of a space (1) or a tab (`tab_size`).
pub open spec fn blank_width(c: char, tab_size: int) -> int {
    if c == '\t' {
        tab_size
    } else {
        1
    }
}

/// The total width of the blanks in `s`.
pub open spec fn blanks_width(s: Seq<char>, tab_size: int) -> int
    decreases s.len(),
{
    if s.len() == 0 {
        0
    } else {
        blanks_width(s.drop_last(), tab_size) + blank_width(s.last(), tab_size)
    }
}

/// The indentation of a line: its leading spaces count 1 each, its leading tabs
/// `tab_size` each.
pub open spec fn line_indent(line: Seq<char>, tab_size: int) -> int {
    blanks_width(line.take(leading_blanks(line) as int), tab_size)
}

proof fn lemma_leading_blanks(s: Seq<char>)
    ensures
        leading_blanks(s) <= s.len(),
        forall|i: int| 0 <= i < leading_blanks(s) ==> (#[trigger] s[i] == ' ' || s[i] == '\t'),
        leading_blanks(s) < s.len() ==> !(s[leading_blanks(s) as int] == ' ' || s[leading_blanks(s) as int] == '\t'),
    decreases s.len(),
{
    if s.len() > 0 && (s[0] == ' ' || s[0] == '\t') {
        lemma_leading_blanks(s.drop_first());
        assert forall|i: int| 0 <= i < leading_blanks(s) implies (#[trigger] s[i] == ' ' || s[i] == '\t') by {
            if i > 0 {
                assert(s[i] == s.drop_first()[i - 1]);
            }
        }
    }
}

proof fn lemma_blanks_width_monotone(s: Seq<char>, k: int, tab_size: int)
    requires
        0 <= k <= s.len(),
        tab_size >= 0,
    ensures
        0 <= blanks_width(s.take(k), tab_size) <= blanks_width(s, tab_size),
    decreases s.len(),
{
    if k < s.len() {
        assert(s.drop_last().take(k) =~= s.take(k));
        lemma_blanks_width_monotone(s.drop_last(), k, tab_size);
    } else {
        assert(s.take(k) =~= s);
        if s.len() > 0 {
            lemma_blanks_width_monotone(s.drop_last(), k - 1, tab_size);
            assert(s.drop_last().take(k - 1) =~= s.drop_last());
        }
    }
}

/// Width of the leading spaces and tabs of `line`, or `None` when it does not fit in a
/// `usize`.
pub fn line_indent_checked(line: &str, tab_size: usize) -> (r: Option<usize>)
    ensures
        r == if line_indent(line@, tab_size as int) <= usize::MAX {
            Some(line_indent(line@, tab_size as int) as usize)
        } else {
            None::<usize>
        },
{
    let v = chars_of(line);
    let ghost n = leading_blanks(v@) as int;
    proof {
        lemma_leading_blanks(v@);
    }
    let mut count: usize = 0;
    let mut i: usize = 0;
    while i < v.len() && (v[i] == ' ' || v[i] == '\t')
        invariant
            v@ == line@,
            n == leading_blanks(v@),
            n <= v@.len(),
            i <= n,
            forall|j: int| 0 <= j < n ==> (#[trigger] v@[j] == ' ' || v@[j] == '\t'),
            n < v@.len() ==> !(v@[n] == ' ' || v@[n] == '\t'),
            count as int == blanks_width(v@.take(i as int), tab_size as int),
        decreases v.len() - i,
    {
        proof {
            assert(v@.take(i + 1).drop_last() =~= v@.take(i as int));
            assert(v@.take(n).take(i + 1) =~= v@.take(i + 1));
            lemma_blanks_width_monotone(v@.take(n), i + 1, tab_size as int);
        }
        let step: usize = if v[i] == '\t' {
            tab_size
        } else {
            1
        };
        match count.checked_add(step) {
            Some(c) => {
                count = c;
            },
            None => {
                return None;
            },
        }
        i = i + 1;
    }
    Some(count)
}

proof fn lemma_line_indent_nonneg(line: Seq<char>, tab_size: int)
    requires
        tab_size >= 0,
    ensures
        line_indent(line, tab_size) >= 0,
{
    let t = line.take(leading_blanks(line) as int);
    lemma_leading_blanks(line);
    lemma_blanks_width_monotone(t, t.len() as int, tab_size);
    assert(t.take(t.len() as int) =~= t);
}

/// Width of the leading spaces and tabs of `line`.
fn line_indent_exec(line: &str, tab_size: usize) -> (r: usize)
    requires
        line_indent(line@, tab_size as int) <= usize::MAX,
    ensures
        r == line_indent(line@, tab_size as int),
{
    proof {
        lemma_line_indent_nonneg(line@, tab_size as int);
    }
    match line_indent_checked(line, tab_size) {
        Some(width) => width,
        None => 0,
    }
}

/// The indentation that `calculate_indent` gives a line, from the rule of its language, the
/// lines of the document, the index of the line being indented, its content, its language
/// and the tab width.
pub open spec fn spec_calculate_indent(
    rule: Option<RuleView>,
    lines: Seq<Seq<char>>,
    current_line_idx: int,
    current_line_content: Seq<char>,
    file_type: FileType,
    tab_size: int,
) -> int {
    match rule {
        None => if current_line_idx == 0 {
            0
        } else {
            line_indent(lines[current_line_idx - 1], tab_size)
        },
        Some(rule) => if lines.len() == 0 {
            0
        } else if current_line_idx < lines.len() && current_line_idx == 0 {
            0
        } else {
            let prev = if current_line_idx >= lines.len() {
                lines[lines.len() - 1]
            } else {
                lines[current_line_idx - 1]
            };
            let prev_indent = line_indent(prev, tab_size);
            spec_indent_step(
                prev_indent,
                tab_size,
                any_pattern_matches(rule.1, current_line_content) || any_pattern_matches(
                    rule.2,
                    current_line_content,
                ),
                python_main_guard(file_type, prev, prev_indent),
                any_pattern_matches(rule.0, prev),
            )
        },
    }
}

/// Whether the previous line is an unindented Python `if __name__ == "__main__"` guard,
/// after which a line starts unindented.
pub open spec fn python_main_guard(file_type: FileType, prev: Seq<char>, prev_indent: int) -> bool {
    file_type == FileType::Python && prev_indent == 0 && seq_contains(trim(prev), "__name__"@)
        && seq_contains(trim(prev), "__main__"@)
}

/// The indentation of a line from the previous line's indentation and what the rule's
/// patterns say: a line that decreases (or decreases and keeps) goes one `tab_size` left,
/// stopping at 0; after a Python main guard it starts at 0; after a line that increases it
/// goes one `tab_size` right; otherwise it keeps the previous indentation.
pub open spec fn spec_indent_step(
    prev_indent: int,
    tab_size: int,
    dedents: bool,
    python_main: bool,
    increases: bool,
) -> int {
    if dedents {
        if prev_indent - tab_size > 0 {
            prev_indent - tab_size
        } else {
            0
        }
    } else if python_main {
        0
    } else if increases {
        prev_indent + tab_size
    } else {
        prev_indent
    }
}

/// `spec_indent_step` on machine integers: `None` when the indentation does not fit in a
/// `usize`.
pub fn indent_step(prev_indent: usize, tab_size: usize, dedents: bool, python_main: bool, increases: bool) -> (r:
    Option<usize>)
    ensures
        r == if spec_indent_step(prev_indent as int, tab_size as int, dedents, python_main, increases)
            <= usize::MAX {
            Some(spec_indent_step(prev_indent as int, tab_size as int, dedents, python_main, increases) as usize)
        } else {
            None::<usize>
        },
{
    if dedents {
        Some(prev_indent.saturating_sub(tab_size))
    } else if python_main {
        Some(0)
    } else if increases {
        prev_indent.checked_add(tab_size)
    } else {
        Some(prev_indent)
    }
}

/// The inputs on which `calculate_indent` computes its result without panicking or
/// overflowing: the previous line exists and the indentation fits in a `usize`.
pub open spec fn calculate_indent_defined(
    rule: Option<RuleView>,
    lines: Seq<Seq<char>>,
    current_line_idx: int,
    current_line_content: Seq<char>,
    file_type: FileType,
    tab_size: int,
) -> bool {
    match rule {
        None => current_line_idx == 0 || (current_line_idx <= lines.len() && line_indent(
            lines[current_line_idx - 1],
            tab_size,
        ) <= usize::MAX),
        Some(rule) => lines.len() == 0 || (current_line_idx < lines.len() && current_line_idx
            == 0) || {
            let prev = if current_line_idx >= lines.len() {
                lines[lines.len() - 1]
            } else {
                lines[current_line_idx - 1]
            };
            let prev_indent = line_indent(prev, tab_size);
            &&& prev_indent <= usize::MAX
            &&& spec_indent_step(
                prev_indent,
                tab_size,
                any_pattern_matches(rule.1, current_line_content) || any_pattern_matches(
                    rule.2,
                    current_line_content,
                ),
                python_main_guard(file_type, prev, prev_indent),
                any_pattern_matches(rule.0, prev),
            ) <= usize::MAX
        },
    }
}

proof fn lemma_calculate_indent_nonneg(
    rule: Option<RuleView>,
    lines: Seq<Seq<char>>,
    current_line_idx: int,
    current_line_content: Seq<char>,
    file_type: FileType,
    tab_size: int,
)
    requires
        tab_size >= 0,
    ensures
        spec_calculate_indent(rule, lines, current_line_idx, current_line_content, file_type, tab_size)
            >= 0,
{
    match rule {
        None => {
            if current_line_idx != 0 {
                lemma_line_indent_nonneg(lines[current_line_idx - 1], tab_size);
            }
        },
        Some(_) => {
            if lines.len() > 0 {
                if current_line_idx >= lines.len() {
                    lemma_line_indent_nonneg(lines[lines.len() - 1], tab_size);
                } else if current_line_idx != 0 {
                    lemma_line_indent_nonneg(lines[current_line_idx - 1], tab_size);
                }
            }
        },
    }
}

/// The text of each line.
pub open spec fn lines_view(lines: Seq<String>) -> Seq<Seq<char>> {
    lines.map_values(|l: String| l@)
}

/// Smart indentation engine
pub struct SmartIndenter {
    rules: Vec<(FileType, IndentRule)>,
}

impl SmartIndenter {
    /// The rule the indenter holds for `file_type`, if any.
    pub closed spec fn rule_for(self, file_type: FileType) -> Option<RuleView> {
        if exists|i: int| 0 <= i < self.rules@.len() && #[trigger] self.rules@[i].0 == file_type {
            let i = choose|i: int| 0 <= i < self.rules@.len() && #[trigger] self.rules@[i].0 == file_type;
            Some(self.rules@[i].1@)
        } else {
            None
        }
    }

    /// Every stored rule is the rule of its language, and every language that has a rule
    /// has one stored.
    #[verifier::type_invariant]
    spec fn rules_match_languages(self) -> bool {
        &&& forall|i: int|
            0 <= i < self.rules@.len() ==> spec_rule_for(#[trigger] self.rules@[i].0) == Some(
                self.rules@[i].1@,
            )
        &&& forall|ft: FileType|
            spec_rule_for(ft) is Some ==> exists|i: int|
                0 <= i < self.rules@.len() && #[trigger] self.rules@[i].0 == ft
    }

    /// An indenter holding the rule of every language that has one.
    pub fn new() -> (r: Self)
        ensures
            forall|file_type: FileType| #[trigger] r.rule_for(file_type) == spec_rule_for(file_type),
    {
        let mut rules: Vec<(FileType, IndentRule)> = Vec::new();
        rules.push((FileType::Python, IndentRule::python()));
        rules.push((FileType::Rust, IndentRule::rust()));
        rules.push((FileType::JavaScript, IndentRule::brace_based()));
        rules.push((FileType::TypeScript, IndentRule::brace_based()));
        rules.push((FileType::Go, IndentRule::brace_based()));
        rules.push((FileType::Java, IndentRule::brace_based()));
        rules.push((FileType::C, IndentRule::brace_based()));
        rules.push((FileType::Cpp, IndentRule::brace_based()));
        rules.push((FileType::CSharp, IndentRule::brace_based()));
        rules.push((FileType::PHP, IndentRule::brace_based()));
        rules.push((FileType::Swift, IndentRule::brace_based()));
        rules.push((FileType::Scala, IndentRule::brace_based()));
        rules.push((FileType::Kotlin, IndentRule::brace_based()));
        rules.push((FileType::PowerShell, IndentRule::brace_based()));
        rules.push((FileType::HTML, IndentRule::html()));
        rules.push((FileType::XML, IndentRule::html()));
        rules.push((FileType::CSS, IndentRule::css()));
        rules.push((FileType::Less, IndentRule::css()));
        rules.push((FileType::YAML, IndentRule::yaml()));
        rules.push((FileType::JSON, IndentRule::json()));
        rules.push((FileType::Shell, IndentRule::shell()));
        rules.push((FileType::Ruby, IndentRule::ruby()));
        rules.push((FileType::Lua, IndentRule::lua()));
        assert forall|i: int|
            0 <= i < rules@.len() implies spec_rule_for(#[trigger] rules@[i].0) == Some(
            rules@[i].1@,
        ) by {}
        assert forall|file_type: FileType| spec_rule_for(file_type) is Some implies exists|i: int|
            0 <= i < rules@.len() && #[trigger] rules@[i].0 == file_type by {
            match file_type {
                FileType::Python => assert(rules@[0].0 == file_type),
                FileType::Rust => assert(rules@[1].0 == file_type),
                FileType::JavaScript => assert(rules@[2].0 == file_type),
                FileType::TypeScript => assert(rules@[3].0 == file_type),
                FileType::Go => assert(rules@[4].0 == file_type),
                FileType::Java => assert(rules@[5].0 == file_type),
                FileType::C => assert(rules@[6].0 == file_type),
                FileType::Cpp => assert(rules@[7].0 == file_type),
                FileType::CSharp => assert(rules@[8].0 == file_type),
                FileType::PHP => assert(rules@[9].0 == file_type),
                FileType::Swift => assert(rules@[10].0 == file_type),
                FileType::Scala => assert(rules@[11].0 == file_type),
                FileType::Kotlin => assert(rules@[12].0 == file_type),
                FileType::PowerShell => assert(rules@[13].0 == file_type),
                FileType::HTML => assert(rules@[14].0 == file_type),
                FileType::XML => assert(rules@[15].0 == file_type),
                FileType::CSS => assert(rules@[16].0 == file_type),
                FileType::Less => assert(rules@[17].0 == file_type),
                FileType::YAML => assert(rules@[18].0 == file_type),
                FileType::JSON => assert(rules@[19].0 == file_type),
                FileType::Shell => assert(rules@[20].0 == file_type),
                FileType::Ruby => assert(rules@[21].0 == file_type),
                FileType::Lua => assert(rules@[22].0 == file_type),
                _ => {},
            }
        }
        let r = SmartIndenter { rules };
        assert forall|file_type: FileType| #[trigger] r.rule_for(file_type) == spec_rule_for(file_type) by {
            if spec_rule_for(file_type) is Some {
                let i = choose|i: int| 0 <= i < r.rules@.len() && #[trigger] r.rules@[i].0 == file_type;
                assert(spec_rule_for(r.rules@[i].0) == Some(r.rules@[i].1@));
            } else {
                assert forall|i: int| 0 <= i < r.rules@.len() implies #[trigger] r.rules@[i].0 != file_type by {
                    assert(spec_rule_for(r.rules@[i].0) == Some(r.rules@[i].1@));
                }
            }
        }
        r
    }

    /// The rule stored for `file_type`.
    fn rule(&self, file_type: FileType) -> (r: Option<&IndentRule>)
        ensures
            match r {
                Some(rule) => spec_rule_for(file_type) == Some(rule@),
                None => spec_rule_for(file_type) is None,
            },
    {
        proof {
            use_type_invariant(self);
        }
        let mut i: usize = 0;
        while i < self.rules.len()
            invariant
                i <= self.rules@.len(),
                forall|j: int| 0 <= j < i ==> self.rules@[j].0 != file_type,
                forall|j: int|
                    0 <= j < self.rules@.len() ==> spec_rule_for(#[trigger] self.rules@[j].0)
                        == Some(self.rules@[j].1@),
                forall|ft: FileType|
                    spec_rule_for(ft) is Some ==> exists|j: int|
                        0 <= j < self.rules@.len() && #[trigger] self.rules@[j].0 == ft,
            decreases self.rules.len() - i,
        {
            if self.rules[i].0 == file_type {
                return Some(&self.rules[i].1);
            }
            i = i + 1;
        }
        None
    }

    /// Calculate the indent for a new line based on the previous lines
    pub fn calculate_indent(
        &self,
        lines: &[String],
        current_line_idx: usize,
        current_line_content: &str,
        file_type: FileType,
        tab_size: usize,
    ) -> (r: usize)
        requires
            calculate_indent_defined(
                spec_rule_for(file_type),
                lines_view(lines@),
                current_line_idx as int,
                current_line_content@,
                file_type,
                tab_size as int,
            ),
        ensures
            r == spec_calculate_indent(
                spec_rule_for(file_type),
                lines_view(lines@),
                current_line_idx as int,
                current_line_content@,
                file_type,
                tab_size as int,
            ),
    {
        proof {
            lemma_calculate_indent_nonneg(
                spec_rule_for(file_type),
                lines_view(lines@),
                current_line_idx as int,
                current_line_content@,
                file_type,
                tab_size as int,
            );
        }
        match self.calculate_indent_checked(lines, current_line_idx, current_line_content, file_type, tab_size) {
            Some(indent) => indent,
            None => 0,
        }
    }

    /// `calculate_indent`, or `None` on the inputs where it is not defined: the previous
    /// line is missing, or the indentation does not fit in a `usize`.
    pub fn calculate_indent_checked(
        &self,
        lines: &[String],
        current_line_idx: usize,
        current_line_content: &str,
        file_type: FileType,
        tab_size: usize,
    ) -> (r: Option<usize>)
        ensures
            r == if calculate_indent_defined(
                spec_rule_for(file_type),
                lines_view(lines@),
                current_line_idx as int,
                current_line_content@,
                file_type,
                tab_size as int,
            ) {
                Some(
                    spec_calculate_indent(
                        spec_rule_for(file_type),
                        lines_view(lines@),
                        current_line_idx as int,
                        current_line_content@,
                        file_type,
                        tab_size as int,
                    ) as usize,
                )
            } else {
                None::<usize>
            },
    {
        let ghost lv = lines_view(lines@);
        let rule = match self.rule(file_type) {
            Some(rule) => rule,
            None => {
                proof {
                    if 0 < current_line_idx <= lines@.len() {
                        assert(lv[current_line_idx - 1] == lines@[current_line_idx - 1]@);
                    }
                }
                return self.get_previous_indent(lines, current_line_idx, tab_size);
            },
        };
        if lines.len() == 0 {
            return Some(0);
        }
        let prev_line_idx: usize = if current_line_idx >= lines.len() {
            lines.len() - 1
        } else if current_line_idx == 0 {
            return Some(0);
        } else {
            current_line_idx - 1
        };
        let prev_line = &lines[prev_line_idx];
        assert(lv[prev_line_idx as int] == prev_line@);
        proof {
            lemma_line_indent_nonneg(prev_line@, tab_size as int);
        }
        let prev_indent = match line_indent_checked(prev_line.as_str(), tab_size) {
            Some(width) => width,
            None => {
                return None;
            },
        };
        let dedents = any_match(&rule.decrease_patterns, current_line_content) || any_match(
            &rule.decrease_increase_patterns,
            current_line_content,
        );
        let python_main = if !dedents && file_type == FileType::Python && prev_indent == 0 {
            let prev_chars = chars_of(prev_line.as_str());
            trimmed_contains(&prev_chars, "__name__") && trimmed_contains(&prev_chars, "__main__")
        } else {
            false
        };
        let increases = if dedents || python_main {
            false
        } else {
            any_match(&rule.increase_patterns, prev_line.as_str())
        };
        indent_step(prev_indent, tab_size, dedents, python_main, increases)
    }

    /// Width of the leading spaces (1 each) and tabs (`tab_size` each) of `line`.
    pub fn get_line_indent(&self, line: &str, tab_size: usize) -> (r: usize)
        requires
            line_indent(line@, tab_size as int) <= usize::MAX,
        ensures
            r == line_indent(line@, tab_size as int),
    {
        line_indent_exec(line, tab_size)
    }

    /// Indentation of the line before `current_line_idx` (0 for the first line), or `None`
    /// when that line does not exist or its indentation does not fit in a `usize`.
    fn get_previous_indent(&self, lines: &[String], current_line_idx: usize, tab_size: usize) -> (r:
        Option<usize>)
        ensures
            r == if current_line_idx == 0 {
                Some(0usize)
            } else if current_line_idx <= lines@.len() && line_indent(
                lines@[current_line_idx - 1]@,
                tab_size as int,
            ) <= usize::MAX {
                Some(line_indent(lines@[current_line_idx - 1]@, tab_size as int) as usize)
            } else {
                None::<usize>
            },
    {
        if current_line_idx == 0 {
            return Some(0);
        }
        if current_line_idx > lines.len() {
            return None;
        }
        let prev_line = &lines[current_line_idx - 1];
        line_indent_checked(prev_line.as_str(), tab_size)
    }
}


/// The patterns that open a block in each language: a line after one that matches them is
/// indented one step deeper.
pub open spec fn opening_patterns(file_type: FileType) -> Seq<Seq<char>> {
    match file_type {
        FileType::Python => seq![":\\s*(?:#.*)?$"@, "^\\s*@\\w+"@],
        FileType::Rust => seq!["\\{\\s*(?://.*)?$"@, "=>\\s*(?://.*)?$"@],
        FileType::JavaScript | FileType::TypeScript | FileType::Go | FileType::Java | FileType::C | FileType::Cpp | FileType::CSharp | FileType::PHP | FileType::Swift | FileType::Scala | FileType::Kotlin | FileType::PowerShell => seq!["\\{\\s*(?://.*)?$"@, "=>\\s*(?://.*)?$"@],
        FileType::HTML | FileType::XML => seq!["<[a-zA-Z][^/>]*>$"@, "<(div|p|ul|ol|li|table|tr|td|th|head|body|html|section|article|nav|aside|header|footer|main)[^>]*>"@],
        FileType::CSS | FileType::Less => seq!["\\{\\s*(?:/\\*.*\\*/\\s*)?$"@],
        FileType::YAML => seq![":\\s*$"@, ":\\s*\\|"@, ":\\s*>"@, "^\\s*-\\s*$"@, "^\\s*-\\s+\\w+:\\s*$"@],
        FileType::JSON => seq!["[\\[{]\\s*$"@],
        FileType::Shell => seq!["\\bdo\\s*$"@, "\\bthen\\s*$"@, "\\{\\s*$"@, "\\(\\s*$"@],
        FileType::Ruby => seq!["\\bdo\\s*(?:\\|[^|]*\\|)?\\s*$"@, "\\{\\s*(?:#.*)?$"@, "^\\s*(class|module|def|if|unless|while|until|for|case|begin)\\b"@],
        FileType::Lua => seq!["\\bdo\\s*$"@, "\\bthen\\s*$"@, "\\bfunction\\b.*\\)\\s*$"@, "^\\s*(if|for|while|repeat)\\b"@],
        _ => Seq::empty(),
    }
}

/// The patterns that close a block in each language (`fi`, `end`, `}`, `else`, ...): a
/// line that matches them goes one step left.
pub open spec fn closing_patterns(file_type: FileType) -> Seq<Seq<char>> {
    match file_type {
        FileType::Python => seq!["^\\s*(elif|else|except|finally|break|continue|pass|return)\\b"@, "^\\s*(elif|else|except|finally).*:\\s*(?:#.*)?$"@],
        FileType::Rust => seq!["^\\s*\\}"@, "^\\s*\\}\\s*else\\s*\\{"@],
        FileType::JavaScript | FileType::TypeScript | FileType::Go | FileType::Java | FileType::C | FileType::Cpp | FileType::CSharp | FileType::PHP | FileType::Swift | FileType::Scala | FileType::Kotlin | FileType::PowerShell => seq!["^\\s*\\}"@, "^\\s*\\}\\s*else\\s*(if\\s*\\()?\\{?"@, "^\\s*\\}\\s*catch\\s*\\("@, "^\\s*\\}\\s*finally\\s*\\{"@],
        FileType::HTML | FileType::XML => seq!["^\\s*</"@],
        FileType::CSS | FileType::Less => seq!["^\\s*\\}"@],
        FileType::JSON => seq!["^\\s*[\\]}]"@],
        FileType::Shell => seq!["^\\s*(done|fi|esac)\\b"@, "^\\s*\\}\\s*$"@, "^\\s*\\)\\s*$"@, "^\\s*(elif|else)\\b"@],
        FileType::Ruby => seq!["^\\s*end\\b"@, "^\\s*\\}"@, "^\\s*(elsif|else|rescue|ensure|when)\\b"@],
        FileType::Lua => seq!["^\\s*(end|until)\\b"@, "^\\s*(elseif|else)\\b"@],
        _ => Seq::empty(),
    }
}

/// The languages whose lines simply keep the indentation of the line before.
pub open spec fn keeps_indentation(file_type: FileType) -> bool {
    file_type == FileType::Plain || file_type == FileType::Markdown || file_type == FileType::Dockerfile
        || file_type == FileType::SQL || file_type == FileType::TOML || file_type == FileType::Makefile
        || file_type == FileType::Perl || file_type == FileType::Diff
}

/// The line before line `current_line_idx` (the last line when the index is past the end).
pub open spec fn previous_line(lines: Seq<Seq<char>>, current_line_idx: int) -> Seq<char> {
    if current_line_idx >= lines.len() {
        lines[lines.len() - 1]
    } else {
        lines[current_line_idx - 1]
    }
}

proof fn lemma_rule_patterns(file_type: FileType)
    requires
        opening_patterns(file_type).len() > 0,
    ensures
        spec_rule_for(file_type) matches Some(rule) && rule.0 == opening_patterns(file_type)
            && rule.1 + rule.2 == closing_patterns(file_type),
{
    match spec_rule_for(file_type) {
        Some(rule) => {
            assert(rule.1 + rule.2 =~= closing_patterns(file_type));
        },
        None => {},
    }
}

/// A line after a line that opens a block (one of `opening_patterns` matches it: `then` or
/// `do` at the end of a shell line, `{` at the end of a C-like line, `:` at the end of a
/// Python line, ...) is indented one `tab_size` deeper than that line, unless the line
/// itself closes a block (or follows a Python main guard).
pub proof fn lemma_opening_line_indents_next(
    file_type: FileType,
    pattern_index: int,
    lines: Seq<Seq<char>>,
    current_line_idx: int,
    current_line_content: Seq<char>,
    tab_size: int,
)
    requires
        0 <= pattern_index < opening_patterns(file_type).len(),
        0 < current_line_idx,
        lines.len() > 0,
        regex_match_result(
            opening_patterns(file_type)[pattern_index],
            previous_line(lines, current_line_idx),
        ) == Some(true),
        forall|k: int|
            0 <= k < closing_patterns(file_type).len() ==> regex_match_result(
                #[trigger] closing_patterns(file_type)[k],
                current_line_content,
            ) != Some(true),
        !python_main_guard(
            file_type,
            previous_line(lines, current_line_idx),
            line_indent(previous_line(lines, current_line_idx), tab_size),
        ),
    ensures
        spec_calculate_indent(
            spec_rule_for(file_type),
            lines,
            current_line_idx,
            current_line_content,
            file_type,
            tab_size,
        ) == line_indent(previous_line(lines, current_line_idx), tab_size) + tab_size,
{
    lemma_rule_patterns(file_type);
    let rule = spec_rule_for(file_type)->0;
    let prev = previous_line(lines, current_line_idx);
    assert(rule.0[pattern_index] == opening_patterns(file_type)[pattern_index]);
    assert(any_pattern_matches(rule.0, prev));
    assert(!any_pattern_matches(rule.1, current_line_content)) by {
        assert forall|i: int| 0 <= i < rule.1.len() implies regex_match_result(rule.1[i], current_line_content)
            != Some(true) by {
            assert((rule.1 + rule.2)[i] == rule.1[i]);
            assert(closing_patterns(file_type)[i] == rule.1[i]);
        }
    }
    assert(!any_pattern_matches(rule.2, current_line_content)) by {
        assert forall|i: int| 0 <= i < rule.2.len() implies regex_match_result(rule.2[i], current_line_content)
            != Some(true) by {
            assert((rule.1 + rule.2)[rule.1.len() + i] == rule.2[i]);
            assert(closing_patterns(file_type)[rule.1.len() + i] == rule.2[i]);
        }
    }
}

/// A line that closes a block (one of `closing_patterns` matches it: `fi`, `done`, `end`,
/// `}`, `else`, ...) goes one `tab_size` left of the line before it, stopping at 0.
pub proof fn lemma_closing_line_dedents(
    file_type: FileType,
    pattern_index: int,
    lines: Seq<Seq<char>>,
    current_line_idx: int,
    current_line_content: Seq<char>,
    tab_size: int,
)
    requires
        opening_patterns(file_type).len() > 0,
        0 <= pattern_index < closing_patterns(file_type).len(),
        0 < current_line_idx,
        lines.len() > 0,
        regex_match_result(closing_patterns(file_type)[pattern_index], current_line_content) == Some(true),
    ensures
        spec_calculate_indent(
            spec_rule_for(file_type),
            lines,
            current_line_idx,
            current_line_content,
            file_type,
            tab_size,
        ) == if line_indent(previous_line(lines, current_line_idx), tab_size) - tab_size > 0 {
            line_indent(previous_line(lines, current_line_idx), tab_size) - tab_size
        } else {
            0
        },
{
    lemma_rule_patterns(file_type);
    let rule = spec_rule_for(file_type)->0;
    let k = pattern_index;
    if k < rule.1.len() {
        assert((rule.1 + rule.2)[k] == rule.1[k]);
        assert(any_pattern_matches(rule.1, current_line_content));
    } else {
        assert((rule.1 + rule.2)[k] == rule.2[k - rule.1.len()]);
        assert(any_pattern_matches(rule.2, current_line_content));
    }
}

/// In a language without indentation rules, a line gets the indentation of the line before
/// it, and the first line none.
pub proof fn lemma_plain_languages_keep_indentation(
    file_type: FileType,
    lines: Seq<Seq<char>>,
    current_line_idx: int,
    current_line_content: Seq<char>,
    tab_size: int,
)
    requires
        keeps_indentation(file_type),
    ensures
        spec_calculate_indent(
            spec_rule_for(file_type),
            lines,
            current_line_idx,
            current_line_content,
            file_type,
            tab_size,
        ) == if current_line_idx == 0 {
            0
        } else {
            line_indent(lines[current_line_idx - 1], tab_size)
        },
{
}


proof fn lemma_blanks_width_prepend(c: char, t: Seq<char>, tab_size: int)
    ensures
        blanks_width(seq![c] + t, tab_size) == blank_width(c, tab_size) + blanks_width(t, tab_size),
    decreases t.len(),
{
    if t.len() > 0 {
        lemma_blanks_width_prepend(c, t.drop_last(), tab_size);
        assert((seq![c] + t).drop_last() =~= seq![c] + t.drop_last());
        assert((seq![c] + t).last() == t.last());
    } else {
        assert((seq![c] + t).drop_last() =~= Seq::<char>::empty());
        assert((seq![c] + t).last() == c);
        assert(blanks_width(Seq::<char>::empty(), tab_size) == 0);
    }
}

/// How indentation is measured: a leading space adds 1, a leading tab adds `tab_size`, and
/// a line that starts with anything else (or is empty) has none.
pub proof fn lemma_line_indent_steps(s: Seq<char>, tab_size: int)
    ensures
        line_indent(seq![' '] + s, tab_size) == 1 + line_indent(s, tab_size),
        line_indent(seq!['\t'] + s, tab_size) == tab_size + line_indent(s, tab_size),
        s.len() == 0 || (s[0] != ' ' && s[0] != '\t') ==> line_indent(s, tab_size) == 0,
{
    lemma_leading_blanks(s);
    let n = leading_blanks(s) as int;
    assert((seq![' '] + s).drop_first() =~= s);
    assert((seq!['\t'] + s).drop_first() =~= s);
    assert((seq![' '] + s).take(1 + n) =~= seq![' '] + s.take(n));
    assert((seq!['\t'] + s).take(1 + n) =~= seq!['\t'] + s.take(n));
    lemma_blanks_width_prepend(' ', s.take(n), tab_size);
    lemma_blanks_width_prepend('\t', s.take(n), tab_size);
    if s.len() == 0 || (s[0] != ' ' && s[0] != '\t') {
        assert(s.take(0) =~= Seq::<char>::empty());
    }
}

} // verus!
