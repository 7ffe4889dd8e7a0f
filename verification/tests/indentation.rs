use edit::file_type::FileType;
use edit::highlight::SyntaxHighlighter;
use edit::indent::{indent_step as step, IndentRule, SmartIndenter};

fn lines(ls: &[&str]) -> Vec<String> {
    ls.iter().map(|s| s.to_string()).collect()
}

#[test]
fn rust_brace_opens_block() {
    let ind = SmartIndenter::new();
    assert_eq!(ind.calculate_indent(&lines(&["fn main() {"]), 1, "", FileType::Rust, 4), 4);
    assert_eq!(ind.calculate_indent(&lines(&["    match x {", "        1 =>"]), 2, "", FileType::Rust, 4), 12);
}

#[test]
fn rust_closing_brace_dedents() {
    let ind = SmartIndenter::new();
    assert_eq!(ind.calculate_indent(&lines(&["fn f() {", "    let x = 1;"]), 2, "}", FileType::Rust, 4), 0);
    // Saturates at zero.
    assert_eq!(ind.calculate_indent(&lines(&["  x"]), 1, "}", FileType::Rust, 4), 0);
    // `} else {` also starts with `}`, which is checked first.
    assert_eq!(ind.calculate_indent(&lines(&["        a();"]), 1, "} else {", FileType::Rust, 4), 4);
}

#[test]
fn python_rules() {
    let ind = SmartIndenter::new();
    assert_eq!(ind.calculate_indent(&lines(&["def f():"]), 1, "", FileType::Python, 4), 4);
    assert_eq!(ind.calculate_indent(&lines(&["    x = 1"]), 1, "return x", FileType::Python, 4), 0);
    assert_eq!(ind.calculate_indent(&lines(&["if __name__ == \"__main__\":"]), 1, "", FileType::Python, 4), 0);
    assert_eq!(ind.calculate_indent(&lines(&["    if __name__ == \"__main__\":"]), 1, "", FileType::Python, 4), 8);
    assert_eq!(ind.calculate_indent(&lines(&["@decorator"]), 1, "", FileType::Python, 2), 2);
}

#[test]
fn first_line_and_empty_document() {
    let ind = SmartIndenter::new();
    assert_eq!(ind.calculate_indent(&lines(&["    x {"]), 0, "", FileType::Rust, 4), 0);
    assert_eq!(ind.calculate_indent(&[], 3, "", FileType::Rust, 4), 0);
}

#[test]
fn index_past_end_uses_last_line() {
    let ind = SmartIndenter::new();
    assert_eq!(ind.calculate_indent(&lines(&["a", "  b {"]), 9, "", FileType::JavaScript, 2), 4);
}

#[test]
fn languages_without_rule_keep_previous_indent() {
    let ind = SmartIndenter::new();
    assert_eq!(ind.calculate_indent(&lines(&["   text {"]), 1, "}", FileType::Plain, 4), 3);
    assert_eq!(ind.calculate_indent(&lines(&["   text"]), 0, "", FileType::Markdown, 4), 0);
}

#[test]
fn other_languages() {
    let ind = SmartIndenter::new();
    assert_eq!(ind.calculate_indent(&lines(&["key:"]), 1, "", FileType::YAML, 2), 2);
    assert_eq!(ind.calculate_indent(&lines(&["  then_part"]), 1, "fi", FileType::Shell, 2), 0);
    assert_eq!(ind.calculate_indent(&lines(&["{"]), 1, "", FileType::JSON, 2), 2);
    assert_eq!(ind.calculate_indent(&lines(&["  \"a\": 1"]), 1, "]", FileType::JSON, 2), 0);
    assert_eq!(ind.calculate_indent(&lines(&["<div>"]), 1, "", FileType::HTML, 2), 2);
    assert_eq!(ind.calculate_indent(&lines(&["  <p>x"]), 1, "</div>", FileType::XML, 2), 0);
    assert_eq!(ind.calculate_indent(&lines(&["def f"]), 1, "", FileType::Ruby, 2), 2);
    assert_eq!(ind.calculate_indent(&lines(&["  x"]), 1, "end", FileType::Ruby, 2), 0);
    assert_eq!(ind.calculate_indent(&lines(&["for i=1,3 do"]), 1, "", FileType::Lua, 3), 3);
    assert_eq!(ind.calculate_indent(&lines(&["a {"]), 1, "", FileType::Less, 4), 4);
}

#[test]
fn line_indent_counts_spaces_and_tabs() {
    let ind = SyntaxHighlighter::create_smart_indenter();
    assert_eq!(ind.get_line_indent("  \t x", 4), 7);
    assert_eq!(ind.get_line_indent("\t\tx", 8), 16);
    assert_eq!(ind.get_line_indent("abc", 4), 0);
    assert_eq!(ind.get_line_indent("    ", 4), 4);
    assert_eq!(ind.get_line_indent("", 4), 0);
}

#[test]
fn rule_patterns() {
    let r = IndentRule::python();
    assert_eq!(r.increase_patterns, vec![r":\s*(?:#.*)?$".to_string(), r"^\s*@\w+".to_string()]);
    let js = IndentRule::javascript();
    let brace = IndentRule::brace_based();
    assert_eq!(js.increase_patterns, brace.increase_patterns);
    assert_eq!(js.decrease_patterns, brace.decrease_patterns);
    assert_eq!(js.decrease_increase_patterns, brace.decrease_increase_patterns);
    assert_eq!(IndentRule::yaml().increase_patterns.len(), 5);
    assert!(IndentRule::css().decrease_increase_patterns.is_empty());
    for rule in [IndentRule::python(), IndentRule::rust(), IndentRule::brace_based(), IndentRule::html(),
        IndentRule::css(), IndentRule::yaml(), IndentRule::json(), IndentRule::shell(), IndentRule::ruby(), IndentRule::lua()] {
        for p in rule.increase_patterns.iter().chain(&rule.decrease_patterns).chain(&rule.decrease_increase_patterns) {
            assert!(regex::Regex::new(p).is_ok(), "pattern {} must compile", p);
        }
    }
}

#[test]
fn checked_indent_reports_overflow_and_missing_line() {
    let ind = SmartIndenter::new();
    assert_eq!(edit::indent::line_indent_checked("\t\tx", 3), Some(6));
    assert_eq!(edit::indent::line_indent_checked("\t\tx", usize::MAX), None);
    assert_eq!(ind.calculate_indent_checked(&lines(&["fn f() {"]), 1, "", FileType::Rust, 4), Some(4));
    // The increase would overflow.
    assert_eq!(ind.calculate_indent_checked(&lines(&["\tfn f() {"]), 1, "", FileType::Rust, usize::MAX), None);
    // Without a rule the previous line must exist.
    assert_eq!(ind.calculate_indent_checked(&lines(&["x"]), 5, "", FileType::Plain, 4), None);
    assert_eq!(ind.calculate_indent_checked(&lines(&["  x"]), 1, "", FileType::Plain, 4), Some(2));
}

#[test]
fn decrease_and_keep_patterns_dedent_the_current_line() {
    let si = SmartIndenter::new();
    let ci = |l: &str, c: &str, ft: FileType| si.calculate_indent(&[l.to_string()], 1, c, ft, 4);
    assert_eq!(ci("    echo hi", "else", FileType::Shell), 0);
    assert_eq!(ci("    puts 1", "else", FileType::Ruby), 0);
    assert_eq!(ci("    x = 1", "else", FileType::Lua), 0);
    assert_eq!(ci("        x = 1", "elif y:", FileType::Python), 4);
    assert_eq!(ci("  a", "else", FileType::Shell), 0);
}

#[test]
fn indent_step_cases() {
    assert_eq!(step(8, 4, true, false, false), Some(4));
    assert_eq!(step(2, 4, true, true, true), Some(0));
    assert_eq!(step(0, 4, false, true, true), Some(0));
    assert_eq!(step(3, 4, false, false, true), Some(7));
    assert_eq!(step(3, 4, false, false, false), Some(3));
    assert_eq!(step(usize::MAX, 1, false, false, true), None);
}
