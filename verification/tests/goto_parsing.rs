use edit::documents::DocumentManager;
use edit::goto::Point;

fn parse(s: &str) -> (&str, Option<Point>) {
    let (p, g) = DocumentManager::parse_filename_goto(s.as_bytes());
    (std::str::from_utf8(p).unwrap(), g)
}

#[test]
fn test_parse_last_numbers() {
    assert_eq!(parse("123"), ("123", None));
    assert_eq!(parse("abc"), ("abc", None));
    assert_eq!(parse(":123"), (":123", None));
    assert_eq!(parse("abc:123"), ("abc", Some(Point { x: 0, y: 122 })));
    assert_eq!(parse("45:123"), ("45", Some(Point { x: 0, y: 122 })));
    assert_eq!(parse(":45:123"), (":45", Some(Point { x: 0, y: 122 })));
    assert_eq!(parse("abc:45:123"), ("abc", Some(Point { x: 122, y: 44 })));
    assert_eq!(parse("abc:def:123"), ("abc:def", Some(Point { x: 0, y: 122 })));
    assert_eq!(parse("1:2:3"), ("1", Some(Point { x: 2, y: 1 })));
    assert_eq!(parse("::3"), (":", Some(Point { x: 0, y: 2 })));
    assert_eq!(parse("1::3"), ("1:", Some(Point { x: 0, y: 2 })));
    assert_eq!(parse(""), ("", None));
    assert_eq!(parse(":"), (":", None));
    assert_eq!(parse("::"), ("::", None));
    assert_eq!(parse("a:1"), ("a", Some(Point { x: 0, y: 0 })));
    assert_eq!(parse("1:a"), ("1:a", None));
    assert_eq!(parse("file.txt:10"), ("file.txt", Some(Point { x: 0, y: 9 })));
    assert_eq!(parse("file.txt:10:5"), ("file.txt", Some(Point { x: 4, y: 9 })));
}

#[test]
fn goto_zero_line_is_clamped_to_first() {
    assert_eq!(parse("a:0"), ("a", Some(Point { x: 0, y: 0 })));
    assert_eq!(parse("a:0:0"), ("a", Some(Point { x: 0, y: 0 })));
}

#[test]
fn goto_number_too_large_keeps_whole_name() {
    // One more than isize::MAX on 64-bit targets.
    assert_eq!(parse("a:9223372036854775808"), ("a:9223372036854775808", None));
    assert_eq!(
        parse("a:9223372036854775807"),
        ("a", Some(Point { x: 0, y: 9223372036854775806 }))
    );
}

#[test]
fn goto_bad_column_keeps_line_only() {
    assert_eq!(parse("a:x:7"), ("a:x", Some(Point { x: 0, y: 6 })));
    assert_eq!(parse("a::7"), ("a:", Some(Point { x: 0, y: 6 })));
    assert_eq!(parse("dir/file.rs:3:"), ("dir/file.rs:3:", None));
}

#[test]
fn goto_name_and_position_round_trip() {
    for (line, col) in [(1usize, 1usize), (7, 3), (120, 80)] {
        let text = format!("src/main.rs:{}:{}", line, col);
        let (name, goto) = parse(&text);
        assert_eq!(name, "src/main.rs");
        assert_eq!(goto, Some(Point { x: col as isize - 1, y: line as isize - 1 }));
    }
}
