use codonn::editor::{auto_complete_brackets, decimal, line_count, line_number_gutter};

fn completed(s: &str) -> String {
    let mut t = s.to_string();
    auto_complete_brackets(&mut t);
    t
}

#[test]
fn opening_brackets_are_closed() {
    assert_eq!(completed("call("), "call()");
    assert_eq!(completed("let v = ["), "let v = []");
    assert_eq!(completed("fn f() {"), "fn f() {}");
}

#[test]
fn odd_quote_is_closed() {
    assert_eq!(completed("say \""), "say \"\"");
    assert_eq!(completed("a \"b\" \""), "a \"b\" \"\"");
    assert_eq!(completed("'"), "''");
}

#[test]
fn even_quote_is_left_alone() {
    assert_eq!(completed("\"\""), "\"\"");
    assert_eq!(completed("x''"), "x''");
}

#[test]
fn other_endings_are_left_alone() {
    assert_eq!(completed(""), "");
    assert_eq!(completed("done)"), "done)");
    assert_eq!(completed("ünïcödé"), "ünïcödé");
}

#[test]
fn lines_are_counted_as_str_lines_does() {
    for s in ["", "a", "a\n", "a\n\nb", "\n", "x\r\ny\r\n", "one\ntwo\nthree"] {
        assert_eq!(line_count(s), s.lines().count(), "{:?}", s);
    }
}

#[test]
fn decimal_writes_digits() {
    assert_eq!(decimal(0), "0");
    assert_eq!(decimal(7), "7");
    assert_eq!(decimal(1234), "1234");
    assert_eq!(decimal(usize::MAX), usize::MAX.to_string());
}

#[test]
fn gutter_right_aligns_numbers() {
    assert_eq!(line_number_gutter(""), "");
    assert_eq!(line_number_gutter("only"), "1");
    let text = "x\n".repeat(10);
    assert_eq!(line_number_gutter(&text), " 1\n 2\n 3\n 4\n 5\n 6\n 7\n 8\n 9\n10");
}
