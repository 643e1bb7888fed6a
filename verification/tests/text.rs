use cargo_info::text::{debug_list_text, decimal_text, indent_lines, label, pad};

fn indented_by_std(text: &str) -> String {
    let mut out = String::new();
    for line in text.lines() {
        out += "\n";
        if !line.is_empty() {
            out = out + "  " + line;
        }
    }
    out
}

#[test]
fn pad_fills_the_column_with_spaces() {
    assert_eq!(pad("abc", 5), "abc  ");
    assert_eq!(pad("", 3), "   ");
    assert_eq!(pad("VERSION", 16), "VERSION         ");
}

#[test]
fn pad_leaves_a_full_column_alone() {
    assert_eq!(pad("abcde", 5), "abcde");
    assert_eq!(pad("abcdef", 3), "abcdef");
    assert_eq!(pad("abc", 0), "abc");
}

#[test]
fn pad_counts_characters_not_bytes() {
    assert_eq!(pad("é", 3), "é  ");
    assert_eq!(pad("日本語", 4), "日本語 ");
    assert_eq!(pad("é", 3), format!("{:<3}", "é"));
}

#[test]
fn pad_agrees_with_std_formatting() {
    for text in ["", "a", "Repository:", "a very long label indeed", "tab\there"] {
        assert_eq!(pad(text, 16), format!("{:<16}", text));
        assert_eq!(pad(text, 18), format!("{:<18}", text));
    }
}

#[test]
fn label_puts_the_value_behind_the_column() {
    assert_eq!(label("Homepage:", 16, "http://example.com"), "Homepage:       http://example.com");
    assert_eq!(label("Default features:", 16, "[]"), "Default features:[]");
    assert_eq!(label("License:", 18, ""), "License:          ");
}

#[test]
fn decimal_text_writes_small_numbers() {
    assert_eq!(decimal_text(0), "0");
    assert_eq!(decimal_text(7), "7");
    assert_eq!(decimal_text(10), "10");
    assert_eq!(decimal_text(12345), "12345");
    assert_eq!(decimal_text(1000000), "1000000");
}

#[test]
fn decimal_text_writes_the_largest_number() {
    assert_eq!(decimal_text(u64::MAX), "18446744073709551615");
}

#[test]
fn decimal_text_agrees_with_std_formatting() {
    for n in [0u64, 1, 9, 10, 11, 99, 100, 101, 4096, 99999, 1 << 40, u64::MAX - 1] {
        assert_eq!(decimal_text(n), n.to_string());
    }
}

#[test]
fn indent_lines_indents_every_line() {
    assert_eq!(indent_lines("a\nb"), "\n  a\n  b");
    assert_eq!(indent_lines("a\nb\n"), "\n  a\n  b");
    assert_eq!(indent_lines("one line"), "\n  one line");
}

#[test]
fn indent_lines_leaves_empty_lines_bare() {
    assert_eq!(indent_lines("a\n\nb\n"), "\n  a\n\n  b");
    assert_eq!(indent_lines("\n"), "\n");
    assert_eq!(indent_lines("\n\n"), "\n\n");
}

#[test]
fn indent_lines_of_nothing_is_nothing() {
    assert_eq!(indent_lines(""), "");
}

#[test]
fn indent_lines_drops_a_carriage_return_before_a_line_feed() {
    assert_eq!(indent_lines("a\r\nb"), "\n  a\n  b");
    assert_eq!(indent_lines("\r\n"), "\n");
    assert_eq!(indent_lines("a\r"), "\n  a\r");
    assert_eq!(indent_lines("a\rb\n"), "\n  a\rb");
}

#[test]
fn indent_lines_agrees_with_std_lines() {
    for text in [
        "",
        "\n",
        "a",
        "a\n",
        "a\nb",
        "a\n\n\nb\n\n",
        "a\r\nb\r\n",
        "\r",
        "\r\r\n",
        "a\r",
        "x\n\r\ny",
        "VERSION         RELEASED        DOWNLOADS       \n\n1.0.0           now             3               \n",
    ] {
        assert_eq!(indent_lines(text), indented_by_std(text), "for {:?}", text);
    }
}

#[test]
fn debug_list_text_quotes_and_separates() {
    let items = vec!["a".to_string(), "b".to_string(), "c".to_string()];
    assert_eq!(debug_list_text(&items), "[\"a\", \"b\", \"c\"]");
}

#[test]
fn debug_list_text_of_nothing_is_two_brackets() {
    assert_eq!(debug_list_text(&Vec::new()), "[]");
}

#[test]
fn debug_list_text_of_one_item_has_no_comma() {
    assert_eq!(debug_list_text(&vec!["serde".to_string()]), "[\"serde\"]");
}

#[test]
fn debug_list_text_escapes_as_std_does() {
    let items = vec!["say \"hi\"".to_string(), "back\\slash".to_string(), "new\nline".to_string(), String::new()];
    assert_eq!(debug_list_text(&items), format!("{:?}", items));
    assert_eq!(debug_list_text(&items), "[\"say \\\"hi\\\"\", \"back\\\\slash\", \"new\\nline\", \"\"]");
}
