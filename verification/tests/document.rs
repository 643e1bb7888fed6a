use cargo_info::document::{
    count_of, element, field, is_countable, is_true, keys_of, length_of, text_of, texts_of, Json,
};
use cargo_info::errors::{Error, Refusal};

fn text(s: &str) -> Json {
    Json::Text(s.to_string())
}

fn whole(n: u64) -> Json {
    Json::Number { positive: true, mantissa: n, exponent: 0 }
}

fn object(entries: Vec<(&str, Json)>) -> Json {
    Json::Object(entries.into_iter().map(|(k, v)| (k.to_string(), v)).collect())
}

#[test]
fn parse_reads_an_object() {
    let doc = Json::parse(r#"{"crate":{"name":"demo","downloads":42}}"#).unwrap();
    let krate = doc.get("crate");
    assert_eq!(text_of(field(krate, "name")), "demo");
    assert_eq!(count_of(field(krate, "downloads")), 42);
}

#[test]
fn parse_reads_every_kind() {
    let doc = Json::parse(r#"[null, true, false, 12, -3, 1.50, "s", [], {}]"#).unwrap();
    assert_eq!(doc.len(), 9);
    assert!(matches!(doc.item(0), Some(Json::Null)));
    assert!(matches!(doc.item(1), Some(Json::Boolean(true))));
    assert!(matches!(doc.item(2), Some(Json::Boolean(false))));
    assert!(matches!(doc.item(3), Some(Json::Number { positive: true, mantissa: 12, exponent: 0 })));
    assert!(matches!(doc.item(4), Some(Json::Number { positive: false, mantissa: 3, exponent: 0 })));
    assert!(matches!(doc.item(5), Some(Json::Number { positive: true, mantissa: 150, exponent: -2 })));
    assert!(matches!(doc.item(6), Some(Json::Text(s)) if s == "s"));
    assert!(matches!(doc.item(7), Some(Json::Array(items)) if items.is_empty()));
    assert!(matches!(doc.item(8), Some(Json::Object(entries)) if entries.is_empty()));
    assert!(doc.item(9).is_none());
}

#[test]
fn parse_reads_long_and_short_strings_alike() {
    let long = "x".repeat(100);
    let doc = Json::parse(&format!(r#"["short","{}"]"#, long)).unwrap();
    assert_eq!(text_of(doc.item(0)), "short");
    assert_eq!(text_of(doc.item(1)), long);
}

#[test]
fn parse_keeps_the_order_of_entries() {
    let doc = Json::parse(r#"{"b":1,"a":2,"c":3}"#).unwrap();
    assert_eq!(doc.entry_count(), 3);
    assert_eq!(doc.key(0).as_deref(), Some("b"));
    assert_eq!(doc.key(1).as_deref(), Some("a"));
    assert_eq!(doc.key(2).as_deref(), Some("c"));
    assert_eq!(doc.key(3), None);
    assert_eq!(doc.dump(), r#"{"b":1,"a":2,"c":3}"#);
}

#[test]
fn parse_refuses_a_text_that_ends_early() {
    assert!(matches!(Json::parse("{\"a\":"), Err(Error::Json(Refusal::UnexpectedEndOfJson))));
    assert!(matches!(Json::parse(""), Err(Error::Json(Refusal::UnexpectedEndOfJson))));
}

#[test]
fn parse_refuses_an_unexpected_character() {
    let r = Json::parse("{\"a\": ?}");
    assert!(matches!(r, Err(Error::Json(Refusal::UnexpectedCharacter { ch: '?', line: 1, column: 7 }))));
    assert!(matches!(Json::parse("not json"), Err(Error::Json(Refusal::UnexpectedCharacter { .. }))));
}

#[test]
fn parse_refuses_what_is_nested_too_deeply() {
    let deep = "[".repeat(600);
    assert!(matches!(Json::parse(&deep), Err(Error::Json(Refusal::ExceededDepthLimit))));
}

#[test]
fn get_finds_the_value_under_a_key() {
    let doc = object(vec![("a", whole(1)), ("b", whole(2))]);
    assert_eq!(count_of(doc.get("a")), 1);
    assert_eq!(count_of(doc.get("b")), 2);
    assert!(doc.get("c").is_none());
}

#[test]
fn get_takes_the_first_of_two_entries_with_one_key() {
    let doc = object(vec![("a", whole(1)), ("a", whole(2))]);
    assert_eq!(count_of(doc.get("a")), 1);
}

#[test]
fn get_finds_nothing_in_what_is_no_object() {
    assert!(text("a").get("a").is_none());
    assert!(Json::Array(vec![whole(1)]).get("0").is_none());
    assert!(Json::Null.get("a").is_none());
}

#[test]
fn field_of_nothing_is_nothing() {
    assert!(field(None, "a").is_none());
    let doc = object(vec![("a", Json::Null)]);
    assert!(field(field(Some(&doc), "a"), "b").is_none());
    assert!(field(field(field(Some(&doc), "x"), "y"), "z").is_none());
}

#[test]
fn item_finds_a_member_by_its_place() {
    let doc = Json::Array(vec![text("a"), text("b")]);
    assert_eq!(text_of(doc.item(0)), "a");
    assert_eq!(text_of(doc.item(1)), "b");
    assert!(doc.item(2).is_none());
    assert!(element(None, 0).is_none());
    assert!(object(vec![("0", text("a"))]).item(0).is_none());
}

#[test]
fn len_counts_the_members_of_an_array_only() {
    assert_eq!(Json::Array(vec![Json::Null, Json::Null]).len(), 2);
    assert_eq!(object(vec![("a", Json::Null)]).len(), 0);
    assert_eq!(text("abc").len(), 0);
    assert_eq!(length_of(None), 0);
}

#[test]
fn text_of_gives_the_empty_string_for_what_is_no_string() {
    assert_eq!(text_of(Some(&text("demo"))), "demo");
    assert_eq!(text_of(Some(&Json::Null)), "");
    assert_eq!(text_of(Some(&whole(5))), "");
    assert_eq!(text_of(Some(&Json::Boolean(true))), "");
    assert_eq!(text_of(Some(&Json::Array(vec![text("a")]))), "");
    assert_eq!(text_of(None), "");
}

#[test]
fn count_of_reads_whole_numbers_only() {
    assert_eq!(count_of(Some(&whole(42))), 42);
    assert_eq!(count_of(Some(&whole(u64::MAX))), u64::MAX);
    assert_eq!(count_of(Some(&Json::Number { positive: false, mantissa: 1, exponent: 0 })), 0);
    assert_eq!(count_of(Some(&Json::Number { positive: true, mantissa: 15, exponent: -1 })), 0);
    assert_eq!(count_of(Some(&Json::Number { positive: true, mantissa: 1, exponent: 3 })), 0);
    assert_eq!(count_of(Some(&text("7"))), 0);
    assert_eq!(count_of(Some(&Json::Null)), 0);
    assert_eq!(count_of(None), 0);
}

#[test]
fn count_of_agrees_with_the_parser() {
    let doc = Json::parse("[42, -1, 1.5, 1e3, \"7\", null, 18446744073709551615]").unwrap();
    let counts: Vec<u64> = (0..7).map(|i| count_of(doc.item(i))).collect();
    assert_eq!(counts, vec![42, 0, 0, 0, 0, 0, u64::MAX]);
}

#[test]
fn is_true_holds_of_true_alone() {
    assert!(is_true(Some(&Json::Boolean(true))));
    assert!(!is_true(Some(&Json::Boolean(false))));
    assert!(!is_true(Some(&Json::Null)));
    assert!(!is_true(Some(&text("true"))));
    assert!(!is_true(Some(&whole(1))));
    assert!(!is_true(None));
}

#[test]
fn texts_of_reads_each_member_as_a_string() {
    let doc = Json::Array(vec![text("a"), whole(1), text("c"), Json::Null]);
    assert_eq!(texts_of(Some(&doc)), vec!["a", "", "c", ""]);
    assert!(texts_of(Some(&text("abc"))).is_empty());
    assert!(texts_of(None).is_empty());
}

#[test]
fn keys_of_leaves_the_skipped_key_out() {
    let doc = object(vec![("std", Json::Null), ("default", Json::Null), ("serde", Json::Null)]);
    assert_eq!(keys_of(Some(&doc), "default"), vec!["std", "serde"]);
    assert_eq!(keys_of(Some(&doc), "none"), vec!["std", "default", "serde"]);
    assert!(keys_of(Some(&Json::Array(vec![text("a")])), "default").is_empty());
    assert!(keys_of(None, "default").is_empty());
}

#[test]
fn dump_writes_on_one_line() {
    let doc = Json::Array(vec![text("a"), text("b"), text("c")]);
    assert_eq!(doc.dump(), r#"["a","b","c"]"#);
    let doc = object(vec![("name", text("demo")), ("n", whole(3)), ("ok", Json::Boolean(true)), ("none", Json::Null)]);
    assert_eq!(doc.dump(), r#"{"name":"demo","n":3,"ok":true,"none":null}"#);
}

#[test]
fn dump_escapes_strings() {
    assert_eq!(text("say \"hi\"\n").dump(), r#""say \"hi\"\n""#);
}

#[test]
fn dump_writes_numbers_with_sign_and_fraction() {
    assert_eq!(Json::Number { positive: false, mantissa: 15, exponent: -1 }.dump(), "-1.5");
    assert_eq!(Json::Number { positive: true, mantissa: 12, exponent: 0 }.dump(), "12");
}

#[test]
fn pretty_writes_over_several_lines() {
    let doc = Json::Array(vec![text("a"), text("b"), text("c")]);
    assert_eq!(doc.pretty(4), "[\n    \"a\",\n    \"b\",\n    \"c\"\n]");
    assert_eq!(doc.pretty(2), "[\n  \"a\",\n  \"b\",\n  \"c\"\n]");
    let doc = object(vec![("crate", object(vec![("name", text("demo"))]))]);
    assert_eq!(doc.pretty(2), "{\n  \"crate\": {\n    \"name\": \"demo\"\n  }\n}");
}

#[test]
fn pretty_of_an_empty_array_is_two_brackets() {
    assert_eq!(Json::Array(Vec::new()).pretty(4), "[]");
    assert_eq!(Json::Array(Vec::new()).dump(), "[]");
}

#[test]
fn dump_of_what_was_parsed_is_the_compact_text() {
    let compact = r#"{"crate":{"name":"demo","keywords":["a","b"],"downloads":1234},"versions":[{"num":"1.0.0","yanked":false}]}"#;
    let spaced = "{ \"crate\" : { \"name\" : \"demo\", \"keywords\" : [ \"a\", \"b\" ], \"downloads\" : 1234 },\n \"versions\" : [ { \"num\" : \"1.0.0\", \"yanked\" : false } ] }";
    assert_eq!(Json::parse(compact).unwrap().dump(), compact);
    assert_eq!(Json::parse(spaced).unwrap().dump(), compact);
}

#[test]
fn duplicate_copies_the_whole_document() {
    let doc = Json::parse(r#"{"a":[1,"two",{"three":[null,true]}],"b":-4.25}"#).unwrap();
    let copy = doc.duplicate();
    assert_eq!(copy.dump(), r#"{"a":[1,"two",{"three":[null,true]}],"b":-4.25}"#);
    assert_eq!(copy.dump(), doc.dump());
}

#[test]
fn key_is_none_where_there_is_no_entry() {
    assert_eq!(Json::Null.key(0), None);
    assert_eq!(Json::Array(vec![text("a")]).key(0), None);
    assert_eq!(object(vec![("a", Json::Null)]).key(1), None);
    assert_eq!(object(vec![("a", Json::Null)]).key(0).as_deref(), Some("a"));
}

#[test]
fn pretty_indents_deep_documents() {
    let deep = format!("{}1{}", "[".repeat(512), "]".repeat(512));
    let doc = Json::parse(&deep).unwrap();
    let text = doc.pretty(4);
    assert!(text.contains(&format!("\n{}1\n", " ".repeat(4 * 512))));
    assert_eq!(doc.dump(), deep);
    let deeper = format!("{}1{}", "[".repeat(513), "]".repeat(513));
    assert!(matches!(Json::parse(&deeper), Err(Error::Json(Refusal::ExceededDepthLimit))));
}

#[test]
fn parse_refuses_a_fraction_of_more_digits_than_it_can_count() {
    let long = format!("0.{}", "0".repeat(32769));
    assert!(matches!(Json::parse(&long), Err(Error::Json(Refusal::TooManyDigits))));
    let one_more = format!("[-0.{}1]", "0".repeat(32768));
    assert!(matches!(Json::parse(&one_more), Err(Error::Json(Refusal::TooManyDigits))));
    let filled = format!("{{\"a\": 0.{}12345678901234567890123}}", "0".repeat(32760));
    assert!(matches!(Json::parse(&filled), Err(Error::Json(Refusal::TooManyDigits))));
}

#[test]
fn parse_reads_a_fraction_of_as_many_digits_as_it_can_count() {
    let long = format!("[0.{}1, 2]", "0".repeat(32767));
    let doc = Json::parse(&long).unwrap();
    assert!(matches!(doc.item(0), Some(Json::Number { positive: true, mantissa: 1, exponent: -32768 })));
    assert_eq!(count_of(doc.item(1)), 2);
    let filled = format!("0.{}12345678901234567890123", "0".repeat(32740));
    assert!(matches!(
        Json::parse(&filled),
        Ok(Json::Number { positive: true, mantissa: 12345678901234567890, exponent: -32760 })
    ));
}

#[test]
fn parse_reads_long_runs_of_digits_that_it_does_not_count() {
    let digits = "7".repeat(40000);
    let inside = format!("{{\"crate\":{{\"description\":\"{}\"}}}}", digits);
    let doc = Json::parse(&inside).unwrap();
    assert_eq!(text_of(field(doc.get("crate"), "description")), digits);
    let quoted = format!("[\"a \\\" 0.{}\"]", "0".repeat(40000));
    assert_eq!(text_of(Json::parse(&quoted).unwrap().item(0)).len(), 40006);
    let behind_one = format!("1.{}", "0".repeat(40000));
    assert!(matches!(Json::parse(&behind_one), Ok(Json::Number { positive: true, .. })));
    let behind_ten = format!("[10.{}5]", "0".repeat(40000));
    assert_eq!(Json::parse(&behind_ten).unwrap().len(), 1);
    let whole = format!("1{}", "0".repeat(40000));
    assert!(matches!(Json::parse(&whole), Err(Error::Json(Refusal::ExceededDepthLimit))));
    let exponent = format!("1e{}", "0".repeat(40000));
    assert!(matches!(Json::parse(&exponent), Ok(Json::Number { mantissa: 1, exponent: 0, .. })));
}

#[test]
fn is_countable_follows_strings_and_numbers() {
    let zeros = "0".repeat(32769);
    assert!(is_countable(""));
    assert!(is_countable("no digits"));
    assert!(is_countable(&"1".repeat(40000)));
    assert!(is_countable(&format!("x{}é", "9".repeat(40000))));
    assert!(is_countable(&format!("0.{}", "0".repeat(32768))));
    assert!(!is_countable(&format!("0.{}", zeros)));
    assert!(!is_countable(&format!("[1, -0.{}]", zeros)));
    assert!(!is_countable(&format!("{{\"a\":0.{}}}", zeros)));
    assert!(is_countable(&format!("\"0.{}\"", zeros)));
    assert!(is_countable(&format!("\"\\\"0.{}\"", zeros)));
    assert!(!is_countable(&format!("\"\\\\\"0.{}", zeros)));
    assert!(is_countable(&format!("10.{}", zeros)));
    assert!(is_countable(&format!("5.{}", zeros)));
    assert!(is_countable(&format!("0.{}1{}", "0".repeat(32748), "9".repeat(100))));
    assert!(is_countable(&format!("0.{}1", "0".repeat(32767))));
    assert!(!is_countable(&format!("0.{}10", "0".repeat(32767))));
    assert!(!is_countable(&format!("0.{}1{}", "0".repeat(32767), "9".repeat(100))));
}

#[test]
fn shallow_measures_the_nesting() {
    let doc = Json::parse(r#"{"a":[1,[2,{"b":[]}]],"c":{}}"#).unwrap();
    assert!(!doc.shallow(0));
    assert!(!doc.shallow(3));
    assert!(doc.shallow(4));
    assert!(doc.shallow(usize::MAX));
    assert!(Json::Null.shallow(0));
    assert!(text("a").shallow(0));
    assert!(Json::Array(Vec::new()).shallow(0));
    assert!(Json::Object(Vec::new()).shallow(0));
    assert!(!Json::Array(vec![Json::Null]).shallow(0));
    assert!(Json::Array(vec![Json::Array(Vec::new())]).shallow(1));
}

#[test]
fn can_indent_bounds_the_widest_indentation() {
    let flat = Json::Array(vec![text("a")]);
    assert!(flat.can_indent(0));
    assert!(flat.can_indent(4));
    assert!(flat.can_indent(u16::MAX));
    let two = Json::Array(vec![Json::Array(vec![text("a")])]);
    assert!(two.can_indent(32767));
    assert!(!two.can_indent(32768));
    assert!(Json::Null.can_indent(u16::MAX));
    assert_eq!(two.pretty(32767).len(), 1 + 1 + 32767 + 1 + 1 + 2 * 32767 + 3 + 1 + 32767 + 1 + 1 + 1);
}
