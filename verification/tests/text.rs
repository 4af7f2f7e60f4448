use lettermint::json::{redact, JsonValue};
use lettermint::strmap::StringMap;
use lettermint::text::{
    chars_of, parse_i64, push_i64_decimal, replace_chars, split_once, to_ascii_lowercase,
    trim_end_matches, trim_start_matches, trim_whitespace,
};

fn chars(s: &str) -> Vec<char> {
    s.chars().collect()
}

fn text(cs: &[char]) -> String {
    cs.iter().collect()
}

#[test]
fn integers_parse_as_std_does() {
    assert_eq!(parse_i64(&chars("0")), Some(0));
    assert_eq!(parse_i64(&chars("+42")), Some(42));
    assert_eq!(parse_i64(&chars("-42")), Some(-42));
    assert_eq!(parse_i64(&chars("9223372036854775807")), Some(i64::MAX));
    assert_eq!(parse_i64(&chars("-9223372036854775808")), Some(i64::MIN));
    assert_eq!(parse_i64(&chars("9223372036854775808")), None);
    assert_eq!(parse_i64(&chars("-9223372036854775809")), None);
    assert_eq!(parse_i64(&chars("")), None);
    assert_eq!(parse_i64(&chars("-")), None);
    assert_eq!(parse_i64(&chars("+")), None);
    assert_eq!(parse_i64(&chars("1 ")), None);
    assert_eq!(parse_i64(&chars("--1")), None);
    assert_eq!(parse_i64(&chars("007")), Some(7));
}

#[test]
fn integers_print_in_decimal() {
    for value in [0i64, 7, -7, 1_700_000_000, i64::MAX, i64::MIN] {
        let mut out = String::from(">");
        push_i64_decimal(&mut out, value);
        assert_eq!(out, format!(">{value}"));
        assert_eq!(parse_i64(&chars(&out[1..])), Some(value));
    }
}

#[test]
fn trimming_and_splitting() {
    assert_eq!(text(&trim_whitespace(&chars("\t a b \n"))), "a b");
    assert_eq!(text(&trim_whitespace(&chars("\u{a0}x\u{3000}"))), "x");
    assert_eq!(text(&trim_whitespace(&chars("   "))), "");
    assert_eq!(text(&trim_start_matches(&chars("//a/"), '/')), "a/");
    assert_eq!(text(&trim_end_matches(&chars("/a//"), '/')), "/a");
    let (k, v) = split_once(&chars("a=b=c"), '=').unwrap();
    assert_eq!((text(&k), text(&v)), ("a".to_string(), "b=c".to_string()));
    assert!(split_once(&chars("abc"), '=').is_none());
    assert_eq!(to_ascii_lowercase("X-Lettermint-ÄB"), "x-lettermint-Äb");
    assert_eq!(chars_of("héllo"), chars("héllo"));
}

#[test]
fn replacement_is_left_to_right_and_non_overlapping() {
    assert_eq!(text(&replace_chars(&chars("aaa"), &chars("aa"), &chars("X"))), "Xa");
    assert_eq!(text(&replace_chars(&chars("abcabc"), &chars("bc"), &chars(""))), "aa");
    assert_eq!(text(&replace_chars(&chars("none"), &chars("zz"), &chars("Y"))), "none");
    assert_eq!("aaa".replace("aa", "X"), "Xa");
}

#[test]
fn empty_pattern_is_replaced_as_std_does() {
    for sample in ["", "a", "ab", "héllo"] {
        assert_eq!(
            text(&replace_chars(&chars(sample), &[], &chars("[R]"))),
            sample.replace("", "[R]")
        );
    }
    assert_eq!(text(&replace_chars(&chars("ab"), &[], &chars("X"))), "XaXbX");
    let redacted = redact(
        JsonValue::Array(vec![JsonValue::Str("ab".to_string()), JsonValue::Bool(true)]),
        &[],
        &chars("-"),
    );
    match redacted {
        JsonValue::Array(items) => {
            assert_eq!(items[0].as_str(), Some("-a-b-"));
            assert!(matches!(items[1], JsonValue::Bool(true)));
        }
        other => panic!("unexpected {other:?}"),
    }
}

#[test]
fn string_map_keeps_keys_sorted_and_last_value() {
    let mut map = StringMap::new();
    assert_eq!(map.len(), 0);
    map.insert("b".to_string(), "1".to_string());
    map.insert("a".to_string(), "2".to_string());
    map.insert("c".to_string(), "3".to_string());
    map.insert("b".to_string(), "4".to_string());
    assert_eq!(map.len(), 3);
    assert_eq!(map.get("b").unwrap(), "4");
    assert!(map.get("d").is_none());
    assert!(map.contains_key("a"));
    let keys: Vec<&str> = map.entries().iter().map(|(k, _)| k.as_str()).collect();
    assert_eq!(keys, vec!["a", "b", "c"]);
    map.insert("B".to_string(), "5".to_string());
    assert_eq!(map.get_lowercase_last("b").unwrap(), "4");
    assert_eq!(map.entries()[0].0, "B");
}
