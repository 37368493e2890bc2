use bar_daemon::json::{json_escape, tuples_to_json};
use bar_daemon::text::{
    bool_to_string, parse_bool_strict, parse_u32, parse_u64, split_char, split_ws, trim,
    trim_end_matches, trim_start_matches, u32_to_string, u64_to_string,
};

#[test]
fn decimal_parsing() {
    assert_eq!(parse_u64("0").unwrap(), 0);
    assert_eq!(parse_u64("42").unwrap(), 42);
    assert_eq!(parse_u64("+42").unwrap(), 42);
    assert_eq!(parse_u64("18446744073709551615").unwrap(), u64::MAX);
    assert!(parse_u64("18446744073709551616").is_err(), "one past the maximum overflows");
    assert!(parse_u64("").is_err());
    assert!(parse_u64("+").is_err());
    assert!(parse_u64("4 2").is_err());
    assert!(parse_u64("-1").is_err());
    assert_eq!(parse_u32("4294967295").unwrap(), u32::MAX);
    assert!(parse_u32("4294967296").is_err());
}

#[test]
fn decimal_formatting() {
    assert_eq!(u64_to_string(0), "0");
    assert_eq!(u64_to_string(1234567890), "1234567890");
    assert_eq!(u64_to_string(u64::MAX), "18446744073709551615");
    assert_eq!(u32_to_string(42), "42");
}

#[test]
fn booleans() {
    assert_eq!(bool_to_string(true), "true");
    assert_eq!(bool_to_string(false), "false");
    assert_eq!(parse_bool_strict("true").unwrap(), true);
    assert_eq!(parse_bool_strict("false").unwrap(), false);
    assert!(parse_bool_strict("True").is_err());
    assert!(parse_bool_strict("1").is_err());
}

#[test]
fn splitting() {
    let pieces = split_char("a,b,,c", ',');
    assert_eq!(pieces, vec!["a", "b", "", "c"]);
    assert_eq!(split_char("", ','), vec![""]);
    assert_eq!(split_char(",", ','), vec!["", ""]);
    let toks = split_ws("  one\ttwo \n three  ");
    assert_eq!(toks, vec!["one", "two", "three"]);
    assert!(split_ws("   ").is_empty());
}

#[test]
fn trimming() {
    assert_eq!(trim("  x y\t"), "x y");
    assert_eq!(trim_start_matches("ababX", "ab"), "X");
    assert_eq!(trim_end_matches("45%%", "%"), "45");
    assert_eq!(trim_start_matches("X", "ab"), "X");
}

#[test]
fn json_escaping() {
    assert_eq!(json_escape("plain"), "plain");
    assert_eq!(json_escape("a\"b"), "a\\\"b");
    assert_eq!(json_escape("a\\b"), "a\\\\b");
    assert_eq!(json_escape("a\nb"), "a\\u000ab");
    assert_eq!(json_escape("\u{1}"), "\\u0001");
}

#[test]
fn snapshot_json_shape() {
    let tuples = vec![
        (
            String::from("volume"),
            vec![
                (String::from("percent"), String::from("42")),
                (String::from("mute_state"), String::from("false")),
            ],
        ),
        (String::from("ram"), vec![(String::from("used"), String::from("9"))]),
    ];
    assert_eq!(
        tuples_to_json(&tuples),
        "{\"volume\":{\"percent\":\"42\",\"mute_state\":\"false\"},\"ram\":{\"used\":\"9\"}}"
    );
}

#[test]
fn snapshot_json_escapes_values() {
    let tuples = vec![(String::from("g"), vec![(String::from("k"), String::from("a\"b"))])];
    assert_eq!(tuples_to_json(&tuples), "{\"g\":{\"k\":\"a\\\"b\"}}");
}
