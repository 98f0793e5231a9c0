use game_api::escaped::{escape, Escaped};
use game_api::numbers::{parse_i32_text, parse_unsigned_text};
use game_api::text::{fence_text, i32_to_text, push_decimal, split_char, text_eq, to_text};

#[test]
fn escape_replaces_markup() {
    assert_eq!(
        escape("<a href='x'>&\"</a>".to_string()),
        "&lt;a href=&#39;x&#39;&gt;&amp;&quot;&lt;/a&gt;"
    );
}

#[test]
fn escape_keeps_plain_text() {
    assert_eq!(escape(String::new()), "");
    assert_eq!(escape("Obstacle 🏁 é".to_string()), "Obstacle 🏁 é");
}

#[test]
fn escape_of_concatenation_is_concatenation_of_escapes() {
    let a = "<b>".to_string();
    let b = "x & y".to_string();
    let joined = escape(format!("{a}{b}"));
    assert_eq!(joined, format!("{}{}", escape(a), escape(b)));
}

#[test]
fn escaped_text_has_no_markup() {
    let out = escape("<'\">&".to_string());
    assert!(!out.contains(['<', '>', '\'', '"']));
}

#[test]
fn escaped_wrapper_escapes_both_ways() {
    let e = Escaped::from("a<b".to_string());
    assert_eq!(e.0, "a&lt;b");
    assert_eq!(e.len(), 6);
    let back: String = e.clone().into();
    assert_eq!(back, "a&amp;lt;b");
    assert_eq!(Escaped::default().0, "");
}

#[test]
fn unsigned_text_is_parsed_like_str_parse() {
    assert_eq!(parse_unsigned_text("42", u32::MAX as u64), Some(42));
    assert_eq!(parse_unsigned_text("+42", u32::MAX as u64), Some(42));
    assert_eq!(parse_unsigned_text("0007", u32::MAX as u64), Some(7));
    assert_eq!(parse_unsigned_text("4294967295", u32::MAX as u64), Some(4294967295));
    assert_eq!(parse_unsigned_text("4294967296", u32::MAX as u64), None);
    assert_eq!(parse_unsigned_text("", u32::MAX as u64), None);
    assert_eq!(parse_unsigned_text("+", u32::MAX as u64), None);
    assert_eq!(parse_unsigned_text("-1", u32::MAX as u64), None);
    assert_eq!(parse_unsigned_text("1 ", u32::MAX as u64), None);
    assert_eq!(parse_unsigned_text("18446744073709551615", u64::MAX), Some(u64::MAX));
    assert_eq!(parse_unsigned_text("18446744073709551616", u64::MAX), None);
    for s in ["0", "12", "+9", "65536", "4294967295", "4294967296", "x", "1_0"] {
        assert_eq!(parse_unsigned_text(s, u32::MAX as u64), s.parse::<u32>().ok().map(u64::from));
    }
}

#[test]
fn split_is_str_split() {
    for (s, sep) in [("v0:Map:12", ':'), ("", ':'), (":a::", ':'), ("no separator", ';')] {
        let expected: Vec<&str> = s.split(sep).collect();
        assert_eq!(split_char(s, sep), expected);
    }
}

#[test]
fn numbers_are_written_in_decimal() {
    assert_eq!(i32_to_text(0), "0");
    assert_eq!(i32_to_text(-15), "-15");
    assert_eq!(i32_to_text(i32::MIN), i32::MIN.to_string());
    assert_eq!(i32_to_text(i32::MAX), i32::MAX.to_string());
    let mut s = String::from("n=");
    push_decimal(&mut s, u64::MAX);
    assert_eq!(s, format!("n={}", u64::MAX));
}

#[test]
fn text_building_helpers() {
    assert_eq!(to_text("abcde"), "abcde");
    assert_eq!(to_text(""), "");
    assert_eq!(fence_text("```", "code"), "```code```");
    assert!(text_eq("same", "same"));
    assert!(!text_eq("same", "Same"));
    assert!(!text_eq("same", "sam"));
}

#[test]
fn signed_text_is_parsed_like_str_parse() {
    for s in [
        "0", "-0", "+0", "42", "-42", "+42", "2147483647", "2147483648", "-2147483648",
        "-2147483649", "", "-", "+", "-+1", "+-1", "--1", "1-", " 1", "12a", "007", "-007",
    ] {
        assert_eq!(parse_i32_text(s), s.parse::<i32>().ok(), "{s:?}");
    }
}
