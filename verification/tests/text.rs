use custom_macros::text::{
    chars_of, concatenate, find_first, join, remove_char, remove_whitespace,
    render_integer, same_text, text_between, trim_between, whitespace,
};
use custom_macros::value::Value;

fn strings(items: &[&str]) -> Vec<String> {
    items.iter().map(|s| s.to_string()).collect()
}

#[test]
fn integers_in_decimal() {
    assert_eq!(render_integer(0), "0");
    assert_eq!(render_integer(7), "7");
    assert_eq!(render_integer(10), "10");
    assert_eq!(render_integer(23), "23");
    assert_eq!(render_integer(-1), "-1");
    assert_eq!(render_integer(-120), "-120");
    assert_eq!(render_integer(1234567890), "1234567890");
    assert_eq!(render_integer(i64::MAX), "9223372036854775807");
    assert_eq!(render_integer(i64::MIN), "-9223372036854775808");
    for i in [-1000i64, -99, -10, -9, 9, 99, 100, 101, 65535, 4294967296] {
        assert_eq!(render_integer(i), i.to_string());
    }
}

#[test]
fn display_form_of_values() {
    assert_eq!(Value::text("tonie").display(), "tonie");
    assert_eq!(Value::Integer(-42).display(), "-42");
    assert_eq!(Value::Absent.display(), "");
    assert!(Value::text("").is_present());
    assert!(Value::Integer(0).is_present());
    assert!(!Value::Absent.is_present());
    assert!(Value::text("a").same(&Value::text("a")));
    assert!(!Value::text("a").same(&Value::text("b")));
    assert!(!Value::text("1").same(&Value::Integer(1)));
    assert!(Value::Absent.same(&Value::Absent));
    assert!(Value::Integer(3).same(&Value::Integer(3).duplicate()));
}

#[test]
fn joining_and_concatenating() {
    assert_eq!(join(&strings(&["a", "b", "c"]), ", "), "a, b, c");
    assert_eq!(join(&strings(&["a"]), ", "), "a");
    assert_eq!(join(&strings(&[]), ", "), "");
    assert_eq!(join(&strings(&["", ""]), "-"), "-");
    assert_eq!(concatenate(&strings(&["a", "", "bc"])), "abc");
    assert_eq!(concatenate(&strings(&[])), "");
}

#[test]
fn characters_and_pieces() {
    assert_eq!(chars_of("h\u{e9}!"), vec!['h', '\u{e9}', '!']);
    let v = chars_of("  hello world \t");
    assert_eq!(text_between(&v, 2, 7), "hello");
    assert_eq!(text_between(&v, 3, 3), "");
    assert_eq!(trim_between(&v, 0, v.len()), "hello world");
    assert_eq!(trim_between(&v, 0, 2), "");
    assert_eq!(trim_between(&v, 7, 15), "world");
    assert_eq!(find_first(&v, 'o'), 6);
    assert_eq!(find_first(&v, 'z'), v.len());
}

#[test]
fn whitespace_is_what_std_takes_for_it() {
    for code in 0u32..0x3100 {
        if let Some(c) = char::from_u32(code) {
            assert_eq!(whitespace(c), c.is_whitespace(), "{:x}", code);
        }
    }
    let v = chars_of("\u{2003}\u{a0}x\u{3000}\n");
    assert_eq!(trim_between(&v, 0, v.len()), "x");
    assert_eq!("\u{2003}\u{a0}x\u{3000}\n".trim(), "x");
}

#[test]
fn removing_characters() {
    assert_eq!(remove_char("a\"b\"\"c", '"'), "abc");
    assert_eq!(remove_char("abc", '"'), "abc");
    assert_eq!(remove_char("", '"'), "");
    assert_eq!(remove_whitespace(" Option < String > "), "Option<String>");
}

#[test]
fn comparing_texts() {
    assert!(same_text("abc", "abc"));
    assert!(same_text("", ""));
    assert!(!same_text("abc", "abd"));
    assert!(!same_text("abc", "ab"));
}
