use nostr_bot::text::{
    begins_with, characters, hex_decode, hex_encode, push_decimal, push_quoted, space,
    starts_with, trim_from,
};

fn chars(s: &str) -> Vec<char> {
    s.chars().collect()
}

#[test]
fn prefix_is_recognised() {
    assert!(starts_with("yes extra text", "yes"));
    assert!(starts_with("yes", "yes"));
    assert!(starts_with("anything", ""));
    assert!(!starts_with("ye", "yes"));
    assert!(!starts_with("no", "yes"));
    assert!(!starts_with(" yes", "yes"));
}

#[test]
fn prefix_counts_characters_not_bytes() {
    assert!(starts_with("héllo wörld", "héllo"));
    assert!(!starts_with("hello", "héllo"));
}

#[test]
fn trim_from_drops_surrounding_space() {
    assert_eq!(trim_from(&chars("yes  extra text \n"), 3), "extra text");
    assert_eq!(trim_from(&chars("yes"), 3), "");
    assert_eq!(trim_from(&chars("yes   "), 3), "");
    assert_eq!(trim_from(&chars("é\u{a0}a b\u{3000}"), 1), "a b");
    assert_eq!(trim_from(&chars("abc"), 0), "abc");
    assert_eq!(trim_from(&chars("abc"), 4), "");
    assert_eq!(trim_from(&chars("abc"), 3), "");
}

#[test]
fn trim_agrees_with_std() {
    let samples = ["", " ", "a", " a", "a ", "\t a b \r\n", "\u{2003}x\u{2028}", "x\u{200b}"];
    for s in samples {
        assert_eq!(trim_from(&chars(s), 0), s.trim());
    }
}

#[test]
fn space_agrees_with_std() {
    let mut u: u32 = 0;
    while u < 0x3100 {
        if let Some(c) = char::from_u32(u) {
            assert_eq!(space(c), c.is_whitespace(), "{}", u);
        }
        u += 1;
    }
}

#[test]
fn hex_encodes_two_digits_per_byte() {
    assert_eq!(hex_encode(&[]), "");
    assert_eq!(hex_encode(&[0x00, 0x0f, 0xa0, 0xff]), "000fa0ff");
}

#[test]
fn hex_decodes_lower_case_pairs() {
    assert_eq!(hex_decode("000fa0ff"), Some(vec![0x00, 0x0f, 0xa0, 0xff]));
    assert_eq!(hex_decode(""), Some(vec![]));
}

#[test]
fn hex_refuses_what_is_not_hex() {
    assert_eq!(hex_decode("abc"), None);
    assert_eq!(hex_decode("zz"), None);
    assert_eq!(hex_decode("AB"), None);
    assert_eq!(hex_decode("a "), None);
    assert_eq!(hex_decode("é0"), None);
}

#[test]
fn hex_round_trips() {
    let bytes: Vec<u8> = (0..=255).collect();
    assert_eq!(hex_decode(&hex_encode(&bytes)), Some(bytes));
}

#[test]
fn decimal_digits() {
    let mut s = String::from("n=");
    push_decimal(&mut s, 0);
    s.push(' ');
    push_decimal(&mut s, 9);
    s.push(' ');
    push_decimal(&mut s, 10);
    s.push(' ');
    push_decimal(&mut s, 1700000000);
    s.push(' ');
    push_decimal(&mut s, u64::MAX);
    assert_eq!(s, "n=0 9 10 1700000000 18446744073709551615");
}

#[test]
fn quoting_escapes() {
    let mut s = String::new();
    push_quoted(&mut s, "a\"b\\c\nd\re\tf\u{8}g\u{c}h\u{1}i\u{1f}j é/");
    assert_eq!(s, "\"a\\\"b\\\\c\\nd\\re\\tf\\bg\\fh\\u0001i\\u001fj é/\"");
}

#[test]
fn quoting_appends() {
    let mut s = String::from("x:");
    push_quoted(&mut s, "");
    assert_eq!(s, "x:\"\"");
}

#[test]
fn characters_are_read_in_order() {
    assert_eq!(characters(""), Vec::<char>::new());
    assert_eq!(characters("aé\u{1f600}b"), vec!['a', 'é', '\u{1f600}', 'b']);
}

#[test]
fn prefix_on_characters() {
    assert!(begins_with(&chars("yes!"), &chars("yes")));
    assert!(!begins_with(&chars("ye"), &chars("yes")));
    assert!(begins_with(&chars(""), &chars("")));
}
