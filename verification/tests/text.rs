use codexify::text::{blank, push_decimal, push_signed_decimal, to_ascii_lowercase, white_space};

#[test]
fn decimal_numerals() {
    let mut s = String::new();
    push_decimal(&mut s, 0);
    s.push(' ');
    push_decimal(&mut s, 1234567890);
    s.push(' ');
    push_decimal(&mut s, u128::MAX);
    assert_eq!(s, format!("0 1234567890 {}", u128::MAX));
    let mut t = String::new();
    push_signed_decimal(&mut t, -42);
    t.push(' ');
    push_signed_decimal(&mut t, i32::MIN);
    t.push(' ');
    push_signed_decimal(&mut t, 7);
    assert_eq!(t, format!("-42 {} 7", i32::MIN));
}

#[test]
fn white_space_matches_char_is_whitespace() {
    for u in 0u32..0x3100 {
        if let Some(c) = char::from_u32(u) {
            assert_eq!(white_space(c), c.is_whitespace(), "{u:x}");
        }
    }
    assert!(blank(""));
    assert!(blank(" \t\n\u{3000}"));
    assert!(!blank("  x "));
}

#[test]
fn ascii_lowercase_keeps_other_letters() {
    let v: Vec<char> = "AbZ-É".chars().collect();
    let lower: String = to_ascii_lowercase(&v).into_iter().collect();
    assert_eq!(lower, "abz-É");
}
