use whyno::text::{char_is_white_space, push_decimal, text_is_blank, to_lowercase, trim};
use whyno::wine::{normalize_optional_date, normalize_optional_text, normalize_optional_text_vec};

#[test]
fn trim_removes_unicode_white_space() {
    assert_eq!(trim("  Test Wine  "), "Test Wine");
    assert_eq!(trim("\t\n x y \r"), "x y");
    assert_eq!(trim("\u{3000}\u{a0}wine\u{2003}"), "wine");
    assert_eq!(trim("   "), "");
    assert_eq!(trim(""), "");
    for s in ["  a ", "\u{85}b\u{85}", "c", " \u{200b} "] {
        assert_eq!(trim(s), s.trim());
        assert_eq!(trim(&trim(s)), trim(s));
    }
}

#[test]
fn white_space_matches_std() {
    for u in 0u32..0x3100 {
        if let Some(c) = char::from_u32(u) {
            assert_eq!(char_is_white_space(c), c.is_whitespace(), "{:x}", u);
        }
    }
}

#[test]
fn blank_texts() {
    assert!(text_is_blank(""));
    assert!(text_is_blank(" \n\t"));
    assert!(!text_is_blank(" [] "));
}

#[test]
fn lowercase_maps_cases() {
    assert_eq!(to_lowercase("FrAnCe"), "france");
    assert_eq!(to_lowercase("ÉTÉ"), "été");
}

#[test]
fn decimal_numerals() {
    let mut s = String::from("n=");
    push_decimal(&mut s, 0);
    assert_eq!(s, "n=0");
    let mut s = String::new();
    push_decimal(&mut s, 18446744073709551615);
    assert_eq!(s, "18446744073709551615");
    let mut s = String::new();
    push_decimal(&mut s, 2100);
    assert_eq!(s, "2100");
}

#[test]
fn normalize_text_is_idempotent() {
    let once = normalize_optional_text(Some("  Napa  ".to_string()));
    assert_eq!(once, Some("Napa".to_string()));
    assert_eq!(normalize_optional_text(once.clone()), once);
    assert_eq!(normalize_optional_text(Some(" \t ".to_string())), None);
    assert_eq!(normalize_optional_text(None), None);
}

#[test]
fn normalize_text_vec_drops_blanks() {
    let v = normalize_optional_text_vec(Some(vec![" a ".to_string(), " ".to_string(), "b".to_string()]));
    assert_eq!(v, Some(vec!["a".to_string(), "b".to_string()]));
    assert_eq!(normalize_optional_text_vec(v.clone()), v);
    assert_eq!(normalize_optional_text_vec(Some(vec!["  ".to_string()])), None);
    assert_eq!(normalize_optional_text_vec(Some(vec![])), None);
    assert_eq!(normalize_optional_text_vec(None), None);
}

#[test]
fn normalize_date() {
    assert_eq!(
        normalize_optional_date(Some(" 2024-06-01 ".to_string()), "Purchase date").unwrap(),
        Some("2024-06-01".to_string())
    );
    assert_eq!(normalize_optional_date(None, "Purchase date").unwrap(), None);
    let err = normalize_optional_date(Some(" ".to_string()), "Drink-by date").unwrap_err();
    assert_eq!(err.message(), "Drink-by date cannot be empty");
}
