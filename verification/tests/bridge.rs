use js_string::{js_string_equals_str, js_string_from_str, JSString};

fn round_trip(s: &str) -> String {
    JSString::from(s).to_string()
}

#[test]
fn round_trip_keeps_text() {
    for s in ["", "a", "abc", "héllo", "日本語", "😄", "∀𝑥∈ℝ,𝑥²≥0", "a😄b𝑥c"] {
        assert_eq!(round_trip(s), s);
    }
}

#[test]
fn round_trip_keeps_every_width_of_utf8() {
    // One, two, three and four bytes, each at both ends of its range.
    for s in [
        "\u{1}",
        "\u{7f}",
        "\u{80}",
        "\u{7ff}",
        "\u{800}",
        "\u{d7ff}",
        "\u{e000}",
        "\u{ffff}",
        "\u{10000}",
        "\u{10ffff}",
    ] {
        assert_eq!(round_trip(s), s);
        assert_eq!(JSString::from(s), s);
    }
}

#[test]
fn length_counts_utf16_code_units() {
    assert_eq!(JSString::from("").len(), 0);
    assert_eq!(JSString::from("abc").len(), 3);
    assert_eq!(JSString::from("é").len(), 1);
    assert_eq!(JSString::from("日本語").len(), 3);
    assert_eq!(JSString::from("\u{ffff}").len(), 1);
    assert_eq!(JSString::from("\u{10000}").len(), 2);
    assert_eq!(JSString::from("\u{10ffff}").len(), 2);
    assert_eq!(JSString::from("a😄b").len(), 4);
}

#[test]
fn length_agrees_with_std_utf16() {
    for s in ["", "abc", "héllo", "😄😄", "∀𝑥∈ℝ,𝑥²≥0"] {
        assert_eq!(JSString::from(s).len(), s.encode_utf16().count());
    }
}

#[test]
fn multi_codepoint_text() {
    let s = JSString::from("∀𝑥∈ℝ,𝑥²≥0");
    assert_eq!(s.len(), 11);
    assert_eq!(s.to_string().len(), 24);
    assert_eq!(s.to_string(), "∀𝑥∈ℝ,𝑥²≥0");
}

#[test]
fn emptiness() {
    assert!(JSString::from("").is_empty());
    assert!(!JSString::from("abc").is_empty());
    assert!(!JSString::from("😄").is_empty());
    assert!(JSString::from(String::new()).is_empty());
}

#[test]
fn handle_equals_its_source_on_either_side() {
    for s in ["", "abc", "héllo", "😄", "∀𝑥∈ℝ,𝑥²≥0"] {
        let handle = JSString::from(s);
        let owned = s.to_owned();
        assert!(handle == s);
        assert!(s == handle);
        assert!(handle == owned);
        assert!(owned == handle);
        assert!(js_string_equals_str(&handle, s));
    }
}

#[test]
fn different_texts_are_unequal_on_either_side() {
    let handle = JSString::from("abc");
    let other = JSString::from("abd");
    assert!(handle != other);
    assert!(other != handle);
    assert!(handle != "abd");
    assert!("abd" != handle);
    assert!(handle != "abd".to_owned());
    assert!("abd".to_owned() != handle);
    assert!(!js_string_equals_str(&handle, "abd"));
    assert!(!js_string_equals_str(&handle, ""));
    assert!(!js_string_equals_str(&JSString::from(""), "abc"));
}

#[test]
fn prefix_is_not_equal() {
    let short = JSString::from("abc");
    let long = JSString::from("abcdef");
    assert!(short != long);
    assert!(long != short);
    assert!(short != "abcdef");
    assert!(long != "abc");
    assert!("abc" != long);
    assert!("abcdef" != short);
}

#[test]
fn surrogate_pairs_are_compared_whole() {
    // U+1D465 and U+1D466 share their high surrogate.
    let x = JSString::from("\u{1d465}");
    assert!(x != "\u{1d466}");
    assert!(x == "\u{1d465}");
    // A pair against a single unit, and against nothing.
    assert!(x != "\u{d465}");
    assert!(JSString::from("a") != "a\u{1d465}");
    assert!(JSString::from("a\u{1d465}") != "a");
}

#[test]
fn equality_of_handles_is_an_equivalence() {
    let a = JSString::from("héllo");
    let b = js_string_from_str("héllo");
    let c = JSString::from("héllo".to_owned());
    assert!(a == a);
    assert!(a == b && b == a);
    assert!(b == c && a == c);
}

fn ascii(len: usize) -> String {
    "abcdefghij".chars().cycle().take(len).collect()
}

#[test]
fn threshold_boundary() {
    for len in [126, 127, 128, 129, 130] {
        let s = ascii(len);
        assert_eq!(s.len(), len);
        let handle = JSString::from(s.as_str());
        assert_eq!(handle.len(), len);
        assert_eq!(handle.to_string(), s);
        assert!(handle == s);
        assert!(s == handle);
        assert!(handle == JSString::from(s.clone()));
    }
}

#[test]
fn threshold_boundary_tells_neighbours_apart() {
    let shorter = ascii(127);
    let longer = ascii(128);
    assert!(JSString::from(shorter.as_str()) != longer);
    assert!(JSString::from(longer.as_str()) != shorter);
    assert!(JSString::from(shorter.as_str()) != JSString::from(longer.as_str()));
}

#[test]
fn threshold_boundary_with_wide_characters() {
    // 126 bytes of ASCII and one character of 2, 3 or 4 bytes: the byte
    // length crosses 128 while the character count stays at 127.
    for last in ["é", "語", "😄"] {
        let s = format!("{}{}", ascii(126), last);
        let handle = JSString::from(s.as_str());
        assert_eq!(handle.to_string(), s);
        assert!(handle == s);
        assert_eq!(handle.len(), s.encode_utf16().count());
    }
}

#[test]
fn decoding_crosses_from_stack_to_heap() {
    // Three bytes are reserved for each code unit and one for the
    // terminator, so 42 code units still decode on the stack and 43 do not.
    for len in [41, 42, 43, 44] {
        let s = ascii(len);
        assert_eq!(JSString::from(s.as_str()).to_string(), s);
        let wide: String = "語".repeat(len);
        assert_eq!(JSString::from(wide.as_str()).to_string(), wide);
    }
}

#[test]
fn long_text() {
    let s = "∀𝑥∈ℝ,𝑥²≥0 ".repeat(500);
    let handle = JSString::from(s.as_str());
    assert_eq!(handle.len(), 12 * 500);
    assert_eq!(handle.to_string(), s);
    assert!(handle == s);
}

#[test]
fn text_ends_at_first_nul() {
    let handle = JSString::from("ab\0cd");
    assert_eq!(handle.len(), 2);
    assert_eq!(handle.to_string(), "ab");
    assert!(handle == "ab");
    // The other side of the comparison is cut in the same way.
    assert!(handle == "ab\0cd");
    assert!(handle == "ab\0xy");
    assert!(handle == JSString::from("ab\0xy"));
    assert!(handle != "a");
    assert!(JSString::from("\0abc").is_empty());
}

#[test]
fn long_text_ends_at_first_nul() {
    let s = format!("{}\0{}", ascii(200), ascii(50));
    let handle = JSString::from(s.as_str());
    assert_eq!(handle.len(), 200);
    assert_eq!(handle.to_string(), ascii(200));
    assert!(handle == s);
}

#[test]
fn debug_rendering_quotes_the_text() {
    assert_eq!(JSString::from("abc").to_debug_string(), "JSString { \"abc\" }");
    assert_eq!(JSString::from("").to_debug_string(), "JSString { \"\" }");
    assert_eq!(JSString::from("😄").to_debug_string(), "JSString { \"😄\" }");
}

#[test]
fn display_rendering_is_the_text() {
    assert_eq!(JSString::from("abc").to_string(), "abc");
    assert_eq!(String::from(&JSString::from("héllo")), "héllo");
}

#[test]
fn utf8_bound_is_three_bytes_a_unit_and_a_terminator() {
    assert_eq!(JSString::from("").max_utf8_c_string_size(), 1);
    assert_eq!(JSString::from("abc").max_utf8_c_string_size(), 10);
    assert_eq!(JSString::from("😄").max_utf8_c_string_size(), 7);
    assert_eq!(JSString::from(ascii(42).as_str()).max_utf8_c_string_size(), 127);
    assert_eq!(JSString::from(ascii(43).as_str()).max_utf8_c_string_size(), 130);
}

#[test]
fn utf8_bound_is_never_too_small() {
    for s in ["", "abc", "héllo", "日本語", "😄", "∀𝑥∈ℝ,𝑥²≥0"] {
        assert!(JSString::from(s).max_utf8_c_string_size() > s.len());
    }
}

#[test]
fn handle_is_duplicated_through_its_text() {
    for s in ["", "abc", "😄", "∀𝑥∈ℝ,𝑥²≥0", "ab\0cd"] {
        let handle = JSString::from(s);
        let copy = JSString::from(handle.to_string());
        assert!(copy == handle);
        assert_eq!(copy.len(), handle.len());
    }
}

#[test]
fn debug_rendering_of_plain_text() {
    assert_eq!(js_string::debug_rendering("a \"b\""), "JSString { \"a \"b\"\" }");
}

#[test]
fn code_units_are_utf16() {
    assert_eq!(JSString::from("").as_code_units(), &[] as &[u16]);
    assert_eq!(JSString::from("abc").as_code_units(), &[0x61, 0x62, 0x63]);
    assert_eq!(JSString::from("é").as_code_units(), &[0xe9]);
    assert_eq!(JSString::from("語").as_code_units(), &[0x8a9e]);
    assert_eq!(JSString::from("\u{ffff}").as_code_units(), &[0xffff]);
    assert_eq!(JSString::from("\u{10000}").as_code_units(), &[0xd800, 0xdc00]);
    assert_eq!(JSString::from("😄").as_code_units(), &[0xd83d, 0xde04]);
    assert_eq!(JSString::from("\u{10ffff}").as_code_units(), &[0xdbff, 0xdfff]);
}

#[test]
fn code_units_agree_with_std() {
    for s in ["héllo wörld", "日本語のテキスト", "a😄b𝑥c", "∀𝑥∈ℝ,𝑥²≥0"] {
        let expected: Vec<u16> = s.encode_utf16().collect();
        assert_eq!(JSString::from(s).as_code_units(), expected.as_slice());
        assert_eq!(JSString::from(s).to_string(), String::from_utf16(&expected).unwrap());
    }
}
