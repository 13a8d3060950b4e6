use shimmy::text::{
    chars_of, contains_ignoring_ascii_case, decimal_string, find_first, find_last, is_whitespace,
    str_eq, to_ascii_lower, trim,
};

#[test]
fn white_space_is_what_std_calls_white_space() {
    let mut code: u32 = 0;
    while code <= 0x10FFFF {
        if let Some(c) = char::from_u32(code) {
            assert_eq!(is_whitespace(c), c.is_whitespace(), "U+{:04X}", code);
        }
        code += 1;
    }
}

#[test]
fn trim_agrees_with_std() {
    let samples: Vec<&str> = vec![
        "",
        " ",
        "\n\t ",
        "a",
        "  a",
        "a  ",
        " a b ",
        "\u{3000}x\u{2003}y\u{a0}",
        "not json at all",
        "\r\n{\"a\": 1}\r\n",
    ];
    for s in samples {
        assert_eq!(trim(s), s.trim().to_string());
    }
}

#[test]
fn decimal_numerals() {
    assert_eq!(decimal_string(0), "0");
    assert_eq!(decimal_string(7), "7");
    assert_eq!(decimal_string(10), "10");
    assert_eq!(decimal_string(640), "640");
    assert_eq!(decimal_string(4294967295), "4294967295");
    assert_eq!(decimal_string(u64::MAX), u64::MAX.to_string());
}

#[test]
fn first_and_last_occurrence() {
    let s = chars_of("a{b}c{d}e");
    assert_eq!(find_first(&s, '{'), Some(1));
    assert_eq!(find_last(&s, '}'), Some(7));
    assert_eq!(find_first(&s, 'z'), None);
    assert_eq!(find_last(&chars_of(""), '}'), None);
}

#[test]
fn search_ignores_ascii_case_of_the_haystack() {
    assert!(contains_ignoring_ascii_case("LLaVA:latest", "llava"));
    assert!(contains_ignoring_ascii_case("my-llava-phi3", "llava"));
    assert!(!contains_ignoring_ascii_case("minicpm-v:latest", "llava"));
    assert!(!contains_ignoring_ascii_case("lla", "llava"));
    assert!(contains_ignoring_ascii_case("anything", ""));
    assert!(contains_ignoring_ascii_case("", ""));
}

#[test]
fn search_agrees_with_lowering_by_std_for_the_family_pattern() {
    let names: Vec<&str> =
        vec!["LLAVA", "LlAvA-13b", "\u{212A}llava", "ll\u{0130}ava", "llav", "xllavax", "ΛLAVA"];
    for name in names {
        assert_eq!(
            contains_ignoring_ascii_case(name, "llava"),
            name.to_lowercase().contains("llava"),
            "{}",
            name
        );
    }
}

#[test]
fn lowering_touches_only_ascii_capitals() {
    assert_eq!(to_ascii_lower('A'), 'a');
    assert_eq!(to_ascii_lower('Z'), 'z');
    assert_eq!(to_ascii_lower('a'), 'a');
    assert_eq!(to_ascii_lower('['), '[');
    assert_eq!(to_ascii_lower('@'), '@');
    assert_eq!(to_ascii_lower('É'), 'É');
}

#[test]
fn strings_compare_by_their_characters() {
    assert!(str_eq("ocr", "ocr"));
    assert!(!str_eq("ocr", "ocR"));
    assert!(!str_eq("ocr", "ocr "));
    assert!(str_eq("", ""));
}
