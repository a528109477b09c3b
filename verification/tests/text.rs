use qemu_launcher::text::{
    contains_character, decimal_text, is_white, join_texts, parse_usize, same_text,
    signed_decimal_text, split_lines, split_text, trim_text, usize_text,
};

const TEXTS: [&str; 18] = [
    "",
    ",",
    ",,",
    "a",
    "a,b",
    ",a,",
    "a,,b",
    " a b ",
    "\t a\u{85}\u{a0}",
    "\n",
    "a\n",
    "a\r\n",
    "a\r",
    "a\n\nb\n",
    "a\r\n\r\nb",
    "\u{3000}größe\u{2003}",
    "\u{feff}x",
    "1,2-3,ö",
];

#[test]
fn white_space_is_that_of_unicode() {
    for code in 0..=0x10ffff {
        if let Some(ch) = char::from_u32(code) {
            assert_eq!(ch.is_whitespace(), is_white(ch), "{:x}", code);
        }
    }
}

#[test]
fn texts_are_split_like_by_the_standard_library() {
    for text in TEXTS {
        let expected: Vec<&str> = text.split(',').collect();
        assert_eq!(expected, split_text(text, ','));
        let expected: Vec<&str> = text.lines().collect();
        assert_eq!(expected, split_lines(text));
        assert_eq!(text.trim(), trim_text(text));
        assert_eq!(text.contains('a'), contains_character(text, 'a'));
    }
}

#[test]
fn joining_undoes_splitting() {
    for text in TEXTS {
        assert_eq!(text, join_texts(&split_text(text, ','), ","));
    }
    let parts: Vec<String> = vec!["".to_string(), "x".to_string(), "".to_string()];
    assert_eq!(parts, split_text(&join_texts(&parts, ";"), ';'));
    assert_eq!("", join_texts(&vec![], ", "));
    assert_eq!("a, b", join_texts(&vec!["a".to_string(), "b".to_string()], ", "));
}

#[test]
fn numbers_are_written_like_by_the_standard_library() {
    for number in [0, 1, 9, 10, 99, 100, 18446744073709551615u64] {
        assert_eq!(number.to_string(), decimal_text(number));
    }
    for number in [0, -1, 7, -10, i64::MIN, i64::MAX] {
        assert_eq!(number.to_string(), signed_decimal_text(number));
    }
    assert_eq!("4096", usize_text(4096));
}

#[test]
fn numbers_are_read_like_by_the_standard_library() {
    for text in [
        "",
        "+",
        "-",
        "0",
        "-0",
        "+0",
        "++1",
        "007",
        "12",
        " 1",
        "1 ",
        "1a",
        "\u{0661}",
        "18446744073709551615",
        "18446744073709551616",
        "99999999999999999999999999999999",
    ] {
        assert_eq!(text.parse::<usize>().ok(), parse_usize(text), "{:?}", text);
    }
}

#[test]
fn written_numbers_are_read_back() {
    for number in [0, 5, 10, 1234567890, usize::MAX] {
        assert_eq!(Some(number), parse_usize(&usize_text(number)));
    }
}

#[test]
fn texts_are_the_same_if_all_characters_are() {
    assert!(same_text("rr", "rr"));
    assert!(!same_text("rr", "r"));
    assert!(!same_text("rr", "RR"));
}
