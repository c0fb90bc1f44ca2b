use pmap_analyzer::number::digit_of;
use pmap_analyzer::number::parse_number;
use pmap_analyzer::number::push_hex;
use pmap_analyzer::text::chars_of;
use pmap_analyzer::text::contains;
use pmap_analyzer::text::find_char;
use pmap_analyzer::text::is_whitespace;
use pmap_analyzer::text::next_word;
use pmap_analyzer::text::range_is;
use pmap_analyzer::text::strip_text;
use pmap_analyzer::text::text_of;
use pmap_analyzer::text::trim_range;

#[test]
fn white_space_is_what_the_standard_library_calls_so() {
    let mut count = 0;
    for code in 0..=0x10ffffu32 {
        if let Some(c) = char::from_u32(code) {
            assert_eq!(is_whitespace(c), c.is_whitespace(), "{:x}", code);
            if is_whitespace(c) {
                count += 1;
            }
        }
    }
    assert_eq!(count, 25);
}

#[test]
fn characters_of_a_text_and_back() {
    let text = "a b\u{e9}\u{1f600}\tc";
    let chars = chars_of(text);
    assert_eq!(chars, text.chars().collect::<Vec<char>>());
    assert_eq!(text_of(&chars, 0, chars.len()), text);
    assert_eq!(text_of(&chars, 2, 5), "b\u{e9}\u{1f600}");
    assert_eq!(text_of(&chars, 3, 3), "");
    assert_eq!(chars_of(""), Vec::<char>::new());
}

#[test]
fn trimming_agrees_with_the_standard_library() {
    for text in ["", " ", "a", " a", "a ", "  a b  ", "\t\n a\u{a0}b \u{2003}\r\n", "\u{3000}", "a\u{0}"] {
        let chars = chars_of(text);
        let (from, to) = trim_range(&chars, 0, chars.len());
        assert_eq!(text_of(&chars, from, to), text.trim(), "{:?}", text);
    }
    let chars = chars_of("ab  cd  ef");
    assert_eq!(trim_range(&chars, 2, 8), (4, 6));
    assert_eq!(trim_range(&chars, 2, 4), (4, 4));
}

#[test]
fn words_agree_with_the_standard_library() {
    for text in ["", "   ", "one", " one  two\tthree\n", "a\u{a0}b", "x  ", "  y", "rd ex sh mr mw me ms sd memfd:doublemapper (deleted)"] {
        let chars = chars_of(text);
        let mut words = Vec::new();
        let mut pos = 0;
        while let Some((from, to)) = next_word(&chars, pos) {
            words.push(text_of(&chars, from, to));
            pos = to;
        }
        let expected: Vec<String> = text.split_whitespace().map(|word| word.to_string()).collect();
        assert_eq!(words, expected, "{:?}", text);
    }
    let chars = chars_of("  ab cd");
    assert_eq!(next_word(&chars, 0), Some((2, 4)));
    assert_eq!(next_word(&chars, 3), Some((3, 4)));
    assert_eq!(next_word(&chars, 4), Some((5, 7)));
    assert_eq!(next_word(&chars, 7), None);
}

#[test]
fn texts_found_at_the_start_and_within() {
    let chars = chars_of("[anon_shmem:bar]");
    assert_eq!(strip_text(&chars, 1, 15, "anon_shmem:"), Some(12));
    assert_eq!(strip_text(&chars, 1, 15, "anon:"), None);
    assert_eq!(strip_text(&chars, 1, 15, ""), Some(1));
    assert_eq!(strip_text(&chars, 1, 5, "anon_"), None);
    assert_eq!(strip_text(&chars, 1, 6, "anon_"), Some(6));
    assert!(range_is(&chars, 12, 15, "bar"));
    assert!(!range_is(&chars, 12, 15, "ba"));
    assert!(!range_is(&chars, 12, 15, "bar]"));
    assert!(!range_is(&chars, 12, 15, "baz"));
    assert!(range_is(&chars, 3, 3, ""));
    assert!(contains(&chars, "shmem"));
    assert!(contains(&chars, "[anon_shmem:bar]"));
    assert!(contains(&chars, ""));
    assert!(contains(&chars, "]"));
    assert!(!contains(&chars, "shmen"));
    assert!(!contains(&chars, "[anon_shmem:bar] "));
    assert!(!contains(&chars_of(""), "a"));
    assert!(contains(&chars_of(""), ""));
    assert!(contains(&chars_of("aab"), "ab"));
}

#[test]
fn characters_found_in_a_range() {
    let chars = chars_of("08:01:ff");
    assert_eq!(find_char(&chars, 0, 8, 0, ':'), 2);
    assert_eq!(find_char(&chars, 0, 8, 2, ':'), 2);
    assert_eq!(find_char(&chars, 0, 8, 3, ':'), 5);
    assert_eq!(find_char(&chars, 0, 8, 6, ':'), 8);
    assert_eq!(find_char(&chars, 0, 5, 3, ':'), 5);
    assert_eq!(find_char(&chars, 3, 5, 3, ':'), 5);
    assert_eq!(find_char(&chars, 0, 8, 8, ':'), 8);
}

#[test]
fn digits_of_a_base() {
    assert_eq!(digit_of('0', 10), Some(0));
    assert_eq!(digit_of('9', 10), Some(9));
    assert_eq!(digit_of('a', 10), None);
    assert_eq!(digit_of('a', 16), Some(10));
    assert_eq!(digit_of('F', 16), Some(15));
    assert_eq!(digit_of('g', 16), None);
    assert_eq!(digit_of('z', 36), Some(35));
    assert_eq!(digit_of('Z', 36), Some(35));
    assert_eq!(digit_of('7', 7), None);
    assert_eq!(digit_of('1', 2), Some(1));
    assert_eq!(digit_of('2', 2), None);
    for radix in 2..=36u32 {
        for code in 0..0x250u32 {
            let c = char::from_u32(code).unwrap();
            assert_eq!(digit_of(c, radix), c.to_digit(radix), "{:?} {}", c, radix);
        }
    }
}

#[test]
fn numbers_agree_with_the_standard_library() {
    let texts = [
        "", "0", "1", "+1", "-1", "+", "-", "++1", "+-1", "1+", "255", "256", "0255", "00000000000000000000000000000255",
        "ff", "FF", "fF", "100", "ffff", "10000", "ffffffffffffffff", "10000000000000000",
        "18446744073709551615", "18446744073709551616", "99999999999999999999999999", "1_000", " 1", "1 ", "0x1f",
        "1.5", "\u{661}", "12a", "a12", "zz",
    ];
    for text in texts {
        let chars = chars_of(text);
        for radix in [2u32, 8, 10, 16, 36] {
            assert_eq!(
                parse_number(&chars, 0, chars.len(), radix, u64::MAX),
                u64::from_str_radix(text, radix).ok(),
                "{:?} in base {}",
                text,
                radix
            );
            assert_eq!(
                parse_number(&chars, 0, chars.len(), radix, u16::MAX as u64),
                u16::from_str_radix(text, radix).ok().map(|value| value as u64),
                "{:?} in base {}",
                text,
                radix
            );
            assert_eq!(
                parse_number(&chars, 0, chars.len(), radix, u8::MAX as u64),
                u8::from_str_radix(text, radix).ok().map(|value| value as u64),
                "{:?} in base {}",
                text,
                radix
            );
        }
    }
    let chars = chars_of("x12y");
    assert_eq!(parse_number(&chars, 1, 3, 10, 12), Some(12));
    assert_eq!(parse_number(&chars, 1, 3, 10, 11), None);
    assert_eq!(parse_number(&chars, 1, 1, 10, 11), None);
    assert_eq!(parse_number(&chars, 0, 3, 10, 100), None);
}

#[test]
fn numbers_written_in_base_sixteen() {
    for value in [0u64, 1, 9, 10, 15, 16, 17, 255, 256, 4095, 0xdead_beef, 0x7faf68872000, u64::MAX - 1, u64::MAX] {
        let mut text = String::from("0x");
        push_hex(&mut text, value);
        assert_eq!(text, format!("0x{:x}", value));
    }
}
