use event_bridge::text::{chars_of, is_separator, join_words, parse_number, split_tokens};

fn words(list: &[&str]) -> Vec<String> {
    list.iter().map(|word| word.to_string()).collect()
}

#[test]
fn separator_agrees_with_unicode_white_space_for_every_char() {
    let mut code: u32 = 0;
    while code <= 0x10FFFF {
        if let Some(c) = char::from_u32(code) {
            assert_eq!(is_separator(c), c.is_whitespace(), "code point {:#x}", code);
        }
        code += 1;
    }
}

#[test]
fn separator_examples() {
    assert!(is_separator(' '));
    assert!(is_separator('\t'));
    assert!(is_separator('\n'));
    assert!(is_separator('\r'));
    assert!(is_separator('\u{a0}'));
    assert!(is_separator('\u{3000}'));
    assert!(!is_separator('a'));
    assert!(!is_separator('0'));
    assert!(!is_separator('\u{200b}'));
}

#[test]
fn chars_of_keeps_every_char_in_order() {
    assert_eq!(chars_of(""), Vec::<char>::new());
    assert_eq!(chars_of("a b"), vec!['a', ' ', 'b']);
    assert_eq!(chars_of("h\u{e9}\u{1f600}"), vec!['h', '\u{e9}', '\u{1f600}']);
}

#[test]
fn split_tokens_yields_the_separator_free_runs() {
    assert_eq!(split_tokens(""), Vec::<String>::new());
    assert_eq!(split_tokens(" \t\r\n"), Vec::<String>::new());
    assert_eq!(split_tokens("one"), words(&["one"]));
    assert_eq!(split_tokens("5 hello"), words(&["5", "hello"]));
    assert_eq!(split_tokens("  a  bb\tccc\n"), words(&["a", "bb", "ccc"]));
    assert_eq!(split_tokens("x\u{a0}y\u{2003}z"), words(&["x", "y", "z"]));
    assert_eq!(split_tokens("h\u{e9} \u{1f600}!"), words(&["h\u{e9}", "\u{1f600}!"]));
}

#[test]
fn split_tokens_agrees_with_std_on_samples() {
    let samples = [
        "", " ", "a", " a", "a ", "a b", "a  b", "\ta\nb\r\nc ", "5 hello world",
        "\u{3000}x\u{3000}", "x\u{200b}y", "\u{85}a\u{1680}b", "3 h", "i there",
    ];
    for text in samples {
        let expected: Vec<String> = text.split_whitespace().map(|w| w.to_string()).collect();
        assert_eq!(split_tokens(text), expected, "text {:?}", text);
    }
}

#[test]
fn join_words_puts_one_space_between_neighbours() {
    assert_eq!(join_words(&words(&[])), "");
    assert_eq!(join_words(&words(&["one"])), "one");
    assert_eq!(join_words(&words(&["one", "two"])), "one two");
    assert_eq!(join_words(&words(&["a", "", "b"])), "a  b");
    assert_eq!(join_words(&words(&["h\u{e9}", "\u{1f600}"])), "h\u{e9} \u{1f600}");
}

#[test]
fn parse_number_reads_plain_numerals() {
    assert_eq!(parse_number("0", 100), Some(0));
    assert_eq!(parse_number("5", 100), Some(5));
    assert_eq!(parse_number("42", 100), Some(42));
    assert_eq!(parse_number("100", 100), Some(100));
    assert_eq!(parse_number("007", 100), Some(7));
    assert_eq!(parse_number("18446744073709551615", u64::MAX), Some(u64::MAX));
}

#[test]
fn parse_number_accepts_one_leading_plus() {
    assert_eq!(parse_number("+5", 100), Some(5));
    assert_eq!(parse_number("+", 100), None);
    assert_eq!(parse_number("++5", 100), None);
}

#[test]
fn parse_number_rejects_what_is_no_numeral() {
    assert_eq!(parse_number("", 100), None);
    assert_eq!(parse_number("-5", 100), None);
    assert_eq!(parse_number("5a", 100), None);
    assert_eq!(parse_number("a5", 100), None);
    assert_eq!(parse_number(" 5", 100), None);
    assert_eq!(parse_number("5 ", 100), None);
    assert_eq!(parse_number("1.5", 100), None);
    assert_eq!(parse_number("\u{0663}", 100), None);
}

#[test]
fn parse_number_rejects_numbers_above_the_limit() {
    assert_eq!(parse_number("101", 100), None);
    assert_eq!(parse_number("1000", 100), None);
    assert_eq!(parse_number("18446744073709551616", u64::MAX), None);
    assert_eq!(parse_number("99999999999999999999999", u64::MAX), None);
    assert_eq!(parse_number("65535", 65535), Some(65535));
    assert_eq!(parse_number("65536", 65535), None);
    assert_eq!(parse_number("1", 0), None);
    assert_eq!(parse_number("0", 0), Some(0));
}

#[test]
fn parse_number_agrees_with_std_on_samples() {
    let samples = [
        "0", "1", "9", "10", "+7", "+", "", "-1", "65535", "65536", "0065535", "12a", "a", "+-3",
        "4294967295", "4294967296", " 1", "1 ",
    ];
    for text in samples {
        let expected = text.parse::<u16>().ok().map(|v| v as u64);
        assert_eq!(parse_number(text, u16::MAX as u64), expected, "text {:?}", text);
        let expected = text.parse::<u32>().ok().map(|v| v as u64);
        assert_eq!(parse_number(text, u32::MAX as u64), expected, "text {:?}", text);
        let expected = text.parse::<u64>().ok();
        assert_eq!(parse_number(text, u64::MAX), expected, "text {:?}", text);
    }
}
