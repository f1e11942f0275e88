use fm26_mod_manager::decimal::{i32_string, read_i32, read_i32_or};
use fm26_mod_manager::text::{
    chars_of, equals_str, find_char, is_whitespace_char, join_to_string, precedes, sort_texts,
    split_lines, starts_with_str, string_of, trim_chars, write_lines,
};

fn text_of(chars: &Vec<char>) -> String {
    string_of(chars, 0, chars.len())
}

fn lines_as_strings(text: &str) -> Vec<String> {
    split_lines(&chars_of(text)).iter().map(text_of).collect()
}

#[test]
fn characters_go_in_and_out() {
    let chars = chars_of("a\u{e9}\u{1F600}z");
    assert_eq!(chars, vec!['a', '\u{e9}', '\u{1F600}', 'z']);
    assert_eq!(text_of(&chars), "a\u{e9}\u{1F600}z");
    assert_eq!(string_of(&chars, 1, 3), "\u{e9}\u{1F600}");
    assert_eq!(chars_of(""), Vec::<char>::new());
}

#[test]
fn white_space_is_what_the_standard_library_calls_so() {
    let mut code: u32 = 0;
    while code <= 0x3100 {
        if let Some(c) = char::from_u32(code) {
            assert_eq!(is_whitespace_char(c), c.is_whitespace(), "U+{:04X}", code);
        }
        code += 1;
    }
    assert!(!is_whitespace_char('\u{FEFF}'));
    assert!(!is_whitespace_char('\u{180E}'));
    assert!(!is_whitespace_char('\u{10FFFF}'));
}

#[test]
fn trimming_agrees_with_the_standard_library() {
    let samples = [
        "",
        " ",
        "a",
        "  a  ",
        "\t a b \r\n",
        "\u{a0}x\u{3000}",
        "x\u{2003}",
        "  \u{200b}  ",
        "\n\n",
        " = ",
    ];
    for sample in samples {
        assert_eq!(text_of(&trim_chars(&chars_of(sample))), sample.trim(), "{:?}", sample);
    }
}

#[test]
fn lines_agree_with_the_standard_library() {
    let samples = [
        "",
        "\n",
        "a",
        "a\n",
        "a\nb",
        "a\n\nb\n",
        "a\r\nb\r\n",
        "foo\nbar\n\r\nbaz\r",
        "a\r",
        "a\r\r\n",
        "\r\n\r\n",
        "a\rb\nc",
        "\n\n\n",
        "last line without end",
    ];
    for sample in samples {
        let expected: Vec<String> = sample.lines().map(|l| l.to_string()).collect();
        assert_eq!(lines_as_strings(sample), expected, "{:?}", sample);
    }
}

#[test]
fn a_carriage_return_at_the_very_end_stays() {
    assert_eq!(lines_as_strings("foo\nbar\n\r\nbaz\r"), vec!["foo", "bar", "", "baz\r"]);
}

#[test]
fn joining_puts_line_feeds_between_lines_only() {
    let lines = vec![chars_of("a"), chars_of(""), chars_of("b")];
    assert_eq!(join_to_string(&lines), "a\n\nb");
    assert_eq!(join_to_string(&vec![chars_of("only")]), "only");
    assert_eq!(join_to_string(&Vec::new()), "");
    assert_eq!(join_to_string(&vec![chars_of("a"), chars_of("")]), "a\n");
}

#[test]
fn writing_lines_ends_each_with_a_line_feed() {
    assert_eq!(write_lines(&vec!["a".to_string(), "".to_string(), "b".to_string()]), "a\n\nb\n");
    assert_eq!(write_lines(&Vec::new()), "");
}

#[test]
fn finding_and_comparing() {
    let v = chars_of("key = value");
    assert_eq!(find_char(&v, '='), 4);
    assert_eq!(find_char(&v, '#'), v.len());
    assert!(starts_with_str(&v, "key"));
    assert!(starts_with_str(&v, ""));
    assert!(!starts_with_str(&v, "key = value and more"));
    assert!(!starts_with_str(&v, "Key"));
    assert!(equals_str(&v, "key = value"));
    assert!(!equals_str(&v, "key = valu"));
    assert!(!equals_str(&v, "key = value "));
}

#[test]
fn whole_numbers_are_read_as_the_standard_library_reads_them() {
    let samples = [
        "0",
        "7",
        "-7",
        "+7",
        "007",
        "-0",
        "2147483647",
        "2147483648",
        "-2147483648",
        "-2147483649",
        "99999999999999999999999",
        "00000000000000000000000001",
        "",
        "+",
        "-",
        "+-1",
        "1.5",
        "1e3",
        " 1",
        "1 ",
        "12a",
        "\u{661}",
        "--1",
        "0x10",
    ];
    for sample in samples {
        let expected: Option<i32> = sample.parse::<i32>().ok();
        assert_eq!(read_i32(&chars_of(sample)), expected, "{:?}", sample);
    }
    assert_eq!(read_i32_or(&chars_of("abc"), 100), 100);
    assert_eq!(read_i32_or(&chars_of("42"), 100), 42);
}

#[test]
fn whole_numbers_are_written_in_decimal() {
    for n in [0, 1, 9, 10, 68, 105, -1, -10, 2147483647, -2147483648] {
        assert_eq!(i32_string(n), n.to_string());
        assert_eq!(read_i32(&chars_of(&i32_string(n))), Some(n));
    }
}

#[test]
fn texts_are_ordered_as_strings_are() {
    let samples = ["", "a", "A", "ab", "b", "a.cfg", "a_cfg", "\u{e9}", "z", "aa", "a\u{10000}"];
    for a in samples {
        for b in samples {
            assert_eq!(precedes(&chars_of(a), &chars_of(b)), a <= b, "{:?} {:?}", a, b);
        }
    }
}

#[test]
fn sorting_is_ascending_and_keeps_every_text() {
    let items: Vec<Vec<char>> =
        ["pear", "apple", "fig", "apple", "", "Zebra", "figs"].iter().map(|s| chars_of(s)).collect();
    let sorted: Vec<String> = sort_texts(&items).iter().map(text_of).collect();
    assert_eq!(sorted, vec!["", "Zebra", "apple", "apple", "fig", "figs", "pear"]);
}
