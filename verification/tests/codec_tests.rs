use fm26_mod_manager::codec::{
    classify_line, format_bool, lookup, parse_bool, read_document, ConfigLine,
};

#[test]
fn true_tokens_in_any_capitals() {
    assert!(parse_bool("true"));
    assert!(parse_bool("TRUE"));
    assert!(parse_bool("1"));
    assert!(parse_bool("yes"));
    assert!(parse_bool("On"));
    assert!(parse_bool("tRuE"));
    assert!(parse_bool("YES"));
}

#[test]
fn every_other_value_is_false() {
    assert!(!parse_bool(""));
    assert!(!parse_bool("false"));
    assert!(!parse_bool("0"));
    assert!(!parse_bool("no"));
    assert!(!parse_bool("off"));
    assert!(!parse_bool(" true"));
    assert!(!parse_bool("truee"));
    assert!(!parse_bool("2"));
    assert!(!parse_bool("\u{212A}"));
}

#[test]
fn truth_values_are_written_in_small_letters() {
    assert_eq!(format_bool(true), "true");
    assert_eq!(format_bool(false), "false");
}

#[test]
fn lines_are_classified() {
    assert_eq!(classify_line("   "), ConfigLine::Blank);
    assert_eq!(classify_line(""), ConfigLine::Blank);
    assert_eq!(classify_line("# note"), ConfigLine::Comment);
    assert_eq!(classify_line("  ; note"), ConfigLine::Comment);
    assert_eq!(
        classify_line(" [General] "),
        ConfigLine::Section { name: "General".to_string() }
    );
    assert_eq!(
        classify_line("Key = a = b"),
        ConfigLine::KeyValue { key: "Key".to_string(), value: "a = b".to_string() }
    );
    assert_eq!(
        classify_line("Key="),
        ConfigLine::KeyValue { key: "Key".to_string(), value: "".to_string() }
    );
    assert_eq!(classify_line("no assignment"), ConfigLine::Other);
    assert_eq!(classify_line("["), ConfigLine::Other);
}

#[test]
fn truth_values_are_read_as_with_full_lower_casing() {
    let samples = [
        "true", "True", "TRUE", "tRUE", "1", "01", "yes", "Yes", "YES", "on", "ON", "oN", "", " ",
        "false", "no", "off", "0", "y", "t", "truth", "yes ", "\u{212A}", "\u{130}", "tru\u{212A}",
        "YE\u{17F}", "\u{ff54}\u{ff52}\u{ff55}\u{ff45}", "o\u{ff4e}", "\u{3a3}",
    ];
    for sample in samples {
        let expected = matches!(sample.to_lowercase().as_str(), "true" | "1" | "yes" | "on");
        assert_eq!(parse_bool(sample), expected, "{:?}", sample);
    }
}

#[test]
fn a_document_is_read_line_by_line() {
    let doc = read_document("# head\n[A]\nx = 1\n\ny=2\r\nx = 3\nrest");
    assert_eq!(
        doc,
        vec![
            ConfigLine::Comment,
            ConfigLine::Section { name: "A".to_string() },
            ConfigLine::KeyValue { key: "x".to_string(), value: "1".to_string() },
            ConfigLine::Blank,
            ConfigLine::KeyValue { key: "y".to_string(), value: "2".to_string() },
            ConfigLine::KeyValue { key: "x".to_string(), value: "3".to_string() },
            ConfigLine::Other,
        ]
    );
    assert_eq!(lookup(&doc, "x"), Some(&"3".to_string()));
    assert_eq!(lookup(&doc, "y"), Some(&"2".to_string()));
    assert_eq!(lookup(&doc, "z"), None);
    assert_eq!(lookup(&doc, "X"), None);
    assert_eq!(read_document(""), Vec::<ConfigLine>::new());
}
