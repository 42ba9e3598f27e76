use backmeup::config::{config_from_form, parse_extensions};
use backmeup::text::{contains_text, is_whitespace, same_text};

#[test]
fn extensions_are_split_and_trimmed() {
    assert_eq!(parse_extensions("jpg, txt ,  png"), vec!["jpg", "txt", "png"]);
}

#[test]
fn extensions_keep_empty_pieces() {
    assert_eq!(parse_extensions(""), vec![""]);
    assert_eq!(parse_extensions("jpg,"), vec!["jpg", ""]);
    assert_eq!(parse_extensions(",,"), vec!["", "", ""]);
}

#[test]
fn extensions_trim_unicode_whitespace() {
    assert_eq!(parse_extensions("\u{3000}mp3\u{a0},\tdoc x "), vec!["mp3", "doc x"]);
}

#[test]
fn extensions_match_std_split_and_trim() {
    for text in ["a,b", " a , b ,c", "\n,\r\n", "x", "  ", "é, ü ,ß"] {
        let expected: Vec<String> = text.split(',').map(|s| s.trim().to_string()).collect();
        assert_eq!(parse_extensions(text), expected);
    }
}

#[test]
fn form_fills_config() {
    let c = config_from_form(
        "/home/u/docs".to_string(),
        "/media/usb".to_string(),
        "selective".to_string(),
        "pdf, odt",
    );
    assert_eq!(c.source_path, "/home/u/docs");
    assert_eq!(c.destination_path, "/media/usb");
    assert_eq!(c.backup_type, "selective");
    assert_eq!(c.extensions_to_backup, vec!["pdf", "odt"]);
}

#[test]
fn whitespace_matches_std() {
    for c in ['\t', '\n', '\u{b}', '\u{c}', '\r', ' ', '\u{85}', '\u{a0}', '\u{1680}', '\u{2000}', '\u{200a}', '\u{2028}', '\u{2029}', '\u{202f}', '\u{205f}', '\u{3000}', 'a', '\u{200b}', '\u{feff}', '0', '_'] {
        assert_eq!(is_whitespace(c), c.is_whitespace(), "{:?}", c);
    }
}

#[test]
fn contains_matches_std() {
    assert!(contains_text("abc", ""));
    assert!(contains_text("", ""));
    assert!(!contains_text("", "a"));
    assert!(contains_text("hello world", "o w"));
    assert!(!contains_text("hello", "hello!"));
    assert!(contains_text("aaab", "aab"));
}

#[test]
fn same_text_compares() {
    assert!(same_text("full-disk", "full-disk"));
    assert!(!same_text("full-disk", "full-dis"));
    assert!(!same_text("Directory", "directory"));
}

#[test]
fn extension_count_is_commas_plus_one() {
    for text in ["", "a", "a,b", " , ,", "x,y,z,"] {
        let exts = parse_extensions(text);
        assert_eq!(exts.len(), text.matches(',').count() + 1);
        for e in &exts {
            assert!(!e.contains(','));
            assert_eq!(e.trim(), e.as_str());
        }
    }
}
