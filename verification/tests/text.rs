use polygone::numfmt::decimal_string;
use polygone::message::Fragment;
use polygone::text::{first_word_of, hex_encode, lines, split_words, trim, word_count};

#[test]
fn trims_unicode_white_space() {
    assert_eq!(trim("\u{a0} a b\t\n"), "a b");
    assert_eq!(trim("   "), "");
}

#[test]
fn lines_like_std() {
    assert_eq!(lines("a\nb\n"), vec!["a".to_string(), "b".to_string()]);
    assert_eq!(lines("a\n\nb"), vec!["a".to_string(), String::new(), "b".to_string()]);
    assert!(lines("").is_empty());
}

#[test]
fn words_like_std() {
    assert_eq!(split_words("  one two\tthree\n"), vec!["one", "two", "three"]);
    assert_eq!(word_count("a  b c"), 3);
    assert_eq!(word_count(" \n "), 0);
    assert_eq!(first_word_of("  abc def"), Some("abc".to_string()));
    assert_eq!(first_word_of(" \t"), None);
}

#[test]
fn hex_round_trip() {
    assert_eq!(hex_encode(&[0x00, 0xff, 0x1a]), "00ff1a");
    assert_eq!(Fragment::from_hex("01:00FF1a").unwrap().share, vec![0x00, 0xff, 0x1a]);
    assert!(Fragment::from_hex("01:abc").is_err());
    assert!(Fragment::from_hex("01:zz").is_err());
}

#[test]
fn decimals() {
    assert_eq!(decimal_string(0), "0");
    assert_eq!(decimal_string(1234567890), "1234567890");
    assert_eq!(decimal_string(u64::MAX), "18446744073709551615");
}
