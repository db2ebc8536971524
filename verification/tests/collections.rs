use pagoda_runtime::dict::Dict;
use pagoda_runtime::text::{
    join_all, join_from, lower_ascii, normalize, parse_u16, starts_with, to_decimal, to_lower_hex,
    to_padded_hex, white_space,
};

#[test]
fn dictionary_keeps_one_entry_per_key() {
    let mut dict: Dict<String, u8> = Dict::new();
    dict.insert("a".to_string(), 1);
    dict.insert("b".to_string(), 2);
    dict.insert("a".to_string(), 3);
    assert_eq!(dict.len(), 2);
    assert_eq!(dict.get(&"a".to_string()), Some(&3));
    assert_eq!(dict.at(1).0, "b");
    assert_eq!(dict.remove(&"a".to_string()), Some(3));
    assert_eq!(dict.remove(&"a".to_string()), None);
    assert!(!dict.contains(&"a".to_string()));
    assert!(dict.contains(&"b".to_string()));
}

#[test]
fn numbers_are_written_as_the_standard_library_does() {
    for n in [0, 1, 9, 10, 15, 16, 255, 256, 65535, 1_000_000_007, u64::MAX] {
        assert_eq!(to_decimal(n), format!("{n}"));
        assert_eq!(to_lower_hex(n), format!("{n:x}"));
        assert_eq!(to_padded_hex(n as u128, 16), format!("{n:016x}"));
        assert_eq!(to_padded_hex(n as u128, 3), format!("{n:03x}"));
    }
}

#[test]
fn characters_are_told_apart_as_the_standard_library_does() {
    for c in '\0'..=char::MAX {
        assert_eq!(white_space(c), c.is_whitespace(), "{c:?}");
        assert_eq!(lower_ascii(c), c.to_ascii_lowercase(), "{c:?}");
    }
}

#[test]
fn ports_are_read_as_the_standard_library_does() {
    for text in [
        "", "0", "+", "-", "+0", "-0", "00080", "80", "+80", "-80", " 80", "80 ", "65535", "65536",
        "0065535", "99999999999999999999", "8a", "٣", "1_000", "++1",
    ] {
        assert_eq!(parse_u16(text), text.parse::<u16>().ok(), "{text:?}");
    }
}

#[test]
fn texts_are_joined_and_trimmed() {
    let parts = vec!["a".to_string(), "b".to_string(), "c".to_string()];
    assert_eq!(join_all(&parts, ", "), "a, b, c");
    assert_eq!(join_from(&parts, 2, ", "), "c");
    assert_eq!(join_from(&parts, 3, ", "), "");
    assert!(starts_with("prefix", "pre"));
    assert!(starts_with("x", ""));
    assert!(!starts_with("pre", "prefix"));
    for text in ["  A b\t", "\u{2003}É\u{205f}", "", "\u{200b}x"] {
        assert_eq!(normalize(text), text.trim().to_ascii_lowercase());
    }
}
