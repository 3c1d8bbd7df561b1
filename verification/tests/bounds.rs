//! Shortening the bounds of statistics.
use ignition_column::truncate::{
    increment, increment_utf8, truncate_max_value, truncate_min_value, truncate_utf8,
};

#[test]
fn increment_carries_past_full_bytes() {
    assert_eq!(increment(vec![1, 2, 3]), Some(vec![1, 2, 4]));
    assert_eq!(increment(vec![1, 0xff, 0xff]), Some(vec![2, 0, 0]));
    assert_eq!(increment(vec![0]), Some(vec![1]));
}

#[test]
fn increment_fails_only_on_full_bytes() {
    assert_eq!(increment(vec![0xff, 0xff]), None);
    assert_eq!(increment(vec![]), None);
    assert_eq!(increment(vec![0xfe, 0xff]), Some(vec![0xff, 0]));
}

#[test]
fn increment_utf8_stays_text() {
    assert_eq!(increment_utf8(b"abc".to_vec()), Some(b"abd".to_vec()));
    // The byte behind 0x7f does not stand for a character alone, so the one before it is raised.
    assert_eq!(increment_utf8(vec![b'a', 0x7f]), Some(vec![b'b', 0x7f]));
    assert_eq!(increment_utf8("\u{e9}".as_bytes().to_vec()), Some("\u{ea}".as_bytes().to_vec()));
    assert_eq!(increment_utf8(vec![0x7f]), None);
    assert_eq!(increment_utf8(vec![]), None);
}

#[test]
fn truncate_utf8_keeps_whole_characters() {
    assert_eq!(truncate_utf8("abc", 2), Some(b"a".to_vec()));
    assert_eq!(truncate_utf8("hello", 4), Some(b"hel".to_vec()));
    assert_eq!(truncate_utf8("hi", 9), Some(b"hi".to_vec()));
    assert_eq!(truncate_utf8("a\u{e9}b", 2), Some(b"a".to_vec()));
    assert_eq!(truncate_utf8("a\u{e9}b", 3), Some(b"a".to_vec()));
    assert_eq!(truncate_utf8("a\u{e9}b", 4), Some("a\u{e9}".as_bytes().to_vec()));
    assert_eq!(truncate_utf8("\u{e9}", 2), None);
    assert_eq!(truncate_utf8("abc", 1), None);
    assert_eq!(truncate_utf8("abc", 0), None);
}

#[test]
fn short_bounds_are_kept() {
    assert_eq!(truncate_min_value(None, b"abcdef"), (b"abcdef".to_vec(), false));
    assert_eq!(truncate_min_value(Some(6), b"abcdef"), (b"abcdef".to_vec(), false));
    assert_eq!(truncate_max_value(None, b"abcdef"), (b"abcdef".to_vec(), false));
    assert_eq!(truncate_max_value(Some(6), b"abcdef"), (b"abcdef".to_vec(), false));
}

#[test]
fn minimum_is_a_prefix() {
    assert_eq!(truncate_min_value(Some(4), b"abcdef"), (b"abc".to_vec(), true));
    assert_eq!(truncate_min_value(Some(2), &[0xff, 0xfe, 0xfd]), (vec![0xff, 0xfe], true));
    assert_eq!(
        truncate_min_value(Some(2), "\u{e9}\u{e9}".as_bytes()),
        ("\u{e9}\u{e9}".as_bytes().to_vec(), false)
    );
}

#[test]
fn maximum_is_a_raised_prefix() {
    assert_eq!(truncate_max_value(Some(4), b"abcdef"), (b"abd".to_vec(), true));
    assert_eq!(truncate_max_value(Some(2), &[0x10, 0xff, 0xfd]), (vec![0x11, 0x00], true));
    assert_eq!(
        truncate_max_value(Some(2), &[0xff, 0xff, 0xfd]),
        (vec![0xff, 0xff, 0xfd], false)
    );
    assert_eq!(truncate_max_value(Some(2), &[0x7f, 0x01, 0x01]), (vec![0x7f, 0x01, 0x01], false));
}

#[test]
fn recorded_bounds_enclose_the_value() {
    let values: [&[u8]; 6] =
        [b"abcdef", b"zzzz", &[0xff, 0xff, 0xff], &[0, 0, 0], "na\u{ef}ve".as_bytes(), b""];
    for value in values {
        for limit in 0..4usize {
            let (min, _) = truncate_min_value(Some(limit), value);
            let (max, _) = truncate_max_value(Some(limit), value);
            assert!(min.as_slice() <= value);
            assert!(max.as_slice() >= value);
        }
    }
}
