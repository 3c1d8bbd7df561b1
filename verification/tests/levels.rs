//! Encoding levels and counting them.
use ignition_column::levels::{encode_levels_v2, LevelEncoder};
use ignition_column::metadata::{update_histogram, LevelHistogram};

#[test]
fn equal_levels_are_one_run() {
    assert_eq!(encode_levels_v2(&[1, 1, 1], 1), vec![6, 1]);
    assert_eq!(encode_levels_v2(&[1; 10], 1), vec![20, 1]);
    assert_eq!(encode_levels_v2(&[0; 100], 3), vec![0xc8, 1, 0]);
    assert_eq!(encode_levels_v2(&[300; 9], 300), vec![18, 44, 1]);
}

#[test]
fn other_levels_are_packed() {
    assert_eq!(encode_levels_v2(&[1, 0, 1, 1], 1), vec![3, 0b1101]);
    assert_eq!(encode_levels_v2(&[0, 1, 2, 3, 0, 1, 2, 3], 3), vec![3, 0xe4, 0xe4]);
    assert_eq!(
        encode_levels_v2(&[0, 1, 0, 1, 0, 1, 0, 1, 1, 1, 0, 0, 0, 0, 0, 0], 1),
        vec![5, 0xaa, 3]
    );
}

#[test]
fn runs_follow_packed_groups() {
    let mut levels = vec![0, 1, 0, 1, 0, 1, 0, 1];
    levels.extend([1; 12]);
    levels.extend([0, 1]);
    assert_eq!(encode_levels_v2(&levels, 1), vec![3, 0xaa, 24, 1, 3, 0b10]);
}

#[test]
fn long_packed_runs_are_split() {
    let levels: Vec<i16> = (0..8 * 64).map(|i| (i % 2) as i16).collect();
    let bytes = encode_levels_v2(&levels, 1);
    let mut expected = vec![2 * 63 + 1];
    expected.extend([0xaa; 63]);
    expected.extend([3, 0xaa]);
    assert_eq!(bytes, expected);
}

#[test]
fn no_levels_take_no_bytes() {
    assert_eq!(encode_levels_v2(&[], 1), Vec::<u8>::new());
    assert_eq!(encode_levels_v2(&[0, 0, 0], 0), vec![6]);
}

#[test]
fn the_encoder_appends() {
    let mut encoder = LevelEncoder::v2(1, 4);
    encoder.put(&[1, 1, 1]);
    assert_eq!(encoder.consume(), vec![6, 1]);
}

fn read_varint(bytes: &[u8], at: &mut usize) -> usize {
    let mut n = 0;
    let mut shift = 0;
    loop {
        let byte = bytes[*at];
        *at += 1;
        n |= ((byte & 0x7f) as usize) << shift;
        if byte < 0x80 {
            return n;
        }
        shift += 7;
    }
}

/// Reads levels back, run after run.
fn decode(bytes: &[u8], width: usize, count: usize) -> Vec<i16> {
    let mut levels = Vec::new();
    let mut at = 0;
    while levels.len() < count {
        let head = read_varint(bytes, &mut at);
        if head % 2 == 1 {
            for _ in 0..head / 2 {
                let mut group = 0u128;
                for i in 0..width {
                    group |= (bytes[at] as u128) << (8 * i);
                    at += 1;
                }
                for i in 0..8 {
                    levels.push(((group >> (i * width)) & ((1 << width) - 1)) as i16);
                }
            }
        } else {
            let mut level = 0usize;
            for i in 0..(width + 7) / 8 {
                level |= (bytes[at] as usize) << (8 * i);
                at += 1;
            }
            for _ in 0..head / 2 {
                levels.push(level as i16);
            }
        }
    }
    levels.truncate(count);
    levels
}

#[test]
fn levels_are_read_back() {
    for (max_level, width) in [(1i16, 1usize), (2, 2), (3, 2), (5, 3), (300, 9)] {
        let mut state = 12345u32;
        for len in [1usize, 7, 8, 9, 16, 40, 700] {
            let mut levels = Vec::new();
            while levels.len() < len {
                state = state.wrapping_mul(1664525).wrapping_add(1013904223);
                let level = ((state >> 16) % (max_level as u32 + 1)) as i16;
                let run = 1 + (state >> 28) as usize;
                for _ in 0..run.min(len - levels.len()) {
                    levels.push(level);
                }
            }
            assert_eq!(decode(&encode_levels_v2(&levels, max_level), width, len), levels);
        }
    }
}

#[test]
fn histograms_count_levels() {
    assert!(LevelHistogram::try_new(0).is_none());
    let mut histogram = LevelHistogram::try_new(2).unwrap();
    assert_eq!(histogram.inner, vec![0, 0, 0]);
    histogram.update_from_levels(&[0, 2, 2, 1, 2]);
    assert_eq!(histogram.inner, vec![1, 1, 3]);
}

#[test]
fn histograms_add_up() {
    let mut chunk = LevelHistogram::try_new(1);
    let mut page = LevelHistogram::try_new(1);
    page.as_mut().unwrap().update_from_levels(&[0, 1, 1]);
    update_histogram(&mut chunk, &page);
    update_histogram(&mut chunk, &page);
    update_histogram(&mut chunk, &None);
    assert_eq!(chunk.unwrap().inner, vec![2, 4]);
    let mut none = None;
    update_histogram(&mut none, &page);
    assert!(none.is_none());
}

#[test]
fn full_histograms_cannot_be_added_to() {
    let full = LevelHistogram { inner: vec![i64::MAX, 0] };
    assert!(!full.can_add(&LevelHistogram { inner: vec![1, 0] }));
    assert!(full.can_add(&LevelHistogram { inner: vec![0, 1] }));
    assert!(!full.can_add(&LevelHistogram { inner: vec![0] }));
}
