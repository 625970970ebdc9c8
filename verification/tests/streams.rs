use file_cmp::{compare_files, compare_lengths, ChunkedComparator, FileDiff};

/// Runs the comparison the way a reader of two files does: the lengths
/// first, then one chunk of each stream after another.
fn drive(a: &[u8], b: &[u8], quick: bool, chunk_size: usize) -> (FileDiff, usize) {
    let len_a = u64::try_from(a.len()).unwrap();
    let len_b = u64::try_from(b.len()).unwrap();
    if let Some(diff) = compare_lengths(len_a, len_b, quick) {
        return (diff, 0);
    }
    let mut state = ChunkedComparator::new(quick);
    let mut reads = 0;
    loop {
        let pos = state.consumed();
        let chunk_a = &a[a.len().min(pos)..a.len().min(pos + chunk_size)];
        let chunk_b = &b[b.len().min(pos)..b.len().min(pos + chunk_size)];
        reads += 1;
        if let Some(diff) = state.step(chunk_a, chunk_b) {
            return (diff, reads);
        }
    }
}

fn sample(len: usize) -> Vec<u8> {
    let mut bytes = Vec::new();
    for i in 0..len {
        bytes.push(u8::try_from((i * 7 + 3) % 251).unwrap());
    }
    bytes
}

#[test]
fn a_stream_equals_itself() {
    for len in [0, 1, 2, 5, 64, 257] {
        let f = sample(len);
        for chunk_size in [1, 2, 3, 64, 4096] {
            assert_eq!(compare_files(&f, &f, false, chunk_size), FileDiff::Equal);
            assert_eq!(compare_files(&f, &f, true, chunk_size), FileDiff::Equal);
        }
    }
}

#[test]
fn chunk_size_does_not_change_the_offset() {
    let a = sample(300);
    let mut b = sample(300);
    b[173] ^= 0x40;
    let expected = FileDiff::Different(173);
    for chunk_size in [1, 2, 7, 100, 173, 174, 299, 300, 301, 65536] {
        assert_eq!(compare_files(&a, &b, false, chunk_size), expected);
        assert_eq!(compare_files(&b, &a, false, chunk_size), expected);
    }
}

#[test]
fn two_empty_streams_are_equal() {
    assert_eq!(compare_files(&[], &[], false, 1), FileDiff::Equal);
    assert_eq!(compare_files(&[], &[], true, 4096), FileDiff::Equal);
}

#[test]
fn one_empty_stream_differs_at_zero() {
    assert_eq!(compare_files(&[], b"x", false, 1), FileDiff::Different(0));
    assert_eq!(compare_files(b"x", &[], false, 1), FileDiff::Different(0));
    assert_eq!(compare_files(&[], b"abc", true, 2), FileDiff::Different(0));
    assert_eq!(compare_files(b"abc", &[], true, 2), FileDiff::Different(0));
}

#[test]
fn single_changed_byte_is_found_at_every_position() {
    let a = sample(40);
    for k in 0..a.len() {
        let mut b = a.clone();
        b[k] = b[k].wrapping_add(1);
        for chunk_size in [1, 3, 8, 39, 40, 41, 1000] {
            assert_eq!(compare_files(&a, &b, false, chunk_size), FileDiff::Different(k));
        }
    }
}

#[test]
fn single_changed_byte_with_one_byte_chunks() {
    assert_eq!(compare_files(b"abcdefgh", b"abcdefgX", false, 1), FileDiff::Different(7));
    assert_eq!(compare_files(b"Xbcdefgh", b"abcdefgh", false, 1), FileDiff::Different(0));
}

#[test]
fn proper_prefix_differs_where_the_shorter_ends() {
    for chunk_size in [1, 2, 3, 4, 5, 7, 8, 4096] {
        assert_eq!(compare_files(b"test", b"testing", false, chunk_size), FileDiff::Different(4));
        assert_eq!(compare_files(b"testing", b"test", false, chunk_size), FileDiff::Different(4));
    }
}

#[test]
fn proper_prefix_that_ends_on_a_chunk_boundary() {
    let long = sample(96);
    let short = &long[..64];
    for chunk_size in [1, 16, 32, 64] {
        assert_eq!(compare_files(short, &long, false, chunk_size), FileDiff::Different(64));
        assert_eq!(compare_files(&long, short, false, chunk_size), FileDiff::Different(64));
    }
}

#[test]
fn quick_mode_with_different_lengths_reads_nothing() {
    assert_eq!(compare_lengths(4, 7, true), Some(FileDiff::Different(0)));
    assert_eq!(compare_lengths(7, 4, true), Some(FileDiff::Different(0)));
    let (diff, reads) = drive(b"test", b"testing", true, 2);
    assert_eq!(diff, FileDiff::Different(0));
    assert_eq!(reads, 0);
    assert_eq!(compare_files(b"test", b"testing", true, 2), FileDiff::Different(0));
}

#[test]
fn quick_mode_with_equal_lengths_reports_zero() {
    for chunk_size in [1, 2, 4, 4096] {
        assert_eq!(compare_files(b"test", b"tesx", true, chunk_size), FileDiff::Different(0));
        assert_eq!(compare_files(b"test", b"text", true, chunk_size), FileDiff::Different(0));
        assert_eq!(compare_files(b"test", b"west", true, chunk_size), FileDiff::Different(0));
    }
}

#[test]
fn the_order_of_the_streams_does_not_matter() {
    let a = sample(50);
    let mut b = sample(70);
    b[20] = b[20].wrapping_add(9);
    for quick in [false, true] {
        assert_eq!(compare_files(&a, &b, quick, 16), compare_files(&b, &a, quick, 16));
    }
    assert_eq!(compare_files(&a, &b, false, 16), FileDiff::Different(20));
}

#[test]
fn the_offset_lies_within_the_shorter_stream() {
    let a = sample(10);
    let b = sample(25);
    assert_eq!(compare_files(&a, &b, false, 4), FileDiff::Different(10));
}

#[test]
fn lengths_decide_only_what_they_can() {
    assert_eq!(compare_lengths(0, 0, false), Some(FileDiff::Equal));
    assert_eq!(compare_lengths(0, 0, true), Some(FileDiff::Equal));
    assert_eq!(compare_lengths(0, 5, false), Some(FileDiff::Different(0)));
    assert_eq!(compare_lengths(5, 0, false), Some(FileDiff::Different(0)));
    assert_eq!(compare_lengths(5, 9, false), None);
    assert_eq!(compare_lengths(5, 5, false), None);
    assert_eq!(compare_lengths(5, 5, true), None);
    assert_eq!(compare_lengths(5, 9, true), Some(FileDiff::Different(0)));
}

#[test]
fn step_moves_past_equal_chunks() {
    let mut state = ChunkedComparator::new(false);
    assert_eq!(state.consumed(), 0);
    assert!(!state.quick());
    assert_eq!(state.step(b"abcd", b"abcd"), None);
    assert_eq!(state.consumed(), 4);
    assert_eq!(state.step(b"ef", b"ef"), None);
    assert_eq!(state.consumed(), 6);
    assert_eq!(state.step(b"", b""), Some(FileDiff::Equal));
    assert_eq!(state.consumed(), 6);
}

#[test]
fn step_adds_the_consumed_bytes_to_the_offset() {
    let mut state = ChunkedComparator::new(false);
    assert_eq!(state.step(b"abcd", b"abcd"), None);
    assert_eq!(state.step(b"efgh", b"efXh"), Some(FileDiff::Different(6)));
    assert_eq!(state.consumed(), 4);
}

#[test]
fn step_reports_where_the_shorter_chunk_ends() {
    let mut state = ChunkedComparator::new(false);
    assert_eq!(state.step(b"abcd", b"abcd"), None);
    assert_eq!(state.step(b"ef", b"efgh"), Some(FileDiff::Different(6)));

    let mut state = ChunkedComparator::new(false);
    assert_eq!(state.step(b"abcd", b"abcd"), None);
    assert_eq!(state.step(b"efgh", b""), Some(FileDiff::Different(4)));
}

#[test]
fn step_in_quick_mode_reports_zero() {
    let mut state = ChunkedComparator::new(true);
    assert!(state.quick());
    assert_eq!(state.step(b"abcd", b"abcd"), None);
    assert_eq!(state.step(b"efgh", b"efgX"), Some(FileDiff::Different(0)));

    let mut state = ChunkedComparator::new(true);
    assert_eq!(state.step(b"abcd", b"abcd"), None);
    assert_eq!(state.step(b"ef", b"efgh"), Some(FileDiff::Different(0)));
}

#[test]
fn driving_the_steps_agrees_with_the_whole_comparison() {
    let a = sample(130);
    let mut b = sample(130);
    b[129] ^= 1;
    let longer = sample(200);
    for quick in [false, true] {
        for chunk_size in [1, 13, 64, 130, 500] {
            for (x, y) in [(&a, &a), (&a, &b), (&b, &a), (&a, &longer), (&longer, &b)] {
                let (diff, _) = drive(x, y, quick, chunk_size);
                assert_eq!(diff, compare_files(x, y, quick, chunk_size));
            }
        }
    }
    assert_eq!(drive(&a, &b, false, 13).0, FileDiff::Different(129));
    assert_eq!(drive(&a, &longer, false, 13).0, FileDiff::Different(130));
}
