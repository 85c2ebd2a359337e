use backoffice_rust::compute_delta;

#[test]
fn delta_basic() {
    assert_eq!(compute_delta(b"abc", b"axc"), 1);
}

#[test]
fn delta_both_empty() {
    assert_eq!(compute_delta(b"", b""), 0);
}

#[test]
fn delta_trailing_excess() {
    assert_eq!(compute_delta(b"ab", b"abcd"), 2);
    assert_eq!(compute_delta(b"abcd", b"ab"), 2);
}

#[test]
fn delta_mismatch_and_excess() {
    assert_eq!(compute_delta(b"abc", b"xb"), 2);
    assert_eq!(compute_delta(b"abcd", b"xbcz"), 2);
    assert_eq!(compute_delta(b"abc", b"xyz"), 3);
}

#[test]
fn delta_no_realignment() {
    // a shifted copy differs at every position: no alignment is attempted
    assert_eq!(compute_delta(b"abcd", b"zabcd"), 5);
}

#[test]
fn delta_of_itself_is_zero() {
    let cases: Vec<Vec<u8>> = vec![vec![], vec![0], vec![1, 2, 3, 255], vec![7; 1000]];
    for a in &cases {
        assert_eq!(compute_delta(a, a), 0);
    }
}

#[test]
fn delta_is_symmetric() {
    let cases: Vec<Vec<u8>> = vec![vec![], vec![0], vec![1, 2, 3], vec![1, 9, 3, 4, 5], vec![9; 4]];
    for a in &cases {
        for b in &cases {
            assert_eq!(compute_delta(a, b), compute_delta(b, a));
        }
    }
}

#[test]
fn delta_against_empty_is_length() {
    let a: Vec<u8> = vec![4, 5, 6, 7, 8];
    assert_eq!(compute_delta(&a, b""), 5);
    assert_eq!(compute_delta(b"", &a), 5);
}

#[test]
fn delta_large_inputs() {
    let a = vec![1u8; 10_000];
    let mut b = a.clone();
    let mut i: usize = 0;
    while i < 10_000 {
        b[i] = 2;
        i += 1000;
    }
    assert_eq!(compute_delta(&a, &b), 10);
}
