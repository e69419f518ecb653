use pullyt::version::{is_newer, parse_segment, parse_version};

fn seg(s: &str) -> Option<u64> {
    let v: Vec<char> = s.chars().collect();
    parse_segment(&v)
}

#[test]
fn parse_version_plain_and_prefixed() {
    assert_eq!(parse_version("1.2.3"), vec![1, 2, 3]);
    assert_eq!(parse_version("v1.10.0"), vec![1, 10, 0]);
    assert_eq!(parse_version("v1.1.0"), parse_version("1.1.0"));
}

#[test]
fn parse_version_skips_pieces_that_are_not_numbers() {
    assert_eq!(parse_version("1.2.3-beta"), vec![1, 2]);
    assert_eq!(parse_version("1..2"), vec![1, 2]);
    assert_eq!(parse_version(""), Vec::<u64>::new());
    assert_eq!(parse_version("v"), Vec::<u64>::new());
    assert_eq!(parse_version("vv1.2"), vec![2]);
    assert_eq!(parse_version("+3.x.04"), vec![3, 4]);
}

#[test]
fn parse_segment_follows_u64_parsing() {
    assert_eq!(seg("0"), Some(0));
    assert_eq!(seg("42"), Some(42));
    assert_eq!(seg("+7"), Some(7));
    assert_eq!(seg("+"), None);
    assert_eq!(seg(""), None);
    assert_eq!(seg("-1"), None);
    assert_eq!(seg("1a"), None);
    assert_eq!(seg(" 1"), None);
    assert_eq!(seg("18446744073709551615"), Some(u64::MAX));
    assert_eq!(seg("18446744073709551616"), None);
    assert_eq!(seg("99999999999999999999x"), None);
    for s in ["0", "12", "+5", "", "+", "x", "007", "18446744073709551616"] {
        assert_eq!(seg(s), s.parse::<u64>().ok());
    }
}

#[test]
fn newer_compares_number_by_number() {
    assert!(is_newer(&[1, 2, 0], &[1, 1, 9]));
    assert!(!is_newer(&[1, 1, 9], &[1, 2, 0]));
    assert!(is_newer(&[1, 10], &[1, 9]));
    assert!(is_newer(&[1, 2, 1], &[1, 2]));
    assert!(!is_newer(&[1, 2], &[1, 2, 1]));
    assert!(!is_newer(&[], &[]));
    assert!(is_newer(&[0], &[]));
}

#[test]
fn newer_is_a_strict_order_on_samples() {
    let samples: Vec<Vec<u64>> = vec![vec![], vec![0], vec![1], vec![1, 0], vec![1, 2], vec![2], vec![1, 2, 3]];
    for a in &samples {
        assert!(!is_newer(a, a));
        for b in &samples {
            assert_eq!(is_newer(a, b), a > b);
            if a != b {
                assert!(is_newer(a, b) ^ is_newer(b, a));
            }
            for c in &samples {
                if is_newer(a, b) && is_newer(b, c) {
                    assert!(is_newer(a, c));
                }
            }
        }
    }
}
