use admin_console::io::{is_quit, select_index};

#[test]
fn quit_sentinel_lower_case() {
    assert!(is_quit("q"));
}

#[test]
fn quit_sentinel_upper_case() {
    assert!(is_quit("Q"));
}

#[test]
fn quit_sentinel_is_exact() {
    assert!(!is_quit("quit"));
    assert!(!is_quit("Qq"));
    assert!(!is_quit(""));
    assert!(!is_quit(" q"));
    assert!(!is_quit("p"));
}

#[test]
fn select_index_accepts_in_range() {
    assert_eq!(select_index("1", 3), Some(1));
    assert_eq!(select_index("2", 3), Some(2));
    assert_eq!(select_index("3", 3), Some(3));
}

#[test]
fn select_index_rejects_zero() {
    assert_eq!(select_index("0", 3), None);
}

#[test]
fn select_index_rejects_out_of_range() {
    assert_eq!(select_index("4", 3), None);
    assert_eq!(select_index("1", 0), None);
}

#[test]
fn select_index_accepts_leading_plus() {
    assert_eq!(select_index("+2", 3), Some(2));
    assert_eq!(select_index("+", 3), None);
    assert_eq!(select_index("++1", 3), None);
}

#[test]
fn select_index_rejects_non_numerals() {
    assert_eq!(select_index("abc", 3), None);
    assert_eq!(select_index("", 3), None);
    assert_eq!(select_index(" 2", 3), None);
    assert_eq!(select_index("2 ", 3), None);
    assert_eq!(select_index("1.5", 3), None);
    assert_eq!(select_index("-1", 3), None);
    assert_eq!(select_index("q", 3), None);
}

#[test]
fn select_index_rejects_overflowing_numerals() {
    assert_eq!(select_index("99999999999999999999999999", usize::MAX), None);
}

#[test]
fn select_index_matches_std_parse() {
    let len: usize = 7;
    for input in ["0", "1", "7", "8", "0007", "+3", "x", "", "18446744073709551616"] {
        let expected = input
            .parse::<usize>()
            .ok()
            .filter(|&index| index > 0 && index <= len);
        assert_eq!(select_index(input, len), expected, "input {:?}", input);
    }
}
