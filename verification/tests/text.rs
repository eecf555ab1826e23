use exercises::text::{decimal_len, decimal_string, push_decimal, push_right_aligned};

#[test]
fn decimal_digits() {
    assert_eq!(decimal_string(0), "0");
    assert_eq!(decimal_string(7), "7");
    assert_eq!(decimal_string(10), "10");
    assert_eq!(decimal_string(1234567890), "1234567890");
    assert_eq!(decimal_string(u64::MAX), "18446744073709551615");
    for n in 0u64..2000 {
        assert_eq!(decimal_string(n), n.to_string());
    }
}

#[test]
fn decimal_lengths() {
    assert_eq!(decimal_len(0), 1);
    assert_eq!(decimal_len(9), 1);
    assert_eq!(decimal_len(10), 2);
    assert_eq!(decimal_len(99), 2);
    assert_eq!(decimal_len(100), 3);
    assert_eq!(decimal_len(u64::MAX), 20);
}

#[test]
fn push_keeps_what_was_there() {
    let mut text = String::from("n=");
    push_decimal(&mut text, 42);
    assert_eq!(text, "n=42");
    push_decimal(&mut text, 0);
    assert_eq!(text, "n=420");
}

#[test]
fn right_aligned_fields() {
    let cases: [(u64, usize, &str); 8] = [
        (0, 3, "  0"),
        (7, 3, "  7"),
        (42, 3, " 42"),
        (100, 3, "100"),
        (1000, 3, "1000"),
        (5, 0, "5"),
        (5, 1, "5"),
        (12, 6, "    12"),
    ];
    for (n, width, expected) in cases {
        let mut text = String::new();
        push_right_aligned(&mut text, n, width);
        assert_eq!(text, expected);
    }
    let mut text = String::from("[");
    push_right_aligned(&mut text, 9, 3);
    text.push(']');
    assert_eq!(text, "[  9]");
}
