use finalgo::text::{push_decimal, push_signed_decimal, push_two_digits};

#[test]
fn decimal_rendering() {
    let mut s = String::new();
    push_decimal(&mut s, 0);
    assert_eq!(s, "0");
    let mut s = String::from("x=");
    push_decimal(&mut s, u64::MAX);
    assert_eq!(s, format!("x={}", u64::MAX));
    let mut s = String::new();
    push_decimal(&mut s, 1000);
    assert_eq!(s, "1000");
}

#[test]
fn two_digit_rendering() {
    for n in [0u32, 7, 10, 31, 99, 100, 12345] {
        let mut s = String::new();
        push_two_digits(&mut s, n);
        assert_eq!(s, format!("{:02}", n));
    }
}

#[test]
fn signed_rendering() {
    for n in [0i32, 5, -5, 2026, -2026, i32::MIN, i32::MAX] {
        let mut s = String::new();
        push_signed_decimal(&mut s, n);
        assert_eq!(s, format!("{}", n));
    }
}
