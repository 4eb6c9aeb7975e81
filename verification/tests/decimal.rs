use webshot::decimal::decimal_string;

#[test]
fn single_digits() {
    let digits = ["0", "1", "2", "3", "4", "5", "6", "7", "8", "9"];
    for (n, digit) in digits.iter().enumerate() {
        assert_eq!(decimal_string(n as u32), *digit);
    }
}

#[test]
fn several_digits() {
    assert_eq!(decimal_string(10), "10");
    assert_eq!(decimal_string(99), "99");
    assert_eq!(decimal_string(100), "100");
    assert_eq!(decimal_string(1080), "1080");
    assert_eq!(decimal_string(1920), "1920");
    assert_eq!(decimal_string(1_000_000), "1000000");
}

#[test]
fn largest_number() {
    assert_eq!(decimal_string(u32::MAX), "4294967295");
}

#[test]
fn decimal_agrees_with_display() {
    let mut n: u32 = 0;
    for step in 0..4000u32 {
        assert_eq!(decimal_string(n), format!("{n}"));
        n = n.wrapping_mul(1_103_515_245).wrapping_add(12_345 + step);
    }
    for n in 0..2500u32 {
        assert_eq!(decimal_string(n), format!("{n}"));
    }
}
