use file_bridge::decimal::to_decimal;
use file_bridge::pin::{generate, generate_pin, validate, PinCode, PIN_MAX, PIN_MIN};
use std::collections::HashMap;

#[test]
fn decimal_notation_of_small_and_large_numbers() {
    assert_eq!(to_decimal(0), "0");
    assert_eq!(to_decimal(7), "7");
    assert_eq!(to_decimal(10), "10");
    assert_eq!(to_decimal(909), "909");
    assert_eq!(to_decimal(1_234_567_890), "1234567890");
    assert_eq!(to_decimal(u64::MAX), "18446744073709551615");
}

#[test]
fn decimal_notation_agrees_with_std() {
    let mut n: u64 = 1;
    while n < u64::MAX / 7 {
        assert_eq!(to_decimal(n), n.to_string());
        assert_eq!(to_decimal(n - 1), (n - 1).to_string());
        n = n * 7 + 3;
    }
}

#[test]
fn generated_pin_has_six_digits_in_range() {
    for _ in 0..10_000 {
        let pin = generate_pin();
        assert_eq!(pin.len(), 6);
        assert!(pin.chars().all(|c| c.is_ascii_digit()));
        let value: u32 = pin.parse().unwrap();
        assert!((100_000..=999_999).contains(&value));
    }
}

#[test]
fn generated_pins_are_spread_out() {
    let mut seen: HashMap<String, u32> = HashMap::new();
    for _ in 0..10_000 {
        *seen.entry(generate_pin()).or_insert(0) += 1;
    }
    let most = seen.values().copied().max().unwrap();
    assert!(most < 20, "one PIN came {} times in 10000 draws", most);
    assert!(seen.len() > 9_000);
}

#[test]
fn generated_pin_code_matches_its_number() {
    for _ in 0..1_000 {
        let pin = generate();
        let n = pin.number();
        assert!(PIN_MIN <= n && n <= PIN_MAX);
        assert_eq!(pin.digits(), n.to_string());
    }
}

#[test]
fn pin_from_number_at_the_edges() {
    assert!(PinCode::from_number(0).is_none());
    assert!(PinCode::from_number(99_999).is_none());
    assert_eq!(PinCode::from_number(100_000).unwrap().digits(), "100000");
    assert_eq!(PinCode::from_number(482_913).unwrap().digits(), "482913");
    assert_eq!(PinCode::from_number(999_999).unwrap().digits(), "999999");
    assert!(PinCode::from_number(1_000_000).is_none());
    assert!(PinCode::from_number(u32::MAX).is_none());
    assert_eq!(PinCode::from_number(482_913).unwrap().number(), 482_913);
}

#[test]
fn validate_is_exact_equality() {
    let pin = PinCode::from_number(123_456).unwrap();
    assert!(validate("123456", &pin));
    assert!(!validate("123457", &pin));
    assert!(!validate("12345", &pin));
    assert!(!validate("1234567", &pin));
    assert!(!validate(" 123456", &pin));
    assert!(!validate("123456 ", &pin));
    assert!(!validate("", &pin));
    assert!(!validate("0123456", &pin));
}

#[test]
fn validate_accepts_what_was_generated() {
    let pin = generate();
    let text = pin.digits();
    assert!(validate(&text, &pin));
}
