use superc::scalar::{
    absolute, from_bool, is_less, is_less_eq, is_truthy, negate, to_int, EPSILON, HIGHEST, LOWEST,
    ONE, ZERO,
};
use superc::text::{chars_are, is_text, push_decimal, push_signed_decimal, push_text, to_chars};

fn samples() -> Vec<f32> {
    vec![
        0.0,
        -0.0,
        1.0,
        -1.0,
        0.5,
        -0.5,
        1.5,
        2.0,
        3.999,
        -3.999,
        1e-40,
        -1e-40,
        f32::MIN_POSITIVE,
        f32::EPSILON,
        123456.78,
        -123456.78,
        8388608.0,
        16777216.0,
        -16777217.0,
        4294967296.0,
        9.2e18,
        -9.2e18,
        9223372036854775807.0,
        -9223372036854775808.0,
        1e30,
        -1e30,
        f32::MAX,
        f32::MIN,
        f32::INFINITY,
        f32::NEG_INFINITY,
        f32::NAN,
        -f32::NAN,
    ]
}

#[test]
fn the_constants_are_the_patterns_of_their_numbers() {
    assert_eq!(ZERO, 0.0f32.to_bits());
    assert_eq!(ONE, 1.0f32.to_bits());
    assert_eq!(EPSILON, f32::EPSILON.to_bits());
    assert_eq!(LOWEST, f32::MIN.to_bits());
    assert_eq!(HIGHEST, f32::MAX.to_bits());
}

#[test]
fn truth_is_anything_but_zero() {
    for v in samples() {
        assert_eq!(is_truthy(v.to_bits()), v != 0.0, "{}", v);
    }
    assert_eq!(from_bool(true), ONE);
    assert_eq!(from_bool(false), ZERO);
}

#[test]
fn negate_and_absolute_change_the_sign_only() {
    for v in samples() {
        assert_eq!(negate(v.to_bits()), (-v).to_bits(), "{}", v);
        assert_eq!(absolute(v.to_bits()), v.abs().to_bits(), "{}", v);
    }
}

#[test]
fn order_of_patterns_is_order_of_numbers() {
    for a in samples() {
        for b in samples() {
            assert_eq!(is_less(a.to_bits(), b.to_bits()), a < b, "{} < {}", a, b);
            assert_eq!(is_less_eq(a.to_bits(), b.to_bits()), a <= b, "{} <= {}", a, b);
        }
    }
}

#[test]
fn to_int_drops_the_fraction_and_saturates() {
    for v in samples() {
        assert_eq!(to_int(v.to_bits()), v as i64, "{}", v);
    }
    assert_eq!(to_int(2.9f32.to_bits()), 2);
    assert_eq!(to_int((-2.9f32).to_bits()), -2);
    assert_eq!(to_int(f32::NAN.to_bits()), 0);
    assert_eq!(to_int(f32::INFINITY.to_bits()), i64::MAX);
    assert_eq!(to_int(f32::NEG_INFINITY.to_bits()), i64::MIN);
    assert_eq!(to_int(1e10f32.to_bits()), 10000000000);
}

#[test]
fn to_int_on_every_exponent() {
    for exponent in 0u32..=255 {
        for fraction in [0u32, 1, 0x400000, 0x7FFFFF, 0x2AAAAA] {
            for sign in [0u32, 0x8000_0000] {
                let bits = sign | (exponent << 23) | fraction;
                assert_eq!(to_int(bits), f32::from_bits(bits) as i64, "{:#x}", bits);
            }
        }
    }
}

#[test]
fn decimal_text() {
    let text = |n: u64| {
        let mut s = String::new();
        push_decimal(&mut s, n);
        s
    };
    assert_eq!(text(0), "0");
    assert_eq!(text(7), "7");
    assert_eq!(text(10), "10");
    assert_eq!(text(100), "100");
    assert_eq!(text(9876543210), "9876543210");
    assert_eq!(text(u64::MAX), "18446744073709551615");
    let signed = |n: i64| {
        let mut s = String::from("n=");
        push_signed_decimal(&mut s, n);
        s
    };
    assert_eq!(signed(0), "n=0");
    assert_eq!(signed(42), "n=42");
    assert_eq!(signed(-42), "n=-42");
    assert_eq!(signed(i64::MAX), "n=9223372036854775807");
    assert_eq!(signed(i64::MIN), "n=-9223372036854775808");
}

#[test]
fn text_helpers() {
    assert_eq!(to_chars("aé\n"), vec!['a', 'é', '\n']);
    assert_eq!(to_chars(""), Vec::<char>::new());
    assert!(is_text(&"sqrt".to_string(), "sqrt"));
    assert!(!is_text(&"sqrt".to_string(), "sqr"));
    assert!(!is_text(&"sqr".to_string(), "sqrt"));
    assert!(chars_are(&vec!['i', 'f'], "if"));
    assert!(!chars_are(&vec!['i', 'f'], "iff"));
    assert!(!chars_are(&vec!['i', 'g'], "if"));
    assert!(chars_are(&vec![], ""));
    let mut s = String::from("a");
    push_text(&mut s, "bc");
    assert_eq!(s, "abc");
}
