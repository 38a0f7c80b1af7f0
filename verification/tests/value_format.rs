use rlox::value::{value_string, LoxValue};

fn rendered(hundredths: i64) -> String {
    value_string(&LoxValue { hundredths })
}

#[test]
fn zero_renders_with_two_fractional_digits() {
    assert_eq!(rendered(0), "0.00");
}

#[test]
fn positive_values_render_like_two_digit_float_formatting() {
    assert_eq!(rendered(120), "1.20");
    assert_eq!(rendered(5), "0.05");
    assert_eq!(rendered(30), "0.30");
    assert_eq!(rendered(123456), "1234.56");
    assert_eq!(rendered(100), "1.00");
}

#[test]
fn negative_values_carry_a_sign() {
    assert_eq!(rendered(-150), "-1.50");
    assert_eq!(rendered(-5), "-0.05");
    assert_eq!(rendered(-100), "-1.00");
}

#[test]
fn extreme_values_render_in_full() {
    assert_eq!(rendered(i64::MAX), "92233720368547758.07");
    assert_eq!(rendered(i64::MIN), "-92233720368547758.08");
}

#[test]
fn rendering_agrees_with_float_formatting() {
    for h in [-12345i64, -100, -7, 0, 3, 99, 100, 101, 120, 98765] {
        let as_float = (h as f64) / 100.0;
        assert_eq!(rendered(h), format!("{:.2}", as_float));
    }
}
