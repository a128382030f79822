use svg::value::{Decimal, Value};

fn number(mantissa: i64, scale: u32) -> Value {
    Value::Number(Decimal::new(mantissa, scale))
}

#[test]
fn known_conversions() {
    assert_eq!(Value::Integer(-15).render(), "-15");
    assert_eq!(Value::Text("10px".to_string()).render(), "10px");
    assert_eq!(Value::List(vec![number(425, 1), number(690, 1)]).render(), "42.5 69");
}

#[test]
fn integers() {
    assert_eq!(Value::Integer(0).render(), "0");
    assert_eq!(Value::Integer(1007).render(), "1007");
    assert_eq!(Value::Integer(i64::MIN).render(), "-9223372036854775808");
    assert_eq!(Value::Integer(i64::MAX).render(), "9223372036854775807");
    assert_eq!(Value::Unsigned(u64::MAX).render(), "18446744073709551615");
}

#[test]
fn decimals_drop_insignificant_zeros() {
    assert_eq!(Decimal::new(425, 1).render(), "42.5");
    assert_eq!(Decimal::new(690, 1).render(), "69");
    assert_eq!(Decimal::new(1200, 2).render(), "12");
    assert_eq!(Decimal::new(0, 3).render(), "0");
    assert_eq!(Decimal::new(5, 3).render(), "0.005");
    assert_eq!(Decimal::new(-5, 1).render(), "-0.5");
    assert_eq!(Decimal::new(12345, 2).render(), "123.45");
    assert_eq!(Decimal::new(100500, 4).render(), "10.05");
    assert_eq!(Decimal::new(-7, 0).render(), "-7");
    assert_eq!(Decimal::new(i64::MIN, 19).render(), "-0.9223372036854775808");
}

#[test]
fn lists_join_with_single_spaces() {
    assert_eq!(Value::List(vec![]).render(), "");
    assert_eq!(Value::List(vec![Value::Integer(3)]).render(), "3");
    let nested = Value::List(vec![
        Value::Integer(1),
        Value::List(vec![Value::Unsigned(2), number(35, 1)]),
        Value::Text("px".to_string()),
    ]);
    assert_eq!(nested.render(), "1 2 3.5 px");
}
