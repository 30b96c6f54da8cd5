use genpdf::decimal::decimal_string;

#[test]
fn decimal_notation() {
    assert_eq!(decimal_string(0), "0");
    assert_eq!(decimal_string(7), "7");
    assert_eq!(decimal_string(10), "10");
    assert_eq!(decimal_string(1907), "1907");
    assert_eq!(decimal_string(u128::MAX), "340282366920938463463374607431768211455");
}
