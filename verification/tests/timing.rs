//! Time value arithmetic and formatting.

use forgecut::time::TimeUs;

#[test]
fn time_us_add_sub() {
    let a = TimeUs(5_000_000);
    let b = TimeUs(3_000_000);
    assert_eq!(a.add(b), TimeUs(8_000_000));
    assert_eq!(a.sub(b), TimeUs(2_000_000));
}

#[test]
fn time_us_ordering() {
    let a = TimeUs(1_000_000);
    let b = TimeUs(2_000_000);
    assert!(a < b);
    assert!(b > a);
    assert_eq!(a, TimeUs(1_000_000));
}

#[test]
fn time_us_mul_div() {
    let t = TimeUs(2_000_000);
    assert_eq!(t.mul(3), TimeUs(6_000_000));
    assert_eq!(t.div(2), TimeUs(1_000_000));
}

#[test]
fn time_us_zero() {
    assert_eq!(TimeUs::zero(), TimeUs(0));
}

#[test]
fn time_us_display() {
    assert_eq!(TimeUs(0).format(), "00:00:00.000");
    assert_eq!(TimeUs(1_500_000).format(), "00:00:01.500");
    assert_eq!(TimeUs(3_661_500_000).format(), "01:01:01.500");
}

#[test]
fn time_us_negative_format() {
    assert_eq!(TimeUs(-1_500_000).format(), "-00:00:01.500");
}

#[test]
fn time_us_div_truncates_toward_zero() {
    assert_eq!(TimeUs(-7).div(2), TimeUs(-3));
    assert_eq!(TimeUs(7).div(-2), TimeUs(-3));
    assert_eq!(TimeUs(7).div(2), TimeUs(3));
}
