use pixel_effects::Ratio;

fn ratio(num: i32, den: u32) -> Ratio {
    Ratio::new(num, den).expect("denominator is not zero")
}

#[test]
fn new_rejects_zero_denominator() {
    assert!(Ratio::new(1, 0).is_none());
    assert!(Ratio::new(0, 0).is_none());
    assert!(Ratio::new(-7, 0).is_none());
}

#[test]
fn new_keeps_both_parts() {
    let r = ratio(6, 4);
    assert_eq!(r.numerator(), 6);
    assert_eq!(r.denominator(), 4);
    let s = ratio(i32::MIN, u32::MAX);
    assert_eq!(s.numerator(), i32::MIN);
    assert_eq!(s.denominator(), u32::MAX);
}

#[test]
fn from_integer_has_denominator_one() {
    let r = Ratio::from_integer(-3);
    assert_eq!(r.numerator(), -3);
    assert_eq!(r.denominator(), 1);
}

#[test]
fn is_integer_compares_values() {
    assert!(ratio(3, 3).is_integer(1));
    assert!(ratio(6, 2).is_integer(3));
    assert!(ratio(0, 9).is_integer(0));
    assert!(ratio(-8, 4).is_integer(-2));
    assert!(!ratio(3, 2).is_integer(1));
    assert!(!ratio(1, 3).is_integer(0));
    assert!(!ratio(i32::MAX, u32::MAX).is_integer(1));
    assert!(!ratio(i32::MIN, u32::MAX).is_integer(i32::MIN));
}

#[test]
fn is_positive_is_strict() {
    assert!(ratio(1, 1000).is_positive());
    assert!(!ratio(0, 5).is_positive());
    assert!(!ratio(-1, 1000).is_positive());
}

#[test]
fn truncate_rounds_toward_zero() {
    assert_eq!(ratio(7, 2).truncate(), 3);
    assert_eq!(ratio(-7, 2).truncate(), -3);
    assert_eq!(ratio(1, 2).truncate(), 0);
    assert_eq!(ratio(-1, 2).truncate(), 0);
    assert_eq!(ratio(8, 4).truncate(), 2);
    assert_eq!(ratio(0, 3).truncate(), 0);
    assert_eq!(ratio(i32::MAX, 1).truncate(), i32::MAX);
    assert_eq!(ratio(i32::MIN, 1).truncate(), i32::MIN);
    assert_eq!(ratio(i32::MIN, u32::MAX).truncate(), 0);
}

#[test]
fn clamp_keeps_a_fraction_inside_the_interval() {
    let r = ratio(3, 2).clamp(0, 3);
    assert_eq!(r.numerator(), 3);
    assert_eq!(r.denominator(), 2);
    let edge = ratio(9, 3).clamp(0, 3);
    assert_eq!(edge.numerator(), 9);
    assert_eq!(edge.denominator(), 3);
}

#[test]
fn clamp_raises_to_the_lower_end() {
    let r = ratio(-1, 2).clamp(0, 3);
    assert_eq!(r.numerator(), 0);
    assert_eq!(r.denominator(), 1);
    let s = ratio(-5, 2).clamp(-1, 1);
    assert_eq!(s.numerator(), -1);
    assert_eq!(s.denominator(), 1);
}

#[test]
fn clamp_lowers_to_the_upper_end() {
    let r = ratio(7, 2).clamp(0, 3);
    assert_eq!(r.numerator(), 3);
    assert_eq!(r.denominator(), 1);
    let s = ratio(i32::MAX, 1).clamp(0, 10);
    assert_eq!(s.numerator(), 10);
    assert_eq!(s.denominator(), 1);
}

#[test]
fn clamp_with_crossed_ends_gives_the_upper_end() {
    let r = ratio(1, 2).clamp(5, 2);
    assert_eq!(r.numerator(), 2);
    assert_eq!(r.denominator(), 1);
}
