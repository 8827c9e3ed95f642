use vigilant_waddle::amount::Amount;

#[test]
fn amount_parts_and_text() {
    let a = Amount::parse("-12.340").unwrap();
    assert_eq!(a.mantissa(), -12340);
    assert_eq!(a.scale(), 3);
    assert_eq!(a.to_text(), "-12.340");
    assert!(a.equals(&Amount::parse("-12.34").unwrap()));
    assert!(!a.equals(&Amount::parse("12.34").unwrap()));
}

#[test]
fn amount_arithmetic() {
    let a = Amount::parse("1.5").unwrap();
    let b = Amount::from_i32(-4);
    let p = a.checked_mul(&b).unwrap();
    assert_eq!((p.mantissa(), p.scale()), (-60, 1));
    assert_eq!(p.to_text(), "-6.0");
    let z = Amount::from_i32(0).checked_mul(&a).unwrap();
    assert_eq!((z.mantissa(), z.scale()), (0, 0));
    assert_eq!(z.to_text(), "0");
    assert!(a.checked_div(&Amount::from_i32(0)).is_none());
    assert!(a.checked_div(&Amount::from_u32(3)).unwrap().equals(&Amount::parse("0.5").unwrap()));
    assert!(Amount::parse("x").is_none());
    assert!(Amount::from_parts(1, 29).is_none());
    assert!(Amount::from_parts(79228162514264337593543950336, 0).is_none());
}
