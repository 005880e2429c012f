use invoicemd_cli::date::Date;
use invoicemd_cli::decimal::Dec;

#[test]
fn decimal_parts_must_fit() {
    assert!(Dec::new(1, 28).is_some());
    assert!(Dec::new(1, 29).is_none());
    assert!(Dec::new(79_228_162_514_264_337_593_543_950_335, 0).is_some());
    assert!(Dec::new(79_228_162_514_264_337_593_543_950_336, 0).is_none());
    assert!(Dec::new(-79_228_162_514_264_337_593_543_950_336, 0).is_none());
}

#[test]
fn decimal_arithmetic_is_exact_when_it_fits() {
    let a = Dec::new(125, 2).unwrap();
    let b = Dec::new(3, 0).unwrap();
    let p = a.checked_mul(&b).unwrap();
    assert_eq!((p.mantissa(), p.scale()), (375, 2));
    let s = a.checked_add(&b).unwrap();
    assert_eq!((s.mantissa(), s.scale()), (425, 2));
    assert_eq!(s.to_text(), "4.25");
}

#[test]
fn decimal_comparison_is_numeric() {
    let a = Dec::new(10, 1).unwrap();
    let b = Dec::new(100, 2).unwrap();
    assert!(a.same_as(&b));
    assert!(!a.less_than(&b));
    assert!(Dec::new(-1, 0).unwrap().less_than(&Dec::zero()));
    assert!(Dec::new(1, 28).unwrap().less_than(&Dec::new(1, 27).unwrap()));
}

#[test]
fn decimal_overflow_is_none() {
    let max = Dec::new(79_228_162_514_264_337_593_543_950_335, 0).unwrap();
    assert!(max.checked_add(&Dec::new(1, 0).unwrap()).is_none());
    assert!(max.checked_mul(&Dec::new(2, 0).unwrap()).is_none());
}

#[test]
fn dates_exist_per_the_calendar() {
    assert!(Date::from_ymd_opt(2024, 2, 29).is_some());
    assert!(Date::from_ymd_opt(2023, 2, 29).is_none());
    assert!(Date::from_ymd_opt(1900, 2, 29).is_none());
    assert!(Date::from_ymd_opt(2000, 2, 29).is_some());
    assert!(Date::from_ymd_opt(2026, 4, 31).is_none());
    assert!(Date::from_ymd_opt(2026, 13, 1).is_none());
    assert!(Date::from_ymd_opt(2026, 1, 0).is_none());
    assert!(Date::from_ymd_opt(262142, 12, 31).is_some());
    assert!(Date::from_ymd_opt(262143, 1, 1).is_none());
    assert!(Date::from_ymd_opt(-262143, 1, 1).is_some());
    assert!(Date::from_ymd_opt(-262144, 12, 31).is_none());
}

#[test]
fn dates_compare_chronologically() {
    let a = Date::from_ymd_opt(2025, 12, 31).unwrap();
    let b = Date::from_ymd_opt(2026, 1, 1).unwrap();
    assert!(a.is_before(&b));
    assert!(!b.is_before(&a));
    assert!(!a.is_before(&a));
}

#[test]
fn compact_dates() {
    assert_eq!(Date::from_ymd_opt(2026, 3, 5).unwrap().compact(), "20260305");
    assert_eq!(Date::from_ymd_opt(987, 11, 20).unwrap().compact(), "09871120");
    assert_eq!(Date::from_ymd_opt(10000, 1, 2).unwrap().compact(), "+100000102");
    assert_eq!(Date::from_ymd_opt(-5, 1, 2).unwrap().compact(), "-00050102");
}

#[test]
fn decimal_zero_operands() {
    let x = Dec::new(150, 2).unwrap();
    let zero_scaled = Dec::new(0, 3).unwrap();
    let s = Dec::zero().checked_add(&x).unwrap();
    assert_eq!((s.mantissa(), s.scale()), (150, 2));
    let s = x.checked_add(&zero_scaled).unwrap();
    assert_eq!((s.mantissa(), s.scale()), (150, 2));
    let p = x.checked_mul(&zero_scaled).unwrap();
    assert_eq!((p.mantissa(), p.scale()), (0, 0));
    assert_eq!(p.to_text(), "0");
}

#[test]
fn decimal_text_forms() {
    assert_eq!(Dec::new(5, 3).unwrap().to_text(), "0.005");
    assert_eq!(Dec::new(-5, 3).unwrap().to_text(), "-0.005");
    assert_eq!(Dec::new(0, 2).unwrap().to_text(), "0.00");
    assert_eq!(Dec::new(-45000, 2).unwrap().to_text(), "-450.00");
    assert_eq!(Dec::new(7, 0).unwrap().to_text(), "7");
}

#[test]
fn date_iso_text() {
    assert_eq!(Date::from_ymd_opt(2026, 3, 5).unwrap().iso(), "2026-03-05");
    assert_eq!(Date::from_ymd_opt(12345, 1, 2).unwrap().iso(), "+12345-01-02");
    assert_eq!(Date::from_ymd_opt(-7, 12, 31).unwrap().iso(), "-0007-12-31");
}

#[test]
fn decimal_sum_is_at_the_larger_scale() {
    let a = Dec::new(15, 1).unwrap();
    let b = Dec::new(225, 2).unwrap();
    let s = a.checked_add(&b).unwrap();
    assert_eq!((s.mantissa(), s.scale()), (375, 2));
    let n = Dec::new(-375, 2).unwrap();
    let z = s.checked_add(&n).unwrap();
    assert_eq!((z.mantissa(), z.scale()), (0, 2));
}
