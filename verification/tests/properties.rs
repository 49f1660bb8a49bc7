use human_repr::Magnitude;

/// The magnitude holding the shortest decimal form of `x`, the same
/// digits its display form shows.
fn mag(x: f64) -> Magnitude {
    let neg = x.is_sign_negative();
    let s = format!("{:e}", x.abs());
    let (mant, exp) = s.split_once('e').unwrap();
    let exp: i32 = exp.parse().unwrap();
    let (int_part, frac_part) = match mant.split_once('.') {
        Some((i, f)) => (i, f),
        None => (mant, ""),
    };
    let digits: u128 = format!("{}{}", int_part, frac_part).parse().unwrap();
    Magnitude::new(neg, digits, exp - frac_part.len() as i32).unwrap()
}
use human_repr::{display_compare, rounded, HumanCount, HumanDuration, HumanThroughput};

#[test]
fn carry_across_rungs() {
    assert_eq!("1GB", 999999999u64.human_count_bytes().render());
    assert_eq!("1MB", 999996u32.human_count("B").render());
    assert_eq!("1:00", mag(59.995).human_duration().render());
}

#[test]
fn comparator_agrees_with_render() {
    let pairs = [
        (123000u64, "123kB"),
        (123456u64, "123.5kB"),
        (999999999u64, "1GB"),
        (43214321u64, "43.2MB"),
        (23433454432u64, "23.43GB"),
    ];
    for (v, s) in pairs {
        let h = v.human_count_bytes();
        assert_eq!(h.matches(s), s == h.render());
        assert!(h.matches(s));
    }
    let wrong = ["123kC", "123k", "123kBs", "124kB", "", "1"];
    let h = 123000u64.human_count_bytes();
    for s in wrong {
        assert_eq!(h.matches(s), s == h.render());
        assert!(!h.matches(s));
    }
}

#[test]
fn comparator_duration_and_throughput() {
    let d = mag(68.09).human_duration();
    assert!(d.matches("1:08.1"));
    assert!(!d.matches("1:08.2"));
    assert!(!d.matches("1:08"));
    assert_eq!(d.matches("1:08.1"), "1:08.1" == d.render());
    let t = mag(1. / 3601.).human_throughput_bytes();
    assert!(t.matches("23.99B/d"));
    assert!(!t.matches("23.99B/h"));
    assert_eq!(t.matches("23.99B/d"), "23.99B/d" == t.render());
}

#[test]
fn display_compare_streams() {
    let h = 4221432u32.human_count("coins");
    assert!(display_compare("4.2Mcoins", &h));
    assert!(!display_compare("4.2Mcoin", &h));
    assert!(!display_compare("4.2Mcoinsx", &h));
    assert!(!display_compare("4.3Mcoins", &h));
}

#[test]
fn scale_monotonicity_examples() {
    assert_eq!("123B", 123u8.human_count_bytes().render());
    assert_eq!("123kB", 123000u32.human_count_bytes().render());
    assert_eq!("123MB", 123000000u64.human_count_bytes().render());
    assert_eq!("42kB", 42000u32.human_count_bytes().render());
    assert_eq!("42MB", 42000000u64.human_count_bytes().render());
}

#[test]
fn sign_symmetry_examples() {
    let plus = 23433454432i64.human_count_bytes().render();
    let minus = (-23433454432i64).human_count_bytes().render();
    assert_eq!(minus, format!("-{}", plus));
    let p = mag(0.8015).human_duration().render();
    let n = mag(-0.8015).human_duration().render();
    assert_eq!(n, format!("-{}", p));
}

#[test]
fn negative_long_duration_keeps_sign_in_front() {
    assert_eq!("-1:00", mag(-60.0).human_duration().render());
    assert_eq!("-1:04:48", mag(-3888.395).human_duration().render());
}

#[test]
fn zero_values() {
    assert_eq!("0B", 0u8.human_count_bytes().render());
    assert_eq!("0", 0u8.human_count_bare().render());
    assert_eq!("0ns", 0u8.human_duration().render());
    assert_eq!("0B/d", 0u8.human_throughput_bytes().render());
}

#[test]
fn bare_and_custom_units() {
    assert_eq!("4.2M", 4221432u32.human_count_bare().render());
    assert_eq!("4.2Mcoins", 4221432u32.human_count("coins").render());
    assert_eq!("4.2MB", 4221432u32.human_count_bytes().render());
    assert_eq!("1.2k/s", mag(1234.5).human_throughput_bare().render());
    assert_eq!("1.2k\u{b0}C/s", mag(1234.5).human_throughput("\u{b0}C").render());
}

#[test]
fn rounding_utility() {
    let r = rounded(Magnitude::new(false, 125, -2).unwrap(), 1);
    assert_eq!((r.neg, r.digits, r.exp), (false, 13, -1));
    let r = rounded(Magnitude::new(true, 125, -2).unwrap(), 1);
    assert_eq!((r.neg, r.digits, r.exp), (true, 13, -1));
    let r = rounded(Magnitude::new(false, 125, -2).unwrap(), 0);
    assert_eq!((r.neg, r.digits, r.exp), (false, 1, 0));
    let r = rounded(Magnitude::new(false, 125, -2).unwrap(), 2);
    assert_eq!((r.neg, r.digits, r.exp), (false, 125, -2));
    let r = rounded(Magnitude::new(false, 4999, -3).unwrap(), 0);
    assert_eq!((r.neg, r.digits, r.exp), (false, 5, 0));
}

#[test]
fn magnitude_bounds() {
    assert!(Magnitude::new(false, 99_999_999_999_999_999, 400).is_some());
    assert!(Magnitude::new(false, 100_000_000_000_000_000, 0).is_none());
    assert!(Magnitude::new(false, 1, 401).is_none());
    assert!(Magnitude::new(false, 1, -401).is_none());
    assert!(Magnitude::new(true, 0, -400).is_some());
}

#[test]
fn seventeen_digit_reduction() {
    assert_eq!("18.45EB", 18446744073709551615u128.human_count_bytes().render());
    assert_eq!("100EB", 99999999999999999999u128.human_count_bytes().render());
}

#[test]
fn overflow_marker_with_unit() {
    assert_eq!("340282366920.94+B", u128::MAX.human_count_bytes().render());
    assert_eq!("340282366920.94+", u128::MAX.human_count_bare().render());
    assert_eq!("340282366920.94+flux", u128::MAX.human_count("flux").render());
}
