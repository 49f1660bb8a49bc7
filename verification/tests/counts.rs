use human_repr::Magnitude;

/// The magnitude holding the shortest decimal form of `x`, the same
/// digits its display form shows.
fn mag(x: f64) -> Magnitude {
    let neg = x.is_sign_negative();
    let s = format!("{:e}", x.abs());
    let (mant, exp) = s.split_once('e').unwrap();
    let exp: i32 = exp.parse().unwrap();
    let (int_part, frac_part) = match mant.split_once('.') {
        Some((i, f)) => (i, f),
        None => (mant, ""),
    };
    let digits: u128 = format!("{}{}", int_part, frac_part).parse().unwrap();
    Magnitude::new(neg, digits, exp - frac_part.len() as i32).unwrap()
}
use human_repr::HumanCount;

#[test]
fn human_count_operation() {
    assert_eq!("123kB", 123000_u64.human_count_bytes().render());
    assert_eq!("123.5kB", 123456_u64.human_count_bytes().render());
    assert_eq!("23B", 23u8.human_count_bytes().render());
    assert_eq!("23B", 23i8.human_count_bytes().render());
    assert_eq!("23.5B", mag(23.5123).human_count_bytes().render());
    assert_eq!("-23B", (-23i8).human_count_bytes().render());
    assert_eq!("1kB", 1025u16.human_count_bytes().render());
    assert_eq!("-1kB", (-1025i16).human_count_bytes().render());
    assert_eq!("43.2MB", 43214321u32.human_count_bytes().render());
    assert_eq!("23.4GB", 23403454432_u64.human_count_bytes().render());
    assert_eq!("23.43GB", 23433454432_u64.human_count_bytes().render());
    assert_eq!("18.45EB", u64::MAX.human_count_bytes().render());
    assert_eq!("9.22EB", i64::MAX.human_count_bytes().render());
    assert_eq!("-9.22EB", i64::MIN.human_count_bytes().render());
    assert_eq!("340282366920.94+B", u128::MAX.human_count_bytes().render());
}

#[test]
fn human_count_flexibility() {
    assert_eq!("123MCrabs", mag(123e6).human_count("Crabs").render());
    assert_eq!("123MCrabs", mag(123e6).human_count("Crabs".to_owned().as_str()).render());
    assert_eq!("123MCrabs", mag(123e6).human_count(&"Crabs".to_owned()).render());
    assert_eq!("123k\u{1f980}", mag(123e3).human_count("\u{1f980}").render());
    assert_eq!("12.3k\u{b0}C", mag(123e2).human_count("\u{b0}C").render());
    assert_eq!("1.2\u{b0}C", mag(123e-2).human_count("\u{b0}C").render());
}

#[test]
fn human_count_ownership() {
    let mut a = 42000;
    assert_eq!("42kB", a.human_count_bytes().render());
    assert_eq!("42kB", (&a).human_count_bytes().render());
    assert_eq!("42kB", (&mut a).human_count_bytes().render());
}

#[test]
fn human_count_symmetric() {
    assert_eq!(123000_u64.human_count_bytes().render(), "123kB");
}
