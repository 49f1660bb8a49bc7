use human_repr::Magnitude;

/// The magnitude holding the shortest decimal form of `x`, the same
/// digits its display form shows.
fn mag(x: f64) -> Magnitude {
    let neg = x.is_sign_negative();
    let s = format!("{:e}", x.abs());
    let (mant, exp) = s.split_once('e').unwrap();
    let exp: i32 = exp.parse().unwrap();
    let (int_part, frac_part) = match mant.split_once('.') {
        Some((i, f)) => (i, f),
        None => (mant, ""),
    };
    let digits: u128 = format!("{}{}", int_part, frac_part).parse().unwrap();
    Magnitude::new(neg, digits, exp - frac_part.len() as i32).unwrap()
}
use human_repr::HumanDuration;
use std::time::Duration;

/// The magnitude of a duration, through its seconds in double precision.
fn dmag(d: Duration) -> Magnitude {
    mag(d.as_secs_f64())
}

#[test]
fn human_duration_operation() {
    assert_eq!("1s", 1.human_duration().render());
    assert_eq!("-1s", (-1).human_duration().render());
    assert_eq!("1.2ns", mag(0.00000000123).human_duration().render());
    assert_eq!("1.8ns", mag(0.0000000018).human_duration().render());
    assert_eq!("1\u{b5}s", mag(0.000001).human_duration().render());
    assert_eq!("-1\u{b5}s", mag(-0.000001).human_duration().render());
    assert_eq!("1\u{b5}s", mag(0.000000999996).human_duration().render());
    assert_eq!("10\u{b5}s", mag(0.00001).human_duration().render());
    assert_eq!("15.6\u{b5}s", mag(0.0000156).human_duration().render());
    assert_eq!("10ms", mag(0.01).human_duration().render());
    assert_eq!("14.1ms", mag(0.0141233333333).human_duration().render());
    assert_eq!("1ms", mag(0.000999999).human_duration().render());
    assert_eq!("20ms", mag(0.0199999).human_duration().render());
    assert_eq!("110ms", mag(0.1099999).human_duration().render());
    assert_eq!("160ms", mag(0.1599999).human_duration().render());
    assert_eq!("801.5ms", mag(0.8015).human_duration().render());
    assert_eq!("3.43s", mag(3.434999).human_duration().render());
    assert_eq!("3.44s", mag(3.435999).human_duration().render());
    assert_eq!("59s", mag(59.0).human_duration().render());
    assert_eq!("59.9s", mag(59.9).human_duration().render());
    assert_eq!("59.99s", mag(59.99).human_duration().render());
    assert_eq!("1:00", mag(59.995).human_duration().render());
    assert_eq!("1:08.1", mag(68.09).human_duration().render());
    assert_eq!("2:05.8", mag(125.825).human_duration().render());
    assert_eq!("19:20.4", mag(1160.36).human_duration().render());
    assert_eq!("1:04:48", mag(3888.395).human_duration().render());
    assert_eq!("2:46:40", 10000u16.human_duration().render());
    assert_eq!("27:46:40", 100000i64.human_duration().render());
    assert_eq!("277:46:40", 1000000isize.human_duration().render());
}

#[test]
fn human_duration_flexibility() {
    assert_eq!("1s", dmag(Duration::from_secs_f64(1.)).human_duration().render());
    assert_eq!("1.5s", dmag(Duration::from_secs_f64(1.5)).human_duration().render());
    assert_eq!("1ns", dmag(Duration::from_secs_f64(0.00000000123)).human_duration().render());
    assert_eq!("2ns", dmag(Duration::from_secs_f64(0.00000000185)).human_duration().render());
    assert_eq!("1ns", dmag(Duration::new(0, 1)).human_duration().render());
    assert_eq!("1\u{b5}s", dmag(Duration::from_secs_f64(0.000000999999999)).human_duration().render());
    assert_eq!("1\u{b5}s", dmag(Duration::new(0, 1000)).human_duration().render());
    assert_eq!("10\u{b5}s", dmag(Duration::new(0, 10000)).human_duration().render());
    assert_eq!("15.6\u{b5}s", dmag(Duration::new(0, 15600)).human_duration().render());
    assert_eq!("10ms", dmag(Duration::from_secs_f64(0.01)).human_duration().render());
    assert_eq!("14.1ms", dmag(Duration::from_secs_f64(0.0141233333333)).human_duration().render());
    assert_eq!("110ms", dmag(Duration::new(0, 110000000)).human_duration().render());
    assert_eq!("801.5ms", dmag(Duration::from_secs_f64(0.8015)).human_duration().render());
    assert_eq!("3.43s", dmag(Duration::from_secs_f64(3.434999)).human_duration().render());
    assert_eq!("59s", dmag(Duration::from_secs_f64(59.0)).human_duration().render());
    assert_eq!("59.9s", dmag(Duration::from_secs_f64(59.9)).human_duration().render());
    assert_eq!("59.99s", dmag(Duration::from_secs_f64(59.99)).human_duration().render());
    assert_eq!("1:00", dmag(Duration::new(60, 0)).human_duration().render());
    assert_eq!("1:08.1", dmag(Duration::from_secs_f64(68.09)).human_duration().render());
    assert_eq!("19:20.4", dmag(Duration::new(1160, 350000000)).human_duration().render());
    assert_eq!("1:04:48", dmag(Duration::from_secs_f64(3888.395)).human_duration().render());
    assert_eq!("2:46:40", dmag(Duration::from_secs_f64(10000.)).human_duration().render());
    assert_eq!("27:46:40", dmag(Duration::from_secs_f64(100000.)).human_duration().render());
    assert_eq!("277:46:40", dmag(Duration::new(1000000, 1)).human_duration().render());
}

#[test]
fn human_duration_ownership() {
    let mut a = mag(0.01);
    assert_eq!("10ms", a.human_duration().render());
    assert_eq!("10ms", (&a).human_duration().render());
    assert_eq!("10ms", (&mut a).human_duration().render());
}

#[test]
fn human_duration_symmetric() {
    assert_eq!(1.human_duration().render(), "1s");
}
