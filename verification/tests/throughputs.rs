use human_repr::Magnitude;

/// The magnitude holding the shortest decimal form of `x`, the same
/// digits its display form shows.
fn mag(x: f64) -> Magnitude {
    let neg = x.is_sign_negative();
    let s = format!("{:e}", x.abs());
    let (mant, exp) = s.split_once('e').unwrap();
    let exp: i32 = exp.parse().unwrap();
    let (int_part, frac_part) = match mant.split_once('.') {
        Some((i, f)) => (i, f),
        None => (mant, ""),
    };
    let digits: u128 = format!("{}{}", int_part, frac_part).parse().unwrap();
    Magnitude::new(neg, digits, exp - frac_part.len() as i32).unwrap()
}
use human_repr::HumanThroughput;

#[test]
fn human_throughput_operation() {
    assert_eq!("1B/s", 1.human_throughput_bytes().render());
    assert_eq!("-1B/s", (-1).human_throughput_bytes().render());
    assert_eq!("1.2MB/s", mag(1234567. / 1.).human_throughput_bytes().render());
    assert_eq!("10B/s", mag(10. / 1.).human_throughput_bytes().render());
    assert_eq!("30B/min", mag(1. / 2.).human_throughput_bytes().render());
    assert_eq!("-30B/min", mag(-1. / 2.).human_throughput_bytes().render());
    assert_eq!("5B/s", mag(10. / 2.).human_throughput_bytes().render());
    assert_eq!("5.5B/s", mag(11. / 2.).human_throughput_bytes().render());
    assert_eq!("6.1B/min", mag(10. / 99.).human_throughput_bytes().render());
    assert_eq!("1.8B/min", mag(3. / 100.).human_throughput_bytes().render());
    assert_eq!("4.4B/min", mag(8. / 110.).human_throughput_bytes().render());
    assert_eq!("6.8B/h", mag(3. / 1600.).human_throughput_bytes().render());
    assert_eq!("1.9kB/s", mag(3000000. / 1600.).human_throughput_bytes().render());
    assert_eq!("4.8B/min", mag(5432737. / 67587655.).human_throughput_bytes().render());
    assert_eq!("28.9B/h", mag(5432737. / 675876554.).human_throughput_bytes().render());
    assert_eq!("8B/s", mag(5432737542. / 675876554.).human_throughput_bytes().render());
    assert_eq!("1B/s", mag(1. / 0.99).human_throughput_bytes().render());
    assert_eq!("1B/s", mag(1. / 0.999).human_throughput_bytes().render());
    assert_eq!("1B/s", mag(1. / 1.00001).human_throughput_bytes().render());
    assert_eq!("1B/s", mag(1. / 1.0001).human_throughput_bytes().render());
    assert_eq!("9B/d", mag(125. / 1200000.).human_throughput_bytes().render());
    assert_eq!("9.5B/d", mag(132. / 1200000.).human_throughput_bytes().render());
    assert_eq!("9.72B/d", mag(135. / 1200000.).human_throughput_bytes().render());
    assert_eq!("1B/h", mag(1. / 3599.).human_throughput_bytes().render());
    assert_eq!("1B/h", mag(1. / 3600.).human_throughput_bytes().render());
    assert_eq!("23.99B/d", mag(1. / 3601.).human_throughput_bytes().render());
    assert_eq!("23.95B/d", mag(1. / 3608.).human_throughput_bytes().render());
    assert_eq!("2.16B/d", mag(2. / 80000.).human_throughput_bytes().render());
}

#[test]
fn human_throughput_flexibility() {
    assert_eq!("123MCrabs/s", mag(123e6).human_throughput("Crabs").render());
    assert_eq!("123MCrabs/s", mag(123e6).human_throughput("Crabs".to_owned().as_str()).render());
    assert_eq!("123MCrabs/s", mag(123e6).human_throughput(&"Crabs".to_owned()).render());
    assert_eq!("123M\u{f0}\u{178}\u{a6}\u{20ac}/s", mag(123e6).human_throughput("\u{f0}\u{178}\u{a6}\u{20ac}").render());
    assert_eq!("12.3k\u{c2}\u{b0}C/s", mag(123e2).human_throughput("\u{c2}\u{b0}C").render());
    assert_eq!("1.2\u{c2}\u{b0}C/s", mag(123e-2).human_throughput("\u{c2}\u{b0}C").render());
}

#[test]
fn human_throughput_ownership() {
    let mut a = 42000;
    assert_eq!("42kB/s", a.human_throughput_bytes().render());
    assert_eq!("42kB/s", (&a).human_throughput_bytes().render());
    assert_eq!("42kB/s", (&mut a).human_throughput_bytes().render());
}

#[test]
fn human_throughput_symmetric() {
    assert_eq!(1.human_throughput_bytes().render(), "1B/s");
}
