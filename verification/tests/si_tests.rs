use capmeter::si::{si_prefix_at, si_prefix_for_exponent, SI_PREFIX_COUNT};

fn si_prefix(value: f64) -> Option<(i32, &'static str)> {
    let exponent = (value.log10() / 3.0).floor() as i32 * 3;
    si_prefix_for_exponent(exponent)
}

#[test]
fn it_determines_si_prefix() {
    assert_eq!(si_prefix(3.3e9), Some((9, "G")));
    assert_eq!(si_prefix(33.0e9), Some((9, "G")));
    assert_eq!(si_prefix(330.0e9), Some((9, "G")));
    assert_eq!(si_prefix(3.3e6), Some((6, "M")));
    assert_eq!(si_prefix(33.0e6), Some((6, "M")));
    assert_eq!(si_prefix(330.0e6), Some((6, "M")));
    assert_eq!(si_prefix(3.3e3), Some((3, "k")));
    assert_eq!(si_prefix(33.0e3), Some((3, "k")));
    assert_eq!(si_prefix(330.0e3), Some((3, "k")));

    assert_eq!(si_prefix(3.3), Some((0, "")));
    assert_eq!(si_prefix(33.0), Some((0, "")));
    assert_eq!(si_prefix(330.0), Some((0, "")));

    assert_eq!(si_prefix(3.3e-3), Some((-3, "m")));
    assert_eq!(si_prefix(33.0e-3), Some((-3, "m")));
    assert_eq!(si_prefix(330.0e-3), Some((-3, "m")));
    assert_eq!(si_prefix(3.3e-6), Some((-6, "μ")));
    assert_eq!(si_prefix(33.0e-6), Some((-6, "μ")));
    assert_eq!(si_prefix(330.0e-6), Some((-6, "μ")));
    assert_eq!(si_prefix(3.3e-9), Some((-9, "n")));
    assert_eq!(si_prefix(33.0e-9), Some((-9, "n")));
    assert_eq!(si_prefix(330.0e-9), Some((-9, "n")));
}

#[test]
fn prefixes_from_femto_to_peta() {
    assert_eq!(SI_PREFIX_COUNT, 11);
    assert_eq!(si_prefix_at(0), Some((-15, "f")));
    assert_eq!(si_prefix_at(5), Some((0, "")));
    assert_eq!(si_prefix_at(10), Some((15, "P")));
    assert_eq!(si_prefix_at(11), None);
    assert_eq!(si_prefix_for_exponent(-18), None);
    assert_eq!(si_prefix_for_exponent(18), None);
    assert_eq!(si_prefix_for_exponent(4), None);
    assert_eq!(si_prefix_for_exponent(-4), None);
    assert_eq!(si_prefix_for_exponent(12), Some((12, "T")));
    assert_eq!(si_prefix_for_exponent(-12), Some((-12, "p")));
}
