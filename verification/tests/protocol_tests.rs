use capmeter::protocol::{Command, InvalidPrescaler, Measurement, Prescaler, HEADER_LENGTH, PRODUCT_ID, VENDOR_ID};

#[test]
fn divisors_of_all_prescalers() {
    assert_eq!(Prescaler::Div1.divisor(), 1);
    assert_eq!(Prescaler::Div2.divisor(), 2);
    assert_eq!(Prescaler::Div4.divisor(), 4);
    assert_eq!(Prescaler::Div8.divisor(), 8);
}

#[test]
fn prescaler_from_valid_divisors() {
    assert_eq!(Prescaler::from_divisor(1), Ok(Prescaler::Div1));
    assert_eq!(Prescaler::from_divisor(2), Ok(Prescaler::Div2));
    assert_eq!(Prescaler::from_divisor(4), Ok(Prescaler::Div4));
    assert_eq!(Prescaler::from_divisor(8), Ok(Prescaler::Div8));
}

#[test]
fn prescaler_from_invalid_divisors() {
    assert_eq!(Prescaler::from_divisor(0), Err(InvalidPrescaler { prescaler: 0 }));
    assert_eq!(Prescaler::from_divisor(3), Err(InvalidPrescaler { prescaler: 3 }));
    assert_eq!(Prescaler::from_divisor(16), Err(InvalidPrescaler { prescaler: 16 }));
    assert_eq!(Prescaler::from_divisor(255), Err(InvalidPrescaler { prescaler: 255 }));
}

#[test]
fn divisor_round_trip() {
    for p in [Prescaler::Div1, Prescaler::Div2, Prescaler::Div4, Prescaler::Div8] {
        assert_eq!(Prescaler::from_divisor(p.divisor()), Ok(p));
        assert_eq!(p.divisor(), 1u8 << p.ic1psc());
    }
}

#[test]
fn capture_prescaler_field_values() {
    assert_eq!(Prescaler::Div1.ic1psc(), 0b00);
    assert_eq!(Prescaler::Div2.ic1psc(), 0b01);
    assert_eq!(Prescaler::Div4.ic1psc(), 0b10);
    assert_eq!(Prescaler::Div8.ic1psc(), 0b11);
}

#[test]
fn default_prescaler_divides_by_one() {
    assert_eq!(Prescaler::default(), Prescaler::Div1);
}

#[test]
fn invalid_prescaler_message() {
    assert_eq!(
        InvalidPrescaler { prescaler: 5 }.message(),
        "Only prescaler values 1, 2, 4, and 8 are allowed"
    );
}

#[test]
fn protocol_constants() {
    assert_eq!(VENDOR_ID, 0x1209);
    assert_eq!(PRODUCT_ID, 0x0001);
    assert_eq!(HEADER_LENGTH, 6);
    let m = Measurement { serial: 1, prescaler: Prescaler::Div2, discharge: true, period: 7 };
    assert_eq!(m.period, 7);
    assert_ne!(Command::SetDischarge(true), Command::SetPrescaler(Prescaler::Div1));
}
