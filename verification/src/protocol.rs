//! Types shared by the measuring device and the host client.
use vstd::prelude::*;

verus! {

/// USB vendor id (test id of pid.codes).
pub const VENDOR_ID: u16 = 0x1209;

/// USB product id (test id of pid.codes).
pub const PRODUCT_ID: u16 = 0x0001;

/// A logical channel number on the multiplexed serial link.
pub type Port = u16;

/// Number of bytes in a chunk header: port, payload length and checksum,
/// each a big-endian `u16`.
pub const HEADER_LENGTH: usize = 6;

/// Largest payload that a chunk carries unless configured otherwise.
pub const DEFAULT_MTU: usize = 128;

/// Input-capture prescaler of the measuring timer.
#[derive(Clone, Copy, Debug, PartialEq, Eq, Structural, PartialOrd, Ord, Hash)]
pub enum Prescaler {
    Div1,
    Div2,
    Div4,
    Div8,
}

/// Rejected divisor: only 1, 2, 4 and 8 are allowed.
#[derive(Clone, Copy, Debug, PartialEq, Eq, Structural)]
pub struct InvalidPrescaler {
    pub prescaler: u8,
}

/// A command sent from the host to the device.
#[derive(Clone, Copy, Debug, PartialEq, Eq, Structural)]
pub enum Command {
    SetDischarge(bool),
    SetPrescaler(Prescaler),
}

/// One period measurement taken by the device.
#[derive(Clone, Copy, Debug, PartialEq, Eq, Structural)]
pub struct Measurement {
    /// Serial number to distinguish measurements
    pub serial: u32,
    /// What prescaler is set
    pub prescaler: Prescaler,
    /// Whether the capacitor is being discharged
    pub discharge: bool,
    /// Period of two rising edges in μs
    pub period: u32,
}

impl Prescaler {
    /// The factor by which the input signal is divided.
    pub open spec fn divisor_value(self) -> u8 {
        match self {
            Prescaler::Div1 => 1,
            Prescaler::Div2 => 2,
            Prescaler::Div4 => 4,
            Prescaler::Div8 => 8,
        }
    }

    /// The two-bit value of the timer's IC1PSC field.
    pub open spec fn field_value(self) -> u8 {
        match self {
            Prescaler::Div1 => 0,
            Prescaler::Div2 => 1,
            Prescaler::Div4 => 2,
            Prescaler::Div8 => 3,
        }
    }

    /// The prescaler with the given divisor, if there is one.
    pub open spec fn with_divisor(value: u8) -> Option<Prescaler> {
        if value == 1 {
            Some(Prescaler::Div1)
        } else if value == 2 {
            Some(Prescaler::Div2)
        } else if value == 4 {
            Some(Prescaler::Div4)
        } else if value == 8 {
            Some(Prescaler::Div8)
        } else {
            None
        }
    }

    pub fn divisor(&self) -> (d: u8)
        ensures
            d == self.divisor_value(),
    {
        match self {
            Prescaler::Div1 => 1,
            Prescaler::Div2 => 2,
            Prescaler::Div4 => 4,
            Prescaler::Div8 => 8,
        }
    }

    pub fn from_divisor(value: u8) -> (r: Result<Self, InvalidPrescaler>)
        ensures
            match r {
                Ok(p) => Prescaler::with_divisor(value) == Some(p),
                Err(e) => Prescaler::with_divisor(value) is None && e.prescaler == value,
            },
    {
        match value {
            1 => Ok(Prescaler::Div1),
            2 => Ok(Prescaler::Div2),
            4 => Ok(Prescaler::Div4),
            8 => Ok(Prescaler::Div8),
            _ => Err(InvalidPrescaler { prescaler: value }),
        }
    }

    pub fn ic1psc(&self) -> (v: u8)
        ensures
            v == self.field_value(),
    {
        match self {
            Prescaler::Div1 => 0,
            Prescaler::Div2 => 1,
            Prescaler::Div4 => 2,
            Prescaler::Div8 => 3,
        }
    }
}

impl Default for Prescaler {
    fn default() -> (p: Self)
        ensures
            p == Prescaler::Div1,
    {
        Prescaler::Div1
    }
}

impl InvalidPrescaler {
    /// Human-readable description of the error.
    pub fn message(&self) -> (m: &'static str)
        ensures
            m@ == "Only prescaler values 1, 2, 4, and 8 are allowed"@,
    {
        "Only prescaler values 1, 2, 4, and 8 are allowed"
    }
}

/// A prescaler's divisor leads back to the same prescaler, and exactly the
/// divisors 1, 2, 4 and 8 name a prescaler.
pub proof fn lemma_divisor_round_trip(p: Prescaler, value: u8)
    ensures
        Prescaler::with_divisor(p.divisor_value()) == Some(p),
        Prescaler::with_divisor(value) matches Some(q) ==> q.divisor_value() == value,
        Prescaler::with_divisor(value) is Some <==> (value == 1 || value == 2 || value == 4
            || value == 8),
{
}

/// The divisor is two to the power of the timer field value, and the field
/// fits in two bits.
pub proof fn lemma_divisor_is_power_of_field(p: Prescaler)
    ensures
        p.field_value() < 4,
        p.divisor_value() as nat == vstd::arithmetic::power2::pow2(p.field_value() as nat),
{
    vstd::arithmetic::power2::lemma2_to64();
}

} // verus!
