//! The SI prefixes used to print and read capacitances and times, from
//! femto to peta.
use vstd::prelude::*;

verus! {

/// Number of SI prefixes, from femto (10^-15) to peta (10^15) in steps of
/// a thousand.
pub const SI_PREFIX_COUNT: usize = 11;

/// The decimal exponent of the prefix at `index`.
pub open spec fn exponent_at(index: int) -> int {
    3 * index - 15
}

/// The symbol of the prefix at `index`.
pub open spec fn symbol_at(index: int) -> Seq<char> {
    if index == 0 {
        "f"@
    } else if index == 1 {
        "p"@
    } else if index == 2 {
        "n"@
    } else if index == 3 {
        "μ"@
    } else if index == 4 {
        "m"@
    } else if index == 5 {
        ""@
    } else if index == 6 {
        "k"@
    } else if index == 7 {
        "M"@
    } else if index == 8 {
        "G"@
    } else if index == 9 {
        "T"@
    } else {
        "P"@
    }
}

/// The prefix at `index`, in the order from femto to peta.
pub fn si_prefix_at(index: usize) -> (prefix: Option<(i32, &'static str)>)
    ensures
        prefix is Some <==> index < SI_PREFIX_COUNT,
        prefix matches Some((exponent, symbol)) ==> exponent == exponent_at(index as int)
            && symbol@ == symbol_at(index as int),
{
    match index {
        0 => Some((-15, "f")),
        1 => Some((-12, "p")),
        2 => Some((-9, "n")),
        3 => Some((-6, "μ")),
        4 => Some((-3, "m")),
        5 => Some((0, "")),
        6 => Some((3, "k")),
        7 => Some((6, "M")),
        8 => Some((9, "G")),
        9 => Some((12, "T")),
        10 => Some((15, "P")),
        _ => None,
    }
}

/// The prefix of the given decimal exponent, if it has one: exactly the
/// multiples of three from -15 to 15.
pub fn si_prefix_for_exponent(exponent: i32) -> (prefix: Option<(i32, &'static str)>)
    ensures
        prefix is Some <==> (-15 <= exponent <= 15 && exponent % 3 == 0),
        prefix matches Some((e, symbol)) ==> e == exponent && symbol@ == symbol_at(
            (exponent + 15) / 3,
        ),
{
    if exponent < -15 || exponent > 15 || exponent % 3 != 0 {
        return None;
    }
    let index = ((exponent + 15) / 3) as usize;
    si_prefix_at(index)
}

} // verus!
