//! The blink code that the firmware shows on its debug LED after a panic.
use vstd::prelude::*;

verus! {

/// Milliseconds of darkness after each round of the blink code.
pub const PANIC_PAUSE_MS: u32 = 500;

/// One round of the panic blink code, as (on, off) milliseconds: three
/// short, three long and three short flashes.
pub open spec fn panic_round() -> Seq<(u32, u32)> {
    seq![
        (200u32, 200u32), (200u32, 200u32), (200u32, 200u32),
        (400u32, 200u32), (400u32, 200u32), (400u32, 200u32),
        (200u32, 200u32), (200u32, 200u32), (200u32, 200u32),
    ]
}

/// The flashes of one round of the panic blink code.
pub fn panic_blink_round() -> (round: Vec<(u32, u32)>)
    ensures
        round@ == panic_round(),
        round@.len() == 9,
        forall|i: int| 0 <= i < 9 ==> (#[trigger] round@[i]).1 == 200,
        forall|i: int| 0 <= i < 3 ==> (#[trigger] round@[i]).0 == 200,
        forall|i: int| 3 <= i < 6 ==> (#[trigger] round@[i]).0 == 400,
        forall|i: int| 6 <= i < 9 ==> (#[trigger] round@[i]).0 == 200,
{
    let mut round: Vec<(u32, u32)> = Vec::new();
    let mut i: usize = 0;
    while i < 9
        invariant
            i <= 9,
            round@ == panic_round().take(i as int),
        decreases 9 - i,
    {
        let on: u32 = if 3 <= i && i < 6 {
            400
        } else {
            200
        };
        round.push((on, 200));
        i = i + 1;
        assert(round@ =~= panic_round().take(i as int));
    }
    assert(panic_round().take(9) =~= panic_round());
    round
}

/// The round spells SOS: three short flashes of 200 ms, three long ones of
/// 400 ms, three short ones again, each followed by 200 ms of darkness.
pub proof fn lemma_panic_round_is_sos()
    ensures
        panic_round().len() == 9,
        forall|i: int| 0 <= i < 9 ==> (#[trigger] panic_round()[i]).1 == 200,
        forall|i: int| 0 <= i < 3 ==> (#[trigger] panic_round()[i]).0 == 200,
        forall|i: int| 3 <= i < 6 ==> (#[trigger] panic_round()[i]).0 == 400,
        forall|i: int| 6 <= i < 9 ==> (#[trigger] panic_round()[i]).0 == 200,
{
}

} // verus!
