use vstd::prelude::*;
use crate::osc::{channel_message, encode_channel};

verus! {

/// The number of channels in one DMX512 universe.
pub const CHANNEL_COUNT: usize = 512;

/// The universe that a payload stands for: its first 512 bytes, padded with
/// zeros where it is shorter.
pub open spec fn normalized(payload: Seq<u8>) -> Seq<u8> {
    Seq::new(CHANNEL_COUNT as nat, |i: int| if i < payload.len() { payload[i] } else { 0u8 })
}

/// The datagrams of one frame: for each channel in ascending order, the OSC
/// message of its value in the normalised universe.
pub open spec fn frame_datagrams(universe: Seq<char>, payload: Seq<u8>) -> Seq<Seq<u8>> {
    Seq::new(
        CHANNEL_COUNT as nat,
        |i: int| channel_message(universe, i as nat, normalized(payload)[i]),
    )
}

/// Turns a payload of any length into exactly 512 channel values: the first
/// 512 bytes are kept, and missing channels are zero.
pub fn normalize_frame(payload: &[u8]) -> (r: Vec<u8>)
    ensures
        r@ == normalized(payload@),
        r@.len() == CHANNEL_COUNT,
        forall|i: int| 0 <= i < CHANNEL_COUNT && i < payload@.len() ==> r@[i] == payload@[i],
        forall|i: int| payload@.len() <= i < CHANNEL_COUNT ==> r@[i] == 0,
{
    let mut r: Vec<u8> = Vec::with_capacity(CHANNEL_COUNT);
    let mut i: usize = 0;
    while i < CHANNEL_COUNT
        invariant
            i <= CHANNEL_COUNT,
            r@.len() == i,
            forall|j: int| 0 <= j < i ==> r@[j] == normalized(payload@)[j],
        decreases CHANNEL_COUNT - i,
    {
        if i < payload.len() {
            r.push(payload[i]);
        } else {
            r.push(0u8);
        }
        i = i + 1;
    }
    assert(r@ =~= normalized(payload@));
    r
}

/// Translates one binary frame into the datagrams to send, one per channel,
/// channel 1 first. A message that cannot be encoded is left out.
pub fn translate_frame(universe: &str, payload: &[u8]) -> (r: Vec<Vec<u8>>)
    ensures
        r@.len() == CHANNEL_COUNT,
        forall|i: int| 0 <= i < CHANNEL_COUNT ==> #[trigger] r@[i]@ == frame_datagrams(universe@, payload@)[i],
{
    let values = normalize_frame(payload);
    let mut r: Vec<Vec<u8>> = Vec::with_capacity(CHANNEL_COUNT);
    let mut i: usize = 0;
    while i < CHANNEL_COUNT
        invariant
            i <= CHANNEL_COUNT,
            values@ == normalized(payload@),
            r@.len() == i,
            forall|j: int| 0 <= j < i ==> #[trigger] r@[j]@ == frame_datagrams(universe@, payload@)[j],
        decreases CHANNEL_COUNT - i,
    {
        match encode_channel(universe, i, values[i]) {
            Ok(b) => r.push(b),
            Err(_) => {},
        }
        i = i + 1;
    }
    r
}

} // verus!
