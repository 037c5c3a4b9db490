use vstd::prelude::*;
use vstd::utf8::encode_utf8;
use crate::connection::{emitted, next_state, run, state_after, ConnectionState, IncomingView};
use crate::decimal::{decimal_digits, lemma_decimal_injective};
use crate::frame::{frame_datagrams, normalized, CHANNEL_COUNT};
use crate::osc::{be_bytes, channel_address, channel_message, osc_int_message, osc_string};

verus! {

/// The integer that the last four bytes of `b` hold, read big-endian as an
/// unsigned number.
pub open spec fn trailing_int(b: Seq<u8>) -> int {
    let n = b.len() as int;
    b[n - 4] * 0x100_0000 + b[n - 3] * 0x1_0000 + b[n - 2] * 0x100 + b[n - 1]
}

/// A normalised frame always has 512 channels: all zero for an empty
/// payload, the payload itself when it has exactly 512 bytes, its first 512
/// bytes when it is longer, and the payload followed by zeros when it is
/// shorter.
pub proof fn lemma_normalized_shape(payload: Seq<u8>)
    ensures
        normalized(payload).len() == CHANNEL_COUNT,
        payload.len() == 0 ==> normalized(payload) == Seq::new(CHANNEL_COUNT as nat, |_i: int| 0u8),
        payload.len() == CHANNEL_COUNT ==> normalized(payload) == payload,
        payload.len() >= CHANNEL_COUNT ==> normalized(payload) == payload.subrange(0, CHANNEL_COUNT as int),
        payload.len() < CHANNEL_COUNT ==> normalized(payload) == payload + Seq::new(
            (CHANNEL_COUNT - payload.len()) as nat,
            |_i: int| 0u8,
        ),
{
    if payload.len() == 0 {
        assert(normalized(payload) =~= Seq::new(CHANNEL_COUNT as nat, |_i: int| 0u8));
    }
    if payload.len() == CHANNEL_COUNT {
        assert(normalized(payload) =~= payload);
    }
    if payload.len() >= CHANNEL_COUNT {
        assert(normalized(payload) =~= payload.subrange(0, CHANNEL_COUNT as int));
    }
    if payload.len() < CHANNEL_COUNT {
        assert(normalized(payload) =~= payload + Seq::new(
            (CHANNEL_COUNT - payload.len()) as nat,
            |_i: int| 0u8,
        ));
    }
}

/// The message of a channel decodes to what went in: it starts with the
/// channel's address as an OSC string, carries the type tags `,i`, and its
/// one integer argument is the channel's value.
pub proof fn lemma_message_round_trip(universe: Seq<char>, index: nat, value: u8)
    ensures
        channel_message(universe, index, value) == osc_string(
            encode_utf8(channel_address(universe, index)),
        ) + osc_string(seq![0x2cu8, 0x69u8]) + seq![0u8, 0u8, 0u8, value],
        trailing_int(channel_message(universe, index, value)) == value as int,
{
    let w = value as i32 as u32 as nat;
    assert(w == value as nat);
    assert(w / 0x100_0000 % 0x100 == 0);
    assert(w / 0x1_0000 % 0x100 == 0);
    assert(w / 0x100 % 0x100 == 0);
    assert(be_bytes(value as i32) =~= seq![0u8, 0u8, 0u8, value]);
    let m = channel_message(universe, index, value);
    let n = m.len() as int;
    assert(m.subrange(n - 4, n) =~= seq![0u8, 0u8, 0u8, value]);
    assert(m[n - 4] == 0u8 && m[n - 3] == 0u8 && m[n - 2] == 0u8 && m[n - 1] == value) by {
        assert(m[n - 4] == m.subrange(n - 4, n)[0]);
        assert(m[n - 3] == m.subrange(n - 4, n)[1]);
        assert(m[n - 2] == m.subrange(n - 4, n)[2]);
        assert(m[n - 1] == m.subrange(n - 4, n)[3]);
    }
}

/// The datagrams of a frame carry the addresses `/<universe>/1` to
/// `/<universe>/512` in that order, each channel once, each with its value.
pub proof fn lemma_channel_order(universe: Seq<char>, payload: Seq<u8>)
    ensures
        frame_datagrams(universe, payload).len() == CHANNEL_COUNT,
        forall|i: int|
            0 <= i < CHANNEL_COUNT ==> #[trigger] frame_datagrams(universe, payload)[i]
                == osc_int_message(
                encode_utf8(channel_address(universe, i as nat)),
                normalized(payload)[i] as i32,
            ),
        forall|i: int, j: int|
            0 <= i < CHANNEL_COUNT && 0 <= j < CHANNEL_COUNT && i != j ==> #[trigger] channel_address(
                universe,
                i as nat,
            ) != #[trigger] channel_address(universe, j as nat),
{
    assert forall|i: int, j: int|
        0 <= i < CHANNEL_COUNT && 0 <= j < CHANNEL_COUNT && i != j implies #[trigger] channel_address(
        universe,
        i as nat,
    ) != #[trigger] channel_address(universe, j as nat) by {
        let a = channel_address(universe, i as nat);
        let b = channel_address(universe, j as nat);
        let k = universe.len() as int + 2;
        if a == b {
            assert(a.skip(k) =~= decimal_digits((i + 1) as nat));
            assert(b.skip(k) =~= decimal_digits((j + 1) as nat));
            lemma_decimal_injective((i + 1) as nat, (j + 1) as nat);
        }
    }
}

/// Frames are independent: after any frame `a`, the datagrams of frame `b`
/// are those of `b` alone, so a frame of zeros sends value 0 on channel 1.
pub proof fn lemma_frames_independent(universe: Seq<char>, a: Seq<u8>, b: Seq<u8>)
    ensures
        run(
            ConnectionState::Reading,
            universe,
            seq![IncomingView::Binary(a), IncomingView::Binary(b)],
        ) == frame_datagrams(universe, a) + frame_datagrams(universe, b),
        run(
            ConnectionState::Reading,
            universe,
            seq![IncomingView::Binary(a), IncomingView::Binary(b)],
        ).subrange(CHANNEL_COUNT as int, 2 * CHANNEL_COUNT as int) == frame_datagrams(universe, b),
        (forall|i: int| 0 <= i < b.len() ==> b[i] == 0) ==> run(
            ConnectionState::Reading,
            universe,
            seq![IncomingView::Binary(a), IncomingView::Binary(b)],
        )[CHANNEL_COUNT as int] == channel_message(universe, 0, 0),
{
    let ms = seq![IncomingView::Binary(a), IncomingView::Binary(b)];
    let s = ConnectionState::Reading;
    assert(ms.drop_first() =~= seq![IncomingView::Binary(b)]);
    assert(ms.drop_first().drop_first() =~= Seq::<IncomingView>::empty());
    let rest = seq![IncomingView::Binary(b)];
    assert(ms[0] == IncomingView::Binary(a));
    assert(rest[0] == IncomingView::Binary(b));
    assert(rest.drop_first() =~= Seq::<IncomingView>::empty());
    assert(run(s, universe, rest) == frame_datagrams(universe, b) + run(
        s,
        universe,
        rest.drop_first(),
    ));
    assert(run(s, universe, rest) =~= frame_datagrams(universe, b));
    assert(run(s, universe, ms) == frame_datagrams(universe, a) + run(s, universe, ms.drop_first()));
    let r = run(s, universe, ms);
    assert(r =~= frame_datagrams(universe, a) + frame_datagrams(universe, b));
    assert(r.subrange(CHANNEL_COUNT as int, 2 * CHANNEL_COUNT as int) =~= frame_datagrams(universe, b));
    assert(r[CHANNEL_COUNT as int] == frame_datagrams(universe, b)[0]);
}

/// A frame that is not binary sends nothing and changes nothing: wherever
/// it stands in a stream, the stream without it sends the same datagrams and
/// ends in the same state.
pub proof fn lemma_non_binary_is_noop(
    s: ConnectionState,
    universe: Seq<char>,
    before: Seq<IncomingView>,
    after: Seq<IncomingView>,
)
    ensures
        run(s, universe, before + seq![IncomingView::NonBinary] + after) == run(
            s,
            universe,
            before + after,
        ),
        state_after(s, before + seq![IncomingView::NonBinary] + after) == state_after(
            s,
            before + after,
        ),
    decreases before.len(),
{
    let with = before + seq![IncomingView::NonBinary] + after;
    let without = before + after;
    if before.len() == 0 {
        assert(with.drop_first() =~= after);
        assert(without =~= after);
        assert(emitted(s, universe, IncomingView::NonBinary) =~= Seq::<Seq<u8>>::empty());
        if s == ConnectionState::Closed {
            lemma_closed_is_silent(universe, after);
        }
        assert(run(s, universe, with) =~= run(s, universe, without));
    } else {
        let t = next_state(s, before[0]);
        assert(with.drop_first() =~= before.drop_first() + seq![IncomingView::NonBinary] + after);
        assert(without.drop_first() =~= before.drop_first() + after);
        assert(with[0] == before[0] && without[0] == before[0]);
        lemma_non_binary_is_noop(t, universe, before.drop_first(), after);
    }
}

/// A closed connection sends nothing more and stays closed.
pub proof fn lemma_closed_is_silent(universe: Seq<char>, ms: Seq<IncomingView>)
    ensures
        run(ConnectionState::Closed, universe, ms) == Seq::<Seq<u8>>::empty(),
        state_after(ConnectionState::Closed, ms) == ConnectionState::Closed,
    decreases ms.len(),
{
    if ms.len() > 0 {
        lemma_closed_is_silent(universe, ms.drop_first());
        assert(run(ConnectionState::Closed, universe, ms) =~= Seq::<Seq<u8>>::empty());
    }
}

} // verus!
