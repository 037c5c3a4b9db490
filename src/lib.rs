//! A bridge from DMX512 frames to OSC messages.
//!
//! Each binary frame is normalised to one 512-channel universe, and every
//! channel becomes one OSC message `/<universe>/<channel>` with a single
//! integer argument, ready to be sent as one UDP datagram.

mod connection;
mod decimal;
mod frame;
mod lemmas;
mod osc;

pub use connection::{
    emitted, next_state, run, state_after, Connection, ConnectionState, Incoming, IncomingView,
    Step,
};
pub use decimal::{decimal_digits, digit_char, lemma_decimal_injective, push_decimal};
pub use frame::{
    frame_datagrams, normalize_frame, normalized, translate_frame, CHANNEL_COUNT,
};
pub use lemmas::{
    lemma_channel_order, lemma_closed_is_silent, lemma_frames_independent, lemma_message_round_trip,
    lemma_non_binary_is_noop, lemma_normalized_shape, trailing_int,
};
pub use osc::{
    be_bytes, channel_address, channel_address_string, channel_message, encode_channel,
    osc_int_message, osc_string, EncodeError,
};
