use vstd::prelude::*;
use vstd::string::StringExecFns;
use vstd::utf8::encode_utf8;
use crate::decimal::{decimal_digits, push_decimal};
use crate::frame::CHANNEL_COUNT;

verus! {

#[verifier::external_type_specification]
#[verifier::external_body]
pub struct ExOscError(rosc::OscError);

/// A string in OSC wire form: its bytes, then one to four NUL bytes so that
/// the length is a multiple of four.
pub open spec fn osc_string(b: Seq<u8>) -> Seq<u8> {
    b + Seq::new((4 - b.len() % 4) as nat, |_i: int| 0u8)
}

/// The four big-endian bytes of `v`, as OSC writes an `int32` argument.
pub open spec fn be_bytes(v: i32) -> Seq<u8> {
    let w = v as u32 as nat;
    seq![
        (w / 0x100_0000 % 0x100) as u8,
        (w / 0x1_0000 % 0x100) as u8,
        (w / 0x100 % 0x100) as u8,
        (w % 0x100) as u8,
    ]
}

/// The OSC message with address bytes `addr` and the single `int32`
/// argument `v`: the address string, the type tags `,i`, the argument.
pub open spec fn osc_int_message(addr: Seq<u8>, v: i32) -> Seq<u8> {
    osc_string(addr) + osc_string(seq![0x2cu8, 0x69u8]) + be_bytes(v)
}

/// The address of channel `index` (0-based) of universe `universe`:
/// `/<universe>/<index + 1>`.
pub open spec fn channel_address(universe: Seq<char>, index: nat) -> Seq<char> {
    seq!['/'] + universe + seq!['/'] + decimal_digits(index + 1)
}

/// The datagram that carries value `value` of channel `index`.
pub open spec fn channel_message(universe: Seq<char>, index: nat, value: u8) -> Seq<u8> {
    osc_int_message(encode_utf8(channel_address(universe, index)), value as i32)
}

/// A message that the OSC encoder could not encode.
#[derive(Debug, Clone, Copy, PartialEq, Eq, Structural)]
pub struct EncodeError;

/// Relies on `rosc::encoder::encode`: for a message packet it writes the
/// address as an OSC string, then the type tags `,i` as an OSC string, then
/// the `Int` argument as four big-endian bytes; writing into a `Vec` cannot
/// fail, so the result is always `Ok`.
#[verifier::external_body]
fn encode_int_message(addr: String, value: i32) -> (r: Result<Vec<u8>, rosc::OscError>)
    ensures
        r is Ok,
        r matches Ok(b) ==> b@ == osc_int_message(encode_utf8(addr@), value),
{
    let packet = rosc::OscPacket::Message(
        rosc::OscMessage { addr, args: vec![rosc::OscType::Int(value)] },
    );
    rosc::encoder::encode(&packet)
}

/// Builds the OSC address `/<universe>/<index + 1>` of channel `index`.
pub fn channel_address_string(universe: &str, index: usize) -> (r: String)
    requires
        index < CHANNEL_COUNT,
    ensures
        r@ == channel_address(universe@, index as nat),
{
    proof {
        reveal_strlit("/");
    }
    let mut s = String::new();
    s.append("/");
    s.append(universe);
    s.append("/");
    push_decimal(&mut s, index as u64 + 1);
    assert(s@ =~= channel_address(universe@, index as nat));
    s
}

/// Encodes value `value` of channel `index` (0-based) as one OSC message
/// with address `/<universe>/<index + 1>` and one integer argument.
pub fn encode_channel(universe: &str, index: usize, value: u8) -> (r: Result<Vec<u8>, EncodeError>)
    requires
        index < CHANNEL_COUNT,
    ensures
        r is Ok,
        r matches Ok(b) ==> b@ == channel_message(universe@, index as nat, value),
{
    let addr = channel_address_string(universe, index);
    match encode_int_message(addr, value as i32) {
        Ok(b) => Ok(b),
        Err(_) => Err(EncodeError),
    }
}

} // verus!
