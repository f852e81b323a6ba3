//! Decoding of the textual artefacts that management surfaces hand over:
//! hex-encoded enrollment tickets, and textual flow identifiers.

use vstd::prelude::*;
use crate::registry::FlowControlId;

verus! {

/// One of `0..9`, `a..f`, `A..F`.
pub open spec fn is_hex_digit(c: u8) -> bool {
    (48 <= c <= 57) || (97 <= c <= 102) || (65 <= c <= 70)
}

/// The value of one hex digit.
pub open spec fn hex_val(c: u8) -> int {
    if 48 <= c <= 57 {
        c - 48
    } else if 97 <= c <= 102 {
        c - 97 + 10
    } else if 65 <= c <= 70 {
        c - 65 + 10
    } else {
        0
    }
}

/// Well-formed hex text: an even number of hex digits.
pub open spec fn valid_hex(s: Seq<u8>) -> bool {
    s.len() % 2 == 0 && forall|i: int| 0 <= i < s.len() ==> is_hex_digit(#[trigger] s[i])
}

/// The bytes hex text stands for: one byte per digit pair, high nibble
/// first.
pub open spec fn hex_decoded(s: Seq<u8>) -> Seq<u8>
    decreases s.len(),
{
    if s.len() < 2 {
        Seq::empty()
    } else {
        seq![(hex_val(s[0]) * 16 + hex_val(s[1])) as u8] + hex_decoded(s.subrange(2, s.len() as int))
    }
}

/// The errors of ticket handling.
#[derive(Clone, Copy, PartialEq, Eq, Structural, Debug)]
pub enum TicketError {
    /// The ticket was not well-formed hex text.
    DecodeFailed,
}

/// Relies on hex::decode: fails exactly on input of odd length or with a
/// character outside `0..9`, `a..f`, `A..F`, and otherwise returns one
/// byte per digit pair, high nibble first.
#[verifier::external_body]
fn hex_decode(input: &Vec<u8>) -> (r: Option<Vec<u8>>)
    ensures
        r is Some <==> valid_hex(input@),
        r matches Some(b) ==> b@ == hex_decoded(input@),
{
    match hex::decode(input.as_slice()) {
        Ok(b) => Some(b),
        Err(_) => None,
    }
}

/// An enrollment ticket arrives hex-encoded; this recovers the payload
/// (a JSON document) that the encoding wraps. Fails exactly on input that
/// is not well-formed hex.
pub fn decode_enrollment_ticket(hex_input: &Vec<u8>) -> (r: Result<Vec<u8>, TicketError>)
    ensures
        r is Ok <==> valid_hex(hex_input@),
        r matches Ok(b) ==> b@ == hex_decoded(hex_input@),
        r is Err ==> r == Err::<Vec<u8>, TicketError>(TicketError::DecodeFailed),
{
    match hex_decode(hex_input) {
        Some(b) => Ok(b),
        None => Err(TicketError::DecodeFailed),
    }
}

/// The identifier eight bytes stand for, big-endian.
pub open spec fn id_of_bytes(b: Seq<u8>) -> u64
    recommends
        b.len() == 8,
{
    (b[0] * 0x100_0000_0000_0000 + b[1] * 0x1_0000_0000_0000 + b[2] * 0x100_0000_0000 + b[3]
        * 0x1_0000_0000 + b[4] * 0x100_0000 + b[5] * 0x1_0000 + b[6] * 0x100 + b[7]) as u64
}

/// A flow identifier written as text: exactly sixteen hex digits, the
/// big-endian image of its value. Anything else is rejected.
pub fn parse_flow_id(text: &Vec<u8>) -> (r: Option<FlowControlId>)
    ensures
        r is Some <==> (valid_hex(text@) && hex_decoded(text@).len() == 8),
        r matches Some(id) ==> id@ == id_of_bytes(hex_decoded(text@)),
{
    let bytes = match hex_decode(text) {
        Some(b) => b,
        None => {
            return None;
        },
    };
    if bytes.len() != 8 {
        return None;
    }
    let v: u64 = (bytes[0] as u64) * 0x100_0000_0000_0000 + (bytes[1] as u64) * 0x1_0000_0000_0000
        + (bytes[2] as u64) * 0x100_0000_0000 + (bytes[3] as u64) * 0x1_0000_0000 + (
    bytes[4] as u64) * 0x100_0000 + (bytes[5] as u64) * 0x1_0000 + (bytes[6] as u64) * 0x100 + (
    bytes[7] as u64);
    Some(FlowControlId::new(v))
}

} // verus!
