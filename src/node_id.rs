//! Node identities: public keys carried as hex text by the node's RPC
//! interface and compared as raw bytes everywhere else.

use vstd::prelude::*;

verus! {

/// Value of one hexadecimal digit (either case), or -1 for any other char.
pub open spec fn hex_digit_value(c: char) -> int {
    if '0' <= c && c <= '9' {
        c as int - '0' as int
    } else if 'a' <= c && c <= 'f' {
        c as int - 'a' as int + 10
    } else if 'A' <= c && c <= 'F' {
        c as int - 'A' as int + 10
    } else {
        -1
    }
}

/// Text that decodes as hex: an even number of hexadecimal digits.
pub open spec fn is_hex_text(s: Seq<char>) -> bool {
    &&& s.len() % 2 == 0
    &&& forall|i: int| 0 <= i < s.len() ==> hex_digit_value(#[trigger] s[i]) >= 0
}

/// The bytes that hex text stands for: each pair of digits, high digit first.
pub open spec fn hex_bytes(s: Seq<char>) -> Seq<u8> {
    Seq::new(
        s.len() / 2,
        |i: int| (hex_digit_value(s[2 * i]) * 16 + hex_digit_value(s[2 * i + 1])) as u8,
    )
}

#[verifier::external_type_specification]
#[verifier::external_body]
pub struct ExFromHexError(hex::FromHexError);

/// Relies on hex::decode: it accepts exactly an even-length run of hex digits
/// (upper or lower case) and yields one byte per pair, high digit first.
#[verifier::external_body]
fn decode_hex(text: &str) -> (r: Result<Vec<u8>, hex::FromHexError>)
    ensures
        r is Ok <==> is_hex_text(text@),
        r is Ok ==> r->Ok_0@ == hex_bytes(text@),
{
    hex::decode(text)
}

/// Why a node identity could not be read.
#[derive(Clone, Copy, Debug, PartialEq, Eq, Structural)]
pub enum NodeIdError {
    /// The text is not an even-length run of hex digits.
    NotHex,
}

/// Reads a node identity from its hex text.
pub fn parse_node_id(text: &str) -> (r: Result<Vec<u8>, NodeIdError>)
    ensures
        r is Ok <==> is_hex_text(text@),
        r matches Ok(id) ==> id@ == hex_bytes(text@),
        r matches Err(e) ==> e == NodeIdError::NotHex,
{
    match decode_hex(text) {
        Ok(bytes) => Ok(bytes),
        Err(_) => Err(NodeIdError::NotHex),
    }
}

} // verus!
