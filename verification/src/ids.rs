//! Session identifiers: 16 random bytes minted as a version-4 UUID, shown
//! and parsed in the hyphenated form the wire protocol uses.

use vstd::prelude::*;
use crate::codec::SessionId;

verus! {

/// The lowercase hex digit for `n < 16`.
pub open spec fn hex_digit(n: u8) -> char {
    if n < 10 {
        (n + 48) as char
    } else {
        (n + 87) as char
    }
}

/// Two lowercase hex digits of one byte.
pub open spec fn byte_hex(x: u8) -> Seq<char> {
    seq![hex_digit(x / 16), hex_digit(x % 16)]
}

/// The canonical hyphenated form of a 16-byte id: lowercase hex in
/// 8-4-4-4-12 groups.
pub open spec fn uuid_hyphenated(b: Seq<u8>) -> Seq<char> {
    byte_hex(b[0]) + byte_hex(b[1]) + byte_hex(b[2]) + byte_hex(b[3]) + seq!['-'] + byte_hex(b[4])
        + byte_hex(b[5]) + seq!['-'] + byte_hex(b[6]) + byte_hex(b[7]) + seq!['-'] + byte_hex(b[8])
        + byte_hex(b[9]) + seq!['-'] + byte_hex(b[10]) + byte_hex(b[11]) + byte_hex(b[12])
        + byte_hex(b[13]) + byte_hex(b[14]) + byte_hex(b[15])
}

/// Relies on uuid::Uuid::new_v4: a freshly drawn random identifier. Being
/// random, nothing is promised of the bytes.
#[verifier::external_body]
pub fn new_session_id() -> (r: SessionId) {
    *uuid::Uuid::new_v4().as_bytes()
}

/// Relies on uuid::Uuid::from_bytes and its Display impl: the string is
/// the lowercase hyphenated form of exactly these bytes.
#[verifier::external_body]
pub fn format_session_id(id: &SessionId) -> (r: String)
    ensures
        r@ == uuid_hyphenated(id@),
{
    uuid::Uuid::from_bytes(*id).to_string()
}

/// The bytes uuid parsing makes of a string, where it accepts one: a
/// function of the string alone.
pub uninterp spec fn parsed_uuid(s: Seq<char>) -> Option<SessionId>;

/// Relies on uuid::Uuid::parse_str: acceptance and result are functions
/// of the string alone, and the canonical hyphenated form of any byte
/// array parses back to those bytes. (Other accepted spellings, such as
/// uppercase or braced ones, also succeed; nothing more is claimed of
/// them.)
#[verifier::external_body]
pub fn parse_session_id(s: &str) -> (r: Option<SessionId>)
    ensures
        r == parsed_uuid(s@),
        forall|b: SessionId| s@ == uuid_hyphenated(b@) ==> r == Some(b),
{
    match uuid::Uuid::parse_str(s) {
        Ok(u) => Some(*u.as_bytes()),
        Err(_) => None,
    }
}

} // verus!
