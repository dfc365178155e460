//! Control messages of the WebSocket multiplexer: parsing the client's
//! JSON requests and building the server's replies, byte for byte.

use vstd::prelude::*;
use vstd::string::StringExecFns;
use crate::codec::SessionId;
use crate::ids::{parse_session_id, parsed_uuid, uuid_hyphenated, format_session_id};
use crate::input::str_eq;

verus! {

/// Whether the text is well-formed JSON, as serde_json accepts it: the
/// result of the parse is a function of the text alone.
pub uninterp spec fn json_well_formed(text: Seq<char>) -> bool;

/// The diagnostic serde_json gives for text it refuses.
pub uninterp spec fn json_parse_error(text: Seq<char>) -> Seq<char>;

/// The `type` member of the parsed object, where it exists and is a
/// string.
pub uninterp spec fn control_type_field(text: Seq<char>) -> Option<Seq<char>>;

/// The `cols` member, where it exists and is an unsigned integer.
pub uninterp spec fn control_cols_field(text: Seq<char>) -> Option<u64>;

/// The `rows` member, where it exists and is an unsigned integer.
pub uninterp spec fn control_rows_field(text: Seq<char>) -> Option<u64>;

/// The `session_id` member, where it exists and is a string.
pub uninterp spec fn control_sid_field(text: Seq<char>) -> Option<Seq<char>>;

/// The raw fields a control message carries, before interpretation.
pub struct ControlFields {
    pub msg_type: Option<String>,
    pub cols: Option<u64>,
    pub rows: Option<u64>,
    pub session_id: Option<String>,
}

/// Relies on serde_json::from_str, Value::get, Value::as_str and
/// Value::as_u64: parsing either fails with serde's diagnostic or yields
/// the object's members; all of it depends on the text alone, which the
/// named results record. A member of the wrong JSON type reads as absent,
/// as the chained accessors make it.
#[verifier::external_body]
fn extract_control_fields(text: &str) -> (r: Result<ControlFields, String>)
    ensures
        r is Ok <==> json_well_formed(text@),
        r matches Err(e) ==> e@ == json_parse_error(text@),
        r matches Ok(f) ==> {
            &&& f.msg_type.deep_view() == control_type_field(text@)
            &&& f.cols == control_cols_field(text@)
            &&& f.rows == control_rows_field(text@)
            &&& f.session_id.deep_view() == control_sid_field(text@)
        },
{
    match serde_json::from_str::<serde_json::Value>(text) {
        Ok(v) => Ok(ControlFields {
            msg_type: v.get("type").and_then(|t| t.as_str()).map(|s| s.to_owned()),
            cols: v.get("cols").and_then(|c| c.as_u64()),
            rows: v.get("rows").and_then(|c| c.as_u64()),
            session_id: v.get("session_id").and_then(|t| t.as_str()).map(|s| s.to_owned()),
        }),
        Err(e) => Err(e.to_string()),
    }
}

/// One parsed control message of the wire protocol.
#[derive(Debug, Clone, Copy, PartialEq, Eq)]
pub enum ControlMsg {
    Create { cols: u16, rows: u16 },
    Resize { session_id: SessionId, cols: u16, rows: u16 },
    Attach { session_id: SessionId },
    Close { session_id: SessionId },
}

/// The error reply for a session id that names no live session.
pub open spec fn not_found_msg(id: Seq<u8>) -> Seq<char> {
    "Session "@ + uuid_hyphenated(id) + " not found"@
}

/// Build the session-not-found message for `id`.
pub fn session_not_found(id: &SessionId) -> (r: String)
    ensures
        r@ == not_found_msg(id@),
{
    let mut s = String::from_str("Session ");
    let mid = format_session_id(id);
    s.append(mid.as_str());
    s.append(" not found");
    s
}

/// The `created` reply for a fresh session.
pub open spec fn created_reply(id: Seq<u8>) -> Seq<char> {
    "{\"type\":\"created\",\"session_id\":\""@ + uuid_hyphenated(id) + "\"}"@
}

pub fn build_created_reply(id: &SessionId) -> (r: String)
    ensures
        r@ == created_reply(id@),
{
    let mut s = String::from_str("{\"type\":\"created\",\"session_id\":\"");
    let mid = format_session_id(id);
    s.append(mid.as_str());
    s.append("\"}");
    s
}

/// The `attached` reply after a reattach; the drained ring follows it as
/// one binary frame, before any live byte.
pub open spec fn attached_reply(id: Seq<u8>) -> Seq<char> {
    "{\"type\":\"attached\",\"session_id\":\""@ + uuid_hyphenated(id) + "\"}"@
}

pub fn build_attached_reply(id: &SessionId) -> (r: String)
    ensures
        r@ == attached_reply(id@),
{
    let mut s = String::from_str("{\"type\":\"attached\",\"session_id\":\"");
    let mid = format_session_id(id);
    s.append(mid.as_str());
    s.append("\"}");
    s
}

/// The error reply carrying `msg`. (Messages built by this crate contain
/// no characters that need JSON escaping.)
pub open spec fn error_reply(msg: Seq<char>) -> Seq<char> {
    "{\"type\":\"error\",\"message\":\""@ + msg + "\"}"@
}

pub fn build_error_reply(msg: &str) -> (r: String)
    ensures
        r@ == error_reply(msg@),
{
    let mut s = String::from_str("{\"type\":\"error\",\"message\":\"");
    s.append(msg);
    s.append("\"}");
    s
}

/// The message for an unknown `type` field.
pub open spec fn unknown_type_msg(t: Seq<char>) -> Seq<char> {
    "Unknown message type: "@ + t
}

/// What the raw extracted fields of a control message mean. `cols` and
/// `rows` fall back to 80x24 when absent, and arrive reduced to 16 bits
/// as the wire format requires.
pub open spec fn spec_interpret(
    msg_type: Seq<char>,
    sid: Option<SessionId>,
    sid_present: bool,
    cols: u16,
    rows: u16,
) -> Result<ControlMsg, Seq<char>> {
    if msg_type == "create"@ {
        Ok(ControlMsg::Create { cols, rows })
    } else if msg_type == "resize"@ || msg_type == "attach"@ || msg_type == "close"@ {
        if !sid_present {
            Err("Missing session_id"@)
        } else {
            match sid {
                None => Err("Invalid session_id"@),
                Some(id) => if msg_type == "resize"@ {
                    Ok(ControlMsg::Resize { session_id: id, cols, rows })
                } else if msg_type == "attach"@ {
                    Ok(ControlMsg::Attach { session_id: id })
                } else {
                    Ok(ControlMsg::Close { session_id: id })
                },
            }
        }
    } else {
        Err(unknown_type_msg(msg_type))
    }
}

/// Interpret the fields extracted from a control message. This is the
/// whole meaning of the control protocol once the JSON shell is off:
/// exactly the four known types are accepted, and a session-keyed
/// request without a valid id is refused.
pub fn interpret_control(
    msg_type: &str,
    sid: Option<SessionId>,
    sid_present: bool,
    cols: u16,
    rows: u16,
) -> (r: Result<ControlMsg, String>)
    ensures
        match (r, spec_interpret(msg_type@, sid, sid_present, cols, rows)) {
            (Ok(m1), Ok(m2)) => m1 == m2,
            (Err(e1), Err(e2)) => e1@ == e2,
            _ => false,
        },
{
    if str_eq(msg_type, "create") {
        return Ok(ControlMsg::Create { cols, rows });
    }
    if str_eq(msg_type, "resize") || str_eq(msg_type, "attach") || str_eq(msg_type, "close") {
        if !sid_present {
            return Err(String::from_str("Missing session_id"));
        }
        let id = match sid {
            None => {
                return Err(String::from_str("Invalid session_id"));
            },
            Some(id) => id,
        };
        if str_eq(msg_type, "resize") {
            return Ok(ControlMsg::Resize { session_id: id, cols, rows });
        }
        if str_eq(msg_type, "attach") {
            return Ok(ControlMsg::Attach { session_id: id });
        }
        return Ok(ControlMsg::Close { session_id: id });
    }
    let mut e = String::from_str("Unknown message type: ");
    e.append(msg_type);
    Err(e)
}

/// The error reply for text that is not JSON at all.
pub open spec fn invalid_json_msg(detail: Seq<char>) -> Seq<char> {
    "Invalid JSON: "@ + detail
}

/// A wire dimension field: reduced to 16 bits, with `d` for an absent or
/// non-numeric member.
pub open spec fn dim_or(v: Option<u64>, d: u16) -> u16 {
    match v {
        Some(n) => (n % 65536) as u16,
        None => d,
    }
}

/// What parsing one line of wire text yields: text that is not JSON is
/// refused with serde's diagnostic; an object without a string `type` is
/// refused; otherwise the extracted fields mean what `spec_interpret`
/// says, with `cols` and `rows` defaulting to 80x24.
pub open spec fn spec_parse_control(text: Seq<char>) -> Result<ControlMsg, Seq<char>> {
    if !json_well_formed(text) {
        Err(invalid_json_msg(json_parse_error(text)))
    } else {
        match control_type_field(text) {
            None => Err("Missing 'type' field"@),
            Some(t) => {
                let cols = dim_or(control_cols_field(text), 80);
                let rows = dim_or(control_rows_field(text), 24);
                let (sid, sid_present) = match control_sid_field(text) {
                    Some(sid_text) => (parsed_uuid(sid_text), true),
                    None => (None, false),
                };
                spec_interpret(t, sid, sid_present, cols, rows)
            },
        }
    }
}

/// Parse one JSON control message.
pub fn parse_control(text: &str) -> (r: Result<ControlMsg, String>)
    ensures
        match (r, spec_parse_control(text@)) {
            (Ok(m1), Ok(m2)) => m1 == m2,
            (Err(e1), Err(e2)) => e1@ == e2,
            _ => false,
        },
{
    let fields = match extract_control_fields(text) {
        Ok(f) => f,
        Err(e) => {
            let mut m = String::from_str("Invalid JSON: ");
            m.append(e.as_str());
            return Err(m);
        },
    };
    let msg_type = match fields.msg_type {
        Some(s) => s,
        None => {
            return Err(String::from_str("Missing 'type' field"));
        },
    };
    let cols: u16 = match fields.cols {
        Some(n) => (n % 65536) as u16,
        None => 80,
    };
    let rows: u16 = match fields.rows {
        Some(n) => (n % 65536) as u16,
        None => 24,
    };
    let (sid, sid_present) = match fields.session_id {
        Some(s) => (parse_session_id(s.as_str()), true),
        None => (None, false),
    };
    interpret_control(msg_type.as_str(), sid, sid_present, cols, rows)
}

} // verus!
