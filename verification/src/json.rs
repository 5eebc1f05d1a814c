//! The boundary to `serde_json`.
//!
//! Parsing JSON and looking into a parsed value are `serde_json`'s work. This
//! module declares its value type, gives names to what its parser and its
//! accessors return, and holds the few unverified items through which the
//! calls are made. Everything the rest of the crate proves about JSON rests
//! on the contracts stated here and on nothing else.

use vstd::prelude::*;
use crate::position::offset_of;

verus! {

/// `serde_json::Value`, a parsed JSON value. Nothing inside it is visible
/// here; what it holds is read through the accessors below.
#[verifier::external_type_specification]
#[verifier::external_body]
pub struct ExValue(serde_json::Value);

/// What the parser finds at the front of a byte buffer.
pub enum Scan {
    /// Nothing but JSON whitespace, or nothing at all.
    Blank,
    /// One complete value. `end` counts the bytes up to and including the
    /// last byte of the value, leading whitespace included.
    Value { value: serde_json::Value, end: usize },
    /// The buffer ends inside a value.
    Truncated,
    /// The bytes are not JSON. The parser reports the fault at this one-based
    /// line and at this many bytes into the line. The offset so named is one
    /// past the byte at which the parser gave up, whether it took that byte
    /// or only looked at it. (Two faults are named otherwise: a number out of
    /// range one past its last digit, and a string that is not UTF-8 at an
    /// offset inside the string.)
    Malformed { line: usize, column: usize },
}

/// The outcome of reading one value from the front of `bytes` with the stream
/// deserializer of `serde_json`.
pub uninterp spec fn json_scan(bytes: Seq<u8>) -> Scan;

/// The member of the JSON object `v` under `key`: `None` where `v` is no
/// object or has no such member.
pub uninterp spec fn json_member(v: serde_json::Value, key: Seq<char>) -> Option<serde_json::Value>;

/// The JSON number `v` as the bit pattern of a binary64: `None` where `v` is
/// no number.
pub uninterp spec fn json_number(v: serde_json::Value) -> Option<u64>;

/// The JSON number `v` as an unsigned integer: `None` where `v` is no number,
/// is negative, was written with a fraction or an exponent, or is too large
/// for 64 bits.
pub uninterp spec fn json_unsigned(v: serde_json::Value) -> Option<u64>;

/// The JSON boolean `v`: `None` where `v` is anything else.
pub uninterp spec fn json_bool(v: serde_json::Value) -> Option<bool>;

/// Whether `v` is a JSON object.
pub uninterp spec fn json_is_object(v: serde_json::Value) -> bool;

/// Whether `byte` is one of the three bytes that close a value which marks
/// its own end: a quote, a closing bracket or a closing brace.
pub open spec fn closes_value(byte: u8) -> bool {
    byte == 0x22 || byte == 0x5d || byte == 0x7d
}

/// The outcome of scanning `buf` is settled when no bytes that may follow
/// `buf` can change it.
pub open spec fn settled(buf: Seq<u8>) -> bool {
    forall|more: Seq<u8>| #[trigger] json_scan(buf + more) == json_scan(buf)
}

/// The outcomes that the parser reached without running into the end of
/// `buf`:
/// a value that either stops short of the end or is closed by its own last
/// byte, and a fault reported at a position short of the end.
pub open spec fn conclusive(buf: Seq<u8>, scan: Scan) -> bool {
    match scan {
        Scan::Value { end, .. } => 0 < end <= buf.len() && (end < buf.len() || closes_value(
            buf[end - 1],
        )),
        Scan::Malformed { line, column } => match offset_of(buf, line as nat, column as nat) {
            Some(at) => at < buf.len(),
            None => false,
        },
        _ => false,
    }
}

/// Reads one value from the front of `buf`.
///
/// Calls `serde_json::Deserializer::from_slice(buf).into_iter::<Value>()`,
/// takes the first item with `next`, and reads `byte_offset` after a value
/// and `is_eof`, `line` and `column` of an error.
///
/// Not proved, on the authority of the parser's source:
/// - the outcome depends on the bytes alone, so it has a name;
/// - the parser works through `buf` front to back, and what it makes of the
///   bytes up to the one at which it stops does not depend on what follows
///   them. An outcome that it reached without coming to the end of `buf` is
///   therefore the outcome for every buffer that begins with `buf`. A value
///   that stops short of the end, or whose last byte is its own closing
///   quote, bracket or brace, is such an outcome. So is a fault reported at a
///   position short of the end: the offset named is one past the byte at
///   which the parser gave up (for a number out of range, one past the last
///   digit that it took) or, for a string that is not UTF-8, an offset
///   inside the string, named once the closing quote has been read.
#[verifier::external_body]
pub(crate) fn scan_prefix(buf: &[u8]) -> (r: Scan)
    ensures
        r == json_scan(buf@),
        conclusive(buf@, r) ==> settled(buf@),
{
    let mut stream = serde_json::Deserializer::from_slice(buf).into_iter::<serde_json::Value>();
    match stream.next() {
        None => Scan::Blank,
        Some(Ok(value)) => Scan::Value { value, end: stream.byte_offset() },
        Some(Err(e)) => if e.is_eof() {
            Scan::Truncated
        } else {
            Scan::Malformed { line: e.line(), column: e.column() }
        },
    }
}

/// Looks up a member of a JSON object by calling `serde_json::Value::get`
/// with a string key, which answers `None` for a value that is no object and
/// for an object without that key.
#[verifier::external_body]
pub(crate) fn member<'a>(v: &'a serde_json::Value, key: &str) -> (r: Option<&'a serde_json::Value>)
    ensures
        match r {
            Some(x) => json_member(*v, key@) == Some(*x),
            None => json_member(*v, key@).is_none(),
        },
{
    v.get(key)
}

/// Reads a JSON number by calling `serde_json::Value::as_f64`, which answers
/// `None` for a value that is no number and converts an integer to the
/// nearest binary64. The number is handed on as its bit pattern.
#[verifier::external_body]
pub(crate) fn number_bits(v: &serde_json::Value) -> (r: Option<u64>)
    ensures
        r == json_number(*v),
{
    match v.as_f64() {
        Some(x) => Some(x.to_bits()),
        None => None,
    }
}

/// `serde_json::Value::as_u64` answers with the integer for a number that was
/// written as a non-negative integer and fits in 64 bits, and with `None` for
/// every other value.
pub assume_specification[ serde_json::Value::as_u64 ](v: &serde_json::Value) -> (r: Option<u64>)
    ensures
        r == json_unsigned(*v),
;

/// `serde_json::Value::as_bool` answers with the boolean for `true` and
/// `false`, and with `None` for every other value.
pub assume_specification[ serde_json::Value::as_bool ](v: &serde_json::Value) -> (r: Option<bool>)
    ensures
        r == json_bool(*v),
;

/// `serde_json::Value::is_object` tells whether the value is an object.
pub assume_specification[ serde_json::Value::is_object ](v: &serde_json::Value) -> (r: bool)
    ensures
        r == json_is_object(*v),
;

} // verus!
