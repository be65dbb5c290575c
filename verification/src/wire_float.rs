//! The trusted boundary where float text crosses to and from its
//! single-precision wire bits: the one computation no code of this crate
//! may perform itself, as float types are refused here. Both directions
//! are deterministic functions of their argument alone, named by the two
//! uninterpreted functions below.

use vstd::prelude::*;
use crate::text::is_float_text;

verus! {

/// The wire bits that float text parses to.
pub uninterp spec fn float_bits_of(s: Seq<char>) -> u32;

/// The decimal text that wire bits display as.
pub uninterp spec fn single_text_of(bits: u32) -> Seq<char>;

/// Relies on `str::parse::<f32>` and `f32::to_bits`: text in the documented
/// float grammar parses to a value, and only such text does; a text that a
/// float displays as parses back to a float that displays the same. The
/// parsed value is pinned to single precision by passing it through
/// `nrbf::Value::Single`, the wire's own float slot.
#[verifier::external_body]
pub(crate) fn single_bits_of_text(s: &str) -> (r: Option<u32>)
    ensures
        r is Some <==> is_float_text(s@),
        r is Some ==> r->0 == float_bits_of(s@),
        (exists|b: u32| s@ == single_text_of(b)) ==> r is Some && single_text_of(r->0) == s@,
{
    match s.parse() {
        Ok(v) => {
            if let nrbf::Value::Single(x) = nrbf::Value::Single(v) {
                Some(x.to_bits())
            } else {
                None
            }
        },
        Err(_) => None,
    }
}

/// Relies on `nrbf::RemotingMessage::parse` and the float display of the
/// standard library: the decimal text that wire bits display as. Display
/// text always lies in the float grammar and re-parses to a value that
/// displays the same. No float type may be named in this crate, so the
/// value is rebuilt by parsing a fixed self-built stream holding the bits
/// in the wire's own single-precision slot; on that fixed shape the parser
/// always returns.
#[verifier::external_body]
pub(crate) fn single_text_of_bits(bits: u32) -> (r: String)
    ensures
        r@ == single_text_of(bits),
        is_float_text(r@),
{
    let mut stream: Vec<u8> =
        b"\x00\x01\x00\x00\x00\xff\xff\xff\xff\x01\x00\x00\x00\x00\x00\x00\x00\x04\x01\x00\x00\x00\x0dSystem.Single\x01\x00\x00\x00\x07m_value\x00\x0b".to_vec();
    stream.extend_from_slice(&bits.to_le_bytes());
    stream.push(11);
    match nrbf::RemotingMessage::parse(&stream) {
        Ok(nrbf::RemotingMessage::Value(nrbf::Value::Object(o))) => match o.members.get("m_value") {
            Some(nrbf::Value::Single(x)) => x.to_string(),
            _ => String::new(),
        },
        _ => String::new(),
    }
}

} // verus!
