//! Text encoding support for the protocol: UTF-16LE serialization of
//! identity strings (specified here and proved against the standard
//! library's encoder), Unicode upper-casing, and UTF-8 decoding of
//! identity bytes extracted from wire messages.

use vstd::prelude::*;

verus! {

use vstd::bytes::spec_u16_to_le_bytes;
use vstd::string::StrSliceExecFns;
use vstd::utf8::{decode_utf8, valid_utf8};

/// The UTF-16 code units of a single character: one unit for a scalar value
/// below 0x10000, else a surrogate pair.
pub open spec fn utf16_units_of_char(c: char) -> Seq<u16> {
    let v = c as u32;
    if v < 0x10000 {
        seq![v as u16]
    } else {
        seq![
            (0xD800 + (v - 0x10000) / 0x400) as u16,
            (0xDC00 + (v - 0x10000) % 0x400) as u16,
        ]
    }
}

/// The UTF-16 code units of a character sequence.
pub open spec fn utf16_units(chars: Seq<char>) -> Seq<u16>
    decreases chars.len(),
{
    if chars.len() == 0 {
        seq![]
    } else {
        utf16_units_of_char(chars[0]) + utf16_units(chars.drop_first())
    }
}

/// Each 16-bit code unit serialized as 2 raw bytes, little-endian.
pub open spec fn utf16_le_bytes(units: Seq<u16>) -> Seq<u8>
    decreases units.len(),
{
    if units.len() == 0 {
        seq![]
    } else {
        spec_u16_to_le_bytes(units[0]) + utf16_le_bytes(units.drop_first())
    }
}

proof fn lemma_utf16_le_bytes_push(units: Seq<u16>, x: u16)
    ensures
        utf16_le_bytes(units.push(x)) == utf16_le_bytes(units) + spec_u16_to_le_bytes(x),
    decreases units.len(),
{
    if units.len() == 0 {
        assert(utf16_le_bytes(Seq::<u16>::empty()) == Seq::<u8>::empty());
        assert(units.push(x)[0] == x);
        assert(units.push(x).drop_first() =~= Seq::<u16>::empty());
        assert(utf16_le_bytes(units.push(x)) == spec_u16_to_le_bytes(x) + Seq::<u8>::empty());
        assert(utf16_le_bytes(units.push(x)) =~= utf16_le_bytes(units) + spec_u16_to_le_bytes(x));
    } else {
        lemma_utf16_le_bytes_push(units.drop_first(), x);
        assert(units.push(x).drop_first() =~= units.drop_first().push(x));
        assert(utf16_le_bytes(units.push(x)) =~= utf16_le_bytes(units) + spec_u16_to_le_bytes(x));
    }
}

/// Serializes the code units as raw bytes in little-endian order.
pub fn units_to_le_bytes(units: &Vec<u16>) -> (r: Vec<u8>)
    ensures
        r@ == utf16_le_bytes(units@),
{
    let mut out: Vec<u8> = Vec::new();
    let mut i: usize = 0;
    while i < units.len()
        invariant
            i <= units@.len(),
            out@ == utf16_le_bytes(units@.take(i as int)),
        decreases units@.len() - i,
    {
        proof {
            lemma_utf16_le_bytes_push(units@.take(i as int), units@[i as int]);
            assert(units@.take(i as int + 1) =~= units@.take(i as int).push(units@[i as int]));
        }
        crate::wire::write_u16(&mut out, units[i]);
        i = i + 1;
    }
    proof {
        assert(units@.take(units@.len() as int) =~= units@);
    }
    out
}

/// Relies on str::encode_utf16: yields the string's characters as UTF-16
/// code units, a scalar value below 0x10000 as itself and any other as a
/// surrogate pair.
#[verifier::external_body]
pub(crate) fn encode_utf16_units(s: &str) -> (r: Vec<u16>)
    ensures
        r@ == utf16_units(s@),
{
    s.encode_utf16().collect()
}

/// What str::to_uppercase returns: the Unicode upper-case mapping of a
/// character sequence, a function of the characters alone.
pub uninterp spec fn upper_of(s: Seq<char>) -> Seq<char>;

/// Relies on str::to_uppercase: the result depends on the characters alone,
/// and an empty string stays empty.
#[verifier::external_body]
pub(crate) fn to_uppercase(s: &str) -> (r: String)
    ensures
        r@ == upper_of(s@),
        s@.len() == 0 ==> r@.len() == 0,
{
    s.to_uppercase()
}

/// Relies on String::from_utf8: succeeds exactly on valid UTF-8 input, and
/// then yields the string whose characters decode from the input bytes.
#[verifier::external_body]
pub(crate) fn string_from_utf8(bytes: Vec<u8>) -> (r: Option<String>)
    ensures
        r is Some <==> valid_utf8(bytes@),
        r matches Some(s) ==> s@ == decode_utf8(bytes@),
{
    String::from_utf8(bytes).ok()
}

/// Whether the name contains a "." separator, which classifies it as a
/// DNS-style rather than a NetBIOS-style identifier.
pub fn contains_dot(s: &str) -> (r: bool)
    ensures
        r == exists|i: int| 0 <= i < s@.len() && s@[i] == '.',
{
    let n = s.unicode_len();
    let mut i: usize = 0;
    while i < n
        invariant
            n == s@.len(),
            i <= n,
            forall|j: int| 0 <= j < i ==> s@[j] != '.',
        decreases n - i,
    {
        if s.get_char(i) == '.' {
            return true;
        }
        i = i + 1;
    }
    false
}

} // verus!
