use encoding::Encoding;

use vstd::prelude::*;

verus! {

/// The character that Windows-1252 (in its WHATWG form) gives a byte: bytes below 0x80
/// and from 0xA0 up stand for the code point of the same number; 0x80 to 0x9F go
/// through a table, whose five unassigned slots also keep their own code point.
pub open spec fn windows_1252_char(b: u8) -> char {
    if b == 0x80 { '\u{20AC}' }
    else if b == 0x82 { '\u{201A}' }
    else if b == 0x83 { '\u{0192}' }
    else if b == 0x84 { '\u{201E}' }
    else if b == 0x85 { '\u{2026}' }
    else if b == 0x86 { '\u{2020}' }
    else if b == 0x87 { '\u{2021}' }
    else if b == 0x88 { '\u{02C6}' }
    else if b == 0x89 { '\u{2030}' }
    else if b == 0x8A { '\u{0160}' }
    else if b == 0x8B { '\u{2039}' }
    else if b == 0x8C { '\u{0152}' }
    else if b == 0x8E { '\u{017D}' }
    else if b == 0x91 { '\u{2018}' }
    else if b == 0x92 { '\u{2019}' }
    else if b == 0x93 { '\u{201C}' }
    else if b == 0x94 { '\u{201D}' }
    else if b == 0x95 { '\u{2022}' }
    else if b == 0x96 { '\u{2013}' }
    else if b == 0x97 { '\u{2014}' }
    else if b == 0x98 { '\u{02DC}' }
    else if b == 0x99 { '\u{2122}' }
    else if b == 0x9A { '\u{0161}' }
    else if b == 0x9B { '\u{203A}' }
    else if b == 0x9C { '\u{0153}' }
    else if b == 0x9E { '\u{017E}' }
    else if b == 0x9F { '\u{0178}' }
    else { b as char }
}

/// The text that Windows-1252 decoding makes of `b`: one character per byte.
pub open spec fn windows_1252_text(b: Seq<u8>) -> Seq<char> {
    b.map_values(|x: u8| windows_1252_char(x))
}

/// The lowercase form of `s`.
pub uninterp spec fn lowercase_of(s: Seq<char>) -> Seq<char>;

/// Relies on encoding's `WINDOWS_1252.decode` with `DecoderTrap::Strict`: the single-byte
/// decoder maps each byte through the Windows-1252 index, in which every byte has a
/// character, so decoding succeeds with one character per byte.
#[verifier::external_body]
pub(crate) fn decode_windows_1252(b: &[u8]) -> (r: Result<String, String>)
    ensures
        r is Ok,
        r->Ok_0@ == windows_1252_text(b@),
{
    encoding::all::WINDOWS_1252.decode(b, encoding::DecoderTrap::Strict).map_err(
        |e| e.into_owned(),
    )
}

/// Relies on `str::to_lowercase`: the result depends on the characters alone.
#[verifier::external_body]
pub(crate) fn to_lowercase(s: &str) -> (r: String)
    ensures
        r@ == lowercase_of(s@),
{
    s.to_lowercase()
}

} // verus!
