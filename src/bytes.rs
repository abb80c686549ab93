use vstd::prelude::*;

verus! {

/// The unsigned 16-bit little-endian integer stored at `s[i..i + 2]`.
pub open spec fn le_u16_at(s: Seq<u8>, i: int) -> int {
    s[i] as int + s[i + 1] as int * 256
}

/// The unsigned 32-bit little-endian integer stored at `s[i..i + 4]`.
pub open spec fn le_u32_at(s: Seq<u8>, i: int) -> int {
    s[i] as int + s[i + 1] as int * 256 + s[i + 2] as int * 65536 + s[i + 3] as int * 16777216
}

/// Reads a little-endian `u16` at byte offset `i`.
pub fn read_u16_le(s: &[u8], i: usize) -> (r: u16)
    requires
        i + 2 <= s@.len(),
    ensures
        r as int == le_u16_at(s@, i as int),
{
    (s[i] as u16) + (s[i + 1] as u16) * 256
}

/// Reads a little-endian `u32` at byte offset `i`.
pub fn read_u32_le(s: &[u8], i: usize) -> (r: u32)
    requires
        i + 4 <= s@.len(),
    ensures
        r as int == le_u32_at(s@, i as int),
{
    (s[i] as u32) + (s[i + 1] as u32) * 256 + (s[i + 2] as u32) * 65536 + (s[i + 3] as u32)
        * 16777216
}

/// The payload of a NUL-terminated string field starting at `offset`: the bytes from
/// `offset` up to, not including, the final byte. A field too short to hold any text
/// yields no bytes.
pub open spec fn text_field(d: Seq<u8>, offset: int) -> Seq<u8> {
    if d.len() > offset + 1 {
        d.subrange(offset, d.len() - 1)
    } else {
        Seq::empty()
    }
}

/// Copies `s[from..to]` into a new vector.
pub fn copy_range(s: &[u8], from: usize, to: usize) -> (r: Vec<u8>)
    requires
        from <= to <= s@.len(),
    ensures
        r@ == s@.subrange(from as int, to as int),
{
    vstd::slice::slice_to_vec(vstd::slice::slice_subrange(s, from, to))
}

/// The string-field bytes of `d` (see `text_field`).
pub fn text_field_of(d: &[u8], offset: usize) -> (r: Vec<u8>)
    ensures
        r@ == text_field(d@, offset as int),
{
    if d.len() > offset && d.len() - offset > 1 {
        copy_range(d, offset, d.len() - 1)
    } else {
        Vec::new()
    }
}

} // verus!
