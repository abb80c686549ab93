use std::io::Read;

use vstd::prelude::*;

use crate::bytes::{le_u32_at, read_u32_le, copy_range};
use crate::game_id::GameId;
use crate::subrecord::{
    encoded_lens, lemma_subrecords_cover_span, parse_subrecords, subrecords_spec, subrecords_view,
    Subrecord,
};
use crate::sum;
use crate::Failure;

verus! {

/// Record flag: the payload is zlib-compressed (TES4 layout only).
pub const FLAG_COMPRESSED: u32 = 0x0004_0000;

/// What zlib decompression of `b` yields, or `None` where `b` does not start with a
/// complete, valid zlib stream (bytes after the end of the stream are ignored).
pub uninterp spec fn zlib_inflate_of(b: Seq<u8>) -> Option<Seq<u8>>;

/// Relies on flate2::read::ZlibDecoder reading a zlib stream to its end: the
/// decompressed bytes, or an error for a truncated or malformed stream.
#[verifier::external_body]
fn inflate(b: &[u8]) -> (r: Option<Vec<u8>>)
    ensures
        r is Some <==> zlib_inflate_of(b@) is Some,
        r is Some ==> r->Some_0@ == zlib_inflate_of(b@)->Some_0,
{
    let mut out: Vec<u8> = Vec::new();
    match flate2::read::ZlibDecoder::new(b).read_to_end(&mut out) {
        Ok(_) => Some(out),
        Err(_) => None,
    }
}

/// The fixed part of a record.
#[derive(Clone, Copy, Debug, PartialEq, Eq, Structural)]
pub struct RecordHeader {
    /// The four type bytes, read as a little-endian integer.
    pub record_type: u32,
    pub flags: u32,
    /// Zero in the TES3 layout, which has no form identifiers.
    pub form_id: u32,
}

/// A record header together with its decoded subrecords.
#[derive(Clone, Debug)]
pub struct Record {
    pub header: RecordHeader,
    pub subrecords: Vec<Subrecord>,
}

/// A record as values: its header and the views of its subrecords.
pub type RecordModel = (RecordHeader, Seq<(u32, Seq<u8>)>);

impl View for Record {
    type V = RecordModel;

    open spec fn view(&self) -> RecordModel {
        (self.header, subrecords_view(self.subrecords@))
    }
}

/// Length of a record header: 16 bytes in the TES3 layout, 20 in TES4.
pub open spec fn record_header_len(g: GameId) -> int {
    if g == GameId::Morrowind { 16 } else { 20 }
}

/// The payload size declared by the record header at `pos`.
pub open spec fn record_size_at(s: Seq<u8>, pos: int) -> int {
    le_u32_at(s, pos + 4)
}

/// The header of the record at `pos`.
pub open spec fn record_header_at(g: GameId, s: Seq<u8>, pos: int) -> RecordHeader {
    if g == GameId::Morrowind {
        RecordHeader { record_type: le_u32_at(s, pos) as u32, flags: le_u32_at(s, pos + 12) as u32, form_id: 0 }
    } else {
        RecordHeader {
            record_type: le_u32_at(s, pos) as u32,
            flags: le_u32_at(s, pos + 8) as u32,
            form_id: le_u32_at(s, pos + 12) as u32,
        }
    }
}

/// Whether a record with this header stores its subrecords compressed.
pub open spec fn is_compressed(g: GameId, h: RecordHeader) -> bool {
    g != GameId::Morrowind && h.flags & FLAG_COMPRESSED != 0
}

/// The record at the start of `s` and the number of bytes it takes, decoded in full.
/// A compressed payload starts with a 4-byte length hint, then the zlib stream.
pub open spec fn record_spec(g: GameId, s: Seq<u8>) -> Result<(RecordModel, int), Failure> {
    let hl = record_header_len(g);
    if s.len() < hl {
        Err(Failure::Incomplete)
    } else if s.len() - hl < record_size_at(s, 0) {
        Err(Failure::Incomplete)
    } else {
        let size = record_size_at(s, 0);
        let h = record_header_at(g, s, 0);
        let subs = if is_compressed(g, h) {
            if size < 4 {
                Err(Failure::Invalid)
            } else {
                match zlib_inflate_of(s.subrange(hl + 4, hl + size)) {
                    Some(b) => subrecords_spec(g, b, 0, b.len() as int, None),
                    None => Err(Failure::Invalid),
                }
            }
        } else {
            subrecords_spec(g, s, hl, hl + size, None)
        };
        match subs {
            Ok(v) => Ok(((h, v), hl + size)),
            Err(e) => Err(e),
        }
    }
}

/// Decodes the record at the start of `s` in full; returns it with its length.
pub fn parse_record(g: GameId, s: &[u8]) -> (r: Result<(Record, usize), Failure>)
    ensures
        match record_spec(g, s@) {
            Ok((m, n)) => r is Ok && r->Ok_0.0@ == m && r->Ok_0.1 == n,
            Err(e) => r == Err::<(Record, usize), Failure>(e),
        },
{
    let tes3 = g.is_tes3();
    let hl: usize = if tes3 { 16 } else { 20 };
    if s.len() < hl {
        return Err(Failure::Incomplete);
    }
    let size = read_u32_le(s, 4);
    if (((s.len() - hl) as u64) < size as u64) {
        return Err(Failure::Incomplete);
    }
    let size = size as usize;
    let header = if tes3 {
        RecordHeader { record_type: read_u32_le(s, 0), flags: read_u32_le(s, 12), form_id: 0 }
    } else {
        RecordHeader {
            record_type: read_u32_le(s, 0),
            flags: read_u32_le(s, 8),
            form_id: read_u32_le(s, 12),
        }
    };
    assert(header == record_header_at(g, s@, 0));
    let subs = if !tes3 && header.flags & FLAG_COMPRESSED != 0 {
        if size < 4 {
            return Err(Failure::Invalid);
        }
        let packed = copy_range(s, hl + 4, hl + size);
        match inflate(packed.as_slice()) {
            Some(b) => parse_subrecords(g, b.as_slice(), 0, b.len()),
            None => return Err(Failure::Invalid),
        }
    } else {
        parse_subrecords(g, s, hl, hl + size)
    };
    match subs {
        Ok(v) => Ok((Record { header, subrecords: v }, hl + size)),
        Err(e) => Err(e),
    }
}

/// The subrecords of a decoded record, headers and payloads together, take exactly the
/// record's declared payload length, or for a compressed record the length of the
/// inflated payload.
pub proof fn lemma_record_subrecords_cover_payload(g: GameId, s: Seq<u8>)
    requires
        record_spec(g, s) is Ok,
    ensures
        ({
            let hl = record_header_len(g);
            let size = record_size_at(s, 0);
            let subs = record_spec(g, s)->Ok_0.0.1;
            if is_compressed(g, record_header_at(g, s, 0)) {
                sum(encoded_lens(g, subs)) == zlib_inflate_of(s.subrange(hl + 4, hl + size))->Some_0.len()
            } else {
                sum(encoded_lens(g, subs)) == size
            }
        }),
{
    let hl = record_header_len(g);
    let size = record_size_at(s, 0);
    if is_compressed(g, record_header_at(g, s, 0)) {
        let b = zlib_inflate_of(s.subrange(hl + 4, hl + size))->Some_0;
        lemma_subrecords_cover_span(g, b, 0, b.len() as int, None);
    } else {
        lemma_subrecords_cover_span(g, s, hl, hl + size, None);
    }
}

} // verus!
