use vstd::prelude::*;

use crate::bytes::{le_u16_at, le_u32_at, read_u16_le, read_u32_le, copy_range};
use crate::game_id::GameId;
use crate::{prepend, sum, lemma_prepend_assoc, lemma_sum_cons, Failure};

verus! {

/// `XXXX` read little-endian: the subrecord that carries the next one's size.
pub const TYPE_XXXX: u32 = 0x5858_5858;

/// A typed field inside a record.
#[derive(Clone, Debug)]
pub struct Subrecord {
    /// The four type bytes, read as a little-endian integer.
    pub subrecord_type: u32,
    pub data: Vec<u8>,
}

impl View for Subrecord {
    type V = (u32, Seq<u8>);

    open spec fn view(&self) -> (u32, Seq<u8>) {
        (self.subrecord_type, self.data@)
    }
}

/// The view of each subrecord of a sequence.
pub open spec fn subrecords_view(v: Seq<Subrecord>) -> Seq<(u32, Seq<u8>)> {
    v.map_values(|x: Subrecord| x@)
}

/// Length of a subrecord header: type and size.
pub open spec fn subrecord_header_len(g: GameId) -> int {
    if g == GameId::Morrowind { 8 } else { 6 }
}

/// The subrecords encoded in `s[pos..end]`. `pending` is the size announced by a
/// preceding `XXXX` subrecord, which replaces the next subrecord's own 16-bit size.
pub open spec fn subrecords_spec(g: GameId, s: Seq<u8>, pos: int, end: int, pending: Option<u32>)
    -> Result<Seq<(u32, Seq<u8>)>, Failure>
    decreases end - pos,
{
    let hl = subrecord_header_len(g);
    if pos >= end {
        Ok(Seq::empty())
    } else if end - pos < hl {
        Err(Failure::Incomplete)
    } else {
        let ty = le_u32_at(s, pos) as u32;
        let size: int = if g == GameId::Morrowind {
            le_u32_at(s, pos + 4)
        } else {
            match pending {
                Some(n) => n as int,
                None => le_u16_at(s, pos + 4),
            }
        };
        if end - pos - hl < size {
            Err(Failure::Incomplete)
        } else if g != GameId::Morrowind && ty == TYPE_XXXX && size < 4 {
            Err(Failure::Invalid)
        } else {
            let next = if g != GameId::Morrowind && ty == TYPE_XXXX {
                Some(le_u32_at(s, pos + hl) as u32)
            } else {
                None
            };
            prepend(
                seq![(ty, s.subrange(pos + hl, pos + hl + size))],
                subrecords_spec(g, s, pos + hl + size, end, next),
            )
        }
    }
}

/// The encoded length of each subrecord: header plus payload.
pub open spec fn encoded_lens(g: GameId, subs: Seq<(u32, Seq<u8>)>) -> Seq<int> {
    subs.map_values(|x: (u32, Seq<u8>)| subrecord_header_len(g) + x.1.len())
}

/// Decodes the subrecords of `s[pos..end]`.
pub fn parse_subrecords(g: GameId, s: &[u8], pos: usize, end: usize) -> (r: Result<
    Vec<Subrecord>,
    Failure,
>)
    requires
        pos <= end <= s@.len(),
    ensures
        match subrecords_spec(g, s@, pos as int, end as int, None) {
            Ok(v) => r is Ok && subrecords_view(r->Ok_0@) == v,
            Err(e) => r == Err::<Vec<Subrecord>, Failure>(e),
        },
{
    let tes3 = g.is_tes3();
    let hl: usize = if tes3 { 8 } else { 6 };
    let mut out: Vec<Subrecord> = Vec::new();
    let mut cur: usize = pos;
    let mut pending: Option<u32> = None;
    while cur < end
        invariant
            pos <= cur <= end <= s@.len(),
            hl == subrecord_header_len(g),
            tes3 == (g == GameId::Morrowind),
            subrecords_spec(g, s@, pos as int, end as int, None) == prepend(
                subrecords_view(out@),
                subrecords_spec(g, s@, cur as int, end as int, pending),
            ),
        decreases end - cur,
    {
        if end - cur < hl {
            return Err(Failure::Incomplete);
        }
        let ty = read_u32_le(s, cur);
        let size: u32 = if tes3 {
            read_u32_le(s, cur + 4)
        } else {
            match pending {
                Some(n) => n,
                None => read_u16_le(s, cur + 4) as u32,
            }
        };
        if ((end - cur - hl) as u64) < (size as u64) {
            return Err(Failure::Incomplete);
        }
        let size = size as usize;
        let large = !tes3 && ty == TYPE_XXXX;
        if large && size < 4 {
            return Err(Failure::Invalid);
        }
        let data = copy_range(s, cur + hl, cur + hl + size);
        let next = if large {
            Some(read_u32_le(s, cur + hl))
        } else {
            None
        };
        let sub = Subrecord { subrecord_type: ty, data };
        proof {
            lemma_prepend_assoc(
                subrecords_view(out@),
                seq![sub@],
                subrecords_spec(g, s@, (cur + hl + size) as int, end as int, next),
            );
            assert(subrecords_view(out@.push(sub)) =~= subrecords_view(out@) + seq![sub@]);
        }
        out.push(sub);
        cur = cur + hl + size;
        pending = next;
    }
    proof {
        assert(subrecords_view(out@) + Seq::empty() =~= subrecords_view(out@));
    }
    Ok(out)
}

/// A successful decode of `s[pos..end]` into subrecords uses every byte of it: the
/// headers and payloads of the subrecords add up to the span's length.
pub proof fn lemma_subrecords_cover_span(
    g: GameId,
    s: Seq<u8>,
    pos: int,
    end: int,
    pending: Option<u32>,
)
    requires
        0 <= pos <= end <= s.len(),
        subrecords_spec(g, s, pos, end, pending) is Ok,
    ensures
        sum(encoded_lens(g, subrecords_spec(g, s, pos, end, pending)->Ok_0)) == end - pos,
    decreases end - pos,
{
    let hl = subrecord_header_len(g);
    if pos >= end {
        assert(encoded_lens(g, Seq::<(u32, Seq<u8>)>::empty()) =~= Seq::<int>::empty());
    } else {
        let ty = le_u32_at(s, pos) as u32;
        let size: int = if g == GameId::Morrowind {
            le_u32_at(s, pos + 4)
        } else {
            match pending {
                Some(n) => n as int,
                None => le_u16_at(s, pos + 4),
            }
        };
        let next = if g != GameId::Morrowind && ty == TYPE_XXXX {
            Some(le_u32_at(s, pos + hl) as u32)
        } else {
            None
        };
        let head = (ty, s.subrange(pos + hl, pos + hl + size));
        lemma_subrecords_cover_span(g, s, pos + hl + size, end, next);
        let rest = subrecords_spec(g, s, pos + hl + size, end, next)->Ok_0;
        assert(encoded_lens(g, seq![head] + rest) =~= seq![hl + size] + encoded_lens(g, rest));
        lemma_sum_cons(hl + size, encoded_lens(g, rest));
    }
}

} // verus!
