use vstd::prelude::*;

use crate::bytes::{le_u32_at, read_u32_le};
use crate::game_id::GameId;
use crate::record::{record_header_len, record_size_at};
use crate::{prepend, sum, lemma_prepend_assoc, lemma_sum_cons, Failure};

verus! {

/// `GRUP` read little-endian: the tag that opens a group.
pub const TYPE_GRUP: u32 = 0x5055_5247;

/// Length of a group header: tag, total size, label, group type, stamp, version.
pub open spec fn group_header_len() -> int {
    24
}

/// Whether the item at `pos` (before `end`) is a group: a TES4 item with the `GRUP` tag.
pub open spec fn is_group_at(g: GameId, s: Seq<u8>, pos: int, end: int) -> bool {
    g != GameId::Morrowind && end - pos >= 4 && le_u32_at(s, pos) == TYPE_GRUP
}

/// The total size that the group header at `pos` declares, its own 24 bytes included.
pub open spec fn group_size_at(s: Seq<u8>, pos: int) -> int {
    le_u32_at(s, pos + 4)
}

/// The raw form identifiers of the records in `s[pos..end]`, in document order,
/// nested groups included. At the top level of a TES4 file every item must be a group;
/// inside a group, records and groups mix freely. TES3 files hold only records, whose
/// identifier is zero. Any failure inside a group is a structural error of that group.
pub open spec fn items_spec(g: GameId, s: Seq<u8>, pos: int, end: int, top: bool) -> Result<
    Seq<u32>,
    Failure,
>
    decreases end - pos,
{
    if pos >= end {
        Ok(Seq::empty())
    } else if is_group_at(g, s, pos, end) {
        if end - pos < group_header_len() {
            Err(Failure::Incomplete)
        } else if group_size_at(s, pos) < group_header_len() {
            Err(Failure::Invalid)
        } else if end - pos < group_size_at(s, pos) {
            Err(Failure::Incomplete)
        } else {
            let total = group_size_at(s, pos);
            match items_spec(g, s, pos + group_header_len(), pos + total, false) {
                Ok(ids) => prepend(ids, items_spec(g, s, pos + total, end, top)),
                Err(_) => Err(Failure::Invalid),
            }
        }
    } else if top && g != GameId::Morrowind {
        Err(Failure::Invalid)
    } else {
        let hl = record_header_len(g);
        if end - pos < hl {
            Err(Failure::Incomplete)
        } else if end - pos - hl < record_size_at(s, pos) {
            Err(Failure::Incomplete)
        } else {
            let id: u32 = if g == GameId::Morrowind { 0 } else { le_u32_at(s, pos + 12) as u32 };
            prepend(seq![id], items_spec(g, s, pos + hl + record_size_at(s, pos), end, top))
        }
    }
}

/// The length of each item (group or record) of `s[pos..end]`, following the same
/// walk as `items_spec`.
pub open spec fn item_lens(g: GameId, s: Seq<u8>, pos: int, end: int, top: bool) -> Seq<int>
    decreases end - pos,
{
    if pos >= end {
        Seq::empty()
    } else if is_group_at(g, s, pos, end) {
        if end - pos < group_header_len() || group_size_at(s, pos) < group_header_len() || end
            - pos < group_size_at(s, pos) {
            Seq::empty()
        } else {
            let total = group_size_at(s, pos);
            seq![total] + item_lens(g, s, pos + total, end, top)
        }
    } else {
        let n = record_header_len(g) + record_size_at(s, pos);
        if end - pos < record_header_len(g) || end - pos - record_header_len(g) < record_size_at(
            s,
            pos,
        ) {
            Seq::empty()
        } else {
            seq![n] + item_lens(g, s, pos + n, end, top)
        }
    }
}

/// Collects the raw form identifiers of the records in `s[pos..end]` (see `items_spec`).
pub fn parse_items(g: GameId, s: &[u8], pos: usize, end: usize, top: bool) -> (r: Result<
    Vec<u32>,
    Failure,
>)
    requires
        pos <= end <= s@.len(),
    ensures
        match items_spec(g, s@, pos as int, end as int, top) {
            Ok(v) => r is Ok && r->Ok_0@ == v,
            Err(e) => r == Err::<Vec<u32>, Failure>(e),
        },
    decreases end - pos,
{
    let tes3 = g.is_tes3();
    let hl: usize = if tes3 { 16 } else { 20 };
    let mut out: Vec<u32> = Vec::new();
    let mut cur: usize = pos;
    while cur < end
        invariant
            pos <= cur <= end <= s@.len(),
            hl == record_header_len(g),
            tes3 == (g == GameId::Morrowind),
            items_spec(g, s@, pos as int, end as int, top) == prepend(
                out@,
                items_spec(g, s@, cur as int, end as int, top),
            ),
        decreases end - cur,
    {
        let group = !tes3 && end - cur >= 4 && read_u32_le(s, cur) == TYPE_GRUP;
        if group {
            if end - cur < 24 {
                return Err(Failure::Incomplete);
            }
            let total = read_u32_le(s, cur + 4);
            if total < 24 {
                return Err(Failure::Invalid);
            }
            if (((end - cur) as u64) < total as u64) {
                return Err(Failure::Incomplete);
            }
            let total = total as usize;
            let mut inner = match parse_items(g, s, cur + 24, cur + total, false) {
                Ok(v) => v,
                Err(_) => return Err(Failure::Invalid),
            };
            proof {
                assert(items_spec(g, s@, cur as int, end as int, top) == prepend(
                    inner@,
                    items_spec(g, s@, (cur + total) as int, end as int, top),
                ));
                lemma_prepend_assoc(
                    out@,
                    inner@,
                    items_spec(g, s@, (cur + total) as int, end as int, top),
                );
            }
            out.append(&mut inner);
            cur = cur + total;
        } else {
            if top && !tes3 {
                return Err(Failure::Invalid);
            }
            if end - cur < hl {
                return Err(Failure::Incomplete);
            }
            let size = read_u32_le(s, cur + 4);
            if (((end - cur - hl) as u64) < size as u64) {
                return Err(Failure::Incomplete);
            }
            let id: u32 = if tes3 { 0 } else { read_u32_le(s, cur + 12) };
            let next = cur + hl + size as usize;
            proof {
                assert(items_spec(g, s@, cur as int, end as int, top) == prepend(
                    seq![id],
                    items_spec(g, s@, next as int, end as int, top),
                ));
                lemma_prepend_assoc(out@, seq![id], items_spec(g, s@, next as int, end as int, top));
            }
            proof {
                assert(out@.push(id) =~= out@ + seq![id]);
            }
            out.push(id);
            cur = next;
        }
    }
    proof {
        assert(out@ + Seq::empty() =~= out@);
    }
    Ok(out)
}

/// A successful walk over `s[pos..end]` uses every byte of it: the lengths of its
/// items add up to the span's length.
pub proof fn lemma_items_cover_span(g: GameId, s: Seq<u8>, pos: int, end: int, top: bool)
    requires
        0 <= pos <= end <= s.len(),
        items_spec(g, s, pos, end, top) is Ok,
    ensures
        sum(item_lens(g, s, pos, end, top)) == end - pos,
    decreases end - pos,
{
    if pos >= end {
    } else if is_group_at(g, s, pos, end) {
        let total = group_size_at(s, pos);
        lemma_items_cover_span(g, s, pos + total, end, top);
        lemma_sum_cons(total, item_lens(g, s, pos + total, end, top));
    } else {
        let n = record_header_len(g) + record_size_at(s, pos);
        lemma_items_cover_span(g, s, pos + n, end, top);
        lemma_sum_cons(n, item_lens(g, s, pos + n, end, top));
    }
}

/// The total size of every group read is its 24 header bytes plus the lengths of the
/// items in its body.
pub proof fn lemma_group_size(g: GameId, s: Seq<u8>, pos: int, end: int, top: bool)
    requires
        0 <= pos <= end <= s.len(),
        is_group_at(g, s, pos, end),
        items_spec(g, s, pos, end, top) is Ok,
    ensures
        group_size_at(s, pos) == group_header_len() + sum(
            item_lens(g, s, pos + group_header_len(), pos + group_size_at(s, pos), false),
        ),
{
    lemma_items_cover_span(g, s, pos + 24, pos + group_size_at(s, pos), false);
}

} // verus!
