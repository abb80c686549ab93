//! Reads the plugin files of the Elder Scrolls and Fallout games: the record, group and
//! subrecord layouts of the TES3 and TES4 formats, the resolution of form identifiers
//! against a plugin's masters, and the fields of the header record.

use vstd::prelude::*;

pub mod bytes;
pub mod form_id;
pub mod game_id;
pub mod group;
pub mod plugin;
pub mod record;
pub mod subrecord;
pub mod text;

verus! {

/// Why a structural decode stopped.
#[derive(Clone, Copy, Debug, PartialEq, Eq, Structural)]
pub enum Failure {
    /// The input ended in the middle of a structure.
    Incomplete,
    /// The input broke a structural rule of the format.
    Invalid,
}

/// Puts `head` in front of a successful decode, or passes a failure on.
pub open spec fn prepend<T>(head: Seq<T>, r: Result<Seq<T>, Failure>) -> Result<Seq<T>, Failure> {
    match r {
        Ok(rest) => Ok(head + rest),
        Err(e) => Err(e),
    }
}

/// The sum of a sequence of lengths.
pub open spec fn sum(xs: Seq<int>) -> int
    decreases xs.len(),
{
    if xs.len() == 0 {
        0
    } else {
        xs[0] + sum(xs.skip(1))
    }
}

/// Prepending twice is prepending the concatenation.
pub proof fn lemma_prepend_assoc<T>(a: Seq<T>, b: Seq<T>, r: Result<Seq<T>, Failure>)
    ensures
        prepend(a, prepend(b, r)) == prepend(a + b, r),
{
    if let Ok(x) = r {
        assert(a + (b + x) =~= (a + b) + x);
    }
}

/// The sum of a sequence with one more element in front.
pub proof fn lemma_sum_cons(x: int, xs: Seq<int>)
    ensures
        sum(seq![x] + xs) == x + sum(xs),
{
    assert((seq![x] + xs).skip(1) =~= xs);
}

} // verus!
