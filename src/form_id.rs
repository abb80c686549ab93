use vstd::prelude::*;

use vstd::std_specs::cmp::PartialEqSpec;

use crate::text::{lowercase_of, to_lowercase};

verus! {

/// The view of each string of a sequence.
pub open spec fn strings_view(v: Seq<String>) -> Seq<Seq<char>> {
    v.map_values(|x: String| x@)
}

/// The master index of a raw form identifier: its high byte.
pub open spec fn master_index(raw: u32) -> int {
    raw as int / 16777216
}

/// The object index of a raw form identifier: its low 24 bits.
pub open spec fn object_index(raw: u32) -> u32 {
    (raw as int % 16777216) as u32
}

/// The plugin that defines a raw form identifier: the master that its master index
/// names, or the plugin itself where the index is past the end of the masters list.
pub open spec fn owner_of(masters: Seq<Seq<char>>, own_name: Seq<char>, raw: u32) -> Seq<char> {
    if master_index(raw) < masters.len() {
        masters[master_index(raw)]
    } else {
        own_name
    }
}

/// A fully-qualified form identifier as values: the folded owner name and the object
/// index.
pub open spec fn resolved(masters: Seq<Seq<char>>, own_name: Seq<char>, raw: u32) -> (
    Seq<char>,
    u32,
) {
    (lowercase_of(owner_of(masters, own_name, raw)), object_index(raw))
}

/// A record identifier bound to the plugin that defines it. The owner's name is kept
/// lowercase, so that identifiers compare without regard to case.
#[derive(Clone, Debug)]
pub struct FormId {
    plugin_name: String,
    object_index: u32,
}

impl View for FormId {
    type V = (Seq<char>, u32);

    closed spec fn view(&self) -> (Seq<char>, u32) {
        (self.plugin_name@, self.object_index)
    }
}

impl FormId {
    /// Resolves `raw` against the masters of the plugin named `parent_plugin_name`.
    pub fn new(parent_plugin_name: &str, masters: &Vec<String>, raw: u32) -> (r: FormId)
        ensures
            r@ == resolved(strings_view(masters@), parent_plugin_name@, raw),
    {
        let index = (raw >> 24) as usize;
        let object = raw & 0x00FF_FFFF;
        proof {
            assert(raw >> 24 == raw / 16777216) by (bit_vector);
            assert(raw & 0x00FF_FFFF == raw % 16777216) by (bit_vector);
        }
        let plugin_name = if index < masters.len() {
            to_lowercase(masters[index].as_str())
        } else {
            to_lowercase(parent_plugin_name)
        };
        FormId { plugin_name, object_index: object }
    }

    /// The lowercase name of the plugin that defines this identifier.
    pub fn plugin_name(&self) -> (r: &str)
        ensures
            r@ == self@.0,
    {
        self.plugin_name.as_str()
    }

    /// The identifier's index among its owner's objects.
    pub fn object_index(&self) -> (r: u32)
        ensures
            r == self@.1,
    {
        self.object_index
    }
}

impl PartialEq for FormId {
    fn eq(&self, other: &FormId) -> (r: bool)
        ensures
            r == (self@ == other@),
    {
        self.object_index == other.object_index && self.plugin_name == other.plugin_name
    }
}

impl vstd::std_specs::cmp::PartialEqSpecImpl for FormId {
    open spec fn obeys_eq_spec() -> bool {
        true
    }

    open spec fn eq_spec(&self, other: &FormId) -> bool {
        self@ == other@
    }
}

impl Eq for FormId {}

/// Resolving picks the master that the identifier's master index names when the
/// masters list has that entry, and the plugin's own name otherwise.
pub proof fn lemma_owner_choice(masters: Seq<Seq<char>>, own_name: Seq<char>, raw: u32)
    ensures
        master_index(raw) < masters.len() ==> owner_of(masters, own_name, raw)
            == masters[master_index(raw)],
        master_index(raw) >= masters.len() ==> owner_of(masters, own_name, raw) == own_name,
        0 <= master_index(raw) < 256,
{
}

/// Identifier equality is an equivalence.
pub proof fn lemma_form_id_eq_equivalence(a: FormId, b: FormId, c: FormId)
    ensures
        a.eq_spec(&a),
        a.eq_spec(&b) == b.eq_spec(&a),
        a.eq_spec(&b) && b.eq_spec(&c) ==> a.eq_spec(&c),
{
}

/// Two raw identifiers that resolve to owners whose names differ only in case, with the
/// same object index, give equal identifiers, whatever their master indices.
pub proof fn lemma_form_id_eq_ignores_case(
    masters_a: Seq<Seq<char>>,
    own_a: Seq<char>,
    raw_a: u32,
    masters_b: Seq<Seq<char>>,
    own_b: Seq<char>,
    raw_b: u32,
)
    requires
        lowercase_of(owner_of(masters_a, own_a, raw_a)) == lowercase_of(
            owner_of(masters_b, own_b, raw_b),
        ),
        object_index(raw_a) == object_index(raw_b),
    ensures
        resolved(masters_a, own_a, raw_a) == resolved(masters_b, own_b, raw_b),
{
}

} // verus!
