use std::path::Path;
use std::path::PathBuf;

use vstd::prelude::*;

use crate::bytes::{le_u32_at, read_u32_le, text_field, text_field_of};
use crate::form_id::{resolved, strings_view, FormId};
use crate::game_id::GameId;
use crate::group::{item_lens, items_spec, lemma_items_cover_span, parse_items};
use crate::record::{parse_record, record_spec, Record, RecordHeader, RecordModel};
use crate::subrecord::{subrecords_view, Subrecord};
use crate::text::{decode_windows_1252, windows_1252_text};
use crate::{sum, Failure};

verus! {

#[verifier::external_type_specification]
#[verifier::external_body]
pub struct ExPath(std::path::Path);

#[verifier::external_type_specification]
#[verifier::external_body]
pub struct ExIoError(std::io::Error);

#[verifier::external_type_specification]
#[verifier::external_body]
pub struct ExPathBuf(std::path::PathBuf);

/// The path that an owned path holds.
pub uninterp spec fn path_in(b: &PathBuf) -> &Path;

/// Relies on `PathBuf::as_path`: the path that the buffer holds, borrowed.
pub assume_specification[ std::path::PathBuf::as_path ](b: &PathBuf) -> (r: &Path)
    ensures
        r == path_in(b),
;

/// Relies on `Path::to_path_buf`: an owned buffer holding the same path.
pub assume_specification[ std::path::Path::to_path_buf ](p: &Path) -> (r: PathBuf)
    ensures
        path_in(&r) == p,
;

/// Relies on `PathBuf`'s `Clone`: a buffer holding the same path.
pub assume_specification[ <std::path::PathBuf as Clone>::clone ](b: &PathBuf) -> (r: PathBuf)
    ensures
        path_in(&r) == path_in(b),
;

/// What the library reads from a path's final component: `None` where the path has
/// none, `Some(None)` where it is not valid Unicode, else `Some(Some(name))`.
pub uninterp spec fn file_name_model(p: &Path) -> Option<Option<Seq<char>>>;

/// Relies on `Path::file_name`, with `OsStr::to_str` converting the component to text:
/// the result depends on the path alone.
#[verifier::external_body]
fn file_name_text(p: &Path) -> (r: Option<Option<String>>)
    ensures
        r is None <==> file_name_model(p) is None,
        r is Some ==> (r->Some_0 is Some <==> file_name_model(p)->Some_0 is Some),
        r is Some && r->Some_0 is Some ==> r->Some_0->Some_0@ == file_name_model(p)->Some_0->Some_0,
{
    p.file_name().map(|f| f.to_str().map(|s| s.to_string()))
}

/// Relies on `str::ends_with`: whether `suffix` is a suffix of `s`.
#[verifier::external_body]
fn str_ends_with(s: &str, suffix: &str) -> (r: bool)
    ensures
        r == (s@.len() >= suffix@.len() && s@.subrange(s@.len() - suffix@.len(), s@.len() as int)
            == suffix@),
{
    s.ends_with(suffix)
}

/// The ways in which reading a plugin can fail.
#[derive(Debug)]
pub enum Error {
    /// The path's final component is not valid text.
    NonUtf8FilePath,
    /// A string field is not valid text.
    NonUtf8StringData,
    /// Reading the file failed.
    IoError(std::io::Error),
    /// The path has no final component.
    NoFilename,
    /// The input ended in the middle of a structure.
    ParsingIncomplete,
    /// The input broke a structural rule of the format.
    ParsingError,
    /// A string field could not be decoded as Windows-1252; holds the decoder's message.
    DecodeError(String),
}

/// `MAST` read little-endian: a master's filename.
pub const TYPE_MAST: u32 = 0x5453_414D;

/// `HEDR` read little-endian: the header data subrecord.
pub const TYPE_HEDR: u32 = 0x5244_4548;

/// `SNAM` read little-endian: the description subrecord of TES4 plugins.
pub const TYPE_SNAM: u32 = 0x4D41_4E53;

/// Header flag of TES4 plugins: the plugin is a master file.
pub const FLAG_MASTER: u32 = 0x0000_0001;

/// The masters that the header's `MAST` subrecords name, in order, decoded as
/// Windows-1252.
pub open spec fn masters_spec(subs: Seq<(u32, Seq<u8>)>) -> Seq<Seq<char>>
    decreases subs.len(),
{
    if subs.len() == 0 {
        Seq::empty()
    } else {
        let v = masters_spec(subs.drop_last());
        let last = subs.last();
        if last.0 == TYPE_MAST {
            v.push(windows_1252_text(text_field(last.1, 0)))
        } else {
            v
        }
    }
}

/// The payload of the first subrecord of type `ty`.
pub open spec fn first_of_type(subs: Seq<(u32, Seq<u8>)>, ty: u32) -> Option<Seq<u8>>
    decreases subs.len(),
{
    if subs.len() == 0 {
        None
    } else if subs[0].0 == ty {
        Some(subs[0].1)
    } else {
        first_of_type(subs.skip(1), ty)
    }
}

/// What parsing `s` yields: the header record and, unless only the header is wanted,
/// the resolved identifiers of every record of the body. The body must use every byte
/// that follows the header.
pub open spec fn plugin_spec(g: GameId, s: Seq<u8>, own_name: Seq<char>, header_only: bool) -> Result<
    (RecordModel, Seq<(Seq<char>, u32)>),
    Failure,
> {
    match record_spec(g, s) {
        Err(e) => Err(e),
        Ok((header, n)) => if header_only {
            Ok((header, Seq::empty()))
        } else {
            match items_spec(g, s, n, s.len() as int, true) {
                Err(e) => Err(e),
                Ok(raws) => Ok((header, resolve_all(masters_spec(header.1), own_name, raws))),
            }
        },
    }
}

/// Each raw identifier of `raws` resolved against `masters` and `own_name`.
pub open spec fn resolve_all(masters: Seq<Seq<char>>, own_name: Seq<char>, raws: Seq<u32>) -> Seq<
    (Seq<char>, u32),
> {
    raws.map_values(|raw: u32| resolved(masters, own_name, raw))
}

/// Whether a Morrowind plugin with this filename is a master: its extension is `esm`,
/// or it is `ghost` and the rest of the name ends in `.esm`.
pub open spec fn is_master_name(name: Seq<char>) -> bool {
    let esm = seq!['.', 'e', 's', 'm'];
    let ghosted = seq!['.', 'e', 's', 'm', '.', 'g', 'h', 'o', 's', 't'];
    (name.len() > 4 && name.subrange(name.len() - 4, name.len() as int) == esm) || (name.len()
        >= 10 && name.subrange(name.len() - 10, name.len() as int) == ghosted)
}

/// The header record and form identifiers of a parsed plugin.
#[derive(Clone, Debug)]
struct PluginData {
    header_record: Record,
    form_ids: Vec<FormId>,
}

/// The view of each identifier of a sequence.
pub open spec fn form_ids_view(v: Seq<FormId>) -> Seq<(Seq<char>, u32)> {
    v.map_values(|x: FormId| x@)
}

/// A plugin file of one game, with the data read from it.
#[derive(Clone, Debug)]
pub struct Plugin {
    game_id: GameId,
    path: PathBuf,
    filename: Option<Option<String>>,
    data: PluginData,
}

/// The header record of a plugin that has not been parsed yet.
pub open spec fn empty_header() -> RecordModel {
    (RecordHeader { record_type: 0, flags: 0, form_id: 0 }, Seq::empty())
}

impl Plugin {
    pub closed spec fn game(&self) -> GameId {
        self.game_id
    }

    /// What was read from the path's final component (see `file_name_model`).
    pub closed spec fn name(&self) -> Option<Option<Seq<char>>> {
        match self.filename {
            Some(Some(f)) => Some(Some(f@)),
            Some(None) => Some(None),
            None => None,
        }
    }

    /// The plugin's path.
    pub closed spec fn path_spec(&self) -> &Path {
        path_in(&self.path)
    }

    pub closed spec fn header(&self) -> RecordModel {
        self.data.header_record@
    }

    pub closed spec fn ids(&self) -> Seq<(Seq<char>, u32)> {
        form_ids_view(self.data.form_ids@)
    }

    /// A plugin of `game_id` at `filepath`, not parsed yet.
    pub fn new(game_id: GameId, filepath: &Path) -> (r: Plugin)
        ensures
            r.game() == game_id,
            r.path_spec() == filepath,
            r.name() == file_name_model(filepath),
            r.header() == empty_header(),
            r.ids() == Seq::<(Seq<char>, u32)>::empty(),
    {
        let header_record = Record {
            header: RecordHeader { record_type: 0, flags: 0, form_id: 0 },
            subrecords: Vec::new(),
        };
        let r = Plugin {
            game_id,
            path: filepath.to_path_buf(),
            filename: file_name_text(filepath),
            data: PluginData { header_record, form_ids: Vec::new() },
        };
        proof {
            assert(subrecords_view(Seq::<Subrecord>::empty()) =~= Seq::empty());
            assert(form_ids_view(Seq::<FormId>::empty()) =~= Seq::empty());
        }
        r
    }

    /// Parses `input` as this plugin's contents. On success the header record and the
    /// identifiers are replaced; on failure the plugin is left as it was.
    pub fn parse(&mut self, input: &[u8], load_header_only: bool) -> (r: Result<(), Error>)
        ensures
            final(self).game() == old(self).game(),
            final(self).name() == old(self).name(),
            final(self).path_spec() == old(self).path_spec(),
            r is Err ==> *final(self) == *old(self),
            match old(self).name() {
                None => r is Err && r->Err_0 is NoFilename,
                Some(None) => r is Err && r->Err_0 is NonUtf8FilePath,
                Some(Some(name)) => match plugin_spec(old(self).game(), input@, name, load_header_only) {
                    Ok((h, ids)) => r is Ok && final(self).header() == h && final(self).ids() == ids,
                    Err(Failure::Incomplete) => r is Err && r->Err_0 is ParsingIncomplete,
                    Err(Failure::Invalid) => r is Err && r->Err_0 is ParsingError,
                },
            },
    {
        let parsed = match &self.filename {
            None => return Err(Error::NoFilename),
            Some(None) => return Err(Error::NonUtf8FilePath),
            Some(Some(name)) => parse_plugin(input, self.game_id, name.as_str(), load_header_only),
        };
        match parsed {
            Ok(data) => {
                self.data = data;
                Ok(())
            },
            Err(e) => Err(e),
        }
    }

    pub fn game_id(&self) -> (r: &GameId)
        ensures
            *r == self.game(),
    {
        &self.game_id
    }

    pub fn path(&self) -> (r: &Path)
        ensures
            r == self.path_spec(),
    {
        self.path.as_path()
    }

    /// The path's final component, where it is text.
    pub fn filename(&self) -> (r: Option<String>)
        ensures
            r is Some <==> (self.name() is Some && self.name()->Some_0 is Some),
            r is Some ==> r->Some_0@ == self.name()->Some_0->Some_0,
    {
        match &self.filename {
            Some(Some(f)) => Some(f.clone()),
            _ => None,
        }
    }

    /// The masters that the header names, in order.
    pub fn masters(&self) -> (r: Result<Vec<String>, Error>)
        ensures
            r is Ok,
            strings_view(r->Ok_0@) == masters_spec(self.header().1),
    {
        masters_of(&self.data.header_record.subrecords)
    }

    /// Whether the plugin is a master file: the header's master flag, or for Morrowind,
    /// which has none, the file's extension.
    pub fn is_master_file(&self) -> (r: bool)
        ensures
            self.game() != GameId::Morrowind ==> r == (self.header().0.flags & FLAG_MASTER != 0),
            self.game() == GameId::Morrowind ==> r == match self.name() {
                Some(Some(n)) => is_master_name(n),
                _ => false,
            },
    {
        if !self.game_id.is_tes3() {
            self.data.header_record.header.flags & FLAG_MASTER != 0
        } else {
            match &self.filename {
                Some(Some(name)) => {
                    let n = name.as_str();
                    let ends_esm = str_ends_with(n, ".esm");
                    let is_bare_esm = str_ends_with(".esm", n);
                    let ends_ghost = str_ends_with(n, ".esm.ghost");
                    proof {
                        reveal_strlit(".esm");
                        reveal_strlit(".esm.ghost");
                        assert(".esm"@ =~= seq!['.', 'e', 's', 'm']);
                        assert(".esm.ghost"@ =~= seq!['.', 'e', 's', 'm', '.', 'g', 'h', 'o', 's', 't']);
                        if ends_esm && n@.len() == 4 {
                            assert(".esm"@.subrange(0, 4) =~= ".esm"@);
                            assert(n@.subrange(0, 4) =~= n@);
                        }
                    }
                    (ends_esm && !is_bare_esm) || ends_ghost
                },
                _ => false,
            }
        }
    }

    /// The description: the Windows-1252 text of the `HEDR` subrecord from byte 40
    /// (Morrowind) or of the `SNAM` subrecord, up to its final byte. `None` where the
    /// header has no such subrecord.
    pub fn description(&self) -> (r: Result<Option<String>, Error>)
        ensures
            ({
                let (ty, offset) = if self.game() == GameId::Morrowind {
                    (TYPE_HEDR, 40int)
                } else {
                    (TYPE_SNAM, 0int)
                };
                match first_of_type(self.header().1, ty) {
                    None => r is Ok && r->Ok_0 is None,
                    Some(d) => r is Ok && r->Ok_0 is Some && r->Ok_0->Some_0@ == windows_1252_text(
                        text_field(d, offset),
                    ),
                }
            }),
    {
        let tes3 = self.game_id.is_tes3();
        let ty = if tes3 { TYPE_HEDR } else { TYPE_SNAM };
        let offset: usize = if tes3 { 40 } else { 0 };
        let subs = &self.data.header_record.subrecords;
        match find_subrecord(subs, ty) {
            None => Ok(None),
            Some(i) => {
                let field = text_field_of(subs[i].data.as_slice(), offset);
                match decode_windows_1252(field.as_slice()) {
                    Ok(t) => Ok(Some(t)),
                    Err(m) => Err(Error::DecodeError(m)),
                }
            },
        }
    }

    /// The record-and-group count: the little-endian `u32` of the `HEDR` subrecord at
    /// byte 296 (Morrowind) or byte 4. `None` where there is no `HEDR` subrecord or it
    /// is too short.
    pub fn record_and_group_count(&self) -> (r: Option<u32>)
        ensures
            ({
                let offset = if self.game() == GameId::Morrowind { 296int } else { 4int };
                match first_of_type(self.header().1, TYPE_HEDR) {
                    Some(d) => if d.len() >= offset + 4 {
                        r is Some && r->Some_0 as int == le_u32_at(d, offset)
                    } else {
                        r is None
                    },
                    None => r is None,
                }
            }),
    {
        let offset: usize = if self.game_id.is_tes3() { 296 } else { 4 };
        let subs = &self.data.header_record.subrecords;
        match find_subrecord(subs, TYPE_HEDR) {
            None => None,
            Some(i) => {
                let d = subs[i].data.as_slice();
                if d.len() >= offset + 4 {
                    Some(read_u32_le(d, offset))
                } else {
                    None
                }
            },
        }
    }

    /// The resolved identifiers of the plugin's records, in document order.
    pub fn form_ids(&self) -> (r: &Vec<FormId>)
        ensures
            form_ids_view(r@) == self.ids(),
    {
        &self.data.form_ids
    }
}


/// Decodes the masters that the `MAST` subrecords of `subs` name.
fn masters_of(subs: &Vec<Subrecord>) -> (r: Result<Vec<String>, Error>)
    ensures
        r is Ok,
        strings_view(r->Ok_0@) == masters_spec(subrecords_view(subs@)),
{
    let ghost view = subrecords_view(subs@);
    let mut out: Vec<String> = Vec::new();
    let mut i: usize = 0;
    while i < subs.len()
        invariant
            0 <= i <= subs@.len(),
            view == subrecords_view(subs@),
            masters_spec(view.take(i as int)) == strings_view(out@),
        decreases subs@.len() - i,
    {
        proof {
            assert(view.take(i + 1).drop_last() =~= view.take(i as int));
            assert(view.take(i + 1).last() == subs@[i as int]@);
        }
        if subs[i].subrecord_type == TYPE_MAST {
            let field = text_field_of(subs[i].data.as_slice(), 0);
            match decode_windows_1252(field.as_slice()) {
                Ok(t) => {
                    proof {
                        assert(strings_view(out@.push(t)) =~= strings_view(out@).push(t@));
                    }
                    out.push(t);
                },
                Err(m) => return Err(Error::DecodeError(m)),
            }
        }
        i = i + 1;
    }
    proof {
        assert(view.take(i as int) =~= view);
    }
    Ok(out)
}

/// The index of the first subrecord of type `ty`.
fn find_subrecord(subs: &Vec<Subrecord>, ty: u32) -> (r: Option<usize>)
    ensures
        match first_of_type(subrecords_view(subs@), ty) {
            Some(d) => r is Some && r->Some_0 < subs@.len() && subs@[r->Some_0 as int].data@ == d,
            None => r is None,
        },
{
    let ghost view = subrecords_view(subs@);
    let mut i: usize = 0;
    assert(view.skip(0) =~= view);
    while i < subs.len()
        invariant
            0 <= i <= subs@.len(),
            view == subrecords_view(subs@),
            first_of_type(view, ty) == first_of_type(view.skip(i as int), ty),
        decreases subs@.len() - i,
    {
        proof {
            assert(view.skip(i as int).skip(1) =~= view.skip(i + 1));
            assert(view.skip(i as int)[0] == subs@[i as int]@);
        }
        if subs[i].subrecord_type == ty {
            return Some(i);
        }
        i = i + 1;
    }
    None
}

/// The error that reports a structural decode failure.
pub open spec fn structural_error_spec(f: Failure) -> Error {
    match f {
        Failure::Incomplete => Error::ParsingIncomplete,
        Failure::Invalid => Error::ParsingError,
    }
}

fn structural_error(f: Failure) -> (r: Error)
    ensures
        r == structural_error_spec(f),
{
    match f {
        Failure::Incomplete => Error::ParsingIncomplete,
        Failure::Invalid => Error::ParsingError,
    }
}

/// Parses a whole plugin (see `plugin_spec`).
fn parse_plugin(input: &[u8], g: GameId, own_name: &str, header_only: bool) -> (r: Result<
    PluginData,
    Error,
>)
    ensures
        match plugin_spec(g, input@, own_name@, header_only) {
            Ok((h, ids)) => r is Ok && r->Ok_0.header_record@ == h && form_ids_view(
                r->Ok_0.form_ids@,
            ) == ids,
            Err(e) => r is Err && r->Err_0 == structural_error_spec(e),
        },
{
    let (header_record, n) = match parse_record(g, input) {
        Ok(x) => x,
        Err(e) => return Err(structural_error(e)),
    };
    if header_only {
        proof {
            assert(form_ids_view(Seq::<FormId>::empty()) =~= Seq::empty());
        }
        return Ok(PluginData { header_record, form_ids: Vec::new() });
    }
    let masters = match masters_of(&header_record.subrecords) {
        Ok(m) => m,
        Err(e) => return Err(e),
    };
    let raws = match parse_items(g, input, n, input.len(), true) {
        Ok(v) => v,
        Err(e) => return Err(structural_error(e)),
    };
    let ghost ms = strings_view(masters@);
    let mut form_ids: Vec<FormId> = Vec::new();
    let mut i: usize = 0;
    while i < raws.len()
        invariant
            0 <= i <= raws@.len(),
            ms == strings_view(masters@),
            form_ids_view(form_ids@) == resolve_all(ms, own_name@, raws@.take(i as int)),
        decreases raws@.len() - i,
    {
        let f = FormId::new(own_name, &masters, raws[i]);
        proof {
            assert(f@ == resolved(ms, own_name@, raws@[i as int]));
            assert(raws@.take(i + 1) =~= raws@.take(i as int).push(raws@[i as int]));
            let next = form_ids@.push(f);
            let want = resolve_all(ms, own_name@, raws@.take(i + 1));
            assert(form_ids_view(form_ids@).len() == i);
            assert forall|j: int| 0 <= j < i + 1 implies #[trigger] form_ids_view(next)[j] == want[j] by {
                if j < i {
                    assert(next[j] == form_ids@[j]);
                    assert(form_ids_view(form_ids@)[j] == resolve_all(
                        ms,
                        own_name@,
                        raws@.take(i as int),
                    )[j]);
                }
            }
            assert(form_ids_view(form_ids@.push(f)) =~= resolve_all(
                ms,
                own_name@,
                raws@.take(i + 1),
            ));
        }
        form_ids.push(f);
        i = i + 1;
    }
    proof {
        assert(raws@.take(i as int) =~= raws@);
    }
    Ok(PluginData { header_record, form_ids })
}

/// A full parse of a plugin uses every byte of the file: the header record's length
/// and the lengths of the top-level items that follow it add up to the file's length.
pub proof fn lemma_parse_consumes_input(g: GameId, s: Seq<u8>, own_name: Seq<char>)
    requires
        plugin_spec(g, s, own_name, false) is Ok,
    ensures
        record_spec(g, s) is Ok,
        record_spec(g, s)->Ok_0.1 + sum(item_lens(g, s, record_spec(g, s)->Ok_0.1, s.len() as int, true))
            == s.len(),
{
    let n = record_spec(g, s)->Ok_0.1;
    lemma_items_cover_span(g, s, n, s.len() as int, true);
}

/// Reading only the header gives the same header record as a full parse, and no
/// identifiers; what is read from the header (masters, description, count, master
/// flag) therefore agrees too.
pub proof fn lemma_header_only_agrees(g: GameId, s: Seq<u8>, own_name: Seq<char>)
    requires
        plugin_spec(g, s, own_name, false) is Ok,
    ensures
        plugin_spec(g, s, own_name, true) is Ok,
        plugin_spec(g, s, own_name, true)->Ok_0.0 == plugin_spec(g, s, own_name, false)->Ok_0.0,
        plugin_spec(g, s, own_name, true)->Ok_0.1.len() == 0,
{
}

/// Parsing the same bytes twice, for the same game and filename, gives the same result.
pub proof fn lemma_parse_deterministic(
    g: GameId,
    a: Seq<u8>,
    b: Seq<u8>,
    own_name: Seq<char>,
    header_only: bool,
)
    requires
        a == b,
    ensures
        plugin_spec(g, a, own_name, header_only) == plugin_spec(g, b, own_name, header_only),
{
}

} // verus!
