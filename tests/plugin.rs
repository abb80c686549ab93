use std::io::Write;
use std::path::Path;

use libespm::form_id::FormId;
use libespm::game_id::GameId;
use libespm::plugin::{Error, Plugin};

fn sub4(ty: &[u8; 4], data: &[u8]) -> Vec<u8> {
    let mut v = ty.to_vec();
    v.extend_from_slice(&(data.len() as u16).to_le_bytes());
    v.extend_from_slice(data);
    v
}

fn sub3(ty: &[u8; 4], data: &[u8]) -> Vec<u8> {
    let mut v = ty.to_vec();
    v.extend_from_slice(&(data.len() as u32).to_le_bytes());
    v.extend_from_slice(data);
    v
}

fn record4(ty: &[u8; 4], flags: u32, form_id: u32, payload: &[u8]) -> Vec<u8> {
    let mut v = ty.to_vec();
    v.extend_from_slice(&(payload.len() as u32).to_le_bytes());
    v.extend_from_slice(&flags.to_le_bytes());
    v.extend_from_slice(&form_id.to_le_bytes());
    v.extend_from_slice(&[0, 0, 0, 0]);
    v.extend_from_slice(payload);
    v
}

fn record3(ty: &[u8; 4], flags: u32, payload: &[u8]) -> Vec<u8> {
    let mut v = ty.to_vec();
    v.extend_from_slice(&(payload.len() as u32).to_le_bytes());
    v.extend_from_slice(&[0, 0, 0, 0]);
    v.extend_from_slice(&flags.to_le_bytes());
    v.extend_from_slice(payload);
    v
}

fn group(body: &[u8]) -> Vec<u8> {
    group_with_size((body.len() + 24) as u32, body)
}

fn group_with_size(total: u32, body: &[u8]) -> Vec<u8> {
    let mut v = b"GRUP".to_vec();
    v.extend_from_slice(&total.to_le_bytes());
    v.extend_from_slice(b"WEAP");
    v.extend_from_slice(&[0; 12]);
    v.extend_from_slice(body);
    v
}

fn hedr4(count: u32) -> Vec<u8> {
    let mut d = vec![0u8; 4];
    d.extend_from_slice(&count.to_le_bytes());
    d.extend_from_slice(&[0; 4]);
    sub4(b"HEDR", &d)
}

fn tes4_header(flags: u32, masters: &[&str], description: Option<&str>, count: u32) -> Vec<u8> {
    let mut payload = hedr4(count);
    if let Some(d) = description {
        let mut text = d.as_bytes().to_vec();
        text.push(0);
        payload.extend(sub4(b"SNAM", &text));
    }
    for m in masters {
        let mut text = m.as_bytes().to_vec();
        text.push(0);
        payload.extend(sub4(b"MAST", &text));
        payload.extend(sub4(b"DATA", &[0; 8]));
    }
    record4(b"TES4", flags, 0, &payload)
}

fn tes3_file(description: &str, count: u32) -> Vec<u8> {
    let mut hedr = vec![0u8; 300];
    hedr[40..40 + description.len()].copy_from_slice(description.as_bytes());
    hedr[296..300].copy_from_slice(&count.to_le_bytes());
    let mut bytes = record3(b"TES3", 0, &sub3(b"HEDR", &hedr));
    bytes.extend(record3(b"GMST", 0, &sub3(b"NAME", b"sKey\0")));
    bytes
}

#[test]
fn skyrim_master_header_only() {
    let mut bytes = tes4_header(1, &["Update.esm"], Some("Main game"), 3);
    bytes.extend(group(&record4(b"WEAP", 0, 0x0000_0ABC, &[1, 2, 3])));
    let mut plugin = Plugin::new(GameId::Skyrim, Path::new("Skyrim.esm"));
    assert!(plugin.parse(&bytes, true).is_ok());
    assert_eq!(plugin.masters().unwrap(), vec!["Update.esm".to_string()]);
    assert!(plugin.is_master_file());
    assert_eq!(plugin.description().unwrap(), Some("Main game".to_string()));
    assert_eq!(plugin.record_and_group_count(), Some(3));
    assert!(plugin.form_ids().is_empty());
}

#[test]
fn oblivion_plugin_full_parse() {
    let mut bytes = tes4_header(0, &["Oblivion.esm"], None, 2);
    let mut body = record4(b"WEAP", 0, 0x0000_0001, &sub4(b"EDID", b"a\0"));
    body.extend(record4(b"ARMO", 0, 0x0100_0002, &[]));
    bytes.extend(group(&body));
    let mut plugin = Plugin::new(GameId::Oblivion, Path::new("Blank.esp"));
    assert!(plugin.parse(&bytes, false).is_ok());
    assert!(!plugin.is_master_file());
    assert_eq!(plugin.description().unwrap(), None);
    let ids = plugin.form_ids();
    assert_eq!(ids.len() as u32, plugin.record_and_group_count().unwrap());
    assert_eq!(ids[0].plugin_name(), "oblivion.esm");
    assert_eq!(ids[0].object_index(), 1);
    assert_eq!(ids[1].plugin_name(), "blank.esp");
    assert_eq!(ids[1].object_index(), 2);
}

#[test]
fn morrowind_master() {
    let bytes = tes3_file("A test plugin\0", 1);
    let mut plugin = Plugin::new(GameId::Morrowind, Path::new("Blank.esm"));
    assert!(plugin.parse(&bytes, false).is_ok());
    assert!(plugin.is_master_file());
    let hedr_text: String = bytes[16 + 8 + 40..16 + 8 + 299].iter().map(|b| *b as char).collect();
    assert!(hedr_text.starts_with("A test plugin\0"));
    assert_eq!(plugin.description().unwrap(), Some(hedr_text));
    assert_eq!(plugin.record_and_group_count(), Some(1));
    assert_eq!(plugin.form_ids().len(), 1);
    assert_eq!(plugin.form_ids()[0].object_index(), 0);
    assert_eq!(plugin.form_ids()[0].plugin_name(), "blank.esm");
}

#[test]
fn morrowind_ghosted_master() {
    let bytes = tes3_file("Ghost\0", 1);
    let mut ghosted = Plugin::new(GameId::Morrowind, Path::new("Blank.esm.ghost"));
    let mut plain = Plugin::new(GameId::Morrowind, Path::new("Blank.esm"));
    assert!(ghosted.parse(&bytes, false).is_ok());
    assert!(plain.parse(&bytes, false).is_ok());
    assert!(ghosted.is_master_file());
    assert_eq!(ghosted.description().unwrap(), plain.description().unwrap());
    assert_eq!(ghosted.masters().unwrap(), plain.masters().unwrap());
    assert_eq!(ghosted.form_ids().len(), plain.form_ids().len());
}

#[test]
fn morrowind_master_flag_by_name() {
    let bytes = tes3_file("x\0", 1);
    for (name, master) in [
        ("Blank.esp", false),
        ("Blank.esp.ghost", false),
        (".esm", false),
        ("Blank.ESM", false),
        ("a.esm", true),
    ] {
        let mut plugin = Plugin::new(GameId::Morrowind, Path::new(name));
        assert!(plugin.parse(&bytes, true).is_ok());
        assert_eq!(plugin.is_master_file(), master, "{}", name);
    }
}

#[test]
fn compressed_header_record() {
    let mut subrecords = hedr4(7);
    subrecords.extend(sub4(b"MAST", b"Skyrim.esm\0"));
    let mut encoder = flate2::write::ZlibEncoder::new(Vec::new(), flate2::Compression::default());
    encoder.write_all(&subrecords).unwrap();
    let packed = encoder.finish().unwrap();
    let mut payload = (subrecords.len() as u32).to_le_bytes().to_vec();
    payload.extend(packed);
    let mut bytes = record4(b"TES4", 0x0004_0000, 0, &payload);
    bytes.extend(group(&record4(b"WEAP", 0x0004_0000, 0x0000_0010, &[9, 9, 9, 9, 9, 9])));
    let mut plugin = Plugin::new(GameId::SkyrimSE, Path::new("Packed.esp"));
    assert!(plugin.parse(&bytes, false).is_ok());
    assert_eq!(plugin.masters().unwrap(), vec!["Skyrim.esm".to_string()]);
    assert_eq!(plugin.record_and_group_count(), Some(7));
    assert_eq!(plugin.form_ids().len(), 1);
    assert_eq!(plugin.form_ids()[0].plugin_name(), "skyrim.esm");
}

#[test]
fn corrupt_compressed_header_is_parsing_error() {
    let bytes = record4(b"TES4", 0x0004_0000, 0, &[4, 0, 0, 0, 1, 2, 3, 4]);
    let mut plugin = Plugin::new(GameId::Skyrim, Path::new("Bad.esp"));
    assert!(matches!(plugin.parse(&bytes, true), Err(Error::ParsingError)));
}

#[test]
fn corrupted_group_size() {
    let good = {
        let mut b = tes4_header(0, &[], None, 1);
        b.extend(group(&record4(b"WEAP", 0, 0x0000_0005, &[])));
        b
    };
    let mut plugin = Plugin::new(GameId::Fallout4, Path::new("Blank.esp"));
    assert!(plugin.parse(&good, false).is_ok());
    let mut bad = tes4_header(0, &[], None, 9);
    let mut body = record4(b"WEAP", 0, 1, &[]);
    body.extend(record4(b"WEAP", 0, 2, &[]));
    bad.extend(group_with_size(24 + 30, &body));
    bad.extend(vec![0u8; 10]);
    assert!(matches!(plugin.parse(&bad, false), Err(Error::ParsingError)));
    assert_eq!(plugin.record_and_group_count(), Some(1));
    assert_eq!(plugin.form_ids().len(), 1);
    assert_eq!(plugin.form_ids()[0].object_index(), 5);
}

#[test]
fn group_size_below_header_is_parsing_error() {
    let mut bytes = tes4_header(0, &[], None, 1);
    bytes.extend(group_with_size(10, &[]));
    let mut plugin = Plugin::new(GameId::Skyrim, Path::new("Blank.esp"));
    assert!(matches!(plugin.parse(&bytes, false), Err(Error::ParsingError)));
}

#[test]
fn nested_groups_in_document_order() {
    let mut inner = record4(b"CELL", 0, 2, &[]);
    inner.extend(record4(b"REFR", 0, 3, &[0; 5]));
    let mut outer = record4(b"CELL", 0, 1, &[]);
    outer.extend(group(&inner));
    outer.extend(record4(b"CELL", 0, 4, &[]));
    let mut bytes = tes4_header(0, &[], None, 0);
    bytes.extend(group(&outer));
    bytes.extend(group(&record4(b"WEAP", 0, 5, &[])));
    let mut plugin = Plugin::new(GameId::FalloutNV, Path::new("Blank.esp"));
    assert!(plugin.parse(&bytes, false).is_ok());
    let objects: Vec<u32> = plugin.form_ids().iter().map(|f| f.object_index()).collect();
    assert_eq!(objects, vec![1, 2, 3, 4, 5]);
}

#[test]
fn truncated_input_is_incomplete() {
    let bytes = tes4_header(0, &[], None, 0);
    let mut plugin = Plugin::new(GameId::Skyrim, Path::new("Blank.esp"));
    assert!(matches!(plugin.parse(&bytes[..bytes.len() - 1], true), Err(Error::ParsingIncomplete)));
    assert!(matches!(plugin.parse(&bytes[..10], true), Err(Error::ParsingIncomplete)));
    let mut full = bytes.clone();
    full.extend(&group(&record4(b"WEAP", 0, 1, &[]))[..30]);
    assert!(matches!(plugin.parse(&full, false), Err(Error::ParsingIncomplete)));
}

#[test]
fn top_level_record_is_parsing_error() {
    let mut bytes = tes4_header(0, &[], None, 0);
    bytes.extend(record4(b"WEAP", 0, 1, &[]));
    let mut plugin = Plugin::new(GameId::Skyrim, Path::new("Blank.esp"));
    assert!(matches!(plugin.parse(&bytes, false), Err(Error::ParsingError)));
    assert!(plugin.parse(&bytes, true).is_ok());
}

#[test]
fn missing_filename() {
    let bytes = tes4_header(0, &[], None, 0);
    let mut plugin = Plugin::new(GameId::Skyrim, Path::new("/"));
    assert_eq!(plugin.filename(), None);
    assert!(matches!(plugin.parse(&bytes, true), Err(Error::NoFilename)));
}

#[test]
fn filename_is_final_component() {
    let plugin = Plugin::new(GameId::Skyrim, Path::new("Data/Blank.esp"));
    assert_eq!(plugin.filename(), Some("Blank.esp".to_string()));
    assert_eq!(plugin.path(), Path::new("Data/Blank.esp"));
    assert_eq!(*plugin.game_id(), GameId::Skyrim);
}

#[test]
fn large_subrecord_size() {
    let big = vec![7u8; 70000];
    let mut payload = hedr4(1);
    payload.extend(sub4(b"XXXX", &(big.len() as u32).to_le_bytes()));
    payload.extend(b"DATA");
    payload.extend(&[0, 0]);
    payload.extend(&big);
    payload.extend(sub4(b"MAST", b"Big.esm\0"));
    let bytes = record4(b"TES4", 0, 0, &payload);
    let mut plugin = Plugin::new(GameId::Skyrim, Path::new("Blank.esp"));
    assert!(plugin.parse(&bytes, true).is_ok());
    assert_eq!(plugin.masters().unwrap(), vec!["Big.esm".to_string()]);
}

#[test]
fn windows_1252_text_is_decoded() {
    let mut text = b"Caf".to_vec();
    text.extend(&[0xE9, 0x80, 0]);
    let payload = [hedr4(0), sub4(b"SNAM", &text)].concat();
    let bytes = record4(b"TES4", 0, 0, &payload);
    let mut plugin = Plugin::new(GameId::Fallout3, Path::new("Blank.esp"));
    assert!(plugin.parse(&bytes, true).is_ok());
    assert_eq!(plugin.description().unwrap(), Some("Caf\u{e9}\u{20ac}".to_string()));
}

#[test]
fn header_only_and_full_agree() {
    let mut bytes = tes4_header(1, &["A.esm", "B.esm"], Some("d"), 4);
    bytes.extend(group(&record4(b"WEAP", 0, 0x0100_0001, &[])));
    let mut full = Plugin::new(GameId::Skyrim, Path::new("C.esp"));
    let mut header = Plugin::new(GameId::Skyrim, Path::new("C.esp"));
    assert!(full.parse(&bytes, false).is_ok());
    assert!(header.parse(&bytes, true).is_ok());
    assert_eq!(full.masters().unwrap(), header.masters().unwrap());
    assert_eq!(full.description().unwrap(), header.description().unwrap());
    assert_eq!(full.record_and_group_count(), header.record_and_group_count());
    assert_eq!(full.is_master_file(), header.is_master_file());
    assert_eq!(full.form_ids().len(), 1);
    assert_eq!(full.form_ids()[0].plugin_name(), "b.esm");
    assert!(header.form_ids().is_empty());
}

#[test]
fn parsing_twice_gives_same_result() {
    let mut bytes = tes4_header(0, &["A.esm"], Some("d"), 4);
    bytes.extend(group(&record4(b"WEAP", 0, 0x0000_0001, &[])));
    let mut a = Plugin::new(GameId::Skyrim, Path::new("C.esp"));
    let mut b = Plugin::new(GameId::Skyrim, Path::new("C.esp"));
    assert!(a.parse(&bytes, false).is_ok());
    assert!(b.parse(&bytes, false).is_ok());
    assert_eq!(a.form_ids(), b.form_ids());
    assert_eq!(a.masters().unwrap(), b.masters().unwrap());
}

#[test]
fn form_id_resolution_saturates_to_own_plugin() {
    let masters = vec!["A.esm".to_string(), "B.esm".to_string()];
    assert_eq!(FormId::new("C.esp", &masters, 0x0000_0001).plugin_name(), "a.esm");
    assert_eq!(FormId::new("C.esp", &masters, 0x0100_0001).plugin_name(), "b.esm");
    assert_eq!(FormId::new("C.esp", &masters, 0x0200_0001).plugin_name(), "c.esp");
    assert_eq!(FormId::new("C.esp", &masters, 0xFF12_3456).plugin_name(), "c.esp");
    assert_eq!(FormId::new("C.esp", &masters, 0xFF12_3456).object_index(), 0x12_3456);
}

#[test]
fn form_id_equality_ignores_case_and_master_index() {
    let a = FormId::new("Blank.esp", &vec![], 0x0100_0005);
    let b = FormId::new("BLANK.ESP", &vec!["Other.esm".to_string()], 0x0200_0005);
    let c = FormId::new("blank.esp", &vec![], 0x0000_0006);
    assert!(a == b);
    assert!(b == a);
    assert!(a == a);
    assert!(a != c);
}

#[test]
fn windows_1252_unassigned_slots_keep_code_point() {
    let payload = [hedr4(0), sub4(b"MAST", &[b'M', 0x81, 0x9F, 0xFF, 0])].concat();
    let bytes = record4(b"TES4", 0, 0, &payload);
    let mut plugin = Plugin::new(GameId::Oblivion, Path::new("Blank.esp"));
    assert!(plugin.parse(&bytes, true).is_ok());
    assert_eq!(plugin.masters().unwrap(), vec!["M\u{81}\u{178}\u{ff}".to_string()]);
}
