use pdb_locator::errors::{ParseError, StageError};
use pdb_locator::hex::format_signature;
use pdb_locator::paths::derive_locator;
use pdb_locator::pe::parse_module;
use pdb_locator::record::extract_stem;
use pdb_locator::transfer::{check_fetch_response, plan_extraction};

fn put_u16(v: &mut Vec<u8>, off: usize, x: u16) {
    v[off..off + 2].copy_from_slice(&x.to_le_bytes());
}

fn put_u32(v: &mut Vec<u8>, off: usize, x: u32) {
    v[off..off + 4].copy_from_slice(&x.to_le_bytes());
}

const SIG: [u8; 16] = [
    0xDE, 0xAD, 0xBE, 0xEF, 0x01, 0x02, 0x03, 0x04, 0x05, 0x06, 0x07, 0x08, 0x09, 0x0A, 0x0B, 0x0C,
];
const SIG_TOKEN: &str = "EFBEADDE0201040305060708090A0B0C";

/// A minimal 64-bit module image: one section mapping virtual address 0x1000
/// to file offset 0x200, a one-entry debug directory there, and the debug
/// record itself at file offset 0x240.
fn build_module(sig: [u8; 16], name: &[u8]) -> Vec<u8> {
    let mut v = vec![0u8; 0x300];
    v[0] = 0x4D;
    v[1] = 0x5A;
    put_u32(&mut v, 0x3C, 0x40);
    v[0x40] = b'P';
    v[0x41] = b'E';
    let pe = 0x40;
    put_u16(&mut v, pe + 4 + 2, 1); // one section
    put_u16(&mut v, pe + 4 + 16, 240); // optional header size
    let opt = pe + 24;
    put_u16(&mut v, opt, 0x20B);
    put_u32(&mut v, opt + 108, 16); // data-directory count
    put_u32(&mut v, opt + 112 + 48, 0x1000); // debug directory address
    put_u32(&mut v, opt + 112 + 52, 28); // debug directory size
    let sect = opt + 240;
    put_u32(&mut v, sect + 12, 0x1000); // section virtual address
    put_u32(&mut v, sect + 16, 0x200); // raw data size
    put_u32(&mut v, sect + 20, 0x200); // raw data offset
    let tbl = 0x200;
    put_u32(&mut v, tbl + 12, 2); // entry type: the recognized record
    let cv = 0x240;
    put_u32(&mut v, tbl + 16, (24 + name.len() + 1) as u32);
    put_u32(&mut v, tbl + 24, cv as u32);
    v[cv..cv + 4].copy_from_slice(b"RSDS");
    v[cv + 4..cv + 20].copy_from_slice(&sig);
    put_u32(&mut v, cv + 20, 1); // age
    v[cv + 24..cv + 24 + name.len()].copy_from_slice(name);
    v
}

#[test]
fn signature_token_groups_little_endian() {
    let hex = format_signature(&SIG.to_vec());
    let token = String::from_utf8(hex).unwrap();
    assert_eq!(token.len(), 32);
    assert_eq!(token, SIG_TOKEN);
    assert!(token.bytes().all(|b| b.is_ascii_digit() || (b'A'..=b'F').contains(&b)));
}

#[test]
fn signature_token_decodes_back_to_the_input_bytes() {
    let token = SIG_TOKEN.as_bytes();
    let val = |c: u8| -> u8 {
        if c.is_ascii_digit() {
            c - b'0'
        } else {
            c - b'A' + 10
        }
    };
    let byte_at = |i: usize| -> u8 { val(token[2 * i]) * 16 + val(token[2 * i + 1]) };
    let mut out = [0u8; 16];
    for k in 0..4 {
        out[k] = byte_at(3 - k); // four-byte little-endian group
    }
    for k in 0..2 {
        out[4 + k] = byte_at(5 - k); // first two-byte little-endian group
    }
    for k in 0..2 {
        out[6 + k] = byte_at(7 - k); // second two-byte little-endian group
    }
    for k in 8..16 {
        out[k] = byte_at(k); // trailing bytes in order
    }
    assert_eq!(out, SIG);
}

#[test]
fn signature_token_of_zero_bytes() {
    let hex = format_signature(&vec![0u8; 16]);
    assert_eq!(String::from_utf8(hex).unwrap(), "00000000000000000000000000000000");
}

#[test]
fn end_to_end_example_module() {
    let module = build_module(SIG, b"example.pdb");
    let id = parse_module(&module).unwrap();
    assert_eq!(id.module_base_name, "example");
    assert_eq!(id.symbol_file_base_name, "example");
    assert_eq!(id.record_signature, SIG_TOKEN);

    let rec = derive_locator(&id, "mods/example.dll");
    assert_eq!(rec.module_file_path, "mods/example.dll");
    assert_eq!(rec.symbol_file_path, "mods/example.pdb");
    assert_eq!(rec.archive_path, "mods/example.cab");
    assert_eq!(
        rec.lookup_key,
        format!("example.pdb/{}1/example.pd_", SIG_TOKEN)
    );
}

#[test]
fn record_with_full_path_keeps_only_the_stem() {
    let module = build_module(SIG, b"D:\\build\\out\\example.pdb");
    let id = parse_module(&module).unwrap();
    assert_eq!(id.module_base_name, "example");
    assert_eq!(id.symbol_file_base_name, "example");
}

#[test]
fn bare_record_name_yields_its_stem() {
    let module = build_module(SIG, b"plain.pdb");
    let id = parse_module(&module).unwrap();
    assert_eq!(id.module_base_name, "plain");

    // the same through the name-cleaning step alone, with no extension at all
    let stem = extract_stem(b"plain\0".to_vec()).unwrap();
    assert_eq!(stem, b"plain".to_vec());
}

/// The same module in the 32-bit optional-header layout, which places the
/// data directories at different offsets.
fn build_module_32bit(sig: [u8; 16], name: &[u8]) -> Vec<u8> {
    let mut v = vec![0u8; 0x300];
    v[0] = 0x4D;
    v[1] = 0x5A;
    put_u32(&mut v, 0x3C, 0x40);
    v[0x40] = b'P';
    v[0x41] = b'E';
    let pe = 0x40;
    put_u16(&mut v, pe + 4 + 2, 1);
    put_u16(&mut v, pe + 4 + 16, 224);
    let opt = pe + 24;
    put_u16(&mut v, opt, 0x10B);
    put_u32(&mut v, opt + 92, 16);
    put_u32(&mut v, opt + 96 + 48, 0x1000);
    put_u32(&mut v, opt + 96 + 52, 28);
    let sect = opt + 224;
    put_u32(&mut v, sect + 12, 0x1000);
    put_u32(&mut v, sect + 16, 0x200);
    put_u32(&mut v, sect + 20, 0x200);
    let tbl = 0x200;
    put_u32(&mut v, tbl + 12, 2);
    let cv = 0x240;
    put_u32(&mut v, tbl + 16, (24 + name.len() + 1) as u32);
    put_u32(&mut v, tbl + 24, cv as u32);
    v[cv..cv + 4].copy_from_slice(b"RSDS");
    v[cv + 4..cv + 20].copy_from_slice(&sig);
    put_u32(&mut v, cv + 20, 1);
    v[cv + 24..cv + 24 + name.len()].copy_from_slice(name);
    v
}

#[test]
fn thirty_two_bit_layout_parses_too() {
    let module = build_module_32bit(SIG, b"example.pdb");
    let id = parse_module(&module).unwrap();
    assert_eq!(id.module_base_name, "example");
    assert_eq!(id.record_signature, SIG_TOKEN);
}

#[test]
fn stem_edge_cases() {
    assert_eq!(extract_stem(b"name.tar.gz".to_vec()).unwrap(), b"name.tar".to_vec());
    assert_eq!(extract_stem(b".hidden".to_vec()).unwrap(), b".hidden".to_vec());
    assert_eq!(extract_stem(b"trailing.".to_vec()).unwrap(), b"trailing".to_vec());
    assert!(extract_stem(b"".to_vec()).is_none());
    assert!(extract_stem(b".".to_vec()).is_none());
    assert!(extract_stem(b"..".to_vec()).is_none());
    assert!(extract_stem(b"dir/".to_vec()).is_none());
}

#[test]
fn record_name_trailing_junk_is_trimmed() {
    let module = build_module(SIG, b"dir/example.pdb \t");
    let id = parse_module(&module).unwrap();
    assert_eq!(id.module_base_name, "example");
}

#[test]
fn missing_debug_directory_is_reported() {
    let mut module = build_module(SIG, b"example.pdb");
    let opt = 0x40 + 24;
    put_u32(&mut module, opt + 112 + 48, 0); // no debug directory address
    put_u32(&mut module, opt + 112 + 52, 0);
    assert_eq!(parse_module(&module).unwrap_err(), ParseError::MissingDebugDirectory);

    let mut short_dirs = build_module(SIG, b"example.pdb");
    put_u32(&mut short_dirs, opt + 108, 6); // directory table stops before index 6
    assert_eq!(parse_module(&short_dirs).unwrap_err(), ParseError::MissingDebugDirectory);
}

#[test]
fn missing_debug_info_is_reported() {
    let mut module = build_module(SIG, b"example.pdb");
    put_u32(&mut module, 0x200 + 12, 10); // entry of some other type
    assert_eq!(parse_module(&module).unwrap_err(), ParseError::MissingDebugInfo);

    let mut wrong_magic = build_module(SIG, b"example.pdb");
    wrong_magic[0x240] = b'X';
    assert_eq!(parse_module(&wrong_magic).unwrap_err(), ParseError::MissingDebugInfo);
}

#[test]
fn malformed_container_is_reported() {
    assert_eq!(parse_module(&Vec::new()).unwrap_err(), ParseError::MalformedContainer);
    assert_eq!(parse_module(&vec![0u8; 16]).unwrap_err(), ParseError::MalformedContainer);

    let mut module = build_module(SIG, b"example.pdb");
    module[1] = 0; // stub magic gone
    assert_eq!(parse_module(&module).unwrap_err(), ParseError::MalformedContainer);
}

#[test]
fn malformed_record_is_reported() {
    let mut truncated = build_module(SIG, b"example.pdb");
    put_u32(&mut truncated, 0x200 + 16, 10); // record too short for a signature
    assert_eq!(parse_module(&truncated).unwrap_err(), ParseError::MalformedDebugRecord);

    let nameless = build_module(SIG, b"dir\\");
    assert_eq!(parse_module(&nameless).unwrap_err(), ParseError::MalformedDebugRecord);
}

#[test]
fn locator_paths_share_the_module_directory() {
    let module = build_module(SIG, b"example.pdb");
    let id = parse_module(&module).unwrap();

    let unixy = derive_locator(&id, "/opt/game/Managed/example.dll");
    assert_eq!(unixy.symbol_file_path, "/opt/game/Managed/example.pdb");
    assert_eq!(unixy.archive_path, "/opt/game/Managed/example.cab");

    let windowsy = derive_locator(&id, "C:\\game\\example.dll");
    assert_eq!(windowsy.symbol_file_path, "C:\\game\\example.pdb");
    assert_eq!(windowsy.archive_path, "C:\\game\\example.cab");

    let bare = derive_locator(&id, "example.dll");
    assert_eq!(bare.symbol_file_path, "example.pdb");
    assert_eq!(bare.archive_path, "example.cab");
}

#[test]
fn locator_derivation_is_idempotent() {
    let module = build_module(SIG, b"example.pdb");
    let id = parse_module(&module).unwrap();
    let first = derive_locator(&id, "mods/example.dll");
    let second = derive_locator(&id, "mods/example.dll");
    assert_eq!(first.module_file_path, second.module_file_path);
    assert_eq!(first.symbol_file_path, second.symbol_file_path);
    assert_eq!(first.archive_path, second.archive_path);
    assert_eq!(first.lookup_key, second.lookup_key);
}

#[test]
fn fetch_response_rules() {
    assert_eq!(check_fetch_response(404, Some(10)).unwrap_err(), StageError::FetchFailed);
    assert_eq!(check_fetch_response(500, Some(10)).unwrap_err(), StageError::FetchFailed);
    assert_eq!(check_fetch_response(200, None).unwrap_err(), StageError::FetchFailed);
    assert_eq!(check_fetch_response(200, Some(0)).unwrap_err(), StageError::FetchFailed);
    assert_eq!(check_fetch_response(200, Some(5)).unwrap(), 5);
    assert_eq!(check_fetch_response(206, Some(9001)).unwrap(), 9001);
}

#[test]
fn empty_archive_is_corrupt() {
    let none: Vec<String> = Vec::new();
    assert_eq!(plan_extraction(&none).unwrap_err(), StageError::ArchiveCorrupt);
    let some = vec![String::from("example.pdb"), String::from("other.pdb")];
    assert_eq!(plan_extraction(&some).unwrap(), 2);
}

#[test]
fn error_descriptions_name_the_stage() {
    assert_eq!(ParseError::MalformedContainer.describe(), "module container is malformed");
    assert_eq!(ParseError::MissingDebugDirectory.describe(), "module has no debug directory");
    assert_eq!(ParseError::MissingDebugInfo.describe(), "module has no recognized debug record");
    assert_eq!(ParseError::MalformedDebugRecord.describe(), "module debug record is malformed");
    assert_eq!(ParseError::PathEncodingError.describe(), "path cannot be represented as text");
    assert_eq!(StageError::FetchFailed.describe(), "fetching the symbol archive failed");
    assert_eq!(StageError::StorageIOError.describe(), "writing the symbol archive failed");
    assert_eq!(StageError::ArchiveCorrupt.describe(), "symbol archive is corrupt or empty");
    assert_eq!(StageError::CleanupFailed.describe(), "removing the temporary archive failed");
}
