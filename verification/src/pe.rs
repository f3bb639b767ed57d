use vstd::prelude::*;

use crate::errors::ParseError;
use crate::hex::{signature_hex, format_signature, lemma_signature_round_trip};
use crate::identity::ModuleIdentity;
use crate::record::{stem_from_record_name, extract_stem, lemma_stem_nonempty};
use crate::text::{lossy_chars, lossy_string};

verus! {

/// The little-endian 16-bit value at offset `i`.
pub open spec fn u16_at(b: Seq<u8>, i: int) -> int
    recommends
        0 <= i,
        i + 2 <= b.len(),
{
    b[i] + 0x100 * b[i + 1]
}

/// The little-endian 32-bit value at offset `i`.
pub open spec fn u32_at(b: Seq<u8>, i: int) -> int
    recommends
        0 <= i,
        i + 4 <= b.len(),
{
    b[i] + 0x100 * b[i + 1] + 0x10000 * b[i + 2] + 0x1000000 * b[i + 3]
}

/// The legacy stub header is present and carries the container's magic.
pub open spec fn dos_ok(b: Seq<u8>) -> bool {
    b.len() >= 0x40 && b[0] == 0x4D && b[1] == 0x5A
}

/// File offset of the new-style header, as the stub header records it.
pub open spec fn pe_off(b: Seq<u8>) -> int {
    u32_at(b, 0x3C)
}

/// The new-style header signature and the fixed file header are in bounds
/// and the signature matches.
pub open spec fn coff_ok(b: Seq<u8>) -> bool {
    &&& pe_off(b) + 24 <= b.len()
    &&& b[pe_off(b)] == 0x50
    &&& b[pe_off(b) + 1] == 0x45
    &&& b[pe_off(b) + 2] == 0
    &&& b[pe_off(b) + 3] == 0
}

/// Number of entries in the section table.
pub open spec fn num_sections(b: Seq<u8>) -> int {
    u16_at(b, pe_off(b) + 6)
}

/// Declared size of the optional header.
pub open spec fn opt_size(b: Seq<u8>) -> int {
    u16_at(b, pe_off(b) + 20)
}

/// File offset of the optional header.
pub open spec fn opt_off(b: Seq<u8>) -> int {
    pe_off(b) + 24
}

/// The optional header's magic, which selects the 32-bit or 64-bit layout.
pub open spec fn opt_magic(b: Seq<u8>) -> int {
    u16_at(b, opt_off(b))
}

/// Offset of the data-directory count: the two layouts place it differently.
pub open spec fn count_off(b: Seq<u8>) -> int {
    opt_off(b) + if opt_magic(b) == 0x10B {
        92int
    } else {
        108int
    }
}

/// Offset of the first data-directory entry.
pub open spec fn dirs_off(b: Seq<u8>) -> int {
    opt_off(b) + if opt_magic(b) == 0x10B {
        96int
    } else {
        112int
    }
}

/// The structural headers parse: both magic values in place, every fixed
/// region inside the buffer, and a recognized optional-header layout.
pub open spec fn header_ok(b: Seq<u8>) -> bool {
    &&& dos_ok(b)
    &&& coff_ok(b)
    &&& opt_size(b) >= 2
    &&& opt_off(b) + opt_size(b) <= b.len()
    &&& (opt_magic(b) == 0x10B || opt_magic(b) == 0x20B)
    &&& count_off(b) + 4 <= b.len()
}

/// The declared number of data directories.
pub open spec fn dir_count(b: Seq<u8>) -> int {
    u32_at(b, count_off(b))
}

/// Virtual address of the debug directory table (directory index 6).
pub open spec fn debug_rva(b: Seq<u8>) -> int {
    u32_at(b, dirs_off(b) + 48)
}

/// Size in bytes of the debug directory table.
pub open spec fn debug_size(b: Seq<u8>) -> int {
    u32_at(b, dirs_off(b) + 52)
}

/// The debug data directory exists: the directory table reaches index 6 and
/// that entry is non-empty.
pub open spec fn debug_dir_present(b: Seq<u8>) -> bool {
    &&& dir_count(b) >= 7
    &&& dirs_off(b) + 56 <= b.len()
    &&& debug_rva(b) != 0
    &&& debug_size(b) != 0
}

/// File offset of the section table.
pub open spec fn sect_off(b: Seq<u8>) -> int {
    opt_off(b) + opt_size(b)
}

/// The whole section table lies inside the buffer.
pub open spec fn sections_fit(b: Seq<u8>) -> bool {
    sect_off(b) + 40 * num_sections(b) <= b.len()
}

/// Virtual address of section `j`.
pub open spec fn sec_va(b: Seq<u8>, j: int) -> int {
    u32_at(b, sect_off(b) + 40 * j + 12)
}

/// Size of section `j`'s raw data.
pub open spec fn sec_raw_size(b: Seq<u8>, j: int) -> int {
    u32_at(b, sect_off(b) + 40 * j + 16)
}

/// File offset of section `j`'s raw data.
pub open spec fn sec_raw_ptr(b: Seq<u8>, j: int) -> int {
    u32_at(b, sect_off(b) + 40 * j + 20)
}

/// Section `j`'s raw data covers the whole debug directory table.
pub open spec fn section_maps(b: Seq<u8>, j: int) -> bool {
    &&& sec_va(b, j) <= debug_rva(b)
    &&& debug_rva(b) + debug_size(b) <= sec_va(b, j) + sec_raw_size(b, j)
}

/// The first section below `n` whose raw data covers the debug directory,
/// -1 when none does.
pub open spec fn find_section_upto(b: Seq<u8>, n: int) -> int
    decreases n,
{
    if n <= 0 {
        -1
    } else {
        let prev = find_section_upto(b, n - 1);
        if prev >= 0 {
            prev
        } else if section_maps(b, n - 1) {
            n - 1
        } else {
            -1
        }
    }
}

/// Once the scan finds the first covering section, every longer scan agrees.
proof fn lemma_find_section_found(b: Seq<u8>, j: int, n: int)
    requires
        0 <= j < n,
        find_section_upto(b, j) == -1,
        section_maps(b, j),
    ensures
        find_section_upto(b, n) == j,
    decreases n,
{
    if n > j + 1 {
        lemma_find_section_found(b, j, n - 1);
    }
}

/// The section the debug directory is read through.
pub open spec fn mapped_section(b: Seq<u8>) -> int {
    find_section_upto(b, num_sections(b))
}

/// File offset of the debug directory table.
pub open spec fn table_off(b: Seq<u8>) -> int {
    debug_rva(b) - sec_va(b, mapped_section(b)) + sec_raw_ptr(b, mapped_section(b))
}

/// The debug directory table lies inside the buffer.
pub open spec fn table_fits(b: Seq<u8>) -> bool {
    table_off(b) + debug_size(b) <= b.len()
}

/// How many 28-byte entries the debug directory holds.
pub open spec fn entry_count(b: Seq<u8>) -> int {
    debug_size(b) / 28
}

/// The type tag of debug directory entry `i`.
pub open spec fn entry_type(b: Seq<u8>, i: int) -> int {
    u32_at(b, table_off(b) + 28 * i + 12)
}

/// The first debug directory entry below `n` with the recognized type tag,
/// -1 when none has it.
pub open spec fn find_entry_upto(b: Seq<u8>, n: int) -> int
    decreases n,
{
    if n <= 0 {
        -1
    } else {
        let prev = find_entry_upto(b, n - 1);
        if prev >= 0 {
            prev
        } else if entry_type(b, n - 1) == 2 {
            n - 1
        } else {
            -1
        }
    }
}

/// Once the scan finds the first recognized entry, every longer scan agrees.
proof fn lemma_find_entry_found(b: Seq<u8>, i: int, n: int)
    requires
        0 <= i < n,
        find_entry_upto(b, i) == -1,
        entry_type(b, i) == 2,
    ensures
        find_entry_upto(b, n) == i,
    decreases n,
{
    if n > i + 1 {
        lemma_find_entry_found(b, i, n - 1);
    }
}

/// The debug directory entry the record is read from.
pub open spec fn cv_entry(b: Seq<u8>) -> int {
    find_entry_upto(b, entry_count(b))
}

/// Declared size of the selected debug record.
pub open spec fn cv_size(b: Seq<u8>) -> int {
    u32_at(b, table_off(b) + 28 * cv_entry(b) + 16)
}

/// File offset of the selected debug record.
pub open spec fn cv_ptr(b: Seq<u8>) -> int {
    u32_at(b, table_off(b) + 28 * cv_entry(b) + 24)
}

/// The record holds at least its magic, signature and age, and lies inside
/// the buffer.
pub open spec fn record_fits(b: Seq<u8>) -> bool {
    cv_size(b) >= 24 && cv_ptr(b) + cv_size(b) <= b.len()
}

/// The record opens with the magic of the recognized signature-plus-file-name
/// sub-format.
pub open spec fn magic_ok(b: Seq<u8>) -> bool {
    &&& b[cv_ptr(b)] == 0x52
    &&& b[cv_ptr(b) + 1] == 0x53
    &&& b[cv_ptr(b) + 2] == 0x44
    &&& b[cv_ptr(b) + 3] == 0x53
}

/// The record's 16-byte signature field.
pub open spec fn sig_bytes(b: Seq<u8>) -> Seq<u8> {
    b.subrange(cv_ptr(b) + 4, cv_ptr(b) + 20)
}

/// The record's trailing file-name field, as raw bytes.
pub open spec fn name_field(b: Seq<u8>) -> Seq<u8> {
    b.subrange(cv_ptr(b) + 24, cv_ptr(b) + cv_size(b))
}

/// What parsing a module's bytes yields: the stem of the debug record's
/// embedded file name together with the record's 16 signature bytes, or the
/// error naming what failed. A container whose headers, section table or
/// directory-to-file mapping do not parse is malformed; a container without
/// a usable debug data directory lacks the directory; a directory without a
/// recognized record (by type tag or record magic) lacks debug info; and a
/// truncated record, or one whose file name yields no usable component, is a
/// malformed record.
pub open spec fn parse_spec(b: Seq<u8>) -> Result<(Seq<u8>, Seq<u8>), ParseError> {
    if !header_ok(b) {
        Err(ParseError::MalformedContainer)
    } else if !debug_dir_present(b) {
        Err(ParseError::MissingDebugDirectory)
    } else if !sections_fit(b) {
        Err(ParseError::MalformedContainer)
    } else if mapped_section(b) < 0 {
        Err(ParseError::MalformedContainer)
    } else if !table_fits(b) {
        Err(ParseError::MalformedContainer)
    } else if cv_entry(b) < 0 {
        Err(ParseError::MissingDebugInfo)
    } else if !record_fits(b) {
        Err(ParseError::MalformedDebugRecord)
    } else if !magic_ok(b) {
        Err(ParseError::MissingDebugInfo)
    } else {
        match stem_from_record_name(name_field(b)) {
            Some(stem) => Ok((stem, sig_bytes(b))),
            None => Err(ParseError::MalformedDebugRecord),
        }
    }
}

/// The byte at offset `off`.
fn byte_at(b: &Vec<u8>, off: u64) -> (r: u8)
    requires
        off < b@.len(),
    ensures
        r == b@[off as int],
{
    let n: usize = b.len();
    let i: usize = off as usize;
    proof {
        assert(off < n as u64);
    }
    b[i]
}

/// Reads the little-endian 16-bit value at offset `off`.
fn read_u16(b: &Vec<u8>, off: u64) -> (r: u16)
    requires
        off + 2 <= b@.len(),
    ensures
        r as int == u16_at(b@, off as int),
{
    let n: usize = b.len();
    let i: usize = off as usize;
    proof {
        assert(off + 2 <= n as u64);
    }
    (b[i] as u16) + (b[i + 1] as u16) * 0x100
}

/// Reads the little-endian 32-bit value at offset `off`.
fn read_u32(b: &Vec<u8>, off: u64) -> (r: u32)
    requires
        off + 4 <= b@.len(),
    ensures
        r as int == u32_at(b@, off as int),
{
    let n: usize = b.len();
    let i: usize = off as usize;
    proof {
        assert(off + 4 <= n as u64);
    }
    (b[i] as u32) + (b[i + 1] as u32) * 0x100 + (b[i + 2] as u32) * 0x10000 + (b[i + 3] as u32)
        * 0x1000000
}

/// Parses a module's raw bytes into its debug-record identity.
///
/// Pure over the in-memory buffer: the caller reads the module file first.
/// On success the identity is well-formed, its base names are the lossy
/// decoding of the record's file-name stem, and its signature token is the
/// uppercase hexadecimal rendering of the record's 16 signature bytes; on
/// failure the error is exactly the one [`parse_spec`] assigns to the input.
pub fn parse_module(bytes: &Vec<u8>) -> (r: Result<ModuleIdentity, ParseError>)
    ensures
        match r {
            Ok(id) => {
                &&& parse_spec(bytes@) is Ok
                &&& id.wf()
                &&& id.module_base_name@ == lossy_chars(parse_spec(bytes@)->Ok_0.0)
                &&& id.symbol_file_base_name@ == lossy_chars(parse_spec(bytes@)->Ok_0.0)
                &&& id.record_signature@ == signature_hex(parse_spec(bytes@)->Ok_0.1)
            },
            Err(e) => parse_spec(bytes@) == Err::<(Seq<u8>, Seq<u8>), ParseError>(e),
        },
{
    let ghost b = bytes@;
    let len: u64 = bytes.len() as u64;

    // Stub header and new-style header signature.
    if len < 0x40 {
        return Err(ParseError::MalformedContainer);
    }
    if byte_at(bytes, 0) != 0x4D || byte_at(bytes, 1) != 0x5A {
        return Err(ParseError::MalformedContainer);
    }
    let pe: u64 = read_u32(bytes, 0x3C) as u64;
    proof {
        assert(pe as int == pe_off(b));
    }
    if pe + 24 > len {
        return Err(ParseError::MalformedContainer);
    }
    if byte_at(bytes, pe) != 0x50 || byte_at(bytes, pe + 1) != 0x45 || byte_at(bytes, pe + 2) != 0
        || byte_at(bytes, pe + 3) != 0 {
        return Err(ParseError::MalformedContainer);
    }
    let nsec: u64 = read_u16(bytes, pe + 6) as u64;
    let optsz: u64 = read_u16(bytes, pe + 20) as u64;
    let opt: u64 = pe + 24;
    proof {
        assert(nsec as int == num_sections(b));
        assert(optsz as int == opt_size(b));
        assert(opt as int == opt_off(b));
    }

    // Optional header layout and the data-directory count.
    if optsz < 2 || opt + optsz > len {
        return Err(ParseError::MalformedContainer);
    }
    let magic = read_u16(bytes, opt);
    proof {
        assert(magic as int == opt_magic(b));
    }
    if magic != 0x10B && magic != 0x20B {
        return Err(ParseError::MalformedContainer);
    }
    let cnt_off: u64 = opt + if magic == 0x10B {
        92
    } else {
        108
    };
    let dirs: u64 = opt + if magic == 0x10B {
        96
    } else {
        112
    };
    proof {
        assert(cnt_off as int == count_off(b));
        assert(dirs as int == dirs_off(b));
    }
    if cnt_off + 4 > len {
        return Err(ParseError::MalformedContainer);
    }
    proof {
        assert(header_ok(b));
    }

    // The debug data directory itself.
    let dcount: u64 = read_u32(bytes, cnt_off) as u64;
    proof {
        assert(dcount as int == dir_count(b));
    }
    if dcount < 7 || dirs + 56 > len {
        return Err(ParseError::MissingDebugDirectory);
    }
    let rva: u64 = read_u32(bytes, dirs + 48) as u64;
    let dsize: u64 = read_u32(bytes, dirs + 52) as u64;
    proof {
        assert(rva as int == debug_rva(b));
        assert(dsize as int == debug_size(b));
    }
    if rva == 0 || dsize == 0 {
        return Err(ParseError::MissingDebugDirectory);
    }
    proof {
        assert(debug_dir_present(b));
    }

    // Section table, and the section whose raw data covers the directory.
    let sect: u64 = opt + optsz;
    proof {
        assert(sect as int == sect_off(b));
    }
    if sect + 40 * nsec > len {
        return Err(ParseError::MalformedContainer);
    }
    proof {
        assert(sections_fit(b));
    }
    let mut j: u64 = 0;
    let mut found = false;
    let mut map_va: u64 = 0;
    let mut map_ptr: u64 = 0;
    while j < nsec && !found
        invariant
            j <= nsec,
            nsec as int == num_sections(b),
            rva as int == debug_rva(b),
            dsize as int == debug_size(b),
            sect as int == sect_off(b),
            sect + 40 * nsec <= len,
            len == b.len(),
            b == bytes@,
            !found ==> find_section_upto(b, j as int) == -1,
            found ==> j < nsec && mapped_section(b) == j as int && map_va as int == sec_va(
                b,
                j as int,
            ) && map_ptr as int == sec_raw_ptr(b, j as int) && section_maps(b, j as int),
        decreases nsec - j, (if found { 0int } else { 1int }),
    {
        let va: u64 = read_u32(bytes, sect + 40 * j + 12) as u64;
        let rsz: u64 = read_u32(bytes, sect + 40 * j + 16) as u64;
        let rptr: u64 = read_u32(bytes, sect + 40 * j + 20) as u64;
        proof {
            assert(va as int == sec_va(b, j as int));
            assert(rsz as int == sec_raw_size(b, j as int));
            assert(rptr as int == sec_raw_ptr(b, j as int));
        }
        if va <= rva && rva + dsize <= va + rsz {
            proof {
                assert(section_maps(b, j as int));
                lemma_find_section_found(b, j as int, num_sections(b));
            }
            found = true;
            map_va = va;
            map_ptr = rptr;
        } else {
            proof {
                assert(!section_maps(b, j as int));
                assert(find_section_upto(b, j as int + 1) == -1);
            }
            j = j + 1;
        }
    }
    if !found {
        proof {
            assert(mapped_section(b) == -1);
        }
        return Err(ParseError::MalformedContainer);
    }

    // The debug directory table in file offsets.
    let tbl: u64 = rva - map_va + map_ptr;
    proof {
        assert(tbl as int == table_off(b));
    }
    if tbl + dsize > len {
        return Err(ParseError::MalformedContainer);
    }
    proof {
        assert(table_fits(b));
    }

    // The entry of the recognized type.
    let nent: u64 = dsize / 28;
    proof {
        assert(nent as int == entry_count(b));
        assert(28 * (dsize as int / 28) <= dsize as int);
    }
    let mut i: u64 = 0;
    let mut efound = false;
    while i < nent && !efound
        invariant
            i <= nent,
            nent as int == entry_count(b),
            tbl as int == table_off(b),
            tbl + dsize <= len,
            dsize as int == debug_size(b),
            28 * nent <= dsize,
            len == b.len(),
            b == bytes@,
            !efound ==> find_entry_upto(b, i as int) == -1,
            efound ==> i < nent && cv_entry(b) == i as int,
        decreases nent - i, (if efound { 0int } else { 1int }),
    {
        let ety: u64 = read_u32(bytes, tbl + 28 * i + 12) as u64;
        proof {
            assert(ety as int == entry_type(b, i as int));
        }
        if ety == 2 {
            proof {
                lemma_find_entry_found(b, i as int, entry_count(b));
            }
            efound = true;
        } else {
            proof {
                assert(find_entry_upto(b, i as int + 1) == -1);
            }
            i = i + 1;
        }
    }
    if !efound {
        proof {
            assert(cv_entry(b) == -1);
        }
        return Err(ParseError::MissingDebugInfo);
    }

    // The record's bounds and magic.
    let csz: u64 = read_u32(bytes, tbl + 28 * i + 16) as u64;
    let cp: u64 = read_u32(bytes, tbl + 28 * i + 24) as u64;
    proof {
        assert(csz as int == cv_size(b));
        assert(cp as int == cv_ptr(b));
    }
    if csz < 24 || cp + csz > len {
        return Err(ParseError::MalformedDebugRecord);
    }
    proof {
        assert(record_fits(b));
    }
    if byte_at(bytes, cp) != 0x52 || byte_at(bytes, cp + 1) != 0x53 || byte_at(bytes, cp + 2)
        != 0x44 || byte_at(bytes, cp + 3) != 0x53 {
        return Err(ParseError::MissingDebugInfo);
    }
    proof {
        assert(magic_ok(b));
    }

    // The 16 signature bytes.
    let mut sig: Vec<u8> = Vec::new();
    let mut k: u64 = 0;
    while k < 16
        invariant
            k <= 16,
            cp as int == cv_ptr(b),
            cp + 24 <= len,
            len == b.len(),
            b == bytes@,
            sig@ == b.subrange(cp as int + 4, cp as int + 4 + k as int),
        decreases 16 - k,
    {
        let ghost before = sig@;
        sig.push(byte_at(bytes, cp + 4 + k));
        proof {
            assert(before.push(b[cp as int + 4 + k as int]) =~= b.subrange(
                cp as int + 4,
                cp as int + 4 + (k + 1),
            ));
        }
        k = k + 1;
    }
    proof {
        assert(sig@ =~= sig_bytes(b));
    }

    // The trailing file-name field.
    let mut name: Vec<u8> = Vec::new();
    let mut m: u64 = 24;
    while m < csz
        invariant
            24 <= m <= csz,
            cp as int == cv_ptr(b),
            csz as int == cv_size(b),
            cp + csz <= len,
            len == b.len(),
            b == bytes@,
            name@ == b.subrange(cp as int + 24, cp as int + m as int),
        decreases csz - m,
    {
        let ghost before = name@;
        name.push(byte_at(bytes, cp + m));
        proof {
            assert(before.push(b[cp as int + m as int]) =~= b.subrange(
                cp as int + 24,
                cp as int + (m + 1),
            ));
        }
        m = m + 1;
    }
    proof {
        assert(name@ =~= name_field(b));
    }

    // Base name and formatted signature.
    let stem = match extract_stem(name) {
        Some(stem) => stem,
        None => {
            return Err(ParseError::MalformedDebugRecord);
        },
    };
    proof {
        lemma_stem_nonempty(name_field(b));
    }
    let hex_digits = format_signature(&sig);
    proof {
        lemma_signature_round_trip(sig@);
        assert(forall|q: int| 0 <= q < hex_digits@.len() ==> hex_digits@[q] < 0x80);
    }
    let signature_token = lossy_string(&hex_digits);
    proof {
        assert(signature_token@ =~= signature_hex(sig_bytes(b)));
    }
    let base = lossy_string(&stem);
    let symbol_base = base.clone();
    let id = ModuleIdentity {
        module_base_name: base,
        record_signature: signature_token,
        symbol_file_base_name: symbol_base,
    };
    proof {
        assert(id.wf());
    }
    Ok(id)
}

} // verus!
