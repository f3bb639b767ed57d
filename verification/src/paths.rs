use vstd::prelude::*;
use vstd::string::StringExecFns;
use vstd::string::StringSliceAdditionalSpecFns;
use vstd::utf8::*;

use crate::identity::ModuleIdentity;

verus! {

/// A path separator byte: forward or backward slash. Both encode as a single
/// UTF-8 byte, and neither byte can occur inside the encoding of any other
/// character.
pub open spec fn is_sep(b: u8) -> bool {
    b == 0x2F || b == 0x5C
}

/// The index just after the last separator byte, 0 when there is none: the
/// point where a path's directory part ends and its file name begins.
pub open spec fn split_point(b: Seq<u8>) -> int
    decreases b.len(),
{
    if b.len() == 0 {
        0
    } else if is_sep(b.last()) {
        b.len() as int
    } else {
        split_point(b.drop_last())
    }
}

/// The split point is in bounds, no separator follows it, and it sits right
/// after a separator whenever it is positive.
pub proof fn lemma_split_point(b: Seq<u8>)
    ensures
        0 <= split_point(b) <= b.len(),
        forall|i: int| split_point(b) <= i < b.len() ==> !is_sep(b[i]),
        split_point(b) > 0 ==> is_sep(b[split_point(b) - 1]),
    decreases b.len(),
{
    if b.len() == 0 {
    } else if is_sep(b.last())  {
    } else {
        lemma_split_point(b.drop_last());
        assert forall|i: int| split_point(b) <= i < b.len() implies !is_sep(b[i]) by {
            if i < b.len() - 1 {
                assert(b[i] == b.drop_last()[i]);
            } else {
                assert(b[i] == b.last());
            }
        };
        if split_point(b) > 0 {
            assert(b[split_point(b) - 1] == b.drop_last()[split_point(b) - 1]);
        }
    }
}

/// In valid UTF-8, the position right after a byte below 0x80 is a character
/// boundary: such a byte encodes a one-byte scalar on its own.
proof fn lemma_boundary_after_ascii(b: Seq<u8>, k: int)
    requires
        valid_utf8(b),
        0 <= k < b.len(),
        b[k] < 0x80,
    ensures
        is_char_boundary(b, k + 1),
{
    if k + 1 == b.len() {
        is_char_boundary_start_end_of_seq(b);
    } else {
        is_char_boundary_iff_not_is_continuation_byte(b, k);
        assert(is_char_boundary(b, k));
        valid_utf8_split(b, k);
        let suf = b.subrange(k, b.len() as int);
        assert(valid_utf8(suf));
        assert(suf[0] == b[k]);
        assert(is_leading_byte_width_1(suf[0]));
        assert(length_of_first_scalar(suf) == 1);
        assert(is_char_boundary(suf, 1)) by {
            reveal_with_fuel(is_char_boundary, 2);
        }
        is_char_boundary_iff_not_is_continuation_byte(suf, 1);
        assert(!is_continuation_byte(suf[1]));
        assert(suf[1] == b[k + 1]);
        is_char_boundary_iff_not_is_continuation_byte(b, k + 1);
    }
}

/// The split point of a valid UTF-8 path is always a character boundary.
proof fn lemma_split_point_boundary(b: Seq<u8>)
    requires
        valid_utf8(b),
    ensures
        is_char_boundary(b, split_point(b)),
{
    lemma_split_point(b);
    let sp = split_point(b);
    if sp == 0 {
        assert(is_char_boundary(b, 0));
    } else if sp == b.len() {
        is_char_boundary_start_end_of_seq(b);
    } else {
        assert(is_sep(b[sp - 1]));
        lemma_boundary_after_ascii(b, sp - 1);
    }
}

/// The directory part of a path, separator included: the characters whose
/// encoding ends at the last separator byte, empty when the path holds no
/// separator.
pub open spec fn dir_part(path: Seq<char>) -> Seq<char> {
    decode_utf8(encode_utf8(path).subrange(0, split_point(encode_utf8(path))))
}

/// Everything a download/extraction step needs to know about one module:
/// where the module is, where its symbol file and the temporary archive go,
/// and the symbol-server key the archive is fetched under.
///
/// Constructed once by [`derive_locator`], read-only afterwards.
#[derive(Clone, Debug)]
pub struct LocatorRecord {
    /// The module's own path, unchanged.
    pub module_file_path: String,
    /// The module's directory joined with the symbol file's base name and
    /// the symbol-file extension.
    pub symbol_file_path: String,
    /// The module's directory joined with the module base name and the
    /// archive extension.
    pub archive_path: String,
    /// The path-like key the symbol service serves the archive under.
    pub lookup_key: String,
}

/// What [`derive_locator`] promises of its result: every field is pinned
/// down as a function of the identity and the module path alone.
pub open spec fn locator_matches(r: LocatorRecord, id: ModuleIdentity, path: Seq<char>) -> bool {
    &&& r.module_file_path@ == path
    &&& r.symbol_file_path@ == dir_part(path) + id.symbol_file_base_name@ + ".pdb"@
    &&& r.archive_path@ == dir_part(path) + id.module_base_name@ + ".cab"@
    &&& r.lookup_key@ == id.module_base_name@ + ".pdb/"@ + id.record_signature@ + "1/"@
        + id.module_base_name@ + ".pd_"@
}

/// Finds the index just after the last separator byte, 0 when there is none.
pub fn find_split_point(bytes: &[u8]) -> (r: usize)
    ensures
        r == split_point(bytes@),
{
    let mut i: usize = bytes.len();
    proof {
        assert(bytes@.subrange(0, i as int) =~= bytes@);
    }
    while i > 0
        invariant
            i <= bytes@.len(),
            split_point(bytes@) == split_point(bytes@.subrange(0, i as int)),
        decreases i,
    {
        let b = bytes[i - 1];
        if b == 0x2F || b == 0x5C {
            proof {
                let pre = bytes@.subrange(0, i as int);
                assert(is_sep(pre.last()));
            }
            return i;
        }
        proof {
            let pre = bytes@.subrange(0, i as int);
            assert(!is_sep(pre.last()));
            assert(pre.drop_last() =~= bytes@.subrange(0, i as int - 1));
        }
        i = i - 1;
    }
    proof {
        assert(bytes@.subrange(0, 0) =~= Seq::<u8>::empty());
    }
    0
}

/// Derives the locator record for one module: the lookup key under which the
/// symbol service stores the module's compressed symbol file, and the local
/// paths the download and extraction steps will use. Pure and total; calling
/// it twice on the same inputs gives identical results.
pub fn derive_locator(id: &ModuleIdentity, module_file_path: &str) -> (r: LocatorRecord)
    ensures
        locator_matches(r, *id, module_file_path@),
{
    let bytes = module_file_path.as_bytes();
    let cut = find_split_point(bytes);
    proof {
        encode_utf8_valid_utf8(module_file_path@);
        lemma_split_point_boundary(module_file_path.spec_bytes());
        lemma_split_point(module_file_path.spec_bytes());
    }
    let (dir, _rest) = module_file_path.split_at(cut);
    proof {
        encode_utf8_decode_utf8(dir@);
        assert(dir@ == dir_part(module_file_path@));
    }
    let symbol_file_path = dir.to_owned().concat(id.symbol_file_base_name.as_str()).concat(".pdb");
    let archive_path = dir.to_owned().concat(id.module_base_name.as_str()).concat(".cab");
    let lookup_key = id.module_base_name.clone().concat(".pdb/").concat(
        id.record_signature.as_str(),
    ).concat("1/").concat(id.module_base_name.as_str()).concat(".pd_");
    LocatorRecord {
        module_file_path: module_file_path.to_owned(),
        symbol_file_path,
        archive_path,
        lookup_key,
    }
}

/// The derived symbol-file path and archive path both begin with the
/// module path's own directory part and differ from it only in base name
/// and extension.
pub proof fn lemma_paths_share_parent(r: LocatorRecord, id: ModuleIdentity, path: Seq<char>)
    requires
        locator_matches(r, id, path),
    ensures
        path.take(dir_part(path).len() as int) == dir_part(path),
        r.symbol_file_path@.take(dir_part(path).len() as int) == dir_part(path),
        r.archive_path@.take(dir_part(path).len() as int) == dir_part(path),
        r.symbol_file_path@.skip(dir_part(path).len() as int) == id.symbol_file_base_name@
            + ".pdb"@,
        r.archive_path@.skip(dir_part(path).len() as int) == id.module_base_name@ + ".cab"@,
{
    let pb = encode_utf8(path);
    let sp = split_point(pb);
    let d = dir_part(path);
    encode_utf8_valid_utf8(path);
    lemma_split_point_boundary(pb);
    lemma_split_point(pb);
    decode_utf8_split(pb, sp);
    encode_utf8_decode_utf8(path);
    assert(path =~= d + decode_utf8(pb.subrange(sp, pb.len() as int)));
    assert(path.take(d.len() as int) =~= d);
    assert(r.symbol_file_path@.take(d.len() as int) =~= d);
    assert(r.archive_path@.take(d.len() as int) =~= d);
    assert(r.symbol_file_path@.skip(d.len() as int) =~= id.symbol_file_base_name@ + ".pdb"@);
    assert(r.archive_path@.skip(d.len() as int) =~= id.module_base_name@ + ".cab"@);
}

/// Re-deriving a locator record from the same identity and module path gives
/// byte-identical results: the record is a function of its inputs.
pub proof fn lemma_derive_idempotent(
    r1: LocatorRecord,
    r2: LocatorRecord,
    id: ModuleIdentity,
    path: Seq<char>,
)
    requires
        locator_matches(r1, id, path),
        locator_matches(r2, id, path),
    ensures
        r1.module_file_path@ == r2.module_file_path@,
        r1.symbol_file_path@ == r2.symbol_file_path@,
        r1.archive_path@ == r2.archive_path@,
        r1.lookup_key@ == r2.lookup_key@,
{
}

} // verus!
