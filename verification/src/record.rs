use vstd::prelude::*;

use crate::paths::{is_sep, split_point, lemma_split_point, find_split_point};

verus! {

/// One trailing NUL terminator removed, when present.
pub open spec fn strip_nul(s: Seq<u8>) -> Seq<u8> {
    if s.len() > 0 && s.last() == 0 {
        s.drop_last()
    } else {
        s
    }
}

/// An ASCII whitespace byte, as trimmed from the end of the record's
/// file-name field.
pub open spec fn is_trail_ws(b: u8) -> bool {
    b == 0x09 || b == 0x0A || b == 0x0B || b == 0x0C || b == 0x0D || b == 0x20
}

/// The sequence with every trailing whitespace byte removed.
pub open spec fn trim_trailing_ws(s: Seq<u8>) -> Seq<u8>
    decreases s.len(),
{
    if s.len() > 0 && is_trail_ws(s.last()) {
        trim_trailing_ws(s.drop_last())
    } else {
        s
    }
}

/// Trimming only ever removes a suffix: the result is a prefix of the input.
pub proof fn lemma_trim_prefix(s: Seq<u8>)
    ensures
        trim_trailing_ws(s).len() <= s.len(),
        trim_trailing_ws(s) == s.take(trim_trailing_ws(s).len() as int),
    decreases s.len(),
{
    if s.len() > 0 && is_trail_ws(s.last()) {
        lemma_trim_prefix(s.drop_last());
        assert(s.drop_last().take(trim_trailing_ws(s).len() as int) =~= s.take(
            trim_trailing_ws(s).len() as int,
        ));
    } else {
        assert(s.take(s.len() as int) =~= s);
    }
}

/// A usable file-name component: non-empty and neither of the two relative
/// directory names.
pub open spec fn name_valid(name: Seq<u8>) -> bool {
    &&& name.len() > 0
    &&& name != seq![0x2Eu8]
    &&& name != seq![0x2Eu8, 0x2Eu8]
}

/// The index of the last dot, -1 when there is none.
pub open spec fn last_dot(name: Seq<u8>) -> int
    decreases name.len(),
{
    if name.len() == 0 {
        -1
    } else if name.last() == 0x2E {
        name.len() - 1
    } else {
        last_dot(name.drop_last())
    }
}

/// The last dot is in bounds, holds a dot, and no dot follows it.
pub proof fn lemma_last_dot(name: Seq<u8>)
    ensures
        -1 <= last_dot(name) < name.len(),
        last_dot(name) >= 0 ==> name[last_dot(name)] == 0x2E,
        forall|i: int| last_dot(name) < i < name.len() ==> name[i] != 0x2E,
    decreases name.len(),
{
    if name.len() == 0 {
    } else if name.last() == 0x2E {
    } else {
        lemma_last_dot(name.drop_last());
        assert forall|i: int| last_dot(name) < i < name.len() implies name[i] != 0x2E by {
            if i < name.len() - 1 {
                assert(name[i] == name.drop_last()[i]);
            } else {
                assert(name[i] == name.last());
            }
        };
        if last_dot(name) >= 0 {
            assert(name[last_dot(name)] == name.drop_last()[last_dot(name)]);
        }
    }
}

/// The file name without its extension: everything before the last dot,
/// unless the dot is absent or leads the name.
pub open spec fn stem_of(name: Seq<u8>) -> Seq<u8> {
    if last_dot(name) > 0 {
        name.subrange(0, last_dot(name))
    } else {
        name
    }
}

/// What the debug record's raw file-name field yields: strip one trailing
/// NUL, trim trailing whitespace, keep what follows the last path separator,
/// and drop the extension. `None` when no usable name component remains.
pub open spec fn stem_from_record_name(t: Seq<u8>) -> Option<Seq<u8>> {
    let cleaned = trim_trailing_ws(strip_nul(t));
    let name = cleaned.subrange(split_point(cleaned), cleaned.len() as int);
    if name_valid(name) {
        Some(stem_of(name))
    } else {
        None
    }
}

/// A record name that yields a stem yields a non-empty one.
pub proof fn lemma_stem_nonempty(t: Seq<u8>)
    ensures
        stem_from_record_name(t) is Some ==> (stem_from_record_name(t)->0).len() > 0,
{
    let cleaned = trim_trailing_ws(strip_nul(t));
    lemma_split_point(cleaned);
    let name = cleaned.subrange(split_point(cleaned), cleaned.len() as int);
    if name_valid(name) {
        lemma_last_dot(name);
    }
}

/// A field that holds only a bare name, with no directory components, keeps
/// that whole name as its file-name component: the derived base name is the
/// bare name's own stem.
pub proof fn lemma_bare_name(t: Seq<u8>)
    requires
        forall|i: int| 0 <= i < t.len() ==> !is_sep(#[trigger] t[i]),
    ensures
        ({
            let cleaned = trim_trailing_ws(strip_nul(t));
            stem_from_record_name(t) == if name_valid(cleaned) {
                Some(stem_of(cleaned))
            } else {
                None::<Seq<u8>>
            }
        }),
{
    let stripped = strip_nul(t);
    let cleaned = trim_trailing_ws(stripped);
    assert(forall|i: int| 0 <= i < stripped.len() ==> !is_sep(#[trigger] stripped[i]));
    lemma_trim_prefix(stripped);
    assert(forall|i: int| 0 <= i < cleaned.len() ==> !is_sep(#[trigger] cleaned[i]));
    lemma_split_point_no_sep(cleaned);
    assert(cleaned.subrange(0, cleaned.len() as int) =~= cleaned);
}

/// A sequence without separators splits at its start.
pub proof fn lemma_split_point_no_sep(s: Seq<u8>)
    requires
        forall|i: int| 0 <= i < s.len() ==> !is_sep(#[trigger] s[i]),
    ensures
        split_point(s) == 0,
    decreases s.len(),
{
    if s.len() > 0 {
        assert(!is_sep(s.last()));
        assert(forall|i: int| 0 <= i < s.drop_last().len() ==> !is_sep(#[trigger] s.drop_last()[i]));
        lemma_split_point_no_sep(s.drop_last());
    }
}

/// True when the vector ends in an ASCII whitespace byte.
fn has_trailing_ws(v: &Vec<u8>) -> (r: bool)
    ensures
        r == (v@.len() > 0 && is_trail_ws(v@.last())),
{
    if v.len() == 0 {
        return false;
    }
    let b = v[v.len() - 1];
    b == 0x09 || b == 0x0A || b == 0x0B || b == 0x0C || b == 0x0D || b == 0x20
}

/// The index of the last dot, `None` when there is none.
fn find_last_dot(v: &Vec<u8>) -> (r: Option<usize>)
    ensures
        match r {
            Some(k) => last_dot(v@) == k as int,
            None => last_dot(v@) == -1,
        },
{
    let mut i: usize = v.len();
    proof {
        assert(v@.subrange(0, i as int) =~= v@);
    }
    while i > 0
        invariant
            i <= v@.len(),
            last_dot(v@) == last_dot(v@.subrange(0, i as int)),
        decreases i,
    {
        if v[i - 1] == 0x2E {
            proof {
                let pre = v@.subrange(0, i as int);
                assert(pre.last() == 0x2E);
            }
            return Some(i - 1);
        }
        proof {
            let pre = v@.subrange(0, i as int);
            assert(pre.last() != 0x2E);
            assert(pre.drop_last() =~= v@.subrange(0, i as int - 1));
        }
        i = i - 1;
    }
    proof {
        assert(v@.subrange(0, 0) =~= Seq::<u8>::empty());
    }
    None
}

/// Cleans the debug record's raw file-name field and extracts the stem of
/// its file-name component, exactly as [`stem_from_record_name`] describes.
pub fn extract_stem(raw: Vec<u8>) -> (r: Option<Vec<u8>>)
    ensures
        r is Some <==> stem_from_record_name(raw@) is Some,
        r is Some ==> r->0@ == stem_from_record_name(raw@)->0,
{
    let ghost orig = raw@;
    let mut name = raw;
    if name.len() > 0 && name[name.len() - 1] == 0 {
        name.pop();
        proof {
            assert(orig.drop_last() =~= orig.subrange(0, orig.len() - 1));
        }
    }
    proof {
        assert(name@ == strip_nul(orig));
    }
    while has_trailing_ws(&name)
        invariant
            trim_trailing_ws(name@) == trim_trailing_ws(strip_nul(orig)),
        decreases name@.len(),
    {
        let ghost before = name@;
        name.pop();
        proof {
            assert(before.drop_last() =~= before.subrange(0, before.len() - 1));
            assert(name@ == before.drop_last());
        }
    }
    proof {
        assert(name@ == trim_trailing_ws(strip_nul(orig)));
    }
    let ghost cleaned = name@;
    let cut = find_split_point(name.as_slice());
    proof {
        lemma_split_point(cleaned);
    }
    let mut base: Vec<u8> = Vec::new();
    let mut i = cut;
    while i < name.len()
        invariant
            cut <= i <= name@.len(),
            cut == split_point(name@),
            name@ == cleaned,
            base@ == cleaned.subrange(cut as int, i as int),
        decreases name@.len() - i,
    {
        base.push(name[i]);
        proof {
            assert(cleaned.subrange(cut as int, i as int).push(cleaned[i as int]) =~= cleaned
                .subrange(cut as int, i + 1));
        }
        i = i + 1;
    }
    let ghost spec_name = cleaned.subrange(split_point(cleaned), cleaned.len() as int);
    proof {
        assert(base@ == spec_name);
    }
    if base.len() == 0 {
        return None;
    }
    if base.len() == 1 && base[0] == 0x2E {
        proof {
            assert(base@ =~= seq![0x2Eu8]);
        }
        return None;
    }
    if base.len() == 2 && base[0] == 0x2E && base[1] == 0x2E {
        proof {
            assert(base@ =~= seq![0x2Eu8, 0x2Eu8]);
        }
        return None;
    }
    proof {
        if base@.len() == 1 && base@ == seq![0x2Eu8] {
            assert(base@[0] == 0x2E);
        }
        if base@.len() == 2 && base@ == seq![0x2Eu8, 0x2Eu8] {
            assert(base@[0] == 0x2E && base@[1] == 0x2E);
        }
        assert(name_valid(base@));
    }
    proof {
        lemma_last_dot(base@);
    }
    match find_last_dot(&base) {
        Some(k) => {
            if k > 0 {
                base.truncate(k);
            }
        },
        None => {},
    }
    proof {
        assert(base@ == stem_of(spec_name));
    }
    Some(base)
}

} // verus!
