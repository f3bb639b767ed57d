use vstd::prelude::*;

verus! {

/// The characters that lossy UTF-8 decoding yields for a byte sequence: a
/// function of the bytes alone, left otherwise unspecified.
pub uninterp spec fn lossy_chars(s: Seq<u8>) -> Seq<char>;

/// Relies on `String::from_utf8_lossy`: the result depends on the bytes
/// alone; bytes below 0x80 decode to the characters with the same code
/// points; only the empty input decodes to the empty string (every invalid
/// sequence still yields a replacement character).
#[verifier::external_body]
pub fn lossy_string(v: &Vec<u8>) -> (r: String)
    ensures
        r@ == lossy_chars(v@),
        (forall|i: int| 0 <= i < v@.len() ==> v@[i] < 0x80) ==> r@ == v@.map_values(|b: u8| b as char),
        v@.len() == 0 <==> r@.len() == 0,
{
    String::from_utf8_lossy(v).into_owned()
}

} // verus!
