use vstd::prelude::*;

verus! {

/// The ASCII code of the uppercase hexadecimal digit for a value below 16.
pub open spec fn hex_digit(n: int) -> u8
    recommends
        0 <= n < 16,
{
    if n < 10 {
        (0x30 + n) as u8
    } else {
        (0x37 + n) as u8
    }
}

/// True of the ASCII code of an uppercase hexadecimal digit.
pub open spec fn is_upper_hex_digit(b: u8) -> bool {
    (0x30 <= b && b <= 0x39) || (0x41 <= b && b <= 0x46)
}

/// True of an uppercase hexadecimal digit character.
pub open spec fn is_upper_hex_char(c: char) -> bool {
    ('0' <= c && c <= '9') || ('A' <= c && c <= 'F')
}

/// Which of the sixteen signature bytes feeds the `i`-th output digit pair.
///
/// The signature is rendered as a four-byte little-endian group, two two-byte
/// little-endian groups, and then the remaining eight bytes in order, so the
/// bytes of the first three groups are emitted reversed. The map is its own
/// inverse.
pub open spec fn group_source(i: int) -> int {
    if i == 0 {
        3
    } else if i == 1 {
        2
    } else if i == 2 {
        1
    } else if i == 3 {
        0
    } else if i == 4 {
        5
    } else if i == 5 {
        4
    } else if i == 6 {
        7
    } else if i == 7 {
        6
    } else {
        i
    }
}

/// The 32 ASCII bytes of a formatted 16-byte signature: each source byte,
/// taken in the order of [`group_source`], rendered as two uppercase
/// hexadecimal digits.
pub open spec fn signature_hex_bytes(s: Seq<u8>) -> Seq<u8>
    recommends
        s.len() == 16,
{
    Seq::new(
        32,
        |i: int|
            if i % 2 == 0 {
                hex_digit(s[group_source(i / 2)] as int / 16)
            } else {
                hex_digit(s[group_source(i / 2)] as int % 16)
            },
    )
}

/// The formatted signature as characters; every byte of
/// [`signature_hex_bytes`] is ASCII.
pub open spec fn signature_hex(s: Seq<u8>) -> Seq<char> {
    signature_hex_bytes(s).map_values(|b: u8| b as char)
}

/// The numeric value of an uppercase hexadecimal digit's ASCII code.
pub open spec fn hex_value(b: u8) -> int
    recommends
        is_upper_hex_digit(b),
{
    if 0x30 <= b && b <= 0x39 {
        b - 0x30
    } else {
        b - 0x37
    }
}

/// The sixteen bytes recovered from a 32-digit formatted signature, reading
/// each digit pair back through the grouping of [`group_source`].
pub open spec fn signature_unhex(h: Seq<u8>) -> Seq<u8>
    recommends
        h.len() == 32,
{
    Seq::new(
        16,
        |k: int| (hex_value(h[2 * group_source(k)]) * 16 + hex_value(h[2 * group_source(k) + 1])) as u8,
    )
}

/// Every formatted signature is exactly 32 uppercase hexadecimal digits, and
/// reading the digit pairs back through the little-endian grouping reproduces
/// the sixteen input bytes.
pub proof fn lemma_signature_round_trip(s: Seq<u8>)
    requires
        s.len() == 16,
    ensures
        signature_hex(s).len() == 32,
        forall|i: int| 0 <= i < 32 ==> is_upper_hex_char(#[trigger] signature_hex(s)[i]),
        forall|i: int| 0 <= i < 32 ==> is_upper_hex_digit(#[trigger] signature_hex_bytes(s)[i]),
        signature_unhex(signature_hex_bytes(s)) == s,
{
    let h = signature_hex_bytes(s);
    assert forall|i: int| 0 <= i < 32 implies is_upper_hex_digit(#[trigger] h[i]) by {
        let x = s[group_source(i / 2)] as int;
        assert(0 <= x / 16 < 16);
        assert(0 <= x % 16 < 16);
    };
    assert forall|i: int| 0 <= i < 32 implies is_upper_hex_char(#[trigger] signature_hex(s)[i]) by {
        assert(signature_hex(s)[i] == h[i] as char);
        assert(is_upper_hex_digit(h[i]));
    };
    assert forall|k: int| 0 <= k < 16 implies signature_unhex(h)[k] == s[k] by {
        let g = group_source(k);
        assert(group_source(g) == k);
        let x = s[k] as int;
        assert(h[2 * g] == hex_digit(x / 16));
        assert(h[2 * g + 1] == hex_digit(x % 16));
        assert(hex_value(hex_digit(x / 16)) == x / 16);
        assert(hex_value(hex_digit(x % 16)) == x % 16);
        assert(x / 16 * 16 + x % 16 == x);
    };
    assert(signature_unhex(h) =~= s);
}

/// Executable form of [`hex_digit`].
fn hex_digit_ex(n: u8) -> (r: u8)
    requires
        n < 16,
    ensures
        r == hex_digit(n as int),
{
    if n < 10 {
        0x30 + n
    } else {
        0x37 + n
    }
}

/// Appends the two uppercase hexadecimal digits of one byte.
fn push_hex(v: &mut Vec<u8>, x: u8)
    ensures
        final(v)@ == old(v)@ + seq![hex_digit(x as int / 16), hex_digit(x as int % 16)],
{
    let hi = x / 16;
    let lo = x % 16;
    v.push(hex_digit_ex(hi));
    v.push(hex_digit_ex(lo));
    proof {
        assert(v@ =~= old(v)@ + seq![hex_digit(x as int / 16), hex_digit(x as int % 16)]);
    }
}

/// Formats a 16-byte debug-record signature as its 32-digit uppercase
/// hexadecimal token: a four-byte and two two-byte little-endian groups, then
/// the trailing eight bytes in order.
pub fn format_signature(sig: &Vec<u8>) -> (r: Vec<u8>)
    requires
        sig@.len() == 16,
    ensures
        r@ == signature_hex_bytes(sig@),
{
    let mut v: Vec<u8> = Vec::new();
    push_hex(&mut v, sig[3]);
    push_hex(&mut v, sig[2]);
    push_hex(&mut v, sig[1]);
    push_hex(&mut v, sig[0]);
    push_hex(&mut v, sig[5]);
    push_hex(&mut v, sig[4]);
    push_hex(&mut v, sig[7]);
    push_hex(&mut v, sig[6]);
    push_hex(&mut v, sig[8]);
    push_hex(&mut v, sig[9]);
    push_hex(&mut v, sig[10]);
    push_hex(&mut v, sig[11]);
    push_hex(&mut v, sig[12]);
    push_hex(&mut v, sig[13]);
    push_hex(&mut v, sig[14]);
    push_hex(&mut v, sig[15]);
    proof {
        assert(v@ =~= signature_hex_bytes(sig@));
    }
    v
}

} // verus!
