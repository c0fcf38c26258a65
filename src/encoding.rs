//! Standard base64 text (RFC 4648, with padding) and UTF-8 bytes.
use vstd::prelude::*;
use vstd::utf8::encode_utf8;

verus! {

/// The character of the standard base64 alphabet for the six-bit value `v`.
pub open spec fn b64_char(v: int) -> char {
    if v < 26 {
        (v + 65) as char
    } else if v < 52 {
        (v - 26 + 97) as char
    } else if v < 62 {
        (v - 52 + 48) as char
    } else if v == 62 {
        '+'
    } else {
        '/'
    }
}

/// The four characters that stand for the three bytes `a`, `b`, `c`.
pub open spec fn b64_group(a: int, b: int, c: int) -> Seq<char> {
    seq![
        b64_char(a / 4),
        b64_char((a % 4) * 16 + b / 16),
        b64_char((b % 16) * 4 + c / 64),
        b64_char(c % 64),
    ]
}

/// Standard base64 with padding: each group of three bytes becomes four
/// characters; a last group of two bytes ends in one `=`, of one byte in two.
pub open spec fn base64_of(b: Seq<u8>) -> Seq<char>
    decreases b.len(),
{
    if b.len() == 0 {
        seq![]
    } else if b.len() == 1 {
        b64_group(b[0] as int, 0, 0).take(2) + seq!['=', '=']
    } else if b.len() == 2 {
        b64_group(b[0] as int, b[1] as int, 0).take(3) + seq!['=']
    } else {
        b64_group(b[0] as int, b[1] as int, b[2] as int) + base64_of(b.subrange(3, b.len() as int))
    }
}

/// The six-bit value of a character of the standard base64 alphabet.
pub open spec fn b64_value(c: char) -> int {
    if 'A' <= c <= 'Z' {
        c as int - 65
    } else if 'a' <= c <= 'z' {
        c as int - 97 + 26
    } else if '0' <= c <= '9' {
        c as int - 48 + 52
    } else if c == '+' {
        62
    } else {
        63
    }
}

/// The bytes that a group of four characters with the six-bit values `a`,
/// `b`, `c`, `d` stands for: one where the third character is `=`, two where
/// only the fourth is, else three.
pub open spec fn b64_ungroup(a: int, b: int, c: int, d: int, pad3: bool, pad4: bool) -> Seq<u8> {
    let x = (a * 4 + b / 16) as u8;
    let y = ((b % 16) * 16 + c / 4) as u8;
    let z = ((c % 4) * 64 + d) as u8;
    if pad3 {
        seq![x]
    } else if pad4 {
        seq![x, y]
    } else {
        seq![x, y, z]
    }
}

/// Decoding of padded base64 text, group of four characters by group.
pub open spec fn base64_decode(s: Seq<char>) -> Seq<u8>
    decreases s.len(),
{
    if s.len() < 4 {
        seq![]
    } else {
        b64_ungroup(
            b64_value(s[0]),
            b64_value(s[1]),
            b64_value(s[2]),
            b64_value(s[3]),
            s[2] == '=',
            s[3] == '=',
        ) + base64_decode(s.subrange(4, s.len() as int))
    }
}

proof fn lemma_b64_char_not_pad(v: int)
    requires
        0 <= v < 64,
    ensures
        b64_char(v) != '=',
{
}

proof fn lemma_b64_value_of_char(v: int)
    requires
        0 <= v < 64,
    ensures
        b64_value(b64_char(v)) == v,
{
}

proof fn lemma_group_round_trip(x: u8, y: u8, z: u8)
    ensures
        (((x as int / 4) * 4 + ((x as int % 4) * 16 + y as int / 16) / 16) as u8) == x,
        (((((x as int % 4) * 16 + y as int / 16) % 16) * 16 + ((y as int % 16) * 4 + z as int / 64) / 4) as u8) == y,
        ((((((y as int % 16) * 4 + z as int / 64) % 4) * 64 + z as int % 64)) as u8) == z,
{
    assert(((x as int / 4) * 4 + ((x as int % 4) * 16 + y as int / 16) / 16) == x as int) by (nonlinear_arith);
    assert(((((x as int % 4) * 16 + y as int / 16) % 16) * 16 + ((y as int % 16) * 4 + z as int / 64) / 4) == y as int) by (nonlinear_arith);
    assert((((((y as int % 16) * 4 + z as int / 64) % 4) * 64 + z as int % 64)) == z as int) by (nonlinear_arith);
}

/// Decoding the base64 text of `b` gives back `b`.
pub proof fn lemma_base64_round_trip(b: Seq<u8>)
    ensures
        base64_decode(base64_of(b)) == b,
    decreases b.len(),
{
    let s = base64_of(b);
    if b.len() == 0 {
    } else {
        let x = b[0];
        let y = if b.len() >= 2 { b[1] } else { 0u8 };
        let z = if b.len() >= 3 { b[2] } else { 0u8 };
        lemma_group_round_trip(x, y, z);
        lemma_b64_value_of_char(x as int / 4);
        lemma_b64_value_of_char((x as int % 4) * 16 + y as int / 16);
        lemma_b64_value_of_char((y as int % 16) * 4 + z as int / 64);
        lemma_b64_value_of_char(z as int % 64);
        let va = x as int / 4;
        let vb = (x as int % 4) * 16 + y as int / 16;
        let vc = (y as int % 16) * 4 + z as int / 64;
        let vd = z as int % 64;
        lemma_b64_char_not_pad(vc);
        lemma_b64_char_not_pad(vd);
        if b.len() >= 3 {
            let rest = b.subrange(3, b.len() as int);
            lemma_base64_round_trip(rest);
            assert(s == b64_group(x as int, y as int, z as int) + base64_of(rest));
            assert(s.subrange(4, s.len() as int) =~= base64_of(rest));
            assert(b64_ungroup(va, vb, vc, vd, s[2] == '=', s[3] == '=') =~= seq![x, y, z]);
            assert(b =~= seq![x, y, z] + rest);
        } else if b.len() == 2 {
            assert(s.subrange(4, s.len() as int) =~= Seq::<char>::empty());
            assert(b64_ungroup(va, vb, vc, vd, s[2] == '=', s[3] == '=') =~= seq![x, y]);
            assert(b =~= seq![x, y]);
        } else {
            assert(s.subrange(4, s.len() as int) =~= Seq::<char>::empty());
            assert(b64_ungroup(va, vb, vc, vd, s[2] == '=', s[3] == '=') =~= seq![x]);
            assert(b =~= seq![x]);
        }
        assert(base64_decode(s) == b64_ungroup(va, vb, vc, vd, s[2] == '=', s[3] == '=') + base64_decode(
            s.subrange(4, s.len() as int),
        ));
    }
}

/// The UTF-8 bytes of two texts one after the other are the bytes of each,
/// one after the other.
pub proof fn lemma_utf8_concat(a: Seq<char>, b: Seq<char>)
    ensures
        encode_utf8(a + b) == encode_utf8(a) + encode_utf8(b),
    decreases a.len(),
{
    if a.len() == 0 {
        assert(a + b == b);
    } else {
        lemma_utf8_concat(a.drop_first(), b);
        assert((a + b).drop_first() == a.drop_first() + b);
        assert((a + b)[0] == a[0]);
    }
}

/// Relies on base64::encode (0.12), which uses the STANDARD configuration:
/// the standard alphabet, with `=` padding.
#[verifier::external_body]
pub(crate) fn encode_base64(bytes: &[u8]) -> (r: String)
    ensures
        r@ == base64_of(bytes@),
{
    base64::encode(bytes)
}

} // verus!
