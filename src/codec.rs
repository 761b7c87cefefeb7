use base64::engine::general_purpose::STANDARD;
use base64::Engine;
use vstd::prelude::*;

verus! {

/// The character of the standard base64 alphabet for a six-bit value.
pub open spec fn sextet_char(v: u8) -> char {
    if v < 26 {
        ((65 + v) as u8) as char
    } else if v < 52 {
        ((71 + v) as u8) as char
    } else if v < 62 {
        ((v - 4) as u8) as char
    } else if v == 62 {
        '+'
    } else {
        '/'
    }
}

/// The six-bit value of a character of the standard base64 alphabet.
pub open spec fn sextet_value(c: char) -> u8 {
    let n = c as u32;
    if 65 <= n <= 90 {
        (n - 65) as u8
    } else if 97 <= n <= 122 {
        (n - 71) as u8
    } else if 48 <= n <= 57 {
        (n + 4) as u8
    } else if c == '+' {
        62
    } else {
        63
    }
}

/// Standard base64 text of a byte sequence: each group of three bytes
/// becomes four characters, and a final group of one or two bytes is padded
/// with `=` up to four characters.
pub open spec fn b64_encode(p: Seq<u8>) -> Seq<char>
    decreases p.len(),
{
    if p.len() == 0 {
        Seq::empty()
    } else if p.len() == 1 {
        seq![sextet_char(p[0] >> 2), sextet_char((p[0] & 3) << 4), '=', '=']
    } else if p.len() == 2 {
        seq![
            sextet_char(p[0] >> 2),
            sextet_char(((p[0] & 3) << 4) | (p[1] >> 4)),
            sextet_char((p[1] & 15) << 2),
            '=',
        ]
    } else {
        seq![
            sextet_char(p[0] >> 2),
            sextet_char(((p[0] & 3) << 4) | (p[1] >> 4)),
            sextet_char(((p[1] & 15) << 2) | (p[2] >> 6)),
            sextet_char(p[2] & 63),
        ] + b64_encode(p.subrange(3, p.len() as int))
    }
}

/// The bytes that standard base64 text stands for, read four characters at a
/// time; a group whose third or fourth character is `=` ends the text.
pub open spec fn b64_decode(s: Seq<char>) -> Seq<u8>
    decreases s.len(),
{
    if s.len() < 4 {
        Seq::empty()
    } else {
        let a = sextet_value(s[0]);
        let b = sextet_value(s[1]);
        let c = sextet_value(s[2]);
        let d = sextet_value(s[3]);
        let x0 = ((a & 63) << 2) | (b >> 4);
        let x1 = ((b & 15) << 4) | (c >> 2);
        let x2 = ((c & 3) << 6) | d;
        if s[2] == '=' {
            seq![x0]
        } else if s[3] == '=' {
            seq![x0, x1]
        } else {
            seq![x0, x1, x2] + b64_decode(s.subrange(4, s.len() as int))
        }
    }
}

/// Text that is exactly the base64 encoding of the bytes it decodes to.
pub open spec fn is_canonical(s: Seq<char>) -> bool {
    b64_encode(b64_decode(s)) == s
}

proof fn lemma_sextet(v: u8)
    requires
        v < 64,
    ensures
        sextet_value(sextet_char(v)) == v,
        sextet_char(v) != '=',
{
}

proof fn lemma_group1(x: u8)
    ensures
        ((((x >> 2) & 63) << 2) | (((x & 3) << 4) >> 4)) == x,
        x >> 2 < 64,
        (x & 3) << 4 < 64,
{
    assert(((((x >> 2) & 63) << 2) | (((x & 3) << 4) >> 4)) == x) by (bit_vector);
    assert(x >> 2 < 64) by (bit_vector);
    assert((x & 3) << 4 < 64) by (bit_vector);
}

proof fn lemma_group2(x: u8, y: u8)
    ensures
        ((((x >> 2) & 63) << 2) | ((((x & 3) << 4) | (y >> 4)) >> 4)) == x,
        (((((x & 3) << 4) | (y >> 4)) & 15) << 4) | (((y & 15) << 2) >> 2) == y,
        ((x & 3) << 4) | (y >> 4) < 64,
        (y & 15) << 2 < 64,
        x >> 2 < 64,
{
    assert(((((x >> 2) & 63) << 2) | ((((x & 3) << 4) | (y >> 4)) >> 4)) == x) by (bit_vector);
    assert((((((x & 3) << 4) | (y >> 4)) & 15) << 4) | (((y & 15) << 2) >> 2) == y)
        by (bit_vector);
    assert(((x & 3) << 4) | (y >> 4) < 64) by (bit_vector);
    assert((y & 15) << 2 < 64) by (bit_vector);
    assert(x >> 2 < 64) by (bit_vector);
}

proof fn lemma_group3(x: u8, y: u8, z: u8)
    ensures
        (((((x & 3) << 4) | (y >> 4)) & 15) << 4) | ((((y & 15) << 2) | (z >> 6)) >> 2) == y,
        ((((((y & 15) << 2) | (z >> 6)) & 3) << 6) | (z & 63)) == z,
        ((y & 15) << 2) | (z >> 6) < 64,
        z & 63 < 64,
{
    assert((((((x & 3) << 4) | (y >> 4)) & 15) << 4) | ((((y & 15) << 2) | (z >> 6)) >> 2)
        == y) by (bit_vector);
    assert(((((((y & 15) << 2) | (z >> 6)) & 3) << 6) | (z & 63)) == z) by (bit_vector);
    assert(((y & 15) << 2) | (z >> 6) < 64) by (bit_vector);
    assert(z & 63 < 64) by (bit_vector);
}

/// Decoding the base64 text of any bytes, empty or holding any value,
/// gives those bytes back, so that text is canonical.
pub proof fn lemma_round_trip(p: Seq<u8>)
    ensures
        b64_decode(b64_encode(p)) == p,
        is_canonical(b64_encode(p)),
    decreases p.len(),
{
    let s = b64_encode(p);
    if p.len() == 0 {
    } else if p.len() == 1 {
        lemma_group1(p[0]);
        lemma_sextet(p[0] >> 2);
        lemma_sextet((p[0] & 3) << 4);
        assert(b64_decode(s) =~= p);
    } else if p.len() == 2 {
        lemma_group2(p[0], p[1]);
        lemma_sextet(p[0] >> 2);
        lemma_sextet(((p[0] & 3) << 4) | (p[1] >> 4));
        lemma_sextet((p[1] & 15) << 2);
        assert(b64_decode(s) =~= p);
    } else {
        let rest = p.subrange(3, p.len() as int);
        lemma_round_trip(rest);
        lemma_group2(p[0], p[1]);
        lemma_group3(p[0], p[1], p[2]);
        lemma_sextet(p[0] >> 2);
        lemma_sextet(((p[0] & 3) << 4) | (p[1] >> 4));
        lemma_sextet(((p[1] & 15) << 2) | (p[2] >> 6));
        lemma_sextet(p[2] & 63);
        assert(s.subrange(4, s.len() as int) =~= b64_encode(rest));
        assert(b64_decode(s) =~= seq![p[0], p[1], p[2]] + rest);
        assert(seq![p[0], p[1], p[2]] + rest =~= p);
    }
}

/// Relies on base64's `STANDARD` engine `encode`: standard alphabet, `=` padding.
#[verifier::external_body]
fn base64_standard_encode(bytes: &[u8]) -> (r: String)
    ensures
        r@ == b64_encode(bytes@),
{
    STANDARD.encode(bytes)
}

/// Relies on base64's `STANDARD` engine `decode`: text that is the padded
/// standard encoding of some bytes decodes to exactly those bytes.
#[verifier::external_body]
fn base64_standard_decode(text: &str) -> (r: Option<Vec<u8>>)
    ensures
        is_canonical(text@) ==> r.is_some() && r.unwrap()@ == b64_decode(text@),
{
    STANDARD.decode(text).ok()
}

/// Encodes a payload as standard base64 text; total and lossless.
pub fn encode_payload(bytes: &[u8]) -> (r: String)
    ensures
        r@ == b64_encode(bytes@),
        b64_decode(r@) == bytes@,
{
    proof {
        lemma_round_trip(bytes@);
    }
    base64_standard_encode(bytes)
}

/// Decodes base64 text; the text of any payload gives that payload back.
pub fn decode_payload(text: &str) -> (r: Option<Vec<u8>>)
    ensures
        is_canonical(text@) ==> r.is_some() && r.unwrap()@ == b64_decode(text@),
        forall|p: Seq<u8>| text@ == b64_encode(p) ==> r.is_some() && r.unwrap()@ == p,
{
    let r = base64_standard_decode(text);
    proof {
        assert forall|p: Seq<u8>| text@ == b64_encode(p) implies r.is_some() && r.unwrap()@ == p by {
            lemma_round_trip(p);
        }
    }
    r
}

} // verus!
