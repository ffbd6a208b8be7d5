//! Base64, as the `base64` crate's standard engine writes and reads it.
use base64::engine::general_purpose::STANDARD;
use base64::Engine;
use vstd::prelude::*;

verus! {

/// The character of the standard base64 alphabet for a 6-bit value.
pub open spec fn base64_char(v: int) -> char {
    if v < 26 {
        (65 + v) as char
    } else if v < 52 {
        (97 + v - 26) as char
    } else if v < 62 {
        (48 + v - 52) as char
    } else if v == 62 {
        '+'
    } else {
        '/'
    }
}

/// Standard base64 (RFC 4648, with `=` padding) of `b`.
pub open spec fn base64_spec(b: Seq<u8>) -> Seq<char>
    decreases b.len(),
{
    let x = if b.len() > 0 { b[0] as int } else { 0 };
    let y = if b.len() > 1 { b[1] as int } else { 0 };
    let z = if b.len() > 2 { b[2] as int } else { 0 };
    if b.len() == 0 {
        Seq::empty()
    } else if b.len() == 1 {
        seq![base64_char(x / 4), base64_char((x % 4) * 16), '=', '=']
    } else if b.len() == 2 {
        seq![base64_char(x / 4), base64_char((x % 4) * 16 + y / 16), base64_char((y % 16) * 4), '=']
    } else {
        seq![
            base64_char(x / 4),
            base64_char((x % 4) * 16 + y / 16),
            base64_char((y % 16) * 4 + z / 64),
            base64_char(z % 64),
        ] + base64_spec(b.skip(3))
    }
}

/// `STANDARD.encode`: the padded standard base64 text of `bytes`.
#[verifier::external_body]
pub(crate) fn base64_encode(bytes: &[u8]) -> (r: String)
    ensures
        r@ == base64_spec(bytes@),
{
    STANDARD.encode(bytes)
}

/// `STANDARD.decode`: the bytes whose padded standard base64 text is `text`. The
/// engine requires canonical padding and no stray trailing bits, so it accepts exactly
/// the texts that `base64_spec` produces.
#[verifier::external_body]
pub(crate) fn base64_decode(text: &str) -> (r: Option<Vec<u8>>)
    ensures
        r matches Some(b) ==> base64_spec(b@) == text@,
        r is None ==> forall|b: Seq<u8>| base64_spec(b) != text@,
{
    STANDARD.decode(text).ok()
}


proof fn lemma_char_injective(v: int, w: int)
    requires
        0 <= v < 64,
        0 <= w < 64,
        base64_char(v) == base64_char(w),
    ensures
        v == w,
{
}

proof fn lemma_char_not_pad(v: int)
    requires
        0 <= v < 64,
    ensures
        base64_char(v) != '=',
{
}

proof fn lemma_group_injective(x: int, y: int, z: int, a: int, b: int, c: int)
    requires
        0 <= x < 256,
        0 <= y < 256,
        0 <= z < 256,
        0 <= a < 256,
        0 <= b < 256,
        0 <= c < 256,
        x / 4 == a / 4,
        (x % 4) * 16 + y / 16 == (a % 4) * 16 + b / 16,
        (y % 16) * 4 + z / 64 == (b % 16) * 4 + c / 64,
        z % 64 == c % 64,
    ensures
        x == a && y == b && z == c,
{
    assert(x % 4 == a % 4 && y / 16 == b / 16) by (nonlinear_arith)
        requires
            0 <= x < 256, 0 <= y < 256, 0 <= a < 256, 0 <= b < 256,
            (x % 4) * 16 + y / 16 == (a % 4) * 16 + b / 16;
    assert(y % 16 == b % 16 && z / 64 == c / 64) by (nonlinear_arith)
        requires
            0 <= y < 256, 0 <= z < 256, 0 <= b < 256, 0 <= c < 256,
            (y % 16) * 4 + z / 64 == (b % 16) * 4 + c / 64;
    assert(x == a) by (nonlinear_arith)
        requires x / 4 == a / 4, x % 4 == a % 4, 0 <= x, 0 <= a;
    assert(y == b) by (nonlinear_arith)
        requires y / 16 == b / 16, y % 16 == b % 16, 0 <= y, 0 <= b;
    assert(z == c) by (nonlinear_arith)
        requires z / 64 == c / 64, z % 64 == c % 64, 0 <= z, 0 <= c;
}

/// Distinct byte strings have distinct base64 texts, so the text decodes to one value.
pub proof fn law_base64_injective(a: Seq<u8>, b: Seq<u8>)
    requires
        base64_spec(a) == base64_spec(b),
    ensures
        a == b,
    decreases a.len(),
{
    let ea = base64_spec(a);
    let eb = base64_spec(b);
    if a.len() == 0 || b.len() == 0 {
        if a.len() != 0 || b.len() != 0 {
            assert(ea.len() != eb.len());
        }
        assert(a =~= b);
        return;
    }
    let (x, y, z) = (a[0] as int, if a.len() > 1 { a[1] as int } else { 0 }, if a.len() > 2 { a[2] as int } else { 0 });
    let (p, q, r) = (b[0] as int, if b.len() > 1 { b[1] as int } else { 0 }, if b.len() > 2 { b[2] as int } else { 0 });
    assert(ea[0] == eb[0] && ea[1] == eb[1] && ea[2] == eb[2] && ea[3] == eb[3]);
    lemma_char_injective(x / 4, p / 4);
    if a.len() == 1 || b.len() == 1 {
        if a.len() != 1 {
            lemma_char_not_pad(if a.len() == 2 { (y % 16) * 4 } else { (y % 16) * 4 + z / 64 });
        }
        if b.len() != 1 {
            lemma_char_not_pad(if b.len() == 2 { (q % 16) * 4 } else { (q % 16) * 4 + r / 64 });
        }
        lemma_char_injective((x % 4) * 16, (p % 4) * 16);
        assert(x == p) by (nonlinear_arith)
            requires x / 4 == p / 4, (x % 4) * 16 == (p % 4) * 16, 0 <= x, 0 <= p;
        assert(a =~= b);
        return;
    }
    lemma_char_injective((x % 4) * 16 + y / 16, (p % 4) * 16 + q / 16);
    if a.len() == 2 || b.len() == 2 {
        if a.len() != 2 {
            lemma_char_not_pad(z % 64);
        }
        if b.len() != 2 {
            lemma_char_not_pad(r % 64);
        }
        lemma_char_injective((y % 16) * 4, (q % 16) * 4);
        lemma_group_injective(x, y, 0, p, q, 0);
        assert(a =~= b);
        return;
    }
    lemma_char_injective((y % 16) * 4 + z / 64, (q % 16) * 4 + r / 64);
    lemma_char_injective(z % 64, r % 64);
    lemma_group_injective(x, y, z, p, q, r);
    assert(ea.skip(4) =~= base64_spec(a.skip(3)));
    assert(eb.skip(4) =~= base64_spec(b.skip(3)));
    law_base64_injective(a.skip(3), b.skip(3));
    assert(a =~= seq![a[0], a[1], a[2]] + a.skip(3));
    assert(b =~= seq![b[0], b[1], b[2]] + b.skip(3));
}

} // verus!
