//! UTF-16, the encoding of the host's wide strings and managed strings:
//! encoding and decoding, and the lemmas that relate the two.

use vstd::prelude::*;
use vstd::utf8::is_scalar;

verus! {

broadcast use {vstd::utf8::char_is_scalar, vstd::utf8::char_u32_cast};

/// `String::push` from std: appends one character.
#[verifier::external_body]
pub(crate) fn push_char(s: &mut String, c: char)
    ensures
        final(s)@ == old(s)@.push(c),
{
    s.push(c);
}

/// `char::from_u32` from std: `Some` exactly for Unicode scalar values,
/// holding the character with that code point.
#[verifier::external_body]
pub(crate) fn char_from_u32(v: u32) -> (r: Option<char>)
    ensures
        r == (if is_scalar(v) { Some(v as char) } else { None::<char> }),
{
    char::from_u32(v)
}

/// The characters of a string slice, in order.
pub fn str_chars(s: &str) -> (v: Vec<char>)
    ensures
        v@ == s@,
{
    let mut v: Vec<char> = Vec::new();
    for c in it: s.chars()
        invariant
            v@ == it.seq().take(it.index() as int),
    {
        v.push(c);
    }
    v
}

pub open spec fn is_high_surrogate(u: u16) -> bool {
    0xD800 <= u && u <= 0xDBFF
}

pub open spec fn is_low_surrogate(u: u16) -> bool {
    0xDC00 <= u && u <= 0xDFFF
}

pub open spec fn is_surrogate(u: u16) -> bool {
    0xD800 <= u && u <= 0xDFFF
}

/// The UTF-16 code units of one character: one unit below U+10000,
/// otherwise a high/low surrogate pair.
pub open spec fn utf16_of_char(c: char) -> Seq<u16> {
    let v = c as u32;
    if v < 0x10000 {
        seq![v as u16]
    } else {
        let w = (v - 0x10000) as u32;
        seq![(0xD800 + w / 0x400) as u16, (0xDC00 + w % 0x400) as u16]
    }
}

/// The UTF-16 encoding of a character sequence.
pub open spec fn encode_utf16(s: Seq<char>) -> Seq<u16>
    decreases s.len(),
{
    if s.len() == 0 {
        seq![]
    } else {
        utf16_of_char(s[0]) + encode_utf16(s.drop_first())
    }
}

/// The code point that a surrogate pair stands for.
pub open spec fn pair_code_point(hi: u16, lo: u16) -> u32 {
    (0x10000 + (hi - 0xD800) * 0x400 + (lo - 0xDC00)) as u32
}

/// Decoding of UTF-16 code units: `None` when some surrogate is unpaired.
pub open spec fn decode_utf16(u: Seq<u16>) -> Option<Seq<char>>
    decreases u.len(),
{
    if u.len() == 0 {
        Some(seq![])
    } else if !is_surrogate(u[0]) {
        match decode_utf16(u.drop_first()) {
            Some(r) => Some(seq![(u[0] as u32) as char] + r),
            None => None,
        }
    } else if is_high_surrogate(u[0]) && u.len() >= 2 && is_low_surrogate(u[1]) {
        match decode_utf16(u.subrange(2, u.len() as int)) {
            Some(r) => Some(seq![pair_code_point(u[0], u[1]) as char] + r),
            None => None,
        }
    } else {
        None
    }
}

/// `rest` with `p` in front of it, when there is one.
pub open spec fn prepend(p: Seq<char>, rest: Option<Seq<char>>) -> Option<Seq<char>> {
    match rest {
        Some(r) => Some(p + r),
        None => None,
    }
}

proof fn lemma_encode_utf16_append(a: Seq<char>, b: Seq<char>)
    ensures
        encode_utf16(a + b) == encode_utf16(a) + encode_utf16(b),
    decreases a.len(),
{
    if a.len() == 0 {
        assert(a + b =~= b);
    } else {
        assert((a + b).drop_first() =~= a.drop_first() + b);
        lemma_encode_utf16_append(a.drop_first(), b);
    }
}

proof fn lemma_encode_utf16_single(c: char)
    ensures
        encode_utf16(seq![c]) == utf16_of_char(c),
{
    assert(seq![c].drop_first() =~= Seq::<char>::empty());
    assert(encode_utf16(Seq::<char>::empty()) =~= Seq::<u16>::empty());
    assert(utf16_of_char(c) + Seq::<u16>::empty() =~= utf16_of_char(c));
}

/// Facts on the units of one character: how the decoder reads them back.
proof fn lemma_utf16_of_char(c: char)
    ensures
        ({
            let u = utf16_of_char(c);
            let v = c as u32;
            if v < 0x10000 {
                u.len() == 1 && !is_surrogate(u[0]) && (u[0] as u32) == v
            } else {
                u.len() == 2 && is_high_surrogate(u[0]) && is_low_surrogate(u[1])
                    && pair_code_point(u[0], u[1]) == v
            }
        }),
{
    let v = c as u32;
    assert(is_scalar(v));
    if v >= 0x10000 {
        let w = (v - 0x10000) as u32;
        assert(w < 0x100000);
        assert(w / 0x400 < 0x400);
        assert(w % 0x400 < 0x400);
        assert(w == (w / 0x400) * 0x400 + w % 0x400);
    }
}


proof fn lemma_pair_round_trip(hi: u16, lo: u16)
    requires
        is_high_surrogate(hi),
        is_low_surrogate(lo),
    ensures
        ({
            let v = pair_code_point(hi, lo);
            &&& 0x10000 <= v <= 0x10FFFF
            &&& is_scalar(v)
            &&& ((v - 0x10000) as u32) / 0x400 == hi - 0xD800
            &&& ((v - 0x10000) as u32) % 0x400 == lo - 0xDC00
        }),
{
    let a: int = hi - 0xD800;
    let b: int = lo - 0xDC00;
    let w: int = a * 0x400 + b;
    assert(0 <= a < 0x400 && 0 <= b < 0x400);
    assert(0 <= w < 0x100000) by (nonlinear_arith)
        requires
            0 <= a < 0x400,
            0 <= b < 0x400,
            w == a * 0x400 + b,
    ;
    assert(w / 0x400 == a && w % 0x400 == b) by (nonlinear_arith)
        requires
            0 <= a < 0x400,
            0 <= b < 0x400,
            w == a * 0x400 + b,
    ;
}

/// Decoding what was encoded gives the characters back.
pub proof fn lemma_decode_encode_utf16(s: Seq<char>)
    ensures
        decode_utf16(encode_utf16(s)) == Some(s),
    decreases s.len(),
{
    if s.len() == 0 {
        assert(encode_utf16(s) =~= Seq::<u16>::empty());
    } else {
        let c = s[0];
        let rest = s.drop_first();
        let u = utf16_of_char(c);
        let e = encode_utf16(s);
        lemma_decode_encode_utf16(rest);
        lemma_utf16_of_char(c);
        assert(e == u + encode_utf16(rest));
        if (c as u32) < 0x10000 {
            assert(e.drop_first() =~= encode_utf16(rest));
            assert(e[0] == u[0]);
            vstd::utf8::char_u32_cast(c, e[0] as u32);
            assert(seq![c] + rest =~= s);
        } else {
            assert(e.subrange(2, e.len() as int) =~= encode_utf16(rest));
            assert(e[0] == u[0] && e[1] == u[1]);
            vstd::utf8::char_u32_cast(c, pair_code_point(e[0], e[1]));
            assert(seq![c] + rest =~= s);
        }
    }
}

/// Whatever decodes successfully is the encoding of what it decodes to.
pub proof fn lemma_encode_decode_utf16(u: Seq<u16>)
    requires
        decode_utf16(u) is Some,
    ensures
        encode_utf16(decode_utf16(u).unwrap()) == u,
    decreases u.len(),
{
    if u.len() == 0 {
        assert(encode_utf16(Seq::<char>::empty()) =~= u);
    } else if !is_surrogate(u[0]) {
        let rest = u.drop_first();
        lemma_encode_decode_utf16(rest);
        let r = decode_utf16(rest).unwrap();
        let c = (u[0] as u32) as char;
        let s = seq![c] + r;
        assert(s.drop_first() =~= r);
        assert((c as u32) == (u[0] as u32));
        assert(utf16_of_char(c) =~= seq![u[0]]);
        assert(encode_utf16(s) =~= u);
    } else {
        let rest = u.subrange(2, u.len() as int);
        lemma_encode_decode_utf16(rest);
        lemma_pair_round_trip(u[0], u[1]);
        let r = decode_utf16(rest).unwrap();
        let v = pair_code_point(u[0], u[1]);
        let c = v as char;
        let s = seq![c] + r;
        assert(s.drop_first() =~= r);
        assert((c as u32) == v);
        assert(utf16_of_char(c) =~= seq![u[0], u[1]]);
        assert(encode_utf16(s) =~= u);
    }
}

/// The UTF-16 code units of a string slice.
pub fn encode_utf16_str(s: &str) -> (r: Vec<u16>)
    ensures
        r@ == encode_utf16(s@),
{
    let chars = str_chars(s);
    let mut r: Vec<u16> = Vec::new();
    let mut i: usize = 0;
    while i < chars.len()
        invariant
            i <= chars.len(),
            chars@ == s@,
            r@ == encode_utf16(chars@.take(i as int)),
        decreases chars.len() - i,
    {
        let c = chars[i];
        let v = c as u32;
        if v < 0x10000 {
            r.push(v as u16);
        } else {
            let w = v - 0x10000;
            r.push((0xD800 + w / 0x400) as u16);
            r.push((0xDC00 + w % 0x400) as u16);
        }
        proof {
            lemma_encode_utf16_append(chars@.take(i as int), seq![c]);
            lemma_encode_utf16_single(c);
            assert(chars@.take(i + 1) =~= chars@.take(i as int) + seq![c]);
        }
        i += 1;
    }
    assert(chars@.take(chars.len() as int) =~= chars@);
    r
}

/// Decodes UTF-16 code units; `None` when a surrogate is unpaired.
pub fn decode_utf16_units(units: &[u16]) -> (r: Option<String>)
    ensures
        match r {
            Some(t) => decode_utf16(units@) == Some(t@),
            None => decode_utf16(units@) is None,
        },
{
    let n = units.len();
    let mut out = String::new();
    let mut i: usize = 0;
    assert(units@.skip(0) =~= units@);
    while i < n
        invariant
            n == units@.len(),
            i <= n,
            decode_utf16(units@) == prepend(out@, decode_utf16(units@.skip(i as int))),
        decreases n - i,
    {
        let x = units[i];
        let ghost tail = units@.skip(i as int);
        if x < 0xD800 || x > 0xDFFF {
            let c = char_from_u32(x as u32).unwrap();
            let ghost before = out@;
            push_char(&mut out, c);
            proof {
                assert(tail.drop_first() =~= units@.skip(i + 1));
                match decode_utf16(units@.skip(i + 1)) {
                    Some(rr) => {
                        assert(before + (seq![c] + rr) =~= out@ + rr);
                    },
                    None => {},
                }
            }
            i += 1;
        } else if x <= 0xDBFF && i + 1 < n && units[i + 1] >= 0xDC00 && units[i + 1] <= 0xDFFF {
            let y = units[i + 1];
            let v: u32 = 0x10000 + (x as u32 - 0xD800) * 0x400 + (y as u32 - 0xDC00);
            proof {
                lemma_pair_round_trip(x, y);
                assert(v == pair_code_point(x, y));
            }
            let c = char_from_u32(v).unwrap();
            let ghost before = out@;
            push_char(&mut out, c);
            proof {
                assert(tail.subrange(2, tail.len() as int) =~= units@.skip(i + 2));
                match decode_utf16(units@.skip(i + 2)) {
                    Some(rr) => {
                        assert(before + (seq![c] + rr) =~= out@ + rr);
                    },
                    None => {},
                }
            }
            i += 2;
        } else {
            return None;
        }
    }
    proof {
        assert(units@.skip(n as int) =~= Seq::<u16>::empty());
        assert(out@ + Seq::<char>::empty() =~= out@);
    }
    Some(out)
}

} // verus!
