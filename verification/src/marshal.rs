//! Marshalling between the host's managed runtime and Rust values: reading
//! managed (IL2CPP) string objects and framing NUL-terminated byte strings.

use vstd::prelude::*;
use crate::text::{decode_utf16, decode_utf16_units, encode_utf16, lemma_decode_encode_utf16};

verus! {

/// Offset of the 32-bit character count in a managed string object.
pub const IL2CPP_LENGTH_OFFSET: usize = 16;

/// Offset of the first UTF-16 code unit in a managed string object.
pub const IL2CPP_CHARS_OFFSET: usize = 20;

/// Little-endian 16-bit value of the two bytes at `at`.
pub open spec fn le_u16_at(b: Seq<u8>, at: int) -> u16 {
    (b[at] + 256 * b[at + 1]) as u16
}

/// Little-endian 32-bit value of the four bytes at `at`.
pub open spec fn le_u32_at(b: Seq<u8>, at: int) -> u32 {
    (b[at] + 0x100 * b[at + 1] + 0x10000 * b[at + 2] + 0x1000000 * b[at + 3]) as u32
}

/// The code units of UTF-16LE bytes (a trailing odd byte is ignored).
pub open spec fn utf16le_units(bytes: Seq<u8>) -> Seq<u16> {
    Seq::new(bytes.len() / 2, |i: int| le_u16_at(bytes, 2 * i))
}

/// The character count stored in a managed string object.
pub open spec fn il2cpp_length(obj: Seq<u8>) -> u32 {
    le_u32_at(obj, IL2CPP_LENGTH_OFFSET as int)
}

/// The number of bytes a managed string object spans, header included.
pub open spec fn il2cpp_extent(obj: Seq<u8>) -> int {
    IL2CPP_CHARS_OFFSET + 2 * il2cpp_length(obj)
}

/// The code units a managed string object holds.
pub open spec fn il2cpp_units(obj: Seq<u8>) -> Seq<u16> {
    utf16le_units(obj.subrange(IL2CPP_CHARS_OFFSET as int, il2cpp_extent(obj)))
}

/// The header is complete and the byte count of the text fits in 32 bits.
pub open spec fn il2cpp_header_ok(obj: Seq<u8>) -> bool {
    &&& obj.len() >= IL2CPP_CHARS_OFFSET
    &&& 2 * il2cpp_length(obj) <= u32::MAX
}

/// A managed string object that can be read: complete, and its text is
/// well-formed UTF-16.
pub open spec fn il2cpp_readable(obj: Seq<u8>) -> bool {
    &&& il2cpp_header_ok(obj)
    &&& obj.len() >= il2cpp_extent(obj)
    &&& decode_utf16(il2cpp_units(obj)) is Some
}

/// The text of a readable managed string object.
pub open spec fn il2cpp_text(obj: Seq<u8>) -> Seq<char> {
    decode_utf16(il2cpp_units(obj)).unwrap()
}

fn read_le_u32(b: &[u8], at: usize) -> (r: u32)
    requires
        at + 4 <= b@.len(),
    ensures
        r == le_u32_at(b@, at as int),
{
    (b[at] as u32) + (b[at + 1] as u32) * 0x100 + (b[at + 2] as u32) * 0x10000 + (b[at + 3] as u32)
        * 0x1000000
}

/// Total size in bytes of the managed string object whose first bytes are
/// `header`: `None` when the header is incomplete or the size overflows.
pub fn il2cpp_object_size(header: &[u8]) -> (r: Option<usize>)
    ensures
        r is Some <==> il2cpp_header_ok(header@) && il2cpp_extent(header@) <= usize::MAX,
        r matches Some(n) ==> n == il2cpp_extent(header@),
{
    if header.len() < IL2CPP_CHARS_OFFSET {
        return None;
    }
    let len = read_le_u32(header, IL2CPP_LENGTH_OFFSET);
    if len > u32::MAX / 2 {
        return None;
    }
    let bytes = (len as u64) * 2;
    if bytes > (usize::MAX - IL2CPP_CHARS_OFFSET) as u64 {
        return None;
    }
    Some(IL2CPP_CHARS_OFFSET + bytes as usize)
}

/// The code units of the managed string object `object`.
fn il2cpp_code_units(object: &[u8]) -> (r: Vec<u16>)
    requires
        il2cpp_header_ok(object@),
        object@.len() >= il2cpp_extent(object@),
    ensures
        r@ == il2cpp_units(object@),
{
    let len = read_le_u32(object, IL2CPP_LENGTH_OFFSET) as usize;
    let ghost text = object@.subrange(IL2CPP_CHARS_OFFSET as int, il2cpp_extent(object@));
    let mut units: Vec<u16> = Vec::new();
    let mut i: usize = 0;
    while i < len
        invariant
            len == il2cpp_length(object@),
            object.len() >= il2cpp_extent(object@),
            text == object@.subrange(IL2CPP_CHARS_OFFSET as int, il2cpp_extent(object@)),
            i <= len,
            units@ =~= utf16le_units(text).take(i as int),
        decreases len - i,
    {
        let at = IL2CPP_CHARS_OFFSET + 2 * i;
        let u = (object[at] as u16) + (object[at + 1] as u16) * 256;
        assert(u == le_u16_at(text, 2 * i));
        units.push(u);
        i += 1;
    }
    units
}

/// The text of a managed string object laid out in `object`: a 32-bit
/// little-endian character count at offset 16, then that many UTF-16LE code
/// units from offset 20.
pub fn read_il2cpp_str(object: &[u8]) -> (r: String)
    requires
        il2cpp_readable(object@),
    ensures
        r@ == il2cpp_text(object@),
{
    let units = il2cpp_code_units(object);
    match decode_utf16_units(units.as_slice()) {
        Some(s) => s,
        None => {
            assert(false);
            String::new()
        },
    }
}

/// Like [`read_il2cpp_str`], but `None` where that function's precondition
/// fails.
pub fn try_read_il2cpp_str(object: &[u8]) -> (r: Option<String>)
    ensures
        r is Some <==> il2cpp_readable(object@),
        r matches Some(s) ==> s@ == il2cpp_text(object@),
{
    assert(object@.len() == object.len());
    match il2cpp_object_size(object) {
        None => None,
        Some(n) => {
            if object.len() < n {
                return None;
            }
            let units = il2cpp_code_units(object);
            decode_utf16_units(units.as_slice())
        },
    }
}


/// The bytes that `CString::new(s)` holds, terminator included: the UTF-8
/// encoding of `s` followed by one zero byte. `None` when the encoding
/// already holds a zero byte (an interior NUL).
pub fn c_string_bytes(s: &str) -> (r: Option<Vec<u8>>)
    ensures
        r is Some <==> !vstd::utf8::encode_utf8(s@).contains(0u8),
        r matches Some(b) ==> b@ == vstd::utf8::encode_utf8(s@).push(0u8),
{
    let bytes = s.as_bytes();
    let mut out: Vec<u8> = Vec::new();
    let mut i: usize = 0;
    while i < bytes.len()
        invariant
            bytes@ == vstd::utf8::encode_utf8(s@),
            i <= bytes@.len(),
            out@ == bytes@.take(i as int),
            !out@.contains(0u8),
        decreases bytes.len() - i,
    {
        let b = bytes[i];
        if b == 0 {
            assert(bytes@[i as int] == 0u8);
            return None;
        }
        out.push(b);
        assert(out@ =~= bytes@.take(i + 1));
        i += 1;
    }
    assert(out@ =~= bytes@);
    out.push(0u8);
    Some(out)
}

/// Little-endian bytes of a 32-bit value.
pub open spec fn le_u32_bytes(n: u32) -> Seq<u8> {
    seq![(n % 0x100) as u8, (n / 0x100 % 0x100) as u8, (n / 0x10000 % 0x100) as u8, (n / 0x1000000) as u8]
}

/// UTF-16LE bytes of code units.
pub open spec fn utf16le_bytes(u: Seq<u16>) -> Seq<u8>
    decreases u.len(),
{
    if u.len() == 0 {
        seq![]
    } else {
        seq![(u[0] % 0x100) as u8, (u[0] / 0x100) as u8] + utf16le_bytes(u.drop_first())
    }
}

/// A managed string object with the given 16 header bytes that holds `s`.
pub open spec fn il2cpp_object(header: Seq<u8>, s: Seq<char>) -> Seq<u8> {
    let u = encode_utf16(s);
    header + le_u32_bytes(u.len() as u32) + utf16le_bytes(u)
}

proof fn lemma_utf16le_bytes(u: Seq<u16>)
    ensures
        utf16le_bytes(u).len() == 2 * u.len(),
        forall|i: int|
            0 <= i < u.len() ==> #[trigger] le_u16_at(utf16le_bytes(u), 2 * i) == u[i],
    decreases u.len(),
{
    if u.len() > 0 {
        let rest = u.drop_first();
        lemma_utf16le_bytes(rest);
        let b = utf16le_bytes(u);
        let x = u[0];
        assert(x == (x % 0x100) + 0x100 * (x / 0x100)) by (nonlinear_arith);
        assert(x / 0x100 < 0x100) by (nonlinear_arith);
        assert forall|i: int| 0 <= i < u.len() implies #[trigger] le_u16_at(b, 2 * i) == u[i] by {
            if i > 0 {
                assert(le_u16_at(utf16le_bytes(rest), 2 * (i - 1)) == rest[i - 1]);
                assert(b[2 * i] == utf16le_bytes(rest)[2 * (i - 1)]);
                assert(b[2 * i + 1] == utf16le_bytes(rest)[2 * (i - 1) + 1]);
            }
        }
    }
}

proof fn lemma_le_u32_bytes(n: u32)
    ensures
        le_u32_at(le_u32_bytes(n), 0) == n,
{
    let b = le_u32_bytes(n);
    let n0 = n % 0x100;
    let n1 = n / 0x100 % 0x100;
    let n2 = n / 0x10000 % 0x100;
    let n3 = n / 0x1000000;
    assert(n == n0 + 0x100 * n1 + 0x10000 * n2 + 0x1000000 * n3 && n3 < 0x100) by (nonlinear_arith)
        requires
            n0 == n % 0x100,
            n1 == n / 0x100 % 0x100,
            n2 == n / 0x10000 % 0x100,
            n3 == n / 0x1000000,
            n <= u32::MAX,
    ;
    assert(b[0] == n0 && b[1] == n1 && b[2] == n2 && b[3] == n3);
}

/// A managed string object that holds `s` is readable, and reading it gives
/// `s` back, whatever its 16 header bytes are.
pub proof fn lemma_read_il2cpp_object(header: Seq<u8>, s: Seq<char>)
    requires
        header.len() == IL2CPP_LENGTH_OFFSET,
        2 * encode_utf16(s).len() <= u32::MAX,
    ensures
        il2cpp_readable(il2cpp_object(header, s)),
        il2cpp_text(il2cpp_object(header, s)) == s,
{
    let u = encode_utf16(s);
    let n = u.len() as u32;
    let obj = il2cpp_object(header, s);
    let lb = le_u32_bytes(n);
    let tb = utf16le_bytes(u);
    lemma_le_u32_bytes(n);
    lemma_utf16le_bytes(u);
    assert(obj.subrange(16, 20) =~= lb);
    assert(il2cpp_length(obj) == n) by {
        assert(obj[16] == lb[0] && obj[17] == lb[1] && obj[18] == lb[2] && obj[19] == lb[3]);
    }
    assert(obj.subrange(20, il2cpp_extent(obj)) =~= tb);
    assert(il2cpp_units(obj) =~= u) by {
        assert forall|i: int| 0 <= i < u.len() implies #[trigger] il2cpp_units(obj)[i] == u[i] by {
            assert(le_u16_at(tb, 2 * i) == u[i]);
        }
    }
    lemma_decode_encode_utf16(s);
}

} // verus!
