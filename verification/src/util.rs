//! Locating code in the host process: wide module names, the image size in
//! a module's PE headers, and byte-pattern scans over a module's image.

use vstd::prelude::*;
use crate::marshal::le_u32_at;
use crate::text::{decode_utf16, encode_utf16, encode_utf16_str, lemma_decode_encode_utf16};

verus! {

/// A NUL-terminated wide (UTF-16) string, as the Win32 wide API takes.
pub fn __wide_str(value: &str) -> (r: Vec<u16>)
    ensures
        r@ == encode_utf16(value@).push(0u16),
{
    let mut r = encode_utf16_str(value);
    r.push(0u16);
    r
}

/// A wide string read back up to its terminator gives the original text.
pub proof fn lemma_wide_str_round_trip(value: Seq<char>)
    ensures
        ({
            let w = encode_utf16(value).push(0u16);
            &&& w.last() == 0u16
            &&& decode_utf16(w.drop_last()) == Some(value)
        }),
{
    let e = encode_utf16(value);
    assert(e.push(0u16).drop_last() =~= e);
    lemma_decode_encode_utf16(value);
}

/// Offset of `e_lfanew` (the offset of the NT headers) in the DOS header.
pub const E_LFANEW_OFFSET: usize = 0x3C;

/// Offset of `OptionalHeader.SizeOfImage` in the 64-bit NT headers:
/// signature (4 bytes), file header (20 bytes), then 56 bytes into the
/// optional header.
pub const SIZE_OF_IMAGE_OFFSET: usize = 80;

/// The signed 32-bit little-endian value of the four bytes at `at`.
pub open spec fn le_i32_at(b: Seq<u8>, at: int) -> int {
    let v = le_u32_at(b, at);
    if v < 0x8000_0000 { v as int } else { v - 0x1_0000_0000 }
}

/// The address of the NT headers of the module loaded at `base`, whose DOS
/// header is `dos_header`: `None` when the header is too short, or when
/// `e_lfanew` is negative or puts the headers past the end of the address
/// space.
pub fn nt_headers_address(base: usize, dos_header: &[u8]) -> (r: Option<usize>)
    ensures
        r is Some <==> (dos_header@.len() >= E_LFANEW_OFFSET + 4
            && 0 <= le_i32_at(dos_header@, E_LFANEW_OFFSET as int)
            && base + le_i32_at(dos_header@, E_LFANEW_OFFSET as int) <= usize::MAX),
        r matches Some(a) ==> a == base + le_i32_at(dos_header@, E_LFANEW_OFFSET as int),
{
    if dos_header.len() < E_LFANEW_OFFSET + 4 {
        return None;
    }
    let at = E_LFANEW_OFFSET;
    let v: u32 = (dos_header[at] as u32) + (dos_header[at + 1] as u32) * 0x100 + (dos_header[at + 2] as u32)
        * 0x10000 + (dos_header[at + 3] as u32) * 0x1000000;
    if v >= 0x8000_0000 {
        return None;
    }
    let off = v as usize;
    if base > usize::MAX - off {
        return None;
    }
    Some(base + off)
}

/// `OptionalHeader.SizeOfImage` from the 64-bit NT headers `nt_headers`:
/// `None` when they are too short to hold it.
pub fn size_of_image(nt_headers: &[u8]) -> (r: Option<u32>)
    ensures
        r is Some <==> nt_headers@.len() >= SIZE_OF_IMAGE_OFFSET + 4,
        r matches Some(n) ==> n == le_u32_at(nt_headers@, SIZE_OF_IMAGE_OFFSET as int),
{
    if nt_headers.len() < SIZE_OF_IMAGE_OFFSET + 4 {
        return None;
    }
    let at = SIZE_OF_IMAGE_OFFSET;
    Some((nt_headers[at] as u32) + (nt_headers[at + 1] as u32) * 0x100 + (nt_headers[at + 2] as u32) * 0x10000
        + (nt_headers[at + 3] as u32) * 0x1000000)
}

/// What `patternscan::scan` gives for `pattern` over the bytes `data` (read
/// through a `Cursor`): the match offsets, or `None` for its error.
pub uninterp spec fn scan_result(data: Seq<u8>, pattern: Seq<char>) -> Option<Seq<usize>>;

/// Each offset is greater than the one before it.
pub open spec fn strictly_increasing(m: Seq<usize>) -> bool {
    forall|i: int, j: int| 0 <= i < j < m.len() ==> #[trigger] m[i] < #[trigger] m[j]
}

/// Calls `patternscan::scan` on a `Cursor` over `data`. Its result depends on
/// the bytes and the pattern alone (a `Cursor` over a slice never fails to
/// read), so it is named `scan_result`; its error becomes `None`. The offsets
/// come out in strictly increasing order: the crate's iterator adds one to its
/// position before each comparison and reports that position less one. Which
/// offsets they are is not stated: the crate reads in fixed-size chunks and
/// compares a pattern that overruns the data against its zero-filled buffer,
/// so an offset it reports is not always a place where the whole pattern lies
/// inside `data`.
#[verifier::external_body]
fn scan_bytes(data: &[u8], pattern: &str) -> (r: Option<Vec<usize>>)
    ensures
        match r {
            Some(v) => scan_result(data@, pattern@) == Some(v@) && strictly_increasing(v@),
            None => scan_result(data@, pattern@) is None,
        },
{
    patternscan::scan(std::io::Cursor::new(data), pattern).ok()
}

/// The address of match number `k` among the offsets `m` within the image
/// loaded at `base` (wrapping like pointer arithmetic); `None` when there are
/// not that many matches.
pub open spec fn match_address(base: usize, m: Seq<usize>, k: int) -> Option<usize> {
    if 0 <= k < m.len() {
        Some(base.wrapping_add(m[k]))
    } else {
        None::<usize>
    }
}

/// The address of match number `num` (from zero) among the match offsets
/// `matches` within the image loaded at `base`; `None` when there are not
/// that many matches.
pub fn nth_match_address(base: usize, matches: &Vec<usize>, num: usize) -> (r: Option<usize>)
    ensures
        r == match_address(base, matches@, num as int),
{
    if num < matches.len() {
        Some(base.wrapping_add(matches[num]))
    } else {
        None
    }
}

/// The address of match number `num` of `pattern` within `image`, the bytes of
/// the module loaded at `base`; `None` when there are not that many matches.
/// The scan's offsets are strictly increasing.
pub fn pattern_scan(base: usize, image: &[u8], pattern: &str, num: usize) -> (r: Option<usize>)
    requires
        scan_result(image@, pattern@) is Some,
    ensures
        r == match_address(base, scan_result(image@, pattern@).unwrap(), num as int),
        strictly_increasing(scan_result(image@, pattern@).unwrap()),
{
    match scan_bytes(image, pattern) {
        Some(matches) => nth_match_address(base, &matches, num),
        None => None,
    }
}

/// Like [`pattern_scan`], but `None` where the scan fails (an invalid or
/// too long pattern), which that function's precondition rules out.
pub fn try_pattern_scan(base: usize, image: &[u8], pattern: &str, num: usize) -> (r: Option<Option<usize>>)
    ensures
        r is Some <==> scan_result(image@, pattern@) is Some,
        r matches Some(a) ==> a == match_address(base, scan_result(image@, pattern@).unwrap(), num as int)
            && strictly_increasing(scan_result(image@, pattern@).unwrap()),
{
    match scan_bytes(image, pattern) {
        Some(_) => Some(pattern_scan(base, image, pattern, num)),
        None => None,
    }
}

/// Later matches lie further on. For one scan result (as two calls of
/// [`pattern_scan`] with the same base, image and pattern both see it): where
/// there is no match `k` there is no match `k + 1`; and match `k + 1` is at a
/// higher address than match `k` unless its address wraps past the end of the
/// address space.
pub proof fn lemma_pattern_scan_ordered(base: usize, m: Seq<usize>, k: int)
    requires
        strictly_increasing(m),
        0 <= k,
    ensures
        match_address(base, m, k) is None ==> match_address(base, m, k + 1) is None,
        k + 1 < m.len() && base + m[k + 1] <= usize::MAX ==> ({
            let p = match_address(base, m, k).unwrap();
            let q = match_address(base, m, k + 1).unwrap();
            p < q
        }),
{
    if k + 1 < m.len() && base + m[k + 1] <= usize::MAX {
        assert(m[k] < m[k + 1]);
        assert(base.wrapping_add(m[k]) == base + m[k]);
        assert(base.wrapping_add(m[k + 1]) == base + m[k + 1]);
    }
}

} // verus!
