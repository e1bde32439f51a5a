//! Little-endian integer readers and null-terminated byte strings.
use vstd::prelude::*;

verus! {

/// The little-endian value of the three bytes of `s` at `p`.
pub open spec fn u24_le(s: Seq<u8>, p: int) -> int {
    s[p] as int + 256 * s[p + 1] as int + 65536 * s[p + 2] as int
}

/// The little-endian value of the four bytes of `s` at `p`.
pub open spec fn u32_le(s: Seq<u8>, p: int) -> int {
    s[p] as int + 256 * s[p + 1] as int + 65536 * s[p + 2] as int + 16777216 * s[p + 3] as int
}

/// `i` is the position of the first zero byte of `s`.
pub open spec fn is_cstr_end(s: Seq<u8>, i: int) -> bool {
    &&& 0 <= i < s.len()
    &&& s[i] == 0
    &&& forall|j: int| 0 <= j < i ==> s[j] != 0
}

/// The bytes of `s` before its first zero byte; `None` where `s` holds no zero.
pub open spec fn cstring(s: Seq<u8>) -> Option<Seq<u8>> {
    if exists|i: int| is_cstr_end(s, i) {
        Some(s.take(choose|i: int| is_cstr_end(s, i)))
    } else {
        None
    }
}

/// Reads the first four bytes of `buf` as a little-endian integer.
pub fn read_u32(buf: &[u8]) -> (r: u32)
    requires
        buf@.len() >= 4,
    ensures
        r as int == u32_le(buf@, 0),
{
    let r: u32 = buf[0] as u32 + 256 * (buf[1] as u32) + 65536 * (buf[2] as u32) + 16777216
        * (buf[3] as u32);
    r
}

/// Reads the first three bytes of `buf` as a little-endian integer.
pub fn read_u24(buf: &[u8]) -> (r: u32)
    requires
        buf@.len() >= 3,
    ensures
        r as int == u24_le(buf@, 0),
        r < 16777216,
{
    buf[0] as u32 + 256 * (buf[1] as u32) + 65536 * (buf[2] as u32)
}

/// Reads the first byte of `buf`, a record tag.
pub fn read_u8(buf: &[u8]) -> (r: u32)
    requires
        buf@.len() >= 1,
    ensures
        r == buf@[0] as u32,
{
    buf[0] as u32
}

/// The bytes of `buf` before its first zero byte, or `None` where `buf` holds no zero.
pub fn get_cstring_bytes(buf: &[u8]) -> (r: Option<&[u8]>)
    ensures
        r matches Some(c) ==> cstring(buf@) == Some(c@) && c@.len() < buf@.len(),
        r is None ==> cstring(buf@) is None,
{
    let mut i: usize = 0;
    while i < buf.len()
        invariant
            0 <= i <= buf@.len(),
            forall|j: int| 0 <= j < i ==> buf@[j] != 0,
        decreases buf@.len() - i,
    {
        if buf[i] == 0 {
            assert(is_cstr_end(buf@, i as int));
            proof {
                let k = choose|k: int| is_cstr_end(buf@, k);
                assert(k == i as int);
            }
            return Some(vstd::slice::slice_subrange(buf, 0, i));
        }
        i = i + 1;
    }
    assert(!exists|k: int| is_cstr_end(buf@, k));
    None
}

} // verus!
