//! The QQWry file format as spec functions over the buffer's bytes.
use crate::cursor::{cstring, u24_le, u32_le};
use crate::text::{gbk_cstring, gbk_text};
use vstd::prelude::*;

verus! {

/// The `k` bytes at `p` lie inside `b`.
pub open spec fn fits(b: Seq<u8>, p: int, k: int) -> bool {
    0 <= p && p + k <= b.len()
}

/// Offset of the first index record, from header bytes [0, 4).
pub open spec fn idx_first(b: Seq<u8>) -> int {
    u32_le(b, 0)
}

/// Offset of the last index record, from header bytes [4, 8).
pub open spec fn idx_last(b: Seq<u8>) -> int {
    u32_le(b, 4)
}

/// Offset of the `m`-th index record.
pub open spec fn slot(b: Seq<u8>, m: int) -> int {
    idx_first(b) + 7 * m
}

/// The start address of the `m`-th index record.
pub open spec fn start_ip(b: Seq<u8>, m: int) -> int {
    u32_le(b, slot(b, m))
}

/// Offset of the IP record that the `m`-th index record points at.
pub open spec fn ip_record(b: Seq<u8>, m: int) -> int {
    u24_le(b, slot(b, m) + 4)
}

/// The end address of the `m`-th index record's range, read from its IP record.
pub open spec fn end_ip(b: Seq<u8>, m: int) -> int {
    u32_le(b, ip_record(b, m))
}

/// Binary search of `ip` over the index records `l .. hi`, with the midpoint
/// taken low. A record whose range holds `ip` gives its offset; an empty
/// interval gives the last record; a read past the buffer gives `None`.
pub open spec fn search(b: Seq<u8>, ip: int, l: int, hi: int) -> Option<int>
    decreases hi - l,
{
    if l >= hi {
        Some(idx_last(b))
    } else {
        let m = (l + hi - 1) / 2;
        if !fits(b, slot(b, m), 4) {
            None
        } else if ip < start_ip(b, m) {
            search(b, ip, l, m)
        } else if !fits(b, slot(b, m) + 4, 3) || !fits(b, ip_record(b, m), 4) {
            None
        } else if ip > end_ip(b, m) {
            search(b, ip, m + 1, hi)
        } else {
            Some(slot(b, m))
        }
    }
}

/// Number of index records, where the header is readable and ordered.
pub open spec fn record_count(b: Seq<u8>) -> int {
    (idx_last(b) - idx_first(b)) / 7 + 1
}

/// The header can be read and the last record does not precede the first.
pub open spec fn header_ok(b: Seq<u8>) -> bool {
    b.len() >= 8 && idx_first(b) <= idx_last(b)
}

/// Offset of the index record that the search for `ip` settles on.
pub open spec fn index_slot(b: Seq<u8>, ip: int) -> Option<int> {
    if !header_ok(b) {
        None
    } else {
        search(b, ip, 0, record_count(b))
    }
}

/// The null-terminated text at `p`, where `p` lies inside or at the end of `b`.
pub open spec fn text_at(b: Seq<u8>, p: int) -> Option<Seq<char>> {
    if 0 <= p <= b.len() {
        gbk_cstring(b.subrange(p, b.len() as int))
    } else {
        None
    }
}

/// The text reached through the 3-byte offset that follows the tag at `p`.
pub open spec fn redirect_at(b: Seq<u8>, p: int) -> Option<Seq<char>> {
    if !fits(b, p + 1, 3) {
        None
    } else {
        text_at(b, u24_le(b, p + 1))
    }
}

/// The inline text at `p` and the position just past its terminator.
pub open spec fn inline_at(b: Seq<u8>, p: int) -> Option<(Seq<char>, int)> {
    if 0 <= p <= b.len() {
        match cstring(b.subrange(p, b.len() as int)) {
            Some(c) => Some((gbk_text(c), p + c.len() + 1)),
            None => None,
        }
    } else {
        None
    }
}

/// The country of the detail record whose IP record is at `rec`, with the
/// position where its area field starts.
pub open spec fn country_at(b: Seq<u8>, rec: int) -> Option<(Seq<char>, int)> {
    let body = rec + 4;
    if !fits(b, body, 1) {
        None
    } else if b[body] == 1 {
        if !fits(b, body + 1, 3) {
            None
        } else {
            let co = u24_le(b, body + 1);
            if !fits(b, co, 1) {
                None
            } else if b[co] == 2 {
                match redirect_at(b, co) {
                    Some(t) => Some((t, co + 4)),
                    None => None,
                }
            } else {
                inline_at(b, co)
            }
        }
    } else if b[body] == 2 {
        match redirect_at(b, body) {
            Some(t) => Some((t, rec + 8)),
            None => None,
        }
    } else {
        inline_at(b, body)
    }
}

/// The area field at `p`: empty, redirected, or inline.
pub open spec fn area_at(b: Seq<u8>, p: int) -> Option<Seq<char>> {
    if !fits(b, p, 1) {
        None
    } else if b[p] == 0 {
        Some(Seq::empty())
    } else if b[p] == 1 || b[p] == 2 {
        redirect_at(b, p)
    } else {
        text_at(b, p)
    }
}

/// Country and area of the index record at `s`.
pub open spec fn record_at(b: Seq<u8>, s: int) -> Option<(Seq<char>, Seq<char>)> {
    if !fits(b, s + 4, 3) {
        None
    } else {
        match country_at(b, u24_le(b, s + 4)) {
            Some((country, p)) => match area_at(b, p) {
                Some(area) => Some((country, area)),
                None => None,
            },
            None => None,
        }
    }
}

/// What a query for `ip` returns on the database `b`.
pub open spec fn lookup(b: Seq<u8>, ip: int) -> Option<(Seq<char>, Seq<char>)> {
    match index_slot(b, ip) {
        Some(s) => record_at(b, s),
        None => None,
    }
}

} // verus!
