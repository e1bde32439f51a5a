//! Properties of lookups that hold for every buffer.
use crate::db::QQWryData;
use crate::cursor::{cstring, is_cstr_end};
use crate::format::{
    area_at, country_at, end_ip, fits, header_ok, index_slot, inline_at, ip_record, lookup,
    record_at, record_count, redirect_at, search, slot, start_ip, text_at,
};
use vstd::prelude::*;

verus! {

/// Every index record and the IP record it points at lie inside the buffer.
pub open spec fn table_readable(b: Seq<u8>) -> bool {
    &&& header_ok(b)
    &&& forall|m: int|
        0 <= m < record_count(b) ==> #[trigger] fits(b, slot(b, m), 7) && fits(b, ip_record(b, m), 4)
}

/// The index records are sorted by start address, and each range ends
/// before any later one starts.
pub open spec fn table_ordered(b: Seq<u8>) -> bool {
    forall|i: int, j: int|
        0 <= i < j < record_count(b) ==> #[trigger] start_ip(b, i) <= #[trigger] start_ip(b, j)
            && end_ip(b, i) < start_ip(b, j)
}

/// The index record `m` covers `ip`.
pub open spec fn covers(b: Seq<u8>, m: int, ip: int) -> bool {
    start_ip(b, m) <= ip <= end_ip(b, m)
}

proof fn lemma_search_hits(b: Seq<u8>, ip: int, k: int, l: int, hi: int)
    requires
        table_readable(b),
        table_ordered(b),
        0 <= l <= k < hi <= record_count(b),
        covers(b, k, ip),
    ensures
        search(b, ip, l, hi) matches Some(s) && exists|r: int|
            l <= r < hi && s == slot(b, r) && #[trigger] covers(b, r, ip),
    decreases hi - l,
{
    let m = (l + hi - 1) / 2;
    assert(fits(b, slot(b, m), 7));
    if ip < start_ip(b, m) {
        if k >= m {
            if k > m {
                assert(start_ip(b, m) <= start_ip(b, k));
            }
        }
        lemma_search_hits(b, ip, k, l, m);
    } else if ip > end_ip(b, m) {
        if k < m {
            assert(end_ip(b, k) < start_ip(b, m));
        }
        lemma_search_hits(b, ip, k, m + 1, hi);
    } else {
        assert(covers(b, m, ip));
    }
}

/// On a table whose records are sorted and whose ranges do not overlap, the
/// search for an address that some record covers settles on a record that
/// covers it, bounds included.
pub proof fn lemma_find_index_covers(b: Seq<u8>, ip: int, k: int)
    requires
        table_readable(b),
        table_ordered(b),
        0 <= k < record_count(b),
        covers(b, k, ip),
    ensures
        index_slot(b, ip) matches Some(s) && exists|r: int|
            0 <= r < record_count(b) && s == slot(b, r) && #[trigger] covers(b, r, ip),
{
    lemma_search_hits(b, ip, k, 0, record_count(b));
}

/// Two databases over the same bytes answer a query for the same address
/// alike: a query depends on the bytes and the address alone.
pub proof fn lemma_query_repeatable(d1: &QQWryData, d2: &QQWryData, ip: u32)
    requires
        d1@ == d2@,
    ensures
        lookup(d1@, ip as int) == lookup(d2@, ip as int),
{
}

proof fn lemma_cstring_prefix(s: Seq<u8>, u: Seq<u8>)
    requires
        u.len() <= s.len(),
        u =~= s.take(u.len() as int),
    ensures
        cstring(u) is None || cstring(u) == cstring(s),
{
    if exists|i: int| is_cstr_end(u, i) {
        let i = choose|i: int| is_cstr_end(u, i);
        assert forall|j: int| 0 <= j < u.len() implies u[j] == s[j] by {
            assert(u[j] == s.take(u.len() as int)[j]);
        }
        assert(is_cstr_end(s, i));
        let k = choose|k: int| is_cstr_end(s, k);
        assert(u.take(i) =~= s.take(i));
        if k < i {
            assert(u[k] == 0);
        } else if k > i {
            assert(s[i] == 0);
        }
    }
}

proof fn lemma_text_truncated(b: Seq<u8>, t: int, p: int)
    requires
        0 <= t <= b.len(),
    ensures
        text_at(b.take(t), p) is None || text_at(b.take(t), p) == text_at(b, p),
        inline_at(b.take(t), p) is None || inline_at(b.take(t), p) == inline_at(b, p),
{
    let c = b.take(t);
    if 0 <= p <= t {
        lemma_cstring_prefix(b.subrange(p, b.len() as int), c.subrange(p, t));
    }
}

proof fn lemma_redirect_truncated(b: Seq<u8>, t: int, p: int)
    requires
        0 <= t <= b.len(),
    ensures
        redirect_at(b.take(t), p) is None || redirect_at(b.take(t), p) == redirect_at(b, p),
{
    let c = b.take(t);
    if fits(c, p + 1, 3) {
        assert(c[p + 1] == b[p + 1] && c[p + 2] == b[p + 2] && c[p + 3] == b[p + 3]);
        lemma_text_truncated(b, t, crate::cursor::u24_le(b, p + 1));
    }
}

proof fn lemma_country_truncated(b: Seq<u8>, t: int, rec: int)
    requires
        0 <= t <= b.len(),
    ensures
        country_at(b.take(t), rec) is None || country_at(b.take(t), rec) == country_at(b, rec),
{
    let c = b.take(t);
    let body = rec + 4;
    if fits(c, body, 1) {
        assert(c[body] == b[body]);
        lemma_redirect_truncated(b, t, body);
        lemma_text_truncated(b, t, body);
        if c[body] == 1 && fits(c, body + 1, 3) {
            assert(c[body + 1] == b[body + 1] && c[body + 2] == b[body + 2] && c[body + 3]
                == b[body + 3]);
            let co = crate::cursor::u24_le(b, body + 1);
            lemma_redirect_truncated(b, t, co);
            lemma_text_truncated(b, t, co);
            if fits(c, co, 1) {
                assert(c[co] == b[co]);
            }
        }
    }
}

proof fn lemma_area_truncated(b: Seq<u8>, t: int, p: int)
    requires
        0 <= t <= b.len(),
    ensures
        area_at(b.take(t), p) is None || area_at(b.take(t), p) == area_at(b, p),
{
    let c = b.take(t);
    if fits(c, p, 1) {
        assert(c[p] == b[p]);
        lemma_redirect_truncated(b, t, p);
        lemma_text_truncated(b, t, p);
    }
}

proof fn lemma_record_truncated(b: Seq<u8>, t: int, s: int)
    requires
        0 <= t <= b.len(),
    ensures
        record_at(b.take(t), s) is None || record_at(b.take(t), s) == record_at(b, s),
{
    let c = b.take(t);
    if fits(c, s + 4, 3) {
        assert(c[s + 4] == b[s + 4] && c[s + 5] == b[s + 5] && c[s + 6] == b[s + 6]);
        let rec = crate::cursor::u24_le(b, s + 4);
        lemma_country_truncated(b, t, rec);
        if let Some((country, p)) = country_at(c, rec) {
            lemma_area_truncated(b, t, p);
        }
    }
}

proof fn lemma_search_truncated(b: Seq<u8>, t: int, ip: int, l: int, hi: int)
    requires
        8 <= t <= b.len(),
    ensures
        search(b.take(t), ip, l, hi) is None || search(b.take(t), ip, l, hi) == search(b, ip, l, hi),
    decreases hi - l,
{
    let c = b.take(t);
    assert(c[0] == b[0] && c[1] == b[1] && c[2] == b[2] && c[3] == b[3]);
    assert(c[4] == b[4] && c[5] == b[5] && c[6] == b[6] && c[7] == b[7]);
    if l < hi {
        let m = (l + hi - 1) / 2;
        let sl = slot(b, m);
        assert(slot(c, m) == sl);
        if fits(c, sl, 4) {
            assert(c[sl] == b[sl] && c[sl + 1] == b[sl + 1] && c[sl + 2] == b[sl + 2] && c[sl + 3]
                == b[sl + 3]);
            if fits(c, sl + 4, 3) {
                assert(c[sl + 4] == b[sl + 4] && c[sl + 5] == b[sl + 5] && c[sl + 6] == b[sl + 6]);
                let e = ip_record(b, m);
                if fits(c, e, 4) {
                    assert(c[e] == b[e] && c[e + 1] == b[e + 1] && c[e + 2] == b[e + 2] && c[e + 3]
                        == b[e + 3]);
                }
            }
            lemma_search_truncated(b, t, ip, l, m);
            lemma_search_truncated(b, t, ip, m + 1, hi);
        }
    }
}

/// Cutting the buffer short never changes the answer to a query: the
/// shortened buffer gives the same result or none at all.
pub proof fn lemma_truncation_only_loses(b: Seq<u8>, t: int, ip: int)
    requires
        0 <= t <= b.len(),
    ensures
        lookup(b.take(t), ip) is None || lookup(b.take(t), ip) == lookup(b, ip),
{
    let c = b.take(t);
    if header_ok(c) {
        lemma_search_truncated(b, t, ip, 0, record_count(c));
        assert(c[0] == b[0] && c[1] == b[1] && c[2] == b[2] && c[3] == b[3]);
        assert(c[4] == b[4] && c[5] == b[5] && c[6] == b[6] && c[7] == b[7]);
        if let Some(s) = index_slot(c, ip) {
            lemma_record_truncated(b, t, s);
        }
    }
}

} // verus!
