//! The database: an owned buffer and the query over it.
use crate::cursor::{get_cstring_bytes, read_u24, read_u32, read_u8, u24_le};
use crate::format::{
    area_at, country_at, idx_first, idx_last, index_slot, inline_at, lookup, record_count,
    redirect_at, search,
};
use crate::text::{decode_gbk_bytes, get_gbk_cstring};
use vstd::prelude::*;
use vstd::slice::slice_subrange;

verus! {

/// Country and area names of an address.
#[derive(Debug)]
pub struct IpGeoInfo {
    pub country: String,
    pub area: String,
}

impl View for IpGeoInfo {
    type V = (Seq<char>, Seq<char>);

    open spec fn view(&self) -> (Seq<char>, Seq<char>) {
        (self.country@, self.area@)
    }
}

/// A whole database file held in memory.
pub struct QQWryData {
    cache: Vec<u8>,
}

impl View for QQWryData {
    type V = Seq<u8>;

    closed spec fn view(&self) -> Seq<u8> {
        self.cache@
    }
}

impl QQWryData {
    /// Takes the bytes of a database file.
    pub fn from_bytes(cache: Vec<u8>) -> (r: QQWryData)
        ensures
            r@ == cache@,
    {
        QQWryData { cache }
    }

    /// The offset of the index record whose range holds `ip`, found by binary
    /// search; the last record where the search ends without a match, `None`
    /// where the header or a record read on the way lies outside the buffer.
    fn find_index(&self, ip: u32) -> (r: Option<usize>)
        ensures
            r matches Some(s) ==> index_slot(self@, ip as int) == Some(s as int),
            r is None ==> index_slot(self@, ip as int) is None,
    {
        let buf = self.cache.as_slice();
        let len = buf.len();
        if len < 8 {
            return None;
        }
        let first = read_u32(buf) as usize;
        let last = read_u32(slice_subrange(buf, 4, len)) as usize;
        if last < first {
            return None;
        }
        let mut l: usize = 0;
        let mut hi: usize = (last - first) / 7 + 1;
        while l < hi
            invariant
                buf@ == self@,
                len == buf@.len(),
                len >= 8,
                first as int == idx_first(self@),
                last as int == idx_last(self@),
                first <= last <= u32::MAX,
                l <= hi <= record_count(self@),
                search(self@, ip as int, l as int, hi as int) == index_slot(self@, ip as int),
            decreases hi - l,
        {
            let m: usize = (l + hi - 1) / 2;
            let s: usize = first + 7 * m;
            if s > len || len - s < 4 {
                return None;
            }
            let start = read_u32(slice_subrange(buf, s, len));
            if ip < start {
                hi = m;
            } else {
                if len - s < 7 {
                    return None;
                }
                let e = read_u24(slice_subrange(buf, s + 4, len)) as usize;
                if e > len || len - e < 4 {
                    return None;
                }
                let end = read_u32(slice_subrange(buf, e, len));
                if ip > end {
                    l = m + 1;
                } else {
                    return Some(s);
                }
            }
        }
        Some(last)
    }

    /// Country and area of `ip`, or `None` where the record that the search
    /// settles on cannot be decoded inside the buffer.
    ///
    /// An address that no index record covers gets the last record's names:
    /// a compatibility quirk kept for data files with gaps in their table, not
    /// a guarantee that the names belong to the address.
    pub fn query(&self, ip: u32) -> (r: Option<IpGeoInfo>)
        ensures
            r matches Some(g) ==> lookup(self@, ip as int) == Some(g@),
            r is None ==> lookup(self@, ip as int) is None,
    {
        let s = match self.find_index(ip) {
            Some(s) => s,
            None => return None,
        };
        let len = self.cache.len();
        if s > len || len - s < 7 {
            return None;
        }
        let rec = read_u24(slice_subrange(self.cache.as_slice(), s + 4, len)) as usize;
        let (country, p) = match self.read_country(rec) {
            Some(cp) => cp,
            None => return None,
        };
        let area = match self.read_area(p) {
            Some(a) => a,
            None => return None,
        };
        Some(IpGeoInfo { country, area })
    }

    /// The buffer from `p` on.
    fn tail(&self, p: usize) -> (r: &[u8])
        requires
            p <= self@.len(),
        ensures
            r@ == self@.subrange(p as int, self@.len() as int),
    {
        slice_subrange(self.cache.as_slice(), p, self.cache.len())
    }

    /// The buffer from the 3-byte offset that follows the tag at the start of
    /// `range` on, or `None` where that offset lies past the buffer's end.
    pub fn jump_by_lookaside(&self, range: &[u8]) -> (r: Option<&[u8]>)
        requires
            range@.len() >= 4,
        ensures
            r matches Some(t) ==> u24_le(range@, 1) <= self@.len() && t@ == self@.subrange(
                u24_le(range@, 1),
                self@.len() as int,
            ),
            r is None ==> u24_le(range@, 1) > self@.len(),
    {
        let off = read_u24(slice_subrange(range, 1, range.len())) as usize;
        if off > self.cache.len() {
            None
        } else {
            Some(self.tail(off))
        }
    }

    /// The text reached through the redirect tag at `p`.
    fn read_redirect(&self, p: usize) -> (r: Option<String>)
        requires
            p < self@.len(),
        ensures
            r matches Some(t) ==> redirect_at(self@, p as int) == Some(t@),
            r is None ==> redirect_at(self@, p as int) is None,
    {
        if self.cache.len() - p < 4 {
            return None;
        }
        match self.jump_by_lookaside(self.tail(p)) {
            Some(t) => get_gbk_cstring(t),
            None => None,
        }
    }

    /// The inline text at `p` and the position just past its terminator.
    fn read_inline(&self, p: usize) -> (r: Option<(String, usize)>)
        requires
            p <= self@.len(),
        ensures
            r matches Some((t, q)) ==> inline_at(self@, p as int) == Some((t@, q as int)),
            r is None ==> inline_at(self@, p as int) is None,
    {
        let len = self.cache.len();
        match get_cstring_bytes(self.tail(p)) {
            Some(c) => match decode_gbk_bytes(c) {
                Some(t) => {
                    assert(c@.len() < len - p);
                    Some((t, p + c.len() + 1))
                },
                None => None,
            },
            None => None,
        }
    }

    /// The country of the detail record whose IP record is at `rec`, and the
    /// position of its area field.
    fn read_country(&self, rec: usize) -> (r: Option<(String, usize)>)
        requires
            rec < 16777216,
        ensures
            r matches Some((t, q)) ==> country_at(self@, rec as int) == Some((t@, q as int)),
            r is None ==> country_at(self@, rec as int) is None,
    {
        let len = self.cache.len();
        let body = rec + 4;
        if body >= len {
            return None;
        }
        let tag = read_u8(self.tail(body));
        if tag == 1 {
            if len - body < 4 {
                return None;
            }
            let co = read_u24(slice_subrange(self.tail(body), 1, len - body)) as usize;
            if co >= len {
                return None;
            }
            if read_u8(self.tail(co)) == 2 {
                match self.read_redirect(co) {
                    Some(t) => Some((t, co + 4)),
                    None => None,
                }
            } else {
                self.read_inline(co)
            }
        } else if tag == 2 {
            match self.read_redirect(body) {
                Some(t) => Some((t, rec + 8)),
                None => None,
            }
        } else {
            self.read_inline(body)
        }
    }

    /// The area field at `p`: empty, redirected, or inline.
    fn read_area(&self, p: usize) -> (r: Option<String>)
        ensures
            r matches Some(t) ==> area_at(self@, p as int) == Some(t@),
            r is None ==> area_at(self@, p as int) is None,
    {
        if p >= self.cache.len() {
            return None;
        }
        let tag = read_u8(self.tail(p));
        if tag == 0 {
            Some(String::new())
        } else if tag == 1 || tag == 2 {
            self.read_redirect(p)
        } else {
            get_gbk_cstring(self.tail(p))
        }
    }

    /// Byte length of the loaded buffer.
    pub fn cache_size(&self) -> (r: usize)
        ensures
            r == self@.len(),
    {
        self.cache.len()
    }
}

} // verus!
