use qqwry::{get_cstring_bytes, get_gbk_cstring, read_u24, read_u32, read_u8, QQWryData};

const NIHAO: &[u8] = &[0xc4, 0xe3, 0xba, 0xc3, 0x00];

fn le24(v: usize) -> [u8; 3] {
    [v as u8, (v >> 8) as u8, (v >> 16) as u8]
}

/// A database under construction: header and index table first, records after.
struct Fixture {
    buf: Vec<u8>,
    n: usize,
}

impl Fixture {
    fn new(n: usize) -> Fixture {
        Fixture { buf: vec![0; 8 + 7 * n], n }
    }

    fn pos(&self) -> usize {
        self.buf.len()
    }

    fn bytes(&mut self, b: &[u8]) -> usize {
        let p = self.pos();
        self.buf.extend_from_slice(b);
        p
    }

    fn u24(&mut self, v: usize) {
        self.bytes(&le24(v));
    }

    fn u32(&mut self, v: u32) {
        self.bytes(&v.to_le_bytes());
    }

    fn finish(mut self, index: &[(u32, usize)]) -> Vec<u8> {
        assert_eq!(index.len(), self.n);
        let first = 8u32;
        let last = first + 7 * (self.n as u32 - 1);
        self.buf[0..4].copy_from_slice(&first.to_le_bytes());
        self.buf[4..8].copy_from_slice(&last.to_le_bytes());
        for (i, (start, rec)) in index.iter().enumerate() {
            let p = 8 + 7 * i;
            self.buf[p..p + 4].copy_from_slice(&start.to_le_bytes());
            self.buf[p + 4..p + 7].copy_from_slice(&le24(*rec));
        }
        self.buf
    }
}

#[derive(Clone, Copy, Debug)]
enum Country {
    Inline,
    Redirect,
    RedirectToDouble,
    Double,
}

#[derive(Clone, Copy, Debug)]
enum Area {
    Empty,
    Redirect(u8),
    Inline,
}

/// Two records: [10, 19] holds "XX"/"YY" inline, [20, 29] holds the GBK
/// greeting as country and "BJ" (or nothing) as area, laid out as asked.
fn two_records(country: Country, area: Area) -> Vec<u8> {
    let mut f = Fixture::new(2);
    let country_str = f.bytes(NIHAO);
    let area_str = f.bytes(b"BJ\0");
    let mut area_field: Vec<u8> = Vec::new();
    match area {
        Area::Empty => area_field.push(0),
        Area::Redirect(tag) => {
            area_field.push(tag);
            area_field.extend_from_slice(&le24(area_str));
        }
        Area::Inline => area_field.extend_from_slice(b"BJ\0"),
    }
    let rec_a = f.pos();
    f.u32(19);
    f.bytes(b"XX\0YY\0");
    let rec_b = match country {
        Country::Inline => {
            let r = f.pos();
            f.u32(29);
            f.bytes(NIHAO);
            f.bytes(&area_field);
            r
        }
        Country::Redirect => {
            let co = f.bytes(NIHAO);
            f.bytes(&area_field);
            let r = f.pos();
            f.u32(29);
            f.bytes(&[1]);
            f.u24(co);
            r
        }
        Country::RedirectToDouble => {
            let co = f.bytes(&[2]);
            f.u24(country_str);
            f.bytes(&area_field);
            let r = f.pos();
            f.u32(29);
            f.bytes(&[1]);
            f.u24(co);
            r
        }
        Country::Double => {
            let r = f.pos();
            f.u32(29);
            f.bytes(&[2]);
            f.u24(country_str);
            f.bytes(&area_field);
            r
        }
    };
    f.finish(&[(10, rec_a), (20, rec_b)])
}

const COUNTRIES: [Country; 4] =
    [Country::Inline, Country::Redirect, Country::RedirectToDouble, Country::Double];
const AREAS: [Area; 4] = [Area::Empty, Area::Redirect(1), Area::Redirect(2), Area::Inline];

fn expected_area(area: Area) -> &'static str {
    match area {
        Area::Empty => "",
        _ => "BJ",
    }
}

#[test]
fn it_works() {
    assert_eq!(read_u24(&[0, 1, 0]), 1 << 8);
    assert_eq!(read_u24(&[2, 1, 0]), 258);
    assert_eq!(read_u32(&[0, 1, 0, 1]), (1 << 8) + (1 << 24));
    assert_eq!(read_u32(&[2, 1, 0, 0]), 258);
    assert_eq!(get_gbk_cstring(&[0xc4, 0xe3, 0xba, 0xc3, 0x0]), Some("\u{4f60}\u{597d}".to_string()));
    assert_eq!(get_gbk_cstring(&[0xc4, 0xe3, 0xba, 0xc3]), None);
}

#[test]
fn integer_readers_weigh_each_byte() {
    assert_eq!(read_u24(&[0xff, 0xff, 0xff]), 0xff_ffff);
    assert_eq!(read_u24(&[1, 2, 3, 4]), 1 + 256 * 2 + 65536 * 3);
    assert_eq!(read_u32(&[1, 2, 3, 4]), 1 + 256 * 2 + 65536 * 3 + 16777216 * 4);
    assert_eq!(read_u32(&[0xff, 0xff, 0xff, 0xff]), u32::MAX);
    assert_eq!(read_u8(&[0x02, 0x01]), 2);
}

#[test]
fn cstring_bytes_stop_at_first_zero() {
    assert_eq!(get_cstring_bytes(&[b'a', b'b', 0, b'c', 0]), Some(&[b'a', b'b'][..]));
    assert_eq!(get_cstring_bytes(&[0, 1]), Some(&[][..]));
    assert_eq!(get_cstring_bytes(&[]), None);
    assert_eq!(get_cstring_bytes(&[1, 2, 3]), None);
}

#[test]
fn gbk_decoding_replaces_malformed_bytes() {
    assert_eq!(get_gbk_cstring(b"abc\0def"), Some("abc".to_string()));
    assert_eq!(get_gbk_cstring(&[0]), Some(String::new()));
    assert_eq!(get_gbk_cstring(&[0x61, 0x81, 0x00]), Some("a\u{fffd}".to_string()));
}

#[test]
fn every_country_and_area_layout_decodes() {
    for country in COUNTRIES {
        for area in AREAS {
            let db = QQWryData::from_bytes(two_records(country, area));
            for ip in [20u32, 25, 29] {
                let info = db.query(ip).unwrap_or_else(|| panic!("{:?} {:?} {}", country, area, ip));
                assert_eq!(info.country, "\u{4f60}\u{597d}", "{:?} {:?}", country, area);
                assert_eq!(info.area, expected_area(area), "{:?} {:?}", country, area);
            }
            let first = db.query(10).unwrap();
            assert_eq!((first.country.as_str(), first.area.as_str()), ("XX", "YY"));
        }
    }
}

#[test]
fn search_includes_both_range_bounds() {
    let mut f = Fixture::new(3);
    let mut index = Vec::new();
    for (start, end, name) in [(10u32, 19u32, b"A\0"), (30, 39, b"B\0"), (50, 59, b"C\0")] {
        let r = f.pos();
        f.u32(end);
        f.bytes(name);
        f.bytes(&[0]);
        index.push((start, r));
    }
    let db = QQWryData::from_bytes(f.finish(&index));
    for (ip, name) in [(10, "A"), (15, "A"), (19, "A"), (30, "B"), (39, "B"), (50, "C"), (59, "C")] {
        let info = db.query(ip).unwrap();
        assert_eq!(info.country, name, "ip {}", ip);
        assert_eq!(info.area, "");
    }
}

#[test]
fn uncovered_address_falls_back_to_last_record() {
    let mut f = Fixture::new(3);
    let mut index = Vec::new();
    for (start, end, name) in [(10u32, 19u32, b"A\0"), (30, 39, b"B\0"), (50, 59, b"C\0")] {
        let r = f.pos();
        f.u32(end);
        f.bytes(name);
        f.bytes(&[0]);
        index.push((start, r));
    }
    let db = QQWryData::from_bytes(f.finish(&index));
    for ip in [0u32, 25, 45, 60, u32::MAX] {
        assert_eq!(db.query(ip).unwrap().country, "C", "ip {}", ip);
    }
}

#[test]
fn repeated_queries_agree() {
    let db = QQWryData::from_bytes(two_records(Country::Double, Area::Redirect(1)));
    for ip in [0u32, 10, 20, 29, 30] {
        let a = db.query(ip).map(|g| (g.country, g.area));
        let b = db.query(ip).map(|g| (g.country, g.area));
        assert_eq!(a, b);
    }
}

#[test]
fn truncated_buffer_gives_absence() {
    for country in COUNTRIES {
        for area in AREAS {
            let full = two_records(country, area);
            for t in 0..full.len() {
                let db = QQWryData::from_bytes(full[..t].to_vec());
                assert!(db.query(25).is_none(), "{:?} {:?} cut at {}", country, area, t);
            }
        }
    }
}

#[test]
fn malformed_header_gives_absence() {
    assert!(QQWryData::from_bytes(Vec::new()).query(1).is_none());
    assert!(QQWryData::from_bytes(vec![8, 0, 0, 0, 8, 0, 0]).query(1).is_none());
    let mut reversed = vec![15, 0, 0, 0, 8, 0, 0, 0];
    reversed.extend_from_slice(&[0; 14]);
    assert!(QQWryData::from_bytes(reversed).query(1).is_none());
}

#[test]
fn redirect_past_end_gives_absence() {
    let mut f = Fixture::new(1);
    let r = f.pos();
    f.u32(100);
    f.bytes(&[2]);
    f.u24(0xff_ffff);
    f.bytes(&[0]);
    let db = QQWryData::from_bytes(f.finish(&[(0, r)]));
    assert!(db.query(5).is_none());
}

#[test]
fn lookaside_jumps_to_offset() {
    let db = QQWryData::from_bytes(vec![9, 8, 7, 6, 5]);
    assert_eq!(db.jump_by_lookaside(&[1, 2, 0, 0]), Some(&[7u8, 6, 5][..]));
    assert_eq!(db.jump_by_lookaside(&[1, 5, 0, 0]), Some(&[][..]));
    assert_eq!(db.jump_by_lookaside(&[1, 6, 0, 0]), None);
}

#[test]
fn cache_size_is_buffer_length() {
    assert_eq!(QQWryData::from_bytes(vec![0; 37]).cache_size(), 37);
    assert_eq!(two_records(Country::Inline, Area::Empty).len(), QQWryData::from_bytes(two_records(Country::Inline, Area::Empty)).cache_size());
}
