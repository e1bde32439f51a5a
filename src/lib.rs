//! Lookup of IPv4 addresses in a QQWry geolocation database held in memory.
//!
//! The database is one byte buffer: an 8-byte header giving the first and last
//! index record, a table of 7-byte index records sorted by range start, and
//! variable-length detail records holding a country and an area name in GBK,
//! possibly reached through redirect tags.
mod cursor;
mod text;
mod format;
mod db;
mod laws;

pub use cursor::{
    cstring, get_cstring_bytes, is_cstr_end, read_u24, read_u32, read_u8, u24_le, u32_le,
};
pub use db::{IpGeoInfo, QQWryData};
pub use format::{
    area_at, country_at, end_ip, fits, header_ok, idx_first, idx_last, index_slot, inline_at,
    ip_record, lookup, record_at, record_count, redirect_at, search, slot, start_ip, text_at,
};
pub use laws::{
    covers, lemma_find_index_covers, lemma_query_repeatable, lemma_truncation_only_loses,
    table_ordered, table_readable,
};
pub use text::{gbk_cstring, gbk_text, get_gbk_cstring};
