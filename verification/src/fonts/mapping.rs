//! Checks that the Unicode values reported for a font are present in the
//! font's own Unicode cmap (TrueType / OpenType `cmap` table).

use vstd::prelude::*;

verus! {

// ---------------------------------------------------------------------------
// Big-endian reads
// ---------------------------------------------------------------------------

/// The big-endian 16-bit value stored at `off`.
pub open spec fn be_u16(s: Seq<u8>, off: int) -> int {
    s[off] * 256 + s[off + 1]
}

/// The big-endian 32-bit value stored at `off`.
pub open spec fn be_u32(s: Seq<u8>, off: int) -> int {
    ((s[off] * 256 + s[off + 1]) * 256 + s[off + 2]) * 256 + s[off + 3]
}

/// Whether `width` bytes starting at `off` lie inside `s`.
pub open spec fn in_bounds(s: Seq<u8>, off: int, width: int) -> bool {
    0 <= off && off + width <= s.len()
}

pub open spec fn spec_read_u16(s: Seq<u8>, off: int) -> Option<u16> {
    if in_bounds(s, off, 2) {
        Some(be_u16(s, off) as u16)
    } else {
        None
    }
}

/// The two's-complement reading of a 16-bit pattern.
pub open spec fn as_signed16(v: u16) -> i16 {
    if v < 0x8000 {
        v as i16
    } else {
        (v - 0x1_0000) as i16
    }
}

pub open spec fn spec_read_i16(s: Seq<u8>, off: int) -> Option<i16> {
    match spec_read_u16(s, off) {
        Some(v) => Some(as_signed16(v)),
        None => None,
    }
}

pub open spec fn spec_read_u32(s: Seq<u8>, off: int) -> Option<u32> {
    if in_bounds(s, off, 4) {
        Some(be_u32(s, off) as u32)
    } else {
        None
    }
}

fn read_u16(data: &[u8], offset: usize) -> (r: Option<u16>)
    ensures
        r == spec_read_u16(data@, offset as int),
        r matches Some(v) ==> v == be_u16(data@, offset as int),
{
    if offset <= data.len() && data.len() - offset >= 2 {
        let high = data[offset] as u16;
        let low = data[offset + 1] as u16;
        Some(high * 256 + low)
    } else {
        None
    }
}

fn read_i16(data: &[u8], offset: usize) -> (r: Option<i16>)
    ensures
        r == spec_read_i16(data@, offset as int),
{
    match read_u16(data, offset) {
        Some(v) => {
            if v < 0x8000 {
                Some(v as i16)
            } else {
                Some((v as i32 - 0x1_0000) as i16)
            }
        },
        None => None,
    }
}

fn read_u32(data: &[u8], offset: usize) -> (r: Option<u32>)
    ensures
        r == spec_read_u32(data@, offset as int),
        r matches Some(v) ==> v == be_u32(data@, offset as int),
{
    if offset <= data.len() && data.len() - offset >= 4 {
        let b0 = data[offset] as u32;
        let b1 = data[offset + 1] as u32;
        let b2 = data[offset + 2] as u32;
        let b3 = data[offset + 3] as u32;
        Some(((b0 * 256 + b1) * 256 + b2) * 256 + b3)
    } else {
        None
    }
}

// ---------------------------------------------------------------------------
// Locating the cmap table in the sfnt table directory
// ---------------------------------------------------------------------------

/// Whether the four bytes at `pos` spell the table tag `cmap`.
pub open spec fn is_cmap_tag(d: Seq<u8>, pos: int) -> bool {
    &&& d[pos] == 0x63
    &&& d[pos + 1] == 0x6D
    &&& d[pos + 2] == 0x61
    &&& d[pos + 3] == 0x70
}

/// The index of the first table record at or after `i` (and before `count`)
/// whose tag is `cmap`.
pub open spec fn find_cmap_record(d: Seq<u8>, i: int, count: int) -> Option<int>
    decreases count - i,
{
    if i >= count {
        None
    } else if is_cmap_tag(d, 12 + 16 * i) {
        Some(i)
    } else {
        find_cmap_record(d, i + 1, count)
    }
}

/// The bytes of the `cmap` table of an sfnt font, as named by the first
/// `cmap` record of its table directory.
pub open spec fn spec_cmap_table(d: Seq<u8>) -> Option<Seq<u8>> {
    if d.len() < 6 {
        None
    } else if be_u32(d, 0) != 0x0001_0000 && be_u32(d, 0) != 0x4F54_544F {
        None
    } else if 12 + 16 * be_u16(d, 4) > d.len() {
        None
    } else {
        match find_cmap_record(d, 0, be_u16(d, 4)) {
            None => None,
            Some(i) => {
                let record = 12 + 16 * i;
                let start = be_u32(d, record + 8);
                let end = start + be_u32(d, record + 12);
                if end > d.len() {
                    None
                } else {
                    Some(d.subrange(start, end))
                }
            },
        }
    }
}

proof fn lemma_find_cmap_record_bounds(d: Seq<u8>, i: int, count: int)
    requires
        0 <= i,
    ensures
        find_cmap_record(d, i, count) matches Some(k) ==> i <= k < count && is_cmap_tag(
            d,
            12 + 16 * k,
        ),
    decreases count - i,
{
    if i < count && !is_cmap_tag(d, 12 + 16 * i) {
        lemma_find_cmap_record_bounds(d, i + 1, count);
    }
}

fn cmap_table(data: &[u8]) -> (r: Option<&[u8]>)
    ensures
        match spec_cmap_table(data@) {
            Some(t) => r matches Some(s) && s@ == t,
            None => r is None,
        },
{
    let version = match read_u32(data, 0) {
        Some(v) => v,
        None => return None,
    };
    if version != 0x0001_0000 && version != 0x4F54_544F {
        return None;
    }
    let table_count = match read_u16(data, 4) {
        Some(v) => v as usize,
        None => return None,
    };
    let directory_end = 12 + table_count * 16;
    if directory_end > data.len() {
        return None;
    }
    let mut index: usize = 0;
    while index < table_count
        invariant
            index <= table_count,
            data@.len() >= 6,
            be_u32(data@, 0) == 0x0001_0000 || be_u32(data@, 0) == 0x4F54_544F,
            table_count == be_u16(data@, 4),
            12 + 16 * table_count <= data@.len(),
            find_cmap_record(data@, 0, table_count as int) == find_cmap_record(
                data@,
                index as int,
                table_count as int,
            ),
        decreases table_count - index,
    {
        let record = 12 + index * 16;
        if data[record] == 0x63 && data[record + 1] == 0x6D && data[record + 2] == 0x61
            && data[record + 3] == 0x70 {
            let offset = match read_u32(data, record + 8) {
                Some(v) => v as usize,
                None => return None,
            };
            let length = match read_u32(data, record + 12) {
                Some(v) => v as usize,
                None => return None,
            };
            let end = match offset.checked_add(length) {
                Some(v) => v,
                None => return None,
            };
            assert(find_cmap_record(data@, index as int, table_count as int) == Some(index as int));
            if end > data.len() {
                return None;
            }
            return Some(&data[offset..end]);
        }
        index = index + 1;
    }
    None
}

// ---------------------------------------------------------------------------
// Choosing a Unicode subtable
// ---------------------------------------------------------------------------

/// How well a subtable suits a lookup of `codepoint`: 0 when unusable, then
/// format 0 < 6 < 4 < 12/13.
pub open spec fn spec_cmap_priority(platform: u16, encoding: u16, format: u8, codepoint: u32) -> u8 {
    let unicode_platform = platform == 0;
    let windows_unicode = platform == 3 && (encoding == 1 || encoding == 10);
    let supports_codepoint = codepoint <= 0xFFFF || format == 12 || format == 13;
    if !supports_codepoint || (!unicode_platform && !windows_unicode) {
        0
    } else if format == 12 || format == 13 {
        4
    } else if format == 4 {
        3
    } else if format == 6 {
        2
    } else if format == 0 {
        1
    } else {
        0
    }
}

fn cmap_priority(platform: u16, encoding: u16, format: u8, codepoint: u32) -> (r: u8)
    ensures
        r == spec_cmap_priority(platform, encoding, format, codepoint),
{
    let unicode_platform = platform == 0;
    let windows_unicode = platform == 3 && (encoding == 1 || encoding == 10);
    let supports_codepoint = codepoint <= 0xFFFF || format == 12 || format == 13;
    if !supports_codepoint || (!unicode_platform && !windows_unicode) {
        return 0;
    }
    match format {
        12 | 13 => 4,
        4 => 3,
        6 => 2,
        0 => 1,
        _ => 0,
    }
}

/// Position of encoding record `k` inside the cmap table.
pub open spec fn encoding_record(k: int) -> int {
    4 + 8 * k
}

/// The outcome of scanning the first `n` encoding records for `codepoint`:
/// `None` when one of them points at an unreadable subtable, otherwise the
/// priority and offset of the first subtable of highest positive priority
/// (`Some(None)` when no subtable has a positive priority).
pub open spec fn scan_encoding_records(cmap: Seq<u8>, codepoint: u32, n: nat) -> Option<
    Option<(u8, int)>,
>
    decreases n,
{
    if n == 0 {
        Some(None)
    } else {
        match scan_encoding_records(cmap, codepoint, (n - 1) as nat) {
            None => None,
            Some(best) => {
                let record = encoding_record(n - 1);
                let offset = be_u32(cmap, record + 4);
                if offset + 2 > cmap.len() || be_u16(cmap, offset) > 255 {
                    None
                } else {
                    let priority = spec_cmap_priority(
                        be_u16(cmap, record) as u16,
                        be_u16(cmap, record + 2) as u16,
                        be_u16(cmap, offset) as u8,
                        codepoint,
                    );
                    let current = match best {
                        Some(b) => b.0,
                        None => 0u8,
                    };
                    if priority > current {
                        Some(Some((priority, offset)))
                    } else {
                        Some(best)
                    }
                }
            },
        }
    }
}

/// The glyph that the cmap table `cmap` assigns to `codepoint`, looked up in
/// its most suitable Unicode subtable.
pub open spec fn spec_glyph_index(cmap: Seq<u8>, codepoint: u32) -> Option<u16> {
    if cmap.len() < 4 || encoding_record(be_u16(cmap, 2)) > cmap.len() {
        None
    } else {
        match scan_encoding_records(cmap, codepoint, be_u16(cmap, 2) as nat) {
            Some(Some(best)) => spec_glyph_in_subtable(cmap.subrange(best.1, cmap.len() as int), codepoint),
            _ => None,
        }
    }
}

proof fn lemma_scan_failure_persists(cmap: Seq<u8>, codepoint: u32, n: nat, m: nat)
    requires
        n <= m,
        scan_encoding_records(cmap, codepoint, n) is None,
    ensures
        scan_encoding_records(cmap, codepoint, m) is None,
    decreases m - n,
{
    if n < m {
        lemma_scan_failure_persists(cmap, codepoint, n, (m - 1) as nat);
    }
}

proof fn lemma_scan_offsets(cmap: Seq<u8>, codepoint: u32, n: nat)
    ensures
        scan_encoding_records(cmap, codepoint, n) matches Some(Some(best)) ==> 0 <= best.1 && best.1
            + 2 <= cmap.len() && best.0 > 0,
    decreases n,
{
    if n > 0 {
        lemma_scan_offsets(cmap, codepoint, (n - 1) as nat);
    }
}

/// The priority of the subtable named by encoding record `k`.
pub open spec fn record_priority(cmap: Seq<u8>, codepoint: u32, k: int) -> u8 {
    let record = encoding_record(k);
    let offset = be_u32(cmap, record + 4);
    spec_cmap_priority(
        be_u16(cmap, record) as u16,
        be_u16(cmap, record + 2) as u16,
        be_u16(cmap, offset) as u8,
        codepoint,
    )
}

/// The subtable chosen among the first `n` encoding records has the highest
/// priority of them all, and it is the first record with that priority.
pub proof fn law_chosen_subtable_has_highest_priority(cmap: Seq<u8>, codepoint: u32, n: nat)
    requires
        scan_encoding_records(cmap, codepoint, n) matches Some(Some(best)),
    ensures
        ({
            let best = scan_encoding_records(cmap, codepoint, n)->0->0;
            &&& forall|k: int| 0 <= k < n ==> #[trigger] record_priority(cmap, codepoint, k) <= best.0
            &&& exists|k: int|
                0 <= k < n && record_priority(cmap, codepoint, k) == best.0 && be_u32(
                    cmap,
                    encoding_record(k) + 4,
                ) == best.1 && forall|j: int|
                    0 <= j < k ==> #[trigger] record_priority(cmap, codepoint, j) < best.0
        }),
    decreases n,
{
    let previous = scan_encoding_records(cmap, codepoint, (n - 1) as nat);
    let best = scan_encoding_records(cmap, codepoint, n)->0->0;
    let k = n - 1;
    if let Some(Some(prev)) = previous {
        law_chosen_subtable_has_highest_priority(cmap, codepoint, (n - 1) as nat);
        if best != prev {
            assert(record_priority(cmap, codepoint, k) == best.0);
            assert forall|j: int| 0 <= j < k implies #[trigger] record_priority(cmap, codepoint, j)
                < best.0 by {}
        } else {
            let w = choose|w: int|
                0 <= w < n - 1 && record_priority(cmap, codepoint, w) == prev.0 && be_u32(
                    cmap,
                    encoding_record(w) + 4,
                ) == prev.1 && forall|j: int|
                    0 <= j < w ==> #[trigger] record_priority(cmap, codepoint, j) < prev.0;
            assert(0 <= w < n);
        }
    } else {
        lemma_scan_offsets(cmap, codepoint, n);
        assert(record_priority(cmap, codepoint, k) == best.0);
        assert forall|j: int| 0 <= j < n implies #[trigger] record_priority(cmap, codepoint, j)
            <= best.0 by {
            if j < k {
                lemma_scan_no_choice(cmap, codepoint, (n - 1) as nat);
            }
        }
        assert forall|j: int| 0 <= j < k implies #[trigger] record_priority(cmap, codepoint, j)
            < best.0 by {
            lemma_scan_no_choice(cmap, codepoint, (n - 1) as nat);
        }
    }
}

/// When no subtable was chosen among the first `n` records, each of them
/// has priority 0.
proof fn lemma_scan_no_choice(cmap: Seq<u8>, codepoint: u32, n: nat)
    requires
        scan_encoding_records(cmap, codepoint, n) == Some(None::<(u8, int)>),
    ensures
        forall|j: int| 0 <= j < n ==> #[trigger] record_priority(cmap, codepoint, j) == 0,
    decreases n,
{
    if n > 0 {
        lemma_scan_no_choice(cmap, codepoint, (n - 1) as nat);
    }
}

fn glyph_index(cmap: &[u8], codepoint: u32) -> (r: Option<u16>)
    ensures
        r == spec_glyph_index(cmap@, codepoint),
{
    let subtable_count = match read_u16(cmap, 2) {
        Some(v) => v as usize,
        None => return None,
    };
    let records_end = 4 + subtable_count * 8;
    if records_end > cmap.len() {
        return None;
    }
    let mut best: Option<(u8, usize)> = None;
    let mut index: usize = 0;
    while index < subtable_count
        invariant
            index <= subtable_count,
            subtable_count == be_u16(cmap@, 2),
            4 + 8 * subtable_count <= cmap@.len(),
            scan_encoding_records(cmap@, codepoint, index as nat) == Some(
                match best {
                    Some(b) => Some((b.0, b.1 as int)),
                    None => None::<(u8, int)>,
                },
            ),
        decreases subtable_count - index,
    {
        let record = 4 + index * 8;
        let platform = match read_u16(cmap, record) {
            Some(v) => v,
            None => return None,
        };
        let encoding = match read_u16(cmap, record + 2) {
            Some(v) => v,
            None => return None,
        };
        let offset = match read_u32(cmap, record + 4) {
            Some(v) => v as usize,
            None => return None,
        };
        if offset > cmap.len() || cmap.len() - offset < 2 {
            proof {
                assert(scan_encoding_records(cmap@, codepoint, (index + 1) as nat) is None);
                lemma_scan_failure_persists(
                    cmap@,
                    codepoint,
                    (index + 1) as nat,
                    subtable_count as nat,
                );
            }
            return None;
        }
        let format = match read_u16(cmap, offset) {
            Some(v) => v,
            None => return None,
        };
        if format > 255 {
            proof {
                assert(scan_encoding_records(cmap@, codepoint, (index + 1) as nat) is None);
                lemma_scan_failure_persists(
                    cmap@,
                    codepoint,
                    (index + 1) as nat,
                    subtable_count as nat,
                );
            }
            return None;
        }
        let priority = cmap_priority(platform, encoding, format as u8, codepoint);
        let current = match best {
            Some(b) => b.0,
            None => 0,
        };
        if priority > current {
            best = Some((priority, offset));
        }
        index = index + 1;
    }
    proof {
        lemma_scan_offsets(cmap@, codepoint, subtable_count as nat);
    }
    match best {
        Some(b) => glyph_index_in_subtable(&cmap[b.1..cmap.len()], codepoint),
        None => None,
    }
}

// ---------------------------------------------------------------------------
// Looking a code point up in one subtable
// ---------------------------------------------------------------------------

/// The glyph a single cmap subtable assigns to `codepoint` (formats 0, 4, 6,
/// 12 and 13; other formats assign nothing).
pub open spec fn spec_glyph_in_subtable(sub: Seq<u8>, codepoint: u32) -> Option<u16> {
    match spec_read_u16(sub, 0) {
        None => None,
        Some(format) => if format == 0 {
            if codepoint > 0xFF || 6 + codepoint >= sub.len() {
                None
            } else {
                Some(sub[6 + codepoint] as u16)
            }
        } else if format == 4 {
            if codepoint > 0xFFFF {
                None
            } else {
                spec_format4(sub, codepoint as u16)
            }
        } else if format == 6 {
            if codepoint > 0xFFFF {
                None
            } else {
                spec_format6(sub, codepoint as u16)
            }
        } else if format == 12 || format == 13 {
            spec_format12(sub, codepoint)
        } else {
            None
        },
    }
}

/// Format 6: a dense array of glyphs for the code points
/// `first .. first + count`.
pub open spec fn spec_format6(sub: Seq<u8>, codepoint: u16) -> Option<u16> {
    match (spec_read_u16(sub, 6), spec_read_u16(sub, 8)) {
        (Some(first), Some(count)) => if codepoint < first || codepoint - first >= count {
            None
        } else {
            spec_read_u16(sub, 10 + 2 * (codepoint - first))
        },
        _ => None,
    }
}

/// `value + delta` modulo 65536.
pub open spec fn add_delta(value: u16, delta: i16) -> u16 {
    if value + delta > 0xFFFF {
        (value + delta - 0x1_0000) as u16
    } else if value + delta < 0 {
        (value + delta + 0x1_0000) as u16
    } else {
        (value + delta) as u16
    }
}

/// Format 4: segment arrays laid out after the 14-byte header.
pub open spec fn format4_end_codes() -> int {
    14
}

pub open spec fn format4_start_codes(segments: int) -> int {
    16 + 2 * segments
}

pub open spec fn format4_deltas(segments: int) -> int {
    16 + 4 * segments
}

pub open spec fn format4_range_offsets(segments: int) -> int {
    16 + 6 * segments
}

/// Format 4 lookup in the segments `i .. segments`: the first segment whose
/// code range holds `codepoint` decides; an unreadable segment field before
/// that decides `None`. A segment with a zero range offset maps by its delta
/// alone; otherwise the glyph is read from the glyph array, at the range
/// offset's word plus one word per code after the segment's start code, and
/// a glyph other than 0 is moved by the delta.
pub open spec fn format4_from(sub: Seq<u8>, codepoint: u16, segments: int, i: int) -> Option<u16>
    decreases segments - i,
{
    if i >= segments {
        None
    } else {
        match (
            spec_read_u16(sub, format4_end_codes() + 2 * i),
            spec_read_u16(sub, format4_start_codes(segments) + 2 * i),
        ) {
            (Some(end), Some(start)) => if codepoint < start || codepoint > end {
                format4_from(sub, codepoint, segments, i + 1)
            } else {
                match (
                    spec_read_i16(sub, format4_deltas(segments) + 2 * i),
                    spec_read_u16(sub, format4_range_offsets(segments) + 2 * i),
                ) {
                    (Some(delta), Some(range_offset)) => if range_offset == 0 {
                        Some(add_delta(codepoint, delta))
                    } else {
                        match spec_read_u16(
                            sub,
                            format4_range_offsets(segments) + 2 * i + range_offset + 2 * (
                            codepoint - start),
                        ) {
                            None => None,
                            Some(glyph) => Some(
                                if glyph == 0 {
                                    0u16
                                } else {
                                    add_delta(glyph, delta)
                                },
                            ),
                        }
                    },
                    _ => None,
                }
            },
            _ => None,
        }
    }
}

pub open spec fn spec_format4(sub: Seq<u8>, codepoint: u16) -> Option<u16> {
    match spec_read_u16(sub, 6) {
        None => None,
        Some(seg_x2) => format4_from(sub, codepoint, (seg_x2 / 2) as int, 0),
    }
}

/// Position of sequential-map group `i` in a format 12/13 subtable.
pub open spec fn format12_group(i: int) -> int {
    16 + 12 * i
}

/// Format 12/13 lookup in the groups `i .. count`: the first group whose
/// range holds `codepoint` decides (format 13 maps the whole range to one
/// glyph, format 12 to consecutive glyphs); an unreadable group field before
/// that decides `None`, as does a glyph id beyond 16 bits.
pub open spec fn format12_from(sub: Seq<u8>, codepoint: u32, count: int, i: int) -> Option<u16>
    decreases count - i,
{
    if i >= count {
        None
    } else {
        match (
            spec_read_u32(sub, format12_group(i)),
            spec_read_u32(sub, format12_group(i) + 4),
        ) {
            (Some(start), Some(end)) => if codepoint < start || codepoint > end {
                format12_from(sub, codepoint, count, i + 1)
            } else {
                match spec_read_u32(sub, format12_group(i) + 8) {
                    None => None,
                    Some(glyph) => {
                        let value = if be_u16(sub, 0) == 13 {
                            glyph as int
                        } else {
                            glyph + (codepoint - start)
                        };
                        if value > 0xFFFF {
                            None
                        } else {
                            Some(value as u16)
                        }
                    },
                }
            },
            _ => None,
        }
    }
}

pub open spec fn spec_format12(sub: Seq<u8>, codepoint: u32) -> Option<u16> {
    match spec_read_u32(sub, 12) {
        None => None,
        Some(count) => format12_from(sub, codepoint, count as int, 0),
    }
}

fn glyph_index_in_subtable(subtable: &[u8], codepoint: u32) -> (r: Option<u16>)
    ensures
        r == spec_glyph_in_subtable(subtable@, codepoint),
{
    let format = match read_u16(subtable, 0) {
        Some(v) => v,
        None => return None,
    };
    if format == 0 {
        if codepoint > 0xFF {
            return None;
        }
        let position = 6 + codepoint as usize;
        if position >= subtable.len() {
            return None;
        }
        Some(subtable[position] as u16)
    } else if format == 4 {
        if codepoint > 0xFFFF {
            return None;
        }
        glyph_index_format_4(subtable, codepoint as u16)
    } else if format == 6 {
        if codepoint > 0xFFFF {
            return None;
        }
        let codepoint = codepoint as u16;
        let first = match read_u16(subtable, 6) {
            Some(v) => v,
            None => return None,
        };
        let count = match read_u16(subtable, 8) {
            Some(v) => v as usize,
            None => return None,
        };
        if codepoint < first {
            return None;
        }
        let index = (codepoint - first) as usize;
        if index >= count {
            return None;
        }
        read_u16(subtable, 10 + index * 2)
    } else if format == 12 || format == 13 {
        glyph_index_format_12(subtable, codepoint)
    } else {
        None
    }
}

fn glyph_index_format_4(subtable: &[u8], codepoint: u16) -> (r: Option<u16>)
    ensures
        r == spec_format4(subtable@, codepoint),
{
    let segment_count = match read_u16(subtable, 6) {
        Some(v) => (v / 2) as usize,
        None => return None,
    };
    let end_codes: usize = 14;
    let start_codes = end_codes + segment_count * 2 + 2;
    let deltas = start_codes + segment_count * 2;
    let range_offsets = deltas + segment_count * 2;
    let mut index: usize = 0;
    while index < segment_count
        invariant
            index <= segment_count,
            segment_count <= 0x7FFF,
            end_codes == 14,
            start_codes == format4_start_codes(segment_count as int),
            deltas == format4_deltas(segment_count as int),
            range_offsets == format4_range_offsets(segment_count as int),
            spec_format4(subtable@, codepoint) == format4_from(
                subtable@,
                codepoint,
                segment_count as int,
                index as int,
            ),
        decreases segment_count - index,
    {
        let end = match read_u16(subtable, end_codes + index * 2) {
            Some(v) => v,
            None => return None,
        };
        let start = match read_u16(subtable, start_codes + index * 2) {
            Some(v) => v,
            None => return None,
        };
        if codepoint < start || codepoint > end {
            index = index + 1;
            continue;
        }
        let delta = match read_i16(subtable, deltas + index * 2) {
            Some(v) => v,
            None => return None,
        };
        let range_offset = match read_u16(subtable, range_offsets + index * 2) {
            Some(v) => v,
            None => return None,
        };
        if range_offset == 0 {
            return Some(codepoint.wrapping_add_signed(delta));
        }
        let offset = range_offsets + index * 2 + range_offset as usize + (codepoint - start) as usize
            * 2;
        let glyph = match read_u16(subtable, offset) {
            Some(v) => v,
            None => return None,
        };
        return Some(
            if glyph == 0 {
                0
            } else {
                glyph.wrapping_add_signed(delta)
            },
        );
    }
    None
}

fn glyph_index_format_12(subtable: &[u8], codepoint: u32) -> (r: Option<u16>)
    ensures
        r == spec_format12(subtable@, codepoint),
{
    let group_count = match read_u32(subtable, 12) {
        Some(v) => v as usize,
        None => return None,
    };
    let mut index: usize = 0;
    assert(subtable@.len() == subtable.len());
    while index < group_count
        invariant
            index <= group_count,
            subtable@.len() >= 16,
            subtable@.len() <= usize::MAX,
            spec_format12(subtable@, codepoint) == format12_from(
                subtable@,
                codepoint,
                group_count as int,
                index as int,
            ),
        decreases group_count - index,
    {
        let offset = match index.checked_mul(12) {
            Some(v) => match v.checked_add(16) {
                Some(w) => w,
                None => {
                    assert(format12_from(subtable@, codepoint, group_count as int, index as int)
                        is None);
                    return None;
                },
            },
            None => {
                assert(format12_from(subtable@, codepoint, group_count as int, index as int)
                    is None);
                return None;
            },
        };
        if offset > subtable.len() {
            assert(format12_from(subtable@, codepoint, group_count as int, index as int) is None);
            return None;
        }
        let start = match read_u32(subtable, offset) {
            Some(v) => v,
            None => return None,
        };
        let end = match read_u32(subtable, offset + 4) {
            Some(v) => v,
            None => return None,
        };
        if codepoint < start || codepoint > end {
            index = index + 1;
            continue;
        }
        let glyph = match read_u32(subtable, offset + 8) {
            Some(v) => v,
            None => return None,
        };
        let format = match read_u16(subtable, 0) {
            Some(v) => v,
            None => return None,
        };
        let value: u64 = if format == 13 {
            glyph as u64
        } else {
            glyph as u64 + (codepoint - start) as u64
        };
        if value > 0xFFFF {
            return None;
        }
        return Some(value as u16);
    }
    None
}

// ---------------------------------------------------------------------------
// The mapping check
// ---------------------------------------------------------------------------

/// Whether `c` has a glyph other than `.notdef` (glyph 0) in `cmap`.
pub open spec fn char_has_glyph(cmap: Seq<u8>, c: char) -> bool {
    spec_glyph_index(cmap, c as u32) matches Some(glyph) && glyph != 0
}

/// The fonts's cmap table exists and maps every character of `used` to a
/// real glyph.
pub open spec fn spec_mapping_is_proven(data: Seq<u8>, used: Seq<char>) -> bool {
    match spec_cmap_table(data) {
        None => false,
        Some(cmap) => forall|i: int| 0 <= i < used.len() ==> #[trigger] char_has_glyph(cmap, used[i]),
    }
}

/// No characters at all are proven exactly for the fonts that have a cmap
/// table.
pub proof fn law_empty_usage_needs_only_a_cmap(data: Seq<u8>)
    ensures
        spec_mapping_is_proven(data, Seq::empty()) == spec_cmap_table(data) is Some,
{
}

/// A list of characters is proven exactly when both of its parts are: the
/// check is made character by character.
pub proof fn law_proof_splits(data: Seq<u8>, first: Seq<char>, second: Seq<char>)
    ensures
        spec_mapping_is_proven(data, first + second) == (spec_mapping_is_proven(data, first)
            && spec_mapping_is_proven(data, second)),
{
    let both = first + second;
    if let Some(cmap) = spec_cmap_table(data) {
        if spec_mapping_is_proven(data, both) {
            assert forall|i: int| 0 <= i < first.len() implies #[trigger] char_has_glyph(
                cmap,
                first[i],
            ) by {
                assert(both[i] == first[i]);
            }
            assert forall|i: int| 0 <= i < second.len() implies #[trigger] char_has_glyph(
                cmap,
                second[i],
            ) by {
                assert(both[first.len() + i] == second[i]);
            }
        }
        if spec_mapping_is_proven(data, first) && spec_mapping_is_proven(data, second) {
            assert forall|i: int| 0 <= i < both.len() implies #[trigger] char_has_glyph(
                cmap,
                both[i],
            ) by {
                if i < first.len() {
                    assert(both[i] == first[i]);
                } else {
                    assert(both[i] == second[i - first.len()]);
                }
            }
        }
    }
}

/// Data that is not an sfnt font (too short, or with another version tag)
/// proves no characters, not even none.
pub proof fn law_non_sfnt_data_proves_nothing(data: Seq<u8>, used: Seq<char>)
    requires
        data.len() < 6 || (be_u32(data, 0) != 0x0001_0000 && be_u32(data, 0) != 0x4F54_544F),
    ensures
        !spec_mapping_is_proven(data, used),
{
}

/// A cmap whose one encoding record is a Unicode record (the Unicode
/// platform 0, or the Windows platform 3 with the BMP encoding 1 or the
/// full-repertoire encoding 10) looks every code point up in that record's
/// subtable, whenever the subtable's format can hold the code point: formats
/// 12 and 13 hold every code point, formats 0, 4 and 6 those up to U+FFFF.
pub proof fn law_a_lone_unicode_record_is_used(cmap: Seq<u8>, codepoint: u32)
    requires
        cmap.len() >= 12,
        be_u16(cmap, 2) == 1,
        be_u16(cmap, 4) == 0 || (be_u16(cmap, 4) == 3 && (be_u16(cmap, 6) == 1 || be_u16(cmap, 6) == 10)),
        0 <= be_u32(cmap, 8),
        be_u32(cmap, 8) + 2 <= cmap.len(),
        ({
            let format = be_u16(cmap, be_u32(cmap, 8));
            format == 12 || format == 13 || (codepoint <= 0xFFFF && (format == 0 || format == 4
                || format == 6))
        }),
    ensures
        spec_glyph_index(cmap, codepoint) == spec_glyph_in_subtable(
            cmap.subrange(be_u32(cmap, 8), cmap.len() as int),
            codepoint,
        ),
{
    let offset = be_u32(cmap, 8);
    assert(encoding_record(0) == 4);
    assert(encoding_record(be_u16(cmap, 2)) == 12);
    assert(scan_encoding_records(cmap, codepoint, 0) == Some(None::<(u8, int)>));
    assert(record_priority(cmap, codepoint, 0) > 0);
    assert(scan_encoding_records(cmap, codepoint, 1) == Some(Some((record_priority(cmap, codepoint, 0), offset))));
}

/// A cmap with no Unicode encoding record (none on platform 0, none on the
/// Windows platform 3 with encoding 1 or 10) maps nothing.
pub proof fn law_only_unicode_records_are_used(cmap: Seq<u8>, codepoint: u32)
    requires
        forall|k: int|
            0 <= k < be_u16(cmap, 2) ==> {
                let platform = be_u16(cmap, #[trigger] encoding_record(k));
                let encoding = be_u16(cmap, encoding_record(k) + 2);
                platform != 0 && !(platform == 3 && (encoding == 1 || encoding == 10))
            },
    ensures
        spec_glyph_index(cmap, codepoint) is None,
{
    if cmap.len() >= 4 && encoding_record(be_u16(cmap, 2)) <= cmap.len() {
        lemma_no_unicode_record_no_choice(cmap, codepoint, be_u16(cmap, 2) as nat);
    }
}

proof fn lemma_no_unicode_record_no_choice(cmap: Seq<u8>, codepoint: u32, n: nat)
    requires
        forall|k: int|
            0 <= k < n ==> {
                let platform = be_u16(cmap, #[trigger] encoding_record(k));
                let encoding = be_u16(cmap, encoding_record(k) + 2);
                platform != 0 && !(platform == 3 && (encoding == 1 || encoding == 10))
            },
    ensures
        scan_encoding_records(cmap, codepoint, n) is None || scan_encoding_records(cmap, codepoint, n)
            == Some(None::<(u8, int)>),
    decreases n,
{
    if n > 0 {
        lemma_no_unicode_record_no_choice(cmap, codepoint, (n - 1) as nat);
        let k = n - 1;
        assert(encoding_record(k) == encoding_record(k));
        let platform = be_u16(cmap, encoding_record(k));
        assert(0 <= platform <= 0xFFFF);
        let encoding = be_u16(cmap, encoding_record(k) + 2);
        assert(0 <= encoding <= 0xFFFF);
    }
}

/// Proves that the Unicode values reported by PDFium are present in an
/// embedded font's Unicode cmap.
pub fn mapping_is_proven(data: &[u8], used: &[char]) -> (r: bool)
    ensures
        r == spec_mapping_is_proven(data@, used@),
{
    let cmap = match cmap_table(data) {
        Some(c) => c,
        None => return false,
    };
    let mut index: usize = 0;
    while index < used.len()
        invariant
            index <= used@.len(),
            spec_cmap_table(data@) == Some(cmap@),
            forall|i: int| 0 <= i < index ==> #[trigger] char_has_glyph(cmap@, used@[i]),
        decreases used@.len() - index,
    {
        let proven = match glyph_index(cmap, used[index] as u32) {
            Some(glyph) => glyph != 0,
            None => false,
        };
        if !proven {
            assert(!char_has_glyph(cmap@, used@[index as int]));
            assert(spec_cmap_table(data@).unwrap() == cmap@);
            assert(!spec_mapping_is_proven(data@, used@));
            return false;
        }
        index = index + 1;
    }
    true
}

} // verus!
