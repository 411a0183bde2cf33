//! Which font files the font parser can read without losing its way.
//!
//! The parser follows the offsets and counts that a font file holds. It
//! stops the program where they lead outside the file or to a form that it
//! does not know, and it may do so where its 16-bit or 32-bit arithmetic
//! overflows. The functions here follow the same offsets and counts first,
//! on the bytes alone, through the same steps in the same order, and tell
//! whether every step that the parser takes for the questions of this
//! library stays inside, and whether every number that the parser computes
//! in 16 or 32 bits stays within them.

use vstd::prelude::*;

verus! {

/// The last code point whose glyph is asked for when a font is embedded.
pub const LAST_CODE_POINT: u32 = 0xffff;

/// The greatest code point that there is.
pub const MAX_CODE_POINT: u32 = 0x10_ffff;

/// Whether `n` bytes from `at` on lie inside the data.
pub open spec fn inside(b: Seq<u8>, at: int, n: int) -> bool {
    0 <= at && 0 <= n && at + n <= b.len()
}

/// The 16-bit number at `at`, high byte first.
pub open spec fn u16_at(b: Seq<u8>, at: int) -> int {
    b[at] * 256 + b[at + 1]
}

/// The signed 16-bit number at `at`.
pub open spec fn i16_at(b: Seq<u8>, at: int) -> int {
    if u16_at(b, at) >= 32768 {
        u16_at(b, at) - 65536
    } else {
        u16_at(b, at)
    }
}

/// The 32-bit number at `at`, high byte first.
pub open spec fn u32_at(b: Seq<u8>, at: int) -> int {
    u16_at(b, at) * 65536 + u16_at(b, at + 2)
}

/// The signed 32-bit number at `at`.
pub open spec fn i32_at(b: Seq<u8>, at: int) -> int {
    if u32_at(b, at) >= 0x8000_0000 {
        u32_at(b, at) - 0x1_0000_0000
    } else {
        u32_at(b, at)
    }
}

/// Whether the four bytes at `at` are the given ones.
pub open spec fn tag_at(b: Seq<u8>, at: int, t: (u8, u8, u8, u8)) -> bool {
    b[at] == t.0 && b[at + 1] == t.1 && b[at + 2] == t.2 && b[at + 3] == t.3
}

/// Whether a signed number fits into 16 bits.
pub open spec fn fits_i16(n: int) -> bool {
    -32768 <= n <= 32767
}

/// Whether `n` bytes from `at` on lie inside the data.
pub fn is_inside(b: &[u8], at: u64, n: u64) -> (r: bool)
    ensures
        r == inside(b@, at as int, n as int),
        r ==> at + n <= usize::MAX,
{
    let len = b.len() as u64;
    at <= len && n <= len - at
}

/// The 16-bit number at `at`.
pub fn read_u16(b: &[u8], at: u64) -> (r: u16)
    requires
        inside(b@, at as int, 2),
    ensures
        r == u16_at(b@, at as int),
{
    (b[at as usize] as u16) * 256 + b[at as usize + 1] as u16
}

/// The signed 16-bit number at `at`.
pub fn read_i16(b: &[u8], at: u64) -> (r: i32)
    requires
        inside(b@, at as int, 2),
    ensures
        r == i16_at(b@, at as int),
{
    let u = read_u16(b, at) as i32;
    if u >= 32768 {
        u - 65536
    } else {
        u
    }
}

/// The 32-bit number at `at`.
pub fn read_u32(b: &[u8], at: u64) -> (r: u32)
    requires
        inside(b@, at as int, 4),
    ensures
        r == u32_at(b@, at as int),
{
    assert(b@.len() == b.len());
    (read_u16(b, at) as u32) * 65536 + read_u16(b, at + 2) as u32
}

/// Whether the four bytes at `at` are the given ones.
pub fn has_tag(b: &[u8], at: u64, t: (u8, u8, u8, u8)) -> (r: bool)
    requires
        inside(b@, at as int, 4),
    ensures
        r == tag_at(b@, at as int, t),
{
    b[at as usize] == t.0 && b[at as usize + 1] == t.1 && b[at as usize + 2] == t.2 && b[at as usize
        + 3] == t.3
}

/// Whether the data starts like a single font: with one of the four tags by
/// which the parser knows one.
pub open spec fn is_font(b: Seq<u8>) -> bool {
    b.len() >= 4 && (tag_at(b, 0, (0x31, 0, 0, 0)) || tag_at(b, 0, (0x74, 0x79, 0x70, 0x31))
        || tag_at(b, 0, (0x4f, 0x54, 0x54, 0x4f)) || tag_at(b, 0, (0, 1, 0, 0)))
}

/// Where the parser looks for the first font of the data.
#[derive(Clone, Copy, Debug, PartialEq, Eq, Structural)]
pub enum FontStart {
    /// The parser refuses the data before it follows any offset.
    Refused,
    /// The parser would read beyond the data.
    Beyond,
    /// The table directory of the font stands at this offset.
    At(u32),
}

/// Where the parser looks for the first font of the data: at the start of a
/// single font; for a collection of version 1 or 2 that holds a font, at the
/// first offset of its list.
pub open spec fn font_start(b: Seq<u8>) -> FontStart {
    if is_font(b) {
        FontStart::At(0)
    } else if b.len() >= 4 && tag_at(b, 0, (0x74, 0x74, 0x63, 0x66)) {
        if b.len() < 8 {
            FontStart::Beyond
        } else if u32_at(b, 4) == 0x0001_0000 || u32_at(b, 4) == 0x0002_0000 {
            if b.len() < 12 {
                FontStart::Beyond
            } else if i32_at(b, 8) <= 0 {
                FontStart::Refused
            } else if b.len() < 16 {
                FontStart::Beyond
            } else {
                FontStart::At(u32_at(b, 12) as u32)
            }
        } else {
            FontStart::Refused
        }
    } else {
        FontStart::Refused
    }
}

/// Where the parser looks for the first font of the data.
pub fn find_font_start(b: &[u8]) -> (r: FontStart)
    requires
        4 <= b@.len(),
    ensures
        r == font_start(b@),
{
    let len = b.len();
    if has_tag(b, 0, (0x31, 0, 0, 0)) || has_tag(b, 0, (0x74, 0x79, 0x70, 0x31)) || has_tag(
        b,
        0,
        (0x4f, 0x54, 0x54, 0x4f),
    ) || has_tag(b, 0, (0, 1, 0, 0)) {
        FontStart::At(0)
    } else if has_tag(b, 0, (0x74, 0x74, 0x63, 0x66)) {
        if len < 8 {
            return FontStart::Beyond;
        }
        let version = read_u32(b, 4);
        if version == 0x0001_0000 || version == 0x0002_0000 {
            if len < 12 {
                return FontStart::Beyond;
            }
            let count = read_u32(b, 8);
            if count >= 0x8000_0000 || count == 0 {
                return FontStart::Refused;
            }
            if len < 16 {
                return FontStart::Beyond;
            }
            FontStart::At(read_u32(b, 12))
        } else {
            FontStart::Refused
        }
    } else {
        FontStart::Refused
    }
}

/// The number of tables that the directory at `start` lists.
pub open spec fn table_count(b: Seq<u8>, start: int) -> int {
    u16_at(b, start + 4)
}

/// The offset of the first table of the given tag among the entries of the
/// directory from the entry `i` on; 0 when there is none.
pub open spec fn find_table_from(b: Seq<u8>, start: int, t: (u8, u8, u8, u8), i: int) -> int
    decreases table_count(b, start) - i,
{
    if i < 0 || i >= table_count(b, start) {
        0
    } else if tag_at(b, start + 12 + 16 * i, t) {
        u32_at(b, start + 12 + 16 * i + 8)
    } else {
        find_table_from(b, start, t, i + 1)
    }
}

/// The offset of the table of the given tag; 0 when the font has none.
pub open spec fn find_table(b: Seq<u8>, start: int, t: (u8, u8, u8, u8)) -> int {
    find_table_from(b, start, t, 0)
}

/// Whether the search for a table, from the entry `i` of the directory on,
/// stays inside the data: the tag of every entry that it comes to, and the
/// offset of the entry at which it ends.
pub open spec fn search_inside(b: Seq<u8>, start: int, t: (u8, u8, u8, u8), i: int) -> bool
    decreases table_count(b, start) - i,
{
    if i < 0 || i >= table_count(b, start) {
        true
    } else if !inside(b, start + 12 + 16 * i, 4) {
        false
    } else if tag_at(b, start + 12 + 16 * i, t) {
        inside(b, start + 12 + 16 * i, 12)
    } else {
        search_inside(b, start, t, i + 1)
    }
}

/// The offsets of the tables that the parser uses.
#[derive(Clone, Copy, Debug, PartialEq, Eq, Structural)]
pub struct Tables {
    pub cmap: u32,
    pub loca: u32,
    pub head: u32,
    pub glyf: u32,
    pub hhea: u32,
    pub hmtx: u32,
}

/// The tags of the tables that the parser looks for when it loads a font,
/// in the order in which it looks: `cmap`, `loca`, `head`, `glyf`, `hhea`,
/// `hmtx`, `name` and `kern`.
pub open spec fn loading_tags() -> Seq<(u8, u8, u8, u8)> {
    seq![
        (0x63u8, 0x6du8, 0x61u8, 0x70u8),
        (0x6cu8, 0x6fu8, 0x63u8, 0x61u8),
        (0x68u8, 0x65u8, 0x61u8, 0x64u8),
        (0x67u8, 0x6cu8, 0x79u8, 0x66u8),
        (0x68u8, 0x68u8, 0x65u8, 0x61u8),
        (0x68u8, 0x6du8, 0x74u8, 0x78u8),
        (0x6eu8, 0x61u8, 0x6du8, 0x65u8),
        (0x6bu8, 0x65u8, 0x72u8, 0x6eu8),
    ]
}

/// The tag of the table that holds the glyph count, `maxp`.
pub open spec fn maxp_tag() -> (u8, u8, u8, u8) {
    (0x6d, 0x61, 0x78, 0x70)
}

/// The offsets of the tables that the parser uses, as the directory at
/// `start` gives them.
pub open spec fn tables_of(b: Seq<u8>, start: int) -> Tables {
    Tables {
        cmap: find_table(b, start, loading_tags()[0]) as u32,
        loca: find_table(b, start, loading_tags()[1]) as u32,
        head: find_table(b, start, loading_tags()[2]) as u32,
        glyf: find_table(b, start, loading_tags()[3]) as u32,
        hhea: find_table(b, start, loading_tags()[4]) as u32,
        hmtx: find_table(b, start, loading_tags()[5]) as u32,
    }
}

impl Tables {
    /// The font has every table that the parser asks for.
    pub open spec fn complete(self) -> bool {
        self.cmap != 0 && self.loca != 0 && self.head != 0 && self.glyf != 0 && self.hhea != 0
            && self.hmtx != 0
    }
}

/// Whether the parser takes the character map of the encoding record at
/// `rec`: one for Unicode, or one of Microsoft for the basic plane or for
/// all of Unicode.
pub open spec fn record_taken(b: Seq<u8>, rec: int) -> bool {
    u16_at(b, rec) == 0 || (u16_at(b, rec) == 3 && (u16_at(b, rec + 2) == 1 || u16_at(b, rec + 2)
        == 10))
}

/// Whether the parser reads the encoding record at `rec` without leaving
/// the data: its platform; for Microsoft, its encoding; and where it takes
/// the record, the offset of the character map. The place of the record,
/// and that offset added to the offset of the table, are computed in 32
/// bits and have to stay within them.
pub open spec fn record_inside(b: Seq<u8>, cmap: int, rec: int) -> bool {
    &&& rec <= 0xffff_ffff
    &&& inside(b, rec, 2)
    &&& u16_at(b, rec) == 3 ==> inside(b, rec + 2, 2)
    &&& record_taken(b, rec) ==> inside(b, rec + 4, 4) && cmap + u32_at(b, rec + 4) <= 0xffff_ffff
}

/// Whether the parser reads the first `n` encoding records without leaving
/// the data.
pub open spec fn records_inside(b: Seq<u8>, cmap: int, n: int) -> bool {
    forall|i: int| 0 <= i < n ==> #[trigger] record_inside(b, cmap, cmap + 4 + 8 * i)
}

/// The offset of the character map that the parser takes among the first
/// `n` encoding records: that of the last record it takes; 0 when it takes
/// none.
pub open spec fn index_map_of(b: Seq<u8>, cmap: int, n: int) -> int
    decreases n,
{
    if n <= 0 {
        0
    } else if record_taken(b, cmap + 4 + 8 * (n - 1)) {
        cmap + u32_at(b, cmap + 4 + 8 * (n - 1) + 4)
    } else {
        index_map_of(b, cmap, n - 1)
    }
}

/// Whether the search for each of the first `n` tables that loading looks
/// for stays inside the data.
pub open spec fn searches_inside(b: Seq<u8>, start: int, n: int) -> bool {
    forall|k: int| 0 <= k < n ==> #[trigger] search_inside(b, start, loading_tags()[k], 0)
}

/// Whether the parser can take stock of the font at `start` without
/// reading beyond the data: the number of tables, and the search for each
/// table that it looks for; and where the font has every table that the
/// parser asks for, the search for the table of the glyph count and the
/// glyph count, the encoding records, and the form of the glyph offsets.
pub open spec fn tables_inside(b: Seq<u8>, start: int) -> bool {
    let t = tables_of(b, start);
    let maxp = find_table(b, start, maxp_tag());
    &&& inside(b, start + 4, 2)
    &&& searches_inside(b, start, 8)
    &&& t.complete() ==> {
        &&& search_inside(b, start, maxp_tag(), 0)
        &&& maxp != 0 ==> inside(b, maxp + 4, 2)
        &&& inside(b, t.cmap + 2, 2)
        &&& records_inside(b, t.cmap as int, u16_at(b, t.cmap + 2))
        &&& index_map_of(b, t.cmap as int, u16_at(b, t.cmap + 2)) != 0 ==> inside(
            b,
            t.head + 50,
            2,
        )
    }
}

/// What the parser keeps of a font that it has loaded.
#[derive(Clone, Copy, Debug, PartialEq, Eq, Structural)]
pub struct FontLayout {
    pub tables: Tables,
    /// Where the character map stands.
    pub index_map: u32,
    /// The number of glyphs: that of the table of the glyph count, or
    /// `0xFFFF` for a font without that table.
    pub num_glyphs: u16,
    /// The form of the glyph offsets: 0 for 16 bits, 1 for 32 bits.
    pub loc_format: u16,
}

/// What the parser keeps of the font at `start`. There is none where the
/// parser refuses the font: where a table that it asks for is missing, or
/// where it takes no character map.
pub open spec fn layout_at(b: Seq<u8>, start: int) -> Option<FontLayout> {
    let t = tables_of(b, start);
    let maxp = find_table(b, start, maxp_tag());
    let index_map = index_map_of(b, t.cmap as int, u16_at(b, t.cmap + 2));
    if t.complete() && index_map != 0 {
        Some(
            FontLayout {
                tables: t,
                index_map: index_map as u32,
                num_glyphs: if maxp != 0 {
                    u16_at(b, maxp + 4) as u16
                } else {
                    0xffff
                },
                loc_format: u16_at(b, t.head + 50) as u16,
            },
        )
    } else {
        None
    }
}

/// What the parser keeps of the first font of the data. There is none
/// where the parser cannot load the data safely, and none where it finds
/// no font in the data or refuses the font.
pub open spec fn layout_of(b: Seq<u8>) -> Option<FontLayout> {
    if !load_safe(b) {
        None
    } else {
        match font_start(b) {
            FontStart::At(start) => layout_at(b, start as int),
            _ => None,
        }
    }
}

/// Whether the parser can try to load the data without reading beyond it.
pub open spec fn load_safe(b: Seq<u8>) -> bool {
    &&& 4 <= b.len()
    &&& match font_start(b) {
        FontStart::Refused => true,
        FontStart::Beyond => false,
        FontStart::At(start) => tables_inside(b, start as int),
    }
}

/// Looks for a table as the parser does. Gives its offset, 0 when the font
/// has none; and `None` where the search reads beyond the data.
pub fn lookup_table(b: &[u8], start: u64, t: (u8, u8, u8, u8)) -> (r: Option<u32>)
    requires
        start <= 0xffff_ffff,
        inside(b@, start + 4, 2),
    ensures
        r is Some == search_inside(b@, start as int, t, 0),
        r matches Some(offset) ==> offset == find_table(b@, start as int, t),
{
    let count = read_u16(b, start + 4) as u64;
    let mut i: u64 = 0;
    while i < count
        invariant
            i <= count,
            start <= 0xffff_ffff,
            count == table_count(b@, start as int),
            find_table(b@, start as int, t) == find_table_from(b@, start as int, t, i as int),
            search_inside(b@, start as int, t, 0) == search_inside(b@, start as int, t, i as int),
        decreases count - i,
    {
        let at = start + 12 + 16 * i;
        if !is_inside(b, at, 4) {
            return None;
        }
        if has_tag(b, at, t) {
            if !is_inside(b, at, 12) {
                return None;
            }
            return Some(read_u32(b, at + 8));
        }
        i += 1;
    }
    Some(0)
}

/// Whether the parser can take stock of the font at `start` without
/// reading beyond the data; and if so, what it keeps of the font.
#[verifier::loop_isolation(false)]
pub fn check_tables(b: &[u8], start: u64) -> (r: (bool, Option<FontLayout>))
    requires
        start <= 0xffff_ffff,
    ensures
        r.0 == tables_inside(b@, start as int),
        r.1 == if r.0 {
            layout_at(b@, start as int)
        } else {
            None
        },
{
    if !is_inside(b, start + 4, 2) {
        return (false, None);
    }
    let mut found: Vec<u32> = Vec::new();
    let tags: [(u8, u8, u8, u8); 8] = [
        (0x63, 0x6d, 0x61, 0x70),
        (0x6c, 0x6f, 0x63, 0x61),
        (0x68, 0x65, 0x61, 0x64),
        (0x67, 0x6c, 0x79, 0x66),
        (0x68, 0x68, 0x65, 0x61),
        (0x68, 0x6d, 0x74, 0x78),
        (0x6e, 0x61, 0x6d, 0x65),
        (0x6b, 0x65, 0x72, 0x6e),
    ];
    assert(tags@ =~= loading_tags());
    let mut k: usize = 0;
    while k < 8
        invariant
            k <= 8,
            found@.len() == k,
            searches_inside(b@, start as int, k as int),
            forall|j: int|
                0 <= j < k ==> #[trigger] found@[j] == find_table(
                    b@,
                    start as int,
                    loading_tags()[j],
                ),
        decreases 8 - k,
    {
        match lookup_table(b, start, tags[k]) {
            None => {
                assert(!search_inside(b@, start as int, loading_tags()[k as int], 0));
                return (false, None);
            },
            Some(offset) => {
                found.push(offset);
            },
        }
        k += 1;
    }
    let t = Tables {
        cmap: found[0],
        loca: found[1],
        head: found[2],
        glyf: found[3],
        hhea: found[4],
        hmtx: found[5],
    };
    if t.cmap == 0 || t.loca == 0 || t.head == 0 || t.glyf == 0 || t.hhea == 0 || t.hmtx == 0 {
        return (true, None);
    }
    let maxp = match lookup_table(b, start, (0x6d, 0x61, 0x78, 0x70)) {
        None => {
            return (false, None);
        },
        Some(offset) => offset,
    };
    if maxp != 0 && !is_inside(b, maxp as u64 + 4, 2) {
        return (false, None);
    }
    let cmap = t.cmap as u64;
    if !is_inside(b, cmap + 2, 2) {
        return (false, None);
    }
    let records = read_u16(b, cmap + 2) as u64;
    let mut index_map: u64 = 0;
    let mut i: u64 = 0;
    while i < records
        invariant
            i <= records <= 0xffff,
            records_inside(b@, cmap as int, i as int),
            index_map == index_map_of(b@, cmap as int, i as int),
            index_map <= 0xffff_ffff,
        decreases records - i,
    {
        let rec = cmap + 4 + 8 * i;
        let mut ok = rec <= 0xffff_ffff && is_inside(b, rec, 2);
        if ok {
            let platform = read_u16(b, rec);
            if platform == 3 {
                ok = is_inside(b, rec + 2, 2);
            }
            if ok {
                let taken = platform == 0 || (platform == 3 && (read_u16(b, rec + 2) == 1
                    || read_u16(b, rec + 2) == 10));
                if taken {
                    ok = is_inside(b, rec + 4, 4) && cmap + read_u32(b, rec + 4) as u64
                        <= 0xffff_ffff;
                    if ok {
                        index_map = cmap + read_u32(b, rec + 4) as u64;
                    }
                }
            }
        }
        if !ok {
            assert(!record_inside(b@, cmap as int, cmap + 4 + 8 * i));
            return (false, None);
        }
        i += 1;
    }
    if index_map == 0 {
        return (true, None);
    }
    if !is_inside(b, t.head as u64 + 50, 2) {
        return (false, None);
    }
    (
        true,
        Some(
            FontLayout {
                tables: t,
                index_map: index_map as u32,
                num_glyphs: if maxp != 0 {
                    read_u16(b, maxp as u64 + 4)
                } else {
                    0xffff
                },
                loc_format: read_u16(b, t.head as u64 + 50),
            },
        ),
    )
}

/// Whether the parser can try to load the data without reading beyond it.
pub fn check_load(b: &[u8]) -> (r: bool)
    ensures
        r == load_safe(b@),
{
    if b.len() < 4 {
        return false;
    }
    match find_font_start(b) {
        FontStart::Refused => true,
        FontStart::Beyond => false,
        FontStart::At(start) => check_tables(b, start as u64).0,
    }
}

} // verus!

verus! {

/// What the parser keeps of the first font of the data.
pub fn read_layout(b: &[u8]) -> (r: Option<FontLayout>)
    ensures
        r == layout_of(b@),
{
    if b.len() < 4 {
        return None;
    }
    match find_font_start(b) {
        FontStart::At(start) => check_tables(b, start as u64).1,
        _ => None,
    }
}

/// Where a search through the end codes of a segmented character map ends
/// after `k` more steps: each step halves the range and moves on by it
/// where the code point lies above the end code found there. `None` where a
/// step reads beyond the data.
pub open spec fn segment_search(b: Seq<u8>, code_point: int, search: int, range: int, k: nat)
    -> Option<int>
    decreases k,
{
    if k == 0 {
        Some(search)
    } else {
        let half = range / 2;
        if !inside(b, search + half * 2, 2) {
            None
        } else if code_point > u16_at(b, search + half * 2) {
            segment_search(b, code_point, search + half * 2, half, (k - 1) as nat)
        } else {
            segment_search(b, code_point, search, half, (k - 1) as nat)
        }
    }
}

/// A search whose range has come down to nothing stays where it is: it
/// only goes on reading the same end code.
pub proof fn lemma_search_at_rest(b: Seq<u8>, code_point: int, search: int, k: nat)
    ensures
        segment_search(b, code_point, search, 0, k) == if k == 0 || inside(b, search, 2) {
            Some(search)
        } else {
            None
        },
    decreases k,
{
    if k > 0 {
        lemma_search_at_rest(b, code_point, search, (k - 1) as nat);
    }
}

/// The glyph that a segmented character map at `im` gives for a code point
/// once the search has ended at `found`: the segment there has to end at or
/// above the code point; below its start there is no glyph; otherwise the
/// glyph is the code point moved by the segment's delta, or the one that a
/// table of glyphs names. `None` where the parser reads beyond the data, or
/// comes to a segment that ends below the code point.
pub open spec fn segment_glyph(b: Seq<u8>, im: int, code_point: int, found: int) -> Option<int> {
    let segments = u16_at(b, im + 6) / 2;
    let item = (found + 2 - (im + 14)) / 2;
    let end_at = im + 14 + 2 * item;
    let start_at = im + 14 + segments * 2 + 2 + 2 * item;
    let delta_at = im + 14 + segments * 4 + 2 + 2 * item;
    let offset_at = im + 14 + segments * 6 + 2 + 2 * item;
    if !inside(b, end_at, 2) || code_point > u16_at(b, end_at) || !inside(b, start_at, 2) {
        None
    } else if code_point < u16_at(b, start_at) {
        Some(0)
    } else if !inside(b, offset_at, 2) {
        None
    } else if u16_at(b, offset_at) == 0 {
        if !inside(b, delta_at, 2) {
            None
        } else {
            Some((code_point + i16_at(b, delta_at)) % 65536)
        }
    } else {
        let glyph_at = offset_at + u16_at(b, offset_at) + (code_point - u16_at(b, start_at)) * 2;
        if !inside(b, glyph_at, 2) {
            None
        } else {
            Some(u16_at(b, glyph_at))
        }
    }
}

/// The glyph that a segmented character map (format 4) at `im` gives for a
/// code point up to `0xFFFF`, found as the parser finds it: it starts at
/// the first end code, or beyond the shift where the code point lies at or
/// above the end code there, and then searches for as many steps as the map
/// says.
pub open spec fn segment_lookup(b: Seq<u8>, im: int, code_point: int) -> Option<int> {
    let range = u16_at(b, im + 8) / 2;
    let steps = u16_at(b, im + 10);
    let shift = u16_at(b, im + 12) / 2;
    let ends = im + 14;
    if !inside(b, ends + shift * 2, 2) {
        None
    } else {
        let first = if code_point >= u16_at(b, ends + shift * 2) {
            ends + shift * 2
        } else {
            ends
        };
        match segment_search(b, code_point, first - 2, range, steps as nat) {
            None => None,
            Some(found) => segment_glyph(b, im, code_point, found),
        }
    }
}

/// The glyph that a segmented character map gives once the search has
/// ended at `found`.
pub fn read_segment(b: &[u8], im: u64, code_point: u32, found: u64) -> (r: Option<u32>)
    requires
        inside(b@, im + 6, 8),
        code_point <= 0xffff,
        im + 12 <= found <= 0x2_0000_0000,
    ensures
        match segment_glyph(b@, im as int, code_point as int, found as int) {
            None => r is None,
            Some(g) => r is Some && r->Some_0 == g && g <= 0xffff,
        },
{
    let segments = (read_u16(b, im + 6) / 2) as u64;
    let item = (found + 2 - (im + 14)) / 2;
    let end_at = im + 14 + 2 * item;
    let start_at = im + 14 + segments * 2 + 2 + 2 * item;
    let delta_at = im + 14 + segments * 4 + 2 + 2 * item;
    let offset_at = im + 14 + segments * 6 + 2 + 2 * item;
    if !is_inside(b, end_at, 2) || code_point > read_u16(b, end_at) as u32 || !is_inside(
        b,
        start_at,
        2,
    ) {
        return None;
    }
    let start = read_u16(b, start_at) as u32;
    if code_point < start {
        return Some(0);
    }
    if !is_inside(b, offset_at, 2) {
        return None;
    }
    let offset = read_u16(b, offset_at) as u64;
    if offset == 0 {
        if !is_inside(b, delta_at, 2) {
            return None;
        }
        let sum: i32 = code_point as i32 + read_i16(b, delta_at);
        let glyph: i32 = if sum < 0 {
            sum + 65536
        } else if sum >= 65536 {
            sum - 65536
        } else {
            sum
        };
        Some(glyph as u32)
    } else {
        let glyph_at = offset_at + offset + ((code_point - start) as u64) * 2;
        if !is_inside(b, glyph_at, 2) {
            return None;
        }
        Some(read_u16(b, glyph_at) as u32)
    }
}

/// The glyph that a segmented character map at `im` gives for a code point.
#[verifier::loop_isolation(false)]
pub fn lookup_segment(b: &[u8], im: u64, code_point: u32) -> (r: Option<u32>)
    requires
        im <= 0xffff_ffff,
        inside(b@, im + 6, 8),
        code_point <= 0xffff,
    ensures
        match segment_lookup(b@, im as int, code_point as int) {
            None => r is None,
            Some(g) => r is Some && r->Some_0 == g && g <= 0xffff,
        },
{
    let range0 = (read_u16(b, im + 8) / 2) as u64;
    let steps = read_u16(b, im + 10);
    let shift = (read_u16(b, im + 12) / 2) as u64;
    let ends = im + 14;
    if !is_inside(b, ends + shift * 2, 2) {
        return None;
    }
    let mut search: u64 = if code_point >= read_u16(b, ends + shift * 2) as u32 {
        ends + shift * 2 - 2
    } else {
        ends - 2
    };
    let mut range: u64 = range0;
    let mut k: u16 = steps;
    let ghost first = search as int;
    while k > 0 && range > 0
        invariant
            ends - 2 <= search,
            search + 2 * range <= 0x1_0008_0000,
            range <= 0xffff,
            segment_search(b@, code_point as int, first, range0 as int, steps as nat)
                == segment_search(b@, code_point as int, search as int, range as int, k as nat),
        decreases k,
    {
        let half = range / 2;
        if !is_inside(b, search + half * 2, 2) {
            return None;
        }
        if code_point > read_u16(b, search + half * 2) as u32 {
            search = search + half * 2;
        }
        range = half;
        k -= 1;
    }
    if k > 0 {
        proof {
            lemma_search_at_rest(b@, code_point as int, search as int, k as nat);
        }
        if !is_inside(b, search, 2) {
            return None;
        }
    }
    read_segment(b, im, code_point, search)
}

/// The glyph that a character map of groups (format 12 or 13) at `im` gives
/// for a code point, found as the parser finds it: by halving the groups
/// from `low` up to `high`. In format 12 the glyphs of a group follow each
/// other; in format 13 a group has one glyph. `None` where the parser reads
/// beyond the data, or where a number leaves 32 bits.
pub open spec fn group_search(b: Seq<u8>, im: int, format: int, code_point: int, low: int, high: int)
    -> Option<int>
    decreases high - low,
{
    if low < 0 || low >= high {
        Some(0)
    } else if low + high > 0xffff_ffff || ((low + high) / 2) * 12 > 0xffff_ffff {
        None
    } else {
        let mid = (low + high) / 2;
        let g = im + 16 + mid * 12;
        if !inside(b, g, 12) {
            None
        } else if code_point < u32_at(b, g) {
            group_search(b, im, format, code_point, low, mid)
        } else if code_point > u32_at(b, g + 4) {
            group_search(b, im, format, code_point, mid + 1, high)
        } else if format == 12 {
            if u32_at(b, g + 8) + code_point > 0xffff_ffff {
                None
            } else {
                Some(u32_at(b, g + 8) + code_point - u32_at(b, g))
            }
        } else {
            Some(u32_at(b, g + 8))
        }
    }
}

/// The glyph that the character map at `im` gives for a code point, found
/// as the parser finds it. `None` where the parser reads beyond the data or
/// does not know the form of the map. The forms that it knows: a byte for
/// each code (format 0), a trimmed table (6), segments (4), and groups (12
/// and 13).
pub open spec fn cmap_glyph(b: Seq<u8>, im: int, code_point: int) -> Option<int> {
    if !inside(b, im, 2) {
        None
    } else if u16_at(b, im) == 0 {
        if !inside(b, im + 2, 2) || u16_at(b, im + 2) < 6 {
            None
        } else if code_point < u16_at(b, im + 2) - 6 {
            if inside(b, im + 6 + code_point, 1) {
                Some(b[im + 6 + code_point] as int)
            } else {
                None
            }
        } else {
            Some(0)
        }
    } else if u16_at(b, im) == 6 {
        if !inside(b, im + 6, 4) {
            None
        } else if u16_at(b, im + 6) <= code_point < u16_at(b, im + 6) + u16_at(b, im + 8) {
            if inside(b, im + 10 + (code_point - u16_at(b, im + 6)) * 2, 2) {
                Some(u16_at(b, im + 10 + (code_point - u16_at(b, im + 6)) * 2))
            } else {
                None
            }
        } else {
            Some(0)
        }
    } else if u16_at(b, im) == 4 {
        if !inside(b, im + 6, 8) {
            None
        } else if code_point > 0xffff {
            Some(0)
        } else {
            segment_lookup(b, im, code_point)
        }
    } else if u16_at(b, im) == 12 || u16_at(b, im) == 13 {
        if !inside(b, im + 12, 4) {
            None
        } else {
            group_search(b, im, u16_at(b, im), code_point, 0, u32_at(b, im + 12))
        }
    } else {
        None
    }
}

/// The glyph that the character map at `im` gives for a code point.
#[verifier::loop_isolation(false)]
pub fn lookup_glyph(b: &[u8], im: u64, code_point: u32) -> (r: Option<u32>)
    requires
        im <= 0xffff_ffff,
        code_point <= MAX_CODE_POINT,
    ensures
        match cmap_glyph(b@, im as int, code_point as int) {
            None => r is None,
            Some(g) => r is Some && r->Some_0 == g,
        },
{
    if !is_inside(b, im, 2) {
        return None;
    }
    let format = read_u16(b, im);
    let cp = code_point as u64;
    if format == 0 {
        if !is_inside(b, im + 2, 2) {
            return None;
        }
        let size = read_u16(b, im + 2) as u64;
        if size < 6 {
            return None;
        }
        if cp < size - 6 {
            if is_inside(b, im + 6 + cp, 1) {
                Some(b[(im + 6 + cp) as usize] as u32)
            } else {
                None
            }
        } else {
            Some(0)
        }
    } else if format == 6 {
        if !is_inside(b, im + 6, 4) {
            return None;
        }
        let first = read_u16(b, im + 6) as u64;
        let count = read_u16(b, im + 8) as u64;
        if first <= cp && cp < first + count {
            let at = im + 10 + (cp - first) * 2;
            if is_inside(b, at, 2) {
                Some(read_u16(b, at) as u32)
            } else {
                None
            }
        } else {
            Some(0)
        }
    } else if format == 4 {
        if !is_inside(b, im + 6, 8) {
            return None;
        }
        if code_point > 0xffff {
            Some(0)
        } else {
            lookup_segment(b, im, code_point)
        }
    } else if format == 12 || format == 13 {
        if !is_inside(b, im + 12, 4) {
            return None;
        }
        let groups = read_u32(b, im + 12) as u64;
        let mut low: u64 = 0;
        let mut high: u64 = groups;
        while low < high
            invariant
                low <= high <= groups,
                group_search(b@, im as int, format as int, code_point as int, 0, groups as int)
                    == group_search(
                    b@,
                    im as int,
                    format as int,
                    code_point as int,
                    low as int,
                    high as int,
                ),
            decreases high - low,
        {
            if low + high > 0xffff_ffff || ((low + high) / 2) * 12 > 0xffff_ffff {
                return None;
            }
            let mid = (low + high) / 2;
            let g = im + 16 + mid * 12;
            if !is_inside(b, g, 12) {
                return None;
            }
            let start = read_u32(b, g) as u64;
            let end = read_u32(b, g + 4) as u64;
            if cp < start {
                high = mid;
            } else if cp > end {
                low = mid + 1;
            } else {
                let first_glyph = read_u32(b, g + 8) as u64;
                if format == 12 {
                    if first_glyph + cp > 0xffff_ffff {
                        return None;
                    }
                    return Some((first_glyph + cp - start) as u32);
                } else {
                    return Some(first_glyph as u32);
                }
            }
        }
        Some(0)
    } else {
        None
    }
}

} // verus!

verus! {

/// Whether the parser can read the advance width and the side bearing of
/// a glyph: the number of the long measures, and then either the long
/// measure of the glyph, or the last long measure and the side bearing that
/// stands for the glyph behind the long measures.
pub open spec fn metrics_inside(b: Seq<u8>, l: FontLayout, glyph_id: int) -> bool {
    let hmtx = l.tables.hmtx as int;
    let long = u16_at(b, l.tables.hhea + 34);
    &&& inside(b, l.tables.hhea + 34, 2)
    &&& if glyph_id < long {
        inside(b, hmtx + 4 * glyph_id, 4)
    } else {
        &&& long >= 1
        &&& inside(b, hmtx + 4 * (long - 1), 2)
        &&& inside(b, hmtx + 4 * long + 2 * (glyph_id - long), 2)
    }
}

/// Whether the parser can read the advance width and the side bearing of
/// a glyph.
pub fn check_metrics(b: &[u8], l: &FontLayout, glyph_id: u32) -> (r: bool)
    ensures
        r == metrics_inside(b@, *l, glyph_id as int),
{
    let hmtx = l.tables.hmtx as u64;
    let id = glyph_id as u64;
    if !is_inside(b, l.tables.hhea as u64 + 34, 2) {
        return false;
    }
    let long = read_u16(b, l.tables.hhea as u64 + 34) as u64;
    if id < long {
        is_inside(b, hmtx + 4 * id, 4)
    } else {
        long >= 1 && is_inside(b, hmtx + 4 * (long - 1), 2) && is_inside(
            b,
            hmtx + 4 * long + 2 * (id - long),
            2,
        )
    }
}

/// Where the parser finds the data of a glyph.
#[derive(Clone, Copy, Debug, PartialEq, Eq, Structural)]
pub enum GlyphPlace {
    /// The parser loses its way: the offsets of the glyph lie outside the
    /// data, or lead beyond 32 bits.
    Lost,
    /// The glyph has no data: it lies beyond the glyph count, its data is
    /// empty, or the offsets have a form that the parser does not know and
    /// never reads.
    Empty,
    /// The data of the glyph starts here.
    At(u32),
}

/// Where the parser finds the data of a glyph: it reads the offset of the
/// glyph and that of the next, as two 16-bit numbers that count pairs of
/// bytes or as two 32-bit numbers, and goes that far into the table of the
/// outlines unless the two are equal.
pub open spec fn glyph_place(b: Seq<u8>, l: FontLayout, glyph_id: int) -> GlyphPlace {
    let loca = l.tables.loca as int;
    if glyph_id < 0 || glyph_id >= l.num_glyphs || l.loc_format >= 2 {
        GlyphPlace::Empty
    } else {
        let wide = l.loc_format == 1;
        let at = if wide {
            loca + 4 * glyph_id
        } else {
            loca + 2 * glyph_id
        };
        let first = if wide {
            u32_at(b, at)
        } else {
            u16_at(b, at) * 2
        };
        let next = if wide {
            u32_at(b, at + 4)
        } else {
            u16_at(b, at + 2) * 2
        };
        if at > 0xffff_ffff || !inside(b, at, if wide { 8 } else { 4 }) {
            GlyphPlace::Lost
        } else if first == next {
            GlyphPlace::Empty
        } else if l.tables.glyf + first > 0xffff_ffff {
            GlyphPlace::Lost
        } else {
            GlyphPlace::At((l.tables.glyf + first) as u32)
        }
    }
}

/// Where the parser finds the data of a glyph.
pub fn find_glyph(b: &[u8], l: &FontLayout, glyph_id: u32) -> (r: GlyphPlace)
    ensures
        r == glyph_place(b@, *l, glyph_id as int),
{
    let loca = l.tables.loca as u64;
    let id = glyph_id as u64;
    if glyph_id >= l.num_glyphs as u32 || l.loc_format >= 2 {
        return GlyphPlace::Empty;
    }
    let wide = l.loc_format == 1;
    let at = if wide {
        loca + 4 * id
    } else {
        loca + 2 * id
    };
    if at > 0xffff_ffff || !is_inside(b, at, if wide { 8 } else { 4 }) {
        return GlyphPlace::Lost;
    }
    let first = if wide {
        read_u32(b, at) as u64
    } else {
        read_u16(b, at) as u64 * 2
    };
    let next = if wide {
        read_u32(b, at + 4) as u64
    } else {
        read_u16(b, at + 2) as u64 * 2
    };
    if first == next {
        GlyphPlace::Empty
    } else if l.tables.glyf as u64 + first > 0xffff_ffff {
        GlyphPlace::Lost
    } else {
        GlyphPlace::At((l.tables.glyf as u64 + first) as u32)
    }
}

/// Whether a number has the bit of the given value set.
pub open spec fn has_bit(n: int, bit: int) -> bool {
    (n / bit) % 2 == 1
}

/// Whether a number has the bit of the given value set.
pub fn bit_set(n: u16, bit: u16) -> (r: bool)
    requires
        bit > 0,
    ensures
        r == has_bit(n as int, bit as int),
{
    (n / bit) % 2 == 1
}

/// How far the flags of an outline are read.
pub struct FlagState {
    /// Where the next flag stands.
    pub pos: int,
    /// How often the flag read last is still to be repeated.
    pub repeat: int,
    /// The flag read last.
    pub last: int,
    /// The flags of the points so far.
    pub flags: Seq<u8>,
}

/// The flags after one more point: the flag read last, while it is to be
/// repeated; otherwise the next byte, which may be followed by the number
/// of its repetitions. `None` where that reads beyond the data.
pub open spec fn flag_step(b: Seq<u8>, s: FlagState) -> Option<FlagState> {
    if s.repeat > 0 {
        Some(FlagState { repeat: s.repeat - 1, flags: s.flags.push(s.last as u8), ..s })
    } else if !inside(b, s.pos, 1) {
        None
    } else if has_bit(b[s.pos] as int, 8) {
        if !inside(b, s.pos, 2) {
            None
        } else {
            Some(
                FlagState {
                    pos: s.pos + 2,
                    repeat: b[s.pos + 1] as int,
                    last: b[s.pos] as int,
                    flags: s.flags.push(b[s.pos]),
                },
            )
        }
    } else {
        Some(
            FlagState {
                pos: s.pos + 1,
                repeat: 0,
                last: b[s.pos] as int,
                flags: s.flags.push(b[s.pos]),
            },
        )
    }
}

/// The flags after `k` points, read from `pos` on.
pub open spec fn flag_run(b: Seq<u8>, pos: int, k: nat) -> Option<FlagState>
    decreases k,
{
    if k == 0 {
        Some(FlagState { pos, repeat: 0, last: 0, flags: Seq::empty() })
    } else {
        match flag_run(b, pos, (k - 1) as nat) {
            None => None,
            Some(s) => flag_step(b, s),
        }
    }
}

/// How far the coordinates of an outline are read.
pub struct CoordState {
    /// Where the next coordinate stands.
    pub pos: int,
    /// The coordinate of the point read last.
    pub value: int,
    /// The coordinates of the points so far.
    pub values: Seq<i32>,
}

/// The coordinate of the next point, whose flag is `flag`: the one before,
/// moved by a byte (to either side), by a 16-bit number, or not at all.
/// `None` where that reads beyond the data, or where the coordinate leaves
/// the 16 bits in which the parser keeps it.
pub open spec fn coord_step(b: Seq<u8>, flag: int, short: int, same: int, s: CoordState)
    -> Option<CoordState> {
    let moved = if has_bit(flag, short) {
        if !inside(b, s.pos, 1) {
            None
        } else if has_bit(flag, same) {
            Some((s.pos + 1, s.value + b[s.pos]))
        } else {
            Some((s.pos + 1, s.value - b[s.pos]))
        }
    } else if !has_bit(flag, same) {
        if !inside(b, s.pos, 2) {
            None
        } else {
            Some((s.pos + 2, s.value + i16_at(b, s.pos)))
        }
    } else {
        Some((s.pos, s.value))
    };
    match moved {
        Some((pos, value)) => if fits_i16(value) {
            Some(CoordState { pos, value, values: s.values.push(value as i32) })
        } else {
            None
        },
        None => None,
    }
}

/// The coordinates after the first `k` points, read from `pos` on.
pub open spec fn coord_run(b: Seq<u8>, flags: Seq<u8>, short: int, same: int, pos: int, k: nat)
    -> Option<CoordState>
    decreases k,
{
    if k == 0 {
        Some(CoordState { pos, value: 0, values: Seq::empty() })
    } else {
        match coord_run(b, flags, short, same, pos, (k - 1) as nat) {
            None => None,
            Some(s) => coord_step(b, flags[k - 1] as int, short, same, s),
        }
    }
}

/// Once reading has failed, it has failed for every greater number of
/// points.
pub proof fn lemma_flag_run_fails(b: Seq<u8>, pos: int, k: nat, n: nat)
    requires
        k <= n,
        flag_run(b, pos, k) is None,
    ensures
        flag_run(b, pos, n) is None,
    decreases n,
{
    if k < n {
        lemma_flag_run_fails(b, pos, k, (n - 1) as nat);
    }
}

/// Once reading has failed, it has failed for every greater number of
/// points.
pub proof fn lemma_coord_run_fails(
    b: Seq<u8>,
    flags: Seq<u8>,
    short: int,
    same: int,
    pos: int,
    k: nat,
    n: nat,
)
    requires
        k <= n,
        coord_run(b, flags, short, same, pos, k) is None,
    ensures
        coord_run(b, flags, short, same, pos, n) is None,
    decreases n,
{
    if k < n {
        lemma_coord_run_fails(b, flags, short, same, pos, k, (n - 1) as nat);
    }
}

/// Whether every coordinate fits into 16 bits.
pub open spec fn all_fit(values: Seq<i32>) -> bool {
    forall|i: int| 0 <= i < values.len() ==> fits_i16(#[trigger] values[i] as int)
}

/// How far the parser has come in turning the points of an outline into
/// lines and curves.
#[derive(Clone, Copy, Debug, PartialEq, Eq, Structural)]
pub struct TraceState {
    /// The point that comes next.
    pub at: u32,
    /// The point with which the next contour starts.
    pub next_move: u32,
    /// The number of contours started so far.
    pub contour: u32,
    /// Whether the point before lay off the curve.
    pub was_off: bool,
    /// Whether the contour started with a point off the curve.
    pub start_off: bool,
    /// That first point off the curve.
    pub scx: i32,
    pub scy: i32,
    /// The last point off the curve.
    pub cx: i32,
    pub cy: i32,
}

/// The state before the first point.
pub open spec fn trace_start() -> TraceState {
    TraceState {
        at: 0,
        next_move: 0,
        contour: 0,
        was_off: false,
        start_off: false,
        scx: 0,
        scy: 0,
        cx: 0,
        cy: 0,
    }
}

/// Whether the parser can close the contour: where it both started and
/// ended off the curve, the point halfway between the two is taken, and
/// the sum of their coordinates has to fit into 16 bits.
pub open spec fn closes(s: TraceState) -> bool {
    s.start_off && s.was_off ==> fits_i16(s.cx + s.scx) && fits_i16(s.cy + s.scy)
}

/// Whether both coordinates of the point halfway between two points off
/// the curve can be computed in 16 bits.
pub open spec fn midway(x: int, y: int, other_x: int, other_y: int) -> bool {
    fits_i16(x + other_x) && fits_i16(y + other_y)
}

/// What the parser does with the next point. At the point with which a
/// contour starts it closes the contour before, unless this is the first;
/// where the point lies off the curve it looks at the one behind it, stops
/// if there is none, takes the point halfway if that one lies off the
/// curve too, and else starts there and passes over it; then it reads where
/// the contour ends. At any other point off the curve it takes the point
/// halfway to the last one, if that lay off the curve too. `None` where a
/// sum leaves 16 bits, or where the end of the contour is read beyond the
/// data.
pub open spec fn trace_step(
    b: Seq<u8>,
    ends: int,
    flags: Seq<u8>,
    xs: Seq<i32>,
    ys: Seq<i32>,
    s: TraceState,
) -> Option<TraceState> {
    let i = s.at as int;
    let on = has_bit(flags[i] as int, 1);
    if s.next_move == i {
        if i != 0 && !closes(s) {
            None
        } else if !on && i + 1 >= flags.len() {
            Some(TraceState { at: (i + 1) as u32, start_off: true, scx: xs[i], scy: ys[i], ..s })
        } else if !on && !has_bit(flags[i + 1] as int, 1) && !midway(
            xs[i] as int,
            ys[i] as int,
            xs[i + 1] as int,
            ys[i + 1] as int,
        ) {
            None
        } else if !inside(b, ends + 2 * s.contour, 2) {
            None
        } else {
            Some(
                TraceState {
                    at: if !on && has_bit(flags[i + 1] as int, 1) {
                        (i + 2) as u32
                    } else {
                        (i + 1) as u32
                    },
                    next_move: (1 + u16_at(b, ends + 2 * s.contour)) as u32,
                    contour: (s.contour + 1) as u32,
                    was_off: false,
                    start_off: !on,
                    scx: if on {
                        s.scx
                    } else {
                        xs[i]
                    },
                    scy: if on {
                        s.scy
                    } else {
                        ys[i]
                    },
                    cx: s.cx,
                    cy: s.cy,
                },
            )
        }
    } else if !on {
        if s.was_off && !midway(s.cx as int, s.cy as int, xs[i] as int, ys[i] as int) {
            None
        } else {
            Some(TraceState { at: (i + 1) as u32, was_off: true, cx: xs[i], cy: ys[i], ..s })
        }
    } else {
        Some(TraceState { at: (i + 1) as u32, was_off: false, ..s })
    }
}

/// Whether the parser can turn the points from the state `s` on into lines
/// and curves, and close the last contour.
pub open spec fn trace_safe(
    b: Seq<u8>,
    ends: int,
    flags: Seq<u8>,
    xs: Seq<i32>,
    ys: Seq<i32>,
    s: TraceState,
) -> bool
    decreases flags.len() - s.at,
{
    if s.at >= flags.len() {
        closes(s)
    } else {
        match trace_step(b, ends, flags, xs, ys, s) {
            None => false,
            Some(t) => t.at > s.at && trace_safe(b, ends, flags, xs, ys, t),
        }
    }
}

/// What the parser does with the next point.
pub fn trace_next(
    b: &[u8],
    ends: u64,
    flags: &Vec<u8>,
    xs: &Vec<i32>,
    ys: &Vec<i32>,
    s: TraceState,
) -> (r: Option<TraceState>)
    requires
        ends <= 0x1_0000_0010,
        flags@.len() == xs@.len() == ys@.len(),
        flags@.len() <= 0x1_0000,
        s.at < flags@.len(),
        s.contour <= s.at,
        all_fit(xs@),
        all_fit(ys@),
        fits_i16(s.cx as int) && fits_i16(s.cy as int) && fits_i16(s.scx as int) && fits_i16(
            s.scy as int,
        ),
    ensures
        r == trace_step(b@, ends as int, flags@, xs@, ys@, s),
        r matches Some(t) ==> s.at < t.at <= s.at + 2 && t.contour <= t.at && fits_i16(
            t.cx as int,
        ) && fits_i16(t.cy as int) && fits_i16(t.scx as int) && fits_i16(t.scy as int),
{
    let i = s.at as usize;
    let on = bit_set(flags[i] as u16, 1);
    let x = xs[i];
    let y = ys[i];
    if s.next_move == s.at {
        if i != 0 && s.start_off && s.was_off && !(fits(s.cx + s.scx) && fits(s.cy + s.scy)) {
            return None;
        }
        if !on && i + 1 >= flags.len() {
            return Some(TraceState { at: s.at + 1, start_off: true, scx: x, scy: y, ..s });
        }
        let skip = !on && bit_set(flags[i + 1] as u16, 1);
        if !on && !skip && !(fits(x + xs[i + 1]) && fits(y + ys[i + 1])) {
            return None;
        }
        let end_at = ends + 2 * s.contour as u64;
        if !is_inside(b, end_at, 2) {
            return None;
        }
        Some(
            TraceState {
                at: if skip {
                    s.at + 2
                } else {
                    s.at + 1
                },
                next_move: 1 + read_u16(b, end_at) as u32,
                contour: s.contour + 1,
                was_off: false,
                start_off: !on,
                scx: if on {
                    s.scx
                } else {
                    x
                },
                scy: if on {
                    s.scy
                } else {
                    y
                },
                cx: s.cx,
                cy: s.cy,
            },
        )
    } else if !on {
        if s.was_off && !(fits(s.cx + x) && fits(s.cy + y)) {
            None
        } else {
            Some(TraceState { at: s.at + 1, was_off: true, cx: x, cy: y, ..s })
        }
    } else {
        Some(TraceState { at: s.at + 1, was_off: false, ..s })
    }
}

/// Whether a signed number fits into 16 bits.
pub fn fits(n: i32) -> (r: bool)
    ensures
        r == fits_i16(n as int),
{
    -32768 <= n && n <= 32767
}

/// Whether the parser can turn the points of an outline into lines and
/// curves.
#[verifier::loop_isolation(false)]
pub fn check_trace(b: &[u8], ends: u64, flags: &Vec<u8>, xs: &Vec<i32>, ys: &Vec<i32>) -> (r: bool)
    requires
        ends <= 0x1_0000_0010,
        flags@.len() == xs@.len() == ys@.len(),
        flags@.len() <= 0x1_0000,
        all_fit(xs@),
        all_fit(ys@),
    ensures
        r == trace_safe(b@, ends as int, flags@, xs@, ys@, trace_start()),
{
    let mut s = TraceState {
        at: 0,
        next_move: 0,
        contour: 0,
        was_off: false,
        start_off: false,
        scx: 0,
        scy: 0,
        cx: 0,
        cy: 0,
    };
    while (s.at as usize) < flags.len()
        invariant
            s.contour <= s.at <= flags@.len() + 1,
            fits_i16(s.cx as int) && fits_i16(s.cy as int) && fits_i16(s.scx as int) && fits_i16(
                s.scy as int,
            ),
            trace_safe(b@, ends as int, flags@, xs@, ys@, trace_start()) == trace_safe(
                b@,
                ends as int,
                flags@,
                xs@,
                ys@,
                s,
            ),
        decreases flags@.len() + 1 - s.at,
    {
        match trace_next(b, ends, flags, xs, ys, s) {
            None => {
                return false;
            },
            Some(t) => {
                s = t;
            },
        }
    }
    !(s.start_off && s.was_off) || (fits(s.cx + s.scx) && fits(s.cy + s.scy))
}

/// Reads one of the two coordinates of every point of an outline and
/// gives where the reading ends, and the coordinates.
#[verifier::loop_isolation(false)]
pub fn read_coords(b: &[u8], flags: &Vec<u8>, short: u16, same: u16, pos: u64) -> (r: Option<
    (u64, Vec<i32>),
>)
    requires
        pos <= 0x1_0010_0000,
        flags@.len() <= 0x1_0000,
        short > 0,
        same > 0,
    ensures
        match coord_run(b@, flags@, short as int, same as int, pos as int, flags@.len()) {
            None => r is None,
            Some(s) => r is Some && r->Some_0.0 == s.pos && r->Some_0.1@ == s.values && s.pos
                <= pos + 2 * flags@.len() && s.values.len() == flags@.len() && all_fit(s.values),
        },
{
    let mut at: u64 = pos;
    let mut value: i32 = 0;
    let mut values: Vec<i32> = Vec::new();
    let mut i: usize = 0;
    while i < flags.len()
        invariant
            i <= flags@.len(),
            at <= pos + 2 * i,
            fits_i16(value as int),
            values@.len() == i,
            all_fit(values@),
            coord_run(b@, flags@, short as int, same as int, pos as int, i as nat) == Some(
                CoordState { pos: at as int, value: value as int, values: values@ },
            ),
        decreases flags@.len() - i,
    {
        let flag = flags[i] as u16;
        let ghost before = CoordState { pos: at as int, value: value as int, values: values@ };
        let ghost stepped = coord_step(b@, flag as int, short as int, same as int, before);
        assert(coord_run(b@, flags@, short as int, same as int, pos as int, (i + 1) as nat)
            == stepped);
        let mut failed = false;
        if bit_set(flag, short) {
            if !is_inside(b, at, 1) {
                failed = true;
            } else {
                let d = b[at as usize] as i32;
                value = if bit_set(flag, same) {
                    value + d
                } else {
                    value - d
                };
                at = at + 1;
            }
        } else if !bit_set(flag, same) {
            if !is_inside(b, at, 2) {
                failed = true;
            } else {
                value = value + read_i16(b, at);
                at = at + 2;
            }
        }
        if failed || !fits(value) {
            proof {
                lemma_coord_run_fails(
                    b@,
                    flags@,
                    short as int,
                    same as int,
                    pos as int,
                    (i + 1) as nat,
                    flags@.len(),
                );
            }
            return None;
        }
        values.push(value);
        assert(stepped == Some(
            CoordState { pos: at as int, value: value as int, values: values@ },
        ));
        i += 1;
    }
    Some((at, values))
}

/// Whether the parser can read the outline of a simple glyph of `contours`
/// contours at `g`: the ends of the contours and the length of the
/// instructions lie inside the data, and so do the flags and the two
/// coordinates of every point; no coordinate leaves 16 bits; and the points
/// can be turned into lines and curves.
pub open spec fn simple_safe(b: Seq<u8>, g: int, contours: int) -> bool {
    let ends = g + 10;
    let points = 1 + u16_at(b, ends + 2 * contours - 2);
    let start = ends + 2 * contours + 2 + u16_at(b, ends + 2 * contours);
    &&& inside(b, g, 10 + 2 * contours + 2)
    &&& inside(b, start, 0)
    &&& flag_run(b, start, points as nat) matches Some(f)
    &&& coord_run(b, f.flags, 2, 16, f.pos, points as nat) matches Some(x)
    &&& coord_run(b, f.flags, 4, 32, x.pos, points as nat) matches Some(y)
    &&& trace_safe(b, ends, f.flags, x.values, y.values, trace_start())
}

/// Whether the parser can read the outline of a simple glyph.
#[verifier::loop_isolation(false)]
pub fn check_simple(b: &[u8], g: u64, contours: u64) -> (r: bool)
    requires
        g <= 0xffff_ffff,
        1 <= contours <= 0x7fff,
    ensures
        r == simple_safe(b@, g as int, contours as int),
{
    if !is_inside(b, g, 10 + 2 * contours + 2) {
        return false;
    }
    let ends = g + 10;
    let points = 1 + read_u16(b, ends + 2 * contours - 2) as usize;
    let start = ends + 2 * contours + 2 + read_u16(b, ends + 2 * contours) as u64;
    if !is_inside(b, start, 0) {
        return false;
    }
    let mut flags: Vec<u8> = Vec::new();
    let mut at: u64 = start;
    let mut repeat: u8 = 0;
    let mut last: u8 = 0;
    let mut i: usize = 0;
    while i < points
        invariant
            i <= points,
            at <= start + 2 * i,
            flag_run(b@, start as int, i as nat) == Some(
                FlagState { pos: at as int, repeat: repeat as int, last: last as int, flags: flags@ },
            ),
            flags@.len() == i,
        decreases points - i,
    {
        let ghost before = FlagState {
            pos: at as int,
            repeat: repeat as int,
            last: last as int,
            flags: flags@,
        };
        assert(flag_run(b@, start as int, (i + 1) as nat) == flag_step(b@, before));
        if repeat > 0 {
            repeat -= 1;
            flags.push(last);
        } else {
            if !is_inside(b, at, 1) || (bit_set(b[at as usize] as u16, 8) && !is_inside(b, at, 2)) {
                proof {
                    lemma_flag_run_fails(b@, start as int, (i + 1) as nat, points as nat);
                }
                return false;
            }
            last = b[at as usize];
            if bit_set(last as u16, 8) {
                repeat = b[at as usize + 1];
                at = at + 2;
            } else {
                at = at + 1;
            }
            flags.push(last);
        }
        i += 1;
    }
    let (after_x, xs) = match read_coords(b, &flags, 2, 16, at) {
        None => {
            return false;
        },
        Some(read) => read,
    };
    let (_, ys) = match read_coords(b, &flags, 4, 32, after_x) {
        None => {
            return false;
        },
        Some(read) => read,
    };
    check_trace(b, ends, &flags, &xs, &ys)
}

/// The number of bytes that the placement of a component takes: two
/// numbers, of 16 or of 8 bits.
pub open spec fn placement_len(flags: int) -> int {
    if has_bit(flags, 1) {
        4
    } else {
        2
    }
}

/// The number of bytes that the scaling of a component takes.
pub open spec fn scaling_len(flags: int) -> int {
    if has_bit(flags, 8) {
        2
    } else if has_bit(flags, 64) {
        4
    } else if has_bit(flags, 128) {
        8
    } else {
        0
    }
}

/// Whether the parser can read the outline of the glyph, with compound
/// glyphs nested no deeper than `depth`: the glyph has no data; or it has
/// no contours; or it is a simple glyph that can be read; or it is made of
/// components that can be read. Any other number of contours stops the
/// parser.
pub open spec fn glyph_safe(b: Seq<u8>, l: FontLayout, glyph_id: int, depth: nat) -> bool
    decreases depth, b.len() + 1,
{
    match glyph_place(b, l, glyph_id) {
        GlyphPlace::Lost => false,
        GlyphPlace::Empty => true,
        GlyphPlace::At(g) => {
            &&& inside(b, g as int, 2)
            &&& if i16_at(b, g as int) > 0 {
                simple_safe(b, g as int, i16_at(b, g as int))
            } else if i16_at(b, g as int) == -1 {
                inside(b, g as int, 10) && depth > 0 && components_safe(b, l, g + 10, depth)
            } else {
                i16_at(b, g as int) == 0
            }
        },
    }
}

/// Whether the parser can read the components of a compound glyph from
/// `pos` on: each is placed by an offset, lies inside the data, and is a
/// glyph that the parser can read, one level less deep; and so on while a
/// component says that more follow.
pub open spec fn components_safe(b: Seq<u8>, l: FontLayout, pos: int, depth: nat) -> bool
    decreases depth, b.len() - pos,
{
    if depth == 0 || !inside(b, pos, 4) {
        false
    } else {
        let flags = u16_at(b, pos);
        let len = 4 + placement_len(flags) + scaling_len(flags);
        &&& has_bit(flags, 2)
        &&& inside(b, pos, len)
        &&& glyph_safe(b, l, u16_at(b, pos + 2), (depth - 1) as nat)
        &&& has_bit(flags, 32) ==> components_safe(b, l, pos + len, depth)
    }
}

/// Whether the parser can read the outline of the glyph, with compound
/// glyphs nested no deeper than `depth`.
#[verifier::loop_isolation(false)]
pub fn check_glyph(b: &[u8], l: &FontLayout, glyph_id: u32, depth: u32) -> (r: bool)
    ensures
        r == glyph_safe(b@, *l, glyph_id as int, depth as nat),
    decreases depth,
{
    let g = match find_glyph(b, l, glyph_id) {
        GlyphPlace::Lost => {
            return false;
        },
        GlyphPlace::Empty => {
            return true;
        },
        GlyphPlace::At(g) => g as u64,
    };
    if !is_inside(b, g, 2) {
        return false;
    }
    let contours = read_i16(b, g);
    if contours > 0 {
        return check_simple(b, g, contours as u64);
    }
    if contours != -1 {
        return contours == 0;
    }
    if depth == 0 || !is_inside(b, g, 10) {
        return false;
    }
    let first = g + 10;
    let mut pos: u64 = first;
    let mut more = true;
    while more
        invariant
            first <= pos <= b@.len(),
            depth > 0,
            more ==> components_safe(b@, *l, first as int, depth as nat) == components_safe(
                b@,
                *l,
                pos as int,
                depth as nat,
            ),
            !more ==> components_safe(b@, *l, first as int, depth as nat),
        decreases b@.len() - pos, more as int,
    {
        if !is_inside(b, pos, 4) {
            return false;
        }
        let flags = read_u16(b, pos);
        let component = read_u16(b, pos + 2);
        let placement: u64 = if bit_set(flags, 1) {
            4
        } else {
            2
        };
        let scaling: u64 = if bit_set(flags, 8) {
            2
        } else if bit_set(flags, 64) {
            4
        } else if bit_set(flags, 128) {
            8
        } else {
            0
        };
        let len = 4 + placement + scaling;
        if !bit_set(flags, 2) || !is_inside(b, pos, len) {
            return false;
        }
        if !check_glyph(b, l, component as u32, depth - 1) {
            return false;
        }
        if bit_set(flags, 32) {
            pos = pos + len;
        } else {
            more = false;
        }
    }
    true
}

/// Whether the parser can answer what is asked of a glyph when a font is
/// embedded: its advance width and side bearing, the box around it, and its
/// outline. A compound glyph may be nested as deep as there are glyphs,
/// which leaves out only one that is a part of itself.
pub open spec fn glyph_readable(b: Seq<u8>, l: FontLayout, glyph_id: int) -> bool {
    &&& metrics_inside(b, l, glyph_id)
    &&& glyph_place(b, l, glyph_id) matches GlyphPlace::At(g) ==> inside(b, g as int, 10)
    &&& glyph_safe(b, l, glyph_id, l.num_glyphs as nat)
}

/// Whether the parser can answer what is asked of the code point: its
/// glyph, which has to lie below the glyph count; and, for a code point up
/// to [`LAST_CODE_POINT`] that has a glyph, what is asked of that glyph.
pub open spec fn code_point_safe(b: Seq<u8>, l: FontLayout, code_point: int) -> bool {
    match cmap_glyph(b, l.index_map as int, code_point) {
        None => false,
        Some(g) => g < l.num_glyphs && (code_point <= LAST_CODE_POINT && g != 0 ==> glyph_readable(
            b,
            l,
            g,
        )),
    }
}

/// Whether the parser can answer every question that is asked of a font
/// without reading beyond the data, meeting a form that it does not know, or
/// computing a number that leaves its width: it can load the font and
/// keeps it; its ascent and descent lie inside the data; the character map
/// leads every code point to a glyph below the glyph count; and the
/// measures, the box and the outline can be read of every glyph that a code
/// point up to [`LAST_CODE_POINT`] leads to. Nothing is asked of a glyph
/// that no such code point leads to, unless it is a part of one.
pub open spec fn font_readable(b: Seq<u8>) -> bool {
    layout_of(b) matches Some(l) && inside(b, l.tables.hhea + 4, 6) && forall|code_point: int|
        0 <= code_point <= MAX_CODE_POINT ==> #[trigger] code_point_safe(b, l, code_point)
}

/// Whether the parser can answer what is asked of a glyph when a font is
/// embedded.
pub fn check_reached(b: &[u8], l: &FontLayout, glyph_id: u32) -> (r: bool)
    ensures
        r == glyph_readable(b@, *l, glyph_id as int),
{
    if !check_metrics(b, l, glyph_id) {
        return false;
    }
    match find_glyph(b, l, glyph_id) {
        GlyphPlace::At(g) => {
            if !is_inside(b, g as u64, 10) {
                return false;
            }
        },
        _ => {},
    }
    check_glyph(b, l, glyph_id, l.num_glyphs as u32)
}

/// Whether the parser can answer every question that is asked of a font.
#[verifier::loop_isolation(false)]
pub fn check_font(b: &[u8]) -> (r: bool)
    ensures
        r == font_readable(b@),
{
    let l = match read_layout(b) {
        None => {
            return false;
        },
        Some(l) => l,
    };
    if !is_inside(b, l.tables.hhea as u64 + 4, 6) {
        return false;
    }
    let mut code_point: u32 = 0;
    while code_point <= MAX_CODE_POINT
        invariant
            code_point <= MAX_CODE_POINT + 1,
            forall|c: int| 0 <= c < code_point ==> #[trigger] code_point_safe(b@, l, c),
        decreases MAX_CODE_POINT + 1 - code_point,
    {
        let ok = match lookup_glyph(b, l.index_map as u64, code_point) {
            None => false,
            Some(g) => g < l.num_glyphs as u32 && (code_point > LAST_CODE_POINT || g == 0
                || check_reached(b, &l, g)),
        };
        if !ok {
            assert(!code_point_safe(b@, l, code_point as int));
            return false;
        }
        code_point += 1;
    }
    true
}

} // verus!
