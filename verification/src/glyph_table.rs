//! The glyphs of an outline font that Unicode code points lead to.

use vstd::prelude::*;
use crate::font_check::LAST_CODE_POINT;
use crate::font_parser::{
    font_glyph_data, font_glyph_index, font_loads, font_vertical_metrics,
    glyph_data, glyph_index,
};

verus! {

/// One glyph of a font: its identifier, a code point that leads to it, its
/// advance width and its height, both in font units.
#[derive(Debug, Clone, Copy, PartialEq, Eq, Structural)]
pub struct GlyphRecord {
    pub glyph_id: u32,
    pub unicode: u32,
    pub width: u32,
    pub height: i64,
}

/// The record that every table starts with, for glyph 0.
pub open spec fn base_record() -> GlyphRecord {
    GlyphRecord { glyph_id: 0, unicode: 0, width: 1000, height: 1000 }
}

/// The records are in strictly ascending order of glyph identifier.
pub open spec fn table_sorted(table: Seq<GlyphRecord>) -> bool {
    forall|i: int, j: int| 0 <= i < j < table.len() ==> table[i].glyph_id < table[j].glyph_id
}

/// The number of records at the start of the table, from `from` on, whose
/// glyph identifier is below `glyph_id`, plus `from`.
pub open spec fn table_rank(table: Seq<GlyphRecord>, glyph_id: u32, from: int) -> int
    decreases table.len() - from,
{
    if from < 0 || from >= table.len() {
        table.len() as int
    } else if table[from].glyph_id >= glyph_id {
        from
    } else {
        table_rank(table, glyph_id, from + 1)
    }
}

/// The table with the record put in the place that its glyph identifier
/// gives it: in the place of the record of the same glyph, if there is one.
pub open spec fn table_put(table: Seq<GlyphRecord>, record: GlyphRecord) -> Seq<GlyphRecord> {
    let i = table_rank(table, record.glyph_id, 0);
    if i < table.len() && table[i].glyph_id == record.glyph_id {
        table.update(i, record)
    } else {
        table.insert(i, record)
    }
}

/// The record of the glyph, if the table has one.
pub open spec fn table_lookup(table: Seq<GlyphRecord>, glyph_id: u32) -> Option<GlyphRecord> {
    let i = table_rank(table, glyph_id, 0);
    if i < table.len() && table[i].glyph_id == glyph_id {
        Some(table[i])
    } else {
        None
    }
}

/// The rank is a position or the length; the records before it are below
/// the glyph identifier, and the record at it is not.
pub proof fn lemma_table_rank(table: Seq<GlyphRecord>, glyph_id: u32, from: int)
    requires
        0 <= from <= table.len(),
    ensures
        from <= table_rank(table, glyph_id, from) <= table.len(),
        table_rank(table, glyph_id, from) < table.len() ==> table[table_rank(
            table,
            glyph_id,
            from,
        )].glyph_id >= glyph_id,
        forall|j: int|
            from <= j < table_rank(table, glyph_id, from) ==> table[j].glyph_id < glyph_id,
    decreases table.len() - from,
{
    if from < table.len() && table[from].glyph_id < glyph_id {
        lemma_table_rank(table, glyph_id, from + 1);
    }
}

/// In a sorted table, the rank is the one position with lower glyphs before
/// it and none at or after it.
pub proof fn lemma_rank_unique(table: Seq<GlyphRecord>, glyph_id: u32, i: int)
    requires
        table_sorted(table),
        0 <= i <= table.len(),
        i > 0 ==> table[i - 1].glyph_id < glyph_id,
        i < table.len() ==> table[i].glyph_id >= glyph_id,
    ensures
        table_rank(table, glyph_id, 0) == i,
{
    lemma_table_rank(table, glyph_id, 0);
    let r = table_rank(table, glyph_id, 0);
    if r < i {
        if r < i - 1 {
            assert(table[r].glyph_id < table[i - 1].glyph_id);
        }
    } else if r > i {
        assert(table[i].glyph_id < glyph_id);
    }
}

/// Putting a record into a sorted table keeps it sorted; the table then
/// holds the record, and the records of all other glyphs as before.
pub proof fn lemma_table_put(table: Seq<GlyphRecord>, record: GlyphRecord)
    requires
        table_sorted(table),
    ensures
        table_sorted(table_put(table, record)),
        table_lookup(table_put(table, record), record.glyph_id) == Some(record),
        forall|g: u32|
            g != record.glyph_id ==> table_lookup(table_put(table, record), g) == table_lookup(
                table,
                g,
            ),
        table.len() > 0 && table[0].glyph_id == 0 ==> table_put(table, record)[0].glyph_id == 0,
        table_put(table, record).len() >= table.len(),
{
    let t2 = table_put(table, record);
    let i = table_rank(table, record.glyph_id, 0);
    lemma_table_rank(table, record.glyph_id, 0);
    let replaced = i < table.len() && table[i].glyph_id == record.glyph_id;
    assert forall|a: int, b: int| 0 <= a < b < t2.len() implies t2[a].glyph_id
        < t2[b].glyph_id by {
        if replaced {
            assert(t2[a].glyph_id == table[a].glyph_id);
            assert(t2[b].glyph_id == table[b].glyph_id);
        } else {
            let a0 = if a < i { a } else { a - 1 };
            let b0 = if b < i { b } else { b - 1 };
            if a == i {
                assert(t2[b] == table[b0]);
                if i < b0 {
                    assert(table[i].glyph_id < table[b0].glyph_id);
                }
            } else if b == i {
                assert(t2[a] == table[a0]);
            } else {
                assert(t2[a] == table[a0]);
                assert(t2[b] == table[b0]);
            }
        }
    }
    assert(t2[i] == record);
    if i > 0 {
        assert(t2[i - 1] == table[i - 1]);
    }
    if i + 1 < t2.len() {
        assert(t2[i].glyph_id < t2[i + 1].glyph_id);
    }
    lemma_rank_unique(t2, record.glyph_id, i);
    assert forall|g: u32| g != record.glyph_id implies table_lookup(t2, g) == table_lookup(
        table,
        g,
    ) by {
        lemma_table_rank(table, g, 0);
        let k = table_rank(table, g, 0);
        if replaced {
            if k > 0 {
                assert(t2[k - 1].glyph_id == table[k - 1].glyph_id);
            }
            if k < table.len() {
                assert(t2[k].glyph_id == table[k].glyph_id);
                if k == i {
                    assert(table[k].glyph_id > g);
                }
            }
            lemma_rank_unique(t2, g, k);
        } else if g < record.glyph_id {
            if k > i {
                assert(table[i].glyph_id < g);
            }
            if k > 0 {
                assert(t2[k - 1] == table[k - 1]);
            }
            if k < i {
                assert(t2[k] == table[k]);
            }
            lemma_rank_unique(t2, g, k);
        } else {
            if k < i {
                assert(table[k].glyph_id >= g);
                assert(table[k].glyph_id < record.glyph_id);
            }
            if k > i {
                assert(t2[k] == table[k - 1]);
            }
            if k + 1 < t2.len() {
                assert(t2[k + 1] == table[k]);
            }
            lemma_rank_unique(t2, g, k + 1);
        }
    }
}

/// Puts a record into a sorted table, in the place of the record of the
/// same glyph if there is one.
pub fn put_record(table: &mut Vec<GlyphRecord>, record: GlyphRecord)
    requires
        table_sorted(old(table)@),
    ensures
        final(table)@ == table_put(old(table)@, record),
        table_sorted(final(table)@),
{
    let mut i: usize = table.len();
    while i > 0 && table[i - 1].glyph_id >= record.glyph_id
        invariant
            i <= table@.len(),
            table@ == old(table)@,
            i < table@.len() ==> table@[i as int].glyph_id >= record.glyph_id,
        decreases i,
    {
        i -= 1;
    }
    proof {
        lemma_rank_unique(table@, record.glyph_id, i as int);
        lemma_table_put(table@, record);
    }
    if i < table.len() && table[i].glyph_id == record.glyph_id {
        table.set(i, record);
    } else {
        table.insert(i, record);
    }
}

/// The height of a glyph: the vertical extent of its outline less the
/// descent of the font, or 1000 for a glyph without an outline. A descent
/// beyond the range of 32 bits counts as the nearest end of that range.
pub open spec fn glyph_height(extent: Option<(i32, i32)>, descent: i64) -> i64 {
    let d: int = if descent > i32::MAX {
        i32::MAX as int
    } else if descent < i32::MIN {
        i32::MIN as int
    } else {
        descent as int
    };
    match extent {
        Some((min_y, max_y)) => (max_y - min_y - d) as i64,
        None => 1000,
    }
}

/// The record for a code point, from what the font parser answered: none
/// for glyph 0 and for a glyph without data.
pub open spec fn record_of(
    glyph_id: u32,
    code_point: u32,
    data: Option<(u32, Option<(i32, i32)>)>,
    descent: i64,
) -> Option<GlyphRecord> {
    if glyph_id == 0 {
        None
    } else {
        match data {
            None => None,
            Some((width, extent)) => Some(
                GlyphRecord {
                    glyph_id,
                    unicode: code_point,
                    width,
                    height: glyph_height(extent, descent),
                },
            ),
        }
    }
}

/// The record that the font gives for a code point.
pub open spec fn probe(bytes: Seq<u8>, code_point: u32) -> Option<GlyphRecord> {
    let glyph_id = font_glyph_index(bytes, code_point);
    record_of(
        glyph_id,
        code_point,
        font_glyph_data(bytes, glyph_id),
        font_vertical_metrics(bytes).1,
    )
}

/// The record for a code point, from what the font parser answered.
pub fn make_record(
    glyph_id: u32,
    code_point: u32,
    data: Option<(u32, Option<(i32, i32)>)>,
    descent: i64,
) -> (r: Option<GlyphRecord>)
    ensures
        r == record_of(glyph_id, code_point, data, descent),
{
    if glyph_id == 0 {
        return None;
    }
    match data {
        None => None,
        Some((width, extent)) => {
            let d: i64 = if descent > i32::MAX as i64 {
                i32::MAX as i64
            } else if descent < i32::MIN as i64 {
                i32::MIN as i64
            } else {
                descent
            };
            let height: i64 = match extent {
                Some((min_y, max_y)) => max_y as i64 - min_y as i64 - d,
                None => 1000,
            };
            Some(GlyphRecord { glyph_id, unicode: code_point, width, height })
        },
    }
}

/// What a walk over the code points of a font has found.
#[derive(Debug, Clone, PartialEq)]
pub struct FontScan {
    /// The glyphs found, in ascending order of glyph identifier.
    pub table: Vec<GlyphRecord>,
    /// The greatest height of a glyph found, at least 0.
    pub max_height: i64,
    /// The sum of the advance widths of the code points that led to a glyph.
    pub total_width: u64,
}

/// The mathematical value of a [`FontScan`].
pub struct ScanValue {
    pub table: Seq<GlyphRecord>,
    pub max_height: i64,
    pub total_width: int,
}

impl View for FontScan {
    type V = ScanValue;

    open spec fn view(&self) -> ScanValue {
        ScanValue {
            table: self.table@,
            max_height: self.max_height,
            total_width: self.total_width as int,
        }
    }
}

/// The state before any code point is looked at: the table holds the record
/// of glyph 0 alone.
pub open spec fn scan_start() -> ScanValue {
    ScanValue { table: seq![base_record()], max_height: 0, total_width: 0 }
}

/// The state after one more code point, which gave the record or none.
pub open spec fn scan_step(state: ScanValue, record: Option<GlyphRecord>) -> ScanValue {
    match record {
        None => state,
        Some(r) => ScanValue {
            table: table_put(state.table, r),
            max_height: if r.height > state.max_height {
                r.height
            } else {
                state.max_height
            },
            total_width: state.total_width + r.width,
        },
    }
}

/// The state after the code points below `n`, taken in ascending order.
pub open spec fn scan(bytes: Seq<u8>, n: nat) -> ScanValue
    decreases n,
{
    if n == 0 {
        scan_start()
    } else {
        scan_step(scan(bytes, (n - 1) as nat), probe(bytes, (n - 1) as u32))
    }
}

/// The table of a walk is sorted and starts with glyph 0, and the total
/// width is bounded by the number of code points.
pub proof fn lemma_scan_shape(bytes: Seq<u8>, n: nat)
    ensures
        table_sorted(scan(bytes, n).table),
        scan(bytes, n).table.len() >= 1,
        scan(bytes, n).table[0].glyph_id == 0,
        0 <= scan(bytes, n).total_width <= n * u32::MAX,
        scan(bytes, n).max_height >= 0,
    decreases n,
{
    if n > 0 {
        lemma_scan_shape(bytes, (n - 1) as nat);
        let prev = scan(bytes, (n - 1) as nat);
        match probe(bytes, (n - 1) as u32) {
            None => {},
            Some(r) => {
                lemma_table_put(prev.table, r);
            },
        }
        assert((n - 1) * u32::MAX + u32::MAX == n * u32::MAX) by (nonlinear_arith);
    }
}

/// Every glyph that a code point below `n` leads to has a record in the
/// table of the walk, with the advance width that the font gives for the
/// glyph.
pub proof fn lemma_scan_complete(bytes: Seq<u8>, n: nat, code_point: u32)
    requires
        code_point < n,
        probe(bytes, code_point) is Some,
    ensures
        table_lookup(scan(bytes, n).table, font_glyph_index(bytes, code_point)) matches Some(r)
            && r.glyph_id == font_glyph_index(bytes, code_point) && r.width == probe(
            bytes,
            code_point,
        )->Some_0.width,
    decreases n,
{
    let prev = scan(bytes, (n - 1) as nat);
    lemma_scan_shape(bytes, (n - 1) as nat);
    let g = font_glyph_index(bytes, code_point);
    match probe(bytes, (n - 1) as u32) {
        None => {
            lemma_scan_complete(bytes, (n - 1) as nat, code_point);
        },
        Some(r) => {
            lemma_table_put(prev.table, r);
            if r.glyph_id != g {
                lemma_scan_complete(bytes, (n - 1) as nat, code_point);
            }
        },
    }
}

/// Takes one more code point into account.
pub fn scan_record(state: &mut FontScan, record: Option<GlyphRecord>)
    requires
        table_sorted(old(state).table@),
        old(state).total_width + u32::MAX <= u64::MAX,
    ensures
        final(state)@ == scan_step(old(state)@, record),
        table_sorted(final(state).table@),
{
    match record {
        None => {},
        Some(r) => {
            put_record(&mut state.table, r);
            if r.height > state.max_height {
                state.max_height = r.height;
            }
            state.total_width = state.total_width + r.width as u64;
        },
    }
}

/// Walks over the code points from 0 to [`LAST_CODE_POINT`], asks the
/// font for the glyph of each, and records the glyphs found.
pub fn scan_font(bytes: &[u8]) -> (state: FontScan)
    requires
        font_loads(bytes@),
    ensures
        state@ == scan(bytes@, (LAST_CODE_POINT + 1) as nat),
{
    let descent = crate::font_parser::vertical_metrics(bytes).1;
    let mut table: Vec<GlyphRecord> = Vec::new();
    table.push(GlyphRecord { glyph_id: 0, unicode: 0, width: 1000, height: 1000 });
    let mut state = FontScan { table, max_height: 0, total_width: 0 };
    assert(state@.table =~= scan_start().table);
    let mut code_point: u32 = 0;
    while code_point <= LAST_CODE_POINT
        invariant
            code_point <= LAST_CODE_POINT + 1,
            font_loads(bytes@),
            descent == font_vertical_metrics(bytes@).1,
            state@ == scan(bytes@, code_point as nat),
        decreases LAST_CODE_POINT + 1 - code_point,
    {
        proof {
            lemma_scan_shape(bytes@, code_point as nat);
            assert(code_point * u32::MAX <= 0x10000 * u32::MAX) by (nonlinear_arith)
                requires
                    code_point <= 0x10000,
            ;
        }
        let glyph_id = glyph_index(bytes, code_point);
        let data = if glyph_id == 0 {
            None
        } else {
            glyph_data(bytes, glyph_id)
        };
        let record = make_record(glyph_id, code_point, data, descent);
        scan_record(&mut state, record);
        code_point += 1;
    }
    state
}

} // verus!
