//! The width table of a composite font: runs of consecutive glyphs.

use vstd::prelude::*;
use crate::glyph_table::{table_sorted, GlyphRecord};

verus! {

/// The advance widths of consecutive glyphs, from the glyph `start` on.
#[derive(Debug, Clone, PartialEq)]
pub struct WidthRun {
    pub start: u32,
    pub widths: Vec<i64>,
}

/// The mathematical value of a [`WidthRun`].
pub struct RunValue {
    pub start: u32,
    pub widths: Seq<i64>,
}

impl View for WidthRun {
    type V = RunValue;

    open spec fn view(&self) -> RunValue {
        RunValue { start: self.start, widths: self.widths@ }
    }
}

/// The values of a list of runs.
pub open spec fn runs_of(runs: Seq<WidthRun>) -> Seq<RunValue> {
    Seq::new(runs.len(), |i: int| runs[i]@)
}

/// A width in font units, brought to a thousandth of an em and rounded
/// toward zero. With no units per em, a width other than 0 counts as the
/// greatest number.
pub open spec fn scaled_width(width: u32, units_per_em: u16) -> i64 {
    if units_per_em == 0 {
        if width == 0 {
            0
        } else {
            i64::MAX
        }
    } else {
        (width * 1000 / (units_per_em as int)) as i64
    }
}

/// The first glyph after the run.
pub open spec fn run_end(run: RunValue) -> int {
    run.start + run.widths.len()
}

/// The runs for the first `n` records of a table. A record whose glyph
/// follows the last run directly extends it; any other starts a new run.
/// The first run starts at glyph 0.
pub open spec fn width_runs(table: Seq<GlyphRecord>, units_per_em: u16, n: nat) -> Seq<RunValue>
    decreases n,
{
    if n == 0 || n > table.len() {
        seq![RunValue { start: 0, widths: Seq::empty() }]
    } else {
        let before = width_runs(table, units_per_em, (n - 1) as nat);
        let last = before.last();
        let record = table[n - 1];
        let width = scaled_width(record.width, units_per_em);
        if record.glyph_id == run_end(last) {
            before.drop_last().push(RunValue { start: last.start, widths: last.widths.push(width) })
        } else {
            before.push(RunValue { start: record.glyph_id, widths: seq![width] })
        }
    }
}

/// The width that the runs give for a glyph: that of the first run, from
/// `from` on, that covers the glyph.
pub open spec fn run_lookup(runs: Seq<RunValue>, glyph_id: u32, from: int) -> Option<i64>
    decreases runs.len() - from,
{
    if from < 0 || from >= runs.len() {
        None
    } else if runs[from].start <= glyph_id < run_end(runs[from]) {
        Some(runs[from].widths[glyph_id - runs[from].start])
    } else {
        run_lookup(runs, glyph_id, from + 1)
    }
}

/// A width in font units, brought to a thousandth of an em.
pub fn scale_width(width: u32, units_per_em: u16) -> (w: i64)
    ensures
        w == scaled_width(width, units_per_em),
{
    if units_per_em == 0 {
        if width == 0 {
            0
        } else {
            i64::MAX
        }
    } else {
        let scaled: u64 = (width as u64) * 1000 / (units_per_em as u64);
        scaled as i64
    }
}

/// Writing the last run apart: the runs are those before it and the last.
proof fn lemma_runs_nonempty(table: Seq<GlyphRecord>, units_per_em: u16, n: nat)
    ensures
        width_runs(table, units_per_em, n).len() >= 1,
    decreases n,
{
    if n > 0 && n <= table.len() {
        lemma_runs_nonempty(table, units_per_em, (n - 1) as nat);
    }
}

/// Runs that all end at or before a glyph give no width for it.
proof fn lemma_lookup_miss(runs: Seq<RunValue>, glyph_id: u32, from: int)
    requires
        0 <= from,
        forall|k: int| from <= k < runs.len() ==> run_end(#[trigger] runs[k]) <= glyph_id,
    ensures
        run_lookup(runs, glyph_id, from) is None,
    decreases runs.len() - from,
{
    if from < runs.len() {
        assert(run_end(runs[from]) <= glyph_id);
        lemma_lookup_miss(runs, glyph_id, from + 1);
    }
}

/// A width that runs give is still given when a run is added at the end.
proof fn lemma_lookup_append(runs: Seq<RunValue>, added: RunValue, glyph_id: u32, from: int)
    requires
        0 <= from,
        run_lookup(runs, glyph_id, from) is Some,
    ensures
        run_lookup(runs.push(added), glyph_id, from) == run_lookup(runs, glyph_id, from),
    decreases runs.len() - from,
{
    if from < runs.len() {
        assert(runs.push(added)[from] == runs[from]);
        if !(runs[from].start <= glyph_id < run_end(runs[from])) {
            lemma_lookup_append(runs, added, glyph_id, from + 1);
        }
    }
}

/// A width that runs give for a glyph is still given when the last run
/// grows by one width at its end.
proof fn lemma_lookup_extend(runs: Seq<RunValue>, width: i64, glyph_id: u32, from: int)
    requires
        0 <= from,
        runs.len() >= 1,
        run_lookup(runs, glyph_id, from) is Some,
    ensures
        run_lookup(
            runs.drop_last().push(
                RunValue { start: runs.last().start, widths: runs.last().widths.push(width) },
            ),
            glyph_id,
            from,
        ) == run_lookup(runs, glyph_id, from),
    decreases runs.len() - from,
{
    let grown = runs.drop_last().push(
        RunValue { start: runs.last().start, widths: runs.last().widths.push(width) },
    );
    if from < runs.len() {
        if from < runs.len() - 1 {
            assert(grown[from] == runs[from]);
            if !(runs[from].start <= glyph_id < run_end(runs[from])) {
                lemma_lookup_extend(runs, width, glyph_id, from + 1);
            }
        } else {
            assert(grown[from].start == runs[from].start);
            assert(grown[from].widths == runs[from].widths.push(width));
        }
    }
}

/// The runs of a sorted table end, each of them, at or before the glyph
/// after the last record taken; the last run ends exactly there.
proof fn lemma_runs_ends(table: Seq<GlyphRecord>, units_per_em: u16, n: nat)
    requires
        table_sorted(table),
        n <= table.len(),
    ensures
        width_runs(table, units_per_em, n).len() >= 1,
        n > 0 ==> run_end(width_runs(table, units_per_em, n).last()) == table[n - 1].glyph_id + 1,
        n == 0 ==> run_end(width_runs(table, units_per_em, n).last()) == 0,
        forall|k: int|
            0 <= k < width_runs(table, units_per_em, n).len() ==> run_end(
                #[trigger] width_runs(table, units_per_em, n)[k],
            ) <= run_end(width_runs(table, units_per_em, n).last()),
    decreases n,
{
    if n > 0 {
        lemma_runs_ends(table, units_per_em, (n - 1) as nat);
        let before = width_runs(table, units_per_em, (n - 1) as nat);
        let now = width_runs(table, units_per_em, n);
        let record = table[n - 1];
        if n > 1 {
            assert(table[n - 2].glyph_id < table[n - 1].glyph_id);
        }
        assert(run_end(before.last()) <= record.glyph_id);
        assert forall|k: int| 0 <= k < now.len() implies run_end(#[trigger] now[k]) <= run_end(
            now.last(),
        ) by {
            if k < before.len() - 1 {
                assert(now[k] == before[k]);
            } else if k == before.len() - 1 && now.len() > before.len() {
                assert(now[k] == before[k]);
            }
        }
    }
}

/// Read back from the runs of a sorted table, every glyph among the
/// records taken has its scaled advance width.
pub proof fn lemma_widths_decode(table: Seq<GlyphRecord>, units_per_em: u16, n: nat, i: int)
    requires
        table_sorted(table),
        0 <= i < n <= table.len(),
    ensures
        run_lookup(width_runs(table, units_per_em, n), table[i].glyph_id, 0) == Some(
            scaled_width(table[i].width, units_per_em),
        ),
    decreases n,
{
    let before = width_runs(table, units_per_em, (n - 1) as nat);
    let now = width_runs(table, units_per_em, n);
    let record = table[n - 1];
    let width = scaled_width(record.width, units_per_em);
    lemma_runs_ends(table, units_per_em, (n - 1) as nat);
    if n > 1 {
        assert(table[n - 2].glyph_id < table[n - 1].glyph_id);
    }
    if i < n - 1 {
        lemma_widths_decode(table, units_per_em, (n - 1) as nat, i);
        if record.glyph_id == run_end(before.last()) {
            lemma_lookup_extend(before, width, table[i].glyph_id, 0);
        } else {
            lemma_lookup_append(
                before,
                RunValue { start: record.glyph_id, widths: seq![width] },
                table[i].glyph_id,
                0,
            );
        }
    } else {
        lemma_lookup_last(now, record.glyph_id, 0);
        if record.glyph_id == run_end(before.last()) {
            assert(now.last().widths[record.glyph_id - now.last().start] == width);
        } else {
            assert(now.last().widths[0] == width);
        }
        assert forall|k: int| 0 <= k < now.len() - 1 implies run_end(#[trigger] now[k])
            <= record.glyph_id by {
            assert(now[k] == before[k]);
        }
    }
}

/// When every run but the last ends at or before a glyph and the last
/// covers it, the runs give the width that the last run holds for it.
proof fn lemma_lookup_last(runs: Seq<RunValue>, glyph_id: u32, from: int)
    requires
        0 <= from < runs.len(),
        forall|k: int| from <= k < runs.len() - 1 ==> run_end(#[trigger] runs[k]) <= glyph_id,
        runs.last().start <= glyph_id < run_end(runs.last()),
    ensures
        run_lookup(runs, glyph_id, from) == Some(
            runs.last().widths[glyph_id - runs.last().start],
        ),
    decreases runs.len() - from,
{
    if from < runs.len() - 1 {
        assert(run_end(runs[from]) <= glyph_id);
        lemma_lookup_last(runs, glyph_id, from + 1);
    }
}

/// No run has a gap: the width at each place of a run is the scaled
/// advance width of a record taken, and the glyph of that record is the
/// start of the run plus the place.
pub proof fn lemma_runs_contiguous(
    table: Seq<GlyphRecord>,
    units_per_em: u16,
    n: nat,
    k: int,
    j: int,
)
    requires
        n <= table.len(),
        0 <= k < width_runs(table, units_per_em, n).len(),
        0 <= j < width_runs(table, units_per_em, n)[k].widths.len(),
    ensures
        exists|i: int|
            0 <= i < n && (#[trigger] table[i]).glyph_id == width_runs(
                table,
                units_per_em,
                n,
            )[k].start + j && width_runs(table, units_per_em, n)[k].widths[j] == scaled_width(
                table[i].width,
                units_per_em,
            ),
    decreases n,
{
    if n > 0 {
        let before = width_runs(table, units_per_em, (n - 1) as nat);
        let now = width_runs(table, units_per_em, n);
        let record = table[n - 1];
        lemma_runs_nonempty(table, units_per_em, (n - 1) as nat);
        let extended = record.glyph_id == run_end(before.last());
        let is_new = if extended {
            k == now.len() - 1 && j == now[k].widths.len() - 1
        } else {
            k == now.len() - 1
        };
        if is_new {
            assert(table[n - 1].glyph_id == now[k].start + j);
        } else {
            if extended && k == now.len() - 1 {
                assert(now[k].widths[j] == before[k].widths[j]);
            } else {
                assert(now[k] == before[k]);
            }
            lemma_runs_contiguous(table, units_per_em, (n - 1) as nat, k, j);
            let i = choose|i: int|
                0 <= i < n - 1 && (#[trigger] table[i]).glyph_id == before[k].start + j
                    && before[k].widths[j] == scaled_width(table[i].width, units_per_em);
            assert(table[i].glyph_id == now[k].start + j);
        }
    }
}

/// The width table of a font: the advance widths of the records, each
/// brought to a thousandth of an em, in runs of consecutive glyphs.
pub fn encode_widths(table: &Vec<GlyphRecord>, units_per_em: u16) -> (runs: Vec<WidthRun>)
    ensures
        runs_of(runs@) == width_runs(table@, units_per_em, table@.len()),
{
    let mut runs: Vec<WidthRun> = Vec::new();
    let mut start: u32 = 0;
    let mut widths: Vec<i64> = Vec::new();
    let mut i: usize = 0;
    assert(runs_of(runs@).push(RunValue { start, widths: widths@ }) =~= width_runs(
        table@,
        units_per_em,
        0,
    ));
    while i < table.len()
        invariant
            i <= table@.len(),
            runs_of(runs@).push(RunValue { start, widths: widths@ }) == width_runs(
                table@,
                units_per_em,
                i as nat,
            ),
        decreases table@.len() - i,
    {
        let record = table[i];
        let width = scale_width(record.width, units_per_em);
        let ghost before = width_runs(table@, units_per_em, i as nat);
        let ghost done = runs_of(runs@);
        assert(before.last() == RunValue { start, widths: widths@ });
        assert(before.drop_last() =~= done);
        if record.glyph_id as u64 == start as u64 + widths.len() as u64 {
            widths.push(width);
        } else {
            runs.push(WidthRun { start, widths });
            assert(runs_of(runs@) =~= before);
            start = record.glyph_id;
            widths = Vec::new();
            widths.push(width);
            assert(widths@ =~= seq![width]);
        }
        i += 1;
    }
    runs.push(WidthRun { start, widths });
    assert(runs_of(runs@) =~= width_runs(table@, units_per_em, table@.len()));
    runs
}

} // verus!
