//! The ToUnicode character map of a composite font.

use vstd::prelude::*;
use vstd::string::StringExecFns;
use crate::glyph_table::GlyphRecord;
use crate::text::{decimal_chars, hex_chars, push_decimal, push_hex};

verus! {

/// The most entries that one block of a character map may hold.
pub const MAX_BLOCK_LEN: usize = 100;

/// A pair of a glyph identifier and the Unicode code point it stands for.
pub type CmapEntry = (u32, u32);

/// A block of a character map.
pub type CmapBlock = Vec<CmapEntry>;

/// The values of a list of blocks.
pub open spec fn blocks_of(blocks: Seq<CmapBlock>) -> Seq<Seq<CmapEntry>> {
    Seq::new(blocks.len(), |i: int| blocks[i]@)
}

/// The high part of a glyph identifier: the identifier without its lowest
/// eight bits, as far as 16 bits hold it.
pub open spec fn high_byte(glyph_id: u32) -> u16 {
    (glyph_id >> 8) as u16
}

/// The high part that a block stands for: that of its first entry, or 0 for
/// a block without entries.
pub open spec fn block_high(block: Seq<CmapEntry>) -> u16 {
    if block.len() == 0 {
        0
    } else {
        high_byte(block[0].0)
    }
}

/// The blocks for the first `n` records of a table. A record goes into the
/// last block, unless its glyph has another high part than the block or the
/// block is full: then it starts a new block.
pub open spec fn cmap_blocks(table: Seq<GlyphRecord>, n: nat) -> Seq<Seq<CmapEntry>>
    decreases n,
{
    if n == 0 || n > table.len() {
        seq![Seq::empty()]
    } else {
        let before = cmap_blocks(table, (n - 1) as nat);
        let last = before.last();
        let record = table[n - 1];
        let entry = (record.glyph_id, record.unicode);
        if high_byte(record.glyph_id) != block_high(last) || last.len() >= MAX_BLOCK_LEN {
            before.push(seq![entry])
        } else {
            before.drop_last().push(last.push(entry))
        }
    }
}

/// The entries of all blocks, in order.
pub open spec fn blocks_entries(blocks: Seq<Seq<CmapEntry>>) -> Seq<CmapEntry>
    decreases blocks.len(),
{
    if blocks.len() == 0 {
        Seq::empty()
    } else {
        blocks_entries(blocks.drop_last()) + blocks.last()
    }
}

/// The entries of the first `n` records of a table.
pub open spec fn table_entries(table: Seq<GlyphRecord>, n: nat) -> Seq<CmapEntry> {
    Seq::new(n, |i: int| (table[i].glyph_id, table[i].unicode))
}

/// The blocks of a table hold its entries in order. No block has more than
/// 100 entries, all entries of a block have the same high part of the glyph
/// identifier, only the first block can be empty, and two blocks that follow
/// each other could not be one: the first is full, or the high parts differ.
pub proof fn lemma_cmap_blocks(table: Seq<GlyphRecord>, n: nat)
    requires
        n <= table.len(),
    ensures
        cmap_blocks(table, n).len() >= 1,
        blocks_entries(cmap_blocks(table, n)) == table_entries(table, n),
        forall|b: int|
            0 <= b < cmap_blocks(table, n).len() ==> (#[trigger] cmap_blocks(table, n)[b]).len()
                <= MAX_BLOCK_LEN,
        forall|b: int, j: int|
            0 <= b < cmap_blocks(table, n).len() && 0 <= j < cmap_blocks(table, n)[b].len()
                ==> high_byte((#[trigger] cmap_blocks(table, n)[b][j]).0) == block_high(
                cmap_blocks(table, n)[b],
            ),
        forall|b: int|
            1 <= b < cmap_blocks(table, n).len() ==> (#[trigger] cmap_blocks(table, n)[b]).len()
                >= 1,
        forall|b: int|
            0 <= b < cmap_blocks(table, n).len() - 1 ==> (#[trigger] cmap_blocks(
                table,
                n,
            )[b]).len() >= MAX_BLOCK_LEN || block_high(cmap_blocks(table, n)[b]) != block_high(
                cmap_blocks(table, n)[b + 1],
            ),
    decreases n,
{
    let now = cmap_blocks(table, n);
    if n == 0 {
        assert(now.drop_last() =~= Seq::<Seq<CmapEntry>>::empty());
        assert(blocks_entries(now.drop_last()) =~= Seq::<CmapEntry>::empty());
        assert(now.last() =~= Seq::<CmapEntry>::empty());
        assert(blocks_entries(now) =~= table_entries(table, n));
    } else {
        lemma_cmap_blocks(table, (n - 1) as nat);
        let before = cmap_blocks(table, (n - 1) as nat);
        let last = before.last();
        let record = table[n - 1];
        let entry = (record.glyph_id, record.unicode);
        assert(table_entries(table, n) =~= table_entries(table, (n - 1) as nat).push(entry));
        if high_byte(record.glyph_id) != block_high(last) || last.len() >= MAX_BLOCK_LEN {
            assert(now.drop_last() =~= before);
            assert(blocks_entries(now) =~= table_entries(table, n));
            assert forall|b: int| 0 <= b < now.len() - 1 implies (#[trigger] now[b]).len()
                >= MAX_BLOCK_LEN || block_high(now[b]) != block_high(now[b + 1]) by {
                if b < before.len() - 1 {
                    assert(now[b] == before[b]);
                    assert(now[b + 1] == before[b + 1]);
                }
            }
        } else {
            assert(now.drop_last() =~= before.drop_last());
            assert(blocks_entries(now) =~= table_entries(table, n));
            assert forall|b: int, j: int|
                0 <= b < now.len() && 0 <= j < now[b].len() implies high_byte(
                (#[trigger] now[b][j]).0,
            ) == block_high(now[b]) by {
                if b < now.len() - 1 {
                    assert(now[b] == before[b]);
                } else if j < last.len() {
                    assert(now[b][j] == before[b][j]);
                    assert(now[b][0] == before[b][0]);
                }
            }
            assert forall|b: int| 0 <= b < now.len() - 1 implies (#[trigger] now[b]).len()
                >= MAX_BLOCK_LEN || block_high(now[b]) != block_high(now[b + 1]) by {
                assert(now[b] == before[b]);
                if b + 1 < now.len() - 1 {
                    assert(now[b + 1] == before[b + 1]);
                } else {
                    assert(before[b + 1].len() >= 1);
                    assert(now[b + 1][0] == before[b + 1][0]);
                }
            }
        }
    }
}

/// The blocks of a table that starts with glyph 0, as the table of every
/// font does, have at least one entry each: the character map of a font
/// has no empty block.
pub proof fn lemma_cmap_blocks_nonempty(table: Seq<GlyphRecord>, n: nat)
    requires
        1 <= n <= table.len(),
        table[0].glyph_id == 0,
    ensures
        forall|b: int|
            0 <= b < cmap_blocks(table, n).len() ==> 1 <= (#[trigger] cmap_blocks(table, n)[b]).len()
                <= MAX_BLOCK_LEN,
    decreases n,
{
    lemma_cmap_blocks(table, n);
    let blocks = cmap_blocks(table, n);
    if n == 1 {
        let before = cmap_blocks(table, 0);
        assert(before =~= seq![Seq::<CmapEntry>::empty()]);
        assert(high_byte(0) == 0) by (bit_vector);
        assert(blocks =~= seq![seq![(table[0].glyph_id, table[0].unicode)]]);
    } else {
        lemma_cmap_blocks_nonempty(table, (n - 1) as nat);
        let before = cmap_blocks(table, (n - 1) as nat);
        assert forall|b: int| 0 <= b < blocks.len() implies 1 <= (#[trigger] blocks[b]).len() by {
            if b == 0 {
                if blocks.len() == before.len() {
                    if before.len() == 1 {
                        assert(blocks[0].len() == before[0].len() + 1);
                    } else {
                        assert(blocks[0] == before[0]);
                    }
                } else {
                    assert(blocks[0] == before[0]);
                }
            }
        }
    }
}

/// The high part of a glyph identifier.
pub fn glyph_high_byte(glyph_id: u32) -> (h: u16)
    ensures
        h == high_byte(glyph_id),
{
    #[verifier::truncate]
    ((glyph_id >> 8) as u16)
}

/// Groups the entries of a table into the blocks of its character map.
pub fn partition_cmap(table: &Vec<GlyphRecord>) -> (blocks: Vec<CmapBlock>)
    ensures
        blocks_of(blocks@) == cmap_blocks(table@, table@.len()),
{
    let mut blocks: Vec<CmapBlock> = Vec::new();
    let mut current: CmapBlock = Vec::new();
    let mut current_high: u16 = 0;
    let mut i: usize = 0;
    assert(blocks_of(blocks@).push(current@) =~= cmap_blocks(table@, 0));
    while i < table.len()
        invariant
            i <= table@.len(),
            blocks_of(blocks@).push(current@) == cmap_blocks(table@, i as nat),
            current_high == block_high(current@),
        decreases table@.len() - i,
    {
        let record = table[i];
        let ghost before = cmap_blocks(table@, i as nat);
        assert(before.last() == current@);
        assert(before.drop_last() =~= blocks_of(blocks@));
        let high = glyph_high_byte(record.glyph_id);
        if high != current_high || current.len() >= MAX_BLOCK_LEN {
            blocks.push(current);
            assert(blocks_of(blocks@) =~= before);
            current = Vec::new();
            current_high = high;
        }
        current.push((record.glyph_id, record.unicode));
        assert(current@.len() >= 1 && current@[0].0 == (if current@.len() == 1 {
            record.glyph_id
        } else {
            before.last()[0].0
        }));
        i += 1;
    }
    blocks.push(current);
    assert(blocks_of(blocks@) =~= cmap_blocks(table@, table@.len()));
    blocks
}

/// The text before the blocks of a character map, up to the name of the
/// font.
pub const CMAP_HEAD: &'static str =
    "/CIDInit /ProcSet findresource begin\r\n12 dict begin\r\nbegincmap\r\n/CIDSystemInfo 3 dict dup begin\r\n/Registry (FontSpecific) def\r\n/Ordering (";

/// The text between the two places where a character map names the font.
pub const CMAP_MIDDLE: &'static str =
    ") def\r\n/Supplement 0 def\r\nend def\r\n/CMapName /FontSpecific-";

/// The text from the name of the font to the first block.
pub const CMAP_RANGE: &'static str =
    " def\r\n/CMapVersion 1 def\r\n/CMapType 2 def\r\n1 begincodespacerange\r\n<0000> <ffff>\r\nendcodespacerange\r\n";

/// The text after the blocks of a character map.
pub const CMAP_TAIL: &'static str =
    "endcmap\r\nCMapName currentdict /CMap defineresource pop\r\nend\r\nend\r\n";

/// The line for one entry: both numbers in hexadecimal, four digits or more.
pub open spec fn entry_text(entry: CmapEntry) -> Seq<char> {
    "<"@ + hex_chars(entry.0 as nat, 4) + "> <"@ + hex_chars(entry.1 as nat, 4) + ">\n"@
}

/// The lines for the first `n` entries of a block.
pub open spec fn entries_text(block: Seq<CmapEntry>, n: nat) -> Seq<char>
    decreases n,
{
    if n == 0 || n > block.len() {
        Seq::empty()
    } else {
        entries_text(block, (n - 1) as nat) + entry_text(block[n - 1])
    }
}

/// The text of a block: the number of its entries, its entries, and the
/// closing word.
pub open spec fn block_text(block: Seq<CmapEntry>) -> Seq<char> {
    decimal_chars(block.len()) + " beginbfchar\r\n"@ + entries_text(block, block.len())
        + "endbfchar\r\n"@
}

/// The text of the first `n` blocks.
pub open spec fn blocks_text(blocks: Seq<Seq<CmapEntry>>, n: nat) -> Seq<char>
    decreases n,
{
    if n == 0 || n > blocks.len() {
        Seq::empty()
    } else {
        blocks_text(blocks, (n - 1) as nat) + block_text(blocks[n - 1])
    }
}

/// The text of a character map for a font of the given name: a fixed
/// opening that names the font, the blocks, and a fixed close.
pub open spec fn cid_to_unicode_map_text(face_name: Seq<char>, blocks: Seq<Seq<CmapEntry>>) -> Seq<
    char,
> {
    CMAP_HEAD@ + face_name + CMAP_MIDDLE@ + face_name + CMAP_RANGE@ + blocks_text(
        blocks,
        blocks.len(),
    ) + CMAP_TAIL@
}

/// Writes out the character map of a font from its blocks. Every block is
/// written, an empty one too.
pub fn generate_cid_to_unicode_map(face_name: String, all_cmap_blocks: Vec<CmapBlock>) -> (text:
    String)
    ensures
        text@ == cid_to_unicode_map_text(face_name@, blocks_of(all_cmap_blocks@)),
{
    let mut text = String::new();
    text.append(CMAP_HEAD);
    text.append(face_name.as_str());
    text.append(CMAP_MIDDLE);
    text.append(face_name.as_str());
    text.append(CMAP_RANGE);
    let ghost head = text@;
    let ghost blocks = blocks_of(all_cmap_blocks@);
    let mut b: usize = 0;
    assert(text@ =~= head + blocks_text(blocks, 0));
    while b < all_cmap_blocks.len()
        invariant
            b <= all_cmap_blocks@.len(),
            blocks == blocks_of(all_cmap_blocks@),
            text@ == head + blocks_text(blocks, b as nat),
        decreases all_cmap_blocks@.len() - b,
    {
        let block = &all_cmap_blocks[b];
        let ghost start = text@;
        push_decimal(&mut text, block.len() as u64);
        text.append(" beginbfchar\r\n");
        let ghost opened = text@;
        let mut j: usize = 0;
        assert(text@ =~= opened + entries_text(block@, 0));
        while j < block.len()
            invariant
                j <= block@.len(),
                text@ == opened + entries_text(block@, j as nat),
            decreases block@.len() - j,
        {
            let entry = block[j];
            text.append("<");
            push_hex(&mut text, entry.0, 4);
            text.append("> <");
            push_hex(&mut text, entry.1, 4);
            text.append(">\n");
            assert(text@ =~= opened + entries_text(block@, (j + 1) as nat));
            j += 1;
        }
        text.append("endbfchar\r\n");
        assert(text@ =~= start + block_text(block@));
        assert(blocks[b as int] == block@);
        assert(text@ =~= head + blocks_text(blocks, (b + 1) as nat));
        b += 1;
    }
    text.append(CMAP_TAIL);
    assert(text@ =~= cid_to_unicode_map_text(face_name@, blocks));
    text
}

} // verus!
