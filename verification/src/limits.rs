//! Deciding whether a document fits the writer's numeric limits: paragraph
//! IDs are `u32`, and so is the counter that names embedded images.  The
//! counts saturate just above `u32::MAX`, so they never overflow.
use vstd::prelude::*;
use crate::ir::{Block, BlockV, Document, ListItem, ListItemV, Section, TableCell, TableRow, blocks_view,
    cells_view, items_view, rows_view, lemma_blocks_view_push, lemma_cells_view_push, lemma_items_view_push,
    lemma_rows_view_push};
use crate::writer_section::{block_count, blocks_count, cells_count, item_blocks_count, item_count, items_count,
    rows_count, section_fits, MAX_LIST_DEPTH, MAX_QUOTE_DEPTH};
use crate::writer_content::{block_images, blocks_images, cells_images, item_images, items_images, rows_images, sections_images};

verus! {

/// One more than the largest `u32`: where the counts stop growing.
pub const COUNT_CAP: u64 = 0x1_0000_0000;

/// `n`, or `COUNT_CAP` when `n` is at least that.
pub open spec fn capped(n: nat) -> nat {
    if n < COUNT_CAP { n } else { COUNT_CAP as nat }
}

fn cap_add(a: u64, b: u64) -> (res: u64)
    requires
        a <= COUNT_CAP,
        b <= COUNT_CAP,
    ensures
        res == capped((a + b) as nat),
{
    if a + b >= COUNT_CAP { COUNT_CAP } else { a + b }
}

proof fn lemma_capped_add(x: nat, y: nat)
    ensures
        capped(x + y) == capped(capped(x) + capped(y)),
{
}

// ---------------------------------------------------------------------------
// Paragraph counts
// ---------------------------------------------------------------------------

fn count_block(b: &Block, qd: u32) -> (res: u64)
    requires
        qd <= MAX_QUOTE_DEPTH,
    ensures
        res == capped(block_count(b@, qd as nat)),
    decreases b,
{
    match b {
        Block::Table { rows, .. } => {
            let r = count_rows(rows, qd);
            proof { lemma_capped_add(1, rows_count(rows_view(rows@), qd as nat)); }
            cap_add(1, r)
        },
        Block::BlockQuote { blocks } => {
            if qd >= MAX_QUOTE_DEPTH { 0 } else { count_blocks(blocks, qd + 1) }
        },
        Block::List { items, .. } => count_items(items, qd, 0),
        Block::Footnote { content, .. } => count_blocks(content, qd),
        _ => 1,
    }
}

fn count_blocks(bs: &Vec<Block>, qd: u32) -> (res: u64)
    requires
        qd <= MAX_QUOTE_DEPTH,
    ensures
        res == capped(blocks_count(blocks_view(bs@), qd as nat)),
    decreases bs,
{
    let ghost all = blocks_view(bs@);
    let mut n: u64 = 0;
    let mut i: usize = 0;
    assert(blocks_view(bs@.take(0)) == Seq::<BlockV>::empty());
    while i < bs.len()
        invariant
            0 <= i <= bs.len(),
            qd <= MAX_QUOTE_DEPTH,
            all == blocks_view(bs@),
            n == capped(blocks_count(blocks_view(bs@.take(i as int)), qd as nat)),
        decreases bs.len() - i,
    {
        let ghost pre = blocks_view(bs@.take(i as int));
        let ghost post = blocks_view(bs@.take(i + 1));
        proof {
            lemma_blocks_view_push(bs@.take(i as int), bs@[i as int]);
            assert(bs@.take(i + 1) == bs@.take(i as int).push(bs@[i as int]));
            assert(post.drop_last() == pre);
            assert(post.last() == bs@[i as int]@);
            lemma_capped_add(blocks_count(pre, qd as nat), block_count(bs@[i as int]@, qd as nat));
        }
        let c = count_block(&bs[i], qd);
        n = cap_add(n, c);
        i = i + 1;
    }
    assert(bs@.take(bs.len() as int) == bs@);
    n
}

fn count_rows(rows: &Vec<TableRow>, qd: u32) -> (res: u64)
    requires
        qd <= MAX_QUOTE_DEPTH,
    ensures
        res == capped(rows_count(rows_view(rows@), qd as nat)),
    decreases rows,
{
    let mut n: u64 = 0;
    let mut i: usize = 0;
    assert(rows_view(rows@.take(0)) == Seq::<crate::ir::TableRowV>::empty());
    while i < rows.len()
        invariant
            0 <= i <= rows.len(),
            qd <= MAX_QUOTE_DEPTH,
            n == capped(rows_count(rows_view(rows@.take(i as int)), qd as nat)),
        decreases rows.len() - i,
    {
        let ghost pre = rows_view(rows@.take(i as int));
        let ghost post = rows_view(rows@.take(i + 1));
        proof {
            lemma_rows_view_push(rows@.take(i as int), rows@[i as int]);
            assert(rows@.take(i + 1) == rows@.take(i as int).push(rows@[i as int]));
            assert(post.drop_last() == pre);
            assert(post.last() == rows@[i as int]@);
            lemma_capped_add(rows_count(pre, qd as nat), cells_count(cells_view(rows@[i as int].cells@), qd as nat));
        }
        let c = count_cells(&rows[i].cells, qd);
        n = cap_add(n, c);
        i = i + 1;
    }
    assert(rows@.take(rows.len() as int) == rows@);
    n
}

fn count_cells(cells: &Vec<TableCell>, qd: u32) -> (res: u64)
    requires
        qd <= MAX_QUOTE_DEPTH,
    ensures
        res == capped(cells_count(cells_view(cells@), qd as nat)),
    decreases cells,
{
    let mut n: u64 = 0;
    let mut i: usize = 0;
    assert(cells_view(cells@.take(0)) == Seq::<crate::ir::TableCellV>::empty());
    while i < cells.len()
        invariant
            0 <= i <= cells.len(),
            qd <= MAX_QUOTE_DEPTH,
            n == capped(cells_count(cells_view(cells@.take(i as int)), qd as nat)),
        decreases cells.len() - i,
    {
        let ghost pre = cells_view(cells@.take(i as int));
        let ghost post = cells_view(cells@.take(i + 1));
        proof {
            lemma_cells_view_push(cells@.take(i as int), cells@[i as int]);
            assert(cells@.take(i + 1) == cells@.take(i as int).push(cells@[i as int]));
            assert(post.drop_last() == pre);
            assert(post.last() == cells@[i as int]@);
            lemma_capped_add(cells_count(pre, qd as nat), blocks_count(blocks_view(cells@[i as int].blocks@), qd as nat));
        }
        let c = count_blocks(&cells[i].blocks, qd);
        n = cap_add(n, c);
        i = i + 1;
    }
    assert(cells@.take(cells.len() as int) == cells@);
    n
}

fn count_items(items: &Vec<ListItem>, qd: u32, ld: u32) -> (res: u64)
    requires
        qd <= MAX_QUOTE_DEPTH,
        ld <= MAX_LIST_DEPTH,
    ensures
        res == capped(items_count(items_view(items@), qd as nat, ld as nat)),
    decreases items,
{
    if ld >= MAX_LIST_DEPTH {
        return 0;
    }
    let mut n: u64 = 0;
    let mut i: usize = 0;
    assert(items_view(items@.take(0)) == Seq::<ListItemV>::empty());
    while i < items.len()
        invariant
            0 <= i <= items.len(),
            qd <= MAX_QUOTE_DEPTH,
            ld < MAX_LIST_DEPTH,
            n == capped(items_count(items_view(items@.take(i as int)), qd as nat, ld as nat)),
        decreases items.len() - i,
    {
        let ghost pre = items_view(items@.take(i as int));
        let ghost post = items_view(items@.take(i + 1));
        proof {
            lemma_items_view_push(items@.take(i as int), items@[i as int]);
            assert(items@.take(i + 1) == items@.take(i as int).push(items@[i as int]));
            assert(post.drop_last() == pre);
            assert(post.last() == items@[i as int]@);
            lemma_capped_add(items_count(pre, qd as nat, ld as nat), item_count(items@[i as int]@, qd as nat, ld as nat));
        }
        let c = count_item(&items[i], qd, ld);
        n = cap_add(n, c);
        i = i + 1;
    }
    assert(items@.take(items.len() as int) == items@);
    n
}

fn count_item(item: &ListItem, qd: u32, ld: u32) -> (res: u64)
    requires
        qd <= MAX_QUOTE_DEPTH,
        ld < MAX_LIST_DEPTH,
    ensures
        res == capped(item_count(item@, qd as nat, ld as nat)),
    decreases item,
{
    let b = count_item_blocks(&item.blocks, qd, ld);
    if item.children.len() > 0 {
        let c = count_items(&item.children, qd, ld + 1);
        proof {
            lemma_capped_add(
                item_blocks_count(blocks_view(item.blocks@), qd as nat, ld as nat),
                items_count(items_view(item.children@), qd as nat, ld as nat + 1),
            );
        }
        cap_add(b, c)
    } else {
        b
    }
}

fn count_item_blocks(bs: &Vec<Block>, qd: u32, ld: u32) -> (res: u64)
    requires
        qd <= MAX_QUOTE_DEPTH,
        ld < MAX_LIST_DEPTH,
    ensures
        res == capped(item_blocks_count(blocks_view(bs@), qd as nat, ld as nat)),
    decreases bs,
{
    let mut n: u64 = 0;
    let mut i: usize = 0;
    assert(blocks_view(bs@.take(0)) == Seq::<BlockV>::empty());
    while i < bs.len()
        invariant
            0 <= i <= bs.len(),
            qd <= MAX_QUOTE_DEPTH,
            ld < MAX_LIST_DEPTH,
            n == capped(item_blocks_count(blocks_view(bs@.take(i as int)), qd as nat, ld as nat)),
        decreases bs.len() - i,
    {
        let ghost pre = blocks_view(bs@.take(i as int));
        let ghost post = blocks_view(bs@.take(i + 1));
        let ghost one: nat = match bs@[i as int]@ {
            BlockV::Paragraph { .. } => 1,
            BlockV::List { items, .. } => items_count(items, qd as nat, ld as nat + 1),
            other => block_count(other, qd as nat),
        };
        proof {
            lemma_blocks_view_push(bs@.take(i as int), bs@[i as int]);
            assert(bs@.take(i + 1) == bs@.take(i as int).push(bs@[i as int]));
            assert(post.drop_last() == pre);
            assert(post.last() == bs@[i as int]@);
            assert(item_blocks_count(post, qd as nat, ld as nat) == item_blocks_count(pre, qd as nat, ld as nat) + one);
            lemma_capped_add(item_blocks_count(pre, qd as nat, ld as nat), one);
        }
        let c = match &bs[i] {
            Block::Paragraph { .. } => 1,
            Block::List { items, .. } => count_items(items, qd, ld + 1),
            other => count_block(other, qd),
        };
        n = cap_add(n, c);
        i = i + 1;
    }
    assert(bs@.take(bs.len() as int) == bs@);
    n
}

/// Whether the section's paragraphs (and those of its header and footer)
/// can all be numbered with `u32` IDs.
pub fn section_fits_ids(s: &Section) -> (res: bool)
    ensures
        res == section_fits(s@),
{
    let h = match &s.header {
        Some(v) => if v.len() > 0 { count_blocks(v, 0) } else { 0 },
        None => 0,
    };
    let f = match &s.footer {
        Some(v) => if v.len() > 0 { count_blocks(v, 0) } else { 0 },
        None => 0,
    };
    let b = count_blocks(&s.blocks, 0);
    proof {
        lemma_capped_add(crate::writer_section::header_count(s@), crate::writer_section::footer_count(s@));
    }
    cap_add(h, f) <= 0xFFFF_FFFF && b <= 0xFFFF_FFFF
}

/// Whether every section fits (see `section_fits_ids`): what writing the
/// package needs.
pub fn sections_fit_ids(ss: &Vec<Section>) -> (res: bool)
    ensures
        res == crate::package::all_sections_fit(ss@),
{
    let mut i: usize = 0;
    while i < ss.len()
        invariant
            0 <= i <= ss.len(),
            forall|j: int| 0 <= j < i ==> section_fits(#[trigger] ss@[j]@),
        decreases ss.len() - i,
    {
        if !section_fits_ids(&ss[i]) {
            return false;
        }
        i = i + 1;
    }
    true
}

// ---------------------------------------------------------------------------
// Image counts
// ---------------------------------------------------------------------------

fn images_of_block(b: &Block) -> (res: u64)
    ensures
        res == capped(block_images(b@)),
    decreases b,
{
    match b {
        Block::Image { .. } => 1,
        Block::Table { rows, .. } => images_of_rows(rows),
        Block::BlockQuote { blocks } => images_of_blocks(blocks),
        Block::Footnote { content, .. } => images_of_blocks(content),
        Block::List { items, .. } => images_of_items(items),
        _ => 0,
    }
}

fn images_of_blocks(bs: &Vec<Block>) -> (res: u64)
    ensures
        res == capped(blocks_images(blocks_view(bs@))),
    decreases bs,
{
    let mut n: u64 = 0;
    let mut i: usize = 0;
    assert(blocks_view(bs@.take(0)) == Seq::<BlockV>::empty());
    while i < bs.len()
        invariant
            0 <= i <= bs.len(),
            n == capped(blocks_images(blocks_view(bs@.take(i as int)))),
        decreases bs.len() - i,
    {
        let ghost pre = blocks_view(bs@.take(i as int));
        let ghost post = blocks_view(bs@.take(i + 1));
        proof {
            lemma_blocks_view_push(bs@.take(i as int), bs@[i as int]);
            assert(bs@.take(i + 1) == bs@.take(i as int).push(bs@[i as int]));
            assert(post.drop_last() == pre);
            assert(post.last() == bs@[i as int]@);
            lemma_capped_add(blocks_images(pre), block_images(bs@[i as int]@));
        }
        let c = images_of_block(&bs[i]);
        n = cap_add(n, c);
        i = i + 1;
    }
    assert(bs@.take(bs.len() as int) == bs@);
    n
}

fn images_of_rows(rows: &Vec<TableRow>) -> (res: u64)
    ensures
        res == capped(rows_images(rows_view(rows@))),
    decreases rows,
{
    let mut n: u64 = 0;
    let mut i: usize = 0;
    assert(rows_view(rows@.take(0)) == Seq::<crate::ir::TableRowV>::empty());
    while i < rows.len()
        invariant
            0 <= i <= rows.len(),
            n == capped(rows_images(rows_view(rows@.take(i as int)))),
        decreases rows.len() - i,
    {
        let ghost pre = rows_view(rows@.take(i as int));
        let ghost post = rows_view(rows@.take(i + 1));
        proof {
            lemma_rows_view_push(rows@.take(i as int), rows@[i as int]);
            assert(rows@.take(i + 1) == rows@.take(i as int).push(rows@[i as int]));
            assert(post.drop_last() == pre);
            assert(post.last() == rows@[i as int]@);
            lemma_capped_add(rows_images(pre), cells_images(cells_view(rows@[i as int].cells@)));
        }
        let c = images_of_cells(&rows[i].cells);
        n = cap_add(n, c);
        i = i + 1;
    }
    assert(rows@.take(rows.len() as int) == rows@);
    n
}

fn images_of_cells(cells: &Vec<TableCell>) -> (res: u64)
    ensures
        res == capped(cells_images(cells_view(cells@))),
    decreases cells,
{
    let mut n: u64 = 0;
    let mut i: usize = 0;
    assert(cells_view(cells@.take(0)) == Seq::<crate::ir::TableCellV>::empty());
    while i < cells.len()
        invariant
            0 <= i <= cells.len(),
            n == capped(cells_images(cells_view(cells@.take(i as int)))),
        decreases cells.len() - i,
    {
        let ghost pre = cells_view(cells@.take(i as int));
        let ghost post = cells_view(cells@.take(i + 1));
        proof {
            lemma_cells_view_push(cells@.take(i as int), cells@[i as int]);
            assert(cells@.take(i + 1) == cells@.take(i as int).push(cells@[i as int]));
            assert(post.drop_last() == pre);
            assert(post.last() == cells@[i as int]@);
            lemma_capped_add(cells_images(pre), blocks_images(blocks_view(cells@[i as int].blocks@)));
        }
        let c = images_of_blocks(&cells[i].blocks);
        n = cap_add(n, c);
        i = i + 1;
    }
    assert(cells@.take(cells.len() as int) == cells@);
    n
}

fn images_of_items(items: &Vec<ListItem>) -> (res: u64)
    ensures
        res == capped(items_images(items_view(items@))),
    decreases items,
{
    let mut n: u64 = 0;
    let mut i: usize = 0;
    assert(items_view(items@.take(0)) == Seq::<ListItemV>::empty());
    while i < items.len()
        invariant
            0 <= i <= items.len(),
            n == capped(items_images(items_view(items@.take(i as int)))),
        decreases items.len() - i,
    {
        let ghost pre = items_view(items@.take(i as int));
        let ghost post = items_view(items@.take(i + 1));
        proof {
            lemma_items_view_push(items@.take(i as int), items@[i as int]);
            assert(items@.take(i + 1) == items@.take(i as int).push(items@[i as int]));
            assert(post.drop_last() == pre);
            assert(post.last() == items@[i as int]@);
            let it = items@[i as int]@;
            lemma_capped_add(items_images(pre), item_images(it));
            lemma_capped_add(blocks_images(it.blocks), items_images(it.children));
        }
        let c1 = images_of_blocks(&items[i].blocks);
        let c2 = images_of_items(&items[i].children);
        let c = cap_add(c1, c2);
        n = cap_add(n, c);
        i = i + 1;
    }
    assert(items@.take(items.len() as int) == items@);
    n
}

/// Whether the document's own assets and image blocks together stay within
/// the `u32` counter that names generated entries: what collecting the
/// images needs.
pub fn images_fit(doc: &Document) -> (res: bool)
    ensures
        res == (doc.assets@.len() + sections_images(doc.sections@) <= u32::MAX),
{
    let mut n: u64 = 0;
    let mut i: usize = 0;
    while i < doc.sections.len()
        invariant
            0 <= i <= doc.sections.len(),
            n == capped(sections_images(doc.sections@.take(i as int))),
        decreases doc.sections.len() - i,
    {
        proof {
            assert(doc.sections@.take(i + 1).drop_last() == doc.sections@.take(i as int));
            assert(doc.sections@.take(i + 1).last() == doc.sections@[i as int]);
            lemma_capped_add(
                sections_images(doc.sections@.take(i as int)),
                blocks_images(blocks_view(doc.sections@[i as int].blocks@)),
            );
        }
        let c = images_of_blocks(&doc.sections[i].blocks);
        n = cap_add(n, c);
        i = i + 1;
    }
    assert(doc.sections@.take(doc.sections.len() as int) == doc.sections@);
    let a: u64 = if (doc.assets.len() as u64) < COUNT_CAP { doc.assets.len() as u64 } else { COUNT_CAP };
    proof { lemma_capped_add(doc.assets@.len() as nat, sections_images(doc.sections@)); }
    cap_add(a, n) <= 0xFFFF_FFFF
}

} // verus!
