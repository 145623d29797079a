//! Where resolving image references reaches: every image of a block tree.
use vstd::prelude::*;
use crate::ir::{BlockV, ListItemV, TableCellV, TableRowV};
use crate::reader::{bin_map_of, file_of_path, lookup_last, stem_of, resolve_block, resolve_blocks, resolve_cells, resolve_items, resolve_rows};
use crate::writer_content::{block_srcs, blocks_srcs, cells_srcs, item_srcs, items_srcs, rows_srcs};

verus! {

/// The source an image reference resolves to: the BinData path that `m`
/// maps it to, or the reference itself.
pub open spec fn resolved_src(m: Seq<(Seq<char>, Seq<char>)>, s: Seq<char>) -> Seq<char> {
    match lookup_last(m, s) {
        Some(p) => p,
        None => s,
    }
}

pub open spec fn resolved_srcs(m: Seq<(Seq<char>, Seq<char>)>, ss: Seq<Seq<char>>) -> Seq<Seq<char>> {
    ss.map_values(|s: Seq<char>| resolved_src(m, s))
}

proof fn lemma_resolved_concat(m: Seq<(Seq<char>, Seq<char>)>, a: Seq<Seq<char>>, b: Seq<Seq<char>>)
    ensures
        resolved_srcs(m, a + b) == resolved_srcs(m, a) + resolved_srcs(m, b),
{
    assert(resolved_srcs(m, a + b) =~= resolved_srcs(m, a) + resolved_srcs(m, b));
}

proof fn lemma_block_resolved(b: BlockV, m: Seq<(Seq<char>, Seq<char>)>)
    ensures
        block_srcs(resolve_block(b, m)) == resolved_srcs(m, block_srcs(b)),
    decreases b,
{
    match b {
        BlockV::Image { src, .. } => {
            assert(resolved_srcs(m, seq![src]) =~= seq![resolved_src(m, src)]);
        },
        BlockV::Table { rows, .. } => lemma_rows_resolved(rows, m),
        BlockV::BlockQuote { blocks } => lemma_blocks_resolved(blocks, m),
        BlockV::Footnote { content, .. } => lemma_blocks_resolved(content, m),
        BlockV::List { items, .. } => lemma_items_resolved(items, m),
        _ => {
            assert(resolved_srcs(m, Seq::empty()) =~= Seq::<Seq<char>>::empty());
        },
    }
}

proof fn lemma_blocks_resolved(bs: Seq<BlockV>, m: Seq<(Seq<char>, Seq<char>)>)
    ensures
        blocks_srcs(resolve_blocks(bs, m)) == resolved_srcs(m, blocks_srcs(bs)),
    decreases bs,
{
    let r = resolve_blocks(bs, m);
    if bs.len() == 0 {
        assert(r =~= Seq::<BlockV>::empty());
        assert(resolved_srcs(m, Seq::empty()) =~= Seq::<Seq<char>>::empty());
    } else {
        assert(r.drop_last() =~= resolve_blocks(bs.drop_last(), m));
        assert(r.last() == resolve_block(bs.last(), m));
        lemma_blocks_resolved(bs.drop_last(), m);
        lemma_block_resolved(bs.last(), m);
        lemma_resolved_concat(m, blocks_srcs(bs.drop_last()), block_srcs(bs.last()));
    }
}

proof fn lemma_rows_resolved(rs: Seq<TableRowV>, m: Seq<(Seq<char>, Seq<char>)>)
    ensures
        rows_srcs(resolve_rows(rs, m)) == resolved_srcs(m, rows_srcs(rs)),
    decreases rs,
{
    let r = resolve_rows(rs, m);
    if rs.len() == 0 {
        assert(r =~= Seq::<TableRowV>::empty());
        assert(resolved_srcs(m, Seq::empty()) =~= Seq::<Seq<char>>::empty());
    } else {
        assert(r.drop_last() =~= resolve_rows(rs.drop_last(), m));
        assert(r.last().cells == resolve_cells(rs.last().cells, m));
        lemma_rows_resolved(rs.drop_last(), m);
        lemma_cells_resolved(rs.last().cells, m);
        lemma_resolved_concat(m, rows_srcs(rs.drop_last()), cells_srcs(rs.last().cells));
    }
}

proof fn lemma_cells_resolved(cs: Seq<TableCellV>, m: Seq<(Seq<char>, Seq<char>)>)
    ensures
        cells_srcs(resolve_cells(cs, m)) == resolved_srcs(m, cells_srcs(cs)),
    decreases cs,
{
    let r = resolve_cells(cs, m);
    if cs.len() == 0 {
        assert(r =~= Seq::<TableCellV>::empty());
        assert(resolved_srcs(m, Seq::empty()) =~= Seq::<Seq<char>>::empty());
    } else {
        assert(r.drop_last() =~= resolve_cells(cs.drop_last(), m));
        assert(r.last().blocks == resolve_blocks(cs.last().blocks, m));
        lemma_cells_resolved(cs.drop_last(), m);
        lemma_blocks_resolved(cs.last().blocks, m);
        lemma_resolved_concat(m, cells_srcs(cs.drop_last()), blocks_srcs(cs.last().blocks));
    }
}

proof fn lemma_items_resolved(its: Seq<ListItemV>, m: Seq<(Seq<char>, Seq<char>)>)
    ensures
        items_srcs(resolve_items(its, m)) == resolved_srcs(m, items_srcs(its)),
    decreases its,
{
    let r = resolve_items(its, m);
    if its.len() == 0 {
        assert(r =~= Seq::<ListItemV>::empty());
        assert(resolved_srcs(m, Seq::empty()) =~= Seq::<Seq<char>>::empty());
    } else {
        assert(r.drop_last() =~= resolve_items(its.drop_last(), m));
        lemma_items_resolved(its.drop_last(), m);
        lemma_item_resolved(its.last(), m);
        lemma_resolved_concat(m, items_srcs(its.drop_last()), item_srcs(its.last()));
    }
}

proof fn lemma_item_resolved(it: ListItemV, m: Seq<(Seq<char>, Seq<char>)>)
    ensures
        item_srcs(ListItemV { blocks: resolve_blocks(it.blocks, m), children: resolve_items(it.children, m), checked: it.checked })
            == resolved_srcs(m, item_srcs(it)),
    decreases it,
{
    lemma_blocks_resolved(it.blocks, m);
    lemma_items_resolved(it.children, m);
    lemma_resolved_concat(m, blocks_srcs(it.blocks), items_srcs(it.children));
}

/// Resolving image references reaches every image of a block, wherever it
/// sits (table cells, block quotes, footnote content, list items and their
/// nested items): the sources of the images after resolution are, in
/// document order, the sources before it each replaced by the BinData path
/// that `m` maps it to, or kept when `m` has no entry for it.
pub proof fn law_bin_refs_reach_every_image(b: BlockV, m: Seq<(Seq<char>, Seq<char>)>)
    ensures
        block_srcs(resolve_block(b, m)) == resolved_srcs(m, block_srcs(b)),
{
    lemma_block_resolved(b, m);
}

/// The same for the blocks of a section.
pub proof fn law_bin_refs_reach_every_image_of_blocks(bs: Seq<BlockV>, m: Seq<(Seq<char>, Seq<char>)>)
    ensures
        blocks_srcs(resolve_blocks(bs, m)) == resolved_srcs(m, blocks_srcs(bs)),
{
    lemma_blocks_resolved(bs, m);
}

// ---------------------------------------------------------------------------
// Which path a BinData stem names
// ---------------------------------------------------------------------------

proof fn lemma_last_index_after(a: Seq<char>, c: char, b: Seq<char>)
    requires
        !b.contains(c),
    ensures
        crate::text::last_index_of(a + seq![c] + b, c) == Some(a.len() as int),
    decreases b.len(),
{
    let s = a + seq![c] + b;
    if b.len() == 0 {
        assert(s.last() == c);
    } else {
        assert(s.last() == b.last());
        assert(b.last() != c) by {
            assert(b[b.len() - 1] == b.last());
        }
        assert(!b.drop_last().contains(c)) by {
            assert forall|i: int| 0 <= i < b.drop_last().len() implies b.drop_last()[i] != c by {
                assert(b.drop_last()[i] == b[i]);
            }
        }
        assert(s.drop_last() =~= a + seq![c] + b.drop_last());
        lemma_last_index_after(a, c, b.drop_last());
    }
}

/// The stem of a file under a directory: for `dir/name.ext`, where neither
/// `name` nor `ext` holds `/` and `ext` holds no `.`, the stem is `name`.
pub proof fn law_stem_of_path(dir: Seq<char>, name: Seq<char>, ext: Seq<char>)
    requires
        !name.contains('/'),
        !ext.contains('/'),
        !ext.contains('.'),
    ensures
        stem_of(file_of_path(dir + seq!['/'] + name + seq!['.'] + ext)) == name,
{
    let f = name + seq!['.'] + ext;
    let p = dir + seq!['/'] + f;
    assert(!f.contains('/')) by {
        assert forall|i: int| 0 <= i < f.len() implies f[i] != '/' by {
            if i < name.len() {
                assert(f[i] == name[i]);
            } else if i > name.len() {
                assert(f[i] == ext[i - name.len() - 1]);
            }
        }
    }
    assert(dir + seq!['/'] + name + seq!['.'] + ext =~= p);
    lemma_last_index_after(dir, '/', f);
    assert(p.subrange(dir.len() + 1int, p.len() as int) =~= f);
    lemma_last_index_after(name, '.', ext);
    assert(f.subrange(0, name.len() as int) =~= name);
}

/// A BinData stem names its entry: in the map built from the BinData
/// entries `files`, the stem of `files[i]` looks up `files[i]` when no later
/// entry has the same stem; a key that is no entry's stem looks up nothing.
pub proof fn law_bin_map_lookup(files: Seq<Seq<char>>, i: int, k: Seq<char>)
    requires
        0 <= i < files.len(),
        forall|j: int| i < j < files.len() ==> stem_of(file_of_path(#[trigger] files[j])) != stem_of(file_of_path(files[i])),
    ensures
        lookup_last(bin_map_of(files), stem_of(file_of_path(files[i]))) == Some(files[i]),
        (forall|j: int| 0 <= j < files.len() ==> stem_of(file_of_path(#[trigger] files[j])) != k)
            ==> lookup_last(bin_map_of(files), k) is None,
    decreases files.len(),
{
    let m = bin_map_of(files);
    let n = files.len();
    assert(m.drop_last() =~= bin_map_of(files.drop_last()));
    assert(m.last() == (stem_of(file_of_path(files[n - 1])), files[n - 1]));
    if i < n - 1 {
        assert(stem_of(file_of_path(files[n - 1])) != stem_of(file_of_path(files[i])));
        assert forall|j: int| i < j < files.drop_last().len() implies stem_of(file_of_path(#[trigger] files.drop_last()[j]))
            != stem_of(file_of_path(files.drop_last()[i])) by {
            assert(files.drop_last()[j] == files[j]);
        }
        law_bin_map_lookup(files.drop_last(), i, k);
    }
    if forall|j: int| 0 <= j < files.len() ==> stem_of(file_of_path(#[trigger] files[j])) != k {
        lemma_lookup_none(files, k);
    }
}

proof fn lemma_lookup_none(files: Seq<Seq<char>>, k: Seq<char>)
    requires
        forall|j: int| 0 <= j < files.len() ==> stem_of(file_of_path(#[trigger] files[j])) != k,
    ensures
        lookup_last(bin_map_of(files), k) is None,
    decreases files.len(),
{
    if files.len() > 0 {
        let m = bin_map_of(files);
        assert(m.drop_last() =~= bin_map_of(files.drop_last()));
        assert(stem_of(file_of_path(files[files.len() - 1])) != k);
        assert forall|j: int| 0 <= j < files.drop_last().len() implies stem_of(file_of_path(#[trigger] files.drop_last()[j])) != k by {
            assert(files.drop_last()[j] == files[j]);
        }
        lemma_lookup_none(files.drop_last(), k);
    }
}

} // verus!
