//! The IDs of the paragraphs that the section writer emits: consecutive,
//! in document order, one per counted paragraph.
use vstd::prelude::*;
use crate::ir::{BlockV, InlineV, ListItemV, TableCellV, TableRowV};
use crate::text::dec_chars;
use crate::writer::RefTables;
use crate::writer_section::{
    block_count, block_evs, blocks_count, blocks_evs, cells_count, cells_evs, charpr_evs, checkbox_evs,
    field_begin_evs, field_end_evs, inlines_evs, item_blocks_count, item_blocks_evs, item_count, item_evs,
    items_count, items_evs, link_group_evs, list_p_open, rows_count, rows_evs, run_body, run_evs, t_evs,
    table_head,
};
use crate::xml::XmlOutV;

verus! {

/// Whether `e` opens a paragraph.
pub open spec fn is_para_start(e: XmlOutV) -> bool {
    e matches XmlOutV::Start { name, .. } && name == "hp:p"@
}

/// The ID of a paragraph start: the value of its first attribute when that
/// is `id`.
pub open spec fn para_id_of(e: XmlOutV) -> Seq<Seq<char>> {
    match e {
        XmlOutV::Start { name, attrs } => if name == "hp:p"@ && attrs.len() > 0 && attrs[0].0 == "id"@ {
            seq![attrs[0].1]
        } else {
            Seq::empty()
        },
        _ => Seq::empty(),
    }
}

/// The IDs of the paragraphs that `evs` open, in order.
pub open spec fn para_ids(evs: Seq<XmlOutV>) -> Seq<Seq<char>>
    decreases evs.len(),
{
    if evs.len() == 0 {
        Seq::empty()
    } else {
        para_ids(evs.drop_last()) + para_id_of(evs.last())
    }
}

/// `n` consecutive decimal IDs from `p`.
pub open spec fn ids_from(p: nat, n: nat) -> Seq<Seq<char>> {
    Seq::new(n, |k: int| dec_chars((p + k) as nat))
}

pub open spec fn no_para(evs: Seq<XmlOutV>) -> bool {
    forall|i: int| 0 <= i < evs.len() ==> !is_para_start(#[trigger] evs[i])
}

proof fn lemma_para_ids_concat(a: Seq<XmlOutV>, b: Seq<XmlOutV>)
    ensures
        para_ids(a + b) == para_ids(a) + para_ids(b),
    decreases b.len(),
{
    if b.len() == 0 {
        assert(a + b =~= a);
        assert(para_ids(a) + para_ids(b) =~= para_ids(a));
    } else {
        assert((a + b).drop_last() =~= a + b.drop_last());
        assert((a + b).last() == b.last());
        lemma_para_ids_concat(a, b.drop_last());
        assert(para_ids(a) + para_ids(b.drop_last()) + para_id_of(b.last())
            =~= para_ids(a) + (para_ids(b.drop_last()) + para_id_of(b.last())));
    }
}

proof fn lemma_no_para_ids(evs: Seq<XmlOutV>)
    requires
        no_para(evs),
    ensures
        para_ids(evs) == Seq::<Seq<char>>::empty(),
    decreases evs.len(),
{
    if evs.len() > 0 {
        assert(!is_para_start(evs[evs.len() - 1]));
        lemma_no_para_ids(evs.drop_last());
        assert(para_ids(evs.drop_last()) + para_id_of(evs.last()) =~= Seq::<Seq<char>>::empty());
    }
}

proof fn lemma_no_para_concat(a: Seq<XmlOutV>, b: Seq<XmlOutV>)
    requires
        no_para(a),
        no_para(b),
    ensures
        no_para(a + b),
{
    assert forall|i: int| 0 <= i < (a + b).len() implies !is_para_start(#[trigger] (a + b)[i]) by {
        if i < a.len() {
            assert((a + b)[i] == a[i]);
        } else {
            assert((a + b)[i] == b[i - a.len()]);
        }
    }
}

proof fn lemma_one_para(id: Seq<char>, rest: Seq<(Seq<char>, Seq<char>)>)
    ensures
        para_ids(seq![XmlOutV::Start { name: "hp:p"@, attrs: seq![("id"@, id)] + rest }]) == seq![id],
{
    let e = XmlOutV::Start { name: "hp:p"@, attrs: seq![("id"@, id)] + rest };
    assert(seq![e].drop_last() =~= Seq::<XmlOutV>::empty());
    assert((seq![("id"@, id)] + rest)[0] == ("id"@, id));
    reveal_with_fuel(para_ids, 2);
    assert(Seq::<Seq<char>>::empty() + seq![id] =~= seq![id]);
}

proof fn lemma_ids_from_concat(p: nat, a: nat, b: nat)
    ensures
        ids_from(p, a) + ids_from(p + a, b) == ids_from(p, a + b),
{
    assert(ids_from(p, a) + ids_from(p + a, b) =~= ids_from(p, a + b));
}

proof fn lemma_ids_one(p: nat)
    ensures
        ids_from(p, 1) == seq![dec_chars(p)],
{
    assert(ids_from(p, 1) =~= seq![dec_chars(p)]);
}

// ---------------------------------------------------------------------------
// Runs hold no paragraph
// ---------------------------------------------------------------------------

proof fn lemma_names()
    ensures
        "hp:run"@ != "hp:p"@,
        "hp:t"@ != "hp:p"@,
        "hp:ruby"@ != "hp:p"@,
        "hp:baseText"@ != "hp:p"@,
        "hp:rubyText"@ != "hp:p"@,
        "hp:tbl"@ != "hp:p"@,
        "hp:tblPr"@ != "hp:p"@,
        "hp:tr"@ != "hp:p"@,
        "hp:tc"@ != "hp:p"@,
        "hp:subList"@ != "hp:p"@,
        "hp:pic"@ != "hp:p"@,
        "hp:equation"@ != "hp:p"@,
        "hp:fn"@ != "hp:p"@,
{
    reveal_strlit("hp:p");
    reveal_strlit("hp:run");
    reveal_strlit("hp:t");
    reveal_strlit("hp:ruby");
    reveal_strlit("hp:baseText");
    reveal_strlit("hp:rubyText");
    reveal_strlit("hp:tbl");
    reveal_strlit("hp:tblPr");
    reveal_strlit("hp:tr");
    reveal_strlit("hp:tc");
    reveal_strlit("hp:subList");
    reveal_strlit("hp:pic");
    reveal_strlit("hp:equation");
    reveal_strlit("hp:fn");
    assert("hp:p"@.len() == 4);
    assert("hp:t"@[3] != "hp:p"@[3]);
    assert("hp:run"@.len() == 6 && "hp:ruby"@.len() == 7 && "hp:baseText"@.len() == 11);
    assert("hp:rubyText"@.len() == 11 && "hp:tbl"@.len() == 6 && "hp:tblPr"@.len() == 8);
    assert("hp:tr"@.len() == 5 && "hp:tc"@.len() == 5 && "hp:subList"@.len() == 10);
    assert("hp:pic"@.len() == 6 && "hp:equation"@.len() == 11 && "hp:fn"@.len() == 5);
}

proof fn lemma_run_no_para(i: InlineV, t: &RefTables)
    ensures
        no_para(run_evs(i, t)),
{
    lemma_names();
    assert(no_para(t_evs(i.text)));
    assert(no_para(t_evs(i.ruby.unwrap_or(Seq::empty()))));
    assert(no_para(charpr_evs(i, t.fonts())));
    assert(no_para(run_body(i)));
}

proof fn lemma_inlines_no_para(s: Seq<InlineV>, t: &RefTables)
    ensures
        no_para(inlines_evs(s, t)),
    decreases s.len(), 1nat,
{
    if s.len() > 0 {
        match s[0].link {
            Some(url) => {
                lemma_names();
                assert(no_para(field_begin_evs(url)));
                lemma_link_group_no_para(s, url, t);
                lemma_no_para_concat(field_begin_evs(url), link_group_evs(s, url, t));
            },
            None => {
                lemma_run_no_para(s[0], t);
                lemma_inlines_no_para(s.drop_first(), t);
                lemma_no_para_concat(run_evs(s[0], t), inlines_evs(s.drop_first(), t));
            },
        }
    }
}

proof fn lemma_link_group_no_para(s: Seq<InlineV>, url: Seq<char>, t: &RefTables)
    ensures
        no_para(link_group_evs(s, url, t)),
    decreases s.len(), 0nat,
{
    lemma_names();
    assert(no_para(field_end_evs()));
    if s.len() > 0 {
        let rest = s.drop_first();
        lemma_run_no_para(s[0], t);
        if rest.len() > 0 && rest[0].link == Some(url) {
            lemma_link_group_no_para(rest, url, t);
            lemma_no_para_concat(run_evs(s[0], t), link_group_evs(rest, url, t));
        } else {
            lemma_inlines_no_para(rest, t);
            lemma_no_para_concat(field_end_evs(), inlines_evs(rest, t));
            lemma_no_para_concat(run_evs(s[0], t), field_end_evs() + inlines_evs(rest, t));
        }
    }
}

// ---------------------------------------------------------------------------
// Blocks
// ---------------------------------------------------------------------------

proof fn lemma_ids_empty()
    ensures
        para_ids(Seq::<XmlOutV>::empty()) == Seq::<Seq<char>>::empty(),
        ids_from(0, 0) == Seq::<Seq<char>>::empty(),
{
    assert(ids_from(0, 0) =~= Seq::<Seq<char>>::empty());
}

proof fn lemma_ids_zero(p: nat)
    ensures
        ids_from(p, 0) == Seq::<Seq<char>>::empty(),
{
    assert(ids_from(p, 0) =~= Seq::<Seq<char>>::empty());
}

/// A run of events that opens one paragraph, with ID `id`, first.
proof fn lemma_head_para(e: XmlOutV, rest: Seq<XmlOutV>, id: Seq<char>)
    requires
        e matches XmlOutV::Start { name, attrs } && name == "hp:p"@ && attrs.len() > 0 && attrs[0] == ("id"@, id),
        no_para(rest),
    ensures
        para_ids(seq![e] + rest) == seq![id],
{
    assert(seq![e].drop_last() =~= Seq::<XmlOutV>::empty());
    reveal_with_fuel(para_ids, 2);
    assert(para_ids(seq![e]) =~= seq![id]);
    lemma_para_ids_concat(seq![e], rest);
    lemma_no_para_ids(rest);
    assert(seq![id] + Seq::<Seq<char>>::empty() =~= seq![id]);
}

/// `pre`, `mid` and `post` where only `mid` opens paragraphs.
proof fn lemma_wrapped(pre: Seq<XmlOutV>, mid: Seq<XmlOutV>, post: Seq<XmlOutV>)
    requires
        no_para(pre),
        no_para(post),
    ensures
        para_ids(pre + mid + post) == para_ids(mid),
{
    lemma_para_ids_concat(pre + mid, post);
    lemma_para_ids_concat(pre, mid);
    lemma_no_para_ids(pre);
    lemma_no_para_ids(post);
    assert(Seq::<Seq<char>>::empty() + para_ids(mid) + Seq::<Seq<char>>::empty() =~= para_ids(mid));
}

/// One paragraph opened by `e`, then `mid` and `post` with no paragraph.
proof fn lemma_single(e: XmlOutV, mid: Seq<XmlOutV>, post: Seq<XmlOutV>, pid: nat)
    requires
        e matches XmlOutV::Start { name, attrs } && name == "hp:p"@ && attrs.len() > 0 && attrs[0] == ("id"@, dec_chars(pid)),
        no_para(mid),
        no_para(post),
    ensures
        para_ids(seq![e] + mid + post) == ids_from(pid, 1),
{
    lemma_no_para_concat(mid, post);
    assert(seq![e] + mid + post =~= seq![e] + (mid + post));
    lemma_head_para(e, mid + post, dec_chars(pid));
    lemma_ids_one(pid);
}

proof fn lemma_block_ids(b: BlockV, t: &RefTables, pid: nat, qd: nat, amap: Seq<(Seq<char>, Seq<char>)>)
    ensures
        para_ids(block_evs(b, t, pid, qd, amap)) == ids_from(pid, block_count(b, qd)),
    decreases b,
{
    lemma_names();
    let ppr = crate::writer_section::para_pr(qd);
    let po = crate::writer_section::p_open(pid, ppr);
    let ro = crate::writer_section::run_open(0);
    match b {
        BlockV::Heading { level, inlines } => {
            let e = block_evs(b, t, pid, qd, amap)[0];
            lemma_inlines_no_para(inlines, t);
            assert(block_evs(b, t, pid, qd, amap) =~= seq![e] + inlines_evs(inlines, t) + seq![crate::writer_section::en("hp:p"@)]);
            lemma_single(e, inlines_evs(inlines, t), seq![crate::writer_section::en("hp:p"@)], pid);
        },
        BlockV::Paragraph { inlines } => {
            lemma_inlines_no_para(inlines, t);
            lemma_single(po, inlines_evs(inlines, t), seq![crate::writer_section::en("hp:p"@)], pid);
        },
        BlockV::Table { rows, col_count } => {
            let head = seq![ro] + table_head(rows, col_count, t);
            let tail = seq![crate::writer_section::en("hp:tbl"@), crate::writer_section::en("hp:run"@), crate::writer_section::en("hp:p"@)];
            assert(no_para(head));
            assert(block_evs(b, t, pid, qd, amap) =~= seq![po] + (head + rows_evs(rows, t, pid + 1, qd, amap) + tail));
            lemma_rows_ids(rows, t, pid + 1, qd, amap);
            lemma_wrapped(head, rows_evs(rows, t, pid + 1, qd, amap), tail);
            assert(seq![po].drop_last() =~= Seq::<XmlOutV>::empty());
            reveal_with_fuel(para_ids, 2);
            lemma_para_ids_concat(seq![po], head + rows_evs(rows, t, pid + 1, qd, amap) + tail);
            lemma_ids_one(pid);
            lemma_ids_from_concat(pid, 1, rows_count(rows, qd));
        },
        BlockV::CodeBlock { language, code } => {
            let c = block_evs(b, t, pid, qd, amap)[0];
            let r = block_evs(b, t, pid, qd, amap)[2];
            assert(no_para(seq![c]));
            assert(no_para(seq![r] + t_evs(code)));
            assert(block_evs(b, t, pid, qd, amap) =~= seq![c] + (seq![po] + (seq![r] + t_evs(code)) + seq![crate::writer_section::en("hp:run"@), crate::writer_section::en("hp:p"@)]) + Seq::empty());
            lemma_single(po, seq![r] + t_evs(code), seq![crate::writer_section::en("hp:run"@), crate::writer_section::en("hp:p"@)], pid);
            lemma_wrapped(seq![c], seq![po] + (seq![r] + t_evs(code)) + seq![crate::writer_section::en("hp:run"@), crate::writer_section::en("hp:p"@)], Seq::empty());
        },
        BlockV::BlockQuote { blocks } => {
            if qd >= 10 {
                lemma_ids_zero(pid);
            } else {
                lemma_blocks_ids(blocks, t, pid, qd + 1, amap);
            }
        },
        BlockV::List { ordered, items, .. } => {
            lemma_items_ids(items, ordered, t, pid, qd, 0, amap);
        },
        BlockV::Footnote { id, content } => {
            let f = seq![crate::writer_section::st("hp:fn"@, seq![("noteId"@, id)])];
            let g = seq![crate::writer_section::en("hp:fn"@)];
            assert(no_para(f));
            lemma_blocks_ids(content, t, pid, qd, amap);
            lemma_wrapped(f, blocks_evs(content, t, pid, qd, amap), g);
        },
        _ => {
            let evs = block_evs(b, t, pid, qd, amap);
            let rest = evs.drop_first();
            assert(evs =~= seq![po] + rest + Seq::empty());
            assert(no_para(rest));
            lemma_single(po, rest, Seq::empty(), pid);
        },
    }
}

proof fn lemma_blocks_ids(bs: Seq<BlockV>, t: &RefTables, pid: nat, qd: nat, amap: Seq<(Seq<char>, Seq<char>)>)
    ensures
        para_ids(blocks_evs(bs, t, pid, qd, amap)) == ids_from(pid, blocks_count(bs, qd)),
    decreases bs,
{
    if bs.len() == 0 {
        lemma_ids_zero(pid);
    } else {
        let pre = bs.drop_last();
        lemma_blocks_ids(pre, t, pid, qd, amap);
        lemma_block_ids(bs.last(), t, pid + blocks_count(pre, qd), qd, amap);
        lemma_para_ids_concat(blocks_evs(pre, t, pid, qd, amap), block_evs(bs.last(), t, pid + blocks_count(pre, qd), qd, amap));
        lemma_ids_from_concat(pid, blocks_count(pre, qd), block_count(bs.last(), qd));
    }
}

proof fn lemma_rows_ids(rs: Seq<TableRowV>, t: &RefTables, pid: nat, qd: nat, amap: Seq<(Seq<char>, Seq<char>)>)
    ensures
        para_ids(rows_evs(rs, t, pid, qd, amap)) == ids_from(pid, rows_count(rs, qd)),
    decreases rs,
{
    if rs.len() == 0 {
        lemma_ids_zero(pid);
    } else {
        lemma_names();
        let pre = rs.drop_last();
        let p = pid + rows_count(pre, qd);
        let head = seq![
            crate::writer_section::st0("hp:tr"@),
            crate::writer_section::em("hp:trHeight"@, seq![("value"@, "1000"@)]),
        ];
        let tail = seq![crate::writer_section::en("hp:tr"@)];
        let cs = cells_evs(rs.last().cells, pre.len(), t, p, qd, amap);
        assert(no_para(head));
        assert(no_para(tail));
        lemma_rows_ids(pre, t, pid, qd, amap);
        lemma_cells_ids(rs.last().cells, pre.len(), t, p, qd, amap);
        lemma_wrapped(head, cs, tail);
        assert(rows_evs(rs, t, pid, qd, amap) == rows_evs(pre, t, pid, qd, amap) + (head + cs + tail));
        lemma_para_ids_concat(rows_evs(pre, t, pid, qd, amap), head + cs + tail);
        lemma_ids_from_concat(pid, rows_count(pre, qd), cells_count(rs.last().cells, qd));
    }
}

proof fn lemma_cells_ids(cs: Seq<TableCellV>, row: nat, t: &RefTables, pid: nat, qd: nat, amap: Seq<(Seq<char>, Seq<char>)>)
    ensures
        para_ids(cells_evs(cs, row, t, pid, qd, amap)) == ids_from(pid, cells_count(cs, qd)),
    decreases cs,
{
    if cs.len() == 0 {
        lemma_ids_zero(pid);
    } else {
        lemma_names();
        let pre = cs.drop_last();
        let c = cs.last();
        let p = pid + cells_count(pre, qd);
        let all = cells_evs(cs, row, t, pid, qd, amap);
        let before = cells_evs(pre, row, t, pid, qd, amap);
        let head = all.subrange(before.len() as int, before.len() + 6int);
        let body = blocks_evs(c.blocks, t, p, qd, amap);
        let tail = seq![crate::writer_section::en("hp:subList"@), crate::writer_section::en("hp:tc"@)];
        assert(all =~= before + (head + body + tail));
        assert(no_para(head));
        assert(no_para(tail));
        lemma_cells_ids(pre, row, t, pid, qd, amap);
        lemma_blocks_ids(c.blocks, t, p, qd, amap);
        lemma_wrapped(head, body, tail);
        lemma_para_ids_concat(before, head + body + tail);
        lemma_ids_from_concat(pid, cells_count(pre, qd), blocks_count(c.blocks, qd));
    }
}

proof fn lemma_items_ids(
    its: Seq<ListItemV>,
    ordered: bool,
    t: &RefTables,
    pid: nat,
    qd: nat,
    ld: nat,
    amap: Seq<(Seq<char>, Seq<char>)>,
)
    ensures
        para_ids(items_evs(its, ordered, t, pid, qd, ld, amap)) == ids_from(pid, items_count(its, qd, ld)),
    decreases its,
{
    if ld >= 10 || its.len() == 0 {
        lemma_ids_zero(pid);
    } else {
        let pre = its.drop_last();
        lemma_items_ids(pre, ordered, t, pid, qd, ld, amap);
        lemma_item_ids(its.last(), ordered, t, pid + items_count(pre, qd, ld), qd, ld, amap);
        lemma_para_ids_concat(
            items_evs(pre, ordered, t, pid, qd, ld, amap),
            item_evs(its.last(), ordered, t, pid + items_count(pre, qd, ld), qd, ld, amap),
        );
        lemma_ids_from_concat(pid, items_count(pre, qd, ld), item_count(its.last(), qd, ld));
    }
}

proof fn lemma_item_ids(
    it: ListItemV,
    ordered: bool,
    t: &RefTables,
    pid: nat,
    qd: nat,
    ld: nat,
    amap: Seq<(Seq<char>, Seq<char>)>,
)
    ensures
        para_ids(item_evs(it, ordered, t, pid, qd, ld, amap)) == ids_from(pid, item_count(it, qd, ld)),
    decreases it,
{
    let n = item_blocks_count(it.blocks, qd, ld);
    lemma_item_blocks_ids(it.blocks, it.checked, ordered, t, pid, qd, ld, amap);
    if it.children.len() > 0 {
        lemma_items_ids(it.children, ordered, t, pid + n, qd, ld + 1, amap);
        lemma_para_ids_concat(
            item_blocks_evs(it.blocks, it.checked, ordered, t, pid, qd, ld, amap),
            items_evs(it.children, ordered, t, pid + n, qd, ld + 1, amap),
        );
        lemma_ids_from_concat(pid, n, items_count(it.children, qd, ld + 1));
    } else {
        lemma_para_ids_concat(item_blocks_evs(it.blocks, it.checked, ordered, t, pid, qd, ld, amap), Seq::empty());
        lemma_ids_empty();
        assert(ids_from(pid, n) + Seq::<Seq<char>>::empty() =~= ids_from(pid, n));
        assert(item_blocks_evs(it.blocks, it.checked, ordered, t, pid, qd, ld, amap) + Seq::<XmlOutV>::empty()
            =~= item_blocks_evs(it.blocks, it.checked, ordered, t, pid, qd, ld, amap));
    }
}

proof fn lemma_item_blocks_ids(
    bs: Seq<BlockV>,
    checked: Option<bool>,
    ordered: bool,
    t: &RefTables,
    pid: nat,
    qd: nat,
    ld: nat,
    amap: Seq<(Seq<char>, Seq<char>)>,
)
    ensures
        para_ids(item_blocks_evs(bs, checked, ordered, t, pid, qd, ld, amap)) == ids_from(pid, item_blocks_count(bs, qd, ld)),
    decreases bs,
{
    if bs.len() == 0 {
        lemma_ids_zero(pid);
    } else {
        let pre = bs.drop_last();
        let p = pid + item_blocks_count(pre, qd, ld);
        let before = item_blocks_evs(pre, checked, ordered, t, pid, qd, ld, amap);
        lemma_item_blocks_ids(pre, checked, ordered, t, pid, qd, ld, amap);
        match bs.last() {
            BlockV::Paragraph { inlines } => {
                let lo = list_p_open(p, ld, ordered);
                let mid = checkbox_evs(checked, t) + inlines_evs(inlines, t);
                let post = seq![crate::writer_section::en("hp:p"@)];
                lemma_names();
                match checked {
                    Some(c) => lemma_run_no_para(crate::ir::plain_inline_v(if c { "\u{2611} "@ } else { "\u{2610} "@ }), t),
                    None => {},
                }
                lemma_inlines_no_para(inlines, t);
                lemma_no_para_concat(checkbox_evs(checked, t), inlines_evs(inlines, t));
                assert(no_para(post));
                lemma_single(lo, mid, post, p);
                assert(seq![lo] + checkbox_evs(checked, t) + inlines_evs(inlines, t) + post == seq![lo] + mid + post);
                lemma_para_ids_concat(before, seq![lo] + mid + post);
                lemma_ids_from_concat(pid, item_blocks_count(pre, qd, ld), 1);
            },
            BlockV::List { items, ordered: sub_ordered, .. } => {
                lemma_items_ids(items, sub_ordered, t, p, qd, ld + 1, amap);
                lemma_para_ids_concat(before, items_evs(items, sub_ordered, t, p, qd, ld + 1, amap));
                lemma_ids_from_concat(pid, item_blocks_count(pre, qd, ld), items_count(items, qd, ld + 1));
            },
            other => {
                lemma_block_ids(other, t, p, qd, amap);
                lemma_para_ids_concat(before, block_evs(other, t, p, qd, amap));
                lemma_ids_from_concat(pid, item_blocks_count(pre, qd, ld), block_count(other, qd));
            },
        }
    }
}

// ---------------------------------------------------------------------------
// The law
// ---------------------------------------------------------------------------

/// Paragraph IDs run consecutively: the paragraphs that the section writer
/// opens for a sequence of blocks whose first paragraph takes ID `pid`
/// carry the IDs `pid`, `pid + 1`, ..., in document order, one for each
/// paragraph that `blocks_count` counts (the count by which the writer
/// advances its ID).
pub proof fn law_para_ids_consecutive(
    bs: Seq<BlockV>,
    t: &RefTables,
    pid: nat,
    qd: nat,
    amap: Seq<(Seq<char>, Seq<char>)>,
)
    ensures
        para_ids(blocks_evs(bs, t, pid, qd, amap)) == ids_from(pid, blocks_count(bs, qd)),
{
    lemma_blocks_ids(bs, t, pid, qd, amap);
}

} // verus!
