//! Section XML: the OWPML events for a section's blocks, and the section text.
use vstd::prelude::*;
use crate::ir::{
    BlockV, Block, InlineV, Inline, ListItem, ListItemV, PageLayout, Section, TableCell, TableCellV,
    TableRow, TableRowV, blocks_view, inlines_view, items_view, rows_view, cells_view,
    lemma_blocks_view_push, lemma_items_view_push, lemma_rows_view_push, lemma_cells_view_push,
    header_footer_type_str, opt_blocks_view,
};
use crate::text::{dec_chars, dec_string};
use crate::writer::{CharPrKey, RefTables, key_id, key_of_inline, heading_key, code_block_key, find_index};
use crate::xml::{XmlOut, XmlOutV, outs_view, attrs_view};

verus! {

// ---------------------------------------------------------------------------
// Constants shared with header.xml
// ---------------------------------------------------------------------------

/// paraPr of headings (wider line spacing).
pub const PARA_PR_HEADING: &'static str = "4";
/// paraPr of top-level list paragraphs.
pub const PARA_PR_LIST_D0: &'static str = "2";
/// paraPr of nested list paragraphs.
pub const PARA_PR_LIST_D1: &'static str = "3";
/// The digit numbering used by ordered lists.
pub const NUM_PR_DIGIT: &'static str = "1";
/// Lists nested deeper than this are dropped.
pub const MAX_LIST_DEPTH: u32 = 10;
/// Block quotes nested deeper than this are dropped.
pub const MAX_QUOTE_DEPTH: u32 = 10;

/// Maps an image `src` to its `BinData/` entry name.
pub type ImageAssetMap = Vec<(String, String)>;

pub type AttrsV = Seq<(Seq<char>, Seq<char>)>;

// ---------------------------------------------------------------------------
// Event shapes
// ---------------------------------------------------------------------------

pub open spec fn st(name: Seq<char>, attrs: AttrsV) -> XmlOutV {
    XmlOutV::Start { name, attrs }
}

pub open spec fn st0(name: Seq<char>) -> XmlOutV {
    XmlOutV::Start { name, attrs: Seq::empty() }
}

pub open spec fn em(name: Seq<char>, attrs: AttrsV) -> XmlOutV {
    XmlOutV::Empty { name, attrs }
}

pub open spec fn en(name: Seq<char>) -> XmlOutV {
    XmlOutV::End { name }
}

pub open spec fn tx(text: Seq<char>) -> XmlOutV {
    XmlOutV::Text { text }
}

pub open spec fn p_open(id: nat, ppr: Seq<char>) -> XmlOutV {
    st("hp:p"@, seq![("id"@, dec_chars(id)), ("paraPrIDRef"@, ppr)])
}

pub open spec fn run_open(char_pr: nat) -> XmlOutV {
    st("hp:run"@, seq![("charPrIDRef"@, dec_chars(char_pr))])
}

/// `<hp:t>text</hp:t>`.
pub open spec fn t_evs(text: Seq<char>) -> Seq<XmlOutV> {
    seq![st0("hp:t"@), tx(text), en("hp:t"@)]
}

/// paraPr of an ordinary paragraph: the indented one inside a block quote.
pub open spec fn para_pr(qd: nat) -> Seq<char> {
    if qd > 0 { "1"@ } else { "0"@ }
}

/// The first entry of `m` whose key is `k`.
pub open spec fn map_get(m: Seq<(Seq<char>, Seq<char>)>, k: Seq<char>) -> Option<Seq<char>>
    decreases m.len(),
{
    if m.len() == 0 {
        None
    } else if m[0].0 == k {
        Some(m[0].1)
    } else {
        map_get(m.drop_first(), k)
    }
}

// ---------------------------------------------------------------------------
// Inline runs
// ---------------------------------------------------------------------------

pub open spec fn strip_hash(c: Seq<char>) -> Seq<char> {
    if c.len() > 0 && c[0] == '#' { c.drop_first() } else { c }
}

pub open spec fn opt_attr(cond: bool, key: Seq<char>, value: Seq<char>) -> AttrsV {
    if cond { seq![(key, value)] } else { Seq::empty() }
}

pub open spec fn has_formatting(i: InlineV) -> bool {
    i.bold || i.italic || i.underline || i.strikethrough || i.superscript || i.subscript
        || i.color is Some || i.font_name is Some
}

pub open spec fn flag_attrs(i: InlineV) -> AttrsV {
    opt_attr(i.bold, "bold"@, "true"@)
        + opt_attr(i.italic, "italic"@, "true"@)
        + opt_attr(i.underline, "underline"@, "true"@)
        + opt_attr(i.strikethrough, "strikeout"@, "true"@)
}

pub open spec fn script_attr(i: InlineV) -> AttrsV {
    if i.superscript {
        seq![("supscript"@, "superscript"@)]
    } else if i.subscript {
        seq![("supscript"@, "subscript"@)]
    } else {
        Seq::empty()
    }
}

pub open spec fn color_attr(i: InlineV) -> AttrsV {
    match i.color {
        Some(c) => seq![("color"@, strip_hash(c))],
        None => Seq::empty(),
    }
}

pub open spec fn face_attr(i: InlineV, fonts: Seq<Seq<char>>) -> AttrsV {
    match i.font_name {
        Some(f) => match find_index(fonts, f) {
            Some(idx) => seq![("faceNameIDRef"@, dec_chars(idx))],
            None => Seq::empty(),
        },
        None => Seq::empty(),
    }
}

/// Attributes of the section-level `<hp:charPr>` of an inline.
pub open spec fn charpr_attrs(i: InlineV, fonts: Seq<Seq<char>>) -> AttrsV {
    flag_attrs(i) + script_attr(i) + color_attr(i) + face_attr(i, fonts)
}

pub open spec fn charpr_evs(i: InlineV, fonts: Seq<Seq<char>>) -> Seq<XmlOutV> {
    if has_formatting(i) { seq![em("hp:charPr"@, charpr_attrs(i, fonts))] } else { Seq::empty() }
}

pub open spec fn run_body(i: InlineV) -> Seq<XmlOutV> {
    match i.ruby {
        Some(a) => seq![st0("hp:ruby"@), st0("hp:baseText"@)] + t_evs(i.text)
            + seq![en("hp:baseText"@), st0("hp:rubyText"@)] + t_evs(a)
            + seq![en("hp:rubyText"@), en("hp:ruby"@)],
        None => if i.text.len() == 0 {
            match i.footnote_ref {
                Some(n) => seq![em("hp:noteRef"@, seq![("noteId"@, n), ("type"@, "FOOTNOTE"@)])],
                None => Seq::empty(),
            }
        } else {
            t_evs(i.text)
        },
    }
}

/// The `<hp:run>` of one inline, or nothing for an inline without content.
pub open spec fn run_evs(i: InlineV, t: &RefTables) -> Seq<XmlOutV> {
    if i.text.len() == 0 && i.ruby is None && i.footnote_ref is None {
        Seq::empty()
    } else {
        seq![run_open(key_id(t.keys(), key_of_inline(i, t.code_font@)))] + charpr_evs(i, t.fonts())
            + run_body(i) + seq![en("hp:run"@)]
    }
}

pub open spec fn field_begin_evs(url: Seq<char>) -> Seq<XmlOutV> {
    seq![run_open(0), em("hp:fieldBegin"@, seq![("type"@, "HYPERLINK"@), ("command"@, url)]), en("hp:run"@)]
}

pub open spec fn field_end_evs() -> Seq<XmlOutV> {
    seq![run_open(0), em("hp:fieldEnd"@, seq![("type"@, "HYPERLINK"@)]), en("hp:run"@)]
}

/// Inlines in order; each maximal run of consecutive inlines that share a
/// link is wrapped in one HYPERLINK field.
pub open spec fn inlines_evs(s: Seq<InlineV>, t: &RefTables) -> Seq<XmlOutV>
    decreases s.len(), 1nat,
{
    if s.len() == 0 {
        Seq::empty()
    } else {
        match s[0].link {
            Some(url) => field_begin_evs(url) + link_group_evs(s, url, t),
            None => run_evs(s[0], t) + inlines_evs(s.drop_first(), t),
        }
    }
}

/// The runs of a link group that starts at `s[0]`, its field end, and the
/// inlines after it.
pub open spec fn link_group_evs(s: Seq<InlineV>, url: Seq<char>, t: &RefTables) -> Seq<XmlOutV>
    decreases s.len(), 0nat,
{
    if s.len() == 0 {
        field_end_evs()
    } else {
        let rest = s.drop_first();
        run_evs(s[0], t) + if rest.len() > 0 && rest[0].link == Some(url) {
            link_group_evs(rest, url, t)
        } else {
            field_end_evs() + inlines_evs(rest, t)
        }
    }
}

// ---------------------------------------------------------------------------
// Paragraph counts (each `<hp:p>` takes the next ID)
// ---------------------------------------------------------------------------

pub open spec fn block_count(b: BlockV, qd: nat) -> nat
    decreases b,
{
    match b {
        BlockV::Table { rows, .. } => 1 + rows_count(rows, qd),
        BlockV::BlockQuote { blocks } => if qd >= 10 { 0 } else { blocks_count(blocks, qd + 1) },
        BlockV::List { items, .. } => items_count(items, qd, 0),
        BlockV::Footnote { content, .. } => blocks_count(content, qd),
        _ => 1,
    }
}

pub open spec fn blocks_count(bs: Seq<BlockV>, qd: nat) -> nat
    decreases bs,
{
    if bs.len() == 0 { 0 } else { blocks_count(bs.drop_last(), qd) + block_count(bs.last(), qd) }
}

pub open spec fn rows_count(rs: Seq<TableRowV>, qd: nat) -> nat
    decreases rs,
{
    if rs.len() == 0 { 0 } else { rows_count(rs.drop_last(), qd) + cells_count(rs.last().cells, qd) }
}

pub open spec fn cells_count(cs: Seq<TableCellV>, qd: nat) -> nat
    decreases cs,
{
    if cs.len() == 0 { 0 } else { cells_count(cs.drop_last(), qd) + blocks_count(cs.last().blocks, qd) }
}

pub open spec fn items_count(its: Seq<ListItemV>, qd: nat, ld: nat) -> nat
    decreases its,
{
    if ld >= 10 || its.len() == 0 {
        0
    } else {
        items_count(its.drop_last(), qd, ld) + item_count(its.last(), qd, ld)
    }
}

pub open spec fn item_count(it: ListItemV, qd: nat, ld: nat) -> nat
    decreases it,
{
    item_blocks_count(it.blocks, qd, ld) + if it.children.len() > 0 { items_count(it.children, qd, ld + 1) } else { 0 }
}

pub open spec fn item_blocks_count(bs: Seq<BlockV>, qd: nat, ld: nat) -> nat
    decreases bs,
{
    if bs.len() == 0 {
        0
    } else {
        item_blocks_count(bs.drop_last(), qd, ld) + match bs.last() {
            BlockV::Paragraph { .. } => 1,
            BlockV::List { items, .. } => items_count(items, qd, ld + 1),
            other => block_count(other, qd),
        }
    }
}

// ---------------------------------------------------------------------------
// Blocks
// ---------------------------------------------------------------------------

pub open spec fn lang_comment(language: Option<Seq<char>>) -> Seq<char> {
    let raw = match language { Some(l) => l, None => Seq::empty() };
    " hwp2md:lang:"@ + collapse_dashes(raw) + " "@
}

/// `str::replace("--", "-")`.
pub open spec fn collapse_dashes(s: Seq<char>) -> Seq<char>
    decreases s.len(),
{
    if s.len() >= 2 && s[0] == '-' && s[1] == '-' {
        seq!['-'] + collapse_dashes(s.subrange(2, s.len() as int))
    } else if s.len() == 0 {
        Seq::empty()
    } else {
        seq![s[0]] + collapse_dashes(s.drop_first())
    }
}

pub open spec fn hr_text() -> Seq<char> {
    "\u{2500}\u{2500}\u{2500}\u{2500}\u{2500}\u{2500}\u{2500}\u{2500}\u{2500}\u{2500}\u{2500}\u{2500}\u{2500}\u{2500}\u{2500}\u{2500}\u{2500}\u{2500}\u{2500}"@
}

pub open spec fn clamp_style(level: u8) -> nat {
    if level < 1 { 1 } else if level > 6 { 6 } else { level as nat }
}

/// The events of one block, whose first paragraph takes ID `pid`.
pub open spec fn block_evs(b: BlockV, t: &RefTables, pid: nat, qd: nat, amap: AttrsV) -> Seq<XmlOutV>
    decreases b,
{
    let ppr = para_pr(qd);
    match b {
        BlockV::Heading { level, inlines } => seq![st(
            "hp:p"@,
            seq![
                ("id"@, dec_chars(pid)),
                ("hp:styleIDRef"@, dec_chars(clamp_style(level))),
                ("paraPrIDRef"@, if qd > 0 { ppr } else { PARA_PR_HEADING@ }),
            ],
        )] + inlines_evs(inlines, t) + seq![en("hp:p"@)],
        BlockV::Paragraph { inlines } => seq![p_open(pid, ppr)] + inlines_evs(inlines, t) + seq![en("hp:p"@)],
        BlockV::Table { rows, col_count } => seq![p_open(pid, ppr), run_open(0)]
            + table_head(rows, col_count, t) + rows_evs(rows, t, pid + 1, qd, amap)
            + seq![en("hp:tbl"@), en("hp:run"@), en("hp:p"@)],
        BlockV::CodeBlock { language, code } => seq![
            XmlOutV::Comment { text: lang_comment(language) },
            p_open(pid, ppr),
            run_open(key_id(t.keys(), code_block_key(t.code_font@))),
        ] + t_evs(code) + seq![en("hp:run"@), en("hp:p"@)],
        BlockV::BlockQuote { blocks } => if qd >= 10 {
            Seq::empty()
        } else {
            blocks_evs(blocks, t, pid, qd + 1, amap)
        },
        BlockV::List { ordered, items, .. } => items_evs(items, ordered, t, pid, qd, 0, amap),
        BlockV::Image { src, alt } => seq![
            p_open(pid, ppr),
            run_open(0),
            st0("hp:pic"@),
            em(
                "hp:img"@,
                seq![
                    ("hp:binaryItemIDRef"@, match map_get(amap, src) { Some(e) => e, None => src }),
                    ("alt"@, alt),
                ],
            ),
            en("hp:pic"@),
            en("hp:run"@),
            en("hp:p"@),
        ],
        BlockV::HorizontalRule => seq![p_open(pid, ppr), run_open(0)] + t_evs(hr_text())
            + seq![en("hp:run"@), en("hp:p"@)],
        BlockV::PageBreak => seq![
            p_open(pid, ppr),
            run_open(0),
            em("hp:ctrl"@, seq![("id"@, "newPage"@)]),
            en("hp:run"@),
            en("hp:p"@),
        ],
        BlockV::Math { tex, .. } => seq![p_open(pid, ppr), run_open(0), st0("hp:equation"@), tx(tex),
            en("hp:equation"@), en("hp:run"@), en("hp:p"@)],
        BlockV::Footnote { id, content } => seq![st("hp:fn"@, seq![("noteId"@, id)])]
            + blocks_evs(content, t, pid, qd, amap) + seq![en("hp:fn"@)],
    }
}

pub open spec fn blocks_evs(bs: Seq<BlockV>, t: &RefTables, pid: nat, qd: nat, amap: AttrsV) -> Seq<XmlOutV>
    decreases bs,
{
    if bs.len() == 0 {
        Seq::empty()
    } else {
        blocks_evs(bs.drop_last(), t, pid, qd, amap)
            + block_evs(bs.last(), t, pid + blocks_count(bs.drop_last(), qd), qd, amap)
    }
}

/// The widest row.
pub open spec fn max_cells(rs: Seq<TableRowV>) -> nat
    decreases rs.len(),
{
    if rs.len() == 0 {
        0
    } else {
        let m = max_cells(rs.drop_last());
        if rs.last().cells.len() > m { rs.last().cells.len() } else { m }
    }
}

pub open spec fn col_cnt(rs: Seq<TableRowV>, col_count: usize) -> nat {
    if col_count > 0 { col_count as nat } else { max_cells(rs) }
}

/// The opening of `<hp:tbl>` up to its first row.
pub open spec fn table_head(rs: Seq<TableRowV>, col_count: usize, t: &RefTables) -> Seq<XmlOutV> {
    let cc = col_cnt(rs, col_count);
    seq![
        st(
            "hp:tbl"@,
            seq![
                ("rowCnt"@, dec_chars(rs.len())),
                ("colCnt"@, dec_chars(cc)),
                ("borderFillIDRef"@, dec_chars(t.table_border_fill_id as nat)),
                ("noAdjust"@, "0"@),
            ],
        ),
        st0("hp:tblPr"@),
        em("hp:inMargin"@, seq![("left"@, "141"@), ("right"@, "141"@), ("top"@, "141"@), ("bottom"@, "141"@)]),
        en("hp:tblPr"@),
        em("hp:sz"@, seq![("width"@, dec_chars(cc * 8000)), ("height"@, dec_chars(rs.len() * 1000))]),
        em("hp:pos"@, seq![("treatAsChar"@, "1"@)]),
    ]
}

pub open spec fn rows_evs(rs: Seq<TableRowV>, t: &RefTables, pid: nat, qd: nat, amap: AttrsV) -> Seq<XmlOutV>
    decreases rs,
{
    if rs.len() == 0 {
        Seq::empty()
    } else {
        let pre = rs.drop_last();
        rows_evs(pre, t, pid, qd, amap) + seq![st0("hp:tr"@), em("hp:trHeight"@, seq![("value"@, "1000"@)])]
            + cells_evs(rs.last().cells, pre.len(), t, pid + rows_count(pre, qd), qd, amap) + seq![en("hp:tr"@)]
    }
}

pub open spec fn max1(n: u32) -> nat {
    if n < 1 { 1 } else { n as nat }
}

pub open spec fn cells_evs(cs: Seq<TableCellV>, row: nat, t: &RefTables, pid: nat, qd: nat, amap: AttrsV) -> Seq<XmlOutV>
    decreases cs,
{
    if cs.len() == 0 {
        Seq::empty()
    } else {
        let pre = cs.drop_last();
        let c = cs.last();
        cells_evs(pre, row, t, pid, qd, amap) + seq![
            st0("hp:tc"@),
            em("hp:cellAddr"@, seq![("colAddr"@, dec_chars(pre.len())), ("rowAddr"@, dec_chars(row))]),
            em("hp:cellSpan"@, seq![("colSpan"@, dec_chars(c.colspan as nat)), ("rowSpan"@, dec_chars(c.rowspan as nat))]),
            em("hp:cellSz"@, seq![("width"@, dec_chars(max1(c.colspan) * 8000)), ("height"@, dec_chars(max1(c.rowspan) * 1000))]),
            em("hp:cellMargin"@, seq![("left"@, "510"@), ("right"@, "510"@), ("top"@, "141"@), ("bottom"@, "141"@)]),
            st0("hp:subList"@),
        ] + blocks_evs(c.blocks, t, pid + cells_count(pre, qd), qd, amap) + seq![en("hp:subList"@), en("hp:tc"@)]
    }
}

/// List items as numbered / indented paragraphs, nested lists one level deeper.
pub open spec fn items_evs(its: Seq<ListItemV>, ordered: bool, t: &RefTables, pid: nat, qd: nat, ld: nat, amap: AttrsV) -> Seq<XmlOutV>
    decreases its,
{
    if ld >= 10 || its.len() == 0 {
        Seq::empty()
    } else {
        let pre = its.drop_last();
        items_evs(pre, ordered, t, pid, qd, ld, amap)
            + item_evs(its.last(), ordered, t, pid + items_count(pre, qd, ld), qd, ld, amap)
    }
}

pub open spec fn item_evs(it: ListItemV, ordered: bool, t: &RefTables, pid: nat, qd: nat, ld: nat, amap: AttrsV) -> Seq<XmlOutV>
    decreases it,
{
    item_blocks_evs(it.blocks, it.checked, ordered, t, pid, qd, ld, amap) + if it.children.len() > 0 {
        items_evs(it.children, ordered, t, pid + item_blocks_count(it.blocks, qd, ld), qd, ld + 1, amap)
    } else {
        Seq::empty()
    }
}

pub open spec fn list_ppr(ld: nat) -> Seq<char> {
    if ld == 0 { PARA_PR_LIST_D0@ } else { PARA_PR_LIST_D1@ }
}

pub open spec fn list_p_open(pid: nat, ld: nat, ordered: bool) -> XmlOutV {
    st(
        "hp:p"@,
        seq![("id"@, dec_chars(pid)), ("paraPrIDRef"@, list_ppr(ld))] + if ordered {
            seq![("numPrIDRef"@, NUM_PR_DIGIT@)]
        } else {
            Seq::empty()
        },
    )
}

pub open spec fn checkbox_evs(checked: Option<bool>, t: &RefTables) -> Seq<XmlOutV> {
    match checked {
        Some(c) => run_evs(crate::ir::plain_inline_v(if c { "\u{2611} "@ } else { "\u{2610} "@ }), t),
        None => Seq::empty(),
    }
}

pub open spec fn item_blocks_evs(
    bs: Seq<BlockV>,
    checked: Option<bool>,
    ordered: bool,
    t: &RefTables,
    pid: nat,
    qd: nat,
    ld: nat,
    amap: AttrsV,
) -> Seq<XmlOutV>
    decreases bs,
{
    if bs.len() == 0 {
        Seq::empty()
    } else {
        let pre = bs.drop_last();
        let p = pid + item_blocks_count(pre, qd, ld);
        item_blocks_evs(pre, checked, ordered, t, pid, qd, ld, amap) + match bs.last() {
            BlockV::Paragraph { inlines } => seq![list_p_open(p, ld, ordered)] + checkbox_evs(checked, t)
                + inlines_evs(inlines, t) + seq![en("hp:p"@)],
            BlockV::List { items, ordered: sub_ordered, .. } => items_evs(items, sub_ordered, t, p, qd, ld + 1, amap),
            other => block_evs(other, t, p, qd, amap),
        }
    }
}

} // verus!

verus! {

// ---------------------------------------------------------------------------
// Emitting events
// ---------------------------------------------------------------------------

pub fn emit(out: &mut Vec<XmlOut>, e: XmlOut)
    ensures
        outs_view(final(out)@) == outs_view(old(out)@).push(e@),
{
    let ghost before = out@;
    out.push(e);
    assert(outs_view(out@) =~= outs_view(before).push(e@));
}

pub fn push_attr(v: &mut Vec<(String, String)>, key: &str, value: String)
    ensures
        attrs_view(final(v)@) == attrs_view(old(v)@).push((key@, value@)),
{
    let ghost before = v@;
    v.push((crate::text::str_to_string(key), value));
    assert(attrs_view(v@) =~= attrs_view(before).push((key@, value@)));
}

pub fn lit(s: &str) -> (res: String)
    ensures
        res@ == s@,
{
    crate::text::str_to_string(s)
}

pub fn ev_start0(name: &str) -> (res: XmlOut)
    ensures
        res@ == st0(name@),
{
    let a: Vec<(String, String)> = Vec::new();
    assert(attrs_view(a@) =~= Seq::empty());
    XmlOut::Start { name: lit(name), attrs: a }
}

pub fn ev_end(name: &str) -> (res: XmlOut)
    ensures
        res@ == en(name@),
{
    XmlOut::End { name: lit(name) }
}

pub fn ev_p_open(id: u32, ppr: &str) -> (res: XmlOut)
    ensures
        res@ == p_open(id as nat, ppr@),
{
    let mut a: Vec<(String, String)> = Vec::new();
    push_attr(&mut a, "id", dec_string(id as u128));
    push_attr(&mut a, "paraPrIDRef", lit(ppr));
    assert(attrs_view(a@) =~= seq![("id"@, dec_chars(id as nat)), ("paraPrIDRef"@, ppr@)]);
    XmlOut::Start { name: lit("hp:p"), attrs: a }
}

pub fn ev_run_open(char_pr: usize) -> (res: XmlOut)
    ensures
        res@ == run_open(char_pr as nat),
{
    let mut a: Vec<(String, String)> = Vec::new();
    push_attr(&mut a, "charPrIDRef", dec_string(char_pr as u128));
    assert(attrs_view(a@) =~= seq![("charPrIDRef"@, dec_chars(char_pr as nat))]);
    XmlOut::Start { name: lit("hp:run"), attrs: a }
}

/// `<hp:t>text</hp:t>`.
pub fn write_t(out: &mut Vec<XmlOut>, text: String)
    ensures
        outs_view(final(out)@) == outs_view(old(out)@) + t_evs(text@),
{
    let ghost o = outs_view(out@);
    emit(out, ev_start0("hp:t"));
    let ghost tv = text@;
    emit(out, XmlOut::Text { text });
    emit(out, ev_end("hp:t"));
    assert(outs_view(out@) =~= o + t_evs(tv));
}

// ---------------------------------------------------------------------------
// Inline runs
// ---------------------------------------------------------------------------

/// `color` without a leading `#` (`str::strip_prefix('#')`).
pub fn strip_hash_of(c: &String) -> (res: String)
    ensures
        res@ == strip_hash(c@),
{
    let cs = crate::text::chars_vec(c.as_str());
    if cs.len() > 0 && cs[0] == '#' {
        let rest = crate::text::sub_vec(&cs, 1, cs.len());
        assert(rest@ == c@.drop_first());
        crate::text::string_of(&rest)
    } else {
        c.clone()
    }
}

fn push_flag(a: &mut Vec<(String, String)>, cond: bool, key: &str)
    ensures
        attrs_view(final(a)@) == attrs_view(old(a)@) + opt_attr(cond, key@, "true"@),
{
    if cond {
        push_attr(a, key, lit("true"));
    } else {
        assert(attrs_view(a@) =~= attrs_view(a@) + Seq::empty());
    }
}

fn push_flag_attrs(a: &mut Vec<(String, String)>, i: &Inline)
    ensures
        attrs_view(final(a)@) == attrs_view(old(a)@) + flag_attrs(i@),
{
    let ghost a0 = attrs_view(a@);
    push_flag(a, i.bold, "bold");
    push_flag(a, i.italic, "italic");
    push_flag(a, i.underline, "underline");
    push_flag(a, i.strikethrough, "strikeout");
    assert(attrs_view(a@) =~= a0 + flag_attrs(i@));
}

fn push_script_attr(a: &mut Vec<(String, String)>, i: &Inline)
    ensures
        attrs_view(final(a)@) == attrs_view(old(a)@) + script_attr(i@),
{
    if i.superscript {
        push_attr(a, "supscript", lit("superscript"));
    } else if i.subscript {
        push_attr(a, "supscript", lit("subscript"));
    } else {
        assert(attrs_view(a@) =~= attrs_view(a@) + Seq::empty());
    }
}

fn push_color_attr(a: &mut Vec<(String, String)>, i: &Inline)
    ensures
        attrs_view(final(a)@) == attrs_view(old(a)@) + color_attr(i@),
{
    match &i.color {
        Some(c) => push_attr(a, "color", strip_hash_of(c)),
        None => {
            assert(attrs_view(a@) =~= attrs_view(a@) + Seq::empty());
        },
    }
}

fn push_face_attr(a: &mut Vec<(String, String)>, i: &Inline, tables: &RefTables)
    ensures
        attrs_view(final(a)@) == attrs_view(old(a)@) + face_attr(i@, tables.fonts()),
{
    match &i.font_name {
        Some(f) => match tables.font_index(f) {
            Some(idx) => {
                let ghost a0 = attrs_view(a@);
                push_attr(a, "faceNameIDRef", dec_string(idx as u128));
                assert(attrs_view(a@) =~= a0 + seq![("faceNameIDRef"@, dec_chars(idx as nat))]);
            },
            None => {
                assert(attrs_view(a@) =~= attrs_view(a@) + Seq::empty());
            },
        },
        None => {
            assert(attrs_view(a@) =~= attrs_view(a@) + Seq::empty());
        },
    }
}

/// The section-level `<hp:charPr>` of an inline, when it has any formatting.
pub fn write_inline_charpr(out: &mut Vec<XmlOut>, inline: &Inline, tables: &RefTables)
    ensures
        outs_view(final(out)@) == outs_view(old(out)@) + charpr_evs(inline@, tables.fonts()),
{
    let i = inline;
    let formatted = i.bold || i.italic || i.underline || i.strikethrough || i.superscript || i.subscript
        || i.color.is_some() || i.font_name.is_some();
    if !formatted {
        assert(outs_view(out@) =~= outs_view(out@) + Seq::<XmlOutV>::empty());
        return;
    }
    let mut a: Vec<(String, String)> = Vec::new();
    assert(attrs_view(a@) =~= Seq::empty());
    push_flag_attrs(&mut a, i);
    push_script_attr(&mut a, i);
    push_color_attr(&mut a, i);
    push_face_attr(&mut a, i, tables);
    assert(attrs_view(a@) =~= charpr_attrs(i@, tables.fonts()));
    emit(out, XmlOut::Empty { name: lit("hp:charPr"), attrs: a });
}

/// The `<hp:run>` of one inline; nothing when it has no content.
pub fn write_inline_run(out: &mut Vec<XmlOut>, inline: &Inline, tables: &RefTables)
    ensures
        outs_view(final(out)@) == outs_view(old(out)@) + run_evs(inline@, tables),
{
    let ghost o = outs_view(out@);
    let ghost iv = inline@;
    if inline.text.as_str().is_empty() && inline.ruby.is_none() && inline.footnote_ref.is_none() {
        assert(outs_view(out@) =~= o + Seq::<XmlOutV>::empty());
        return;
    }
    let key = CharPrKey::from_inline(inline, tables.code_font.as_str());
    let id = tables.char_pr_id(&key);
    emit(out, ev_run_open(id));
    write_inline_charpr(out, inline, tables);
    let ghost o2 = outs_view(out@);
    match &inline.ruby {
        Some(annotation) => {
            emit(out, ev_start0("hp:ruby"));
            emit(out, ev_start0("hp:baseText"));
            let ghost o3 = outs_view(out@);
            write_t(out, inline.text.clone());
            assert(outs_view(out@) == o3 + t_evs(iv.text));
            emit(out, ev_end("hp:baseText"));
            emit(out, ev_start0("hp:rubyText"));
            let ghost o4 = outs_view(out@);
            write_t(out, annotation.clone());
            assert(outs_view(out@) == o4 + t_evs(annotation@));
            emit(out, ev_end("hp:rubyText"));
            emit(out, ev_end("hp:ruby"));
            assert(outs_view(out@) =~= o2 + run_body(iv));
        },
        None => {
            if inline.text.as_str().is_empty() {
                match &inline.footnote_ref {
                    Some(note_id) => {
                        let mut a: Vec<(String, String)> = Vec::new();
                        push_attr(&mut a, "noteId", note_id.clone());
                        push_attr(&mut a, "type", lit("FOOTNOTE"));
                        assert(attrs_view(a@) =~= seq![("noteId"@, note_id@), ("type"@, "FOOTNOTE"@)]);
                        emit(out, XmlOut::Empty { name: lit("hp:noteRef"), attrs: a });
                        assert(outs_view(out@) =~= o2 + run_body(iv));
                    },
                    None => {
                        assert(outs_view(out@) =~= o2 + run_body(iv));
                    },
                }
            } else {
                write_t(out, inline.text.clone());
                assert(outs_view(out@) =~= o2 + run_body(iv));
            }
        },
    }
    assert(outs_view(out@) =~= o2 + run_body(iv));
    emit(out, ev_end("hp:run"));
    assert(outs_view(out@) =~= o + run_evs(iv, tables));
}

pub fn write_field_begin(out: &mut Vec<XmlOut>, url: &String)
    ensures
        outs_view(final(out)@) == outs_view(old(out)@) + field_begin_evs(url@),
{
    let ghost o = outs_view(out@);
    emit(out, ev_run_open(0));
    let mut a: Vec<(String, String)> = Vec::new();
    push_attr(&mut a, "type", lit("HYPERLINK"));
    push_attr(&mut a, "command", url.clone());
    assert(attrs_view(a@) =~= seq![("type"@, "HYPERLINK"@), ("command"@, url@)]);
    emit(out, XmlOut::Empty { name: lit("hp:fieldBegin"), attrs: a });
    emit(out, ev_end("hp:run"));
    assert(outs_view(out@) =~= o + field_begin_evs(url@));
}

pub fn write_field_end(out: &mut Vec<XmlOut>)
    ensures
        outs_view(final(out)@) == outs_view(old(out)@) + field_end_evs(),
{
    let ghost o = outs_view(out@);
    emit(out, ev_run_open(0));
    let mut a: Vec<(String, String)> = Vec::new();
    push_attr(&mut a, "type", lit("HYPERLINK"));
    assert(attrs_view(a@) =~= seq![("type"@, "HYPERLINK"@)]);
    emit(out, XmlOut::Empty { name: lit("hp:fieldEnd"), attrs: a });
    emit(out, ev_end("hp:run"));
    assert(outs_view(out@) =~= o + field_end_evs());
}

/// Runs for `inlines`, consecutive inlines with the same link grouped in one
/// HYPERLINK field.
pub fn write_inlines(out: &mut Vec<XmlOut>, inlines: &Vec<Inline>, tables: &RefTables)
    ensures
        outs_view(final(out)@) == outs_view(old(out)@) + inlines_evs(inlines_view(inlines@), tables),
{
    let ghost goal = outs_view(out@) + inlines_evs(inlines_view(inlines@), tables);
    let ghost s = inlines_view(inlines@);
    let mut i: usize = 0;
    // The link of the field that is open, if any.
    let mut open: Option<String> = None;
    assert(s.subrange(0, s.len() as int) == s);
    while i < inlines.len()
        invariant
            0 <= i <= inlines.len(),
            s == inlines_view(inlines@),
            match open {
                None => outs_view(out@) + inlines_evs(s.subrange(i as int, s.len() as int), tables) == goal,
                Some(u) => {
                    &&& i < inlines.len()
                    &&& s[i as int].link == Some(u@)
                    &&& outs_view(out@) + link_group_evs(s.subrange(i as int, s.len() as int), u@, tables) == goal
                },
            },
        decreases inlines.len() - i, if open is None { 1nat } else { 0nat },
    {
        let ghost rest = s.subrange(i as int, s.len() as int);
        assert(rest[0] == inlines@[i as int]@);
        assert(rest.drop_first() == s.subrange(i + 1, s.len() as int));
        match open {
            None => match &inlines[i].link {
                None => {
                    write_inline_run(out, &inlines[i], tables);
                    i = i + 1;
                    assert(outs_view(out@) + inlines_evs(s.subrange(i as int, s.len() as int), tables) =~= goal);
                },
                Some(url) => {
                    write_field_begin(out, url);
                    assert(outs_view(out@) + link_group_evs(rest, url@, tables) =~= goal);
                    open = Some(url.clone());
                },
            },
            Some(u) => {
                write_inline_run(out, &inlines[i], tables);
                i = i + 1;
                let same = i < inlines.len() && match &inlines[i].link {
                    Some(l) => crate::text::str_eq(l.as_str(), u.as_str()),
                    None => false,
                };
                if same {
                    assert(rest.drop_first()[0] == inlines@[i as int]@);
                    assert(outs_view(out@) + link_group_evs(s.subrange(i as int, s.len() as int), u@, tables) =~= goal);
                    open = Some(u);
                } else {
                    write_field_end(out);
                    assert(outs_view(out@) + inlines_evs(s.subrange(i as int, s.len() as int), tables) =~= goal);
                    open = None;
                }
            },
        }
    }
    assert(s.subrange(i as int, s.len() as int) =~= Seq::<InlineV>::empty());
    assert(outs_view(out@) =~= goal);
}

} // verus!

verus! {

// ---------------------------------------------------------------------------
// Paragraph counts of prefixes
// ---------------------------------------------------------------------------

pub proof fn lemma_blocks_count_prefix(s: Seq<BlockV>, i: int, qd: nat)
    requires
        0 <= i <= s.len(),
    ensures
        blocks_count(s.take(i), qd) <= blocks_count(s, qd),
    decreases s.len(),
{
    if i < s.len() {
        assert(s.drop_last().take(i) == s.take(i));
        lemma_blocks_count_prefix(s.drop_last(), i, qd);
    } else {
        assert(s.take(i) == s);
    }
}

pub proof fn lemma_rows_count_prefix(s: Seq<TableRowV>, i: int, qd: nat)
    requires
        0 <= i <= s.len(),
    ensures
        rows_count(s.take(i), qd) <= rows_count(s, qd),
    decreases s.len(),
{
    if i < s.len() {
        assert(s.drop_last().take(i) == s.take(i));
        lemma_rows_count_prefix(s.drop_last(), i, qd);
    } else {
        assert(s.take(i) == s);
    }
}

pub proof fn lemma_cells_count_prefix(s: Seq<TableCellV>, i: int, qd: nat)
    requires
        0 <= i <= s.len(),
    ensures
        cells_count(s.take(i), qd) <= cells_count(s, qd),
    decreases s.len(),
{
    if i < s.len() {
        assert(s.drop_last().take(i) == s.take(i));
        lemma_cells_count_prefix(s.drop_last(), i, qd);
    } else {
        assert(s.take(i) == s);
    }
}

pub proof fn lemma_items_count_prefix(s: Seq<ListItemV>, i: int, qd: nat, ld: nat)
    requires
        0 <= i <= s.len(),
    ensures
        items_count(s.take(i), qd, ld) <= items_count(s, qd, ld),
    decreases s.len(),
{
    if i < s.len() {
        assert(s.drop_last().take(i) == s.take(i));
        lemma_items_count_prefix(s.drop_last(), i, qd, ld);
    } else {
        assert(s.take(i) == s);
    }
}

pub proof fn lemma_item_blocks_count_prefix(s: Seq<BlockV>, i: int, qd: nat, ld: nat)
    requires
        0 <= i <= s.len(),
    ensures
        item_blocks_count(s.take(i), qd, ld) <= item_blocks_count(s, qd, ld),
    decreases s.len(),
{
    if i < s.len() {
        assert(s.drop_last().take(i) == s.take(i));
        lemma_item_blocks_count_prefix(s.drop_last(), i, qd, ld);
    } else {
        assert(s.take(i) == s);
    }
}

// ---------------------------------------------------------------------------
// Blocks
// ---------------------------------------------------------------------------

/// `collapse_dashes` on characters.
pub fn collapse_dashes_of(s: &Vec<char>) -> (res: Vec<char>)
    ensures
        res@ == collapse_dashes(s@),
{
    let mut out: Vec<char> = Vec::new();
    let mut i: usize = 0;
    assert(s@.subrange(0, s.len() as int) == s@);
    while i < s.len()
        invariant
            0 <= i <= s.len(),
            out@ + collapse_dashes(s@.subrange(i as int, s.len() as int)) == collapse_dashes(s@),
        decreases s.len() - i,
    {
        let ghost rest = s@.subrange(i as int, s.len() as int);
        if i + 1 < s.len() && s[i] == '-' && s[i + 1] == '-' {
            assert(rest.subrange(2, rest.len() as int) == s@.subrange(i + 2, s.len() as int));
            out.push('-');
            i = i + 2;
            assert(out@ + collapse_dashes(s@.subrange(i as int, s.len() as int)) =~= collapse_dashes(s@));
        } else {
            assert(rest.drop_first() == s@.subrange(i + 1, s.len() as int));
            assert(rest[0] == s@[i as int]);
            out.push(s[i]);
            i = i + 1;
            assert(out@ + collapse_dashes(s@.subrange(i as int, s.len() as int)) =~= collapse_dashes(s@));
        }
    }
    assert(s@.subrange(i as int, s.len() as int) =~= Seq::<char>::empty());
    assert(out@ =~= collapse_dashes(s@));
    out
}

fn lang_comment_of(language: &Option<String>) -> (res: String)
    ensures
        res@ == lang_comment(crate::ir::opt_str_view(*language)),
{
    let raw: Vec<char> = match language {
        Some(l) => crate::text::chars_vec(l.as_str()),
        None => Vec::new(),
    };
    let mut s = lit(" hwp2md:lang:");
    crate::text::push_chars(&mut s, &collapse_dashes_of(&raw));
    crate::text::push_str(&mut s, " ");
    s
}

fn image_ref(amap: &ImageAssetMap, src: &String) -> (res: String)
    ensures
        res@ == (match map_get(attrs_view(amap@), src@) { Some(e) => e, None => src@ }),
{
    let ghost m = attrs_view(amap@);
    let mut i: usize = 0;
    assert(m.subrange(0, m.len() as int) == m);
    while i < amap.len()
        invariant
            0 <= i <= amap.len(),
            m == attrs_view(amap@),
            map_get(m, src@) == map_get(m.subrange(i as int, m.len() as int), src@),
        decreases amap.len() - i,
    {
        assert(m.subrange(i as int, m.len() as int).drop_first() == m.subrange(i + 1, m.len() as int));
        if amap[i].0 == *src {
            return amap[i].1.clone();
        }
        i = i + 1;
    }
    src.clone()
}

/// The widest row of `rows`.
pub fn max_row_cells(rows: &Vec<TableRow>) -> (res: usize)
    ensures
        res as nat == max_cells(rows_view(rows@)),
{
    let mut m: usize = 0;
    let mut i: usize = 0;
    assert(rows_view(rows@.take(0)) == Seq::<TableRowV>::empty());
    while i < rows.len()
        invariant
            0 <= i <= rows.len(),
            m as nat == max_cells(rows_view(rows@.take(i as int))),
        decreases rows.len() - i,
    {
        proof {
            lemma_rows_view_push(rows@.take(i as int), rows@[i as int]);
            assert(rows@.take(i + 1) == rows@.take(i as int).push(rows@[i as int]));
            assert(rows_view(rows@.take(i + 1)).drop_last() == rows_view(rows@.take(i as int)));
            assert(rows@[i as int]@.cells.len() == rows@[i as int].cells@.len());
        }
        if rows[i].cells.len() > m {
            m = rows[i].cells.len();
        }
        i = i + 1;
    }
    assert(rows@.take(rows.len() as int) == rows@);
    m
}

pub fn ev_empty(name: &str, a: Vec<(String, String)>) -> (res: XmlOut)
    ensures
        res@ == em(name@, attrs_view(a@)),
{
    XmlOut::Empty { name: lit(name), attrs: a }
}

pub fn attrs4(k1: &str, v1: String, k2: &str, v2: String, k3: &str, v3: String, k4: &str, v4: String) -> (res: Vec<(String, String)>)
    ensures
        attrs_view(res@) == seq![(k1@, v1@), (k2@, v2@), (k3@, v3@), (k4@, v4@)],
{
    let mut a: Vec<(String, String)> = Vec::new();
    push_attr(&mut a, k1, v1);
    push_attr(&mut a, k2, v2);
    push_attr(&mut a, k3, v3);
    push_attr(&mut a, k4, v4);
    assert(attrs_view(a@) =~= seq![(k1@, v1@), (k2@, v2@), (k3@, v3@), (k4@, v4@)]);
    a
}

pub fn attrs2(k1: &str, v1: String, k2: &str, v2: String) -> (res: Vec<(String, String)>)
    ensures
        attrs_view(res@) == seq![(k1@, v1@), (k2@, v2@)],
{
    let mut a: Vec<(String, String)> = Vec::new();
    push_attr(&mut a, k1, v1);
    push_attr(&mut a, k2, v2);
    assert(attrs_view(a@) =~= seq![(k1@, v1@), (k2@, v2@)]);
    a
}

pub fn attrs1(k1: &str, v1: String) -> (res: Vec<(String, String)>)
    ensures
        attrs_view(res@) == seq![(k1@, v1@)],
{
    let mut a: Vec<(String, String)> = Vec::new();
    push_attr(&mut a, k1, v1);
    assert(attrs_view(a@) =~= seq![(k1@, v1@)]);
    a
}

/// An image paragraph: `<hp:pic>` holding `<hp:img>` that refers to the
/// embedded entry of `src` (or to `src` itself when it was not embedded).
fn write_image(out: &mut Vec<XmlOut>, src: &String, alt: &String, id: u32, ppr: &str, asset_map: &ImageAssetMap)
    ensures
        outs_view(final(out)@) == outs_view(old(out)@) + seq![
            p_open(id as nat, ppr@),
            run_open(0),
            st0("hp:pic"@),
            em(
                "hp:img"@,
                seq![
                    ("hp:binaryItemIDRef"@, match map_get(attrs_view(asset_map@), src@) { Some(e) => e, None => src@ }),
                    ("alt"@, alt@),
                ],
            ),
            en("hp:pic"@),
            en("hp:run"@),
            en("hp:p"@),
        ],
{
    let ghost o = outs_view(out@);
    let bin_ref = image_ref(asset_map, src);
    let ghost br = bin_ref@;
    let a = attrs2("hp:binaryItemIDRef", bin_ref, "alt", alt.clone());
    let e1 = ev_p_open(id, ppr);
    let e2 = ev_run_open(0);
    let e3 = ev_start0("hp:pic");
    let e4 = ev_empty("hp:img", a);
    let e5 = ev_end("hp:pic");
    let e6 = ev_end("hp:run");
    let e7 = ev_end("hp:p");
    let ghost evs = seq![e1@, e2@, e3@, e4@, e5@, e6@, e7@];
    assert(e1@ == p_open(id as nat, ppr@));
    assert(e2@ == run_open(0));
    assert(e3@ == st0("hp:pic"@));
    assert(e5@ == en("hp:pic"@));
    assert(e7@ == en("hp:p"@));
    assert(attrs_view(a@) == seq![
                    ("hp:binaryItemIDRef"@, match map_get(attrs_view(asset_map@), src@) { Some(e) => e, None => src@ }),
                    ("alt"@, alt@),
                ]);
    emit(out, e1);
    emit(out, e2);
    emit(out, e3);
    emit(out, e4);
    emit(out, e5);
    emit(out, e6);
    emit(out, e7);
    assert(outs_view(out@) =~= o + evs);
}

/// `<hp:tbl …>`, `<hp:tblPr>`, `<hp:sz>`, `<hp:pos>`.
pub fn write_table_head(out: &mut Vec<XmlOut>, rows: &Vec<TableRow>, col_count: usize, tables: &RefTables)
    ensures
        outs_view(final(out)@) == outs_view(old(out)@) + table_head(rows_view(rows@), col_count, tables),
{
    let ghost o = outs_view(out@);
    let cc: usize = if col_count > 0 { col_count } else { max_row_cells(rows) };
    let n = rows.len();
    emit(out, XmlOut::Start {
        name: lit("hp:tbl"),
        attrs: attrs4(
            "rowCnt", dec_string(n as u128),
            "colCnt", dec_string(cc as u128),
            "borderFillIDRef", dec_string(tables.table_border_fill_id as u128),
            "noAdjust", lit("0"),
        ),
    });
    emit(out, ev_start0("hp:tblPr"));
    emit(out, ev_empty("hp:inMargin", attrs4("left", lit("141"), "right", lit("141"), "top", lit("141"), "bottom", lit("141"))));
    emit(out, ev_end("hp:tblPr"));
    emit(out, ev_empty("hp:sz", attrs2("width", dec_string((cc as u128) * 8000), "height", dec_string((n as u128) * 1000))));
    emit(out, ev_empty("hp:pos", attrs1("treatAsChar", lit("1"))));
    assert(rows_view(rows@).len() == rows@.len());
    assert(outs_view(out@) =~= o + table_head(rows_view(rows@), col_count, tables));
}

#[verifier::rlimit(50)]
pub fn write_block(
    out: &mut Vec<XmlOut>,
    block: &Block,
    tables: &RefTables,
    para_id: &mut u32,
    quote_depth: u32,
    asset_map: &ImageAssetMap,
)
    requires
        quote_depth <= MAX_QUOTE_DEPTH,
        *old(para_id) + block_count(block@, quote_depth as nat) <= u32::MAX,
    ensures
        outs_view(final(out)@) == outs_view(old(out)@)
            + block_evs(block@, tables, *old(para_id) as nat, quote_depth as nat, attrs_view(asset_map@)),
        *final(para_id) == *old(para_id) + block_count(block@, quote_depth as nat),
    decreases block,
{
    let ghost o = outs_view(out@);
    let ghost pid = *para_id as nat;
    let ghost qd = quote_depth as nat;
    let ghost amap = attrs_view(asset_map@);
    let ppr: &str = if quote_depth > 0 { "1" } else { "0" };
    assert(ppr@ == para_pr(qd));
    match block {
        Block::Heading { level, inlines } => {
            let style_id: u8 = if *level < 1 { 1 } else if *level > 6 { 6 } else { *level };
            let heading_ppr: &str = if quote_depth > 0 { ppr } else { PARA_PR_HEADING };
            let a = {
                let mut a: Vec<(String, String)> = Vec::new();
                push_attr(&mut a, "id", dec_string(*para_id as u128));
                push_attr(&mut a, "hp:styleIDRef", dec_string(style_id as u128));
                push_attr(&mut a, "paraPrIDRef", lit(heading_ppr));
                assert(attrs_view(a@) =~= seq![
                    ("id"@, dec_chars(pid)),
                    ("hp:styleIDRef"@, dec_chars(clamp_style(*level))),
                    ("paraPrIDRef"@, if qd > 0 { para_pr(qd) } else { PARA_PR_HEADING@ }),
                ]);
                a
            };
            *para_id = *para_id + 1;
            emit(out, XmlOut::Start { name: lit("hp:p"), attrs: a });
            let ghost o2 = outs_view(out@);
            write_inlines(out, inlines, tables);
            emit(out, ev_end("hp:p"));
            assert(outs_view(out@) =~= o + block_evs(block@, tables, pid, qd, amap));
        },
        Block::Paragraph { inlines } => {
            emit(out, ev_p_open(*para_id, ppr));
            *para_id = *para_id + 1;
            write_inlines(out, inlines, tables);
            emit(out, ev_end("hp:p"));
            assert(outs_view(out@) =~= o + block_evs(block@, tables, pid, qd, amap));
        },
        Block::Table { rows, col_count } => {
            emit(out, ev_p_open(*para_id, ppr));
            *para_id = *para_id + 1;
            emit(out, ev_run_open(0));
            write_table_head(out, rows, *col_count, tables);
            write_rows(out, rows, tables, para_id, quote_depth, asset_map);
            emit(out, ev_end("hp:tbl"));
            emit(out, ev_end("hp:run"));
            emit(out, ev_end("hp:p"));
            assert(outs_view(out@) =~= o + block_evs(block@, tables, pid, qd, amap));
        },
        Block::CodeBlock { language, code } => {
            emit(out, XmlOut::Comment { text: lang_comment_of(language) });
            emit(out, ev_p_open(*para_id, ppr));
            *para_id = *para_id + 1;
            emit(out, ev_run_open(tables.code_block_char_pr_id()));
            write_t(out, code.clone());
            emit(out, ev_end("hp:run"));
            emit(out, ev_end("hp:p"));
            assert(outs_view(out@) =~= o + block_evs(block@, tables, pid, qd, amap));
        },
        Block::BlockQuote { blocks } => {
            if quote_depth >= MAX_QUOTE_DEPTH {
                assert(outs_view(out@) =~= o + block_evs(block@, tables, pid, qd, amap));
                return;
            }
            write_blocks(out, blocks, tables, para_id, quote_depth + 1, asset_map);
        },
        Block::List { items, ordered, .. } => {
            write_list_items(out, items, *ordered, tables, para_id, quote_depth, 0, asset_map);
        },
        Block::Image { src, alt } => {
            write_image(out, src, alt, *para_id, ppr, asset_map);
            *para_id = *para_id + 1;
            assert(outs_view(out@) =~= o + block_evs(block@, tables, pid, qd, amap));
        },
        Block::HorizontalRule => {
            emit(out, ev_p_open(*para_id, ppr));
            *para_id = *para_id + 1;
            emit(out, ev_run_open(0));
            write_t(out, lit("\u{2500}\u{2500}\u{2500}\u{2500}\u{2500}\u{2500}\u{2500}\u{2500}\u{2500}\u{2500}\u{2500}\u{2500}\u{2500}\u{2500}\u{2500}\u{2500}\u{2500}\u{2500}\u{2500}"));
            emit(out, ev_end("hp:run"));
            emit(out, ev_end("hp:p"));
            assert(outs_view(out@) =~= o + block_evs(block@, tables, pid, qd, amap));
        },
        Block::PageBreak => {
            emit(out, ev_p_open(*para_id, ppr));
            *para_id = *para_id + 1;
            emit(out, ev_run_open(0));
            emit(out, ev_empty("hp:ctrl", attrs1("id", lit("newPage"))));
            emit(out, ev_end("hp:run"));
            emit(out, ev_end("hp:p"));
            assert(outs_view(out@) =~= o + block_evs(block@, tables, pid, qd, amap));
        },
        Block::Math { tex, .. } => {
            emit(out, ev_p_open(*para_id, ppr));
            *para_id = *para_id + 1;
            emit(out, ev_run_open(0));
            emit(out, ev_start0("hp:equation"));
            emit(out, XmlOut::Text { text: tex.clone() });
            emit(out, ev_end("hp:equation"));
            emit(out, ev_end("hp:run"));
            emit(out, ev_end("hp:p"));
            assert(outs_view(out@) =~= o + block_evs(block@, tables, pid, qd, amap));
        },
        Block::Footnote { id, content } => {
            emit(out, XmlOut::Start { name: lit("hp:fn"), attrs: attrs1("noteId", id.clone()) });
            write_blocks(out, content, tables, para_id, quote_depth, asset_map);
            emit(out, ev_end("hp:fn"));
            assert(outs_view(out@) =~= o + block_evs(block@, tables, pid, qd, amap));
        },
    }
}

pub fn write_blocks(
    out: &mut Vec<XmlOut>,
    blocks: &Vec<Block>,
    tables: &RefTables,
    para_id: &mut u32,
    quote_depth: u32,
    asset_map: &ImageAssetMap,
)
    requires
        quote_depth <= MAX_QUOTE_DEPTH,
        *old(para_id) + blocks_count(blocks_view(blocks@), quote_depth as nat) <= u32::MAX,
    ensures
        outs_view(final(out)@) == outs_view(old(out)@)
            + blocks_evs(blocks_view(blocks@), tables, *old(para_id) as nat, quote_depth as nat, attrs_view(asset_map@)),
        *final(para_id) == *old(para_id) + blocks_count(blocks_view(blocks@), quote_depth as nat),
    decreases blocks,
{
    let ghost o = outs_view(out@);
    let ghost pid0 = *para_id as nat;
    let ghost qd = quote_depth as nat;
    let ghost amap = attrs_view(asset_map@);
    let ghost all = blocks_view(blocks@);
    assert(blocks_view(blocks@.take(0)) == Seq::<BlockV>::empty());
    let mut i: usize = 0;
    while i < blocks.len()
        invariant
            0 <= i <= blocks.len(),
            quote_depth <= MAX_QUOTE_DEPTH,
            qd == quote_depth as nat,
            amap == attrs_view(asset_map@),
            all == blocks_view(blocks@),
            pid0 + blocks_count(all, qd) <= u32::MAX,
            outs_view(out@) == o + blocks_evs(blocks_view(blocks@.take(i as int)), tables, pid0, qd, amap),
            *para_id == pid0 + blocks_count(blocks_view(blocks@.take(i as int)), qd),
        decreases blocks.len() - i,
    {
        let ghost pre = blocks_view(blocks@.take(i as int));
        let ghost post = blocks_view(blocks@.take(i + 1));
        proof {
            lemma_blocks_view_push(blocks@.take(i as int), blocks@[i as int]);
            assert(blocks@.take(i + 1) == blocks@.take(i as int).push(blocks@[i as int]));
            assert(post.drop_last() == pre);
            assert(post.last() == blocks@[i as int]@);
            assert(blocks@.take(i + 1) == blocks@.take(i + 1));
            assert(all.take(i + 1) == post);
            lemma_blocks_count_prefix(all, i + 1, qd);
            assert(blocks_count(post, qd) == blocks_count(pre, qd) + block_count(blocks@[i as int]@, qd));
        }
        write_block(out, &blocks[i], tables, para_id, quote_depth, asset_map);
        assert(blocks_evs(post, tables, pid0, qd, amap)
            == blocks_evs(pre, tables, pid0, qd, amap) + block_evs(blocks@[i as int]@, tables, pid0 + blocks_count(pre, qd), qd, amap));
        i = i + 1;
    }
    assert(blocks@.take(blocks.len() as int) == blocks@);
}

pub fn write_rows(
    out: &mut Vec<XmlOut>,
    rows: &Vec<TableRow>,
    tables: &RefTables,
    para_id: &mut u32,
    quote_depth: u32,
    asset_map: &ImageAssetMap,
)
    requires
        quote_depth <= MAX_QUOTE_DEPTH,
        *old(para_id) + rows_count(rows_view(rows@), quote_depth as nat) <= u32::MAX,
    ensures
        outs_view(final(out)@) == outs_view(old(out)@)
            + rows_evs(rows_view(rows@), tables, *old(para_id) as nat, quote_depth as nat, attrs_view(asset_map@)),
        *final(para_id) == *old(para_id) + rows_count(rows_view(rows@), quote_depth as nat),
    decreases rows,
{
    let ghost o = outs_view(out@);
    let ghost pid0 = *para_id as nat;
    let ghost qd = quote_depth as nat;
    let ghost amap = attrs_view(asset_map@);
    let ghost all = rows_view(rows@);
    assert(rows_view(rows@.take(0)) == Seq::<TableRowV>::empty());
    let mut i: usize = 0;
    while i < rows.len()
        invariant
            0 <= i <= rows.len(),
            quote_depth <= MAX_QUOTE_DEPTH,
            qd == quote_depth as nat,
            amap == attrs_view(asset_map@),
            all == rows_view(rows@),
            pid0 + rows_count(all, qd) <= u32::MAX,
            outs_view(out@) == o + rows_evs(rows_view(rows@.take(i as int)), tables, pid0, qd, amap),
            *para_id == pid0 + rows_count(rows_view(rows@.take(i as int)), qd),
        decreases rows.len() - i,
    {
        let ghost pre = rows_view(rows@.take(i as int));
        let ghost post = rows_view(rows@.take(i + 1));
        proof {
            lemma_rows_view_push(rows@.take(i as int), rows@[i as int]);
            assert(rows@.take(i + 1) == rows@.take(i as int).push(rows@[i as int]));
            assert(post.drop_last() == pre);
            assert(post.last() == rows@[i as int]@);
            assert(all.take(i + 1) == post);
            lemma_rows_count_prefix(all, i + 1, qd);
            assert(rows_count(post, qd) == rows_count(pre, qd) + cells_count(cells_view(rows@[i as int].cells@), qd));
        }
        let ghost o2 = outs_view(out@);
        emit(out, ev_start0("hp:tr"));
        emit(out, ev_empty("hp:trHeight", attrs1("value", lit("1000"))));
        write_cells(out, &rows[i].cells, i, tables, para_id, quote_depth, asset_map);
        emit(out, ev_end("hp:tr"));
        assert(pre.len() == i);
        assert(rows_evs(post, tables, pid0, qd, amap) == rows_evs(pre, tables, pid0, qd, amap)
            + seq![st0("hp:tr"@), em("hp:trHeight"@, seq![("value"@, "1000"@)])]
            + cells_evs(cells_view(rows@[i as int].cells@), i as nat, tables, pid0 + rows_count(pre, qd), qd, amap)
            + seq![en("hp:tr"@)]);
        assert(outs_view(out@) =~= o + rows_evs(post, tables, pid0, qd, amap));
        i = i + 1;
    }
    assert(rows@.take(rows.len() as int) == rows@);
}

pub fn write_cells(
    out: &mut Vec<XmlOut>,
    cells: &Vec<TableCell>,
    row: usize,
    tables: &RefTables,
    para_id: &mut u32,
    quote_depth: u32,
    asset_map: &ImageAssetMap,
)
    requires
        quote_depth <= MAX_QUOTE_DEPTH,
        *old(para_id) + cells_count(cells_view(cells@), quote_depth as nat) <= u32::MAX,
    ensures
        outs_view(final(out)@) == outs_view(old(out)@)
            + cells_evs(cells_view(cells@), row as nat, tables, *old(para_id) as nat, quote_depth as nat, attrs_view(asset_map@)),
        *final(para_id) == *old(para_id) + cells_count(cells_view(cells@), quote_depth as nat),
    decreases cells,
{
    let ghost o = outs_view(out@);
    let ghost pid0 = *para_id as nat;
    let ghost qd = quote_depth as nat;
    let ghost amap = attrs_view(asset_map@);
    let ghost all = cells_view(cells@);
    assert(cells_view(cells@.take(0)) == Seq::<TableCellV>::empty());
    let mut i: usize = 0;
    while i < cells.len()
        invariant
            0 <= i <= cells.len(),
            quote_depth <= MAX_QUOTE_DEPTH,
            qd == quote_depth as nat,
            amap == attrs_view(asset_map@),
            all == cells_view(cells@),
            pid0 + cells_count(all, qd) <= u32::MAX,
            outs_view(out@) == o + cells_evs(cells_view(cells@.take(i as int)), row as nat, tables, pid0, qd, amap),
            *para_id == pid0 + cells_count(cells_view(cells@.take(i as int)), qd),
        decreases cells.len() - i,
    {
        let ghost pre = cells_view(cells@.take(i as int));
        let ghost post = cells_view(cells@.take(i + 1));
        proof {
            lemma_cells_view_push(cells@.take(i as int), cells@[i as int]);
            assert(cells@.take(i + 1) == cells@.take(i as int).push(cells@[i as int]));
            assert(post.drop_last() == pre);
            assert(post.last() == cells@[i as int]@);
            assert(all.take(i + 1) == post);
            lemma_cells_count_prefix(all, i + 1, qd);
            assert(cells_count(post, qd) == cells_count(pre, qd) + blocks_count(blocks_view(cells@[i as int].blocks@), qd));
        }
        let c = &cells[i];
        let cw: u128 = if c.colspan < 1 { 1 } else { c.colspan as u128 };
        let ch: u128 = if c.rowspan < 1 { 1 } else { c.rowspan as u128 };
        emit(out, ev_start0("hp:tc"));
        emit(out, ev_empty("hp:cellAddr", attrs2("colAddr", dec_string(i as u128), "rowAddr", dec_string(row as u128))));
        emit(out, ev_empty("hp:cellSpan", attrs2("colSpan", dec_string(c.colspan as u128), "rowSpan", dec_string(c.rowspan as u128))));
        emit(out, ev_empty("hp:cellSz", attrs2("width", dec_string(cw * 8000), "height", dec_string(ch * 1000))));
        emit(out, ev_empty("hp:cellMargin", attrs4("left", lit("510"), "right", lit("510"), "top", lit("141"), "bottom", lit("141"))));
        emit(out, ev_start0("hp:subList"));
        write_blocks(out, &c.blocks, tables, para_id, quote_depth, asset_map);
        emit(out, ev_end("hp:subList"));
        emit(out, ev_end("hp:tc"));
        assert(pre.len() == i);
        assert(outs_view(out@) =~= o + cells_evs(post, row as nat, tables, pid0, qd, amap));
        i = i + 1;
    }
    assert(cells@.take(cells.len() as int) == cells@);
}

/// List items as paragraphs carrying list indentation (and, for ordered
/// lists, the digit numbering).
pub fn write_list_items(
    out: &mut Vec<XmlOut>,
    items: &Vec<ListItem>,
    ordered: bool,
    tables: &RefTables,
    para_id: &mut u32,
    quote_depth: u32,
    list_depth: u32,
    asset_map: &ImageAssetMap,
)
    requires
        quote_depth <= MAX_QUOTE_DEPTH,
        list_depth <= MAX_LIST_DEPTH,
        *old(para_id) + items_count(items_view(items@), quote_depth as nat, list_depth as nat) <= u32::MAX,
    ensures
        outs_view(final(out)@) == outs_view(old(out)@)
            + items_evs(items_view(items@), ordered, tables, *old(para_id) as nat, quote_depth as nat, list_depth as nat, attrs_view(asset_map@)),
        *final(para_id) == *old(para_id) + items_count(items_view(items@), quote_depth as nat, list_depth as nat),
    decreases items,
{
    let ghost o = outs_view(out@);
    let ghost pid0 = *para_id as nat;
    let ghost qd = quote_depth as nat;
    let ghost ld = list_depth as nat;
    let ghost amap = attrs_view(asset_map@);
    let ghost all = items_view(items@);
    if list_depth >= MAX_LIST_DEPTH {
        assert(outs_view(out@) =~= o + items_evs(all, ordered, tables, pid0, qd, ld, amap));
        return;
    }
    assert(items_view(items@.take(0)) == Seq::<ListItemV>::empty());
    let mut i: usize = 0;
    while i < items.len()
        invariant
            0 <= i <= items.len(),
            quote_depth <= MAX_QUOTE_DEPTH,
            list_depth < MAX_LIST_DEPTH,
            ld == list_depth as nat,
            qd == quote_depth as nat,
            amap == attrs_view(asset_map@),
            all == items_view(items@),
            pid0 + items_count(all, qd, ld) <= u32::MAX,
            outs_view(out@) == o + items_evs(items_view(items@.take(i as int)), ordered, tables, pid0, qd, ld, amap),
            *para_id == pid0 + items_count(items_view(items@.take(i as int)), qd, ld),
        decreases items.len() - i,
    {
        let ghost pre = items_view(items@.take(i as int));
        let ghost post = items_view(items@.take(i + 1));
        proof {
            lemma_items_view_push(items@.take(i as int), items@[i as int]);
            assert(items@.take(i + 1) == items@.take(i as int).push(items@[i as int]));
            assert(post.drop_last() == pre);
            assert(post.last() == items@[i as int]@);
            assert(all.take(i + 1) == post);
            lemma_items_count_prefix(all, i + 1, qd, ld);
            assert(items_count(post, qd, ld) == items_count(pre, qd, ld) + item_count(items@[i as int]@, qd, ld));
        }
        write_list_item(out, &items[i], ordered, tables, para_id, quote_depth, list_depth, asset_map);
        assert(items_evs(post, ordered, tables, pid0, qd, ld, amap) == items_evs(pre, ordered, tables, pid0, qd, ld, amap)
            + item_evs(items@[i as int]@, ordered, tables, pid0 + items_count(pre, qd, ld), qd, ld, amap));
        i = i + 1;
    }
    assert(items@.take(items.len() as int) == items@);
}

pub fn write_list_item(
    out: &mut Vec<XmlOut>,
    item: &ListItem,
    ordered: bool,
    tables: &RefTables,
    para_id: &mut u32,
    quote_depth: u32,
    list_depth: u32,
    asset_map: &ImageAssetMap,
)
    requires
        quote_depth <= MAX_QUOTE_DEPTH,
        list_depth < MAX_LIST_DEPTH,
        *old(para_id) + item_count(item@, quote_depth as nat, list_depth as nat) <= u32::MAX,
    ensures
        outs_view(final(out)@) == outs_view(old(out)@)
            + item_evs(item@, ordered, tables, *old(para_id) as nat, quote_depth as nat, list_depth as nat, attrs_view(asset_map@)),
        *final(para_id) == *old(para_id) + item_count(item@, quote_depth as nat, list_depth as nat),
    decreases item,
{
    let ghost o = outs_view(out@);
    write_item_blocks(out, &item.blocks, item.checked, ordered, tables, para_id, quote_depth, list_depth, asset_map);
    if item.children.len() > 0 {
        write_list_items(out, &item.children, ordered, tables, para_id, quote_depth, list_depth + 1, asset_map);
    } else {
        assert(outs_view(out@) =~= outs_view(out@) + Seq::<XmlOutV>::empty());
    }
}

fn list_p_open_ev(id: u32, list_depth: u32, ordered: bool) -> (res: XmlOut)
    ensures
        res@ == list_p_open(id as nat, list_depth as nat, ordered),
{
    let mut a: Vec<(String, String)> = Vec::new();
    push_attr(&mut a, "id", dec_string(id as u128));
    push_attr(&mut a, "paraPrIDRef", lit(if list_depth == 0 { PARA_PR_LIST_D0 } else { PARA_PR_LIST_D1 }));
    let ghost a2 = attrs_view(a@);
    if ordered {
        push_attr(&mut a, "numPrIDRef", lit(NUM_PR_DIGIT));
    }
    assert(attrs_view(a@) =~= seq![("id"@, dec_chars(id as nat)), ("paraPrIDRef"@, list_ppr(list_depth as nat))]
        + if ordered { seq![("numPrIDRef"@, NUM_PR_DIGIT@)] } else { Seq::empty() });
    XmlOut::Start { name: lit("hp:p"), attrs: a }
}

#[verifier::spinoff_prover]
#[verifier::rlimit(60)]
pub fn write_item_blocks(
    out: &mut Vec<XmlOut>,
    blocks: &Vec<Block>,
    checked: Option<bool>,
    ordered: bool,
    tables: &RefTables,
    para_id: &mut u32,
    quote_depth: u32,
    list_depth: u32,
    asset_map: &ImageAssetMap,
)
    requires
        quote_depth <= MAX_QUOTE_DEPTH,
        list_depth < MAX_LIST_DEPTH,
        *old(para_id) + item_blocks_count(blocks_view(blocks@), quote_depth as nat, list_depth as nat) <= u32::MAX,
    ensures
        outs_view(final(out)@) == outs_view(old(out)@)
            + item_blocks_evs(blocks_view(blocks@), checked, ordered, tables, *old(para_id) as nat, quote_depth as nat, list_depth as nat, attrs_view(asset_map@)),
        *final(para_id) == *old(para_id) + item_blocks_count(blocks_view(blocks@), quote_depth as nat, list_depth as nat),
    decreases blocks,
{
    let ghost o = outs_view(out@);
    let ghost pid0 = *para_id as nat;
    let ghost qd = quote_depth as nat;
    let ghost ld = list_depth as nat;
    let ghost amap = attrs_view(asset_map@);
    let ghost all = blocks_view(blocks@);
    assert(blocks_view(blocks@.take(0)) == Seq::<BlockV>::empty());
    let mut i: usize = 0;
    while i < blocks.len()
        invariant
            0 <= i <= blocks.len(),
            quote_depth <= MAX_QUOTE_DEPTH,
            list_depth < MAX_LIST_DEPTH,
            ld == list_depth as nat,
            qd == quote_depth as nat,
            amap == attrs_view(asset_map@),
            all == blocks_view(blocks@),
            pid0 + item_blocks_count(all, qd, ld) <= u32::MAX,
            outs_view(out@) == o + item_blocks_evs(blocks_view(blocks@.take(i as int)), checked, ordered, tables, pid0, qd, ld, amap),
            *para_id == pid0 + item_blocks_count(blocks_view(blocks@.take(i as int)), qd, ld),
        decreases blocks.len() - i,
    {
        let ghost pre = blocks_view(blocks@.take(i as int));
        let ghost post = blocks_view(blocks@.take(i + 1));
        proof {
            lemma_blocks_view_push(blocks@.take(i as int), blocks@[i as int]);
            assert(blocks@.take(i + 1) == blocks@.take(i as int).push(blocks@[i as int]));
            assert(post.drop_last() == pre);
            assert(post.last() == blocks@[i as int]@);
            assert(all.take(i + 1) == post);
            lemma_item_blocks_count_prefix(all, i + 1, qd, ld);
            assert(item_blocks_count(post, qd, ld) == item_blocks_count(pre, qd, ld) + match blocks@[i as int]@ {
                BlockV::Paragraph { .. } => 1,
                BlockV::List { items, .. } => items_count(items, qd, ld + 1),
                other => block_count(other, qd),
            });
        }
        let ghost o2 = outs_view(out@);
        match &blocks[i] {
            Block::Paragraph { inlines } => {
                emit(out, list_p_open_ev(*para_id, list_depth, ordered));
                *para_id = *para_id + 1;
                let ghost o3 = outs_view(out@);
                match checked {
                    Some(c) => {
                        let checkbox = Inline::plain(if c { "\u{2611} " } else { "\u{2610} " });
                        write_inline_run(out, &checkbox, tables);
                    },
                    None => {},
                }
                assert(outs_view(out@) =~= o3 + checkbox_evs(checked, tables));
                write_inlines(out, inlines, tables);
                emit(out, ev_end("hp:p"));
                assert(outs_view(out@) =~= o + item_blocks_evs(post, checked, ordered, tables, pid0, qd, ld, amap));
            },
            Block::List { items, ordered: sub_ordered, .. } => {
                write_list_items(out, items, *sub_ordered, tables, para_id, quote_depth, list_depth + 1, asset_map);
                assert(outs_view(out@) =~= o + item_blocks_evs(post, checked, ordered, tables, pid0, qd, ld, amap));
            },
            other => {
                write_block(out, other, tables, para_id, quote_depth, asset_map);
                assert(outs_view(out@) =~= o + item_blocks_evs(post, checked, ordered, tables, pid0, qd, ld, amap));
            },
        }
        i = i + 1;
    }
    assert(blocks@.take(blocks.len() as int) == blocks@);
}

} // verus!

verus! {

// ---------------------------------------------------------------------------
// Page layout and the whole section
// ---------------------------------------------------------------------------

/// The page layout of the style template, or nothing given.
pub open spec fn style_layout(style: Option<crate::style::StyleTemplate>) -> PageLayout {
    match style {
        Some(s) => PageLayout {
            width: s.page.width,
            height: s.page.height,
            landscape: match s.page.landscape { Some(b) => b, None => false },
            margin_left: s.page.margin.left,
            margin_right: s.page.margin.right,
            margin_top: s.page.margin.top,
            margin_bottom: s.page.margin.bottom,
        },
        None => PageLayout {
            width: None,
            height: None,
            landscape: false,
            margin_left: None,
            margin_right: None,
            margin_top: None,
            margin_bottom: None,
        },
    }
}

pub open spec fn or_default(o: Option<u32>, d: u32) -> nat {
    match o { Some(v) => v as nat, None => d as nat }
}

/// `<hp:secPr>` with page orientation, margins and size; missing values are
/// A4 portrait defaults.
pub open spec fn sec_pr_evs(l: PageLayout) -> Seq<XmlOutV> {
    seq![
        st0("hp:secPr"@),
        st("hp:pagePr"@, seq![("landscape"@, if l.landscape { "true"@ } else { "false"@ })]),
        em(
            "hp:margin"@,
            seq![
                ("left"@, dec_chars(or_default(l.margin_left, 5670))),
                ("right"@, dec_chars(or_default(l.margin_right, 5670))),
                ("top"@, dec_chars(or_default(l.margin_top, 4252))),
                ("bottom"@, dec_chars(or_default(l.margin_bottom, 4252))),
                ("header"@, "0"@),
                ("footer"@, "0"@),
                ("gutter"@, "0"@),
            ],
        ),
        em("hp:pageSize"@, seq![
            ("width"@, dec_chars(or_default(l.width, 59528))),
            ("height"@, dec_chars(or_default(l.height, 84188))),
        ]),
        en("hp:pagePr"@),
        en("hp:secPr"@),
    ]
}

/// The attributes of a start or empty element (none for other events).
pub open spec fn out_attrs(o: XmlOutV) -> AttrsV {
    match o {
        XmlOutV::Start { attrs, .. } => attrs,
        XmlOutV::Empty { attrs, .. } => attrs,
        _ => Seq::empty(),
    }
}

/// What the reader makes of the page setup that the writer emits for `l`,
/// starting from the reader's page state `p`.
pub open spec fn page_setup_read(l: PageLayout, p: crate::context::PageLayoutState) -> crate::context::PageLayoutState {
    let evs = sec_pr_evs(l);
    crate::context::page_size_of(
        crate::context::margin_of(crate::context::page_pr_of(p, out_attrs(evs[1])), out_attrs(evs[2])),
        out_attrs(evs[3]),
    )
}

proof fn lemma_not_in_pair(k: Seq<char>, a: Seq<char>, b: Seq<char>)
    requires
        k != a,
        k != b,
    ensures
        !seq![a, b].contains(k),
{
    assert forall|i: int| 0 <= i < 2 implies seq![a, b][i] != k by {
        if i == 0 {
            assert(seq![a, b][0] == a);
        } else {
            assert(seq![a, b][1] == b);
        }
    }
}

proof fn lemma_in_pair(a: Seq<char>, b: Seq<char>)
    ensures
        seq![a, b].contains(a),
{
    assert(seq![a, b][0] == a);
}

proof fn lemma_dec_u32(v: nat)
    requires
        v <= u32::MAX,
    ensures
        crate::text::parse_bounded(dec_chars(v), u32::MAX as nat) == Some(v),
{
    crate::text::law_decimal_reads_back(v, u32::MAX as nat);
}

/// The page setup that the writer emits reads back as the section's
/// layout: the reader's handling of the attributes of `<hp:pagePr>`,
/// `<hp:margin>` and `<hp:pageSize>` gives the orientation and every size,
/// with the A4 portrait defaults where the layout had none.
#[verifier::spinoff_prover]
#[verifier::rlimit(60)]
pub proof fn law_page_setup_reads_back(l: PageLayout, p: crate::context::PageLayoutState)
    ensures
        page_setup_read(l, p).landscape == l.landscape,
        page_setup_read(l, p).width == Some(or_default(l.width, 59528) as u32),
        page_setup_read(l, p).height == Some(or_default(l.height, 84188) as u32),
        page_setup_read(l, p).margin_left == Some(or_default(l.margin_left, 5670) as u32),
        page_setup_read(l, p).margin_right == Some(or_default(l.margin_right, 5670) as u32),
        page_setup_read(l, p).margin_top == Some(or_default(l.margin_top, 4252) as u32),
        page_setup_read(l, p).margin_bottom == Some(or_default(l.margin_bottom, 4252) as u32),
        page_setup_read(l, p).has_sec_pr == p.has_sec_pr,
{
    reveal_strlit("landscape");
    reveal_strlit("hp:landscape");
    reveal_strlit("true");
    reveal_strlit("false");
    reveal_strlit("1");
    reveal_strlit("0");
    reveal_strlit("left");
    reveal_strlit("hp:left");
    reveal_strlit("right");
    reveal_strlit("hp:right");
    reveal_strlit("top");
    reveal_strlit("hp:top");
    reveal_strlit("bottom");
    reveal_strlit("hp:bottom");
    reveal_strlit("header");
    reveal_strlit("footer");
    reveal_strlit("gutter");
    reveal_strlit("width");
    reveal_strlit("hp:width");
    reveal_strlit("height");
    reveal_strlit("hp:height");
    reveal_with_fuel(crate::attrs::last_u32_of, 8);
    reveal_with_fuel(crate::context::landscape_of, 2);
    lemma_dec_u32(or_default(l.margin_left, 5670));
    lemma_dec_u32(or_default(l.margin_right, 5670));
    lemma_dec_u32(or_default(l.margin_top, 4252));
    lemma_dec_u32(or_default(l.margin_bottom, 4252));
    lemma_dec_u32(or_default(l.width, 59528));
    lemma_dec_u32(or_default(l.height, 84188));
    assert("false"@.len() != "true"@.len() && "false"@.len() != "1"@.len());
    assert("left"@.len() == 4 && "hp:left"@.len() == 7 && "right"@.len() == 5 && "hp:right"@.len() == 8);
    assert("top"@.len() == 3 && "hp:top"@.len() == 6 && "bottom"@.len() == 6 && "hp:bottom"@.len() == 9);
    assert("gutter"@.len() == 6 && "footer"@.len() == 6 && "header"@.len() == 6);
    assert("width"@.len() == 5 && "hp:width"@.len() == 8 && "height"@.len() == 6);
    lemma_not_in_pair("gutter"@, "left"@, "hp:left"@);
    lemma_not_in_pair("footer"@, "left"@, "hp:left"@);
    lemma_not_in_pair("header"@, "left"@, "hp:left"@);
    lemma_not_in_pair("bottom"@, "left"@, "hp:left"@);
    lemma_not_in_pair("top"@, "left"@, "hp:left"@);
    lemma_not_in_pair("right"@, "left"@, "hp:left"@);
    lemma_not_in_pair("gutter"@, "right"@, "hp:right"@);
    lemma_not_in_pair("footer"@, "right"@, "hp:right"@);
    lemma_not_in_pair("header"@, "right"@, "hp:right"@);
    lemma_not_in_pair("bottom"@, "right"@, "hp:right"@);
    lemma_not_in_pair("top"@, "right"@, "hp:right"@);
    assert("gutter"@[0] != "hp:top"@[0] && "footer"@[0] != "hp:top"@[0] && "header"@[1] != "hp:top"@[1]);
    assert("bottom"@[0] != "hp:top"@[0]);
    lemma_not_in_pair("gutter"@, "top"@, "hp:top"@);
    lemma_not_in_pair("footer"@, "top"@, "hp:top"@);
    lemma_not_in_pair("header"@, "top"@, "hp:top"@);
    lemma_not_in_pair("bottom"@, "top"@, "hp:top"@);
    assert("gutter"@[0] != "bottom"@[0] && "footer"@[0] != "bottom"@[0] && "header"@[0] != "bottom"@[0]);
    lemma_not_in_pair("gutter"@, "bottom"@, "hp:bottom"@);
    lemma_not_in_pair("footer"@, "bottom"@, "hp:bottom"@);
    lemma_not_in_pair("header"@, "bottom"@, "hp:bottom"@);
    lemma_not_in_pair("height"@, "width"@, "hp:width"@);
    lemma_in_pair("left"@, "hp:left"@);
    lemma_in_pair("right"@, "hp:right"@);
    lemma_in_pair("top"@, "hp:top"@);
    lemma_in_pair("bottom"@, "hp:bottom"@);
    lemma_in_pair("width"@, "hp:width"@);
    lemma_in_pair("height"@, "hp:height"@);
    let evs = sec_pr_evs(l);
    let lv: Seq<char> = if l.landscape { "true"@ } else { "false"@ };
    let pr = out_attrs(evs[1]);
    let m = out_attrs(evs[2]);
    let sz = out_attrs(evs[3]);
    assert(pr == seq![("landscape"@, lv)]);
    assert(pr.drop_last() =~= Seq::<(Seq<char>, Seq<char>)>::empty());
    assert(crate::flush::bool_attr(lv, p.landscape) == l.landscape);
    assert(crate::context::landscape_of(pr, p.landscape) == l.landscape);
    let w = dec_chars(or_default(l.width, 59528));
    let h = dec_chars(or_default(l.height, 84188));
    assert(sz == seq![("width"@, w), ("height"@, h)]);
    assert(sz.drop_last() =~= seq![("width"@, w)]);
    assert(sz.drop_last().drop_last() =~= Seq::<(Seq<char>, Seq<char>)>::empty());
    let ml = dec_chars(or_default(l.margin_left, 5670));
    let mr = dec_chars(or_default(l.margin_right, 5670));
    let mt = dec_chars(or_default(l.margin_top, 4252));
    let mb = dec_chars(or_default(l.margin_bottom, 4252));
    let m4 = seq![("left"@, ml), ("right"@, mr), ("top"@, mt), ("bottom"@, mb)];
    assert(m == m4 + seq![("header"@, "0"@), ("footer"@, "0"@), ("gutter"@, "0"@)]);
    assert(m.drop_last().drop_last().drop_last() =~= m4);
    assert(m4.drop_last() =~= seq![("left"@, ml), ("right"@, mr), ("top"@, mt)]);
    assert(m4.drop_last().drop_last() =~= seq![("left"@, ml), ("right"@, mr)]);
    assert(m4.drop_last().drop_last().drop_last() =~= seq![("left"@, ml)]);
    assert(seq![("left"@, ml)].drop_last() =~= Seq::<(Seq<char>, Seq<char>)>::empty());
}

pub open spec fn has_blocks(o: Option<Seq<BlockV>>) -> bool {
    o is Some && o.unwrap().len() > 0
}

pub open spec fn header_count(s: crate::ir::SectionV) -> nat {
    if has_blocks(s.header) { blocks_count(s.header.unwrap(), 0) } else { 0 }
}

pub open spec fn footer_count(s: crate::ir::SectionV) -> nat {
    if has_blocks(s.footer) { blocks_count(s.footer.unwrap(), 0) } else { 0 }
}

/// One part of `<hp:headerFooter>`: its blocks inside `tag`, when it has any.
pub open spec fn part_evs(o: Option<Seq<BlockV>>, tag: Seq<char>, t: &RefTables, pid: nat, amap: AttrsV) -> Seq<XmlOutV> {
    if has_blocks(o) {
        seq![st0(tag)] + blocks_evs(o.unwrap(), t, pid, 0, amap) + seq![en(tag)]
    } else {
        Seq::empty()
    }
}

/// `<hp:headerFooter>` with its header and footer, when either has blocks.
/// Their paragraphs are numbered from 0, the footer's after the header's.
pub open spec fn header_footer_evs(s: crate::ir::SectionV, t: &RefTables, amap: AttrsV) -> Seq<XmlOutV> {
    if !(has_blocks(s.header) || has_blocks(s.footer)) {
        Seq::empty()
    } else {
        seq![st(
            "hp:headerFooter"@,
            match s.header_footer_type {
                Some(ty) => seq![("type"@, header_footer_type_str(ty))],
                None => Seq::empty(),
            },
        )] + part_evs(s.header, "hp:header"@, t, 0, amap)
            + part_evs(s.footer, "hp:footer"@, t, header_count(s), amap)
            + seq![en("hp:headerFooter"@)]
    }
}

pub open spec fn section_layout(s: crate::ir::SectionV, t: &RefTables) -> PageLayout {
    match s.page_layout {
        Some(l) => l,
        None => style_layout(t.style),
    }
}

/// The events of a whole section XML document.
pub open spec fn section_evs(s: crate::ir::SectionV, t: &RefTables, amap: AttrsV) -> Seq<XmlOutV> {
    seq![
        XmlOutV::Decl { version: "1.0"@, encoding: "UTF-8"@ },
        st(
            "hs:sec"@,
            seq![
                ("xmlns:hs"@, "http://www.hancom.co.kr/hwpml/2011/section"@),
                ("xmlns:hp"@, "http://www.hancom.co.kr/hwpml/2011/paragraph"@),
            ],
        ),
    ] + header_footer_evs(s, t, amap) + sec_pr_evs(section_layout(s, t)) + blocks_evs(s.blocks, t, 0, 0, amap)
        + seq![en("hs:sec"@)]
}

/// Paragraph IDs stay within `u32`.
pub open spec fn section_fits(s: crate::ir::SectionV) -> bool {
    header_count(s) + footer_count(s) <= u32::MAX && blocks_count(s.blocks, 0) <= u32::MAX
}

/// The page layout of the style template, or nothing given.
pub fn style_page_layout(tables: &RefTables) -> (res: PageLayout)
    ensures
        res == style_layout(tables.style),
{
    match &tables.style {
        Some(s) => PageLayout {
            width: s.page.width,
            height: s.page.height,
            landscape: match s.page.landscape { Some(b) => b, None => false },
            margin_left: s.page.margin.left,
            margin_right: s.page.margin.right,
            margin_top: s.page.margin.top,
            margin_bottom: s.page.margin.bottom,
        },
        None => PageLayout {
            width: None,
            height: None,
            landscape: false,
            margin_left: None,
            margin_right: None,
            margin_top: None,
            margin_bottom: None,
        },
    }
}

fn dec_or(o: Option<u32>, d: u32) -> (res: String)
    ensures
        res@ == dec_chars(or_default(o, d)),
{
    match o {
        Some(v) => dec_string(v as u128),
        None => dec_string(d as u128),
    }
}

pub fn write_sec_pr(out: &mut Vec<XmlOut>, layout: &PageLayout)
    ensures
        outs_view(final(out)@) == outs_view(old(out)@) + sec_pr_evs(*layout),
{
    let ghost o = outs_view(out@);
    let ghost l = *layout;
    let e1 = ev_start0("hp:secPr");
    let e2 = XmlOut::Start {
        name: lit("hp:pagePr"),
        attrs: attrs1("landscape", lit(if layout.landscape { "true" } else { "false" })),
    };
    assert(e2@ == st("hp:pagePr"@, seq![("landscape"@, if l.landscape { "true"@ } else { "false"@ })]));
    let mut m = attrs4(
        "left", dec_or(layout.margin_left, 5670),
        "right", dec_or(layout.margin_right, 5670),
        "top", dec_or(layout.margin_top, 4252),
        "bottom", dec_or(layout.margin_bottom, 4252),
    );
    push_attr(&mut m, "header", lit("0"));
    push_attr(&mut m, "footer", lit("0"));
    push_attr(&mut m, "gutter", lit("0"));
    assert(attrs_view(m@) =~= seq![
        ("left"@, dec_chars(or_default(l.margin_left, 5670))),
        ("right"@, dec_chars(or_default(l.margin_right, 5670))),
        ("top"@, dec_chars(or_default(l.margin_top, 4252))),
        ("bottom"@, dec_chars(or_default(l.margin_bottom, 4252))),
        ("header"@, "0"@),
        ("footer"@, "0"@),
        ("gutter"@, "0"@),
    ]);
    let e3 = ev_empty("hp:margin", m);
    let e4 = ev_empty("hp:pageSize", attrs2("width", dec_or(layout.width, 59528), "height", dec_or(layout.height, 84188)));
    let e5 = ev_end("hp:pagePr");
    let e6 = ev_end("hp:secPr");
    let ghost evs = seq![e1@, e2@, e3@, e4@, e5@, e6@];
    assert(evs =~= sec_pr_evs(*layout));
    emit(out, e1);
    emit(out, e2);
    emit(out, e3);
    emit(out, e4);
    emit(out, e5);
    emit(out, e6);
    assert(outs_view(out@) =~= o + evs);
}

fn write_part(
    out: &mut Vec<XmlOut>,
    part: &Option<Vec<Block>>,
    tag: &str,
    tables: &RefTables,
    para_id: &mut u32,
    asset_map: &ImageAssetMap,
)
    requires
        *old(para_id) + (if has_blocks(opt_blocks_view(*part)) {
            blocks_count(opt_blocks_view(*part).unwrap(), 0)
        } else {
            0
        }) <= u32::MAX,
    ensures
        outs_view(final(out)@) == outs_view(old(out)@)
            + part_evs(opt_blocks_view(*part), tag@, tables, *old(para_id) as nat, attrs_view(asset_map@)),
        *final(para_id) == *old(para_id) + (if has_blocks(opt_blocks_view(*part)) {
            blocks_count(opt_blocks_view(*part).unwrap(), 0)
        } else {
            0
        }),
{
    let ghost o = outs_view(out@);
    let ghost pid = *para_id;
    match part {
        Some(b) => {
            if b.len() > 0 {
                emit(out, ev_start0(tag));
                write_blocks(out, b, tables, para_id, 0, asset_map);
                emit(out, ev_end(tag));
                assert(outs_view(out@) =~= o + part_evs(opt_blocks_view(*part), tag@, tables, pid as nat, attrs_view(asset_map@)));
            } else {
                assert(outs_view(out@) =~= o + part_evs(opt_blocks_view(*part), tag@, tables, pid as nat, attrs_view(asset_map@)));
            }
        },
        None => {
            assert(outs_view(out@) =~= o + part_evs(opt_blocks_view(*part), tag@, tables, pid as nat, attrs_view(asset_map@)));
        },
    }
}

fn write_header_footer(out: &mut Vec<XmlOut>, section: &Section, tables: &RefTables, asset_map: &ImageAssetMap)
    requires
        header_count(section@) + footer_count(section@) <= u32::MAX,
    ensures
        outs_view(final(out)@) == outs_view(old(out)@) + header_footer_evs(section@, tables, attrs_view(asset_map@)),
{
    let ghost o = outs_view(out@);
    let ghost s = section@;
    let ghost amap = attrs_view(asset_map@);
    let has_header = match &section.header { Some(b) => b.len() > 0, None => false };
    let has_footer = match &section.footer { Some(b) => b.len() > 0, None => false };
    assert(has_header == has_blocks(s.header));
    assert(has_footer == has_blocks(s.footer));
    if !(has_header || has_footer) {
        assert(outs_view(out@) =~= o + header_footer_evs(s, tables, amap));
        return;
    }
    let mut a: Vec<(String, String)> = Vec::new();
    match &section.header_footer_type {
        Some(ty) => push_attr(&mut a, "type", lit(ty.as_str())),
        None => {},
    }
    assert(attrs_view(a@) =~= match s.header_footer_type {
        Some(ty) => seq![("type"@, header_footer_type_str(ty))],
        None => Seq::<(Seq<char>, Seq<char>)>::empty(),
    });
    emit(out, XmlOut::Start { name: lit("hp:headerFooter"), attrs: a });
    let ghost o1 = outs_view(out@);
    let mut para_id: u32 = 0;
    write_part(out, &section.header, "hp:header", tables, &mut para_id, asset_map);
    let ghost o2 = outs_view(out@);
    write_part(out, &section.footer, "hp:footer", tables, &mut para_id, asset_map);
    let ghost o3 = outs_view(out@);
    emit(out, ev_end("hp:headerFooter"));
    assert(outs_view(out@) =~= o + header_footer_evs(s, tables, amap));
}

/// The events of the section XML document.
pub fn section_events(section: &Section, tables: &RefTables, asset_map: &ImageAssetMap) -> (res: Vec<XmlOut>)
    requires
        section_fits(section@),
    ensures
        outs_view(res@) == section_evs(section@, tables, attrs_view(asset_map@)),
{
    let mut out: Vec<XmlOut> = Vec::new();
    let ghost s = section@;
    let ghost amap = attrs_view(asset_map@);
    emit(&mut out, XmlOut::Decl { version: lit("1.0"), encoding: lit("UTF-8") });
    emit(&mut out, XmlOut::Start {
        name: lit("hs:sec"),
        attrs: attrs2(
            "xmlns:hs", lit("http://www.hancom.co.kr/hwpml/2011/section"),
            "xmlns:hp", lit("http://www.hancom.co.kr/hwpml/2011/paragraph"),
        ),
    });
    let ghost o1 = outs_view(out@);
    write_header_footer(&mut out, section, tables, asset_map);
    let ghost o2 = outs_view(out@);
    let layout = match section.page_layout {
        Some(l) => l,
        None => style_page_layout(tables),
    };
    write_sec_pr(&mut out, &layout);
    let ghost o3 = outs_view(out@);
    let mut para_id: u32 = 0;
    write_blocks(&mut out, &section.blocks, tables, &mut para_id, 0, asset_map);
    let ghost o4 = outs_view(out@);
    emit(&mut out, ev_end("hs:sec"));
    assert(outs_view(out@) =~= section_evs(s, tables, amap));
    out
}

/// Section XML for `section`.  Image sources found in `asset_map` are
/// written as their embedded entry names.
pub fn generate_section_xml(section: &Section, index: usize, tables: &RefTables, asset_map: &ImageAssetMap) -> (res: Result<String, crate::error::HwpxError>)
    requires
        section_fits(section@),
    ensures
        match res {
            Ok(x) => crate::xml::xml_written(section_evs(section@, tables, attrs_view(asset_map@))) == Some(x@),
            Err(_) => crate::xml::xml_written(section_evs(section@, tables, attrs_view(asset_map@))) is None,
        },
{
    let events = section_events(section, tables, asset_map);
    match crate::xml::render(&events) {
        Some(x) => Ok(x),
        None => Err(crate::error::HwpxError::HwpxWrite(lit("section XML could not be written"))),
    }
}

} // verus!
