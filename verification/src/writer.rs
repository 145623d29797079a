//! Reference tables for the HWPX writer: the character-property entries and
//! the font faces that a document uses, each entry identified by its position.
use vstd::prelude::*;
use crate::ir::{
    clone_opt, lemma_blocks_view_push, lemma_cells_view_push, lemma_items_view_push, lemma_rows_view_push,
    opt_str_view, Block, BlockV, Inline, InlineV, ListItem, ListItemV, Section, SectionV, TableCell,
    TableCellV, TableRow, TableRowV, blocks_view, cells_view, inlines_view, items_view, rows_view,
};
use crate::style::StyleTemplate;

verus! {

// ---------------------------------------------------------------------------
// Character-property keys
// ---------------------------------------------------------------------------

/// One unique character-formatting combination.  Entry 0 of the table is
/// always the plain key.
#[derive(Debug, Clone, PartialEq)]
pub struct CharPrKey {
    pub bold: bool,
    pub italic: bool,
    pub underline: bool,
    pub strikethrough: bool,
    pub code: bool,
    pub superscript: bool,
    pub subscript: bool,
    pub color: Option<String>,
    pub font_name: Option<String>,
    pub height: u32,
}

pub ghost struct CharPrKeyV {
    pub bold: bool,
    pub italic: bool,
    pub underline: bool,
    pub strikethrough: bool,
    pub code: bool,
    pub superscript: bool,
    pub subscript: bool,
    pub color: Option<Seq<char>>,
    pub font_name: Option<Seq<char>>,
    pub height: u32,
}

impl View for CharPrKey {
    type V = CharPrKeyV;

    open spec fn view(&self) -> CharPrKeyV {
        CharPrKeyV {
            bold: self.bold,
            italic: self.italic,
            underline: self.underline,
            strikethrough: self.strikethrough,
            code: self.code,
            superscript: self.superscript,
            subscript: self.subscript,
            color: opt_str_view(self.color),
            font_name: opt_str_view(self.font_name),
            height: self.height,
        }
    }
}

pub open spec fn plain_key() -> CharPrKeyV {
    CharPrKeyV {
        bold: false,
        italic: false,
        underline: false,
        strikethrough: false,
        code: false,
        superscript: false,
        subscript: false,
        color: None,
        font_name: None,
        height: 1000,
    }
}

/// The key of an inline: inline code is shown in the code font.
pub open spec fn key_of_inline(i: InlineV, code_font: Seq<char>) -> CharPrKeyV {
    CharPrKeyV {
        bold: i.bold,
        italic: i.italic,
        underline: i.underline,
        strikethrough: i.strikethrough,
        code: i.code,
        superscript: i.superscript,
        subscript: i.subscript,
        color: i.color,
        font_name: if i.code { Some(code_font) } else { i.font_name },
        height: 1000,
    }
}

pub open spec fn code_block_key(code_font: Seq<char>) -> CharPrKeyV {
    CharPrKeyV { code: true, font_name: Some(code_font), ..plain_key() }
}

/// Font height of a heading, indexed by its level clamped to 1..=6.
pub open spec fn heading_height(level: u8) -> u32 {
    if level <= 1 {
        2400
    } else if level == 2 {
        2000
    } else if level == 3 {
        1600
    } else if level == 4 {
        1400
    } else if level == 5 {
        1200
    } else {
        1000
    }
}

pub open spec fn heading_key(level: u8) -> CharPrKeyV {
    CharPrKeyV { bold: true, height: heading_height(level), ..plain_key() }
}

pub fn opt_str_eq(a: &Option<String>, b: &Option<String>) -> (res: bool)
    ensures
        res == (opt_str_view(*a) == opt_str_view(*b)),
{
    match (a, b) {
        (Some(x), Some(y)) => crate::text::str_eq(x.as_str(), y.as_str()),
        (None, None) => true,
        _ => false,
    }
}

impl CharPrKey {
    pub fn plain() -> (res: Self)
        ensures
            res@ == plain_key(),
    {
        CharPrKey {
            bold: false,
            italic: false,
            underline: false,
            strikethrough: false,
            code: false,
            superscript: false,
            subscript: false,
            color: None,
            font_name: None,
            height: 1000,
        }
    }

    pub fn from_inline(inline: &Inline, code_font: &str) -> (res: Self)
        ensures
            res@ == key_of_inline(inline@, code_font@),
    {
        let font_name = if inline.code {
            Some(crate::text::str_to_string(code_font))
        } else {
            clone_opt(&inline.font_name)
        };
        CharPrKey {
            bold: inline.bold,
            italic: inline.italic,
            underline: inline.underline,
            strikethrough: inline.strikethrough,
            code: inline.code,
            superscript: inline.superscript,
            subscript: inline.subscript,
            color: clone_opt(&inline.color),
            font_name,
            height: 1000,
        }
    }

    pub fn code_block(code_font: &str) -> (res: Self)
        ensures
            res@ == code_block_key(code_font@),
    {
        CharPrKey {
            bold: false,
            italic: false,
            underline: false,
            strikethrough: false,
            code: true,
            superscript: false,
            subscript: false,
            color: None,
            font_name: Some(crate::text::str_to_string(code_font)),
            height: 1000,
        }
    }

    pub fn heading(level: u8) -> (res: Self)
        ensures
            res@ == heading_key(level),
    {
        let height: u32 = if level <= 1 {
            2400
        } else if level == 2 {
            2000
        } else if level == 3 {
            1600
        } else if level == 4 {
            1400
        } else if level == 5 {
            1200
        } else {
            1000
        };
        CharPrKey {
            bold: true,
            italic: false,
            underline: false,
            strikethrough: false,
            code: false,
            superscript: false,
            subscript: false,
            color: None,
            font_name: None,
            height,
        }
    }

    /// Whether two keys are the same combination.
    pub fn same(&self, other: &CharPrKey) -> (res: bool)
        ensures
            res == (self@ == other@),
    {
        self.bold == other.bold && self.italic == other.italic && self.underline == other.underline
            && self.strikethrough == other.strikethrough && self.code == other.code
            && self.superscript == other.superscript && self.subscript == other.subscript
            && self.height == other.height && opt_str_eq(&self.color, &other.color)
            && opt_str_eq(&self.font_name, &other.font_name)
    }
}

// ---------------------------------------------------------------------------
// Which inlines the tables are built from
// ---------------------------------------------------------------------------

/// The inlines of `bs` in document order: paragraph and heading runs, and
/// those of table cells, block quotes, footnotes and list-item blocks.
pub open spec fn collect_inlines(bs: Seq<BlockV>) -> Seq<InlineV>
    decreases bs,
{
    if bs.len() == 0 {
        Seq::empty()
    } else {
        collect_inlines(bs.drop_last()) + block_inlines(bs.last())
    }
}

pub open spec fn block_inlines(b: BlockV) -> Seq<InlineV>
    decreases b,
{
    match b {
        BlockV::Heading { inlines, .. } => inlines,
        BlockV::Paragraph { inlines } => inlines,
        BlockV::Table { rows, .. } => rows_inlines(rows),
        BlockV::BlockQuote { blocks } => collect_inlines(blocks),
        BlockV::Footnote { content, .. } => collect_inlines(content),
        BlockV::List { items, .. } => items_inlines(items),
        _ => Seq::empty(),
    }
}

pub open spec fn rows_inlines(rs: Seq<TableRowV>) -> Seq<InlineV>
    decreases rs,
{
    if rs.len() == 0 {
        Seq::empty()
    } else {
        rows_inlines(rs.drop_last()) + cells_inlines(rs.last().cells)
    }
}

pub open spec fn cells_inlines(cs: Seq<TableCellV>) -> Seq<InlineV>
    decreases cs,
{
    if cs.len() == 0 {
        Seq::empty()
    } else {
        cells_inlines(cs.drop_last()) + collect_inlines(cs.last().blocks)
    }
}

/// List items contribute the inlines of their own blocks, then those of
/// their nested items.
pub open spec fn items_inlines(its: Seq<ListItemV>) -> Seq<InlineV>
    decreases its,
{
    if its.len() == 0 {
        Seq::empty()
    } else {
        items_inlines(its.drop_last()) + item_inlines(its.last())
    }
}

pub open spec fn item_inlines(it: ListItemV) -> Seq<InlineV>
    decreases it,
{
    collect_inlines(it.blocks) + items_inlines(it.children)
}

pub open spec fn sections_view(ss: Seq<Section>) -> Seq<SectionV> {
    ss.map_values(|s: Section| s@)
}

pub open spec fn sections_inlines(ss: Seq<SectionV>) -> Seq<InlineV>
    decreases ss.len(),
{
    if ss.len() == 0 {
        Seq::empty()
    } else {
        sections_inlines(ss.drop_last()) + collect_inlines(ss.last().blocks)
    }
}

// ---------------------------------------------------------------------------
// Tables as sequences without repetition
// ---------------------------------------------------------------------------

pub open spec fn add_absent<A>(acc: Seq<A>, x: A) -> Seq<A> {
    if acc.contains(x) {
        acc
    } else {
        acc.push(x)
    }
}

/// `acc` followed by the items of `s` that are not yet present, in order.
pub open spec fn dedup_append<A>(acc: Seq<A>, s: Seq<A>) -> Seq<A>
    decreases s.len(),
{
    if s.len() == 0 {
        acc
    } else {
        add_absent(dedup_append(acc, s.drop_last()), s.last())
    }
}

pub open spec fn keys_of(inls: Seq<InlineV>, code_font: Seq<char>) -> Seq<CharPrKeyV> {
    inls.map_values(|i: InlineV| key_of_inline(i, code_font))
}

/// The font names that a sequence of keys mentions, in order.
pub open spec fn fonts_of_keys(ks: Seq<CharPrKeyV>) -> Seq<Seq<char>>
    decreases ks.len(),
{
    if ks.len() == 0 {
        Seq::empty()
    } else {
        match ks.last().font_name {
            Some(f) => fonts_of_keys(ks.drop_last()).push(f),
            None => fonts_of_keys(ks.drop_last()),
        }
    }
}

pub open spec fn no_dups<A>(s: Seq<A>) -> bool {
    forall|i: int, j: int| 0 <= i < j < s.len() ==> s[i] != s[j]
}

pub open spec fn keys_view(s: Seq<CharPrKey>) -> Seq<CharPrKeyV> {
    s.map_values(|k: CharPrKey| k@)
}

pub open spec fn strs_view(s: Seq<String>) -> Seq<Seq<char>> {
    s.map_values(|x: String| x@)
}

/// After absorbing `inls`, the key table `k1` and the font list `f1` are what
/// they were (`k0`, `f0`) with the new keys and fonts appended.
pub open spec fn absorbed(
    k0: Seq<CharPrKeyV>,
    f0: Seq<Seq<char>>,
    k1: Seq<CharPrKeyV>,
    f1: Seq<Seq<char>>,
    inls: Seq<InlineV>,
    code_font: Seq<char>,
) -> bool {
    &&& k1 == dedup_append(k0, keys_of(inls, code_font))
    &&& f1 == dedup_append(f0, fonts_of_keys(keys_of(inls, code_font)))
}

pub proof fn lemma_dedup_append_concat<A>(acc: Seq<A>, a: Seq<A>, b: Seq<A>)
    ensures
        dedup_append(acc, a + b) == dedup_append(dedup_append(acc, a), b),
    decreases b.len(),
{
    if b.len() == 0 {
        assert(a + b == a);
    } else {
        assert((a + b).drop_last() == a + b.drop_last());
        assert((a + b).last() == b.last());
        lemma_dedup_append_concat(acc, a, b.drop_last());
    }
}

pub proof fn lemma_fonts_of_keys_concat(a: Seq<CharPrKeyV>, b: Seq<CharPrKeyV>)
    ensures
        fonts_of_keys(a + b) == fonts_of_keys(a) + fonts_of_keys(b),
    decreases b.len(),
{
    if b.len() == 0 {
        assert(a + b == a);
        assert(fonts_of_keys(a) + fonts_of_keys(b) == fonts_of_keys(a));
    } else {
        assert((a + b).drop_last() == a + b.drop_last());
        assert((a + b).last() == b.last());
        lemma_fonts_of_keys_concat(a, b.drop_last());
        match b.last().font_name {
            Some(f) => {
                assert(fonts_of_keys(a) + fonts_of_keys(b) == (fonts_of_keys(a) + fonts_of_keys(b.drop_last())).push(f));
            },
            None => {},
        }
    }
}

pub proof fn lemma_absorbed_concat(
    k0: Seq<CharPrKeyV>,
    f0: Seq<Seq<char>>,
    k1: Seq<CharPrKeyV>,
    f1: Seq<Seq<char>>,
    k2: Seq<CharPrKeyV>,
    f2: Seq<Seq<char>>,
    a: Seq<InlineV>,
    b: Seq<InlineV>,
    cf: Seq<char>,
)
    requires
        absorbed(k0, f0, k1, f1, a, cf),
        absorbed(k1, f1, k2, f2, b, cf),
    ensures
        absorbed(k0, f0, k2, f2, a + b, cf),
{
    assert(keys_of(a + b, cf) == keys_of(a, cf) + keys_of(b, cf));
    lemma_dedup_append_concat(k0, keys_of(a, cf), keys_of(b, cf));
    lemma_fonts_of_keys_concat(keys_of(a, cf), keys_of(b, cf));
    lemma_dedup_append_concat(f0, fonts_of_keys(keys_of(a, cf)), fonts_of_keys(keys_of(b, cf)));
}

pub proof fn lemma_absorbed_empty(k0: Seq<CharPrKeyV>, f0: Seq<Seq<char>>, cf: Seq<char>)
    ensures
        absorbed(k0, f0, k0, f0, Seq::empty(), cf),
{
    assert(keys_of(Seq::empty(), cf) == Seq::<CharPrKeyV>::empty());
}

pub proof fn lemma_add_absent_no_dups<A>(acc: Seq<A>, x: A)
    requires
        no_dups(acc),
    ensures
        no_dups(add_absent(acc, x)),
{
}

pub proof fn lemma_dedup_append_no_dups<A>(acc: Seq<A>, s: Seq<A>)
    requires
        no_dups(acc),
    ensures
        no_dups(dedup_append(acc, s)),
    decreases s.len(),
{
    if s.len() > 0 {
        lemma_dedup_append_no_dups(acc, s.drop_last());
        lemma_add_absent_no_dups(dedup_append(acc, s.drop_last()), s.last());
    }
}

// ---------------------------------------------------------------------------
// Adding entries
// ---------------------------------------------------------------------------

/// Appends `key` to `keys` unless an equal key is present.
pub fn add_key(keys: &mut Vec<CharPrKey>, key: CharPrKey)
    ensures
        keys_view(final(keys)@) == add_absent(keys_view(old(keys)@), key@),
{
    let mut i: usize = 0;
    while i < keys.len()
        invariant
            0 <= i <= keys.len(),
            forall|j: int| 0 <= j < i ==> keys@[j]@ != key@,
        decreases keys.len() - i,
    {
        if keys[i].same(&key) {
            assert(keys_view(keys@)[i as int] == key@);
            return;
        }
        i = i + 1;
    }
    assert(!keys_view(keys@).contains(key@)) by {
        if keys_view(keys@).contains(key@) {
            let j = choose|j: int| 0 <= j < keys_view(keys@).len() && keys_view(keys@)[j] == key@;
            assert(keys@[j]@ == key@);
        }
    }
    let ghost before = keys@;
    keys.push(key);
    assert(keys_view(keys@) == keys_view(before).push(key@));
}

/// Appends `name` to `fonts` unless it is present.
pub fn add_font(fonts: &mut Vec<String>, name: String)
    ensures
        strs_view(final(fonts)@) == add_absent(strs_view(old(fonts)@), name@),
{
    let mut i: usize = 0;
    while i < fonts.len()
        invariant
            0 <= i <= fonts.len(),
            forall|j: int| 0 <= j < i ==> fonts@[j]@ != name@,
        decreases fonts.len() - i,
    {
        if fonts[i] == name {
            assert(strs_view(fonts@)[i as int] == name@);
            return;
        }
        i = i + 1;
    }
    assert(!strs_view(fonts@).contains(name@)) by {
        if strs_view(fonts@).contains(name@) {
            let j = choose|j: int| 0 <= j < strs_view(fonts@).len() && strs_view(fonts@)[j] == name@;
            assert(fonts@[j]@ == name@);
        }
    }
    let ghost before = fonts@;
    fonts.push(name);
    assert(strs_view(fonts@) == strs_view(before).push(name@));
}

// ---------------------------------------------------------------------------
// Collecting keys and fonts from the document
// ---------------------------------------------------------------------------

pub fn collect_from_inlines(
    inlines: &Vec<Inline>,
    keys: &mut Vec<CharPrKey>,
    fonts: &mut Vec<String>,
    code_font: &String,
)
    ensures
        absorbed(
            keys_view(old(keys)@),
            strs_view(old(fonts)@),
            keys_view(final(keys)@),
            strs_view(final(fonts)@),
            inlines_view(inlines@),
            code_font@,
        ),
{
    let ghost k0 = keys_view(keys@);
    let ghost f0 = strs_view(fonts@);
    let ghost cf = code_font@;
    proof {
        lemma_absorbed_empty(k0, f0, cf);
        assert(inlines_view(inlines@.take(0)) == Seq::<InlineV>::empty());
    }
    let mut i: usize = 0;
    while i < inlines.len()
        invariant
            0 <= i <= inlines.len(),
            k0 == keys_view(old(keys)@),
            f0 == strs_view(old(fonts)@),
            cf == code_font@,
            absorbed(k0, f0, keys_view(keys@), strs_view(fonts@), inlines_view(inlines@.take(i as int)), cf),
        decreases inlines.len() - i,
    {
        let ghost k1 = keys_view(keys@);
        let ghost f1 = strs_view(fonts@);
        let key = CharPrKey::from_inline(&inlines[i], code_font.as_str());
        let ghost kv = key@;
        match &key.font_name {
            Some(font) => add_font(fonts, font.clone()),
            None => {},
        }
        add_key(keys, key);
        proof {
            let one = seq![inlines@[i as int]@];
            assert(keys_of(one, cf) == seq![kv]);
            assert(seq![kv].drop_last() == Seq::<CharPrKeyV>::empty());
            assert(fonts_of_keys(Seq::<CharPrKeyV>::empty()) == Seq::<Seq<char>>::empty());
            match kv.font_name {
                Some(f) => {
                    assert(fonts_of_keys(seq![kv]) == seq![f]);
                    assert(seq![f].drop_last() == Seq::<Seq<char>>::empty());
                },
                None => {
                    assert(fonts_of_keys(seq![kv]) == Seq::<Seq<char>>::empty());
                },
            }
            assert(seq![kv].last() == kv);
            assert(dedup_append(k1, seq![kv]) == add_absent(dedup_append(k1, Seq::<CharPrKeyV>::empty()), kv));
            assert(dedup_append(k1, seq![kv]) == add_absent(k1, kv));
            match kv.font_name {
                Some(f) => {
                    assert(seq![f].last() == f);
                    assert(dedup_append(f1, seq![f]) == add_absent(dedup_append(f1, Seq::<Seq<char>>::empty()), f));
                },
                None => {},
            }
            lemma_absorbed_concat(
                k0, f0, k1, f1, keys_view(keys@), strs_view(fonts@),
                inlines_view(inlines@.take(i as int)), one, cf,
            );
            assert(inlines_view(inlines@.take(i as int)) + one == inlines_view(inlines@.take(i + 1)));
        }
        i = i + 1;
    }
    assert(inlines@.take(inlines.len() as int) == inlines@);
}

pub fn collect_from_blocks(
    blocks: &Vec<Block>,
    keys: &mut Vec<CharPrKey>,
    fonts: &mut Vec<String>,
    code_font: &String,
)
    ensures
        absorbed(
            keys_view(old(keys)@),
            strs_view(old(fonts)@),
            keys_view(final(keys)@),
            strs_view(final(fonts)@),
            collect_inlines(blocks_view(blocks@)),
            code_font@,
        ),
    decreases blocks,
{
    let ghost k0 = keys_view(keys@);
    let ghost f0 = strs_view(fonts@);
    let ghost cf = code_font@;
    proof {
        lemma_absorbed_empty(k0, f0, cf);
        assert(blocks_view(blocks@.take(0)) == Seq::<BlockV>::empty());
    }
    let mut i: usize = 0;
    while i < blocks.len()
        invariant
            0 <= i <= blocks.len(),
            k0 == keys_view(old(keys)@),
            f0 == strs_view(old(fonts)@),
            cf == code_font@,
            absorbed(k0, f0, keys_view(keys@), strs_view(fonts@), collect_inlines(blocks_view(blocks@.take(i as int))), cf),
        decreases blocks.len() - i,
    {
        let ghost k1 = keys_view(keys@);
        let ghost f1 = strs_view(fonts@);
        collect_from_block(&blocks[i], keys, fonts, code_font);
        proof {
            let pre = blocks_view(blocks@.take(i as int));
            let post = blocks_view(blocks@.take(i + 1));
            lemma_blocks_view_push(blocks@.take(i as int), blocks@[i as int]);
            assert(blocks@.take(i + 1) == blocks@.take(i as int).push(blocks@[i as int]));
            assert(post.drop_last() == pre);
            lemma_absorbed_concat(
                k0, f0, k1, f1, keys_view(keys@), strs_view(fonts@),
                collect_inlines(pre), block_inlines(blocks@[i as int]@), cf,
            );
        }
        i = i + 1;
    }
    assert(blocks@.take(blocks.len() as int) == blocks@);
}

pub fn collect_from_block(
    block: &Block,
    keys: &mut Vec<CharPrKey>,
    fonts: &mut Vec<String>,
    code_font: &String,
)
    ensures
        absorbed(
            keys_view(old(keys)@),
            strs_view(old(fonts)@),
            keys_view(final(keys)@),
            strs_view(final(fonts)@),
            block_inlines(block@),
            code_font@,
        ),
    decreases block,
{
    match block {
        Block::Heading { inlines, .. } => collect_from_inlines(inlines, keys, fonts, code_font),
        Block::Paragraph { inlines } => collect_from_inlines(inlines, keys, fonts, code_font),
        Block::Table { rows, .. } => collect_from_rows(rows, keys, fonts, code_font),
        Block::BlockQuote { blocks } => collect_from_blocks(blocks, keys, fonts, code_font),
        Block::Footnote { content, .. } => collect_from_blocks(content, keys, fonts, code_font),
        Block::List { items, .. } => collect_from_items(items, keys, fonts, code_font),
        _ => {
            proof {
                lemma_absorbed_empty(keys_view(keys@), strs_view(fonts@), code_font@);
            }
        },
    }
}

pub fn collect_from_rows(
    rows: &Vec<TableRow>,
    keys: &mut Vec<CharPrKey>,
    fonts: &mut Vec<String>,
    code_font: &String,
)
    ensures
        absorbed(
            keys_view(old(keys)@),
            strs_view(old(fonts)@),
            keys_view(final(keys)@),
            strs_view(final(fonts)@),
            rows_inlines(rows_view(rows@)),
            code_font@,
        ),
    decreases rows,
{
    let ghost k0 = keys_view(keys@);
    let ghost f0 = strs_view(fonts@);
    let ghost cf = code_font@;
    proof {
        lemma_absorbed_empty(k0, f0, cf);
        assert(rows_view(rows@.take(0)) == Seq::<TableRowV>::empty());
    }
    let mut i: usize = 0;
    while i < rows.len()
        invariant
            0 <= i <= rows.len(),
            k0 == keys_view(old(keys)@),
            f0 == strs_view(old(fonts)@),
            cf == code_font@,
            absorbed(k0, f0, keys_view(keys@), strs_view(fonts@), rows_inlines(rows_view(rows@.take(i as int))), cf),
        decreases rows.len() - i,
    {
        let ghost k1 = keys_view(keys@);
        let ghost f1 = strs_view(fonts@);
        collect_from_cells(&rows[i].cells, keys, fonts, code_font);
        proof {
            let pre = rows_view(rows@.take(i as int));
            let post = rows_view(rows@.take(i + 1));
            lemma_rows_view_push(rows@.take(i as int), rows@[i as int]);
            assert(rows@.take(i + 1) == rows@.take(i as int).push(rows@[i as int]));
            assert(post.drop_last() == pre);
            lemma_absorbed_concat(
                k0, f0, k1, f1, keys_view(keys@), strs_view(fonts@),
                rows_inlines(pre), cells_inlines(rows@[i as int]@.cells), cf,
            );
        }
        i = i + 1;
    }
    assert(rows@.take(rows.len() as int) == rows@);
}

pub fn collect_from_cells(
    cells: &Vec<TableCell>,
    keys: &mut Vec<CharPrKey>,
    fonts: &mut Vec<String>,
    code_font: &String,
)
    ensures
        absorbed(
            keys_view(old(keys)@),
            strs_view(old(fonts)@),
            keys_view(final(keys)@),
            strs_view(final(fonts)@),
            cells_inlines(cells_view(cells@)),
            code_font@,
        ),
    decreases cells,
{
    let ghost k0 = keys_view(keys@);
    let ghost f0 = strs_view(fonts@);
    let ghost cf = code_font@;
    proof {
        lemma_absorbed_empty(k0, f0, cf);
        assert(cells_view(cells@.take(0)) == Seq::<TableCellV>::empty());
    }
    let mut i: usize = 0;
    while i < cells.len()
        invariant
            0 <= i <= cells.len(),
            k0 == keys_view(old(keys)@),
            f0 == strs_view(old(fonts)@),
            cf == code_font@,
            absorbed(k0, f0, keys_view(keys@), strs_view(fonts@), cells_inlines(cells_view(cells@.take(i as int))), cf),
        decreases cells.len() - i,
    {
        let ghost k1 = keys_view(keys@);
        let ghost f1 = strs_view(fonts@);
        collect_from_blocks(&cells[i].blocks, keys, fonts, code_font);
        proof {
            let pre = cells_view(cells@.take(i as int));
            let post = cells_view(cells@.take(i + 1));
            lemma_cells_view_push(cells@.take(i as int), cells@[i as int]);
            assert(cells@.take(i + 1) == cells@.take(i as int).push(cells@[i as int]));
            assert(post.drop_last() == pre);
            lemma_absorbed_concat(
                k0, f0, k1, f1, keys_view(keys@), strs_view(fonts@),
                cells_inlines(pre), collect_inlines(cells@[i as int]@.blocks), cf,
            );
        }
        i = i + 1;
    }
    assert(cells@.take(cells.len() as int) == cells@);
}

pub fn collect_from_items(
    items: &Vec<ListItem>,
    keys: &mut Vec<CharPrKey>,
    fonts: &mut Vec<String>,
    code_font: &String,
)
    ensures
        absorbed(
            keys_view(old(keys)@),
            strs_view(old(fonts)@),
            keys_view(final(keys)@),
            strs_view(final(fonts)@),
            items_inlines(items_view(items@)),
            code_font@,
        ),
    decreases items,
{
    let ghost k0 = keys_view(keys@);
    let ghost f0 = strs_view(fonts@);
    let ghost cf = code_font@;
    proof {
        lemma_absorbed_empty(k0, f0, cf);
        assert(items_view(items@.take(0)) == Seq::<ListItemV>::empty());
    }
    let mut i: usize = 0;
    while i < items.len()
        invariant
            0 <= i <= items.len(),
            k0 == keys_view(old(keys)@),
            f0 == strs_view(old(fonts)@),
            cf == code_font@,
            absorbed(k0, f0, keys_view(keys@), strs_view(fonts@), items_inlines(items_view(items@.take(i as int))), cf),
        decreases items.len() - i,
    {
        let ghost k1 = keys_view(keys@);
        let ghost f1 = strs_view(fonts@);
        collect_from_blocks(&items[i].blocks, keys, fonts, code_font);
        let ghost k3 = keys_view(keys@);
        let ghost f3 = strs_view(fonts@);
        collect_from_items(&items[i].children, keys, fonts, code_font);
        proof {
            let pre = items_view(items@.take(i as int));
            let post = items_view(items@.take(i + 1));
            lemma_items_view_push(items@.take(i as int), items@[i as int]);
            assert(items@.take(i + 1) == items@.take(i as int).push(items@[i as int]));
            assert(post.drop_last() == pre);
            lemma_absorbed_concat(
                k1, f1, k3, f3, keys_view(keys@), strs_view(fonts@),
                collect_inlines(items@[i as int]@.blocks), items_inlines(items@[i as int]@.children), cf,
            );
            lemma_absorbed_concat(
                k0, f0, k1, f1, keys_view(keys@), strs_view(fonts@),
                items_inlines(pre), item_inlines(items@[i as int]@), cf,
            );
        }
        i = i + 1;
    }
    assert(items@.take(items.len() as int) == items@);
}

} // verus!

verus! {

// ---------------------------------------------------------------------------
// The reference tables
// ---------------------------------------------------------------------------

/// Tables built once from the whole document before writing.
pub struct RefTables {
    /// Character-property keys; the ID of a key is its position (0 = plain).
    pub char_pr_keys: Vec<CharPrKey>,
    /// Font faces in order of first use; the ID of a face is its position.
    pub font_names: Vec<String>,
    /// The no-border fill entry (referenced by charPr).
    pub border_fill_id: u32,
    /// The solid-border fill entry (referenced by tables).
    pub table_border_fill_id: u32,
    /// The font used for code.
    pub code_font: String,
    /// The style template, if any.
    pub style: Option<StyleTemplate>,
}

pub open spec fn default_font_of(style: Option<StyleTemplate>) -> Seq<char> {
    match style {
        Some(s) => match s.font.default {
            Some(f) => f@,
            None => "\u{BC14}\u{D0D5}"@,
        },
        None => "\u{BC14}\u{D0D5}"@,
    }
}

pub open spec fn code_font_of(style: Option<StyleTemplate>) -> Seq<char> {
    match style {
        Some(s) => match s.font.code {
            Some(f) => f@,
            None => "Courier New"@,
        },
        None => "Courier New"@,
    }
}

pub open spec fn heading_keys() -> Seq<CharPrKeyV> {
    seq![heading_key(1), heading_key(2), heading_key(3), heading_key(4), heading_key(5), heading_key(6)]
}

/// The key table of a document whose inlines are `inls`: the plain key, the
/// keys of the inlines, the six heading keys and the code-block key, each once.
pub open spec fn table_keys(inls: Seq<InlineV>, cf: Seq<char>) -> Seq<CharPrKeyV> {
    dedup_append(dedup_append(seq![plain_key()], keys_of(inls, cf)), heading_keys().push(code_block_key(cf)))
}

/// The font list: the default font, the fonts of the inline keys, the code
/// font, each once.
pub open spec fn table_fonts(inls: Seq<InlineV>, df: Seq<char>, cf: Seq<char>) -> Seq<Seq<char>> {
    add_absent(dedup_append(seq![df], fonts_of_keys(keys_of(inls, cf))), cf)
}

pub open spec fn doc_inlines(doc: &crate::ir::Document) -> Seq<InlineV> {
    sections_inlines(sections_view(doc.sections@))
}

/// First position of `x` in `s`.
pub open spec fn find_index<A>(s: Seq<A>, x: A) -> Option<nat>
    decreases s.len(),
{
    if s.len() == 0 {
        None
    } else if s[0] == x {
        Some(0)
    } else {
        match find_index(s.drop_first(), x) {
            Some(i) => Some(i + 1),
            None => None,
        }
    }
}

/// The ID that a key gets: its position, or 0 (plain) when it is absent.
pub open spec fn key_id(keys: Seq<CharPrKeyV>, k: CharPrKeyV) -> nat {
    match find_index(keys, k) {
        Some(i) => i,
        None => 0,
    }
}

pub proof fn lemma_find_index<A>(s: Seq<A>, x: A, k: int)
    requires
        0 <= k < s.len(),
        s[k] == x,
        forall|j: int| 0 <= j < k ==> s[j] != x,
    ensures
        find_index(s, x) == Some(k as nat),
    decreases k,
{
    if k > 0 {
        lemma_find_index(s.drop_first(), x, k - 1);
    }
}

pub proof fn lemma_find_index_none<A>(s: Seq<A>, x: A)
    requires
        forall|j: int| 0 <= j < s.len() ==> s[j] != x,
    ensures
        find_index(s, x) is None,
    decreases s.len(),
{
    if s.len() > 0 {
        lemma_find_index_none(s.drop_first(), x);
    }
}

impl RefTables {
    pub open spec fn keys(&self) -> Seq<CharPrKeyV> {
        keys_view(self.char_pr_keys@)
    }

    pub open spec fn fonts(&self) -> Seq<Seq<char>> {
        strs_view(self.font_names@)
    }

    pub open spec fn wf(&self) -> bool {
        no_dups(self.keys()) && no_dups(self.fonts())
    }

    /// Scans the whole document and builds the tables.
    pub fn build(doc: &crate::ir::Document, style: Option<StyleTemplate>) -> (res: Self)
        ensures
            res.wf(),
            res.code_font@ == code_font_of(style),
            res.keys() == table_keys(doc_inlines(doc), code_font_of(style)),
            res.fonts() == table_fonts(doc_inlines(doc), default_font_of(style), code_font_of(style)),
            res.border_fill_id == 1,
            res.table_border_fill_id == 2,
            res.style == style,
    {
        let mut keys: Vec<CharPrKey> = Vec::new();
        keys.push(CharPrKey::plain());
        let mut fonts: Vec<String> = Vec::new();
        let default_font = match &style {
            Some(s) => match &s.font.default {
                Some(f) => f.clone(),
                None => crate::text::str_to_string("\u{BC14}\u{D0D5}"),
            },
            None => crate::text::str_to_string("\u{BC14}\u{D0D5}"),
        };
        fonts.push(default_font);
        let code_font = match &style {
            Some(s) => match &s.font.code {
                Some(f) => f.clone(),
                None => crate::text::str_to_string("Courier New"),
            },
            None => crate::text::str_to_string("Courier New"),
        };
        let ghost cf = code_font@;
        let ghost k0 = keys_view(keys@);
        let ghost f0 = strs_view(fonts@);
        assert(k0 == seq![plain_key()]);
        assert(f0 == seq![default_font_of(style)]);
        let ghost ss = sections_view(doc.sections@);
        proof {
            lemma_absorbed_empty(k0, f0, cf);
            assert(sections_view(doc.sections@.take(0)) == Seq::<SectionV>::empty());
        }
        let mut i: usize = 0;
        while i < doc.sections.len()
            invariant
                0 <= i <= doc.sections.len(),
                cf == code_font@,
                ss == sections_view(doc.sections@),
                absorbed(k0, f0, keys_view(keys@), strs_view(fonts@), sections_inlines(sections_view(doc.sections@.take(i as int))), cf),
            decreases doc.sections.len() - i,
        {
            let ghost k1 = keys_view(keys@);
            let ghost f1 = strs_view(fonts@);
            collect_from_blocks(&doc.sections[i].blocks, &mut keys, &mut fonts, &code_font);
            proof {
                let pre = sections_view(doc.sections@.take(i as int));
                let post = sections_view(doc.sections@.take(i + 1));
                assert(post == pre.push(doc.sections@[i as int]@));
                assert(post.drop_last() == pre);
                lemma_absorbed_concat(
                    k0, f0, k1, f1, keys_view(keys@), strs_view(fonts@),
                    sections_inlines(pre), collect_inlines(blocks_view(doc.sections@[i as int].blocks@)), cf,
                );
            }
            i = i + 1;
        }
        assert(doc.sections@.take(doc.sections.len() as int) == doc.sections@);
        let ghost after_doc = keys_view(keys@);
        let mut level: u8 = 1;
        while level <= 6
            invariant
                1 <= level <= 7,
                keys_view(keys@) == dedup_append(after_doc, heading_keys().take(level - 1)),
            decreases 7 - level,
        {
            add_key(&mut keys, CharPrKey::heading(level));
            assert(heading_keys().take(level as int) == heading_keys().take(level - 1).push(heading_key(level)));
            assert(heading_keys().take(level as int).drop_last() == heading_keys().take(level - 1));
            level = level + 1;
        }
        assert(heading_keys().take(6) == heading_keys());
        add_key(&mut keys, CharPrKey::code_block(code_font.as_str()));
        assert(heading_keys().push(code_block_key(cf)).drop_last() == heading_keys());
        add_font(&mut fonts, code_font.clone());
        proof {
            assert(no_dups(seq![plain_key()]));
            assert(no_dups(seq![default_font_of(style)]));
            lemma_dedup_append_no_dups(seq![plain_key()], keys_of(doc_inlines(doc), cf));
            lemma_dedup_append_no_dups(
                dedup_append(seq![plain_key()], keys_of(doc_inlines(doc), cf)),
                heading_keys().push(code_block_key(cf)),
            );
            lemma_dedup_append_no_dups(seq![default_font_of(style)], fonts_of_keys(keys_of(doc_inlines(doc), cf)));
        }
        RefTables { char_pr_keys: keys, font_names: fonts, border_fill_id: 1, table_border_fill_id: 2, code_font, style }
    }

    /// The ID of `key`: its position in the table, or 0 when absent.
    pub fn char_pr_id(&self, key: &CharPrKey) -> (res: usize)
        ensures
            res as nat == key_id(self.keys(), key@),
    {
        let mut i: usize = 0;
        while i < self.char_pr_keys.len()
            invariant
                0 <= i <= self.char_pr_keys.len(),
                forall|j: int| 0 <= j < i ==> self.keys()[j] != key@,
            decreases self.char_pr_keys.len() - i,
        {
            if self.char_pr_keys[i].same(key) {
                proof { lemma_find_index(self.keys(), key@, i as int); }
                return i;
            }
            i = i + 1;
        }
        proof { lemma_find_index_none(self.keys(), key@); }
        0
    }

    pub fn code_block_char_pr_id(&self) -> (res: usize)
        ensures
            res as nat == key_id(self.keys(), code_block_key(self.code_font@)),
    {
        self.char_pr_id(&CharPrKey::code_block(self.code_font.as_str()))
    }

    pub fn heading_char_pr_id(&self, level: u8) -> (res: usize)
        ensures
            res as nat == key_id(self.keys(), heading_key(level)),
    {
        self.char_pr_id(&CharPrKey::heading(level))
    }

    /// Position of `name` in the font list.
    pub fn font_index(&self, name: &String) -> (res: Option<usize>)
        ensures
            match res {
                Some(k) => find_index(self.fonts(), name@) == Some(k as nat),
                None => find_index(self.fonts(), name@) is None,
            },
    {
        let mut i: usize = 0;
        while i < self.font_names.len()
            invariant
                0 <= i <= self.font_names.len(),
                forall|j: int| 0 <= j < i ==> self.fonts()[j] != name@,
            decreases self.font_names.len() - i,
        {
            if self.font_names[i] == *name {
                proof { lemma_find_index(self.fonts(), name@, i as int); }
                return Some(i);
            }
            i = i + 1;
        }
        proof { lemma_find_index_none(self.fonts(), name@); }
        None
    }
}

// ---------------------------------------------------------------------------
// What the tables promise
// ---------------------------------------------------------------------------

proof fn lemma_dedup_append_keeps<A>(acc: Seq<A>, s: Seq<A>)
    ensures
        acc.len() <= dedup_append(acc, s).len(),
        forall|i: int| 0 <= i < acc.len() ==> #[trigger] dedup_append(acc, s)[i] == acc[i],
        forall|x: A| acc.contains(x) || s.contains(x) ==> #[trigger] dedup_append(acc, s).contains(x),
    decreases s.len(),
{
    if s.len() > 0 {
        let prev = dedup_append(acc, s.drop_last());
        lemma_dedup_append_keeps(acc, s.drop_last());
        assert forall|x: A| acc.contains(x) || s.contains(x) implies #[trigger] dedup_append(acc, s).contains(x) by {
            if s.contains(x) && !acc.contains(x) {
                let j = choose|j: int| 0 <= j < s.len() && s[j] == x;
                if j < s.len() - 1 {
                    assert(s.drop_last()[j] == x);
                    assert(prev.contains(x));
                }
            }
            if prev.contains(x) {
                let j = choose|j: int| 0 <= j < prev.len() && prev[j] == x;
                assert(add_absent(prev, s.last())[j] == x);
            }
            if !prev.contains(s.last()) {
                assert(add_absent(prev, s.last())[prev.len() as int] == s.last());
            }
        }
    }
}

pub proof fn lemma_find_index_found<A>(s: Seq<A>, x: A)
    requires
        s.contains(x),
    ensures
        find_index(s, x) is Some,
        find_index(s, x).unwrap() < s.len(),
        s[find_index(s, x).unwrap() as int] == x,
    decreases s.len(),
{
    if s[0] != x {
        let j = choose|j: int| 0 <= j < s.len() && s[j] == x;
        assert(s.drop_first()[j - 1] == x);
        lemma_find_index_found(s.drop_first(), x);
    }
}

/// Plain text has character-property ID 0, and every run of the document
/// gets the ID of a table entry that is exactly its own formatting: two runs
/// share an ID only when they are formatted alike.
pub proof fn law_char_pr_ids(doc: &crate::ir::Document, style: Option<StyleTemplate>, k: int)
    requires
        0 <= k < doc_inlines(doc).len(),
    ensures
        ({
            let keys = table_keys(doc_inlines(doc), code_font_of(style));
            let key = key_of_inline(doc_inlines(doc)[k], code_font_of(style));
            &&& key_id(keys, plain_key()) == 0
            &&& key_id(keys, key) < keys.len()
            &&& keys[key_id(keys, key) as int] == key
        }),
{
    let inls = doc_inlines(doc);
    let cf = code_font_of(style);
    let first = dedup_append(seq![plain_key()], keys_of(inls, cf));
    let keys = table_keys(inls, cf);
    lemma_dedup_append_keeps(seq![plain_key()], keys_of(inls, cf));
    lemma_dedup_append_keeps(first, heading_keys().push(code_block_key(cf)));
    assert(keys[0] == plain_key());
    lemma_find_index(keys, plain_key(), 0);
    let key = key_of_inline(inls[k], cf);
    assert(keys_of(inls, cf)[k] == key);
    assert(keys_of(inls, cf).contains(key));
    assert(first.contains(key));
    assert(keys.contains(key));
    lemma_find_index_found(keys, key);
}

} // verus!
