//! The document model that the HWPX reader produces and the writer consumes,
//! with a mathematical view of every type.
use vstd::prelude::*;

verus! {

// ---------------------------------------------------------------------------
// Inline runs
// ---------------------------------------------------------------------------

/// A run of text with uniform formatting.
#[derive(Debug, Clone, PartialEq)]
pub struct Inline {
    pub text: String,
    pub bold: bool,
    pub italic: bool,
    pub underline: bool,
    pub strikethrough: bool,
    pub code: bool,
    pub superscript: bool,
    pub subscript: bool,
    pub color: Option<String>,
    pub font_name: Option<String>,
    pub link: Option<String>,
    pub ruby: Option<String>,
    pub footnote_ref: Option<String>,
}

pub ghost struct InlineV {
    pub text: Seq<char>,
    pub bold: bool,
    pub italic: bool,
    pub underline: bool,
    pub strikethrough: bool,
    pub code: bool,
    pub superscript: bool,
    pub subscript: bool,
    pub color: Option<Seq<char>>,
    pub font_name: Option<Seq<char>>,
    pub link: Option<Seq<char>>,
    pub ruby: Option<Seq<char>>,
    pub footnote_ref: Option<Seq<char>>,
}

pub open spec fn opt_str_view(o: Option<String>) -> Option<Seq<char>> {
    match o {
        Some(s) => Some(s@),
        None => None,
    }
}

impl View for Inline {
    type V = InlineV;

    open spec fn view(&self) -> InlineV {
        InlineV {
            text: self.text@,
            bold: self.bold,
            italic: self.italic,
            underline: self.underline,
            strikethrough: self.strikethrough,
            code: self.code,
            superscript: self.superscript,
            subscript: self.subscript,
            color: opt_str_view(self.color),
            font_name: opt_str_view(self.font_name),
            link: opt_str_view(self.link),
            ruby: opt_str_view(self.ruby),
            footnote_ref: opt_str_view(self.footnote_ref),
        }
    }
}

/// An inline with the given text and no formatting at all.
pub open spec fn plain_inline_v(text: Seq<char>) -> InlineV {
    InlineV {
        text: text,
        bold: false,
        italic: false,
        underline: false,
        strikethrough: false,
        code: false,
        superscript: false,
        subscript: false,
        color: None,
        font_name: None,
        link: None,
        ruby: None,
        footnote_ref: None,
    }
}

pub open spec fn inlines_view(s: Seq<Inline>) -> Seq<InlineV> {
    s.map_values(|i: Inline| i@)
}

/// Clones an optional string so that the copy is the same value.
pub fn clone_opt(o: &Option<String>) -> (res: Option<String>)
    ensures
        res == *o,
{
    match o {
        Some(s) => Some(s.clone()),
        None => None,
    }
}

impl Default for Inline {
    fn default() -> (res: Self)
        ensures
            res@ == plain_inline_v(Seq::empty()),
    {
        Inline::new_plain(String::new())
    }
}

impl Inline {
    /// An unformatted inline holding `text`.
    pub fn new_plain(text: String) -> (res: Self)
        ensures
            res@ == plain_inline_v(text@),
    {
        Inline {
            text,
            bold: false,
            italic: false,
            underline: false,
            strikethrough: false,
            code: false,
            superscript: false,
            subscript: false,
            color: None,
            font_name: None,
            link: None,
            ruby: None,
            footnote_ref: None,
        }
    }

    /// An unformatted inline holding a copy of `text`.
    pub fn plain(text: &str) -> (res: Self)
        ensures
            res@ == plain_inline_v(text@),
    {
        Inline::new_plain(crate::text::str_to_string(text))
    }

    /// An inline with the given character formatting.
    pub fn with_formatting(
        text: String,
        bold: bool,
        italic: bool,
        underline: bool,
        strikethrough: bool,
        superscript: bool,
        subscript: bool,
        color: Option<String>,
    ) -> (res: Self)
        ensures
            res@ == (InlineV {
                bold,
                italic,
                underline,
                strikethrough,
                superscript,
                subscript,
                color: opt_str_view(color),
                ..plain_inline_v(text@)
            }),
    {
        Inline {
            text,
            bold,
            italic,
            underline,
            strikethrough,
            code: false,
            superscript,
            subscript,
            color,
            font_name: None,
            link: None,
            ruby: None,
            footnote_ref: None,
        }
    }

    /// The same inline with `font_name` replaced.
    pub fn with_font_name(self, font_name: Option<String>) -> (res: Self)
        ensures
            res@ == (InlineV { font_name: opt_str_view(font_name), ..self@ }),
    {
        Inline { font_name, ..self }
    }

    /// The same inline with `link` replaced.
    pub fn with_link(self, link: Option<String>) -> (res: Self)
        ensures
            res@ == (InlineV { link: opt_str_view(link), ..self@ }),
    {
        Inline { link, ..self }
    }

    /// The same inline with `ruby` replaced.
    pub fn with_ruby(self, ruby: Option<String>) -> (res: Self)
        ensures
            res@ == (InlineV { ruby: opt_str_view(ruby), ..self@ }),
    {
        Inline { ruby, ..self }
    }

    /// A footnote-reference marker: empty text, `footnote_ref` set.
    pub fn footnote_ref(id: String) -> (res: Self)
        ensures
            res@ == (InlineV { footnote_ref: Some(id@), ..plain_inline_v(Seq::empty()) }),
    {
        let mut i = Inline::new_plain(String::new());
        i.footnote_ref = Some(id);
        i
    }
}

// ---------------------------------------------------------------------------
// Blocks
// ---------------------------------------------------------------------------

#[derive(Debug, PartialEq)]
pub enum Block {
    Heading { level: u8, inlines: Vec<Inline> },
    Paragraph { inlines: Vec<Inline> },
    Table { rows: Vec<TableRow>, col_count: usize },
    CodeBlock { language: Option<String>, code: String },
    BlockQuote { blocks: Vec<Block> },
    List { ordered: bool, start: u32, items: Vec<ListItem> },
    Image { src: String, alt: String },
    HorizontalRule,
    PageBreak,
    Math { display: bool, tex: String },
    Footnote { id: String, content: Vec<Block> },
}

#[derive(Debug, PartialEq)]
pub struct TableRow {
    pub cells: Vec<TableCell>,
    pub is_header: bool,
}

#[derive(Debug, PartialEq)]
pub struct TableCell {
    pub blocks: Vec<Block>,
    pub colspan: u32,
    pub rowspan: u32,
}

#[derive(Debug, PartialEq)]
pub struct ListItem {
    pub blocks: Vec<Block>,
    pub children: Vec<ListItem>,
    pub checked: Option<bool>,
}

pub ghost enum BlockV {
    Heading { level: u8, inlines: Seq<InlineV> },
    Paragraph { inlines: Seq<InlineV> },
    Table { rows: Seq<TableRowV>, col_count: usize },
    CodeBlock { language: Option<Seq<char>>, code: Seq<char> },
    BlockQuote { blocks: Seq<BlockV> },
    List { ordered: bool, start: u32, items: Seq<ListItemV> },
    Image { src: Seq<char>, alt: Seq<char> },
    HorizontalRule,
    PageBreak,
    Math { display: bool, tex: Seq<char> },
    Footnote { id: Seq<char>, content: Seq<BlockV> },
}

pub ghost struct TableRowV {
    pub cells: Seq<TableCellV>,
    pub is_header: bool,
}

pub ghost struct TableCellV {
    pub blocks: Seq<BlockV>,
    pub colspan: u32,
    pub rowspan: u32,
}

pub ghost struct ListItemV {
    pub blocks: Seq<BlockV>,
    pub children: Seq<ListItemV>,
    pub checked: Option<bool>,
}

pub open spec fn blocks_view(s: Seq<Block>) -> Seq<BlockV>
    decreases s,
{
    Seq::new(s.len(), |i: int| if 0 <= i < s.len() { block_view(s[i]) } else { BlockV::HorizontalRule })
}

pub open spec fn rows_view(s: Seq<TableRow>) -> Seq<TableRowV>
    decreases s,
{
    Seq::new(
        s.len(),
        |i: int| if 0 <= i < s.len() { row_view(s[i]) } else { TableRowV { cells: Seq::empty(), is_header: false } },
    )
}

pub open spec fn row_view(r: TableRow) -> TableRowV
    decreases r,
{
    TableRowV { cells: cells_view(r.cells@), is_header: r.is_header }
}

pub open spec fn cells_view(s: Seq<TableCell>) -> Seq<TableCellV>
    decreases s,
{
    Seq::new(
        s.len(),
        |i: int|
            if 0 <= i < s.len() {
                cell_view(s[i])
            } else {
                TableCellV { blocks: Seq::empty(), colspan: 1, rowspan: 1 }
            },
    )
}

pub open spec fn cell_view(c: TableCell) -> TableCellV
    decreases c,
{
    TableCellV { blocks: blocks_view(c.blocks@), colspan: c.colspan, rowspan: c.rowspan }
}

pub open spec fn items_view(s: Seq<ListItem>) -> Seq<ListItemV>
    decreases s,
{
    Seq::new(
        s.len(),
        |i: int|
            if 0 <= i < s.len() {
                item_view(s[i])
            } else {
                ListItemV { blocks: Seq::empty(), children: Seq::empty(), checked: None }
            },
    )
}

pub open spec fn item_view(it: ListItem) -> ListItemV
    decreases it,
{
    ListItemV { blocks: blocks_view(it.blocks@), children: items_view(it.children@), checked: it.checked }
}

pub open spec fn block_view(b: Block) -> BlockV
    decreases b,
{
    match b {
        Block::Heading { level, inlines } => BlockV::Heading { level, inlines: inlines_view(inlines@) },
        Block::Paragraph { inlines } => BlockV::Paragraph { inlines: inlines_view(inlines@) },
        Block::Table { rows, col_count } => BlockV::Table { rows: rows_view(rows@), col_count },
        Block::CodeBlock { language, code } => BlockV::CodeBlock { language: opt_str_view(language), code: code@ },
        Block::BlockQuote { blocks } => BlockV::BlockQuote { blocks: blocks_view(blocks@) },
        Block::List { ordered, start, items } => BlockV::List { ordered, start, items: items_view(items@) },
        Block::Image { src, alt } => BlockV::Image { src: src@, alt: alt@ },
        Block::HorizontalRule => BlockV::HorizontalRule,
        Block::PageBreak => BlockV::PageBreak,
        Block::Math { display, tex } => BlockV::Math { display, tex: tex@ },
        Block::Footnote { id, content } => BlockV::Footnote { id: id@, content: blocks_view(content@) },
    }
}

impl View for Block {
    type V = BlockV;

    open spec fn view(&self) -> BlockV {
        block_view(*self)
    }
}

impl View for TableRow {
    type V = TableRowV;

    open spec fn view(&self) -> TableRowV {
        row_view(*self)
    }
}

impl View for TableCell {
    type V = TableCellV;

    open spec fn view(&self) -> TableCellV {
        cell_view(*self)
    }
}

impl View for ListItem {
    type V = ListItemV;

    open spec fn view(&self) -> ListItemV {
        item_view(*self)
    }
}

pub proof fn lemma_blocks_view_push(s: Seq<Block>, b: Block)
    ensures
        blocks_view(s.push(b)) == blocks_view(s).push(b@),
{
    assert(blocks_view(s.push(b)) =~= blocks_view(s).push(b@));
}

pub proof fn lemma_rows_view_push(s: Seq<TableRow>, r: TableRow)
    ensures
        rows_view(s.push(r)) == rows_view(s).push(r@),
{
    assert(rows_view(s.push(r)) =~= rows_view(s).push(r@));
}

pub proof fn lemma_cells_view_push(s: Seq<TableCell>, c: TableCell)
    ensures
        cells_view(s.push(c)) == cells_view(s).push(c@),
{
    assert(cells_view(s.push(c)) =~= cells_view(s).push(c@));
}

pub proof fn lemma_items_view_push(s: Seq<ListItem>, it: ListItem)
    ensures
        items_view(s.push(it)) == items_view(s).push(it@),
{
    assert(items_view(s.push(it)) =~= items_view(s).push(it@));
}

// ---------------------------------------------------------------------------
// Sections and documents
// ---------------------------------------------------------------------------

/// Inner cell margin every side of a table gets unless `<hp:inMargin>` says
/// otherwise (HWP units).
pub const DEFAULT_TABLE_INNER_MARGIN: u32 = 141;

/// The four inner margins of a table's cells, in HWP units.
#[derive(Debug, Clone, Copy, PartialEq, Eq)]
pub struct TableInnerMargin {
    pub left: u32,
    pub right: u32,
    pub top: u32,
    pub bottom: u32,
}

/// Page geometry in HWP units (1/7200 inch); `None` means "not given".
#[derive(Debug, Clone, Copy, PartialEq, Eq)]
pub struct PageLayout {
    pub width: Option<u32>,
    pub height: Option<u32>,
    pub landscape: bool,
    pub margin_left: Option<u32>,
    pub margin_right: Option<u32>,
    pub margin_top: Option<u32>,
    pub margin_bottom: Option<u32>,
}

/// A4 portrait (210 x 297 mm) with 20 mm side and 15 mm top/bottom margins.
pub open spec fn a4_portrait_layout() -> PageLayout {
    PageLayout {
        width: Some(59528),
        height: Some(84188),
        landscape: false,
        margin_left: Some(5670),
        margin_right: Some(5670),
        margin_top: Some(4252),
        margin_bottom: Some(4252),
    }
}

impl PageLayout {
    /// The A4 portrait page the writer falls back to.
    pub fn a4_portrait() -> (res: Self)
        ensures
            res == a4_portrait_layout(),
    {
        PageLayout {
            width: Some(59528),
            height: Some(84188),
            landscape: false,
            margin_left: Some(5670),
            margin_right: Some(5670),
            margin_top: Some(4252),
            margin_bottom: Some(4252),
        }
    }
}

/// Which pages a header/footer applies to.
#[derive(Debug, Clone, Copy, PartialEq, Eq)]
pub enum HeaderFooterType {
    Both,
    Even,
    Odd,
}

pub open spec fn header_footer_type_str(t: HeaderFooterType) -> Seq<char> {
    match t {
        HeaderFooterType::Both => "both"@,
        HeaderFooterType::Even => "even"@,
        HeaderFooterType::Odd => "odd"@,
    }
}

impl HeaderFooterType {
    /// The OWPML attribute value for this type.
    pub fn as_str(&self) -> (res: &'static str)
        ensures
            res@ == header_footer_type_str(*self),
    {
        match self {
            HeaderFooterType::Both => "both",
            HeaderFooterType::Even => "even",
            HeaderFooterType::Odd => "odd",
        }
    }
}

#[derive(Debug, PartialEq)]
pub struct Section {
    pub blocks: Vec<Block>,
    pub page_layout: Option<PageLayout>,
    pub header: Option<Vec<Block>>,
    pub footer: Option<Vec<Block>>,
    pub header_footer_type: Option<HeaderFooterType>,
}

pub ghost struct SectionV {
    pub blocks: Seq<BlockV>,
    pub page_layout: Option<PageLayout>,
    pub header: Option<Seq<BlockV>>,
    pub footer: Option<Seq<BlockV>>,
    pub header_footer_type: Option<HeaderFooterType>,
}

pub open spec fn opt_blocks_view(o: Option<Vec<Block>>) -> Option<Seq<BlockV>> {
    match o {
        Some(v) => Some(blocks_view(v@)),
        None => None,
    }
}

impl View for Section {
    type V = SectionV;

    open spec fn view(&self) -> SectionV {
        SectionV {
            blocks: blocks_view(self.blocks@),
            page_layout: self.page_layout,
            header: opt_blocks_view(self.header),
            footer: opt_blocks_view(self.footer),
            header_footer_type: self.header_footer_type,
        }
    }
}

impl Default for Section {
    fn default() -> (res: Self)
        ensures
            res@ == (SectionV {
                blocks: Seq::empty(),
                page_layout: None,
                header: None,
                footer: None,
                header_footer_type: None,
            }),
    {
        let res = Section { blocks: Vec::new(), page_layout: None, header: None, footer: None, header_footer_type: None };
        assert(res@.blocks =~= Seq::empty());
        res
    }
}

/// Document-level metadata.
#[derive(Debug, Clone, PartialEq)]
pub struct Metadata {
    pub title: Option<String>,
    pub author: Option<String>,
    pub subject: Option<String>,
    pub description: Option<String>,
}

impl Default for Metadata {
    fn default() -> (res: Self)
        ensures
            res.title is None,
            res.author is None,
            res.subject is None,
            res.description is None,
    {
        Metadata { title: None, author: None, subject: None, description: None }
    }
}

/// Paragraph break flags of the default paragraph property.
#[derive(Debug, Clone, Copy, PartialEq, Eq)]
pub struct BreakSetting {
    pub widow_orphan: bool,
    pub keep_with_next: bool,
    pub keep_lines: bool,
    pub page_break_before: bool,
}

impl Default for BreakSetting {
    fn default() -> (res: Self)
        ensures
            res == (BreakSetting { widow_orphan: false, keep_with_next: false, keep_lines: false, page_break_before: false }),
    {
        BreakSetting { widow_orphan: false, keep_with_next: false, keep_lines: false, page_break_before: false }
    }
}

/// A binary attachment (image) carried by the document.
#[derive(Debug, Clone, PartialEq)]
pub struct Asset {
    pub name: String,
    pub data: Vec<u8>,
    pub mime_type: String,
}

#[derive(Debug, Clone, PartialEq)]
pub struct Document {
    pub metadata: Metadata,
    pub sections: Vec<Section>,
    pub assets: Vec<Asset>,
}

impl Document {
    pub fn new() -> (res: Self)
        ensures
            res.sections@.len() == 0,
            res.assets@.len() == 0,
            res.metadata.title is None,
            res.metadata.author is None,
            res.metadata.subject is None,
            res.metadata.description is None,
    {
        Document { metadata: Metadata::default(), sections: Vec::new(), assets: Vec::new() }
    }
}

} // verus!

verus! {

// ---------------------------------------------------------------------------
// Deep copies
// ---------------------------------------------------------------------------

pub fn clone_inline(i: &Inline) -> (res: Inline)
    ensures
        res@ == i@,
{
    Inline {
        text: i.text.clone(),
        bold: i.bold,
        italic: i.italic,
        underline: i.underline,
        strikethrough: i.strikethrough,
        code: i.code,
        superscript: i.superscript,
        subscript: i.subscript,
        color: clone_opt(&i.color),
        font_name: clone_opt(&i.font_name),
        link: clone_opt(&i.link),
        ruby: clone_opt(&i.ruby),
        footnote_ref: clone_opt(&i.footnote_ref),
    }
}

pub fn clone_inlines(v: &Vec<Inline>) -> (res: Vec<Inline>)
    ensures
        inlines_view(res@) == inlines_view(v@),
{
    let mut out: Vec<Inline> = Vec::new();
    let mut i: usize = 0;
    while i < v.len()
        invariant
            0 <= i <= v.len(),
            inlines_view(out@) == inlines_view(v@.take(i as int)),
        decreases v.len() - i,
    {
        out.push(clone_inline(&v[i]));
        assert(inlines_view(v@.take(i + 1)) =~= inlines_view(v@.take(i as int)).push(v@[i as int]@));
        assert(inlines_view(out@) =~= inlines_view(v@.take(i + 1)));
        i = i + 1;
    }
    assert(v@.take(v.len() as int) == v@);
    out
}

pub fn clone_blocks(v: &Vec<Block>) -> (res: Vec<Block>)
    ensures
        blocks_view(res@) == blocks_view(v@),
    decreases v,
{
    let mut out: Vec<Block> = Vec::new();
    let mut i: usize = 0;
    while i < v.len()
        invariant
            0 <= i <= v.len(),
            blocks_view(out@) == blocks_view(v@.take(i as int)),
        decreases v.len() - i,
    {
        let b = clone_block(&v[i]);
        proof {
            lemma_blocks_view_push(out@, b);
            lemma_blocks_view_push(v@.take(i as int), v@[i as int]);
            assert(v@.take(i + 1) == v@.take(i as int).push(v@[i as int]));
        }
        out.push(b);
        i = i + 1;
    }
    assert(v@.take(v.len() as int) == v@);
    out
}

pub fn clone_items(v: &Vec<ListItem>) -> (res: Vec<ListItem>)
    ensures
        items_view(res@) == items_view(v@),
    decreases v,
{
    let mut out: Vec<ListItem> = Vec::new();
    let mut i: usize = 0;
    while i < v.len()
        invariant
            0 <= i <= v.len(),
            items_view(out@) == items_view(v@.take(i as int)),
        decreases v.len() - i,
    {
        let it = &v[i];
        let c = ListItem { blocks: clone_blocks(&it.blocks), children: clone_items(&it.children), checked: it.checked };
        proof {
            lemma_items_view_push(out@, c);
            lemma_items_view_push(v@.take(i as int), v@[i as int]);
            assert(v@.take(i + 1) == v@.take(i as int).push(v@[i as int]));
        }
        out.push(c);
        i = i + 1;
    }
    assert(v@.take(v.len() as int) == v@);
    out
}

pub fn clone_rows(v: &Vec<TableRow>) -> (res: Vec<TableRow>)
    ensures
        rows_view(res@) == rows_view(v@),
    decreases v,
{
    let mut out: Vec<TableRow> = Vec::new();
    let mut i: usize = 0;
    while i < v.len()
        invariant
            0 <= i <= v.len(),
            rows_view(out@) == rows_view(v@.take(i as int)),
        decreases v.len() - i,
    {
        let r = &v[i];
        let c = TableRow { cells: clone_cells(&r.cells), is_header: r.is_header };
        proof {
            lemma_rows_view_push(out@, c);
            lemma_rows_view_push(v@.take(i as int), v@[i as int]);
            assert(v@.take(i + 1) == v@.take(i as int).push(v@[i as int]));
        }
        out.push(c);
        i = i + 1;
    }
    assert(v@.take(v.len() as int) == v@);
    out
}

pub fn clone_cells(v: &Vec<TableCell>) -> (res: Vec<TableCell>)
    ensures
        cells_view(res@) == cells_view(v@),
    decreases v,
{
    let mut out: Vec<TableCell> = Vec::new();
    let mut i: usize = 0;
    while i < v.len()
        invariant
            0 <= i <= v.len(),
            cells_view(out@) == cells_view(v@.take(i as int)),
        decreases v.len() - i,
    {
        let x = &v[i];
        let c = TableCell { blocks: clone_blocks(&x.blocks), colspan: x.colspan, rowspan: x.rowspan };
        proof {
            lemma_cells_view_push(out@, c);
            lemma_cells_view_push(v@.take(i as int), v@[i as int]);
            assert(v@.take(i + 1) == v@.take(i as int).push(v@[i as int]));
        }
        out.push(c);
        i = i + 1;
    }
    assert(v@.take(v.len() as int) == v@);
    out
}

pub fn clone_block(b: &Block) -> (res: Block)
    ensures
        res@ == b@,
    decreases b,
{
    match b {
        Block::Heading { level, inlines } => Block::Heading { level: *level, inlines: clone_inlines(inlines) },
        Block::Paragraph { inlines } => Block::Paragraph { inlines: clone_inlines(inlines) },
        Block::Table { rows, col_count } => Block::Table { rows: clone_rows(rows), col_count: *col_count },
        Block::CodeBlock { language, code } => Block::CodeBlock { language: clone_opt(language), code: code.clone() },
        Block::BlockQuote { blocks } => Block::BlockQuote { blocks: clone_blocks(blocks) },
        Block::List { ordered, start, items } => Block::List { ordered: *ordered, start: *start, items: clone_items(items) },
        Block::Image { src, alt } => Block::Image { src: src.clone(), alt: alt.clone() },
        Block::HorizontalRule => Block::HorizontalRule,
        Block::PageBreak => Block::PageBreak,
        Block::Math { display, tex } => Block::Math { display: *display, tex: tex.clone() },
        Block::Footnote { id, content } => Block::Footnote { id: id.clone(), content: clone_blocks(content) },
    }
}

impl Clone for Block {
    fn clone(&self) -> (res: Self)
        ensures
            res@ == self@,
    {
        clone_block(self)
    }
}

fn clone_opt_blocks(o: &Option<Vec<Block>>) -> (res: Option<Vec<Block>>)
    ensures
        opt_blocks_view(res) == opt_blocks_view(*o),
{
    match o {
        Some(v) => Some(clone_blocks(v)),
        None => None,
    }
}

impl Clone for TableRow {
    fn clone(&self) -> (res: Self)
        ensures
            res@ == self@,
    {
        TableRow { cells: clone_cells(&self.cells), is_header: self.is_header }
    }
}

impl Clone for TableCell {
    fn clone(&self) -> (res: Self)
        ensures
            res@ == self@,
    {
        TableCell { blocks: clone_blocks(&self.blocks), colspan: self.colspan, rowspan: self.rowspan }
    }
}

impl Clone for ListItem {
    fn clone(&self) -> (res: Self)
        ensures
            res@ == self@,
    {
        ListItem { blocks: clone_blocks(&self.blocks), children: clone_items(&self.children), checked: self.checked }
    }
}

impl Clone for Section {
    fn clone(&self) -> (res: Self)
        ensures
            res@ == self@,
    {
        Section {
            blocks: clone_blocks(&self.blocks),
            page_layout: self.page_layout,
            header: clone_opt_blocks(&self.header),
            footer: clone_opt_blocks(&self.footer),
            header_footer_type: self.header_footer_type,
        }
    }
}

} // verus!
