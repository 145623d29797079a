//! The state of the section reader while it walks the XML events, with a
//! view of each part, and the routing of text, inlines and blocks to the
//! scope that is open (header, footer, footnote, list item, table cell or
//! the section itself).
use vstd::prelude::*;
use crate::ir::{
    Block, BlockV, HeaderFooterType, Inline, InlineV, ListItem, ListItemV, PageLayout, TableCell, TableInnerMargin,
    TableCellV, TableRow, TableRowV, blocks_view, cells_view, inlines_view, items_view, rows_view,
    lemma_blocks_view_push, opt_str_view,
};

use crate::attrs::{AttrsV, last_u32, last_u32_of};
use crate::ir::DEFAULT_TABLE_INNER_MARGIN;
use crate::xml::attrs_view;

verus! {

// ---------------------------------------------------------------------------
// Character formatting
// ---------------------------------------------------------------------------

/// Character formatting of the current run.
#[derive(Debug)]
pub struct FormattingState {
    pub bold: bool,
    pub italic: bool,
    pub underline: bool,
    pub strike: bool,
    pub superscript: bool,
    pub subscript: bool,
    pub color: Option<String>,
    pub font_name: Option<String>,
    /// Font height in 1/100 pt, from `<hp:charPr height="…"/>`.
    pub font_height: Option<u32>,
}

#[verifier::ext_equal]
pub ghost struct FormattingStateV {
    pub bold: bool,
    pub italic: bool,
    pub underline: bool,
    pub strike: bool,
    pub superscript: bool,
    pub subscript: bool,
    pub color: Option<Seq<char>>,
    pub font_name: Option<Seq<char>>,
    pub font_height: Option<u32>,
}

impl View for FormattingState {
    type V = FormattingStateV;

    open spec fn view(&self) -> FormattingStateV {
        FormattingStateV {
            bold: self.bold,
            italic: self.italic,
            underline: self.underline,
            strike: self.strike,
            superscript: self.superscript,
            subscript: self.subscript,
            color: opt_str_view(self.color),
            font_name: opt_str_view(self.font_name),
            font_height: self.font_height,
        }
    }
}

pub open spec fn default_fmt() -> FormattingStateV {
    FormattingStateV {
        bold: false,
        italic: false,
        underline: false,
        strike: false,
        superscript: false,
        subscript: false,
        color: None,
        font_name: None,
        font_height: None,
    }
}

impl Default for FormattingState {
    fn default() -> (res: Self)
        ensures
            res@ == default_fmt(),
    {
        FormattingState {
            bold: false,
            italic: false,
            underline: false,
            strike: false,
            superscript: false,
            subscript: false,
            color: None,
            font_name: None,
            font_height: None,
        }
    }
}

impl FormattingState {
    /// Back to no formatting (at the start of each run).
    pub fn reset(&mut self)
        ensures
            final(self)@ == default_fmt(),
    {
        self.bold = false;
        self.italic = false;
        self.underline = false;
        self.strike = false;
        self.superscript = false;
        self.subscript = false;
        self.color = None;
        self.font_name = None;
        self.font_height = None;
    }
}

// ---------------------------------------------------------------------------
// Tables, lists, footnotes, header / footer
// ---------------------------------------------------------------------------

/// Table being read.
#[derive(Debug)]
pub struct TableState {
    pub active: bool,
    pub in_cell: bool,
    pub rows: Vec<TableRow>,
    pub current_row_cells: Vec<TableCell>,
    pub cell_blocks: Vec<Block>,
    pub cell_inlines: Vec<Inline>,
    pub cell_text: String,
    pub col_count: usize,
    pub current_colspan: u32,
    pub current_rowspan: u32,
    pub inner_margin: Option<TableInnerMargin>,
}

#[verifier::ext_equal]
pub ghost struct TableStateV {
    pub active: bool,
    pub in_cell: bool,
    pub rows: Seq<TableRowV>,
    pub current_row_cells: Seq<TableCellV>,
    pub cell_blocks: Seq<BlockV>,
    pub cell_inlines: Seq<InlineV>,
    pub cell_text: Seq<char>,
    pub col_count: usize,
    pub current_colspan: u32,
    pub current_rowspan: u32,
    pub inner_margin: Option<TableInnerMargin>,
}

impl View for TableState {
    type V = TableStateV;

    open spec fn view(&self) -> TableStateV {
        TableStateV {
            active: self.active,
            in_cell: self.in_cell,
            rows: rows_view(self.rows@),
            current_row_cells: cells_view(self.current_row_cells@),
            cell_blocks: blocks_view(self.cell_blocks@),
            cell_inlines: inlines_view(self.cell_inlines@),
            cell_text: self.cell_text@,
            col_count: self.col_count,
            current_colspan: self.current_colspan,
            current_rowspan: self.current_rowspan,
            inner_margin: self.inner_margin,
        }
    }
}

pub open spec fn default_table() -> TableStateV {
    TableStateV {
        active: false,
        in_cell: false,
        rows: Seq::empty(),
        current_row_cells: Seq::empty(),
        cell_blocks: Seq::empty(),
        cell_inlines: Seq::empty(),
        cell_text: Seq::empty(),
        col_count: 0,
        current_colspan: 1,
        current_rowspan: 1,
        inner_margin: None,
    }
}

impl Default for TableState {
    fn default() -> (res: Self)
        ensures
            res@ == default_table(),
    {
        let res = TableState {
            active: false,
            in_cell: false,
            rows: Vec::new(),
            current_row_cells: Vec::new(),
            cell_blocks: Vec::new(),
            cell_inlines: Vec::new(),
            cell_text: String::new(),
            col_count: 0,
            current_colspan: 1,
            current_rowspan: 1,
            inner_margin: None,
        };
        assert(res@ =~= default_table());
        res
    }
}

/// One side of `<hp:inMargin>`: the last value of `keys` that parses as a
/// `u32`, else the default.
pub open spec fn in_margin_side(attrs: AttrsV, keys: Seq<Seq<char>>) -> u32 {
    match last_u32_of(attrs, keys, Some(DEFAULT_TABLE_INNER_MARGIN), 0) {
        Some(n) => n,
        None => DEFAULT_TABLE_INNER_MARGIN,
    }
}

/// The margins an `<hp:inMargin>` element with `attrs` gives.
pub open spec fn in_margin_of(attrs: AttrsV) -> TableInnerMargin {
    TableInnerMargin {
        left: in_margin_side(attrs, seq!["left"@, "hp:left"@]),
        right: in_margin_side(attrs, seq!["right"@, "hp:right"@]),
        top: in_margin_side(attrs, seq!["top"@, "hp:top"@]),
        bottom: in_margin_side(attrs, seq!["bottom"@, "hp:bottom"@]),
    }
}

fn in_margin_side_of(attrs: &Vec<(String, String)>, a: &'static str, b: &'static str) -> (res: u32)
    ensures
        res == in_margin_side(attrs_view(attrs@), seq![a@, b@]),
{
    match last_u32(attrs, &crate::handlers::keys2(a, b), Some(DEFAULT_TABLE_INNER_MARGIN), 0) {
        Some(n) => n,
        None => DEFAULT_TABLE_INNER_MARGIN,
    }
}

impl TableState {
    /// Reads `<hp:inMargin>`: each side it gives as a number replaces the
    /// default; the others keep it.
    pub fn parse_in_margin(&mut self, attrs: &Vec<(String, String)>)
        ensures
            final(self)@ == (TableStateV { inner_margin: Some(in_margin_of(attrs_view(attrs@))), ..old(self)@ }),
    {
        let m = TableInnerMargin {
            left: in_margin_side_of(attrs, "left", "hp:left"),
            right: in_margin_side_of(attrs, "right", "hp:right"),
            top: in_margin_side_of(attrs, "top", "hp:top"),
            bottom: in_margin_side_of(attrs, "bottom", "hp:bottom"),
        };
        self.inner_margin = Some(m);
    }
}

/// List being read (`<ol>` / `<ul>` with `<li>` items).
#[derive(Debug)]
pub struct ListState {
    pub ordered: bool,
    pub active: bool,
    pub items: Vec<ListItem>,
    pub in_item: bool,
    pub item_blocks: Vec<Block>,
    pub item_inlines: Vec<Inline>,
    pub item_text: String,
}

#[verifier::ext_equal]
pub ghost struct ListStateV {
    pub ordered: bool,
    pub active: bool,
    pub items: Seq<ListItemV>,
    pub in_item: bool,
    pub item_blocks: Seq<BlockV>,
    pub item_inlines: Seq<InlineV>,
    pub item_text: Seq<char>,
}

impl View for ListState {
    type V = ListStateV;

    open spec fn view(&self) -> ListStateV {
        ListStateV {
            ordered: self.ordered,
            active: self.active,
            items: items_view(self.items@),
            in_item: self.in_item,
            item_blocks: blocks_view(self.item_blocks@),
            item_inlines: inlines_view(self.item_inlines@),
            item_text: self.item_text@,
        }
    }
}

pub open spec fn default_list() -> ListStateV {
    ListStateV {
        ordered: false,
        active: false,
        items: Seq::empty(),
        in_item: false,
        item_blocks: Seq::empty(),
        item_inlines: Seq::empty(),
        item_text: Seq::empty(),
    }
}

impl Default for ListState {
    fn default() -> (res: Self)
        ensures
            res@ == default_list(),
    {
        let res = ListState {
            ordered: false,
            active: false,
            items: Vec::new(),
            in_item: false,
            item_blocks: Vec::new(),
            item_inlines: Vec::new(),
            item_text: String::new(),
        };
        assert(res@ =~= default_list());
        res
    }
}

/// Footnote or endnote being read.
#[derive(Debug)]
pub struct FootnoteState {
    pub active: bool,
    pub id: String,
    pub blocks: Vec<Block>,
    pub inlines: Vec<Inline>,
    pub text: String,
}

#[verifier::ext_equal]
pub ghost struct FootnoteStateV {
    pub active: bool,
    pub id: Seq<char>,
    pub blocks: Seq<BlockV>,
    pub inlines: Seq<InlineV>,
    pub text: Seq<char>,
}

impl View for FootnoteState {
    type V = FootnoteStateV;

    open spec fn view(&self) -> FootnoteStateV {
        FootnoteStateV {
            active: self.active,
            id: self.id@,
            blocks: blocks_view(self.blocks@),
            inlines: inlines_view(self.inlines@),
            text: self.text@,
        }
    }
}

pub open spec fn default_footnote() -> FootnoteStateV {
    FootnoteStateV { active: false, id: Seq::empty(), blocks: Seq::empty(), inlines: Seq::empty(), text: Seq::empty() }
}

impl Default for FootnoteState {
    fn default() -> (res: Self)
        ensures
            res@ == default_footnote(),
    {
        let res = FootnoteState { active: false, id: String::new(), blocks: Vec::new(), inlines: Vec::new(), text: String::new() };
        assert(res@ =~= default_footnote());
        res
    }
}

/// `<hp:headerFooter>` being read, with its header and footer.
#[derive(Debug)]
pub struct HeaderFooterState {
    pub active: bool,
    pub in_header: bool,
    pub in_footer: bool,
    pub header_blocks: Vec<Block>,
    pub footer_blocks: Vec<Block>,
    pub text: String,
    pub inlines: Vec<Inline>,
    pub hf_type: Option<HeaderFooterType>,
}

#[verifier::ext_equal]
pub ghost struct HeaderFooterStateV {
    pub active: bool,
    pub in_header: bool,
    pub in_footer: bool,
    pub header_blocks: Seq<BlockV>,
    pub footer_blocks: Seq<BlockV>,
    pub text: Seq<char>,
    pub inlines: Seq<InlineV>,
    pub hf_type: Option<HeaderFooterType>,
}

impl View for HeaderFooterState {
    type V = HeaderFooterStateV;

    open spec fn view(&self) -> HeaderFooterStateV {
        HeaderFooterStateV {
            active: self.active,
            in_header: self.in_header,
            in_footer: self.in_footer,
            header_blocks: blocks_view(self.header_blocks@),
            footer_blocks: blocks_view(self.footer_blocks@),
            text: self.text@,
            inlines: inlines_view(self.inlines@),
            hf_type: self.hf_type,
        }
    }
}

pub open spec fn default_hf() -> HeaderFooterStateV {
    HeaderFooterStateV {
        active: false,
        in_header: false,
        in_footer: false,
        header_blocks: Seq::empty(),
        footer_blocks: Seq::empty(),
        text: Seq::empty(),
        inlines: Seq::empty(),
        hf_type: None,
    }
}

impl Default for HeaderFooterState {
    fn default() -> (res: Self)
        ensures
            res@ == default_hf(),
    {
        let res = HeaderFooterState {
            active: false,
            in_header: false,
            in_footer: false,
            header_blocks: Vec::new(),
            footer_blocks: Vec::new(),
            text: String::new(),
            inlines: Vec::new(),
            hf_type: None,
        };
        assert(res@ =~= default_hf());
        res
    }
}

// ---------------------------------------------------------------------------
// Page layout
// ---------------------------------------------------------------------------

/// Page geometry read from `<hp:secPr>` and its children.
#[derive(Debug, Clone, Copy, PartialEq, Eq)]
pub struct PageLayoutState {
    pub landscape: bool,
    pub width: Option<u32>,
    pub height: Option<u32>,
    pub margin_left: Option<u32>,
    pub margin_right: Option<u32>,
    pub margin_top: Option<u32>,
    pub margin_bottom: Option<u32>,
    pub has_sec_pr: bool,
}

pub open spec fn default_page() -> PageLayoutState {
    PageLayoutState {
        landscape: false,
        width: None,
        height: None,
        margin_left: None,
        margin_right: None,
        margin_top: None,
        margin_bottom: None,
        has_sec_pr: false,
    }
}

/// The layout a section gets: only when it had a `<hp:secPr>`.
pub open spec fn layout_of(p: PageLayoutState) -> Option<PageLayout> {
    if p.has_sec_pr {
        Some(PageLayout {
            width: p.width,
            height: p.height,
            landscape: p.landscape,
            margin_left: p.margin_left,
            margin_right: p.margin_right,
            margin_top: p.margin_top,
            margin_bottom: p.margin_bottom,
        })
    } else {
        None
    }
}

impl Default for PageLayoutState {
    fn default() -> (res: Self)
        ensures
            res == default_page(),
    {
        PageLayoutState {
            landscape: false,
            width: None,
            height: None,
            margin_left: None,
            margin_right: None,
            margin_top: None,
            margin_bottom: None,
            has_sec_pr: false,
        }
    }
}

impl PageLayoutState {
    /// The page layout read so far, or `None` when no `<hp:secPr>` was seen.
    pub fn take(&self) -> (res: Option<PageLayout>)
        ensures
            res == layout_of(*self),
    {
        if !self.has_sec_pr {
            return None;
        }
        Some(PageLayout {
            width: self.width,
            height: self.height,
            landscape: self.landscape,
            margin_left: self.margin_left,
            margin_right: self.margin_right,
            margin_top: self.margin_top,
            margin_bottom: self.margin_bottom,
        })
    }
}

/// The landscape flag after the `landscape` attributes of `attrs`, read in
/// order, starting from `init`.
pub open spec fn landscape_of(attrs: AttrsV, init: bool) -> bool
    decreases attrs.len(),
{
    if attrs.len() == 0 {
        init
    } else {
        let prev = landscape_of(attrs.drop_last(), init);
        if attrs.last().0 == "landscape"@ || attrs.last().0 == "hp:landscape"@ {
            crate::flush::bool_attr(attrs.last().1, prev)
        } else {
            prev
        }
    }
}

/// The layout after `<hp:pageSize>` with `attrs`.
pub open spec fn page_size_of(p: PageLayoutState, attrs: AttrsV) -> PageLayoutState {
    PageLayoutState {
        width: last_u32_of(attrs, seq!["width"@, "hp:width"@], p.width, 0),
        height: last_u32_of(attrs, seq!["height"@, "hp:height"@], p.height, 0),
        ..p
    }
}

/// The layout after `<hp:margin>` with `attrs`.
pub open spec fn margin_of(p: PageLayoutState, attrs: AttrsV) -> PageLayoutState {
    PageLayoutState {
        margin_left: last_u32_of(attrs, seq!["left"@, "hp:left"@], p.margin_left, 0),
        margin_right: last_u32_of(attrs, seq!["right"@, "hp:right"@], p.margin_right, 0),
        margin_top: last_u32_of(attrs, seq!["top"@, "hp:top"@], p.margin_top, 0),
        margin_bottom: last_u32_of(attrs, seq!["bottom"@, "hp:bottom"@], p.margin_bottom, 0),
        ..p
    }
}

/// The layout after `<hp:pagePr>` with `attrs`.
pub open spec fn page_pr_of(p: PageLayoutState, attrs: AttrsV) -> PageLayoutState {
    PageLayoutState { landscape: landscape_of(attrs, p.landscape), ..p }
}

impl PageLayoutState {
    /// Reads `<hp:pageSize>`: a width or height that parses as a `u32`
    /// replaces the one held; others leave it.
    pub fn parse_page_size(&mut self, attrs: &Vec<(String, String)>)
        ensures
            *final(self) == page_size_of(*old(self), attrs_view(attrs@)),
    {
        self.width = last_u32(attrs, &crate::handlers::keys2("width", "hp:width"), self.width, 0);
        self.height = last_u32(attrs, &crate::handlers::keys2("height", "hp:height"), self.height, 0);
    }

    /// Reads `<hp:margin>`: each side that parses as a `u32` replaces the
    /// one held.
    pub fn parse_margin(&mut self, attrs: &Vec<(String, String)>)
        ensures
            *final(self) == margin_of(*old(self), attrs_view(attrs@)),
    {
        self.margin_left = last_u32(attrs, &crate::handlers::keys2("left", "hp:left"), self.margin_left, 0);
        self.margin_right = last_u32(attrs, &crate::handlers::keys2("right", "hp:right"), self.margin_right, 0);
        self.margin_top = last_u32(attrs, &crate::handlers::keys2("top", "hp:top"), self.margin_top, 0);
        self.margin_bottom = last_u32(attrs, &crate::handlers::keys2("bottom", "hp:bottom"), self.margin_bottom, 0);
    }

    /// Reads `<hp:pagePr>`: `landscape` set to `true`/`1` or `false`/`0`
    /// changes the orientation; any other value keeps it.
    pub fn parse_page_pr(&mut self, attrs: &Vec<(String, String)>)
        ensures
            *final(self) == page_pr_of(*old(self), attrs_view(attrs@)),
    {
        let ghost av = attrs_view(attrs@);
        let ghost p0 = *self;
        let mut i: usize = 0;
        while i < attrs.len()
            invariant
                0 <= i <= attrs.len(),
                av == attrs_view(attrs@),
                *self == (PageLayoutState { landscape: self.landscape, ..p0 }),
                self.landscape == landscape_of(av.take(i as int), p0.landscape),
            decreases attrs.len() - i,
        {
            assert(av.take(i + 1).drop_last() == av.take(i as int));
            assert(av.take(i + 1).last() == av[i as int]);
            let k = attrs[i].0.as_str();
            if crate::text::str_eq(k, "landscape") || crate::text::str_eq(k, "hp:landscape") {
                self.landscape = crate::flush::parse_bool_preserve(attrs[i].1.as_str(), self.landscape);
            }
            i = i + 1;
        }
        assert(av.take(attrs.len() as int) == av);
    }
}

// ---------------------------------------------------------------------------
// Code-block hint and ruby parts
// ---------------------------------------------------------------------------

/// Whether the next paragraph is a code block, and in which language.
#[derive(Debug, PartialEq, Clone)]
pub enum CodeLangHint {
    /// An ordinary paragraph.
    Plain,
    /// A code block without a language (`<!-- hwp2md:lang: -->`).
    CodeNoLang,
    /// A code block in a language (`<!-- hwp2md:lang:python -->`).
    Code(String),
}

pub ghost enum CodeLangHintV {
    Plain,
    CodeNoLang,
    Code(Seq<char>),
}

impl View for CodeLangHint {
    type V = CodeLangHintV;

    open spec fn view(&self) -> CodeLangHintV {
        match self {
            CodeLangHint::Plain => CodeLangHintV::Plain,
            CodeLangHint::CodeNoLang => CodeLangHintV::CodeNoLang,
            CodeLangHint::Code(s) => CodeLangHintV::Code(s@),
        }
    }
}

/// Which child of `<hp:ruby>` is being read.
#[derive(Debug, Clone, Copy, PartialEq, Eq)]
pub enum RubyPart {
    /// Neither the base text nor the annotation.
    Outside,
    Base,
    Annotation,
}

// ---------------------------------------------------------------------------
// The parse context
// ---------------------------------------------------------------------------

/// The state threaded through the XML event handlers of one section.
#[derive(Debug)]
pub struct ParseContext {
    pub in_paragraph: bool,
    pub in_run: bool,
    /// Inside a `<hp:t>` element.
    pub in_text: bool,
    pub current_text: String,
    pub current_inlines: Vec<Inline>,
    /// Face names of header.xml's first `<hh:fontface>`, by ID.
    pub face_names: Vec<String>,
    pub heading_level: Option<u8>,
    pub fmt: FormattingState,
    pub table: TableState,
    pub list: ListState,
    pub equation_text: String,
    pub in_equation: bool,
    pub footnote: FootnoteState,
    pub in_hyperlink: bool,
    pub hyperlink_url: Option<String>,
    pub in_ruby: bool,
    pub ruby_base_text: String,
    pub ruby_annotation_text: String,
    pub ruby_current_part: RubyPart,
    /// `paraPrIDRef` of the current `<hp:p>`.
    pub current_para_pr_id: Option<String>,
    /// `numPrIDRef` of the current `<hp:p>`.
    pub current_num_pr_id: Option<String>,
    /// Whether the next paragraph becomes a code block.
    pub pending_code_lang: CodeLangHint,
    /// Largest `charPr` height in the current paragraph (1/100 pt).
    pub para_max_font_height: u32,
    /// Whether the run with that height was bold.
    pub para_max_font_height_bold: bool,
    pub page_layout: PageLayoutState,
    pub header_footer: HeaderFooterState,
}

#[verifier::ext_equal]
pub ghost struct CtxV {
    pub in_paragraph: bool,
    pub in_run: bool,
    pub in_text: bool,
    pub current_text: Seq<char>,
    pub current_inlines: Seq<InlineV>,
    pub face_names: Seq<Seq<char>>,
    pub heading_level: Option<u8>,
    pub fmt: FormattingStateV,
    pub table: TableStateV,
    pub list: ListStateV,
    pub equation_text: Seq<char>,
    pub in_equation: bool,
    pub footnote: FootnoteStateV,
    pub in_hyperlink: bool,
    pub hyperlink_url: Option<Seq<char>>,
    pub in_ruby: bool,
    pub ruby_base_text: Seq<char>,
    pub ruby_annotation_text: Seq<char>,
    pub ruby_current_part: RubyPart,
    pub current_para_pr_id: Option<Seq<char>>,
    pub current_num_pr_id: Option<Seq<char>>,
    pub pending_code_lang: CodeLangHintV,
    pub para_max_font_height: u32,
    pub para_max_font_height_bold: bool,
    pub page_layout: PageLayoutState,
    pub header_footer: HeaderFooterStateV,
}

impl View for ParseContext {
    type V = CtxV;

    open spec fn view(&self) -> CtxV {
        CtxV {
            in_paragraph: self.in_paragraph,
            in_run: self.in_run,
            in_text: self.in_text,
            current_text: self.current_text@,
            current_inlines: inlines_view(self.current_inlines@),
            face_names: self.face_names@.map_values(|s: String| s@),
            heading_level: self.heading_level,
            fmt: self.fmt@,
            table: self.table@,
            list: self.list@,
            equation_text: self.equation_text@,
            in_equation: self.in_equation,
            footnote: self.footnote@,
            in_hyperlink: self.in_hyperlink,
            hyperlink_url: opt_str_view(self.hyperlink_url),
            in_ruby: self.in_ruby,
            ruby_base_text: self.ruby_base_text@,
            ruby_annotation_text: self.ruby_annotation_text@,
            ruby_current_part: self.ruby_current_part,
            current_para_pr_id: opt_str_view(self.current_para_pr_id),
            current_num_pr_id: opt_str_view(self.current_num_pr_id),
            pending_code_lang: self.pending_code_lang@,
            para_max_font_height: self.para_max_font_height,
            para_max_font_height_bold: self.para_max_font_height_bold,
            page_layout: self.page_layout,
            header_footer: self.header_footer@,
        }
    }
}

/// A fresh context that knows the face names `faces`.
pub open spec fn initial_ctx(faces: Seq<Seq<char>>) -> CtxV {
    CtxV {
        in_paragraph: false,
        in_run: false,
        in_text: false,
        current_text: Seq::empty(),
        current_inlines: Seq::empty(),
        face_names: faces,
        heading_level: None,
        fmt: default_fmt(),
        table: default_table(),
        list: default_list(),
        equation_text: Seq::empty(),
        in_equation: false,
        footnote: default_footnote(),
        in_hyperlink: false,
        hyperlink_url: None,
        in_ruby: false,
        ruby_base_text: Seq::empty(),
        ruby_annotation_text: Seq::empty(),
        ruby_current_part: RubyPart::Outside,
        current_para_pr_id: None,
        current_num_pr_id: None,
        pending_code_lang: CodeLangHintV::Plain,
        para_max_font_height: 0,
        para_max_font_height_bold: false,
        page_layout: default_page(),
        header_footer: default_hf(),
    }
}

impl Default for ParseContext {
    fn default() -> (res: Self)
        ensures
            res@ == initial_ctx(Seq::empty()),
    {
        let res = ParseContext {
            in_paragraph: false,
            in_run: false,
            in_text: false,
            current_text: String::new(),
            current_inlines: Vec::new(),
            face_names: Vec::new(),
            heading_level: None,
            fmt: FormattingState::default(),
            table: TableState::default(),
            list: ListState::default(),
            equation_text: String::new(),
            in_equation: false,
            footnote: FootnoteState::default(),
            in_hyperlink: false,
            hyperlink_url: None,
            in_ruby: false,
            ruby_base_text: String::new(),
            ruby_annotation_text: String::new(),
            ruby_current_part: RubyPart::Outside,
            current_para_pr_id: None,
            current_num_pr_id: None,
            pending_code_lang: CodeLangHint::Plain,
            para_max_font_height: 0,
            para_max_font_height_bold: false,
            page_layout: PageLayoutState::default(),
            header_footer: HeaderFooterState::default(),
        };
        assert(res@.current_inlines =~= Seq::empty());
        assert(res@.face_names =~= Seq::empty());
        res
    }
}

// ---------------------------------------------------------------------------
// Routing to the open scope
// ---------------------------------------------------------------------------

/// Text and inlines go to the header/footer buffer only while inside
/// `<hp:headerFooter>` and one of its parts.
pub open spec fn in_hf_text(c: CtxV) -> bool {
    c.header_footer.active && (c.header_footer.in_header || c.header_footer.in_footer)
}

/// `t` appended to the text buffer of the open scope: header/footer,
/// footnote, list item, table cell, or the paragraph.
pub open spec fn push_text_spec(c: CtxV, t: Seq<char>) -> CtxV {
    if in_hf_text(c) {
        CtxV { header_footer: HeaderFooterStateV { text: c.header_footer.text + t, ..c.header_footer }, ..c }
    } else if c.footnote.active {
        CtxV { footnote: FootnoteStateV { text: c.footnote.text + t, ..c.footnote }, ..c }
    } else if c.list.in_item {
        CtxV { list: ListStateV { item_text: c.list.item_text + t, ..c.list }, ..c }
    } else if c.table.in_cell {
        CtxV { table: TableStateV { cell_text: c.table.cell_text + t, ..c.table }, ..c }
    } else {
        CtxV { current_text: c.current_text + t, ..c }
    }
}

/// The text buffer of the open scope.
pub open spec fn active_text(c: CtxV) -> Seq<char> {
    if in_hf_text(c) {
        c.header_footer.text
    } else if c.footnote.active {
        c.footnote.text
    } else if c.list.in_item {
        c.list.item_text
    } else if c.table.in_cell {
        c.table.cell_text
    } else {
        c.current_text
    }
}

/// The context with the text buffer of the open scope replaced by `t`.
pub open spec fn with_active_text(c: CtxV, t: Seq<char>) -> CtxV {
    if in_hf_text(c) {
        CtxV { header_footer: HeaderFooterStateV { text: t, ..c.header_footer }, ..c }
    } else if c.footnote.active {
        CtxV { footnote: FootnoteStateV { text: t, ..c.footnote }, ..c }
    } else if c.list.in_item {
        CtxV { list: ListStateV { item_text: t, ..c.list }, ..c }
    } else if c.table.in_cell {
        CtxV { table: TableStateV { cell_text: t, ..c.table }, ..c }
    } else {
        CtxV { current_text: t, ..c }
    }
}

/// Appending to the open scope's text is writing its buffer with `t` added.
pub proof fn lemma_push_text_is_active(c: CtxV, t: Seq<char>)
    ensures
        push_text_spec(c, t) == with_active_text(c, active_text(c) + t),
{
}

/// `i` appended to the inline buffer of the open scope (same order as text).
pub open spec fn push_inline_spec(c: CtxV, i: InlineV) -> CtxV {
    if in_hf_text(c) {
        CtxV { header_footer: HeaderFooterStateV { inlines: c.header_footer.inlines.push(i), ..c.header_footer }, ..c }
    } else if c.footnote.active {
        CtxV { footnote: FootnoteStateV { inlines: c.footnote.inlines.push(i), ..c.footnote }, ..c }
    } else if c.list.in_item {
        CtxV { list: ListStateV { item_inlines: c.list.item_inlines.push(i), ..c.list }, ..c }
    } else if c.table.in_cell {
        CtxV { table: TableStateV { cell_inlines: c.table.cell_inlines.push(i), ..c.table }, ..c }
    } else {
        CtxV { current_inlines: c.current_inlines.push(i), ..c }
    }
}

/// Whether a block goes into a nested scope (header, footer, footnote, list
/// item or table cell) rather than to the section.
pub open spec fn block_nested(c: CtxV) -> bool {
    c.header_footer.in_header || c.header_footer.in_footer || c.footnote.active || c.list.in_item || c.table.in_cell
}

/// `b` appended to the block list of the open nested scope; unchanged at
/// top level.
pub open spec fn push_block_spec(c: CtxV, b: BlockV) -> CtxV {
    if c.header_footer.in_header {
        CtxV { header_footer: HeaderFooterStateV { header_blocks: c.header_footer.header_blocks.push(b), ..c.header_footer }, ..c }
    } else if c.header_footer.in_footer {
        CtxV { header_footer: HeaderFooterStateV { footer_blocks: c.header_footer.footer_blocks.push(b), ..c.header_footer }, ..c }
    } else if c.footnote.active {
        CtxV { footnote: FootnoteStateV { blocks: c.footnote.blocks.push(b), ..c.footnote }, ..c }
    } else if c.list.in_item {
        CtxV { list: ListStateV { item_blocks: c.list.item_blocks.push(b), ..c.list }, ..c }
    } else if c.table.in_cell {
        CtxV { table: TableStateV { cell_blocks: c.table.cell_blocks.push(b), ..c.table }, ..c }
    } else {
        c
    }
}

fn push_string(s: &mut String, t: &str)
    ensures
        final(s)@ == old(s)@ + t@,
{
    crate::text::push_str(s, t);
}

fn push_inline_to(v: &mut Vec<Inline>, i: Inline)
    ensures
        inlines_view(final(v)@) == inlines_view(old(v)@).push(i@),
{
    let ghost before = v@;
    v.push(i);
    assert(inlines_view(v@) =~= inlines_view(before).push(i@));
}

fn push_block_to(v: &mut Vec<Block>, b: Block)
    ensures
        blocks_view(final(v)@) == blocks_view(old(v)@).push(b@),
{
    let ghost before = v@;
    v.push(b);
    proof { lemma_blocks_view_push(before, b); }
}

impl ParseContext {
    /// The page layout read from the section, if it had a `<hp:secPr>`.
    pub fn take_page_layout(&self) -> (res: Option<PageLayout>)
        ensures
            res == layout_of(self.page_layout),
    {
        self.page_layout.take()
    }

    /// The text buffer of the open scope (header/footer, footnote, list
    /// item, table cell, or the paragraph), to be written through.
    pub fn active_text_buf(&mut self) -> (r: &mut String)
        ensures
            r@ == active_text(old(self)@),
            final(self)@ == with_active_text(old(self)@, final(r)@),
    {
        if self.header_footer.active && (self.header_footer.in_header || self.header_footer.in_footer) {
            &mut self.header_footer.text
        } else if self.footnote.active {
            &mut self.footnote.text
        } else if self.list.in_item {
            &mut self.list.item_text
        } else if self.table.in_cell {
            &mut self.table.cell_text
        } else {
            &mut self.current_text
        }
    }

    /// Appends `t` to the text buffer of the open scope.
    pub fn push_text(&mut self, t: &str)
        ensures
            final(self)@ == push_text_spec(old(self)@, t@),
    {
        proof {
            lemma_push_text_is_active(self@, t@);
        }
        let buf = self.active_text_buf();
        push_string(buf, t);
    }

    /// Appends an inline to the inline buffer of the open scope.
    pub fn push_inline(&mut self, inline: Inline)
        ensures
            final(self)@ == push_inline_spec(old(self)@, inline@),
    {
        if self.header_footer.active && (self.header_footer.in_header || self.header_footer.in_footer) {
            push_inline_to(&mut self.header_footer.inlines, inline);
        } else if self.footnote.active {
            push_inline_to(&mut self.footnote.inlines, inline);
        } else if self.list.in_item {
            push_inline_to(&mut self.list.item_inlines, inline);
        } else if self.table.in_cell {
            push_inline_to(&mut self.table.cell_inlines, inline);
        } else {
            push_inline_to(&mut self.current_inlines, inline);
        }
    }

    /// Appends a block to the open nested scope; at top level hands it back
    /// for the section.
    pub fn push_block_scoped(&mut self, block: Block) -> (res: Option<Block>)
        ensures
            final(self)@ == push_block_spec(old(self)@, block@),
            match res {
                Some(b) => !block_nested(old(self)@) && b@ == block@,
                None => block_nested(old(self)@),
            },
    {
        if self.header_footer.in_header {
            push_block_to(&mut self.header_footer.header_blocks, block);
            None
        } else if self.header_footer.in_footer {
            push_block_to(&mut self.header_footer.footer_blocks, block);
            None
        } else if self.footnote.active {
            push_block_to(&mut self.footnote.blocks, block);
            None
        } else if self.list.in_item {
            push_block_to(&mut self.list.item_blocks, block);
            None
        } else if self.table.in_cell {
            push_block_to(&mut self.table.cell_blocks, block);
            None
        } else {
            Some(block)
        }
    }
}

} // verus!
