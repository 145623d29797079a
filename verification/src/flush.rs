//! Turning buffered text and inlines into blocks: paragraphs, headings and
//! code blocks, in the open scope or staged for the section; and grouping
//! flat list paragraphs into nested lists.
use vstd::prelude::*;
use crate::context::{
    CodeLangHint, CodeLangHintV, CtxV, FootnoteStateV, FormattingState, FormattingStateV,
    HeaderFooterStateV, ListStateV, ParseContext, TableStateV,
};
use crate::ir::{
    Block, BlockV, Inline, InlineV, ListItem, ListItemV, Section, blocks_view, inlines_view, items_view,
    lemma_blocks_view_push, lemma_items_view_push, opt_str_view, plain_inline_v,
};

verus! {

// ---------------------------------------------------------------------------
// What a flush produces
// ---------------------------------------------------------------------------

/// `val` as a boolean attribute: `true`/`1` and `false`/`0`; anything else
/// keeps `current`.
pub open spec fn bool_attr(val: Seq<char>, current: bool) -> bool {
    if val == "true"@ || val == "1"@ {
        true
    } else if val == "false"@ || val == "0"@ {
        false
    } else {
        current
    }
}

/// The inline that `text` becomes under the formatting `f`.
pub open spec fn fmt_inline(f: FormattingStateV, text: Seq<char>) -> InlineV {
    InlineV {
        bold: f.bold,
        italic: f.italic,
        underline: f.underline,
        strikethrough: f.strike,
        superscript: f.superscript,
        subscript: f.subscript,
        color: f.color,
        font_name: f.font_name,
        ..plain_inline_v(text)
    }
}

/// The texts of `s`, concatenated.
pub open spec fn inline_texts(s: Seq<InlineV>) -> Seq<char>
    decreases s.len(),
{
    if s.len() == 0 { Seq::empty() } else { inline_texts(s.drop_last()) + s.last().text }
}

/// The code block that a code hint makes of `inls`; `None` for a plain
/// paragraph.
pub open spec fn code_block_of(code: CodeLangHintV, inls: Seq<InlineV>) -> Option<BlockV> {
    match code {
        CodeLangHintV::CodeNoLang => Some(BlockV::CodeBlock { language: None, code: inline_texts(inls) }),
        CodeLangHintV::Code(l) => Some(BlockV::CodeBlock { language: Some(l), code: inline_texts(inls) }),
        CodeLangHintV::Plain => None,
    }
}

/// Heading level from font size: a bold run of at least 16, 14 or 12 pt
/// makes level 1, 2 or 3, in a paragraph of fewer than 100 characters.
pub open spec fn height_level(inls: Seq<InlineV>, hint: Option<(u32, bool)>) -> Option<u8> {
    match hint {
        Some((h, bold)) => if !bold || inline_texts(inls).len() >= 100 {
            None
        } else if h >= 1600 {
            Some(1u8)
        } else if h >= 1400 {
            Some(2u8)
        } else if h >= 1200 {
            Some(3u8)
        } else {
            None
        },
        None => None,
    }
}

/// The style's level when there is one, else the level from font size.
/// Headings are not read from the wording of a paragraph (such as the
/// chapter and article markers of Korean regulations): this library has no
/// text-pattern detector, so a paragraph that neither tier makes a heading
/// stays a paragraph.
pub open spec fn heading_level_of(style: Option<u8>, inls: Seq<InlineV>, hint: Option<(u32, bool)>) -> Option<u8> {
    match style {
        Some(l) => Some(l),
        None => height_level(inls, hint),
    }
}

/// The block a top-level paragraph becomes: code block, heading or paragraph.
pub open spec fn block_of(inls: Seq<InlineV>, code: CodeLangHintV, style: Option<u8>, hint: Option<(u32, bool)>) -> BlockV {
    match code_block_of(code, inls) {
        Some(b) => b,
        None => match heading_level_of(style, inls, hint) {
            Some(l) => BlockV::Heading { level: l, inlines: inls },
            None => BlockV::Paragraph { inlines: inls },
        },
    }
}

/// The inlines with the pending text (if any) appended as one more inline.
pub open spec fn with_text(inls: Seq<InlineV>, text: Seq<char>, f: FormattingStateV) -> Seq<InlineV> {
    if text.len() > 0 { inls.push(fmt_inline(f, text)) } else { inls }
}

/// The block list after a nested-scope flush: one more paragraph or code
/// block when there was anything to flush (never a heading).
pub open spec fn flushed(text: Seq<char>, inls: Seq<InlineV>, blocks: Seq<BlockV>, f: FormattingStateV, code: CodeLangHintV) -> Seq<BlockV> {
    let all = with_text(inls, text, f);
    if all.len() > 0 {
        blocks.push(match code_block_of(code, all) {
            Some(b) => b,
            None => BlockV::Paragraph { inlines: all },
        })
    } else {
        blocks
    }
}

// ---------------------------------------------------------------------------
// Small pieces
// ---------------------------------------------------------------------------

/// Moves the text out, leaving an empty string.
pub fn take_string(s: &mut String) -> (res: String)
    ensures
        res@ == old(s)@,
        final(s)@ == Seq::<char>::empty(),
{
    let mut t = String::new();
    std::mem::swap(s, &mut t);
    t
}

/// Moves the inlines out, leaving an empty vector.
pub fn take_inlines(v: &mut Vec<Inline>) -> (res: Vec<Inline>)
    ensures
        res@ == old(v)@,
        final(v)@ == Seq::<Inline>::empty(),
{
    let mut t: Vec<Inline> = Vec::new();
    std::mem::swap(v, &mut t);
    t
}

/// Moves the blocks out, leaving an empty vector.
pub fn take_blocks(v: &mut Vec<Block>) -> (res: Vec<Block>)
    ensures
        res@ == old(v)@,
        final(v)@ == Seq::<Block>::empty(),
{
    let mut t: Vec<Block> = Vec::new();
    std::mem::swap(v, &mut t);
    t
}

/// A boolean attribute value; unknown values keep `current`.
pub fn parse_bool_preserve(val: &str, current: bool) -> (res: bool)
    ensures
        res == bool_attr(val@, current),
{
    if crate::text::str_eq(val, "true") || crate::text::str_eq(val, "1") {
        true
    } else if crate::text::str_eq(val, "false") || crate::text::str_eq(val, "0") {
        false
    } else {
        current
    }
}

/// The inline `text` becomes under `fmt`.
pub fn make_inline(text: String, fmt: &FormattingState) -> (res: Inline)
    ensures
        res@ == fmt_inline(fmt@, text@),
{
    Inline::with_formatting(
        text,
        fmt.bold,
        fmt.italic,
        fmt.underline,
        fmt.strike,
        fmt.superscript,
        fmt.subscript,
        crate::ir::clone_opt(&fmt.color),
    ).with_font_name(crate::ir::clone_opt(&fmt.font_name))
}

/// The texts of `inlines`, concatenated.
pub fn collect_inline_text(inlines: Vec<Inline>) -> (res: String)
    ensures
        res@ == inline_texts(inlines_view(inlines@)),
{
    let ghost iv = inlines_view(inlines@);
    let mut s = String::new();
    let mut i: usize = 0;
    while i < inlines.len()
        invariant
            0 <= i <= inlines.len(),
            iv == inlines_view(inlines@),
            s@ == inline_texts(iv.take(i as int)),
        decreases inlines.len() - i,
    {
        crate::text::push_str(&mut s, inlines[i].text.as_str());
        assert(iv.take(i + 1).drop_last() == iv.take(i as int));
        i = i + 1;
    }
    assert(iv.take(inlines.len() as int) == iv);
    s
}

/// A code block when the hint asks for one; otherwise the inlines back.
pub fn try_code_block(code_lang: CodeLangHint, inlines: Vec<Inline>) -> (res: Result<Block, Vec<Inline>>)
    ensures
        match code_block_of(code_lang@, inlines_view(inlines@)) {
            Some(b) => res is Ok && res->Ok_0@ == b,
            None => res is Err && res->Err_0@ == inlines@,
        },
{
    match code_lang {
        CodeLangHint::CodeNoLang => Ok(Block::CodeBlock { language: None, code: collect_inline_text(inlines) }),
        CodeLangHint::Code(lang) => Ok(Block::CodeBlock { language: Some(lang), code: collect_inline_text(inlines) }),
        CodeLangHint::Plain => Err(inlines),
    }
}

/// Whether the paragraph has at least 100 characters.
fn has_100_chars(inlines: &Vec<Inline>) -> (res: bool)
    ensures
        res == (inline_texts(inlines_view(inlines@)).len() >= 100),
{
    let ghost iv = inlines_view(inlines@);
    let mut total: usize = 0;
    let mut i: usize = 0;
    while i < inlines.len()
        invariant
            0 <= i <= inlines.len(),
            iv == inlines_view(inlines@),
            total < 100,
            total == inline_texts(iv.take(i as int)).len(),
        decreases inlines.len() - i,
    {
        let n = inlines[i].text.as_str().unicode_len();
        assert(iv.take(i + 1).drop_last() == iv.take(i as int));
        proof { lemma_inline_texts_prefix(iv, i + 1); }
        if n >= 100 - total {
            return true;
        }
        total = total + n;
        i = i + 1;
    }
    assert(iv.take(inlines.len() as int) == iv);
    false
}

proof fn lemma_inline_texts_prefix(s: Seq<InlineV>, k: int)
    requires
        0 <= k <= s.len(),
    ensures
        inline_texts(s.take(k)).len() <= inline_texts(s).len(),
    decreases s.len(),
{
    if k < s.len() {
        assert(s.drop_last().take(k) == s.take(k));
        lemma_inline_texts_prefix(s.drop_last(), k);
    } else {
        assert(s.take(k) == s);
    }
}

/// The heading level of a top-level paragraph: the level of its style, or
/// one read from a large bold font. No level is read from the paragraph's
/// wording (no detector of Korean regulation headings is part of this
/// library), so where neither applies the result is `None`.
pub fn effective_heading_level(style_level: Option<u8>, inlines: &Vec<Inline>, height_hint: Option<(u32, bool)>) -> (res: Option<u8>)
    ensures
        res == heading_level_of(style_level, inlines_view(inlines@), height_hint),
{
    match style_level {
        Some(l) => Some(l),
        None => match height_hint {
            Some((h, bold)) => {
                if !bold || has_100_chars(inlines) {
                    None
                } else if h >= 1600 {
                    Some(1)
                } else if h >= 1400 {
                    Some(2)
                } else if h >= 1200 {
                    Some(3)
                } else {
                    None
                }
            },
            None => None,
        },
    }
}

/// The block of a top-level paragraph.
pub fn build_block(inlines: Vec<Inline>, code_lang: CodeLangHint, heading_level: Option<u8>, height_hint: Option<(u32, bool)>) -> (res: Block)
    ensures
        res@ == block_of(inlines_view(inlines@), code_lang@, heading_level, height_hint),
{
    let ghost iv = inlines_view(inlines@);
    match try_code_block(code_lang, inlines) {
        Ok(b) => b,
        Err(inls) => {
            assert(inlines_view(inls@) == iv);
            match effective_heading_level(heading_level, &inls, height_hint) {
                Some(level) => Block::Heading { level, inlines: inls },
                None => Block::Paragraph { inlines: inls },
            }
        },
    }
}

/// Moves the pending text and inlines of a nested scope into its blocks as
/// one paragraph or code block (never a heading).
pub fn flush_inlines_to_blocks(
    text: &mut String,
    inlines: &mut Vec<Inline>,
    blocks: &mut Vec<Block>,
    fmt: &FormattingState,
    code_lang: CodeLangHint,
)
    ensures
        final(text)@ == Seq::<char>::empty(),
        inlines_view(final(inlines)@) == Seq::<InlineV>::empty(),
        blocks_view(final(blocks)@) == flushed(old(text)@, inlines_view(old(inlines)@), blocks_view(old(blocks)@), fmt@, code_lang@),
{
    let ghost all = with_text(inlines_view(inlines@), text@, fmt@);
    if text.as_str().unicode_len() > 0 {
        let t = take_string(text);
        let ghost before = inlines@;
        inlines.push(make_inline(t, fmt));
        assert(inlines_view(inlines@) =~= inlines_view(before).push(fmt_inline(fmt@, t@)));
    } else {
        *text = String::new();
    }
    assert(inlines_view(inlines@) == all);
    if inlines.len() > 0 {
        let i = take_inlines(inlines);
        let block = match try_code_block(code_lang, i) {
            Ok(b) => b,
            Err(i2) => Block::Paragraph { inlines: i2 },
        };
        let ghost b0 = blocks@;
        blocks.push(block);
        proof { lemma_blocks_view_push(b0, block); }
        assert(inlines_view(inlines@) =~= Seq::<InlineV>::empty());
    } else {
        assert(inlines_view(inlines@) =~= Seq::<InlineV>::empty());
    }
}

// ---------------------------------------------------------------------------
// Flushing each scope
// ---------------------------------------------------------------------------

/// The context after the table cell's paragraph is flushed with `code`.
pub open spec fn cell_flushed(c: CtxV, code: CodeLangHintV) -> CtxV {
    CtxV {
        table: TableStateV {
            cell_text: Seq::empty(),
            cell_inlines: Seq::empty(),
            cell_blocks: flushed(c.table.cell_text, c.table.cell_inlines, c.table.cell_blocks, c.fmt, code),
            ..c.table
        },
        ..c
    }
}

pub open spec fn item_flushed(c: CtxV, code: CodeLangHintV) -> CtxV {
    CtxV {
        list: ListStateV {
            item_text: Seq::empty(),
            item_inlines: Seq::empty(),
            item_blocks: flushed(c.list.item_text, c.list.item_inlines, c.list.item_blocks, c.fmt, code),
            ..c.list
        },
        ..c
    }
}

pub open spec fn footnote_flushed(c: CtxV, code: CodeLangHintV) -> CtxV {
    CtxV {
        footnote: FootnoteStateV {
            text: Seq::empty(),
            inlines: Seq::empty(),
            blocks: flushed(c.footnote.text, c.footnote.inlines, c.footnote.blocks, c.fmt, code),
            ..c.footnote
        },
        ..c
    }
}

pub open spec fn header_flushed(c: CtxV, code: CodeLangHintV) -> CtxV {
    CtxV {
        header_footer: HeaderFooterStateV {
            text: Seq::empty(),
            inlines: Seq::empty(),
            header_blocks: flushed(c.header_footer.text, c.header_footer.inlines, c.header_footer.header_blocks, c.fmt, code),
            ..c.header_footer
        },
        ..c
    }
}

pub open spec fn footer_flushed(c: CtxV, code: CodeLangHintV) -> CtxV {
    CtxV {
        header_footer: HeaderFooterStateV {
            text: Seq::empty(),
            inlines: Seq::empty(),
            footer_blocks: flushed(c.header_footer.text, c.header_footer.inlines, c.header_footer.footer_blocks, c.fmt, code),
            ..c.header_footer
        },
        ..c
    }
}

pub fn flush_cell_paragraph(ctx: &mut ParseContext, code_lang: CodeLangHint)
    ensures
        final(ctx)@ == cell_flushed(old(ctx)@, code_lang@),
{
    flush_inlines_to_blocks(&mut ctx.table.cell_text, &mut ctx.table.cell_inlines, &mut ctx.table.cell_blocks, &ctx.fmt, code_lang);
}

pub fn flush_list_item_paragraph(ctx: &mut ParseContext, code_lang: CodeLangHint)
    ensures
        final(ctx)@ == item_flushed(old(ctx)@, code_lang@),
{
    flush_inlines_to_blocks(&mut ctx.list.item_text, &mut ctx.list.item_inlines, &mut ctx.list.item_blocks, &ctx.fmt, code_lang);
}

/// Flushes the footnote's pending paragraph into its blocks.
pub fn flush_footnote_paragraph(ctx: &mut ParseContext, code_lang: CodeLangHint)
    ensures
        final(ctx)@ == footnote_flushed(old(ctx)@, code_lang@),
{
    flush_inlines_to_blocks(&mut ctx.footnote.text, &mut ctx.footnote.inlines, &mut ctx.footnote.blocks, &ctx.fmt, code_lang);
}

/// Flushes the header's pending paragraph into the header blocks.
pub fn flush_header_paragraph(ctx: &mut ParseContext, code_lang: CodeLangHint)
    ensures
        final(ctx)@ == header_flushed(old(ctx)@, code_lang@),
{
    flush_inlines_to_blocks(
        &mut ctx.header_footer.text,
        &mut ctx.header_footer.inlines,
        &mut ctx.header_footer.header_blocks,
        &ctx.fmt,
        code_lang,
    );
}

/// Flushes the footer's pending paragraph into the footer blocks.
pub fn flush_footer_paragraph(ctx: &mut ParseContext, code_lang: CodeLangHint)
    ensures
        final(ctx)@ == footer_flushed(old(ctx)@, code_lang@),
{
    flush_inlines_to_blocks(
        &mut ctx.header_footer.text,
        &mut ctx.header_footer.inlines,
        &mut ctx.header_footer.footer_blocks,
        &ctx.fmt,
        code_lang,
    );
}

/// The context after the pending code hint is consumed.
pub open spec fn no_hint(c: CtxV) -> CtxV {
    CtxV { pending_code_lang: CodeLangHintV::Plain, ..c }
}

/// The nested-scope flush: header, then footer, footnote, table cell, list
/// item; `None` at top level.  The pending code hint goes with the flush.
pub open spec fn nested_flushed(c: CtxV) -> Option<CtxV> {
    let code = c.pending_code_lang;
    if c.header_footer.in_header {
        Some(header_flushed(no_hint(c), code))
    } else if c.header_footer.in_footer {
        Some(footer_flushed(no_hint(c), code))
    } else if c.footnote.active {
        Some(footnote_flushed(no_hint(c), code))
    } else if c.table.in_cell {
        Some(cell_flushed(no_hint(c), code))
    } else if c.list.in_item {
        Some(item_flushed(no_hint(c), code))
    } else {
        None
    }
}

fn take_hint(ctx: &mut ParseContext) -> (res: CodeLangHint)
    ensures
        res@ == old(ctx)@.pending_code_lang,
        final(ctx)@ == no_hint(old(ctx)@),
{
    let mut h = CodeLangHint::Plain;
    std::mem::swap(&mut ctx.pending_code_lang, &mut h);
    h
}

/// Flushes the open nested scope, if any; `false` at top level (nothing
/// changes then).
pub fn flush_nested_scope(ctx: &mut ParseContext) -> (res: bool)
    ensures
        match nested_flushed(old(ctx)@) {
            Some(c) => res && final(ctx)@ == c,
            None => !res && final(ctx)@ == old(ctx)@,
        },
{
    if ctx.header_footer.in_header {
        let code = take_hint(ctx);
        flush_header_paragraph(ctx, code);
    } else if ctx.header_footer.in_footer {
        let code = take_hint(ctx);
        flush_footer_paragraph(ctx, code);
    } else if ctx.footnote.active {
        let code = take_hint(ctx);
        flush_footnote_paragraph(ctx, code);
    } else if ctx.table.in_cell {
        let code = take_hint(ctx);
        flush_cell_paragraph(ctx, code);
    } else if ctx.list.in_item {
        let code = take_hint(ctx);
        flush_list_item_paragraph(ctx, code);
    } else {
        return false;
    }
    true
}

// ---------------------------------------------------------------------------
// Top-level paragraphs
// ---------------------------------------------------------------------------

/// A block of the section before flat list paragraphs are grouped.
#[derive(Debug)]
pub enum StagedBlock {
    Plain(Block),
    ListPara { depth: u32, ordered: bool, block: Block },
}

pub ghost enum StagedBlockV {
    Plain(BlockV),
    ListPara { depth: u32, ordered: bool, block: BlockV },
}

impl View for StagedBlock {
    type V = StagedBlockV;

    open spec fn view(&self) -> StagedBlockV {
        match self {
            StagedBlock::Plain(b) => StagedBlockV::Plain(b@),
            StagedBlock::ListPara { depth, ordered, block } => StagedBlockV::ListPara { depth: *depth, ordered: *ordered, block: block@ },
        }
    }
}

pub open spec fn staged_view(s: Seq<StagedBlock>) -> Seq<StagedBlockV> {
    s.map_values(|b: StagedBlock| b@)
}

/// The list depth a paragraph property marks: `2` is top level, `3` and
/// any number from 4 up are nested.
pub open spec fn list_depth(para_pr: Option<Seq<char>>) -> Option<u32> {
    match para_pr {
        Some(s) => if s == "2"@ {
            Some(0u32)
        } else if s == "3"@ {
            Some(1u32)
        } else {
            match crate::text::parse_bounded(s, u32::MAX as nat) {
                Some(n) => if n >= 4 { Some(1u32) } else { None },
                None => None,
            }
        },
        None => None,
    }
}

/// The height hint of the paragraph read so far.
pub open spec fn hint_of(c: CtxV) -> Option<(u32, bool)> {
    Some((c.para_max_font_height, c.para_max_font_height_bold))
}

/// The inlines of the top-level paragraph, with its pending text.
pub open spec fn top_inlines(c: CtxV) -> Seq<InlineV> {
    with_text(c.current_inlines, c.current_text, c.fmt)
}

/// The context after a top-level flush: buffers, paragraph properties and
/// code hint cleared.
pub open spec fn top_cleared(c: CtxV) -> CtxV {
    CtxV {
        current_text: Seq::empty(),
        current_inlines: Seq::empty(),
        current_para_pr_id: None,
        current_num_pr_id: None,
        pending_code_lang: CodeLangHintV::Plain,
        ..c
    }
}

/// What a top-level flush stages: nothing for an empty paragraph; a list
/// paragraph for a plain paragraph whose properties mark a list depth
/// (ordered when `numPrIDRef` is `1`); the block itself otherwise.
pub open spec fn staged_of(c: CtxV) -> Option<StagedBlockV> {
    let inls = top_inlines(c);
    if inls.len() == 0 {
        None
    } else {
        let block = block_of(inls, c.pending_code_lang, c.heading_level, hint_of(c));
        let depth = if block is Paragraph { list_depth(c.current_para_pr_id) } else { None };
        match depth {
            Some(d) => Some(StagedBlockV::ListPara { depth: d, ordered: c.current_num_pr_id == Some("1"@), block }),
            None => Some(StagedBlockV::Plain(block)),
        }
    }
}

/// Only plain paragraphs are staged as list paragraphs: a code block or a
/// heading never becomes a list item, whatever its `paraPrIDRef`.
pub proof fn law_only_paragraphs_become_list_items(c: CtxV)
    ensures
        staged_of(c) matches Some(StagedBlockV::ListPara { block, .. }) ==> block is Paragraph,
{
}

/// A paragraph's style level wins over its font size; a pending code-block
/// hint wins over both.
pub proof fn law_heading_priority(inls: Seq<InlineV>, code: CodeLangHintV, style: Option<u8>, hint: Option<(u32, bool)>)
    ensures
        code is Plain && style is Some ==> block_of(inls, code, style, hint) == (BlockV::Heading { level: style.unwrap(), inlines: inls }),
        !(code is Plain) ==> block_of(inls, code, style, hint) is CodeBlock,
{
}

fn opt_take(o: &mut Option<String>) -> (res: Option<String>)
    ensures
        res == *old(o),
        *final(o) is None,
{
    let mut t: Option<String> = None;
    std::mem::swap(o, &mut t);
    t
}

fn para_list_depth(p: &Option<String>) -> (res: Option<u32>)
    ensures
        res == list_depth(opt_str_view(*p)),
{
    match p {
        Some(s) => {
            if crate::text::str_eq(s.as_str(), "2") {
                Some(0)
            } else if crate::text::str_eq(s.as_str(), "3") {
                Some(1)
            } else {
                match crate::text::parse_u32(s.as_str()) {
                    Some(n) => if n >= 4 { Some(1) } else { None },
                    None => None,
                }
            }
        },
        None => None,
    }
}

fn is_one(p: &Option<String>) -> (res: bool)
    ensures
        res == (opt_str_view(*p) == Some("1"@)),
{
    match p {
        Some(s) => crate::text::str_eq(s.as_str(), "1"),
        None => false,
    }
}

/// Moves the pending text of the top-level paragraph into its inlines.
fn absorb_text(ctx: &mut ParseContext)
    ensures
        final(ctx)@ == (CtxV { current_text: Seq::empty(), current_inlines: top_inlines(old(ctx)@), ..old(ctx)@ }),
{
    if ctx.current_text.as_str().unicode_len() > 0 {
        let t = take_string(&mut ctx.current_text);
        let i = make_inline(t, &ctx.fmt);
        let ghost before = ctx.current_inlines@;
        ctx.current_inlines.push(i);
        assert(inlines_view(ctx.current_inlines@) =~= inlines_view(before).push(i@));
    } else {
        ctx.current_text = String::new();
    }
}

/// Flushes the top-level paragraph and returns what goes into the section's
/// staging list.
pub fn flush_paragraph_staged(ctx: &mut ParseContext) -> (res: Option<StagedBlock>)
    ensures
        final(ctx)@ == top_cleared(old(ctx)@),
        match staged_of(old(ctx)@) {
            Some(sb) => res is Some && res->0@ == sb,
            None => res is None,
        },
{
    let ghost c0 = ctx@;
    absorb_text(ctx);
    let para_pr_id = opt_take(&mut ctx.current_para_pr_id);
    let num_pr_id = opt_take(&mut ctx.current_num_pr_id);
    let code_lang = take_hint(ctx);
    if ctx.current_inlines.len() == 0 {
        assert(ctx@ =~= top_cleared(c0));
        return None;
    }
    let hint = Some((ctx.para_max_font_height, ctx.para_max_font_height_bold));
    let inlines = take_inlines(&mut ctx.current_inlines);
    assert(ctx@ =~= top_cleared(c0));
    let block = build_block(inlines, code_lang, ctx.heading_level, hint);
    let is_para = match &block { Block::Paragraph { .. } => true, _ => false };
    let depth = if is_para { para_list_depth(&para_pr_id) } else { None };
    match depth {
        Some(d) => Some(StagedBlock::ListPara { depth: d, ordered: is_one(&num_pr_id), block }),
        None => Some(StagedBlock::Plain(block)),
    }
}

/// The block that a top-level flush appends to the section (no list
/// staging).
pub open spec fn top_block(c: CtxV) -> Option<BlockV> {
    let inls = top_inlines(c);
    if inls.len() == 0 { None } else { Some(block_of(inls, c.pending_code_lang, c.heading_level, hint_of(c))) }
}

/// Flushes the top-level paragraph straight into `section.blocks`.
pub fn flush_paragraph(ctx: &mut ParseContext, section: &mut Section)
    ensures
        final(ctx)@ == (CtxV { current_para_pr_id: old(ctx)@.current_para_pr_id, current_num_pr_id: old(ctx)@.current_num_pr_id, ..top_cleared(old(ctx)@) }),
        final(section)@ == (crate::ir::SectionV {
            blocks: match top_block(old(ctx)@) {
                Some(b) => old(section)@.blocks.push(b),
                None => old(section)@.blocks,
            },
            ..old(section)@
        }),
{
    let ghost c0 = ctx@;
    absorb_text(ctx);
    let code_lang = take_hint(ctx);
    if ctx.current_inlines.len() == 0 {
        assert(ctx@ =~= (CtxV { current_para_pr_id: c0.current_para_pr_id, current_num_pr_id: c0.current_num_pr_id, ..top_cleared(c0) }));
        return;
    }
    let hint = Some((ctx.para_max_font_height, ctx.para_max_font_height_bold));
    let inlines = take_inlines(&mut ctx.current_inlines);
    assert(ctx@ =~= (CtxV { current_para_pr_id: c0.current_para_pr_id, current_num_pr_id: c0.current_num_pr_id, ..top_cleared(c0) }));
    let block = build_block(inlines, code_lang, ctx.heading_level, hint);
    let ghost b0 = section.blocks@;
    section.blocks.push(block);
    proof { lemma_blocks_view_push(b0, block); }
}

/// What flushing the open scope does: the nested flush, or at top level a
/// paragraph or code block (never a heading) handed back for staging.
pub open spec fn active_flushed(c: CtxV) -> (CtxV, Option<StagedBlockV>) {
    match nested_flushed(c) {
        Some(c2) => (c2, None),
        None => {
            let all = top_inlines(c);
            (
                CtxV { current_text: Seq::empty(), current_inlines: Seq::empty(), pending_code_lang: CodeLangHintV::Plain, ..c },
                if all.len() > 0 {
                    Some(StagedBlockV::Plain(match code_block_of(c.pending_code_lang, all) {
                        Some(b) => b,
                        None => BlockV::Paragraph { inlines: all },
                    }))
                } else {
                    None
                },
            )
        },
    }
}

/// Flushes whichever scope is open so that pending text becomes a finished
/// block before a sibling block; at top level the block is returned for
/// staging.
pub fn flush_active_paragraph_scope(ctx: &mut ParseContext) -> (res: Option<StagedBlock>)
    ensures
        final(ctx)@ == active_flushed(old(ctx)@).0,
        match active_flushed(old(ctx)@).1 {
            Some(sb) => res is Some && res->0@ == sb,
            None => res is None,
        },
{
    if flush_nested_scope(ctx) {
        return None;
    }
    let code = take_hint(ctx);
    let mut top: Vec<Block> = Vec::new();
    flush_inlines_to_blocks(&mut ctx.current_text, &mut ctx.current_inlines, &mut top, &ctx.fmt, code);
    assert(blocks_view(Seq::<Block>::empty()) =~= Seq::<BlockV>::empty());
    let ghost before = top@;
    let ghost bv = blocks_view(before);
    match top.pop() {
        Some(b) => {
            assert(before == top@.push(b));
            assert(bv.len() == before.len());
            assert(before.len() == 1);
            assert(bv[0] == b@);
            Some(StagedBlock::Plain(b))
        },
        None => {
            assert(before.len() == 0);
            None
        },
    }
}

// ---------------------------------------------------------------------------
// Grouping list paragraphs
// ---------------------------------------------------------------------------

pub type ListEntry = (u32, bool, Block);

pub open spec fn entries_view(s: Seq<ListEntry>) -> Seq<(u32, bool, BlockV)> {
    s.map_values(|e: ListEntry| (e.0, e.1, e.2@))
}

pub open spec fn new_item(b: BlockV) -> ListItemV {
    ListItemV { blocks: seq![b], children: Seq::empty(), checked: None }
}

/// The items of a list: a depth-0 entry (or the first entry) starts an
/// item; a deeper entry becomes a child of the item before it.
pub open spec fn list_items(entries: Seq<(u32, bool, BlockV)>) -> Seq<ListItemV>
    decreases entries.len(),
{
    if entries.len() == 0 {
        Seq::empty()
    } else {
        let items = list_items(entries.drop_last());
        let e = entries.last();
        if e.0 == 0 || items.len() == 0 {
            items.push(new_item(e.2))
        } else {
            items.update(
                items.len() - 1,
                ListItemV { children: items.last().children.push(new_item(e.2)), ..items.last() },
            )
        }
    }
}

/// The list block of a run of list paragraphs, ordered as its first entry.
pub open spec fn list_of(entries: Seq<(u32, bool, BlockV)>) -> BlockV {
    if entries.len() == 0 {
        BlockV::List { ordered: false, start: 1, items: Seq::empty() }
    } else {
        BlockV::List { ordered: entries[0].1, start: 1, items: list_items(entries) }
    }
}

pub open spec fn close_pending(out: Seq<BlockV>, pending: Seq<(u32, bool, BlockV)>) -> Seq<BlockV> {
    if pending.len() == 0 { out } else { out.push(list_of(pending)) }
}

pub open spec fn group_step(
    st: (Seq<BlockV>, Seq<(u32, bool, BlockV)>),
    sb: StagedBlockV,
) -> (Seq<BlockV>, Seq<(u32, bool, BlockV)>) {
    match sb {
        StagedBlockV::Plain(b) => (close_pending(st.0, st.1).push(b), Seq::empty()),
        StagedBlockV::ListPara { depth, ordered, block } => (st.0, st.1.push((depth, ordered, block))),
    }
}

pub open spec fn group_fold(s: Seq<StagedBlockV>) -> (Seq<BlockV>, Seq<(u32, bool, BlockV)>)
    decreases s.len(),
{
    if s.len() == 0 { (Seq::empty(), Seq::empty()) } else { group_step(group_fold(s.drop_last()), s.last()) }
}

/// The section's blocks: each run of consecutive list paragraphs becomes
/// one list, in place.
pub open spec fn grouped(s: Seq<StagedBlockV>) -> Seq<BlockV> {
    let st = group_fold(s);
    close_pending(st.0, st.1)
}

fn single_item(b: Block) -> (res: ListItem)
    ensures
        res@ == new_item(b@),
{
    let mut blocks: Vec<Block> = Vec::new();
    blocks.push(b);
    let res = ListItem { blocks, children: Vec::new(), checked: None };
    proof { lemma_blocks_view_push(Seq::<Block>::empty(), b); }
    assert(blocks_view(Seq::<Block>::empty()) =~= Seq::<BlockV>::empty());
    assert(items_view(Seq::<ListItem>::empty()) =~= Seq::<ListItemV>::empty());
    assert(res@.blocks =~= seq![b@]);
    res
}

/// The list block of a run of list paragraphs.
pub fn build_list(entries: Vec<ListEntry>) -> (res: Block)
    ensures
        res@ == list_of(entries_view(entries@)),
{
    let ghost ev = entries_view(entries@);
    if entries.len() == 0 {
        let res = Block::List { ordered: false, start: 1, items: Vec::new() };
        assert(items_view(Seq::<ListItem>::empty()) =~= Seq::<ListItemV>::empty());
        return res;
    }
    let top_ordered = entries[0].1;
    let mut items: Vec<ListItem> = Vec::new();
    assert(items_view(items@) =~= list_items(ev.take(0)));
    let mut rest = entries;
    let n = rest.len();
    let mut k: usize = 0;
    assert(ev.subrange(0, n as int) == ev);
    while rest.len() > 0
        invariant
            k + rest@.len() == n,
            n == ev.len(),
            entries_view(rest@) == ev.subrange(k as int, n as int),
            items_view(items@) == list_items(ev.take(k as int)),
        decreases rest.len(),
    {
        let ghost r0 = rest@;
        let e = rest.remove(0);
        let (depth, _ordered, block) = e;
        let ghost iv = items_view(items@);
        proof {
            assert(ev.take(k + 1).drop_last() == ev.take(k as int));
            assert(entries_view(r0)[0] == ev[k as int]);
            assert(rest@ == r0.remove(0));
            assert(entries_view(rest@) =~= entries_view(r0).subrange(1, r0.len() as int));
            assert(entries_view(rest@) =~= ev.subrange(k + 1, n as int));
            assert(ev.take(k + 1).last() == ev[k as int]);
            assert(ev[k as int] == (depth, _ordered, block@));
        }
        if depth == 0 || items.len() == 0 {
            let it = single_item(block);
            let ghost before = items@;
            items.push(it);
            proof { lemma_items_view_push(before, it); }
        } else {
            let mut last = items.pop().unwrap();
            let ghost before = items@;
            let ghost lv = last@;
            let child = single_item(block);
            let ghost cb = last.children@;
            last.children.push(child);
            proof { lemma_items_view_push(cb, child); }
            assert(last@ == ListItemV { children: lv.children.push(new_item(block@)), ..lv });
            items.push(last);
            proof {
                lemma_items_view_push(before, last);
                assert(items_view(items@) =~= iv.update(iv.len() - 1, ListItemV { children: lv.children.push(new_item(block@)), ..lv }));
            }
        }
        k = k + 1;
    }
    assert(ev.take(n as int) == ev);
    Block::List { ordered: top_ordered, start: 1, items }
}

fn close_pending_exec(pending: &mut Vec<ListEntry>, out: &mut Vec<Block>)
    ensures
        blocks_view(final(out)@) == close_pending(blocks_view(old(out)@), entries_view(old(pending)@)),
        final(pending)@ == Seq::<ListEntry>::empty(),
{
    if pending.len() == 0 {
        return;
    }
    let mut p: Vec<ListEntry> = Vec::new();
    std::mem::swap(pending, &mut p);
    let list = build_list(p);
    let ghost b0 = out@;
    out.push(list);
    proof { lemma_blocks_view_push(b0, list); }
}

/// Collapses a flat sequence of staged blocks into the section's blocks,
/// each run of list paragraphs into one list.
pub fn group_list_paragraphs(staged: Vec<StagedBlock>) -> (res: Vec<Block>)
    ensures
        blocks_view(res@) == grouped(staged_view(staged@)),
{
    let ghost sv = staged_view(staged@);
    let n = staged.len();
    let mut rest = staged;
    let mut out: Vec<Block> = Vec::new();
    let mut pending: Vec<ListEntry> = Vec::new();
    let mut k: usize = 0;
    assert(sv.subrange(0, n as int) == sv);
    assert(blocks_view(out@) =~= Seq::<BlockV>::empty());
    assert(entries_view(pending@) =~= Seq::<(u32, bool, BlockV)>::empty());
    while rest.len() > 0
        invariant
            k + rest@.len() == n,
            n == sv.len(),
            staged_view(rest@) == sv.subrange(k as int, n as int),
            (blocks_view(out@), entries_view(pending@)) == group_fold(sv.take(k as int)),
        decreases rest.len(),
    {
        let ghost r0 = rest@;
        let sb = rest.remove(0);
        proof {
            assert(rest@ == r0.remove(0));
            assert(staged_view(r0)[0] == sv[k as int]);
            assert(staged_view(rest@) =~= staged_view(r0).subrange(1, r0.len() as int));
            assert(staged_view(rest@) =~= sv.subrange(k + 1, n as int));
            assert(sv.take(k + 1).drop_last() == sv.take(k as int));
            assert(sv.take(k + 1).last() == sv[k as int]);
        }
        match sb {
            StagedBlock::Plain(b) => {
                close_pending_exec(&mut pending, &mut out);
                let ghost b0 = out@;
                out.push(b);
                proof { lemma_blocks_view_push(b0, b); }
                assert(entries_view(pending@) =~= Seq::<(u32, bool, BlockV)>::empty());
            },
            StagedBlock::ListPara { depth, ordered, block } => {
                let ghost p0 = pending@;
                pending.push((depth, ordered, block));
                assert(entries_view(pending@) =~= entries_view(p0).push((depth, ordered, block@)));
            },
        }
        k = k + 1;
    }
    assert(sv.take(n as int) == sv);
    close_pending_exec(&mut pending, &mut out);
    out
}

/// The blocks of a sequence of list items, concatenated.
pub open spec fn items_blocks(its: Seq<ListItemV>) -> Seq<BlockV>
    decreases its.len(),
{
    if its.len() == 0 { Seq::empty() } else { items_blocks(its.drop_last()) + its.last().blocks }
}

/// The blocks of a list's items, each item's own blocks followed by those of
/// its children.
pub open spec fn list_blocks(its: Seq<ListItemV>) -> Seq<BlockV>
    decreases its.len(),
{
    if its.len() == 0 {
        Seq::empty()
    } else {
        list_blocks(its.drop_last()) + its.last().blocks + items_blocks(its.last().children)
    }
}

proof fn lemma_list_items_blocks(entries: Seq<(u32, bool, BlockV)>)
    ensures
        list_blocks(list_items(entries)) == entries.map_values(|e: (u32, bool, BlockV)| e.2),
    decreases entries.len(),
{
    if entries.len() > 0 {
        let prev = entries.drop_last();
        lemma_list_items_blocks(prev);
        let items = list_items(prev);
        let e = entries.last();
        assert(entries.map_values(|e: (u32, bool, BlockV)| e.2) =~= prev.map_values(|e: (u32, bool, BlockV)| e.2).push(e.2));
        if e.0 == 0 || items.len() == 0 {
            let it = new_item(e.2);
            assert(items.push(it).drop_last() == items);
            assert(items_blocks(it.children) =~= Seq::<BlockV>::empty());
            assert(list_blocks(items.push(it)) =~= list_blocks(items) + seq![e.2]);
        } else {
            let last = items.last();
            let child = new_item(e.2);
            let upd = ListItemV { children: last.children.push(child), ..last };
            let items2 = items.update(items.len() - 1, upd);
            assert(items2.drop_last() =~= items.drop_last());
            assert(items2.last() == upd);
            assert(last.children.push(child).drop_last() == last.children);
            assert(items_blocks(last.children.push(child)) == items_blocks(last.children) + seq![e.2]);
            assert(list_blocks(items2) =~= list_blocks(items) + seq![e.2]);
        }
    }
}

/// Grouping loses no list paragraph and reorders none: the blocks of the
/// list that a run of list paragraphs becomes, read item by item (each
/// item's children after it), are the paragraphs of the run, in order.
pub proof fn law_list_keeps_paragraphs(entries: Seq<(u32, bool, BlockV)>)
    ensures
        list_of(entries) is List,
        list_blocks(list_of(entries)->items) == entries.map_values(|e: (u32, bool, BlockV)| e.2),
{
    lemma_list_items_blocks(entries);
    if entries.len() == 0 {
        assert(entries.map_values(|e: (u32, bool, BlockV)| e.2) =~= Seq::<BlockV>::empty());
    }
}

} // verus!
