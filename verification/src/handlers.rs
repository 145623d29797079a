//! The XML event handlers of the section reader: what each start tag, end
//! tag, text, empty element and comment does to the parse context, and the
//! blocks it stages for the section.
use vstd::prelude::*;
use crate::attrs::{AttrsV, first_of, last_of, last_u32_of, last_usize_of, names_view};
use crate::context::{
    CodeLangHint, CodeLangHintV, CtxV, FootnoteStateV, FormattingStateV, HeaderFooterStateV,
    ListStateV, ParseContext, RubyPart, TableStateV, block_nested, default_fmt, in_hf_text,
    push_block_spec, push_inline_spec, push_text_spec,
};
use crate::flush::{
    StagedBlock, StagedBlockV, active_flushed, bool_attr, cell_flushed, fmt_inline, footnote_flushed,
    item_flushed, nested_flushed, staged_of, top_cleared,
};
use crate::ir::{BlockV, InlineV, ListItemV, TableCellV, TableRowV, plain_inline_v};
use crate::text::{contains_seq, is_digit, lower_seq, parse_bounded, starts_with, trim_start_char, upper_seq};

verus! {

// ---------------------------------------------------------------------------
// Heading styles and page breaks
// ---------------------------------------------------------------------------

/// The run of ASCII digits at the end of `s`.
pub open spec fn trailing_digits(s: Seq<char>) -> Seq<char>
    decreases s.len(),
{
    if s.len() > 0 && is_digit(s.last()) { trailing_digits(s.drop_last()).push(s.last()) } else { Seq::empty() }
}

pub open spec fn level_1_to_6(s: Seq<char>) -> Option<u8> {
    match parse_bounded(s, 255) {
        Some(n) => if 1 <= n <= 6 { Some(n as u8) } else { None },
        None => None,
    }
}

/// The heading level of a style name: a name with `heading`, `제목` or `개요`
/// in it (letters compared case-blind) names a heading at the level of its
/// trailing number when that is 1–6, and of level 1 when it has no trailing
/// number; a trailing number outside 1–6, or no marker at all (a bare
/// number included), names none.
pub open spec fn heading_style(s: Seq<char>) -> Option<u8> {
    let low = lower_seq(s);
    if contains_seq(low, "heading"@) || contains_seq(low, "\u{C81C}\u{BAA9}"@) || contains_seq(low, "\u{AC1C}\u{C694}"@) {
        if trailing_digits(s).len() == 0 {
            Some(1u8)
        } else {
            level_1_to_6(trailing_digits(s))
        }
    } else {
        None
    }
}

/// The heading level of a paragraph's `styleIDRef`: a numeric style ID 1–6
/// is the heading style of that level (the header lists the six heading
/// styles under the IDs 1 to 6); any other value is read as a style name.
pub open spec fn style_ref_level(s: Seq<char>) -> Option<u8> {
    match level_1_to_6(s) {
        Some(l) => Some(l),
        None => heading_style(s),
    }
}

/// A style reference names a heading of level 1 to 6, or none.
pub proof fn law_heading_style_levels(s: Seq<char>)
    ensures
        heading_style(s) matches Some(l) ==> 1 <= l <= 6,
        style_ref_level(s) matches Some(l) ==> 1 <= l <= 6,
{
}

fn level_of(s: &str) -> (res: Option<u8>)
    ensures
        res == level_1_to_6(s@),
{
    match crate::text::parse_u8(s) {
        Some(n) => if 1 <= n && n <= 6 { Some(n) } else { None },
        None => None,
    }
}

fn trailing_digits_of(s: &Vec<char>) -> (res: Vec<char>)
    ensures
        res@ == trailing_digits(s@),
{
    let mut i: usize = s.len();
    assert(s@.take(i as int) == s@);
    while i > 0 && '0' <= s[i - 1] && s[i - 1] <= '9'
        invariant
            i <= s.len(),
            trailing_digits(s@) == trailing_digits(s@.take(i as int)) + s@.subrange(i as int, s.len() as int),
        decreases i,
    {
        assert(s@.take(i as int).drop_last() == s@.take(i - 1));
        assert(s@.subrange(i - 1, s.len() as int) == seq![s@[i - 1]] + s@.subrange(i as int, s.len() as int));
        i = i - 1;
    }
    assert(trailing_digits(s@.take(i as int)) == Seq::<char>::empty());
    crate::text::sub_vec(s, i, s.len())
}

/// The heading level (1–6) of a style name, if it names a heading.
/// Letters are lower-cased ASCII-wise: the three markers are ASCII lower
/// case or caseless Hangul, so full Unicode lower-casing finds the same ones.
pub fn parse_heading_style(style_ref: &str) -> (res: Option<u8>)
    ensures
        res == heading_style(style_ref@),
{
    proof {
        reveal_strlit("heading");
    }
    let cs = chars_of(style_ref);
    let low = crate::text::to_ascii_lower(&cs);
    if crate::text::seq_contains(&low, "heading") || crate::text::seq_contains(&low, "\u{C81C}\u{BAA9}")
        || crate::text::seq_contains(&low, "\u{AC1C}\u{C694}") {
        let ds = trailing_digits_of(&cs);
        if ds.len() == 0 {
            Some(1)
        } else {
            let d = crate::text::string_of(&ds);
            level_of(d.as_str())
        }
    } else {
        None
    }
}

/// The heading level of a paragraph's `styleIDRef` value.
pub fn style_ref_heading(style_ref: &str) -> (res: Option<u8>)
    ensures
        res == style_ref_level(style_ref@),
{
    match level_of(style_ref) {
        Some(l) => Some(l),
        None => parse_heading_style(style_ref),
    }
}

fn chars_of(s: &str) -> (res: Vec<char>)
    ensures
        res@ == s@,
{
    crate::text::chars_vec(s)
}

pub open spec fn page_break_id(id: Seq<char>) -> bool {
    id == "newPage"@ || id == "pageBreak"@ || id == "cnpb"@
}

/// Whether a `<hp:ctrl id="…"/>` is a forced page break.
pub fn is_page_break_ctrl(id: &str) -> (res: bool)
    ensures
        res == page_break_id(id@),
{
    crate::text::str_eq(id, "newPage") || crate::text::str_eq(id, "pageBreak") || crate::text::str_eq(id, "cnpb")
}

// ---------------------------------------------------------------------------
// Element names
// ---------------------------------------------------------------------------

pub open spec fn is2(n: Seq<char>, a: Seq<char>, b: Seq<char>) -> bool {
    n == a || n == b
}

pub open spec fn is_equation(n: Seq<char>) -> bool {
    is2(n, "equation"@, "hp:equation"@) || is2(n, "eqEdit"@, "hp:eqEdit"@)
}

pub open spec fn is_note(n: Seq<char>) -> bool {
    is2(n, "fn"@, "hp:fn"@) || is2(n, "footnote"@, "hp:footnote"@) || is2(n, "en"@, "hp:en"@)
        || is2(n, "endnote"@, "hp:endnote"@)
}

pub open spec fn is_image(n: Seq<char>) -> bool {
    is2(n, "img"@, "hp:img"@) || is2(n, "picture"@, "hp:picture"@)
}

fn name_is(n: &String, a: &str, b: &str) -> (res: bool)
    ensures
        res == is2(n@, a@, b@),
{
    crate::text::str_eq(n.as_str(), a) || crate::text::str_eq(n.as_str(), b)
}

pub(crate) fn keys2(a: &'static str, b: &'static str) -> (res: Vec<&'static str>)
    ensures
        names_view(res@) == seq![a@, b@],
{
    let v = vec![a, b];
    assert(names_view(v@) =~= seq![a@, b@]);
    v
}

fn keys4(a: &'static str, b: &'static str, c: &'static str, d: &'static str) -> (res: Vec<&'static str>)
    ensures
        names_view(res@) == seq![a@, b@, c@, d@],
{
    let v = vec![a, b, c, d];
    assert(names_view(v@) =~= seq![a@, b@, c@, d@]);
    v
}

// ---------------------------------------------------------------------------
// Start tags
// ---------------------------------------------------------------------------

/// The heading level set by the `styleIDRef`s of a paragraph: the last one
/// that names a heading.
pub open spec fn p_heading(attrs: AttrsV) -> Option<u8>
    decreases attrs.len(),
{
    if attrs.len() == 0 {
        None
    } else {
        let prev = p_heading(attrs.drop_last());
        if is2(attrs.last().0, "styleIDRef"@, "hp:styleIDRef"@) {
            match style_ref_level(attrs.last().1) {
                Some(l) => Some(l),
                None => prev,
            }
        } else {
            prev
        }
    }
}

/// `<hp:p>`: a new paragraph with its style level and paragraph / numbering
/// properties; the font-height tracker starts over.
pub open spec fn p_start(c: CtxV, attrs: AttrsV) -> CtxV {
    CtxV {
        in_paragraph: true,
        current_text: Seq::empty(),
        current_inlines: Seq::empty(),
        heading_level: p_heading(attrs),
        current_para_pr_id: last_of(attrs, seq!["paraPrIDRef"@, "hp:paraPrIDRef"@], None),
        current_num_pr_id: last_of(attrs, seq!["numPrIDRef"@, "hp:numPrIDRef"@], None),
        para_max_font_height: 0,
        para_max_font_height_bold: false,
        ..c
    }
}

/// The colour of a `color` attribute: `#RRGGBB` upper-cased, or none for
/// black or an empty value.
pub open spec fn color_of(v: Seq<char>) -> Option<Seq<char>> {
    let raw = trim_start_char(v, '#');
    if raw.len() == 0 || raw == "000000"@ { None } else { Some(seq!['#'] + upper_seq(raw)) }
}

pub open spec fn on_off(v: Seq<char>) -> bool {
    v.len() > 0 && v != "none"@ && v != "0"@
}

/// One attribute of `<hp:charPr>`, on the formatting and the face ID.
pub open spec fn charpr_step(st: (FormattingStateV, Option<nat>), a: (Seq<char>, Seq<char>)) -> (FormattingStateV, Option<nat>) {
    let (f, face) = st;
    let (k, v) = a;
    if is2(k, "bold"@, "hp:bold"@) {
        (FormattingStateV { bold: bool_attr(v, f.bold), ..f }, face)
    } else if is2(k, "italic"@, "hp:italic"@) {
        (FormattingStateV { italic: bool_attr(v, f.italic), ..f }, face)
    } else if is2(k, "underline"@, "hp:underline"@) {
        (FormattingStateV { underline: on_off(v), ..f }, face)
    } else if is2(k, "strikeout"@, "hp:strikeout"@) {
        (FormattingStateV { strike: on_off(v), ..f }, face)
    } else if is2(k, "supscript"@, "hp:supscript"@) {
        (FormattingStateV { superscript: v == "superscript"@, subscript: v == "subscript"@, ..f }, face)
    } else if is2(k, "color"@, "hp:color"@) {
        (FormattingStateV { color: color_of(v), ..f }, face)
    } else if is2(k, "faceNameIDRef"@, "hp:faceNameIDRef"@) || is2(k, "hangulIDRef"@, "hp:hangulIDRef"@) {
        match parse_bounded(v, usize::MAX as nat) {
            Some(n) => (f, Some(n)),
            None => st,
        }
    } else if is2(k, "height"@, "hp:height"@) {
        match parse_bounded(v, u32::MAX as nat) {
            Some(h) => (FormattingStateV { font_height: Some(h as u32), ..f }, face),
            None => st,
        }
    } else {
        st
    }
}

pub open spec fn charpr_fold(f: FormattingStateV, attrs: AttrsV) -> (FormattingStateV, Option<nat>)
    decreases attrs.len(),
{
    if attrs.len() == 0 { (f, None) } else { charpr_step(charpr_fold(f, attrs.drop_last()), attrs.last()) }
}

/// The formatting with the face name of `face` from `names` (none when the
/// ID is out of range); unchanged without a face ID.
pub open spec fn with_face(f: FormattingStateV, face: Option<nat>, names: Seq<Seq<char>>) -> FormattingStateV {
    match face {
        Some(i) => FormattingStateV { font_name: if i < names.len() { Some(names[i as int]) } else { None }, ..f },
        None => f,
    }
}

/// A larger height than the paragraph's tracker takes its place, with the
/// run's boldness.
pub open spec fn height_tracked(c: CtxV) -> CtxV {
    match c.fmt.font_height {
        Some(h) => if h > c.para_max_font_height {
            CtxV { para_max_font_height: h, para_max_font_height_bold: c.fmt.bold, ..c }
        } else {
            c
        },
        None => c,
    }
}

/// `<hp:charPr>`: the run's formatting, the face name of its face ID, and
/// the paragraph's height tracker.
pub open spec fn charpr_spec(c: CtxV, attrs: AttrsV) -> CtxV {
    let st = charpr_fold(c.fmt, attrs);
    height_tracked(CtxV { fmt: with_face(st.0, st.1, c.face_names), ..c })
}

pub open spec fn field_begin_spec(c: CtxV, attrs: AttrsV) -> CtxV {
    let ty = last_of(attrs, seq!["type"@, "hp:type"@], None);
    let cmd = last_of(attrs, seq!["command"@, "hp:command"@], None);
    if ty == Some("HYPERLINK"@) && cmd is Some && cmd.unwrap().len() > 0 {
        CtxV { in_hyperlink: true, hyperlink_url: cmd, ..c }
    } else {
        c
    }
}

pub open spec fn page_size_spec(c: CtxV, attrs: AttrsV) -> CtxV {
    CtxV { page_layout: crate::context::page_size_of(c.page_layout, attrs), ..c }
}

pub open spec fn margin_spec(c: CtxV, attrs: AttrsV) -> CtxV {
    CtxV { page_layout: crate::context::margin_of(c.page_layout, attrs), ..c }
}

pub open spec fn tbl_start(c: CtxV, attrs: AttrsV) -> CtxV {
    CtxV {
        table: TableStateV {
            active: true,
            rows: Seq::empty(),
            col_count: last_usize_of(attrs, seq!["colCnt"@, "hp:colCnt"@], 0),
            ..c.table
        },
        ..c
    }
}

pub open spec fn note_start(c: CtxV, attrs: AttrsV) -> CtxV {
    CtxV {
        footnote: FootnoteStateV {
            active: true,
            id: match first_of(attrs, seq!["id"@, "hp:id"@, "noteId"@, "hp:noteId"@]) {
                Some(v) => v,
                None => Seq::empty(),
            },
            blocks: Seq::empty(),
            inlines: Seq::empty(),
            text: Seq::empty(),
        },
        ..c
    }
}

/// What a start tag does to the context.
pub open spec fn start_spec(c: CtxV, name: Seq<char>, attrs: AttrsV) -> CtxV {
    if is2(name, "p"@, "hp:p"@) {
        p_start(c, attrs)
    } else if is2(name, "run"@, "hp:run"@) {
        CtxV { in_run: true, fmt: default_fmt(), ..c }
    } else if is2(name, "charPr"@, "hp:charPr"@) {
        charpr_spec(c, attrs)
    } else if is2(name, "t"@, "hp:t"@) {
        CtxV { in_text: true, ..c }
    } else {
        start_spec2(c, name, attrs)
    }
}

pub open spec fn start_spec2(c: CtxV, name: Seq<char>, attrs: AttrsV) -> CtxV {
    if is2(name, "tbl"@, "hp:tbl"@) {
        tbl_start(c, attrs)
    } else if is2(name, "tr"@, "hp:tr"@) {
        CtxV { table: TableStateV { current_row_cells: Seq::empty(), ..c.table }, ..c }
    } else if is2(name, "tc"@, "hp:tc"@) {
        CtxV {
            table: TableStateV {
                in_cell: true,
                cell_blocks: Seq::empty(),
                cell_inlines: Seq::empty(),
                cell_text: Seq::empty(),
                current_colspan: 1,
                current_rowspan: 1,
                ..c.table
            },
            ..c
        }
    } else if name == "ol"@ || name == "ul"@ {
        CtxV { list: ListStateV { active: true, ordered: name == "ol"@, items: Seq::empty(), ..c.list }, ..c }
    } else if is2(name, "li"@, "hp:li"@) {
        CtxV {
            list: ListStateV { in_item: true, item_blocks: Seq::empty(), item_inlines: Seq::empty(), item_text: Seq::empty(), ..c.list },
            ..c
        }
    } else if is_equation(name) {
        CtxV { in_equation: true, equation_text: Seq::empty(), ..c }
    } else {
        start_spec3(c, name, attrs)
    }
}

pub open spec fn start_spec3(c: CtxV, name: Seq<char>, attrs: AttrsV) -> CtxV {
    if is2(name, "fieldBegin"@, "hp:fieldBegin"@) {
        field_begin_spec(c, attrs)
    } else if is2(name, "ruby"@, "hp:ruby"@) {
        CtxV {
            in_ruby: true,
            ruby_base_text: Seq::empty(),
            ruby_annotation_text: Seq::empty(),
            ruby_current_part: RubyPart::Outside,
            ..c
        }
    } else if is2(name, "rubyText"@, "hp:rubyText"@) {
        CtxV { ruby_current_part: RubyPart::Annotation, ..c }
    } else if is2(name, "baseText"@, "hp:baseText"@) {
        CtxV { ruby_current_part: RubyPart::Base, ..c }
    } else if is_note(name) {
        note_start(c, attrs)
    } else {
        start_spec4(c, name, attrs)
    }
}

pub open spec fn start_spec4(c: CtxV, name: Seq<char>, attrs: AttrsV) -> CtxV {
    if is2(name, "headerFooter"@, "hp:headerFooter"@) {
        CtxV {
            header_footer: HeaderFooterStateV {
                active: true,
                in_header: false,
                in_footer: false,
                text: Seq::empty(),
                inlines: Seq::empty(),
                header_blocks: Seq::empty(),
                footer_blocks: Seq::empty(),
                ..c.header_footer
            },
            ..c
        }
    } else if is2(name, "header"@, "hp:header"@) && c.header_footer.active {
        CtxV { header_footer: HeaderFooterStateV { in_header: true, ..c.header_footer }, ..c }
    } else if is2(name, "footer"@, "hp:footer"@) && c.header_footer.active {
        CtxV { header_footer: HeaderFooterStateV { in_footer: true, ..c.header_footer }, ..c }
    } else if is2(name, "secPr"@, "hp:secPr"@) {
        CtxV { page_layout: crate::context::PageLayoutState { has_sec_pr: true, ..c.page_layout }, ..c }
    } else if is2(name, "pagePr"@, "hp:pagePr"@) {
        CtxV {
            page_layout: crate::context::page_pr_of(c.page_layout, attrs),
            ..c
        }
    } else if is2(name, "pageSize"@, "hp:pageSize"@) {
        page_size_spec(c, attrs)
    } else if is2(name, "margin"@, "hp:margin"@) {
        margin_spec(c, attrs)
    } else {
        c
    }
}

// ---------------------------------------------------------------------------
// Start tags: the code
// ---------------------------------------------------------------------------

fn heading_of_attrs(attrs: &Vec<(String, String)>) -> (res: Option<u8>)
    ensures
        res == p_heading(crate::xml::attrs_view(attrs@)),
{
    let ghost av = crate::xml::attrs_view(attrs@);
    let mut out: Option<u8> = None;
    let mut i: usize = 0;
    while i < attrs.len()
        invariant
            0 <= i <= attrs.len(),
            av == crate::xml::attrs_view(attrs@),
            out == p_heading(av.take(i as int)),
        decreases attrs.len() - i,
    {
        assert(av.take(i + 1).drop_last() == av.take(i as int));
        assert(av.take(i + 1).last() == av[i as int]);
        if name_is(&attrs[i].0, "styleIDRef", "hp:styleIDRef") {
            match style_ref_heading(attrs[i].1.as_str()) {
                Some(l) => {
                    out = Some(l);
                },
                None => {},
            }
        }
        i = i + 1;
    }
    assert(av.take(attrs.len() as int) == av);
    out
}

fn start_paragraph(ctx: &mut ParseContext, attrs: &Vec<(String, String)>)
    ensures
        final(ctx)@ == p_start(old(ctx)@, crate::xml::attrs_view(attrs@)),
{
    let ghost c0 = ctx@;
    ctx.in_paragraph = true;
    ctx.current_text = String::new();
    ctx.current_inlines = Vec::new();
    ctx.heading_level = heading_of_attrs(attrs);
    ctx.current_para_pr_id = crate::attrs::last_value(attrs, &keys2("paraPrIDRef", "hp:paraPrIDRef"));
    ctx.current_num_pr_id = crate::attrs::last_value(attrs, &keys2("numPrIDRef", "hp:numPrIDRef"));
    ctx.para_max_font_height = 0;
    ctx.para_max_font_height_bold = false;
    assert(ctx@ =~= p_start(c0, crate::xml::attrs_view(attrs@)));
}

pub open spec fn opt_nat(o: Option<usize>) -> Option<nat> {
    match o {
        Some(n) => Some(n as nat),
        None => None,
    }
}

fn color_value(v: &String) -> (res: Option<String>)
    ensures
        crate::ir::opt_str_view(res) == color_of(v@),
{
    let cs = chars_of(v.as_str());
    let raw = crate::text::trim_start_matches(&cs, '#');
    if raw.len() == 0 || crate::text::eq_str(&raw, "000000") {
        None
    } else {
        let mut s = String::new();
        crate::text::push_char(&mut s, '#');
        crate::text::push_chars(&mut s, &crate::text::to_ascii_upper(&raw));
        assert(s@ =~= seq!['#'] + upper_seq(raw@));
        Some(s)
    }
}

fn on_off_value(v: &String) -> (res: bool)
    ensures
        res == on_off(v@),
{
    v.as_str().unicode_len() > 0 && !crate::text::str_eq(v.as_str(), "none") && !crate::text::str_eq(v.as_str(), "0")
}

fn charpr_attr(f: &mut crate::context::FormattingState, face: &mut Option<usize>, k: &String, v: &String)
    ensures
        (final(f)@, opt_nat(*final(face))) == charpr_step((old(f)@, opt_nat(*old(face))), (k@, v@)),
{
    if name_is(k, "bold", "hp:bold") {
        f.bold = crate::flush::parse_bool_preserve(v.as_str(), f.bold);
    } else if name_is(k, "italic", "hp:italic") {
        f.italic = crate::flush::parse_bool_preserve(v.as_str(), f.italic);
    } else if name_is(k, "underline", "hp:underline") {
        f.underline = on_off_value(v);
    } else if name_is(k, "strikeout", "hp:strikeout") {
        f.strike = on_off_value(v);
    } else if name_is(k, "supscript", "hp:supscript") {
        f.superscript = crate::text::str_eq(v.as_str(), "superscript");
        f.subscript = crate::text::str_eq(v.as_str(), "subscript");
    } else if name_is(k, "color", "hp:color") {
        f.color = color_value(v);
    } else if name_is(k, "faceNameIDRef", "hp:faceNameIDRef") || name_is(k, "hangulIDRef", "hp:hangulIDRef") {
        match crate::text::parse_usize(v.as_str()) {
            Some(n) => {
                *face = Some(n);
            },
            None => {},
        }
    } else if name_is(k, "height", "hp:height") {
        match crate::text::parse_u32(v.as_str()) {
            Some(h) => {
                f.font_height = Some(h);
            },
            None => {},
        }
    }
}

fn charpr_fold_exec(f: &mut crate::context::FormattingState, attrs: &Vec<(String, String)>) -> (face: Option<usize>)
    ensures
        (final(f)@, opt_nat(face)) == charpr_fold(old(f)@, crate::xml::attrs_view(attrs@)),
{
    let ghost f0 = f@;
    let ghost av = crate::xml::attrs_view(attrs@);
    let mut face: Option<usize> = None;
    let mut i: usize = 0;
    while i < attrs.len()
        invariant
            0 <= i <= attrs.len(),
            av == crate::xml::attrs_view(attrs@),
            (f@, opt_nat(face)) == charpr_fold(f0, av.take(i as int)),
        decreases attrs.len() - i,
    {
        assert(av.take(i + 1).drop_last() == av.take(i as int));
        assert(av.take(i + 1).last() == av[i as int]);
        charpr_attr(f, &mut face, &attrs[i].0, &attrs[i].1);
        i = i + 1;
    }
    assert(av.take(attrs.len() as int) == av);
    face
}

fn resolve_face(f: &mut crate::context::FormattingState, face: Option<usize>, names: &Vec<String>)
    ensures
        final(f)@ == with_face(old(f)@, opt_nat(face), names@.map_values(|s: String| s@)),
{
    match face {
        Some(idx) => {
            f.font_name = if idx < names.len() {
                Some(crate::text::str_to_string(names[idx].as_str()))
            } else {
                None
            };
        },
        None => {},
    }
}

fn update_tracker(ctx: &mut ParseContext)
    ensures
        final(ctx)@ == height_tracked(old(ctx)@),
{
    match ctx.fmt.font_height {
        Some(h) => {
            if h > ctx.para_max_font_height {
                ctx.para_max_font_height = h;
                ctx.para_max_font_height_bold = ctx.fmt.bold;
            }
        },
        None => {},
    }
}

/// Applies the attributes of a `<hp:charPr>` to the run's formatting (see
/// `charpr_spec`).
pub fn apply_charpr_attrs(attrs: &Vec<(String, String)>, ctx: &mut ParseContext)
    ensures
        final(ctx)@ == charpr_spec(old(ctx)@, crate::xml::attrs_view(attrs@)),
{
    let ghost c0 = ctx@;
    let face = charpr_fold_exec(&mut ctx.fmt, attrs);
    resolve_face(&mut ctx.fmt, face, &ctx.face_names);
    assert(ctx@ == (CtxV { fmt: ctx.fmt@, ..c0 }));
    update_tracker(ctx);
}

fn start_field(ctx: &mut ParseContext, attrs: &Vec<(String, String)>)
    ensures
        final(ctx)@ == field_begin_spec(old(ctx)@, crate::xml::attrs_view(attrs@)),
{
    proof { reveal_strlit("HYPERLINK"); }
    let ty = crate::attrs::last_value(attrs, &keys2("type", "hp:type"));
    let cmd = crate::attrs::last_value(attrs, &keys2("command", "hp:command"));
    let is_link = match &ty {
        Some(t) => crate::text::str_eq(t.as_str(), "HYPERLINK"),
        None => false,
    };
    match cmd {
        Some(c) => {
            if is_link && c.as_str().unicode_len() > 0 {
                ctx.in_hyperlink = true;
                ctx.hyperlink_url = Some(c);
            }
        },
        None => {},
    }
}

fn start_page_pr(ctx: &mut ParseContext, attrs: &Vec<(String, String)>)
    ensures
        final(ctx)@ == (CtxV {
            page_layout: crate::context::page_pr_of(old(ctx)@.page_layout, crate::xml::attrs_view(attrs@)),
            ..old(ctx)@
        }),
{
    let ghost c0 = ctx@;
    ctx.page_layout.parse_page_pr(attrs);
    assert(ctx@ =~= (CtxV { page_layout: crate::context::page_pr_of(c0.page_layout, crate::xml::attrs_view(attrs@)), ..c0 }));
}

fn start_page_size(ctx: &mut ParseContext, attrs: &Vec<(String, String)>)
    ensures
        final(ctx)@ == page_size_spec(old(ctx)@, crate::xml::attrs_view(attrs@)),
{
    let ghost c0 = ctx@;
    ctx.page_layout.parse_page_size(attrs);
    assert(ctx@ =~= page_size_spec(c0, crate::xml::attrs_view(attrs@)));
}

fn start_margin(ctx: &mut ParseContext, attrs: &Vec<(String, String)>)
    ensures
        final(ctx)@ == margin_spec(old(ctx)@, crate::xml::attrs_view(attrs@)),
{
    let ghost c0 = ctx@;
    ctx.page_layout.parse_margin(attrs);
    assert(ctx@ =~= margin_spec(c0, crate::xml::attrs_view(attrs@)));
}

fn start_note(ctx: &mut ParseContext, attrs: &Vec<(String, String)>)
    ensures
        final(ctx)@ == note_start(old(ctx)@, crate::xml::attrs_view(attrs@)),
{
    let ghost c0 = ctx@;
    let id = match crate::attrs::first_value(attrs, &keys4("id", "hp:id", "noteId", "hp:noteId")) {
        Some(v) => v,
        None => String::new(),
    };
    ctx.footnote.active = true;
    ctx.footnote.id = id;
    ctx.footnote.blocks = Vec::new();
    ctx.footnote.inlines = Vec::new();
    ctx.footnote.text = String::new();
    assert(ctx@.footnote.blocks =~= Seq::<BlockV>::empty());
    assert(ctx@.footnote.inlines =~= Seq::<InlineV>::empty());
    assert(ctx@ =~= note_start(c0, crate::xml::attrs_view(attrs@)));
}

fn start_table(ctx: &mut ParseContext, attrs: &Vec<(String, String)>)
    ensures
        final(ctx)@ == tbl_start(old(ctx)@, crate::xml::attrs_view(attrs@)),
{
    let ghost c0 = ctx@;
    ctx.table.active = true;
    ctx.table.rows = Vec::new();
    ctx.table.col_count = crate::attrs::last_usize(attrs, &keys2("colCnt", "hp:colCnt"), 0);
    assert(ctx@.table.rows =~= Seq::<TableRowV>::empty());
    assert(ctx@ =~= tbl_start(c0, crate::xml::attrs_view(attrs@)));
}

fn name_is_equation(n: &String) -> (res: bool)
    ensures
        res == is_equation(n@),
{
    name_is(n, "equation", "hp:equation") || name_is(n, "eqEdit", "hp:eqEdit")
}

fn name_is_note(n: &String) -> (res: bool)
    ensures
        res == is_note(n@),
{
    name_is(n, "fn", "hp:fn") || name_is(n, "footnote", "hp:footnote") || name_is(n, "en", "hp:en")
        || name_is(n, "endnote", "hp:endnote")
}

fn start_cell(ctx: &mut ParseContext)
    ensures
        final(ctx)@ == (CtxV {
            table: TableStateV {
                in_cell: true,
                cell_blocks: Seq::empty(),
                cell_inlines: Seq::empty(),
                cell_text: Seq::empty(),
                current_colspan: 1,
                current_rowspan: 1,
                ..old(ctx)@.table
            },
            ..old(ctx)@
        }),
{
    ctx.table.in_cell = true;
    ctx.table.cell_blocks = Vec::new();
    ctx.table.cell_inlines = Vec::new();
    ctx.table.cell_text = String::new();
    ctx.table.current_colspan = 1;
    ctx.table.current_rowspan = 1;
    assert(ctx@.table.cell_blocks =~= Seq::<BlockV>::empty());
    assert(ctx@.table.cell_inlines =~= Seq::<InlineV>::empty());
}

fn start_item(ctx: &mut ParseContext)
    ensures
        final(ctx)@ == (CtxV {
            list: ListStateV { in_item: true, item_blocks: Seq::empty(), item_inlines: Seq::empty(), item_text: Seq::empty(), ..old(ctx)@.list },
            ..old(ctx)@
        }),
{
    ctx.list.in_item = true;
    ctx.list.item_blocks = Vec::new();
    ctx.list.item_inlines = Vec::new();
    ctx.list.item_text = String::new();
    assert(ctx@.list.item_blocks =~= Seq::<BlockV>::empty());
    assert(ctx@.list.item_inlines =~= Seq::<InlineV>::empty());
}

fn start_list(ctx: &mut ParseContext, ordered: bool)
    ensures
        final(ctx)@ == (CtxV { list: ListStateV { active: true, ordered, items: Seq::empty(), ..old(ctx)@.list }, ..old(ctx)@ }),
{
    ctx.list.active = true;
    ctx.list.ordered = ordered;
    ctx.list.items = Vec::new();
    assert(ctx@.list.items =~= Seq::<ListItemV>::empty());
}

fn start_header_footer(ctx: &mut ParseContext)
    ensures
        final(ctx)@ == (CtxV {
            header_footer: HeaderFooterStateV {
                active: true,
                in_header: false,
                in_footer: false,
                text: Seq::empty(),
                inlines: Seq::empty(),
                header_blocks: Seq::empty(),
                footer_blocks: Seq::empty(),
                ..old(ctx)@.header_footer
            },
            ..old(ctx)@
        }),
{
    ctx.header_footer.active = true;
    ctx.header_footer.in_header = false;
    ctx.header_footer.in_footer = false;
    ctx.header_footer.text = String::new();
    ctx.header_footer.inlines = Vec::new();
    ctx.header_footer.header_blocks = Vec::new();
    ctx.header_footer.footer_blocks = Vec::new();
    assert(ctx@.header_footer.inlines =~= Seq::<InlineV>::empty());
    assert(ctx@.header_footer.header_blocks =~= Seq::<BlockV>::empty());
    assert(ctx@.header_footer.footer_blocks =~= Seq::<BlockV>::empty());
}

fn start_ruby(ctx: &mut ParseContext)
    ensures
        final(ctx)@ == (CtxV {
            in_ruby: true,
            ruby_base_text: Seq::empty(),
            ruby_annotation_text: Seq::empty(),
            ruby_current_part: RubyPart::Outside,
            ..old(ctx)@
        }),
{
    ctx.in_ruby = true;
    ctx.ruby_base_text = String::new();
    ctx.ruby_annotation_text = String::new();
    ctx.ruby_current_part = RubyPart::Outside;
}

fn start_row(ctx: &mut ParseContext)
    ensures
        final(ctx)@ == (CtxV { table: TableStateV { current_row_cells: Seq::empty(), ..old(ctx)@.table }, ..old(ctx)@ }),
{
    ctx.table.current_row_cells = Vec::new();
    assert(ctx@.table.current_row_cells =~= Seq::<TableCellV>::empty());
}

fn start_equation(ctx: &mut ParseContext)
    ensures
        final(ctx)@ == (CtxV { in_equation: true, equation_text: Seq::empty(), ..old(ctx)@ }),
{
    ctx.in_equation = true;
    ctx.equation_text = String::new();
}

fn set_ruby_part(ctx: &mut ParseContext, part: RubyPart)
    ensures
        final(ctx)@ == (CtxV { ruby_current_part: part, ..old(ctx)@ }),
{
    ctx.ruby_current_part = part;
}

fn enter_header(ctx: &mut ParseContext)
    ensures
        final(ctx)@ == (CtxV { header_footer: HeaderFooterStateV { in_header: true, ..old(ctx)@.header_footer }, ..old(ctx)@ }),
{
    ctx.header_footer.in_header = true;
}

fn enter_footer(ctx: &mut ParseContext)
    ensures
        final(ctx)@ == (CtxV { header_footer: HeaderFooterStateV { in_footer: true, ..old(ctx)@.header_footer }, ..old(ctx)@ }),
{
    ctx.header_footer.in_footer = true;
}

fn start_sec_pr(ctx: &mut ParseContext)
    ensures
        final(ctx)@ == (CtxV { page_layout: crate::context::PageLayoutState { has_sec_pr: true, ..old(ctx)@.page_layout }, ..old(ctx)@ }),
{
    ctx.page_layout.has_sec_pr = true;
}

fn start_run(ctx: &mut ParseContext)
    ensures
        final(ctx)@ == (CtxV { in_run: true, fmt: default_fmt(), ..old(ctx)@ }),
{
    ctx.in_run = true;
    ctx.fmt.reset();
}

fn start_text(ctx: &mut ParseContext)
    ensures
        final(ctx)@ == (CtxV { in_text: true, ..old(ctx)@ }),
{
    ctx.in_text = true;
}

fn start2(name: &String, attrs: &Vec<(String, String)>, ctx: &mut ParseContext)
    ensures
        final(ctx)@ == start_spec2(old(ctx)@, name@, crate::xml::attrs_view(attrs@)),
{
    if name_is(name, "tbl", "hp:tbl") {
        start_table(ctx, attrs);
    } else if name_is(name, "tr", "hp:tr") {
        start_row(ctx);
    } else if name_is(name, "tc", "hp:tc") {
        start_cell(ctx);
    } else if name_is(name, "ol", "ul") {
        start_list(ctx, crate::text::str_eq(name.as_str(), "ol"));
    } else if name_is(name, "li", "hp:li") {
        start_item(ctx);
    } else if name_is_equation(name) {
        start_equation(ctx);
    } else {
        start3(name, attrs, ctx);
    }
}

fn start3(name: &String, attrs: &Vec<(String, String)>, ctx: &mut ParseContext)
    ensures
        final(ctx)@ == start_spec3(old(ctx)@, name@, crate::xml::attrs_view(attrs@)),
{
    if name_is(name, "fieldBegin", "hp:fieldBegin") {
        start_field(ctx, attrs);
    } else if name_is(name, "ruby", "hp:ruby") {
        start_ruby(ctx);
    } else if name_is(name, "rubyText", "hp:rubyText") {
        set_ruby_part(ctx, RubyPart::Annotation);
    } else if name_is(name, "baseText", "hp:baseText") {
        set_ruby_part(ctx, RubyPart::Base);
    } else if name_is_note(name) {
        start_note(ctx, attrs);
    } else {
        start4(name, attrs, ctx);
    }
}

fn start4(name: &String, attrs: &Vec<(String, String)>, ctx: &mut ParseContext)
    ensures
        final(ctx)@ == start_spec4(old(ctx)@, name@, crate::xml::attrs_view(attrs@)),
{
    if name_is(name, "headerFooter", "hp:headerFooter") {
        start_header_footer(ctx);
    } else if name_is(name, "header", "hp:header") && ctx.header_footer.active {
        enter_header(ctx);
    } else if name_is(name, "footer", "hp:footer") && ctx.header_footer.active {
        enter_footer(ctx);
    } else if name_is(name, "secPr", "hp:secPr") {
        start_sec_pr(ctx);
    } else if name_is(name, "pagePr", "hp:pagePr") {
        start_page_pr(ctx, attrs);
    } else if name_is(name, "pageSize", "hp:pageSize") {
        start_page_size(ctx, attrs);
    } else if name_is(name, "margin", "hp:margin") {
        start_margin(ctx, attrs);
    }
}

/// Handles a start tag (see `start_spec`).
pub fn handle_start_element(name: &String, attrs: &Vec<(String, String)>, ctx: &mut ParseContext)
    ensures
        final(ctx)@ == start_spec(old(ctx)@, name@, crate::xml::attrs_view(attrs@)),
{
    if name_is(name, "p", "hp:p") {
        start_paragraph(ctx, attrs);
    } else if name_is(name, "run", "hp:run") {
        start_run(ctx);
    } else if name_is(name, "charPr", "hp:charPr") {
        apply_charpr_attrs(attrs, ctx);
    } else if name_is(name, "t", "hp:t") {
        start_text(ctx);
    } else {
        start2(name, attrs, ctx);
    }
}

// ---------------------------------------------------------------------------
// End tags
// ---------------------------------------------------------------------------

pub open spec fn opt_seq<A>(o: Option<A>) -> Seq<A> {
    match o {
        Some(x) => seq![x],
        None => Seq::empty(),
    }
}

pub type Effect = (CtxV, Seq<StagedBlockV>);

/// `</hp:p>`: the open nested scope's paragraph is flushed into it; at top
/// level the paragraph is staged.
pub open spec fn p_end(c: CtxV) -> Effect {
    match nested_flushed(c) {
        Some(c2) => (CtxV { in_paragraph: false, ..c2 }, Seq::empty()),
        None => (CtxV { in_paragraph: false, ..top_cleared(c) }, opt_seq(staged_of(c))),
    }
}

/// The inline of a finished `<hp:t>`: the run's formatting and the open
/// hyperlink.
pub open spec fn t_inline(c: CtxV, text: Seq<char>) -> InlineV {
    InlineV { link: if c.in_hyperlink { c.hyperlink_url } else { None }, ..fmt_inline(c.fmt, text) }
}

/// `</hp:t>`: the paragraph text (the header/footer text inside one)
/// becomes an inline of the open scope.
pub open spec fn t_end(c: CtxV) -> CtxV {
    let c0 = CtxV { in_text: false, ..c };
    let (text, c1) = if in_hf_text(c) {
        (c.header_footer.text, CtxV { header_footer: HeaderFooterStateV { text: Seq::empty(), ..c0.header_footer }, ..c0 })
    } else {
        (c.current_text, CtxV { current_text: Seq::empty(), ..c0 })
    };
    if text.len() > 0 { push_inline_spec(c1, t_inline(c, text)) } else { c1 }
}

/// `</hp:tbl>`: a table with rows is staged, as wide as its `colCnt` or its
/// widest row.
pub open spec fn tbl_end(c: CtxV) -> Effect {
    let width = if c.table.col_count >= crate::writer_section::max_cells(c.table.rows) {
        c.table.col_count
    } else {
        crate::writer_section::max_cells(c.table.rows) as usize
    };
    if c.table.rows.len() > 0 {
        (
            CtxV { table: TableStateV { rows: Seq::empty(), active: false, ..c.table }, ..c },
            seq![StagedBlockV::Plain(BlockV::Table { rows: c.table.rows, col_count: width })],
        )
    } else {
        (CtxV { table: TableStateV { active: false, ..c.table }, ..c }, Seq::empty())
    }
}

/// `</hp:tr>`: the row's cells become a row; the first row is the header.
pub open spec fn tr_end(c: CtxV) -> CtxV {
    CtxV {
        table: TableStateV {
            rows: c.table.rows.push(TableRowV { cells: c.table.current_row_cells, is_header: c.table.rows.len() == 0 }),
            current_row_cells: Seq::empty(),
            ..c.table
        },
        ..c
    }
}

/// `</hp:tc>`: the cell's last paragraph is flushed and the cell added to
/// the row with its spans.
pub open spec fn tc_end(c: CtxV) -> CtxV {
    let c1 = cell_flushed(c, CodeLangHintV::Plain);
    CtxV {
        table: TableStateV {
            current_row_cells: c1.table.current_row_cells.push(TableCellV {
                blocks: c1.table.cell_blocks,
                colspan: c1.table.current_colspan,
                rowspan: c1.table.current_rowspan,
            }),
            cell_blocks: Seq::empty(),
            in_cell: false,
            ..c1.table
        },
        ..c1
    }
}

/// `</li>`: the item's last paragraph is flushed and the item added.
pub open spec fn li_end(c: CtxV) -> CtxV {
    let c1 = item_flushed(c, CodeLangHintV::Plain);
    CtxV {
        list: ListStateV {
            items: c1.list.items.push(ListItemV { blocks: c1.list.item_blocks, children: Seq::empty(), checked: None }),
            item_blocks: Seq::empty(),
            in_item: false,
            ..c1.list
        },
        ..c1
    }
}

/// `</ol>` / `</ul>`: a list with items is staged.
pub open spec fn list_end(c: CtxV) -> Effect {
    if c.list.items.len() > 0 {
        (
            CtxV { list: ListStateV { items: Seq::empty(), active: false, ..c.list }, ..c },
            seq![StagedBlockV::Plain(BlockV::List { ordered: c.list.ordered, start: 1, items: c.list.items })],
        )
    } else {
        (CtxV { list: ListStateV { active: false, ..c.list }, ..c }, Seq::empty())
    }
}

/// End of an equation: non-empty text is staged as display math.
pub open spec fn eq_end(c: CtxV) -> Effect {
    if c.equation_text.len() > 0 {
        (
            CtxV { equation_text: Seq::empty(), in_equation: false, ..c },
            seq![StagedBlockV::Plain(BlockV::Math { display: true, tex: c.equation_text })],
        )
    } else {
        (CtxV { in_equation: false, ..c }, Seq::empty())
    }
}

pub open spec fn ruby_inline_v(f: FormattingStateV, base: Seq<char>, ann: Seq<char>) -> InlineV {
    InlineV { ruby: if ann.len() == 0 { None } else { Some(ann) }, font_name: None, ..fmt_inline(f, base) }
}

/// The ruby's base text and annotation, taken out and pushed as one inline
/// when either is not empty.
pub open spec fn ruby_pushed(c: CtxV) -> CtxV {
    let c1 = CtxV { ruby_base_text: Seq::empty(), ruby_annotation_text: Seq::empty(), ..c };
    if c.ruby_base_text.len() > 0 || c.ruby_annotation_text.len() > 0 {
        push_inline_spec(c1, ruby_inline_v(c.fmt, c.ruby_base_text, c.ruby_annotation_text))
    } else {
        c1
    }
}

/// `</hp:ruby>`: base text and annotation become one inline (formatting of
/// the run, no face name).
pub open spec fn ruby_end(c: CtxV) -> CtxV {
    CtxV { in_ruby: false, ruby_current_part: RubyPart::Outside, ..ruby_pushed(c) }
}

/// End of a footnote or endnote: its last paragraph is flushed; a note with
/// blocks is staged.
pub open spec fn note_end(c: CtxV) -> Effect {
    let c1 = footnote_flushed(c, CodeLangHintV::Plain);
    if c1.footnote.blocks.len() > 0 {
        (
            CtxV { footnote: FootnoteStateV { id: Seq::empty(), blocks: Seq::empty(), active: false, ..c1.footnote }, ..c1 },
            seq![StagedBlockV::Plain(BlockV::Footnote { id: c1.footnote.id, content: c1.footnote.blocks })],
        )
    } else {
        (CtxV { footnote: FootnoteStateV { id: Seq::empty(), active: false, ..c1.footnote }, ..c1 }, Seq::empty())
    }
}

/// What an end tag does: the new context and the blocks it stages.
pub open spec fn end_spec(c: CtxV, name: Seq<char>) -> Effect {
    if is2(name, "p"@, "hp:p"@) {
        p_end(c)
    } else if is2(name, "run"@, "hp:run"@) {
        (CtxV { in_run: false, ..c }, Seq::empty())
    } else if is2(name, "t"@, "hp:t"@) {
        (t_end(c), Seq::empty())
    } else if is2(name, "tbl"@, "hp:tbl"@) {
        tbl_end(c)
    } else if is2(name, "tr"@, "hp:tr"@) {
        (tr_end(c), Seq::empty())
    } else if is2(name, "tc"@, "hp:tc"@) {
        (tc_end(c), Seq::empty())
    } else {
        end_spec2(c, name)
    }
}

pub open spec fn end_spec2(c: CtxV, name: Seq<char>) -> Effect {
    if is2(name, "li"@, "hp:li"@) {
        (li_end(c), Seq::empty())
    } else if name == "ol"@ || name == "ul"@ {
        list_end(c)
    } else if is_equation(name) {
        eq_end(c)
    } else if is2(name, "fieldEnd"@, "hp:fieldEnd"@) {
        (CtxV { in_hyperlink: false, hyperlink_url: None, ..c }, Seq::empty())
    } else if is2(name, "header"@, "hp:header"@) {
        (CtxV { header_footer: HeaderFooterStateV { in_header: false, ..c.header_footer }, ..c }, Seq::empty())
    } else if is2(name, "footer"@, "hp:footer"@) {
        (CtxV { header_footer: HeaderFooterStateV { in_footer: false, ..c.header_footer }, ..c }, Seq::empty())
    } else {
        end_spec3(c, name)
    }
}

pub open spec fn end_spec3(c: CtxV, name: Seq<char>) -> Effect {
    if is2(name, "headerFooter"@, "hp:headerFooter"@) {
        (CtxV { header_footer: HeaderFooterStateV { active: false, ..c.header_footer }, ..c }, Seq::empty())
    } else if is2(name, "rubyText"@, "hp:rubyText"@) || is2(name, "baseText"@, "hp:baseText"@) {
        (CtxV { ruby_current_part: RubyPart::Outside, ..c }, Seq::empty())
    } else if is2(name, "ruby"@, "hp:ruby"@) {
        (ruby_end(c), Seq::empty())
    } else if is_note(name) {
        note_end(c)
    } else {
        (c, Seq::empty())
    }
}

// ---------------------------------------------------------------------------
// End tags: the code
// ---------------------------------------------------------------------------

fn push_staged(staged: &mut Vec<StagedBlock>, sb: StagedBlock)
    ensures
        crate::flush::staged_view(final(staged)@) == crate::flush::staged_view(old(staged)@).push(sb@),
{
    let ghost s0 = staged@;
    staged.push(sb);
    assert(crate::flush::staged_view(staged@) =~= crate::flush::staged_view(s0).push(sb@));
}

fn end_paragraph(ctx: &mut ParseContext, staged: &mut Vec<StagedBlock>)
    ensures
        final(ctx)@ == p_end(old(ctx)@).0,
        crate::flush::staged_view(final(staged)@) == crate::flush::staged_view(old(staged)@) + p_end(old(ctx)@).1,
{
    let ghost c0 = ctx@;
    let ghost s0 = crate::flush::staged_view(staged@);
    if crate::flush::flush_nested_scope(ctx) {
        ctx.in_paragraph = false;
        assert(crate::flush::staged_view(staged@) =~= s0 + p_end(c0).1);
    } else {
        let sb = crate::flush::flush_paragraph_staged(ctx);
        match sb {
            Some(b) => push_staged(staged, b),
            None => {},
        }
        ctx.in_paragraph = false;
        assert(crate::flush::staged_view(staged@) =~= s0 + p_end(c0).1);
    }
}

fn end_text(ctx: &mut ParseContext)
    ensures
        final(ctx)@ == t_end(old(ctx)@),
{
    let ghost c = ctx@;
    ctx.in_text = false;
    let text = if ctx.header_footer.active && (ctx.header_footer.in_header || ctx.header_footer.in_footer) {
        crate::flush::take_string(&mut ctx.header_footer.text)
    } else {
        crate::flush::take_string(&mut ctx.current_text)
    };
    if text.as_str().unicode_len() > 0 {
        let link = if ctx.in_hyperlink { crate::ir::clone_opt(&ctx.hyperlink_url) } else { None };
        let inline = crate::flush::make_inline(text, &ctx.fmt).with_link(link);
        ctx.push_inline(inline);
    }
}

fn end_table(ctx: &mut ParseContext, staged: &mut Vec<StagedBlock>)
    ensures
        final(ctx)@ == tbl_end(old(ctx)@).0,
        crate::flush::staged_view(final(staged)@) == crate::flush::staged_view(old(staged)@) + tbl_end(old(ctx)@).1,
{
    let ghost c0 = ctx@;
    let ghost s0 = crate::flush::staged_view(staged@);
    let widest = crate::writer_section::max_row_cells(&ctx.table.rows);
    let width = if ctx.table.col_count >= widest { ctx.table.col_count } else { widest };
    if ctx.table.rows.len() > 0 {
        let mut rows: Vec<crate::ir::TableRow> = Vec::new();
        std::mem::swap(&mut rows, &mut ctx.table.rows);
        push_staged(staged, StagedBlock::Plain(crate::ir::Block::Table { rows, col_count: width }));
        assert(ctx@.table.rows =~= Seq::<TableRowV>::empty());
    }
    ctx.table.active = false;
    assert(crate::flush::staged_view(staged@) =~= s0 + tbl_end(c0).1);
}

fn end_row(ctx: &mut ParseContext)
    ensures
        final(ctx)@ == tr_end(old(ctx)@),
{
    let ghost c0 = ctx@;
    let mut cells: Vec<crate::ir::TableCell> = Vec::new();
    std::mem::swap(&mut cells, &mut ctx.table.current_row_cells);
    let is_header = ctx.table.rows.len() == 0;
    let row = crate::ir::TableRow { cells, is_header };
    let ghost r0 = ctx.table.rows@;
    ctx.table.rows.push(row);
    proof { crate::ir::lemma_rows_view_push(r0, row); }
    assert(ctx@.table.current_row_cells =~= Seq::<TableCellV>::empty());
    assert(ctx@ =~= tr_end(c0));
}

fn end_cell(ctx: &mut ParseContext)
    ensures
        final(ctx)@ == tc_end(old(ctx)@),
{
    let ghost c0 = ctx@;
    crate::flush::flush_cell_paragraph(ctx, CodeLangHint::Plain);
    let ghost c1 = ctx@;
    let blocks = crate::flush::take_blocks(&mut ctx.table.cell_blocks);
    let cell = crate::ir::TableCell { blocks, colspan: ctx.table.current_colspan, rowspan: ctx.table.current_rowspan };
    let ghost r0 = ctx.table.current_row_cells@;
    ctx.table.current_row_cells.push(cell);
    proof { crate::ir::lemma_cells_view_push(r0, cell); }
    ctx.table.in_cell = false;
    assert(ctx@.table.cell_blocks =~= Seq::<BlockV>::empty());
    assert(ctx@ =~= tc_end(c0));
}

fn end_item(ctx: &mut ParseContext)
    ensures
        final(ctx)@ == li_end(old(ctx)@),
{
    let ghost c0 = ctx@;
    crate::flush::flush_list_item_paragraph(ctx, CodeLangHint::Plain);
    let blocks = crate::flush::take_blocks(&mut ctx.list.item_blocks);
    let item = crate::ir::ListItem { blocks, children: Vec::new(), checked: None };
    assert(item@.children =~= Seq::<ListItemV>::empty());
    let ghost i0 = ctx.list.items@;
    ctx.list.items.push(item);
    proof { crate::ir::lemma_items_view_push(i0, item); }
    ctx.list.in_item = false;
    assert(ctx@.list.item_blocks =~= Seq::<BlockV>::empty());
    assert(ctx@ =~= li_end(c0));
}

fn end_list(ctx: &mut ParseContext, staged: &mut Vec<StagedBlock>)
    ensures
        final(ctx)@ == list_end(old(ctx)@).0,
        crate::flush::staged_view(final(staged)@) == crate::flush::staged_view(old(staged)@) + list_end(old(ctx)@).1,
{
    let ghost c0 = ctx@;
    let ghost s0 = crate::flush::staged_view(staged@);
    if ctx.list.items.len() > 0 {
        let mut items: Vec<crate::ir::ListItem> = Vec::new();
        std::mem::swap(&mut items, &mut ctx.list.items);
        push_staged(staged, StagedBlock::Plain(crate::ir::Block::List { ordered: ctx.list.ordered, start: 1, items }));
        assert(ctx@.list.items =~= Seq::<ListItemV>::empty());
    }
    ctx.list.active = false;
    assert(crate::flush::staged_view(staged@) =~= s0 + list_end(c0).1);
}

fn end_equation(ctx: &mut ParseContext, staged: &mut Vec<StagedBlock>)
    ensures
        final(ctx)@ == eq_end(old(ctx)@).0,
        crate::flush::staged_view(final(staged)@) == crate::flush::staged_view(old(staged)@) + eq_end(old(ctx)@).1,
{
    let ghost c0 = ctx@;
    let ghost s0 = crate::flush::staged_view(staged@);
    if ctx.equation_text.as_str().unicode_len() > 0 {
        let tex = crate::flush::take_string(&mut ctx.equation_text);
        push_staged(staged, StagedBlock::Plain(crate::ir::Block::Math { display: true, tex }));
    }
    ctx.in_equation = false;
    assert(crate::flush::staged_view(staged@) =~= s0 + eq_end(c0).1);
}

fn ruby_inline(base: String, ann: String, f: &crate::context::FormattingState) -> (res: crate::ir::Inline)
    ensures
        res@ == ruby_inline_v(f@, base@, ann@),
{
    let al = ann.as_str().unicode_len();
    crate::ir::Inline::with_formatting(
        base,
        f.bold,
        f.italic,
        f.underline,
        f.strike,
        f.superscript,
        f.subscript,
        crate::ir::clone_opt(&f.color),
    ).with_ruby(if al == 0 { None } else { Some(ann) })
}

fn take_ruby_texts(ctx: &mut ParseContext) -> (res: (String, String))
    ensures
        res.0@ == old(ctx)@.ruby_base_text,
        res.1@ == old(ctx)@.ruby_annotation_text,
        final(ctx)@ == (CtxV { ruby_base_text: Seq::empty(), ruby_annotation_text: Seq::empty(), ..old(ctx)@ }),
{
    let base = crate::flush::take_string(&mut ctx.ruby_base_text);
    let ann = crate::flush::take_string(&mut ctx.ruby_annotation_text);
    (base, ann)
}

fn push_ruby(ctx: &mut ParseContext)
    ensures
        final(ctx)@ == ruby_pushed(old(ctx)@),
{
    let (base, ann) = take_ruby_texts(ctx);
    if base.as_str().unicode_len() > 0 || ann.as_str().unicode_len() > 0 {
        let inline = ruby_inline(base, ann, &ctx.fmt);
        ctx.push_inline(inline);
    }
}

fn end_ruby(ctx: &mut ParseContext)
    ensures
        final(ctx)@ == ruby_end(old(ctx)@),
{
    push_ruby(ctx);
    ctx.in_ruby = false;
    ctx.ruby_current_part = RubyPart::Outside;
}

fn end_note(ctx: &mut ParseContext, staged: &mut Vec<StagedBlock>)
    ensures
        final(ctx)@ == note_end(old(ctx)@).0,
        crate::flush::staged_view(final(staged)@) == crate::flush::staged_view(old(staged)@) + note_end(old(ctx)@).1,
{
    let ghost c0 = ctx@;
    let ghost s0 = crate::flush::staged_view(staged@);
    crate::flush::flush_footnote_paragraph(ctx, CodeLangHint::Plain);
    if ctx.footnote.blocks.len() > 0 {
        let id = crate::flush::take_string(&mut ctx.footnote.id);
        let content = crate::flush::take_blocks(&mut ctx.footnote.blocks);
        push_staged(staged, StagedBlock::Plain(crate::ir::Block::Footnote { id, content }));
        assert(ctx@.footnote.blocks =~= Seq::<BlockV>::empty());
    } else {
        ctx.footnote.id = String::new();
    }
    ctx.footnote.active = false;
    assert(crate::flush::staged_view(staged@) =~= s0 + note_end(c0).1);
    assert(ctx@ =~= note_end(c0).0);
}

fn end_run(ctx: &mut ParseContext)
    ensures
        final(ctx)@ == (CtxV { in_run: false, ..old(ctx)@ }),
{
    ctx.in_run = false;
}

fn end_field(ctx: &mut ParseContext)
    ensures
        final(ctx)@ == (CtxV { in_hyperlink: false, hyperlink_url: None, ..old(ctx)@ }),
{
    ctx.in_hyperlink = false;
    ctx.hyperlink_url = None;
}

fn leave_header(ctx: &mut ParseContext)
    ensures
        final(ctx)@ == (CtxV { header_footer: HeaderFooterStateV { in_header: false, ..old(ctx)@.header_footer }, ..old(ctx)@ }),
{
    ctx.header_footer.in_header = false;
}

fn leave_footer(ctx: &mut ParseContext)
    ensures
        final(ctx)@ == (CtxV { header_footer: HeaderFooterStateV { in_footer: false, ..old(ctx)@.header_footer }, ..old(ctx)@ }),
{
    ctx.header_footer.in_footer = false;
}

fn leave_header_footer(ctx: &mut ParseContext)
    ensures
        final(ctx)@ == (CtxV { header_footer: HeaderFooterStateV { active: false, ..old(ctx)@.header_footer }, ..old(ctx)@ }),
{
    ctx.header_footer.active = false;
}

pub open spec fn effect_applied(c: CtxV, s: Seq<StagedBlockV>, e: Effect, c2: CtxV, s2: Seq<StagedBlockV>) -> bool {
    c2 == e.0 && s2 == s + e.1
}

fn end3(name: &String, ctx: &mut ParseContext, staged: &mut Vec<StagedBlock>)
    ensures
        effect_applied(old(ctx)@, crate::flush::staged_view(old(staged)@), end_spec3(old(ctx)@, name@), final(ctx)@, crate::flush::staged_view(final(staged)@)),
{
    let ghost s0 = crate::flush::staged_view(staged@);
    if name_is(name, "headerFooter", "hp:headerFooter") {
        leave_header_footer(ctx);
        assert(crate::flush::staged_view(staged@) =~= s0 + Seq::<StagedBlockV>::empty());
    } else if name_is(name, "rubyText", "hp:rubyText") || name_is(name, "baseText", "hp:baseText") {
        set_ruby_part(ctx, RubyPart::Outside);
        assert(crate::flush::staged_view(staged@) =~= s0 + Seq::<StagedBlockV>::empty());
    } else if name_is(name, "ruby", "hp:ruby") {
        end_ruby(ctx);
        assert(crate::flush::staged_view(staged@) =~= s0 + Seq::<StagedBlockV>::empty());
    } else if name_is_note(name) {
        end_note(ctx, staged);
    } else {
        assert(crate::flush::staged_view(staged@) =~= s0 + Seq::<StagedBlockV>::empty());
    }
}

fn end2(name: &String, ctx: &mut ParseContext, staged: &mut Vec<StagedBlock>)
    ensures
        effect_applied(old(ctx)@, crate::flush::staged_view(old(staged)@), end_spec2(old(ctx)@, name@), final(ctx)@, crate::flush::staged_view(final(staged)@)),
{
    let ghost s0 = crate::flush::staged_view(staged@);
    if name_is(name, "li", "hp:li") {
        end_item(ctx);
        assert(crate::flush::staged_view(staged@) =~= s0 + Seq::<StagedBlockV>::empty());
    } else if name_is(name, "ol", "ul") {
        end_list(ctx, staged);
    } else if name_is_equation(name) {
        end_equation(ctx, staged);
    } else if name_is(name, "fieldEnd", "hp:fieldEnd") {
        end_field(ctx);
        assert(crate::flush::staged_view(staged@) =~= s0 + Seq::<StagedBlockV>::empty());
    } else if name_is(name, "header", "hp:header") {
        leave_header(ctx);
        assert(crate::flush::staged_view(staged@) =~= s0 + Seq::<StagedBlockV>::empty());
    } else if name_is(name, "footer", "hp:footer") {
        leave_footer(ctx);
        assert(crate::flush::staged_view(staged@) =~= s0 + Seq::<StagedBlockV>::empty());
    } else {
        end3(name, ctx, staged);
    }
}

/// Handles an end tag (see `end_spec`): updates the context and appends
/// the blocks it stages.
pub fn handle_end_element(name: &String, ctx: &mut ParseContext, staged: &mut Vec<StagedBlock>)
    ensures
        effect_applied(old(ctx)@, crate::flush::staged_view(old(staged)@), end_spec(old(ctx)@, name@), final(ctx)@, crate::flush::staged_view(final(staged)@)),
{
    let ghost s0 = crate::flush::staged_view(staged@);
    if name_is(name, "p", "hp:p") {
        end_paragraph(ctx, staged);
    } else if name_is(name, "run", "hp:run") {
        end_run(ctx);
        assert(crate::flush::staged_view(staged@) =~= s0 + Seq::<StagedBlockV>::empty());
    } else if name_is(name, "t", "hp:t") {
        end_text(ctx);
        assert(crate::flush::staged_view(staged@) =~= s0 + Seq::<StagedBlockV>::empty());
    } else if name_is(name, "tbl", "hp:tbl") {
        end_table(ctx, staged);
    } else if name_is(name, "tr", "hp:tr") {
        end_row(ctx);
        assert(crate::flush::staged_view(staged@) =~= s0 + Seq::<StagedBlockV>::empty());
    } else if name_is(name, "tc", "hp:tc") {
        end_cell(ctx);
        assert(crate::flush::staged_view(staged@) =~= s0 + Seq::<StagedBlockV>::empty());
    } else {
        end2(name, ctx, staged);
    }
}

// ---------------------------------------------------------------------------
// Text and comments
// ---------------------------------------------------------------------------

/// What character data does: equation text, ruby base or annotation, or
/// the open scope's text inside `<hp:run><hp:t>`; ignored elsewhere.
pub open spec fn text_spec(c: CtxV, t: Seq<char>) -> CtxV {
    if c.in_equation {
        CtxV { equation_text: c.equation_text + t, ..c }
    } else if c.in_ruby {
        match c.ruby_current_part {
            RubyPart::Base => CtxV { ruby_base_text: c.ruby_base_text + t, ..c },
            RubyPart::Annotation => CtxV { ruby_annotation_text: c.ruby_annotation_text + t, ..c },
            RubyPart::Outside => c,
        }
    } else if c.in_run && c.in_text {
        push_text_spec(c, t)
    } else {
        c
    }
}

/// Handles character data (see `text_spec`).
pub fn handle_text(text: &str, ctx: &mut ParseContext)
    ensures
        final(ctx)@ == text_spec(old(ctx)@, text@),
{
    if ctx.in_equation {
        crate::text::push_str(&mut ctx.equation_text, text);
        return;
    }
    if ctx.in_ruby {
        match ctx.ruby_current_part {
            RubyPart::Base => crate::text::push_str(&mut ctx.ruby_base_text, text),
            RubyPart::Annotation => crate::text::push_str(&mut ctx.ruby_annotation_text, text),
            RubyPart::Outside => {},
        }
        return;
    }
    if ctx.in_run && ctx.in_text {
        ctx.push_text(text);
    }
}

/// A `<!-- hwp2md:lang:LANG -->` comment marks the next paragraph as a code
/// block in LANG (no language when LANG is empty); other comments change
/// nothing.
pub open spec fn comment_spec(c: CtxV, text: Seq<char>) -> CtxV {
    let t = crate::writer_content::trim_ws(text);
    if starts_with(t, "hwp2md:lang:"@) {
        let lang = crate::writer_content::trim_ws(t.subrange(12, t.len() as int));
        CtxV {
            pending_code_lang: if lang.len() == 0 { CodeLangHintV::CodeNoLang } else { CodeLangHintV::Code(lang) },
            ..c
        }
    } else {
        c
    }
}

/// Handles a comment (see `comment_spec`).
pub fn handle_comment(text: &str, ctx: &mut ParseContext)
    ensures
        final(ctx)@ == comment_spec(old(ctx)@, text@),
{
    proof { reveal_strlit("hwp2md:lang:"); }
    let cs = chars_of(text);
    let t = crate::writer_content::trim_chars(&cs);
    if crate::text::seq_starts_with(&t, "hwp2md:lang:") {
        let rest = crate::text::sub_vec(&t, 12, t.len());
        let lang = crate::writer_content::trim_chars(&rest);
        ctx.pending_code_lang = if lang.len() == 0 {
            CodeLangHint::CodeNoLang
        } else {
            CodeLangHint::Code(crate::text::string_of(&lang))
        };
    }
}

// ---------------------------------------------------------------------------
// Empty elements
// ---------------------------------------------------------------------------

pub open spec fn image_src_keys() -> Seq<Seq<char>> {
    seq!["src"@, "href"@, "hp:href"@, "binaryItemIDRef"@, "hp:binaryItemIDRef"@]
}

pub open spec fn or_empty(o: Option<Seq<char>>) -> Seq<char> {
    match o {
        Some(v) => v,
        None => Seq::empty(),
    }
}

/// `<hp:img/>`: an image with a source goes to the open nested scope, or is
/// staged at top level.
pub open spec fn img_spec(c: CtxV, attrs: AttrsV) -> Effect {
    let src = or_empty(last_of(attrs, image_src_keys(), None));
    let alt = or_empty(last_of(attrs, seq!["alt"@], None));
    if src.len() > 0 {
        let b = BlockV::Image { src, alt };
        (push_block_spec(c, b), if block_nested(c) { Seq::empty() } else { seq![StagedBlockV::Plain(b)] })
    } else {
        (c, Seq::empty())
    }
}

pub open spec fn span_of(attrs: AttrsV, keys: Seq<Seq<char>>, init: u32) -> u32 {
    match last_u32_of(attrs, keys, Some(init), 1) {
        Some(n) => n,
        None => init,
    }
}

/// `<hp:cellAddr/>`: the cell's spans (values below 1 are ignored).
pub open spec fn cell_addr_spec(c: CtxV, attrs: AttrsV) -> CtxV {
    CtxV {
        table: TableStateV {
            current_colspan: span_of(attrs, seq!["colSpan"@, "hp:colSpan"@], c.table.current_colspan),
            current_rowspan: span_of(attrs, seq!["rowSpan"@, "hp:rowSpan"@], c.table.current_rowspan),
            ..c.table
        },
        ..c
    }
}

pub open spec fn note_ref_v(id: Seq<char>) -> InlineV {
    InlineV { footnote_ref: Some(id), ..plain_inline_v(Seq::empty()) }
}

/// `<hp:noteRef/>`: a footnote reference marker.
pub open spec fn note_ref_spec(c: CtxV, attrs: AttrsV) -> CtxV {
    let id = or_empty(first_of(attrs, seq!["noteId"@, "hp:noteId"@, "id"@, "hp:id"@]));
    if id.len() > 0 { push_inline_spec(c, note_ref_v(id)) } else { c }
}

/// `<hp:ctrl/>`: a footnote or endnote reference marker; or a page break,
/// which first flushes the open scope's pending text.
pub open spec fn ctrl_spec(c: CtxV, attrs: AttrsV) -> Effect {
    let kind = or_empty(last_of(attrs, seq!["id"@, "hp:id"@], None));
    let id_ref = or_empty(last_of(attrs, seq!["idRef"@, "hp:idRef"@], None));
    if (kind == "fn"@ || kind == "en"@) && id_ref.len() > 0 {
        (push_inline_spec(c, note_ref_v(id_ref)), Seq::empty())
    } else if page_break_id(kind) {
        let (c1, s1) = active_flushed(c);
        (
            push_block_spec(c1, BlockV::PageBreak),
            opt_seq(s1) + if block_nested(c1) { Seq::empty() } else { seq![StagedBlockV::Plain(BlockV::PageBreak)] },
        )
    } else {
        (c, Seq::empty())
    }
}

/// A note-reference control adds a footnote reference to the open scope: an
/// empty `<ctrl id="fn" idRef="r"/>` (or `id="en"`, with or without the
/// `hp:` prefix) with a non-empty `r` appends an inline that is the
/// reference `r` (no text, no formatting) to the text of the open scope, and
/// stages nothing; at top level it is the paragraph's next inline.
pub proof fn law_ctrl_note_ref(c: CtxV, name: Seq<char>, kind: Seq<char>, r: Seq<char>)
    requires
        name == "ctrl"@ || name == "hp:ctrl"@,
        kind == "fn"@ || kind == "en"@,
        r.len() > 0,
    ensures
        ({
            let note = InlineV { footnote_ref: Some(r), ..plain_inline_v(Seq::empty()) };
            let e = empty_spec(c, name, seq![("id"@, kind), ("idRef"@, r)]);
            &&& e.1 == Seq::<StagedBlockV>::empty()
            &&& e.0 == push_inline_spec(c, note)
            &&& !block_nested(c) && !crate::context::in_hf_text(c) ==> e.0 == CtxV {
                current_inlines: c.current_inlines.push(note),
                ..c
            }
        }),
{
    reveal_strlit("img");
    reveal_strlit("hp:img");
    reveal_strlit("picture");
    reveal_strlit("hp:picture");
    reveal_strlit("lineBreak");
    reveal_strlit("hp:lineBreak");
    reveal_strlit("cellAddr");
    reveal_strlit("hp:cellAddr");
    reveal_strlit("charPr");
    reveal_strlit("hp:charPr");
    reveal_strlit("fieldBegin");
    reveal_strlit("hp:fieldBegin");
    reveal_strlit("fieldEnd");
    reveal_strlit("hp:fieldEnd");
    reveal_strlit("noteRef");
    reveal_strlit("hp:noteRef");
    reveal_strlit("ctrl");
    reveal_strlit("hp:ctrl");
    reveal_strlit("id");
    reveal_strlit("hp:id");
    reveal_strlit("idRef");
    reveal_strlit("hp:idRef");
    reveal_strlit("fn");
    reveal_strlit("en");
    assert("img"@.len() == 3);
    assert("hp:img"@.len() == 6);
    assert("picture"@.len() == 7);
    assert("hp:picture"@.len() == 10);
    assert("lineBreak"@.len() == 9);
    assert("hp:lineBreak"@.len() == 12);
    assert("cellAddr"@.len() == 8);
    assert("hp:cellAddr"@.len() == 11);
    assert("charPr"@.len() == 6);
    assert("hp:charPr"@.len() == 9);
    assert("fieldBegin"@.len() == 10);
    assert("hp:fieldBegin"@.len() == 13);
    assert("fieldEnd"@.len() == 8);
    assert("hp:fieldEnd"@.len() == 11);
    assert("noteRef"@.len() == 7);
    assert("hp:noteRef"@.len() == 10);
    assert("ctrl"@.len() == 4);
    assert("hp:ctrl"@.len() == 7);
    assert("id"@.len() == 2);
    assert("hp:id"@.len() == 5);
    assert("idRef"@.len() == 5);
    assert("hp:idRef"@.len() == 8);
    assert("fn"@.len() == 2);
    assert("en"@.len() == 2);
    assert("hp:ctrl"@[0] != "picture"@[0] && "hp:ctrl"@[3] != "noteRef"@[3] && "hp:ctrl"@[0] != "noteRef"@[0]);
    assert("idRef"@[0] != "hp:id"@[0]);
    let a = seq![("id"@, kind), ("idRef"@, r)];
    let k1 = seq!["id"@, "hp:id"@];
    let k2 = seq!["idRef"@, "hp:idRef"@];
    assert(k1[0] == "id"@ && k1[1] == "hp:id"@ && k2[0] == "idRef"@ && k2[1] == "hp:idRef"@);
    assert(!k1.contains("idRef"@)) by {
        assert forall|i: int| 0 <= i < 2 implies k1[i] != "idRef"@ by {}
    }
    assert(!k2.contains("id"@)) by {
        assert forall|i: int| 0 <= i < 2 implies k2[i] != "id"@ by {}
    }
    assert(k1.contains("id"@));
    assert(k2.contains("idRef"@));
    assert(a.drop_last() =~= seq![("id"@, kind)]);
    assert(a.drop_last().drop_last() =~= Seq::<(Seq<char>, Seq<char>)>::empty());
    reveal_with_fuel(last_of, 3);
    assert(last_of(a, k1, None) == Some(kind));
    assert(last_of(a, k2, None) == Some(r));
}

/// A note-reference element adds a footnote reference to the open scope:
/// an empty `<noteRef noteId="r"/>` (with or without the `hp:` prefix) with
/// a non-empty `r` appends the reference `r` (no text, no formatting) to the
/// open scope and stages nothing.
pub proof fn law_note_ref_element(c: CtxV, name: Seq<char>, r: Seq<char>)
    requires
        name == "noteRef"@ || name == "hp:noteRef"@,
        r.len() > 0,
    ensures
        empty_spec(c, name, seq![("noteId"@, r)]) == (
            push_inline_spec(c, InlineV { footnote_ref: Some(r), ..plain_inline_v(Seq::empty()) }),
            Seq::<StagedBlockV>::empty(),
        ),
{
    reveal_strlit("img");
    reveal_strlit("hp:img");
    reveal_strlit("picture");
    reveal_strlit("hp:picture");
    reveal_strlit("lineBreak");
    reveal_strlit("hp:lineBreak");
    reveal_strlit("cellAddr");
    reveal_strlit("hp:cellAddr");
    reveal_strlit("charPr");
    reveal_strlit("hp:charPr");
    reveal_strlit("fieldBegin");
    reveal_strlit("hp:fieldBegin");
    reveal_strlit("fieldEnd");
    reveal_strlit("hp:fieldEnd");
    reveal_strlit("noteRef");
    reveal_strlit("hp:noteRef");
    reveal_strlit("noteId");
    assert("img"@.len() == 3);
    assert("hp:img"@.len() == 6);
    assert("picture"@.len() == 7);
    assert("hp:picture"@.len() == 10);
    assert("lineBreak"@.len() == 9);
    assert("hp:lineBreak"@.len() == 12);
    assert("cellAddr"@.len() == 8);
    assert("hp:cellAddr"@.len() == 11);
    assert("charPr"@.len() == 6);
    assert("hp:charPr"@.len() == 9);
    assert("fieldBegin"@.len() == 10);
    assert("hp:fieldBegin"@.len() == 13);
    assert("fieldEnd"@.len() == 8);
    assert("hp:fieldEnd"@.len() == 11);
    assert("noteRef"@.len() == 7);
    assert("hp:noteRef"@.len() == 10);
    assert("noteId"@.len() == 6);
    assert("noteRef"@[0] != "picture"@[0] && "hp:noteRef"@[3] != "hp:picture"@[3]);
    let ks = seq!["noteId"@, "hp:noteId"@, "id"@, "hp:id"@];
    assert(ks[0] == "noteId"@);
    assert(seq![("noteId"@, r)][0] == ("noteId"@, r));
}

/// What an empty element does.
pub open spec fn empty_spec(c: CtxV, name: Seq<char>, attrs: AttrsV) -> Effect {
    if is_image(name) {
        img_spec(c, attrs)
    } else if is2(name, "lineBreak"@, "hp:lineBreak"@) {
        (push_text_spec(c, seq!['\n']), Seq::empty())
    } else if is2(name, "cellAddr"@, "hp:cellAddr"@) {
        (cell_addr_spec(c, attrs), Seq::empty())
    } else if is2(name, "charPr"@, "hp:charPr"@) {
        (charpr_spec(c, attrs), Seq::empty())
    } else if is2(name, "fieldBegin"@, "hp:fieldBegin"@) {
        (field_begin_spec(c, attrs), Seq::empty())
    } else {
        empty_spec2(c, name, attrs)
    }
}

pub open spec fn empty_spec2(c: CtxV, name: Seq<char>, attrs: AttrsV) -> Effect {
    if is2(name, "fieldEnd"@, "hp:fieldEnd"@) {
        (CtxV { in_hyperlink: false, hyperlink_url: None, ..c }, Seq::empty())
    } else if is2(name, "noteRef"@, "hp:noteRef"@) {
        (note_ref_spec(c, attrs), Seq::empty())
    } else if is2(name, "ctrl"@, "hp:ctrl"@) {
        ctrl_spec(c, attrs)
    } else if is2(name, "pageSize"@, "hp:pageSize"@) {
        (page_size_spec(c, attrs), Seq::empty())
    } else if is2(name, "margin"@, "hp:margin"@) {
        (margin_spec(c, attrs), Seq::empty())
    } else {
        (c, Seq::empty())
    }
}

fn keys1(a: &'static str) -> (res: Vec<&'static str>)
    ensures
        names_view(res@) == seq![a@],
{
    let v = vec![a];
    assert(names_view(v@) =~= seq![a@]);
    v
}

fn image_keys() -> (res: Vec<&'static str>)
    ensures
        names_view(res@) == image_src_keys(),
{
    let v = vec!["src", "href", "hp:href", "binaryItemIDRef", "hp:binaryItemIDRef"];
    assert(names_view(v@) =~= image_src_keys());
    v
}

fn or_empty_string(o: Option<String>) -> (res: String)
    ensures
        res@ == or_empty(crate::ir::opt_str_view(o)),
{
    match o {
        Some(v) => v,
        None => String::new(),
    }
}

fn empty_image(ctx: &mut ParseContext, attrs: &Vec<(String, String)>, staged: &mut Vec<StagedBlock>)
    ensures
        effect_applied(old(ctx)@, crate::flush::staged_view(old(staged)@), img_spec(old(ctx)@, crate::xml::attrs_view(attrs@)), final(ctx)@, crate::flush::staged_view(final(staged)@)),
{
    let ghost s0 = crate::flush::staged_view(staged@);
    let src = or_empty_string(crate::attrs::last_value(attrs, &image_keys()));
    let alt = or_empty_string(crate::attrs::last_value(attrs, &keys1("alt")));
    if src.as_str().unicode_len() > 0 {
        match ctx.push_block_scoped(crate::ir::Block::Image { src, alt }) {
            Some(b) => push_staged(staged, StagedBlock::Plain(b)),
            None => {},
        }
    }
    assert(crate::flush::staged_view(staged@) =~= s0 + img_spec(old(ctx)@, crate::xml::attrs_view(attrs@)).1);
}

fn empty_cell_addr(ctx: &mut ParseContext, attrs: &Vec<(String, String)>)
    ensures
        final(ctx)@ == cell_addr_spec(old(ctx)@, crate::xml::attrs_view(attrs@)),
{
    let cs = crate::attrs::last_u32(attrs, &keys2("colSpan", "hp:colSpan"), Some(ctx.table.current_colspan), 1);
    let rs = crate::attrs::last_u32(attrs, &keys2("rowSpan", "hp:rowSpan"), Some(ctx.table.current_rowspan), 1);
    match cs {
        Some(n) => {
            ctx.table.current_colspan = n;
        },
        None => {},
    }
    match rs {
        Some(n) => {
            ctx.table.current_rowspan = n;
        },
        None => {},
    }
}

fn empty_note_ref(ctx: &mut ParseContext, attrs: &Vec<(String, String)>)
    ensures
        final(ctx)@ == note_ref_spec(old(ctx)@, crate::xml::attrs_view(attrs@)),
{
    let id = or_empty_string(crate::attrs::first_value(attrs, &keys4("noteId", "hp:noteId", "id", "hp:id")));
    if id.as_str().unicode_len() > 0 {
        ctx.push_inline(crate::ir::Inline::footnote_ref(id));
    }
}

fn page_break(ctx: &mut ParseContext, staged: &mut Vec<StagedBlock>)
    ensures
        final(ctx)@ == push_block_spec(active_flushed(old(ctx)@).0, BlockV::PageBreak),
        crate::flush::staged_view(final(staged)@) == crate::flush::staged_view(old(staged)@)
            + opt_seq(active_flushed(old(ctx)@).1)
            + if block_nested(active_flushed(old(ctx)@).0) { Seq::<StagedBlockV>::empty() } else { seq![StagedBlockV::Plain(BlockV::PageBreak)] },
{
    let ghost s0 = crate::flush::staged_view(staged@);
    match crate::flush::flush_active_paragraph_scope(ctx) {
        Some(sb) => push_staged(staged, sb),
        None => {},
    }
    let ghost s1 = crate::flush::staged_view(staged@);
    match ctx.push_block_scoped(crate::ir::Block::PageBreak) {
        Some(b) => push_staged(staged, StagedBlock::Plain(b)),
        None => {},
    }
    assert(crate::flush::staged_view(staged@) =~= s0 + opt_seq(active_flushed(old(ctx)@).1)
        + if block_nested(active_flushed(old(ctx)@).0) { Seq::<StagedBlockV>::empty() } else { seq![StagedBlockV::Plain(BlockV::PageBreak)] });
}

fn empty_ctrl(ctx: &mut ParseContext, attrs: &Vec<(String, String)>, staged: &mut Vec<StagedBlock>)
    ensures
        effect_applied(old(ctx)@, crate::flush::staged_view(old(staged)@), ctrl_spec(old(ctx)@, crate::xml::attrs_view(attrs@)), final(ctx)@, crate::flush::staged_view(final(staged)@)),
{
    let ghost s0 = crate::flush::staged_view(staged@);
    let kind = or_empty_string(crate::attrs::last_value(attrs, &keys2("id", "hp:id")));
    let id_ref = or_empty_string(crate::attrs::last_value(attrs, &keys2("idRef", "hp:idRef")));
    if (crate::text::str_eq(kind.as_str(), "fn") || crate::text::str_eq(kind.as_str(), "en")) && id_ref.as_str().unicode_len() > 0 {
        ctx.push_inline(crate::ir::Inline::footnote_ref(id_ref));
        assert(crate::flush::staged_view(staged@) =~= s0 + Seq::<StagedBlockV>::empty());
    } else if is_page_break_ctrl(kind.as_str()) {
        page_break(ctx, staged);
        assert(crate::flush::staged_view(staged@) =~= s0 + ctrl_spec(old(ctx)@, crate::xml::attrs_view(attrs@)).1);
    } else {
        assert(crate::flush::staged_view(staged@) =~= s0 + Seq::<StagedBlockV>::empty());
    }
}

fn line_break(ctx: &mut ParseContext)
    ensures
        final(ctx)@ == push_text_spec(old(ctx)@, seq!['\n']),
{
    proof { reveal_strlit("\n"); }
    ctx.push_text("\n");
}

fn empty2(name: &String, attrs: &Vec<(String, String)>, ctx: &mut ParseContext, staged: &mut Vec<StagedBlock>)
    ensures
        effect_applied(old(ctx)@, crate::flush::staged_view(old(staged)@), empty_spec2(old(ctx)@, name@, crate::xml::attrs_view(attrs@)), final(ctx)@, crate::flush::staged_view(final(staged)@)),
{
    let ghost s0 = crate::flush::staged_view(staged@);
    if name_is(name, "fieldEnd", "hp:fieldEnd") {
        end_field(ctx);
        assert(crate::flush::staged_view(staged@) =~= s0 + Seq::<StagedBlockV>::empty());
    } else if name_is(name, "noteRef", "hp:noteRef") {
        empty_note_ref(ctx, attrs);
        assert(crate::flush::staged_view(staged@) =~= s0 + Seq::<StagedBlockV>::empty());
    } else if name_is(name, "ctrl", "hp:ctrl") {
        empty_ctrl(ctx, attrs, staged);
    } else if name_is(name, "pageSize", "hp:pageSize") {
        start_page_size(ctx, attrs);
        assert(crate::flush::staged_view(staged@) =~= s0 + Seq::<StagedBlockV>::empty());
    } else if name_is(name, "margin", "hp:margin") {
        start_margin(ctx, attrs);
        assert(crate::flush::staged_view(staged@) =~= s0 + Seq::<StagedBlockV>::empty());
    } else {
        assert(crate::flush::staged_view(staged@) =~= s0 + Seq::<StagedBlockV>::empty());
    }
}

fn name_is_image(n: &String) -> (res: bool)
    ensures
        res == is_image(n@),
{
    name_is(n, "img", "hp:img") || name_is(n, "picture", "hp:picture")
}

/// Handles an empty element (see `empty_spec`): updates the context and
/// appends the blocks it stages.
pub fn handle_empty_element(name: &String, attrs: &Vec<(String, String)>, ctx: &mut ParseContext, staged: &mut Vec<StagedBlock>)
    ensures
        effect_applied(old(ctx)@, crate::flush::staged_view(old(staged)@), empty_spec(old(ctx)@, name@, crate::xml::attrs_view(attrs@)), final(ctx)@, crate::flush::staged_view(final(staged)@)),
{
    let ghost s0 = crate::flush::staged_view(staged@);
    if name_is_image(name) {
        empty_image(ctx, attrs, staged);
    } else if name_is(name, "lineBreak", "hp:lineBreak") {
        line_break(ctx);
        assert(crate::flush::staged_view(staged@) =~= s0 + Seq::<StagedBlockV>::empty());
    } else if name_is(name, "cellAddr", "hp:cellAddr") {
        empty_cell_addr(ctx, attrs);
        assert(crate::flush::staged_view(staged@) =~= s0 + Seq::<StagedBlockV>::empty());
    } else if name_is(name, "charPr", "hp:charPr") {
        apply_charpr_attrs(attrs, ctx);
        assert(crate::flush::staged_view(staged@) =~= s0 + Seq::<StagedBlockV>::empty());
    } else if name_is(name, "fieldBegin", "hp:fieldBegin") {
        start_field(ctx, attrs);
        assert(crate::flush::staged_view(staged@) =~= s0 + Seq::<StagedBlockV>::empty());
    } else {
        empty2(name, attrs, ctx, staged);
    }
}

} // verus!
