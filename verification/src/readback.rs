//! What the section reader makes of the events the section writer emits:
//! a paragraph written to a section reads back as the same paragraph.
use vstd::prelude::*;
use crate::attrs::last_of;
use crate::context::{CodeLangHintV, CtxV, FormattingStateV, default_fmt};
use crate::flush::StagedBlockV;
use crate::handlers::{charpr_fold, charpr_step, p_heading};
use crate::ir::{BlockV, InlineV};
use crate::reader::step;
use crate::text::{dec_chars, upper_seq};
use crate::writer::RefTables;
use crate::writer_section::{
    block_evs, charpr_attrs, charpr_evs, color_attr, en, face_attr, flag_attrs, has_formatting, inlines_evs,
    opt_attr, run_evs, script_attr, strip_hash, st0, t_evs, tx,
};
use crate::writer_section::blocks_evs;
use crate::xml::{XmlOutV, XmlTokenV};

verus! {

// ---------------------------------------------------------------------------
// Reading a run of written events
// ---------------------------------------------------------------------------

/// The token the reader sees for an event the writer emits: element
/// names by their local part, attributes as written.
pub open spec fn token_of_out(o: XmlOutV) -> XmlTokenV {
    match o {
        XmlOutV::Start { name, attrs } => XmlTokenV::Start { name: local_name(name), attrs },
        XmlOutV::Empty { name, attrs } => XmlTokenV::Empty { name: local_name(name), attrs },
        XmlOutV::End { name } => XmlTokenV::End { name: local_name(name) },
        XmlOutV::Text { text } => XmlTokenV::Text { text },
        XmlOutV::Comment { text } => XmlTokenV::Comment { text },
        XmlOutV::Decl { .. } => XmlTokenV::Other,
    }
}

/// The section reader's context and staged blocks after it has read the
/// events `evs`, starting from `st`.
#[verifier::opaque]
pub open spec fn read_events(st: (CtxV, Seq<StagedBlockV>), evs: Seq<XmlOutV>) -> (CtxV, Seq<StagedBlockV>)
    decreases evs.len(),
{
    if evs.len() == 0 {
        st
    } else {
        step(read_events(st, evs.drop_last()), token_of_out(evs.last()))
    }
}

proof fn lemma_read_append(st: (CtxV, Seq<StagedBlockV>), a: Seq<XmlOutV>, b: Seq<XmlOutV>)
    ensures
        read_events(st, a + b) == read_events(read_events(st, a), b),
    decreases b.len(),
{
    reveal(read_events);
    if b.len() == 0 {
        assert(a + b =~= a);
    } else {
        assert((a + b).drop_last() =~= a + b.drop_last());
        assert((a + b).last() == b.last());
        lemma_read_append(st, a, b.drop_last());
    }
}

proof fn lemma_read_one(st: (CtxV, Seq<StagedBlockV>), e: XmlOutV)
    ensures
        read_events(st, seq![e]) == step(st, token_of_out(e)),
{
    assert(seq![e].drop_last() =~= Seq::<XmlOutV>::empty());
    reveal(read_events);
    reveal_with_fuel(read_events, 2);
    lemma_local_names();
}

// ---------------------------------------------------------------------------
// Which inlines and which reader states the law speaks of
// ---------------------------------------------------------------------------

/// A colour that reads back as written: `#` and a value other than black,
/// already in upper case, that does not itself start with `#`.
pub open spec fn color_reads_back(c: Seq<char>) -> bool {
    &&& c.len() > 1
    &&& c[0] == '#'
    &&& c[1] != '#'
    &&& upper_seq(c.drop_first()) == c.drop_first()
    &&& c.drop_first() != "000000"@
}

/// An inline whose run carries everything the reader reads of it: some
/// text; any bold, italic, underline and strikethrough; at most one of
/// superscript and subscript; a colour as `color_reads_back` describes; any
/// font (see `font_in_table`); no code mark, link, ruby or note reference.
pub open spec fn inline_reads_back(i: InlineV) -> bool {
    &&& i.text.len() > 0
    &&& !i.code
    &&& !(i.superscript && i.subscript)
    &&& i.link is None
    &&& i.ruby is None
    &&& i.footnote_ref is None
    &&& match i.color {
        Some(c) => color_reads_back(c),
        None => true,
    }
}

/// The inline's font, if it has one, is in the writer's font table (as
/// `RefTables::build` puts every font of the document there).
pub open spec fn font_in_table(i: InlineV, fonts: Seq<Seq<char>>) -> bool {
    match i.font_name {
        Some(f) => fonts.contains(f),
        None => true,
    }
}

/// A reader context at the top level of a section: not inside a header,
/// footer, note, list item, table cell, ruby, equation or hyperlink, and
/// with no code-block mark pending.
pub open spec fn top_level_idle(c: CtxV) -> bool {
    &&& !c.header_footer.in_header
    &&& !c.header_footer.in_footer
    &&& !c.footnote.active
    &&& !c.list.in_item
    &&& !c.table.in_cell
    &&& !c.in_equation
    &&& !c.in_ruby
    &&& !c.in_hyperlink
    &&& c.pending_code_lang == CodeLangHintV::Plain
}

/// Inside a written top-level paragraph, between runs.
spec fn in_written_para(c: CtxV) -> bool {
    &&& top_level_idle(c)
    &&& c.current_text.len() == 0
    &&& c.para_max_font_height == 0
    &&& !c.para_max_font_height_bold
}

/// What reading a top-level paragraph leaves alone: the face names, the
/// page layout, and the header and footer state.
pub open spec fn same_frame(a: CtxV, b: CtxV) -> bool {
    &&& a.face_names == b.face_names
    &&& a.page_layout == b.page_layout
    &&& a.header_footer == b.header_footer
}

/// No paragraph text or inlines are pending.
pub open spec fn no_pending(c: CtxV) -> bool {
    c.current_inlines.len() == 0 && c.current_text.len() == 0
}

/// The paragraph properties that runs leave alone.
spec fn same_para_props(a: CtxV, b: CtxV) -> bool {
    &&& a.heading_level == b.heading_level
    &&& a.current_para_pr_id == b.current_para_pr_id
    &&& a.current_num_pr_id == b.current_num_pr_id
}

/// The formatting the reader takes from a run written for `i`.
spec fn fmt_of(i: InlineV) -> FormattingStateV {
    FormattingStateV {
        bold: i.bold,
        italic: i.italic,
        underline: i.underline,
        strike: i.strikethrough,
        superscript: i.superscript,
        subscript: i.subscript,
        color: i.color,
        font_name: i.font_name,
        font_height: None,
    }
}

// ---------------------------------------------------------------------------
// The inline `<hp:charPr>` of a run
// ---------------------------------------------------------------------------

proof fn lemma_fold_opt(f: FormattingStateV, a: Seq<(Seq<char>, Seq<char>)>, cond: bool, k: Seq<char>, v: Seq<char>)
    ensures
        charpr_fold(f, a + opt_attr(cond, k, v)) == if cond {
            charpr_step(charpr_fold(f, a), (k, v))
        } else {
            charpr_fold(f, a)
        },
{
    if cond {
        assert((a + seq![(k, v)]).drop_last() =~= a);
        assert((a + seq![(k, v)]).last() == (k, v));
    } else {
        assert(a + Seq::<(Seq<char>, Seq<char>)>::empty() =~= a);
    }
}

proof fn lemma_step_bold(f: FormattingStateV, face: Option<nat>)
    ensures
        charpr_step((f, face), ("bold"@, "true"@)) == ((FormattingStateV { bold: true, ..f }), face),
{
}

proof fn lemma_step_italic(f: FormattingStateV, face: Option<nat>)
    ensures
        charpr_step((f, face), ("italic"@, "true"@)) == (FormattingStateV { italic: true, ..f }, face),
{
    reveal_strlit("italic");
    reveal_strlit("bold");
    reveal_strlit("hp:bold");
    assert("italic"@.len() != "bold"@.len());
    assert("italic"@.len() != "hp:bold"@.len());
    assert(!crate::handlers::is2("italic"@, "bold"@, "hp:bold"@));
}

proof fn lemma_on_off_true()
    ensures
        crate::handlers::on_off("true"@),
{
    reveal_strlit("true");
    reveal_strlit("none");
    reveal_strlit("0");
    assert("true"@[0] != "none"@[0]);
}

proof fn lemma_step_underline(f: FormattingStateV, face: Option<nat>)
    ensures
        charpr_step((f, face), ("underline"@, "true"@)) == (FormattingStateV { underline: true, ..f }, face),
{
    reveal_strlit("underline");
    reveal_strlit("bold");
    reveal_strlit("hp:bold");
    reveal_strlit("italic");
    reveal_strlit("hp:italic");
    assert("underline"@[0] != "hp:italic"@[0]);
    lemma_on_off_true();
}

proof fn lemma_step_strikeout(f: FormattingStateV, face: Option<nat>)
    ensures
        charpr_step((f, face), ("strikeout"@, "true"@)) == (FormattingStateV { strike: true, ..f }, face),
{
    reveal_strlit("strikeout");
    reveal_strlit("bold");
    reveal_strlit("hp:bold");
    reveal_strlit("italic");
    reveal_strlit("hp:italic");
    reveal_strlit("underline");
    reveal_strlit("hp:underline");
    assert("strikeout"@[0] != "hp:italic"@[0]);
    assert("strikeout"@[0] != "underline"@[0]);
    lemma_on_off_true();
}

proof fn lemma_step_script(f: FormattingStateV, face: Option<nat>, sup: bool)
    ensures
        charpr_step((f, face), ("supscript"@, if sup { "superscript"@ } else { "subscript"@ }))
            == (FormattingStateV { superscript: sup, subscript: !sup, ..f }, face),
{
    reveal_strlit("supscript");
    reveal_strlit("bold");
    reveal_strlit("hp:bold");
    reveal_strlit("italic");
    reveal_strlit("hp:italic");
    reveal_strlit("underline");
    reveal_strlit("hp:underline");
    reveal_strlit("strikeout");
    reveal_strlit("hp:strikeout");
    reveal_strlit("superscript");
    reveal_strlit("subscript");
    assert("supscript"@[0] != "hp:italic"@[0]);
    assert("supscript"@[0] != "underline"@[0]);
    assert("supscript"@[1] != "strikeout"@[1]);
}

proof fn lemma_color_back(c: Seq<char>)
    requires
        color_reads_back(c),
    ensures
        crate::handlers::color_of(strip_hash(c)) == Some(c),
{
    let r = c.drop_first();
    assert(strip_hash(c) == r);
    assert(crate::text::trim_start_char(r, '#') == r);
    assert(seq!['#'] + upper_seq(r) =~= c);
}

proof fn lemma_step_color(f: FormattingStateV, face: Option<nat>, c: Seq<char>)
    requires
        color_reads_back(c),
    ensures
        charpr_step((f, face), ("color"@, strip_hash(c))) == (FormattingStateV { color: Some(c), ..f }, face),
{
    reveal_strlit("color");
    reveal_strlit("bold");
    reveal_strlit("hp:bold");
    reveal_strlit("italic");
    reveal_strlit("hp:italic");
    reveal_strlit("underline");
    reveal_strlit("hp:underline");
    reveal_strlit("strikeout");
    reveal_strlit("hp:strikeout");
    reveal_strlit("supscript");
    reveal_strlit("hp:supscript");
    let k = "color"@;
    assert(k.len() == 5);
    assert(!crate::handlers::is2(k, "bold"@, "hp:bold"@));
    assert(!crate::handlers::is2(k, "italic"@, "hp:italic"@));
    assert(!crate::handlers::is2(k, "underline"@, "hp:underline"@));
    assert(!crate::handlers::is2(k, "strikeout"@, "hp:strikeout"@));
    assert(!crate::handlers::is2(k, "supscript"@, "hp:supscript"@));
    lemma_color_back(c);
}

/// The inline `<hp:charPr>` written for `i` gives the reader `i`'s formatting.
proof fn lemma_charpr_of(i: InlineV, fonts: Seq<Seq<char>>)
    requires
        inline_reads_back(i),
        font_in_table(i, fonts),
        fonts.len() <= usize::MAX,
    ensures
        ({
            let r = charpr_fold(default_fmt(), charpr_attrs(i, fonts));
            crate::handlers::with_face(r.0, r.1, fonts) == fmt_of(i)
        }),
{
    let d = default_fmt();
    let e = Seq::<(Seq<char>, Seq<char>)>::empty();
    let a1 = e + opt_attr(i.bold, "bold"@, "true"@);
    let a2 = a1 + opt_attr(i.italic, "italic"@, "true"@);
    let a3 = a2 + opt_attr(i.underline, "underline"@, "true"@);
    let a4 = a3 + opt_attr(i.strikethrough, "strikeout"@, "true"@);
    let sv: Seq<char> = if i.superscript { "superscript"@ } else { "subscript"@ };
    let a5 = a4 + opt_attr(i.superscript || i.subscript, "supscript"@, sv);
    let cv: Seq<char> = match i.color { Some(c) => strip_hash(c), None => Seq::empty() };
    let a6 = a5 + opt_attr(i.color is Some, "color"@, cv);
    assert(e + opt_attr(i.bold, "bold"@, "true"@) =~= opt_attr(i.bold, "bold"@, "true"@));
    assert(flag_attrs(i) == a4);
    assert(script_attr(i) == opt_attr(i.superscript || i.subscript, "supscript"@, sv));
    assert(color_attr(i) == opt_attr(i.color is Some, "color"@, cv));
    let fv: Seq<char> = match i.font_name {
        Some(f) => crate::text::dec_chars(crate::writer::find_index(fonts, f).unwrap()),
        None => Seq::empty(),
    };
    match i.font_name {
        Some(f) => crate::writer::lemma_find_index_found(fonts, f),
        None => {},
    }
    assert(face_attr(i, fonts) == opt_attr(i.font_name is Some, "faceNameIDRef"@, fv));
    let a7 = a6 + opt_attr(i.font_name is Some, "faceNameIDRef"@, fv);
    assert(charpr_attrs(i, fonts) =~= a7);
    assert(charpr_fold(d, e) == (d, None::<nat>));
    lemma_fold_opt(d, e, i.bold, "bold"@, "true"@);
    lemma_step_bold(d, None);
    let f1 = FormattingStateV { bold: i.bold, ..d };
    assert(charpr_fold(d, a1) == (f1, None::<nat>));
    lemma_fold_opt(d, a1, i.italic, "italic"@, "true"@);
    lemma_step_italic(f1, None);
    let f2 = FormattingStateV { italic: i.italic, ..f1 };
    assert(charpr_fold(d, a2) == (f2, None::<nat>));
    lemma_fold_opt(d, a2, i.underline, "underline"@, "true"@);
    lemma_step_underline(f2, None);
    let f3 = FormattingStateV { underline: i.underline, ..f2 };
    assert(charpr_fold(d, a3) == (f3, None::<nat>));
    lemma_fold_opt(d, a3, i.strikethrough, "strikeout"@, "true"@);
    lemma_step_strikeout(f3, None);
    let f4 = FormattingStateV { strike: i.strikethrough, ..f3 };
    assert(charpr_fold(d, a4) == (f4, None::<nat>));
    lemma_fold_opt(d, a4, i.superscript || i.subscript, "supscript"@, sv);
    lemma_step_script(f4, None, i.superscript);
    let f5 = FormattingStateV { superscript: i.superscript, subscript: i.subscript, ..f4 };
    assert(charpr_fold(d, a5) == (f5, None::<nat>));
    lemma_fold_opt(d, a5, i.color is Some, "color"@, cv);
    match i.color {
        Some(c) => lemma_step_color(f5, None, c),
        None => {},
    }
    let f6 = FormattingStateV { font_name: None, ..fmt_of(i) };
    assert(charpr_fold(d, a6) == (f6, None::<nat>));
    lemma_fold_opt(d, a6, i.font_name is Some, "faceNameIDRef"@, fv);
    match i.font_name {
        Some(f) => {
            let idx = crate::writer::find_index(fonts, f).unwrap();
            lemma_step_face(f6, None, idx);
            assert(charpr_fold(d, a7) == (f6, Some(idx)));
        },
        None => {
            assert(charpr_fold(d, a7) == (f6, None::<nat>));
        },
    }
}

proof fn lemma_step_face(f: FormattingStateV, face: Option<nat>, idx: nat)
    requires
        idx <= usize::MAX,
    ensures
        charpr_step((f, face), ("faceNameIDRef"@, crate::text::dec_chars(idx))) == (f, Some(idx)),
{
    reveal_strlit("faceNameIDRef");
    reveal_strlit("bold");
    reveal_strlit("hp:bold");
    reveal_strlit("italic");
    reveal_strlit("hp:italic");
    reveal_strlit("underline");
    reveal_strlit("hp:underline");
    reveal_strlit("strikeout");
    reveal_strlit("hp:strikeout");
    reveal_strlit("supscript");
    reveal_strlit("hp:supscript");
    reveal_strlit("color");
    reveal_strlit("hp:color");
    let k = "faceNameIDRef"@;
    assert(k.len() == 13);
    assert(!crate::handlers::is2(k, "bold"@, "hp:bold"@));
    assert(!crate::handlers::is2(k, "italic"@, "hp:italic"@));
    assert(!crate::handlers::is2(k, "underline"@, "hp:underline"@));
    assert(!crate::handlers::is2(k, "strikeout"@, "hp:strikeout"@));
    assert(!crate::handlers::is2(k, "supscript"@, "hp:supscript"@));
    assert(!crate::handlers::is2(k, "color"@, "hp:color"@));
    crate::text::law_decimal_reads_back(idx, usize::MAX as nat);
}

// ---------------------------------------------------------------------------
// One run
// ---------------------------------------------------------------------------

proof fn lemma_read_three(st: (CtxV, Seq<StagedBlockV>), a: XmlOutV, b: XmlOutV, c: XmlOutV)
    ensures
        read_events(st, seq![a, b, c]) == step(step(step(st, token_of_out(a)), token_of_out(b)), token_of_out(c)),
{
    assert(seq![a, b, c].drop_last() =~= seq![a, b]);
    assert(seq![a, b].drop_last() =~= seq![a]);
    assert(seq![a].drop_last() =~= Seq::<XmlOutV>::empty());
    reveal(read_events);
    reveal_with_fuel(read_events, 4);
    lemma_local_names();
}







// ---------------------------------------------------------------------------
// Which handler each element name reaches
// ---------------------------------------------------------------------------

#[verifier::rlimit(40)]
proof fn lemma_run_open(c: CtxV, a: Seq<(Seq<char>, Seq<char>)>)
    ensures
        crate::handlers::start_spec(c, "run"@, a) == (CtxV { in_run: true, fmt: default_fmt(), ..c }),
{
    reveal_strlit("hp:p");
    reveal_strlit("p");
    reveal_strlit("run");
    assert("hp:p"@.len() == 4);
    assert("p"@.len() == 1);
    assert("run"@.len() == 3);
}

#[verifier::rlimit(40)]
proof fn lemma_charpr_elem(c: CtxV, a: Seq<(Seq<char>, Seq<char>)>)
    ensures
        crate::handlers::empty_spec(c, "charPr"@, a) == (crate::handlers::charpr_spec(c, a), Seq::<StagedBlockV>::empty()),
{
    reveal_strlit("cellAddr");
    reveal_strlit("charPr");
    reveal_strlit("hp:cellAddr");
    reveal_strlit("hp:img");
    reveal_strlit("hp:lineBreak");
    reveal_strlit("hp:picture");
    reveal_strlit("img");
    reveal_strlit("lineBreak");
    reveal_strlit("picture");
    assert("cellAddr"@.len() == 8);
    assert("charPr"@.len() == 6);
    assert("hp:cellAddr"@.len() == 11);
    assert("hp:img"@.len() == 6);
    assert("hp:lineBreak"@.len() == 12);
    assert("hp:picture"@.len() == 10);
    assert("img"@.len() == 3);
    assert("lineBreak"@.len() == 9);
    assert("picture"@.len() == 7);
    assert("charPr"@[0] != "hp:img"@[0]);
}

#[verifier::rlimit(40)]
proof fn lemma_t_open(c: CtxV)
    ensures
        crate::handlers::start_spec(c, "t"@, Seq::empty()) == (CtxV { in_text: true, ..c }),
{
    reveal_strlit("charPr");
    reveal_strlit("hp:charPr");
    reveal_strlit("hp:p");
    reveal_strlit("hp:run");
    reveal_strlit("p");
    reveal_strlit("run");
    reveal_strlit("t");
    assert("charPr"@.len() == 6);
    assert("hp:charPr"@.len() == 9);
    assert("hp:p"@.len() == 4);
    assert("hp:run"@.len() == 6);
    assert("p"@.len() == 1);
    assert("run"@.len() == 3);
    assert("t"@.len() == 1);
    assert("t"@[0] != "p"@[0]);
}

#[verifier::rlimit(40)]
proof fn lemma_t_close(c: CtxV)
    ensures
        crate::handlers::end_spec(c, "t"@) == (crate::handlers::t_end(c), Seq::<StagedBlockV>::empty()),
{
    reveal_strlit("hp:p");
    reveal_strlit("hp:run");
    reveal_strlit("p");
    reveal_strlit("run");
    reveal_strlit("t");
    assert("hp:p"@.len() == 4);
    assert("hp:run"@.len() == 6);
    assert("p"@.len() == 1);
    assert("run"@.len() == 3);
    assert("t"@.len() == 1);
    assert("t"@[0] != "p"@[0]);
}

#[verifier::rlimit(40)]
proof fn lemma_run_close(c: CtxV)
    ensures
        crate::handlers::end_spec(c, "run"@) == ((CtxV { in_run: false, ..c }), Seq::<StagedBlockV>::empty()),
{
    reveal_strlit("hp:p");
    reveal_strlit("p");
    reveal_strlit("run");
    assert("hp:p"@.len() == 4);
    assert("p"@.len() == 1);
    assert("run"@.len() == 3);
}

#[verifier::rlimit(40)]
proof fn lemma_frame_sec_open(c: CtxV, a: Seq<(Seq<char>, Seq<char>)>)
    ensures
        crate::handlers::start_spec(c, "sec"@, a) == c,
{
    reveal_strlit("baseText");
    reveal_strlit("charPr");
    reveal_strlit("en");
    reveal_strlit("endnote");
    reveal_strlit("eqEdit");
    reveal_strlit("equation");
    reveal_strlit("fieldBegin");
    reveal_strlit("fn");
    reveal_strlit("footer");
    reveal_strlit("footnote");
    reveal_strlit("header");
    reveal_strlit("headerFooter");
    reveal_strlit("hp:baseText");
    reveal_strlit("hp:charPr");
    reveal_strlit("hp:en");
    reveal_strlit("hp:endnote");
    reveal_strlit("hp:eqEdit");
    reveal_strlit("hp:equation");
    reveal_strlit("hp:fieldBegin");
    reveal_strlit("hp:fn");
    reveal_strlit("hp:footer");
    reveal_strlit("hp:footnote");
    reveal_strlit("hp:header");
    reveal_strlit("hp:headerFooter");
    reveal_strlit("hp:li");
    reveal_strlit("hp:margin");
    reveal_strlit("hp:p");
    reveal_strlit("hp:pagePr");
    reveal_strlit("hp:pageSize");
    reveal_strlit("hp:ruby");
    reveal_strlit("hp:rubyText");
    reveal_strlit("hp:run");
    reveal_strlit("hp:secPr");
    reveal_strlit("hp:t");
    reveal_strlit("hp:tbl");
    reveal_strlit("hp:tc");
    reveal_strlit("hp:tr");
    reveal_strlit("li");
    reveal_strlit("margin");
    reveal_strlit("ol");
    reveal_strlit("p");
    reveal_strlit("pagePr");
    reveal_strlit("pageSize");
    reveal_strlit("ruby");
    reveal_strlit("rubyText");
    reveal_strlit("run");
    reveal_strlit("sec");
    reveal_strlit("secPr");
    reveal_strlit("t");
    reveal_strlit("tbl");
    reveal_strlit("tc");
    reveal_strlit("tr");
    reveal_strlit("ul");
    assert("baseText"@.len() == 8);
    assert("charPr"@.len() == 6);
    assert("en"@.len() == 2);
    assert("endnote"@.len() == 7);
    assert("eqEdit"@.len() == 6);
    assert("equation"@.len() == 8);
    assert("fieldBegin"@.len() == 10);
    assert("fn"@.len() == 2);
    assert("footer"@.len() == 6);
    assert("footnote"@.len() == 8);
    assert("header"@.len() == 6);
    assert("headerFooter"@.len() == 12);
    assert("hp:baseText"@.len() == 11);
    assert("hp:charPr"@.len() == 9);
    assert("hp:en"@.len() == 5);
    assert("hp:endnote"@.len() == 10);
    assert("hp:eqEdit"@.len() == 9);
    assert("hp:equation"@.len() == 11);
    assert("hp:fieldBegin"@.len() == 13);
    assert("hp:fn"@.len() == 5);
    assert("hp:footer"@.len() == 9);
    assert("hp:footnote"@.len() == 11);
    assert("hp:header"@.len() == 9);
    assert("hp:headerFooter"@.len() == 15);
    assert("hp:li"@.len() == 5);
    assert("hp:margin"@.len() == 9);
    assert("hp:p"@.len() == 4);
    assert("hp:pagePr"@.len() == 9);
    assert("hp:pageSize"@.len() == 11);
    assert("hp:ruby"@.len() == 7);
    assert("hp:rubyText"@.len() == 11);
    assert("hp:run"@.len() == 6);
    assert("hp:secPr"@.len() == 8);
    assert("hp:t"@.len() == 4);
    assert("hp:tbl"@.len() == 6);
    assert("hp:tc"@.len() == 5);
    assert("hp:tr"@.len() == 5);
    assert("li"@.len() == 2);
    assert("margin"@.len() == 6);
    assert("ol"@.len() == 2);
    assert("p"@.len() == 1);
    assert("pagePr"@.len() == 6);
    assert("pageSize"@.len() == 8);
    assert("ruby"@.len() == 4);
    assert("rubyText"@.len() == 8);
    assert("run"@.len() == 3);
    assert("sec"@.len() == 3);
    assert("secPr"@.len() == 5);
    assert("t"@.len() == 1);
    assert("tbl"@.len() == 3);
    assert("tc"@.len() == 2);
    assert("tr"@.len() == 2);
    assert("ul"@.len() == 2);
    assert("sec"@[0] != "run"@[0]);
    assert("sec"@[0] != "tbl"@[0]);
}

#[verifier::rlimit(40)]
proof fn lemma_frame_secpr_open(c: CtxV, a: Seq<(Seq<char>, Seq<char>)>)
    ensures
        crate::handlers::start_spec(c, "secPr"@, a)
            == (CtxV { page_layout: crate::context::PageLayoutState { has_sec_pr: true, ..c.page_layout }, ..c }),
{
    reveal_strlit("baseText");
    reveal_strlit("charPr");
    reveal_strlit("en");
    reveal_strlit("endnote");
    reveal_strlit("eqEdit");
    reveal_strlit("equation");
    reveal_strlit("fieldBegin");
    reveal_strlit("fn");
    reveal_strlit("footer");
    reveal_strlit("footnote");
    reveal_strlit("header");
    reveal_strlit("headerFooter");
    reveal_strlit("hp:baseText");
    reveal_strlit("hp:charPr");
    reveal_strlit("hp:en");
    reveal_strlit("hp:endnote");
    reveal_strlit("hp:eqEdit");
    reveal_strlit("hp:equation");
    reveal_strlit("hp:fieldBegin");
    reveal_strlit("hp:fn");
    reveal_strlit("hp:footer");
    reveal_strlit("hp:footnote");
    reveal_strlit("hp:header");
    reveal_strlit("hp:headerFooter");
    reveal_strlit("hp:li");
    reveal_strlit("hp:p");
    reveal_strlit("hp:ruby");
    reveal_strlit("hp:rubyText");
    reveal_strlit("hp:run");
    reveal_strlit("hp:t");
    reveal_strlit("hp:tbl");
    reveal_strlit("hp:tc");
    reveal_strlit("hp:tr");
    reveal_strlit("li");
    reveal_strlit("ol");
    reveal_strlit("p");
    reveal_strlit("ruby");
    reveal_strlit("rubyText");
    reveal_strlit("run");
    reveal_strlit("secPr");
    reveal_strlit("t");
    reveal_strlit("tbl");
    reveal_strlit("tc");
    reveal_strlit("tr");
    reveal_strlit("ul");
    assert("baseText"@.len() == 8);
    assert("charPr"@.len() == 6);
    assert("en"@.len() == 2);
    assert("endnote"@.len() == 7);
    assert("eqEdit"@.len() == 6);
    assert("equation"@.len() == 8);
    assert("fieldBegin"@.len() == 10);
    assert("fn"@.len() == 2);
    assert("footer"@.len() == 6);
    assert("footnote"@.len() == 8);
    assert("header"@.len() == 6);
    assert("headerFooter"@.len() == 12);
    assert("hp:baseText"@.len() == 11);
    assert("hp:charPr"@.len() == 9);
    assert("hp:en"@.len() == 5);
    assert("hp:endnote"@.len() == 10);
    assert("hp:eqEdit"@.len() == 9);
    assert("hp:equation"@.len() == 11);
    assert("hp:fieldBegin"@.len() == 13);
    assert("hp:fn"@.len() == 5);
    assert("hp:footer"@.len() == 9);
    assert("hp:footnote"@.len() == 11);
    assert("hp:header"@.len() == 9);
    assert("hp:headerFooter"@.len() == 15);
    assert("hp:li"@.len() == 5);
    assert("hp:p"@.len() == 4);
    assert("hp:ruby"@.len() == 7);
    assert("hp:rubyText"@.len() == 11);
    assert("hp:run"@.len() == 6);
    assert("hp:t"@.len() == 4);
    assert("hp:tbl"@.len() == 6);
    assert("hp:tc"@.len() == 5);
    assert("hp:tr"@.len() == 5);
    assert("li"@.len() == 2);
    assert("ol"@.len() == 2);
    assert("p"@.len() == 1);
    assert("ruby"@.len() == 4);
    assert("rubyText"@.len() == 8);
    assert("run"@.len() == 3);
    assert("secPr"@.len() == 5);
    assert("t"@.len() == 1);
    assert("tbl"@.len() == 3);
    assert("tc"@.len() == 2);
    assert("tr"@.len() == 2);
    assert("ul"@.len() == 2);
    assert("secPr"@[0] != "hp:tr"@[0]);
    assert("secPr"@[0] != "hp:tc"@[0]);
    assert("secPr"@[0] != "hp:li"@[0]);
    assert("secPr"@[0] != "hp:fn"@[0]);
    assert("secPr"@[0] != "hp:en"@[0]);
}

#[verifier::rlimit(40)]
proof fn lemma_frame_pagepr_open(c: CtxV, a: Seq<(Seq<char>, Seq<char>)>)
    ensures
        crate::handlers::start_spec(c, "pagePr"@, a)
            == (CtxV { page_layout: crate::context::page_pr_of(c.page_layout, a), ..c }),
{
    reveal_strlit("baseText");
    reveal_strlit("charPr");
    reveal_strlit("en");
    reveal_strlit("endnote");
    reveal_strlit("eqEdit");
    reveal_strlit("equation");
    reveal_strlit("fieldBegin");
    reveal_strlit("fn");
    reveal_strlit("footer");
    reveal_strlit("footnote");
    reveal_strlit("header");
    reveal_strlit("headerFooter");
    reveal_strlit("hp:baseText");
    reveal_strlit("hp:charPr");
    reveal_strlit("hp:en");
    reveal_strlit("hp:endnote");
    reveal_strlit("hp:eqEdit");
    reveal_strlit("hp:equation");
    reveal_strlit("hp:fieldBegin");
    reveal_strlit("hp:fn");
    reveal_strlit("hp:footer");
    reveal_strlit("hp:footnote");
    reveal_strlit("hp:header");
    reveal_strlit("hp:headerFooter");
    reveal_strlit("hp:li");
    reveal_strlit("hp:p");
    reveal_strlit("hp:ruby");
    reveal_strlit("hp:rubyText");
    reveal_strlit("hp:run");
    reveal_strlit("hp:secPr");
    reveal_strlit("hp:t");
    reveal_strlit("hp:tbl");
    reveal_strlit("hp:tc");
    reveal_strlit("hp:tr");
    reveal_strlit("li");
    reveal_strlit("ol");
    reveal_strlit("p");
    reveal_strlit("pagePr");
    reveal_strlit("ruby");
    reveal_strlit("rubyText");
    reveal_strlit("run");
    reveal_strlit("secPr");
    reveal_strlit("t");
    reveal_strlit("tbl");
    reveal_strlit("tc");
    reveal_strlit("tr");
    reveal_strlit("ul");
    assert("baseText"@.len() == 8);
    assert("charPr"@.len() == 6);
    assert("en"@.len() == 2);
    assert("endnote"@.len() == 7);
    assert("eqEdit"@.len() == 6);
    assert("equation"@.len() == 8);
    assert("fieldBegin"@.len() == 10);
    assert("fn"@.len() == 2);
    assert("footer"@.len() == 6);
    assert("footnote"@.len() == 8);
    assert("header"@.len() == 6);
    assert("headerFooter"@.len() == 12);
    assert("hp:baseText"@.len() == 11);
    assert("hp:charPr"@.len() == 9);
    assert("hp:en"@.len() == 5);
    assert("hp:endnote"@.len() == 10);
    assert("hp:eqEdit"@.len() == 9);
    assert("hp:equation"@.len() == 11);
    assert("hp:fieldBegin"@.len() == 13);
    assert("hp:fn"@.len() == 5);
    assert("hp:footer"@.len() == 9);
    assert("hp:footnote"@.len() == 11);
    assert("hp:header"@.len() == 9);
    assert("hp:headerFooter"@.len() == 15);
    assert("hp:li"@.len() == 5);
    assert("hp:p"@.len() == 4);
    assert("hp:ruby"@.len() == 7);
    assert("hp:rubyText"@.len() == 11);
    assert("hp:run"@.len() == 6);
    assert("hp:secPr"@.len() == 8);
    assert("hp:t"@.len() == 4);
    assert("hp:tbl"@.len() == 6);
    assert("hp:tc"@.len() == 5);
    assert("hp:tr"@.len() == 5);
    assert("li"@.len() == 2);
    assert("ol"@.len() == 2);
    assert("p"@.len() == 1);
    assert("pagePr"@.len() == 6);
    assert("ruby"@.len() == 4);
    assert("rubyText"@.len() == 8);
    assert("run"@.len() == 3);
    assert("secPr"@.len() == 5);
    assert("t"@.len() == 1);
    assert("tbl"@.len() == 3);
    assert("tc"@.len() == 2);
    assert("tr"@.len() == 2);
    assert("ul"@.len() == 2);
    assert("pagePr"@[0] != "hp:run"@[0]);
    assert("pagePr"@[0] != "charPr"@[0]);
    assert("pagePr"@[0] != "hp:tbl"@[0]);
    assert("pagePr"@[0] != "eqEdit"@[0]);
    assert("pagePr"@[0] != "header"@[0]);
    assert("pagePr"@[0] != "footer"@[0]);
}

#[verifier::rlimit(40)]
proof fn lemma_frame_margin(c: CtxV, a: Seq<(Seq<char>, Seq<char>)>)
    ensures
        crate::handlers::empty_spec(c, "margin"@, a) == (crate::handlers::margin_spec(c, a), Seq::<StagedBlockV>::empty()),
{
    reveal_strlit("cellAddr");
    reveal_strlit("charPr");
    reveal_strlit("ctrl");
    reveal_strlit("fieldBegin");
    reveal_strlit("fieldEnd");
    reveal_strlit("hp:cellAddr");
    reveal_strlit("hp:charPr");
    reveal_strlit("hp:ctrl");
    reveal_strlit("hp:fieldBegin");
    reveal_strlit("hp:fieldEnd");
    reveal_strlit("hp:img");
    reveal_strlit("hp:lineBreak");
    reveal_strlit("hp:noteRef");
    reveal_strlit("hp:pageSize");
    reveal_strlit("hp:picture");
    reveal_strlit("img");
    reveal_strlit("lineBreak");
    reveal_strlit("margin");
    reveal_strlit("noteRef");
    reveal_strlit("pageSize");
    reveal_strlit("picture");
    assert("cellAddr"@.len() == 8);
    assert("charPr"@.len() == 6);
    assert("ctrl"@.len() == 4);
    assert("fieldBegin"@.len() == 10);
    assert("fieldEnd"@.len() == 8);
    assert("hp:cellAddr"@.len() == 11);
    assert("hp:charPr"@.len() == 9);
    assert("hp:ctrl"@.len() == 7);
    assert("hp:fieldBegin"@.len() == 13);
    assert("hp:fieldEnd"@.len() == 11);
    assert("hp:img"@.len() == 6);
    assert("hp:lineBreak"@.len() == 12);
    assert("hp:noteRef"@.len() == 10);
    assert("hp:pageSize"@.len() == 11);
    assert("hp:picture"@.len() == 10);
    assert("img"@.len() == 3);
    assert("lineBreak"@.len() == 9);
    assert("margin"@.len() == 6);
    assert("noteRef"@.len() == 7);
    assert("pageSize"@.len() == 8);
    assert("picture"@.len() == 7);
    assert("margin"@[0] != "hp:img"@[0]);
    assert("margin"@[0] != "charPr"@[0]);
}

#[verifier::rlimit(40)]
proof fn lemma_frame_pagesize(c: CtxV, a: Seq<(Seq<char>, Seq<char>)>)
    ensures
        crate::handlers::empty_spec(c, "pageSize"@, a)
            == (crate::handlers::page_size_spec(c, a), Seq::<StagedBlockV>::empty()),
{
    reveal_strlit("cellAddr");
    reveal_strlit("charPr");
    reveal_strlit("ctrl");
    reveal_strlit("fieldBegin");
    reveal_strlit("fieldEnd");
    reveal_strlit("hp:cellAddr");
    reveal_strlit("hp:charPr");
    reveal_strlit("hp:ctrl");
    reveal_strlit("hp:fieldBegin");
    reveal_strlit("hp:fieldEnd");
    reveal_strlit("hp:img");
    reveal_strlit("hp:lineBreak");
    reveal_strlit("hp:noteRef");
    reveal_strlit("hp:picture");
    reveal_strlit("img");
    reveal_strlit("lineBreak");
    reveal_strlit("noteRef");
    reveal_strlit("pageSize");
    reveal_strlit("picture");
    assert("cellAddr"@.len() == 8);
    assert("charPr"@.len() == 6);
    assert("ctrl"@.len() == 4);
    assert("fieldBegin"@.len() == 10);
    assert("fieldEnd"@.len() == 8);
    assert("hp:cellAddr"@.len() == 11);
    assert("hp:charPr"@.len() == 9);
    assert("hp:ctrl"@.len() == 7);
    assert("hp:fieldBegin"@.len() == 13);
    assert("hp:fieldEnd"@.len() == 11);
    assert("hp:img"@.len() == 6);
    assert("hp:lineBreak"@.len() == 12);
    assert("hp:noteRef"@.len() == 10);
    assert("hp:picture"@.len() == 10);
    assert("img"@.len() == 3);
    assert("lineBreak"@.len() == 9);
    assert("noteRef"@.len() == 7);
    assert("pageSize"@.len() == 8);
    assert("picture"@.len() == 7);
    assert("pageSize"@[0] != "cellAddr"@[0]);
    assert("pageSize"@[0] != "fieldEnd"@[0]);
}

#[verifier::rlimit(40)]
proof fn lemma_frame_pagepr_close(c: CtxV)
    ensures
        crate::handlers::end_spec(c, "pagePr"@) == (c, Seq::<StagedBlockV>::empty()),
{
    reveal_strlit("baseText");
    reveal_strlit("en");
    reveal_strlit("endnote");
    reveal_strlit("eqEdit");
    reveal_strlit("equation");
    reveal_strlit("fieldEnd");
    reveal_strlit("fn");
    reveal_strlit("footer");
    reveal_strlit("footnote");
    reveal_strlit("header");
    reveal_strlit("headerFooter");
    reveal_strlit("hp:baseText");
    reveal_strlit("hp:en");
    reveal_strlit("hp:endnote");
    reveal_strlit("hp:eqEdit");
    reveal_strlit("hp:equation");
    reveal_strlit("hp:fieldEnd");
    reveal_strlit("hp:fn");
    reveal_strlit("hp:footer");
    reveal_strlit("hp:footnote");
    reveal_strlit("hp:header");
    reveal_strlit("hp:headerFooter");
    reveal_strlit("hp:li");
    reveal_strlit("hp:p");
    reveal_strlit("hp:ruby");
    reveal_strlit("hp:rubyText");
    reveal_strlit("hp:run");
    reveal_strlit("hp:t");
    reveal_strlit("hp:tbl");
    reveal_strlit("hp:tc");
    reveal_strlit("hp:tr");
    reveal_strlit("li");
    reveal_strlit("ol");
    reveal_strlit("p");
    reveal_strlit("pagePr");
    reveal_strlit("ruby");
    reveal_strlit("rubyText");
    reveal_strlit("run");
    reveal_strlit("t");
    reveal_strlit("tbl");
    reveal_strlit("tc");
    reveal_strlit("tr");
    reveal_strlit("ul");
    assert("baseText"@.len() == 8);
    assert("en"@.len() == 2);
    assert("endnote"@.len() == 7);
    assert("eqEdit"@.len() == 6);
    assert("equation"@.len() == 8);
    assert("fieldEnd"@.len() == 8);
    assert("fn"@.len() == 2);
    assert("footer"@.len() == 6);
    assert("footnote"@.len() == 8);
    assert("header"@.len() == 6);
    assert("headerFooter"@.len() == 12);
    assert("hp:baseText"@.len() == 11);
    assert("hp:en"@.len() == 5);
    assert("hp:endnote"@.len() == 10);
    assert("hp:eqEdit"@.len() == 9);
    assert("hp:equation"@.len() == 11);
    assert("hp:fieldEnd"@.len() == 11);
    assert("hp:fn"@.len() == 5);
    assert("hp:footer"@.len() == 9);
    assert("hp:footnote"@.len() == 11);
    assert("hp:header"@.len() == 9);
    assert("hp:headerFooter"@.len() == 15);
    assert("hp:li"@.len() == 5);
    assert("hp:p"@.len() == 4);
    assert("hp:ruby"@.len() == 7);
    assert("hp:rubyText"@.len() == 11);
    assert("hp:run"@.len() == 6);
    assert("hp:t"@.len() == 4);
    assert("hp:tbl"@.len() == 6);
    assert("hp:tc"@.len() == 5);
    assert("hp:tr"@.len() == 5);
    assert("li"@.len() == 2);
    assert("ol"@.len() == 2);
    assert("p"@.len() == 1);
    assert("pagePr"@.len() == 6);
    assert("ruby"@.len() == 4);
    assert("rubyText"@.len() == 8);
    assert("run"@.len() == 3);
    assert("t"@.len() == 1);
    assert("tbl"@.len() == 3);
    assert("tc"@.len() == 2);
    assert("tr"@.len() == 2);
    assert("ul"@.len() == 2);
    assert("pagePr"@[0] != "hp:run"@[0]);
    assert("pagePr"@[0] != "hp:tbl"@[0]);
    assert("pagePr"@[0] != "eqEdit"@[0]);
    assert("pagePr"@[0] != "header"@[0]);
    assert("pagePr"@[0] != "footer"@[0]);
}

#[verifier::rlimit(40)]
proof fn lemma_frame_secpr_close(c: CtxV)
    ensures
        crate::handlers::end_spec(c, "secPr"@) == (c, Seq::<StagedBlockV>::empty()),
{
    reveal_strlit("baseText");
    reveal_strlit("en");
    reveal_strlit("endnote");
    reveal_strlit("eqEdit");
    reveal_strlit("equation");
    reveal_strlit("fieldEnd");
    reveal_strlit("fn");
    reveal_strlit("footer");
    reveal_strlit("footnote");
    reveal_strlit("header");
    reveal_strlit("headerFooter");
    reveal_strlit("hp:baseText");
    reveal_strlit("hp:en");
    reveal_strlit("hp:endnote");
    reveal_strlit("hp:eqEdit");
    reveal_strlit("hp:equation");
    reveal_strlit("hp:fieldEnd");
    reveal_strlit("hp:fn");
    reveal_strlit("hp:footer");
    reveal_strlit("hp:footnote");
    reveal_strlit("hp:header");
    reveal_strlit("hp:headerFooter");
    reveal_strlit("hp:li");
    reveal_strlit("hp:p");
    reveal_strlit("hp:ruby");
    reveal_strlit("hp:rubyText");
    reveal_strlit("hp:run");
    reveal_strlit("hp:t");
    reveal_strlit("hp:tbl");
    reveal_strlit("hp:tc");
    reveal_strlit("hp:tr");
    reveal_strlit("li");
    reveal_strlit("ol");
    reveal_strlit("p");
    reveal_strlit("ruby");
    reveal_strlit("rubyText");
    reveal_strlit("run");
    reveal_strlit("secPr");
    reveal_strlit("t");
    reveal_strlit("tbl");
    reveal_strlit("tc");
    reveal_strlit("tr");
    reveal_strlit("ul");
    assert("baseText"@.len() == 8);
    assert("en"@.len() == 2);
    assert("endnote"@.len() == 7);
    assert("eqEdit"@.len() == 6);
    assert("equation"@.len() == 8);
    assert("fieldEnd"@.len() == 8);
    assert("fn"@.len() == 2);
    assert("footer"@.len() == 6);
    assert("footnote"@.len() == 8);
    assert("header"@.len() == 6);
    assert("headerFooter"@.len() == 12);
    assert("hp:baseText"@.len() == 11);
    assert("hp:en"@.len() == 5);
    assert("hp:endnote"@.len() == 10);
    assert("hp:eqEdit"@.len() == 9);
    assert("hp:equation"@.len() == 11);
    assert("hp:fieldEnd"@.len() == 11);
    assert("hp:fn"@.len() == 5);
    assert("hp:footer"@.len() == 9);
    assert("hp:footnote"@.len() == 11);
    assert("hp:header"@.len() == 9);
    assert("hp:headerFooter"@.len() == 15);
    assert("hp:li"@.len() == 5);
    assert("hp:p"@.len() == 4);
    assert("hp:ruby"@.len() == 7);
    assert("hp:rubyText"@.len() == 11);
    assert("hp:run"@.len() == 6);
    assert("hp:t"@.len() == 4);
    assert("hp:tbl"@.len() == 6);
    assert("hp:tc"@.len() == 5);
    assert("hp:tr"@.len() == 5);
    assert("li"@.len() == 2);
    assert("ol"@.len() == 2);
    assert("p"@.len() == 1);
    assert("ruby"@.len() == 4);
    assert("rubyText"@.len() == 8);
    assert("run"@.len() == 3);
    assert("secPr"@.len() == 5);
    assert("t"@.len() == 1);
    assert("tbl"@.len() == 3);
    assert("tc"@.len() == 2);
    assert("tr"@.len() == 2);
    assert("ul"@.len() == 2);
    assert("secPr"@[0] != "hp:tr"@[0]);
    assert("secPr"@[0] != "hp:tc"@[0]);
    assert("secPr"@[0] != "hp:li"@[0]);
    assert("secPr"@[0] != "hp:fn"@[0]);
    assert("secPr"@[0] != "hp:en"@[0]);
}

#[verifier::rlimit(40)]
proof fn lemma_frame_sec_close(c: CtxV)
    ensures
        crate::handlers::end_spec(c, "sec"@) == (c, Seq::<StagedBlockV>::empty()),
{
    reveal_strlit("baseText");
    reveal_strlit("en");
    reveal_strlit("endnote");
    reveal_strlit("eqEdit");
    reveal_strlit("equation");
    reveal_strlit("fieldEnd");
    reveal_strlit("fn");
    reveal_strlit("footer");
    reveal_strlit("footnote");
    reveal_strlit("header");
    reveal_strlit("headerFooter");
    reveal_strlit("hp:baseText");
    reveal_strlit("hp:en");
    reveal_strlit("hp:endnote");
    reveal_strlit("hp:eqEdit");
    reveal_strlit("hp:equation");
    reveal_strlit("hp:fieldEnd");
    reveal_strlit("hp:fn");
    reveal_strlit("hp:footer");
    reveal_strlit("hp:footnote");
    reveal_strlit("hp:header");
    reveal_strlit("hp:headerFooter");
    reveal_strlit("hp:li");
    reveal_strlit("hp:p");
    reveal_strlit("hp:ruby");
    reveal_strlit("hp:rubyText");
    reveal_strlit("hp:run");
    reveal_strlit("hp:t");
    reveal_strlit("hp:tbl");
    reveal_strlit("hp:tc");
    reveal_strlit("hp:tr");
    reveal_strlit("li");
    reveal_strlit("ol");
    reveal_strlit("p");
    reveal_strlit("ruby");
    reveal_strlit("rubyText");
    reveal_strlit("run");
    reveal_strlit("sec");
    reveal_strlit("t");
    reveal_strlit("tbl");
    reveal_strlit("tc");
    reveal_strlit("tr");
    reveal_strlit("ul");
    assert("baseText"@.len() == 8);
    assert("en"@.len() == 2);
    assert("endnote"@.len() == 7);
    assert("eqEdit"@.len() == 6);
    assert("equation"@.len() == 8);
    assert("fieldEnd"@.len() == 8);
    assert("fn"@.len() == 2);
    assert("footer"@.len() == 6);
    assert("footnote"@.len() == 8);
    assert("header"@.len() == 6);
    assert("headerFooter"@.len() == 12);
    assert("hp:baseText"@.len() == 11);
    assert("hp:en"@.len() == 5);
    assert("hp:endnote"@.len() == 10);
    assert("hp:eqEdit"@.len() == 9);
    assert("hp:equation"@.len() == 11);
    assert("hp:fieldEnd"@.len() == 11);
    assert("hp:fn"@.len() == 5);
    assert("hp:footer"@.len() == 9);
    assert("hp:footnote"@.len() == 11);
    assert("hp:header"@.len() == 9);
    assert("hp:headerFooter"@.len() == 15);
    assert("hp:li"@.len() == 5);
    assert("hp:p"@.len() == 4);
    assert("hp:ruby"@.len() == 7);
    assert("hp:rubyText"@.len() == 11);
    assert("hp:run"@.len() == 6);
    assert("hp:t"@.len() == 4);
    assert("hp:tbl"@.len() == 6);
    assert("hp:tc"@.len() == 5);
    assert("hp:tr"@.len() == 5);
    assert("li"@.len() == 2);
    assert("ol"@.len() == 2);
    assert("p"@.len() == 1);
    assert("ruby"@.len() == 4);
    assert("rubyText"@.len() == 8);
    assert("run"@.len() == 3);
    assert("sec"@.len() == 3);
    assert("t"@.len() == 1);
    assert("tbl"@.len() == 3);
    assert("tc"@.len() == 2);
    assert("tr"@.len() == 2);
    assert("ul"@.len() == 2);
    assert("sec"@[0] != "run"@[0]);
    assert("sec"@[0] != "tbl"@[0]);
}

/// The local part of a qualified name: what follows its first `:`, or
/// the whole name when it has none (as `quick_xml`'s `local_name` gives it).
pub open spec fn local_name(n: Seq<char>) -> Seq<char> {
    match after_colon(n) {
        Some(r) => r,
        None => n,
    }
}

pub open spec fn after_colon(n: Seq<char>) -> Option<Seq<char>>
    decreases n.len(),
{
    if n.len() == 0 {
        None
    } else if n[0] == ':' {
        Some(n.drop_first())
    } else {
        after_colon(n.drop_first())
    }
}

proof fn lemma_local(q: Seq<char>, r: Seq<char>)
    requires
        q.len() >= 3,
        q[0] != ':',
        q[1] != ':',
        q[2] == ':',
        r == q.subrange(3, q.len() as int),
    ensures
        local_name(q) == r,
{
    assert(q.drop_first().drop_first().drop_first() =~= r);
    reveal_with_fuel(after_colon, 4);
}

proof fn lemma_local_names()
    ensures
        local_name("hp:p"@) == "p"@,
        local_name("hp:run"@) == "run"@,
        local_name("hp:charPr"@) == "charPr"@,
        local_name("hp:t"@) == "t"@,
        local_name("hs:sec"@) == "sec"@,
        local_name("hp:secPr"@) == "secPr"@,
        local_name("hp:pagePr"@) == "pagePr"@,
        local_name("hp:margin"@) == "margin"@,
        local_name("hp:pageSize"@) == "pageSize"@,
{
    reveal_strlit("hp:p");
    reveal_strlit("p");
    assert("hp:p"@.subrange(3, 4) =~= "p"@);
    lemma_local("hp:p"@, "p"@);
    reveal_strlit("hp:run");
    reveal_strlit("run");
    assert("hp:run"@.subrange(3, 6) =~= "run"@);
    lemma_local("hp:run"@, "run"@);
    reveal_strlit("hp:charPr");
    reveal_strlit("charPr");
    assert("hp:charPr"@.subrange(3, 9) =~= "charPr"@);
    lemma_local("hp:charPr"@, "charPr"@);
    reveal_strlit("hp:t");
    reveal_strlit("t");
    assert("hp:t"@.subrange(3, 4) =~= "t"@);
    lemma_local("hp:t"@, "t"@);
    reveal_strlit("hs:sec");
    reveal_strlit("sec");
    assert("hs:sec"@.subrange(3, 6) =~= "sec"@);
    lemma_local("hs:sec"@, "sec"@);
    reveal_strlit("hp:secPr");
    reveal_strlit("secPr");
    assert("hp:secPr"@.subrange(3, 8) =~= "secPr"@);
    lemma_local("hp:secPr"@, "secPr"@);
    reveal_strlit("hp:pagePr");
    reveal_strlit("pagePr");
    assert("hp:pagePr"@.subrange(3, 9) =~= "pagePr"@);
    lemma_local("hp:pagePr"@, "pagePr"@);
    reveal_strlit("hp:margin");
    reveal_strlit("margin");
    assert("hp:margin"@.subrange(3, 9) =~= "margin"@);
    lemma_local("hp:margin"@, "margin"@);
    reveal_strlit("hp:pageSize");
    reveal_strlit("pageSize");
    assert("hp:pageSize"@.subrange(3, 11) =~= "pageSize"@);
    lemma_local("hp:pageSize"@, "pageSize"@);
}

/// The text of a run inside a written paragraph, and the inline it becomes
/// at `</hp:t>`.
proof fn lemma_t_text(c: CtxV, i: InlineV)
    requires
        in_written_para(c),
        c.in_run,
        c.in_text,
        c.fmt == fmt_of(i),
        inline_reads_back(i),
    ensures
        crate::handlers::t_end(crate::handlers::text_spec(c, i.text))
            == (CtxV { in_text: false, current_text: Seq::empty(), current_inlines: c.current_inlines.push(i), ..c }),
{
    let c4 = CtxV { current_text: i.text, ..c };
    assert(c.current_text + i.text =~= i.text);
    assert(crate::handlers::text_spec(c, i.text) == c4);
    assert(crate::handlers::t_inline(c4, i.text) == i);
}

proof fn lemma_ev_run_open(c: CtxV, s: Seq<StagedBlockV>, a: Seq<(Seq<char>, Seq<char>)>)
    ensures
        read_events((c, s), seq![crate::writer_section::st("hp:run"@, a)]) == ((CtxV { in_run: true, fmt: default_fmt(), ..c }), s),
{
    lemma_read_one((c, s), crate::writer_section::st("hp:run"@, a));
    lemma_local_names();
    lemma_run_open(c, a);
}

proof fn lemma_ev_charpr(c: CtxV, s: Seq<StagedBlockV>, i: InlineV, fonts: Seq<Seq<char>>)
    requires
        c.fmt == default_fmt(),
        c.face_names == fonts,
        fonts.len() <= usize::MAX,
        inline_reads_back(i),
        font_in_table(i, fonts),
    ensures
        read_events((c, s), charpr_evs(i, fonts)) == ((CtxV { fmt: fmt_of(i), ..c }), s),
{
    assert(s + Seq::<StagedBlockV>::empty() =~= s);
    if has_formatting(i) {
        let attrs = charpr_attrs(i, fonts);
        lemma_read_one((c, s), crate::writer_section::em("hp:charPr"@, attrs));
        lemma_local_names();
        lemma_charpr_elem(c, attrs);
        lemma_charpr_of(i, fonts);
    } else {
        reveal(read_events);
        assert(fmt_of(i) == default_fmt());
    }
}

proof fn lemma_ev_t(c: CtxV, s: Seq<StagedBlockV>, i: InlineV)
    requires
        in_written_para(c),
        c.in_run,
        c.fmt == fmt_of(i),
        inline_reads_back(i),
    ensures
        read_events((c, s), t_evs(i.text))
            == ((CtxV { in_text: false, current_text: Seq::empty(), current_inlines: c.current_inlines.push(i), ..c }), s),
{
    assert(s + Seq::<StagedBlockV>::empty() =~= s);
    lemma_read_three((c, s), st0("hp:t"@), tx(i.text), en("hp:t"@));
    lemma_local_names();
    lemma_t_open(c);
    let c3 = CtxV { in_text: true, ..c };
    lemma_t_close(crate::handlers::text_spec(c3, i.text));
    lemma_t_text(c3, i);
}

proof fn lemma_ev_run_close(c: CtxV, s: Seq<StagedBlockV>)
    ensures
        read_events((c, s), seq![en("hp:run"@)]) == ((CtxV { in_run: false, ..c }), s),
{
    assert(s + Seq::<StagedBlockV>::empty() =~= s);
    lemma_read_one((c, s), en("hp:run"@));
    lemma_local_names();
    lemma_run_close(c);
}

/// The run written for `i`, read inside a written paragraph, adds `i` to
/// the paragraph's inlines and stages nothing.
proof fn lemma_run_reads_back(c: CtxV, s: Seq<StagedBlockV>, i: InlineV, t: &RefTables)
    requires
        in_written_para(c),
        c.face_names == t.fonts(),
        t.fonts().len() <= usize::MAX,
        inline_reads_back(i),
        font_in_table(i, t.fonts()),
    ensures
        same_frame(read_events((c, s), run_evs(i, t)).0, c),
        read_events((c, s), run_evs(i, t)).1 == s,
        in_written_para(read_events((c, s), run_evs(i, t)).0),
        same_para_props(read_events((c, s), run_evs(i, t)).0, c),
        read_events((c, s), run_evs(i, t)).0.current_inlines == c.current_inlines.push(i),
{
    let id = crate::writer::key_id(t.keys(), crate::writer::key_of_inline(i, t.code_font@));
    let a = seq![("charPrIDRef"@, crate::text::dec_chars(id))];
    let e0 = seq![crate::writer_section::st("hp:run"@, a)];
    let ec = charpr_evs(i, t.fonts());
    let et = t_evs(i.text);
    let ee = seq![en("hp:run"@)];
    assert(run_evs(i, t) == e0 + ec + et + ee);
    lemma_read_append((c, s), e0 + ec + et, ee);
    lemma_read_append((c, s), e0 + ec, et);
    lemma_read_append((c, s), e0, ec);
    lemma_ev_run_open(c, s, a);
    let c1 = CtxV { in_run: true, fmt: default_fmt(), ..c };
    lemma_ev_charpr(c1, s, i, t.fonts());
    let c2 = CtxV { in_run: true, fmt: fmt_of(i), ..c };
    lemma_ev_t(c2, s, i);
    let c5 = CtxV { in_text: false, current_text: Seq::empty(), current_inlines: c.current_inlines.push(i), ..c2 };
    lemma_ev_run_close(c5, s);
}

// ---------------------------------------------------------------------------
// A paragraph
// ---------------------------------------------------------------------------

proof fn lemma_runs_reads_back(c: CtxV, s: Seq<StagedBlockV>, inls: Seq<InlineV>, t: &RefTables)
    requires
        in_written_para(c),
        c.face_names == t.fonts(),
        t.fonts().len() <= usize::MAX,
        forall|k: int| 0 <= k < inls.len() ==> inline_reads_back(#[trigger] inls[k]) && font_in_table(inls[k], t.fonts()),
    ensures
        same_frame(read_events((c, s), inlines_evs(inls, t)).0, c),
        read_events((c, s), inlines_evs(inls, t)).1 == s,
        in_written_para(read_events((c, s), inlines_evs(inls, t)).0),
        same_para_props(read_events((c, s), inlines_evs(inls, t)).0, c),
        read_events((c, s), inlines_evs(inls, t)).0.current_inlines == c.current_inlines + inls,
    decreases inls.len(),
{
    if inls.len() == 0 {
        reveal(read_events);
        assert(c.current_inlines + inls =~= c.current_inlines);
    } else {
        let rest = inls.drop_first();
        assert(inline_reads_back(inls[0]));
        assert(inlines_evs(inls, t) == run_evs(inls[0], t) + inlines_evs(rest, t));
        lemma_read_append((c, s), run_evs(inls[0], t), inlines_evs(rest, t));
        lemma_run_reads_back(c, s, inls[0], t);
        let c1 = read_events((c, s), run_evs(inls[0], t)).0;
        assert forall|k: int| 0 <= k < rest.len() implies inline_reads_back(#[trigger] rest[k]) && font_in_table(rest[k], t.fonts()) by {
            assert(rest[k] == inls[k + 1]);
        }
        lemma_runs_reads_back(c1, s, rest, t);
        assert(c.current_inlines.push(inls[0]) + rest =~= c.current_inlines + inls);
    }
}

proof fn lemma_para_attrs(pid: nat)
    ensures
        p_heading(seq![("id"@, crate::text::dec_chars(pid)), ("paraPrIDRef"@, "0"@)]) is None,
        last_of(seq![("id"@, crate::text::dec_chars(pid)), ("paraPrIDRef"@, "0"@)], seq!["paraPrIDRef"@, "hp:paraPrIDRef"@], None)
            == Some("0"@),
        last_of(seq![("id"@, crate::text::dec_chars(pid)), ("paraPrIDRef"@, "0"@)], seq!["numPrIDRef"@, "hp:numPrIDRef"@], None)
            is None,
{
    reveal_strlit("id");
    reveal_strlit("paraPrIDRef");
    reveal_strlit("hp:paraPrIDRef");
    reveal_strlit("numPrIDRef");
    reveal_strlit("hp:numPrIDRef");
    reveal_strlit("styleIDRef");
    reveal_strlit("hp:styleIDRef");
    let a = seq![("id"@, crate::text::dec_chars(pid)), ("paraPrIDRef"@, "0"@)];
    assert(a.drop_last() =~= seq![("id"@, crate::text::dec_chars(pid))]);
    assert(a.drop_last().drop_last() =~= Seq::<(Seq<char>, Seq<char>)>::empty());
    assert("id"@.len() == 2 && "paraPrIDRef"@.len() == 11 && "hp:paraPrIDRef"@.len() == 14);
    assert("numPrIDRef"@.len() == 10 && "hp:numPrIDRef"@.len() == 13);
    assert("styleIDRef"@.len() == 10 && "hp:styleIDRef"@.len() == 13);
    assert(seq!["paraPrIDRef"@, "hp:paraPrIDRef"@][0] == "paraPrIDRef"@);
    assert(!seq!["numPrIDRef"@, "hp:numPrIDRef"@].contains("paraPrIDRef"@)) by {
        assert forall|j: int| 0 <= j < 2 implies seq!["numPrIDRef"@, "hp:numPrIDRef"@][j] != "paraPrIDRef"@ by {
            if j == 0 {
                assert(seq!["numPrIDRef"@, "hp:numPrIDRef"@][0] == "numPrIDRef"@);
            } else {
                assert(seq!["numPrIDRef"@, "hp:numPrIDRef"@][1] == "hp:numPrIDRef"@);
            }
        }
    }
    assert(!seq!["numPrIDRef"@, "hp:numPrIDRef"@].contains("id"@)) by {
        assert forall|j: int| 0 <= j < 2 implies seq!["numPrIDRef"@, "hp:numPrIDRef"@][j] != "id"@ by {
            if j == 0 {
                assert(seq!["numPrIDRef"@, "hp:numPrIDRef"@][0] == "numPrIDRef"@);
            } else {
                assert(seq!["numPrIDRef"@, "hp:numPrIDRef"@][1] == "hp:numPrIDRef"@);
            }
        }
    }
    reveal_with_fuel(last_of, 3);
    reveal_with_fuel(p_heading, 3);
}

proof fn lemma_ev_p_open(c: CtxV, s: Seq<StagedBlockV>, pid: nat)
    requires
        top_level_idle(c),
    ensures
        in_written_para(read_events((c, s), seq![crate::writer_section::p_open(pid, "0"@)]).0),
        read_events((c, s), seq![crate::writer_section::p_open(pid, "0"@)]).0.heading_level is None,
        read_events((c, s), seq![crate::writer_section::p_open(pid, "0"@)]).0.current_para_pr_id == Some("0"@),
        read_events((c, s), seq![crate::writer_section::p_open(pid, "0"@)]).0.current_num_pr_id is None,
        read_events((c, s), seq![crate::writer_section::p_open(pid, "0"@)]).0.current_inlines == Seq::<InlineV>::empty(),
        read_events((c, s), seq![crate::writer_section::p_open(pid, "0"@)]).1 == s,
        same_frame(read_events((c, s), seq![crate::writer_section::p_open(pid, "0"@)]).0, c),
{
    lemma_read_one((c, s), crate::writer_section::p_open(pid, "0"@));
    lemma_local_names();
    lemma_para_attrs(pid);
}

proof fn lemma_zero_is_no_list()
    ensures
        crate::flush::list_depth(Some("0"@)) is None,
{
    reveal_strlit("0");
    reveal_strlit("2");
    reveal_strlit("3");
    assert("0"@[0] != "2"@[0] && "0"@[0] != "3"@[0]);
    crate::text::law_decimal_reads_back(0, u32::MAX as nat);
    assert(crate::text::dec_chars(0) =~= "0"@);
}

proof fn lemma_ev_p_close(c: CtxV, s: Seq<StagedBlockV>)
    requires
        in_written_para(c),
        c.heading_level is None,
        c.current_para_pr_id == Some("0"@),
        c.current_num_pr_id is None,
        c.current_inlines.len() > 0,
    ensures
        read_events((c, s), seq![en("hp:p"@)]).1 == s.push(StagedBlockV::Plain(BlockV::Paragraph { inlines: c.current_inlines })),
        top_level_idle(read_events((c, s), seq![en("hp:p"@)]).0),
        same_frame(read_events((c, s), seq![en("hp:p"@)]).0, c),
        no_pending(read_events((c, s), seq![en("hp:p"@)]).0),
{
    lemma_read_one((c, s), en("hp:p"@));
    lemma_local_names();
    lemma_zero_is_no_list();
    assert(crate::flush::top_inlines(c) == c.current_inlines);
    assert(s + seq![StagedBlockV::Plain(BlockV::Paragraph { inlines: c.current_inlines })]
        =~= s.push(StagedBlockV::Plain(BlockV::Paragraph { inlines: c.current_inlines })));
}

/// A paragraph reads back as written: the events that the section writer
/// emits for a top-level paragraph whose inlines each carry some text, any
/// of bold, italic, underline and strikethrough, at most one of
/// superscript and subscript, an upper-case non-black colour or none, and
/// any font of the writer's font table (see `inline_reads_back` and
/// `font_in_table`), read by the section reader at the top level of a
/// section with that font table as its face names (as header.xml carries
/// it), stage a paragraph with exactly those inlines, and leave the reader
/// at the top level.
pub proof fn law_paragraph_reads_back(
    inlines: Seq<InlineV>,
    t: &RefTables,
    pid: nat,
    amap: Seq<(Seq<char>, Seq<char>)>,
    c: CtxV,
    s: Seq<StagedBlockV>,
)
    requires
        inlines.len() > 0,
        forall|k: int| 0 <= k < inlines.len() ==> inline_reads_back(#[trigger] inlines[k]) && font_in_table(inlines[k], t.fonts()),
        top_level_idle(c),
        c.face_names == t.fonts(),
        t.fonts().len() <= usize::MAX,
    ensures
        read_events((c, s), block_evs(BlockV::Paragraph { inlines: inlines }, t, pid, 0, amap)).1
            == s.push(StagedBlockV::Plain(BlockV::Paragraph { inlines: inlines })),
        top_level_idle(read_events((c, s), block_evs(BlockV::Paragraph { inlines: inlines }, t, pid, 0, amap)).0),
        same_frame(read_events((c, s), block_evs(BlockV::Paragraph { inlines: inlines }, t, pid, 0, amap)).0, c),
        no_pending(read_events((c, s), block_evs(BlockV::Paragraph { inlines: inlines }, t, pid, 0, amap)).0),
{
    let po = seq![crate::writer_section::p_open(pid, "0"@)];
    let body = inlines_evs(inlines, t);
    let pe = seq![en("hp:p"@)];
    assert(block_evs(BlockV::Paragraph { inlines: inlines }, t, pid, 0, amap) == po + body + pe);
    lemma_read_append((c, s), po + body, pe);
    lemma_read_append((c, s), po, body);
    lemma_ev_p_open(c, s, pid);
    let c1 = read_events((c, s), po).0;
    lemma_runs_reads_back(c1, s, inlines, t);
    let c2 = read_events((c1, s), body).0;
    assert(Seq::<InlineV>::empty() + inlines =~= inlines);
    lemma_ev_p_close(c2, s);
}

// ---------------------------------------------------------------------------
// A heading
// ---------------------------------------------------------------------------

/// The attributes of the `<hp:p>` the writer emits for a top-level heading.
spec fn heading_p_attrs(pid: nat, level: u8) -> Seq<(Seq<char>, Seq<char>)> {
    seq![
        ("id"@, crate::text::dec_chars(pid)),
        ("hp:styleIDRef"@, crate::text::dec_chars(crate::writer_section::clamp_style(level))),
        ("paraPrIDRef"@, crate::writer_section::PARA_PR_HEADING@),
    ]
}

proof fn lemma_heading_attrs(pid: nat, level: u8)
    requires
        1 <= level <= 6,
    ensures
        p_heading(heading_p_attrs(pid, level)) == Some(level),
        last_of(heading_p_attrs(pid, level), seq!["numPrIDRef"@, "hp:numPrIDRef"@], None) is None,
{
    reveal_strlit("id");
    reveal_strlit("paraPrIDRef");
    reveal_strlit("hp:styleIDRef");
    reveal_strlit("styleIDRef");
    reveal_strlit("numPrIDRef");
    reveal_strlit("hp:numPrIDRef");
    let a = heading_p_attrs(pid, level);
    assert(a.drop_last() =~= seq![a[0], a[1]]);
    assert(a.drop_last().drop_last() =~= seq![a[0]]);
    assert(a.drop_last().drop_last().drop_last() =~= Seq::<(Seq<char>, Seq<char>)>::empty());
    assert("id"@.len() == 2 && "paraPrIDRef"@.len() == 11 && "hp:styleIDRef"@.len() == 13);
    assert("numPrIDRef"@.len() == 10 && "hp:numPrIDRef"@.len() == 13 && "styleIDRef"@.len() == 10);
    assert("hp:styleIDRef"@[3] != "hp:numPrIDRef"@[3]);
    crate::text::law_decimal_reads_back(level as nat, 255);
    assert(crate::writer_section::clamp_style(level) == level as nat);
    assert(crate::handlers::style_ref_level(crate::text::dec_chars(level as nat)) == Some(level));
    let ks = seq!["numPrIDRef"@, "hp:numPrIDRef"@];
    assert forall|j: int| 0 <= j < 3 implies !ks.contains(#[trigger] a[j].0) by {
        assert forall|m: int| 0 <= m < 2 implies ks[m] != a[j].0 by {
            if m == 0 {
                assert(ks[0] == "numPrIDRef"@);
            } else {
                assert(ks[1] == "hp:numPrIDRef"@);
            }
        }
    }
    assert(!ks.contains(a[2].0));
    assert(!ks.contains(a[1].0));
    assert(!ks.contains(a[0].0));
    reveal_with_fuel(last_of, 4);
    reveal_with_fuel(p_heading, 4);
}

proof fn lemma_ev_heading_open(c: CtxV, s: Seq<StagedBlockV>, pid: nat, level: u8)
    requires
        top_level_idle(c),
        1 <= level <= 6,
    ensures
        in_written_para(read_events((c, s), seq![crate::writer_section::st("hp:p"@, heading_p_attrs(pid, level))]).0),
        read_events((c, s), seq![crate::writer_section::st("hp:p"@, heading_p_attrs(pid, level))]).0.heading_level == Some(level),
        read_events((c, s), seq![crate::writer_section::st("hp:p"@, heading_p_attrs(pid, level))]).0.current_inlines
            == Seq::<InlineV>::empty(),
        read_events((c, s), seq![crate::writer_section::st("hp:p"@, heading_p_attrs(pid, level))]).1 == s,
        same_frame(read_events((c, s), seq![crate::writer_section::st("hp:p"@, heading_p_attrs(pid, level))]).0, c),
{
    lemma_read_one((c, s), crate::writer_section::st("hp:p"@, heading_p_attrs(pid, level)));
    lemma_local_names();
    lemma_heading_attrs(pid, level);
}

proof fn lemma_ev_heading_close(c: CtxV, s: Seq<StagedBlockV>, level: u8)
    requires
        in_written_para(c),
        c.heading_level == Some(level),
        c.current_inlines.len() > 0,
    ensures
        read_events((c, s), seq![en("hp:p"@)]).1
            == s.push(StagedBlockV::Plain(BlockV::Heading { level: level, inlines: c.current_inlines })),
        top_level_idle(read_events((c, s), seq![en("hp:p"@)]).0),
        same_frame(read_events((c, s), seq![en("hp:p"@)]).0, c),
        no_pending(read_events((c, s), seq![en("hp:p"@)]).0),
{
    lemma_read_one((c, s), en("hp:p"@));
    lemma_local_names();
    assert(crate::flush::top_inlines(c) == c.current_inlines);
    assert(s + seq![StagedBlockV::Plain(BlockV::Heading { level: level, inlines: c.current_inlines })]
        =~= s.push(StagedBlockV::Plain(BlockV::Heading { level: level, inlines: c.current_inlines })));
}

/// A heading reads back as written: the events that the section writer
/// emits for a top-level heading of level 1 to 6 whose inlines are as in
/// `law_paragraph_reads_back`, read by the section reader at the top level
/// of a section, stage a heading of the same level with exactly those
/// inlines, and leave the reader at the top level.
pub proof fn law_heading_reads_back(
    level: u8,
    inlines: Seq<InlineV>,
    t: &RefTables,
    pid: nat,
    amap: Seq<(Seq<char>, Seq<char>)>,
    c: CtxV,
    s: Seq<StagedBlockV>,
)
    requires
        1 <= level <= 6,
        inlines.len() > 0,
        forall|k: int| 0 <= k < inlines.len() ==> inline_reads_back(#[trigger] inlines[k]) && font_in_table(inlines[k], t.fonts()),
        top_level_idle(c),
        c.face_names == t.fonts(),
        t.fonts().len() <= usize::MAX,
    ensures
        read_events((c, s), block_evs(BlockV::Heading { level: level, inlines: inlines }, t, pid, 0, amap)).1
            == s.push(StagedBlockV::Plain(BlockV::Heading { level: level, inlines: inlines })),
        top_level_idle(read_events((c, s), block_evs(BlockV::Heading { level: level, inlines: inlines }, t, pid, 0, amap)).0),
        same_frame(read_events((c, s), block_evs(BlockV::Heading { level: level, inlines: inlines }, t, pid, 0, amap)).0, c),
        no_pending(read_events((c, s), block_evs(BlockV::Heading { level: level, inlines: inlines }, t, pid, 0, amap)).0),
{
    let po = seq![crate::writer_section::st("hp:p"@, heading_p_attrs(pid, level))];
    let body = inlines_evs(inlines, t);
    let pe = seq![en("hp:p"@)];
    assert(block_evs(BlockV::Heading { level: level, inlines: inlines }, t, pid, 0, amap) == po + body + pe);
    lemma_read_append((c, s), po + body, pe);
    lemma_read_append((c, s), po, body);
    lemma_ev_heading_open(c, s, pid, level);
    let c1 = read_events((c, s), po).0;
    lemma_runs_reads_back(c1, s, inlines, t);
    let c2 = read_events((c1, s), body).0;
    assert(Seq::<InlineV>::empty() + inlines =~= inlines);
    lemma_ev_heading_close(c2, s, level);
}

// ---------------------------------------------------------------------------
// The frame of a section: declaration, root element and page setup
// ---------------------------------------------------------------------------









// ---------------------------------------------------------------------------
// A whole section
// ---------------------------------------------------------------------------

/// The tokens the reader sees for the events `evs`.
pub open spec fn tokens_of_outs(evs: Seq<XmlOutV>) -> Seq<XmlTokenV> {
    evs.map_values(|e: XmlOutV| token_of_out(e))
}

/// Blocks staged as they are, none of them a list paragraph.
pub open spec fn plains(bs: Seq<BlockV>) -> Seq<StagedBlockV> {
    bs.map_values(|b: BlockV| StagedBlockV::Plain(b))
}

/// A top-level block that the read-back laws cover: a paragraph, or a
/// heading of level 1 to 6, with some inlines, each as
/// `inline_reads_back` and `font_in_table` describe.
pub open spec fn block_reads_back(b: BlockV, fonts: Seq<Seq<char>>) -> bool {
    match b {
        BlockV::Paragraph { inlines } => inlines.len() > 0
            && forall|k: int| 0 <= k < inlines.len() ==> inline_reads_back(#[trigger] inlines[k]) && font_in_table(inlines[k], fonts),
        BlockV::Heading { level, inlines } => 1 <= level <= 6 && inlines.len() > 0
            && forall|k: int| 0 <= k < inlines.len() ==> inline_reads_back(#[trigger] inlines[k]) && font_in_table(inlines[k], fonts),
        _ => false,
    }
}

proof fn lemma_read_is_run_events(faces: Seq<Seq<char>>, evs: Seq<XmlOutV>)
    ensures
        read_events((crate::context::initial_ctx(faces), Seq::empty()), evs)
            == crate::reader::run_events(faces, tokens_of_outs(evs)),
    decreases evs.len(),
{
    reveal(read_events);
    if evs.len() > 0 {
        assert(tokens_of_outs(evs).drop_last() =~= tokens_of_outs(evs.drop_last()));
        lemma_read_is_run_events(faces, evs.drop_last());
    }
}

proof fn lemma_group_plains(bs: Seq<BlockV>)
    ensures
        crate::flush::group_fold(plains(bs)) == (bs, Seq::<(u32, bool, BlockV)>::empty()),
    decreases bs.len(),
{
    if bs.len() > 0 {
        assert(plains(bs).drop_last() =~= plains(bs.drop_last()));
        lemma_group_plains(bs.drop_last());
        assert(bs.drop_last().push(bs.last()) =~= bs);
    } else {
        assert(plains(bs) =~= Seq::<StagedBlockV>::empty());
    }
}

proof fn lemma_blocks_read(c: CtxV, s: Seq<StagedBlockV>, bs: Seq<BlockV>, t: &RefTables, pid: nat, amap: Seq<(Seq<char>, Seq<char>)>)
    requires
        top_level_idle(c),
        no_pending(c),
        c.face_names == t.fonts(),
        t.fonts().len() <= usize::MAX,
        forall|k: int| 0 <= k < bs.len() ==> block_reads_back(#[trigger] bs[k], t.fonts()),
    ensures
        no_pending(read_events((c, s), blocks_evs(bs, t, pid, 0, amap)).0),
        read_events((c, s), blocks_evs(bs, t, pid, 0, amap)).1 == s + plains(bs),
        top_level_idle(read_events((c, s), blocks_evs(bs, t, pid, 0, amap)).0),
        same_frame(read_events((c, s), blocks_evs(bs, t, pid, 0, amap)).0, c),
    decreases bs.len(),
{
    if bs.len() == 0 {
        reveal(read_events);
        assert(s + plains(bs) =~= s);
    } else {
        let pre = bs.drop_last();
        let b = bs.last();
        let p = pid + crate::writer_section::blocks_count(pre, 0);
        assert forall|k: int| 0 <= k < pre.len() implies block_reads_back(#[trigger] pre[k], t.fonts()) by {
            assert(pre[k] == bs[k]);
        }
        assert(block_reads_back(bs[bs.len() - 1], t.fonts()));
        lemma_blocks_read(c, s, pre, t, pid, amap);
        let r = read_events((c, s), blocks_evs(pre, t, pid, 0, amap));
        lemma_read_append((c, s), blocks_evs(pre, t, pid, 0, amap), block_evs(b, t, p, 0, amap));
        match b {
            BlockV::Paragraph { inlines } => {
                law_paragraph_reads_back(inlines, t, p, amap, r.0, r.1);
            },
            BlockV::Heading { level, inlines } => {
                law_heading_reads_back(level, inlines, t, p, amap, r.0, r.1);
            },
            _ => {},
        }
        assert((s + plains(pre)).push(StagedBlockV::Plain(b)) =~= s + plains(bs));
    }
}

proof fn lemma_sec_pr_read(c: CtxV, s: Seq<StagedBlockV>, l: crate::ir::PageLayout)
    ensures
        read_events((c, s), crate::writer_section::sec_pr_evs(l)) == ((CtxV {
            page_layout: crate::writer_section::page_setup_read(
                l,
                crate::context::PageLayoutState { has_sec_pr: true, ..c.page_layout },
            ),
            ..c
        }), s),
{
    let evs = crate::writer_section::sec_pr_evs(l);
    let a1 = crate::writer_section::out_attrs(evs[1]);
    let a2 = crate::writer_section::out_attrs(evs[2]);
    let a3 = crate::writer_section::out_attrs(evs[3]);
    assert(s + Seq::<StagedBlockV>::empty() =~= s);
    assert(evs =~= seq![evs[0], evs[1], evs[2]] + seq![evs[3], evs[4], evs[5]]);
    lemma_read_append((c, s), seq![evs[0], evs[1], evs[2]], seq![evs[3], evs[4], evs[5]]);
    lemma_read_three((c, s), evs[0], evs[1], evs[2]);
    lemma_local_names();
    lemma_frame_secpr_open(c, Seq::empty());
    let c1 = CtxV { page_layout: crate::context::PageLayoutState { has_sec_pr: true, ..c.page_layout }, ..c };
    lemma_frame_pagepr_open(c1, a1);
    let c2 = CtxV { page_layout: crate::context::page_pr_of(c1.page_layout, a1), ..c };
    lemma_frame_margin(c2, a2);
    let c3 = CtxV { page_layout: crate::context::margin_of(c2.page_layout, a2), ..c };
    lemma_read_three((c3, s), evs[3], evs[4], evs[5]);
    lemma_local_names();
    lemma_frame_pagesize(c3, a3);
    let c4 = CtxV { page_layout: crate::context::page_size_of(c3.page_layout, a3), ..c };
    lemma_frame_pagepr_close(c4);
    lemma_frame_secpr_close(c4);
}

/// A written section reads back: the events of header.xml and of a section
/// without a header or footer whose blocks are paragraphs and headings as
/// `block_reads_back` describes, read as the document reader reads them
/// (the face names from the header, then a fresh section reader over the
/// section's tokens), give a section with exactly those blocks, no header
/// or footer, and the page layout that was written (with the A4 portrait
/// defaults where the layout had none, as `law_page_setup_reads_back`
/// states).
pub proof fn law_section_reads_back(
    n_sections: nat,
    sv: crate::ir::SectionV,
    t: &RefTables,
    amap: Seq<(Seq<char>, Seq<char>)>,
)
    requires
        sv.header is None,
        sv.footer is None,
        forall|k: int| 0 <= k < sv.blocks.len() ==> block_reads_back(#[trigger] sv.blocks[k], t.fonts()),
        t.fonts().len() <= usize::MAX,
    ensures
        ({
            let faces = crate::reader::face_fold(tokens_of_outs(crate::writer_header::header_evs(n_sections, t))).2;
            let r = crate::reader::section_of(faces, tokens_of_outs(crate::writer_section::section_evs(sv, t, amap)));
            let l = crate::writer_section::section_layout(sv, t);
            &&& r.blocks == sv.blocks
            &&& r.header is None
            &&& r.footer is None
            &&& r.page_layout == Some(crate::ir::PageLayout {
                width: Some(crate::writer_section::or_default(l.width, 59528) as u32),
                height: Some(crate::writer_section::or_default(l.height, 84188) as u32),
                landscape: l.landscape,
                margin_left: Some(crate::writer_section::or_default(l.margin_left, 5670) as u32),
                margin_right: Some(crate::writer_section::or_default(l.margin_right, 5670) as u32),
                margin_top: Some(crate::writer_section::or_default(l.margin_top, 4252) as u32),
                margin_bottom: Some(crate::writer_section::or_default(l.margin_bottom, 4252) as u32),
            })
        }),
{
    law_header_faces_read_back(n_sections, t);
    let faces = t.fonts();
    let l = crate::writer_section::section_layout(sv, t);
    let c0 = crate::context::initial_ctx(faces);
    let e = Seq::<StagedBlockV>::empty();
    let head = seq![
        XmlOutV::Decl { version: "1.0"@, encoding: "UTF-8"@ },
        crate::writer_section::st(
            "hs:sec"@,
            seq![
                ("xmlns:hs"@, "http://www.hancom.co.kr/hwpml/2011/section"@),
                ("xmlns:hp"@, "http://www.hancom.co.kr/hwpml/2011/paragraph"@),
            ],
        ),
    ];
    let sp = crate::writer_section::sec_pr_evs(l);
    let body = blocks_evs(sv.blocks, t, 0, 0, amap);
    let tail = seq![en("hs:sec"@)];
    let evs = crate::writer_section::section_evs(sv, t, amap);
    assert(crate::writer_section::header_footer_evs(sv, t, amap) == Seq::<XmlOutV>::empty());
    assert(evs =~= head + sp + body + tail);
    lemma_read_is_run_events(faces, evs);
    lemma_read_append((c0, e), head + sp + body, tail);
    lemma_read_append((c0, e), head + sp, body);
    lemma_read_append((c0, e), head, sp);
    assert(head =~= seq![head[0]] + seq![head[1]]);
    lemma_read_append((c0, e), seq![head[0]], seq![head[1]]);
    lemma_read_one((c0, e), head[0]);
    lemma_local_names();
    lemma_read_one((c0, e), head[1]);
    lemma_local_names();
    lemma_frame_sec_open(c0, head[1]->Start_attrs);
    assert(e + e =~= e);
    assert(read_events((c0, e), head) == (c0, e));
    lemma_sec_pr_read(c0, e, l);
    let p1 = crate::context::PageLayoutState { has_sec_pr: true, ..c0.page_layout };
    let c1 = CtxV { page_layout: crate::writer_section::page_setup_read(l, p1), ..c0 };
    lemma_blocks_read(c1, e, sv.blocks, t, 0, amap);
    let r2 = read_events((c1, e), body);
    lemma_read_one(r2, en("hs:sec"@));
    lemma_local_names();
    lemma_frame_sec_close(r2.0);
    assert(r2.1 + e =~= r2.1);
    assert(e + plains(sv.blocks) =~= plains(sv.blocks));
    lemma_group_plains(sv.blocks);
    assert(crate::flush::staged_of(r2.0) is None);
    assert(plains(sv.blocks) + crate::handlers::opt_seq(crate::flush::staged_of(r2.0)) =~= plains(sv.blocks));
    crate::writer_section::law_page_setup_reads_back(l, p1);
}

// ---------------------------------------------------------------------------
// The face names of a written header
// ---------------------------------------------------------------------------

type FaceSt = (bool, bool, Seq<Seq<char>>);

spec fn face_from(st: FaceSt, ts: Seq<XmlTokenV>) -> FaceSt
    decreases ts.len(),
{
    if ts.len() == 0 {
        st
    } else {
        crate::reader::face_step(face_from(st, ts.drop_last()), ts.last())
    }
}

proof fn lemma_face_fold_from(ts: Seq<XmlTokenV>)
    ensures
        crate::reader::face_fold(ts) == face_from((false, false, Seq::empty()), ts),
    decreases ts.len(),
{
    if ts.len() > 0 {
        lemma_face_fold_from(ts.drop_last());
    }
}

proof fn lemma_face_from_concat(st: FaceSt, a: Seq<XmlTokenV>, b: Seq<XmlTokenV>)
    ensures
        face_from(st, a + b) == face_from(face_from(st, a), b),
    decreases b.len(),
{
    if b.len() == 0 {
        assert(a + b =~= a);
    } else {
        assert((a + b).drop_last() =~= a + b.drop_last());
        assert((a + b).last() == b.last());
        lemma_face_from_concat(st, a, b.drop_last());
    }
}

/// Past the first font face, nothing changes the names.
proof fn lemma_face_done(st: FaceSt, ts: Seq<XmlTokenV>)
    requires
        !st.0,
        st.1,
    ensures
        face_from(st, ts) == st,
    decreases ts.len(),
{
    if ts.len() > 0 {
        lemma_face_done(st, ts.drop_last());
    }
}

proof fn lemma_face_names()
    ensures
        local_name("hh:head"@) == "head"@,
        local_name("hh:beginNum"@) == "beginNum"@,
        local_name("hh:refList"@) == "refList"@,
        local_name("hh:fontfaces"@) == "fontfaces"@,
        local_name("hh:fontface"@) == "fontface"@,
        local_name("hh:font"@) == "font"@,
        "head"@ != "fontface"@ && "head"@ != "font"@,
        "beginNum"@ != "fontface"@ && "beginNum"@ != "font"@,
        "refList"@ != "fontface"@ && "refList"@ != "font"@,
        "fontfaces"@ != "fontface"@ && "fontfaces"@ != "font"@,
        "fontface"@ != "font"@,
        "type"@ != "face"@ && "id"@ != "face"@,
{
    reveal_strlit("hh:head");
    reveal_strlit("head");
    assert("hh:head"@.subrange(3, 7) =~= "head"@);
    lemma_local("hh:head"@, "head"@);
    reveal_strlit("hh:beginNum");
    reveal_strlit("beginNum");
    assert("hh:beginNum"@.subrange(3, 11) =~= "beginNum"@);
    lemma_local("hh:beginNum"@, "beginNum"@);
    reveal_strlit("hh:refList");
    reveal_strlit("refList");
    assert("hh:refList"@.subrange(3, 10) =~= "refList"@);
    lemma_local("hh:refList"@, "refList"@);
    reveal_strlit("hh:fontfaces");
    reveal_strlit("fontfaces");
    assert("hh:fontfaces"@.subrange(3, 12) =~= "fontfaces"@);
    lemma_local("hh:fontfaces"@, "fontfaces"@);
    reveal_strlit("hh:fontface");
    reveal_strlit("fontface");
    assert("hh:fontface"@.subrange(3, 11) =~= "fontface"@);
    lemma_local("hh:fontface"@, "fontface"@);
    reveal_strlit("hh:font");
    reveal_strlit("font");
    assert("hh:font"@.subrange(3, 7) =~= "font"@);
    lemma_local("hh:font"@, "font"@);
    reveal_strlit("type");
    reveal_strlit("face");
    reveal_strlit("id");
    assert("head"@.len() == 4 && "font"@.len() == 4 && "head"@[0] != "font"@[0]);
    assert("beginNum"@.len() == 8 && "fontface"@.len() == 8 && "beginNum"@[0] != "fontface"@[0]);
    assert("refList"@.len() == 7 && "fontfaces"@.len() == 9);
    assert("type"@[0] != "face"@[0] && "id"@.len() == 2);
}

proof fn lemma_font_evs_read(fonts: Seq<Seq<char>>, n: nat)
    requires
        n <= fonts.len(),
    ensures
        face_from((true, false, Seq::empty()), tokens_of_outs(crate::writer_header::font_evs(fonts, n)))
            == (true, false, fonts.take(n as int)),
    decreases n,
{
    if n == 0 {
        assert(tokens_of_outs(crate::writer_header::font_evs(fonts, 0)) =~= Seq::<XmlTokenV>::empty());
        assert(fonts.take(0) =~= Seq::<Seq<char>>::empty());
    } else {
        let pre = crate::writer_header::font_evs(fonts, (n - 1) as nat);
        let e = crate::writer_section::em(
            "hh:font"@,
            seq![("id"@, dec_chars((n - 1) as nat)), ("face"@, fonts[n - 1]), ("type"@, "REP"@)],
        );
        lemma_font_evs_read(fonts, (n - 1) as nat);
        assert(tokens_of_outs(pre.push(e)).drop_last() =~= tokens_of_outs(pre));
        lemma_face_names();
        let a = seq![("id"@, dec_chars((n - 1) as nat)), ("face"@, fonts[n - 1]), ("type"@, "REP"@)];
        assert(a.drop_last() =~= seq![("id"@, dec_chars((n - 1) as nat)), ("face"@, fonts[n - 1])]);
        assert(!seq!["face"@].contains("type"@)) by {
            assert forall|j: int| 0 <= j < 1 implies seq!["face"@][j] != "type"@ by {
                assert(seq!["face"@][0] == "face"@);
            }
        }
        assert(seq!["face"@][0] == "face"@);
        reveal_with_fuel(crate::attrs::last_of, 2);
        assert(crate::attrs::last_of(a, seq!["face"@], None) == Some(fonts[n - 1]));
        assert(fonts.take(n - 1).push(fonts[n - 1]) =~= fonts.take(n as int));
    }
}

proof fn lemma_tokens_concat(a: Seq<XmlOutV>, b: Seq<XmlOutV>)
    ensures
        tokens_of_outs(a + b) == tokens_of_outs(a) + tokens_of_outs(b),
{
    assert(tokens_of_outs(a + b) =~= tokens_of_outs(a) + tokens_of_outs(b));
}

/// Reading, from `st`, events that end with `b` once the first font face
/// is past after `a`.
proof fn lemma_face_then_done(st: FaceSt, a: Seq<XmlOutV>, b: Seq<XmlOutV>)
    requires
        !face_from(st, tokens_of_outs(a)).0,
        face_from(st, tokens_of_outs(a)).1,
    ensures
        face_from(st, tokens_of_outs(a + b)) == face_from(st, tokens_of_outs(a)),
{
    lemma_tokens_concat(a, b);
    lemma_face_from_concat(st, tokens_of_outs(a), tokens_of_outs(b));
    lemma_face_done(face_from(st, tokens_of_outs(a)), tokens_of_outs(b));
}

proof fn lemma_fontface_read(lang: Seq<char>, fonts: Seq<Seq<char>>)
    ensures
        face_from((false, false, Seq::empty()), tokens_of_outs(crate::writer_header::fontface_evs(lang, fonts)))
            == (false, true, fonts),
{
    let s0: FaceSt = (false, false, Seq::empty());
    let fe = crate::writer_header::font_evs(fonts, fonts.len());
    let ho = seq![crate::writer_section::st("hh:fontface"@, seq![("lang"@, lang), ("fontCnt"@, dec_chars(fonts.len()))])];
    let hc = seq![crate::writer_section::en("hh:fontface"@)];
    lemma_face_names();
    lemma_tokens_concat(ho + fe, hc);
    lemma_tokens_concat(ho, fe);
    lemma_face_from_concat(s0, tokens_of_outs(ho) + tokens_of_outs(fe), tokens_of_outs(hc));
    lemma_face_from_concat(s0, tokens_of_outs(ho), tokens_of_outs(fe));
    assert(face_from(s0, tokens_of_outs(ho)) == (true, false, Seq::<Seq<char>>::empty())) by {
        reveal_with_fuel(face_from, 2);
        assert(tokens_of_outs(ho).drop_last() =~= Seq::<XmlTokenV>::empty());
    }
    lemma_font_evs_read(fonts, fonts.len());
    assert(fonts.take(fonts.len() as int) =~= fonts);
    assert(face_from((true, false, fonts), tokens_of_outs(hc)) == (false, true, fonts)) by {
        reveal_with_fuel(face_from, 2);
        assert(tokens_of_outs(hc).drop_last() =~= Seq::<XmlTokenV>::empty());
    }
}

proof fn lemma_fontfaces_body_read(st: FaceSt, fonts: Seq<Seq<char>>, n: nat)
    requires
        st == (false, false, Seq::<Seq<char>>::empty()),
        1 <= n <= 7,
    ensures
        face_from(st, tokens_of_outs(crate::writer_header::fontfaces_body(fonts, n))) == (false, true, fonts),
    decreases n,
{
    let pre = crate::writer_header::fontfaces_body(fonts, (n - 1) as nat);
    let ff = crate::writer_header::fontface_evs(crate::writer_header::lang_slots()[n - 1], fonts);
    if n == 1 {
        assert(pre =~= Seq::<XmlOutV>::empty());
        assert(pre + ff =~= ff);
        lemma_fontface_read(crate::writer_header::lang_slots()[0], fonts);
    } else {
        lemma_fontfaces_body_read(st, fonts, (n - 1) as nat);
        lemma_face_then_done(st, pre, ff);
    }
}

/// The face names read back from a written header: the section reader's
/// face names, read from the events of header.xml (the faces of its first
/// `<hh:fontface>`), are the writer's font table.
pub proof fn law_header_faces_read_back(n_sections: nat, t: &RefTables)
    ensures
        crate::reader::face_fold(tokens_of_outs(crate::writer_header::header_evs(n_sections, t))).2 == t.fonts(),
{
    let fonts = t.fonts();
    let s0: FaceSt = (false, false, Seq::empty());
    let pre = seq![
        XmlOutV::Decl { version: "1.0"@, encoding: "UTF-8"@ },
        crate::writer_section::st("hh:head"@, seq![
            ("xmlns:hh"@, "http://www.hancom.co.kr/hwpml/2011/head"@),
            ("version"@, "1.1"@),
            ("secCnt"@, dec_chars(if n_sections == 0 { 1 } else { n_sections })),
        ]),
        crate::writer_section::em("hh:beginNum"@, seq![
            ("page"@, "1"@), ("footnote"@, "1"@), ("endnote"@, "1"@),
            ("pic"@, "1"@), ("tbl"@, "1"@), ("equation"@, "1"@),
        ]),
        crate::writer_section::st0("hh:refList"@),
        crate::writer_section::st("hh:fontfaces"@, seq![("itemCnt"@, "7"@)]),
    ];
    let body = crate::writer_header::fontfaces_body(fonts, 7);
    let a = pre + body;
    let b = seq![crate::writer_section::en("hh:fontfaces"@)] + crate::writer_header::border_fills_evs(t.border_fill_id as nat)
        + crate::writer_header::char_props_evs(t.keys(), t.fonts(), t.border_fill_id as nat)
        + crate::writer_header::para_props_evs() + crate::writer_header::styles_evs(t.keys()) + seq![
        crate::writer_section::en("hh:refList"@),
        crate::writer_section::em("hh:trackchangeConfig"@, Seq::empty()),
        crate::writer_section::en("hh:head"@),
    ];
    assert(crate::writer_header::header_evs(n_sections, t) =~= a + b);
    lemma_face_names();
    assert(face_from(s0, tokens_of_outs(pre)) == s0) by {
        let tp = tokens_of_outs(pre);
        reveal_with_fuel(face_from, 6);
        assert(tp.drop_last() =~= seq![tp[0], tp[1], tp[2], tp[3]]);
        assert(tp.drop_last().drop_last() =~= seq![tp[0], tp[1], tp[2]]);
        assert(tp.drop_last().drop_last().drop_last() =~= seq![tp[0], tp[1]]);
        assert(tp.drop_last().drop_last().drop_last().drop_last() =~= seq![tp[0]]);
        assert(seq![tp[0]].drop_last() =~= Seq::<XmlTokenV>::empty());
    }
    lemma_tokens_concat(pre, body);
    lemma_face_from_concat(s0, tokens_of_outs(pre), tokens_of_outs(body));
    lemma_fontfaces_body_read(s0, fonts, 7);
    lemma_face_then_done(s0, a, b);
    lemma_face_fold_from(tokens_of_outs(a + b));
}

} // verus!
