//! Reading HWPX parts: a section from its XML events, the face names and
//! break settings of header.xml, the manifest's section list, and the
//! resolution of image references to `BinData/` entries.
use vstd::prelude::*;
use crate::context::{CtxV, ParseContext, initial_ctx, layout_of};
use crate::error::HwpxError;
use crate::flush::{StagedBlock, StagedBlockV, grouped, staged_of, staged_view};
use crate::handlers::{
    comment_spec, empty_spec, end_spec, opt_seq, start_spec, text_spec, handle_comment,
    handle_empty_element, handle_end_element, handle_start_element, handle_text,
};
use crate::ir::{BlockV, Section, SectionV};
use crate::xml::{XmlToken, XmlTokenV, tokens_view};

verus! {

// ---------------------------------------------------------------------------
// Sections
// ---------------------------------------------------------------------------

/// One event of the section reader: the context and the staged blocks after it.
pub open spec fn step(st: (CtxV, Seq<StagedBlockV>), t: XmlTokenV) -> (CtxV, Seq<StagedBlockV>) {
    let (c, s) = st;
    match t {
        XmlTokenV::Start { name, attrs } => (start_spec(c, name, attrs), s),
        XmlTokenV::End { name } => {
            let e = end_spec(c, name);
            (e.0, s + e.1)
        },
        XmlTokenV::Text { text } => (text_spec(c, text), s),
        XmlTokenV::Empty { name, attrs } => {
            let e = empty_spec(c, name, attrs);
            (e.0, s + e.1)
        },
        XmlTokenV::Comment { text } => (comment_spec(c, text), s),
        XmlTokenV::Other => st,
    }
}

/// The state after the events `ts`, starting fresh with the face names `faces`.
pub open spec fn run_events(faces: Seq<Seq<char>>, ts: Seq<XmlTokenV>) -> (CtxV, Seq<StagedBlockV>)
    decreases ts.len(),
{
    if ts.len() == 0 { (initial_ctx(faces), Seq::empty()) } else { step(run_events(faces, ts.drop_last()), ts.last()) }
}

pub open spec fn opt_blocks(bs: Seq<BlockV>) -> Option<Seq<BlockV>> {
    if bs.len() > 0 { Some(bs) } else { None }
}

/// The section that the events `ts` describe: the staged blocks with the
/// last paragraph, list paragraphs grouped; the page layout of its
/// `<hp:secPr>`; header and footer when they have blocks.
pub open spec fn section_of(faces: Seq<Seq<char>>, ts: Seq<XmlTokenV>) -> SectionV {
    let (c, s) = run_events(faces, ts);
    SectionV {
        blocks: grouped(s + opt_seq(staged_of(c))),
        page_layout: layout_of(c.page_layout),
        header: opt_blocks(c.header_footer.header_blocks),
        footer: opt_blocks(c.header_footer.footer_blocks),
        header_footer_type: c.header_footer.hf_type,
    }
}

fn handle_token(t: &XmlToken, ctx: &mut ParseContext, staged: &mut Vec<StagedBlock>)
    ensures
        (final(ctx)@, staged_view(final(staged)@)) == step((old(ctx)@, staged_view(old(staged)@)), t@),
{
    let ghost s0 = staged_view(staged@);
    match t {
        XmlToken::Start { name, attrs } => handle_start_element(name, attrs, ctx),
        XmlToken::End { name } => handle_end_element(name, ctx, staged),
        XmlToken::Text { text } => handle_text(text.as_str(), ctx),
        XmlToken::Empty { name, attrs } => handle_empty_element(name, attrs, ctx, staged),
        XmlToken::Comment { text } => handle_comment(text.as_str(), ctx),
        XmlToken::Other => {},
    }
}

fn take_opt_blocks(v: &mut Vec<crate::ir::Block>) -> (res: Option<Vec<crate::ir::Block>>)
    ensures
        crate::ir::opt_blocks_view(res) == opt_blocks(crate::ir::blocks_view(old(v)@)),
{
    if v.len() > 0 {
        Some(crate::flush::take_blocks(v))
    } else {
        None
    }
}

/// The section of a token stream, with the face names of header.xml.
pub fn parse_tokens(tokens: &Vec<XmlToken>, face_names: &Vec<String>) -> (res: Section)
    ensures
        res@ == section_of(face_names@.map_values(|s: String| s@), tokens_view(tokens@)),
{
    let ghost faces = face_names@.map_values(|s: String| s@);
    let ghost tv = tokens_view(tokens@);
    let mut ctx = ParseContext::default();
    let mut k: usize = 0;
    while k < face_names.len()
        invariant
            0 <= k <= face_names.len(),
            faces == face_names@.map_values(|s: String| s@),
            ctx@ == (CtxV { face_names: faces.take(k as int), ..initial_ctx(Seq::empty()) }),
        decreases face_names.len() - k,
    {
        let ghost before = ctx.face_names@;
        let name = crate::text::str_to_string(face_names[k].as_str());
        ctx.face_names.push(name);
        assert(ctx.face_names@ == before.push(name));
        assert(before.map_values(|s: String| s@) == faces.take(k as int));
        assert(ctx.face_names@.map_values(|s: String| s@) =~= before.map_values(|s: String| s@).push(name@));
        assert(ctx@.face_names =~= faces.take(k + 1));
        k = k + 1;
    }
    assert(faces.take(face_names.len() as int) =~= faces);
    assert(ctx@ =~= initial_ctx(faces));
    let mut staged: Vec<StagedBlock> = Vec::new();
    assert(staged_view(staged@) =~= Seq::<StagedBlockV>::empty());
    let mut i: usize = 0;
    while i < tokens.len()
        invariant
            0 <= i <= tokens.len(),
            tv == tokens_view(tokens@),
            (ctx@, staged_view(staged@)) == run_events(faces, tv.take(i as int)),
        decreases tokens.len() - i,
    {
        assert(tv.take(i + 1).drop_last() == tv.take(i as int));
        assert(tv.take(i + 1).last() == tokens@[i as int]@);
        handle_token(&tokens[i], &mut ctx, &mut staged);
        i = i + 1;
    }
    assert(tv.take(tokens.len() as int) == tv);
    let ghost c = ctx@;
    let ghost s = staged_view(staged@);
    match crate::flush::flush_paragraph_staged(&mut ctx) {
        Some(sb) => {
            staged.push(sb);
            assert(staged_view(staged@) =~= s + opt_seq(staged_of(c)));
        },
        None => {
            assert(staged_view(staged@) =~= s + opt_seq(staged_of(c)));
        },
    }
    let blocks = crate::flush::group_list_paragraphs(staged);
    let page_layout = ctx.take_page_layout();
    let header = take_opt_blocks(&mut ctx.header_footer.header_blocks);
    let footer = take_opt_blocks(&mut ctx.header_footer.footer_blocks);
    Section { blocks, page_layout, header, footer, header_footer_type: ctx.header_footer.hf_type }
}

/// Parses one section's XML, with the face names of header.xml for the
/// runs' fonts.  Reading never fails: unreadable XML ends the events.
pub fn parse_section_xml_with_face_names(xml: &str, face_names: &Vec<String>) -> (res: Result<Section, HwpxError>)
    ensures
        res is Ok,
        res->Ok_0@ == section_of(face_names@.map_values(|s: String| s@), crate::xml::xml_tokens_of(xml@)),
{
    let tokens = crate::xml::tokenize(xml);
    Ok(parse_tokens(&tokens, face_names))
}

/// Parses one section's XML (no face names known).
pub fn parse_section_xml(xml: &str) -> (res: Result<Section, HwpxError>)
    ensures
        res is Ok,
        res->Ok_0@ == section_of(Seq::empty(), crate::xml::xml_tokens_of(xml@)),
{
    let none: Vec<String> = Vec::new();
    assert(none@.map_values(|s: String| s@) =~= Seq::<Seq<char>>::empty());
    parse_section_xml_with_face_names(xml, &none)
}

// ---------------------------------------------------------------------------
// header.xml: face names and break settings
// ---------------------------------------------------------------------------

/// Reading the face names: inside the first `<fontface>` or not, past it or
/// not, and the names so far.
pub type FaceState = (bool, bool, Seq<Seq<char>>);

pub open spec fn face_step(st: FaceState, t: XmlTokenV) -> FaceState {
    let (inside, done, names) = st;
    match t {
        XmlTokenV::Start { name, attrs } => if name == "fontface"@ {
            if done { st } else { (true, done, names) }
        } else if name == "font"@ {
            font_face(st, attrs)
        } else {
            st
        },
        XmlTokenV::Empty { name, attrs } => if name == "fontface"@ {
            if !done && !inside { (inside, true, names) } else { st }
        } else if name == "font"@ {
            font_face(st, attrs)
        } else {
            st
        },
        XmlTokenV::End { name } => if name == "fontface"@ && inside { (false, true, names) } else { st },
        _ => st,
    }
}

/// A `<font face="…">` inside the first font face adds its name.
pub open spec fn font_face(st: FaceState, attrs: crate::attrs::AttrsV) -> FaceState {
    if st.0 && !st.1 {
        match crate::attrs::last_of(attrs, seq!["face"@], None) {
            Some(f) => (st.0, st.1, st.2.push(f)),
            None => st,
        }
    } else {
        st
    }
}

pub open spec fn face_fold(ts: Seq<XmlTokenV>) -> FaceState
    decreases ts.len(),
{
    if ts.len() == 0 { (false, false, Seq::empty()) } else { face_step(face_fold(ts.drop_last()), ts.last()) }
}

fn font_face_exec(inside: bool, done: bool, names: &mut Vec<String>, attrs: &Vec<(String, String)>)
    ensures
        (inside, done, final(names)@.map_values(|s: String| s@)) == font_face((inside, done, old(names)@.map_values(|s: String| s@)), crate::xml::attrs_view(attrs@)),
{
    if inside && !done {
        let keys = vec!["face"];
        assert(crate::attrs::names_view(keys@) =~= seq!["face"@]);
        match crate::attrs::last_value(attrs, &keys) {
            Some(f) => {
                let ghost before = names@;
                names.push(f);
                assert(names@.map_values(|s: String| s@) =~= before.map_values(|s: String| s@).push(f@));
            },
            None => {},
        }
    }
}

/// The face names of header.xml's first `<hh:fontface>`, by ID, from its events.
pub fn face_names_of_tokens(tokens: &Vec<XmlToken>) -> (res: Vec<String>)
    ensures
        res@.map_values(|s: String| s@) == face_fold(tokens_view(tokens@)).2,
{
    let ghost tv = tokens_view(tokens@);
    let mut inside = false;
    let mut done = false;
    let mut names: Vec<String> = Vec::new();
    assert(names@.map_values(|s: String| s@) =~= Seq::<Seq<char>>::empty());
    let mut i: usize = 0;
    while i < tokens.len()
        invariant
            0 <= i <= tokens.len(),
            tv == tokens_view(tokens@),
            (inside, done, names@.map_values(|s: String| s@)) == face_fold(tv.take(i as int)),
        decreases tokens.len() - i,
    {
        assert(tv.take(i + 1).drop_last() == tv.take(i as int));
        assert(tv.take(i + 1).last() == tokens@[i as int]@);
        match &tokens[i] {
            XmlToken::Start { name, attrs } => {
                if crate::text::str_eq(name.as_str(), "fontface") {
                    if !done {
                        inside = true;
                    }
                } else if crate::text::str_eq(name.as_str(), "font") {
                    font_face_exec(inside, done, &mut names, attrs);
                }
            },
            XmlToken::Empty { name, attrs } => {
                if crate::text::str_eq(name.as_str(), "fontface") {
                    if !done && !inside {
                        done = true;
                    }
                } else if crate::text::str_eq(name.as_str(), "font") {
                    font_face_exec(inside, done, &mut names, attrs);
                }
            },
            XmlToken::End { name } => {
                if crate::text::str_eq(name.as_str(), "fontface") && inside {
                    inside = false;
                    done = true;
                }
            },
            _ => {},
        }
        i = i + 1;
    }
    assert(tv.take(tokens.len() as int) == tv);
    names
}

/// The face names of header.xml's first `<hh:fontface>`, by ID.
pub fn parse_face_names(header_xml: &str) -> (res: Vec<String>)
    ensures
        res@.map_values(|s: String| s@) == face_fold(crate::xml::xml_tokens_of(header_xml@)).2,
{
    let tokens = crate::xml::tokenize(header_xml);
    face_names_of_tokens(&tokens)
}

pub open spec fn flag_of(attrs: crate::attrs::AttrsV, key: Seq<char>) -> bool {
    match crate::attrs::last_of(attrs, seq![key], None) {
        Some(v) => v == "true"@ || v == "1"@,
        None => false,
    }
}

pub open spec fn break_of(attrs: crate::attrs::AttrsV) -> crate::ir::BreakSetting {
    crate::ir::BreakSetting {
        widow_orphan: flag_of(attrs, "widowOrphan"@),
        keep_with_next: flag_of(attrs, "keepWithNext"@),
        keep_lines: flag_of(attrs, "keepLines"@),
        page_break_before: flag_of(attrs, "pageBreakBefore"@),
    }
}

/// Reading the break settings: inside `<paraPr id="0">` or not, and the
/// settings so far.
pub open spec fn break_step(st: (bool, crate::ir::BreakSetting), t: XmlTokenV) -> (bool, crate::ir::BreakSetting) {
    match t {
        XmlTokenV::Start { name, attrs } => if name == "paraPr"@ {
            (crate::attrs::last_of(attrs, seq!["id"@], None) == Some("0"@), st.1)
        } else if name == "breakSetting"@ && st.0 {
            (st.0, break_of(attrs))
        } else {
            st
        },
        XmlTokenV::Empty { name, attrs } => if name == "breakSetting"@ && st.0 { (st.0, break_of(attrs)) } else { st },
        XmlTokenV::End { name } => if name == "paraPr"@ { (false, st.1) } else { st },
        _ => st,
    }
}

pub open spec fn break_fold(ts: Seq<XmlTokenV>) -> (bool, crate::ir::BreakSetting)
    decreases ts.len(),
{
    if ts.len() == 0 {
        (false, crate::ir::BreakSetting { widow_orphan: false, keep_with_next: false, keep_lines: false, page_break_before: false })
    } else {
        break_step(break_fold(ts.drop_last()), ts.last())
    }
}

fn flag_value(attrs: &Vec<(String, String)>, key: &'static str) -> (res: bool)
    ensures
        res == flag_of(crate::xml::attrs_view(attrs@), key@),
{
    let keys = vec![key];
    assert(crate::attrs::names_view(keys@) =~= seq![key@]);
    match crate::attrs::last_value(attrs, &keys) {
        Some(v) => crate::text::str_eq(v.as_str(), "true") || crate::text::str_eq(v.as_str(), "1"),
        None => false,
    }
}

fn break_value(attrs: &Vec<(String, String)>) -> (res: crate::ir::BreakSetting)
    ensures
        res == break_of(crate::xml::attrs_view(attrs@)),
{
    crate::ir::BreakSetting {
        widow_orphan: flag_value(attrs, "widowOrphan"),
        keep_with_next: flag_value(attrs, "keepWithNext"),
        keep_lines: flag_value(attrs, "keepLines"),
        page_break_before: flag_value(attrs, "pageBreakBefore"),
    }
}

fn id_is_zero(attrs: &Vec<(String, String)>) -> (res: bool)
    ensures
        res == (crate::attrs::last_of(crate::xml::attrs_view(attrs@), seq!["id"@], None) == Some("0"@)),
{
    let keys = vec!["id"];
    assert(crate::attrs::names_view(keys@) =~= seq!["id"@]);
    match crate::attrs::last_value(attrs, &keys) {
        Some(v) => crate::text::str_eq(v.as_str(), "0"),
        None => false,
    }
}

/// The break settings of the default paragraph property (`<hh:paraPr
/// id="0">`) of header.xml, from its events; all off when absent.
pub fn break_setting_of_tokens(tokens: &Vec<XmlToken>) -> (res: crate::ir::BreakSetting)
    ensures
        res == break_fold(tokens_view(tokens@)).1,
{
    let ghost tv = tokens_view(tokens@);
    let mut in_zero = false;
    let mut bs = crate::ir::BreakSetting::default();
    let mut i: usize = 0;
    while i < tokens.len()
        invariant
            0 <= i <= tokens.len(),
            tv == tokens_view(tokens@),
            (in_zero, bs) == break_fold(tv.take(i as int)),
        decreases tokens.len() - i,
    {
        assert(tv.take(i + 1).drop_last() == tv.take(i as int));
        assert(tv.take(i + 1).last() == tokens@[i as int]@);
        match &tokens[i] {
            XmlToken::Start { name, attrs } => {
                if crate::text::str_eq(name.as_str(), "paraPr") {
                    in_zero = id_is_zero(attrs);
                } else if crate::text::str_eq(name.as_str(), "breakSetting") && in_zero {
                    bs = break_value(attrs);
                }
            },
            XmlToken::Empty { name, attrs } => {
                if crate::text::str_eq(name.as_str(), "breakSetting") && in_zero {
                    bs = break_value(attrs);
                }
            },
            XmlToken::End { name } => {
                if crate::text::str_eq(name.as_str(), "paraPr") {
                    in_zero = false;
                }
            },
            _ => {},
        }
        i = i + 1;
    }
    assert(tv.take(tokens.len() as int) == tv);
    bs
}

/// The break settings of header.xml's default paragraph property.
pub fn parse_break_setting(header_xml: &str) -> (res: crate::ir::BreakSetting)
    ensures
        res == break_fold(crate::xml::xml_tokens_of(header_xml@)).1,
{
    let tokens = crate::xml::tokenize(header_xml);
    break_setting_of_tokens(&tokens)
}

// ---------------------------------------------------------------------------
// Metadata
// ---------------------------------------------------------------------------

pub ghost struct MetaV {
    pub title: Option<Seq<char>>,
    pub author: Option<Seq<char>>,
    pub subject: Option<Seq<char>>,
    pub description: Option<Seq<char>>,
}

pub open spec fn meta_view(m: crate::ir::Metadata) -> MetaV {
    MetaV {
        title: crate::ir::opt_str_view(m.title),
        author: crate::ir::opt_str_view(m.author),
        subject: crate::ir::opt_str_view(m.subject),
        description: crate::ir::opt_str_view(m.description),
    }
}

/// Reading metadata: the fields so far and which element's text comes next
/// (title, author, subject, description).
pub type MetaState = (MetaV, (bool, bool, bool, bool));

/// The first text after `<title>`, `<creator>`/`<author>`, `<subject>` or
/// `<description>` becomes that field; any end tag closes them all.
pub open spec fn meta_step(st: MetaState, t: XmlTokenV) -> MetaState {
    let (m, f) = st;
    match t {
        XmlTokenV::Start { name, .. } => if name == "title"@ {
            (m, (true, f.1, f.2, f.3))
        } else if name == "creator"@ || name == "author"@ {
            (m, (f.0, true, f.2, f.3))
        } else if name == "subject"@ {
            (m, (f.0, f.1, true, f.3))
        } else if name == "description"@ {
            (m, (f.0, f.1, f.2, true))
        } else {
            st
        },
        XmlTokenV::Text { text } => if f.0 {
            (MetaV { title: Some(text), ..m }, (false, f.1, f.2, f.3))
        } else if f.1 {
            (MetaV { author: Some(text), ..m }, (f.0, false, f.2, f.3))
        } else if f.2 {
            (MetaV { subject: Some(text), ..m }, (f.0, f.1, false, f.3))
        } else if f.3 {
            (MetaV { description: Some(text), ..m }, (f.0, f.1, f.2, false))
        } else {
            st
        },
        XmlTokenV::End { .. } => (m, (false, false, false, false)),
        _ => st,
    }
}

pub open spec fn meta_fold(ts: Seq<XmlTokenV>) -> MetaState
    decreases ts.len(),
{
    if ts.len() == 0 {
        (MetaV { title: None, author: None, subject: None, description: None }, (false, false, false, false))
    } else {
        meta_step(meta_fold(ts.drop_last()), ts.last())
    }
}

/// Text outside the metadata elements is not metadata: after tokens that
/// end outside an element's text, the text of any other element, or text
/// after an end tag, leaves every field as it was.
pub proof fn law_metadata_other_text(ts: Seq<XmlTokenV>, name: Seq<char>, attrs: crate::attrs::AttrsV, text: Seq<char>)
    requires
        ts.len() == 0 || ts.last() is End,
        !(name == "title"@ || name == "creator"@ || name == "author"@ || name == "subject"@ || name == "description"@),
    ensures
        meta_fold(ts + seq![XmlTokenV::Start { name: name, attrs: attrs }, XmlTokenV::Text { text: text }]).0
            == meta_fold(ts).0,
        meta_fold(ts + seq![XmlTokenV::Text { text: text }]).0 == meta_fold(ts).0,
{
    let u = seq![XmlTokenV::Start { name: name, attrs: attrs }, XmlTokenV::Text { text: text }];
    assert((ts + u).drop_last() =~= ts + seq![u[0]]);
    assert((ts + seq![u[0]]).drop_last() =~= ts);
    assert((ts + seq![XmlTokenV::Text { text: text }]).drop_last() =~= ts);
    assert(meta_fold(ts).1 == (false, false, false, false)) by {
        if ts.len() > 0 {
            assert(ts.last() is End);
        }
    }
    reveal_with_fuel(meta_fold, 3);
}

/// Metadata elements are read into their own fields: after any tokens that
/// end outside an element's text (none, or an end tag), the text of a
/// following `<title>`, `<creator>` or `<author>`, `<subject>` or
/// `<description>` element sets that field and no other; any other element
/// sets nothing.
pub proof fn law_metadata_fields(ts: Seq<XmlTokenV>, name: Seq<char>, attrs: crate::attrs::AttrsV, text: Seq<char>)
    requires
        ts.len() == 0 || ts.last() is End,
    ensures
        ({
            let m0 = meta_fold(ts).0;
            let m = meta_fold(ts + seq![
                XmlTokenV::Start { name: name, attrs: attrs },
                XmlTokenV::Text { text: text },
                XmlTokenV::End { name: name },
            ]).0;
            &&& name == "title"@ ==> m == MetaV { title: Some(text), ..m0 }
            &&& (name == "creator"@ || name == "author"@) ==> m == MetaV { author: Some(text), ..m0 }
            &&& name == "subject"@ ==> m == MetaV { subject: Some(text), ..m0 }
            &&& name == "description"@ ==> m == MetaV { description: Some(text), ..m0 }
            &&& !(name == "title"@ || name == "creator"@ || name == "author"@ || name == "subject"@
                || name == "description"@) ==> m == m0
        }),
{
    reveal_strlit("title");
    reveal_strlit("creator");
    reveal_strlit("author");
    reveal_strlit("subject");
    reveal_strlit("description");
    assert("title"@.len() == 5 && "creator"@.len() == 7 && "author"@.len() == 6);
    assert("subject"@.len() == 7 && "description"@.len() == 11);
    assert("creator"@[0] != "subject"@[0]);
    let u = seq![
        XmlTokenV::Start { name: name, attrs: attrs },
        XmlTokenV::Text { text: text },
        XmlTokenV::End { name: name },
    ];
    let all = ts + u;
    assert(all.drop_last() =~= ts + seq![u[0], u[1]]);
    assert(all.drop_last().drop_last() =~= ts + seq![u[0]]);
    assert(all.drop_last().drop_last().drop_last() =~= ts);
    assert(meta_fold(ts).1 == (false, false, false, false)) by {
        if ts.len() > 0 {
            assert(ts.last() is End);
        }
    }
    reveal_with_fuel(meta_fold, 4);
}

/// Document metadata from header.xml's events.
pub fn metadata_of_tokens(tokens: &Vec<XmlToken>) -> (res: crate::ir::Metadata)
    ensures
        meta_view(res) == meta_fold(tokens_view(tokens@)).0,
{
    let ghost tv = tokens_view(tokens@);
    let mut meta = crate::ir::Metadata::default();
    let mut in_title = false;
    let mut in_author = false;
    let mut in_subject = false;
    let mut in_description = false;
    let mut i: usize = 0;
    while i < tokens.len()
        invariant
            0 <= i <= tokens.len(),
            tv == tokens_view(tokens@),
            (meta_view(meta), (in_title, in_author, in_subject, in_description)) == meta_fold(tv.take(i as int)),
        decreases tokens.len() - i,
    {
        assert(tv.take(i + 1).drop_last() == tv.take(i as int));
        assert(tv.take(i + 1).last() == tokens@[i as int]@);
        match &tokens[i] {
            XmlToken::Start { name, .. } => {
                if crate::text::str_eq(name.as_str(), "title") {
                    in_title = true;
                } else if crate::text::str_eq(name.as_str(), "creator") || crate::text::str_eq(name.as_str(), "author") {
                    in_author = true;
                } else if crate::text::str_eq(name.as_str(), "subject") {
                    in_subject = true;
                } else if crate::text::str_eq(name.as_str(), "description") {
                    in_description = true;
                }
            },
            XmlToken::Text { text } => {
                let t = crate::text::str_to_string(text.as_str());
                if in_title {
                    meta.title = Some(t);
                    in_title = false;
                } else if in_author {
                    meta.author = Some(t);
                    in_author = false;
                } else if in_subject {
                    meta.subject = Some(t);
                    in_subject = false;
                } else if in_description {
                    meta.description = Some(t);
                    in_description = false;
                }
            },
            XmlToken::End { .. } => {
                in_title = false;
                in_author = false;
                in_subject = false;
                in_description = false;
            },
            _ => {},
        }
        i = i + 1;
    }
    assert(tv.take(tokens.len() as int) == tv);
    meta
}

/// Document metadata from header.xml.
pub fn read_metadata(header_xml: &str) -> (res: crate::ir::Metadata)
    ensures
        meta_view(res) == meta_fold(crate::xml::xml_tokens_of(header_xml@)).0,
{
    let tokens = crate::xml::tokenize(header_xml);
    metadata_of_tokens(&tokens)
}

// ---------------------------------------------------------------------------
// Section and BinData entries
// ---------------------------------------------------------------------------

/// The archive path of a manifest `href`.
pub open spec fn section_path(v: Seq<char>) -> Seq<char> {
    if starts_with(v, "Contents/"@) || starts_with(v, "/"@) {
        crate::text::trim_start_char(v, '/')
    } else {
        "Contents/"@ + v
    }
}

pub open spec fn starts_with(s: Seq<char>, p: Seq<char>) -> bool {
    crate::text::starts_with(s, p)
}

/// Manifest `href`s name archive entries under `Contents/`: one that
/// already starts with `Contents/` is that entry as it stands; a relative
/// one is taken under `Contents/`; a leading `/` is dropped.
pub proof fn law_section_path(x: Seq<char>)
    ensures
        section_path("Contents/"@ + x) == "Contents/"@ + x,
        (x.len() == 0 || x[0] != '/') && !starts_with(x, "Contents/"@) ==> section_path(x) == "Contents/"@ + x,
        (x.len() == 0 || x[0] != '/') ==> section_path(seq!['/'] + x) == x,
{
    reveal_strlit("Contents/");
    reveal_strlit("/");
    let c = "Contents/"@;
    assert(c.len() == 9 && c[0] == 'C');
    assert((c + x).subrange(0, 9) =~= c);
    assert(crate::text::trim_start_char(c + x, '/') == c + x);
    let y = seq!['/'] + x;
    assert(y.subrange(0, 1) =~= "/"@);
    assert(y.drop_first() =~= x);
    if x.len() == 0 || x[0] != '/' {
        if x.len() > 0 {
            assert(x.subrange(0, 1)[0] == x[0]);
            assert(x.subrange(0, 1) != "/"@);
        }
        assert(!starts_with(x, "/"@));
        assert(crate::text::trim_start_char(x, '/') == x);
    }
    reveal_with_fuel(crate::text::trim_start_char, 2);
}

/// The section paths named by the `href`s of one `<item>`.
pub open spec fn item_sections(attrs: crate::attrs::AttrsV) -> Seq<Seq<char>>
    decreases attrs.len(),
{
    if attrs.len() == 0 {
        Seq::empty()
    } else {
        let prev = item_sections(attrs.drop_last());
        let (k, v) = attrs.last();
        if (k == "href"@ || k == "hp:href"@) && (crate::text::contains_seq(v, "section"@) || crate::text::contains_seq(v, "Section"@)) {
            prev.push(section_path(v))
        } else {
            prev
        }
    }
}

pub open spec fn manifest_sections(ts: Seq<XmlTokenV>) -> Seq<Seq<char>>
    decreases ts.len(),
{
    if ts.len() == 0 {
        Seq::empty()
    } else {
        let prev = manifest_sections(ts.drop_last());
        match ts.last() {
            XmlTokenV::Start { name, attrs } => if name == "item"@ || name == "hp:item"@ { prev + item_sections(attrs) } else { prev },
            XmlTokenV::Empty { name, attrs } => if name == "item"@ || name == "hp:item"@ { prev + item_sections(attrs) } else { prev },
            _ => prev,
        }
    }
}

pub open spec fn numbered_path(upper: bool, i: nat) -> Seq<char> {
    (if upper { "Contents/Section"@ } else { "Contents/section"@ }) + crate::text::dec_chars(i) + ".xml"@
}

/// `Contents/section<i>.xml` (or `Section<i>`) for `i` from `from` while
/// they exist, below 100; a missing `0` does not stop the search.
pub open spec fn fallback_sections(names: Seq<Seq<char>>, from: nat) -> Seq<Seq<char>>
    decreases 100 - from,
{
    if from >= 100 {
        Seq::empty()
    } else if names.contains(numbered_path(false, from)) {
        seq![numbered_path(false, from)] + fallback_sections(names, from + 1)
    } else if names.contains(numbered_path(true, from)) {
        seq![numbered_path(true, from)] + fallback_sections(names, from + 1)
    } else if from > 0 {
        Seq::empty()
    } else {
        fallback_sections(names, from + 1)
    }
}

/// A manifest `<item href=".."/>` that names a section lists that section's
/// archive path, whatever the archive's entry names; an `href` already
/// under `Contents/` lists itself.
pub proof fn law_manifest_item(h: Seq<char>, names: Seq<Seq<char>>)
    requires
        crate::text::contains_seq(h, "section"@),
    ensures
        section_files(Some(seq![XmlTokenV::Empty { name: "item"@, attrs: seq![("href"@, h)] }]), names)
            == seq![section_path(h)],
        section_files(Some(seq![XmlTokenV::Start { name: "item"@, attrs: seq![("hp:href"@, h)] }]), names)
            == seq![section_path(h)],
        section_files(Some(seq![XmlTokenV::Empty { name: "item"@, attrs: seq![("href"@, "Contents/"@ + h)] }]), names)
            == seq!["Contents/"@ + h],
{
    let t1 = seq![XmlTokenV::Empty { name: "item"@, attrs: seq![("href"@, h)] }];
    assert(t1.drop_last() =~= Seq::<XmlTokenV>::empty());
    assert(seq![("href"@, h)].drop_last() =~= Seq::<(Seq<char>, Seq<char>)>::empty());
    reveal_with_fuel(manifest_sections, 2);
    reveal_with_fuel(item_sections, 2);
    assert(Seq::<Seq<char>>::empty() + seq![section_path(h)] =~= seq![section_path(h)]);
    let h2 = "Contents/"@ + h;
    reveal_strlit("Contents/");
    assert(crate::text::contains_seq(h2, "section"@)) by {
        let i = choose|i: int| crate::text::occurs_at(h, "section"@, i);
        let n = "section"@.len();
        assert("Contents/"@.len() == 9);
        assert(h2.subrange(i + 9, i + 9 + n) =~= h.subrange(i, i + n));
        assert(crate::text::occurs_at(h2, "section"@, i + 9));
    }
    let t2 = seq![XmlTokenV::Empty { name: "item"@, attrs: seq![("href"@, h2)] }];
    assert(t2.drop_last() =~= Seq::<XmlTokenV>::empty());
    assert(seq![("href"@, h2)].drop_last() =~= Seq::<(Seq<char>, Seq<char>)>::empty());
    assert(Seq::<Seq<char>>::empty() + seq![section_path(h2)] =~= seq![section_path(h2)]);
    let t3 = seq![XmlTokenV::Start { name: "item"@, attrs: seq![("hp:href"@, h)] }];
    assert(t3.drop_last() =~= Seq::<XmlTokenV>::empty());
    assert(seq![("hp:href"@, h)].drop_last() =~= Seq::<(Seq<char>, Seq<char>)>::empty());
    law_section_path(h);
}

/// Without a manifest list the numbered section files are found as they
/// are: every path listed is an entry of the archive, and when
/// `Contents/section0.xml` exists it comes first.
pub proof fn law_fallback_sections(names: Seq<Seq<char>>, from: nat)
    ensures
        forall|i: int| 0 <= i < fallback_sections(names, from).len()
            ==> names.contains(#[trigger] fallback_sections(names, from)[i]),
        from == 0 && names.contains(numbered_path(false, 0)) ==> fallback_sections(names, 0).len() > 0
            && fallback_sections(names, 0)[0] == numbered_path(false, 0),
    decreases 100 - from,
{
    if from < 100 {
        law_fallback_sections(names, from + 1);
        let rest = fallback_sections(names, from + 1);
        if names.contains(numbered_path(false, from)) {
            assert forall|i: int| 0 <= i < fallback_sections(names, from).len()
                implies names.contains(#[trigger] fallback_sections(names, from)[i]) by {
                if i > 0 {
                    assert(fallback_sections(names, from)[i] == rest[i - 1]);
                }
            }
        } else if names.contains(numbered_path(true, from)) {
            assert forall|i: int| 0 <= i < fallback_sections(names, from).len()
                implies names.contains(#[trigger] fallback_sections(names, from)[i]) by {
                if i > 0 {
                    assert(fallback_sections(names, from)[i] == rest[i - 1]);
                }
            }
        }
    }
}

/// The section entries of an archive: those the manifest lists, or the
/// numbered section files that exist.
pub open spec fn section_files(manifest: Option<Seq<XmlTokenV>>, names: Seq<Seq<char>>) -> Seq<Seq<char>> {
    let listed = match manifest {
        Some(ts) => manifest_sections(ts),
        None => Seq::empty(),
    };
    if listed.len() > 0 { listed } else { fallback_sections(names, 0) }
}

fn section_path_of(v: &String) -> (res: String)
    ensures
        res@ == section_path(v@),
{
    let cs = crate::text::chars_vec(v.as_str());
    if crate::text::seq_starts_with(&cs, "Contents/") || crate::text::seq_starts_with(&cs, "/") {
        crate::text::string_of(&crate::text::trim_start_matches(&cs, '/'))
    } else {
        let mut s = crate::text::str_to_string("Contents/");
        crate::text::push_str(&mut s, v.as_str());
        s
    }
}

fn push_item_sections(out: &mut Vec<String>, attrs: &Vec<(String, String)>)
    ensures
        final(out)@.map_values(|s: String| s@) == old(out)@.map_values(|s: String| s@) + item_sections(crate::xml::attrs_view(attrs@)),
{
    let ghost o = out@.map_values(|s: String| s@);
    let ghost av = crate::xml::attrs_view(attrs@);
    let mut i: usize = 0;
    assert(o + item_sections(av.take(0)) =~= o);
    while i < attrs.len()
        invariant
            0 <= i <= attrs.len(),
            av == crate::xml::attrs_view(attrs@),
            out@.map_values(|s: String| s@) == o + item_sections(av.take(i as int)),
        decreases attrs.len() - i,
    {
        assert(av.take(i + 1).drop_last() == av.take(i as int));
        assert(av.take(i + 1).last() == av[i as int]);
        let k = &attrs[i].0;
        let v = &attrs[i].1;
        let vc = crate::text::chars_vec(v.as_str());
        if (crate::text::str_eq(k.as_str(), "href") || crate::text::str_eq(k.as_str(), "hp:href"))
            && (crate::text::seq_contains(&vc, "section") || crate::text::seq_contains(&vc, "Section")) {
            let ghost before = out@;
            let p = section_path_of(v);
            out.push(p);
            assert(out@.map_values(|s: String| s@) =~= before.map_values(|s: String| s@).push(p@));
        }
        i = i + 1;
    }
    assert(av.take(attrs.len() as int) == av);
}

fn name_listed(names: &Vec<String>, p: &String) -> (res: bool)
    ensures
        res == names@.map_values(|s: String| s@).contains(p@),
{
    let ghost ns = names@.map_values(|s: String| s@);
    let mut i: usize = 0;
    while i < names.len()
        invariant
            0 <= i <= names.len(),
            ns == names@.map_values(|s: String| s@),
            forall|j: int| 0 <= j < i ==> ns[j] != p@,
        decreases names.len() - i,
    {
        if names[i] == *p {
            assert(ns[i as int] == p@);
            return true;
        }
        i = i + 1;
    }
    false
}

fn numbered_path_of(upper: bool, i: u32) -> (res: String)
    ensures
        res@ == numbered_path(upper, i as nat),
{
    let mut s = crate::text::str_to_string(if upper { "Contents/Section" } else { "Contents/section" });
    let d = crate::text::dec_string(i as u128);
    crate::text::push_str(&mut s, d.as_str());
    crate::text::push_str(&mut s, ".xml");
    s
}

/// The section entries given the manifest's events (if the manifest could be
/// read) and the names of all archive entries.
pub fn section_files_of(manifest: Option<&Vec<XmlToken>>, names: &Vec<String>) -> (res: Vec<String>)
    ensures
        res@.map_values(|s: String| s@) == section_files(
            match manifest { Some(t) => Some(tokens_view(t@)), None => None },
            names@.map_values(|s: String| s@),
        ),
{
    let ghost ns = names@.map_values(|s: String| s@);
    let mut out: Vec<String> = Vec::new();
    assert(out@.map_values(|s: String| s@) =~= Seq::<Seq<char>>::empty());
    match manifest {
        Some(tokens) => {
            let ghost tv = tokens_view(tokens@);
            let mut i: usize = 0;
            while i < tokens.len()
                invariant
                    0 <= i <= tokens.len(),
                    tv == tokens_view(tokens@),
                    out@.map_values(|s: String| s@) == manifest_sections(tv.take(i as int)),
                decreases tokens.len() - i,
            {
                assert(tv.take(i + 1).drop_last() == tv.take(i as int));
                assert(tv.take(i + 1).last() == tokens@[i as int]@);
                let ghost before = out@.map_values(|s: String| s@);
                match &tokens[i] {
                    XmlToken::Start { name, attrs } => {
                        if crate::text::str_eq(name.as_str(), "item") || crate::text::str_eq(name.as_str(), "hp:item") {
                            push_item_sections(&mut out, attrs);
                        }
                    },
                    XmlToken::Empty { name, attrs } => {
                        if crate::text::str_eq(name.as_str(), "item") || crate::text::str_eq(name.as_str(), "hp:item") {
                            push_item_sections(&mut out, attrs);
                        }
                    },
                    _ => {},
                }
                i = i + 1;
            }
            assert(tv.take(tokens.len() as int) == tv);
        },
        None => {},
    }
    if out.len() > 0 {
        return out;
    }
    let ghost head = out@.map_values(|s: String| s@);
    let mut i: u32 = 0;
    loop
        invariant_except_break
            i <= 100,
            ns == names@.map_values(|s: String| s@),
            fallback_sections(ns, 0) == out@.map_values(|s: String| s@) + fallback_sections(ns, i as nat),
        ensures
            fallback_sections(ns, 0) == out@.map_values(|s: String| s@),
        decreases 100 - i,
    {
        if i >= 100 {
            assert(fallback_sections(ns, i as nat) == Seq::<Seq<char>>::empty());
            assert(out@.map_values(|s: String| s@) + Seq::<Seq<char>>::empty() =~= out@.map_values(|s: String| s@));
            break;
        }
        let lower = numbered_path_of(false, i);
        if name_listed(names, &lower) {
            let ghost before = out@.map_values(|s: String| s@);
            out.push(lower);
            assert(out@.map_values(|s: String| s@) =~= before.push(lower@));
            assert(before + fallback_sections(ns, i as nat) =~= before.push(lower@) + fallback_sections(ns, (i + 1) as nat));
        } else {
            let upper = numbered_path_of(true, i);
            if name_listed(names, &upper) {
                let ghost before = out@.map_values(|s: String| s@);
                out.push(upper);
                assert(out@.map_values(|s: String| s@) =~= before.push(upper@));
                assert(before + fallback_sections(ns, i as nat) =~= before.push(upper@) + fallback_sections(ns, (i + 1) as nat));
            } else if i > 0 {
                assert(out@.map_values(|s: String| s@) + Seq::<Seq<char>>::empty() =~= out@.map_values(|s: String| s@));
                break;
            }
        }
        i = i + 1;
    }
    out
}

/// The section entries of an archive, given its manifest text (if it could
/// be read) and the names of its entries.
pub fn find_section_files(manifest: Option<&str>, names: &Vec<String>) -> (res: Vec<String>)
    ensures
        res@.map_values(|s: String| s@) == section_files(
            match manifest { Some(m) => Some(crate::xml::xml_tokens_of(m@)), None => None },
            names@.map_values(|s: String| s@),
        ),
{
    match manifest {
        Some(m) => {
            let tokens = crate::xml::tokenize(m);
            section_files_of(Some(&tokens), names)
        },
        None => section_files_of(None, names),
    }
}

pub open spec fn is_bin_entry(name: Seq<char>) -> bool {
    starts_with(name, "BinData/"@) || starts_with(name, "Contents/BinData/"@)
}

/// The `BinData/` entries (also under `Contents/`), in archive order.
pub open spec fn bin_entries(names: Seq<Seq<char>>) -> Seq<Seq<char>>
    decreases names.len(),
{
    if names.len() == 0 {
        Seq::empty()
    } else if is_bin_entry(names.last()) {
        bin_entries(names.drop_last()).push(names.last())
    } else {
        bin_entries(names.drop_last())
    }
}

/// The `BinData/` entries among the archive's entry names.
pub fn find_bin_files(names: &Vec<String>) -> (res: Vec<String>)
    ensures
        res@.map_values(|s: String| s@) == bin_entries(names@.map_values(|s: String| s@)),
{
    let ghost ns = names@.map_values(|s: String| s@);
    let mut out: Vec<String> = Vec::new();
    assert(out@.map_values(|s: String| s@) =~= Seq::<Seq<char>>::empty());
    let mut i: usize = 0;
    while i < names.len()
        invariant
            0 <= i <= names.len(),
            ns == names@.map_values(|s: String| s@),
            out@.map_values(|s: String| s@) == bin_entries(ns.take(i as int)),
        decreases names.len() - i,
    {
        assert(ns.take(i + 1).drop_last() == ns.take(i as int));
        assert(ns.take(i + 1).last() == names@[i as int]@);
        let cs = crate::text::chars_vec(names[i].as_str());
        if crate::text::seq_starts_with(&cs, "BinData/") || crate::text::seq_starts_with(&cs, "Contents/BinData/") {
            let ghost before = out@;
            let n = crate::text::str_to_string(names[i].as_str());
            out.push(n);
            assert(out@.map_values(|s: String| s@) =~= before.map_values(|s: String| s@).push(n@));
        }
        i = i + 1;
    }
    assert(ns.take(names.len() as int) == ns);
    out
}

// ---------------------------------------------------------------------------
// Image references to BinData entries
// ---------------------------------------------------------------------------

/// The file name of an archive path: what follows the last `/`.
pub open spec fn file_of_path(path: Seq<char>) -> Seq<char> {
    crate::text::after_last(path, '/')
}

/// A file name without its extension (text after the last `.`).
pub open spec fn stem_of(name: Seq<char>) -> Seq<char> {
    match crate::text::last_index_of(name, '.') {
        Some(i) => name.subrange(0, i),
        None => name,
    }
}

/// Each BinData path keyed by its bare stem, in order.
pub open spec fn bin_map_of(files: Seq<Seq<char>>) -> Seq<(Seq<char>, Seq<char>)> {
    files.map_values(|p: Seq<char>| (stem_of(file_of_path(p)), p))
}

/// The value of the last entry with key `k` (later paths win).
pub open spec fn lookup_last(m: Seq<(Seq<char>, Seq<char>)>, k: Seq<char>) -> Option<Seq<char>>
    decreases m.len(),
{
    if m.len() == 0 {
        None
    } else if m.last().0 == k {
        Some(m.last().1)
    } else {
        lookup_last(m.drop_last(), k)
    }
}

pub type BinMap = Vec<(String, String)>;

fn stem_of_path(path: &String) -> (res: String)
    ensures
        res@ == stem_of(file_of_path(path@)),
{
    let cs = crate::text::chars_vec(path.as_str());
    let file = match crate::text::find_last(&cs, '/') {
        Some(k) => crate::text::sub_vec(&cs, k + 1, cs.len()),
        None => crate::text::sub_vec(&cs, 0, cs.len()),
    };
    assert(file@ == file_of_path(path@));
    let stem = match crate::text::find_last(&file, '.') {
        Some(k) => crate::text::sub_vec(&file, 0, k),
        None => crate::text::sub_vec(&file, 0, file.len()),
    };
    crate::text::string_of(&stem)
}

/// Maps the bare stem of each BinData path (e.g. `BIN0001`) to the path
/// (e.g. `BinData/BIN0001.png`).
pub fn build_bin_map(bin_files: &Vec<String>) -> (res: BinMap)
    ensures
        crate::xml::attrs_view(res@) == bin_map_of(bin_files@.map_values(|s: String| s@)),
{
    let ghost fv = bin_files@.map_values(|s: String| s@);
    let mut out: BinMap = Vec::new();
    assert(crate::xml::attrs_view(out@) =~= bin_map_of(fv.take(0)));
    let mut i: usize = 0;
    while i < bin_files.len()
        invariant
            0 <= i <= bin_files.len(),
            fv == bin_files@.map_values(|s: String| s@),
            crate::xml::attrs_view(out@) == bin_map_of(fv.take(i as int)),
        decreases bin_files.len() - i,
    {
        let ghost before = out@;
        let stem = stem_of_path(&bin_files[i]);
        let path = crate::text::str_to_string(bin_files[i].as_str());
        out.push((stem, path));
        assert(fv.take(i + 1) == fv.take(i as int).push(fv[i as int]));
        assert(fv[i as int] == bin_files@[i as int]@);
        assert(crate::xml::attrs_view(out@) =~= crate::xml::attrs_view(before).push((stem@, path@)));
        assert(bin_map_of(fv.take(i + 1)) =~= bin_map_of(fv.take(i as int)).push((stem_of(file_of_path(fv[i as int])), fv[i as int])));
        assert(crate::xml::attrs_view(out@) =~= bin_map_of(fv.take(i + 1)));
        i = i + 1;
    }
    assert(fv.take(bin_files.len() as int) == fv);
    out
}

fn lookup_bin(m: &BinMap, k: &String) -> (res: Option<String>)
    ensures
        crate::ir::opt_str_view(res) == lookup_last(crate::xml::attrs_view(m@), k@),
{
    let ghost mv = crate::xml::attrs_view(m@);
    let mut i: usize = m.len();
    assert(mv.take(i as int) == mv);
    while i > 0
        invariant
            i <= m.len(),
            mv == crate::xml::attrs_view(m@),
            lookup_last(mv, k@) == lookup_last(mv.take(i as int), k@),
        decreases i,
    {
        assert(mv.take(i as int).drop_last() == mv.take(i - 1));
        assert(mv.take(i as int).last() == mv[i - 1]);
        if m[i - 1].0 == *k {
            return Some(crate::text::str_to_string(m[i - 1].1.as_str()));
        }
        i = i - 1;
    }
    None
}

pub open spec fn resolve_block(b: BlockV, m: Seq<(Seq<char>, Seq<char>)>) -> BlockV
    decreases b,
{
    match b {
        BlockV::Image { src, alt } => BlockV::Image {
            src: match lookup_last(m, src) {
                Some(p) => p,
                None => src,
            },
            alt,
        },
        BlockV::Table { rows, col_count } => BlockV::Table { rows: resolve_rows(rows, m), col_count },
        BlockV::Footnote { id, content } => BlockV::Footnote { id, content: resolve_blocks(content, m) },
        BlockV::List { ordered, start, items } => BlockV::List { ordered, start, items: resolve_items(items, m) },
        BlockV::BlockQuote { blocks } => BlockV::BlockQuote { blocks: resolve_blocks(blocks, m) },
        _ => b,
    }
}

pub open spec fn resolve_blocks(bs: Seq<BlockV>, m: Seq<(Seq<char>, Seq<char>)>) -> Seq<BlockV>
    decreases bs,
{
    Seq::new(bs.len(), |i: int| if 0 <= i < bs.len() { resolve_block(bs[i], m) } else { BlockV::HorizontalRule })
}

pub open spec fn resolve_rows(rs: Seq<crate::ir::TableRowV>, m: Seq<(Seq<char>, Seq<char>)>) -> Seq<crate::ir::TableRowV>
    decreases rs,
{
    Seq::new(
        rs.len(),
        |i: int| if 0 <= i < rs.len() {
            crate::ir::TableRowV { cells: resolve_cells(rs[i].cells, m), is_header: rs[i].is_header }
        } else {
            crate::ir::TableRowV { cells: Seq::empty(), is_header: false }
        },
    )
}

pub open spec fn resolve_cells(cs: Seq<crate::ir::TableCellV>, m: Seq<(Seq<char>, Seq<char>)>) -> Seq<crate::ir::TableCellV>
    decreases cs,
{
    Seq::new(
        cs.len(),
        |i: int| if 0 <= i < cs.len() {
            crate::ir::TableCellV { blocks: resolve_blocks(cs[i].blocks, m), ..cs[i] }
        } else {
            crate::ir::TableCellV { blocks: Seq::empty(), colspan: 1, rowspan: 1 }
        },
    )
}

/// List items: their own blocks and their nested items are resolved.
pub open spec fn resolve_items(its: Seq<crate::ir::ListItemV>, m: Seq<(Seq<char>, Seq<char>)>) -> Seq<crate::ir::ListItemV>
    decreases its,
{
    Seq::new(
        its.len(),
        |i: int| if 0 <= i < its.len() {
            crate::ir::ListItemV {
                blocks: resolve_blocks(its[i].blocks, m),
                children: resolve_items(its[i].children, m),
                checked: its[i].checked,
            }
        } else {
            crate::ir::ListItemV { blocks: Seq::empty(), children: Seq::empty(), checked: None }
        },
    )
}

fn resolve_blocks_exec(v: Vec<crate::ir::Block>, m: &BinMap) -> (res: Vec<crate::ir::Block>)
    ensures
        crate::ir::blocks_view(res@) == resolve_blocks(crate::ir::blocks_view(v@), crate::xml::attrs_view(m@)),
    decreases v,
{
    let ghost mv = crate::xml::attrs_view(m@);
    let ghost vs = v@;
    let ghost v0 = v;
    assert(v0@ == vs);
    let ghost vv = crate::ir::blocks_view(v@);
    let n = v.len();
    let mut rest = v;
    let mut out: Vec<crate::ir::Block> = Vec::new();
    let mut k: usize = 0;
    assert(vs.subrange(0, n as int) == vs);
    assert(crate::ir::blocks_view(out@) =~= resolve_blocks(vv.take(0), mv));
    while rest.len() > 0
        invariant
            k + rest@.len() == n,
            n == vs.len(),
            vv == crate::ir::blocks_view(vs),
            mv == crate::xml::attrs_view(m@),
            rest@ == vs.subrange(k as int, n as int),
            v0@ == vs,
            v0 == v,
            crate::ir::blocks_view(out@) == resolve_blocks(vv.take(k as int), mv),
        decreases rest.len(),
    {
        let ghost r0 = rest@;
        let x = rest.remove(0);
        assert(x == vs[k as int]);
        proof {
            assert(k < n);
            assert(v0@ == vs);
            assert(decreases_to!(v0 => v0@));
            assert(decreases_to!(v0@ => v0@[k as int]));
        }
        assert(rest@ =~= vs.subrange(k + 1, n as int));
        let y = resolve_block_bin_refs(x, m);
        let ghost o0 = out@;
        out.push(y);
        proof {
            crate::ir::lemma_blocks_view_push(o0, y);
            assert(vv[k as int] == x@);
            assert(resolve_blocks(vv.take(k + 1), mv) =~= resolve_blocks(vv.take(k as int), mv).push(resolve_block(x@, mv)));
        }
        k = k + 1;
    }
    assert(vv.take(n as int) == vv);
    out
}

fn resolve_rows_exec(v: Vec<crate::ir::TableRow>, m: &BinMap) -> (res: Vec<crate::ir::TableRow>)
    ensures
        crate::ir::rows_view(res@) == resolve_rows(crate::ir::rows_view(v@), crate::xml::attrs_view(m@)),
    decreases v,
{
    let ghost mv = crate::xml::attrs_view(m@);
    let ghost vs = v@;
    let ghost v0 = v;
    assert(v0@ == vs);
    let ghost vv = crate::ir::rows_view(v@);
    let n = v.len();
    let mut rest = v;
    let mut out: Vec<crate::ir::TableRow> = Vec::new();
    let mut k: usize = 0;
    assert(vs.subrange(0, n as int) == vs);
    assert(crate::ir::rows_view(out@) =~= resolve_rows(vv.take(0), mv));
    while rest.len() > 0
        invariant
            k + rest@.len() == n,
            n == vs.len(),
            vv == crate::ir::rows_view(vs),
            mv == crate::xml::attrs_view(m@),
            rest@ == vs.subrange(k as int, n as int),
            v0@ == vs,
            v0 == v,
            crate::ir::rows_view(out@) == resolve_rows(vv.take(k as int), mv),
        decreases rest.len(),
    {
        let ghost r0 = rest@;
        let x = rest.remove(0);
        assert(x == vs[k as int]);
        proof {
            assert(k < n);
            assert(v0@ == vs);
            assert(decreases_to!(v0 => v0@));
            assert(decreases_to!(v0@ => v0@[k as int]));
        }
        assert(rest@ =~= vs.subrange(k + 1, n as int));
        let y = crate::ir::TableRow { cells: resolve_cells_exec(x.cells, m), is_header: x.is_header };
        let ghost o0 = out@;
        out.push(y);
        proof {
            crate::ir::lemma_rows_view_push(o0, y);
            assert(vv[k as int] == x@);
            assert(resolve_rows(vv.take(k + 1), mv) =~= resolve_rows(vv.take(k as int), mv).push(crate::ir::TableRowV { cells: resolve_cells(x@.cells, mv), is_header: x@.is_header }));
        }
        k = k + 1;
    }
    assert(vv.take(n as int) == vv);
    out
}

fn resolve_cells_exec(v: Vec<crate::ir::TableCell>, m: &BinMap) -> (res: Vec<crate::ir::TableCell>)
    ensures
        crate::ir::cells_view(res@) == resolve_cells(crate::ir::cells_view(v@), crate::xml::attrs_view(m@)),
    decreases v,
{
    let ghost mv = crate::xml::attrs_view(m@);
    let ghost vs = v@;
    let ghost v0 = v;
    assert(v0@ == vs);
    let ghost vv = crate::ir::cells_view(v@);
    let n = v.len();
    let mut rest = v;
    let mut out: Vec<crate::ir::TableCell> = Vec::new();
    let mut k: usize = 0;
    assert(vs.subrange(0, n as int) == vs);
    assert(crate::ir::cells_view(out@) =~= resolve_cells(vv.take(0), mv));
    while rest.len() > 0
        invariant
            k + rest@.len() == n,
            n == vs.len(),
            vv == crate::ir::cells_view(vs),
            mv == crate::xml::attrs_view(m@),
            rest@ == vs.subrange(k as int, n as int),
            v0@ == vs,
            v0 == v,
            crate::ir::cells_view(out@) == resolve_cells(vv.take(k as int), mv),
        decreases rest.len(),
    {
        let ghost r0 = rest@;
        let x = rest.remove(0);
        assert(x == vs[k as int]);
        proof {
            assert(k < n);
            assert(v0@ == vs);
            assert(decreases_to!(v0 => v0@));
            assert(decreases_to!(v0@ => v0@[k as int]));
        }
        assert(rest@ =~= vs.subrange(k + 1, n as int));
        let y = crate::ir::TableCell { blocks: resolve_blocks_exec(x.blocks, m), colspan: x.colspan, rowspan: x.rowspan };
        let ghost o0 = out@;
        out.push(y);
        proof {
            crate::ir::lemma_cells_view_push(o0, y);
            assert(vv[k as int] == x@);
            assert(resolve_cells(vv.take(k + 1), mv) =~= resolve_cells(vv.take(k as int), mv).push(crate::ir::TableCellV { blocks: resolve_blocks(x@.blocks, mv), ..x@ }));
        }
        k = k + 1;
    }
    assert(vv.take(n as int) == vv);
    out
}

fn resolve_items_exec(v: Vec<crate::ir::ListItem>, m: &BinMap) -> (res: Vec<crate::ir::ListItem>)
    ensures
        crate::ir::items_view(res@) == resolve_items(crate::ir::items_view(v@), crate::xml::attrs_view(m@)),
    decreases v,
{
    let ghost mv = crate::xml::attrs_view(m@);
    let ghost vs = v@;
    let ghost v0 = v;
    assert(v0@ == vs);
    let ghost vv = crate::ir::items_view(v@);
    let n = v.len();
    let mut rest = v;
    let mut out: Vec<crate::ir::ListItem> = Vec::new();
    let mut k: usize = 0;
    assert(vs.subrange(0, n as int) == vs);
    assert(crate::ir::items_view(out@) =~= resolve_items(vv.take(0), mv));
    while rest.len() > 0
        invariant
            k + rest@.len() == n,
            n == vs.len(),
            vv == crate::ir::items_view(vs),
            mv == crate::xml::attrs_view(m@),
            rest@ == vs.subrange(k as int, n as int),
            v0@ == vs,
            v0 == v,
            crate::ir::items_view(out@) == resolve_items(vv.take(k as int), mv),
        decreases rest.len(),
    {
        let ghost r0 = rest@;
        let x = rest.remove(0);
        assert(x == vs[k as int]);
        proof {
            assert(k < n);
            assert(v0@ == vs);
            assert(decreases_to!(v0 => v0@));
            assert(decreases_to!(v0@ => v0@[k as int]));
        }
        assert(rest@ =~= vs.subrange(k + 1, n as int));
        let y = crate::ir::ListItem {
            blocks: resolve_blocks_exec(x.blocks, m),
            children: resolve_items_exec(x.children, m),
            checked: x.checked,
        };
        let ghost o0 = out@;
        out.push(y);
        proof {
            crate::ir::lemma_items_view_push(o0, y);
            assert(vv[k as int] == x@);
            assert(resolve_items(vv.take(k + 1), mv) =~= resolve_items(vv.take(k as int), mv).push(
                crate::ir::ListItemV {
                    blocks: resolve_blocks(x@.blocks, mv),
                    children: resolve_items(x@.children, mv),
                    checked: x@.checked,
                },
            ));
        }
        k = k + 1;
    }
    assert(vv.take(n as int) == vv);
    out
}

/// Replaces the source of an image that names a BinData stem by the entry's
/// path, throughout the block.
pub fn resolve_block_bin_refs(block: crate::ir::Block, m: &BinMap) -> (res: crate::ir::Block)
    ensures
        res@ == resolve_block(block@, crate::xml::attrs_view(m@)),
    decreases block,
{
    match block {
        crate::ir::Block::Image { src, alt } => {
            let src2 = match lookup_bin(m, &src) {
                Some(p) => p,
                None => src,
            };
            crate::ir::Block::Image { src: src2, alt }
        },
        crate::ir::Block::Table { rows, col_count } => crate::ir::Block::Table { rows: resolve_rows_exec(rows, m), col_count },
        crate::ir::Block::Footnote { id, content } => crate::ir::Block::Footnote { id, content: resolve_blocks_exec(content, m) },
        crate::ir::Block::List { ordered, start, items } => crate::ir::Block::List { ordered, start, items: resolve_items_exec(items, m) },
        crate::ir::Block::BlockQuote { blocks } => crate::ir::Block::BlockQuote { blocks: resolve_blocks_exec(blocks, m) },
        other => other,
    }
}

/// Resolves the image references of a section's body (not its header or
/// footer) to BinData paths.
pub fn resolve_bin_refs(section: &mut Section, m: &BinMap)
    ensures
        final(section)@ == (SectionV { blocks: resolve_blocks(old(section)@.blocks, crate::xml::attrs_view(m@)), ..old(section)@ }),
{
    let b = crate::flush::take_blocks(&mut section.blocks);
    section.blocks = resolve_blocks_exec(b, m);
}

// ---------------------------------------------------------------------------
// Assets and the whole document
// ---------------------------------------------------------------------------

/// The MIME type of an embedded file by its extension (letters compared
/// case-blind).
pub open spec fn mime_of_name(name: Seq<char>) -> Seq<char> {
    let l = lower_seq(name);
    if crate::text::ends_with(l, ".png"@) {
        "image/png"@
    } else if crate::text::ends_with(l, ".jpg"@) || crate::text::ends_with(l, ".jpeg"@) {
        "image/jpeg"@
    } else if crate::text::ends_with(l, ".gif"@) {
        "image/gif"@
    } else if crate::text::ends_with(l, ".bmp"@) {
        "image/bmp"@
    } else if crate::text::ends_with(l, ".svg"@) {
        "image/svg+xml"@
    } else if crate::text::ends_with(l, ".wmf"@) {
        "image/x-wmf"@
    } else if crate::text::ends_with(l, ".emf"@) {
        "image/x-emf"@
    } else {
        "application/octet-stream"@
    }
}

pub open spec fn lower_seq(s: Seq<char>) -> Seq<char> {
    crate::text::lower_seq(s)
}

/// The MIME type of an embedded file's name.  Letters are lower-cased
/// ASCII-wise: the extensions compared are ASCII, so full Unicode
/// lower-casing matches the same names.
pub fn guess_mime_from_name(name: &str) -> (res: String)
    ensures
        res@ == mime_of_name(name@),
{
    let cs = crate::text::chars_vec(name);
    let l = crate::text::to_ascii_lower(&cs);
    let m = if crate::text::seq_ends_with(&l, ".png") {
        "image/png"
    } else if crate::text::seq_ends_with(&l, ".jpg") || crate::text::seq_ends_with(&l, ".jpeg") {
        "image/jpeg"
    } else if crate::text::seq_ends_with(&l, ".gif") {
        "image/gif"
    } else if crate::text::seq_ends_with(&l, ".bmp") {
        "image/bmp"
    } else if crate::text::seq_ends_with(&l, ".svg") {
        "image/svg+xml"
    } else if crate::text::seq_ends_with(&l, ".wmf") {
        "image/x-wmf"
    } else if crate::text::seq_ends_with(&l, ".emf") {
        "image/x-emf"
    } else {
        "application/octet-stream"
    };
    crate::text::str_to_string(m)
}

pub ghost struct AssetV {
    pub name: Seq<char>,
    pub data: Seq<u8>,
    pub mime_type: Seq<char>,
}

pub open spec fn asset_view(a: crate::ir::Asset) -> AssetV {
    AssetV { name: a.name@, data: a.data@, mime_type: a.mime_type@ }
}

/// The asset of a BinData entry: its file name, bytes and MIME type.
pub open spec fn bin_asset_of(path: Seq<char>, data: Seq<u8>) -> AssetV {
    AssetV { name: file_of_path(path), data, mime_type: mime_of_name(file_of_path(path)) }
}

/// The asset of the BinData entry `path` whose bytes are `data`.
pub fn read_bin_asset(path: &String, data: Vec<u8>) -> (res: crate::ir::Asset)
    ensures
        asset_view(res) == bin_asset_of(path@, data@),
{
    let cs = crate::text::chars_vec(path.as_str());
    let file = match crate::text::find_last(&cs, '/') {
        Some(k) => crate::text::sub_vec(&cs, k + 1, cs.len()),
        None => crate::text::sub_vec(&cs, 0, cs.len()),
    };
    assert(file@ == file_of_path(path@));
    let name = crate::text::string_of(&file);
    let mime = guess_mime_from_name(name.as_str());
    crate::ir::Asset { name, data, mime_type: mime }
}

/// The sections read from the texts of the section entries (an entry that
/// could not be read is skipped), image references resolved.
/// The face names of header.xml's first font face list, when it was read.
pub open spec fn header_faces(header_xml: Option<&str>) -> Seq<Seq<char>> {
    match header_xml {
        Some(h) => face_fold(crate::xml::xml_tokens_of(h@)).2,
        None => Seq::empty(),
    }
}

pub open spec fn read_sections(texts: Seq<Option<Seq<char>>>, m: Seq<(Seq<char>, Seq<char>)>, faces: Seq<Seq<char>>) -> Seq<SectionV>
    decreases texts.len(),
{
    if texts.len() == 0 {
        Seq::empty()
    } else {
        let prev = read_sections(texts.drop_last(), m, faces);
        match texts.last() {
            Some(x) => {
                let sec = section_of(faces, crate::xml::xml_tokens_of(x));
                prev.push(SectionV { blocks: resolve_blocks(sec.blocks, m), ..sec })
            },
            None => prev,
        }
    }
}

/// The assets of the BinData entries whose bytes could be read.
pub open spec fn read_assets(files: Seq<Seq<char>>, data: Seq<Option<Seq<u8>>>) -> Seq<AssetV>
    decreases files.len(),
{
    if files.len() == 0 || data.len() == 0 {
        Seq::empty()
    } else {
        let n = if files.len() < data.len() { files.len() } else { data.len() };
        read_assets(files.take(n - 1), data.take(n - 1)) + match data[n - 1] {
            Some(d) => seq![bin_asset_of(files[n - 1], d)],
            None => Seq::empty(),
        }
    }
}

pub open spec fn opt_strs_view(s: Seq<Option<String>>) -> Seq<Option<Seq<char>>> {
    s.map_values(|o: Option<String>| crate::ir::opt_str_view(o))
}

pub open spec fn opt_bytes_view(s: Seq<Option<Vec<u8>>>) -> Seq<Option<Seq<u8>>> {
    s.map_values(|o: Option<Vec<u8>>| match o { Some(v) => Some(v@), None => None })
}

/// The document of an HWPX archive, from the texts that could be read:
/// header.xml (for metadata and the face names of the runs), each section
/// entry in order, and the bytes of each BinData entry.
pub fn read_document(
    header_xml: Option<&str>,
    section_texts: &Vec<Option<String>>,
    bin_files: &Vec<String>,
    bin_data: Vec<Option<Vec<u8>>>,
) -> (res: crate::ir::Document)
    requires
        bin_files.len() == bin_data.len(),
    ensures
        meta_view(res.metadata) == (match header_xml {
            Some(h) => meta_fold(crate::xml::xml_tokens_of(h@)).0,
            None => MetaV { title: None, author: None, subject: None, description: None },
        }),
        crate::writer::sections_view(res.sections@) == read_sections(
            opt_strs_view(section_texts@),
            bin_map_of(bin_files@.map_values(|s: String| s@)),
            header_faces(header_xml),
        ),
        res.assets@.map_values(|a: crate::ir::Asset| asset_view(a)) == read_assets(
            bin_files@.map_values(|s: String| s@),
            opt_bytes_view(bin_data@),
        ),
{
    let mut doc = crate::ir::Document::new();
    match header_xml {
        Some(h) => {
            doc.metadata = read_metadata(h);
        },
        None => {},
    }
    let bin_map = build_bin_map(bin_files);
    let faces = match header_xml {
        Some(h) => parse_face_names(h),
        None => Vec::new(),
    };
    let ghost fs = header_faces(header_xml);
    assert(faces@.map_values(|s: String| s@) =~= fs);
    let ghost mv = crate::xml::attrs_view(bin_map@);
    let ghost tv = opt_strs_view(section_texts@);
    assert(crate::writer::sections_view(doc.sections@) =~= read_sections(tv.take(0), mv, fs));
    let mut i: usize = 0;
    while i < section_texts.len()
        invariant
            0 <= i <= section_texts.len(),
            tv == opt_strs_view(section_texts@),
            mv == crate::xml::attrs_view(bin_map@),
            fs == faces@.map_values(|s: String| s@),
            crate::writer::sections_view(doc.sections@) == read_sections(tv.take(i as int), mv, fs),
            meta_view(doc.metadata) == (match header_xml {
                Some(h) => meta_fold(crate::xml::xml_tokens_of(h@)).0,
                None => MetaV { title: None, author: None, subject: None, description: None },
            }),
            doc.assets@.len() == 0,
        decreases section_texts.len() - i,
    {
        assert(tv.take(i + 1).drop_last() == tv.take(i as int));
        assert(tv.take(i + 1).last() == crate::ir::opt_str_view(section_texts@[i as int]));
        match &section_texts[i] {
            Some(x) => {
                match parse_section_xml_with_face_names(x.as_str(), &faces) {
                    Ok(mut sec) => {
                        resolve_bin_refs(&mut sec, &bin_map);
                        let ghost before = doc.sections@;
                        doc.sections.push(sec);
                        assert(crate::writer::sections_view(doc.sections@) =~= crate::writer::sections_view(before).push(sec@));
                    },
                    Err(_) => {},
                }
            },
            None => {},
        }
        i = i + 1;
    }
    assert(tv.take(section_texts.len() as int) == tv);
    let ghost fv = bin_files@.map_values(|s: String| s@);
    let ghost dv = opt_bytes_view(bin_data@);
    let n = bin_files.len();
    let mut rest = bin_data;
    let mut k: usize = 0;
    assert(doc.assets@.map_values(|a: crate::ir::Asset| asset_view(a)) =~= read_assets(fv.take(0), dv.take(0)));
    assert(dv.subrange(0, n as int) == dv);
    while k < n
        invariant
            0 <= k <= n,
            n == bin_files.len(),
            n == dv.len(),
            fv == bin_files@.map_values(|s: String| s@),
            rest@.len() == n - k,
            opt_bytes_view(rest@) == dv.subrange(k as int, n as int),
            doc.assets@.map_values(|a: crate::ir::Asset| asset_view(a)) == read_assets(fv.take(k as int), dv.take(k as int)),
            crate::writer::sections_view(doc.sections@) == read_sections(tv, mv, fs),
            meta_view(doc.metadata) == (match header_xml {
                Some(h) => meta_fold(crate::xml::xml_tokens_of(h@)).0,
                None => MetaV { title: None, author: None, subject: None, description: None },
            }),
        decreases n - k,
    {
        let ghost r0 = rest@;
        let d = rest.remove(0);
        proof {
            assert(rest@ == r0.remove(0));
            assert(opt_bytes_view(r0)[0] == dv[k as int]);
            assert(opt_bytes_view(rest@) =~= opt_bytes_view(r0).subrange(1, r0.len() as int));
            assert(opt_bytes_view(rest@) =~= dv.subrange(k + 1, n as int));
            assert(fv.take(k + 1).take(k as int) == fv.take(k as int));
            assert(dv.take(k + 1).take(k as int) == dv.take(k as int));
        }
        let ghost before = doc.assets@;
        match d {
            Some(bytes) => {
                let a = read_bin_asset(&bin_files[k], bytes);
                doc.assets.push(a);
                assert(doc.assets@.map_values(|a: crate::ir::Asset| asset_view(a)) =~= before.map_values(|a: crate::ir::Asset| asset_view(a)).push(asset_view(a)));
            },
            None => {
                assert(doc.assets@ == before);
            },
        }
        assert(read_assets(fv.take(k + 1), dv.take(k + 1)) =~= read_assets(fv.take(k as int), dv.take(k as int)) + match dv[k as int] {
            Some(x) => seq![bin_asset_of(fv[k as int], x)],
            None => Seq::<AssetV>::empty(),
        });
        k = k + 1;
    }
    assert(fv.take(n as int) == fv);
    assert(dv.take(n as int) == dv);
    doc
}

} // verus!
