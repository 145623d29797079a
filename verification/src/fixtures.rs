//! Small builders of documents, XML fragments and encodings, shared by the
//! tests of the reader and the writer.
use vstd::prelude::*;
use crate::ir::{
    Block, BlockV, Document, Inline, InlineV, ListItem, ListItemV, Metadata, PageLayout, Section, SectionV,
    blocks_view, inlines_view, plain_inline_v,
};

use crate::writer_content::{b64_char, b64_encode};

verus! {

// ---------------------------------------------------------------------------
// Inlines and blocks
// ---------------------------------------------------------------------------

/// An unformatted inline.
pub fn inline(text: &str) -> (res: Inline)
    ensures
        res@ == plain_inline_v(text@),
{
    Inline::plain(text)
}

/// A bold inline.
pub fn bold_inline(text: &str) -> (res: Inline)
    ensures
        res@ == (InlineV { bold: true, ..plain_inline_v(text@) }),
{
    let mut i = Inline::plain(text);
    i.bold = true;
    i
}

/// An italic inline.
pub fn italic_inline(text: &str) -> (res: Inline)
    ensures
        res@ == (InlineV { italic: true, ..plain_inline_v(text@) }),
{
    let mut i = Inline::plain(text);
    i.italic = true;
    i
}

/// An underlined inline.
pub fn underline_inline(text: &str) -> (res: Inline)
    ensures
        res@ == (InlineV { underline: true, ..plain_inline_v(text@) }),
{
    let mut i = Inline::plain(text);
    i.underline = true;
    i
}

/// A paragraph of one plain inline.
pub fn plain_para(text: &str) -> (res: Block)
    ensures
        res@ == (BlockV::Paragraph { inlines: seq![plain_inline_v(text@)] }),
{
    let inlines = vec![Inline::plain(text)];
    let res = Block::Paragraph { inlines };
    assert(res@ == BlockV::Paragraph { inlines: inlines_view(inlines@) });
    assert(inlines_view(inlines@) =~= seq![plain_inline_v(text@)]);
    res
}

/// A list item of one plain paragraph, with a task check state.
pub fn task_item(text: &str, checked: Option<bool>) -> (res: ListItem)
    ensures
        res@ == (ListItemV {
            blocks: seq![BlockV::Paragraph { inlines: seq![plain_inline_v(text@)] }],
            children: Seq::empty(),
            checked,
        }),
{
    let b = plain_para(text);
    let blocks = vec![b];
    let res = ListItem { blocks, children: Vec::new(), checked };
    assert(blocks_view(blocks@) =~= seq![b@]);
    assert(crate::ir::items_view(Seq::<ListItem>::empty()) =~= Seq::<ListItemV>::empty());
    res
}

pub open spec fn one_section(blocks: Seq<BlockV>, layout: Option<PageLayout>) -> SectionV {
    SectionV { blocks, page_layout: layout, header: None, footer: None, header_footer_type: None }
}

/// A document of one section holding `blocks`.
pub fn doc_with_section(blocks: Vec<Block>) -> (res: Document)
    ensures
        res.sections@.len() == 1,
        res.sections@[0]@ == one_section(blocks_view(blocks@), None),
        res.assets@.len() == 0,
        res.metadata.title is None && res.metadata.author is None,
        res.metadata.subject is None && res.metadata.description is None,
{
    let sec = Section { blocks, page_layout: None, header: None, footer: None, header_footer_type: None };
    Document { metadata: Metadata::default(), sections: vec![sec], assets: Vec::new() }
}

/// A document of one section holding one paragraph of `inlines`.
pub fn roundtrip_doc(inlines: Vec<Inline>) -> (res: Document)
    ensures
        res.sections@.len() == 1,
        res.sections@[0]@ == one_section(seq![BlockV::Paragraph { inlines: inlines_view(inlines@) }], None),
        res.assets@.len() == 0,
        res.metadata.title is None && res.metadata.author is None,
        res.metadata.subject is None && res.metadata.description is None,
{
    let b = Block::Paragraph { inlines };
    let blocks = vec![b];
    assert(blocks_view(blocks@) =~= seq![b@]);
    doc_with_section(blocks)
}

// ---------------------------------------------------------------------------
// Reading sections
// ---------------------------------------------------------------------------

/// The section that the section XML `xml` describes.
pub fn section(xml: &str) -> (res: Section)
    ensures
        res@ == crate::reader::section_of(Seq::empty(), crate::xml::xml_tokens_of(xml@)),
{
    match crate::reader::parse_section_xml(xml) {
        Ok(s) => s,
        Err(_) => Section::default(),
    }
}

/// The section that the section XML `xml` describes.
pub fn read_hwpx_section_xml(xml: &str) -> (res: Section)
    ensures
        res@ == crate::reader::section_of(Seq::empty(), crate::xml::xml_tokens_of(xml@)),
{
    section(xml)
}

/// `<hp:p paraPrIDRef="P" [numPrIDRef="N"]><hp:run><hp:t>TEXT</hp:t></hp:run></hp:p>`.
pub fn list_para(para_pr: &str, num_pr: Option<&str>, text: &str) -> (res: String)
    ensures
        res@ == "<hp:p paraPrIDRef=\""@ + para_pr@ + "\""@
            + (match num_pr { Some(n) => " numPrIDRef=\""@ + n@ + "\""@, None => Seq::empty() })
            + "><hp:run><hp:t>"@ + text@ + "</hp:t></hp:run></hp:p>"@,
{
    let mut s = crate::text::str_to_string("<hp:p paraPrIDRef=\"");
    crate::text::push_str(&mut s, para_pr);
    crate::text::push_str(&mut s, "\"");
    let ghost s1 = s@;
    match num_pr {
        Some(n) => {
            crate::text::push_str(&mut s, " numPrIDRef=\"");
            crate::text::push_str(&mut s, n);
            crate::text::push_str(&mut s, "\"");
        },
        None => {},
    }
    let ghost s2 = s@;
    assert(s2 =~= s1 + (match num_pr { Some(n) => " numPrIDRef=\""@ + n@ + "\""@, None => Seq::<char>::empty() }));
    crate::text::push_str(&mut s, "><hp:run><hp:t>");
    crate::text::push_str(&mut s, text);
    crate::text::push_str(&mut s, "</hp:t></hp:run></hp:p>");
    s
}

/// `<TAG K1="V1" K2="V2" …>` as bytes.
pub fn make_bytes_start_with_attrs(tag: &str, attrs: &Vec<(&str, &str)>) -> (res: Vec<u8>)
    ensures
        res@ == vstd::utf8::encode_utf8(start_tag_text(tag@, attrs@.map_values(|p: (&str, &str)| (p.0@, p.1@)))),
{
    let ghost av = attrs@.map_values(|p: (&str, &str)| (p.0@, p.1@));
    let mut s = crate::text::str_to_string("<");
    crate::text::push_str(&mut s, tag);
    proof { reveal_strlit("<"); }
    assert(av.take(0) =~= Seq::<(Seq<char>, Seq<char>)>::empty());
    assert(s@ =~= seq!['<'] + tag@ + attr_text(av.take(0)));
    let mut i: usize = 0;
    while i < attrs.len()
        invariant
            0 <= i <= attrs.len(),
            av == attrs@.map_values(|p: (&str, &str)| (p.0@, p.1@)),
            s@ == seq!['<'] + tag@ + attr_text(av.take(i as int)),
        decreases attrs.len() - i,
    {
        let (k, v) = attrs[i];
        crate::text::push_str(&mut s, " ");
        crate::text::push_str(&mut s, k);
        crate::text::push_str(&mut s, "=\"");
        crate::text::push_str(&mut s, v);
        crate::text::push_str(&mut s, "\"");
        proof {
            reveal_strlit(" ");
            reveal_strlit("=\"");
            reveal_strlit("\"");
            assert(av.take(i + 1).drop_last() == av.take(i as int));
            assert(av.take(i + 1).last() == (k@, v@));
        }
        assert(s@ =~= seq!['<'] + tag@ + attr_text(av.take(i + 1)));
        i = i + 1;
    }
    assert(av.take(attrs.len() as int) == av);
    crate::text::push_char(&mut s, '>');
    proof { reveal_strlit("<"); }
    assert(s@ =~= start_tag_text(tag@, av));
    vstd::slice::slice_to_vec(s.as_str().as_bytes())
}

pub open spec fn attr_text(attrs: Seq<(Seq<char>, Seq<char>)>) -> Seq<char>
    decreases attrs.len(),
{
    if attrs.len() == 0 {
        Seq::empty()
    } else {
        attr_text(attrs.drop_last()) + seq![' '] + attrs.last().0 + seq!['=', '"'] + attrs.last().1 + seq!['"']
    }
}

pub open spec fn start_tag_text(tag: Seq<char>, attrs: Seq<(Seq<char>, Seq<char>)>) -> Seq<char> {
    seq!['<'] + tag + attr_text(attrs) + seq!['>']
}

// ---------------------------------------------------------------------------
// Base64 encoding
// ---------------------------------------------------------------------------

fn b64_char_of(v: u32) -> (res: char)
    requires
        v < 64,
    ensures
        res == b64_char(v as int),
{
    if v < 26 {
        (('A' as u32) + v) as u8 as char
    } else if v < 52 {
        (('a' as u32) + (v - 26)) as u8 as char
    } else if v < 62 {
        (('0' as u32) + (v - 52)) as u8 as char
    } else if v == 62 {
        '+'
    } else {
        '/'
    }
}

/// Encodes `data` as standard base64 with padding.
pub fn base64_encode_test(data: &Vec<u8>) -> (res: String)
    ensures
        res@ == b64_encode(data@),
{
    let mut out = String::new();
    let mut i: usize = 0;
    assert(data@.subrange(0, data.len() as int) == data@);
    assert(out@ =~= Seq::<char>::empty());
    while i < data.len() && data.len() - i > 2
        invariant
            0 <= i <= data.len(),
            out@ + b64_encode(data@.subrange(i as int, data.len() as int)) == b64_encode(data@),
        decreases data.len() - i,
    {
        let a = data[i] as u32;
        let b = data[i + 1] as u32;
        let c = data[i + 2] as u32;
        let ghost rest = data@.subrange(i as int, data.len() as int);
        crate::text::push_char(&mut out, b64_char_of(a / 4));
        crate::text::push_char(&mut out, b64_char_of((a % 4) * 16 + b / 16));
        crate::text::push_char(&mut out, b64_char_of((b % 16) * 4 + c / 64));
        crate::text::push_char(&mut out, b64_char_of(c % 64));
        proof {
            assert(rest.subrange(3, rest.len() as int) =~= data@.subrange(i + 3, data.len() as int));
        }
        i = i + 3;
    }
    let ghost rest = data@.subrange(i as int, data.len() as int);
    let rem = data.len() - i;
    if rem == 1 {
        let a = data[i] as u32;
        crate::text::push_char(&mut out, b64_char_of(a / 4));
        crate::text::push_char(&mut out, b64_char_of((a % 4) * 16));
        crate::text::push_char(&mut out, '=');
        crate::text::push_char(&mut out, '=');
    } else if rem == 2 {
        let a = data[i] as u32;
        let b = data[i + 1] as u32;
        crate::text::push_char(&mut out, b64_char_of(a / 4));
        crate::text::push_char(&mut out, b64_char_of((a % 4) * 16 + b / 16));
        crate::text::push_char(&mut out, b64_char_of((b % 16) * 4));
        crate::text::push_char(&mut out, '=');
    }
    assert(out@ =~= b64_encode(data@));
    out
}

} // verus!
