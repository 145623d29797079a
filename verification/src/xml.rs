//! XML events as plain values, and the two calls into `quick_xml` that turn
//! text into events (reading) and events into text (writing).
use vstd::prelude::*;
use quick_xml::events::{BytesDecl, BytesEnd, BytesStart, BytesText, Event};

verus! {

// ---------------------------------------------------------------------------
// Tokens read from XML text
// ---------------------------------------------------------------------------

/// One event of an XML reader.  Element names are local names (namespace
/// prefix removed); attribute keys are kept as written (`hp:width`).
#[derive(Debug)]
pub enum XmlToken {
    Start { name: String, attrs: Vec<(String, String)> },
    Empty { name: String, attrs: Vec<(String, String)> },
    End { name: String },
    Text { text: String },
    Comment { text: String },
    Other,
}

pub ghost enum XmlTokenV {
    Start { name: Seq<char>, attrs: Seq<(Seq<char>, Seq<char>)> },
    Empty { name: Seq<char>, attrs: Seq<(Seq<char>, Seq<char>)> },
    End { name: Seq<char> },
    Text { text: Seq<char> },
    Comment { text: Seq<char> },
    Other,
}

pub open spec fn attrs_view(a: Seq<(String, String)>) -> Seq<(Seq<char>, Seq<char>)> {
    a.map_values(|p: (String, String)| (p.0@, p.1@))
}

impl View for XmlToken {
    type V = XmlTokenV;

    open spec fn view(&self) -> XmlTokenV {
        match self {
            XmlToken::Start { name, attrs } => XmlTokenV::Start { name: name@, attrs: attrs_view(attrs@) },
            XmlToken::Empty { name, attrs } => XmlTokenV::Empty { name: name@, attrs: attrs_view(attrs@) },
            XmlToken::End { name } => XmlTokenV::End { name: name@ },
            XmlToken::Text { text } => XmlTokenV::Text { text: text@ },
            XmlToken::Comment { text } => XmlTokenV::Comment { text: text@ },
            XmlToken::Other => XmlTokenV::Other,
        }
    }
}

pub open spec fn tokens_view(s: Seq<XmlToken>) -> Seq<XmlTokenV> {
    s.map_values(|t: XmlToken| t@)
}

/// The events that `quick_xml::Reader` (default configuration) yields for
/// `xml`, up to the end of input or the first error, as plain values.
pub uninterp spec fn xml_tokens_of(xml: Seq<char>) -> Seq<XmlTokenV>;

/// `std::str::from_utf8` on a name or comment slice, falling back to the
/// empty string on invalid UTF-8.
#[verifier::external_body]
fn utf8_or_empty(bytes: &[u8]) -> (res: String)
    ensures
        res@ == (if vstd::utf8::valid_utf8(bytes@) { vstd::utf8::decode_utf8(bytes@) } else { Seq::empty() }),
{
    std::str::from_utf8(bytes).unwrap_or("").to_string()
}

#[verifier::external_type_specification]
#[verifier::external_body]
pub struct ExBytesStart<'a>(BytesStart<'a>);

/// `BytesStart::local_name` and `BytesStart::attributes` (well-formed ones,
/// each value through `unescape_value`, the empty string on an unescaping
/// error).  Nothing is stated: the argument is opaque here.
#[verifier::external_body]
fn tag_token(e: &BytesStart, empty: bool) -> (res: XmlToken) {
    let name = utf8_or_empty(e.local_name().as_ref());
    let attrs = e.attributes().flatten().map(|a| (utf8_or_empty(a.key.as_ref()), a.unescape_value().unwrap_or_default().into_owned())).collect();
    if empty { XmlToken::Empty { name, attrs } } else { XmlToken::Start { name, attrs } }
}

#[verifier::external_type_specification]
#[verifier::external_body]
pub struct ExEvent<'a>(Event<'a>);

/// One `quick_xml` reader event as a token; `None` for `Eof`.  Nothing is
/// stated: the argument is opaque here.
#[verifier::external_body]
fn token_of(ev: Event) -> (res: Option<XmlToken>) {
    Some(match ev {
        Event::Start(e) => tag_token(&e, false),
        Event::Empty(e) => tag_token(&e, true),
        Event::End(e) => XmlToken::End { name: utf8_or_empty(e.local_name().as_ref()) },
        Event::Text(e) => XmlToken::Text { text: e.unescape().unwrap_or_default().into_owned() },
        Event::Comment(e) => XmlToken::Comment { text: utf8_or_empty(&e) },
        Event::Eof => return None,
        _ => XmlToken::Other,
    })
}

/// Reads `xml` with `quick_xml::Reader::from_str` and `read_event`, and
/// returns every event before `Eof` or the first error.  Start and empty
/// elements carry `local_name()` and their well-formed attributes with
/// `unescape_value()` (an unescaping error gives the empty string), text
/// carries `unescape()` (likewise), comments their raw content.  The contract
/// only names the result: it is the same for the same input.
#[verifier::external_body]
pub fn tokenize(xml: &str) -> (res: Vec<XmlToken>)
    ensures
        tokens_view(res@) == xml_tokens_of(xml@),
{
    let mut r = quick_xml::Reader::from_str(xml);
    let mut out = Vec::new();
    while let Ok(Some(t)) = r.read_event().map(token_of) {
        out.push(t);
    }
    out
}

// ---------------------------------------------------------------------------
// Events written as XML text
// ---------------------------------------------------------------------------

/// One event handed to an XML writer.
#[derive(Debug)]
pub enum XmlOut {
    Decl { version: String, encoding: String },
    Start { name: String, attrs: Vec<(String, String)> },
    Empty { name: String, attrs: Vec<(String, String)> },
    End { name: String },
    Text { text: String },
    Comment { text: String },
}

pub ghost enum XmlOutV {
    Decl { version: Seq<char>, encoding: Seq<char> },
    Start { name: Seq<char>, attrs: Seq<(Seq<char>, Seq<char>)> },
    Empty { name: Seq<char>, attrs: Seq<(Seq<char>, Seq<char>)> },
    End { name: Seq<char> },
    Text { text: Seq<char> },
    Comment { text: Seq<char> },
}

impl View for XmlOut {
    type V = XmlOutV;

    open spec fn view(&self) -> XmlOutV {
        match self {
            XmlOut::Decl { version, encoding } => XmlOutV::Decl { version: version@, encoding: encoding@ },
            XmlOut::Start { name, attrs } => XmlOutV::Start { name: name@, attrs: attrs_view(attrs@) },
            XmlOut::Empty { name, attrs } => XmlOutV::Empty { name: name@, attrs: attrs_view(attrs@) },
            XmlOut::End { name } => XmlOutV::End { name: name@ },
            XmlOut::Text { text } => XmlOutV::Text { text: text@ },
            XmlOut::Comment { text } => XmlOutV::Comment { text: text@ },
        }
    }
}

pub open spec fn outs_view(s: Seq<XmlOut>) -> Seq<XmlOutV> {
    s.map_values(|e: XmlOut| e@)
}

/// The text that `quick_xml::Writer::new_with_indent(_, b' ', 2)` produces for
/// `events`, or `None` when a write fails or the bytes are not UTF-8.
pub uninterp spec fn xml_written(events: Seq<XmlOutV>) -> Option<Seq<char>>;

/// `BytesStart::new` with `with_attributes`.  Nothing is stated: the result
/// is opaque here.
#[verifier::external_body]
fn bytes_start<'a>(name: &'a String, attrs: &'a Vec<(String, String)>) -> BytesStart<'a> {
    BytesStart::new(name.as_str()).with_attributes(attrs.iter().map(|(k, v)| (k.as_str(), v.as_str())))
}

/// One event as a `quick_xml` writer event.  Nothing is stated: the result
/// is opaque here.
#[verifier::external_body]
fn out_event(ev: &XmlOut) -> Event<'_> {
    match ev {
        XmlOut::Decl { version, encoding } => Event::Decl(BytesDecl::new(version, Some(encoding), None)),
        XmlOut::Start { name, attrs } => Event::Start(bytes_start(name, attrs)),
        XmlOut::Empty { name, attrs } => Event::Empty(bytes_start(name, attrs)),
        XmlOut::End { name } => Event::End(BytesEnd::new(name.as_str())),
        XmlOut::Text { text } => Event::Text(BytesText::new(text)),
        XmlOut::Comment { text } => Event::Comment(BytesText::new(text)),
    }
}

/// Writes `events` with a `quick_xml::Writer` that indents by two spaces into
/// a byte buffer, and decodes the buffer with `String::from_utf8`.  The
/// contract only names the result: it is the same for the same events.
#[verifier::external_body]
pub fn render(events: &Vec<XmlOut>) -> (res: Option<String>)
    ensures
        crate::ir::opt_str_view(res) == xml_written(outs_view(events@)),
{
    let mut w = quick_xml::Writer::new_with_indent(Vec::new(), b' ', 2);
    for ev in events {
        w.write_event(out_event(ev)).ok()?;
    }
    String::from_utf8(w.into_inner()).ok()
}

// ---------------------------------------------------------------------------
// Building events
// ---------------------------------------------------------------------------

/// An attribute pair from a literal key and an owned value.
pub fn attr(key: &str, value: String) -> (res: (String, String))
    ensures
        res.0@ == key@,
        res.1@ == value@,
{
    (crate::text::str_to_string(key), value)
}

/// An attribute pair from two literals.
pub fn attr_lit(key: &str, value: &str) -> (res: (String, String))
    ensures
        res.0@ == key@,
        res.1@ == value@,
{
    (crate::text::str_to_string(key), crate::text::str_to_string(value))
}

pub fn start_el(name: &str, attrs: Vec<(String, String)>) -> (res: XmlOut)
    ensures
        res@ == (XmlOutV::Start { name: name@, attrs: attrs_view(attrs@) }),
{
    XmlOut::Start { name: crate::text::str_to_string(name), attrs }
}

pub fn empty_el(name: &str, attrs: Vec<(String, String)>) -> (res: XmlOut)
    ensures
        res@ == (XmlOutV::Empty { name: name@, attrs: attrs_view(attrs@) }),
{
    XmlOut::Empty { name: crate::text::str_to_string(name), attrs }
}

pub fn end_el(name: &str) -> (res: XmlOut)
    ensures
        res@ == (XmlOutV::End { name: name@ }),
{
    XmlOut::End { name: crate::text::str_to_string(name) }
}

pub fn text_ev(text: String) -> (res: XmlOut)
    ensures
        res@ == (XmlOutV::Text { text: text@ }),
{
    XmlOut::Text { text }
}

} // verus!
