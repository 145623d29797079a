//! The package files of an HWPX archive other than header and sections:
//! container.xml, version.xml, content.hpf, and the embedded images.
use vstd::prelude::*;
use crate::error::HwpxError;
use crate::text::{after_last, ascii_lower, chars_vec, lower_seq, push_str, str_to_string, string_of, to_ascii_lower};
use crate::writer_section::lit;

verus! {

// ---------------------------------------------------------------------------
// XML escaping
// ---------------------------------------------------------------------------

/// The escape of one character in XML text.
pub open spec fn escape_char(c: char) -> Seq<char> {
    if c == '&' {
        "&amp;"@
    } else if c == '<' {
        "&lt;"@
    } else if c == '>' {
        "&gt;"@
    } else if c == '"' {
        "&quot;"@
    } else if c == '\'' {
        "&apos;"@
    } else {
        seq![c]
    }
}

/// `s` with `& < > " '` replaced by their entities.
pub open spec fn xml_escape(s: Seq<char>) -> Seq<char>
    decreases s.len(),
{
    if s.len() == 0 { Seq::empty() } else { xml_escape(s.drop_last()) + escape_char(s.last()) }
}

/// Minimal XML escaping for text nodes and attribute values.
pub fn xml_escape_content(s: &str) -> (res: String)
    ensures
        res@ == xml_escape(s@),
{
    let cs = chars_vec(s);
    let mut out = String::new();
    let mut i: usize = 0;
    while i < cs.len()
        invariant
            0 <= i <= cs.len(),
            cs@ == s@,
            out@ == xml_escape(cs@.take(i as int)),
        decreases cs.len() - i,
    {
        let c = cs[i];
        if c == '&' {
            push_str(&mut out, "&amp;");
        } else if c == '<' {
            push_str(&mut out, "&lt;");
        } else if c == '>' {
            push_str(&mut out, "&gt;");
        } else if c == '"' {
            push_str(&mut out, "&quot;");
        } else if c == '\'' {
            push_str(&mut out, "&apos;");
        } else {
            crate::text::push_char(&mut out, c);
        }
        assert(cs@.take(i + 1).drop_last() == cs@.take(i as int));
        i = i + 1;
    }
    assert(cs@.take(cs.len() as int) == cs@);
    out
}

/// XML text with the five entities of `xml_escape` read back.
pub open spec fn xml_unescape(s: Seq<char>) -> Seq<char>
    decreases s.len(),
{
    if s.len() == 0 {
        Seq::empty()
    } else if s.len() >= 5 && s.subrange(0, 5) == "&amp;"@ {
        seq!['&'] + xml_unescape(s.subrange(5, s.len() as int))
    } else if s.len() >= 4 && s.subrange(0, 4) == "&lt;"@ {
        seq!['<'] + xml_unescape(s.subrange(4, s.len() as int))
    } else if s.len() >= 4 && s.subrange(0, 4) == "&gt;"@ {
        seq!['>'] + xml_unescape(s.subrange(4, s.len() as int))
    } else if s.len() >= 6 && s.subrange(0, 6) == "&quot;"@ {
        seq!['"'] + xml_unescape(s.subrange(6, s.len() as int))
    } else if s.len() >= 6 && s.subrange(0, 6) == "&apos;"@ {
        seq!['\''] + xml_unescape(s.subrange(6, s.len() as int))
    } else {
        seq![s[0]] + xml_unescape(s.drop_first())
    }
}

proof fn lemma_xml_escape_cons(c: char, t: Seq<char>)
    ensures
        xml_escape(seq![c] + t) == escape_char(c) + xml_escape(t),
    decreases t.len(),
{
    if t.len() == 0 {
        assert(seq![c] + t == seq![c]);
        assert(seq![c].drop_last() == Seq::<char>::empty());
        assert(xml_escape(seq![c]) == xml_escape(Seq::<char>::empty()) + escape_char(c));
        assert(xml_escape(Seq::<char>::empty()) + escape_char(c) =~= escape_char(c));
        assert(escape_char(c) + xml_escape(t) =~= escape_char(c));
    } else {
        assert((seq![c] + t).drop_last() == seq![c] + t.drop_last());
        assert((seq![c] + t).last() == t.last());
        lemma_xml_escape_cons(c, t.drop_last());
        assert((escape_char(c) + xml_escape(t.drop_last())) + escape_char(t.last())
            =~= escape_char(c) + (xml_escape(t.drop_last()) + escape_char(t.last())));
    }
}

proof fn lemma_unescape_entity(e: Seq<char>, r: Seq<char>, c: char)
    requires
        e == escape_char(c),
    ensures
        xml_unescape(e + r) == seq![c] + xml_unescape(r),
{
    reveal_strlit("&amp;");
    reveal_strlit("&lt;");
    reveal_strlit("&gt;");
    reveal_strlit("&quot;");
    reveal_strlit("&apos;");
    let s = e + r;
    if c == '&' {
        assert(s.subrange(0, 5) =~= "&amp;"@);
        assert(s.subrange(5, s.len() as int) =~= r);
    } else if c == '<' {
        if s.len() >= 5 {
            assert(s.subrange(0, 5)[1] != "&amp;"@[1]);
        }
        assert(s.subrange(0, 4) =~= "&lt;"@);
        assert(s.subrange(4, s.len() as int) =~= r);
    } else if c == '>' {
        if s.len() >= 5 {
            assert(s.subrange(0, 5)[1] != "&amp;"@[1]);
        }
        assert(s.subrange(0, 4)[1] != "&lt;"@[1]);
        assert(s.subrange(0, 4) =~= "&gt;"@);
        assert(s.subrange(4, s.len() as int) =~= r);
    } else if c == '"' {
        assert(s.subrange(0, 5)[1] != "&amp;"@[1]);
        assert(s.subrange(0, 4)[1] != "&lt;"@[1]);
        assert(s.subrange(0, 4)[1] != "&gt;"@[1]);
        assert(s.subrange(0, 6) =~= "&quot;"@);
        assert(s.subrange(6, s.len() as int) =~= r);
    } else if c == '\'' {
        assert(s.subrange(0, 5)[2] != "&amp;"@[2]);
        assert(s.subrange(0, 4)[1] != "&lt;"@[1]);
        assert(s.subrange(0, 4)[1] != "&gt;"@[1]);
        assert(s.subrange(0, 6)[1] != "&quot;"@[1]);
        assert(s.subrange(0, 6) =~= "&apos;"@);
        assert(s.subrange(6, s.len() as int) =~= r);
    } else {
        assert(s[0] == c);
        if s.len() >= 5 {
            assert(s.subrange(0, 5)[0] != "&amp;"@[0]);
        }
        if s.len() >= 4 {
            assert(s.subrange(0, 4)[0] != "&lt;"@[0]);
            assert(s.subrange(0, 4)[0] != "&gt;"@[0]);
        }
        if s.len() >= 6 {
            assert(s.subrange(0, 6)[0] != "&quot;"@[0]);
            assert(s.subrange(0, 6)[0] != "&apos;"@[0]);
        }
        assert(s.drop_first() =~= r);
    }
}

/// Escaping loses nothing: reading the five entities back gives the text.
pub proof fn law_xml_escape_reversible(s: Seq<char>)
    ensures
        xml_unescape(xml_escape(s)) == s,
    decreases s.len(),
{
    if s.len() > 0 {
        let t = s.drop_first();
        assert(s == seq![s[0]] + t);
        lemma_xml_escape_cons(s[0], t);
        lemma_unescape_entity(escape_char(s[0]), xml_escape(t), s[0]);
        law_xml_escape_reversible(t);
    }
}

// ---------------------------------------------------------------------------
// Fixed package files
// ---------------------------------------------------------------------------

pub open spec fn container_xml() -> Seq<char> {
    "<?xml version=\"1.0\" encoding=\"UTF-8\"?>\n<container version=\"1.0\">\n  <rootfiles>\n    <rootfile full-path=\"Contents/content.hpf\" media-type=\"application/hwp+xml\"/>\n  </rootfiles>\n</container>"@
}

pub open spec fn version_xml() -> Seq<char> {
    "<?xml version=\"1.0\" encoding=\"UTF-8\"?>\n<hh:HWPCompatibleDocument xmlns:hh=\"http://www.hancom.co.kr/hwpml/2011/head\" version=\"1.1\">\n  <hh:DocInfo>\n    <hh:HWPVersion Major=\"5\" Minor=\"1\" Micro=\"0\" Build=\"0\"/>\n  </hh:DocInfo>\n</hh:HWPCompatibleDocument>"@
}

/// META-INF/container.xml: points at the package manifest.
pub fn generate_container_xml() -> (res: String)
    ensures
        res@ == container_xml(),
{
    lit("<?xml version=\"1.0\" encoding=\"UTF-8\"?>\n<container version=\"1.0\">\n  <rootfiles>\n    <rootfile full-path=\"Contents/content.hpf\" media-type=\"application/hwp+xml\"/>\n  </rootfiles>\n</container>")
}

/// version.xml: the HWP version the package claims.
pub fn generate_version_xml() -> (res: String)
    ensures
        res@ == version_xml(),
{
    lit("<?xml version=\"1.0\" encoding=\"UTF-8\"?>\n<hh:HWPCompatibleDocument xmlns:hh=\"http://www.hancom.co.kr/hwpml/2011/head\" version=\"1.1\">\n  <hh:DocInfo>\n    <hh:HWPVersion Major=\"5\" Minor=\"1\" Micro=\"0\" Build=\"0\"/>\n  </hh:DocInfo>\n</hh:HWPCompatibleDocument>")
}

// ---------------------------------------------------------------------------
// MIME types
// ---------------------------------------------------------------------------

/// The MIME type for a file extension (already lower-cased).
pub open spec fn mime_of_ext(ext: Seq<char>) -> Seq<char> {
    if ext == "png"@ {
        "image/png"@
    } else if ext == "jpg"@ || ext == "jpeg"@ {
        "image/jpeg"@
    } else if ext == "gif"@ {
        "image/gif"@
    } else if ext == "bmp"@ {
        "image/bmp"@
    } else if ext == "svg"@ {
        "image/svg+xml"@
    } else if ext == "webp"@ {
        "image/webp"@
    } else {
        "application/octet-stream"@
    }
}

/// The MIME type of a path by its extension: the text after the last `.`
/// (the whole path when there is none), ASCII lower-cased.
pub open spec fn mime_of_path(path: Seq<char>) -> Seq<char> {
    mime_of_ext(lower_seq(after_last(path, '.')))
}

/// Infers the MIME type of a file path from its extension; unknown
/// extensions give `application/octet-stream`.
pub fn mime_from_extension(path: &str) -> (res: &'static str)
    ensures
        res@ == mime_of_path(path@),
{
    proof {
        reveal_strlit("png");
        reveal_strlit("jpg");
        reveal_strlit("jpeg");
        reveal_strlit("gif");
        reveal_strlit("bmp");
        reveal_strlit("svg");
        reveal_strlit("webp");
    }
    let cs = chars_vec(path);
    let ext = match crate::text::find_last(&cs, '.') {
        Some(k) => crate::text::sub_vec(&cs, k + 1, cs.len()),
        None => crate::text::sub_vec(&cs, 0, cs.len()),
    };
    assert(ext@ == after_last(path@, '.'));
    let low = to_ascii_lower(&ext);
    if crate::text::eq_str(&low, "png") {
        "image/png"
    } else if crate::text::eq_str(&low, "jpg") || crate::text::eq_str(&low, "jpeg") {
        "image/jpeg"
    } else if crate::text::eq_str(&low, "gif") {
        "image/gif"
    } else if crate::text::eq_str(&low, "bmp") {
        "image/bmp"
    } else if crate::text::eq_str(&low, "svg") {
        "image/svg+xml"
    } else if crate::text::eq_str(&low, "webp") {
        "image/webp"
    } else {
        "application/octet-stream"
    }
}

// ---------------------------------------------------------------------------
// Image sources
// ---------------------------------------------------------------------------

/// Where an image `src` points.
#[derive(Debug, Clone, PartialEq)]
pub enum ImageSource {
    /// A local file path (not a URL, not a data URI).
    FilePath(String),
    /// A `data:image/<subtype>;base64,<payload>` URI.
    DataUri { subtype: String, payload: String },
    /// An HTTP or HTTPS URL, which is not embedded.
    RemoteUrl,
}

pub ghost enum ImageSourceV {
    FilePath(Seq<char>),
    DataUri { subtype: Seq<char>, payload: Seq<char> },
    RemoteUrl,
}

impl View for ImageSource {
    type V = ImageSourceV;

    open spec fn view(&self) -> ImageSourceV {
        match self {
            ImageSource::FilePath(p) => ImageSourceV::FilePath(p@),
            ImageSource::DataUri { subtype, payload } => ImageSourceV::DataUri { subtype: subtype@, payload: payload@ },
            ImageSource::RemoteUrl => ImageSourceV::RemoteUrl,
        }
    }
}

/// How an image `src` is classified: `http://` and `https://` URLs are
/// remote; `data:image/<subtype>;base64,<payload>` (split at the first comma)
/// is a data URI; anything else is a file path.
pub open spec fn classify(src: Seq<char>) -> ImageSourceV {
    if crate::text::starts_with(src, "http://"@) || crate::text::starts_with(src, "https://"@) {
        ImageSourceV::RemoteUrl
    } else if crate::text::starts_with(src, "data:image/"@) {
        let rest = src.subrange(11, src.len() as int);
        match crate::text::first_index_of(rest, ',') {
            Some(k) => {
                let head = rest.subrange(0, k);
                if crate::text::ends_with(head, ";base64"@) {
                    ImageSourceV::DataUri {
                        subtype: head.subrange(0, head.len() - 7),
                        payload: rest.subrange(k + 1, rest.len() as int),
                    }
                } else {
                    ImageSourceV::FilePath(src)
                }
            },
            None => ImageSourceV::FilePath(src),
        }
    } else {
        ImageSourceV::FilePath(src)
    }
}

/// Classifies an image `src` string.
pub fn classify_image_src(src: &str) -> (res: ImageSource)
    ensures
        res@ == classify(src@),
{
    proof {
        reveal_strlit("data:image/");
        reveal_strlit(";base64");
    }
    let cs = chars_vec(src);
    if crate::text::seq_starts_with(&cs, "http://") || crate::text::seq_starts_with(&cs, "https://") {
        return ImageSource::RemoteUrl;
    }
    if crate::text::seq_starts_with(&cs, "data:image/") {
        let rest = crate::text::sub_vec(&cs, 11, cs.len());
        match crate::text::find_first(&rest, ',') {
            Some(k) => {
                let head = crate::text::sub_vec(&rest, 0, k);
                if crate::text::seq_ends_with(&head, ";base64") {
                    let subtype = crate::text::sub_vec(&head, 0, head.len() - 7);
                    let payload = crate::text::sub_vec(&rest, k + 1, rest.len());
                    return ImageSource::DataUri { subtype: string_of(&subtype), payload: string_of(&payload) };
                }
            },
            None => {},
        }
    }
    ImageSource::FilePath(str_to_string(src))
}

// ---------------------------------------------------------------------------
// Base64
// ---------------------------------------------------------------------------

/// `char::is_whitespace`: the Unicode `White_Space` characters.
pub open spec fn is_ws(c: char) -> bool {
    ||| '\t' <= c <= '\r'
    ||| c == ' '
    ||| c == '\u{85}'
    ||| c == '\u{a0}'
    ||| c == '\u{1680}'
    ||| '\u{2000}' <= c <= '\u{200a}'
    ||| c == '\u{2028}'
    ||| c == '\u{2029}'
    ||| c == '\u{202f}'
    ||| c == '\u{205f}'
    ||| c == '\u{3000}'
}

pub open spec fn trim_start_ws(s: Seq<char>) -> Seq<char>
    decreases s.len(),
{
    if s.len() > 0 && is_ws(s[0]) { trim_start_ws(s.drop_first()) } else { s }
}

pub open spec fn trim_end_ws(s: Seq<char>) -> Seq<char>
    decreases s.len(),
{
    if s.len() > 0 && is_ws(s.last()) { trim_end_ws(s.drop_last()) } else { s }
}

/// `str::trim`.
pub open spec fn trim_ws(s: Seq<char>) -> Seq<char> {
    trim_end_ws(trim_start_ws(s))
}

fn is_ws_char(c: char) -> (res: bool)
    ensures
        res == is_ws(c),
{
    ('\t' <= c && c <= '\r') || c == ' ' || c == '\u{85}' || c == '\u{a0}' || c == '\u{1680}'
        || ('\u{2000}' <= c && c <= '\u{200a}') || c == '\u{2028}' || c == '\u{2029}'
        || c == '\u{202f}' || c == '\u{205f}' || c == '\u{3000}'
}

/// `s` without leading and trailing white space.
pub fn trim_chars(s: &Vec<char>) -> (res: Vec<char>)
    ensures
        res@ == trim_ws(s@),
{
    let n = s.len();
    let mut i: usize = 0;
    assert(s@.subrange(0, n as int) == s@);
    while i < n && is_ws_char(s[i])
        invariant
            0 <= i <= n,
            n == s.len(),
            trim_start_ws(s@) == trim_start_ws(s@.subrange(i as int, n as int)),
        decreases n - i,
    {
        assert(s@.subrange(i as int, n as int).drop_first() == s@.subrange(i + 1, n as int));
        i = i + 1;
    }
    let mut j: usize = n;
    while j > i && is_ws_char(s[j - 1])
        invariant
            i <= j <= n,
            n == s.len(),
            trim_end_ws(trim_start_ws(s@)) == trim_end_ws(s@.subrange(i as int, j as int)),
            i == n || !is_ws(s@[i as int]),
        decreases j,
    {
        assert(s@.subrange(i as int, j as int).drop_last() == s@.subrange(i as int, j - 1));
        j = j - 1;
    }
    crate::text::sub_vec(s, i, j)
}

/// `u8::is_ascii_whitespace`.
pub open spec fn is_ascii_ws(b: u8) -> bool {
    b == 32 || b == 9 || b == 10 || b == 12 || b == 13
}

/// The bytes that take part in decoding: all but ASCII white space and `=`.
pub open spec fn b64_clean(b: Seq<u8>) -> Seq<u8>
    decreases b.len(),
{
    if b.len() == 0 {
        Seq::empty()
    } else if is_ascii_ws(b.last()) || b.last() == 61 {
        b64_clean(b.drop_last())
    } else {
        b64_clean(b.drop_last()).push(b.last())
    }
}

/// The value of a byte in the standard alphabet, -1 when it has none.
pub open spec fn b64_val(b: u8) -> int {
    if 65 <= b <= 90 {
        b - 65
    } else if 97 <= b <= 122 {
        b - 97 + 26
    } else if 48 <= b <= 57 {
        b - 48 + 52
    } else if b == 43 {
        62
    } else if b == 47 {
        63
    } else {
        -1
    }
}

pub open spec fn b64_ok(c: Seq<u8>, i: int, n: int) -> bool {
    forall|j: int| i <= j < i + n ==> b64_val(#[trigger] c[j]) >= 0
}

pub open spec fn byte0(a: int, b: int) -> u8 {
    (a * 4 + b / 16) as u8
}

pub open spec fn byte1(b: int, c: int) -> u8 {
    ((b % 16) * 16 + c / 4) as u8
}

pub open spec fn byte2(c: int, d: int) -> u8 {
    ((c % 4) * 64 + d) as u8
}

/// The first `k` groups of four, or `None` when one holds a byte outside
/// the alphabet.
pub open spec fn b64_groups(c: Seq<u8>, k: nat) -> Option<Seq<u8>>
    decreases k,
{
    if k == 0 {
        Some(Seq::empty())
    } else {
        match b64_groups(c, (k - 1) as nat) {
            Some(o) => {
                let i = 4 * (k - 1);
                if b64_ok(c, i, 4) {
                    let (a, b, x, d) = (b64_val(c[i]), b64_val(c[i + 1]), b64_val(c[i + 2]), b64_val(c[i + 3]));
                    Some(o + seq![byte0(a, b), byte1(b, x), byte2(x, d)])
                } else {
                    None
                }
            },
            None => None,
        }
    }
}

/// Decoding of cleaned bytes: whole groups, then a trailing group of two
/// (one byte) or three (two bytes); a single trailing byte is ignored.
pub open spec fn b64_decode_clean(c: Seq<u8>) -> Option<Seq<u8>> {
    let k = c.len() / 4;
    let i: int = (4 * k) as int;
    let rem = c.len() % 4;
    match b64_groups(c, k) {
        Some(o) => if rem == 2 {
            if b64_ok(c, i as int, 2) {
                Some(o.push(byte0(b64_val(c[i]), b64_val(c[i + 1]))))
            } else {
                None
            }
        } else if rem == 3 {
            if b64_ok(c, i as int, 3) {
                Some(o + seq![
                    byte0(b64_val(c[i]), b64_val(c[i + 1])),
                    byte1(b64_val(c[i + 1]), b64_val(c[i + 2])),
                ])
            } else {
                None
            }
        } else {
            Some(o)
        },
        None => None,
    }
}

/// What `base64_decode` yields for `input`: the UTF-8 bytes of the trimmed
/// input, cleaned and decoded.
pub open spec fn b64_decode(input: Seq<char>) -> Option<Seq<u8>> {
    b64_decode_clean(b64_clean(vstd::utf8::encode_utf8(trim_ws(input))))
}

// What decoding promises: the standard encoding reads back.

/// The character of a 6-bit value in the standard alphabet.
pub open spec fn b64_char(v: int) -> char {
    if v < 26 {
        ('A' as int + v) as char
    } else if v < 52 {
        ('a' as int + (v - 26)) as char
    } else if v < 62 {
        ('0' as int + (v - 52)) as char
    } else if v == 62 {
        '+'
    } else {
        '/'
    }
}

/// Standard base64 with `=` padding.
pub open spec fn b64_encode(d: Seq<u8>) -> Seq<char>
    decreases d.len(),
{
    if d.len() >= 3 {
        let (a, b, c) = (d[0] as int, d[1] as int, d[2] as int);
        seq![b64_char(a / 4), b64_char((a % 4) * 16 + b / 16), b64_char((b % 16) * 4 + c / 64), b64_char(c % 64)]
            + b64_encode(d.subrange(3, d.len() as int))
    } else if d.len() == 2 {
        let (a, b) = (d[0] as int, d[1] as int);
        seq![b64_char(a / 4), b64_char((a % 4) * 16 + b / 16), b64_char((b % 16) * 4), '=']
    } else if d.len() == 1 {
        let a = d[0] as int;
        seq![b64_char(a / 4), b64_char((a % 4) * 16), '=', '=']
    } else {
        Seq::empty()
    }
}

/// A character that the standard encoding writes: the alphabet or `=`.
pub open spec fn is_b64_out(c: char) -> bool {
    ||| 'A' <= c <= 'Z'
    ||| 'a' <= c <= 'z'
    ||| '0' <= c <= '9'
    ||| c == '+'
    ||| c == '/'
    ||| c == '='
}

proof fn lemma_b64_char_out(v: int)
    requires
        0 <= v < 64,
    ensures
        is_b64_out(b64_char(v)),
        b64_char(v) != '=',
        b64_val(b64_char(v) as u8) == v,
{
}

proof fn lemma_b64_encode_chars(d: Seq<u8>)
    ensures
        forall|i: int| 0 <= i < b64_encode(d).len() ==> is_b64_out(#[trigger] b64_encode(d)[i]),
    decreases d.len(),
{
    if d.len() >= 3 {
        let (a, b, c) = (d[0] as int, d[1] as int, d[2] as int);
        lemma_b64_char_out(a / 4);
        lemma_b64_char_out((a % 4) * 16 + b / 16);
        lemma_b64_char_out((b % 16) * 4 + c / 64);
        lemma_b64_char_out(c % 64);
        let rest = d.subrange(3, d.len() as int);
        lemma_b64_encode_chars(rest);
        let q = seq![b64_char(a / 4), b64_char((a % 4) * 16 + b / 16), b64_char((b % 16) * 4 + c / 64), b64_char(c % 64)];
        let e = b64_encode(d);
        assert(e == q + b64_encode(rest));
        assert forall|i: int| 0 <= i < e.len() implies is_b64_out(#[trigger] e[i]) by {
            if i >= 4 {
                assert(e[i] == b64_encode(rest)[i - 4]);
            }
        }
    } else if d.len() == 2 {
        let (a, b) = (d[0] as int, d[1] as int);
        lemma_b64_char_out(a / 4);
        lemma_b64_char_out((a % 4) * 16 + b / 16);
        lemma_b64_char_out((b % 16) * 4);
    } else if d.len() == 1 {
        let a = d[0] as int;
        lemma_b64_char_out(a / 4);
        lemma_b64_char_out((a % 4) * 16);
    }
}

pub open spec fn ascii_bytes(s: Seq<char>) -> Seq<u8> {
    s.map_values(|c: char| c as u8)
}

proof fn lemma_b64_clean_concat(x: Seq<u8>, y: Seq<u8>)
    ensures
        b64_clean(x + y) == b64_clean(x) + b64_clean(y),
    decreases y.len(),
{
    if y.len() == 0 {
        assert(x + y == x);
        assert(b64_clean(x) + b64_clean(y) =~= b64_clean(x));
    } else {
        assert((x + y).drop_last() == x + y.drop_last());
        assert((x + y).last() == y.last());
        lemma_b64_clean_concat(x, y.drop_last());
        if !(is_ascii_ws(y.last()) || y.last() == 61) {
            assert(b64_clean(x) + b64_clean(y.drop_last()).push(y.last()) =~= (b64_clean(x) + b64_clean(y.drop_last())).push(y.last()));
        }
    }
}

/// The bytes of the encoding of `d` that decoding keeps (no `=`).
pub open spec fn b64_kept(d: Seq<u8>) -> Seq<u8>
    decreases d.len(),
{
    if d.len() >= 3 {
        let (a, b, c) = (d[0] as int, d[1] as int, d[2] as int);
        seq![b64_char(a / 4) as u8, b64_char((a % 4) * 16 + b / 16) as u8, b64_char((b % 16) * 4 + c / 64) as u8,
            b64_char(c % 64) as u8] + b64_kept(d.subrange(3, d.len() as int))
    } else if d.len() == 2 {
        let (a, b) = (d[0] as int, d[1] as int);
        seq![b64_char(a / 4) as u8, b64_char((a % 4) * 16 + b / 16) as u8, b64_char((b % 16) * 4) as u8]
    } else if d.len() == 1 {
        let a = d[0] as int;
        seq![b64_char(a / 4) as u8, b64_char((a % 4) * 16) as u8]
    } else {
        Seq::empty()
    }
}

proof fn lemma_clean_plain(q: Seq<char>)
    requires
        forall|i: int| 0 <= i < q.len() ==> is_b64_out(#[trigger] q[i]) && q[i] != '=',
    ensures
        b64_clean(ascii_bytes(q)) == ascii_bytes(q),
    decreases q.len(),
{
    if q.len() > 0 {
        assert(ascii_bytes(q).drop_last() =~= ascii_bytes(q.drop_last()));
        assert(ascii_bytes(q).last() == q.last() as u8);
        lemma_clean_plain(q.drop_last());
        assert(ascii_bytes(q.drop_last()).push(q.last() as u8) =~= ascii_bytes(q));
    }
}

proof fn lemma_clean_kept(d: Seq<u8>)
    ensures
        b64_clean(ascii_bytes(b64_encode(d))) == b64_kept(d),
    decreases d.len(),
{
    reveal_with_fuel(b64_clean, 3);
    if d.len() >= 3 {
        let (a, b, c) = (d[0] as int, d[1] as int, d[2] as int);
        let q = seq![b64_char(a / 4), b64_char((a % 4) * 16 + b / 16), b64_char((b % 16) * 4 + c / 64), b64_char(c % 64)];
        let rest = d.subrange(3, d.len() as int);
        lemma_b64_char_out(a / 4);
        lemma_b64_char_out((a % 4) * 16 + b / 16);
        lemma_b64_char_out((b % 16) * 4 + c / 64);
        lemma_b64_char_out(c % 64);
        assert(ascii_bytes(q + b64_encode(rest)) =~= ascii_bytes(q) + ascii_bytes(b64_encode(rest)));
        lemma_b64_clean_concat(ascii_bytes(q), ascii_bytes(b64_encode(rest)));
        lemma_clean_plain(q);
        lemma_clean_kept(rest);
        assert(ascii_bytes(q) =~= seq![b64_char(a / 4) as u8, b64_char((a % 4) * 16 + b / 16) as u8,
            b64_char((b % 16) * 4 + c / 64) as u8, b64_char(c % 64) as u8]);
    } else if d.len() == 2 {
        let (a, b) = (d[0] as int, d[1] as int);
        let q = seq![b64_char(a / 4), b64_char((a % 4) * 16 + b / 16), b64_char((b % 16) * 4)];
        lemma_b64_char_out(a / 4);
        lemma_b64_char_out((a % 4) * 16 + b / 16);
        lemma_b64_char_out((b % 16) * 4);
        assert(b64_encode(d) == q + seq!['=']);
        assert(ascii_bytes(q + seq!['=']) =~= ascii_bytes(q) + seq![61u8]);
        lemma_b64_clean_concat(ascii_bytes(q), seq![61u8]);
        assert(seq![61u8].drop_last() =~= Seq::<u8>::empty());
        lemma_clean_plain(q);
        assert(b64_clean(ascii_bytes(q)) + b64_clean(seq![61u8]) =~= ascii_bytes(q));
    } else if d.len() == 1 {
        let a = d[0] as int;
        let q = seq![b64_char(a / 4), b64_char((a % 4) * 16)];
        lemma_b64_char_out(a / 4);
        lemma_b64_char_out((a % 4) * 16);
        assert(b64_encode(d) == q + seq!['=', '=']);
        assert(ascii_bytes(q + seq!['=', '=']) =~= ascii_bytes(q) + seq![61u8, 61u8]);
        lemma_b64_clean_concat(ascii_bytes(q), seq![61u8, 61u8]);
        assert(seq![61u8, 61u8].drop_last() =~= seq![61u8]);
        assert(seq![61u8].drop_last() =~= Seq::<u8>::empty());
        lemma_clean_plain(q);
        assert(b64_clean(ascii_bytes(q)) + b64_clean(seq![61u8, 61u8]) =~= ascii_bytes(q));
    } else {
        assert(ascii_bytes(b64_encode(d)) =~= Seq::<u8>::empty());
    }
}

proof fn lemma_group_bytes(a: int, b: int, c: int)
    requires
        0 <= a < 256,
        0 <= b < 256,
        0 <= c < 256,
    ensures
        byte0(a / 4, (a % 4) * 16 + b / 16) == a,
        byte1((a % 4) * 16 + b / 16, (b % 16) * 4 + c / 64) == b,
        byte2((b % 16) * 4 + c / 64, c % 64) == c,
        byte1((a % 4) * 16 + b / 16, (b % 16) * 4) == b,
        byte0(a / 4, (a % 4) * 16) == a,
{
    assert(((a % 4) * 16 + b / 16) / 16 == a % 4);
    assert(((a % 4) * 16 + b / 16) % 16 == b / 16);
    assert(((b % 16) * 4 + c / 64) / 4 == b % 16);
    assert(((b % 16) * 4 + c / 64) % 4 == c / 64);
    assert(((b % 16) * 4) / 4 == b % 16);
    assert(((a % 4) * 16) / 16 == a % 4);
}

proof fn lemma_kept_len(d: Seq<u8>)
    ensures
        b64_kept(d).len() == 4 * (d.len() / 3) + (if d.len() % 3 == 0 { 0nat } else { d.len() % 3 + 1 }),
    decreases d.len(),
{
    if d.len() >= 3 {
        lemma_kept_len(d.subrange(3, d.len() as int));
    }
}

proof fn lemma_kept_group(d: Seq<u8>, j: int)
    requires
        0 <= j < d.len() / 3,
    ensures
        b64_kept(d)[4 * j] == b64_char(d[3 * j] as int / 4) as u8,
        b64_kept(d)[4 * j + 1] == b64_char((d[3 * j] as int % 4) * 16 + d[3 * j + 1] as int / 16) as u8,
        b64_kept(d)[4 * j + 2] == b64_char((d[3 * j + 1] as int % 16) * 4 + d[3 * j + 2] as int / 64) as u8,
        b64_kept(d)[4 * j + 3] == b64_char(d[3 * j + 2] as int % 64) as u8,
    decreases j,
{
    let (a, b, c) = (d[0] as int, d[1] as int, d[2] as int);
    let q = seq![b64_char(a / 4) as u8, b64_char((a % 4) * 16 + b / 16) as u8, b64_char((b % 16) * 4 + c / 64) as u8,
        b64_char(c % 64) as u8];
    let rest = d.subrange(3, d.len() as int);
    assert(b64_kept(d) == q + b64_kept(rest));
    lemma_kept_len(d);
    lemma_kept_len(rest);
    if j > 0 {
        lemma_kept_group(rest, j - 1);
        assert(rest[3 * (j - 1)] == d[3 * j]);
        assert(rest[3 * (j - 1) + 1] == d[3 * j + 1]);
        assert(rest[3 * (j - 1) + 2] == d[3 * j + 2]);
        assert(b64_kept(d)[4 * j] == b64_kept(rest)[4 * (j - 1)]);
        assert(b64_kept(d)[4 * j + 1] == b64_kept(rest)[4 * (j - 1) + 1]);
        assert(b64_kept(d)[4 * j + 2] == b64_kept(rest)[4 * (j - 1) + 2]);
        assert(b64_kept(d)[4 * j + 3] == b64_kept(rest)[4 * (j - 1) + 3]);
    }
}

proof fn lemma_kept_tail(d: Seq<u8>)
    requires
        d.len() % 3 != 0,
    ensures
        ({
            let i: int = 4 * (d.len() / 3) as int;
            let t: int = 3 * (d.len() / 3) as int;
            &&& b64_kept(d)[i] == b64_char(d[t] as int / 4) as u8
            &&& d.len() % 3 == 1 ==> b64_kept(d)[i + 1] == b64_char((d[t] as int % 4) * 16) as u8
            &&& d.len() % 3 == 2 ==> b64_kept(d)[i + 1] == b64_char((d[t] as int % 4) * 16 + d[t + 1] as int / 16) as u8
            &&& d.len() % 3 == 2 ==> b64_kept(d)[i + 2] == b64_char((d[t + 1] as int % 16) * 4) as u8
        }),
    decreases d.len(),
{
    let i: int = 4 * (d.len() / 3) as int;
    let t: int = 3 * (d.len() / 3) as int;
    if d.len() >= 3 {
        let (a, b, c) = (d[0] as int, d[1] as int, d[2] as int);
        let q = seq![b64_char(a / 4) as u8, b64_char((a % 4) * 16 + b / 16) as u8, b64_char((b % 16) * 4 + c / 64) as u8,
            b64_char(c % 64) as u8];
        let rest = d.subrange(3, d.len() as int);
        assert(b64_kept(d) == q + b64_kept(rest));
        lemma_kept_len(d);
        lemma_kept_len(rest);
        lemma_kept_tail(rest);
        assert(rest.len() / 3 == d.len() / 3 - 1);
        assert(rest[t - 3] == d[t]);
        assert(b64_kept(d)[i] == b64_kept(rest)[i - 4]);
        if d.len() % 3 == 1 {
            assert(b64_kept(d)[i + 1] == b64_kept(rest)[i - 3]);
        }
        if d.len() % 3 == 2 {
            assert(rest[t - 2] == d[t + 1]);
            assert(b64_kept(d)[i + 1] == b64_kept(rest)[i - 3]);
            assert(b64_kept(d)[i + 2] == b64_kept(rest)[i - 2]);
        }
    }
}

proof fn lemma_groups_read_back(d: Seq<u8>, k: nat)
    requires
        k <= d.len() / 3,
    ensures
        b64_groups(b64_kept(d), k) == Some(d.take((3 * k) as int)),
    decreases k,
{
    lemma_kept_len(d);
    if k > 0 {
        lemma_groups_read_back(d, (k - 1) as nat);
        let j = k - 1;
        let c = b64_kept(d);
        let (a, b, x) = (d[3 * j] as int, d[3 * j + 1] as int, d[3 * j + 2] as int);
        lemma_kept_group(d, j as int);
        lemma_b64_char_out(a / 4);
        lemma_b64_char_out((a % 4) * 16 + b / 16);
        lemma_b64_char_out((b % 16) * 4 + x / 64);
        lemma_b64_char_out(x % 64);
        lemma_group_bytes(a, b, x);
        assert(b64_ok(c, 4 * j, 4));
        assert(d.take((3 * j) as int) + seq![d[3 * j], d[3 * j + 1], d[3 * j + 2]] =~= d.take((3 * k) as int));
    } else {
        assert(d.take(0) =~= Seq::<u8>::empty());
    }
}

proof fn lemma_kept_reads_back(d: Seq<u8>)
    ensures
        b64_decode_clean(b64_kept(d)) == Some(d),
{
    let c = b64_kept(d);
    let k = d.len() / 3;
    lemma_kept_len(d);
    assert(c.len() / 4 == k);
    lemma_groups_read_back(d, k);
    let i: int = 4 * k as int;
    let t: int = 3 * k as int;
    if d.len() % 3 == 0 {
        assert(d.take((3 * k) as int) =~= d);
    } else {
        lemma_kept_tail(d);
        let a = d[t] as int;
        if d.len() % 3 == 1 {
            lemma_b64_char_out(a / 4);
            lemma_b64_char_out((a % 4) * 16);
            lemma_group_bytes(a, 0, 0);
            assert(b64_ok(c, i as int, 2));
            assert(d.take((3 * k) as int).push(d[t]) =~= d);
        } else {
            let b = d[t + 1] as int;
            lemma_b64_char_out(a / 4);
            lemma_b64_char_out((a % 4) * 16 + b / 16);
            lemma_b64_char_out((b % 16) * 4);
            lemma_group_bytes(a, b, 0);
            assert(b64_ok(c, i as int, 3));
            assert(d.take((3 * k) as int) + seq![d[t], d[t + 1]] =~= d);
        }
    }
}

/// Decoding reads back what the standard base64 encoding (with `=`
/// padding) writes, byte for byte.
pub proof fn law_base64_reads_back(d: Seq<u8>)
    ensures
        b64_decode(b64_encode(d)) == Some(d),
{
    let e = b64_encode(d);
    lemma_b64_encode_chars(d);
    assert(vstd::utf8::is_ascii_chars(e));
    vstd::utf8::is_ascii_chars_encode_utf8(e);
    if e.len() > 0 {
        assert(!is_ws(e[0]));
        assert(!is_ws(e.last()));
    }
    assert(trim_start_ws(e) == e);
    assert(trim_end_ws(e) == e);
    assert(vstd::utf8::encode_utf8(e) =~= ascii_bytes(e));
    lemma_clean_kept(d);
    lemma_kept_reads_back(d);
}

/// ASCII white space as it may stand between the characters of an encoding:
/// space, tab, line feed, form feed, carriage return.
pub open spec fn is_layout_ws(c: char) -> bool {
    c == ' ' || c == '\t' || c == '\n' || c == '\x0C' || c == '\r'
}

/// `s` with its ASCII layout white space taken out.
pub open spec fn without_layout_ws(s: Seq<char>) -> Seq<char>
    decreases s.len(),
{
    if s.len() == 0 {
        Seq::empty()
    } else if is_layout_ws(s.last()) {
        without_layout_ws(s.drop_last())
    } else {
        without_layout_ws(s.drop_last()).push(s.last())
    }
}

/// A character that an encoding with layout white space may hold.
spec fn spread_char(c: char) -> bool {
    is_layout_ws(c) || (is_b64_out(c) && c <= '\u{7f}' && !is_ws(c))
}

proof fn lemma_without_concat(a: Seq<char>, b: Seq<char>)
    ensures
        without_layout_ws(a + b) == without_layout_ws(a) + without_layout_ws(b),
    decreases b.len(),
{
    if b.len() == 0 {
        assert(a + b =~= a);
        assert(without_layout_ws(a) + without_layout_ws(b) =~= without_layout_ws(a));
    } else {
        assert((a + b).drop_last() =~= a + b.drop_last());
        assert((a + b).last() == b.last());
        lemma_without_concat(a, b.drop_last());
        if !is_layout_ws(b.last()) {
            assert(without_layout_ws(a) + without_layout_ws(b.drop_last()).push(b.last())
                =~= (without_layout_ws(a) + without_layout_ws(b.drop_last())).push(b.last()));
        }
    }
}

proof fn lemma_spread_chars(w: Seq<char>)
    requires
        forall|i: int| 0 <= i < without_layout_ws(w).len() ==> is_b64_out(#[trigger] without_layout_ws(w)[i]),
    ensures
        forall|i: int| 0 <= i < w.len() ==> spread_char(#[trigger] w[i]),
    decreases w.len(),
{
    if w.len() > 0 {
        let p = w.drop_last();
        if !is_layout_ws(w.last()) {
            assert(without_layout_ws(w) == without_layout_ws(p).push(w.last()));
            assert(is_b64_out(without_layout_ws(w)[without_layout_ws(p).len() as int]));
            assert forall|i: int| 0 <= i < without_layout_ws(p).len() implies is_b64_out(#[trigger] without_layout_ws(p)[i]) by {
                assert(without_layout_ws(w)[i] == without_layout_ws(p)[i]);
            }
        } else {
            assert(without_layout_ws(w) == without_layout_ws(p));
        }
        lemma_spread_chars(p);
        assert forall|i: int| 0 <= i < w.len() implies spread_char(#[trigger] w[i]) by {
            if i < w.len() - 1 {
                assert(w[i] == p[i]);
            }
        }
    }
}

proof fn lemma_trim_keeps_without(w: Seq<char>)
    requires
        forall|i: int| 0 <= i < w.len() ==> spread_char(#[trigger] w[i]),
    ensures
        without_layout_ws(trim_ws(w)) == without_layout_ws(w),
        forall|i: int| 0 <= i < trim_ws(w).len() ==> spread_char(#[trigger] trim_ws(w)[i]),
{
    lemma_trim_start_keeps(w);
    lemma_trim_end_keeps(trim_start_ws(w));
}

proof fn lemma_trim_start_keeps(w: Seq<char>)
    requires
        forall|i: int| 0 <= i < w.len() ==> spread_char(#[trigger] w[i]),
    ensures
        without_layout_ws(trim_start_ws(w)) == without_layout_ws(w),
        forall|i: int| 0 <= i < trim_start_ws(w).len() ==> spread_char(#[trigger] trim_start_ws(w)[i]),
    decreases w.len(),
{
    if w.len() > 0 && is_ws(w[0]) {
        let r = w.drop_first();
        assert(spread_char(w[0]));
        assert(is_layout_ws(w[0]));
        assert forall|i: int| 0 <= i < r.len() implies spread_char(#[trigger] r[i]) by {
            assert(r[i] == w[i + 1]);
        }
        lemma_trim_start_keeps(r);
        assert(w =~= seq![w[0]] + r);
        lemma_without_concat(seq![w[0]], r);
        assert(seq![w[0]].drop_last() =~= Seq::<char>::empty());
        assert(seq![w[0]].last() == w[0]);
        reveal_with_fuel(without_layout_ws, 2);
        assert(without_layout_ws(seq![w[0]]) =~= Seq::<char>::empty());
        assert(Seq::<char>::empty() + without_layout_ws(r) =~= without_layout_ws(r));
    }
}

proof fn lemma_trim_end_keeps(w: Seq<char>)
    requires
        forall|i: int| 0 <= i < w.len() ==> spread_char(#[trigger] w[i]),
    ensures
        without_layout_ws(trim_end_ws(w)) == without_layout_ws(w),
        forall|i: int| 0 <= i < trim_end_ws(w).len() ==> spread_char(#[trigger] trim_end_ws(w)[i]),
    decreases w.len(),
{
    if w.len() > 0 && is_ws(w.last()) {
        let p = w.drop_last();
        assert(spread_char(w[w.len() - 1]));
        assert forall|i: int| 0 <= i < p.len() implies spread_char(#[trigger] p[i]) by {
            assert(p[i] == w[i]);
        }
        lemma_trim_end_keeps(p);
    }
}

proof fn lemma_clean_without(x: Seq<char>)
    requires
        forall|i: int| 0 <= i < x.len() ==> spread_char(#[trigger] x[i]),
    ensures
        b64_clean(ascii_bytes(x)) == b64_clean(ascii_bytes(without_layout_ws(x))),
    decreases x.len(),
{
    if x.len() > 0 {
        let p = x.drop_last();
        let c = x.last();
        assert(spread_char(x[x.len() - 1]));
        assert forall|i: int| 0 <= i < p.len() implies spread_char(#[trigger] p[i]) by {
            assert(p[i] == x[i]);
        }
        lemma_clean_without(p);
        assert(ascii_bytes(x).drop_last() =~= ascii_bytes(p));
        assert(ascii_bytes(x).last() == c as u8);
        if is_layout_ws(c) {
            assert(is_ascii_ws(c as u8));
        } else {
            let q = without_layout_ws(p);
            assert(ascii_bytes(q.push(c)) =~= ascii_bytes(q).push(c as u8));
            assert(ascii_bytes(q).push(c as u8).drop_last() =~= ascii_bytes(q));
        }
    }
}

/// Decoding ignores ASCII white space between the characters of an
/// encoding: wherever spaces, tabs and line breaks are inserted into the
/// standard encoding of `d` (as in wrapped base64), it still decodes to `d`.
pub proof fn law_base64_ignores_white_space(d: Seq<u8>, w: Seq<char>)
    requires
        without_layout_ws(w) == b64_encode(d),
    ensures
        b64_decode(w) == Some(d),
{
    let e = b64_encode(d);
    lemma_b64_encode_chars(d);
    lemma_spread_chars(w);
    lemma_trim_keeps_without(w);
    let t = trim_ws(w);
    assert(vstd::utf8::is_ascii_chars(t)) by {
        assert forall|i: int| 0 <= i < t.len() implies '\0' <= #[trigger] t[i] <= '\u{7f}' by {
            assert(spread_char(t[i]));
        }
    }
    vstd::utf8::is_ascii_chars_encode_utf8(t);
    assert(vstd::utf8::encode_utf8(t) =~= ascii_bytes(t));
    lemma_clean_without(t);
    lemma_clean_kept(d);
    lemma_kept_reads_back(d);
}

proof fn lemma_b64_groups_none(c: Seq<u8>, j: nat, k: nat)
    requires
        j <= k,
        b64_groups(c, j) is None,
    ensures
        b64_groups(c, k) is None,
    decreases k,
{
    if k > j {
        lemma_b64_groups_none(c, j, (k - 1) as nat);
    }
}

fn b64_value(b: u8) -> (res: i32)
    ensures
        res == b64_val(b),
{
    if 65 <= b && b <= 90 {
        (b - 65) as i32
    } else if 97 <= b && b <= 122 {
        (b - 97 + 26) as i32
    } else if 48 <= b && b <= 57 {
        (b - 48 + 52) as i32
    } else if b == 43 {
        62
    } else if b == 47 {
        63
    } else {
        -1
    }
}

fn clean_bytes(b: &[u8]) -> (res: Vec<u8>)
    ensures
        res@ == b64_clean(b@),
{
    let mut out: Vec<u8> = Vec::new();
    let mut i: usize = 0;
    while i < b.len()
        invariant
            0 <= i <= b.len(),
            out@ == b64_clean(b@.take(i as int)),
        decreases b.len() - i,
    {
        let x = b[i];
        assert(b@.take(i + 1).drop_last() == b@.take(i as int));
        assert(b@.take(i + 1).last() == x);
        if !(x == 32 || x == 9 || x == 10 || x == 12 || x == 13 || x == 61) {
            out.push(x);
        }
        i = i + 1;
    }
    assert(b@.take(b.len() as int) == b@);
    out
}

fn invalid_b64() -> (res: HwpxError)
    ensures
        res is HwpxWrite,
{
    HwpxError::HwpxWrite(lit("invalid base64 character in data URI"))
}

fn b0(a: i32, b: i32) -> (res: u8)
    requires
        0 <= a < 64,
        0 <= b < 64,
    ensures
        res == byte0(a as int, b as int),
{
    (a * 4 + b / 16) as u8
}

fn b1(b: i32, c: i32) -> (res: u8)
    requires
        0 <= b < 64,
        0 <= c < 64,
    ensures
        res == byte1(b as int, c as int),
{
    ((b % 16) * 16 + c / 4) as u8
}

fn b2(c: i32, d: i32) -> (res: u8)
    requires
        0 <= c < 64,
        0 <= d < 64,
    ensures
        res == byte2(c as int, d as int),
{
    ((c % 4) * 64 + d) as u8
}

proof fn lemma_b64_val_range(b: u8)
    ensures
        -1 <= b64_val(b) < 64,
{
}

/// Decodes standard base64 (RFC 4648 alphabet), ignoring white space and
/// padding.
pub fn base64_decode(input: &str) -> (res: Result<Vec<u8>, HwpxError>)
    ensures
        match res {
            Ok(v) => b64_decode(input@) == Some(v@),
            Err(e) => b64_decode(input@) is None && e is HwpxWrite,
        },
{
    let cs = chars_vec(input);
    let t = string_of(&trim_chars(&cs));
    let c = clean_bytes(t.as_str().as_bytes());
    let ghost cv = c@;
    assert(cv == b64_clean(vstd::utf8::encode_utf8(trim_ws(input@))));
    let mut out: Vec<u8> = Vec::new();
    let mut i: usize = 0;
    while i + 3 < c.len()
        invariant
            0 <= i <= c.len(),
            i % 4 == 0,
            cv == c@,
            cv == b64_clean(vstd::utf8::encode_utf8(trim_ws(input@))),
            b64_groups(cv, (i / 4) as nat) == Some(out@),
        decreases c.len() - i,
    {
        proof {
            lemma_b64_val_range(c@[i as int]);
            lemma_b64_val_range(c@[i + 1]);
            lemma_b64_val_range(c@[i + 2]);
            lemma_b64_val_range(c@[i + 3]);
        }
        let a = b64_value(c[i]);
        let b = b64_value(c[i + 1]);
        let x = b64_value(c[i + 2]);
        let d = b64_value(c[i + 3]);
        let ghost k: nat = (i / 4) as nat;
        assert(4 * k == i);
        assert(((k + 1) - 1) as nat == k);
        if a < 0 || b < 0 || x < 0 || d < 0 {
            proof {
                assert(!b64_ok(cv, i as int, 4));
                assert(b64_groups(cv, k + 1) is None);
                lemma_b64_groups_none(cv, k + 1, cv.len() / 4);
            }
            return Err(invalid_b64());
        }
        let ghost o = out@;
        out.push(b0(a, b));
        out.push(b1(b, x));
        out.push(b2(x, d));
        assert(b64_ok(cv, i as int, 4));
        assert(out@ =~= o + seq![byte0(a as int, b as int), byte1(b as int, x as int), byte2(x as int, d as int)]);
        assert(b64_groups(cv, k + 1) == Some(out@));
        i = i + 4;
        assert(i / 4 == k + 1);
    }
    assert(i / 4 == c.len() / 4);
    let rem = c.len() - i;
    assert(rem == c.len() % 4);
    if rem == 2 {
        proof {
            lemma_b64_val_range(c@[i as int]);
            lemma_b64_val_range(c@[i + 1]);
        }
        let a = b64_value(c[i]);
        let b = b64_value(c[i + 1]);
        if a < 0 || b < 0 {
            assert(!b64_ok(cv, i as int, 2));
            return Err(invalid_b64());
        }
        out.push(b0(a, b));
    } else if rem == 3 {
        proof {
            lemma_b64_val_range(c@[i as int]);
            lemma_b64_val_range(c@[i + 1]);
            lemma_b64_val_range(c@[i + 2]);
        }
        let a = b64_value(c[i]);
        let b = b64_value(c[i + 1]);
        let x = b64_value(c[i + 2]);
        if a < 0 || b < 0 || x < 0 {
            assert(!b64_ok(cv, i as int, 3));
            return Err(invalid_b64());
        }
        let ghost o = out@;
        out.push(b0(a, b));
        out.push(b1(b, x));
        assert(out@ =~= o + seq![byte0(a as int, b as int), byte1(b as int, x as int)]);
    }
    Ok(out)
}

// ---------------------------------------------------------------------------
// Paths
// ---------------------------------------------------------------------------

/// The final component of `path` as `std::path::Path::file_name` reads it,
/// as text.  The path syntax is that of the target the crate is built for
/// (here Unix: `/` separates components), so the result depends on the text
/// alone.
pub uninterp spec fn path_file_name(path: Seq<char>) -> Option<Seq<char>>;

/// `Path::file_stem` of `path` as text (the target's path syntax, as for
/// `path_file_name`).
pub uninterp spec fn path_file_stem(path: Seq<char>) -> Option<Seq<char>>;

/// `std::path::Path::new(path).file_name()`, converted with
/// `to_string_lossy` (which changes nothing in a name cut from UTF-8 text).
/// The contract names the result: it is a function of the path text.
#[verifier::external_body]
fn file_name_of(path: &str) -> (res: Option<String>)
    ensures
        crate::ir::opt_str_view(res) == path_file_name(path@),
{
    match std::path::Path::new(path).file_name() {
        Some(n) => Some(n.to_string_lossy().into_owned()),
        None => None,
    }
}

/// `std::path::Path::new(path).file_stem()`, converted as `file_name_of`.
/// The contract names the result: it is a function of the path text.
#[verifier::external_body]
fn file_stem_of(path: &str) -> (res: Option<String>)
    ensures
        crate::ir::opt_str_view(res) == path_file_stem(path@),
{
    match std::path::Path::new(path).file_stem() {
        Some(n) => Some(n.to_string_lossy().into_owned()),
        None => None,
    }
}

// ---------------------------------------------------------------------------
// Image assets
// ---------------------------------------------------------------------------

/// An image ready to be written into the archive.
#[derive(Debug, Clone, PartialEq)]
pub struct ResolvedAsset {
    /// The bare file name of the `BinData/` entry (e.g. `photo.png`).
    pub entry_name: String,
    /// The image bytes.
    pub data: Vec<u8>,
    /// MIME type (e.g. `image/png`).
    pub mime_type: String,
}

pub ghost struct ResolvedAssetV {
    pub entry_name: Seq<char>,
    pub data: Seq<u8>,
    pub mime_type: Seq<char>,
}

impl View for ResolvedAsset {
    type V = ResolvedAssetV;

    open spec fn view(&self) -> ResolvedAssetV {
        ResolvedAssetV { entry_name: self.entry_name@, data: self.data@, mime_type: self.mime_type@ }
    }
}

pub open spec fn resolved_view(rs: Seq<ResolvedAsset>) -> Seq<ResolvedAssetV> {
    rs.map_values(|r: ResolvedAsset| r@)
}

pub open spec fn entry_names(rs: Seq<ResolvedAssetV>) -> Seq<Seq<char>> {
    rs.map_values(|r: ResolvedAssetV| r.entry_name)
}

/// The contents of the files that could be read, by path.
pub type FileContents = Vec<(String, Vec<u8>)>;

pub open spec fn files_view(f: Seq<(String, Vec<u8>)>) -> Seq<(Seq<char>, Seq<u8>)> {
    f.map_values(|p: (String, Vec<u8>)| (p.0@, p.1@))
}

/// The first file read from `path`, if any.
pub open spec fn file_get(files: Seq<(Seq<char>, Seq<u8>)>, path: Seq<char>) -> Option<Seq<u8>>
    decreases files.len(),
{
    if files.len() == 0 {
        None
    } else if files[0].0 == path {
        Some(files[0].1)
    } else {
        file_get(files.drop_first(), path)
    }
}

/// A candidate name with a numeric suffix before the extension.
pub open spec fn suffixed(stem: Seq<char>, ext: Seq<char>, n: nat) -> Seq<char> {
    stem + "_"@ + crate::text::dec_chars(n) + ext
}

/// The first suffixed name from `n` on that is free; the search stops at 10000.
pub open spec fn first_free(stem: Seq<char>, ext: Seq<char>, names: Seq<Seq<char>>, n: nat) -> Seq<char>
    decreases 10000 - n,
{
    if !names.contains(suffixed(stem, ext, n)) || n >= 10000 {
        suffixed(stem, ext, n)
    } else {
        first_free(stem, ext, names, n + 1)
    }
}

/// `preferred` when it is free, else `stem_N.ext` with the smallest free
/// `N >= 2` (the split is at the last `.`).
pub open spec fn unique_name(preferred: Seq<char>, names: Seq<Seq<char>>) -> Seq<char> {
    if !names.contains(preferred) {
        preferred
    } else {
        match crate::text::last_index_of(preferred, '.') {
            Some(i) => first_free(
                preferred.subrange(0, i),
                "."@ + preferred.subrange(i + 1, preferred.len() as int),
                names,
                2,
            ),
            None => first_free(preferred, Seq::empty(), names, 2),
        }
    }
}

proof fn lemma_suffixed_injective(stem: Seq<char>, ext: Seq<char>, a: nat, b: nat)
    requires
        suffixed(stem, ext, a) == suffixed(stem, ext, b),
    ensures
        a == b,
{
    reveal_strlit("_");
    let da = crate::text::dec_chars(a);
    let db = crate::text::dec_chars(b);
    let x = suffixed(stem, ext, a);
    let y = suffixed(stem, ext, b);
    assert(x.len() == stem.len() + 1 + da.len() + ext.len());
    assert(y.len() == stem.len() + 1 + db.len() + ext.len());
    let lo = stem.len() + 1;
    assert(x.subrange(lo as int, (lo + da.len()) as int) =~= da);
    assert(y.subrange(lo as int, (lo + db.len()) as int) =~= db);
    crate::text::lemma_dec_chars_digits(a);
    crate::text::lemma_dec_chars_digits(b);
}

proof fn lemma_first_free_taken(stem: Seq<char>, ext: Seq<char>, names: Seq<Seq<char>>, n: nat, k: nat)
    requires
        n <= k <= 10000,
        names.contains(first_free(stem, ext, names, n)),
    ensures
        names.contains(suffixed(stem, ext, k)),
    decreases 10000 - n,
{
    if names.contains(suffixed(stem, ext, n)) && n < 10000 && k > n {
        lemma_first_free_taken(stem, ext, names, n + 1, k);
    }
}

proof fn lemma_first_free_is_free(stem: Seq<char>, ext: Seq<char>, names: Seq<Seq<char>>)
    requires
        names.len() < 9999,
    ensures
        !names.contains(first_free(stem, ext, names, 2)),
{
    broadcast use vstd::seq_lib::seq_to_set_is_finite;
    if names.contains(first_free(stem, ext, names, 2)) {
        let cands = Seq::new(9999, |i: int| suffixed(stem, ext, (i + 2) as nat));
        assert forall|i: int, j: int| 0 <= i < cands.len() && 0 <= j < cands.len() && i != j implies cands[i] != cands[j] by {
            if cands[i] == cands[j] {
                lemma_suffixed_injective(stem, ext, (i + 2) as nat, (j + 2) as nat);
            }
        }
        assert(cands.no_duplicates());
        cands.unique_seq_to_set();
        assert forall|x: Seq<char>| cands.to_set().contains(x) implies names.to_set().contains(x) by {
            let i = choose|i: int| 0 <= i < cands.len() && cands[i] == x;
            lemma_first_free_taken(stem, ext, names, 2, (i + 2) as nat);
        }
        vstd::set_lib::lemma_len_subset(cands.to_set(), names.to_set());
        names.lemma_cardinality_of_set();
    }
}

/// The name chosen for a new `BinData/` entry is one that no earlier entry
/// uses, as long as fewer than 9999 names are taken (the search for a free
/// numbered name stops at 10000).
pub proof fn law_unique_name_is_free(preferred: Seq<char>, names: Seq<Seq<char>>)
    requires
        names.len() < 9999,
    ensures
        !names.contains(unique_name(preferred, names)),
{
    if names.contains(preferred) {
        match crate::text::last_index_of(preferred, '.') {
            Some(i) => lemma_first_free_is_free(
                preferred.subrange(0, i),
                "."@ + preferred.subrange(i + 1, preferred.len() as int),
                names,
            ),
            None => lemma_first_free_is_free(preferred, Seq::empty(), names),
        }
    }
}

/// The mapping from image sources to entry names, the assets to embed, and
/// the counter used for generated names.
pub ghost struct AssetState {
    pub map: Seq<(Seq<char>, Seq<char>)>,
    pub resolved: Seq<ResolvedAssetV>,
    pub counter: nat,
}

pub open spec fn asset_state(map: Seq<(String, String)>, resolved: Seq<ResolvedAsset>, counter: u32) -> AssetState {
    AssetState { map: crate::xml::attrs_view(map), resolved: resolved_view(resolved), counter: counter as nat }
}

pub open spec fn push_asset(st: AssetState, src: Seq<char>, entry: Seq<char>, data: Seq<u8>, mime: Seq<char>, counter: nat) -> AssetState {
    AssetState {
        map: st.map.push((src, entry)),
        resolved: st.resolved.push(ResolvedAssetV { entry_name: entry, data, mime_type: mime }),
        counter,
    }
}

/// An asset the document already carries: its bare file name (or a
/// generated `asset_N`) becomes its entry; the mapping and the entry are
/// added only when new.
pub open spec fn doc_asset_step(st: AssetState, a: crate::ir::Asset) -> AssetState {
    let (entry, counter) = match path_file_name(a.name@) {
        Some(n) => (n, st.counter),
        None => ("asset_"@ + crate::text::dec_chars(st.counter + 1), st.counter + 1),
    };
    AssetState {
        map: if crate::writer_section::map_get(st.map, a.name@) is Some { st.map } else { st.map.push((a.name@, entry)) },
        resolved: if entry_names(st.resolved).contains(entry) {
            st.resolved
        } else {
            st.resolved.push(ResolvedAssetV { entry_name: entry, data: a.data@, mime_type: a.mime_type@ })
        },
        counter,
    }
}

pub open spec fn doc_assets_step(st: AssetState, assets: Seq<crate::ir::Asset>) -> AssetState
    decreases assets.len(),
{
    if assets.len() == 0 { st } else { doc_asset_step(doc_assets_step(st, assets.drop_last()), assets.last()) }
}

/// One image block: sources already mapped and remote URLs are left alone; a
/// data URI that decodes becomes `image_N.<subtype>`; a file that was read
/// becomes its bare name (or `image_N`), made unique.
pub open spec fn image_step(st: AssetState, src: Seq<char>, files: Seq<(Seq<char>, Seq<u8>)>) -> AssetState {
    if crate::writer_section::map_get(st.map, src) is Some {
        st
    } else {
        match classify(src) {
            ImageSourceV::RemoteUrl => st,
            ImageSourceV::DataUri { subtype, payload } => match b64_decode(payload) {
                Some(bytes) => push_asset(
                    st,
                    src,
                    "image_"@ + crate::text::dec_chars(st.counter + 1) + "."@ + subtype,
                    bytes,
                    "image/"@ + subtype,
                    st.counter + 1,
                ),
                None => st,
            },
            ImageSourceV::FilePath(path) => match file_get(files, path) {
                Some(bytes) => {
                    let (bare, counter) = match path_file_name(path) {
                        Some(n) => (n, st.counter),
                        None => ("image_"@ + crate::text::dec_chars(st.counter + 1), st.counter + 1),
                    };
                    push_asset(st, src, unique_name(bare, entry_names(st.resolved)), bytes, mime_of_path(path), counter)
                },
                None => st,
            },
        }
    }
}

pub open spec fn block_assets(st: AssetState, b: crate::ir::BlockV, files: Seq<(Seq<char>, Seq<u8>)>) -> AssetState
    decreases b,
{
    match b {
        crate::ir::BlockV::Image { src, .. } => image_step(st, src, files),
        crate::ir::BlockV::Table { rows, .. } => rows_assets(st, rows, files),
        crate::ir::BlockV::BlockQuote { blocks } => blocks_assets(st, blocks, files),
        crate::ir::BlockV::Footnote { content, .. } => blocks_assets(st, content, files),
        crate::ir::BlockV::List { items, .. } => items_assets(st, items, files),
        _ => st,
    }
}

pub open spec fn blocks_assets(st: AssetState, bs: Seq<crate::ir::BlockV>, files: Seq<(Seq<char>, Seq<u8>)>) -> AssetState
    decreases bs,
{
    if bs.len() == 0 { st } else { block_assets(blocks_assets(st, bs.drop_last(), files), bs.last(), files) }
}

pub open spec fn rows_assets(st: AssetState, rs: Seq<crate::ir::TableRowV>, files: Seq<(Seq<char>, Seq<u8>)>) -> AssetState
    decreases rs,
{
    if rs.len() == 0 { st } else { cells_assets(rows_assets(st, rs.drop_last(), files), rs.last().cells, files) }
}

pub open spec fn cells_assets(st: AssetState, cs: Seq<crate::ir::TableCellV>, files: Seq<(Seq<char>, Seq<u8>)>) -> AssetState
    decreases cs,
{
    if cs.len() == 0 { st } else { blocks_assets(cells_assets(st, cs.drop_last(), files), cs.last().blocks, files) }
}

/// List items contribute the images of their own blocks, then those of
/// their nested items.
pub open spec fn items_assets(st: AssetState, its: Seq<crate::ir::ListItemV>, files: Seq<(Seq<char>, Seq<u8>)>) -> AssetState
    decreases its,
{
    if its.len() == 0 { st } else { item_assets(items_assets(st, its.drop_last(), files), its.last(), files) }
}

pub open spec fn item_assets(st: AssetState, it: crate::ir::ListItemV, files: Seq<(Seq<char>, Seq<u8>)>) -> AssetState
    decreases it,
{
    items_assets(blocks_assets(st, it.blocks, files), it.children, files)
}

pub open spec fn sections_assets(st: AssetState, ss: Seq<crate::ir::Section>, files: Seq<(Seq<char>, Seq<u8>)>) -> AssetState
    decreases ss.len(),
{
    if ss.len() == 0 {
        st
    } else {
        blocks_assets(sections_assets(st, ss.drop_last(), files), crate::ir::blocks_view(ss.last().blocks@), files)
    }
}

/// The asset state after the document's own assets and all its images.
pub open spec fn doc_assets(doc: &crate::ir::Document, files: Seq<(Seq<char>, Seq<u8>)>) -> AssetState {
    sections_assets(
        doc_assets_step(AssetState { map: Seq::empty(), resolved: Seq::empty(), counter: 0 }, doc.assets@),
        doc.sections@,
        files,
    )
}

// Every mapped image source names an entry that is embedded.

/// Each source in the map names an entry of the assets to embed.
pub open spec fn refs_resolved(st: AssetState) -> bool {
    forall|i: int| 0 <= i < st.map.len() ==> #[trigger] entry_names(st.resolved).contains(st.map[i].1)
}

proof fn lemma_entry_names_push(rs: Seq<ResolvedAssetV>, r: ResolvedAssetV)
    ensures
        entry_names(rs.push(r)) == entry_names(rs).push(r.entry_name),
{
    assert(entry_names(rs.push(r)) =~= entry_names(rs).push(r.entry_name));
}

proof fn lemma_push_asset_refs(st: AssetState, src: Seq<char>, entry: Seq<char>, data: Seq<u8>, mime: Seq<char>, counter: nat)
    requires
        refs_resolved(st),
    ensures
        refs_resolved(push_asset(st, src, entry, data, mime, counter)),
{
    let r = ResolvedAssetV { entry_name: entry, data, mime_type: mime };
    let st2 = push_asset(st, src, entry, data, mime, counter);
    lemma_entry_names_push(st.resolved, r);
    assert forall|i: int| 0 <= i < st2.map.len() implies #[trigger] entry_names(st2.resolved).contains(st2.map[i].1) by {
        if i < st.map.len() {
            assert(entry_names(st.resolved).contains(st.map[i].1));
            let j = choose|j: int| 0 <= j < entry_names(st.resolved).len() && entry_names(st.resolved)[j] == st.map[i].1;
            assert(entry_names(st2.resolved)[j] == st.map[i].1);
        } else {
            assert(entry_names(st2.resolved)[st.resolved.len() as int] == entry);
        }
    }
}

proof fn lemma_doc_asset_step_refs(st: AssetState, a: crate::ir::Asset)
    requires
        refs_resolved(st),
    ensures
        refs_resolved(doc_asset_step(st, a)),
{
    let entry = match path_file_name(a.name@) {
        Some(n) => n,
        None => "asset_"@ + crate::text::dec_chars(st.counter + 1),
    };
    let st2 = doc_asset_step(st, a);
    let r = ResolvedAssetV { entry_name: entry, data: a.data@, mime_type: a.mime_type@ };
    lemma_entry_names_push(st.resolved, r);
    assert forall|x: Seq<char>| entry_names(st.resolved).contains(x) implies #[trigger] entry_names(st2.resolved).contains(x) by {
        let j = choose|j: int| 0 <= j < entry_names(st.resolved).len() && entry_names(st.resolved)[j] == x;
        assert(entry_names(st2.resolved)[j] == x);
    }
    assert(entry_names(st2.resolved).contains(entry)) by {
        if !entry_names(st.resolved).contains(entry) {
            assert(entry_names(st2.resolved)[st.resolved.len() as int] == entry);
        }
    }
    assert forall|i: int| 0 <= i < st2.map.len() implies #[trigger] entry_names(st2.resolved).contains(st2.map[i].1) by {
        if i < st.map.len() {
            assert(st2.map[i] == st.map[i]);
            assert(entry_names(st.resolved).contains(st.map[i].1));
        }
    }
}

proof fn lemma_doc_assets_step_refs(st: AssetState, assets: Seq<crate::ir::Asset>)
    requires
        refs_resolved(st),
    ensures
        refs_resolved(doc_assets_step(st, assets)),
    decreases assets.len(),
{
    if assets.len() > 0 {
        lemma_doc_assets_step_refs(st, assets.drop_last());
        lemma_doc_asset_step_refs(doc_assets_step(st, assets.drop_last()), assets.last());
    }
}

proof fn lemma_image_step_refs(st: AssetState, src: Seq<char>, files: Seq<(Seq<char>, Seq<u8>)>)
    requires
        refs_resolved(st),
    ensures
        refs_resolved(image_step(st, src, files)),
{
    if crate::writer_section::map_get(st.map, src) is None {
        match classify(src) {
            ImageSourceV::RemoteUrl => {},
            ImageSourceV::DataUri { subtype, payload } => match b64_decode(payload) {
                Some(bytes) => lemma_push_asset_refs(
                    st,
                    src,
                    "image_"@ + crate::text::dec_chars(st.counter + 1) + "."@ + subtype,
                    bytes,
                    "image/"@ + subtype,
                    st.counter + 1,
                ),
                None => {},
            },
            ImageSourceV::FilePath(path) => match file_get(files, path) {
                Some(bytes) => {
                    let (bare, counter) = match path_file_name(path) {
                        Some(n) => (n, st.counter),
                        None => ("image_"@ + crate::text::dec_chars(st.counter + 1), st.counter + 1),
                    };
                    lemma_push_asset_refs(st, src, unique_name(bare, entry_names(st.resolved)), bytes, mime_of_path(path), counter);
                },
                None => {},
            },
        }
    }
}

proof fn lemma_block_assets_refs(st: AssetState, b: crate::ir::BlockV, files: Seq<(Seq<char>, Seq<u8>)>)
    requires
        refs_resolved(st),
    ensures
        refs_resolved(block_assets(st, b, files)),
    decreases b,
{
    match b {
        crate::ir::BlockV::Image { src, .. } => lemma_image_step_refs(st, src, files),
        crate::ir::BlockV::Table { rows, .. } => lemma_rows_assets_refs(st, rows, files),
        crate::ir::BlockV::BlockQuote { blocks } => lemma_blocks_assets_refs(st, blocks, files),
        crate::ir::BlockV::Footnote { content, .. } => lemma_blocks_assets_refs(st, content, files),
        crate::ir::BlockV::List { items, .. } => lemma_items_assets_refs(st, items, files),
        _ => {},
    }
}

proof fn lemma_blocks_assets_refs(st: AssetState, bs: Seq<crate::ir::BlockV>, files: Seq<(Seq<char>, Seq<u8>)>)
    requires
        refs_resolved(st),
    ensures
        refs_resolved(blocks_assets(st, bs, files)),
    decreases bs,
{
    if bs.len() > 0 {
        lemma_blocks_assets_refs(st, bs.drop_last(), files);
        lemma_block_assets_refs(blocks_assets(st, bs.drop_last(), files), bs.last(), files);
    }
}

proof fn lemma_rows_assets_refs(st: AssetState, rs: Seq<crate::ir::TableRowV>, files: Seq<(Seq<char>, Seq<u8>)>)
    requires
        refs_resolved(st),
    ensures
        refs_resolved(rows_assets(st, rs, files)),
    decreases rs,
{
    if rs.len() > 0 {
        lemma_rows_assets_refs(st, rs.drop_last(), files);
        lemma_cells_assets_refs(rows_assets(st, rs.drop_last(), files), rs.last().cells, files);
    }
}

proof fn lemma_cells_assets_refs(st: AssetState, cs: Seq<crate::ir::TableCellV>, files: Seq<(Seq<char>, Seq<u8>)>)
    requires
        refs_resolved(st),
    ensures
        refs_resolved(cells_assets(st, cs, files)),
    decreases cs,
{
    if cs.len() > 0 {
        lemma_cells_assets_refs(st, cs.drop_last(), files);
        lemma_blocks_assets_refs(cells_assets(st, cs.drop_last(), files), cs.last().blocks, files);
    }
}

proof fn lemma_items_assets_refs(st: AssetState, its: Seq<crate::ir::ListItemV>, files: Seq<(Seq<char>, Seq<u8>)>)
    requires
        refs_resolved(st),
    ensures
        refs_resolved(items_assets(st, its, files)),
    decreases its,
{
    if its.len() > 0 {
        lemma_items_assets_refs(st, its.drop_last(), files);
        lemma_item_assets_refs(items_assets(st, its.drop_last(), files), its.last(), files);
    }
}

proof fn lemma_item_assets_refs(st: AssetState, it: crate::ir::ListItemV, files: Seq<(Seq<char>, Seq<u8>)>)
    requires
        refs_resolved(st),
    ensures
        refs_resolved(item_assets(st, it, files)),
    decreases it,
{
    lemma_blocks_assets_refs(st, it.blocks, files);
    lemma_items_assets_refs(blocks_assets(st, it.blocks, files), it.children, files);
}

proof fn lemma_sections_assets_refs(st: AssetState, ss: Seq<crate::ir::Section>, files: Seq<(Seq<char>, Seq<u8>)>)
    requires
        refs_resolved(st),
    ensures
        refs_resolved(sections_assets(st, ss, files)),
    decreases ss.len(),
{
    if ss.len() > 0 {
        lemma_sections_assets_refs(st, ss.drop_last(), files);
        lemma_blocks_assets_refs(sections_assets(st, ss.drop_last(), files), crate::ir::blocks_view(ss.last().blocks@), files);
    }
}

/// Every image source that the writer maps to a `BinData/` entry names an
/// entry that it embeds: no `binaryItemIDRef` points at a missing entry.
pub proof fn law_image_refs_resolved(doc: &crate::ir::Document, files: Seq<(Seq<char>, Seq<u8>)>)
    ensures
        refs_resolved(doc_assets(doc, files)),
{
    let st0 = AssetState { map: Seq::empty(), resolved: Seq::empty(), counter: 0 };
    lemma_doc_assets_step_refs(st0, doc.assets@);
    lemma_sections_assets_refs(doc_assets_step(st0, doc.assets@), doc.sections@, files);
}

// Image counts bound the name counter.

pub open spec fn block_images(b: crate::ir::BlockV) -> nat
    decreases b,
{
    match b {
        crate::ir::BlockV::Image { .. } => 1,
        crate::ir::BlockV::Table { rows, .. } => rows_images(rows),
        crate::ir::BlockV::BlockQuote { blocks } => blocks_images(blocks),
        crate::ir::BlockV::Footnote { content, .. } => blocks_images(content),
        crate::ir::BlockV::List { items, .. } => items_images(items),
        _ => 0,
    }
}

pub open spec fn blocks_images(bs: Seq<crate::ir::BlockV>) -> nat
    decreases bs,
{
    if bs.len() == 0 { 0 } else { blocks_images(bs.drop_last()) + block_images(bs.last()) }
}

pub open spec fn rows_images(rs: Seq<crate::ir::TableRowV>) -> nat
    decreases rs,
{
    if rs.len() == 0 { 0 } else { rows_images(rs.drop_last()) + cells_images(rs.last().cells) }
}

pub open spec fn cells_images(cs: Seq<crate::ir::TableCellV>) -> nat
    decreases cs,
{
    if cs.len() == 0 { 0 } else { cells_images(cs.drop_last()) + blocks_images(cs.last().blocks) }
}

pub open spec fn items_images(its: Seq<crate::ir::ListItemV>) -> nat
    decreases its,
{
    if its.len() == 0 { 0 } else { items_images(its.drop_last()) + item_images(its.last()) }
}

pub open spec fn item_images(it: crate::ir::ListItemV) -> nat
    decreases it,
{
    blocks_images(it.blocks) + items_images(it.children)
}

pub open spec fn sections_images(ss: Seq<crate::ir::Section>) -> nat
    decreases ss.len(),
{
    if ss.len() == 0 { 0 } else { sections_images(ss.drop_last()) + blocks_images(crate::ir::blocks_view(ss.last().blocks@)) }
}

proof fn lemma_blocks_images_prefix(bs: Seq<crate::ir::BlockV>, k: int)
    requires
        0 <= k <= bs.len(),
    ensures
        blocks_images(bs.take(k)) <= blocks_images(bs),
    decreases bs.len(),
{
    if k < bs.len() {
        assert(bs.drop_last().take(k) == bs.take(k));
        lemma_blocks_images_prefix(bs.drop_last(), k);
    } else {
        assert(bs.take(k) == bs);
    }
}

proof fn lemma_rows_images_prefix(rs: Seq<crate::ir::TableRowV>, k: int)
    requires
        0 <= k <= rs.len(),
    ensures
        rows_images(rs.take(k)) <= rows_images(rs),
    decreases rs.len(),
{
    if k < rs.len() {
        assert(rs.drop_last().take(k) == rs.take(k));
        lemma_rows_images_prefix(rs.drop_last(), k);
    } else {
        assert(rs.take(k) == rs);
    }
}

proof fn lemma_cells_images_prefix(cs: Seq<crate::ir::TableCellV>, k: int)
    requires
        0 <= k <= cs.len(),
    ensures
        cells_images(cs.take(k)) <= cells_images(cs),
    decreases cs.len(),
{
    if k < cs.len() {
        assert(cs.drop_last().take(k) == cs.take(k));
        lemma_cells_images_prefix(cs.drop_last(), k);
    } else {
        assert(cs.take(k) == cs);
    }
}

proof fn lemma_items_images_prefix(its: Seq<crate::ir::ListItemV>, k: int)
    requires
        0 <= k <= its.len(),
    ensures
        items_images(its.take(k)) <= items_images(its),
    decreases its.len(),
{
    if k < its.len() {
        assert(its.drop_last().take(k) == its.take(k));
        lemma_items_images_prefix(its.drop_last(), k);
    } else {
        assert(its.take(k) == its);
    }
}

proof fn lemma_sections_images_prefix(ss: Seq<crate::ir::Section>, k: int)
    requires
        0 <= k <= ss.len(),
    ensures
        sections_images(ss.take(k)) <= sections_images(ss),
    decreases ss.len(),
{
    if k < ss.len() {
        assert(ss.drop_last().take(k) == ss.take(k));
        lemma_sections_images_prefix(ss.drop_last(), k);
    } else {
        assert(ss.take(k) == ss);
    }
}

fn map_contains(m: &Vec<(String, String)>, k: &String) -> (res: bool)
    ensures
        res == (crate::writer_section::map_get(crate::xml::attrs_view(m@), k@) is Some),
{
    let ghost mv = crate::xml::attrs_view(m@);
    let mut i: usize = 0;
    assert(mv.subrange(0, mv.len() as int) == mv);
    while i < m.len()
        invariant
            0 <= i <= m.len(),
            mv == crate::xml::attrs_view(m@),
            crate::writer_section::map_get(mv, k@) == crate::writer_section::map_get(mv.subrange(i as int, mv.len() as int), k@),
        decreases m.len() - i,
    {
        assert(mv.subrange(i as int, mv.len() as int).drop_first() == mv.subrange(i + 1, mv.len() as int));
        if m[i].0 == *k {
            return true;
        }
        i = i + 1;
    }
    false
}

fn clone_bytes(v: &Vec<u8>) -> (res: Vec<u8>)
    ensures
        res@ == v@,
{
    let mut out: Vec<u8> = Vec::new();
    let mut i: usize = 0;
    while i < v.len()
        invariant
            0 <= i <= v.len(),
            out@ == v@.take(i as int),
        decreases v.len() - i,
    {
        out.push(v[i]);
        assert(v@.take(i + 1) == v@.take(i as int).push(v@[i as int]));
        i = i + 1;
    }
    assert(v@.take(v.len() as int) == v@);
    out
}

fn file_lookup(files: &FileContents, path: &String) -> (res: Option<Vec<u8>>)
    ensures
        match file_get(files_view(files@), path@) {
            Some(b) => res is Some && res->0@ == b,
            None => res is None,
        },
{
    let ghost fv = files_view(files@);
    let mut i: usize = 0;
    assert(fv.subrange(0, fv.len() as int) == fv);
    while i < files.len()
        invariant
            0 <= i <= files.len(),
            fv == files_view(files@),
            file_get(fv, path@) == file_get(fv.subrange(i as int, fv.len() as int), path@),
        decreases files.len() - i,
    {
        assert(fv.subrange(i as int, fv.len() as int).drop_first() == fv.subrange(i + 1, fv.len() as int));
        if files[i].0 == *path {
            return Some(clone_bytes(&files[i].1));
        }
        i = i + 1;
    }
    None
}

fn name_taken(resolved: &Vec<ResolvedAsset>, name: &String) -> (res: bool)
    ensures
        res == entry_names(resolved_view(resolved@)).contains(name@),
{
    let ghost ns = entry_names(resolved_view(resolved@));
    let mut i: usize = 0;
    while i < resolved.len()
        invariant
            0 <= i <= resolved.len(),
            ns == entry_names(resolved_view(resolved@)),
            ns.len() == resolved.len(),
            forall|j: int| 0 <= j < i ==> ns[j] != name@,
        decreases resolved.len() - i,
    {
        if resolved[i].entry_name == *name {
            assert(ns[i as int] == name@);
            return true;
        }
        i = i + 1;
    }
    false
}

fn suffixed_name(stem: &Vec<char>, ext: &Vec<char>, n: u32) -> (res: String)
    ensures
        res@ == suffixed(stem@, ext@, n as nat),
{
    let mut s = string_of(stem);
    push_str(&mut s, "_");
    let d = crate::text::dec_string(n as u128);
    push_str(&mut s, d.as_str());
    crate::text::push_chars(&mut s, ext);
    s
}

/// A name derived from `preferred` that no asset in `resolved` uses yet:
/// `photo.png`, then `photo_2.png`, `photo_3.png`, and so on.
pub fn unique_entry_name(preferred: &str, resolved: &Vec<ResolvedAsset>) -> (res: String)
    ensures
        res@ == unique_name(preferred@, entry_names(resolved_view(resolved@))),
{
    let ghost names = entry_names(resolved_view(resolved@));
    let pref = str_to_string(preferred);
    if !name_taken(resolved, &pref) {
        return pref;
    }
    let cs = chars_vec(preferred);
    let (stem, ext) = match crate::text::find_last(&cs, '.') {
        Some(i) => {
            let mut e: Vec<char> = Vec::new();
            e.push('.');
            let tail = crate::text::sub_vec(&cs, i + 1, cs.len());
            let mut k: usize = 0;
            while k < tail.len()
                invariant
                    0 <= k <= tail.len(),
                    e@ == seq!['.'] + tail@.take(k as int),
                decreases tail.len() - k,
            {
                e.push(tail[k]);
                assert(tail@.take(k + 1) == tail@.take(k as int).push(tail@[k as int]));
                k = k + 1;
            }
            assert(tail@.take(tail.len() as int) == tail@);
            proof { reveal_strlit("."); }
            assert(e@ == "."@ + preferred@.subrange(i + 1, preferred@.len() as int));
            (crate::text::sub_vec(&cs, 0, i), e)
        },
        None => (cs, Vec::new()),
    };
    assert(names.contains(preferred@));
    let ghost (gs, ge) = match crate::text::last_index_of(preferred@, '.') {
        Some(i) => (preferred@.subrange(0, i), "."@ + preferred@.subrange(i + 1, preferred@.len() as int)),
        None => (preferred@, Seq::<char>::empty()),
    };
    assert(stem@ == gs && ext@ == ge);
    let mut n: u32 = 2;
    loop
        invariant
            2 <= n <= 10000,
            names == entry_names(resolved_view(resolved@)),
            stem@ == gs,
            ext@ == ge,
            unique_name(preferred@, names) == first_free(gs, ge, names, n as nat),
        decreases 10000 - n,
    {
        let cand = suffixed_name(&stem, &ext, n);
        if !name_taken(resolved, &cand) || n >= 10000 {
            return cand;
        }
        n = n + 1;
    }
}

fn numbered(prefix: &str, n: u32) -> (res: String)
    ensures
        res@ == prefix@ + crate::text::dec_chars(n as nat),
{
    let mut s = str_to_string(prefix);
    let d = crate::text::dec_string(n as u128);
    push_str(&mut s, d.as_str());
    s
}

fn push_entry(
    map: &mut Vec<(String, String)>,
    resolved: &mut Vec<ResolvedAsset>,
    src: &String,
    entry: String,
    data: Vec<u8>,
    mime: String,
)
    ensures
        crate::xml::attrs_view(final(map)@) == crate::xml::attrs_view(old(map)@).push((src@, entry@)),
        resolved_view(final(resolved)@) == resolved_view(old(resolved)@).push(
            ResolvedAssetV { entry_name: entry@, data: data@, mime_type: mime@ },
        ),
{
    let ghost m0 = map@;
    let ghost r0 = resolved@;
    let e2 = str_to_string(entry.as_str());
    map.push((str_to_string(src.as_str()), e2));
    resolved.push(ResolvedAsset { entry_name: entry, data, mime_type: mime });
    assert(crate::xml::attrs_view(map@) =~= crate::xml::attrs_view(m0).push((src@, entry@)));
    assert(resolved_view(resolved@) =~= resolved_view(r0).push(
        ResolvedAssetV { entry_name: entry@, data: data@, mime_type: mime@ },
    ));
}

/// Resolves one image `src` (see `image_step`).
fn resolve_image(
    src: &String,
    map: &mut Vec<(String, String)>,
    resolved: &mut Vec<ResolvedAsset>,
    counter: &mut u32,
    files: &FileContents,
)
    requires
        *old(counter) < u32::MAX,
    ensures
        asset_state(final(map)@, final(resolved)@, *final(counter))
            == image_step(asset_state(old(map)@, old(resolved)@, *old(counter)), src@, files_view(files@)),
        *final(counter) <= *old(counter) + 1,
{
    let ghost st = asset_state(map@, resolved@, *counter);
    if map_contains(map, src) {
        return;
    }
    match classify_image_src(src.as_str()) {
        ImageSource::RemoteUrl => {},
        ImageSource::DataUri { subtype, payload } => {
            match base64_decode(payload.as_str()) {
                Ok(bytes) => {
                    *counter = *counter + 1;
                    let mut entry = numbered("image_", *counter);
                    push_str(&mut entry, ".");
                    push_str(&mut entry, subtype.as_str());
                    let mut mime = str_to_string("image/");
                    push_str(&mut mime, subtype.as_str());
                    push_entry(map, resolved, src, entry, bytes, mime);
                },
                Err(_) => {},
            }
        },
        ImageSource::FilePath(path) => {
            match file_lookup(files, &path) {
                Some(bytes) => {
                    let bare = match file_name_of(path.as_str()) {
                        Some(n) => n,
                        None => {
                            *counter = *counter + 1;
                            numbered("image_", *counter)
                        },
                    };
                    let mime = str_to_string(mime_from_extension(path.as_str()));
                    let entry = unique_entry_name(bare.as_str(), resolved);
                    push_entry(map, resolved, src, entry, bytes, mime);
                },
                None => {},
            }
        },
    }
}

fn collect_images_from_blocks(
    blocks: &Vec<crate::ir::Block>,
    map: &mut Vec<(String, String)>,
    resolved: &mut Vec<ResolvedAsset>,
    counter: &mut u32,
    files: &FileContents,
)
    requires
        *old(counter) + blocks_images(crate::ir::blocks_view(blocks@)) <= u32::MAX,
    ensures
        asset_state(final(map)@, final(resolved)@, *final(counter))
            == blocks_assets(asset_state(old(map)@, old(resolved)@, *old(counter)), crate::ir::blocks_view(blocks@), files_view(files@)),
        *final(counter) <= *old(counter) + blocks_images(crate::ir::blocks_view(blocks@)),
    decreases blocks,
{
    let ghost st0 = asset_state(map@, resolved@, *counter);
    let ghost c0 = *counter;
    let ghost fv = files_view(files@);
    assert(crate::ir::blocks_view(blocks@.take(0)) == Seq::<crate::ir::BlockV>::empty());
    let mut i: usize = 0;
    while i < blocks.len()
        invariant
            0 <= i <= blocks.len(),
            st0 == asset_state(old(map)@, old(resolved)@, *old(counter)),
            c0 == *old(counter),
            fv == files_view(files@),
            c0 + blocks_images(crate::ir::blocks_view(blocks@)) <= u32::MAX,
            asset_state(map@, resolved@, *counter) == blocks_assets(st0, crate::ir::blocks_view(blocks@.take(i as int)), fv),
            *counter <= c0 + blocks_images(crate::ir::blocks_view(blocks@.take(i as int))),
        decreases blocks.len() - i,
    {
        proof {
            crate::ir::lemma_blocks_view_push(blocks@.take(i as int), blocks@[i as int]);
            assert(blocks@.take(i + 1) == blocks@.take(i as int).push(blocks@[i as int]));
            assert(crate::ir::blocks_view(blocks@.take(i + 1)).drop_last() == crate::ir::blocks_view(blocks@.take(i as int)));
            lemma_blocks_images_prefix(crate::ir::blocks_view(blocks@), i + 1);
            assert(crate::ir::blocks_view(blocks@.take(i + 1)) == crate::ir::blocks_view(blocks@).take(i + 1));
        }
        collect_images_from_block(&blocks[i], map, resolved, counter, files);
        i = i + 1;
    }
    assert(blocks@.take(blocks.len() as int) == blocks@);
}

fn collect_images_from_rows(
    rows: &Vec<crate::ir::TableRow>,
    map: &mut Vec<(String, String)>,
    resolved: &mut Vec<ResolvedAsset>,
    counter: &mut u32,
    files: &FileContents,
)
    requires
        *old(counter) + rows_images(crate::ir::rows_view(rows@)) <= u32::MAX,
    ensures
        asset_state(final(map)@, final(resolved)@, *final(counter))
            == rows_assets(asset_state(old(map)@, old(resolved)@, *old(counter)), crate::ir::rows_view(rows@), files_view(files@)),
        *final(counter) <= *old(counter) + rows_images(crate::ir::rows_view(rows@)),
    decreases rows,
{
    let ghost st0 = asset_state(map@, resolved@, *counter);
    let ghost c0 = *counter;
    let ghost fv = files_view(files@);
    assert(crate::ir::rows_view(rows@.take(0)) == Seq::<crate::ir::TableRowV>::empty());
    let mut i: usize = 0;
    while i < rows.len()
        invariant
            0 <= i <= rows.len(),
            st0 == asset_state(old(map)@, old(resolved)@, *old(counter)),
            c0 == *old(counter),
            fv == files_view(files@),
            c0 + rows_images(crate::ir::rows_view(rows@)) <= u32::MAX,
            asset_state(map@, resolved@, *counter) == rows_assets(st0, crate::ir::rows_view(rows@.take(i as int)), fv),
            *counter <= c0 + rows_images(crate::ir::rows_view(rows@.take(i as int))),
        decreases rows.len() - i,
    {
        proof {
            crate::ir::lemma_rows_view_push(rows@.take(i as int), rows@[i as int]);
            assert(rows@.take(i + 1) == rows@.take(i as int).push(rows@[i as int]));
            assert(crate::ir::rows_view(rows@.take(i + 1)).drop_last() == crate::ir::rows_view(rows@.take(i as int)));
            lemma_rows_images_prefix(crate::ir::rows_view(rows@), i + 1);
            assert(crate::ir::rows_view(rows@.take(i + 1)) == crate::ir::rows_view(rows@).take(i + 1));
        }
        collect_images_from_cells(&rows[i].cells, map, resolved, counter, files);
        i = i + 1;
    }
    assert(rows@.take(rows.len() as int) == rows@);
}

fn collect_images_from_cells(
    cells: &Vec<crate::ir::TableCell>,
    map: &mut Vec<(String, String)>,
    resolved: &mut Vec<ResolvedAsset>,
    counter: &mut u32,
    files: &FileContents,
)
    requires
        *old(counter) + cells_images(crate::ir::cells_view(cells@)) <= u32::MAX,
    ensures
        asset_state(final(map)@, final(resolved)@, *final(counter))
            == cells_assets(asset_state(old(map)@, old(resolved)@, *old(counter)), crate::ir::cells_view(cells@), files_view(files@)),
        *final(counter) <= *old(counter) + cells_images(crate::ir::cells_view(cells@)),
    decreases cells,
{
    let ghost st0 = asset_state(map@, resolved@, *counter);
    let ghost c0 = *counter;
    let ghost fv = files_view(files@);
    assert(crate::ir::cells_view(cells@.take(0)) == Seq::<crate::ir::TableCellV>::empty());
    let mut i: usize = 0;
    while i < cells.len()
        invariant
            0 <= i <= cells.len(),
            st0 == asset_state(old(map)@, old(resolved)@, *old(counter)),
            c0 == *old(counter),
            fv == files_view(files@),
            c0 + cells_images(crate::ir::cells_view(cells@)) <= u32::MAX,
            asset_state(map@, resolved@, *counter) == cells_assets(st0, crate::ir::cells_view(cells@.take(i as int)), fv),
            *counter <= c0 + cells_images(crate::ir::cells_view(cells@.take(i as int))),
        decreases cells.len() - i,
    {
        proof {
            crate::ir::lemma_cells_view_push(cells@.take(i as int), cells@[i as int]);
            assert(cells@.take(i + 1) == cells@.take(i as int).push(cells@[i as int]));
            assert(crate::ir::cells_view(cells@.take(i + 1)).drop_last() == crate::ir::cells_view(cells@.take(i as int)));
            lemma_cells_images_prefix(crate::ir::cells_view(cells@), i + 1);
            assert(crate::ir::cells_view(cells@.take(i + 1)) == crate::ir::cells_view(cells@).take(i + 1));
        }
        collect_images_from_blocks(&cells[i].blocks, map, resolved, counter, files);
        i = i + 1;
    }
    assert(cells@.take(cells.len() as int) == cells@);
}

fn collect_images_from_items(
    items: &Vec<crate::ir::ListItem>,
    map: &mut Vec<(String, String)>,
    resolved: &mut Vec<ResolvedAsset>,
    counter: &mut u32,
    files: &FileContents,
)
    requires
        *old(counter) + items_images(crate::ir::items_view(items@)) <= u32::MAX,
    ensures
        asset_state(final(map)@, final(resolved)@, *final(counter))
            == items_assets(asset_state(old(map)@, old(resolved)@, *old(counter)), crate::ir::items_view(items@), files_view(files@)),
        *final(counter) <= *old(counter) + items_images(crate::ir::items_view(items@)),
    decreases items,
{
    let ghost st0 = asset_state(map@, resolved@, *counter);
    let ghost c0 = *counter;
    let ghost fv = files_view(files@);
    assert(crate::ir::items_view(items@.take(0)) == Seq::<crate::ir::ListItemV>::empty());
    let mut i: usize = 0;
    while i < items.len()
        invariant
            0 <= i <= items.len(),
            st0 == asset_state(old(map)@, old(resolved)@, *old(counter)),
            c0 == *old(counter),
            fv == files_view(files@),
            c0 + items_images(crate::ir::items_view(items@)) <= u32::MAX,
            asset_state(map@, resolved@, *counter) == items_assets(st0, crate::ir::items_view(items@.take(i as int)), fv),
            *counter <= c0 + items_images(crate::ir::items_view(items@.take(i as int))),
        decreases items.len() - i,
    {
        proof {
            crate::ir::lemma_items_view_push(items@.take(i as int), items@[i as int]);
            assert(items@.take(i + 1) == items@.take(i as int).push(items@[i as int]));
            assert(crate::ir::items_view(items@.take(i + 1)).drop_last() == crate::ir::items_view(items@.take(i as int)));
            lemma_items_images_prefix(crate::ir::items_view(items@), i + 1);
            assert(crate::ir::items_view(items@.take(i + 1)) == crate::ir::items_view(items@).take(i + 1));
            let it = items@[i as int]@;
            assert(crate::ir::items_view(items@.take(i + 1)).last() == it);
            assert(it.blocks == crate::ir::blocks_view(items@[i as int].blocks@));
            assert(it.children == crate::ir::items_view(items@[i as int].children@));
            assert(items_images(crate::ir::items_view(items@.take(i + 1)))
                == items_images(crate::ir::items_view(items@.take(i as int))) + item_images(it));
        }
        let ghost s1 = asset_state(map@, resolved@, *counter);
        collect_images_from_blocks(&items[i].blocks, map, resolved, counter, files);
        collect_images_from_items(&items[i].children, map, resolved, counter, files);
        proof {
            let it = items@[i as int]@;
            assert(item_assets(s1, it, fv) == asset_state(map@, resolved@, *counter));
        }
        i = i + 1;
    }
    assert(items@.take(items.len() as int) == items@);
}

fn collect_images_from_block(
    block: &crate::ir::Block,
    map: &mut Vec<(String, String)>,
    resolved: &mut Vec<ResolvedAsset>,
    counter: &mut u32,
    files: &FileContents,
)
    requires
        *old(counter) + block_images(block@) <= u32::MAX,
    ensures
        asset_state(final(map)@, final(resolved)@, *final(counter))
            == block_assets(asset_state(old(map)@, old(resolved)@, *old(counter)), block@, files_view(files@)),
        *final(counter) <= *old(counter) + block_images(block@),
    decreases block,
{
    match block {
        crate::ir::Block::Image { src, .. } => resolve_image(src, map, resolved, counter, files),
        crate::ir::Block::Table { rows, .. } => collect_images_from_rows(rows, map, resolved, counter, files),
        crate::ir::Block::BlockQuote { blocks } => collect_images_from_blocks(blocks, map, resolved, counter, files),
        crate::ir::Block::Footnote { content, .. } => collect_images_from_blocks(content, map, resolved, counter, files),
        crate::ir::Block::List { items, .. } => collect_images_from_items(items, map, resolved, counter, files),
        _ => {},
    }
}

fn add_doc_asset(
    a: &crate::ir::Asset,
    map: &mut Vec<(String, String)>,
    resolved: &mut Vec<ResolvedAsset>,
    counter: &mut u32,
)
    requires
        *old(counter) < u32::MAX,
    ensures
        asset_state(final(map)@, final(resolved)@, *final(counter))
            == doc_asset_step(asset_state(old(map)@, old(resolved)@, *old(counter)), *a),
        *final(counter) <= *old(counter) + 1,
{
    let ghost m0 = map@;
    let ghost r0 = resolved@;
    let entry = match file_name_of(a.name.as_str()) {
        Some(n) => n,
        None => {
            *counter = *counter + 1;
            numbered("asset_", *counter)
        },
    };
    if !map_contains(map, &a.name) {
        map.push((str_to_string(a.name.as_str()), str_to_string(entry.as_str())));
        assert(crate::xml::attrs_view(map@) =~= crate::xml::attrs_view(m0).push((a.name@, entry@)));
    }
    if !name_taken(resolved, &entry) {
        let data = clone_bytes(&a.data);
        let mime = str_to_string(a.mime_type.as_str());
        resolved.push(ResolvedAsset { entry_name: entry, data, mime_type: mime });
        assert(resolved_view(resolved@) =~= resolved_view(r0).push(
            ResolvedAssetV { entry_name: entry@, data: a.data@, mime_type: a.mime_type@ },
        ));
    }
}

/// Scans the document's own assets and every image block, and returns the
/// mapping from image sources to `BinData/` entry names together with the
/// assets to embed.  Remote URLs are left as they are; data URIs are
/// decoded; file paths are looked up in `files` (the files that could be
/// read), and those missing there are left out.
pub fn collect_image_assets(doc: &crate::ir::Document, files: &FileContents) -> (res: (
    crate::writer_section::ImageAssetMap,
    Vec<ResolvedAsset>,
))
    requires
        doc.assets.len() + sections_images(doc.sections@) <= u32::MAX,
    ensures
        crate::xml::attrs_view(res.0@) == doc_assets(doc, files_view(files@)).map,
        resolved_view(res.1@) == doc_assets(doc, files_view(files@)).resolved,
{
    let mut map: Vec<(String, String)> = Vec::new();
    let mut resolved: Vec<ResolvedAsset> = Vec::new();
    let mut counter: u32 = 0;
    let ghost fv = files_view(files@);
    let ghost init = AssetState { map: Seq::empty(), resolved: Seq::empty(), counter: 0 };
    assert(crate::xml::attrs_view(map@) =~= Seq::empty());
    assert(resolved_view(resolved@) =~= Seq::empty());
    assert(asset_state(map@, resolved@, counter) == init);
    let mut i: usize = 0;
    while i < doc.assets.len()
        invariant
            0 <= i <= doc.assets.len(),
            doc.assets.len() + sections_images(doc.sections@) <= u32::MAX,
            asset_state(map@, resolved@, counter) == doc_assets_step(init, doc.assets@.take(i as int)),
            counter <= i,
        decreases doc.assets.len() - i,
    {
        assert(doc.assets@.take(i + 1).drop_last() == doc.assets@.take(i as int));
        assert(doc.assets@.take(i + 1).last() == doc.assets@[i as int]);
        add_doc_asset(&doc.assets[i], &mut map, &mut resolved, &mut counter);
        i = i + 1;
    }
    assert(doc.assets@.take(doc.assets.len() as int) == doc.assets@);
    let ghost st1 = asset_state(map@, resolved@, counter);
    let ghost c1 = counter;
    let mut k: usize = 0;
    while k < doc.sections.len()
        invariant
            0 <= k <= doc.sections.len(),
            fv == files_view(files@),
            c1 <= doc.assets.len(),
            doc.assets.len() + sections_images(doc.sections@) <= u32::MAX,
            asset_state(map@, resolved@, counter) == sections_assets(st1, doc.sections@.take(k as int), fv),
            counter <= c1 + sections_images(doc.sections@.take(k as int)),
        decreases doc.sections.len() - k,
    {
        proof {
            assert(doc.sections@.take(k + 1).drop_last() == doc.sections@.take(k as int));
            assert(doc.sections@.take(k + 1).last() == doc.sections@[k as int]);
            lemma_sections_images_prefix(doc.sections@, k + 1);
        }
        collect_images_from_blocks(&doc.sections[k].blocks, &mut map, &mut resolved, &mut counter, files);
        k = k + 1;
    }
    assert(doc.sections@.take(doc.sections.len() as int) == doc.sections@);
    (map, resolved)
}

// ---------------------------------------------------------------------------
// content.hpf
// ---------------------------------------------------------------------------

pub open spec fn item_line(i: nat) -> Seq<char> {
    "    <hp:item href=\"section"@ + crate::text::dec_chars(i) + ".xml\" type=\"Section\"/>\n"@
}

/// One `<hp:item>` line per section, for the first `n`.
pub open spec fn items_text(n: nat) -> Seq<char>
    decreases n,
{
    if n == 0 { Seq::empty() } else { items_text((n - 1) as nat) + item_line((n - 1) as nat) }
}

pub open spec fn nonempty(o: Option<String>) -> bool {
    o is Some && o.unwrap()@.len() > 0
}

/// `<hp:docInfo>` with the title and author that are present and not empty.
pub open spec fn doc_info_text(title: Option<String>, author: Option<String>) -> Seq<char> {
    if nonempty(title) || nonempty(author) {
        "  <hp:docInfo>\n"@
            + (if nonempty(title) { "    <hp:title>"@ + xml_escape(title.unwrap()@) + "</hp:title>\n"@ } else { Seq::empty() })
            + (if nonempty(author) { "    <hp:author>"@ + xml_escape(author.unwrap()@) + "</hp:author>\n"@ } else { Seq::empty() })
            + "  </hp:docInfo>\n"@
    } else {
        Seq::empty()
    }
}

/// The item ID of an entry: its file stem, or the whole name.
pub open spec fn item_id(entry: Seq<char>) -> Seq<char> {
    match path_file_stem(entry) {
        Some(s) => s,
        None => entry,
    }
}

pub open spec fn bin_line(entry: Seq<char>) -> Seq<char> {
    "    <hp:binData itemId=\""@ + xml_escape(item_id(entry)) + "\" file=\"BinData/"@ + xml_escape(entry)
        + "\" type=\"EMBED\" compress=\"true\"/>\n"@
}

pub open spec fn bin_text(rs: Seq<ResolvedAssetV>) -> Seq<char>
    decreases rs.len(),
{
    if rs.len() == 0 { Seq::empty() } else { bin_text(rs.drop_last()) + bin_line(rs.last().entry_name) }
}

/// The package manifest: sections, metadata and embedded images.
pub open spec fn content_hpf(doc: &crate::ir::Document, rs: Seq<ResolvedAssetV>) -> Seq<char> {
    "<?xml version=\"1.0\" encoding=\"UTF-8\"?>\n<hp:HWPMLPackage xmlns:hp=\"http://www.hancom.co.kr/hwpml/2011/packageInfo\">\n  <hp:compatibledocument version=\"1.1\"/>\n"@
        + doc_info_text(doc.metadata.title, doc.metadata.author)
        + "  <hp:contents>\n"@
        + items_text(if doc.sections.len() == 0 { 1 } else { doc.sections.len() as nat })
        + "  </hp:contents>\n"@
        + bin_text(rs)
        + "</hp:HWPMLPackage>"@
}

fn is_nonempty(o: &Option<String>) -> (res: bool)
    ensures
        res == nonempty(*o),
{
    match o {
        Some(t) => t.as_str().unicode_len() > 0,
        None => false,
    }
}

fn doc_info(title: &Option<String>, author: &Option<String>) -> (res: String)
    ensures
        res@ == doc_info_text(*title, *author),
{
    let ht = is_nonempty(title);
    let ha = is_nonempty(author);
    if !(ht || ha) {
        return String::new();
    }
    let mut s = str_to_string("  <hp:docInfo>\n");
    let ghost s0 = s@;
    match title {
        Some(t) => if ht {
            push_str(&mut s, "    <hp:title>");
            let e = xml_escape_content(t.as_str());
            push_str(&mut s, e.as_str());
            push_str(&mut s, "</hp:title>\n");
        },
        None => {},
    }
    let ghost s1 = s@;
    assert(s1 =~= s0 + (if nonempty(*title) { "    <hp:title>"@ + xml_escape(title.unwrap()@) + "</hp:title>\n"@ } else { Seq::empty() }));
    match author {
        Some(a) => if ha {
            push_str(&mut s, "    <hp:author>");
            let e = xml_escape_content(a.as_str());
            push_str(&mut s, e.as_str());
            push_str(&mut s, "</hp:author>\n");
        },
        None => {},
    }
    let ghost s2 = s@;
    assert(s2 =~= s1 + (if nonempty(*author) { "    <hp:author>"@ + xml_escape(author.unwrap()@) + "</hp:author>\n"@ } else { Seq::empty() }));
    push_str(&mut s, "  </hp:docInfo>\n");
    assert(s@ =~= doc_info_text(*title, *author));
    s
}

fn bin_entry(entry: &String) -> (res: String)
    ensures
        res@ == bin_line(entry@),
{
    let id = match file_stem_of(entry.as_str()) {
        Some(st) => st,
        None => str_to_string(entry.as_str()),
    };
    let mut s = str_to_string("    <hp:binData itemId=\"");
    let e1 = xml_escape_content(id.as_str());
    push_str(&mut s, e1.as_str());
    push_str(&mut s, "\" file=\"BinData/");
    let e2 = xml_escape_content(entry.as_str());
    push_str(&mut s, e2.as_str());
    push_str(&mut s, "\" type=\"EMBED\" compress=\"true\"/>\n");
    assert(s@ =~= bin_line(entry@));
    s
}

/// Contents/content.hpf for `doc` and the images to embed.
pub fn generate_content_hpf(doc: &crate::ir::Document, resolved_assets: &Vec<ResolvedAsset>) -> (res: String)
    ensures
        res@ == content_hpf(doc, resolved_view(resolved_assets@)),
{
    let n: usize = if doc.sections.len() == 0 { 1 } else { doc.sections.len() };
    let mut items = String::new();
    let mut i: usize = 0;
    while i < n
        invariant
            0 <= i <= n,
            items@ == items_text(i as nat),
        decreases n - i,
    {
        push_str(&mut items, "    <hp:item href=\"section");
        let d = crate::text::dec_string(i as u128);
        push_str(&mut items, d.as_str());
        push_str(&mut items, ".xml\" type=\"Section\"/>\n");
        assert(items@ =~= items_text((i + 1) as nat));
        i = i + 1;
    }
    let mut bins = String::new();
    let ghost rs = resolved_view(resolved_assets@);
    let mut k: usize = 0;
    while k < resolved_assets.len()
        invariant
            0 <= k <= resolved_assets.len(),
            rs == resolved_view(resolved_assets@),
            bins@ == bin_text(rs.take(k as int)),
        decreases resolved_assets.len() - k,
    {
        let line = bin_entry(&resolved_assets[k].entry_name);
        push_str(&mut bins, line.as_str());
        assert(rs.take(k + 1).drop_last() == rs.take(k as int));
        k = k + 1;
    }
    assert(rs.take(resolved_assets.len() as int) == rs);
    let info = doc_info(&doc.metadata.title, &doc.metadata.author);
    let mut s = str_to_string("<?xml version=\"1.0\" encoding=\"UTF-8\"?>\n<hp:HWPMLPackage xmlns:hp=\"http://www.hancom.co.kr/hwpml/2011/packageInfo\">\n  <hp:compatibledocument version=\"1.1\"/>\n");
    push_str(&mut s, info.as_str());
    push_str(&mut s, "  <hp:contents>\n");
    push_str(&mut s, items.as_str());
    push_str(&mut s, "  </hp:contents>\n");
    push_str(&mut s, bins.as_str());
    push_str(&mut s, "</hp:HWPMLPackage>");
    assert(s@ =~= content_hpf(doc, rs));
    s
}

// ---------------------------------------------------------------------------
// Image sources to read
// ---------------------------------------------------------------------------

pub open spec fn block_srcs(b: crate::ir::BlockV) -> Seq<Seq<char>>
    decreases b,
{
    match b {
        crate::ir::BlockV::Image { src, .. } => seq![src],
        crate::ir::BlockV::Table { rows, .. } => rows_srcs(rows),
        crate::ir::BlockV::BlockQuote { blocks } => blocks_srcs(blocks),
        crate::ir::BlockV::Footnote { content, .. } => blocks_srcs(content),
        crate::ir::BlockV::List { items, .. } => items_srcs(items),
        _ => Seq::empty(),
    }
}

pub open spec fn blocks_srcs(bs: Seq<crate::ir::BlockV>) -> Seq<Seq<char>>
    decreases bs,
{
    if bs.len() == 0 { Seq::empty() } else { blocks_srcs(bs.drop_last()) + block_srcs(bs.last()) }
}

pub open spec fn rows_srcs(rs: Seq<crate::ir::TableRowV>) -> Seq<Seq<char>>
    decreases rs,
{
    if rs.len() == 0 { Seq::empty() } else { rows_srcs(rs.drop_last()) + cells_srcs(rs.last().cells) }
}

pub open spec fn cells_srcs(cs: Seq<crate::ir::TableCellV>) -> Seq<Seq<char>>
    decreases cs,
{
    if cs.len() == 0 { Seq::empty() } else { cells_srcs(cs.drop_last()) + blocks_srcs(cs.last().blocks) }
}

pub open spec fn items_srcs(its: Seq<crate::ir::ListItemV>) -> Seq<Seq<char>>
    decreases its,
{
    if its.len() == 0 { Seq::empty() } else { items_srcs(its.drop_last()) + item_srcs(its.last()) }
}

pub open spec fn item_srcs(it: crate::ir::ListItemV) -> Seq<Seq<char>>
    decreases it,
{
    blocks_srcs(it.blocks) + items_srcs(it.children)
}

pub open spec fn sections_srcs(ss: Seq<crate::ir::Section>) -> Seq<Seq<char>>
    decreases ss.len(),
{
    if ss.len() == 0 {
        Seq::empty()
    } else {
        sections_srcs(ss.drop_last()) + blocks_srcs(crate::ir::blocks_view(ss.last().blocks@))
    }
}

fn srcs_of_blocks(blocks: &Vec<crate::ir::Block>, out: &mut Vec<String>)
    ensures
        crate::writer::strs_view(final(out)@) == crate::writer::strs_view(old(out)@) + blocks_srcs(crate::ir::blocks_view(blocks@)),
    decreases blocks,
{
    let ghost o = crate::writer::strs_view(out@);
    assert(crate::ir::blocks_view(blocks@.take(0)) == Seq::<crate::ir::BlockV>::empty());
    assert(crate::writer::strs_view(out@) =~= o + blocks_srcs(crate::ir::blocks_view(blocks@.take(0))));
    let mut i: usize = 0;
    while i < blocks.len()
        invariant
            0 <= i <= blocks.len(),
            o == crate::writer::strs_view(old(out)@),
            crate::writer::strs_view(out@) == o + blocks_srcs(crate::ir::blocks_view(blocks@.take(i as int))),
        decreases blocks.len() - i,
    {
        proof {
            crate::ir::lemma_blocks_view_push(blocks@.take(i as int), blocks@[i as int]);
            assert(blocks@.take(i + 1) == blocks@.take(i as int).push(blocks@[i as int]));
            assert(crate::ir::blocks_view(blocks@.take(i + 1)).drop_last() == crate::ir::blocks_view(blocks@.take(i as int)));
        }
        let ghost before = crate::writer::strs_view(out@);
        srcs_of_block(&blocks[i], out);
        proof {
            assert(crate::writer::strs_view(out@) =~= o + blocks_srcs(crate::ir::blocks_view(blocks@.take(i + 1))));
        }
        i = i + 1;
    }
    assert(blocks@.take(blocks.len() as int) == blocks@);
}

fn srcs_of_rows(rows: &Vec<crate::ir::TableRow>, out: &mut Vec<String>)
    ensures
        crate::writer::strs_view(final(out)@) == crate::writer::strs_view(old(out)@) + rows_srcs(crate::ir::rows_view(rows@)),
    decreases rows,
{
    let ghost o = crate::writer::strs_view(out@);
    assert(crate::ir::rows_view(rows@.take(0)) == Seq::<crate::ir::TableRowV>::empty());
    assert(crate::writer::strs_view(out@) =~= o + rows_srcs(crate::ir::rows_view(rows@.take(0))));
    let mut i: usize = 0;
    while i < rows.len()
        invariant
            0 <= i <= rows.len(),
            o == crate::writer::strs_view(old(out)@),
            crate::writer::strs_view(out@) == o + rows_srcs(crate::ir::rows_view(rows@.take(i as int))),
        decreases rows.len() - i,
    {
        proof {
            crate::ir::lemma_rows_view_push(rows@.take(i as int), rows@[i as int]);
            assert(rows@.take(i + 1) == rows@.take(i as int).push(rows@[i as int]));
            assert(crate::ir::rows_view(rows@.take(i + 1)).drop_last() == crate::ir::rows_view(rows@.take(i as int)));
        }
        let ghost before = crate::writer::strs_view(out@);
        srcs_of_cells(&rows[i].cells, out);
        proof {
            assert(crate::writer::strs_view(out@) =~= o + rows_srcs(crate::ir::rows_view(rows@.take(i + 1))));
        }
        i = i + 1;
    }
    assert(rows@.take(rows.len() as int) == rows@);
}

fn srcs_of_cells(cells: &Vec<crate::ir::TableCell>, out: &mut Vec<String>)
    ensures
        crate::writer::strs_view(final(out)@) == crate::writer::strs_view(old(out)@) + cells_srcs(crate::ir::cells_view(cells@)),
    decreases cells,
{
    let ghost o = crate::writer::strs_view(out@);
    assert(crate::ir::cells_view(cells@.take(0)) == Seq::<crate::ir::TableCellV>::empty());
    assert(crate::writer::strs_view(out@) =~= o + cells_srcs(crate::ir::cells_view(cells@.take(0))));
    let mut i: usize = 0;
    while i < cells.len()
        invariant
            0 <= i <= cells.len(),
            o == crate::writer::strs_view(old(out)@),
            crate::writer::strs_view(out@) == o + cells_srcs(crate::ir::cells_view(cells@.take(i as int))),
        decreases cells.len() - i,
    {
        proof {
            crate::ir::lemma_cells_view_push(cells@.take(i as int), cells@[i as int]);
            assert(cells@.take(i + 1) == cells@.take(i as int).push(cells@[i as int]));
            assert(crate::ir::cells_view(cells@.take(i + 1)).drop_last() == crate::ir::cells_view(cells@.take(i as int)));
        }
        let ghost before = crate::writer::strs_view(out@);
        srcs_of_blocks(&cells[i].blocks, out);
        proof {
            assert(crate::writer::strs_view(out@) =~= o + cells_srcs(crate::ir::cells_view(cells@.take(i + 1))));
        }
        i = i + 1;
    }
    assert(cells@.take(cells.len() as int) == cells@);
}

fn srcs_of_items(items: &Vec<crate::ir::ListItem>, out: &mut Vec<String>)
    ensures
        crate::writer::strs_view(final(out)@) == crate::writer::strs_view(old(out)@) + items_srcs(crate::ir::items_view(items@)),
    decreases items,
{
    let ghost o = crate::writer::strs_view(out@);
    assert(crate::ir::items_view(items@.take(0)) == Seq::<crate::ir::ListItemV>::empty());
    assert(crate::writer::strs_view(out@) =~= o + items_srcs(crate::ir::items_view(items@.take(0))));
    let mut i: usize = 0;
    while i < items.len()
        invariant
            0 <= i <= items.len(),
            o == crate::writer::strs_view(old(out)@),
            crate::writer::strs_view(out@) == o + items_srcs(crate::ir::items_view(items@.take(i as int))),
        decreases items.len() - i,
    {
        proof {
            crate::ir::lemma_items_view_push(items@.take(i as int), items@[i as int]);
            assert(items@.take(i + 1) == items@.take(i as int).push(items@[i as int]));
            assert(crate::ir::items_view(items@.take(i + 1)).drop_last() == crate::ir::items_view(items@.take(i as int)));
            let it = items@[i as int]@;
            assert(crate::ir::items_view(items@.take(i + 1)).last() == it);
            assert(it.blocks == crate::ir::blocks_view(items@[i as int].blocks@));
            assert(it.children == crate::ir::items_view(items@[i as int].children@));
        }
        let ghost o1 = crate::writer::strs_view(out@);
        srcs_of_blocks(&items[i].blocks, out);
        let ghost o2 = crate::writer::strs_view(out@);
        srcs_of_items(&items[i].children, out);
        proof {
            let it = items@[i as int]@;
            let pre = crate::ir::items_view(items@.take(i as int));
            assert(items_srcs(crate::ir::items_view(items@.take(i + 1))) == items_srcs(pre) + item_srcs(it));
            assert(o2 == o1 + blocks_srcs(it.blocks));
            assert(crate::writer::strs_view(out@) == o2 + items_srcs(it.children));
            assert(crate::writer::strs_view(out@) =~= o1 + item_srcs(it));
            assert(crate::writer::strs_view(out@) =~= o + items_srcs(crate::ir::items_view(items@.take(i + 1))));
        }
        i = i + 1;
    }
    assert(items@.take(items.len() as int) == items@);
}

fn srcs_of_block(block: &crate::ir::Block, out: &mut Vec<String>)
    ensures
        crate::writer::strs_view(final(out)@) == crate::writer::strs_view(old(out)@) + block_srcs(block@),
    decreases block,
{
    let ghost o = crate::writer::strs_view(out@);
    match block {
        crate::ir::Block::Image { src, .. } => {
            out.push(str_to_string(src.as_str()));
            assert(crate::writer::strs_view(out@) =~= o + block_srcs(block@));
        },
        crate::ir::Block::Table { rows, .. } => srcs_of_rows(rows, out),
        crate::ir::Block::BlockQuote { blocks } => srcs_of_blocks(blocks, out),
        crate::ir::Block::Footnote { content, .. } => srcs_of_blocks(content, out),
        crate::ir::Block::List { items, .. } => srcs_of_items(items, out),
        _ => {
            assert(crate::writer::strs_view(out@) =~= o + block_srcs(block@));
        },
    }
}

/// The `src` of every image that `collect_image_assets` visits, in order:
/// the paths whose files a caller reads before collecting.
pub fn image_sources(doc: &crate::ir::Document) -> (res: Vec<String>)
    ensures
        crate::writer::strs_view(res@) == sections_srcs(doc.sections@),
{
    let mut out: Vec<String> = Vec::new();
    assert(crate::writer::strs_view(out@) =~= Seq::empty());
    let mut k: usize = 0;
    while k < doc.sections.len()
        invariant
            0 <= k <= doc.sections.len(),
            crate::writer::strs_view(out@) == sections_srcs(doc.sections@.take(k as int)),
        decreases doc.sections.len() - k,
    {
        assert(doc.sections@.take(k + 1).drop_last() == doc.sections@.take(k as int));
        assert(doc.sections@.take(k + 1).last() == doc.sections@[k as int]);
        srcs_of_blocks(&doc.sections[k].blocks, &mut out);
        k = k + 1;
    }
    assert(doc.sections@.take(doc.sections.len() as int) == doc.sections@);
    out
}

} // verus!
