//! header.xml: the OWPML reference tables (font faces, border fills,
//! character properties, paragraph properties and styles).
use vstd::prelude::*;
use crate::text::{dec_chars, dec_string};
use crate::writer::{CharPrKey, CharPrKeyV, RefTables, find_index, heading_key, key_id};
use crate::writer_section::{
    AttrsV, attrs1, attrs2, emit, en, em, ev_empty, ev_end, ev_start0, lit, push_attr, st, st0,
};
use crate::xml::{XmlOut, XmlOutV, attrs_view, outs_view};

verus! {

// ---------------------------------------------------------------------------
// What header.xml holds
// ---------------------------------------------------------------------------

/// The language slots of `<hh:fontfaces>`, in order.
pub open spec fn lang_slots() -> Seq<Seq<char>> {
    seq!["HANGUL"@, "LATIN"@, "HANJA"@, "JAPANESE"@, "OTHER"@, "SYMBOL"@, "USER"@]
}

/// The seven per-language attributes of `fontRef`, `ratio`, `spacing`,
/// `relSz` and `offset`, all with the value `v`.
pub open spec fn per_lang(v: Seq<char>) -> AttrsV {
    seq![
        ("hangul"@, v), ("latin"@, v), ("hanja"@, v), ("japanese"@, v),
        ("other"@, v), ("symbol"@, v), ("user"@, v),
    ]
}

/// `<hh:font>` entries for the first `n` faces, IDs by position.
pub open spec fn font_evs(fonts: Seq<Seq<char>>, n: nat) -> Seq<XmlOutV>
    decreases n,
{
    if n == 0 {
        Seq::empty()
    } else {
        font_evs(fonts, (n - 1) as nat).push(em(
            "hh:font"@,
            seq![("id"@, dec_chars((n - 1) as nat)), ("face"@, fonts[n - 1]), ("type"@, "REP"@)],
        ))
    }
}

pub open spec fn fontface_evs(lang: Seq<char>, fonts: Seq<Seq<char>>) -> Seq<XmlOutV> {
    seq![st("hh:fontface"@, seq![("lang"@, lang), ("fontCnt"@, dec_chars(fonts.len()))])]
        + font_evs(fonts, fonts.len()) + seq![en("hh:fontface"@)]
}

/// One `<hh:fontface>` per language slot, for the first `n` slots.
pub open spec fn fontfaces_body(fonts: Seq<Seq<char>>, n: nat) -> Seq<XmlOutV>
    decreases n,
{
    if n == 0 {
        Seq::empty()
    } else {
        fontfaces_body(fonts, (n - 1) as nat) + fontface_evs(lang_slots()[n - 1], fonts)
    }
}

pub open spec fn fontfaces_evs(fonts: Seq<Seq<char>>) -> Seq<XmlOutV> {
    seq![st("hh:fontfaces"@, seq![("itemCnt"@, "7"@)])] + fontfaces_body(fonts, 7) + seq![en("hh:fontfaces"@)]
}

pub open spec fn border_evs(name: Seq<char>) -> XmlOutV {
    em(name, seq![("type"@, "NONE"@), ("width"@, "0.12 mm"@), ("color"@, "000000"@)])
}

pub open spec fn slash_ev(name: Seq<char>) -> XmlOutV {
    em(name, seq![("type"@, "NONE"@), ("Crooked"@, "false"@), ("isCounter"@, "false"@)])
}

/// The single no-border fill.
pub open spec fn border_fills_evs(bf: nat) -> Seq<XmlOutV> {
    seq![
        st("hh:borderFills"@, seq![("itemCnt"@, "1"@)]),
        st("hh:borderFill"@, seq![("id"@, dec_chars(bf)), ("threeD"@, "false"@), ("shadow"@, "false"@)]),
        slash_ev("hh:slash"@),
        slash_ev("hh:backSlash"@),
        border_evs("hh:leftBorder"@),
        border_evs("hh:rightBorder"@),
        border_evs("hh:topBorder"@),
        border_evs("hh:bottomBorder"@),
        border_evs("hh:diagonal"@),
        en("hh:borderFill"@),
        en("hh:borderFills"@),
    ]
}

/// The font ID of a key: the position of its face, 0 when it has none or
/// the face is not listed.
pub open spec fn key_font_id(k: CharPrKeyV, fonts: Seq<Seq<char>>) -> nat {
    match k.font_name {
        Some(n) => match find_index(fonts, n) {
            Some(i) => i,
            None => 0,
        },
        None => 0,
    }
}

/// The attributes of `<hh:charPr>`; superscript wins over subscript.
pub open spec fn char_pr_attrs(k: CharPrKeyV, id: nat, bf: nat) -> AttrsV {
    seq![
        ("id"@, dec_chars(id)),
        ("height"@, dec_chars(k.height as nat)),
        ("textColor"@, match k.color { Some(c) => c, None => "#000000"@ }),
        ("borderFillIDRef"@, dec_chars(bf)),
    ] + (if k.superscript {
        seq![("supscript"@, "superscript"@)]
    } else if k.subscript {
        seq![("supscript"@, "subscript"@)]
    } else {
        Seq::empty()
    })
}

pub open spec fn char_pr_evs(k: CharPrKeyV, id: nat, fonts: Seq<Seq<char>>, bf: nat) -> Seq<XmlOutV> {
    seq![
        st("hh:charPr"@, char_pr_attrs(k, id, bf)),
        em("hh:fontRef"@, per_lang(dec_chars(key_font_id(k, fonts)))),
        em("hh:ratio"@, per_lang("100"@)),
        em("hh:spacing"@, per_lang("0"@)),
        em("hh:relSz"@, per_lang("100"@)),
        em("hh:offset"@, per_lang("0"@)),
        en("hh:charPr"@),
    ]
}

/// `<hh:charPr>` entries for the first `n` keys, IDs by position.
pub open spec fn char_prs_body(keys: Seq<CharPrKeyV>, n: nat, fonts: Seq<Seq<char>>, bf: nat) -> Seq<XmlOutV>
    decreases n,
{
    if n == 0 {
        Seq::empty()
    } else {
        char_prs_body(keys, (n - 1) as nat, fonts, bf) + char_pr_evs(keys[n - 1], (n - 1) as nat, fonts, bf)
    }
}

pub open spec fn char_props_evs(keys: Seq<CharPrKeyV>, fonts: Seq<Seq<char>>, bf: nat) -> Seq<XmlOutV> {
    seq![st("hh:charProperties"@, seq![("itemCnt"@, dec_chars(keys.len()))])]
        + char_prs_body(keys, keys.len(), fonts, bf) + seq![en("hh:charProperties"@)]
}

proof fn lemma_char_prs_body_at(keys: Seq<CharPrKeyV>, n: nat, fonts: Seq<Seq<char>>, bf: nat, j: int)
    requires
        n <= keys.len(),
        0 <= j < n,
    ensures
        char_prs_body(keys, n, fonts, bf).len() == 7 * n,
        char_prs_body(keys, n, fonts, bf)[7 * j] == st("hh:charPr"@, char_pr_attrs(keys[j], j as nat, bf)),
    decreases n,
{
    let pre = char_prs_body(keys, (n - 1) as nat, fonts, bf);
    if n > 1 {
        lemma_char_prs_len(keys, (n - 1) as nat, fonts, bf);
        if j < n - 1 {
            lemma_char_prs_body_at(keys, (n - 1) as nat, fonts, bf, j);
        }
    } else {
        assert(pre =~= Seq::<XmlOutV>::empty());
    }
    lemma_char_prs_len(keys, n, fonts, bf);
}

proof fn lemma_char_prs_len(keys: Seq<CharPrKeyV>, n: nat, fonts: Seq<Seq<char>>, bf: nat)
    ensures
        char_prs_body(keys, n, fonts, bf).len() == 7 * n,
    decreases n,
{
    if n > 0 {
        lemma_char_prs_len(keys, (n - 1) as nat, fonts, bf);
    }
}

/// Each character property of header.xml carries its key's colour: the
/// `j`-th `<hh:charPr>` (ID `j`) has `textColor` equal to the colour of the
/// `j`-th key, and `#000000` only for a key without a colour; it also has
/// the key's height, and `supscript` as the key's superscript (which wins)
/// or subscript, none for a key with neither.
pub proof fn law_char_pr_text_color(keys: Seq<CharPrKeyV>, fonts: Seq<Seq<char>>, bf: nat, j: int)
    requires
        0 <= j < keys.len(),
    ensures
        char_props_evs(keys, fonts, bf)[1 + 7 * j] matches XmlOutV::Start { name, attrs }
            && name == "hh:charPr"@
            && crate::attrs::first_of(attrs, seq!["id"@]) == Some(dec_chars(j as nat))
            && crate::attrs::first_of(attrs, seq!["textColor"@]) == Some(
            match keys[j].color {
                Some(c) => c,
                None => "#000000"@,
            },
        )
            && crate::attrs::first_of(attrs, seq!["height"@]) == Some(dec_chars(keys[j].height as nat))
            && crate::attrs::first_of(attrs, seq!["supscript"@]) == (if keys[j].superscript {
                Some("superscript"@)
            } else if keys[j].subscript {
                Some("subscript"@)
            } else {
                None
            }),
{
    lemma_char_prs_body_at(keys, keys.len(), fonts, bf, j);
    let body = char_prs_body(keys, keys.len(), fonts, bf);
    let head = seq![st("hh:charProperties"@, seq![("itemCnt"@, dec_chars(keys.len()))])];
    assert(char_props_evs(keys, fonts, bf)[1 + 7 * j] == body[7 * j]);
    let a = char_pr_attrs(keys[j], j as nat, bf);
    reveal_strlit("id");
    reveal_strlit("height");
    reveal_strlit("textColor");
    assert("id"@.len() == 2 && "height"@.len() == 6 && "textColor"@.len() == 9);
    assert(seq!["id"@][0] == "id"@);
    assert(seq!["textColor"@][0] == "textColor"@);
    assert(!seq!["textColor"@].contains("id"@)) by {
        assert forall|i: int| 0 <= i < 1 implies seq!["textColor"@][i] != "id"@ by {}
    }
    assert(!seq!["textColor"@].contains("height"@)) by {
        assert forall|i: int| 0 <= i < 1 implies seq!["textColor"@][i] != "height"@ by {}
    }
    reveal_strlit("borderFillIDRef");
    reveal_strlit("supscript");
    assert("borderFillIDRef"@.len() == 15 && "supscript"@.len() == 9);
    assert("supscript"@[0] != "textColor"@[0]);
    let ks = seq!["supscript"@];
    assert(ks[0] == "supscript"@);
    assert forall|i: int| 0 <= i < 4 implies !ks.contains(#[trigger] a[i].0) by {
        assert forall|q: int| 0 <= q < 1 implies ks[q] != a[i].0 by {}
    }
    assert(!seq!["height"@].contains("id"@)) by {
        assert forall|i: int| 0 <= i < 1 implies seq!["height"@][i] != "id"@ by {}
    }
    assert(seq!["height"@][0] == "height"@);
    assert(a.drop_first()[0] == a[1]);
    assert(a.drop_first().drop_first()[0] == a[2]);
    assert(a.drop_first().drop_first().drop_first()[0] == a[3]);
    assert(a.drop_first().drop_first().drop_first().drop_first() =~= a.subrange(4, a.len() as int));
    if keys[j].superscript || keys[j].subscript {
        assert(a.subrange(4, a.len() as int)[0] == a[4]);
        assert(a.subrange(4, a.len() as int).len() == 1);
    } else {
        assert(a.subrange(4, a.len() as int).len() == 0);
    }
    reveal_with_fuel(crate::attrs::first_of, 6);
}

/// In header.xml as written for a document's tables, the character
/// property with ID `j` carries the colour of the `j`-th key (`#000000` only
/// for a key without a colour); `o` is where the character properties start.
pub proof fn law_header_text_color(n_sections: nat, t: &RefTables, j: int)
    requires
        0 <= j < t.keys().len(),
    ensures
        ({
            let o = 4 + fontfaces_evs(t.fonts()).len() + border_fills_evs(t.border_fill_id as nat).len();
            header_evs(n_sections, t)[o + 1 + 7 * j] matches XmlOutV::Start { name, attrs }
                && name == "hh:charPr"@
                && crate::attrs::first_of(attrs, seq!["id"@]) == Some(dec_chars(j as nat))
                && crate::attrs::first_of(attrs, seq!["textColor"@]) == Some(
                match t.keys()[j].color {
                    Some(c) => c,
                    None => "#000000"@,
                },
            )
        }),
{
    let bf = t.border_fill_id as nat;
    let cp = char_props_evs(t.keys(), t.fonts(), bf);
    law_char_pr_text_color(t.keys(), t.fonts(), bf, j);
    lemma_char_prs_len(t.keys(), t.keys().len(), t.fonts(), bf);
    let o = 4 + fontfaces_evs(t.fonts()).len() + border_fills_evs(bf).len();
    assert(header_evs(n_sections, t)[o + 1 + 7 * j] == cp[1 + 7 * j]);
}

pub open spec fn value_ev(name: Seq<char>) -> XmlOutV {
    em(name, seq![("value"@, "0"@)])
}

/// The single default paragraph property.
pub open spec fn para_props_evs() -> Seq<XmlOutV> {
    seq![
        st("hh:paraProperties"@, seq![("itemCnt"@, "1"@)]),
        st("hh:paraPr"@, seq![("id"@, "0"@)]),
        em("hh:align"@, seq![("horizontal"@, "JUSTIFY"@), ("vertical"@, "BASELINE"@)]),
        em("hh:heading"@, seq![("type"@, "NONE"@), ("idRef"@, "0"@), ("level"@, "0"@)]),
        em("hh:breakSetting"@, seq![
            ("breakLatinWord"@, "KEEP_WORD"@),
            ("breakNonLatinWord"@, "KEEP_WORD"@),
            ("widowOrphan"@, "false"@),
            ("keepWithNext"@, "false"@),
            ("keepLines"@, "false"@),
            ("pageBreakBefore"@, "false"@),
            ("lineWrap"@, "BREAK"@),
        ]),
        em("hh:lineSpacing"@, seq![("type"@, "PERCENT"@), ("value"@, "160"@)]),
        st0("hh:margin"@),
        value_ev("hh:intent"@),
        value_ev("hh:left"@),
        value_ev("hh:right"@),
        value_ev("hh:prev"@),
        value_ev("hh:next"@),
        en("hh:margin"@),
        em("hh:border"@, seq![("borderFillIDRef"@, "1"@)]),
        em("hh:autoSpacing"@, seq![("eAsianEng"@, "false"@), ("eAsianNum"@, "false"@)]),
        en("hh:paraPr"@),
        en("hh:paraProperties"@),
    ]
}

pub open spec fn style_ev(id: Seq<char>, name: Seq<char>, char_pr: nat) -> XmlOutV {
    em("hh:style"@, seq![
        ("id"@, id),
        ("type"@, "PARA"@),
        ("name"@, name),
        ("paraPrIDRef"@, "0"@),
        ("charPrIDRef"@, dec_chars(char_pr)),
    ])
}

/// `Heading1` .. `Heading<n>`, each pointing at its heading key.
pub open spec fn heading_styles(keys: Seq<CharPrKeyV>, n: nat) -> Seq<XmlOutV>
    decreases n,
{
    if n == 0 {
        Seq::empty()
    } else {
        heading_styles(keys, (n - 1) as nat).push(style_ev(
            dec_chars(n),
            "Heading"@ + dec_chars(n),
            key_id(keys, heading_key(n as u8)),
        ))
    }
}

/// `Normal` (id 0, plain key) and the six heading styles.
pub open spec fn styles_evs(keys: Seq<CharPrKeyV>) -> Seq<XmlOutV> {
    seq![st("hh:styles"@, seq![("itemCnt"@, "7"@)]), style_ev("0"@, "Normal"@, 0)]
        + heading_styles(keys, 6) + seq![en("hh:styles"@)]
}

/// The events of header.xml for a document of `n_sections` sections.
pub open spec fn header_evs(n_sections: nat, t: &RefTables) -> Seq<XmlOutV> {
    seq![
        XmlOutV::Decl { version: "1.0"@, encoding: "UTF-8"@ },
        st("hh:head"@, seq![
            ("xmlns:hh"@, "http://www.hancom.co.kr/hwpml/2011/head"@),
            ("version"@, "1.1"@),
            ("secCnt"@, dec_chars(if n_sections == 0 { 1 } else { n_sections })),
        ]),
        em("hh:beginNum"@, seq![
            ("page"@, "1"@), ("footnote"@, "1"@), ("endnote"@, "1"@),
            ("pic"@, "1"@), ("tbl"@, "1"@), ("equation"@, "1"@),
        ]),
        st0("hh:refList"@),
    ] + fontfaces_evs(t.fonts()) + border_fills_evs(t.border_fill_id as nat)
        + char_props_evs(t.keys(), t.fonts(), t.border_fill_id as nat) + para_props_evs()
        + styles_evs(t.keys()) + seq![
        en("hh:refList"@),
        em("hh:trackchangeConfig"@, Seq::empty()),
        en("hh:head"@),
    ]
}

// ---------------------------------------------------------------------------
// Writing the events
// ---------------------------------------------------------------------------

fn lang_slot(i: usize) -> (res: &'static str)
    requires
        i < 7,
    ensures
        res@ == lang_slots()[i as int],
{
    proof {
        reveal_strlit("HANGUL");
        reveal_strlit("LATIN");
        reveal_strlit("HANJA");
        reveal_strlit("JAPANESE");
        reveal_strlit("OTHER");
        reveal_strlit("SYMBOL");
        reveal_strlit("USER");
    }
    if i == 0 {
        "HANGUL"
    } else if i == 1 {
        "LATIN"
    } else if i == 2 {
        "HANJA"
    } else if i == 3 {
        "JAPANESE"
    } else if i == 4 {
        "OTHER"
    } else if i == 5 {
        "SYMBOL"
    } else {
        "USER"
    }
}

fn per_lang_attrs(v: &str) -> (res: Vec<(String, String)>)
    ensures
        attrs_view(res@) == per_lang(v@),
{
    let mut a: Vec<(String, String)> = Vec::new();
    push_attr(&mut a, "hangul", lit(v));
    push_attr(&mut a, "latin", lit(v));
    push_attr(&mut a, "hanja", lit(v));
    push_attr(&mut a, "japanese", lit(v));
    push_attr(&mut a, "other", lit(v));
    push_attr(&mut a, "symbol", lit(v));
    push_attr(&mut a, "user", lit(v));
    assert(attrs_view(a@) =~= per_lang(v@));
    a
}

fn attrs3(k1: &str, v1: String, k2: &str, v2: String, k3: &str, v3: String) -> (res: Vec<(String, String)>)
    ensures
        attrs_view(res@) == seq![(k1@, v1@), (k2@, v2@), (k3@, v3@)],
{
    let mut a = attrs2(k1, v1, k2, v2);
    push_attr(&mut a, k3, v3);
    assert(attrs_view(a@) =~= seq![(k1@, v1@), (k2@, v2@), (k3@, v3@)]);
    a
}

fn write_fontface(out: &mut Vec<XmlOut>, lang: &str, tables: &RefTables)
    ensures
        outs_view(final(out)@) == outs_view(old(out)@) + fontface_evs(lang@, tables.fonts()),
{
    let ghost o = outs_view(out@);
    let ghost fonts = tables.fonts();
    emit(out, XmlOut::Start {
        name: lit("hh:fontface"),
        attrs: attrs2("lang", lit(lang), "fontCnt", dec_string(tables.font_names.len() as u128)),
    });
    let ghost o1 = outs_view(out@);
    let mut i: usize = 0;
    while i < tables.font_names.len()
        invariant
            0 <= i <= tables.font_names.len(),
            fonts == tables.fonts(),
            fonts.len() == tables.font_names.len(),
            outs_view(out@) == o1 + font_evs(fonts, i as nat),
        decreases tables.font_names.len() - i,
    {
        let e = ev_empty("hh:font", attrs3(
            "id", dec_string(i as u128),
            "face", tables.font_names[i].clone(),
            "type", lit("REP"),
        ));
        emit(out, e);
        i = i + 1;
    }
    emit(out, ev_end("hh:fontface"));
    assert(outs_view(out@) =~= o + fontface_evs(lang@, fonts));
}

fn write_font_faces(out: &mut Vec<XmlOut>, tables: &RefTables)
    ensures
        outs_view(final(out)@) == outs_view(old(out)@) + fontfaces_evs(tables.fonts()),
{
    let ghost o = outs_view(out@);
    emit(out, XmlOut::Start { name: lit("hh:fontfaces"), attrs: attrs1("itemCnt", lit("7")) });
    let ghost o1 = outs_view(out@);
    let mut i: usize = 0;
    while i < 7
        invariant
            0 <= i <= 7,
            outs_view(out@) == o1 + fontfaces_body(tables.fonts(), i as nat),
        decreases 7 - i,
    {
        write_fontface(out, lang_slot(i), tables);
        i = i + 1;
        assert(outs_view(out@) =~= o1 + fontfaces_body(tables.fonts(), i as nat));
    }
    emit(out, ev_end("hh:fontfaces"));
    assert(outs_view(out@) =~= o + fontfaces_evs(tables.fonts()));
}

fn slash(name: &str) -> (res: XmlOut)
    ensures
        res@ == slash_ev(name@),
{
    ev_empty(name, attrs3("type", lit("NONE"), "Crooked", lit("false"), "isCounter", lit("false")))
}

fn border(name: &str) -> (res: XmlOut)
    ensures
        res@ == border_evs(name@),
{
    ev_empty(name, attrs3("type", lit("NONE"), "width", lit("0.12 mm"), "color", lit("000000")))
}

fn write_border_fills(out: &mut Vec<XmlOut>, tables: &RefTables)
    ensures
        outs_view(final(out)@) == outs_view(old(out)@) + border_fills_evs(tables.border_fill_id as nat),
{
    let ghost o = outs_view(out@);
    emit(out, XmlOut::Start { name: lit("hh:borderFills"), attrs: attrs1("itemCnt", lit("1")) });
    emit(out, XmlOut::Start {
        name: lit("hh:borderFill"),
        attrs: attrs3("id", dec_string(tables.border_fill_id as u128), "threeD", lit("false"), "shadow", lit("false")),
    });
    emit(out, slash("hh:slash"));
    emit(out, slash("hh:backSlash"));
    emit(out, border("hh:leftBorder"));
    emit(out, border("hh:rightBorder"));
    emit(out, border("hh:topBorder"));
    emit(out, border("hh:bottomBorder"));
    emit(out, border("hh:diagonal"));
    emit(out, ev_end("hh:borderFill"));
    emit(out, ev_end("hh:borderFills"));
    assert(outs_view(out@) =~= o + border_fills_evs(tables.border_fill_id as nat));
}

fn key_font_index(key: &CharPrKey, tables: &RefTables) -> (res: usize)
    ensures
        res as nat == key_font_id(key@, tables.fonts()),
{
    match &key.font_name {
        Some(n) => match tables.font_index(n) {
            Some(i) => i,
            None => 0,
        },
        None => 0,
    }
}

fn char_pr_start(key: &CharPrKey, id: usize, bf: u32) -> (res: XmlOut)
    ensures
        res@ == st("hh:charPr"@, char_pr_attrs(key@, id as nat, bf as nat)),
{
    let color = match &key.color {
        Some(c) => c.clone(),
        None => lit("#000000"),
    };
    let mut a = attrs2("id", dec_string(id as u128), "height", dec_string(key.height as u128));
    push_attr(&mut a, "textColor", color);
    push_attr(&mut a, "borderFillIDRef", dec_string(bf as u128));
    if key.superscript {
        push_attr(&mut a, "supscript", lit("superscript"));
    } else if key.subscript {
        push_attr(&mut a, "supscript", lit("subscript"));
    }
    assert(attrs_view(a@) =~= char_pr_attrs(key@, id as nat, bf as nat));
    XmlOut::Start { name: lit("hh:charPr"), attrs: a }
}

fn write_char_pr(out: &mut Vec<XmlOut>, key: &CharPrKey, id: usize, tables: &RefTables)
    ensures
        outs_view(final(out)@) == outs_view(old(out)@)
            + char_pr_evs(key@, id as nat, tables.fonts(), tables.border_fill_id as nat),
{
    let ghost o = outs_view(out@);
    let fid = dec_string(key_font_index(key, tables) as u128);
    emit(out, char_pr_start(key, id, tables.border_fill_id));
    emit(out, ev_empty("hh:fontRef", per_lang_attrs(fid.as_str())));
    emit(out, ev_empty("hh:ratio", per_lang_attrs("100")));
    emit(out, ev_empty("hh:spacing", per_lang_attrs("0")));
    emit(out, ev_empty("hh:relSz", per_lang_attrs("100")));
    emit(out, ev_empty("hh:offset", per_lang_attrs("0")));
    emit(out, ev_end("hh:charPr"));
    assert(outs_view(out@) =~= o + char_pr_evs(key@, id as nat, tables.fonts(), tables.border_fill_id as nat));
}

fn write_char_properties(out: &mut Vec<XmlOut>, tables: &RefTables)
    ensures
        outs_view(final(out)@) == outs_view(old(out)@)
            + char_props_evs(tables.keys(), tables.fonts(), tables.border_fill_id as nat),
{
    let ghost o = outs_view(out@);
    let ghost keys = tables.keys();
    let ghost fonts = tables.fonts();
    let ghost bf = tables.border_fill_id as nat;
    emit(out, XmlOut::Start {
        name: lit("hh:charProperties"),
        attrs: attrs1("itemCnt", dec_string(tables.char_pr_keys.len() as u128)),
    });
    let ghost o1 = outs_view(out@);
    let mut i: usize = 0;
    while i < tables.char_pr_keys.len()
        invariant
            0 <= i <= tables.char_pr_keys.len(),
            keys == tables.keys(),
            fonts == tables.fonts(),
            bf == tables.border_fill_id as nat,
            keys.len() == tables.char_pr_keys.len(),
            outs_view(out@) == o1 + char_prs_body(keys, i as nat, fonts, bf),
        decreases tables.char_pr_keys.len() - i,
    {
        write_char_pr(out, &tables.char_pr_keys[i], i, tables);
        i = i + 1;
        assert(outs_view(out@) =~= o1 + char_prs_body(keys, i as nat, fonts, bf));
    }
    emit(out, ev_end("hh:charProperties"));
    assert(outs_view(out@) =~= o + char_props_evs(keys, fonts, bf));
}

fn value_el(name: &str) -> (res: XmlOut)
    ensures
        res@ == value_ev(name@),
{
    ev_empty(name, attrs1("value", lit("0")))
}

fn break_setting() -> (res: XmlOut)
    ensures
        res@ == em("hh:breakSetting"@, seq![
            ("breakLatinWord"@, "KEEP_WORD"@),
            ("breakNonLatinWord"@, "KEEP_WORD"@),
            ("widowOrphan"@, "false"@),
            ("keepWithNext"@, "false"@),
            ("keepLines"@, "false"@),
            ("pageBreakBefore"@, "false"@),
            ("lineWrap"@, "BREAK"@),
        ]),
{
    let mut a = attrs3("breakLatinWord", lit("KEEP_WORD"), "breakNonLatinWord", lit("KEEP_WORD"), "widowOrphan", lit("false"));
    push_attr(&mut a, "keepWithNext", lit("false"));
    push_attr(&mut a, "keepLines", lit("false"));
    push_attr(&mut a, "pageBreakBefore", lit("false"));
    push_attr(&mut a, "lineWrap", lit("BREAK"));
    let ghost v = attrs_view(a@);
    assert(v =~= seq![
        ("breakLatinWord"@, "KEEP_WORD"@),
        ("breakNonLatinWord"@, "KEEP_WORD"@),
        ("widowOrphan"@, "false"@),
        ("keepWithNext"@, "false"@),
        ("keepLines"@, "false"@),
        ("pageBreakBefore"@, "false"@),
        ("lineWrap"@, "BREAK"@),
    ]);
    ev_empty("hh:breakSetting", a)
}

fn write_para_properties(out: &mut Vec<XmlOut>)
    ensures
        outs_view(final(out)@) == outs_view(old(out)@) + para_props_evs(),
{
    let ghost o = outs_view(out@);
    emit(out, XmlOut::Start { name: lit("hh:paraProperties"), attrs: attrs1("itemCnt", lit("1")) });
    emit(out, XmlOut::Start { name: lit("hh:paraPr"), attrs: attrs1("id", lit("0")) });
    emit(out, ev_empty("hh:align", attrs2("horizontal", lit("JUSTIFY"), "vertical", lit("BASELINE"))));
    emit(out, ev_empty("hh:heading", attrs3("type", lit("NONE"), "idRef", lit("0"), "level", lit("0"))));
    emit(out, break_setting());
    emit(out, ev_empty("hh:lineSpacing", attrs2("type", lit("PERCENT"), "value", lit("160"))));
    emit(out, ev_start0("hh:margin"));
    emit(out, value_el("hh:intent"));
    emit(out, value_el("hh:left"));
    emit(out, value_el("hh:right"));
    emit(out, value_el("hh:prev"));
    emit(out, value_el("hh:next"));
    emit(out, ev_end("hh:margin"));
    emit(out, ev_empty("hh:border", attrs1("borderFillIDRef", lit("1"))));
    emit(out, ev_empty("hh:autoSpacing", attrs2("eAsianEng", lit("false"), "eAsianNum", lit("false"))));
    emit(out, ev_end("hh:paraPr"));
    emit(out, ev_end("hh:paraProperties"));
    assert(outs_view(out@) =~= o + para_props_evs());
}

fn style_el(id: String, name: String, char_pr: usize) -> (res: XmlOut)
    ensures
        res@ == style_ev(id@, name@, char_pr as nat),
{
    let mut a = attrs3("id", id, "type", lit("PARA"), "name", name);
    push_attr(&mut a, "paraPrIDRef", lit("0"));
    push_attr(&mut a, "charPrIDRef", dec_string(char_pr as u128));
    let ghost v = attrs_view(a@);
    assert(v =~= seq![
        ("id"@, id@),
        ("type"@, "PARA"@),
        ("name"@, name@),
        ("paraPrIDRef"@, "0"@),
        ("charPrIDRef"@, dec_chars(char_pr as nat)),
    ]);
    ev_empty("hh:style", a)
}

fn write_styles(out: &mut Vec<XmlOut>, tables: &RefTables)
    ensures
        outs_view(final(out)@) == outs_view(old(out)@) + styles_evs(tables.keys()),
{
    let ghost o = outs_view(out@);
    let ghost keys = tables.keys();
    emit(out, XmlOut::Start { name: lit("hh:styles"), attrs: attrs1("itemCnt", lit("7")) });
    emit(out, style_el(lit("0"), lit("Normal"), 0));
    let ghost o1 = outs_view(out@);
    let mut level: u8 = 1;
    while level <= 6
        invariant
            1 <= level <= 7,
            keys == tables.keys(),
            outs_view(out@) == o1 + heading_styles(keys, (level - 1) as nat),
        decreases 7 - level,
    {
        let mut name = lit("Heading");
        let num = dec_string(level as u128);
        crate::text::push_str(&mut name, num.as_str());
        emit(out, style_el(dec_string(level as u128), name, tables.heading_char_pr_id(level)));
        level = level + 1;
        assert(outs_view(out@) =~= o1 + heading_styles(keys, (level - 1) as nat));
    }
    emit(out, ev_end("hh:styles"));
    assert(outs_view(out@) =~= o + styles_evs(keys));
}

fn head_start(n_sections: usize) -> (res: XmlOut)
    ensures
        res@ == st("hh:head"@, seq![
            ("xmlns:hh"@, "http://www.hancom.co.kr/hwpml/2011/head"@),
            ("version"@, "1.1"@),
            ("secCnt"@, dec_chars(if n_sections == 0 { 1 } else { n_sections as nat })),
        ]),
{
    let cnt: usize = if n_sections == 0 { 1 } else { n_sections };
    XmlOut::Start {
        name: lit("hh:head"),
        attrs: attrs3(
            "xmlns:hh", lit("http://www.hancom.co.kr/hwpml/2011/head"),
            "version", lit("1.1"),
            "secCnt", dec_string(cnt as u128),
        ),
    }
}

fn begin_num() -> (res: XmlOut)
    ensures
        res@ == em("hh:beginNum"@, seq![
            ("page"@, "1"@), ("footnote"@, "1"@), ("endnote"@, "1"@),
            ("pic"@, "1"@), ("tbl"@, "1"@), ("equation"@, "1"@),
        ]),
{
    let mut a = attrs3("page", lit("1"), "footnote", lit("1"), "endnote", lit("1"));
    push_attr(&mut a, "pic", lit("1"));
    push_attr(&mut a, "tbl", lit("1"));
    push_attr(&mut a, "equation", lit("1"));
    let ghost v = attrs_view(a@);
    assert(v =~= seq![
        ("page"@, "1"@), ("footnote"@, "1"@), ("endnote"@, "1"@),
        ("pic"@, "1"@), ("tbl"@, "1"@), ("equation"@, "1"@),
    ]);
    ev_empty("hh:beginNum", a)
}

/// The events of header.xml.
pub fn header_events(n_sections: usize, tables: &RefTables) -> (res: Vec<XmlOut>)
    ensures
        outs_view(res@) == header_evs(n_sections as nat, tables),
{
    let mut out: Vec<XmlOut> = Vec::new();
    emit(&mut out, XmlOut::Decl { version: lit("1.0"), encoding: lit("UTF-8") });
    emit(&mut out, head_start(n_sections));
    emit(&mut out, begin_num());
    emit(&mut out, ev_start0("hh:refList"));
    let ghost o1 = outs_view(out@);
    write_font_faces(&mut out, tables);
    write_border_fills(&mut out, tables);
    write_char_properties(&mut out, tables);
    write_para_properties(&mut out);
    write_styles(&mut out, tables);
    let ghost o2 = outs_view(out@);
    emit(&mut out, ev_end("hh:refList"));
    let none: Vec<(String, String)> = Vec::new();
    assert(attrs_view(none@) =~= Seq::empty());
    emit(&mut out, ev_empty("hh:trackchangeConfig", none));
    emit(&mut out, ev_end("hh:head"));
    assert(outs_view(out@) =~= header_evs(n_sections as nat, tables));
    out
}

/// header.xml for `doc` with the reference tables `tables`.
pub fn generate_header_xml(doc: &crate::ir::Document, tables: &RefTables) -> (res: Result<String, crate::error::HwpxError>)
    ensures
        match res {
            Ok(x) => crate::xml::xml_written(header_evs(doc.sections.len() as nat, tables)) == Some(x@),
            Err(_) => crate::xml::xml_written(header_evs(doc.sections.len() as nat, tables)) is None,
        },
{
    let events = header_events(doc.sections.len(), tables);
    match crate::xml::render(&events) {
        Some(x) => Ok(x),
        None => Err(crate::error::HwpxError::HwpxWrite(lit("header XML is not valid UTF-8"))),
    }
}

} // verus!
