//! The entries of an HWPX archive, in the order they are written.
use vstd::prelude::*;
use crate::error::HwpxError;
use crate::ir::{Document, Section, SectionV};
use crate::writer::RefTables;
use crate::writer_content::{ResolvedAsset, ResolvedAssetV, container_xml, content_hpf, resolved_view, version_xml};
use crate::writer_header::header_evs;
use crate::writer_section::{ImageAssetMap, lit, section_evs, section_fits};
use crate::xml::{attrs_view, xml_written};

verus! {

/// One archive entry: its path, its bytes, and whether it is stored
/// without compression.
#[derive(Debug)]
pub struct Entry {
    pub name: String,
    pub data: Vec<u8>,
    pub stored: bool,
}

pub ghost struct EntryV {
    pub name: Seq<char>,
    pub data: Seq<u8>,
    pub stored: bool,
}

impl View for Entry {
    type V = EntryV;

    open spec fn view(&self) -> EntryV {
        EntryV { name: self.name@, data: self.data@, stored: self.stored }
    }
}

pub open spec fn entries_view(es: Seq<Entry>) -> Seq<EntryV> {
    es.map_values(|e: Entry| e@)
}

pub open spec fn utf8(s: Seq<char>) -> Seq<u8> {
    vstd::utf8::encode_utf8(s)
}

pub open spec fn text_entry(name: Seq<char>, text: Seq<char>) -> EntryV {
    EntryV { name, data: utf8(text), stored: false }
}

pub open spec fn empty_section() -> SectionV {
    SectionV { blocks: Seq::empty(), page_layout: None, header: None, footer: None, header_footer_type: None }
}

/// `Contents/section<i>.xml` for the first `n` sections, or `None` when one
/// of them could not be written.
pub open spec fn section_entries(ss: Seq<Section>, n: nat, t: &RefTables, amap: Seq<(Seq<char>, Seq<char>)>) -> Option<Seq<EntryV>>
    decreases n,
{
    if n == 0 {
        Some(Seq::empty())
    } else {
        match (section_entries(ss, (n - 1) as nat, t, amap), xml_written(section_evs(ss[n - 1]@, t, amap))) {
            (Some(es), Some(x)) => Some(es.push(text_entry(
                "Contents/section"@ + crate::text::dec_chars((n - 1) as nat) + ".xml"@,
                x,
            ))),
            _ => None,
        }
    }
}

/// The section entries: one per section, or an empty `section0.xml`.
pub open spec fn all_section_entries(doc: &Document, t: &RefTables, amap: Seq<(Seq<char>, Seq<char>)>) -> Option<Seq<EntryV>> {
    if doc.sections.len() == 0 {
        match xml_written(section_evs(empty_section(), t, amap)) {
            Some(x) => Some(seq![text_entry("Contents/section0.xml"@, x)]),
            None => None,
        }
    } else {
        section_entries(doc.sections@, doc.sections.len() as nat, t, amap)
    }
}

pub open spec fn bin_entries(rs: Seq<ResolvedAssetV>) -> Seq<EntryV>
    decreases rs.len(),
{
    if rs.len() == 0 {
        Seq::empty()
    } else {
        bin_entries(rs.drop_last()).push(EntryV {
            name: "BinData/"@ + rs.last().entry_name,
            data: rs.last().data,
            stored: false,
        })
    }
}

/// The whole archive: the uncompressed `mimetype` first, then container,
/// version, header, manifest, sections and images.
pub open spec fn package(doc: &Document, t: &RefTables, amap: Seq<(Seq<char>, Seq<char>)>, rs: Seq<ResolvedAssetV>) -> Option<Seq<EntryV>> {
    match (xml_written(header_evs(doc.sections.len() as nat, t)), all_section_entries(doc, t, amap)) {
        (Some(h), Some(secs)) => Some(seq![
            EntryV { name: "mimetype"@, data: utf8("application/hwp+zip"@), stored: true },
            text_entry("META-INF/container.xml"@, container_xml()),
            text_entry("version.xml"@, version_xml()),
            text_entry("Contents/header.xml"@, h),
            text_entry("Contents/content.hpf"@, content_hpf(doc, rs)),
        ] + secs + bin_entries(rs)),
        _ => None,
    }
}

pub open spec fn all_sections_fit(ss: Seq<Section>) -> bool {
    forall|i: int| 0 <= i < ss.len() ==> section_fits(#[trigger] ss[i]@)
}

fn bytes_of(s: &String) -> (res: Vec<u8>)
    ensures
        res@ == utf8(s@),
{
    vstd::slice::slice_to_vec(s.as_str().as_bytes())
}

fn text_entry_of(name: String, text: &String) -> (res: Entry)
    ensures
        res@ == text_entry(name@, text@),
{
    Entry { name, data: bytes_of(text), stored: false }
}

fn push_sections(
    out: &mut Vec<Entry>,
    doc: &Document,
    tables: &RefTables,
    asset_map: &ImageAssetMap,
) -> (ok: bool)
    requires
        all_sections_fit(doc.sections@),
    ensures
        match all_section_entries(doc, tables, attrs_view(asset_map@)) {
            Some(es) => ok && entries_view(final(out)@) == entries_view(old(out)@) + es,
            None => !ok,
        },
{
    let ghost o = entries_view(out@);
    let ghost amap = attrs_view(asset_map@);
    if doc.sections.len() == 0 {
        let empty = Section::default();
        assert(empty@ == empty_section());
        match crate::writer_section::generate_section_xml(&empty, 0, tables, asset_map) {
            Ok(x) => {
                out.push(text_entry_of(lit("Contents/section0.xml"), &x));
                assert(entries_view(out@) =~= o + seq![text_entry("Contents/section0.xml"@, x@)]);
                return true;
            },
            Err(_) => return false,
        }
    }
    let mut i: usize = 0;
    while i < doc.sections.len()
        invariant
            0 <= i <= doc.sections.len(),
            o == entries_view(old(out)@),
            amap == attrs_view(asset_map@),
            all_sections_fit(doc.sections@),
            section_entries(doc.sections@, i as nat, tables, amap) is Some,
            entries_view(out@) == o + section_entries(doc.sections@, i as nat, tables, amap).unwrap(),
        decreases doc.sections.len() - i,
    {
        assert(section_fits(doc.sections@[i as int]@));
        match crate::writer_section::generate_section_xml(&doc.sections[i], i, tables, asset_map) {
            Ok(x) => {
                let mut name = lit("Contents/section");
                let d = crate::text::dec_string(i as u128);
                crate::text::push_str(&mut name, d.as_str());
                crate::text::push_str(&mut name, ".xml");
                let ghost before = entries_view(out@);
                out.push(text_entry_of(name, &x));
                assert(entries_view(out@) =~= before.push(text_entry(
                    "Contents/section"@ + crate::text::dec_chars(i as nat) + ".xml"@,
                    x@,
                )));
            },
            Err(_) => {
                proof { lemma_section_entries_none(doc.sections@, (i + 1) as nat, doc.sections.len() as nat, tables, amap); }
                return false;
            },
        }
        i = i + 1;
    }
    true
}

proof fn lemma_section_entries_none(ss: Seq<Section>, j: nat, k: nat, t: &RefTables, amap: Seq<(Seq<char>, Seq<char>)>)
    requires
        j <= k,
        section_entries(ss, j, t, amap) is None,
    ensures
        section_entries(ss, k, t, amap) is None,
    decreases k,
{
    if k > j {
        lemma_section_entries_none(ss, j, (k - 1) as nat, t, amap);
    }
}

/// The archive entries of `doc`, given the reference tables built from it
/// and the images collected from it.  An error when a part's XML could not
/// be written.
pub fn package_entries(
    doc: &Document,
    tables: &RefTables,
    asset_map: &ImageAssetMap,
    resolved: &Vec<ResolvedAsset>,
) -> (res: Result<Vec<Entry>, HwpxError>)
    requires
        all_sections_fit(doc.sections@),
    ensures
        match package(doc, tables, attrs_view(asset_map@), resolved_view(resolved@)) {
            Some(es) => res is Ok && entries_view(res->Ok_0@) == es,
            None => res is Err,
        },
{
    let ghost rs = resolved_view(resolved@);
    let header = match crate::writer_header::generate_header_xml(doc, tables) {
        Ok(h) => h,
        Err(e) => return Err(e),
    };
    let mut out: Vec<Entry> = Vec::new();
    let mime = lit("application/hwp+zip");
    out.push(Entry { name: lit("mimetype"), data: bytes_of(&mime), stored: true });
    out.push(text_entry_of(lit("META-INF/container.xml"), &crate::writer_content::generate_container_xml()));
    out.push(text_entry_of(lit("version.xml"), &crate::writer_content::generate_version_xml()));
    out.push(text_entry_of(lit("Contents/header.xml"), &header));
    out.push(text_entry_of(lit("Contents/content.hpf"), &crate::writer_content::generate_content_hpf(doc, resolved)));
    let ghost head = entries_view(out@);
    if !push_sections(&mut out, doc, tables, asset_map) {
        return Err(HwpxError::HwpxWrite(lit("section XML could not be written")));
    }
    let ghost with_secs = entries_view(out@);
    let mut k: usize = 0;
    while k < resolved.len()
        invariant
            0 <= k <= resolved.len(),
            rs == resolved_view(resolved@),
            entries_view(out@) == with_secs + bin_entries(rs.take(k as int)),
        decreases resolved.len() - k,
    {
        let mut name = lit("BinData/");
        crate::text::push_str(&mut name, resolved[k].entry_name.as_str());
        let data = vstd::slice::slice_to_vec(resolved[k].data.as_slice());
        let ghost before = entries_view(out@);
        out.push(Entry { name, data, stored: false });
        assert(rs.take(k + 1).drop_last() == rs.take(k as int));
        assert(entries_view(out@) =~= before.push(EntryV {
            name: "BinData/"@ + rs[k as int].entry_name,
            data: rs[k as int].data,
            stored: false,
        }));
        k = k + 1;
    }
    assert(rs.take(resolved.len() as int) == rs);
    assert(entries_view(out@) =~= package(doc, tables, attrs_view(asset_map@), rs).unwrap());
    Ok(out)
}

} // verus!
