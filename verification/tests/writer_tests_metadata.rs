use hwpx::ir::{Asset, Block, Document, Metadata, Section};
use hwpx::writer::{RefTables};
use hwpx::writer_content::{collect_image_assets, generate_content_hpf};
use hwpx::fixtures::{doc_with_section, section};
use hwpx::style::{StyleTemplate};
use hwpx::package::{package_entries, Entry};
use hwpx::error::{HwpxError};

fn entry_names(entries: &[Entry]) -> Vec<String> {
    entries.iter().map(|e| e.name.clone()).collect()
}

/// The archive entries the writer produces for `doc` (no image file is
/// read from disk).
fn try_write_entries(doc: &Document, style: Option<StyleTemplate>) -> Result<Vec<Entry>, HwpxError> {
    let tables = RefTables::build(doc, style);
    let (map, resolved) = collect_image_assets(doc, &Vec::new());
    package_entries(doc, &tables, &map, &resolved)
}

fn write_entries(doc: &Document, style: Option<StyleTemplate>) -> Vec<Entry> {
    try_write_entries(doc, style).expect("package_entries failed")
}

#[test]
fn content_hpf_with_title_and_author() {
    let doc = Document {
        metadata: Metadata {
            title: Some("Test Title".into()),
            author: Some("Test Author".into()),
            ..Metadata::default()
        },
        sections: vec![Section {
            blocks: vec![Block::Paragraph {
                inlines: vec![hwpx::fixtures::inline("hello")],
            }],
            ..Default::default()
        }],
        assets: Vec::new(),
    };
    let hpf = generate_content_hpf(&doc, &Vec::new());

    assert!(
        hpf.contains("<hp:docInfo>"),
        "docInfo section must be present: {hpf}"
    );
    assert!(
        hpf.contains("<hp:title>Test Title</hp:title>"),
        "title must be present: {hpf}"
    );
    assert!(
        hpf.contains("<hp:author>Test Author</hp:author>"),
        "author must be present: {hpf}"
    );
    assert!(
        hpf.contains("</hp:docInfo>"),
        "docInfo closing tag: {hpf}"
    );
}

#[test]
fn content_hpf_without_metadata_has_no_docinfo() {
    let doc = Document::new();
    let hpf = generate_content_hpf(&doc, &Vec::new());

    assert!(
        !hpf.contains("<hp:docInfo>"),
        "docInfo must NOT appear when metadata is empty: {hpf}"
    );
}

#[test]
fn content_hpf_title_only() {
    let doc = Document {
        metadata: Metadata {
            title: Some("Only Title".into()),
            ..Metadata::default()
        },
        sections: Vec::new(),
        assets: Vec::new(),
    };
    let hpf = generate_content_hpf(&doc, &Vec::new());

    assert!(
        hpf.contains("<hp:title>Only Title</hp:title>"),
        "title: {hpf}"
    );
    assert!(
        !hpf.contains("<hp:author>"),
        "author must NOT appear when absent: {hpf}"
    );
}

#[test]
fn content_hpf_author_only() {
    let doc = Document {
        metadata: Metadata {
            author: Some("Only Author".into()),
            ..Metadata::default()
        },
        sections: Vec::new(),
        assets: Vec::new(),
    };
    let hpf = generate_content_hpf(&doc, &Vec::new());

    assert!(
        !hpf.contains("<hp:title>"),
        "title must NOT appear: {hpf}"
    );
    assert!(
        hpf.contains("<hp:author>Only Author</hp:author>"),
        "author: {hpf}"
    );
}

#[test]
fn content_hpf_metadata_xml_escaping() {
    let doc = Document {
        metadata: Metadata {
            title: Some("A & B <C>".into()),
            author: Some("D & E".into()),
            ..Metadata::default()
        },
        sections: Vec::new(),
        assets: Vec::new(),
    };
    let hpf = generate_content_hpf(&doc, &Vec::new());

    assert!(
        hpf.contains("A &amp; B &lt;C&gt;"),
        "title must be XML-escaped: {hpf}"
    );
    assert!(
        hpf.contains("D &amp; E"),
        "author must be XML-escaped: {hpf}"
    );
}

#[test]
fn write_hwpx_empty_doc_produces_required_entries() {
    let doc = Document::new();
    let archive = write_entries(&doc, None);

    let entries = entry_names(&archive);
    assert!(entries.contains(&"mimetype".to_owned()), "{entries:?}");
    assert!(
        entries.contains(&"META-INF/container.xml".to_owned()),
        "{entries:?}"
    );
    assert!(
        entries.contains(&"Contents/header.xml".to_owned()),
        "{entries:?}"
    );
    assert!(
        entries.contains(&"Contents/content.hpf".to_owned()),
        "{entries:?}"
    );
    assert!(
        entries.contains(&"Contents/section0.xml".to_owned()),
        "{entries:?}"
    );
}

#[test]
fn write_hwpx_single_section_produces_section0_xml() {
    let doc = doc_with_section(vec![Block::Paragraph {
        inlines: vec![hwpx::fixtures::inline("hello")],
    }]);
    let archive = write_entries(&doc, None);

    let entries = entry_names(&archive);
    assert!(
        entries.contains(&"Contents/section0.xml".to_owned()),
        "{entries:?}"
    );
    // With one explicit section there should NOT be a duplicate section0.
    assert_eq!(
        entries.iter().filter(|e| e.contains("section")).count(),
        1,
        "exactly one section entry: {entries:?}"
    );
}

#[test]
fn write_hwpx_two_sections_produces_section0_and_section1() {
    let doc = Document {
        metadata: Metadata::default(),
        sections: vec![
            Section {
                blocks: vec![Block::Paragraph {
                    inlines: vec![hwpx::fixtures::inline("s0")],
                }],
                ..Default::default()
            },
            Section {
                blocks: vec![Block::Paragraph {
                    inlines: vec![hwpx::fixtures::inline("s1")],
                }],
                ..Default::default()
            },
        ],
        assets: Vec::new(),
    };
    let archive = write_entries(&doc, None);

    let entries = entry_names(&archive);
    assert!(
        entries.contains(&"Contents/section0.xml".to_owned()),
        "{entries:?}"
    );
    assert!(
        entries.contains(&"Contents/section1.xml".to_owned()),
        "{entries:?}"
    );
}

#[test]
fn write_hwpx_with_bindata_asset_produces_bindata_entry() {
    let doc = Document {
        metadata: Metadata::default(),
        sections: Vec::new(),
        assets: vec![Asset {
            name: "photo.png".into(),
            data: vec![0x89, 0x50, 0x4e, 0x47],
            mime_type: "image/png".into(),
        }],
    };
    let archive = write_entries(&doc, None);

    let entries = entry_names(&archive);
    assert!(
        entries.contains(&"BinData/photo.png".to_owned()),
        "{entries:?}"
    );
}

#[test]
fn write_hwpx_asset_with_path_prefix_uses_basename_only() {
    let doc = Document {
        metadata: Metadata::default(),
        sections: Vec::new(),
        assets: vec![Asset {
            name: "/some/nested/path/image.jpg".into(),
            data: vec![0xFF, 0xD8],
            mime_type: "image/jpeg".into(),
        }],
    };
    let archive = write_entries(&doc, None);

    let entries = entry_names(&archive);
    // Only the basename should be used inside BinData/.
    assert!(
        entries.contains(&"BinData/image.jpg".to_owned()),
        "{entries:?}"
    );
    assert!(
        !entries.iter().any(|e| e.contains("/some/nested/")),
        "path prefix must be stripped: {entries:?}"
    );
}
