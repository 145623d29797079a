use hwpx::ir::{Block, Document, Metadata, Section};
use hwpx::writer::{RefTables};
use hwpx::writer_content::{collect_image_assets};
use hwpx::reader::{find_bin_files, find_section_files, read_document};
use hwpx::style::{StyleTemplate};
use hwpx::package::{package_entries, Entry};
use hwpx::error::{HwpxError};

fn entry_names(entries: &[Entry]) -> Vec<String> {
    entries.iter().map(|e| e.name.clone()).collect()
}

/// The document the reader makes of archive entries.
fn read_entries(entries: &[Entry]) -> Document {
    let names = entry_names(entries);
    let text = |name: &str| {
        entries.iter().find(|e| e.name == name).and_then(|e| String::from_utf8(e.data.clone()).ok())
    };
    let header = text("Contents/header.xml").or_else(|| text("header.xml"));
    let manifest = text("Contents/content.hpf");
    let section_files = find_section_files(manifest.as_deref(), &names);
    let section_texts: Vec<Option<String>> = section_files.iter().map(|n| text(n)).collect();
    let bin_files = find_bin_files(&names);
    let bin_data = bin_files
        .iter()
        .map(|n| entries.iter().find(|e| &e.name == n).map(|e| e.data.clone()))
        .collect();
    read_document(header.as_deref(), &section_texts, &bin_files, bin_data)
}

/// The archive entries the writer produces for `doc` (no image file is
/// read from disk).
fn try_write_entries(doc: &Document, style: Option<StyleTemplate>) -> Result<Vec<Entry>, HwpxError> {
    let tables = RefTables::build(doc, style);
    let (map, resolved) = collect_image_assets(doc, &Vec::new());
    package_entries(doc, &tables, &map, &resolved)
}

fn write_entries(doc: &Document, style: Option<StyleTemplate>) -> Vec<Entry> {
    try_write_entries(doc, style).expect("package_entries failed")
}

#[test]
fn roundtrip_blockquote_content_preserved() {
    let doc = Document {
        metadata: Metadata::default(),
        sections: vec![Section {
            blocks: vec![Block::BlockQuote {
                blocks: vec![Block::Paragraph {
                    inlines: vec![hwpx::fixtures::inline("roundtrip quote")],
                }],
            }],
            ..Default::default()
        }],
        assets: Vec::new(),
    };
    let archive = write_entries(&doc, None);
    let read_back = read_entries(&archive);

    // The text must survive the roundtrip.  The reader currently does not
    // reconstruct BlockQuote from paraPrIDRef, so the content appears as
    // a plain Paragraph -- that is acceptable for now.
    let has_quote_text = read_back
        .sections
        .iter()
        .flat_map(|s| &s.blocks)
        .any(|b| match b {
            Block::Paragraph { inlines } => inlines.iter().any(|i| i.text == "roundtrip quote"),
            Block::BlockQuote { blocks } => blocks.iter().any(|b2| {
                matches!(b2, Block::Paragraph { inlines } if inlines.iter().any(|i| i.text == "roundtrip quote"))
            }),
            _ => false,
        });
    assert!(
        has_quote_text,
        "blockquote text must survive HWPX roundtrip; sections: {:?}",
        read_back.sections
    );
}
