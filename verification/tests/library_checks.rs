use hwpx::context::{PageLayoutState, TableState};
use hwpx::flush::{group_list_paragraphs, StagedBlock};
use hwpx::ir::{Asset, Block, Document, Inline, ListItem, Metadata, PageLayout, Section};
use hwpx::limits::{images_fit, sections_fit_ids};
use hwpx::reader::{build_bin_map, guess_mime_from_name, parse_section_xml, read_bin_asset, read_document};
use hwpx::writer::{CharPrKey, RefTables};
use hwpx::writer_content::{
    base64_decode, classify_image_src, collect_image_assets, image_sources, unique_entry_name,
    xml_escape_content, ImageSource, ResolvedAsset,
};
use hwpx::writer_section::generate_section_xml;

fn para(text: &str) -> Block {
    Block::Paragraph { inlines: vec![Inline::plain(text)] }
}

fn one_section(blocks: Vec<Block>) -> Document {
    Document {
        metadata: Metadata::default(),
        sections: vec![Section { blocks, ..Default::default() }],
        assets: Vec::new(),
    }
}

fn texts(blocks: &[Block]) -> Vec<String> {
    blocks
        .iter()
        .map(|b| match b {
            Block::Paragraph { inlines } => inlines.iter().map(|i| i.text.as_str()).collect(),
            other => panic!("expected a paragraph, got {other:?}"),
        })
        .collect()
}

#[test]
fn plain_text_has_char_pr_id_zero_and_formats_get_their_own_entry() {
    let bold = Inline { text: "b".into(), bold: true, ..Inline::default() };
    let italic = Inline { text: "i".into(), italic: true, ..Inline::default() };
    let doc = one_section(vec![Block::Paragraph {
        inlines: vec![Inline::plain("p"), bold.clone(), italic.clone()],
    }]);
    let tables = RefTables::build(&doc, None);
    assert_eq!(tables.char_pr_id(&CharPrKey::plain()), 0);
    let bold_id = tables.char_pr_id(&CharPrKey::from_inline(&bold, "Courier New"));
    let italic_id = tables.char_pr_id(&CharPrKey::from_inline(&italic, "Courier New"));
    assert_ne!(bold_id, 0);
    assert_ne!(italic_id, 0);
    assert_ne!(bold_id, italic_id);
    assert!(tables.char_pr_keys[bold_id].bold);
    assert!(tables.char_pr_keys[italic_id].italic);
}

#[test]
fn every_mapped_image_names_an_embedded_entry() {
    // "aGk=" is the base64 of "hi".
    let doc = Document {
        metadata: Metadata::default(),
        sections: vec![Section {
            blocks: vec![
                Block::Image { src: "data:image/png;base64,aGk=".into(), alt: String::new() },
                Block::Image { src: "photos/cat.png".into(), alt: String::new() },
                Block::Image { src: "https://example.com/x.png".into(), alt: String::new() },
            ],
            ..Default::default()
        }],
        assets: vec![Asset { name: "BinData/cat.png".into(), data: vec![1, 2], mime_type: "image/png".into() }],
    };
    let files = vec![("photos/cat.png".to_string(), vec![9u8, 9])];
    let (map, resolved) = collect_image_assets(&doc, &files);
    for (_, entry) in &map {
        assert!(resolved.iter().any(|r| &r.entry_name == entry), "{entry} missing from {resolved:?}");
    }
    let names: Vec<&str> = resolved.iter().map(|r| r.entry_name.as_str()).collect();
    // The document's asset keeps its bare name, the data URI is numbered,
    // the file is renamed to stay unique, the remote URL is not embedded.
    assert_eq!(names, ["cat.png", "image_1.png", "cat_2.png"]);
    assert_eq!(resolved[1].data, b"hi");
    assert!(!map.iter().any(|(k, _)| k.starts_with("https://")));
}

#[test]
fn file_images_are_named_by_their_bare_file_name() {
    let doc = one_section(vec![Block::Image { src: "a/b/photo.jpg".into(), alt: String::new() }]);
    let files = vec![("a/b/photo.jpg".to_string(), vec![1u8])];
    let (map, resolved) = collect_image_assets(&doc, &files);
    assert_eq!(map, vec![("a/b/photo.jpg".to_string(), "photo.jpg".to_string())]);
    assert_eq!(resolved[0].mime_type, "image/jpeg");
}

#[test]
fn unreadable_file_images_are_left_out() {
    let doc = one_section(vec![Block::Image { src: "missing.png".into(), alt: String::new() }]);
    let (map, resolved) = collect_image_assets(&doc, &Vec::new());
    assert!(map.is_empty());
    assert!(resolved.is_empty());
}

#[test]
fn unique_entry_name_counts_up_from_two() {
    let taken = |names: &[&str]| -> Vec<ResolvedAsset> {
        names
            .iter()
            .map(|n| ResolvedAsset { entry_name: n.to_string(), data: Vec::new(), mime_type: String::new() })
            .collect()
    };
    assert_eq!(unique_entry_name("a.png", &taken(&[])), "a.png");
    assert_eq!(unique_entry_name("a.png", &taken(&["a.png"])), "a_2.png");
    assert_eq!(unique_entry_name("a.png", &taken(&["a.png", "a_2.png"])), "a_3.png");
    assert_eq!(unique_entry_name("noext", &taken(&["noext"])), "noext_2");
}

#[test]
fn grouped_list_keeps_every_paragraph_in_order() {
    let staged = vec![
        StagedBlock::Plain(para("before")),
        StagedBlock::ListPara { depth: 1, ordered: true, block: para("orphan") },
        StagedBlock::ListPara { depth: 0, ordered: false, block: para("a") },
        StagedBlock::ListPara { depth: 1, ordered: false, block: para("a.1") },
        StagedBlock::ListPara { depth: 1, ordered: false, block: para("a.2") },
        StagedBlock::Plain(para("after")),
    ];
    let blocks = group_list_paragraphs(staged);
    assert_eq!(blocks.len(), 3);
    match &blocks[1] {
        Block::List { ordered, start, items } => {
            assert!(*ordered, "the first paragraph of the run decides the kind");
            assert_eq!(*start, 1);
            assert_eq!(items.len(), 2);
            assert_eq!(texts(&items[0].blocks), ["orphan"]);
            assert_eq!(texts(&items[1].blocks), ["a"]);
            let children: Vec<&ListItem> = items[1].children.iter().collect();
            assert_eq!(texts(&children[0].blocks), ["a.1"]);
            assert_eq!(texts(&children[1].blocks), ["a.2"]);
        }
        other => panic!("expected a list, got {other:?}"),
    }
}

#[test]
fn small_documents_fit_the_counters() {
    let doc = one_section(vec![para("x"), Block::Image { src: "i.png".into(), alt: String::new() }]);
    assert!(sections_fit_ids(&doc.sections));
    assert!(images_fit(&doc));
}

#[test]
fn xml_escape_replaces_the_five_markup_characters() {
    assert_eq!(xml_escape_content(r#"a<b>&"c'"#), "a&lt;b&gt;&amp;&quot;c&apos;");
    assert_eq!(xml_escape_content("plain"), "plain");
}

#[test]
fn image_sources_are_classified() {
    assert_eq!(classify_image_src("https://x/y.png"), ImageSource::RemoteUrl);
    assert_eq!(
        classify_image_src("data:image/gif;base64,R0lG"),
        ImageSource::DataUri { subtype: "gif".into(), payload: "R0lG".into() }
    );
    assert_eq!(classify_image_src("data:image/gif,R0lG"), ImageSource::FilePath("data:image/gif,R0lG".into()));
    assert_eq!(classify_image_src("pic.png"), ImageSource::FilePath("pic.png".into()));
}

#[test]
fn image_sources_walk_nested_blocks_in_order() {
    let doc = one_section(vec![
        Block::Image { src: "1.png".into(), alt: String::new() },
        Block::BlockQuote { blocks: vec![Block::Image { src: "2.png".into(), alt: String::new() }] },
        Block::Footnote { id: "1".into(), content: vec![Block::Image { src: "3.png".into(), alt: String::new() }] },
    ]);
    assert_eq!(image_sources(&doc), ["1.png", "2.png", "3.png"]);
}

#[test]
fn base64_decode_ignores_whitespace_and_padding() {
    assert_eq!(base64_decode(" aGVs\nbG8= ").unwrap(), b"hello");
    assert_eq!(base64_decode("TWFu").unwrap(), b"Man");
    // Unpadded tails of two or three characters still give bytes; a lone
    // trailing character gives none.
    assert_eq!(base64_decode("aGVsbG8").unwrap(), b"hello");
    assert_eq!(base64_decode("aGVsb").unwrap(), b"hel");
}

#[test]
fn bin_assets_are_named_by_their_file_name() {
    let asset = read_bin_asset(&"Contents/BinData/BIN0002.JPG".to_string(), vec![7]);
    assert_eq!(asset.name, "BIN0002.JPG");
    assert_eq!(asset.mime_type, "image/jpeg");
    assert_eq!(asset.data, vec![7]);
    assert_eq!(guess_mime_from_name("x.EMF"), "image/x-emf");
    assert_eq!(guess_mime_from_name("x.wmf"), "image/x-wmf");
    assert_eq!(guess_mime_from_name("x"), "application/octet-stream");
}

#[test]
fn bin_map_keys_are_file_stems() {
    let map = build_bin_map(&vec!["BinData/a.b.png".to_string(), "Other/c.png".to_string()]);
    assert!(map.iter().any(|(k, v)| k == "a.b" && v == "BinData/a.b.png"));
}

#[test]
fn read_document_resolves_images_and_skips_unreadable_sections() {
    let section = r#"<hs:sec><hp:p><hp:run><hp:pic><hp:img binaryItemIDRef="BIN0001"/></hp:pic></hp:run></hp:p></hs:sec>"#;
    let doc = read_document(
        None,
        &vec![None, Some(section.to_string())],
        &vec!["BinData/BIN0001.png".to_string()],
        vec![Some(vec![1, 2, 3])],
    );
    assert_eq!(doc.sections.len(), 1);
    match &doc.sections[0].blocks[0] {
        Block::Image { src, .. } => assert_eq!(src, "BinData/BIN0001.png"),
        other => panic!("expected an image, got {other:?}"),
    }
    assert_eq!(doc.assets.len(), 1);
    assert_eq!(doc.assets[0].name, "BIN0001.png");
}

#[test]
fn page_setup_parsers_keep_what_they_cannot_read() {
    let attrs = |pairs: &[(&str, &str)]| -> Vec<(String, String)> {
        pairs.iter().map(|(k, v)| (k.to_string(), v.to_string())).collect()
    };
    let mut p = PageLayoutState::default();
    p.parse_page_size(&attrs(&[("width", "100"), ("height", "+7"), ("width", "x")]));
    assert_eq!(p.width, Some(100));
    assert_eq!(p.height, Some(7));
    p.parse_page_pr(&attrs(&[("landscape", "1"), ("landscape", "maybe")]));
    assert!(p.landscape);
    let mut t = TableState::default();
    t.parse_in_margin(&attrs(&[("left", "5"), ("left", "-1")]));
    let m = t.inner_margin.unwrap();
    assert_eq!((m.left, m.right, m.top, m.bottom), (5, 141, 141, 141));
}

#[test]
fn a4_portrait_is_what_the_writer_falls_back_to() {
    let doc = one_section(vec![para("x")]);
    let tables = RefTables::build(&doc, None);
    let with_default = generate_section_xml(&doc.sections[0], 0, &tables, &Vec::new()).unwrap();
    let explicit = Section { page_layout: Some(PageLayout::a4_portrait()), ..doc.sections[0].clone() };
    let with_a4 = generate_section_xml(&explicit, 0, &tables, &Vec::new()).unwrap();
    assert_eq!(with_default, with_a4);
}

#[test]
fn section_reading_never_fails() {
    for xml in ["", "<", "<a><b></a>", "<<<>>>", "&&&"] {
        assert!(parse_section_xml(xml).is_ok(), "{xml:?}");
    }
}

#[test]
fn read_document_resolves_run_fonts_through_the_header() {
    let header = r#"<hh:head><hh:refList><hh:fontfaces><hh:fontface lang="HANGUL"><hh:font id="0" face="A"/><hh:font id="1" face="B"/></hh:fontface></hh:fontfaces></hh:refList></hh:head>"#;
    let section = r#"<hs:sec><hp:p><hp:run><hp:charPr faceNameIDRef="1"/><hp:t>x</hp:t></hp:run></hp:p></hs:sec>"#;
    let with_header = read_document(Some(header), &vec![Some(section.to_string())], &Vec::new(), Vec::new());
    let without = read_document(None, &vec![Some(section.to_string())], &Vec::new(), Vec::new());
    match (&with_header.sections[0].blocks[0], &without.sections[0].blocks[0]) {
        (Block::Paragraph { inlines: a }, Block::Paragraph { inlines: b }) => {
            assert_eq!(a[0].font_name.as_deref(), Some("B"));
            assert_eq!(b[0].font_name, None);
        }
        other => panic!("{other:?}"),
    }
}

// White space anywhere inside a wrapped encoding is skipped.
#[test]
fn base64_decode_wrapped_encoding_reads_back() {
    let png_magic: &[u8] = &[0x89, 0x50, 0x4E, 0x47, 0x0D, 0x0A, 0x1A, 0x0A];
    assert_eq!(base64_decode("iVBORw0KGgo=").unwrap(), png_magic);
    assert_eq!(base64_decode("iVBO Rw0K\r\nGg\to=\n").unwrap(), png_magic);
}

fn nested_list(inner: Vec<Block>) -> Block {
    Block::List {
        ordered: false,
        start: 1,
        items: vec![ListItem {
            blocks: vec![para("outer")],
            children: vec![ListItem { blocks: inner, children: Vec::new(), checked: None }],
            checked: None,
        }],
    }
}

// The reference tables cover the runs of nested list items too.
#[test]
fn nested_list_item_runs_get_char_properties() {
    let deep = Inline { text: "deep".into(), bold: true, ..Inline::default() };
    let doc = one_section(vec![nested_list(vec![Block::Paragraph { inlines: vec![deep] }])]);
    let tables = RefTables::build(&doc, None);
    assert!(tables.char_pr_keys.iter().any(|k| k.bold), "{:?}", tables.char_pr_keys);
}

// Images inside nested list items are collected like any other.
#[test]
fn nested_list_item_images_are_collected() {
    let doc = one_section(vec![nested_list(vec![Block::Image { src: "a/pic.png".into(), alt: String::new() }])]);
    let files = vec![("a/pic.png".to_string(), vec![7u8])];
    let (map, resolved) = collect_image_assets(&doc, &files);
    assert_eq!(map, vec![("a/pic.png".to_string(), "pic.png".to_string())]);
    assert_eq!(resolved.len(), 1);
}

// Paragraph IDs run 0, 1, 2, ... through tables, lists and quotes.
#[test]
fn paragraph_ids_run_consecutively() {
    let cell = |t: &str| hwpx::ir::TableCell { blocks: vec![para(t)], colspan: 1, rowspan: 1 };
    let blocks = vec![
        para("first"),
        Block::Table {
            rows: vec![hwpx::ir::TableRow { cells: vec![cell("a"), cell("b")], is_header: false }],
            col_count: 2,
        },
        nested_list(vec![para("deep")]),
        Block::BlockQuote { blocks: vec![para("quoted")] },
        para("last"),
    ];
    let doc = one_section(blocks);
    let tables = RefTables::build(&doc, None);
    let map = hwpx::writer_section::ImageAssetMap::new();
    let xml = generate_section_xml(&doc.sections[0], 0, &tables, &map).expect("section xml");
    let ids: Vec<u32> = xml
        .match_indices("<hp:p id=\"")
        .map(|(k, m)| {
            let rest = &xml[k + m.len()..];
            rest[..rest.find('"').unwrap()].parse().unwrap()
        })
        .collect();
    let expected: Vec<u32> = (0..ids.len() as u32).collect();
    assert_eq!(ids, expected);
    assert_eq!(ids.len(), 8);
}
