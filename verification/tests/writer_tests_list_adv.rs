use hwpx::ir::{Block, Document, Metadata, Section};
use hwpx::writer::{RefTables};
use hwpx::writer_section::{generate_section_xml, ImageAssetMap};
use hwpx::fixtures::{task_item};

fn section_xml(blocks: Vec<Block>) -> String {
    let doc = Document {
        metadata: Metadata::default(),
        sections: vec![Section { blocks: blocks.clone(), ..Default::default() }],
        assets: Vec::new(),
    };
    let tables = RefTables::build(&doc, None);
    let sec = Section { blocks, ..Default::default() };
    let empty_asset_map = ImageAssetMap::new();
    generate_section_xml(&sec, 0, &tables, &empty_asset_map).expect("generate_section_xml failed")
}

#[test]
fn section_xml_unchecked_task_item_has_unchecked_checkbox_char() {
    let xml = section_xml(vec![Block::List {
        ordered: false,
        start: 1,
        items: vec![task_item("todo", Some(false))],
    }]);
    assert!(
        xml.contains("☐"),
        "unchecked task item must emit '☐' checkbox character:\n{xml}"
    );
    assert!(xml.contains("todo"), "item text must be present: {xml}");
}

#[test]
fn section_xml_checked_task_item_has_checked_checkbox_char() {
    let xml = section_xml(vec![Block::List {
        ordered: false,
        start: 1,
        items: vec![task_item("done", Some(true))],
    }]);
    assert!(
        xml.contains("☑"),
        "checked task item must emit '☑' checkbox character:\n{xml}"
    );
    assert!(xml.contains("done"), "item text must be present: {xml}");
}

#[test]
fn section_xml_normal_item_has_no_checkbox_char() {
    let xml = section_xml(vec![Block::List {
        ordered: false,
        start: 1,
        items: vec![task_item("plain", None)],
    }]);
    assert!(
        !xml.contains("☐") && !xml.contains("☑"),
        "normal list item must NOT emit a checkbox character:\n{xml}"
    );
    assert!(xml.contains("plain"), "item text must be present: {xml}");
}

#[test]
fn section_xml_task_list_mixed_items() {
    let xml = section_xml(vec![Block::List {
        ordered: false,
        start: 1,
        items: vec![
            task_item("done", Some(true)),
            task_item("todo", Some(false)),
            task_item("plain", None),
        ],
    }]);
    assert!(xml.contains("☑"), "checked item must have ☑: {xml}");
    assert!(xml.contains("☐"), "unchecked item must have ☐: {xml}");
    assert!(xml.contains("done"), "done text: {xml}");
    assert!(xml.contains("todo"), "todo text: {xml}");
    assert!(xml.contains("plain"), "plain text: {xml}");
    // Plain item must not duplicate checkbox chars — count occurrences
    let checked_count = xml.matches('☑').count();
    let unchecked_count = xml.matches('☐').count();
    assert_eq!(
        checked_count, 1,
        "exactly one ☑ for one checked item: {xml}"
    );
    assert_eq!(
        unchecked_count, 1,
        "exactly one ☐ for one unchecked item: {xml}"
    );
}
