use hwpx::ir::{Block, Document, ListItem, Metadata, Section};
use hwpx::writer::{RefTables};
use hwpx::writer_section::{generate_section_xml, ImageAssetMap};
use hwpx::fixtures::{bold_inline, section};

fn section_xml(blocks: Vec<Block>) -> String {
    let doc = Document {
        metadata: Metadata::default(),
        sections: vec![Section { blocks: blocks.clone(), ..Default::default() }],
        assets: Vec::new(),
    };
    let tables = RefTables::build(&doc, None);
    let sec = Section { blocks, ..Default::default() };
    let empty_asset_map = ImageAssetMap::new();
    generate_section_xml(&sec, 0, &tables, &empty_asset_map).expect("generate_section_xml failed")
}

#[test]
fn section_xml_unordered_list_item_has_num_pr_id_ref_1() {
    let xml = section_xml(vec![Block::List {
        ordered: false,
        start: 1,
        items: vec![ListItem {
            blocks: vec![Block::Paragraph {
                inlines: vec![hwpx::fixtures::inline("bullet item")],
            }],
            children: vec![],
            checked: None,
        }],
    }]);
    assert!(
        !xml.contains("numPrIDRef"),
        "unordered list item must NOT have a numPrIDRef attribute (no BULLET numbering):\n{xml}"
    );
    assert!(
        xml.contains("bullet item"),
        "item text must be present: {xml}"
    );
}

#[test]
fn section_xml_unordered_list_item_has_para_pr_id_ref_2() {
    let xml = section_xml(vec![Block::List {
        ordered: false,
        start: 1,
        items: vec![ListItem {
            blocks: vec![Block::Paragraph {
                inlines: vec![hwpx::fixtures::inline("bullet")],
            }],
            children: vec![],
            checked: None,
        }],
    }]);
    assert!(
        xml.contains(r#"paraPrIDRef="2""#),
        "unordered list item must have paraPrIDRef=\"2\":\n{xml}"
    );
    // Must NOT use the default paragraph style.
    assert!(
        !xml.contains(r#"paraPrIDRef="0""#),
        "list item must NOT use paraPrIDRef=\"0\":\n{xml}"
    );
}

#[test]
fn section_xml_multiple_unordered_items_all_have_num_pr_id_ref_1() {
    let xml = section_xml(vec![Block::List {
        ordered: false,
        start: 1,
        items: vec![
            ListItem {
                blocks: vec![Block::Paragraph {
                    inlines: vec![hwpx::fixtures::inline("alpha")],
                }],
                children: vec![],
                checked: None,
            },
            ListItem {
                blocks: vec![Block::Paragraph {
                    inlines: vec![hwpx::fixtures::inline("beta")],
                }],
                children: vec![],
                checked: None,
            },
            ListItem {
                blocks: vec![Block::Paragraph {
                    inlines: vec![hwpx::fixtures::inline("gamma")],
                }],
                children: vec![],
                checked: None,
            },
        ],
    }]);
    assert!(
        !xml.contains("numPrIDRef"),
        "unordered list items must NOT carry numPrIDRef (no BULLET numbering): {xml}"
    );
    assert!(xml.contains("alpha"), "{xml}");
    assert!(xml.contains("beta"), "{xml}");
    assert!(xml.contains("gamma"), "{xml}");
}

#[test]
fn section_xml_ordered_list_item_has_num_pr_id_ref_2() {
    let xml = section_xml(vec![Block::List {
        ordered: true,
        start: 1,
        items: vec![ListItem {
            blocks: vec![Block::Paragraph {
                inlines: vec![hwpx::fixtures::inline("first")],
            }],
            children: vec![],
            checked: None,
        }],
    }]);
    assert!(
        xml.contains(r#"numPrIDRef="1""#),
        "ordered list item must have numPrIDRef=\"1\" (DIGIT, id=1):\n{xml}"
    );
    assert!(xml.contains("first"), "item text must be present: {xml}");
}

#[test]
fn section_xml_ordered_list_item_has_para_pr_id_ref_2() {
    let xml = section_xml(vec![Block::List {
        ordered: true,
        start: 1,
        items: vec![ListItem {
            blocks: vec![Block::Paragraph {
                inlines: vec![hwpx::fixtures::inline("numbered")],
            }],
            children: vec![],
            checked: None,
        }],
    }]);
    assert!(
        xml.contains(r#"paraPrIDRef="2""#),
        "ordered list item must have paraPrIDRef=\"2\":\n{xml}"
    );
}

#[test]
fn section_xml_multiple_ordered_items_all_have_num_pr_id_ref_2() {
    let xml = section_xml(vec![Block::List {
        ordered: true,
        start: 1,
        items: vec![
            ListItem {
                blocks: vec![Block::Paragraph {
                    inlines: vec![hwpx::fixtures::inline("one")],
                }],
                children: vec![],
                checked: None,
            },
            ListItem {
                blocks: vec![Block::Paragraph {
                    inlines: vec![hwpx::fixtures::inline("two")],
                }],
                children: vec![],
                checked: None,
            },
        ],
    }]);
    let count = xml.matches(r#"numPrIDRef="1""#).count();
    assert_eq!(
        count, 2,
        "two ordered list items must each have numPrIDRef=\"1\"; found {count}: {xml}"
    );
}

#[test]
fn section_xml_ordered_and_unordered_use_different_num_pr_id_refs() {
    // Ordered list in the same document as unordered list.
    let xml = section_xml(vec![
        Block::List {
            ordered: false,
            start: 1,
            items: vec![ListItem {
                blocks: vec![Block::Paragraph {
                    inlines: vec![hwpx::fixtures::inline("bullet")],
                }],
                children: vec![],
                checked: None,
            }],
        },
        Block::List {
            ordered: true,
            start: 1,
            items: vec![ListItem {
                blocks: vec![Block::Paragraph {
                    inlines: vec![hwpx::fixtures::inline("number")],
                }],
                children: vec![],
                checked: None,
            }],
        },
    ]);
    // Ordered list item uses numPrIDRef="1" (DIGIT).
    assert!(
        xml.contains(r#"numPrIDRef="1""#),
        "ordered list item numPrIDRef=\"1\" must appear:\n{xml}"
    );
    // Both items must have their text.
    assert!(
        xml.contains("bullet"),
        "unordered text 'bullet' must appear: {xml}"
    );
    assert!(
        xml.contains("number"),
        "ordered text 'number' must appear: {xml}"
    );
}

#[test]
fn section_xml_list_items_produce_correct_paragraph_count() {
    let xml = section_xml(vec![Block::List {
        ordered: false,
        start: 1,
        items: vec![
            ListItem {
                blocks: vec![Block::Paragraph {
                    inlines: vec![hwpx::fixtures::inline("a")],
                }],
                children: vec![],
                checked: None,
            },
            ListItem {
                blocks: vec![Block::Paragraph {
                    inlines: vec![hwpx::fixtures::inline("b")],
                }],
                children: vec![],
                checked: None,
            },
            ListItem {
                blocks: vec![Block::Paragraph {
                    inlines: vec![hwpx::fixtures::inline("c")],
                }],
                children: vec![],
                checked: None,
            },
        ],
    }]);
    let p_count = xml.matches("<hp:p ").count();
    assert_eq!(
        p_count, 3,
        "three list items must produce three <hp:p> elements; found {p_count}: {xml}"
    );
}

#[test]
fn section_xml_empty_list_produces_no_paragraphs() {
    let xml = section_xml(vec![Block::List {
        ordered: false,
        start: 1,
        items: vec![],
    }]);
    // The section wrapper is present but no <hp:p> elements inside.
    assert!(
        !xml.contains("<hp:p "),
        "empty list must produce no <hp:p> elements:\n{xml}"
    );
}

#[test]
fn section_xml_list_item_with_bold_inline_has_both_num_pr_and_charpr() {
    let xml = section_xml(vec![Block::List {
        ordered: false,
        start: 1,
        items: vec![ListItem {
            blocks: vec![Block::Paragraph {
                inlines: vec![bold_inline("important")],
            }],
            children: vec![],
            checked: None,
        }],
    }]);
    assert!(
        !xml.contains("numPrIDRef"),
        "unordered bold list item must NOT have numPrIDRef (no BULLET numbering):\n{xml}"
    );
    assert!(
        xml.contains(r#"bold="true""#),
        "bold attribute must be present on inline charPr:\n{xml}"
    );
    assert!(
        xml.contains("important"),
        "text content must be present: {xml}"
    );
}

#[test]
fn section_xml_list_item_empty_paragraph_no_panic() {
    let xml = section_xml(vec![Block::List {
        ordered: true,
        start: 1,
        items: vec![ListItem {
            blocks: vec![Block::Paragraph { inlines: vec![] }],
            children: vec![],
            checked: None,
        }],
    }]);
    assert!(
        xml.contains(r#"numPrIDRef="1""#),
        "empty paragraph ordered list item must have numPrIDRef=\"1\" (DIGIT):\n{xml}"
    );
    assert!(
        xml.contains("<hp:p "),
        "paragraph element must be emitted: {xml}"
    );
}

#[test]
fn section_xml_nested_list_via_children_uses_para_pr_id_ref_3() {
    let xml = section_xml(vec![Block::List {
        ordered: false,
        start: 1,
        items: vec![ListItem {
            blocks: vec![Block::Paragraph {
                inlines: vec![hwpx::fixtures::inline("parent item")],
            }],
            children: vec![ListItem {
                blocks: vec![Block::Paragraph {
                    inlines: vec![hwpx::fixtures::inline("child item")],
                }],
                children: vec![],
                checked: None,
            }],
            checked: None,
        }],
    }]);
    assert!(xml.contains("parent item"), "parent item text: {xml}");
    assert!(xml.contains("child item"), "child item text: {xml}");
    // Parent item: paraPrIDRef="2" (depth=0)
    assert!(
        xml.contains(r#"paraPrIDRef="2""#),
        "parent item must have paraPrIDRef=\"2\":\n{xml}"
    );
    // Child item: paraPrIDRef="3" (depth=1)
    assert!(
        xml.contains(r#"paraPrIDRef="3""#),
        "child item must have paraPrIDRef=\"3\":\n{xml}"
    );
}

#[test]
fn section_xml_nested_block_list_inside_item_uses_para_pr_id_ref_3() {
    let xml = section_xml(vec![Block::List {
        ordered: false,
        start: 1,
        items: vec![ListItem {
            blocks: vec![
                Block::Paragraph {
                    inlines: vec![hwpx::fixtures::inline("outer item")],
                },
                // Nested list as a block inside the item.
                Block::List {
                    ordered: true,
                    start: 1,
                    items: vec![ListItem {
                        blocks: vec![Block::Paragraph {
                            inlines: vec![hwpx::fixtures::inline("inner item")],
                        }],
                        children: vec![],
                        checked: None,
                    }],
                },
            ],
            children: vec![],
            checked: None,
        }],
    }]);
    assert!(xml.contains("outer item"), "outer item text: {xml}");
    assert!(xml.contains("inner item"), "inner item text: {xml}");
    // Inner list items must be at depth=1, using paraPrIDRef="3".
    assert!(
        xml.contains(r#"paraPrIDRef="3""#),
        "nested block list items must have paraPrIDRef=\"3\":\n{xml}"
    );
}

#[test]
fn section_xml_list_paragraph_ids_are_sequential() {
    let xml = section_xml(vec![Block::List {
        ordered: false,
        start: 1,
        items: vec![
            ListItem {
                blocks: vec![Block::Paragraph {
                    inlines: vec![hwpx::fixtures::inline("item 0")],
                }],
                children: vec![],
                checked: None,
            },
            ListItem {
                blocks: vec![Block::Paragraph {
                    inlines: vec![hwpx::fixtures::inline("item 1")],
                }],
                children: vec![],
                checked: None,
            },
        ],
    }]);
    assert!(
        xml.contains(r#"id="0""#),
        "first list paragraph must be id=0: {xml}"
    );
    assert!(
        xml.contains(r#"id="1""#),
        "second list paragraph must be id=1: {xml}"
    );
}

#[test]
fn section_xml_list_paragraph_ids_continue_after_preceding_blocks() {
    let xml = section_xml(vec![
        Block::Paragraph {
            inlines: vec![hwpx::fixtures::inline("before")],
        },
        Block::List {
            ordered: false,
            start: 1,
            items: vec![ListItem {
                blocks: vec![Block::Paragraph {
                    inlines: vec![hwpx::fixtures::inline("list item")],
                }],
                children: vec![],
                checked: None,
            }],
        },
    ]);
    // Paragraph "before" gets id=0; list item gets id=1.
    assert!(
        xml.contains(r#"id="0""#),
        "normal paragraph must be id=0: {xml}"
    );
    assert!(xml.contains(r#"id="1""#), "list item must be id=1: {xml}");
}
