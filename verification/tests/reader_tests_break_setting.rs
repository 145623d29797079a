use hwpx::ir::{BreakSetting};
use hwpx::reader::{parse_break_setting};


#[test]
fn break_setting_defaults_all_false() {
    let bs = BreakSetting::default();
    assert!(!bs.widow_orphan, "widow_orphan must default to false");
    assert!(!bs.keep_with_next, "keep_with_next must default to false");
    assert!(!bs.keep_lines, "keep_lines must default to false");
    assert!(!bs.page_break_before, "page_break_before must default to false");
}

#[test]
fn break_setting_empty_xml_yields_defaults() {
    let bs = parse_break_setting("");
    assert_eq!(bs, BreakSetting::default(), "empty XML must yield default BreakSetting");
}

#[test]
fn break_setting_no_para_pr_yields_defaults() {
    let xml = r#"<?xml version="1.0"?>
<hh:head xmlns:hh="http://www.hancom.co.kr/hwpml/2011/head">
  <hh:refList>
    <hh:paraProperties itemCnt="0"/>
  </hh:refList>
</hh:head>"#;
    let bs = parse_break_setting(xml);
    assert_eq!(bs, BreakSetting::default(), "header with no paraPr must yield defaults");
}

#[test]
fn break_setting_widow_orphan_true_parsed() {
    let xml = r#"<?xml version="1.0"?>
<hh:head xmlns:hh="http://www.hancom.co.kr/hwpml/2011/head">
  <hh:refList>
    <hh:paraProperties itemCnt="1">
      <hh:paraPr id="0">
        <hh:breakSetting breakLatinWord="KEEP_WORD" breakNonLatinWord="KEEP_WORD"
                         widowOrphan="true" keepWithNext="false"
                         keepLines="false" pageBreakBefore="false" lineWrap="BREAK"/>
      </hh:paraPr>
    </hh:paraProperties>
  </hh:refList>
</hh:head>"#;
    let bs = parse_break_setting(xml);
    assert!(bs.widow_orphan, "widowOrphan=\"true\" must parse to true");
    assert!(!bs.keep_with_next, "keepWithNext must remain false");
    assert!(!bs.keep_lines, "keepLines must remain false");
    assert!(!bs.page_break_before, "pageBreakBefore must remain false");
}

#[test]
fn break_setting_keep_with_next_true_parsed() {
    let xml = r#"<?xml version="1.0"?>
<hh:head xmlns:hh="http://www.hancom.co.kr/hwpml/2011/head">
  <hh:refList>
    <hh:paraProperties itemCnt="1">
      <hh:paraPr id="0">
        <hh:breakSetting breakLatinWord="KEEP_WORD" breakNonLatinWord="KEEP_WORD"
                         widowOrphan="false" keepWithNext="true"
                         keepLines="false" pageBreakBefore="false" lineWrap="BREAK"/>
      </hh:paraPr>
    </hh:paraProperties>
  </hh:refList>
</hh:head>"#;
    let bs = parse_break_setting(xml);
    assert!(!bs.widow_orphan, "widowOrphan must remain false");
    assert!(bs.keep_with_next, "keepWithNext=\"true\" must parse to true");
    assert!(!bs.keep_lines, "keepLines must remain false");
    assert!(!bs.page_break_before, "pageBreakBefore must remain false");
}

#[test]
fn break_setting_all_true_parsed() {
    let xml = r#"<?xml version="1.0"?>
<hh:head xmlns:hh="http://www.hancom.co.kr/hwpml/2011/head">
  <hh:refList>
    <hh:paraProperties itemCnt="1">
      <hh:paraPr id="0">
        <hh:breakSetting breakLatinWord="KEEP_WORD" breakNonLatinWord="KEEP_WORD"
                         widowOrphan="true" keepWithNext="true"
                         keepLines="true" pageBreakBefore="true" lineWrap="BREAK"/>
      </hh:paraPr>
    </hh:paraProperties>
  </hh:refList>
</hh:head>"#;
    let bs = parse_break_setting(xml);
    assert!(bs.widow_orphan, "widowOrphan must be true");
    assert!(bs.keep_with_next, "keepWithNext must be true");
    assert!(bs.keep_lines, "keepLines must be true");
    assert!(bs.page_break_before, "pageBreakBefore must be true");
}

#[test]
fn break_setting_all_false_parsed() {
    let xml = r#"<?xml version="1.0"?>
<hh:head xmlns:hh="http://www.hancom.co.kr/hwpml/2011/head">
  <hh:refList>
    <hh:paraProperties itemCnt="1">
      <hh:paraPr id="0">
        <hh:breakSetting breakLatinWord="KEEP_WORD" breakNonLatinWord="KEEP_WORD"
                         widowOrphan="false" keepWithNext="false"
                         keepLines="false" pageBreakBefore="false" lineWrap="BREAK"/>
      </hh:paraPr>
    </hh:paraProperties>
  </hh:refList>
</hh:head>"#;
    let bs = parse_break_setting(xml);
    assert_eq!(bs, BreakSetting::default(), "all-false paraPr must equal BreakSetting::default()");
}

#[test]
fn break_setting_only_id0_is_read() {
    let xml = r#"<?xml version="1.0"?>
<hh:head xmlns:hh="http://www.hancom.co.kr/hwpml/2011/head">
  <hh:refList>
    <hh:paraProperties itemCnt="2">
      <hh:paraPr id="0">
        <hh:breakSetting breakLatinWord="KEEP_WORD" breakNonLatinWord="KEEP_WORD"
                         widowOrphan="false" keepWithNext="false"
                         keepLines="false" pageBreakBefore="false" lineWrap="BREAK"/>
      </hh:paraPr>
      <hh:paraPr id="1">
        <hh:breakSetting breakLatinWord="KEEP_WORD" breakNonLatinWord="KEEP_WORD"
                         widowOrphan="true" keepWithNext="true"
                         keepLines="true" pageBreakBefore="true" lineWrap="BREAK"/>
      </hh:paraPr>
    </hh:paraProperties>
  </hh:refList>
</hh:head>"#;
    let bs = parse_break_setting(xml);
    assert_eq!(
        bs,
        BreakSetting::default(),
        "breakSetting from id=1 must NOT bleed into result; only id=0 is used"
    );
}
