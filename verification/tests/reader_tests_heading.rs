use hwpx::handlers::{parse_heading_style, style_ref_heading};


#[test]
fn reader_tests_heading_parse_heading_style_heading1() {
    assert_eq!(parse_heading_style("Heading1"), Some(1));
}

#[test]
fn reader_tests_heading_parse_heading_style_heading6() {
    assert_eq!(parse_heading_style("Heading6"), Some(6));
}

#[test]
fn reader_tests_heading_parse_heading_style_korean_title() {
    // "제목1" -> 1
    assert_eq!(parse_heading_style("제목1"), Some(1));
}

#[test]
fn reader_tests_heading_parse_heading_style_korean_outline_3() {
    // "개요3" -> 3
    assert_eq!(parse_heading_style("개요3"), Some(3));
}

#[test]
fn reader_tests_heading_parse_heading_style_normal_is_none() {
    assert_eq!(parse_heading_style("Normal"), None);
}

#[test]
fn reader_tests_heading_parse_heading_style_body_text_is_none() {
    assert_eq!(parse_heading_style("BodyText"), None);
}

#[test]
fn reader_tests_heading_parse_heading_style_case_insensitive() {
    assert_eq!(parse_heading_style("HEADING2"), Some(2));
}

// A heading name without a trailing digit is level 1 (see
// `parse_heading_style_heading_no_digit_defaults_to_1` in reader_tests.rs,
// which states what the reader does); the expectation of no level for it
// (`parse_heading_style_heading_no_digit_returns_none`) is stale and has no
// test here. A trailing number outside 1–6 names no level.
#[test]
fn parse_heading_style_out_of_range_number_is_none() {
    assert_eq!(parse_heading_style("Heading7"), None);
    assert_eq!(parse_heading_style("\u{C81C}\u{BAA9}"), Some(1));
}

// Bare numeric strings are not style names and return None.
#[test]
fn parse_heading_style_numeric_1_is_none() {
    assert_eq!(parse_heading_style("1"), None);
}

#[test]
fn parse_heading_style_numeric_6_is_none() {
    assert_eq!(parse_heading_style("6"), None);
}

#[test]
fn parse_heading_style_numeric_7_is_none() {
    assert_eq!(parse_heading_style("7"), None);
}

#[test]
fn parse_heading_style_numeric_0_is_none() {
    assert_eq!(parse_heading_style("0"), None);
}

// A paragraph's numeric styleIDRef 1–6 is the heading style of that ID.
#[test]
fn style_ref_numeric_id_is_heading_level() {
    assert_eq!(style_ref_heading("2"), Some(2));
    assert_eq!(style_ref_heading("0"), None);
    assert_eq!(style_ref_heading("7"), None);
    assert_eq!(style_ref_heading("Heading3"), Some(3));
    assert_eq!(style_ref_heading("Heading"), Some(1));
}
