//! User style template: fonts and page geometry that override the writer's
//! built-in defaults.
use vstd::prelude::*;

verus! {

#[derive(Debug, Clone, PartialEq)]
pub struct FontStyle {
    /// Body font face.
    pub default: Option<String>,
    /// Font face for code.
    pub code: Option<String>,
}

#[derive(Debug, Clone, Copy, PartialEq, Eq)]
pub struct PageMargin {
    pub left: Option<u32>,
    pub right: Option<u32>,
    pub top: Option<u32>,
    pub bottom: Option<u32>,
}

#[derive(Debug, Clone, Copy, PartialEq, Eq)]
pub struct PageStyle {
    pub width: Option<u32>,
    pub height: Option<u32>,
    pub landscape: Option<bool>,
    pub margin: PageMargin,
}

#[derive(Debug, Clone, PartialEq)]
pub struct StyleTemplate {
    pub font: FontStyle,
    pub page: PageStyle,
}

impl Default for StyleTemplate {
    fn default() -> (res: Self)
        ensures
            res.font.default is None,
            res.font.code is None,
            res.page == (PageStyle {
                width: None,
                height: None,
                landscape: None,
                margin: PageMargin { left: None, right: None, top: None, bottom: None },
            }),
    {
        StyleTemplate {
            font: FontStyle { default: None, code: None },
            page: PageStyle {
                width: None,
                height: None,
                landscape: None,
                margin: PageMargin { left: None, right: None, top: None, bottom: None },
            },
        }
    }
}

} // verus!
