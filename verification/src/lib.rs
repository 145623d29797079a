use vstd::prelude::*;

pub mod error;
pub mod ir;
pub mod text;
pub mod xml;
pub mod style;
pub mod writer;
pub mod writer_section;
pub mod writer_header;
pub mod writer_content;
pub mod package;
pub mod context;
pub mod flush;
pub mod attrs;
pub mod handlers;
pub mod reader;
pub mod limits;
pub mod fixtures;
pub mod readback;
pub mod para_ids;
pub mod bin_resolve;

verus! {
}
