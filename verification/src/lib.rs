//! Icon assets, normalised and encoded.
//!
//! Icon sets and standalone SVG documents are held in one data model, encoded
//! into FlatBuffers archives in a canonical order, and rendered as component
//! source text for several UI frameworks.

use vstd::prelude::*;

pub mod archive;
pub mod converters;
pub mod order;
pub mod pattern;
pub mod readers;
pub mod text;
pub mod xml;

pub use readers::{IconSetsReader, SvglReader};

verus! {

/// A reader for icon sets, holding none.
pub fn icon_sets() -> (reader: IconSetsReader)
    ensures
        reader@.len() == 0,
{
    IconSetsReader::new()
}

/// A reader for standalone icons, holding none.
pub fn svgl() -> (reader: SvglReader)
    ensures
        reader@.len() == 0,
        reader.wf(),
{
    SvglReader::new()
}

} // verus!
