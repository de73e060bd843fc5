//! De- and encoding of `.osu` beatmap files.
//!
//! The [`DecodeBeatmap`] trait reads the content of a `.osu` file line by
//! line and hands each line to the parser of its section; types such as
//! [`section::metadata::Metadata`] implement it for one or a few sections.
use vstd::prelude::*;

pub mod beatmap;
pub mod decode;
pub mod encode;
pub mod format_version;
pub mod number;
pub mod reader;
pub mod section;
pub mod text;

pub use crate::decode::{from_bytes, from_str, DecodeBeatmap, DecodeState};
pub use crate::format_version::LATEST_FORMAT_VERSION;

verus! {

} // verus!
