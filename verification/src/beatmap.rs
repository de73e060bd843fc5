//! The errors of decoding a whole beatmap.
use vstd::prelude::*;

use crate::section::colors::ParseColorsError;
use crate::section::editor::ParseEditorError;
use crate::section::hit_objects::decode::ParseHitObjectsError;
use crate::section::metadata::ParseMetadataError;

verus! {

/// All the ways that parsing a `.osu` file into a whole beatmap can fail.
#[derive(Copy, Clone, Debug, PartialEq, Eq, Structural)]
pub enum ParseBeatmapError {
    Colors(ParseColorsError),
    Editor(ParseEditorError),
    HitObjects(ParseHitObjectsError),
    Metadata(ParseMetadataError),
}

} // verus!
