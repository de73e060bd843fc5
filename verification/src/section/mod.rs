//! Section-specific types.
use vstd::prelude::*;

pub mod colors;
pub mod difficulty;
pub mod editor;
pub mod events;
pub mod general;
pub mod hit_objects;
pub mod metadata;
pub mod timing_points;

use crate::text::{chars_of, range_eq};

verus! {

/// All sections in a `.osu` file.
#[derive(Copy, Clone, Debug, PartialEq, Eq, Hash, Structural)]
pub enum Section {
    General,
    Editor,
    Metadata,
    Difficulty,
    Events,
    TimingPoints,
    Colors,
    HitObjects,
    Variables,
    CatchTheBeat,
    Mania,
}

/// The section whose header holds the name `name` between the brackets.
pub open spec fn section_of_name(name: Seq<char>) -> Option<Section> {
    if name == "General"@ {
        Some(Section::General)
    } else if name == "Editor"@ {
        Some(Section::Editor)
    } else if name == "Metadata"@ {
        Some(Section::Metadata)
    } else if name == "Difficulty"@ {
        Some(Section::Difficulty)
    } else if name == "Events"@ {
        Some(Section::Events)
    } else if name == "TimingPoints"@ {
        Some(Section::TimingPoints)
    } else if name == "Colours"@ {
        Some(Section::Colors)
    } else if name == "HitObjects"@ {
        Some(Section::HitObjects)
    } else if name == "Variables"@ {
        Some(Section::Variables)
    } else if name == "CatchTheBeat"@ {
        Some(Section::CatchTheBeat)
    } else if name == "Mania"@ {
        Some(Section::Mania)
    } else {
        None
    }
}

/// The section that a line of the form `[Name]` opens, if any.
pub open spec fn section_of_line(line: Seq<char>) -> Option<Section> {
    if line.len() >= 2 && line[0] == '[' && line.last() == ']' {
        section_of_name(line.subrange(1, line.len() - 1))
    } else {
        None
    }
}

impl Section {
    /// Try to parse a [`Section`] from a header line such as `[General]`.
    pub fn try_from_line(line: &str) -> (r: Option<Self>)
        ensures
            r == section_of_line(line@),
    {
        let v = chars_of(line);
        let n = v.len();
        if n < 2 || v[0] != '[' || v[n - 1] != ']' {
            return None;
        }
        let (a, b) = (1, n - 1);
        if range_eq(&v, a, b, "General") {
            Some(Self::General)
        } else if range_eq(&v, a, b, "Editor") {
            Some(Self::Editor)
        } else if range_eq(&v, a, b, "Metadata") {
            Some(Self::Metadata)
        } else if range_eq(&v, a, b, "Difficulty") {
            Some(Self::Difficulty)
        } else if range_eq(&v, a, b, "Events") {
            Some(Self::Events)
        } else if range_eq(&v, a, b, "TimingPoints") {
            Some(Self::TimingPoints)
        } else if range_eq(&v, a, b, "Colours") {
            Some(Self::Colors)
        } else if range_eq(&v, a, b, "HitObjects") {
            Some(Self::HitObjects)
        } else if range_eq(&v, a, b, "Variables") {
            Some(Self::Variables)
        } else if range_eq(&v, a, b, "CatchTheBeat") {
            Some(Self::CatchTheBeat)
        } else if range_eq(&v, a, b, "Mania") {
            Some(Self::Mania)
        } else {
            None
        }
    }
}

/// The error when failing to parse a section key.
#[derive(Copy, Clone, Debug, PartialEq, Eq, Structural)]
pub struct UnknownKeyError;

} // verus!
