//! Keys and errors of the `[Difficulty]` section.
use std::str::FromStr;

use vstd::prelude::*;

use crate::number::ParseNumberError;
use crate::section::UnknownKeyError;
use crate::text::str_eq;

verus! {

/// All valid keys within a `.osu` file's `[Difficulty]` section
#[derive(Copy, Clone, Debug, PartialEq, Eq, Structural)]
pub enum DifficultyKey {
    HPDrainRate,
    CircleSize,
    OverallDifficulty,
    ApproachRate,
    SliderMultiplier,
    SliderTickRate,
}

/// The name of a key as it stands in a file.
pub open spec fn difficulty_key_name(key: DifficultyKey) -> Seq<char> {
    match key {
        DifficultyKey::HPDrainRate => "HPDrainRate"@,
        DifficultyKey::CircleSize => "CircleSize"@,
        DifficultyKey::OverallDifficulty => "OverallDifficulty"@,
        DifficultyKey::ApproachRate => "ApproachRate"@,
        DifficultyKey::SliderMultiplier => "SliderMultiplier"@,
        DifficultyKey::SliderTickRate => "SliderTickRate"@,
    }
}

/// The key that `name` spells.
pub open spec fn spec_difficulty_key(name: Seq<char>) -> Option<DifficultyKey> {
    if name == "HPDrainRate"@ {
        Some(DifficultyKey::HPDrainRate)
    } else if name == "CircleSize"@ {
        Some(DifficultyKey::CircleSize)
    } else if name == "OverallDifficulty"@ {
        Some(DifficultyKey::OverallDifficulty)
    } else if name == "ApproachRate"@ {
        Some(DifficultyKey::ApproachRate)
    } else if name == "SliderMultiplier"@ {
        Some(DifficultyKey::SliderMultiplier)
    } else if name == "SliderTickRate"@ {
        Some(DifficultyKey::SliderTickRate)
    } else {
        None
    }
}

impl DifficultyKey {
    /// The name of the key as it stands in a file.
    pub fn as_str(&self) -> (r: &'static str)
        ensures
            r@ == difficulty_key_name(*self),
    {
        match self {
            DifficultyKey::HPDrainRate => "HPDrainRate",
            DifficultyKey::CircleSize => "CircleSize",
            DifficultyKey::OverallDifficulty => "OverallDifficulty",
            DifficultyKey::ApproachRate => "ApproachRate",
            DifficultyKey::SliderMultiplier => "SliderMultiplier",
            DifficultyKey::SliderTickRate => "SliderTickRate",
        }
    }

    /// The key that `s` spells.
    pub fn from_name(s: &str) -> (r: Result<Self, UnknownKeyError>)
        ensures
            match spec_difficulty_key(s@) {
                Some(k) => r == Ok::<Self, UnknownKeyError>(k),
                None => r is Err,
            },
    {
        if str_eq(s, "HPDrainRate") {
            Ok(DifficultyKey::HPDrainRate)
        } else if str_eq(s, "CircleSize") {
            Ok(DifficultyKey::CircleSize)
        } else if str_eq(s, "OverallDifficulty") {
            Ok(DifficultyKey::OverallDifficulty)
        } else if str_eq(s, "ApproachRate") {
            Ok(DifficultyKey::ApproachRate)
        } else if str_eq(s, "SliderMultiplier") {
            Ok(DifficultyKey::SliderMultiplier)
        } else if str_eq(s, "SliderTickRate") {
            Ok(DifficultyKey::SliderTickRate)
        } else {
            Err(UnknownKeyError)
        }
    }
}

impl FromStr for DifficultyKey {
    type Err = UnknownKeyError;

    fn from_str(s: &str) -> (r: Result<Self, Self::Err>)
        ensures
            match spec_difficulty_key(s@) {
                Some(k) => r == Ok::<Self, UnknownKeyError>(k),
                None => r is Err,
            },
    {
        Self::from_name(s)
    }
}

/// All the ways that parsing a `.osu` file into `Difficulty` can fail.
#[derive(Copy, Clone, Debug, PartialEq, Eq, Structural)]
pub enum ParseDifficultyError {
    Number(ParseNumberError),
}

} // verus!
