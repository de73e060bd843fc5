//! Types for the `[HitObjects]` section.
use std::str::FromStr;

use vstd::prelude::*;

use crate::number::{
    int_text, int_to_chars, lemma_parse_i32_text, parse_i32, parse_i32_range, spec_parse_i32,
};
use crate::reader::encoding::push_char;
use crate::text::{chars_of, push_chars};

pub mod decode;
pub mod hit_samples;
pub mod path;

verus! {

/// The type of a hit object, as bit flags.
#[derive(Copy, Clone, Debug, Default, PartialEq, Eq, Structural)]
pub struct HitObjectType(pub i32);

/// Error when failing to parse a [`HitObjectType`].
#[derive(Copy, Clone, Debug, PartialEq, Eq, Structural)]
pub struct ParseHitObjectTypeError;

impl HitObjectType {
    pub const CIRCLE: i32 = 1;
    pub const SLIDER: i32 = 2;
    pub const NEW_COMBO: i32 = 4;
    pub const SPINNER: i32 = 8;
    pub const COMBO_OFFSET: i32 = 112;
    pub const HOLD: i32 = 128;

    /// Check whether any of the given bitflags are set.
    pub fn has_flag(self, flag: i32) -> (r: bool)
        ensures
            r == (self.0 & flag != 0),
    {
        (self.0 & flag) != 0
    }

    /// Parse a hit object type from its number.
    pub fn from_name(s: &str) -> (r: Result<Self, ParseHitObjectTypeError>)
        ensures
            match spec_parse_i32(s@) {
                Some(n) => r == Ok::<Self, ParseHitObjectTypeError>(HitObjectType(n)),
                None => r is Err,
            },
    {
        match parse_i32(s) {
            Some(n) => Ok(Self(n)),
            None => Err(ParseHitObjectTypeError),
        }
    }

    /// The flags that are set in both.
    pub fn bitand(self, rhs: i32) -> (r: i32)
        ensures
            r == self.0 & rhs,
    {
        self.0 & rhs
    }
}

impl FromStr for HitObjectType {
    type Err = ParseHitObjectTypeError;

    fn from_str(s: &str) -> (r: Result<Self, Self::Err>)
        ensures
            match spec_parse_i32(s@) {
                Some(n) => r == Ok::<Self, ParseHitObjectTypeError>(HitObjectType(n)),
                None => r is Err,
            },
    {
        Self::from_name(s)
    }
}

/// The specific type of a [`PathType`].
#[derive(Copy, Clone, Debug, Default, PartialEq, Eq, Structural)]
pub enum SplineType {
    #[default]
    Catmull,
    BSpline,
    Linear,
    PerfectCurve,
}

/// The type of a slider path's segment; a B-spline may have a positive degree.
#[derive(Copy, Clone, Debug, PartialEq, Eq, Structural)]
pub struct PathType {
    pub kind: SplineType,
    pub degree: Option<i32>,
}

/// The path type that a segment's letter stands for: `B` with an optional
/// positive degree, `L`, `P`, and catmull for anything else.
pub open spec fn spec_path_type(s: Seq<char>) -> PathType {
    if s.len() > 0 && s[0] == 'B' {
        match spec_parse_i32(s.drop_first()) {
            Some(d) => if d > 0 {
                PathType { kind: SplineType::BSpline, degree: Some(d) }
            } else {
                PathType { kind: SplineType::BSpline, degree: None }
            },
            None => PathType { kind: SplineType::BSpline, degree: None },
        }
    } else if s.len() > 0 && s[0] == 'L' {
        PathType { kind: SplineType::Linear, degree: None }
    } else if s.len() > 0 && s[0] == 'P' {
        PathType { kind: SplineType::PerfectCurve, degree: None }
    } else {
        PathType { kind: SplineType::Catmull, degree: None }
    }
}

impl PathType {
    /// Initialize a new [`PathType`] without a degree.
    pub fn new(kind: SplineType) -> (r: Self)
        ensures
            r == (PathType { kind, degree: None }),
    {
        Self { kind, degree: None }
    }

    /// Initialize a new `BSpline` [`PathType`].
    pub fn new_b_spline(degree: i32) -> (r: Self)
        requires
            degree != 0,
        ensures
            r == (PathType { kind: SplineType::BSpline, degree: Some(degree) }),
    {
        Self { kind: SplineType::BSpline, degree: Some(degree) }
    }

    /// Parse a string into a [`PathType`].
    ///
    /// The string should be of the form `"B<optional integer>" | "L" | "P"`
    /// (without the `<>`). Otherwise, a catmull path type is returned.
    pub fn new_from_str(input: &str) -> (r: Self)
        ensures
            r == spec_path_type(input@),
    {
        let v = chars_of(input);
        if v.len() == 0 {
            return Self::new(SplineType::Catmull);
        }
        let c = v[0];
        if c == 'B' {
            proof {
                assert(v@.subrange(1, v@.len() as int) =~= v@.drop_first());
            }
            match parse_i32_range(&v, 1, v.len()) {
                Some(d) => {
                    if d > 0 {
                        return Self::new_b_spline(d);
                    }
                },
                None => {},
            }
            Self::new(SplineType::BSpline)
        } else if c == 'L' {
            Self::new(SplineType::Linear)
        } else if c == 'P' {
            Self::new(SplineType::PerfectCurve)
        } else {
            Self::new(SplineType::Catmull)
        }
    }
}

/// The text of a path type in a slider's point text: `B` with its degree,
/// if any, `C`, `P` or `L`.
pub open spec fn path_type_text(path_type: PathType) -> Seq<char> {
    match path_type.kind {
        SplineType::BSpline => match path_type.degree {
            Some(degree) => seq!['B'] + int_text(degree as int),
            None => seq!['B'],
        },
        SplineType::Catmull => seq!['C'],
        SplineType::PerfectCurve => seq!['P'],
        SplineType::Linear => seq!['L'],
    }
}

/// Append the text of a path type and the `|` behind it.
pub fn encode_path_type(path_type: PathType, out: &mut String)
    ensures
        final(out)@ == old(out)@ + path_type_text(path_type) + seq!['|'],
{
    match path_type.kind {
        SplineType::BSpline => {
            push_char(out, 'B');
            if let Some(degree) = path_type.degree {
                push_chars(out, &int_to_chars(degree as i64));
            }
        },
        SplineType::Catmull => push_char(out, 'C'),
        SplineType::PerfectCurve => push_char(out, 'P'),
        SplineType::Linear => push_char(out, 'L'),
    }
    push_char(out, '|');
    assert(out@ =~= old(out)@ + path_type_text(path_type) + seq!['|']);
}

/// Reading back the text of a path type gives the path type, when only a
/// B-spline has a degree and that degree is positive.
pub proof fn lemma_path_type_read_back(path_type: PathType)
    requires
        path_type.degree matches Some(d) ==> d > 0 && path_type.kind == SplineType::BSpline,
    ensures
        spec_path_type(path_type_text(path_type)) == path_type,
{
    let t = path_type_text(path_type);
    if let Some(d) = path_type.degree {
        if path_type.kind == SplineType::BSpline {
            lemma_parse_i32_text(d);
            assert(t.drop_first() =~= int_text(d as int));
        }
    }
    if path_type.kind == SplineType::BSpline && path_type.degree is None {
        assert(t.drop_first() =~= Seq::<char>::empty());
    }
}

} // verus!
