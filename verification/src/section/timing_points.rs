//! Types for the `[TimingPoints]` section.
use std::str::FromStr;

use vstd::prelude::*;

use crate::number::{
    parse_i32, parse_num_i32, spec_parse_i32, spec_parse_num_i32, ParseNumberError,
    MAX_PARSE_VALUE,
};
use crate::section::general::ParseGeneralError;
use crate::section::hit_objects::hit_samples::{
    spec_bank_of_i32, ParseSampleBankError, SampleBank,
};
use crate::text::{split_by, split_str, trim_comment, trim_comment_str};

verus! {

/// The time signature of a track; the numerator is positive.
#[derive(Copy, Clone, Debug, PartialEq, Eq, Structural)]
pub struct TimeSignature {
    pub numerator: u32,
}

/// Error when failing to create a [`TimeSignature`].
#[derive(Copy, Clone, Debug, PartialEq, Eq, Structural)]
pub struct TimeSignatureError;

impl TimeSignature {
    /// Create a new [`TimeSignature`]; fails unless `numerator` is positive.
    pub fn new(numerator: i32) -> (r: Result<Self, TimeSignatureError>)
        ensures
            numerator > 0 ==> r == Ok::<Self, TimeSignatureError>(
                TimeSignature { numerator: numerator as u32 },
            ),
            numerator <= 0 ==> r is Err,
    {
        if numerator > 0 {
            Ok(Self { numerator: numerator as u32 })
        } else {
            Err(TimeSignatureError)
        }
    }

    /// Three beats to the bar.
    pub fn new_simple_triple() -> (r: Self)
        ensures
            r.numerator == 3,
    {
        Self { numerator: 3 }
    }

    /// Four beats to the bar.
    pub fn new_simple_quadruple() -> (r: Self)
        ensures
            r.numerator == 4,
    {
        Self { numerator: 4 }
    }
}

/// Effect flags for a control point.
#[derive(Copy, Clone, Debug, Default, PartialEq, Eq, Structural)]
pub struct EffectFlags(pub i32);

/// Error when failing to parse [`EffectFlags`].
#[derive(Copy, Clone, Debug, PartialEq, Eq, Structural)]
pub struct ParseEffectFlagsError;

impl EffectFlags {
    pub const NONE: i32 = 0;
    pub const KIAI: i32 = 1;
    pub const OMIT_FIRST_BAR_LINE: i32 = 8;

    /// Check whether any of the given bitflags are set.
    pub fn has_flag(self, flag: i32) -> (r: bool)
        ensures
            r == (self.0 & flag != 0),
    {
        (self.0 & flag) != 0
    }

    /// Parse effect flags from their number.
    pub fn from_name(s: &str) -> (r: Result<Self, ParseEffectFlagsError>)
        ensures
            match spec_parse_i32(s@) {
                Some(n) => r == Ok::<Self, ParseEffectFlagsError>(EffectFlags(n)),
                None => r is Err,
            },
    {
        match parse_i32(s) {
            Some(n) => Ok(Self(n)),
            None => Err(ParseEffectFlagsError),
        }
    }
}

impl FromStr for EffectFlags {
    type Err = ParseEffectFlagsError;

    fn from_str(s: &str) -> (r: Result<Self, Self::Err>)
        ensures
            match spec_parse_i32(s@) {
                Some(n) => r == Ok::<Self, ParseEffectFlagsError>(EffectFlags(n)),
                None => r is Err,
            },
    {
        Self::from_name(s)
    }
}

/// All the ways that parsing a `.osu` file into `TimingPoints` can fail.
#[derive(Copy, Clone, Debug, PartialEq, Eq, Structural)]
pub enum ParseTimingPointsError {
    EffectFlags(ParseEffectFlagsError),
    General(ParseGeneralError),
    InvalidLine,
    Number(ParseNumberError),
    SampleBank(ParseSampleBankError),
    TimeSignature(TimeSignatureError),
    TimingControlPointNaN,
}

/// What a line of the `[TimingPoints]` section sets besides its time and
/// beat length.
#[derive(Copy, Clone, Debug, PartialEq, Eq, Structural)]
pub struct TimingPointFields {
    pub time_signature: TimeSignature,
    pub sample_bank: SampleBank,
    pub custom_sample_bank: i32,
    pub sample_volume: i32,
    pub timing_change: bool,
    pub kiai: bool,
    pub omit_first_bar_line: bool,
}

/// Whether a part is there and starts with `c`.
pub open spec fn part_starts_with(p: Seq<Seq<char>>, i: int, c: char) -> bool {
    i < p.len() && p[i].len() > 0 && p[i][0] == c
}

/// An optional number part: its value, `default` when it is missing, or the
/// error that reading it gives.
pub open spec fn optional_number(p: Seq<Seq<char>>, i: int, default: i32) -> Result<
    i32,
    ParseTimingPointsError,
> {
    if i < p.len() {
        match spec_parse_num_i32(p[i], MAX_PARSE_VALUE) {
            Ok(n) => Ok(n),
            Err(e) => Err(ParseTimingPointsError::Number(e)),
        }
    } else {
        Ok(default)
    }
}

/// The fields of a timing point line (comment removed, split at commas)
/// behind its time and beat length, read in order: the time signature
/// (four when missing or starting with `0`), the sample bank (the default
/// when missing or unknown; normal instead of none), the custom bank, the
/// volume, the timing change flag (unless the part starts with `1` it is
/// off; on when missing) and the effect flags.
pub open spec fn spec_timing_point_fields(
    line: Seq<char>,
    default_bank: SampleBank,
    default_volume: i32,
) -> Result<TimingPointFields, ParseTimingPointsError> {
    let p = split_by(trim_comment(line), ',');
    let signature = if p.len() > 2 && !part_starts_with(p, 2, '0') {
        match spec_parse_num_i32(p[2], MAX_PARSE_VALUE) {
            Err(e) => Err(ParseTimingPointsError::Number(e)),
            Ok(n) => if n > 0 {
                Ok(TimeSignature { numerator: n as u32 })
            } else {
                Err(ParseTimingPointsError::TimeSignature(TimeSignatureError))
            },
        }
    } else {
        Ok(TimeSignature { numerator: 4 })
    };
    if p.len() < 2 {
        Err(ParseTimingPointsError::InvalidLine)
    } else {
        match signature {
            Err(e) => Err(e),
            Ok(time_signature) => match optional_number(p, 3, 0) {
                Err(e) => Err(e),
                Ok(bank_number) => match optional_number(p, 4, 0) {
                    Err(e) => Err(e),
                    Ok(custom_sample_bank) => match optional_number(p, 5, default_volume) {
                        Err(e) => Err(e),
                        Ok(sample_volume) => {
                            let flags = if p.len() > 7 {
                                match spec_parse_i32(p[7]) {
                                    Some(f) => Ok(f),
                                    None => Err(
                                        ParseTimingPointsError::EffectFlags(ParseEffectFlagsError),
                                    ),
                                }
                            } else {
                                Ok(0i32)
                            };
                            let bank = if p.len() > 3 {
                                match spec_bank_of_i32(bank_number) {
                                    Some(b) => b,
                                    None => default_bank,
                                }
                            } else {
                                default_bank
                            };
                            match flags {
                                Err(e) => Err(e),
                                Ok(f) => Ok(
                                    TimingPointFields {
                                        time_signature,
                                        sample_bank: if bank == SampleBank::NoBank {
                                            SampleBank::Normal
                                        } else {
                                            bank
                                        },
                                        custom_sample_bank,
                                        sample_volume,
                                        timing_change: p.len() <= 6 || part_starts_with(p, 6, '1'),
                                        kiai: p.len() > 7 && f & EffectFlags::KIAI != 0,
                                        omit_first_bar_line: p.len() > 7 && f
                                            & EffectFlags::OMIT_FIRST_BAR_LINE != 0,
                                    },
                                ),
                            }
                        },
                    },
                },
            },
        }
    }
}

/// The time and beat length texts of a timing point line: its first two
/// comma-separated parts, once the comment is removed.
pub open spec fn spec_timing_point_times(line: Seq<char>) -> Option<(Seq<char>, Seq<char>)> {
    let p = split_by(trim_comment(line), ',');
    if p.len() < 2 {
        None
    } else {
        Some((p[0], p[1]))
    }
}

/// The time and beat length texts of a timing point line, which are floats
/// that the caller reads; an invalid line when there are fewer than two parts.
pub fn timing_point_times(line: &str) -> (r: Result<(String, String), ParseTimingPointsError>)
    ensures
        match spec_timing_point_times(line@) {
            Some((a, b)) => r matches Ok((x, y)) && x@ == a && y@ == b,
            None => r == Err::<(String, String), ParseTimingPointsError>(
                ParseTimingPointsError::InvalidLine,
            ),
        },
{
    let parts = split_str(trim_comment_str(line), ',');
    let ghost p = split_by(trim_comment(line@), ',');
    if parts.len() < 2 {
        return Err(ParseTimingPointsError::InvalidLine);
    }
    proof {
        assert(parts@.map_values(|q: &str| q@)[0] == parts@[0]@);
        assert(parts@.map_values(|q: &str| q@)[1] == parts@[1]@);
    }
    Ok((parts[0].to_owned(), parts[1].to_owned()))
}

fn read_optional(parts: &Vec<&str>, i: usize, default: i32) -> (r: Result<
    i32,
    ParseTimingPointsError,
>)
    ensures
        r == optional_number(parts@.map_values(|q: &str| q@), i as int, default),
{
    if i < parts.len() {
        proof {
            assert(parts@.map_values(|q: &str| q@)[i as int] == parts@[i as int]@);
        }
        match parse_num_i32(parts[i]) {
            Ok(n) => Ok(n),
            Err(e) => Err(ParseTimingPointsError::Number(e)),
        }
    } else {
        Ok(default)
    }
}

fn starts_with_char(parts: &Vec<&str>, i: usize, c: char) -> (r: bool)
    ensures
        r == part_starts_with(parts@.map_values(|q: &str| q@), i as int, c),
{
    if i >= parts.len() {
        return false;
    }
    proof {
        assert(parts@.map_values(|q: &str| q@)[i as int] == parts@[i as int]@);
    }
    let t = parts[i];
    if t.unicode_len() == 0 {
        return false;
    }
    t.get_char(0) == c
}

/// Read the fields of a timing point line behind its time and beat length,
/// as [`spec_timing_point_fields`].
pub fn parse_timing_point_fields(line: &str, default_bank: SampleBank, default_volume: i32) -> (r:
    Result<TimingPointFields, ParseTimingPointsError>)
    ensures
        r == spec_timing_point_fields(line@, default_bank, default_volume),
{
    let parts = split_str(trim_comment_str(line), ',');
    let ghost p = split_by(trim_comment(line@), ',');
    assert(parts@.map_values(|q: &str| q@) == p);
    if parts.len() < 2 {
        return Err(ParseTimingPointsError::InvalidLine);
    }
    let mut time_signature = TimeSignature::new_simple_quadruple();
    if parts.len() > 2 && !starts_with_char(&parts, 2, '0') {
        proof {
            assert(p[2] == parts@[2]@);
        }
        let n = match parse_num_i32(parts[2]) {
            Ok(n) => n,
            Err(e) => {
                return Err(ParseTimingPointsError::Number(e));
            },
        };
        time_signature = match TimeSignature::new(n) {
            Ok(t) => t,
            Err(e) => {
                return Err(ParseTimingPointsError::TimeSignature(e));
            },
        };
    }
    let bank_number = read_optional(&parts, 3, 0)?;
    let custom_sample_bank = read_optional(&parts, 4, 0)?;
    let sample_volume = read_optional(&parts, 5, default_volume)?;
    let timing_change = parts.len() <= 6 || starts_with_char(&parts, 6, '1');
    let mut kiai = false;
    let mut omit_first_bar_line = false;
    if parts.len() > 7 {
        proof {
            assert(p[7] == parts@[7]@);
        }
        let flags = match EffectFlags::from_name(parts[7]) {
            Ok(f) => f,
            Err(e) => {
                return Err(ParseTimingPointsError::EffectFlags(e));
            },
        };
        kiai = flags.has_flag(EffectFlags::KIAI);
        omit_first_bar_line = flags.has_flag(EffectFlags::OMIT_FIRST_BAR_LINE);
    }
    let mut sample_bank = if parts.len() > 3 {
        match SampleBank::try_from_i32(bank_number) {
            Ok(b) => b,
            Err(_) => default_bank,
        }
    } else {
        default_bank
    };
    if sample_bank == SampleBank::NoBank {
        sample_bank = SampleBank::Normal;
    }
    Ok(
        TimingPointFields {
            time_signature,
            sample_bank,
            custom_sample_bank,
            sample_volume,
            timing_change,
            kiai,
            omit_first_bar_line,
        },
    )
}

} // verus!
