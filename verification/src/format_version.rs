//! The `osu file format v..` header line.
use std::ops::ControlFlow;

use vstd::prelude::*;

use crate::number::{parse_num_i32, spec_parse_num_i32, ParseNumberError, MAX_PARSE_VALUE};
use crate::text::{after_last, chars_of, has_prefix, rfind_char, starts_with_str};

verus! {

/// The currently latest format version.
pub const LATEST_FORMAT_VERSION: i32 = 14;

/// The text in front of the version number.
pub open spec fn version_prefix() -> Seq<char> {
    "osu file format v"@
}

/// All the ways that parsing the format version can fail.
#[derive(Copy, Clone, Debug, PartialEq, Eq, Structural)]
pub enum ParseVersionError {
    /// The version number is not a valid integer.
    Number(ParseNumberError),
    /// The line is no format version line.
    UnknownFileFormat,
}

/// What a line means for the format version: `Continue` for an empty line,
/// `Break(Ok(..))` with the number behind the last `v` of a line that starts
/// with [`version_prefix`], an error for anything else.
pub open spec fn spec_version_from_line(line: Seq<char>) -> ControlFlow<
    Result<i32, ParseVersionError>,
    (),
> {
    if !has_prefix(line, version_prefix()) {
        if line.len() == 0 {
            ControlFlow::Continue(())
        } else {
            ControlFlow::Break(Err(ParseVersionError::UnknownFileFormat))
        }
    } else {
        match spec_parse_num_i32(after_last(line, 'v'), MAX_PARSE_VALUE) {
            Ok(v) => ControlFlow::Break(Ok(v)),
            Err(e) => ControlFlow::Break(Err(ParseVersionError::Number(e))),
        }
    }
}

/// Try to read the format version from a line.
pub fn try_version_from_line(line: &str) -> (r: ControlFlow<Result<i32, ParseVersionError>, ()>)
    ensures
        r == spec_version_from_line(line@),
{
    if !starts_with_str(line, "osu file format v") {
        return if line.is_empty() {
            ControlFlow::Continue(())
        } else {
            ControlFlow::Break(Err(ParseVersionError::UnknownFileFormat))
        };
    }
    let v = chars_of(line);
    let tail = match rfind_char(&v, 'v') {
        Some(i) => line.substring_char(i + 1, v.len()),
        None => line,
    };
    proof {
        assert(tail@ == after_last(line@, 'v'));
    }
    match parse_num_i32(tail) {
        Ok(version) => ControlFlow::Break(Ok(version)),
        Err(err) => ControlFlow::Break(Err(ParseVersionError::Number(err))),
    }
}

} // verus!
