use std::ops::ControlFlow;

use rosu_map::format_version::{try_version_from_line, ParseVersionError};
use rosu_map::number::ParseNumberError;

#[test]
fn finds_version() {
    let line = "osu file format v42";
    assert!(matches!(
        try_version_from_line(line),
        ControlFlow::Break(Ok(42))
    ));
}

#[test]
fn fails_on_comment() {
    let line = "osu file format v42 // comment";
    assert!(matches!(
        try_version_from_line(line),
        ControlFlow::Break(Err(ParseVersionError::Number(_)))
    ));
}

#[test]
fn fails_on_wrong_prefix() {
    let line = "file format v42 // comment";
    assert!(matches!(
        try_version_from_line(line),
        ControlFlow::Break(Err(ParseVersionError::UnknownFileFormat))
    ));
}

#[test]
fn empty_line_continues() {
    assert!(matches!(try_version_from_line(""), ControlFlow::Continue(())));
}

#[test]
fn version_number_is_trimmed_and_limited() {
    assert!(matches!(
        try_version_from_line("osu file format v 7 "),
        ControlFlow::Break(Ok(7))
    ));
    assert!(matches!(
        try_version_from_line("osu file format v-2147483648"),
        ControlFlow::Break(Err(ParseVersionError::Number(
            ParseNumberError::NumberUnderflow
        )))
    ));
    assert!(matches!(
        try_version_from_line("osu file format v99999999999"),
        ControlFlow::Break(Err(ParseVersionError::Number(
            ParseNumberError::InvalidInteger
        )))
    ));
}
