//! The `[Editor]` section: its keys, and the settings of its lines.
use std::str::FromStr;

use vstd::prelude::*;

use crate::number::{
    parse_i32, parse_num_i32, spec_parse_i32, spec_parse_num_i32, ParseNumberError,
    MAX_PARSE_VALUE,
};
use crate::section::UnknownKeyError;
use crate::text::{
    is_whitespace, key_of, lacks, split_by, split_key_value, split_str, str_eq, trim, trim_comment,
    trim_comment_str, trim_end, trim_start, value_of,
};

verus! {

/// All valid keys within a `.osu` file's `[Editor]` section
#[derive(Copy, Clone, Debug, PartialEq, Eq, Structural)]
pub enum EditorKey {
    Bookmarks,
    DistanceSpacing,
    BeatDivisor,
    GridSize,
    TimelineZoom,
}

/// The name of a key as it stands in a file.
pub open spec fn editor_key_name(key: EditorKey) -> Seq<char> {
    match key {
        EditorKey::Bookmarks => "Bookmarks"@,
        EditorKey::DistanceSpacing => "DistanceSpacing"@,
        EditorKey::BeatDivisor => "BeatDivisor"@,
        EditorKey::GridSize => "GridSize"@,
        EditorKey::TimelineZoom => "TimelineZoom"@,
    }
}

/// The key that `name` spells.
pub open spec fn spec_editor_key(name: Seq<char>) -> Option<EditorKey> {
    if name == "Bookmarks"@ {
        Some(EditorKey::Bookmarks)
    } else if name == "DistanceSpacing"@ {
        Some(EditorKey::DistanceSpacing)
    } else if name == "BeatDivisor"@ {
        Some(EditorKey::BeatDivisor)
    } else if name == "GridSize"@ {
        Some(EditorKey::GridSize)
    } else if name == "TimelineZoom"@ {
        Some(EditorKey::TimelineZoom)
    } else {
        None
    }
}

impl EditorKey {
    /// The name of the key as it stands in a file.
    pub fn as_str(&self) -> (r: &'static str)
        ensures
            r@ == editor_key_name(*self),
    {
        match self {
            EditorKey::Bookmarks => "Bookmarks",
            EditorKey::DistanceSpacing => "DistanceSpacing",
            EditorKey::BeatDivisor => "BeatDivisor",
            EditorKey::GridSize => "GridSize",
            EditorKey::TimelineZoom => "TimelineZoom",
        }
    }

    /// The key that `s` spells.
    pub fn from_name(s: &str) -> (r: Result<Self, UnknownKeyError>)
        ensures
            match spec_editor_key(s@) {
                Some(k) => r == Ok::<Self, UnknownKeyError>(k),
                None => r is Err,
            },
    {
        if str_eq(s, "Bookmarks") {
            Ok(EditorKey::Bookmarks)
        } else if str_eq(s, "DistanceSpacing") {
            Ok(EditorKey::DistanceSpacing)
        } else if str_eq(s, "BeatDivisor") {
            Ok(EditorKey::BeatDivisor)
        } else if str_eq(s, "GridSize") {
            Ok(EditorKey::GridSize)
        } else if str_eq(s, "TimelineZoom") {
            Ok(EditorKey::TimelineZoom)
        } else {
            Err(UnknownKeyError)
        }
    }
}

/// A key's name spells the key, holds no colon or slash, starts with a
/// letter and has no white space at its ends.
pub proof fn lemma_editor_key_name(key: EditorKey)
    ensures
        spec_editor_key(editor_key_name(key)) == Some(key),
        lacks(editor_key_name(key), ':'),
        lacks(editor_key_name(key), '/'),
        trim(editor_key_name(key)) == editor_key_name(key),
        editor_key_name(key).len() > 0,
        editor_key_name(key)[0] != '[',
{
    reveal_strlit("Bookmarks");
    reveal_strlit("DistanceSpacing");
    reveal_strlit("BeatDivisor");
    reveal_strlit("GridSize");
    reveal_strlit("TimelineZoom");
    let name = editor_key_name(key);
    assert(!is_whitespace(name[0]));
    assert(!is_whitespace(name.last()));
    assert(trim_start(name) == name);
    assert(trim_end(name) == name);
}

impl FromStr for EditorKey {
    type Err = UnknownKeyError;

    fn from_str(s: &str) -> (r: Result<Self, Self::Err>)
        ensures
            match spec_editor_key(s@) {
                Some(k) => r == Ok::<Self, UnknownKeyError>(k),
                None => r is Err,
            },
    {
        Self::from_name(s)
    }
}

/// All the ways that parsing a `.osu` file into `Editor` can fail.
#[derive(Copy, Clone, Debug, PartialEq, Eq, Structural)]
pub enum ParseEditorError {
    Number(ParseNumberError),
}

/// The field that a line of the `[Editor]` section sets, with its new value.
/// Distance spacing and timeline zoom are floats: their texts are handed on
/// as they stand.
#[derive(Clone, Debug, PartialEq, Eq)]
pub enum EditorSetting {
    Bookmarks(Vec<i32>),
    DistanceSpacing(String),
    BeatDivisor(i32),
    GridSize(i32),
    TimelineZoom(String),
}

/// The content of an [`EditorSetting`].
pub enum EditorSettingView {
    Bookmarks(Seq<i32>),
    DistanceSpacing(Seq<char>),
    BeatDivisor(i32),
    GridSize(i32),
    TimelineZoom(Seq<char>),
}

impl View for EditorSetting {
    type V = EditorSettingView;

    open spec fn view(&self) -> EditorSettingView {
        match self {
            EditorSetting::Bookmarks(b) => EditorSettingView::Bookmarks(b@),
            EditorSetting::DistanceSpacing(t) => EditorSettingView::DistanceSpacing(t@),
            EditorSetting::BeatDivisor(n) => EditorSettingView::BeatDivisor(*n),
            EditorSetting::GridSize(n) => EditorSettingView::GridSize(*n),
            EditorSetting::TimelineZoom(t) => EditorSettingView::TimelineZoom(t@),
        }
    }
}

/// The numbers among `pieces`, in order; pieces that are no valid integers
/// are passed over.
pub open spec fn valid_numbers(pieces: Seq<Seq<char>>) -> Seq<i32>
    decreases pieces.len(),
{
    if pieces.len() == 0 {
        Seq::empty()
    } else {
        valid_numbers(pieces.drop_last()) + match spec_parse_i32(pieces.last()) {
            Some(n) => seq![n],
            None => Seq::empty(),
        }
    }
}

/// The bookmarks of a value: its comma-separated integers.
pub open spec fn spec_bookmarks(value: Seq<char>) -> Seq<i32> {
    valid_numbers(split_by(value, ','))
}

/// What a line of the `[Editor]` section sets: with the comment removed, a
/// known key and its value; a line without a known key sets nothing.
pub open spec fn spec_editor_line(line: Seq<char>) -> Result<
    Option<EditorSettingView>,
    ParseEditorError,
> {
    let l = trim_comment(line);
    match spec_editor_key(key_of(l)) {
        None => Ok(None),
        Some(key) => spec_editor_value(key, value_of(l)),
    }
}

/// What the value `v` of the key `key` sets.
pub open spec fn spec_editor_value(key: EditorKey, v: Seq<char>) -> Result<
    Option<EditorSettingView>,
    ParseEditorError,
> {
    match key {
        EditorKey::Bookmarks => Ok(Some(EditorSettingView::Bookmarks(spec_bookmarks(v)))),
        EditorKey::DistanceSpacing => Ok(Some(EditorSettingView::DistanceSpacing(v))),
        EditorKey::BeatDivisor => match spec_parse_num_i32(v, MAX_PARSE_VALUE) {
            Ok(n) => Ok(Some(EditorSettingView::BeatDivisor(n))),
            Err(e) => Err(ParseEditorError::Number(e)),
        },
        EditorKey::GridSize => match spec_parse_num_i32(v, MAX_PARSE_VALUE) {
            Ok(n) => Ok(Some(EditorSettingView::GridSize(n))),
            Err(e) => Err(ParseEditorError::Number(e)),
        },
        EditorKey::TimelineZoom => Ok(Some(EditorSettingView::TimelineZoom(v))),
    }
}

/// Read the bookmarks of a value, as [`spec_bookmarks`].
pub fn parse_bookmarks(value: &str) -> (r: Vec<i32>)
    ensures
        r@ == spec_bookmarks(value@),
{
    let pieces = split_str(value, ',');
    let ghost pv = split_by(value@, ',');
    let mut r: Vec<i32> = Vec::new();
    let mut i: usize = 0;
    while i < pieces.len()
        invariant
            0 <= i <= pieces.len(),
            pieces@.map_values(|p: &str| p@) == pv,
            r@ == valid_numbers(pv.take(i as int)),
        decreases pieces.len() - i,
    {
        proof {
            assert(pv.take(i + 1).drop_last() =~= pv.take(i as int));
            assert(pv.take(i + 1).last() == pieces@[i as int]@);
        }
        match parse_i32(pieces[i]) {
            Some(n) => r.push(n),
            None => {},
        }
        i = i + 1;
        proof {
            assert(r@ =~= valid_numbers(pv.take(i as int)));
        }
    }
    assert(pv.take(pieces.len() as int) =~= pv);
    r
}

fn read_int(value: &str) -> (r: Result<i32, ParseEditorError>)
    ensures
        match spec_parse_num_i32(value@, MAX_PARSE_VALUE) {
            Ok(n) => r == Ok::<i32, ParseEditorError>(n),
            Err(e) => r == Err::<i32, ParseEditorError>(ParseEditorError::Number(e)),
        },
{
    match parse_num_i32(value) {
        Ok(n) => Ok(n),
        Err(e) => Err(ParseEditorError::Number(e)),
    }
}

/// Read what a line of the `[Editor]` section sets, as [`spec_editor_line`].
pub fn parse_editor_line(line: &str) -> (r: Result<Option<EditorSetting>, ParseEditorError>)
    ensures
        match (r, spec_editor_line(line@)) {
            (Ok(None), Ok(None)) => true,
            (Ok(Some(s)), Ok(Some(v))) => s@ == v,
            (Err(a), Err(b)) => a == b,
            _ => false,
        },
{
    let (key, value) = split_key_value(trim_comment_str(line));
    let key = match EditorKey::from_name(key) {
        Ok(k) => k,
        Err(_) => {
            return Ok(None);
        },
    };
    let setting = match key {
        EditorKey::Bookmarks => EditorSetting::Bookmarks(parse_bookmarks(value)),
        EditorKey::DistanceSpacing => EditorSetting::DistanceSpacing(value.to_owned()),
        EditorKey::BeatDivisor => EditorSetting::BeatDivisor(read_int(value)?),
        EditorKey::GridSize => EditorSetting::GridSize(read_int(value)?),
        EditorKey::TimelineZoom => EditorSetting::TimelineZoom(value.to_owned()),
    };
    Ok(Some(setting))
}

} // verus!
