//! Types for the `[Metadata]` section.
use std::str::FromStr;

use vstd::prelude::*;

use crate::decode::{
    apply_lines, lemma_decode_is_apply, lemma_reads_one_section, lines_of_section, spec_decode,
    spec_section_lines, DecodeBeatmap, DecodeState,
};
use crate::encode::lemma_parse_num_text;
use crate::number::{int_text, parse_num_i32, spec_parse_num_i32, ParseNumberError, MAX_PARSE_VALUE};
use crate::section::{Section, UnknownKeyError};
use crate::text::{
    is_whitespace, key_of, lacks, split_key_value, str_eq, trim, trim_end, trim_start, value_of,
};

verus! {

/// Struct containing all data from a `.osu` file's `[Metadata]` section.
#[derive(Clone, Debug, PartialEq, Eq)]
pub struct Metadata {
    pub title: String,
    pub title_unicode: String,
    pub artist: String,
    pub artist_unicode: String,
    pub creator: String,
    pub version: String,
    pub source: String,
    pub tags: String,
    pub beatmap_id: i32,
    pub beatmap_set_id: i32,
}

/// The content of a [`Metadata`].
pub struct MetadataView {
    pub title: Seq<char>,
    pub title_unicode: Seq<char>,
    pub artist: Seq<char>,
    pub artist_unicode: Seq<char>,
    pub creator: Seq<char>,
    pub version: Seq<char>,
    pub source: Seq<char>,
    pub tags: Seq<char>,
    pub beatmap_id: i32,
    pub beatmap_set_id: i32,
}

impl View for Metadata {
    type V = MetadataView;

    open spec fn view(&self) -> MetadataView {
        MetadataView {
            title: self.title@,
            title_unicode: self.title_unicode@,
            artist: self.artist@,
            artist_unicode: self.artist_unicode@,
            creator: self.creator@,
            version: self.version@,
            source: self.source@,
            tags: self.tags@,
            beatmap_id: self.beatmap_id,
            beatmap_set_id: self.beatmap_set_id,
        }
    }
}

/// The metadata of a file without a `[Metadata]` section.
pub open spec fn default_metadata() -> MetadataView {
    MetadataView {
        title: Seq::empty(),
        title_unicode: Seq::empty(),
        artist: Seq::empty(),
        artist_unicode: Seq::empty(),
        creator: Seq::empty(),
        version: Seq::empty(),
        source: Seq::empty(),
        tags: Seq::empty(),
        beatmap_id: -1i32,
        beatmap_set_id: 0,
    }
}

impl Default for Metadata {
    fn default() -> (r: Self)
        ensures
            r@ == default_metadata(),
    {
        Self {
            title: String::new(),
            title_unicode: String::new(),
            artist: String::new(),
            artist_unicode: String::new(),
            creator: String::new(),
            version: String::new(),
            source: String::new(),
            tags: String::new(),
            beatmap_id: -1,
            beatmap_set_id: 0,
        }
    }
}

/// All valid keys within a `.osu` file's `[Metadata]` section
#[derive(Copy, Clone, Debug, PartialEq, Eq, Structural)]
pub enum MetadataKey {
    Title,
    TitleUnicode,
    Artist,
    ArtistUnicode,
    Creator,
    Version,
    Source,
    Tags,
    BeatmapID,
    BeatmapSetID,
}

/// The key that `name` spells.
pub open spec fn spec_metadata_key(name: Seq<char>) -> Option<MetadataKey> {
    if name == "Title"@ {
        Some(MetadataKey::Title)
    } else if name == "TitleUnicode"@ {
        Some(MetadataKey::TitleUnicode)
    } else if name == "Artist"@ {
        Some(MetadataKey::Artist)
    } else if name == "ArtistUnicode"@ {
        Some(MetadataKey::ArtistUnicode)
    } else if name == "Creator"@ {
        Some(MetadataKey::Creator)
    } else if name == "Version"@ {
        Some(MetadataKey::Version)
    } else if name == "Source"@ {
        Some(MetadataKey::Source)
    } else if name == "Tags"@ {
        Some(MetadataKey::Tags)
    } else if name == "BeatmapID"@ {
        Some(MetadataKey::BeatmapID)
    } else if name == "BeatmapSetID"@ {
        Some(MetadataKey::BeatmapSetID)
    } else {
        None
    }
}

/// The name of a key as it stands in a file.
pub open spec fn metadata_key_name(key: MetadataKey) -> Seq<char> {
    match key {
        MetadataKey::Title => "Title"@,
        MetadataKey::TitleUnicode => "TitleUnicode"@,
        MetadataKey::Artist => "Artist"@,
        MetadataKey::ArtistUnicode => "ArtistUnicode"@,
        MetadataKey::Creator => "Creator"@,
        MetadataKey::Version => "Version"@,
        MetadataKey::Source => "Source"@,
        MetadataKey::Tags => "Tags"@,
        MetadataKey::BeatmapID => "BeatmapID"@,
        MetadataKey::BeatmapSetID => "BeatmapSetID"@,
    }
}

impl MetadataKey {
    /// The name of the key as it stands in a file.
    pub fn as_str(&self) -> (r: &'static str)
        ensures
            r@ == metadata_key_name(*self),
    {
        match self {
            MetadataKey::Title => "Title",
            MetadataKey::TitleUnicode => "TitleUnicode",
            MetadataKey::Artist => "Artist",
            MetadataKey::ArtistUnicode => "ArtistUnicode",
            MetadataKey::Creator => "Creator",
            MetadataKey::Version => "Version",
            MetadataKey::Source => "Source",
            MetadataKey::Tags => "Tags",
            MetadataKey::BeatmapID => "BeatmapID",
            MetadataKey::BeatmapSetID => "BeatmapSetID",
        }
    }

    /// The key that `s` spells.
    pub fn from_name(s: &str) -> (r: Result<Self, UnknownKeyError>)
        ensures
            match spec_metadata_key(s@) {
                Some(k) => r == Ok::<Self, UnknownKeyError>(k),
                None => r is Err,
            },
    {
        if str_eq(s, "Title") {
            Ok(MetadataKey::Title)
        } else if str_eq(s, "TitleUnicode") {
            Ok(MetadataKey::TitleUnicode)
        } else if str_eq(s, "Artist") {
            Ok(MetadataKey::Artist)
        } else if str_eq(s, "ArtistUnicode") {
            Ok(MetadataKey::ArtistUnicode)
        } else if str_eq(s, "Creator") {
            Ok(MetadataKey::Creator)
        } else if str_eq(s, "Version") {
            Ok(MetadataKey::Version)
        } else if str_eq(s, "Source") {
            Ok(MetadataKey::Source)
        } else if str_eq(s, "Tags") {
            Ok(MetadataKey::Tags)
        } else if str_eq(s, "BeatmapID") {
            Ok(MetadataKey::BeatmapID)
        } else if str_eq(s, "BeatmapSetID") {
            Ok(MetadataKey::BeatmapSetID)
        } else {
            Err(UnknownKeyError)
        }
    }
}

impl FromStr for MetadataKey {
    type Err = UnknownKeyError;

    fn from_str(s: &str) -> (r: Result<Self, Self::Err>)
        ensures
            match spec_metadata_key(s@) {
                Some(k) => r == Ok::<Self, UnknownKeyError>(k),
                None => r is Err,
            },
    {
        Self::from_name(s)
    }
}

/// A key's name reads back as that key; it holds no colon, no white space at
/// its ends and does not start with a bracket.
pub proof fn lemma_metadata_key_name(key: MetadataKey)
    ensures
        spec_metadata_key(metadata_key_name(key)) == Some(key),
        lacks(metadata_key_name(key), ':'),
        trim(metadata_key_name(key)) == metadata_key_name(key),
        metadata_key_name(key).len() > 0,
        metadata_key_name(key)[0] != '[',
{
    reveal_strlit("Title");
    reveal_strlit("TitleUnicode");
    reveal_strlit("Artist");
    reveal_strlit("ArtistUnicode");
    reveal_strlit("Creator");
    reveal_strlit("Version");
    reveal_strlit("Source");
    reveal_strlit("Tags");
    reveal_strlit("BeatmapID");
    reveal_strlit("BeatmapSetID");
    let name = metadata_key_name(key);
    assert(!is_whitespace(name[0]));
    assert(!is_whitespace(name.last()));
    assert(trim_start(name) == name);
    assert(trim_end(name) == name);
}

/// All the ways that parsing a `.osu` file into [`Metadata`] can fail.
#[derive(Copy, Clone, Debug, PartialEq, Eq, Structural)]
pub enum ParseMetadataError {
    Number(ParseNumberError),
}

/// What a line of the `[Metadata]` section does: a known key sets its field
/// to the value (a number for the IDs); other lines, and IDs that are no
/// valid numbers, leave the metadata as it is.
pub open spec fn spec_parse_metadata_line(m: MetadataView, line: Seq<char>) -> MetadataView {
    let value = value_of(line);
    match spec_metadata_key(key_of(line)) {
        None => m,
        Some(MetadataKey::Title) => MetadataView { title: value, ..m },
        Some(MetadataKey::TitleUnicode) => MetadataView { title_unicode: value, ..m },
        Some(MetadataKey::Artist) => MetadataView { artist: value, ..m },
        Some(MetadataKey::ArtistUnicode) => MetadataView { artist_unicode: value, ..m },
        Some(MetadataKey::Creator) => MetadataView { creator: value, ..m },
        Some(MetadataKey::Version) => MetadataView { version: value, ..m },
        Some(MetadataKey::Source) => MetadataView { source: value, ..m },
        Some(MetadataKey::Tags) => MetadataView { tags: value, ..m },
        Some(MetadataKey::BeatmapID) => match spec_parse_num_i32(value, MAX_PARSE_VALUE) {
            Ok(n) => MetadataView { beatmap_id: n, ..m },
            Err(_) => m,
        },
        Some(MetadataKey::BeatmapSetID) => match spec_parse_num_i32(value, MAX_PARSE_VALUE) {
            Ok(n) => MetadataView { beatmap_set_id: n, ..m },
            Err(_) => m,
        },
    }
}

/// A line of the `[Metadata]` section sets the text field that its key names
/// to its value and changes nothing else; an ID key whose value is the
/// decimal text of a number (above the lowest `i32`) sets that ID to the
/// number; a line with any other key changes nothing.
pub proof fn lemma_metadata_line_sets_field(m: MetadataView, line: Seq<char>, n: i32)
    ensures
        key_of(line) == "Title"@ ==> spec_parse_metadata_line(m, line) == (MetadataView {
            title: value_of(line),
            ..m
        }),
        key_of(line) == "TitleUnicode"@ ==> spec_parse_metadata_line(m, line) == (MetadataView {
            title_unicode: value_of(line),
            ..m
        }),
        key_of(line) == "Artist"@ ==> spec_parse_metadata_line(m, line) == (MetadataView {
            artist: value_of(line),
            ..m
        }),
        key_of(line) == "ArtistUnicode"@ ==> spec_parse_metadata_line(m, line) == (MetadataView {
            artist_unicode: value_of(line),
            ..m
        }),
        key_of(line) == "Creator"@ ==> spec_parse_metadata_line(m, line) == (MetadataView {
            creator: value_of(line),
            ..m
        }),
        key_of(line) == "Version"@ ==> spec_parse_metadata_line(m, line) == (MetadataView {
            version: value_of(line),
            ..m
        }),
        key_of(line) == "Source"@ ==> spec_parse_metadata_line(m, line) == (MetadataView {
            source: value_of(line),
            ..m
        }),
        key_of(line) == "Tags"@ ==> spec_parse_metadata_line(m, line) == (MetadataView {
            tags: value_of(line),
            ..m
        }),
        key_of(line) == "BeatmapID"@ && value_of(line) == int_text(n as int) && n > i32::MIN
            ==> spec_parse_metadata_line(m, line) == (MetadataView { beatmap_id: n, ..m }),
        key_of(line) == "BeatmapSetID"@ && value_of(line) == int_text(n as int) && n > i32::MIN
            ==> spec_parse_metadata_line(m, line) == (MetadataView { beatmap_set_id: n, ..m }),
        key_of(line) != "Title"@ && key_of(line) != "TitleUnicode"@ && key_of(line) != "Artist"@
            && key_of(line) != "ArtistUnicode"@ && key_of(line) != "Creator"@ && key_of(line)
            != "Version"@ && key_of(line) != "Source"@ && key_of(line) != "Tags"@ && key_of(line)
            != "BeatmapID"@ && key_of(line) != "BeatmapSetID"@ ==> spec_parse_metadata_line(m, line)
            == m,
{
    reveal_strlit("Title");
    reveal_strlit("TitleUnicode");
    reveal_strlit("Artist");
    reveal_strlit("ArtistUnicode");
    reveal_strlit("Creator");
    reveal_strlit("Version");
    reveal_strlit("Source");
    reveal_strlit("Tags");
    reveal_strlit("BeatmapID");
    reveal_strlit("BeatmapSetID");
    lemma_metadata_key_name(MetadataKey::Title);
    lemma_metadata_key_name(MetadataKey::TitleUnicode);
    lemma_metadata_key_name(MetadataKey::Artist);
    lemma_metadata_key_name(MetadataKey::ArtistUnicode);
    lemma_metadata_key_name(MetadataKey::Creator);
    lemma_metadata_key_name(MetadataKey::Version);
    lemma_metadata_key_name(MetadataKey::Source);
    lemma_metadata_key_name(MetadataKey::Tags);
    lemma_metadata_key_name(MetadataKey::BeatmapID);
    lemma_metadata_key_name(MetadataKey::BeatmapSetID);
    if n > i32::MIN {
        lemma_parse_num_text(n);
    }
}

/// The error that a line of the `[Metadata]` section gives, if any: only an
/// ID that is no valid number.
pub open spec fn spec_metadata_line_error(line: Seq<char>) -> Option<ParseNumberError> {
    match spec_metadata_key(key_of(line)) {
        Some(MetadataKey::BeatmapID) | Some(MetadataKey::BeatmapSetID) => match spec_parse_num_i32(
            value_of(line),
            MAX_PARSE_VALUE,
        ) {
            Ok(_) => None,
            Err(e) => Some(e),
        },
        _ => None,
    }
}

/// The parsing state for [`Metadata`] in [`DecodeBeatmap`].
pub type MetadataState = Metadata;

impl DecodeState for Metadata {
    open spec fn spec_create(version: i32) -> MetadataView {
        default_metadata()
    }

    fn create(_version: i32) -> (r: Self) {
        Self::default()
    }
}

impl Metadata {
    /// Update the metadata based on a line of the `[Metadata]` section.
    pub fn parse_metadata_line(&mut self, line: &str) -> (r: Result<(), ParseMetadataError>)
        ensures
            final(self)@ == spec_parse_metadata_line(old(self)@, line@),
            match spec_metadata_line_error(line@) {
                Some(e) => r == Err::<(), ParseMetadataError>(ParseMetadataError::Number(e)),
                None => r is Ok,
            },
    {
        let (key, value) = split_key_value(line);
        let key = match MetadataKey::from_name(key) {
            Ok(key) => key,
            Err(_) => {
                return Ok(());
            },
        };
        match key {
            MetadataKey::Title => self.title = value.to_owned(),
            MetadataKey::TitleUnicode => self.title_unicode = value.to_owned(),
            MetadataKey::Artist => self.artist = value.to_owned(),
            MetadataKey::ArtistUnicode => self.artist_unicode = value.to_owned(),
            MetadataKey::Creator => self.creator = value.to_owned(),
            MetadataKey::Version => self.version = value.to_owned(),
            MetadataKey::Source => self.source = value.to_owned(),
            MetadataKey::Tags => self.tags = value.to_owned(),
            MetadataKey::BeatmapID => match parse_num_i32(value) {
                Ok(n) => self.beatmap_id = n,
                Err(e) => {
                    return Err(ParseMetadataError::Number(e));
                },
            },
            MetadataKey::BeatmapSetID => match parse_num_i32(value) {
                Ok(n) => self.beatmap_set_id = n,
                Err(e) => {
                    return Err(ParseMetadataError::Number(e));
                },
            },
        }
        Ok(())
    }
}

impl DecodeBeatmap for Metadata {
    type Error = ParseMetadataError;

    type State = Metadata;

    open spec fn spec_parse(state: MetadataView, section: Section, line: Seq<char>) -> MetadataView {
        if section == Section::Metadata {
            spec_parse_metadata_line(state, line)
        } else {
            state
        }
    }

    open spec fn spec_finish(state: MetadataView) -> MetadataView {
        state
    }

    fn finish(state: Self) -> (r: Self) {
        state
    }

    fn parse_general(_state: &mut Self, _line: &str) -> (r: Result<(), Self::Error>)
        ensures
            r == Ok::<(), ParseMetadataError>(()),
    {
        Ok(())
    }

    fn parse_editor(_state: &mut Self, _line: &str) -> (r: Result<(), Self::Error>)
        ensures
            r == Ok::<(), ParseMetadataError>(()),
    {
        Ok(())
    }

    fn parse_metadata(state: &mut Self, line: &str) -> (r: Result<(), Self::Error>) {
        state.parse_metadata_line(line)
    }

    fn parse_difficulty(_state: &mut Self, _line: &str) -> (r: Result<(), Self::Error>)
        ensures
            r == Ok::<(), ParseMetadataError>(()),
    {
        Ok(())
    }

    fn parse_events(_state: &mut Self, _line: &str) -> (r: Result<(), Self::Error>)
        ensures
            r == Ok::<(), ParseMetadataError>(()),
    {
        Ok(())
    }

    fn parse_timing_points(_state: &mut Self, _line: &str) -> (r: Result<(), Self::Error>)
        ensures
            r == Ok::<(), ParseMetadataError>(()),
    {
        Ok(())
    }

    fn parse_colors(_state: &mut Self, _line: &str) -> (r: Result<(), Self::Error>)
        ensures
            r == Ok::<(), ParseMetadataError>(()),
    {
        Ok(())
    }

    fn parse_hit_objects(_state: &mut Self, _line: &str) -> (r: Result<(), Self::Error>)
        ensures
            r == Ok::<(), ParseMetadataError>(()),
    {
        Ok(())
    }

    fn parse_variables(_state: &mut Self, _line: &str) -> (r: Result<(), Self::Error>)
        ensures
            r == Ok::<(), ParseMetadataError>(()),
    {
        Ok(())
    }

    fn parse_catch_the_beat(_state: &mut Self, _line: &str) -> (r: Result<(), Self::Error>)
        ensures
            r == Ok::<(), ParseMetadataError>(()),
    {
        Ok(())
    }

    fn parse_mania(_state: &mut Self, _line: &str) -> (r: Result<(), Self::Error>)
        ensures
            r == Ok::<(), ParseMetadataError>(()),
    {
        Ok(())
    }
}

/// Decoding metadata reads the `[Metadata]` lines only: every other line of the
/// file is passed over.
pub proof fn lemma_metadata_reads_its_section(bytes: Seq<u8>)
    ensures
        spec_decode::<Metadata>(bytes) == match spec_section_lines(bytes) {
            Ok((version, pairs)) => Ok(
                apply_lines::<Metadata>(
                    Metadata::spec_create(version),
                    lines_of_section(pairs, Section::Metadata),
                ),
            ),
            Err(e) => Err(e),
        },
{
    lemma_decode_is_apply::<Metadata>(bytes);
    match spec_section_lines(bytes) {
        Ok((version, pairs)) => {
            lemma_reads_one_section::<Metadata>(Metadata::spec_create(version), pairs, Section::Metadata);
        },
        Err(_) => {},
    }
}

} // verus!
