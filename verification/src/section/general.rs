//! Types for the `[General]` section.
use std::str::FromStr;

use vstd::prelude::*;

use crate::encode::{
    lemma_bank_number_text, lemma_countdown_text, lemma_general_line_parts, lemma_int_text_plain,
    lemma_parse_num_text, lemma_small_number_texts,
};
use crate::number::{int_text, parse_num_i32, spec_parse_num_i32, ParseNumberError, MAX_PARSE_VALUE};
use crate::section::hit_objects::hit_samples::{spec_bank_from_name, ParseSampleBankError, SampleBank};
use crate::section::UnknownKeyError;
use crate::text::{
    is_whitespace, key_of, lacks, split_key_value, standardized_path, str_eq, to_standardized_path,
    trim, trim_comment, trim_comment_str, trim_end, trim_start, value_of,
};

verus! {

/// An osu! gamemode.
#[derive(Copy, Clone, Debug, Default, PartialEq, Eq, Structural)]
pub enum GameMode {
    #[default]
    Osu,
    Taiko,
    Catch,
    Mania,
}

/// Error when failing to parse a [`GameMode`].
#[derive(Copy, Clone, Debug, PartialEq, Eq, Structural)]
pub struct ParseGameModeError;

/// The mode that the digits `0` to `3` stand for.
pub open spec fn spec_game_mode(s: Seq<char>) -> Option<GameMode> {
    if s == "0"@ {
        Some(GameMode::Osu)
    } else if s == "1"@ {
        Some(GameMode::Taiko)
    } else if s == "2"@ {
        Some(GameMode::Catch)
    } else if s == "3"@ {
        Some(GameMode::Mania)
    } else {
        None
    }
}

/// The mode of a number; unknown numbers stand for osu!standard.
pub open spec fn spec_game_mode_of_u8(mode: u8) -> GameMode {
    if mode == 1 {
        GameMode::Taiko
    } else if mode == 2 {
        GameMode::Catch
    } else if mode == 3 {
        GameMode::Mania
    } else {
        GameMode::Osu
    }
}

/// The number of a mode.
pub open spec fn game_mode_number(mode: GameMode) -> u8 {
    match mode {
        GameMode::Osu => 0,
        GameMode::Taiko => 1,
        GameMode::Catch => 2,
        GameMode::Mania => 3,
    }
}

impl GameMode {
    /// Parse a mode from its number `0` to `3`.
    pub fn from_name(s: &str) -> (r: Result<Self, ParseGameModeError>)
        ensures
            match spec_game_mode(s@) {
                Some(m) => r == Ok::<Self, ParseGameModeError>(m),
                None => r is Err,
            },
    {
        if str_eq(s, "0") {
            Ok(Self::Osu)
        } else if str_eq(s, "1") {
            Ok(Self::Taiko)
        } else if str_eq(s, "2") {
            Ok(Self::Catch)
        } else if str_eq(s, "3") {
            Ok(Self::Mania)
        } else {
            Err(ParseGameModeError)
        }
    }

    /// The mode of a number; unknown numbers stand for osu!standard.
    pub fn from_u8(mode: u8) -> (r: Self)
        ensures
            r == spec_game_mode_of_u8(mode),
    {
        match mode {
            1 => Self::Taiko,
            2 => Self::Catch,
            3 => Self::Mania,
            _ => Self::Osu,
        }
    }

    /// The number of the mode.
    pub fn number(self) -> (r: u8)
        ensures
            r == game_mode_number(self),
    {
        match self {
            Self::Osu => 0,
            Self::Taiko => 1,
            Self::Catch => 2,
            Self::Mania => 3,
        }
    }
}

/// A mode's number gives back the mode.
pub proof fn lemma_game_mode_number(mode: GameMode)
    ensures
        spec_game_mode_of_u8(game_mode_number(mode)) == mode,
{
}

impl FromStr for GameMode {
    type Err = ParseGameModeError;

    fn from_str(s: &str) -> (r: Result<Self, Self::Err>)
        ensures
            match spec_game_mode(s@) {
                Some(m) => r == Ok::<Self, ParseGameModeError>(m),
                None => r is Err,
            },
    {
        Self::from_name(s)
    }
}

impl From<u8> for GameMode {
    fn from(mode: u8) -> (r: Self) {
        Self::from_u8(mode)
    }
}

impl vstd::std_specs::convert::FromSpecImpl<u8> for GameMode {
    open spec fn obeys_from_spec() -> bool {
        true
    }

    open spec fn from_spec(mode: u8) -> GameMode {
        spec_game_mode_of_u8(mode)
    }
}

/// The countdown type of a beatmap.
#[derive(Copy, Clone, Debug, Default, PartialEq, Eq, Structural)]
pub enum CountdownType {
    #[default]
    NoCountdown,
    Normal,
    HalfSpeed,
    DoubleSpeed,
}

/// Error when failing to parse a [`CountdownType`].
#[derive(Copy, Clone, Debug, PartialEq, Eq, Structural)]
pub struct ParseCountdownTypeError;

/// The countdown type that a number or a name stands for.
pub open spec fn spec_countdown_type(s: Seq<char>) -> Option<CountdownType> {
    if s == "0"@ || s == "None"@ {
        Some(CountdownType::NoCountdown)
    } else if s == "1"@ || s == "Normal"@ {
        Some(CountdownType::Normal)
    } else if s == "2"@ || s == "Half speed"@ {
        Some(CountdownType::HalfSpeed)
    } else if s == "3"@ || s == "Double speed"@ {
        Some(CountdownType::DoubleSpeed)
    } else {
        None
    }
}

/// The number of a countdown type.
pub open spec fn countdown_number(c: CountdownType) -> i32 {
    match c {
        CountdownType::NoCountdown => 0,
        CountdownType::Normal => 1,
        CountdownType::HalfSpeed => 2,
        CountdownType::DoubleSpeed => 3,
    }
}

impl CountdownType {
    /// Parse a countdown type from its number or its name.
    pub fn from_name(s: &str) -> (r: Result<Self, ParseCountdownTypeError>)
        ensures
            match spec_countdown_type(s@) {
                Some(c) => r == Ok::<Self, ParseCountdownTypeError>(c),
                None => r is Err,
            },
    {
        if str_eq(s, "0") || str_eq(s, "None") {
            Ok(Self::NoCountdown)
        } else if str_eq(s, "1") || str_eq(s, "Normal") {
            Ok(Self::Normal)
        } else if str_eq(s, "2") || str_eq(s, "Half speed") {
            Ok(Self::HalfSpeed)
        } else if str_eq(s, "3") || str_eq(s, "Double speed") {
            Ok(Self::DoubleSpeed)
        } else {
            Err(ParseCountdownTypeError)
        }
    }

    /// The number of the countdown type.
    pub fn number(self) -> (r: i32)
        ensures
            r == countdown_number(self),
    {
        match self {
            Self::NoCountdown => 0,
            Self::Normal => 1,
            Self::HalfSpeed => 2,
            Self::DoubleSpeed => 3,
        }
    }
}

impl FromStr for CountdownType {
    type Err = ParseCountdownTypeError;

    fn from_str(s: &str) -> (r: Result<Self, Self::Err>)
        ensures
            match spec_countdown_type(s@) {
                Some(c) => r == Ok::<Self, ParseCountdownTypeError>(c),
                None => r is Err,
            },
    {
        Self::from_name(s)
    }
}

/// All valid keys within a `.osu` file's `[General]` section
#[derive(Copy, Clone, Debug, PartialEq, Eq, Structural)]
pub enum GeneralKey {
    AudioFilename,
    AudioLeadIn,
    PreviewTime,
    SampleSet,
    SampleVolume,
    StackLeniency,
    Mode,
    LetterboxInBreaks,
    SpecialStyle,
    WidescreenStoryboard,
    EpilepsyWarning,
    SamplesMatchPlaybackRate,
    Countdown,
    CountdownOffset,
}

/// The name of a key as it stands in a file.
pub open spec fn general_key_name(key: GeneralKey) -> Seq<char> {
    match key {
        GeneralKey::AudioFilename => "AudioFilename"@,
        GeneralKey::AudioLeadIn => "AudioLeadIn"@,
        GeneralKey::PreviewTime => "PreviewTime"@,
        GeneralKey::SampleSet => "SampleSet"@,
        GeneralKey::SampleVolume => "SampleVolume"@,
        GeneralKey::StackLeniency => "StackLeniency"@,
        GeneralKey::Mode => "Mode"@,
        GeneralKey::LetterboxInBreaks => "LetterboxInBreaks"@,
        GeneralKey::SpecialStyle => "SpecialStyle"@,
        GeneralKey::WidescreenStoryboard => "WidescreenStoryboard"@,
        GeneralKey::EpilepsyWarning => "EpilepsyWarning"@,
        GeneralKey::SamplesMatchPlaybackRate => "SamplesMatchPlaybackRate"@,
        GeneralKey::Countdown => "Countdown"@,
        GeneralKey::CountdownOffset => "CountdownOffset"@,
    }
}

/// The key that `name` spells.
pub open spec fn spec_general_key(name: Seq<char>) -> Option<GeneralKey> {
    if name == "AudioFilename"@ {
        Some(GeneralKey::AudioFilename)
    } else if name == "AudioLeadIn"@ {
        Some(GeneralKey::AudioLeadIn)
    } else if name == "PreviewTime"@ {
        Some(GeneralKey::PreviewTime)
    } else if name == "SampleSet"@ {
        Some(GeneralKey::SampleSet)
    } else if name == "SampleVolume"@ {
        Some(GeneralKey::SampleVolume)
    } else if name == "StackLeniency"@ {
        Some(GeneralKey::StackLeniency)
    } else if name == "Mode"@ {
        Some(GeneralKey::Mode)
    } else if name == "LetterboxInBreaks"@ {
        Some(GeneralKey::LetterboxInBreaks)
    } else if name == "SpecialStyle"@ {
        Some(GeneralKey::SpecialStyle)
    } else if name == "WidescreenStoryboard"@ {
        Some(GeneralKey::WidescreenStoryboard)
    } else if name == "EpilepsyWarning"@ {
        Some(GeneralKey::EpilepsyWarning)
    } else if name == "SamplesMatchPlaybackRate"@ {
        Some(GeneralKey::SamplesMatchPlaybackRate)
    } else if name == "Countdown"@ {
        Some(GeneralKey::Countdown)
    } else if name == "CountdownOffset"@ {
        Some(GeneralKey::CountdownOffset)
    } else {
        None
    }
}

impl GeneralKey {
    /// The name of the key as it stands in a file.
    pub fn as_str(&self) -> (r: &'static str)
        ensures
            r@ == general_key_name(*self),
    {
        match self {
            GeneralKey::AudioFilename => "AudioFilename",
            GeneralKey::AudioLeadIn => "AudioLeadIn",
            GeneralKey::PreviewTime => "PreviewTime",
            GeneralKey::SampleSet => "SampleSet",
            GeneralKey::SampleVolume => "SampleVolume",
            GeneralKey::StackLeniency => "StackLeniency",
            GeneralKey::Mode => "Mode",
            GeneralKey::LetterboxInBreaks => "LetterboxInBreaks",
            GeneralKey::SpecialStyle => "SpecialStyle",
            GeneralKey::WidescreenStoryboard => "WidescreenStoryboard",
            GeneralKey::EpilepsyWarning => "EpilepsyWarning",
            GeneralKey::SamplesMatchPlaybackRate => "SamplesMatchPlaybackRate",
            GeneralKey::Countdown => "Countdown",
            GeneralKey::CountdownOffset => "CountdownOffset",
        }
    }

    /// The key that `s` spells.
    pub fn from_name(s: &str) -> (r: Result<Self, UnknownKeyError>)
        ensures
            match spec_general_key(s@) {
                Some(k) => r == Ok::<Self, UnknownKeyError>(k),
                None => r is Err,
            },
    {
        if str_eq(s, "AudioFilename") {
            Ok(GeneralKey::AudioFilename)
        } else if str_eq(s, "AudioLeadIn") {
            Ok(GeneralKey::AudioLeadIn)
        } else if str_eq(s, "PreviewTime") {
            Ok(GeneralKey::PreviewTime)
        } else if str_eq(s, "SampleSet") {
            Ok(GeneralKey::SampleSet)
        } else if str_eq(s, "SampleVolume") {
            Ok(GeneralKey::SampleVolume)
        } else if str_eq(s, "StackLeniency") {
            Ok(GeneralKey::StackLeniency)
        } else if str_eq(s, "Mode") {
            Ok(GeneralKey::Mode)
        } else if str_eq(s, "LetterboxInBreaks") {
            Ok(GeneralKey::LetterboxInBreaks)
        } else if str_eq(s, "SpecialStyle") {
            Ok(GeneralKey::SpecialStyle)
        } else if str_eq(s, "WidescreenStoryboard") {
            Ok(GeneralKey::WidescreenStoryboard)
        } else if str_eq(s, "EpilepsyWarning") {
            Ok(GeneralKey::EpilepsyWarning)
        } else if str_eq(s, "SamplesMatchPlaybackRate") {
            Ok(GeneralKey::SamplesMatchPlaybackRate)
        } else if str_eq(s, "Countdown") {
            Ok(GeneralKey::Countdown)
        } else if str_eq(s, "CountdownOffset") {
            Ok(GeneralKey::CountdownOffset)
        } else {
            Err(UnknownKeyError)
        }
    }
}

/// A key's name spells the key, holds no colon or slash, starts with a
/// letter and has no white space at its ends.
pub proof fn lemma_general_key_name(key: GeneralKey)
    ensures
        spec_general_key(general_key_name(key)) == Some(key),
        lacks(general_key_name(key), ':'),
        lacks(general_key_name(key), '/'),
        trim(general_key_name(key)) == general_key_name(key),
        general_key_name(key).len() > 0,
        general_key_name(key)[0] != '[',
{
    reveal_strlit("AudioFilename");
    reveal_strlit("AudioLeadIn");
    reveal_strlit("PreviewTime");
    reveal_strlit("SampleSet");
    reveal_strlit("SampleVolume");
    reveal_strlit("StackLeniency");
    reveal_strlit("Mode");
    reveal_strlit("LetterboxInBreaks");
    reveal_strlit("SpecialStyle");
    reveal_strlit("WidescreenStoryboard");
    reveal_strlit("EpilepsyWarning");
    reveal_strlit("SamplesMatchPlaybackRate");
    reveal_strlit("Countdown");
    reveal_strlit("CountdownOffset");
    assert("AudioFilename"@[0] != "StackLeniency"@[0]);
    assert("AudioLeadIn"@[0] != "PreviewTime"@[0]);
    assert("SampleSet"@[0] != "Countdown"@[0]);
    assert("SampleVolume"@[1] != "SpecialStyle"@[1]);
    assert("EpilepsyWarning"@[0] != "CountdownOffset"@[0]);
    let name = general_key_name(key);
    assert(!is_whitespace(name[0]));
    assert(!is_whitespace(name.last()));
    assert(trim_start(name) == name);
    assert(trim_end(name) == name);
}

impl FromStr for GeneralKey {
    type Err = UnknownKeyError;

    fn from_str(s: &str) -> (r: Result<Self, Self::Err>)
        ensures
            match spec_general_key(s@) {
                Some(k) => r == Ok::<Self, UnknownKeyError>(k),
                None => r is Err,
            },
    {
        Self::from_name(s)
    }
}

/// All the ways that parsing a `.osu` file into `General` can fail.
#[derive(Copy, Clone, Debug, PartialEq, Eq, Structural)]
pub enum ParseGeneralError {
    CountdownType(ParseCountdownTypeError),
    Mode(ParseGameModeError),
    Number(ParseNumberError),
    SampleBank(ParseSampleBankError),
}

/// The field that a line of the `[General]` section sets, with its new value.
/// The stack leniency is a float: its text is handed on as it stands.
#[derive(Clone, Debug, PartialEq, Eq)]
pub enum GeneralSetting {
    AudioFile(String),
    AudioLeadIn(i32),
    PreviewTime(i32),
    DefaultSampleBank(SampleBank),
    DefaultSampleVolume(i32),
    StackLeniency(String),
    Mode(GameMode),
    LetterboxInBreaks(bool),
    SpecialStyle(bool),
    WidescreenStoryboard(bool),
    EpilepsyWarning(bool),
    SamplesMatchPlaybackRate(bool),
    Countdown(CountdownType),
    CountdownOffset(i32),
}

/// The content of a [`GeneralSetting`].
pub enum GeneralSettingView {
    AudioFile(Seq<char>),
    AudioLeadIn(i32),
    PreviewTime(i32),
    DefaultSampleBank(SampleBank),
    DefaultSampleVolume(i32),
    StackLeniency(Seq<char>),
    Mode(GameMode),
    LetterboxInBreaks(bool),
    SpecialStyle(bool),
    WidescreenStoryboard(bool),
    EpilepsyWarning(bool),
    SamplesMatchPlaybackRate(bool),
    Countdown(CountdownType),
    CountdownOffset(i32),
}

impl View for GeneralSetting {
    type V = GeneralSettingView;

    open spec fn view(&self) -> GeneralSettingView {
        match self {
            GeneralSetting::AudioFile(f) => GeneralSettingView::AudioFile(f@),
            GeneralSetting::AudioLeadIn(n) => GeneralSettingView::AudioLeadIn(*n),
            GeneralSetting::PreviewTime(n) => GeneralSettingView::PreviewTime(*n),
            GeneralSetting::DefaultSampleBank(b) => GeneralSettingView::DefaultSampleBank(*b),
            GeneralSetting::DefaultSampleVolume(n) => GeneralSettingView::DefaultSampleVolume(*n),
            GeneralSetting::StackLeniency(t) => GeneralSettingView::StackLeniency(t@),
            GeneralSetting::Mode(m) => GeneralSettingView::Mode(*m),
            GeneralSetting::LetterboxInBreaks(b) => GeneralSettingView::LetterboxInBreaks(*b),
            GeneralSetting::SpecialStyle(b) => GeneralSettingView::SpecialStyle(*b),
            GeneralSetting::WidescreenStoryboard(b) => GeneralSettingView::WidescreenStoryboard(*b),
            GeneralSetting::EpilepsyWarning(b) => GeneralSettingView::EpilepsyWarning(*b),
            GeneralSetting::SamplesMatchPlaybackRate(b) => GeneralSettingView::SamplesMatchPlaybackRate(
                *b,
            ),
            GeneralSetting::Countdown(c) => GeneralSettingView::Countdown(*c),
            GeneralSetting::CountdownOffset(n) => GeneralSettingView::CountdownOffset(*n),
        }
    }
}

/// An integer setting: the number, or the error that reading it gives.
pub open spec fn int_setting(
    value: Seq<char>,
    f: spec_fn(i32) -> GeneralSettingView,
) -> Result<Option<GeneralSettingView>, ParseGeneralError> {
    match spec_parse_num_i32(value, MAX_PARSE_VALUE) {
        Ok(n) => Ok(Some(f(n))),
        Err(e) => Err(ParseGeneralError::Number(e)),
    }
}

/// A flag setting: set when the value is the number 1.
pub open spec fn flag_setting(
    value: Seq<char>,
    f: spec_fn(bool) -> GeneralSettingView,
) -> Result<Option<GeneralSettingView>, ParseGeneralError> {
    match spec_parse_num_i32(value, MAX_PARSE_VALUE) {
        Ok(n) => Ok(Some(f(n == 1))),
        Err(e) => Err(ParseGeneralError::Number(e)),
    }
}

/// What the value `v` of the key `key` sets.
pub open spec fn spec_general_value(key: GeneralKey, v: Seq<char>) -> Result<
    Option<GeneralSettingView>,
    ParseGeneralError,
> {
    match key {
        GeneralKey::AudioFilename => Ok(Some(GeneralSettingView::AudioFile(standardized_path(v)))),
        GeneralKey::AudioLeadIn => int_setting(v, |n: i32| GeneralSettingView::AudioLeadIn(n)),
        GeneralKey::PreviewTime => int_setting(v, |n: i32| GeneralSettingView::PreviewTime(n)),
        GeneralKey::SampleSet => match spec_bank_from_name(v) {
            Some(b) => Ok(Some(GeneralSettingView::DefaultSampleBank(b))),
            None => Err(ParseGeneralError::SampleBank(ParseSampleBankError)),
        },
        GeneralKey::SampleVolume => int_setting(
            v,
            |n: i32| GeneralSettingView::DefaultSampleVolume(n),
        ),
        GeneralKey::StackLeniency => Ok(Some(GeneralSettingView::StackLeniency(v))),
        GeneralKey::Mode => match spec_game_mode(v) {
            Some(m) => Ok(Some(GeneralSettingView::Mode(m))),
            None => Err(ParseGeneralError::Mode(ParseGameModeError)),
        },
        GeneralKey::LetterboxInBreaks => flag_setting(
            v,
            |b: bool| GeneralSettingView::LetterboxInBreaks(b),
        ),
        GeneralKey::SpecialStyle => flag_setting(v, |b: bool| GeneralSettingView::SpecialStyle(b)),
        GeneralKey::WidescreenStoryboard => flag_setting(
            v,
            |b: bool| GeneralSettingView::WidescreenStoryboard(b),
        ),
        GeneralKey::EpilepsyWarning => flag_setting(
            v,
            |b: bool| GeneralSettingView::EpilepsyWarning(b),
        ),
        GeneralKey::SamplesMatchPlaybackRate => flag_setting(
            v,
            |b: bool| GeneralSettingView::SamplesMatchPlaybackRate(b),
        ),
        GeneralKey::Countdown => match spec_countdown_type(v) {
            Some(c) => Ok(Some(GeneralSettingView::Countdown(c))),
            None => Err(ParseGeneralError::CountdownType(ParseCountdownTypeError)),
        },
        GeneralKey::CountdownOffset => int_setting(
            v,
            |n: i32| GeneralSettingView::CountdownOffset(n),
        ),
    }
}

/// What a line of the `[General]` section sets: with the comment removed, a
/// known key and what its value sets; a line without a known key sets nothing.
pub open spec fn spec_general_line(line: Seq<char>) -> Result<
    Option<GeneralSettingView>,
    ParseGeneralError,
> {
    let l = trim_comment(line);
    match spec_general_key(key_of(l)) {
        None => Ok(None),
        Some(key) => spec_general_value(key, value_of(l)),
    }
}

/// A `[General]` line of a number key and the decimal text of a number
/// (above the lowest `i32`, which is out of range) sets that key's field to
/// the number: audio lead-in, preview time, default sample volume and
/// countdown offset; a flag key sets its flag exactly when the number is 1.
pub proof fn lemma_general_number_lines(n: i32)
    requires
        n > i32::MIN,
    ensures
        spec_general_line("AudioLeadIn"@ + seq![':', ' '] + int_text(n as int)) == Ok::<
            Option<GeneralSettingView>,
            ParseGeneralError,
        >(Some(GeneralSettingView::AudioLeadIn(n))),
        spec_general_line("PreviewTime"@ + seq![':', ' '] + int_text(n as int)) == Ok::<
            Option<GeneralSettingView>,
            ParseGeneralError,
        >(Some(GeneralSettingView::PreviewTime(n))),
        spec_general_line("SampleVolume"@ + seq![':', ' '] + int_text(n as int)) == Ok::<
            Option<GeneralSettingView>,
            ParseGeneralError,
        >(Some(GeneralSettingView::DefaultSampleVolume(n))),
        spec_general_line("CountdownOffset"@ + seq![':', ' '] + int_text(n as int)) == Ok::<
            Option<GeneralSettingView>,
            ParseGeneralError,
        >(Some(GeneralSettingView::CountdownOffset(n))),
        spec_general_line("LetterboxInBreaks"@ + seq![':', ' '] + int_text(n as int)) == Ok::<
            Option<GeneralSettingView>,
            ParseGeneralError,
        >(Some(GeneralSettingView::LetterboxInBreaks(n == 1))),
        spec_general_line("SpecialStyle"@ + seq![':', ' '] + int_text(n as int)) == Ok::<
            Option<GeneralSettingView>,
            ParseGeneralError,
        >(Some(GeneralSettingView::SpecialStyle(n == 1))),
        spec_general_line("WidescreenStoryboard"@ + seq![':', ' '] + int_text(n as int)) == Ok::<
            Option<GeneralSettingView>,
            ParseGeneralError,
        >(Some(GeneralSettingView::WidescreenStoryboard(n == 1))),
        spec_general_line("EpilepsyWarning"@ + seq![':', ' '] + int_text(n as int)) == Ok::<
            Option<GeneralSettingView>,
            ParseGeneralError,
        >(Some(GeneralSettingView::EpilepsyWarning(n == 1))),
        spec_general_line("SamplesMatchPlaybackRate"@ + seq![':', ' '] + int_text(n as int)) == Ok::<
            Option<GeneralSettingView>,
            ParseGeneralError,
        >(Some(GeneralSettingView::SamplesMatchPlaybackRate(n == 1))),
{
    lemma_int_text_plain(n);
    lemma_parse_num_text(n);
    lemma_general_line_parts(GeneralKey::AudioLeadIn, int_text(n as int));
    lemma_general_line_parts(GeneralKey::PreviewTime, int_text(n as int));
    lemma_general_line_parts(GeneralKey::SampleVolume, int_text(n as int));
    lemma_general_line_parts(GeneralKey::CountdownOffset, int_text(n as int));
    lemma_general_line_parts(GeneralKey::LetterboxInBreaks, int_text(n as int));
    lemma_general_line_parts(GeneralKey::SpecialStyle, int_text(n as int));
    lemma_general_line_parts(GeneralKey::WidescreenStoryboard, int_text(n as int));
    lemma_general_line_parts(GeneralKey::EpilepsyWarning, int_text(n as int));
    lemma_general_line_parts(GeneralKey::SamplesMatchPlaybackRate, int_text(n as int));
}

/// A `[General]` line of the mode, the countdown or the sample set with a
/// number from 0 to 3 sets it to the value of that number: the modes osu!,
/// taiko, catch and mania; no, normal, half and double speed countdown; and
/// the banks none, normal, soft and drum.
pub proof fn lemma_general_choice_lines(n: i32)
    requires
        0 <= n <= 3,
    ensures
        spec_general_line("Mode"@ + seq![':', ' '] + int_text(n as int)) == Ok::<
            Option<GeneralSettingView>,
            ParseGeneralError,
        >(
            Some(
                GeneralSettingView::Mode(
                    if n == 0 {
                        GameMode::Osu
                    } else if n == 1 {
                        GameMode::Taiko
                    } else if n == 2 {
                        GameMode::Catch
                    } else {
                        GameMode::Mania
                    },
                ),
            ),
        ),
        spec_general_line("Countdown"@ + seq![':', ' '] + int_text(n as int)) == Ok::<
            Option<GeneralSettingView>,
            ParseGeneralError,
        >(
            Some(
                GeneralSettingView::Countdown(
                    if n == 0 {
                        CountdownType::NoCountdown
                    } else if n == 1 {
                        CountdownType::Normal
                    } else if n == 2 {
                        CountdownType::HalfSpeed
                    } else {
                        CountdownType::DoubleSpeed
                    },
                ),
            ),
        ),
        spec_general_line("SampleSet"@ + seq![':', ' '] + int_text(n as int)) == Ok::<
            Option<GeneralSettingView>,
            ParseGeneralError,
        >(
            Some(
                GeneralSettingView::DefaultSampleBank(
                    if n == 0 {
                        SampleBank::NoBank
                    } else if n == 1 {
                        SampleBank::Normal
                    } else if n == 2 {
                        SampleBank::Soft
                    } else {
                        SampleBank::Drum
                    },
                ),
            ),
        ),
{
    lemma_int_text_plain(n);
    lemma_small_number_texts();
    lemma_general_line_parts(GeneralKey::Mode, int_text(n as int));
    lemma_general_line_parts(GeneralKey::Countdown, int_text(n as int));
    lemma_general_line_parts(GeneralKey::SampleSet, int_text(n as int));
    let c = if n == 0 {
        CountdownType::NoCountdown
    } else if n == 1 {
        CountdownType::Normal
    } else if n == 2 {
        CountdownType::HalfSpeed
    } else {
        CountdownType::DoubleSpeed
    };
    lemma_countdown_text(c);
    let b = if n == 0 {
        SampleBank::NoBank
    } else if n == 1 {
        SampleBank::Normal
    } else if n == 2 {
        SampleBank::Soft
    } else {
        SampleBank::Drum
    };
    lemma_bank_number_text(b);
}

/// Read a number setting.
fn read_int(value: &str) -> (r: Result<i32, ParseGeneralError>)
    ensures
        match spec_parse_num_i32(value@, MAX_PARSE_VALUE) {
            Ok(n) => r == Ok::<i32, ParseGeneralError>(n),
            Err(e) => r == Err::<i32, ParseGeneralError>(ParseGeneralError::Number(e)),
        },
{
    match parse_num_i32(value) {
        Ok(n) => Ok(n),
        Err(e) => Err(ParseGeneralError::Number(e)),
    }
}

/// Read what a line of the `[General]` section sets, as [`spec_general_line`].
pub fn parse_general_line(line: &str) -> (r: Result<Option<GeneralSetting>, ParseGeneralError>)
    ensures
        match (r, spec_general_line(line@)) {
            (Ok(None), Ok(None)) => true,
            (Ok(Some(s)), Ok(Some(v))) => s@ == v,
            (Err(a), Err(b)) => a == b,
            _ => false,
        },
{
    let (key, value) = split_key_value(trim_comment_str(line));
    let key = match GeneralKey::from_name(key) {
        Ok(k) => k,
        Err(_) => {
            return Ok(None);
        },
    };
    let setting = match key {
        GeneralKey::AudioFilename => GeneralSetting::AudioFile(to_standardized_path(value)),
        GeneralKey::AudioLeadIn => GeneralSetting::AudioLeadIn(read_int(value)?),
        GeneralKey::PreviewTime => GeneralSetting::PreviewTime(read_int(value)?),
        GeneralKey::SampleSet => match SampleBank::from_name(value) {
            Ok(b) => GeneralSetting::DefaultSampleBank(b),
            Err(e) => {
                return Err(ParseGeneralError::SampleBank(e));
            },
        },
        GeneralKey::SampleVolume => GeneralSetting::DefaultSampleVolume(read_int(value)?),
        GeneralKey::StackLeniency => GeneralSetting::StackLeniency(value.to_owned()),
        GeneralKey::Mode => match GameMode::from_name(value) {
            Ok(m) => GeneralSetting::Mode(m),
            Err(e) => {
                return Err(ParseGeneralError::Mode(e));
            },
        },
        GeneralKey::LetterboxInBreaks => GeneralSetting::LetterboxInBreaks(read_int(value)? == 1),
        GeneralKey::SpecialStyle => GeneralSetting::SpecialStyle(read_int(value)? == 1),
        GeneralKey::WidescreenStoryboard => GeneralSetting::WidescreenStoryboard(
            read_int(value)? == 1,
        ),
        GeneralKey::EpilepsyWarning => GeneralSetting::EpilepsyWarning(read_int(value)? == 1),
        GeneralKey::SamplesMatchPlaybackRate => GeneralSetting::SamplesMatchPlaybackRate(
            read_int(value)? == 1,
        ),
        GeneralKey::Countdown => match CountdownType::from_name(value) {
            Ok(c) => GeneralSetting::Countdown(c),
            Err(e) => {
                return Err(ParseGeneralError::CountdownType(e));
            },
        },
        GeneralKey::CountdownOffset => GeneralSetting::CountdownOffset(read_int(value)?),
    };
    Ok(Some(setting))
}

} // verus!
