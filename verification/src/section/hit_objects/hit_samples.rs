//! Audio-related types of hit objects.
use std::str::FromStr;

use vstd::prelude::*;

use crate::number::{
    int_text, int_to_chars, parse_num_i32, parse_u8, spec_parse_num_i32, spec_parse_u8,
    ParseNumberError, MAX_PARSE_VALUE,
};
use crate::encode::{lemma_int_text_facts, lemma_parse_num_text};
use crate::section::general::GameMode;
use crate::text::{lacks, lemma_split_join, lemma_split_single, push_chars, push_str, split_by, str_eq};

verus! {

/// The default names of a [`HitSampleInfo`].
#[derive(Copy, Clone, Debug, PartialEq, Eq, Structural)]
pub enum HitSampleDefaultName {
    Normal,
    Whistle,
    Finish,
    Clap,
}

/// The file name of a default sample.
pub open spec fn default_name_text(name: HitSampleDefaultName) -> Seq<char> {
    match name {
        HitSampleDefaultName::Normal => "hitnormal"@,
        HitSampleDefaultName::Whistle => "hitwhistle"@,
        HitSampleDefaultName::Finish => "hitfinish"@,
        HitSampleDefaultName::Clap => "hitclap"@,
    }
}

impl HitSampleDefaultName {
    /// The file name of the default sample.
    pub fn to_lowercase_str(self) -> (r: &'static str)
        ensures
            r@ == default_name_text(self),
    {
        match self {
            Self::Normal => "hitnormal",
            Self::Whistle => "hitwhistle",
            Self::Finish => "hitfinish",
            Self::Clap => "hitclap",
        }
    }
}

/// The name of a [`HitSampleInfo`].
#[derive(Clone, Debug, PartialEq, Eq)]
pub enum HitSampleInfoName {
    Default(HitSampleDefaultName),
    File(String),
}

/// The content of a [`HitSampleInfoName`].
pub enum SampleNameView {
    Default(HitSampleDefaultName),
    File(Seq<char>),
}

impl View for HitSampleInfoName {
    type V = SampleNameView;

    open spec fn view(&self) -> SampleNameView {
        match self {
            HitSampleInfoName::Default(n) => SampleNameView::Default(*n),
            HitSampleInfoName::File(f) => SampleNameView::File(f@),
        }
    }
}

/// The different types of samples.
#[derive(Copy, Clone, Debug, Default, PartialEq, Eq, Structural)]
pub enum SampleBank {
    #[default]
    NoBank,
    Normal,
    Soft,
    Drum,
}

/// The lower-case name of a bank.
pub open spec fn bank_text(bank: SampleBank) -> Seq<char> {
    match bank {
        SampleBank::NoBank => "none"@,
        SampleBank::Normal => "normal"@,
        SampleBank::Soft => "soft"@,
        SampleBank::Drum => "drum"@,
    }
}

/// The bank of a lower-case name; unknown names give no bank.
pub open spec fn spec_bank_from_lowercase(s: Seq<char>) -> SampleBank {
    if s == "normal"@ {
        SampleBank::Normal
    } else if s == "soft"@ {
        SampleBank::Soft
    } else if s == "drum"@ {
        SampleBank::Drum
    } else {
        SampleBank::NoBank
    }
}

/// The bank that a number or a name stands for.
pub open spec fn spec_bank_from_name(s: Seq<char>) -> Option<SampleBank> {
    if s == "0"@ || s == "None"@ {
        Some(SampleBank::NoBank)
    } else if s == "1"@ || s == "Normal"@ {
        Some(SampleBank::Normal)
    } else if s == "2"@ || s == "Soft"@ {
        Some(SampleBank::Soft)
    } else if s == "3"@ || s == "Drum"@ {
        Some(SampleBank::Drum)
    } else {
        None
    }
}

/// The bank of a number from 0 to 3.
pub open spec fn spec_bank_of_i32(n: i32) -> Option<SampleBank> {
    if n == 0 {
        Some(SampleBank::NoBank)
    } else if n == 1 {
        Some(SampleBank::Normal)
    } else if n == 2 {
        Some(SampleBank::Soft)
    } else if n == 3 {
        Some(SampleBank::Drum)
    } else {
        None
    }
}

/// The number of a bank.
pub open spec fn bank_number(bank: SampleBank) -> i32 {
    match bank {
        SampleBank::NoBank => 0,
        SampleBank::Normal => 1,
        SampleBank::Soft => 2,
        SampleBank::Drum => 3,
    }
}

/// Error type for a failed parsing of [`SampleBank`].
#[derive(Copy, Clone, Debug, PartialEq, Eq, Structural)]
pub struct ParseSampleBankError;

impl SampleBank {
    /// The lower-case name of the bank.
    pub fn to_lowercase_str(self) -> (r: &'static str)
        ensures
            r@ == bank_text(self),
    {
        match self {
            Self::NoBank => "none",
            Self::Normal => "normal",
            Self::Soft => "soft",
            Self::Drum => "drum",
        }
    }

    /// The bank of a lower-case name; unknown names give no bank.
    pub fn from_lowercase(s: &str) -> (r: Self)
        ensures
            r == spec_bank_from_lowercase(s@),
    {
        if str_eq(s, "normal") {
            Self::Normal
        } else if str_eq(s, "soft") {
            Self::Soft
        } else if str_eq(s, "drum") {
            Self::Drum
        } else {
            Self::NoBank
        }
    }

    /// Parse a bank from its number or its name.
    pub fn from_name(s: &str) -> (r: Result<Self, ParseSampleBankError>)
        ensures
            match spec_bank_from_name(s@) {
                Some(b) => r == Ok::<Self, ParseSampleBankError>(b),
                None => r is Err,
            },
    {
        if str_eq(s, "0") || str_eq(s, "None") {
            Ok(Self::NoBank)
        } else if str_eq(s, "1") || str_eq(s, "Normal") {
            Ok(Self::Normal)
        } else if str_eq(s, "2") || str_eq(s, "Soft") {
            Ok(Self::Soft)
        } else if str_eq(s, "3") || str_eq(s, "Drum") {
            Ok(Self::Drum)
        } else {
            Err(ParseSampleBankError)
        }
    }

    /// The bank of a number from 0 to 3.
    pub fn try_from_i32(bank: i32) -> (r: Result<Self, ParseSampleBankError>)
        ensures
            match spec_bank_of_i32(bank) {
                Some(b) => r == Ok::<Self, ParseSampleBankError>(b),
                None => r is Err,
            },
    {
        match bank {
            0 => Ok(Self::NoBank),
            1 => Ok(Self::Normal),
            2 => Ok(Self::Soft),
            3 => Ok(Self::Drum),
            _ => Err(ParseSampleBankError),
        }
    }

    /// The number of the bank.
    pub fn number(self) -> (r: i32)
        ensures
            r == bank_number(self),
    {
        match self {
            Self::NoBank => 0,
            Self::Normal => 1,
            Self::Soft => 2,
            Self::Drum => 3,
        }
    }
}

/// A bank's number gives back the bank.
pub proof fn lemma_bank_number(bank: SampleBank)
    ensures
        spec_bank_of_i32(bank_number(bank)) == Some(bank),
{
}

/// A bank's lower-case name gives back the bank.
pub proof fn lemma_bank_text(bank: SampleBank)
    ensures
        spec_bank_from_lowercase(bank_text(bank)) == bank,
{
    reveal_strlit("none");
    reveal_strlit("normal");
    reveal_strlit("soft");
    reveal_strlit("drum");
    assert("none"@.len() != "normal"@.len());
    assert("none"@[0] != "soft"@[0]);
    assert("none"@[0] != "drum"@[0]);
    assert("soft"@.len() != "normal"@.len());
    assert("drum"@.len() != "normal"@.len());
    assert("drum"@[0] != "soft"@[0]);
}

impl FromStr for SampleBank {
    type Err = ParseSampleBankError;

    fn from_str(s: &str) -> (r: Result<Self, Self::Err>)
        ensures
            match spec_bank_from_name(s@) {
                Some(b) => r == Ok::<Self, ParseSampleBankError>(b),
                None => r is Err,
            },
    {
        Self::from_name(s)
    }
}

/// Info about a hit object's sample.
#[derive(Clone, Debug, PartialEq, Eq)]
pub struct HitSampleInfo {
    pub name: HitSampleInfoName,
    pub bank: SampleBank,
    pub suffix: Option<u32>,
    pub volume: i32,
    pub custom_sample_bank: i32,
    pub bank_specified: bool,
    pub is_layered: bool,
}

/// The content of a [`HitSampleInfo`].
pub struct HitSampleInfoView {
    pub name: SampleNameView,
    pub bank: SampleBank,
    pub suffix: Option<u32>,
    pub volume: i32,
    pub custom_sample_bank: i32,
    pub bank_specified: bool,
    pub is_layered: bool,
}

impl View for HitSampleInfo {
    type V = HitSampleInfoView;

    open spec fn view(&self) -> HitSampleInfoView {
        HitSampleInfoView {
            name: self.name@,
            bank: self.bank,
            suffix: self.suffix,
            volume: self.volume,
            custom_sample_bank: self.custom_sample_bank,
            bank_specified: self.bank_specified,
            is_layered: self.is_layered,
        }
    }
}

/// The views of a list of samples.
pub open spec fn samples_view(v: Seq<HitSampleInfo>) -> Seq<HitSampleInfoView> {
    v.map_values(|h: HitSampleInfo| h@)
}

/// The suffix of a custom sample bank: only banks from 2 on have one.
pub open spec fn bank_suffix(custom_sample_bank: i32) -> Option<u32> {
    if custom_sample_bank >= 2 {
        Some(custom_sample_bank as u32)
    } else {
        None
    }
}

/// A new sample: without a bank it uses the normal bank and counts as
/// unspecified.
pub open spec fn spec_new_sample(
    name: SampleNameView,
    bank: Option<SampleBank>,
    custom_sample_bank: i32,
    volume: i32,
) -> HitSampleInfoView {
    HitSampleInfoView {
        name: name,
        bank: match bank {
            Some(b) => b,
            None => SampleBank::Normal,
        },
        suffix: bank_suffix(custom_sample_bank),
        volume: volume,
        custom_sample_bank: custom_sample_bank,
        bank_specified: bank is Some,
        is_layered: false,
    }
}

/// The name under which the sample is looked up: a file's own name, or
/// `Gameplay/<bank>-<name><suffix>` for a default sample.
pub open spec fn spec_lookup_name(h: HitSampleInfoView) -> Seq<char> {
    match h.name {
        SampleNameView::File(f) => f,
        SampleNameView::Default(n) => "Gameplay/"@ + bank_text(h.bank) + "-"@ + default_name_text(n)
            + match h.suffix {
            Some(s) => int_text(s as int),
            None => Seq::empty(),
        },
    }
}

impl HitSampleInfo {
    /// The name of the default normal sample.
    pub fn hit_normal() -> (r: HitSampleInfoName)
        ensures
            r@ == SampleNameView::Default(HitSampleDefaultName::Normal),
    {
        HitSampleInfoName::Default(HitSampleDefaultName::Normal)
    }

    /// Initialize a new [`HitSampleInfo`].
    pub fn new(
        name: HitSampleInfoName,
        bank: Option<SampleBank>,
        custom_sample_bank: i32,
        volume: i32,
    ) -> (r: Self)
        ensures
            r@ == spec_new_sample(name@, bank, custom_sample_bank, volume),
    {
        let bank_specified = bank.is_some();
        let bank = match bank {
            Some(b) => b,
            None => SampleBank::Normal,
        };
        let suffix = if custom_sample_bank >= 2 {
            Some(custom_sample_bank as u32)
        } else {
            None
        };
        Self {
            name,
            bank,
            suffix,
            volume,
            custom_sample_bank,
            bank_specified,
            is_layered: false,
        }
    }

    /// The name under which the sample is looked up.
    pub fn lookup_name(&self) -> (r: String)
        ensures
            r@ == spec_lookup_name(self@),
    {
        match &self.name {
            HitSampleInfoName::File(f) => f.clone(),
            HitSampleInfoName::Default(n) => {
                let mut s = String::new();
                push_str(&mut s, "Gameplay/");
                push_str(&mut s, self.bank.to_lowercase_str());
                push_str(&mut s, "-");
                push_str(&mut s, n.to_lowercase_str());
                match self.suffix {
                    Some(suffix) => {
                        let digits = int_to_chars(suffix as i64);
                        push_chars(&mut s, &digits);
                    },
                    None => {
                        assert(s@ + Seq::<char>::empty() =~= s@);
                    },
                }
                s
            },
        }
    }
}

/// The type of a hit sample.
#[derive(Copy, Clone, Debug, Default, PartialEq, Eq, Structural)]
pub struct HitSoundType(pub u8);

pub const HIT_SOUND_NONE: u8 = 0;

pub const HIT_SOUND_NORMAL: u8 = 1;

pub const HIT_SOUND_WHISTLE: u8 = 2;

pub const HIT_SOUND_FINISH: u8 = 4;

pub const HIT_SOUND_CLAP: u8 = 8;

/// The bit that a sample's name adds to a hit sound type.
pub open spec fn name_bit(name: SampleNameView) -> u8 {
    match name {
        SampleNameView::Default(HitSampleDefaultName::Whistle) => HIT_SOUND_WHISTLE,
        SampleNameView::Default(HitSampleDefaultName::Finish) => HIT_SOUND_FINISH,
        SampleNameView::Default(HitSampleDefaultName::Clap) => HIT_SOUND_CLAP,
        _ => HIT_SOUND_NONE,
    }
}

/// The hit sound type of a list of samples: the union of the bits of their
/// names.
pub open spec fn sound_bits(samples: Seq<HitSampleInfoView>) -> u8
    decreases samples.len(),
{
    if samples.len() == 0 {
        HIT_SOUND_NONE
    } else {
        sound_bits(samples.drop_last()) | name_bit(samples.last().name)
    }
}

/// Error type for a failed parsing of [`HitSoundType`].
#[derive(Copy, Clone, Debug, PartialEq, Eq, Structural)]
pub struct ParseHitSoundTypeError;

impl HitSoundType {
    /// Check whether any of the given bitflags are set.
    pub fn has_flag(self, flag: u8) -> (r: bool)
        ensures
            r == (self.0 & flag != 0),
    {
        (self.0 & flag) != 0
    }

    /// The hit sound type of a list of samples.
    pub fn from_samples(samples: &Vec<HitSampleInfo>) -> (r: Self)
        ensures
            r.0 == sound_bits(samples_view(samples@)),
    {
        let ghost sv = samples_view(samples@);
        let mut kind: u8 = HIT_SOUND_NONE;
        let mut i: usize = 0;
        while i < samples.len()
            invariant
                0 <= i <= samples.len(),
                sv == samples_view(samples@),
                kind == sound_bits(sv.take(i as int)),
            decreases samples.len() - i,
        {
            let bit = match &samples[i].name {
                HitSampleInfoName::Default(HitSampleDefaultName::Whistle) => HIT_SOUND_WHISTLE,
                HitSampleInfoName::Default(HitSampleDefaultName::Finish) => HIT_SOUND_FINISH,
                HitSampleInfoName::Default(HitSampleDefaultName::Clap) => HIT_SOUND_CLAP,
                _ => HIT_SOUND_NONE,
            };
            proof {
                assert(sv.take(i + 1).drop_last() =~= sv.take(i as int));
                assert(sv.take(i + 1).last() == samples@[i as int]@);
            }
            kind = kind | bit;
            i = i + 1;
        }
        assert(sv.take(samples.len() as int) =~= sv);
        Self(kind)
    }

    /// Parse a hit sound type from its number.
    pub fn from_name(s: &str) -> (r: Result<Self, ParseHitSoundTypeError>)
        ensures
            match spec_parse_u8(s@) {
                Some(n) => r == Ok::<Self, ParseHitSoundTypeError>(HitSoundType(n)),
                None => r is Err,
            },
    {
        match parse_u8(s) {
            Some(n) => Ok(Self(n)),
            None => Err(ParseHitSoundTypeError),
        }
    }
}

impl FromStr for HitSoundType {
    type Err = ParseHitSoundTypeError;

    fn from_str(s: &str) -> (r: Result<Self, Self::Err>)
        ensures
            match spec_parse_u8(s@) {
                Some(n) => r == Ok::<Self, ParseHitSoundTypeError>(HitSoundType(n)),
                None => r is Err,
            },
    {
        Self::from_name(s)
    }
}

/// Sample info of a hit object to convert a [`HitSoundType`] into a list of
/// [`HitSampleInfo`].
#[derive(Clone, Debug, Default, PartialEq, Eq)]
pub struct SampleBankInfo {
    pub filename: Option<String>,
    pub bank_for_normal: Option<SampleBank>,
    pub bank_for_addition: Option<SampleBank>,
    pub volume: i32,
    pub custom_sample_bank: i32,
}

/// The content of a [`SampleBankInfo`].
pub struct SampleBankInfoView {
    pub filename: Option<Seq<char>>,
    pub bank_for_normal: Option<SampleBank>,
    pub bank_for_addition: Option<SampleBank>,
    pub volume: i32,
    pub custom_sample_bank: i32,
}

impl View for SampleBankInfo {
    type V = SampleBankInfoView;

    open spec fn view(&self) -> SampleBankInfoView {
        SampleBankInfoView {
            filename: match &self.filename {
                Some(f) => Some(f@),
                None => None,
            },
            bank_for_normal: self.bank_for_normal,
            bank_for_addition: self.bank_for_addition,
            volume: self.volume,
            custom_sample_bank: self.custom_sample_bank,
        }
    }
}

/// All the ways that parsing into [`SampleBankInfo`] can fail.
#[derive(Copy, Clone, Debug, PartialEq, Eq, Structural)]
pub enum ParseSampleBankInfoError {
    MissingInfo,
    Number(ParseNumberError),
}

/// The bank of a number, the normal bank for numbers out of range.
pub open spec fn bank_or_normal(n: i32) -> SampleBank {
    match spec_bank_of_i32(n) {
        Some(b) => b,
        None => SampleBank::Normal,
    }
}

/// A bank other than no bank.
pub open spec fn some_bank(b: SampleBank) -> Option<SampleBank> {
    if b == SampleBank::NoBank {
        None
    } else {
        Some(b)
    }
}

/// Reading the parts `bank:addition_bank:custom_bank:volume:filename` of a
/// hit sample. The two banks are required once the first part is there;
/// custom bank and volume are optional and a missing filename clears it. On a
/// bad part, the fields read before it keep their new values.
pub open spec fn spec_read_banks(info: SampleBankInfoView, p: Seq<Seq<char>>) -> (
    SampleBankInfoView,
    Result<(), ParseSampleBankInfoError>,
) {
    if p.len() == 0 {
        (info, Ok(()))
    } else {
        match spec_parse_num_i32(p[0], MAX_PARSE_VALUE) {
            Err(e) => (info, Err(ParseSampleBankInfoError::Number(e))),
            Ok(b0) => if p.len() < 2 {
                (info, Err(ParseSampleBankInfoError::MissingInfo))
            } else {
                match spec_parse_num_i32(p[1], MAX_PARSE_VALUE) {
                    Err(e) => (info, Err(ParseSampleBankInfoError::Number(e))),
                    Ok(b1) => {
                        let normal = some_bank(bank_or_normal(b0));
                        let addition = some_bank(bank_or_normal(b1));
                        let info1 = SampleBankInfoView {
                            bank_for_normal: normal,
                            bank_for_addition: if addition is Some {
                                addition
                            } else {
                                normal
                            },
                            ..info
                        };
                        if p.len() < 3 {
                            (SampleBankInfoView { filename: None, ..info1 }, Ok(()))
                        } else {
                            match spec_parse_num_i32(p[2], MAX_PARSE_VALUE) {
                                Err(e) => (info1, Err(ParseSampleBankInfoError::Number(e))),
                                Ok(c) => {
                                    let info2 = SampleBankInfoView {
                                        custom_sample_bank: c,
                                        ..info1
                                    };
                                    if p.len() < 4 {
                                        (SampleBankInfoView { filename: None, ..info2 }, Ok(()))
                                    } else {
                                        match spec_parse_num_i32(p[3], MAX_PARSE_VALUE) {
                                            Err(e) => (
                                                info2,
                                                Err(ParseSampleBankInfoError::Number(e)),
                                            ),
                                            Ok(v) => {
                                                let info3 = SampleBankInfoView {
                                                    volume: if v < 0 {
                                                        0
                                                    } else {
                                                        v
                                                    },
                                                    ..info2
                                                };
                                                (
                                                    SampleBankInfoView {
                                                        filename: if p.len() >= 5 {
                                                            Some(p[4])
                                                        } else {
                                                            None
                                                        },
                                                        ..info3
                                                    },
                                                    Ok(()),
                                                )
                                            },
                                        }
                                    }
                                },
                            }
                        }
                    },
                }
            },
        }
    }
}

/// The samples that a hit sound type stands for: the file sample or the
/// normal sample (layered when additions but no normal sound are set), then
/// finish, whistle and clap for each bit that is set.
pub open spec fn spec_convert_sound_type(info: SampleBankInfoView, t: u8) -> Seq<
    HitSampleInfoView,
> {
    let first = match info.filename {
        Some(f) => if f.len() > 0 {
            spec_new_sample(SampleNameView::File(f), None, 1, info.volume)
        } else {
            HitSampleInfoView {
                is_layered: t != HIT_SOUND_NONE && t & HIT_SOUND_NORMAL == 0,
                ..spec_new_sample(
                    SampleNameView::Default(HitSampleDefaultName::Normal),
                    info.bank_for_normal,
                    info.custom_sample_bank,
                    info.volume,
                )
            }
        },
        None => HitSampleInfoView {
            is_layered: t != HIT_SOUND_NONE && t & HIT_SOUND_NORMAL == 0,
            ..spec_new_sample(
                SampleNameView::Default(HitSampleDefaultName::Normal),
                info.bank_for_normal,
                info.custom_sample_bank,
                info.volume,
            )
        },
    };
    let addition = |n: HitSampleDefaultName|
        spec_new_sample(
            SampleNameView::Default(n),
            info.bank_for_addition,
            info.custom_sample_bank,
            info.volume,
        );
    seq![first] + (if t & HIT_SOUND_FINISH != 0 {
        seq![addition(HitSampleDefaultName::Finish)]
    } else {
        Seq::empty()
    }) + (if t & HIT_SOUND_WHISTLE != 0 {
        seq![addition(HitSampleDefaultName::Whistle)]
    } else {
        Seq::empty()
    }) + (if t & HIT_SOUND_CLAP != 0 {
        seq![addition(HitSampleDefaultName::Clap)]
    } else {
        Seq::empty()
    })
}

impl SampleBankInfo {
    /// Read and store custom sample banks from the parts of a hit sample.
    pub fn read_custom_sample_banks(&mut self, parts: &[&str]) -> (r: Result<
        (),
        ParseSampleBankInfoError,
    >)
        ensures
            (final(self)@, r) == spec_read_banks(
                old(self)@,
                parts@.map_values(|p: &str| p@),
            ),
    {
        let ghost p = parts@.map_values(|p: &str| p@);
        if parts.len() == 0 {
            return Ok(());
        }
        let b0 = match parse_num_i32(parts[0]) {
            Ok(n) => n,
            Err(e) => {
                return Err(ParseSampleBankInfoError::Number(e));
            },
        };
        if parts.len() < 2 {
            return Err(ParseSampleBankInfoError::MissingInfo);
        }
        let b1 = match parse_num_i32(parts[1]) {
            Ok(n) => n,
            Err(e) => {
                return Err(ParseSampleBankInfoError::Number(e));
            },
        };
        let bank = match SampleBank::try_from_i32(b0) {
            Ok(b) => b,
            Err(_) => SampleBank::Normal,
        };
        let add_bank = match SampleBank::try_from_i32(b1) {
            Ok(b) => b,
            Err(_) => SampleBank::Normal,
        };
        let normal_bank = if bank == SampleBank::NoBank {
            None
        } else {
            Some(bank)
        };
        let add_bank = if add_bank == SampleBank::NoBank {
            None
        } else {
            Some(add_bank)
        };
        self.bank_for_normal = normal_bank;
        self.bank_for_addition = match add_bank {
            Some(b) => Some(b),
            None => normal_bank,
        };
        if parts.len() >= 3 {
            match parse_num_i32(parts[2]) {
                Ok(n) => self.custom_sample_bank = n,
                Err(e) => {
                    return Err(ParseSampleBankInfoError::Number(e));
                },
            }
        }
        if parts.len() >= 4 {
            match parse_num_i32(parts[3]) {
                Ok(n) => self.volume = if n < 0 {
                    0
                } else {
                    n
                },
                Err(e) => {
                    return Err(ParseSampleBankInfoError::Number(e));
                },
            }
        }
        self.filename = if parts.len() >= 5 {
            Some(parts[4].to_owned())
        } else {
            None
        };
        Ok(())
    }

    /// Convert a [`HitSoundType`] into a list of [`HitSampleInfo`].
    pub fn convert_sound_type(self, sound_type: HitSoundType) -> (r: Vec<HitSampleInfo>)
        ensures
            samples_view(r@) == spec_convert_sound_type(self@, sound_type.0),
    {
        let ghost info = self@;
        let mut sound_types: Vec<HitSampleInfo> = Vec::new();
        let t = sound_type.0;
        let use_file = match &self.filename {
            Some(f) => !f.as_str().is_empty(),
            None => false,
        };
        if use_file {
            let f = match self.filename {
                Some(f) => f,
                None => String::new(),
            };
            sound_types.push(HitSampleInfo::new(HitSampleInfoName::File(f), None, 1, self.volume));
        } else {
            let mut sample = HitSampleInfo::new(
                HitSampleInfo::hit_normal(),
                self.bank_for_normal,
                self.custom_sample_bank,
                self.volume,
            );
            sample.is_layered = t != HIT_SOUND_NONE && !sound_type.has_flag(HIT_SOUND_NORMAL);
            sound_types.push(sample);
        }
        let ghost s1 = samples_view(sound_types@);
        if sound_type.has_flag(HIT_SOUND_FINISH) {
            sound_types.push(
                HitSampleInfo::new(
                    HitSampleInfoName::Default(HitSampleDefaultName::Finish),
                    self.bank_for_addition,
                    self.custom_sample_bank,
                    self.volume,
                ),
            );
        }
        let ghost s2 = samples_view(sound_types@);
        if sound_type.has_flag(HIT_SOUND_WHISTLE) {
            sound_types.push(
                HitSampleInfo::new(
                    HitSampleInfoName::Default(HitSampleDefaultName::Whistle),
                    self.bank_for_addition,
                    self.custom_sample_bank,
                    self.volume,
                ),
            );
        }
        let ghost s3 = samples_view(sound_types@);
        if sound_type.has_flag(HIT_SOUND_CLAP) {
            sound_types.push(
                HitSampleInfo::new(
                    HitSampleInfoName::Default(HitSampleDefaultName::Clap),
                    self.bank_for_addition,
                    self.custom_sample_bank,
                    self.volume,
                ),
            );
        }
        proof {
            let target = spec_convert_sound_type(info, t);
            assert(samples_view(sound_types@) =~= target);
        }
        sound_types
    }
}

proof fn lemma_sound_bits_append(x: Seq<HitSampleInfoView>, y: Seq<HitSampleInfoView>)
    requires
        y.len() <= 1,
    ensures
        sound_bits(x + y) == if y.len() == 0 {
            sound_bits(x)
        } else {
            sound_bits(x) | name_bit(y[0].name)
        },
{
    if y.len() == 0 {
        assert(x + y =~= x);
    } else {
        assert((x + y).drop_last() =~= x);
        assert((x + y).last() == y[0]);
    }
}

/// The hit sound type of the samples that a hit sound type is converted into
/// is that type without its normal bit: converting and reading back keeps
/// whistle, finish and clap.
pub proof fn lemma_convert_sound_type_roundtrip(info: SampleBankInfoView, t: u8)
    ensures
        sound_bits(spec_convert_sound_type(info, t)) == t & (HIT_SOUND_WHISTLE | HIT_SOUND_FINISH
            | HIT_SOUND_CLAP),
{
    let all = spec_convert_sound_type(info, t);
    let s0 = seq![all[0]];
    let f: u8 = if t & 4u8 != 0 { 4 } else { 0 };
    let w: u8 = if t & 2u8 != 0 { 2 } else { 0 };
    let c: u8 = if t & 8u8 != 0 { 8 } else { 0 };
    let addition = |n: HitSampleDefaultName|
        spec_new_sample(
            SampleNameView::Default(n),
            info.bank_for_addition,
            info.custom_sample_bank,
            info.volume,
        );
    let a1 = if t & HIT_SOUND_FINISH != 0 {
        seq![addition(HitSampleDefaultName::Finish)]
    } else {
        Seq::<HitSampleInfoView>::empty()
    };
    let a2 = if t & HIT_SOUND_WHISTLE != 0 {
        seq![addition(HitSampleDefaultName::Whistle)]
    } else {
        Seq::<HitSampleInfoView>::empty()
    };
    let a3 = if t & HIT_SOUND_CLAP != 0 {
        seq![addition(HitSampleDefaultName::Clap)]
    } else {
        Seq::<HitSampleInfoView>::empty()
    };
    assert(all =~= s0 + a1 + a2 + a3);
    assert(sound_bits(s0) == 0u8) by {
        assert(s0.drop_last() =~= Seq::<HitSampleInfoView>::empty());
        assert(s0.last() == all[0]);
        assert(name_bit(all[0].name) == 0u8);
        assert(sound_bits(Seq::<HitSampleInfoView>::empty()) == 0u8);
        assert(0u8 | 0u8 == 0u8) by (bit_vector);
    }
    assert(forall|x: u8| #[trigger] (x | 0u8) == x) by (bit_vector);
    lemma_sound_bits_append(s0, a1);
    lemma_sound_bits_append(s0 + a1, a2);
    lemma_sound_bits_append(s0 + a1 + a2, a3);
    assert(sound_bits(s0 + a1) == 0u8 | f);
    assert(sound_bits(s0 + a1 + a2) == (0u8 | f) | w);
    assert(sound_bits(all) == ((0u8 | f) | w) | c);
    assert(2u8 | 4u8 | 8u8 == 14u8) by (bit_vector);
    assert(((0u8 | f) | w) | c == t & 14u8) by (bit_vector)
        requires
            f == (if t & 4u8 != 0 { 4u8 } else { 0u8 }),
            w == (if t & 2u8 != 0 { 2u8 } else { 0u8 }),
            c == (if t & 8u8 != 0 { 8u8 } else { 0u8 }),
    ;
}

/// Without a sample file, the first sample of a converted sound type is the
/// normal sound, and it is layered exactly when the sound type is set but
/// is even (has no normal sound): no sound type at all, or one with the
/// normal sound, gives an unlayered normal sample.
pub proof fn lemma_normal_sample_layering(info: SampleBankInfoView, t: u8)
    requires
        !(info.filename matches Some(f) && f.len() > 0),
    ensures
        spec_convert_sound_type(info, t).len() >= 1,
        spec_convert_sound_type(info, t)[0].name == SampleNameView::Default(
            HitSampleDefaultName::Normal,
        ),
        spec_convert_sound_type(info, t)[0].bank_specified == (info.bank_for_normal is Some),
        spec_convert_sound_type(info, t)[0].is_layered <==> (t != 0 && t % 2 == 0),
        t == 0 ==> !spec_convert_sound_type(info, t)[0].is_layered,
{
    assert((t & 1u8 == 0u8) <==> (t % 2 == 0)) by (bit_vector);
}

/// The bank used for samples when a control point gives none.
pub open spec fn default_sample_bank() -> SampleBank {
    SampleBank::Normal
}

/// What a sample point does to a sample: a default sample takes the point's
/// custom bank (and its suffix) and volume where it has none of its own, and
/// the point's bank where its bank was not specified; a file sample gets the
/// default bank, no suffix, custom bank 1, the point's volume where it has
/// none, and is no longer layered.
pub open spec fn spec_apply_sample_point(
    sample_bank: SampleBank,
    sample_volume: i32,
    custom_sample_bank: i32,
    h: HitSampleInfoView,
) -> HitSampleInfoView {
    match h.name {
        SampleNameView::Default(_) => {
            let h1 = if h.custom_sample_bank == 0 {
                HitSampleInfoView {
                    custom_sample_bank: custom_sample_bank,
                    suffix: if custom_sample_bank >= 2 {
                        Some(custom_sample_bank as u32)
                    } else {
                        h.suffix
                    },
                    ..h
                }
            } else {
                h
            };
            let h2 = if h1.volume == 0 {
                HitSampleInfoView { volume: sample_volume, ..h1 }
            } else {
                h1
            };
            if !h2.bank_specified {
                HitSampleInfoView { bank: sample_bank, bank_specified: true, ..h2 }
            } else {
                h2
            }
        },
        SampleNameView::File(_) => HitSampleInfoView {
            bank: default_sample_bank(),
            suffix: None,
            volume: if h.volume == 0 {
                sample_volume
            } else {
                h.volume
            },
            custom_sample_bank: 1,
            bank_specified: false,
            is_layered: false,
            ..h
        },
    }
}

/// Apply the settings of a sample point to a sample.
pub fn apply_sample_point(
    sample_bank: SampleBank,
    sample_volume: i32,
    custom_sample_bank: i32,
    sample: &mut HitSampleInfo,
)
    ensures
        final(sample)@ == spec_apply_sample_point(
            sample_bank,
            sample_volume,
            custom_sample_bank,
            old(sample)@,
        ),
{
    let is_default = match &sample.name {
        HitSampleInfoName::Default(_) => true,
        HitSampleInfoName::File(_) => false,
    };
    if is_default {
        if sample.custom_sample_bank == 0 {
            sample.custom_sample_bank = custom_sample_bank;
            if sample.custom_sample_bank >= 2 {
                sample.suffix = Some(sample.custom_sample_bank as u32);
            }
        }
        if sample.volume == 0 {
            sample.volume = sample_volume;
        }
        if !sample.bank_specified {
            sample.bank = sample_bank;
            sample.bank_specified = true;
        }
    } else {
        sample.bank = SampleBank::Normal;
        sample.suffix = None;
        if sample.volume == 0 {
            sample.volume = sample_volume;
        }
        sample.custom_sample_bank = 1;
        sample.bank_specified = false;
        sample.is_layered = false;
    }
}

/// Applying the same sample point twice does no more than applying it once.
pub proof fn lemma_apply_sample_point_idempotent(
    sample_bank: SampleBank,
    sample_volume: i32,
    custom_sample_bank: i32,
    h: HitSampleInfoView,
)
    ensures
        ({
            let once = spec_apply_sample_point(sample_bank, sample_volume, custom_sample_bank, h);
            spec_apply_sample_point(sample_bank, sample_volume, custom_sample_bank, once) == once
        }),
{
}

/// Which samples a search of [`find_sample`] looks for.
pub open spec fn sample_matches(kind: u8, h: HitSampleInfoView) -> bool {
    match h.name {
        SampleNameView::Default(n) => if kind == 0 {
            n == HitSampleDefaultName::Normal
        } else if kind == 1 {
            n != HitSampleDefaultName::Normal
        } else {
            kind == 2
        },
        SampleNameView::File(f) => kind == 3 && f.len() > 0,
    }
}

/// The index of the first sample that `kind` looks for: 0 the normal
/// sample, 1 an addition, 2 any default sample, 3 a file sample with a name.
pub open spec fn first_sample(s: Seq<HitSampleInfoView>, kind: u8, from: int) -> Option<int>
    decreases s.len() - from,
{
    if from < 0 || from >= s.len() {
        None
    } else if sample_matches(kind, s[from]) {
        Some(from)
    } else {
        first_sample(s, kind, from + 1)
    }
}

/// The index of the first sample that `kind` looks for, as [`first_sample`].
pub fn find_sample(samples: &Vec<HitSampleInfo>, kind: u8) -> (r: Option<usize>)
    ensures
        r matches Some(i) ==> i < samples.len() && first_sample(
            samples_view(samples@),
            kind,
            0,
        ) == Some(i as int),
        r is None ==> first_sample(samples_view(samples@), kind, 0) is None,
{
    let ghost sv = samples_view(samples@);
    let mut i: usize = 0;
    while i < samples.len()
        invariant
            0 <= i <= samples.len(),
            sv == samples_view(samples@),
            first_sample(sv, kind, 0) == first_sample(sv, kind, i as int),
        decreases samples.len() - i,
    {
        let found = match &samples[i].name {
            HitSampleInfoName::Default(n) => if kind == 0 {
                *n == HitSampleDefaultName::Normal
            } else if kind == 1 {
                *n != HitSampleDefaultName::Normal
            } else {
                kind == 2
            },
            HitSampleInfoName::File(f) => kind == 3 && !f.as_str().is_empty(),
        };
        proof {
            assert(sv[i as int] == samples@[i as int]@);
        }
        if found {
            return Some(i);
        }
        i = i + 1;
    }
    None
}

/// The text `<normal bank>:<addition bank>` of a hit object's samples, then,
/// unless `banks_only`, `:<custom bank>:<volume>:<file name>`; custom bank
/// and volume are written as 0 outside of osu!mania.
pub open spec fn spec_sample_bank_text(
    s: Seq<HitSampleInfoView>,
    banks_only: bool,
    mode: GameMode,
) -> Seq<char> {
    let normal = match first_sample(s, 0, 0) {
        Some(i) => s[i].bank,
        None => default_sample_bank(),
    };
    let addition = match first_sample(s, 1, 0) {
        Some(i) => s[i].bank,
        None => SampleBank::NoBank,
    };
    let head = int_text(bank_number(normal) as int) + ":"@ + int_text(bank_number(addition) as int);
    if banks_only {
        head
    } else {
        let custom = if mode != GameMode::Mania {
            0
        } else {
            match first_sample(s, 2, 0) {
                Some(i) => s[i].custom_sample_bank,
                None => 0,
            }
        };
        let volume = if mode != GameMode::Mania {
            0
        } else if s.len() > 0 {
            s[0].volume
        } else {
            100
        };
        let file = match first_sample(s, 3, 0) {
            Some(i) => spec_lookup_name(s[i]),
            None => Seq::empty(),
        };
        head + ":"@ + int_text(custom as int) + ":"@ + int_text(volume as int) + ":"@ + file
    }
}

/// Write the sample banks of a hit object, as [`spec_sample_bank_text`].
pub fn get_sample_bank(samples: &Vec<HitSampleInfo>, banks_only: bool, mode: GameMode) -> (r:
    String)
    ensures
        r@ == spec_sample_bank_text(samples_view(samples@), banks_only, mode),
{
    let ghost sv = samples_view(samples@);
    let normal_bank = match find_sample(samples, 0) {
        Some(i) => samples[i].bank,
        None => SampleBank::Normal,
    };
    let add_bank = match find_sample(samples, 1) {
        Some(i) => samples[i].bank,
        None => SampleBank::NoBank,
    };
    let mut out = String::new();
    push_chars(&mut out, &int_to_chars(normal_bank.number() as i64));
    push_str(&mut out, ":");
    push_chars(&mut out, &int_to_chars(add_bank.number() as i64));
    if banks_only {
        proof {
            assert(out@ =~= spec_sample_bank_text(sv, banks_only, mode));
        }
        return out;
    }
    let mut custom_sample_bank: i32 = match find_sample(samples, 2) {
        Some(i) => samples[i].custom_sample_bank,
        None => 0,
    };
    let mut volume: i32 = if samples.len() > 0 {
        samples[0].volume
    } else {
        100
    };
    if mode != GameMode::Mania {
        custom_sample_bank = 0;
        volume = 0;
    }
    push_str(&mut out, ":");
    push_chars(&mut out, &int_to_chars(custom_sample_bank as i64));
    push_str(&mut out, ":");
    push_chars(&mut out, &int_to_chars(volume as i64));
    push_str(&mut out, ":");
    match find_sample(samples, 3) {
        Some(i) => {
            let name = samples[i].lookup_name();
            push_str(&mut out, name.as_str());
        },
        None => {},
    }
    proof {
        assert(out@ =~= spec_sample_bank_text(sv, banks_only, mode));
    }
    out
}

/// The hit sound type written for node `i` of a slider: that of its
/// samples, or none for a node without samples.
pub open spec fn node_sound(nodes: Seq<Seq<HitSampleInfoView>>, i: int) -> u8 {
    if i < nodes.len() {
        sound_bits(nodes[i])
    } else {
        HIT_SOUND_NONE
    }
}

/// The banks written for node `i` of a slider: those of its samples, or
/// `0:0` for a node without samples.
pub open spec fn node_banks(nodes: Seq<Seq<HitSampleInfoView>>, i: int, mode: GameMode) -> Seq<char> {
    if i < nodes.len() {
        spec_sample_bank_text(nodes[i], true, mode)
    } else {
        "0:0"@
    }
}

/// The separator behind node `i` of `span_count + 1` nodes.
pub open spec fn node_separator(i: int, span_count: int) -> Seq<char> {
    if i == span_count {
        seq![',']
    } else {
        seq!['|']
    }
}

/// The sound types of the first `k` nodes, each followed by its separator.
pub open spec fn node_sounds_text(nodes: Seq<Seq<HitSampleInfoView>>, span_count: int, k: int) -> Seq<
    char,
>
    decreases k,
{
    if k <= 0 {
        Seq::empty()
    } else {
        node_sounds_text(nodes, span_count, k - 1) + int_text(node_sound(nodes, k - 1) as int)
            + node_separator(k - 1, span_count)
    }
}

/// The banks of the first `k` nodes, each followed by its separator.
pub open spec fn node_banks_text(
    nodes: Seq<Seq<HitSampleInfoView>>,
    span_count: int,
    mode: GameMode,
    k: int,
) -> Seq<char>
    decreases k,
{
    if k <= 0 {
        Seq::empty()
    } else {
        node_banks_text(nodes, span_count, mode, k - 1) + node_banks(nodes, k - 1, mode)
            + node_separator(k - 1, span_count)
    }
}

/// The node sounds and then the node banks of a slider with `span_count`
/// spans, for its `span_count + 1` nodes.
pub open spec fn spec_node_text(nodes: Seq<Seq<HitSampleInfoView>>, span_count: int, mode: GameMode) -> Seq<
    char,
> {
    node_sounds_text(nodes, span_count, span_count + 1) + node_banks_text(
        nodes,
        span_count,
        mode,
        span_count + 1,
    )
}

/// Append the sound types and banks of a slider's nodes, as
/// [`spec_node_text`].
pub fn encode_node_data(
    node_samples: &Vec<Vec<HitSampleInfo>>,
    span_count: i32,
    mode: GameMode,
    out: &mut String,
)
    requires
        0 <= span_count,
    ensures
        final(out)@ == old(out)@ + spec_node_text(
            node_samples@.map_values(|v: Vec<HitSampleInfo>| samples_view(v@)),
            span_count as int,
            mode,
        ),
{
    let ghost nodes = node_samples@.map_values(|v: Vec<HitSampleInfo>| samples_view(v@));
    let n = span_count as usize + 1;
    let mut i: usize = 0;
    while i < n
        invariant
            0 <= i <= n,
            n == span_count + 1,
            nodes == node_samples@.map_values(|v: Vec<HitSampleInfo>| samples_view(v@)),
            out@ == old(out)@ + node_sounds_text(nodes, span_count as int, i as int),
        decreases n - i,
    {
        let sound: u8 = if i < node_samples.len() {
            HitSoundType::from_samples(&node_samples[i]).0
        } else {
            HIT_SOUND_NONE
        };
        push_chars(out, &int_to_chars(sound as i64));
        if i + 1 == n {
            push_str(out, ",");
        } else {
            push_str(out, "|");
        }
        proof {
            reveal_strlit(",");
            reveal_strlit("|");
        }
        i = i + 1;
        assert(out@ =~= old(out)@ + node_sounds_text(nodes, span_count as int, i as int));
    }
    let ghost sounds = out@;
    let mut j: usize = 0;
    while j < n
        invariant
            0 <= j <= n,
            n == span_count + 1,
            nodes == node_samples@.map_values(|v: Vec<HitSampleInfo>| samples_view(v@)),
            out@ == sounds + node_banks_text(nodes, span_count as int, mode, j as int),
        decreases n - j,
    {
        if j < node_samples.len() {
            let banks = get_sample_bank(&node_samples[j], true, mode);
            push_str(out, banks.as_str());
        } else {
            push_str(out, "0:0");
        }
        if j + 1 == n {
            push_str(out, ",");
        } else {
            push_str(out, "|");
        }
        proof {
            reveal_strlit(",");
            reveal_strlit("|");
        }
        j = j + 1;
        assert(out@ =~= sounds + node_banks_text(nodes, span_count as int, mode, j as int));
    }
    assert(out@ =~= old(out)@ + spec_node_text(nodes, span_count as int, mode));
}

/// Whether a sample is an addition: a default sample other than the normal
/// sound.
pub open spec fn is_addition_name(name: SampleNameView) -> bool {
    name matches SampleNameView::Default(n) && n != HitSampleDefaultName::Normal
}

proof fn lemma_first_sample_found(s: Seq<HitSampleInfoView>, kind: u8, from: int, j: int)
    requires
        0 <= from <= j < s.len(),
        sample_matches(kind, s[j]),
        forall|x: int| from <= x < j ==> !sample_matches(kind, #[trigger] s[x]),
    ensures
        first_sample(s, kind, from) == Some(j),
    decreases j - from,
{
    if from < j {
        lemma_first_sample_found(s, kind, from + 1, j);
    }
}

proof fn lemma_first_sample_none(s: Seq<HitSampleInfoView>, kind: u8, from: int)
    requires
        0 <= from,
        forall|x: int| from <= x < s.len() ==> !sample_matches(kind, #[trigger] s[x]),
    ensures
        first_sample(s, kind, from) is None,
    decreases s.len() - from,
{
    if from < s.len() {
        lemma_first_sample_none(s, kind, from + 1);
    }
}

/// The bank field that the node encoder writes for a node is its banks only,
/// `<normal bank>:<addition bank>`: the bank of its first normal sample (the
/// normal bank when it has none) and that of its first addition (no bank
/// when it has none). Reading that field back as a node's sample banks sets
/// the node's normal and addition banks (an addition bank of none falls back
/// to the normal one) and leaves custom bank and volume alone, with no file
/// name.
pub proof fn lemma_node_banks_read_back(
    nodes: Seq<Seq<HitSampleInfoView>>,
    i: int,
    mode: GameMode,
    info: SampleBankInfoView,
    normal_at: Option<int>,
    addition_at: Option<int>,
)
    requires
        0 <= i < nodes.len(),
        match normal_at {
            Some(j) => 0 <= j < nodes[i].len() && nodes[i][j].name == SampleNameView::Default(
                HitSampleDefaultName::Normal,
            ) && forall|x: int|
                0 <= x < j ==> #[trigger] nodes[i][x].name != SampleNameView::Default(
                    HitSampleDefaultName::Normal,
                ),
            None => forall|x: int|
                0 <= x < nodes[i].len() ==> #[trigger] nodes[i][x].name != SampleNameView::Default(
                    HitSampleDefaultName::Normal,
                ),
        },
        match addition_at {
            Some(j) => 0 <= j < nodes[i].len() && is_addition_name(nodes[i][j].name) && forall|
                x: int,
            | 0 <= x < j ==> !is_addition_name(#[trigger] nodes[i][x].name),
            None => forall|x: int|
                0 <= x < nodes[i].len() ==> !is_addition_name(#[trigger] nodes[i][x].name),
        },
    ensures
        ({
            let normal = match normal_at {
                Some(j) => nodes[i][j].bank,
                None => SampleBank::Normal,
            };
            let addition = match addition_at {
                Some(j) => nodes[i][j].bank,
                None => SampleBank::NoBank,
            };
            let field = node_banks(nodes, i, mode);
            let read_normal = if normal == SampleBank::NoBank {
                None
            } else {
                Some(normal)
            };
            &&& field == int_text(bank_number(normal) as int) + seq![':'] + int_text(
                bank_number(addition) as int,
            )
            &&& spec_read_banks(info, split_by(field, ':')) == (
                SampleBankInfoView {
                    bank_for_normal: read_normal,
                    bank_for_addition: if addition == SampleBank::NoBank {
                        read_normal
                    } else {
                        Some(addition)
                    },
                    filename: None,
                    ..info
                },
                Ok::<(), ParseSampleBankInfoError>(()),
            )
        }),
{
    let s = nodes[i];
    match normal_at {
        Some(j) => {
            assert forall|x: int| 0 <= x < j implies !sample_matches(0, #[trigger] s[x]) by {
                assert(s[x].name != SampleNameView::Default(HitSampleDefaultName::Normal));
            }
            lemma_first_sample_found(s, 0, 0, j);
        },
        None => {
            assert forall|x: int| 0 <= x < s.len() implies !sample_matches(0, #[trigger] s[x]) by {
                assert(s[x].name != SampleNameView::Default(HitSampleDefaultName::Normal));
            }
            lemma_first_sample_none(s, 0, 0);
        },
    }
    match addition_at {
        Some(j) => {
            assert forall|x: int| 0 <= x < j implies !sample_matches(1, #[trigger] s[x]) by {
                assert(!is_addition_name(s[x].name));
            }
            lemma_first_sample_found(s, 1, 0, j);
        },
        None => {
            assert forall|x: int| 0 <= x < s.len() implies !sample_matches(1, #[trigger] s[x]) by {
                assert(!is_addition_name(s[x].name));
            }
            lemma_first_sample_none(s, 1, 0);
        },
    }
    let normal = match normal_at {
        Some(j) => s[j].bank,
        None => SampleBank::Normal,
    };
    let addition = match addition_at {
        Some(j) => s[j].bank,
        None => SampleBank::NoBank,
    };
    reveal_strlit(":");
    assert(":"@ =~= seq![':']);
    let a = int_text(bank_number(normal) as int);
    let b = int_text(bank_number(addition) as int);
    let field = node_banks(nodes, i, mode);
    assert(field == a + seq![':'] + b);
    lemma_int_text_facts(bank_number(normal));
    lemma_int_text_facts(bank_number(addition));
    lemma_split_single(b, ':');
    lemma_split_join(a, b, ':');
    assert(split_by(field, ':') =~= seq![a, b]);
    lemma_parse_num_text(bank_number(normal));
    lemma_parse_num_text(bank_number(addition));
    lemma_bank_number(normal);
    lemma_bank_number(addition);
}

} // verus!
