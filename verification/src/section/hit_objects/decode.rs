//! The integer logic of a line of the `[HitObjects]` section: the type
//! number, the repeat count and the sounds of a slider's nodes.
use vstd::prelude::*;

use crate::number::{
    parse_num_i32, spec_parse_num_i32, spec_parse_u8, ParseNumberError, MAX_PARSE_VALUE,
};
use crate::section::difficulty::ParseDifficultyError;
use crate::section::events::ParseEventsError;
use crate::section::hit_objects::hit_samples::{
    samples_view, spec_convert_sound_type, spec_read_banks, HitSampleInfo, HitSampleInfoView,
    HitSoundType,
    ParseHitSoundTypeError, ParseSampleBankInfoError, SampleBankInfo, SampleBankInfoView,
};
use crate::section::hit_objects::{HitObjectType, ParseHitObjectTypeError};
use crate::section::timing_points::ParseTimingPointsError;
use crate::text::{split_by, split_str};

verus! {

/// All the ways that parsing a `.osu` file into `HitObjects` can fail.
#[derive(Copy, Clone, Debug, PartialEq, Eq, Structural)]
pub enum ParseHitObjectsError {
    Difficulty(ParseDifficultyError),
    Events(ParseEventsError),
    HitObjectType(ParseHitObjectTypeError),
    HitSoundType(ParseHitSoundTypeError),
    InvalidLine,
    InvalidRepeatCount(i32),
    Number(ParseNumberError),
    SampleBankInfo(ParseSampleBankInfoError),
    TimingPoints(ParseTimingPointsError),
    UnknownHitObjectType(HitObjectType),
}

/// The kind of a hit object, without its data.
#[derive(Copy, Clone, Debug, PartialEq, Eq, Structural)]
pub enum HitObjectShape {
    Circle,
    Slider,
    Spinner,
    Hold,
}

/// The kind that a type number stands for: the first of circle, slider,
/// spinner and hold whose flag is set.
pub open spec fn spec_shape(t: i32) -> Option<HitObjectShape> {
    if t & HitObjectType::CIRCLE != 0 {
        Some(HitObjectShape::Circle)
    } else if t & HitObjectType::SLIDER != 0 {
        Some(HitObjectShape::Slider)
    } else if t & HitObjectType::SPINNER != 0 {
        Some(HitObjectShape::Spinner)
    } else if t & HitObjectType::HOLD != 0 {
        Some(HitObjectShape::Hold)
    } else {
        None
    }
}

/// The type number written for a hit object: the combo offset shifted into
/// bits 4 and up for circles and sliders, the new-combo flag for all but
/// holds, and the flag of its kind.
pub open spec fn spec_type_number(shape: HitObjectShape, new_combo: bool, combo_offset: i32) -> i32 {
    let offset = ((combo_offset as u32) << 4u32) as i32;
    let combo = if new_combo {
        HitObjectType::NEW_COMBO
    } else {
        0
    };
    match shape {
        HitObjectShape::Circle => offset | combo | HitObjectType::CIRCLE,
        HitObjectShape::Slider => offset | combo | HitObjectType::SLIDER,
        HitObjectShape::Spinner => combo | HitObjectType::SPINNER,
        HitObjectShape::Hold => HitObjectType::HOLD,
    }
}

impl HitObjectType {
    /// Take the combo information out of a type: the remaining flags, whether
    /// a new combo starts, and the combo offset from bits 4 to 6.
    pub fn split_combo(self) -> (r: (HitObjectType, bool, i32))
        ensures
            r.0.0 == self.0 & !HitObjectType::COMBO_OFFSET & !HitObjectType::NEW_COMBO,
            r.1 == (self.0 & HitObjectType::NEW_COMBO != 0),
            r.2 == (self.0 & HitObjectType::COMBO_OFFSET) >> 4u32,
    {
        let combo_offset = (self.0 & Self::COMBO_OFFSET) >> 4u32;
        let rest = self.0 & !Self::COMBO_OFFSET;
        let new_combo = (rest & Self::NEW_COMBO) != 0;
        let t = self.0;
        assert((t & !112i32) & 4i32 == t & 4i32 && (t & !112i32) & !4i32 == t & !112i32 & !4i32)
            by (bit_vector);
        (HitObjectType(rest & !Self::NEW_COMBO), new_combo, combo_offset)
    }

    /// The kind that the type stands for, if any.
    pub fn shape(self) -> (r: Option<HitObjectShape>)
        ensures
            r == spec_shape(self.0),
    {
        if self.has_flag(Self::CIRCLE) {
            Some(HitObjectShape::Circle)
        } else if self.has_flag(Self::SLIDER) {
            Some(HitObjectShape::Slider)
        } else if self.has_flag(Self::SPINNER) {
            Some(HitObjectShape::Spinner)
        } else if self.has_flag(Self::HOLD) {
            Some(HitObjectShape::Hold)
        } else {
            None
        }
    }

    /// The type of a hit object of the given kind.
    pub fn from_parts(shape: HitObjectShape, new_combo: bool, combo_offset: i32) -> (r: Self)
        ensures
            r.0 == spec_type_number(shape, new_combo, combo_offset),
    {
        let offset = ((combo_offset as u32) << 4u32) as i32;
        let combo = if new_combo {
            Self::NEW_COMBO
        } else {
            0
        };
        let kind = match shape {
            HitObjectShape::Circle => offset | combo | Self::CIRCLE,
            HitObjectShape::Slider => offset | combo | Self::SLIDER,
            HitObjectShape::Spinner => combo | Self::SPINNER,
            HitObjectShape::Hold => Self::HOLD,
        };
        Self(kind)
    }
}

/// Reading back a written type number gives the kind again, whether a new
/// combo starts (never for holds) and, for circles and sliders, the combo
/// offset's lowest three bits.
pub proof fn lemma_type_number_read_back(shape: HitObjectShape, new_combo: bool, combo_offset: i32)
    ensures
        ({
            let t = spec_type_number(shape, new_combo, combo_offset);
            let rest = t & !HitObjectType::COMBO_OFFSET & !HitObjectType::NEW_COMBO;
            &&& spec_shape(rest) == Some(shape)
            &&& (t & HitObjectType::NEW_COMBO != 0) == (new_combo && shape != HitObjectShape::Hold)
            &&& (t & HitObjectType::COMBO_OFFSET) >> 4u32 == match shape {
                HitObjectShape::Circle | HitObjectShape::Slider => combo_offset & 7,
                _ => 0,
            }
        }),
{
    let off = ((combo_offset as u32) << 4u32) as i32;
    let o = combo_offset;
    assert({
        &&& ((off | 4i32 | 1i32) & !112i32 & !4i32) & 1i32 != 0
        &&& ((off | 0i32 | 1i32) & !112i32 & !4i32) & 1i32 != 0
        &&& ((off | 4i32 | 2i32) & !112i32 & !4i32) & 1i32 == 0
        &&& ((off | 0i32 | 2i32) & !112i32 & !4i32) & 1i32 == 0
        &&& ((off | 4i32 | 2i32) & !112i32 & !4i32) & 2i32 != 0
        &&& ((off | 0i32 | 2i32) & !112i32 & !4i32) & 2i32 != 0
        &&& (off | 4i32 | 1i32) & 4i32 != 0
        &&& (off | 4i32 | 2i32) & 4i32 != 0
        &&& (off | 0i32 | 1i32) & 4i32 == 0
        &&& (off | 0i32 | 2i32) & 4i32 == 0
        &&& ((off | 4i32 | 1i32) & 112i32) >> 4u32 == o & 7i32
        &&& ((off | 0i32 | 1i32) & 112i32) >> 4u32 == o & 7i32
        &&& ((off | 4i32 | 2i32) & 112i32) >> 4u32 == o & 7i32
        &&& ((off | 0i32 | 2i32) & 112i32) >> 4u32 == o & 7i32
    }) by (bit_vector)
        requires
            off == ((o as u32) << 4u32) as i32,
    ;
    assert({
        &&& ((4i32 | 8i32) & !112i32 & !4i32) & 1i32 == 0
        &&& ((4i32 | 8i32) & !112i32 & !4i32) & 2i32 == 0
        &&& ((4i32 | 8i32) & !112i32 & !4i32) & 8i32 != 0
        &&& ((0i32 | 8i32) & !112i32 & !4i32) & 1i32 == 0
        &&& ((0i32 | 8i32) & !112i32 & !4i32) & 2i32 == 0
        &&& ((0i32 | 8i32) & !112i32 & !4i32) & 8i32 != 0
        &&& (128i32 & !112i32 & !4i32) & 1i32 == 0
        &&& (128i32 & !112i32 & !4i32) & 2i32 == 0
        &&& (128i32 & !112i32 & !4i32) & 8i32 == 0
        &&& (128i32 & !112i32 & !4i32) & 128i32 != 0
        &&& (4i32 | 8i32) & 4i32 != 0
        &&& (0i32 | 8i32) & 4i32 == 0
        &&& 128i32 & 4i32 == 0
        &&& ((4i32 | 8i32) & 112i32) >> 4u32 == 0i32
        &&& ((0i32 | 8i32) & 112i32) >> 4u32 == 0i32
        &&& (128i32 & 112i32) >> 4u32 == 0i32
    }) by (bit_vector);
}

/// The largest repeat count that a slider may have.
pub const MAX_REPEAT_COUNT: i32 = 9000;

/// What reading a slider's repeat count gives: the number of repeats, one
/// less than the slides the text states (at least zero), or an error for an
/// invalid number or a count above [`MAX_REPEAT_COUNT`].
pub open spec fn spec_repeat_count(s: Seq<char>) -> Result<i32, ParseHitObjectsError> {
    match spec_parse_num_i32(s, MAX_PARSE_VALUE) {
        Err(e) => Err(ParseHitObjectsError::Number(e)),
        Ok(n) => if n > MAX_REPEAT_COUNT {
            Err(ParseHitObjectsError::InvalidRepeatCount(n))
        } else if n - 1 < 0 {
            Ok(0)
        } else {
            Ok((n - 1) as i32)
        },
    }
}

/// Read a slider's repeat count, as [`spec_repeat_count`].
pub fn parse_repeat_count(s: &str) -> (r: Result<i32, ParseHitObjectsError>)
    ensures
        r == spec_repeat_count(s@),
        r matches Ok(n) ==> 0 <= n < MAX_REPEAT_COUNT,
{
    let n = match parse_num_i32(s) {
        Ok(n) => n,
        Err(e) => {
            return Err(ParseHitObjectsError::Number(e));
        },
    };
    if n > MAX_REPEAT_COUNT {
        return Err(ParseHitObjectsError::InvalidRepeatCount(n));
    }
    if n - 1 < 0 {
        Ok(0)
    } else {
        Ok(n - 1)
    }
}

/// The `|`-separated parts of an optional field; none when it is missing or
/// empty.
pub open spec fn node_parts(field: Option<Seq<char>>) -> Seq<Seq<char>> {
    match field {
        Some(s) => if s.len() > 0 {
            split_by(s, '|')
        } else {
            Seq::empty()
        },
        None => Seq::empty(),
    }
}

/// The bank infos of the first `nodes` nodes of a slider: each starts as
/// `info`, and a node with a part in `sets` reads its banks from that
/// part's `:`-separated pieces; the first failing part gives the error.
pub open spec fn spec_node_bank_infos(
    info: SampleBankInfoView,
    sets: Seq<Seq<char>>,
    nodes: nat,
) -> Result<Seq<SampleBankInfoView>, ParseSampleBankInfoError>
    decreases nodes,
{
    if nodes == 0 {
        Ok(Seq::empty())
    } else {
        match spec_node_bank_infos(info, sets, (nodes - 1) as nat) {
            Err(e) => Err(e),
            Ok(prev) => if nodes - 1 < sets.len() {
                match spec_read_banks(info, split_by(sets[nodes - 1], ':')) {
                    (x, Ok(())) => Ok(prev.push(x)),
                    (_, Err(e)) => Err(e),
                }
            } else {
                Ok(prev.push(info))
            },
        }
    }
}

/// The sound type of node `i`: read from its part when there is one (0 for
/// a part that is no valid number), else the hit object's own.
pub open spec fn spec_node_sound(sound: u8, sounds: Seq<Seq<char>>, i: int) -> u8 {
    if i < sounds.len() {
        match spec_parse_u8(sounds[i]) {
            Some(n) => n,
            None => 0,
        }
    } else {
        sound
    }
}

/// The samples of each of the `repeat_count + 2` nodes of a slider, from
/// the hit object's bank info and sound type and the optional fields of node
/// sounds and node banks.
pub open spec fn spec_node_samples(
    info: SampleBankInfoView,
    sound: u8,
    repeat_count: i32,
    node_sounds: Option<Seq<char>>,
    node_banks: Option<Seq<char>>,
) -> Result<Seq<Seq<HitSampleInfoView>>, ParseSampleBankInfoError> {
    let nodes = (repeat_count + 2) as nat;
    match spec_node_bank_infos(info, node_parts(node_banks), nodes) {
        Err(e) => Err(e),
        Ok(infos) => Ok(
            Seq::new(
                nodes,
                |i: int|
                    spec_convert_sound_type(
                        infos[i],
                        spec_node_sound(sound, node_parts(node_sounds), i),
                    ),
            ),
        ),
    }
}

/// The content of an optional text.
pub open spec fn opt_view(o: Option<&str>) -> Option<Seq<char>> {
    match o {
        Some(s) => Some(s@),
        None => None,
    }
}

proof fn lemma_node_bank_infos_len(info: SampleBankInfoView, sets: Seq<Seq<char>>, nodes: nat)
    ensures
        spec_node_bank_infos(info, sets, nodes) matches Ok(v) ==> v.len() == nodes,
    decreases nodes,
{
    if nodes > 0 {
        lemma_node_bank_infos_len(info, sets, (nodes - 1) as nat);
    }
}

proof fn lemma_node_bank_infos_err(
    info: SampleBankInfoView,
    sets: Seq<Seq<char>>,
    k: nat,
    n: nat,
    e: ParseSampleBankInfoError,
)
    requires
        k <= n,
        spec_node_bank_infos(info, sets, k) == Err::<Seq<SampleBankInfoView>, ParseSampleBankInfoError>(e),
    ensures
        spec_node_bank_infos(info, sets, n) == Err::<Seq<SampleBankInfoView>, ParseSampleBankInfoError>(e),
    decreases n - k,
{
    if k < n {
        lemma_node_bank_infos_err(info, sets, k, (n - 1) as nat, e);
    }
}

/// A copy of a bank info.
fn copy_info(x: &SampleBankInfo) -> (r: SampleBankInfo)
    ensures
        r@ == x@,
{
    SampleBankInfo {
        filename: match &x.filename {
            Some(f) => Some(f.as_str().to_owned()),
            None => None,
        },
        bank_for_normal: x.bank_for_normal,
        bank_for_addition: x.bank_for_addition,
        volume: x.volume,
        custom_sample_bank: x.custom_sample_bank,
    }
}

/// The `|`-separated parts of an optional field, as [`node_parts`].
fn split_node_field(field: Option<&str>) -> (r: Vec<&str>)
    ensures
        r@.map_values(|p: &str| p@) == node_parts(opt_view(field)),
{
    match field {
        Some(s) => if s.is_empty() {
            let r: Vec<&str> = Vec::new();
            assert(r@.map_values(|p: &str| p@) =~= Seq::<Seq<char>>::empty());
            r
        } else {
            split_str(s, '|')
        },
        None => {
            let r: Vec<&str> = Vec::new();
            assert(r@.map_values(|p: &str| p@) =~= Seq::<Seq<char>>::empty());
            r
        },
    }
}

/// The samples of each node of a slider, as [`spec_node_samples`].
pub fn slider_node_samples(
    info: &SampleBankInfo,
    sound: HitSoundType,
    repeat_count: i32,
    node_sounds: Option<&str>,
    node_banks: Option<&str>,
) -> (r: Result<Vec<Vec<HitSampleInfo>>, ParseHitObjectsError>)
    requires
        0 <= repeat_count < MAX_REPEAT_COUNT,
    ensures
        match (
            r,
            spec_node_samples(info@, sound.0, repeat_count, opt_view(node_sounds), opt_view(node_banks)),
        ) {
            (Ok(v), Ok(s)) => v@.map_values(|x: Vec<HitSampleInfo>| samples_view(x@)) == s,
            (Err(a), Err(b)) => a == ParseHitObjectsError::SampleBankInfo(b),
            _ => false,
        },
{
    let nodes = repeat_count as usize + 2;
    let sets = split_node_field(node_banks);
    let sounds = split_node_field(node_sounds);
    let ghost set_parts = node_parts(opt_view(node_banks));
    let ghost sound_parts = node_parts(opt_view(node_sounds));
    let mut infos: Vec<SampleBankInfo> = Vec::new();
    assert(infos@.map_values(|x: SampleBankInfo| x@) =~= Seq::<SampleBankInfoView>::empty());
    let mut i: usize = 0;
    while i < nodes
        invariant
            0 <= i <= nodes,
            nodes == repeat_count + 2,
            set_parts == node_parts(opt_view(node_banks)),
            sets@.map_values(|p: &str| p@) == set_parts,
            spec_node_bank_infos(info@, set_parts, i as nat) == Ok::<
                Seq<SampleBankInfoView>,
                ParseSampleBankInfoError,
            >(infos@.map_values(|x: SampleBankInfo| x@)),
        decreases nodes - i,
    {
        let mut x = copy_info(info);
        if i < sets.len() {
            let parts = split_str(sets[i], ':');
            proof {
                assert(set_parts[i as int] == sets@[i as int]@);
            }
            let ghost before = x@;
            let slice = parts.as_slice();
            let res = x.read_custom_sample_banks(slice);
            proof {
                assert(slice@ == parts@);
                assert(before == info@);
                assert(spec_read_banks(info@, split_by(set_parts[i as int], ':')) == (x@, res));
            }
            match res {
                Ok(()) => {},
                Err(e) => {
                    proof {
                        assert(spec_node_bank_infos(info@, set_parts, (i + 1) as nat) == Err::<
                            Seq<SampleBankInfoView>,
                            ParseSampleBankInfoError,
                        >(e));
                        lemma_node_bank_infos_err(
                            info@,
                            set_parts,
                            (i + 1) as nat,
                            nodes as nat,
                            e,
                        );
                    }
                    return Err(ParseHitObjectsError::SampleBankInfo(e));
                },
            }
        }
        let ghost prev = infos@.map_values(|y: SampleBankInfo| y@);
        let ghost xv = x@;
        infos.push(x);
        proof {
            assert(infos@.map_values(|y: SampleBankInfo| y@) =~= prev.push(xv));
        }
        i = i + 1;
    }
    let ghost views = infos@.map_values(|y: SampleBankInfo| y@);
    proof {
        lemma_node_bank_infos_len(info@, set_parts, nodes as nat);
    }
    let mut out: Vec<Vec<HitSampleInfo>> = Vec::new();
    assert(out@.map_values(|v: Vec<HitSampleInfo>| samples_view(v@)) =~= Seq::new(
        0,
        |k: int| spec_convert_sound_type(views[k], spec_node_sound(sound.0, sound_parts, k)),
    ));
    let mut j: usize = 0;
    while j < nodes
        invariant
            0 <= j <= nodes,
            nodes == infos.len(),
            views == infos@.map_values(|y: SampleBankInfo| y@),
            sounds@.map_values(|p: &str| p@) == sound_parts,
            out@.map_values(|v: Vec<HitSampleInfo>| samples_view(v@)) == Seq::new(
                j as nat,
                |k: int| spec_convert_sound_type(views[k], spec_node_sound(sound.0, sound_parts, k)),
            ),
        decreases nodes - j,
    {
        let t = if j < sounds.len() {
            proof {
                assert(sound_parts[j as int] == sounds@[j as int]@);
            }
            match HitSoundType::from_name(sounds[j]) {
                Ok(t) => t,
                Err(_) => HitSoundType(0),
            }
        } else {
            sound
        };
        let x = copy_info(&infos[j]);
        let samples = x.convert_sound_type(t);
        let ghost prev = out@.map_values(|v: Vec<HitSampleInfo>| samples_view(v@));
        proof {
            assert(x@ == views[j as int]);
            assert(t.0 == spec_node_sound(sound.0, sound_parts, j as int));
        }
        out.push(samples);
        proof {
            assert(out@.map_values(|v: Vec<HitSampleInfo>| samples_view(v@)) =~= prev.push(
                samples_view(samples@),
            ));
        }
        j = j + 1;
        proof {
            assert(out@.map_values(|v: Vec<HitSampleInfo>| samples_view(v@)) =~= Seq::new(
                j as nat,
                |k: int| spec_convert_sound_type(views[k], spec_node_sound(sound.0, sound_parts, k)),
            ));
        }
    }
    Ok(out)
}

/// Whether the previous hit object was a spinner.
pub open spec fn follows_spinner(last_object: Option<HitObjectType>) -> bool {
    match last_object {
        Some(t) => t.0 & HitObjectType::SPINNER != 0,
        None => false,
    }
}

/// Whether a circle or slider starts a new combo: the first hit object, one
/// right behind a spinner, or one whose type says so.
pub fn starts_new_combo(first_object: bool, last_object: Option<HitObjectType>, new_combo: bool) -> (r:
    bool)
    ensures
        r == (first_object || follows_spinner(last_object) || new_combo),
{
    let after_spinner = match last_object {
        Some(t) => t.has_flag(HitObjectType::SPINNER),
        None => false,
    };
    first_object || after_spinner || new_combo
}

} // verus!
