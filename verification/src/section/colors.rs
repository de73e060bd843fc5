//! Types for the `[Colours]` section.
use std::str::FromStr;

use vstd::prelude::*;

use crate::decode::{
    apply_lines, lemma_decode_is_apply, lemma_reads_one_section, lines_of_section, spec_decode,
    spec_section_lines, DecodeBeatmap, DecodeState,
};
use crate::number::{parse_u8_range, spec_parse_u8, ParseNumberError};
use crate::section::{Section, UnknownKeyError};
use crate::text::{
    chars_of, has_prefix, key_of, split_by, split_key_value, split_ranges, starts_with_str,
    trim_comment, trim_comment_str, value_of,
};

verus! {

/// Basic RGBA color.
#[derive(Copy, Clone, Debug, Default, PartialEq, Eq)]
pub struct Color(pub [u8; 4]);

/// The color with the given components.
pub open spec fn rgba(r: u8, g: u8, b: u8, a: u8) -> Color {
    Color([r, g, b, a])
}

impl Color {
    /// Initialize a new color.
    pub fn new(r: u8, g: u8, b: u8, a: u8) -> (c: Self)
        ensures
            c == rgba(r, g, b, a),
    {
        Self([r, g, b, a])
    }

    /// Get the red value.
    pub fn red(self) -> (r: u8)
        ensures
            r == self.0@[0],
    {
        self.0[0]
    }

    /// Get the green value.
    pub fn green(self) -> (r: u8)
        ensures
            r == self.0@[1],
    {
        self.0[1]
    }

    /// Get the blue value.
    pub fn blue(self) -> (r: u8)
        ensures
            r == self.0@[2],
    {
        self.0[2]
    }

    /// Get the alpha value.
    pub fn alpha(self) -> (r: u8)
        ensures
            r == self.0@[3],
    {
        self.0[3]
    }

    /// Parse a color of the form `R,G,B` or `R,G,B,A`; the alpha is always
    /// set to 255.
    pub fn parse_color(s: &str) -> (r: Result<Self, ParseColorsError>)
        ensures
            r == spec_parse_color(s@),
    {
        let v = chars_of(s);
        let parts = split_ranges(&v, ',');
        let ghost p = split_by(v@, ',');
        if parts.len() < 3 || parts.len() > 4 {
            return Err(ParseColorsError::IncorrectColor);
        }
        let (a0, b0) = parts[0];
        let (a1, b1) = parts[1];
        let (a2, b2) = parts[2];
        proof {
            assert(p[0] == v@.subrange(a0 as int, b0 as int));
            assert(p[1] == v@.subrange(a1 as int, b1 as int));
            assert(p[2] == v@.subrange(a2 as int, b2 as int));
        }
        let red = match parse_u8_range(&v, a0, b0) {
            Some(x) => x,
            None => {
                return Err(ParseColorsError::Number(ParseNumberError::InvalidInteger));
            },
        };
        let green = match parse_u8_range(&v, a1, b1) {
            Some(x) => x,
            None => {
                return Err(ParseColorsError::Number(ParseNumberError::InvalidInteger));
            },
        };
        let blue = match parse_u8_range(&v, a2, b2) {
            Some(x) => x,
            None => {
                return Err(ParseColorsError::Number(ParseNumberError::InvalidInteger));
            },
        };
        Ok(Self::new(red, green, blue, 255))
    }
}

/// What parsing a color gives: three or four comma-separated parts, of which
/// the first three are bytes; the alpha is set to 255.
pub open spec fn spec_parse_color(s: Seq<char>) -> Result<Color, ParseColorsError> {
    let p = split_by(s, ',');
    if p.len() < 3 || p.len() > 4 {
        Err(ParseColorsError::IncorrectColor)
    } else {
        match (spec_parse_u8(p[0]), spec_parse_u8(p[1]), spec_parse_u8(p[2])) {
            (Some(r), Some(g), Some(b)) => Ok(rgba(r, g, b, 255)),
            _ => Err(ParseColorsError::Number(ParseNumberError::InvalidInteger)),
        }
    }
}

impl FromStr for Color {
    type Err = ParseColorsError;

    fn from_str(s: &str) -> (r: Result<Self, Self::Err>)
        ensures
            r == spec_parse_color(s@),
    {
        Self::parse_color(s)
    }
}

/// A combination of a [`Color`] and a name.
#[derive(Clone, Debug, Default, PartialEq, Eq)]
pub struct CustomColor {
    pub name: String,
    pub color: Color,
}

/// The name and color of each custom color.
pub open spec fn custom_view(v: Seq<CustomColor>) -> Seq<(Seq<char>, Color)> {
    v.map_values(|c: CustomColor| (c.name@, c.color))
}

/// The index of the first color named `name`.
pub open spec fn index_of_name(l: Seq<(Seq<char>, Color)>, name: Seq<char>, from: int) -> Option<
    int,
>
    decreases l.len() - from,
{
    if from < 0 || from >= l.len() {
        None
    } else if l[from].0 == name {
        Some(from)
    } else {
        index_of_name(l, name, from + 1)
    }
}

/// Setting the color of `name`: an existing entry of that name gets the new
/// color, else the pair is appended.
pub open spec fn spec_insert_custom(
    l: Seq<(Seq<char>, Color)>,
    name: Seq<char>,
    color: Color,
) -> Seq<(Seq<char>, Color)> {
    match index_of_name(l, name, 0) {
        Some(i) => l.update(i, (name, color)),
        None => l.push((name, color)),
    }
}

/// The color of `name`, if there is one.
pub open spec fn spec_get_custom(l: Seq<(Seq<char>, Color)>, name: Seq<char>) -> Option<Color> {
    match index_of_name(l, name, 0) {
        Some(i) => Some(l[i].1),
        None => None,
    }
}

/// Whether no two entries share a name.
pub open spec fn names_unique(l: Seq<(Seq<char>, Color)>) -> bool {
    forall|i: int, j: int| 0 <= i < j < l.len() ==> (#[trigger] l[i]).0 != (#[trigger] l[j]).0
}

pub proof fn lemma_index_of_name(l: Seq<(Seq<char>, Color)>, name: Seq<char>, from: int)
    requires
        0 <= from,
    ensures
        index_of_name(l, name, from) matches Some(i) ==> from <= i < l.len() && l[i].0 == name
            && forall|k: int| from <= k < i ==> (#[trigger] l[k]).0 != name,
        index_of_name(l, name, from) is None ==> forall|k: int|
            from <= k < l.len() ==> (#[trigger] l[k]).0 != name,
    decreases l.len() - from,
{
    if from < l.len() && l[from].0 != name {
        lemma_index_of_name(l, name, from + 1);
    }
}

/// Set the color of `color.name` in a list of custom colors.
fn insert_custom(list: &mut Vec<CustomColor>, color: CustomColor)
    ensures
        custom_view(final(list)@) == spec_insert_custom(
            custom_view(old(list)@),
            color.name@,
            color.color,
        ),
{
    let ghost l = custom_view(list@);
    let mut i: usize = 0;
    while i < list.len()
        invariant
            0 <= i <= list.len(),
            list@ == old(list)@,
            l == custom_view(list@),
            index_of_name(l, color.name@, 0) == index_of_name(l, color.name@, i as int),
        decreases list.len() - i,
    {
        if list[i].name == color.name {
            proof {
                assert(l[i as int].0 == color.name@);
            }
            let ghost name = color.name@;
            let ghost c = color.color;
            list.set(i, color);
            proof {
                assert(custom_view(list@) =~= l.update(i as int, (name, c)));
            }
            return;
        }
        proof {
            assert(l[i as int].0 != color.name@);
        }
        i = i + 1;
    }
    let ghost name = color.name@;
    let ghost c = color.color;
    list.push(color);
    proof {
        assert(custom_view(list@) =~= l.push((name, c)));
    }
}

/// The custom colors of a beatmap, with unique names.
#[derive(Clone, Debug, Default, PartialEq, Eq)]
pub struct CustomColors(pub Vec<CustomColor>);

impl View for CustomColors {
    type V = Seq<(Seq<char>, Color)>;

    open spec fn view(&self) -> Seq<(Seq<char>, Color)> {
        custom_view(self.0@)
    }
}

impl CustomColors {
    /// An empty list of custom colors.
    pub fn new() -> (r: Self)
        ensures
            r@ == Seq::<(Seq<char>, Color)>::empty(),
    {
        let r = Self(Vec::new());
        assert(r@ =~= Seq::<(Seq<char>, Color)>::empty());
        r
    }

    /// The color of the given name, if there is one.
    pub fn get(&self, name: &str) -> (r: Option<Color>)
        ensures
            r == spec_get_custom(self@, name@),
    {
        let ghost l = self@;
        let mut i: usize = 0;
        while i < self.0.len()
            invariant
                0 <= i <= self.0.len(),
                l == custom_view(self.0@),
                index_of_name(l, name@, 0) == index_of_name(l, name@, i as int),
            decreases self.0.len() - i,
        {
            if crate::text::str_eq(self.0[i].name.as_str(), name) {
                return Some(self.0[i].color);
            }
            i = i + 1;
        }
        None
    }

    /// Set the color of `color.name`, replacing an earlier color of that name.
    pub fn insert(&mut self, color: CustomColor)
        ensures
            final(self)@ == spec_insert_custom(old(self)@, color.name@, color.color),
    {
        insert_custom(&mut self.0, color);
    }
}

/// Setting a color keeps the names unique.
pub proof fn lemma_insert_keeps_names_unique(
    l: Seq<(Seq<char>, Color)>,
    name: Seq<char>,
    color: Color,
)
    requires
        names_unique(l),
    ensures
        names_unique(spec_insert_custom(l, name, color)),
{
    lemma_index_of_name(l, name, 0);
    let r = spec_insert_custom(l, name, color);
    assert forall|i: int, j: int| 0 <= i < j < r.len() implies (#[trigger] r[i]).0 != (
    #[trigger] r[j]).0 by {
        match index_of_name(l, name, 0) {
            Some(k) => {
                if i != k && j != k {
                    assert(r[i] == l[i] && r[j] == l[j]);
                } else if i == k {
                    assert(l[j] == r[j]);
                    assert(l[i].0 == name);
                } else {
                    assert(l[i] == r[i]);
                    assert(l[j].0 == name);
                }
            },
            None => {
                if j < l.len() {
                    assert(r[i] == l[i] && r[j] == l[j]);
                } else {
                    assert(r[i] == l[i]);
                }
            },
        }
    }
}

/// After setting the color of a name, the name has that color and every
/// other name keeps its color.
pub proof fn lemma_get_after_insert(
    l: Seq<(Seq<char>, Color)>,
    name: Seq<char>,
    color: Color,
    other: Seq<char>,
)
    requires
        names_unique(l),
    ensures
        spec_get_custom(spec_insert_custom(l, name, color), name) == Some(color),
        other != name ==> spec_get_custom(spec_insert_custom(l, name, color), other)
            == spec_get_custom(l, other),
{
    let r = spec_insert_custom(l, name, color);
    lemma_index_of_name(l, name, 0);
    lemma_index_of_name(l, other, 0);
    lemma_index_of_name(r, name, 0);
    lemma_index_of_name(r, other, 0);
    lemma_insert_keeps_names_unique(l, name, color);
    match index_of_name(r, name, 0) {
        Some(i) => {
            match index_of_name(l, name, 0) {
                Some(k) => {
                    assert(r[k].0 == name);
                    if i < k {
                        assert(r[i] == l[i]);
                    } else if i > k {
                        assert(r[k].0 == name);
                    }
                },
                None => {
                    assert(r[l.len() as int].0 == name);
                    if i < l.len() {
                        assert(r[i] == l[i]);
                    }
                },
            }
        },
        None => {
            match index_of_name(l, name, 0) {
                Some(k) => {
                    assert(r[k].0 == name);
                },
                None => {
                    assert(r[l.len() as int].0 == name);
                },
            }
        },
    }
    if other != name {
        match (index_of_name(l, other, 0), index_of_name(r, other, 0)) {
            (Some(a), Some(b)) => {
                assert(r[a].0 == other) by {
                    match index_of_name(l, name, 0) {
                        Some(k) => {
                            assert(a != k);
                        },
                        None => {},
                    }
                }
                if b < a {
                    match index_of_name(l, name, 0) {
                        Some(k) => {
                            if b != k {
                                assert(l[b] == r[b]);
                            }
                        },
                        None => {
                            assert(l[b] == r[b]);
                        },
                    }
                }
                if a < b {
                    assert(r[a].0 == other);
                }
                assert(a == b);
                match index_of_name(l, name, 0) {
                    Some(k) => {
                        assert(a != k);
                    },
                    None => {},
                }
            },
            (Some(a), None) => {
                match index_of_name(l, name, 0) {
                    Some(k) => {
                        assert(a != k);
                        assert(r[a] == l[a]);
                    },
                    None => {
                        assert(r[a] == l[a]);
                    },
                }
            },
            (None, Some(b)) => {
                match index_of_name(l, name, 0) {
                    Some(k) => {
                        if b != k {
                            assert(r[b] == l[b]);
                        }
                    },
                    None => {
                        if b < l.len() {
                            assert(r[b] == l[b]);
                        }
                    },
                }
            },
            (None, None) => {},
        }
    }
}

/// Struct containing all data from a `.osu` file's `[Colours]` section.
#[derive(Clone, Debug, Default, PartialEq, Eq)]
pub struct Colors {
    pub custom_combo_colors: Vec<Color>,
    pub custom_colors: Vec<CustomColor>,
}

/// The content of a [`Colors`].
pub struct ColorsView {
    pub custom_combo_colors: Seq<Color>,
    pub custom_colors: Seq<(Seq<char>, Color)>,
}

impl View for Colors {
    type V = ColorsView;

    open spec fn view(&self) -> ColorsView {
        ColorsView {
            custom_combo_colors: self.custom_combo_colors@,
            custom_colors: custom_view(self.custom_colors@),
        }
    }
}

impl Colors {
    /// The combo colors that osu! uses when a beatmap sets none.
    pub fn default_combo_colors() -> (r: [Color; 4])
        ensures
            r@ == seq![
                rgba(255, 192, 0, 255),
                rgba(0, 202, 0, 255),
                rgba(18, 124, 255, 255),
                rgba(242, 24, 57, 255),
            ],
    {
        let r = [
            Color([255, 192, 0, 255]),
            Color([0, 202, 0, 255]),
            Color([18, 124, 255, 255]),
            Color([242, 24, 57, 255]),
        ];
        assert(r@ =~= seq![
            rgba(255, 192, 0, 255),
            rgba(0, 202, 0, 255),
            rgba(18, 124, 255, 255),
            rgba(242, 24, 57, 255),
        ]);
        r
    }
}

/// All valid keys within a `.osu` file's `[Colours]` section
#[derive(Clone, Debug, PartialEq, Eq)]
pub enum ColorsKey {
    Combo,
    Name(String),
}

impl ColorsKey {
    /// The key that `s` spells: a combo color when it starts with `Combo`,
    /// else a named color.
    pub fn from_name(s: &str) -> (r: Result<Self, UnknownKeyError>)
        ensures
            has_prefix(s@, "Combo"@) ==> r == Ok::<Self, UnknownKeyError>(ColorsKey::Combo),
            !has_prefix(s@, "Combo"@) ==> (r matches Ok(ColorsKey::Name(n)) && n@ == s@),
    {
        if starts_with_str(s, "Combo") {
            Ok(Self::Combo)
        } else {
            Ok(Self::Name(s.to_owned()))
        }
    }
}

impl FromStr for ColorsKey {
    type Err = UnknownKeyError;

    fn from_str(s: &str) -> (r: Result<Self, Self::Err>)
        ensures
            has_prefix(s@, "Combo"@) ==> r == Ok::<Self, UnknownKeyError>(ColorsKey::Combo),
            !has_prefix(s@, "Combo"@) ==> (r matches Ok(ColorsKey::Name(n)) && n@ == s@),
    {
        Self::from_name(s)
    }
}

/// All the ways that parsing a `.osu` file into [`Colors`] can fail.
#[derive(Copy, Clone, Debug, PartialEq, Eq, Structural)]
pub enum ParseColorsError {
    /// The color is not of the form `R,G,B` or `R,G,B,A`.
    IncorrectColor,
    /// A component is no valid byte.
    Number(ParseNumberError),
}

/// What a line of the `[Colours]` section does: with the comment removed, a
/// valid color behind a key that starts with `Combo` is appended to the combo
/// colors; behind any other key it sets the custom color of that name. A
/// line without a valid color changes nothing.
pub open spec fn spec_parse_colors_line(c: ColorsView, line: Seq<char>) -> ColorsView {
    let l = trim_comment(line);
    let key = key_of(l);
    match spec_parse_color(value_of(l)) {
        Err(_) => c,
        Ok(color) => if has_prefix(key, "Combo"@) {
            ColorsView { custom_combo_colors: c.custom_combo_colors.push(color), ..c }
        } else {
            ColorsView { custom_colors: spec_insert_custom(c.custom_colors, key, color), ..c }
        },
    }
}

/// The parsing state for [`Colors`] in [`DecodeBeatmap`].
pub type ColorsState = Colors;

impl DecodeState for Colors {
    open spec fn spec_create(version: i32) -> ColorsView {
        ColorsView { custom_combo_colors: Seq::empty(), custom_colors: Seq::empty() }
    }

    fn create(_version: i32) -> (r: Self) {
        let r = Self { custom_combo_colors: Vec::new(), custom_colors: Vec::new() };
        assert(r@.custom_colors =~= Seq::<(Seq<char>, Color)>::empty());
        r
    }
}

impl Colors {
    /// Update the colors based on a line of the `[Colours]` section.
    pub fn parse_colors_line(&mut self, line: &str) -> (r: Result<(), ParseColorsError>)
        ensures
            final(self)@ == spec_parse_colors_line(old(self)@, line@),
            match spec_parse_color(value_of(trim_comment(line@))) {
                Ok(_) => r is Ok,
                Err(e) => r == Err::<(), ParseColorsError>(e),
            },
    {
        let (key, value) = split_key_value(trim_comment_str(line));
        let color = match Color::parse_color(value) {
            Ok(c) => c,
            Err(e) => {
                return Err(e);
            },
        };
        match ColorsKey::from_name(key) {
            Ok(ColorsKey::Combo) => {
                self.custom_combo_colors.push(color);
            },
            Ok(ColorsKey::Name(name)) => {
                insert_custom(&mut self.custom_colors, CustomColor { name, color });
            },
            Err(_) => {},
        }
        Ok(())
    }
}

impl DecodeBeatmap for Colors {
    type Error = ParseColorsError;

    type State = Colors;

    open spec fn spec_parse(state: ColorsView, section: Section, line: Seq<char>) -> ColorsView {
        if section == Section::Colors {
            spec_parse_colors_line(state, line)
        } else {
            state
        }
    }

    open spec fn spec_finish(state: ColorsView) -> ColorsView {
        state
    }

    fn finish(state: Self) -> (r: Self) {
        state
    }

    fn parse_general(_state: &mut Self, _line: &str) -> (r: Result<(), Self::Error>)
        ensures
            r == Ok::<(), ParseColorsError>(()),
    {
        Ok(())
    }

    fn parse_editor(_state: &mut Self, _line: &str) -> (r: Result<(), Self::Error>)
        ensures
            r == Ok::<(), ParseColorsError>(()),
    {
        Ok(())
    }

    fn parse_metadata(_state: &mut Self, _line: &str) -> (r: Result<(), Self::Error>)
        ensures
            r == Ok::<(), ParseColorsError>(()),
    {
        Ok(())
    }

    fn parse_difficulty(_state: &mut Self, _line: &str) -> (r: Result<(), Self::Error>)
        ensures
            r == Ok::<(), ParseColorsError>(()),
    {
        Ok(())
    }

    fn parse_events(_state: &mut Self, _line: &str) -> (r: Result<(), Self::Error>)
        ensures
            r == Ok::<(), ParseColorsError>(()),
    {
        Ok(())
    }

    fn parse_timing_points(_state: &mut Self, _line: &str) -> (r: Result<(), Self::Error>)
        ensures
            r == Ok::<(), ParseColorsError>(()),
    {
        Ok(())
    }

    fn parse_colors(state: &mut Self, line: &str) -> (r: Result<(), Self::Error>) {
        state.parse_colors_line(line)
    }

    fn parse_hit_objects(_state: &mut Self, _line: &str) -> (r: Result<(), Self::Error>)
        ensures
            r == Ok::<(), ParseColorsError>(()),
    {
        Ok(())
    }

    fn parse_variables(_state: &mut Self, _line: &str) -> (r: Result<(), Self::Error>)
        ensures
            r == Ok::<(), ParseColorsError>(()),
    {
        Ok(())
    }

    fn parse_catch_the_beat(_state: &mut Self, _line: &str) -> (r: Result<(), Self::Error>)
        ensures
            r == Ok::<(), ParseColorsError>(()),
    {
        Ok(())
    }

    fn parse_mania(_state: &mut Self, _line: &str) -> (r: Result<(), Self::Error>)
        ensures
            r == Ok::<(), ParseColorsError>(()),
    {
        Ok(())
    }
}

/// Decoding colors reads the `[Colours]` lines only: every other line of the
/// file is passed over.
pub proof fn lemma_colors_reads_its_section(bytes: Seq<u8>)
    ensures
        spec_decode::<Colors>(bytes) == match spec_section_lines(bytes) {
            Ok((version, pairs)) => Ok(
                apply_lines::<Colors>(
                    Colors::spec_create(version),
                    lines_of_section(pairs, Section::Colors),
                ),
            ),
            Err(e) => Err(e),
        },
{
    lemma_decode_is_apply::<Colors>(bytes);
    match spec_section_lines(bytes) {
        Ok((version, pairs)) => {
            lemma_reads_one_section::<Colors>(Colors::spec_create(version), pairs, Section::Colors);
        },
        Err(_) => {},
    }
}

} // verus!
