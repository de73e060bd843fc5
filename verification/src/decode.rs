//! Decoding the content of a `.osu` file into a type of choice.
use std::ops::ControlFlow;

use vstd::prelude::*;
use vstd::string::StringSliceAdditionalSpecFns;

use crate::format_version::{spec_version_from_line, try_version_from_line, LATEST_FORMAT_VERSION};
use crate::reader::encoding::DecoderError;
use crate::reader::{file_lines, is_content_line, lemma_content_lines, prepend_line, Reader};
use crate::section::{section_of_line, Section};

verus! {

/// Intermediate state while parsing via [`DecodeBeatmap`].
pub trait DecodeState: Sized + View {
    /// The state created for a format version.
    spec fn spec_create(version: i32) -> Self::V;

    /// Given the format version, create an instance.
    ///
    /// If the version is not of interest, this is basically
    /// `Default::default()`.
    fn create(version: i32) -> (r: Self)
        ensures
            r@ == Self::spec_create(version),
    ;
}

/// Trait to handle reading and parsing content of `.osu` files.
///
/// Each section has its own `parse_[section]` method in which, given the next
/// line, the state should be updated. Note that the given lines will be
/// non-empty and trimmed but comments (text starting with `//`) are **not**
/// removed. Errors of these methods are passed over: the line then counts for
/// what the method did to the state.
pub trait DecodeBeatmap: Sized + View {
    /// Error type in case something goes wrong while parsing a line.
    type Error;

    /// The parsing state which will be updated on each line and turned into
    /// `Self` at the end.
    type State: DecodeState;

    /// What a line of the given section does to the state.
    spec fn spec_parse(
        state: <Self::State as View>::V,
        section: Section,
        line: Seq<char>,
    ) -> <Self::State as View>::V;

    /// The value that a final state turns into.
    spec fn spec_finish(state: <Self::State as View>::V) -> Self::V;

    /// Turn the final state into `Self`.
    fn finish(state: Self::State) -> (r: Self)
        ensures
            r@ == Self::spec_finish(state@),
    ;

    /// Update the state based on a line of the `[General]` section.
    fn parse_general(state: &mut Self::State, line: &str) -> (r: Result<(), Self::Error>)
        ensures
            final(state)@ == Self::spec_parse(old(state)@, Section::General, line@),
    ;

    /// Update the state based on a line of the `[Editor]` section.
    fn parse_editor(state: &mut Self::State, line: &str) -> (r: Result<(), Self::Error>)
        ensures
            final(state)@ == Self::spec_parse(old(state)@, Section::Editor, line@),
    ;

    /// Update the state based on a line of the `[Metadata]` section.
    fn parse_metadata(state: &mut Self::State, line: &str) -> (r: Result<(), Self::Error>)
        ensures
            final(state)@ == Self::spec_parse(old(state)@, Section::Metadata, line@),
    ;

    /// Update the state based on a line of the `[Difficulty]` section.
    fn parse_difficulty(state: &mut Self::State, line: &str) -> (r: Result<(), Self::Error>)
        ensures
            final(state)@ == Self::spec_parse(old(state)@, Section::Difficulty, line@),
    ;

    /// Update the state based on a line of the `[Events]` section.
    fn parse_events(state: &mut Self::State, line: &str) -> (r: Result<(), Self::Error>)
        ensures
            final(state)@ == Self::spec_parse(old(state)@, Section::Events, line@),
    ;

    /// Update the state based on a line of the `[TimingPoints]` section.
    fn parse_timing_points(state: &mut Self::State, line: &str) -> (r: Result<(), Self::Error>)
        ensures
            final(state)@ == Self::spec_parse(old(state)@, Section::TimingPoints, line@),
    ;

    /// Update the state based on a line of the `[Colours]` section.
    fn parse_colors(state: &mut Self::State, line: &str) -> (r: Result<(), Self::Error>)
        ensures
            final(state)@ == Self::spec_parse(old(state)@, Section::Colors, line@),
    ;

    /// Update the state based on a line of the `[HitObjects]` section.
    fn parse_hit_objects(state: &mut Self::State, line: &str) -> (r: Result<(), Self::Error>)
        ensures
            final(state)@ == Self::spec_parse(old(state)@, Section::HitObjects, line@),
    ;

    /// Update the state based on a line of the `[Variables]` section.
    fn parse_variables(state: &mut Self::State, line: &str) -> (r: Result<(), Self::Error>)
        ensures
            final(state)@ == Self::spec_parse(old(state)@, Section::Variables, line@),
    ;

    /// Update the state based on a line of the `[CatchTheBeat]` section.
    fn parse_catch_the_beat(state: &mut Self::State, line: &str) -> (r: Result<(), Self::Error>)
        ensures
            final(state)@ == Self::spec_parse(old(state)@, Section::CatchTheBeat, line@),
    ;

    /// Update the state based on a line of the `[Mania]` section.
    fn parse_mania(state: &mut Self::State, line: &str) -> (r: Result<(), Self::Error>)
        ensures
            final(state)@ == Self::spec_parse(old(state)@, Section::Mania, line@),
    ;
}

/// The format version that the content lines give, and the lines that are
/// left for the sections. A first line that is not a version line is looked
/// at again as a section header.
pub open spec fn split_version(lines: Seq<Seq<char>>) -> (i32, Seq<Seq<char>>)
    decreases lines.len(),
{
    if lines.len() == 0 {
        (LATEST_FORMAT_VERSION, lines)
    } else {
        match spec_version_from_line(lines[0]) {
            ControlFlow::Continue(()) => split_version(lines.drop_first()),
            ControlFlow::Break(Ok(version)) => (version, lines.drop_first()),
            ControlFlow::Break(Err(_)) => (LATEST_FORMAT_VERSION, lines),
        }
    }
}

/// The first section header among `lines` and the lines behind it.
pub open spec fn skip_to_section(lines: Seq<Seq<char>>) -> Option<(Section, Seq<Seq<char>>)>
    decreases lines.len(),
{
    if lines.len() == 0 {
        None
    } else {
        match section_of_line(lines[0]) {
            Some(s) => Some((s, lines.drop_first())),
            None => skip_to_section(lines.drop_first()),
        }
    }
}

/// The state after the given lines: a header line switches the section; any
/// other line goes to the parser of the current section, or is passed over
/// in front of the first header.
pub open spec fn fold_lines<D: DecodeBeatmap>(
    state: <D::State as View>::V,
    section: Option<Section>,
    lines: Seq<Seq<char>>,
) -> <D::State as View>::V
    decreases lines.len(),
{
    if lines.len() == 0 {
        state
    } else {
        match section_of_line(lines[0]) {
            Some(next) => fold_lines::<D>(state, Some(next), lines.drop_first()),
            None => match section {
                Some(s) => fold_lines::<D>(
                    D::spec_parse(state, s, lines[0]),
                    section,
                    lines.drop_first(),
                ),
                None => fold_lines::<D>(state, section, lines.drop_first()),
            },
        }
    }
}

/// The value that the content lines of a file decode into.
pub open spec fn spec_decode_lines<D: DecodeBeatmap>(lines: Seq<Seq<char>>) -> D::V {
    let (version, rest) = split_version(lines);
    D::spec_finish(
        fold_lines::<D>(<D::State as DecodeState>::spec_create(version), None, rest),
    )
}

/// What decoding the bytes of a file gives: the decoded value, or the first
/// error in reading its lines.
pub open spec fn spec_decode<D: DecodeBeatmap>(bytes: Seq<u8>) -> Result<D::V, DecoderError> {
    match file_lines(bytes) {
        Ok(lines) => Ok(spec_decode_lines::<D>(lines)),
        Err(e) => Err(e),
    }
}

/// Whether none of `lines` is a section header.
pub open spec fn no_headers(lines: Seq<Seq<char>>) -> bool {
    forall|i: int| 0 <= i < lines.len() ==> section_of_line(#[trigger] lines[i]) is None
}

/// Behind a header, lines that are no headers reach the parser of that
/// section one after the other: one more such line is one more parser step.
pub proof fn lemma_fold_push<D: DecodeBeatmap>(
    state: <D::State as View>::V,
    section: Section,
    lines: Seq<Seq<char>>,
    line: Seq<char>,
)
    requires
        no_headers(lines),
        section_of_line(line) is None,
    ensures
        fold_lines::<D>(state, Some(section), lines.push(line)) == D::spec_parse(
            fold_lines::<D>(state, Some(section), lines),
            section,
            line,
        ),
    decreases lines.len(),
{
    if lines.len() == 0 {
        let next = D::spec_parse(state, section, line);
        assert(lines.push(line)[0] == line);
        assert(lines.push(line).drop_first() =~= Seq::<Seq<char>>::empty());
        assert(fold_lines::<D>(next, Some(section), Seq::<Seq<char>>::empty()) == next);
        assert(fold_lines::<D>(state, Some(section), lines) == state);
    } else {
        let next = D::spec_parse(state, section, lines[0]);
        assert(section_of_line(lines[0]) is None);
        assert(lines.push(line).drop_first() =~= lines.drop_first().push(line));
        assert(lines.push(line)[0] == lines[0]);
        assert(no_headers(lines.drop_first())) by {
            assert forall|i: int| 0 <= i < lines.drop_first().len() implies section_of_line(
                #[trigger] lines.drop_first()[i],
            ) is None by {
                assert(lines.drop_first()[i] == lines[i + 1]);
            }
        }
        lemma_fold_push::<D>(next, section, lines.drop_first(), line);
    }
}

/// Lines in front of the first header do not reach any section.
pub proof fn lemma_fold_skip<D: DecodeBeatmap>(
    state: <D::State as View>::V,
    lines: Seq<Seq<char>>,
)
    ensures
        fold_lines::<D>(state, None, lines) == match skip_to_section(lines) {
            None => state,
            Some((s, rest)) => fold_lines::<D>(state, Some(s), rest),
        },
    decreases lines.len(),
{
    if lines.len() > 0 {
        lemma_fold_skip::<D>(state, lines.drop_first());
    }
}

/// Read the format version from the first content line.
fn parse_version(reader: &mut Reader) -> (r: Result<(i32, bool), DecoderError>)
    requires
        old(reader).wf(),
    ensures
        final(reader).wf(),
        match r {
            Err(e) => old(reader).pending() == Err::<Seq<Seq<char>>, DecoderError>(e),
            Ok((version, use_curr_line)) => match (old(reader).pending(), final(reader).pending()) {
                (Ok(lines), Ok(p)) => split_version(lines) == (
                    version,
                    if use_curr_line {
                        seq![final(reader).spec_curr()] + p
                    } else {
                        p
                    },
                ),
                (Err(a), Err(b)) => a == b,
                _ => false,
            },
        },
{
    loop
        invariant
            reader.wf(),
            match (old(reader).pending(), reader.pending()) {
                (Ok(lines), Ok(p)) => split_version(lines) == split_version(p),
                (Err(a), Err(b)) => a == b,
                _ => false,
            },
        decreases reader.remaining_len(),
    {
        let ghost before = reader.pending();
        let line = match reader.next_line() {
            Ok(Some(line)) => line,
            Ok(None) => {
                return Ok((LATEST_FORMAT_VERSION, false));
            },
            Err(e) => {
                return Err(e);
            },
        };
        proof {
            match reader.pending() {
                Ok(p) => {
                    assert((seq![line@] + p).drop_first() =~= p);
                    assert((seq![line@] + p)[0] == line@);
                },
                Err(_) => {},
            }
        }
        match try_version_from_line(line.as_str()) {
            ControlFlow::Continue(()) => {},
            ControlFlow::Break(Ok(version)) => {
                return Ok((version, false));
            },
            ControlFlow::Break(Err(_)) => {
                return Ok((LATEST_FORMAT_VERSION, true));
            },
        }
    }
}

/// Find the first section header, starting with the line that was read last
/// if `use_curr_line` is set.
fn parse_first_section(reader: &mut Reader, use_curr_line: bool) -> (r: Result<
    Option<Section>,
    DecoderError,
>)
    requires
        old(reader).wf(),
    ensures
        final(reader).wf(),
        ({
            let before = if use_curr_line {
                prepend_line(old(reader).spec_curr(), old(reader).pending())
            } else {
                old(reader).pending()
            };
            match (before, r, final(reader).pending()) {
                (Ok(lines), Ok(None), _) => skip_to_section(lines) is None,
                (Ok(lines), Ok(Some(s)), Ok(p)) => skip_to_section(lines) == Some((s, p)),
                (Err(a), Err(b), _) => a == b,
                (Err(a), Ok(Some(_)), Err(b)) => a == b,
                _ => false,
            }
        }),
{
    if use_curr_line {
        if let Some(section) = Section::try_from_line(reader.curr_line()) {
            proof {
                match reader.pending() {
                    Ok(p) => {
                        assert((seq![reader.spec_curr()] + p).drop_first() =~= p);
                        assert((seq![reader.spec_curr()] + p)[0] == reader.spec_curr());
                    },
                    Err(_) => {},
                }
            }
            return Ok(Some(section));
        }
        proof {
            match reader.pending() {
                Ok(p) => {
                    assert((seq![reader.spec_curr()] + p).drop_first() =~= p);
                    assert((seq![reader.spec_curr()] + p)[0] == reader.spec_curr());
                },
                Err(_) => {},
            }
        }
    }
    let ghost target = if use_curr_line {
        prepend_line(old(reader).spec_curr(), old(reader).pending())
    } else {
        old(reader).pending()
    };
    loop
        invariant
            reader.wf(),
            target == (if use_curr_line {
                prepend_line(old(reader).spec_curr(), old(reader).pending())
            } else {
                old(reader).pending()
            }),
            match (target, reader.pending()) {
                (Ok(lines), Ok(p)) => skip_to_section(lines) == skip_to_section(p),
                (Err(a), Err(b)) => a == b,
                _ => false,
            },
        decreases reader.remaining_len(),
    {
        let line = match reader.next_line() {
            Ok(Some(line)) => line,
            Ok(None) => {
                return Ok(None);
            },
            Err(e) => {
                return Err(e);
            },
        };
        proof {
            match reader.pending() {
                Ok(p) => {
                    assert((seq![line@] + p).drop_first() =~= p);
                    assert((seq![line@] + p)[0] == line@);
                },
                Err(_) => {},
            }
        }
        if let Some(section) = Section::try_from_line(line.as_str()) {
            return Ok(Some(section));
        }
    }
}

/// Hand one line of the given section to its parser.
fn parse_line<D: DecodeBeatmap>(state: &mut D::State, section: Section, line: &str)
    ensures
        final(state)@ == D::spec_parse(old(state)@, section, line@),
{
    // Errors of the section parsers are passed over: the line counts for what
    // the parser did to the state.
    let _ = match section {
        Section::General => D::parse_general(state, line),
        Section::Editor => D::parse_editor(state, line),
        Section::Metadata => D::parse_metadata(state, line),
        Section::Difficulty => D::parse_difficulty(state, line),
        Section::Events => D::parse_events(state, line),
        Section::TimingPoints => D::parse_timing_points(state, line),
        Section::Colors => D::parse_colors(state, line),
        Section::HitObjects => D::parse_hit_objects(state, line),
        Section::Variables => D::parse_variables(state, line),
        Section::CatchTheBeat => D::parse_catch_the_beat(state, line),
        Section::Mania => D::parse_mania(state, line),
    };
}

/// Parse the lines of one section until the next header (`Some`) or the end
/// of the content (`None`).
fn parse_section<D: DecodeBeatmap>(
    reader: &mut Reader,
    state: &mut D::State,
    section: Section,
) -> (r: Result<Option<Section>, DecoderError>)
    requires
        old(reader).wf(),
    ensures
        final(reader).wf(),
        r matches Ok(Some(_)) ==> final(reader).remaining_len() < old(reader).remaining_len(),
        match (old(reader).pending(), r, final(reader).pending()) {
            (Ok(lines), Ok(None), _) => fold_lines::<D>(old(state)@, Some(section), lines)
                == final(state)@,
            (Ok(lines), Ok(Some(next)), Ok(p)) => fold_lines::<D>(
                old(state)@,
                Some(section),
                lines,
            ) == fold_lines::<D>(final(state)@, Some(next), p),
            (Err(a), Err(b), _) => a == b,
            (Err(a), Ok(Some(_)), Err(b)) => a == b,
            _ => false,
        },
{
    loop
        invariant
            reader.wf(),
            reader.remaining_len() <= old(reader).remaining_len(),
            match (old(reader).pending(), reader.pending()) {
                (Ok(lines), Ok(p)) => fold_lines::<D>(old(state)@, Some(section), lines)
                    == fold_lines::<D>(state@, Some(section), p),
                (Err(a), Err(b)) => a == b,
                _ => false,
            },
        decreases reader.remaining_len(),
    {
        let line = match reader.next_line() {
            Ok(Some(line)) => line,
            Ok(None) => {
                return Ok(None);
            },
            Err(e) => {
                return Err(e);
            },
        };
        proof {
            match reader.pending() {
                Ok(p) => {
                    assert((seq![line@] + p).drop_first() =~= p);
                    assert((seq![line@] + p)[0] == line@);
                },
                Err(_) => {},
            }
        }
        if let Some(next) = Section::try_from_line(line.as_str()) {
            return Ok(Some(next));
        }
        parse_line::<D>(state, section, line.as_str());
    }
}

/// Parse a type that implements [`DecodeBeatmap`] from the content of a
/// `.osu` file as a slice of bytes.
pub fn from_bytes<D: DecodeBeatmap>(bytes: &[u8]) -> (r: Result<D, DecoderError>)
    ensures
        match (r, spec_decode::<D>(bytes@)) {
            (Ok(d), Ok(v)) => d@ == v,
            (Err(a), Err(b)) => a == b,
            _ => false,
        },
{
    let mut reader = Reader::new(bytes);
    let (version, use_curr_line) = match parse_version(&mut reader) {
        Ok(v) => v,
        Err(e) => {
            return Err(e);
        },
    };
    let mut state = D::State::create(version);
    let ghost init = state@;
    let ghost lines_rest = match file_lines(bytes@) {
        Ok(lines) => split_version(lines).1,
        Err(_) => Seq::empty(),
    };
    proof {
        match file_lines(bytes@) {
            Ok(lines) => lemma_fold_skip::<D>(init, split_version(lines).1),
            Err(_) => {},
        }
    }
    let mut section = match parse_first_section(&mut reader, use_curr_line) {
        Ok(Some(section)) => section,
        Ok(None) => {
            return Ok(D::finish(state));
        },
        Err(e) => {
            return Err(e);
        },
    };
    loop
        invariant
            reader.wf(),
            match (file_lines(bytes@), reader.pending()) {
                (Ok(lines), Ok(p)) => fold_lines::<D>(init, None, split_version(lines).1)
                    == fold_lines::<D>(state@, Some(section), p) && split_version(lines).0
                    == version && init == <D::State as DecodeState>::spec_create(version),
                (Err(a), Err(b)) => a == b,
                _ => false,
            },
        decreases reader.remaining_len(),
    {
        match parse_section::<D>(&mut reader, &mut state, section) {
            Ok(Some(next)) => {
                section = next;
            },
            Ok(None) => {
                return Ok(D::finish(state));
            },
            Err(e) => {
                return Err(e);
            },
        }
    }
}

/// Parse a type that implements [`DecodeBeatmap`] from the content of a
/// `.osu` file as a string.
pub fn from_str<D: DecodeBeatmap>(s: &str) -> (r: Result<D, DecoderError>)
    ensures
        match (r, spec_decode::<D>(s.spec_bytes())) {
            (Ok(d), Ok(v)) => d@ == v,
            (Err(a), Err(b)) => a == b,
            _ => false,
        },
{
    from_bytes::<D>(s.as_bytes())
}

/// The lines that reach a section parser, each with its section, in order:
/// a header switches the section, and lines in front of the first header
/// reach none.
pub open spec fn sectioned(section: Option<Section>, lines: Seq<Seq<char>>) -> Seq<
    (Section, Seq<char>),
>
    decreases lines.len(),
{
    if lines.len() == 0 {
        Seq::empty()
    } else {
        match section_of_line(lines[0]) {
            Some(next) => sectioned(Some(next), lines.drop_first()),
            None => match section {
                Some(s) => seq![(s, lines[0])] + sectioned(section, lines.drop_first()),
                None => sectioned(section, lines.drop_first()),
            },
        }
    }
}

/// The state after each of the given lines went to the parser of its
/// section, in order.
pub open spec fn apply_lines<D: DecodeBeatmap>(
    state: <D::State as View>::V,
    pairs: Seq<(Section, Seq<char>)>,
) -> <D::State as View>::V
    decreases pairs.len(),
{
    if pairs.len() == 0 {
        state
    } else {
        apply_lines::<D>(D::spec_parse(state, pairs[0].0, pairs[0].1), pairs.drop_first())
    }
}

/// Decoding the lines of a section is handing each line that
/// [`sectioned`] keeps to the parser of its section, in order.
pub proof fn lemma_fold_is_apply<D: DecodeBeatmap>(
    state: <D::State as View>::V,
    section: Option<Section>,
    lines: Seq<Seq<char>>,
)
    ensures
        fold_lines::<D>(state, section, lines) == apply_lines::<D>(
            state,
            sectioned(section, lines),
        ),
    decreases lines.len(),
{
    if lines.len() > 0 {
        match section_of_line(lines[0]) {
            Some(next) => lemma_fold_is_apply::<D>(state, Some(next), lines.drop_first()),
            None => match section {
                Some(s) => {
                    let rest = sectioned(section, lines.drop_first());
                    lemma_fold_is_apply::<D>(
                        D::spec_parse(state, s, lines[0]),
                        section,
                        lines.drop_first(),
                    );
                    assert((seq![(s, lines[0])] + rest).drop_first() =~= rest);
                },
                None => lemma_fold_is_apply::<D>(state, section, lines.drop_first()),
            },
        }
    }
}

/// What reading the content of a file gives: its format version and each
/// line that reaches a section parser with its section, or the first error
/// in reading its lines.
pub open spec fn spec_section_lines(bytes: Seq<u8>) -> Result<
    (i32, Seq<(Section, Seq<char>)>),
    DecoderError,
> {
    match file_lines(bytes) {
        Ok(lines) => {
            let (version, rest) = split_version(lines);
            Ok((version, sectioned(None, rest)))
        },
        Err(e) => Err(e),
    }
}

/// Decoding a file is creating the state for its format version, handing
/// each line that [`spec_section_lines`] gives to the parser of its section
/// in order, and finishing the state.
pub proof fn lemma_decode_is_apply<D: DecodeBeatmap>(bytes: Seq<u8>)
    ensures
        spec_decode::<D>(bytes) == match spec_section_lines(bytes) {
            Ok((version, pairs)) => Ok(
                D::spec_finish(
                    apply_lines::<D>(<D::State as DecodeState>::spec_create(version), pairs),
                ),
            ),
            Err(e) => Err(e),
        },
{
    match file_lines(bytes) {
        Ok(lines) => {
            let (version, rest) = split_version(lines);
            lemma_fold_is_apply::<D>(
                <D::State as DecodeState>::spec_create(version),
                None,
                rest,
            );
        },
        Err(_) => {},
    }
}

/// Whether every line of `lines` can reach a section parser.
pub open spec fn all_content(lines: Seq<Seq<char>>) -> bool {
    forall|i: int| 0 <= i < lines.len() ==> is_content_line(#[trigger] lines[i])
}

proof fn lemma_all_content_drop_first(lines: Seq<Seq<char>>)
    requires
        all_content(lines),
        lines.len() > 0,
    ensures
        all_content(lines.drop_first()),
{
    assert forall|i: int| 0 <= i < lines.drop_first().len() implies is_content_line(
        #[trigger] lines.drop_first()[i],
    ) by {
        assert(lines.drop_first()[i] == lines[i + 1]);
    }
}

proof fn lemma_split_version_content(lines: Seq<Seq<char>>)
    requires
        all_content(lines),
    ensures
        all_content(split_version(lines).1),
    decreases lines.len(),
{
    if lines.len() > 0 {
        lemma_all_content_drop_first(lines);
        lemma_split_version_content(lines.drop_first());
    }
}

proof fn lemma_sectioned_content(section: Option<Section>, lines: Seq<Seq<char>>)
    requires
        all_content(lines),
    ensures
        forall|i: int|
            0 <= i < sectioned(section, lines).len() ==> is_content_line(
                #[trigger] sectioned(section, lines)[i].1,
            ),
    decreases lines.len(),
{
    if lines.len() > 0 {
        lemma_all_content_drop_first(lines);
        match section_of_line(lines[0]) {
            Some(next) => {
                lemma_sectioned_content(Some(next), lines.drop_first());
                assert(sectioned(section, lines) == sectioned(Some(next), lines.drop_first()));
            },
            None => {
                lemma_sectioned_content(section, lines.drop_first());
                match section {
                    Some(s) => {
                        let rest = sectioned(section, lines.drop_first());
                        let all = seq![(s, lines[0])] + rest;
                        assert(sectioned(section, lines) == all);
                        assert forall|i: int| 0 <= i < all.len() implies is_content_line(
                            #[trigger] all[i].1,
                        ) by {
                            if i > 0 {
                                assert(all[i] == rest[i - 1]);
                            }
                        }
                    },
                    None => {
                        assert(sectioned(section, lines) == sectioned(
                            section,
                            lines.drop_first(),
                        ));
                    },
                }
            },
        }
    }
}

/// Each line that reaches a section parser is trimmed, not empty and no
/// comment line; comments behind other text stay in the line.
pub proof fn lemma_section_lines_are_content(bytes: Seq<u8>)
    ensures
        spec_section_lines(bytes) matches Ok((version, pairs)) ==> forall|i: int|
            0 <= i < pairs.len() ==> is_content_line(#[trigger] pairs[i].1),
{
    let (encoding, start) = crate::reader::decoder::content_start(bytes);
    lemma_content_lines(bytes.skip(start as int), encoding);
    match file_lines(bytes) {
        Ok(lines) => {
            lemma_split_version_content(lines);
            lemma_sectioned_content(None, split_version(lines).1);
        },
        Err(_) => {},
    }
}

/// The pairs of one section, in order.
pub open spec fn lines_of_section(pairs: Seq<(Section, Seq<char>)>, section: Section) -> Seq<
    (Section, Seq<char>),
>
    decreases pairs.len(),
{
    if pairs.len() == 0 {
        pairs
    } else if pairs[0].0 == section {
        seq![pairs[0]] + lines_of_section(pairs.drop_first(), section)
    } else {
        lines_of_section(pairs.drop_first(), section)
    }
}

/// A type whose parser only reads the lines of one section is decoded from
/// those lines alone: the lines of all other sections are passed over.
pub proof fn lemma_reads_one_section<D: DecodeBeatmap>(
    state: <D::State as View>::V,
    pairs: Seq<(Section, Seq<char>)>,
    section: Section,
)
    requires
        forall|st: <D::State as View>::V, s: Section, line: Seq<char>|
            s != section ==> #[trigger] D::spec_parse(st, s, line) == st,
    ensures
        apply_lines::<D>(state, pairs) == apply_lines::<D>(
            state,
            lines_of_section(pairs, section),
        ),
    decreases pairs.len(),
{
    if pairs.len() > 0 {
        let next = D::spec_parse(state, pairs[0].0, pairs[0].1);
        lemma_reads_one_section::<D>(next, pairs.drop_first(), section);
        if pairs[0].0 == section {
            let rest = lines_of_section(pairs.drop_first(), section);
            assert((seq![pairs[0]] + rest).drop_first() =~= rest);
        } else {
            lemma_reads_one_section::<D>(state, pairs.drop_first(), section);
        }
    }
}

/// Read all content lines of a file, as [`file_lines`].
pub fn read_lines(bytes: &[u8]) -> (r: Result<Vec<String>, DecoderError>)
    ensures
        match (r, file_lines(bytes@)) {
            (Ok(v), Ok(l)) => v@.map_values(|s: String| s@) == l,
            (Err(a), Err(b)) => a == b,
            _ => false,
        },
{
    let mut reader = Reader::new(bytes);
    let mut out: Vec<String> = Vec::new();
    loop
        invariant
            reader.wf(),
            match (file_lines(bytes@), reader.pending()) {
                (Ok(l), Ok(p)) => l == out@.map_values(|s: String| s@) + p,
                (Err(a), Err(b)) => a == b,
                _ => false,
            },
        decreases reader.remaining_len(),
    {
        let ghost before = out@.map_values(|s: String| s@);
        match reader.next_line() {
            Ok(Some(line)) => {
                let ghost l = line@;
                out.push(line);
                proof {
                    assert(out@.map_values(|s: String| s@) =~= before.push(l));
                    match (file_lines(bytes@), reader.pending()) {
                        (Ok(all), Ok(p)) => {
                            assert(before.push(l) + p =~= before + (seq![l] + p));
                        },
                        _ => {},
                    }
                }
            },
            Ok(None) => {
                proof {
                    match file_lines(bytes@) {
                        Ok(all) => {
                            assert(before + Seq::<Seq<char>>::empty() =~= before);
                        },
                        Err(_) => {},
                    }
                }
                return Ok(out);
            },
            Err(e) => {
                return Err(e);
            },
        }
    }
}

/// Read the content of a file into its format version and the lines that
/// reach a section parser, each with its section, as
/// [`spec_section_lines`].
#[verifier::rlimit(30)]
pub fn section_lines(bytes: &[u8]) -> (r: Result<(i32, Vec<(Section, String)>), DecoderError>)
    ensures
        match (r, spec_section_lines(bytes@)) {
            (Ok((v, pairs)), Ok((w, spec_pairs))) => v == w && pairs@.map_values(
                |p: (Section, String)| (p.0, p.1@),
            ) == spec_pairs,
            (Err(a), Err(b)) => a == b,
            _ => false,
        },
{
    let lines = match read_lines(bytes) {
        Ok(lines) => lines,
        Err(e) => {
            return Err(e);
        },
    };
    let ghost lv = lines@.map_values(|s: String| s@);
    let mut i: usize = 0;
    let mut version = LATEST_FORMAT_VERSION;
    assert(lv.skip(0) =~= lv);
    loop
        invariant_except_break
            split_version(lv) == split_version(lv.skip(i as int)),
            version == LATEST_FORMAT_VERSION,
        invariant
            0 <= i <= lines.len(),
            lv == lines@.map_values(|s: String| s@),
        ensures
            0 <= i <= lines.len(),
            split_version(lv) == (version, lv.skip(i as int)),
        decreases lines.len() - i,
    {
        if i >= lines.len() {
            assert(lv.skip(i as int) =~= Seq::<Seq<char>>::empty());
            break;
        }
        assert(lv.skip(i as int)[0] == lines@[i as int]@);
        assert(lv.skip(i as int).drop_first() =~= lv.skip(i + 1));
        match try_version_from_line(lines[i].as_str()) {
            ControlFlow::Continue(()) => {
                i = i + 1;
            },
            ControlFlow::Break(Ok(v)) => {
                version = v;
                i = i + 1;
                break;
            },
            ControlFlow::Break(Err(_)) => {
                break;
            },
        }
    }
    let ghost rest = lv.skip(i as int);
    let mut section: Option<Section> = None;
    let mut pairs: Vec<(Section, String)> = Vec::new();
    let mut j = i;
    assert(lv.skip(j as int) =~= rest);
    assert(pairs@.map_values(|p: (Section, String)| (p.0, p.1@)) =~= Seq::<
        (Section, Seq<char>),
    >::empty());
    while j < lines.len()
        invariant
            i <= j <= lines.len(),
            lv == lines@.map_values(|s: String| s@),
            sectioned(None, rest) == pairs@.map_values(|p: (Section, String)| (p.0, p.1@))
                + sectioned(section, lv.skip(j as int)),
        decreases lines.len() - j,
    {
        let ghost before = pairs@.map_values(|p: (Section, String)| (p.0, p.1@));
        let ghost tail = lv.skip(j as int);
        assert(tail[0] == lines@[j as int]@);
        assert(tail.drop_first() =~= lv.skip(j + 1));
        match Section::try_from_line(lines[j].as_str()) {
            Some(next) => {
                section = Some(next);
            },
            None => match section {
                Some(s) => {
                    let line = lines[j].clone();
                    pairs.push((s, line));
                    proof {
                        assert(pairs@.map_values(|p: (Section, String)| (p.0, p.1@)) =~= before.push(
                            (s, lines@[j as int]@),
                        ));
                        assert(before.push((s, lines@[j as int]@)) + sectioned(
                            section,
                            lv.skip(j + 1),
                        ) =~= before + (seq![(s, lines@[j as int]@)] + sectioned(
                            section,
                            lv.skip(j + 1),
                        )));
                    }
                },
                None => {},
            },
        }
        j = j + 1;
    }
    proof {
        assert(lv.skip(j as int) =~= Seq::<Seq<char>>::empty());
        assert(pairs@.map_values(|p: (Section, String)| (p.0, p.1@)) + Seq::<
            (Section, Seq<char>),
        >::empty() =~= pairs@.map_values(|p: (Section, String)| (p.0, p.1@)));
    }
    Ok((version, pairs))
}

} // verus!
