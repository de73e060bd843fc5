//! Writing sections of a `.osu` file, and what reading them back gives.
use vstd::prelude::*;

use crate::decode::{
    fold_lines, lemma_fold_push, no_headers, spec_decode_lines, split_version, DecodeBeatmap,
    DecodeState,
};
use crate::format_version::{spec_version_from_line, version_prefix, LATEST_FORMAT_VERSION};
use crate::reader::encoding::push_char;
use crate::number::{
    all_digits, int_text, int_to_chars, is_digit, lemma_leading_digit, lemma_nat_digits,
    lemma_parse_i32_text,
    lemma_parse_u8_digits, nat_digits, spec_parse_i32, spec_parse_num_i32, u64_digits,
    MAX_PARSE_VALUE,
};
use crate::section::editor::{
    editor_key_name, lemma_editor_key_name, spec_bookmarks, spec_editor_key, spec_editor_line,
    spec_editor_value, valid_numbers, EditorKey, EditorSettingView,
};
use crate::section::colors::{
    rgba, spec_parse_color, spec_parse_colors_line, Color, Colors, ColorsView, ParseColorsError,
};
use crate::section::editor::ParseEditorError;
use crate::section::events::{spec_event_line, ParseEventsError};
use crate::section::general::{
    countdown_number, game_mode_number, general_key_name, lemma_general_key_name,
    spec_countdown_type, spec_game_mode, spec_general_key, spec_general_line, spec_general_value,
    CountdownType, GameMode, GeneralKey, GeneralSettingView, ParseGeneralError,
};
use crate::section::hit_objects::hit_samples::{
    bank_number, spec_bank_from_name, spec_bank_of_i32, SampleBank,
};
use crate::section::timing_points::{
    spec_timing_point_fields, spec_timing_point_times, ParseTimingPointsError, TimeSignature,
    TimingPointFields,
};
use crate::section::metadata::{
    default_metadata, lemma_metadata_key_name, metadata_key_name, spec_parse_metadata_line,
    Metadata, MetadataKey, MetadataView,
};
use crate::section::{section_of_line, section_of_name, Section};
use crate::text::{
    clean_filename, collapse_backslashes, find_comment_from, has_prefix, is_whitespace, key_of,
    kv_line, lacks, lemma_kv_line, lemma_no_comment, lemma_split_join, lemma_split_single, push_chars,
    push_str, split_by, standardized_path, trim, trim_comment, trim_end, trim_quotes, trim_start,
    value_of,
};

verus! {

/// The text of `lines`, each followed by a line break.
#[verifier::opaque]
pub open spec fn lines_text(lines: Seq<Seq<char>>) -> Seq<char>
    decreases lines.len(),
{
    if lines.len() == 0 {
        Seq::empty()
    } else {
        lines_text(lines.drop_last()) + lines.last() + seq!['\n']
    }
}

proof fn lemma_lines_text_push(lines: Seq<Seq<char>>, line: Seq<char>)
    ensures
        lines_text(lines.push(line)) == lines_text(lines) + line + seq!['\n'],
{
    reveal(lines_text);
    assert(lines.push(line).drop_last() =~= lines);
}

proof fn lemma_lines_text_empty()
    ensures
        lines_text(Seq::empty()) == Seq::<char>::empty(),
{
    reveal(lines_text);
}

/// `lines` with the line `key: value` appended, unless the value is empty.
pub open spec fn push_if_set(lines: Seq<Seq<char>>, key: Seq<char>, value: Seq<char>) -> Seq<
    Seq<char>,
> {
    if value.len() == 0 {
        lines
    } else {
        lines.push(kv_line(key, value))
    }
}

/// The lines that [`encode_metadata`] writes: the header, then title,
/// artist, creator and version always, the unicode title and artist and the
/// source only when they are set.
pub open spec fn metadata_lines(m: MetadataView) -> Seq<Seq<char>> {
    let title = seq!["[Metadata]"@, kv_line(metadata_key_name(MetadataKey::Title), m.title)];
    let artist = push_if_set(
        title,
        metadata_key_name(MetadataKey::TitleUnicode),
        m.title_unicode,
    ).push(kv_line(metadata_key_name(MetadataKey::Artist), m.artist));
    let version = push_if_set(
        artist,
        metadata_key_name(MetadataKey::ArtistUnicode),
        m.artist_unicode,
    ).push(kv_line(metadata_key_name(MetadataKey::Creator), m.creator)).push(
        kv_line(metadata_key_name(MetadataKey::Version), m.version),
    );
    push_if_set(version, metadata_key_name(MetadataKey::Source), m.source)
}

/// Append the line `key: value` and a line break, always or, with
/// `only_if_set`, when the value is not empty; the written lines grow by it.
fn write_kv_line(
    out: &mut String,
    Ghost(start): Ghost<Seq<char>>,
    Ghost(lines): Ghost<Seq<Seq<char>>>,
    key: &str,
    value: &str,
    only_if_set: bool,
) -> (r: Ghost<Seq<Seq<char>>>)
    requires
        old(out)@ == start + lines_text(lines),
    ensures
        final(out)@ == start + lines_text(r@),
        r@ == if only_if_set {
            push_if_set(lines, key@, value@)
        } else {
            lines.push(kv_line(key@, value@))
        },
{
    if only_if_set && value.is_empty() {
        return Ghost(lines);
    }
    push_str(out, key);
    push_char(out, ':');
    push_char(out, ' ');
    push_str(out, value);
    push_char(out, '\n');
    proof {
        lemma_lines_text_push(lines, kv_line(key@, value@));
        assert(out@ =~= start + lines_text(lines.push(kv_line(key@, value@))));
    }
    Ghost(lines.push(kv_line(key@, value@)))
}

/// Append the `[Metadata]` section of `m`.
pub fn encode_metadata(m: &Metadata, out: &mut String)
    ensures
        final(out)@ == old(out)@ + lines_text(metadata_lines(m@)),
{
    let ghost start = old(out)@;
    push_str(out, "[Metadata]");
    push_char(out, '\n');
    proof {
        lemma_lines_text_empty();
        lemma_lines_text_push(Seq::empty(), "[Metadata]"@);
        assert(Seq::<Seq<char>>::empty().push("[Metadata]"@) =~= seq!["[Metadata]"@]);
        assert(out@ =~= start + lines_text(seq!["[Metadata]"@]));
    }
    let ghost first: Seq<Seq<char>> = seq!["[Metadata]"@];
    let g: Ghost<Seq<Seq<char>>> = Ghost(first);
    let g = write_kv_line(out, Ghost(start), g, MetadataKey::Title.as_str(), m.title.as_str(), false);
    proof {
        assert(seq!["[Metadata]"@].push(kv_line(metadata_key_name(MetadataKey::Title), m.title@))
            =~= seq!["[Metadata]"@, kv_line(metadata_key_name(MetadataKey::Title), m.title@)]);
    }
    let g = write_kv_line(
        out,
        Ghost(start),
        g,
        MetadataKey::TitleUnicode.as_str(),
        m.title_unicode.as_str(),
        true,
    );
    let g = write_kv_line(out, Ghost(start), g, MetadataKey::Artist.as_str(), m.artist.as_str(), false);
    let g = write_kv_line(
        out,
        Ghost(start),
        g,
        MetadataKey::ArtistUnicode.as_str(),
        m.artist_unicode.as_str(),
        true,
    );
    let g = write_kv_line(out, Ghost(start), g, MetadataKey::Creator.as_str(), m.creator.as_str(), false);
    let g = write_kv_line(out, Ghost(start), g, MetadataKey::Version.as_str(), m.version.as_str(), false);
    let g = write_kv_line(out, Ghost(start), g, MetadataKey::Source.as_str(), m.source.as_str(), true);
    assert(g@ == metadata_lines(m@));
}

/// Behind a header line, one more line that is no header is one more step
/// of that section's parser.
proof fn lemma_fold_line<D: DecodeBeatmap>(
    state: <D::State as View>::V,
    section: Section,
    lines: Seq<Seq<char>>,
    line: Seq<char>,
)
    requires
        lines.len() > 0,
        section_of_line(lines[0]) == Some(section),
        no_headers(lines.drop_first()),
        section_of_line(line) is None,
    ensures
        fold_lines::<D>(state, None, lines.push(line)) == D::spec_parse(
            fold_lines::<D>(state, None, lines),
            section,
            line,
        ),
        no_headers(lines.push(line).drop_first()),
        lines.push(line)[0] == lines[0],
{
    assert(lines.push(line)[0] == lines[0]);
    assert(lines.push(line).drop_first() =~= lines.drop_first().push(line));
    lemma_fold_push::<D>(state, section, lines.drop_first(), line);
    assert forall|i: int| 0 <= i < lines.drop_first().push(line).len() implies section_of_line(
        #[trigger] lines.drop_first().push(line)[i],
    ) is None by {
        if i < lines.drop_first().len() {
            assert(lines.drop_first().push(line)[i] == lines.drop_first()[i]);
        }
    }
}

/// A `key: value` line is no header when the key does not start with `[`.
proof fn lemma_kv_no_header(key: Seq<char>, value: Seq<char>)
    requires
        key.len() > 0,
        key[0] != '[',
    ensures
        section_of_line(kv_line(key, value)) is None,
{
    assert(kv_line(key, value)[0] == key[0]);
}

/// One written metadata line, read back.
proof fn lemma_metadata_line(state: MetadataView, lines: Seq<Seq<char>>, key: MetadataKey, value: Seq<char>)
    requires
        lines.len() > 0,
        section_of_line(lines[0]) == Some(Section::Metadata),
        no_headers(lines.drop_first()),
        trim(value) == value,
    ensures
        ({
            let line = kv_line(metadata_key_name(key), value);
            &&& fold_lines::<Metadata>(state, None, lines.push(line)) == spec_parse_metadata_line(
                fold_lines::<Metadata>(state, None, lines),
                line,
            )
            &&& no_headers(lines.push(line).drop_first())
            &&& lines.push(line)[0] == lines[0]
        }),
{
    lemma_metadata_key_name(key);
    lemma_kv_no_header(metadata_key_name(key), value);
    lemma_fold_line::<Metadata>(state, Section::Metadata, lines, kv_line(metadata_key_name(key), value));
}

/// Reading back what [`encode_metadata`] writes gives the metadata again,
/// with the fields that it leaves out (the tags and both IDs) at their
/// defaults, when none of the written fields has white space at its ends.
pub proof fn lemma_metadata_read_back(m: MetadataView)
    requires
        trim(m.title) == m.title,
        trim(m.title_unicode) == m.title_unicode,
        trim(m.artist) == m.artist,
        trim(m.artist_unicode) == m.artist_unicode,
        trim(m.creator) == m.creator,
        trim(m.version) == m.version,
        trim(m.source) == m.source,
    ensures
        spec_decode_lines::<Metadata>(metadata_lines(m)) == (MetadataView {
            tags: Seq::empty(),
            beatmap_id: -1i32,
            beatmap_set_id: 0i32,
            ..m
        }),
{
    reveal_strlit("[Metadata]");
    reveal_strlit("Metadata");
    reveal_strlit("General");
    reveal_strlit("Editor");
    reveal_strlit("osu file format v");
    let h = "[Metadata]"@;
    assert(h.subrange(1, h.len() - 1) =~= "Metadata"@);
    assert(section_of_name("Metadata"@) == Some(Section::Metadata));
    assert(section_of_line(h) == Some(Section::Metadata));
    let lines = metadata_lines(m);
    assert(lines[0] == h);
    assert(!has_prefix(h, version_prefix()));
    assert(split_version(lines) == (LATEST_FORMAT_VERSION, lines));
    lemma_metadata_key_name(MetadataKey::Title);
    lemma_metadata_key_name(MetadataKey::TitleUnicode);
    lemma_metadata_key_name(MetadataKey::Artist);
    lemma_metadata_key_name(MetadataKey::ArtistUnicode);
    lemma_metadata_key_name(MetadataKey::Creator);
    lemma_metadata_key_name(MetadataKey::Version);
    lemma_metadata_key_name(MetadataKey::Source);
    let d = default_metadata();
    let l0 = seq![h];
    assert(l0.drop_first() =~= Seq::<Seq<char>>::empty());
    assert(fold_lines::<Metadata>(d, Some(Section::Metadata), l0.drop_first()) == d);
    assert(fold_lines::<Metadata>(d, None, l0) == d);
    let title_line = kv_line(metadata_key_name(MetadataKey::Title), m.title);
    lemma_metadata_line(d, l0, MetadataKey::Title, m.title);
    lemma_kv_line(metadata_key_name(MetadataKey::Title), m.title);
    let l1 = l0.push(title_line);
    assert(l1 =~= seq![h, title_line]);
    let s1 = MetadataView { title: m.title, ..d };
    assert(fold_lines::<Metadata>(d, None, l1) == s1);
    let l2 = push_if_set(l1, metadata_key_name(MetadataKey::TitleUnicode), m.title_unicode);
    let s2 = MetadataView { title_unicode: m.title_unicode, ..s1 };
    if m.title_unicode.len() > 0 {
        lemma_metadata_line(d, l1, MetadataKey::TitleUnicode, m.title_unicode);
        lemma_kv_line(metadata_key_name(MetadataKey::TitleUnicode), m.title_unicode);
    } else {
        assert(m.title_unicode =~= Seq::<char>::empty());
    }
    assert(fold_lines::<Metadata>(d, None, l2) == s2);
    assert(no_headers(l2.drop_first()) && l2[0] == h);
    let l3 = l2.push(kv_line(metadata_key_name(MetadataKey::Artist), m.artist));
    lemma_metadata_line(d, l2, MetadataKey::Artist, m.artist);
    lemma_kv_line(metadata_key_name(MetadataKey::Artist), m.artist);
    let s3 = MetadataView { artist: m.artist, ..s2 };
    assert(fold_lines::<Metadata>(d, None, l3) == s3);
    let l4 = push_if_set(l3, metadata_key_name(MetadataKey::ArtistUnicode), m.artist_unicode);
    let s4 = MetadataView { artist_unicode: m.artist_unicode, ..s3 };
    if m.artist_unicode.len() > 0 {
        lemma_metadata_line(d, l3, MetadataKey::ArtistUnicode, m.artist_unicode);
        lemma_kv_line(metadata_key_name(MetadataKey::ArtistUnicode), m.artist_unicode);
    } else {
        assert(m.artist_unicode =~= Seq::<char>::empty());
    }
    assert(fold_lines::<Metadata>(d, None, l4) == s4);
    assert(no_headers(l4.drop_first()) && l4[0] == h);
    let l5 = l4.push(kv_line(metadata_key_name(MetadataKey::Creator), m.creator));
    lemma_metadata_line(d, l4, MetadataKey::Creator, m.creator);
    lemma_kv_line(metadata_key_name(MetadataKey::Creator), m.creator);
    let s5 = MetadataView { creator: m.creator, ..s4 };
    assert(fold_lines::<Metadata>(d, None, l5) == s5);
    let l6 = l5.push(kv_line(metadata_key_name(MetadataKey::Version), m.version));
    lemma_metadata_line(d, l5, MetadataKey::Version, m.version);
    lemma_kv_line(metadata_key_name(MetadataKey::Version), m.version);
    let s6 = MetadataView { version: m.version, ..s5 };
    assert(fold_lines::<Metadata>(d, None, l6) == s6);
    let s7 = MetadataView { source: m.source, ..s6 };
    if m.source.len() > 0 {
        lemma_metadata_line(d, l6, MetadataKey::Source, m.source);
        lemma_kv_line(metadata_key_name(MetadataKey::Source), m.source);
    } else {
        assert(m.source =~= Seq::<char>::empty());
    }
    assert(lines == push_if_set(l6, metadata_key_name(MetadataKey::Source), m.source));
    assert(fold_lines::<Metadata>(d, None, lines) == s7);
}

/// The components of a color in decimal, `R,G,B,A`.
pub open spec fn color_text(c: Color) -> Seq<char> {
    nat_digits(c.0@[0] as nat) + seq![','] + nat_digits(c.0@[1] as nat) + seq![','] + nat_digits(
        c.0@[2] as nat,
    ) + seq![','] + nat_digits(c.0@[3] as nat)
}

/// The line of the combo color with number `i`.
pub open spec fn combo_line(i: nat, c: Color) -> Seq<char> {
    kv_line("Combo"@ + nat_digits(i), color_text(c))
}

/// The lines of the combo colors, numbered from 1.
pub open spec fn combo_lines(colors: Seq<Color>) -> Seq<Seq<char>>
    decreases colors.len(),
{
    if colors.len() == 0 {
        Seq::empty()
    } else {
        combo_lines(colors.drop_last()).push(combo_line(colors.len(), colors.last()))
    }
}

/// The lines that [`encode_colors`] writes.
pub open spec fn colors_lines(colors: Seq<Color>) -> Seq<Seq<char>> {
    seq!["[Colours]"@] + combo_lines(colors)
}

/// Append the decimal digits of `n`.
fn write_number(out: &mut String, n: u64)
    ensures
        final(out)@ == old(out)@ + nat_digits(n as nat),
{
    let digits = u64_digits(n);
    push_chars(out, &digits);
}

/// Append the line of the combo color with number `i`, and a line break.
fn write_combo_line(out: &mut String, i: u64, c: Color)
    ensures
        final(out)@ == old(out)@ + combo_line(i as nat, c) + seq!['\n'],
{
    push_str(out, "Combo");
    write_number(out, i);
    push_char(out, ':');
    push_char(out, ' ');
    write_number(out, c.0[0] as u64);
    push_char(out, ',');
    write_number(out, c.0[1] as u64);
    push_char(out, ',');
    write_number(out, c.0[2] as u64);
    push_char(out, ',');
    write_number(out, c.0[3] as u64);
    push_char(out, '\n');
    assert(out@ =~= old(out)@ + combo_line(i as nat, c) + seq!['\n']);
}

/// Append the `[Colours]` section with the given combo colors.
pub fn encode_colors(colors: &Vec<Color>, out: &mut String)
    ensures
        final(out)@ == old(out)@ + lines_text(colors_lines(colors@)),
{
    let ghost start = old(out)@;
    push_str(out, "[Colours]");
    push_char(out, '\n');
    proof {
        lemma_lines_text_empty();
        lemma_lines_text_push(Seq::empty(), "[Colours]"@);
        assert(Seq::<Seq<char>>::empty().push("[Colours]"@) =~= seq!["[Colours]"@]);
        assert(colors@.take(0) =~= Seq::<Color>::empty());
        assert(seq!["[Colours]"@] + combo_lines(colors@.take(0)) =~= seq!["[Colours]"@]);
    }
    let mut i: usize = 0;
    while i < colors.len()
        invariant
            0 <= i <= colors.len(),
            out@ == start + lines_text(seq!["[Colours]"@] + combo_lines(colors@.take(i as int))),
        decreases colors.len() - i,
    {
        let ghost before = out@;
        let c = colors[i];
        write_combo_line(out, (i + 1) as u64, c);
        proof {
            let line = combo_line((i + 1) as nat, c);
            let prev = seq!["[Colours]"@] + combo_lines(colors@.take(i as int));
            lemma_lines_text_push(prev, line);
            let next = colors@.take(i + 1);
            assert(next.drop_last() =~= colors@.take(i as int));
            assert(next.last() == c);
            assert(prev.push(line) =~= seq!["[Colours]"@] + combo_lines(next));
        }
        i = i + 1;
    }
    proof {
        assert(colors@.take(colors.len() as int) =~= colors@);
    }
}

/// The color that reading back a written color gives: the alpha is not read.
pub open spec fn read_back_color(c: Color) -> Color {
    rgba(c.0@[0], c.0@[1], c.0@[2], 255)
}

proof fn lemma_digits_facts(n: nat)
    ensures
        nat_digits(n).len() > 0,
        all_digits(nat_digits(n)),
        !is_whitespace(nat_digits(n)[0]),
        !is_whitespace(nat_digits(n).last()),
        lacks(nat_digits(n), ','),
        lacks(nat_digits(n), ':'),
        lacks(nat_digits(n), '/'),
{
    lemma_nat_digits(n);
    let d = nat_digits(n);
    assert(is_digit(d[0]));
    assert(is_digit(d[d.len() - 1]));
    assert forall|k: int| 0 <= k < d.len() implies #[trigger] d[k] != ',' && d[k] != ':' && d[k]
        != '/' by {
        assert(is_digit(d[k]));
    }
}

/// A written color reads back with its alpha set to 255.
proof fn lemma_color_text(c: Color)
    ensures
        spec_parse_color(color_text(c)) == Ok::<Color, ParseColorsError>(read_back_color(c)),
        trim(color_text(c)) == color_text(c),
        lacks(color_text(c), '/'),
{
    let (r, g, b, a) = (c.0@[0], c.0@[1], c.0@[2], c.0@[3]);
    let (dr, dg, db, da) = (
        nat_digits(r as nat),
        nat_digits(g as nat),
        nat_digits(b as nat),
        nat_digits(a as nat),
    );
    lemma_digits_facts(r as nat);
    lemma_digits_facts(g as nat);
    lemma_digits_facts(b as nat);
    lemma_digits_facts(a as nat);
    lemma_parse_u8_digits(r);
    lemma_parse_u8_digits(g);
    lemma_parse_u8_digits(b);
    let tail3 = db + seq![','] + da;
    let tail2 = dg + seq![','] + tail3;
    let t = dr + seq![','] + tail2;
    assert(color_text(c) =~= t);
    lemma_split_single(da, ',');
    lemma_split_join(db, da, ',');
    lemma_split_join(dg, tail3, ',');
    lemma_split_join(dr, tail2, ',');
    let p = split_by(t, ',');
    assert(p =~= seq![dr, dg, db, da]);
    assert(t[0] == dr[0]);
    assert(t.last() == da.last());
    assert(trim_start(t) == t);
    assert(trim_end(t) == t);
    assert forall|k: int| 0 <= k < t.len() implies #[trigger] t[k] != '/' by {
        if k < dr.len() {
            assert(t[k] == dr[k]);
        } else if k == dr.len() {
        } else if k < dr.len() + 1 + dg.len() {
            assert(t[k] == dg[k - dr.len() - 1]);
        } else if k == dr.len() + 1 + dg.len() {
        } else if k < dr.len() + 2 + dg.len() + db.len() {
            assert(t[k] == db[k - dr.len() - 2 - dg.len()]);
        } else if k == dr.len() + 2 + dg.len() + db.len() {
        } else {
            assert(t[k] == da[k - dr.len() - 3 - dg.len() - db.len()]);
        }
    }
}

/// The key `Combo<i>`: it starts with `Combo`, holds no colon and has no
/// white space at its ends.
proof fn lemma_combo_key(i: nat)
    ensures
        has_prefix("Combo"@ + nat_digits(i), "Combo"@),
        lacks("Combo"@ + nat_digits(i), ':'),
        lacks("Combo"@ + nat_digits(i), '/'),
        trim("Combo"@ + nat_digits(i)) == "Combo"@ + nat_digits(i),
        ("Combo"@ + nat_digits(i))[0] == 'C',
{
    reveal_strlit("Combo");
    lemma_digits_facts(i);
    let d = nat_digits(i);
    let key = "Combo"@ + d;
    assert(key.take(5) =~= "Combo"@);
    assert forall|k: int| 0 <= k < key.len() implies #[trigger] key[k] != ':' && key[k] != '/' by {
        if k >= 5 {
            assert(key[k] == d[k - 5]);
        }
    }
    assert(key.last() == d.last());
    assert(trim_start(key) == key);
    assert(trim_end(key) == key);
}

/// One written combo line, read back: the color is appended.
proof fn lemma_combo_line(state: ColorsView, i: nat, c: Color)
    ensures
        section_of_line(combo_line(i, c)) is None,
        spec_parse_colors_line(state, combo_line(i, c)) == (ColorsView {
            custom_combo_colors: state.custom_combo_colors.push(read_back_color(c)),
            ..state
        }),
{
    let key = "Combo"@ + nat_digits(i);
    let line = combo_line(i, c);
    lemma_combo_key(i);
    lemma_color_text(c);
    lemma_kv_line(key, color_text(c));
    assert(line[0] == 'C');
    assert forall|k: int| 0 <= k < line.len() implies #[trigger] line[k] != '/' by {
        if k < key.len() {
            assert(line[k] == key[k]);
        } else if k >= key.len() + 2 {
            assert(line[k] == color_text(c)[k - key.len() - 2]);
        }
    }
    lemma_no_comment(line);
}

proof fn lemma_combo_fold(colors: Seq<Color>)
    ensures
        no_headers(combo_lines(colors)),
        fold_lines::<Colors>(
            Colors::spec_create(LATEST_FORMAT_VERSION),
            None,
            colors_lines(colors),
        ) == (ColorsView {
            custom_combo_colors: colors.map_values(|c: Color| read_back_color(c)),
            custom_colors: Seq::empty(),
        }),
    decreases colors.len(),
{
    reveal_strlit("[Colours]");
    reveal_strlit("Colours");
    reveal_strlit("General");
    reveal_strlit("Editor");
    reveal_strlit("Metadata");
    reveal_strlit("Difficulty");
    reveal_strlit("Events");
    reveal_strlit("TimingPoints");
    let h = "[Colours]"@;
    assert(h.subrange(1, h.len() - 1) =~= "Colours"@);
    assert("Colours"@[0] != "General"@[0]);
    assert("Colours"@.len() != "Editor"@.len());
    assert("Colours"@.len() != "Metadata"@.len());
    assert("Colours"@.len() != "Difficulty"@.len());
    assert("Colours"@.len() != "Events"@.len());
    assert("Colours"@.len() != "TimingPoints"@.len());
    assert(section_of_name("Colours"@) == Some(Section::Colors));
    assert(section_of_line(h) == Some(Section::Colors));
    let init = Colors::spec_create(LATEST_FORMAT_VERSION);
    if colors.len() == 0 {
        assert(colors_lines(colors) =~= seq![h]);
        assert(seq![h].drop_first() =~= Seq::<Seq<char>>::empty());
        assert(fold_lines::<Colors>(init, Some(Section::Colors), seq![h].drop_first()) == init);
        assert(colors.map_values(|c: Color| read_back_color(c)) =~= Seq::<Color>::empty());
    } else {
        let prefix = colors.drop_last();
        lemma_combo_fold(prefix);
        let lines = colors_lines(prefix);
        let line = combo_line(colors.len(), colors.last());
        assert(lines[0] == h);
        assert(lines.drop_first() =~= combo_lines(prefix));
        lemma_combo_line(fold_lines::<Colors>(init, None, lines), colors.len(), colors.last());
        lemma_fold_line::<Colors>(init, Section::Colors, lines, line);
        assert(colors_lines(colors) =~= lines.push(line));
        assert(combo_lines(colors) =~= lines.push(line).drop_first());
        assert(colors.map_values(|c: Color| read_back_color(c)) =~= prefix.map_values(
            |c: Color| read_back_color(c),
        ).push(read_back_color(colors.last())));
    }
}

/// Reading back what [`encode_colors`] writes gives the combo colors again,
/// each with its alpha at 255, and no named colors.
pub proof fn lemma_colors_read_back(colors: Seq<Color>)
    ensures
        spec_decode_lines::<Colors>(colors_lines(colors)) == (ColorsView {
            custom_combo_colors: colors.map_values(|c: Color| read_back_color(c)),
            custom_colors: Seq::empty(),
        }),
{
    reveal_strlit("[Colours]");
    reveal_strlit("osu file format v");
    let lines = colors_lines(colors);
    assert(lines[0] == "[Colours]"@);
    assert(!has_prefix("[Colours]"@, version_prefix()));
    assert(split_version(lines) == (LATEST_FORMAT_VERSION, lines));
    lemma_combo_fold(colors);
}

/// The bookmarks in decimal, separated by commas.
pub open spec fn bookmarks_text(b: Seq<i32>) -> Seq<char>
    decreases b.len(),
{
    if b.len() == 0 {
        Seq::empty()
    } else if b.len() == 1 {
        int_text(b[0] as int)
    } else {
        int_text(b[0] as int) + seq![','] + bookmarks_text(b.drop_first())
    }
}

/// The line that [`encode_bookmarks`] writes for non-empty bookmarks.
pub open spec fn bookmarks_line(b: Seq<i32>) -> Seq<char> {
    kv_line(editor_key_name(EditorKey::Bookmarks), bookmarks_text(b))
}

proof fn lemma_bookmarks_text_push(b: Seq<i32>, x: i32)
    requires
        b.len() >= 1,
    ensures
        bookmarks_text(b.push(x)) == bookmarks_text(b) + seq![','] + int_text(x as int),
    decreases b.len(),
{
    let bx = b.push(x);
    assert(bx[0] == b[0]);
    if b.len() == 1 {
        assert(bx.drop_first() =~= seq![x]);
        assert(bookmarks_text(bx.drop_first()) == int_text(x as int));
    } else {
        assert(bx.drop_first() =~= b.drop_first().push(x));
        lemma_bookmarks_text_push(b.drop_first(), x);
        assert(bookmarks_text(bx) =~= bookmarks_text(b) + seq![','] + int_text(x as int));
    }
}

/// Append the `Bookmarks` line of the `[Editor]` section, unless there are
/// no bookmarks.
pub fn encode_bookmarks(bookmarks: &Vec<i32>, out: &mut String)
    ensures
        final(out)@ == old(out)@ + if bookmarks@.len() == 0 {
            Seq::<char>::empty()
        } else {
            bookmarks_line(bookmarks@) + seq!['\n']
        },
{
    if bookmarks.len() == 0 {
        assert(out@ =~= old(out)@ + Seq::<char>::empty());
        return;
    }
    push_str(out, EditorKey::Bookmarks.as_str());
    push_char(out, ':');
    push_char(out, ' ');
    let ghost head = out@;
    push_chars(out, &int_to_chars(bookmarks[0] as i64));
    proof {
        assert(bookmarks@.take(1) =~= seq![bookmarks@[0]]);
        assert(out@ == head + bookmarks_text(bookmarks@.take(1)));
    }
    let mut i: usize = 1;
    while i < bookmarks.len()
        invariant
            1 <= i <= bookmarks.len(),
            out@ == head + bookmarks_text(bookmarks@.take(i as int)),
        decreases bookmarks.len() - i,
    {
        push_char(out, ',');
        push_chars(out, &int_to_chars(bookmarks[i] as i64));
        proof {
            lemma_bookmarks_text_push(bookmarks@.take(i as int), bookmarks@[i as int]);
            assert(bookmarks@.take(i as int).push(bookmarks@[i as int]) =~= bookmarks@.take(i + 1));
        }
        i = i + 1;
    }
    push_char(out, '\n');
    proof {
        assert(bookmarks@.take(bookmarks.len() as int) =~= bookmarks@);
        assert(out@ =~= old(out)@ + bookmarks_line(bookmarks@) + seq!['\n']);
    }
}

pub(crate) proof fn lemma_int_text_facts(n: i32)
    ensures
        int_text(n as int).len() > 0,
        !is_whitespace(int_text(n as int)[0]),
        is_digit(int_text(n as int).last()),
        lacks(int_text(n as int), ','),
        lacks(int_text(n as int), ':'),
        lacks(int_text(n as int), '/'),
{
    let t = int_text(n as int);
    if n < 0 {
        let d = nat_digits((-n) as nat);
        lemma_nat_digits((-n) as nat);
        assert(t.last() == d.last());
        assert(is_digit(d[d.len() - 1]));
        assert forall|k: int| 0 <= k < t.len() implies #[trigger] t[k] != ',' && t[k] != ':' && t[k]
            != '/' by {
            if k > 0 {
                assert(t[k] == d[k - 1]);
                assert(is_digit(d[k - 1]));
            }
        }
    } else {
        lemma_nat_digits(n as nat);
        assert(is_digit(t[0]));
        assert(is_digit(t[t.len() - 1]));
        assert forall|k: int| 0 <= k < t.len() implies #[trigger] t[k] != ',' && t[k] != ':' && t[k]
            != '/' by {
            assert(is_digit(t[k]));
        }
    }
}

proof fn lemma_bookmarks_text_facts(b: Seq<i32>)
    requires
        b.len() >= 1,
    ensures
        split_by(bookmarks_text(b), ',') == b.map_values(|n: i32| int_text(n as int)),
        bookmarks_text(b).len() > 0,
        bookmarks_text(b)[0] == int_text(b[0] as int)[0],
        is_digit(bookmarks_text(b).last()),
        lacks(bookmarks_text(b), ':'),
        lacks(bookmarks_text(b), '/'),
    decreases b.len(),
{
    let t = bookmarks_text(b);
    let first = int_text(b[0] as int);
    lemma_int_text_facts(b[0]);
    if b.len() == 1 {
        lemma_split_single(first, ',');
        assert(b.map_values(|n: i32| int_text(n as int)) =~= seq![first]);
    } else {
        let rest = bookmarks_text(b.drop_first());
        lemma_bookmarks_text_facts(b.drop_first());
        lemma_split_join(first, rest, ',');
        assert(b.map_values(|n: i32| int_text(n as int)) =~= seq![first] + b.drop_first().map_values(
            |n: i32| int_text(n as int),
        ));
        assert(t.last() == rest.last());
        assert forall|k: int| 0 <= k < t.len() implies #[trigger] t[k] != ':' && t[k] != '/' by {
            if k < first.len() {
                assert(t[k] == first[k]);
            } else if k > first.len() {
                assert(t[k] == rest[k - first.len() - 1]);
            }
        }
    }
}

proof fn lemma_valid_numbers_append(a: Seq<Seq<char>>, b: Seq<Seq<char>>)
    ensures
        valid_numbers(a + b) == valid_numbers(a) + valid_numbers(b),
    decreases b.len(),
{
    if b.len() == 0 {
        assert(a + b =~= a);
        assert(valid_numbers(a) + valid_numbers(b) =~= valid_numbers(a));
    } else {
        assert((a + b).drop_last() =~= a + b.drop_last());
        assert((a + b).last() == b.last());
        lemma_valid_numbers_append(a, b.drop_last());
        assert(valid_numbers(a + b) =~= valid_numbers(a) + valid_numbers(b));
    }
}

proof fn lemma_valid_numbers_texts(b: Seq<i32>)
    ensures
        valid_numbers(b.map_values(|n: i32| int_text(n as int))) == b,
    decreases b.len(),
{
    let texts = b.map_values(|n: i32| int_text(n as int));
    if b.len() > 0 {
        lemma_valid_numbers_texts(b.drop_last());
        assert(texts.drop_last() =~= b.drop_last().map_values(|n: i32| int_text(n as int)));
        lemma_parse_i32_text(b.last());
        assert(texts.last() == int_text(b.last() as int));
        assert(valid_numbers(texts) =~= b.drop_last().push(b.last()));
        assert(b.drop_last().push(b.last()) =~= b);
    } else {
        assert(texts =~= Seq::<Seq<char>>::empty());
    }
}

/// Reading back the bookmarks line that [`encode_bookmarks`] writes gives
/// the bookmarks again.
pub proof fn lemma_bookmarks_read_back(b: Seq<i32>)
    requires
        b.len() >= 1,
    ensures
        spec_editor_line(bookmarks_line(b)) == Ok::<Option<EditorSettingView>, ParseEditorError>(
            Some(EditorSettingView::Bookmarks(b)),
        ),
{
    reveal_strlit("Bookmarks");
    reveal_strlit("DistanceSpacing");
    reveal_strlit("BeatDivisor");
    reveal_strlit("GridSize");
    reveal_strlit("TimelineZoom");
    let key = editor_key_name(EditorKey::Bookmarks);
    let text = bookmarks_text(b);
    let line = bookmarks_line(b);
    lemma_bookmarks_text_facts(b);
    lemma_int_text_facts(b[0]);
    assert(!is_whitespace(key[0]) && !is_whitespace(key.last()));
    assert(trim_start(key) == key);
    assert(trim_end(key) == key);
    assert(lacks(key, ':'));
    assert(!is_whitespace(text[0]));
    assert(!is_whitespace(text.last()));
    assert(trim_start(text) == text);
    assert(trim_end(text) == text);
    lemma_kv_line(key, text);
    assert forall|k: int| 0 <= k < line.len() implies #[trigger] line[k] != '/' by {
        if k < key.len() {
            assert(line[k] == key[k]);
        } else if k >= key.len() + 2 {
            assert(line[k] == text[k - key.len() - 2]);
        }
    }
    lemma_no_comment(line);
    assert(spec_editor_key(key) == Some(EditorKey::Bookmarks));
    lemma_valid_numbers_texts(b);
    assert(spec_bookmarks(text) == b);
}

/// The event line of a background image, `0,0,"<file>",0,0`.
pub open spec fn background_line(file: Seq<char>) -> Seq<char> {
    seq!['0', ',', '0', ',', '"'] + file + seq!['"', ',', '0', ',', '0']
}

/// Append the background line of the `[Events]` section, unless there is
/// no background file.
pub fn encode_background(background_file: &str, out: &mut String)
    ensures
        final(out)@ == old(out)@ + if background_file@.len() == 0 {
            Seq::<char>::empty()
        } else {
            background_line(background_file@) + seq!['\n']
        },
{
    if background_file.is_empty() {
        assert(out@ =~= old(out)@ + Seq::<char>::empty());
        return;
    }
    push_char(out, '0');
    push_char(out, ',');
    push_char(out, '0');
    push_char(out, ',');
    push_char(out, '"');
    push_str(out, background_file);
    push_char(out, '"');
    push_char(out, ',');
    push_char(out, '0');
    push_char(out, ',');
    push_char(out, '0');
    push_char(out, '\n');
    assert(out@ =~= old(out)@ + background_line(background_file@) + seq!['\n']);
}

/// Whether `s` holds no two slashes in a row.
pub open spec fn no_double_slash(s: Seq<char>) -> bool {
    forall|i: int| 0 <= i < s.len() - 1 ==> !(#[trigger] s[i] == '/' && s[i + 1] == '/')
}

pub(crate) proof fn lemma_no_comment_pairs(s: Seq<char>, from: int)
    requires
        no_double_slash(s),
    ensures
        find_comment_from(s, from) is None,
    decreases s.len() - from,
{
    if 0 <= from && from + 1 < s.len() {
        assert(!(s[from] == '/' && s[from + 1] == '/'));
        lemma_no_comment_pairs(s, from + 1);
    }
}

pub(crate) proof fn lemma_collapse_plain(s: Seq<char>)
    requires
        lacks(s, '\\'),
    ensures
        collapse_backslashes(s) == s,
    decreases s.len(),
{
    if s.len() > 0 {
        assert(s[0] != '\\');
        assert(lacks(s.drop_first(), '\\')) by {
            assert forall|k: int| 0 <= k < s.drop_first().len() implies #[trigger] s.drop_first()[k]
                != '\\' by {
                assert(s.drop_first()[k] == s[k + 1]);
            }
        }
        lemma_collapse_plain(s.drop_first());
        assert(seq![s[0]] + s.drop_first() =~= s);
    }
}

/// Reading back the background line that [`encode_background`] writes sets
/// the background file to it, when the name holds no quote, backslash or
/// comma and no two slashes in a row.
pub proof fn lemma_background_read_back(previous: Seq<char>, file: Seq<char>)
    requires
        file.len() > 0,
        lacks(file, '"'),
        lacks(file, '\\'),
        lacks(file, ','),
        no_double_slash(file),
    ensures
        spec_event_line(previous, background_line(file)) == (
            file,
            Ok::<Option<(Seq<char>, Seq<char>)>, ParseEventsError>(None),
        ),
{
    reveal_strlit("0");
    let line = background_line(file);
    let n = file.len() as int;
    assert(line.len() == n + 10);
    assert forall|k: int| 0 <= k < n implies #[trigger] line[k + 5] == file[k] by {}
    assert(no_double_slash(line)) by {
        assert forall|i: int| 0 <= i < line.len() - 1 implies !(#[trigger] line[i] == '/' && line[i
            + 1] == '/') by {
            if 5 <= i && i + 1 < 5 + n {
                assert(line[i] == file[i - 5]);
                assert(line[i + 1] == file[i - 4]);
            } else if 5 <= i && i < 5 + n {
                assert(line[i + 1] == '"');
            } else if i == 4 {
                assert(line[i] == '"');
            }
        }
    }
    lemma_no_comment_pairs(line, 0);
    assert(trim_comment(line) == line);
    let quoted = seq!['"'] + file + seq!['"'];
    let tail = seq!['0', ',', '0'];
    assert(line =~= seq!['0'] + seq![','] + (seq!['0'] + seq![','] + (quoted + seq![','] + tail)));
    assert(lacks(quoted, ',')) by {
        assert forall|k: int| 0 <= k < quoted.len() implies #[trigger] quoted[k] != ',' by {
            if 0 < k < quoted.len() - 1 {
                assert(quoted[k] == file[k - 1]);
            }
        }
    }
    assert(tail =~= seq!['0'] + seq![','] + seq!['0']);
    lemma_split_single(seq!['0'], ',');
    lemma_split_join(seq!['0'], seq!['0'], ',');
    lemma_split_join(quoted, tail, ',');
    lemma_split_join(seq!['0'], quoted + seq![','] + tail, ',');
    lemma_split_join(seq!['0'], seq!['0'] + seq![','] + (quoted + seq![','] + tail), ',');
    let p = split_by(line, ',');
    assert(p =~= seq![seq!['0'], seq!['0'], quoted, seq!['0'], seq!['0']]);
    assert(seq!['0'] =~= "0"@);
    assert(lacks(quoted, '\\')) by {
        assert forall|k: int| 0 <= k < quoted.len() implies #[trigger] quoted[k] != '\\' by {
            if 0 < k < quoted.len() - 1 {
                assert(quoted[k] == file[k - 1]);
            }
        }
    }
    lemma_collapse_plain(quoted);
    assert(quoted.drop_first() =~= file + seq!['"']);
    assert((file + seq!['"']).drop_last() =~= file);
    assert(file[0] != '"');
    assert(file.last() != '"');
    assert(trim_quotes(file + seq!['"']) == trim_quotes(file));
    assert(trim_quotes(quoted) == file);
    assert(standardized_path(file) =~= file);
    assert(clean_filename(quoted) == file);
}

/// The fields that a line of the `[TimingPoints]` section holds behind the
/// time and the beat length: time signature, sample bank number, custom
/// sample bank, volume, `1` or `0` for a timing change, and effect flags.
pub open spec fn control_point_fields_text(
    time_signature: u32,
    sample_bank: i32,
    custom_sample_bank: i32,
    sample_volume: i32,
    timing_change: bool,
    effect_flags: i32,
) -> Seq<char> {
    int_text(time_signature as int) + seq![','] + int_text(sample_bank as int) + seq![',']
        + int_text(custom_sample_bank as int) + seq![','] + int_text(sample_volume as int) + seq![
        ',',
    ] + (if timing_change {
        seq!['1']
    } else {
        seq!['0']
    }) + seq![','] + int_text(effect_flags as int)
}

/// Append the fields of a control point line behind its time and beat
/// length, and a line break.
pub fn encode_control_point_fields(
    time_signature: u32,
    sample_bank: i32,
    custom_sample_bank: i32,
    sample_volume: i32,
    timing_change: bool,
    effect_flags: i32,
    out: &mut String,
)
    ensures
        final(out)@ == old(out)@ + control_point_fields_text(
            time_signature,
            sample_bank,
            custom_sample_bank,
            sample_volume,
            timing_change,
            effect_flags,
        ) + seq!['\n'],
{
    write_number(out, time_signature as u64);
    push_char(out, ',');
    push_chars(out, &int_to_chars(sample_bank as i64));
    push_char(out, ',');
    push_chars(out, &int_to_chars(custom_sample_bank as i64));
    push_char(out, ',');
    push_chars(out, &int_to_chars(sample_volume as i64));
    push_char(out, ',');
    push_char(
        out,
        if timing_change {
            '1'
        } else {
            '0'
        },
    );
    push_char(out, ',');
    push_chars(out, &int_to_chars(effect_flags as i64));
    push_char(out, '\n');
    assert(out@ =~= old(out)@ + control_point_fields_text(
        time_signature,
        sample_bank,
        custom_sample_bank,
        sample_volume,
        timing_change,
        effect_flags,
    ) + seq!['\n']);
}

pub(crate) proof fn lemma_parse_num_text(n: i32)
    requires
        n > i32::MIN,
    ensures
        spec_parse_num_i32(int_text(n as int), MAX_PARSE_VALUE) == Ok::<i32, crate::number::ParseNumberError>(n),
{
    let t = int_text(n as int);
    lemma_int_text_facts(n);
    lemma_parse_i32_text(n);
    assert(!is_whitespace(t.last())) by {
        assert(is_digit(t.last()));
    }
    assert(trim_start(t) == t);
    assert(trim_end(t) == t);
}

/// The sample bank that reading a written bank number gives: the bank of
/// that number (the default one for an unknown number), with the normal bank
/// in place of none.
pub open spec fn read_back_bank(sample_bank: i32, default_bank: SampleBank) -> SampleBank {
    let bank = match spec_bank_of_i32(sample_bank) {
        Some(b) => b,
        None => default_bank,
    };
    if bank == SampleBank::NoBank {
        SampleBank::Normal
    } else {
        bank
    }
}

proof fn lemma_lacks_concat(a: Seq<char>, b: Seq<char>, c: char)
    requires
        lacks(a, c),
        lacks(b, c),
    ensures
        lacks(a + b, c),
{
    assert forall|k: int| 0 <= k < (a + b).len() implies #[trigger] (a + b)[k] != c by {
        if k < a.len() {
            assert((a + b)[k] == a[k]);
        } else {
            assert((a + b)[k] == b[k - a.len()]);
        }
    }
}

proof fn lemma_fields_text(
    time_signature: u32,
    sample_bank: i32,
    custom_sample_bank: i32,
    sample_volume: i32,
    timing_change: bool,
    effect_flags: i32,
)
    requires
        0 < time_signature <= i32::MAX,
    ensures
        ({
            let fields = control_point_fields_text(
                time_signature,
                sample_bank,
                custom_sample_bank,
                sample_volume,
                timing_change,
                effect_flags,
            );
            &&& split_by(fields, ',') == seq![
                int_text(time_signature as int),
                int_text(sample_bank as int),
                int_text(custom_sample_bank as int),
                int_text(sample_volume as int),
                if timing_change {
                    seq!['1']
                } else {
                    seq!['0']
                },
                int_text(effect_flags as int),
            ]
            &&& lacks(fields, '/')
        }),
{
    let t_sig = int_text(time_signature as int);
    let t_bank = int_text(sample_bank as int);
    let t_custom = int_text(custom_sample_bank as int);
    let t_volume = int_text(sample_volume as int);
    let t_timing = if timing_change {
        seq!['1']
    } else {
        seq!['0']
    };
    let t_flags = int_text(effect_flags as int);
    lemma_int_text_facts(time_signature as i32);
    lemma_int_text_facts(sample_bank);
    lemma_int_text_facts(custom_sample_bank);
    lemma_int_text_facts(sample_volume);
    lemma_int_text_facts(effect_flags);
    assert(int_text((time_signature as i32) as int) == t_sig);
    let comma = seq![','];
    assert(lacks(comma, '/'));
    assert(lacks(t_timing, ','));
    assert(lacks(t_timing, '/'));
    let r6 = t_timing + comma + t_flags;
    let r5 = t_volume + comma + r6;
    let r4 = t_custom + comma + r5;
    let r3 = t_bank + comma + r4;
    let r2 = t_sig + comma + r3;
    assert(control_point_fields_text(
        time_signature,
        sample_bank,
        custom_sample_bank,
        sample_volume,
        timing_change,
        effect_flags,
    ) =~= r2);
    lemma_split_single(t_flags, ',');
    lemma_split_join(t_timing, t_flags, ',');
    lemma_split_join(t_volume, r6, ',');
    lemma_split_join(t_custom, r5, ',');
    lemma_split_join(t_bank, r4, ',');
    lemma_split_join(t_sig, r3, ',');
    assert(split_by(r2, ',') =~= seq![t_sig, t_bank, t_custom, t_volume, t_timing, t_flags]);
    lemma_lacks_concat(t_timing, comma, '/');
    lemma_lacks_concat(t_timing + comma, t_flags, '/');
    lemma_lacks_concat(t_volume, comma, '/');
    lemma_lacks_concat(t_volume + comma, r6, '/');
    lemma_lacks_concat(t_custom, comma, '/');
    lemma_lacks_concat(t_custom + comma, r5, '/');
    lemma_lacks_concat(t_bank, comma, '/');
    lemma_lacks_concat(t_bank + comma, r4, '/');
    lemma_lacks_concat(t_sig, comma, '/');
    lemma_lacks_concat(t_sig + comma, r3, '/');
}

/// Reading back a control point line whose fields [`encode_control_point_fields`]
/// wrote gives its time and beat length texts and its fields again: a
/// positive time signature, the sample bank as [`read_back_bank`] says, the
/// custom bank, the volume, the timing change, and kiai and the omitted
/// first bar line from the effect flags.
pub proof fn lemma_control_point_read_back(
    time: Seq<char>,
    beat_len: Seq<char>,
    time_signature: u32,
    sample_bank: i32,
    custom_sample_bank: i32,
    sample_volume: i32,
    timing_change: bool,
    effect_flags: i32,
    default_bank: SampleBank,
    default_volume: i32,
)
    requires
        lacks(time, ','),
        lacks(beat_len, ','),
        no_double_slash(time + seq![','] + beat_len + seq![',']),
        0 < time_signature <= i32::MAX,
        sample_bank > i32::MIN,
        custom_sample_bank > i32::MIN,
        sample_volume > i32::MIN,
    ensures
        ({
            let line = time + seq![','] + beat_len + seq![','] + control_point_fields_text(
                time_signature,
                sample_bank,
                custom_sample_bank,
                sample_volume,
                timing_change,
                effect_flags,
            );
            &&& spec_timing_point_times(line) == Some((time, beat_len))
            &&& spec_timing_point_fields(line, default_bank, default_volume) == Ok::<
                TimingPointFields,
                ParseTimingPointsError,
            >(
                TimingPointFields {
                    time_signature: TimeSignature { numerator: time_signature },
                    sample_bank: read_back_bank(sample_bank, default_bank),
                    custom_sample_bank,
                    sample_volume,
                    timing_change,
                    kiai: effect_flags & 1 != 0,
                    omit_first_bar_line: effect_flags & 8 != 0,
                },
            )
        }),
{
    let sig = time_signature as i32;
    let fields = control_point_fields_text(
        time_signature,
        sample_bank,
        custom_sample_bank,
        sample_volume,
        timing_change,
        effect_flags,
    );
    lemma_fields_text(
        time_signature,
        sample_bank,
        custom_sample_bank,
        sample_volume,
        timing_change,
        effect_flags,
    );
    let prefix = time + seq![','] + beat_len + seq![','];
    let line = prefix + fields;
    assert(no_double_slash(line)) by {
        assert forall|i: int| 0 <= i < line.len() - 1 implies !(#[trigger] line[i] == '/' && line[i
            + 1] == '/') by {
            if i + 1 < prefix.len() {
                assert(line[i] == prefix[i]);
                assert(line[i + 1] == prefix[i + 1]);
            } else if i + 1 == prefix.len() {
                assert(line[i] == ',');
            } else {
                assert(line[i] == fields[i - prefix.len()]);
            }
        }
    }
    lemma_no_comment_pairs(line, 0);
    let r1 = beat_len + seq![','] + fields;
    assert(line =~= time + seq![','] + r1);
    lemma_split_join(beat_len, fields, ',');
    lemma_split_join(time, r1, ',');
    let t_sig = int_text(time_signature as int);
    lemma_int_text_facts(sig);
    assert(int_text(sig as int) == t_sig);
    lemma_parse_num_text(sig);
    lemma_parse_num_text(custom_sample_bank);
    lemma_parse_num_text(sample_volume);
    lemma_parse_num_text(sample_bank);
    lemma_parse_i32_text(effect_flags);
    lemma_leading_digit(time_signature as nat);
    let p = split_by(line, ',');
    let t_timing = if timing_change {
        seq!['1']
    } else {
        seq!['0']
    };
    assert(p =~= seq![
        time,
        beat_len,
        t_sig,
        int_text(sample_bank as int),
        int_text(custom_sample_bank as int),
        int_text(sample_volume as int),
        t_timing,
        int_text(effect_flags as int),
    ]);
    assert(t_sig[0] != '0');
    assert(sig as u32 == time_signature);
    assert(spec_parse_num_i32(p[2], MAX_PARSE_VALUE) == Ok::<i32, crate::number::ParseNumberError>(
        sig,
    ));
    assert(spec_parse_i32(p[7]) == Some(effect_flags));
}

/// What the `[General]` section of a written file holds. The audio lead-in
/// and the stack leniency are floats: they are given by their text.
pub struct GeneralFields {
    pub audio_file: String,
    pub audio_lead_in: String,
    pub preview_time: i32,
    pub countdown: CountdownType,
    pub sample_set: SampleBank,
    pub stack_leniency: String,
    pub mode: GameMode,
    pub letterbox_in_breaks: bool,
    pub epilepsy_warning: bool,
    pub countdown_offset: i32,
    pub special_style: bool,
    pub widescreen_storyboard: bool,
    pub samples_match_playback_rate: bool,
}

/// `1` for a set flag, `0` otherwise.
pub open spec fn flag_text(b: bool) -> Seq<char> {
    if b {
        seq!['1']
    } else {
        seq!['0']
    }
}

/// The line `key: value` of a `[General]` key.
pub open spec fn general_line(key: GeneralKey, value: Seq<char>) -> Seq<char> {
    kv_line(general_key_name(key), value)
}

/// The header and the lines that [`encode_general`] always writes first.
pub open spec fn general_base_lines(g: GeneralFields) -> Seq<Seq<char>> {
    seq![
        "[General]"@,
        general_line(GeneralKey::AudioFilename, g.audio_file@),
        general_line(GeneralKey::AudioLeadIn, g.audio_lead_in@),
        general_line(GeneralKey::PreviewTime, int_text(g.preview_time as int)),
        general_line(GeneralKey::Countdown, int_text(countdown_number(g.countdown) as int)),
        general_line(GeneralKey::SampleSet, int_text(bank_number(g.sample_set) as int)),
        general_line(GeneralKey::StackLeniency, g.stack_leniency@),
        general_line(GeneralKey::Mode, int_text(game_mode_number(g.mode) as int)),
        general_line(GeneralKey::LetterboxInBreaks, flag_text(g.letterbox_in_breaks)),
    ]
}

/// The lines that [`encode_general`] writes: the header, then file, lead-in,
/// preview time, countdown, sample set, stack leniency, mode and letterbox
/// always; the epilepsy warning when set, the countdown offset when positive,
/// the special style in mania only; the widescreen flag always; and the
/// playback rate flag when set.
pub open spec fn general_lines(g: GeneralFields) -> Seq<Seq<char>> {
    let base = general_base_lines(g);
    let warned = if g.epilepsy_warning {
        base.push(general_line(GeneralKey::EpilepsyWarning, seq!['1']))
    } else {
        base
    };
    let offset = if g.countdown_offset > 0 {
        warned.push(general_line(GeneralKey::CountdownOffset, int_text(g.countdown_offset as int)))
    } else {
        warned
    };
    let styled = if g.mode == GameMode::Mania {
        offset.push(general_line(GeneralKey::SpecialStyle, flag_text(g.special_style)))
    } else {
        offset
    };
    let wide = styled.push(
        general_line(GeneralKey::WidescreenStoryboard, flag_text(g.widescreen_storyboard)),
    );
    if g.samples_match_playback_rate {
        wide.push(general_line(GeneralKey::SamplesMatchPlaybackRate, seq!['1']))
    } else {
        wide
    }
}

/// Append the line `key: value` of a value given by its characters.
fn write_kv_chars(
    out: &mut String,
    Ghost(start): Ghost<Seq<char>>,
    Ghost(lines): Ghost<Seq<Seq<char>>>,
    key: &str,
    value: &Vec<char>,
) -> (r: Ghost<Seq<Seq<char>>>)
    requires
        old(out)@ == start + lines_text(lines),
    ensures
        final(out)@ == start + lines_text(r@),
        r@ == lines.push(kv_line(key@, value@)),
{
    push_str(out, key);
    push_char(out, ':');
    push_char(out, ' ');
    push_chars(out, value);
    push_char(out, '\n');
    proof {
        lemma_lines_text_push(lines, kv_line(key@, value@));
        assert(out@ =~= start + lines_text(lines.push(kv_line(key@, value@))));
    }
    Ghost(lines.push(kv_line(key@, value@)))
}

/// The characters `1` or `0` of a flag.
fn flag_chars(b: bool) -> (r: Vec<char>)
    ensures
        r@ == flag_text(b),
{
    let mut v: Vec<char> = Vec::new();
    v.push(if b { '1' } else { '0' });
    proof {
        assert(v@ =~= flag_text(b));
    }
    v
}

/// Append the `[General]` section of `g`.
pub fn encode_general(g: &GeneralFields, out: &mut String)
    ensures
        final(out)@ == old(out)@ + lines_text(general_lines(*g)),
{
    let ghost start = old(out)@;
    push_str(out, "[General]");
    push_char(out, '\n');
    proof {
        lemma_lines_text_empty();
        lemma_lines_text_push(Seq::empty(), "[General]"@);
        assert(Seq::<Seq<char>>::empty().push("[General]"@) =~= seq!["[General]"@]);
        assert(out@ =~= start + lines_text(seq!["[General]"@]));
    }
    let ghost first: Seq<Seq<char>> = seq!["[General]"@];
    let l: Ghost<Seq<Seq<char>>> = Ghost(first);
    let l = write_kv_line(
        out,
        Ghost(start),
        l,
        GeneralKey::AudioFilename.as_str(),
        g.audio_file.as_str(),
        false,
    );
    let l = write_kv_line(
        out,
        Ghost(start),
        l,
        GeneralKey::AudioLeadIn.as_str(),
        g.audio_lead_in.as_str(),
        false,
    );
    let l = write_kv_chars(
        out,
        Ghost(start),
        l,
        GeneralKey::PreviewTime.as_str(),
        &int_to_chars(g.preview_time as i64),
    );
    let l = write_kv_chars(
        out,
        Ghost(start),
        l,
        GeneralKey::Countdown.as_str(),
        &int_to_chars(g.countdown.number() as i64),
    );
    let l = write_kv_chars(
        out,
        Ghost(start),
        l,
        GeneralKey::SampleSet.as_str(),
        &int_to_chars(g.sample_set.number() as i64),
    );
    let l = write_kv_line(
        out,
        Ghost(start),
        l,
        GeneralKey::StackLeniency.as_str(),
        g.stack_leniency.as_str(),
        false,
    );
    let l = write_kv_chars(
        out,
        Ghost(start),
        l,
        GeneralKey::Mode.as_str(),
        &int_to_chars(g.mode.number() as i64),
    );
    let l = write_kv_chars(
        out,
        Ghost(start),
        l,
        GeneralKey::LetterboxInBreaks.as_str(),
        &flag_chars(g.letterbox_in_breaks),
    );
    proof {
        assert(l@ =~= seq![
            "[General]"@,
            general_line(GeneralKey::AudioFilename, g.audio_file@),
            general_line(GeneralKey::AudioLeadIn, g.audio_lead_in@),
            general_line(GeneralKey::PreviewTime, int_text(g.preview_time as int)),
            general_line(GeneralKey::Countdown, int_text(countdown_number(g.countdown) as int)),
            general_line(GeneralKey::SampleSet, int_text(bank_number(g.sample_set) as int)),
            general_line(GeneralKey::StackLeniency, g.stack_leniency@),
            general_line(GeneralKey::Mode, int_text(game_mode_number(g.mode) as int)),
            general_line(GeneralKey::LetterboxInBreaks, flag_text(g.letterbox_in_breaks)),
        ]);
    }
    let l = if g.epilepsy_warning {
        write_kv_chars(out, Ghost(start), l, GeneralKey::EpilepsyWarning.as_str(), &flag_chars(true))
    } else {
        l
    };
    let l = if g.countdown_offset > 0 {
        write_kv_chars(
            out,
            Ghost(start),
            l,
            GeneralKey::CountdownOffset.as_str(),
            &int_to_chars(g.countdown_offset as i64),
        )
    } else {
        l
    };
    let l = if g.mode == GameMode::Mania {
        write_kv_chars(
            out,
            Ghost(start),
            l,
            GeneralKey::SpecialStyle.as_str(),
            &flag_chars(g.special_style),
        )
    } else {
        l
    };
    let l = write_kv_chars(
        out,
        Ghost(start),
        l,
        GeneralKey::WidescreenStoryboard.as_str(),
        &flag_chars(g.widescreen_storyboard),
    );
    let l = if g.samples_match_playback_rate {
        write_kv_chars(
            out,
            Ghost(start),
            l,
            GeneralKey::SamplesMatchPlaybackRate.as_str(),
            &flag_chars(true),
        )
    } else {
        l
    };
    assert(l@ == general_lines(*g));
}

/// A setting that reading a line gives.
pub open spec fn read_setting(s: GeneralSettingView) -> Result<
    Option<GeneralSettingView>,
    ParseGeneralError,
> {
    Ok(Some(s))
}

/// What reading each of `lines` as a line of the `[General]` section gives.
pub open spec fn read_general_lines(lines: Seq<Seq<char>>) -> Seq<
    Result<Option<GeneralSettingView>, ParseGeneralError>,
> {
    lines.map_values(|l: Seq<char>| spec_general_line(l))
}

/// What reading back the lines that [`encode_general`] always writes gives:
/// each field again, the file name with slashes for backslashes, and the
/// lead-in as what its text reads as.
pub open spec fn general_base_reads(g: GeneralFields) -> Seq<
    Result<Option<GeneralSettingView>, ParseGeneralError>,
> {
    let lead_in = match spec_parse_num_i32(g.audio_lead_in@, MAX_PARSE_VALUE) {
        Ok(n) => read_setting(GeneralSettingView::AudioLeadIn(n)),
        Err(e) => Err(ParseGeneralError::Number(e)),
    };
    seq![
        read_setting(GeneralSettingView::AudioFile(standardized_path(g.audio_file@))),
        lead_in,
        read_setting(GeneralSettingView::PreviewTime(g.preview_time)),
        read_setting(GeneralSettingView::Countdown(g.countdown)),
        read_setting(GeneralSettingView::DefaultSampleBank(g.sample_set)),
        read_setting(GeneralSettingView::StackLeniency(g.stack_leniency@)),
        read_setting(GeneralSettingView::Mode(g.mode)),
        read_setting(GeneralSettingView::LetterboxInBreaks(g.letterbox_in_breaks)),
    ]
}

/// What reading back each line that [`encode_general`] writes behind its
/// header gives: the readings of [`general_base_reads`], then the epilepsy
/// warning, the countdown offset, the special style, the widescreen flag
/// and the playback rate flag where they are written.
pub open spec fn general_read_back(g: GeneralFields) -> Seq<
    Result<Option<GeneralSettingView>, ParseGeneralError>,
> {
    let base = general_base_reads(g);
    let warned = if g.epilepsy_warning {
        base.push(read_setting(GeneralSettingView::EpilepsyWarning(true)))
    } else {
        base
    };
    let offset = if g.countdown_offset > 0 {
        warned.push(read_setting(GeneralSettingView::CountdownOffset(g.countdown_offset)))
    } else {
        warned
    };
    let styled = if g.mode == GameMode::Mania {
        offset.push(read_setting(GeneralSettingView::SpecialStyle(g.special_style)))
    } else {
        offset
    };
    let wide = styled.push(
        read_setting(GeneralSettingView::WidescreenStoryboard(g.widescreen_storyboard)),
    );
    if g.samples_match_playback_rate {
        wide.push(read_setting(GeneralSettingView::SamplesMatchPlaybackRate(true)))
    } else {
        wide
    }
}

/// A written `[General]` line reads back as its key and value.
pub(crate) proof fn lemma_general_line_parts(key: GeneralKey, value: Seq<char>)
    requires
        trim(value) == value,
        no_double_slash(value),
    ensures
        spec_general_line(general_line(key, value)) == spec_general_value(key, value),
{
    let name = general_key_name(key);
    let line = general_line(key, value);
    let n = name.len() as int;
    lemma_general_key_name(key);
    lemma_kv_line(name, value);
    assert(no_double_slash(line)) by {
        assert forall|i: int| 0 <= i < line.len() - 1 implies !(#[trigger] line[i] == '/' && line[i
            + 1] == '/') by {
            if i < n {
                assert(line[i] == name[i]);
            } else if i == n || i == n + 1 {
            } else {
                assert(line[i] == value[i - n - 2]);
                assert(line[i + 1] == value[i - n - 1]);
            }
        }
    }
    lemma_no_comment_pairs(line, 0);
}

/// The text of a digit below ten.
proof fn lemma_digit_text(n: int)
    requires
        0 <= n < 10,
    ensures
        int_text(n) == seq![(n + '0' as int) as char],
{
    assert(int_text(n) =~= seq![(n + '0' as int) as char]);
}

/// A flag's text reads as the number of the flag.
proof fn lemma_flag_text(b: bool)
    ensures
        spec_parse_num_i32(flag_text(b), MAX_PARSE_VALUE) == Ok::<i32, crate::number::ParseNumberError>(
            if b {
                1i32
            } else {
                0i32
            },
        ),
{
    lemma_digit_text(0);
    lemma_digit_text(1);
    lemma_parse_num_text(0);
    lemma_parse_num_text(1);
    assert(flag_text(b) == int_text(if b { 1int } else { 0int }));
}

/// The digits `0` to `3` are the texts of those numbers.
pub(crate) proof fn lemma_small_number_texts()
    ensures
        int_text(0) == "0"@,
        int_text(1) == "1"@,
        int_text(2) == "2"@,
        int_text(3) == "3"@,
{
    reveal_strlit("0");
    reveal_strlit("1");
    reveal_strlit("2");
    reveal_strlit("3");
    lemma_digit_text(0);
    lemma_digit_text(1);
    lemma_digit_text(2);
    lemma_digit_text(3);
    assert(int_text(0) =~= "0"@);
    assert(int_text(1) =~= "1"@);
    assert(int_text(2) =~= "2"@);
    assert(int_text(3) =~= "3"@);
}

/// A number's text has no white space at its ends and no slash.
pub(crate) proof fn lemma_int_text_plain(n: i32)
    ensures
        trim(int_text(n as int)) == int_text(n as int),
        no_double_slash(int_text(n as int)),
{
    let t = int_text(n as int);
    lemma_int_text_facts(n);
    assert(!is_whitespace(t.last())) by {
        assert(is_digit(t.last()));
    }
    assert(trim_start(t) == t);
    assert(trim_end(t) == t);
}

/// A countdown type's number reads back as the type.
pub(crate) proof fn lemma_countdown_text(c: CountdownType)
    ensures
        spec_countdown_type(int_text(countdown_number(c) as int)) == Some(c),
{
    lemma_small_number_texts();
    reveal_strlit("None");
    reveal_strlit("Normal");
    reveal_strlit("Half speed");
    reveal_strlit("Double speed");
    assert("0"@[0] != "1"@[0] && "0"@[0] != "2"@[0] && "0"@[0] != "3"@[0]);
    assert("1"@[0] != "2"@[0] && "1"@[0] != "3"@[0] && "2"@[0] != "3"@[0]);
    assert("None"@.len() != 1 && "Normal"@.len() != 1 && "Half speed"@.len() != 1);
}

/// A bank's number reads back as the bank.
pub(crate) proof fn lemma_bank_number_text(b: SampleBank)
    ensures
        spec_bank_from_name(int_text(bank_number(b) as int)) == Some(b),
{
    lemma_small_number_texts();
    reveal_strlit("None");
    reveal_strlit("Normal");
    reveal_strlit("Soft");
    reveal_strlit("Drum");
    assert("0"@[0] != "1"@[0] && "0"@[0] != "2"@[0] && "0"@[0] != "3"@[0]);
    assert("1"@[0] != "2"@[0] && "1"@[0] != "3"@[0] && "2"@[0] != "3"@[0]);
    assert("None"@.len() != 1 && "Normal"@.len() != 1 && "Soft"@.len() != 1);
}

/// A flag's text has no white space at its ends and no slash.
proof fn lemma_flag_text_plain(b: bool)
    ensures
        trim(flag_text(b)) == flag_text(b),
        no_double_slash(flag_text(b)),
{
    let t = flag_text(b);
    assert(!is_whitespace(t[0]));
    assert(trim_start(t) == t);
    assert(trim_end(t) == t);
}

proof fn lemma_read_general_push(lines: Seq<Seq<char>>, line: Seq<char>)
    requires
        lines.len() > 0,
    ensures
        read_general_lines(lines.push(line).drop_first()) == read_general_lines(
            lines.drop_first(),
        ).push(spec_general_line(line)),
{
    assert(lines.push(line).drop_first() =~= lines.drop_first().push(line));
    assert(read_general_lines(lines.drop_first().push(line)) =~= read_general_lines(
        lines.drop_first(),
    ).push(spec_general_line(line)));
}

proof fn lemma_general_base_reads(g: GeneralFields)
    requires
        trim(g.audio_file@) == g.audio_file@,
        no_double_slash(g.audio_file@),
        trim(g.audio_lead_in@) == g.audio_lead_in@,
        no_double_slash(g.audio_lead_in@),
        trim(g.stack_leniency@) == g.stack_leniency@,
        no_double_slash(g.stack_leniency@),
        g.preview_time > i32::MIN,
    ensures
        read_general_lines(general_base_lines(g).drop_first()) == general_base_reads(g),
{
    let h = "[General]"@;
    lemma_small_number_texts();
    let file = g.audio_file@;
    let lead_in = g.audio_lead_in@;
    let leniency = g.stack_leniency@;
    let preview = int_text(g.preview_time as int);
    let countdown = int_text(countdown_number(g.countdown) as int);
    let bank = int_text(bank_number(g.sample_set) as int);
    let mode = int_text(game_mode_number(g.mode) as int);
    let letterbox = flag_text(g.letterbox_in_breaks);
    lemma_int_text_plain(g.preview_time);
    lemma_parse_num_text(g.preview_time);
    lemma_flag_text_plain(g.letterbox_in_breaks);
    lemma_flag_text(g.letterbox_in_breaks);
    lemma_general_line_parts(GeneralKey::AudioFilename, file);
    lemma_general_line_parts(GeneralKey::AudioLeadIn, lead_in);
    lemma_general_line_parts(GeneralKey::PreviewTime, preview);
    lemma_general_line_parts(GeneralKey::Countdown, countdown);
    lemma_general_line_parts(GeneralKey::SampleSet, bank);
    lemma_general_line_parts(GeneralKey::StackLeniency, leniency);
    lemma_general_line_parts(GeneralKey::Mode, mode);
    lemma_general_line_parts(GeneralKey::LetterboxInBreaks, letterbox);
    let base = seq![
        h,
        general_line(GeneralKey::AudioFilename, file),
        general_line(GeneralKey::AudioLeadIn, lead_in),
        general_line(GeneralKey::PreviewTime, preview),
        general_line(GeneralKey::Countdown, countdown),
        general_line(GeneralKey::SampleSet, bank),
        general_line(GeneralKey::StackLeniency, leniency),
        general_line(GeneralKey::Mode, mode),
        general_line(GeneralKey::LetterboxInBreaks, letterbox),
    ];
    let reads = general_base_reads(g);
    lemma_countdown_text(g.countdown);
    lemma_bank_number_text(g.sample_set);
    assert(spec_game_mode(mode) == Some(g.mode));
    let base_reads = read_general_lines(base.drop_first());
    assert(base_reads[0] == reads[0]);
    assert(base_reads[1] == reads[1]);
    assert(base_reads[2] == reads[2]);
    assert(base_reads[3] == reads[3]);
    assert(base_reads[4] == reads[4]);
    assert(base_reads[5] == reads[5]);
    assert(base_reads[6] == reads[6]);
    assert(base_reads[7] == reads[7]);
    assert(base =~= general_base_lines(g));
    assert(base_reads =~= reads);
}

/// Reading back what [`encode_general`] writes gives each written field
/// again, when the file name, the lead-in and the stack leniency texts have
/// no white space at their ends and no two slashes in a row, and the preview
/// time is above the lowest `i32` (which reads back as out of range).
pub proof fn lemma_general_read_back(g: GeneralFields)
    requires
        trim(g.audio_file@) == g.audio_file@,
        no_double_slash(g.audio_file@),
        trim(g.audio_lead_in@) == g.audio_lead_in@,
        no_double_slash(g.audio_lead_in@),
        trim(g.stack_leniency@) == g.stack_leniency@,
        no_double_slash(g.stack_leniency@),
        g.preview_time > i32::MIN,
    ensures
        section_of_line(general_lines(g)[0]) == Some(Section::General),
        read_general_lines(general_lines(g).drop_first()) == general_read_back(g),
{
    reveal_strlit("[General]");
    reveal_strlit("General");
    let h = "[General]"@;
    assert(h.subrange(1, h.len() - 1) =~= "General"@);
    assert(section_of_name("General"@) == Some(Section::General));
    assert(section_of_line(h) == Some(Section::General));
    let base = general_base_lines(g);
    lemma_general_base_reads(g);
    let one = flag_text(true);
    lemma_flag_text_plain(true);
    lemma_flag_text(true);
    let warned = if g.epilepsy_warning {
        lemma_general_line_parts(GeneralKey::EpilepsyWarning, one);
        lemma_read_general_push(base, general_line(GeneralKey::EpilepsyWarning, one));
        base.push(general_line(GeneralKey::EpilepsyWarning, one))
    } else {
        base
    };
    let offset = if g.countdown_offset > 0 {
        let t = int_text(g.countdown_offset as int);
        lemma_int_text_plain(g.countdown_offset);
        lemma_parse_num_text(g.countdown_offset);
        lemma_general_line_parts(GeneralKey::CountdownOffset, t);
        lemma_read_general_push(warned, general_line(GeneralKey::CountdownOffset, t));
        warned.push(general_line(GeneralKey::CountdownOffset, t))
    } else {
        warned
    };
    let styled = if g.mode == GameMode::Mania {
        let t = flag_text(g.special_style);
        lemma_flag_text_plain(g.special_style);
        lemma_flag_text(g.special_style);
        lemma_general_line_parts(GeneralKey::SpecialStyle, t);
        lemma_read_general_push(offset, general_line(GeneralKey::SpecialStyle, t));
        offset.push(general_line(GeneralKey::SpecialStyle, t))
    } else {
        offset
    };
    let wide_text = flag_text(g.widescreen_storyboard);
    lemma_flag_text_plain(g.widescreen_storyboard);
    lemma_flag_text(g.widescreen_storyboard);
    lemma_general_line_parts(GeneralKey::WidescreenStoryboard, wide_text);
    lemma_read_general_push(styled, general_line(GeneralKey::WidescreenStoryboard, wide_text));
    let wide = styled.push(general_line(GeneralKey::WidescreenStoryboard, wide_text));
    if g.samples_match_playback_rate {
        lemma_general_line_parts(GeneralKey::SamplesMatchPlaybackRate, one);
        lemma_read_general_push(wide, general_line(GeneralKey::SamplesMatchPlaybackRate, one));
    }
    assert(read_general_lines(general_lines(g).drop_first()) =~= general_read_back(g));
}

/// What the `[Editor]` section of a written file holds. Distance spacing and
/// timeline zoom are floats: they are given by their text.
pub struct EditorFields {
    pub bookmarks: Vec<i32>,
    pub distance_spacing: String,
    pub beat_divisor: i32,
    pub grid_size: i32,
    pub timeline_zoom: String,
}

/// The line `key: value` of an `[Editor]` key.
pub open spec fn editor_line(key: EditorKey, value: Seq<char>) -> Seq<char> {
    kv_line(editor_key_name(key), value)
}

/// The header of the `[Editor]` section, and the bookmarks line when there
/// are bookmarks.
pub open spec fn editor_head_lines(bookmarks: Seq<i32>) -> Seq<Seq<char>> {
    if bookmarks.len() == 0 {
        seq!["[Editor]"@]
    } else {
        seq!["[Editor]"@, bookmarks_line(bookmarks)]
    }
}

/// The lines that [`encode_editor`] writes: the header, the bookmarks when
/// there are any, then distance spacing, beat divisor, grid size and
/// timeline zoom.
pub open spec fn editor_lines(e: EditorFields) -> Seq<Seq<char>> {
    editor_head_lines(e.bookmarks@) + seq![
        editor_line(EditorKey::DistanceSpacing, e.distance_spacing@),
        editor_line(EditorKey::BeatDivisor, int_text(e.beat_divisor as int)),
        editor_line(EditorKey::GridSize, int_text(e.grid_size as int)),
        editor_line(EditorKey::TimelineZoom, e.timeline_zoom@),
    ]
}

/// Append the `[Editor]` section of `e`.
pub fn encode_editor(e: &EditorFields, out: &mut String)
    ensures
        final(out)@ == old(out)@ + lines_text(editor_lines(*e)),
{
    let ghost start = old(out)@;
    push_str(out, "[Editor]");
    push_char(out, '\n');
    proof {
        lemma_lines_text_empty();
        lemma_lines_text_push(Seq::empty(), "[Editor]"@);
        assert(Seq::<Seq<char>>::empty().push("[Editor]"@) =~= seq!["[Editor]"@]);
        assert(out@ =~= start + lines_text(seq!["[Editor]"@]));
    }
    encode_bookmarks(&e.bookmarks, out);
    proof {
        if e.bookmarks@.len() > 0 {
            lemma_lines_text_push(seq!["[Editor]"@], bookmarks_line(e.bookmarks@));
            assert(seq!["[Editor]"@].push(bookmarks_line(e.bookmarks@)) =~= editor_head_lines(
                e.bookmarks@,
            ));
        }
        assert(out@ =~= start + lines_text(editor_head_lines(e.bookmarks@)));
    }
    let l: Ghost<Seq<Seq<char>>> = Ghost(editor_head_lines(e.bookmarks@));
    let l = write_kv_line(
        out,
        Ghost(start),
        l,
        EditorKey::DistanceSpacing.as_str(),
        e.distance_spacing.as_str(),
        false,
    );
    let l = write_kv_chars(
        out,
        Ghost(start),
        l,
        EditorKey::BeatDivisor.as_str(),
        &int_to_chars(e.beat_divisor as i64),
    );
    let l = write_kv_chars(
        out,
        Ghost(start),
        l,
        EditorKey::GridSize.as_str(),
        &int_to_chars(e.grid_size as i64),
    );
    let l = write_kv_line(
        out,
        Ghost(start),
        l,
        EditorKey::TimelineZoom.as_str(),
        e.timeline_zoom.as_str(),
        false,
    );
    assert(l@ =~= editor_lines(*e));
}

/// What reading each of `lines` as a line of the `[Editor]` section gives.
pub open spec fn read_editor_lines(lines: Seq<Seq<char>>) -> Seq<
    Result<Option<EditorSettingView>, ParseEditorError>,
> {
    lines.map_values(|l: Seq<char>| spec_editor_line(l))
}

/// An editor setting that reading a line gives.
pub open spec fn read_editor_setting(s: EditorSettingView) -> Result<
    Option<EditorSettingView>,
    ParseEditorError,
> {
    Ok(Some(s))
}

/// What reading back each line that [`encode_editor`] writes behind its
/// header gives: the bookmarks when there are any, then each other field.
pub open spec fn editor_read_back(e: EditorFields) -> Seq<
    Result<Option<EditorSettingView>, ParseEditorError>,
> {
    let marks = if e.bookmarks@.len() == 0 {
        Seq::empty()
    } else {
        seq![read_editor_setting(EditorSettingView::Bookmarks(e.bookmarks@))]
    };
    marks + seq![
        read_editor_setting(EditorSettingView::DistanceSpacing(e.distance_spacing@)),
        read_editor_setting(EditorSettingView::BeatDivisor(e.beat_divisor)),
        read_editor_setting(EditorSettingView::GridSize(e.grid_size)),
        read_editor_setting(EditorSettingView::TimelineZoom(e.timeline_zoom@)),
    ]
}

/// A written `[Editor]` line reads back as what its value sets.
proof fn lemma_editor_line_parts(key: EditorKey, value: Seq<char>)
    requires
        trim(value) == value,
        no_double_slash(value),
    ensures
        spec_editor_line(editor_line(key, value)) == spec_editor_value(key, value),
{
    let name = editor_key_name(key);
    let line = editor_line(key, value);
    let n = name.len() as int;
    lemma_editor_key_name(key);
    lemma_kv_line(name, value);
    assert(no_double_slash(line)) by {
        assert forall|i: int| 0 <= i < line.len() - 1 implies !(#[trigger] line[i] == '/' && line[i
            + 1] == '/') by {
            if i < n {
                assert(line[i] == name[i]);
            } else if i == n || i == n + 1 {
            } else {
                assert(line[i] == value[i - n - 2]);
                assert(line[i + 1] == value[i - n - 1]);
            }
        }
    }
    lemma_no_comment_pairs(line, 0);
}

/// Reading back what [`encode_editor`] writes gives each written field again,
/// when the distance spacing and timeline zoom texts have no white space at
/// their ends and no two slashes in a row, and beat divisor and grid size are
/// above the lowest `i32` (which reads back as out of range).
pub proof fn lemma_editor_read_back(e: EditorFields)
    requires
        trim(e.distance_spacing@) == e.distance_spacing@,
        no_double_slash(e.distance_spacing@),
        trim(e.timeline_zoom@) == e.timeline_zoom@,
        no_double_slash(e.timeline_zoom@),
        e.beat_divisor > i32::MIN,
        e.grid_size > i32::MIN,
    ensures
        section_of_line(editor_lines(e)[0]) == Some(Section::Editor),
        read_editor_lines(editor_lines(e).drop_first()) == editor_read_back(e),
{
    reveal_strlit("[Editor]");
    reveal_strlit("Editor");
    reveal_strlit("General");
    assert("Editor"@.len() != "General"@.len());
    let h = "[Editor]"@;
    assert(h.subrange(1, h.len() - 1) =~= "Editor"@);
    assert(section_of_name("Editor"@) == Some(Section::Editor));
    assert(section_of_line(h) == Some(Section::Editor));
    let b = e.bookmarks@;
    let spacing = e.distance_spacing@;
    let divisor = int_text(e.beat_divisor as int);
    let grid = int_text(e.grid_size as int);
    let zoom = e.timeline_zoom@;
    lemma_int_text_plain(e.beat_divisor);
    lemma_parse_num_text(e.beat_divisor);
    lemma_int_text_plain(e.grid_size);
    lemma_parse_num_text(e.grid_size);
    lemma_editor_line_parts(EditorKey::DistanceSpacing, spacing);
    lemma_editor_line_parts(EditorKey::BeatDivisor, divisor);
    lemma_editor_line_parts(EditorKey::GridSize, grid);
    lemma_editor_line_parts(EditorKey::TimelineZoom, zoom);
    let tail = seq![
        editor_line(EditorKey::DistanceSpacing, spacing),
        editor_line(EditorKey::BeatDivisor, divisor),
        editor_line(EditorKey::GridSize, grid),
        editor_line(EditorKey::TimelineZoom, zoom),
    ];
    let lines = editor_lines(e);
    let reads = read_editor_lines(lines.drop_first());
    let expected = editor_read_back(e);
    if b.len() == 0 {
        assert(lines.drop_first() =~= tail);
    } else {
        lemma_bookmarks_read_back(b);
        assert(lines.drop_first() =~= seq![bookmarks_line(b)] + tail);
    }
    assert(reads =~= expected);
}

} // verus!
