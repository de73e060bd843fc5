//! Types for the `[Events]` section.
use std::str::FromStr;

use vstd::prelude::*;
use vstd::string::StringSliceAdditionalSpecFns;
use vstd::utf8::encode_utf8;

use crate::encode::{lemma_collapse_plain, lemma_no_comment_pairs, no_double_slash};
use crate::number::ParseNumberError;
use crate::text::{
    chars_of, clean_filename, clean_filename_str, collapse_backslashes, lacks, lemma_split_join,
    lemma_split_single, split_by, split_ranges, standardized_path, str_eq, trim_comment,
    trim_comment_str, trim_quotes,
};

verus! {

/// The type of an event.
#[derive(Copy, Clone, Debug, PartialEq, Eq, Structural)]
pub enum EventType {
    Background,
    Video,
    Break,
    Color,
    Sprite,
    Sample,
    Animation,
}

/// Error when failing to parse an [`EventType`].
#[derive(Copy, Clone, Debug, PartialEq, Eq, Structural)]
pub struct ParseEventTypeError;

/// The event type that a number or a name stands for.
pub open spec fn spec_event_type(s: Seq<char>) -> Option<EventType> {
    if s == "0"@ || s == "Background"@ {
        Some(EventType::Background)
    } else if s == "1"@ || s == "Video"@ {
        Some(EventType::Video)
    } else if s == "2"@ || s == "Break"@ {
        Some(EventType::Break)
    } else if s == "3"@ || s == "Colour"@ {
        Some(EventType::Color)
    } else if s == "4"@ || s == "Sprite"@ {
        Some(EventType::Sprite)
    } else if s == "5"@ || s == "Sample"@ {
        Some(EventType::Sample)
    } else if s == "6"@ || s == "Animation"@ {
        Some(EventType::Animation)
    } else {
        None
    }
}

impl EventType {
    /// Parse an event type from its number or its name.
    pub fn from_name(s: &str) -> (r: Result<Self, ParseEventTypeError>)
        ensures
            match spec_event_type(s@) {
                Some(t) => r == Ok::<Self, ParseEventTypeError>(t),
                None => r is Err,
            },
    {
        if str_eq(s, "0") || str_eq(s, "Background") {
            Ok(Self::Background)
        } else if str_eq(s, "1") || str_eq(s, "Video") {
            Ok(Self::Video)
        } else if str_eq(s, "2") || str_eq(s, "Break") {
            Ok(Self::Break)
        } else if str_eq(s, "3") || str_eq(s, "Colour") {
            Ok(Self::Color)
        } else if str_eq(s, "4") || str_eq(s, "Sprite") {
            Ok(Self::Sprite)
        } else if str_eq(s, "5") || str_eq(s, "Sample") {
            Ok(Self::Sample)
        } else if str_eq(s, "6") || str_eq(s, "Animation") {
            Ok(Self::Animation)
        } else {
            Err(ParseEventTypeError)
        }
    }
}

impl FromStr for EventType {
    type Err = ParseEventTypeError;

    fn from_str(s: &str) -> (r: Result<Self, Self::Err>)
        ensures
            match spec_event_type(s@) {
                Some(t) => r == Ok::<Self, ParseEventTypeError>(t),
                None => r is Err,
            },
    {
        Self::from_name(s)
    }
}

/// All the ways that parsing a line of the `[Events]` section can fail.
#[derive(Copy, Clone, Debug, PartialEq, Eq, Structural)]
pub enum ParseEventsError {
    EventType(ParseEventTypeError),
    InvalidLine,
    Number(ParseNumberError),
}

/// The start and end time of a break, as they stand in the line.
#[derive(Clone, Debug, PartialEq, Eq)]
pub struct BreakTimes {
    pub start_time: String,
    pub end_time: String,
}

/// ASCII lower case of a byte.
pub open spec fn ascii_lower(b: u8) -> u8 {
    if 65 <= b <= 90 {
        (b + 32) as u8
    } else {
        b
    }
}

/// Whether three bytes spell a video extension, ignoring ASCII case.
pub open spec fn is_video_extension(a: u8, b: u8, c: u8) -> bool {
    let e = seq![ascii_lower(a), ascii_lower(b), ascii_lower(c)];
    e == "mp4"@.map_values(|ch: char| ch as u8) || e == "mov"@.map_values(|ch: char| ch as u8)
        || e == "avi"@.map_values(|ch: char| ch as u8) || e == "flv"@.map_values(
        |ch: char| ch as u8,
    ) || e == "mpg"@.map_values(|ch: char| ch as u8) || e == "wmv"@.map_values(
        |ch: char| ch as u8,
    ) || e == "m4v"@.map_values(|ch: char| ch as u8)
}

/// Whether the UTF-8 bytes of a file name end in three bytes that are no
/// video extension.
pub open spec fn is_image_name(f: Seq<char>) -> bool {
    let b = encode_utf8(f);
    b.len() >= 3 && !is_video_extension(b[b.len() - 3], b[b.len() - 2], b[b.len() - 1])
}

/// What a line of the `[Events]` section does to the background file, and
/// what it gives: the two time texts of a break, nothing, or an error. The
/// line (comment removed) needs a type, a start time and a parameter. A
/// background sets the file; a sprite sets it from its fourth part while
/// there is none yet; a video sets it when the name has no video extension.
pub open spec fn spec_event_line(background: Seq<char>, line: Seq<char>) -> (
    Seq<char>,
    Result<Option<(Seq<char>, Seq<char>)>, ParseEventsError>,
) {
    let p = split_by(trim_comment(line), ',');
    if p.len() < 3 {
        (background, Err(ParseEventsError::InvalidLine))
    } else {
        match spec_event_type(p[0]) {
            None => (background, Err(ParseEventsError::EventType(ParseEventTypeError))),
            Some(EventType::Sprite) => if background.len() == 0 {
                if p.len() < 4 {
                    (background, Err(ParseEventsError::InvalidLine))
                } else {
                    (clean_filename(p[3]), Ok(None))
                }
            } else {
                (background, Ok(None))
            },
            Some(EventType::Video) => if is_image_name(clean_filename(p[2])) {
                (clean_filename(p[2]), Ok(None))
            } else {
                (background, Ok(None))
            },
            Some(EventType::Background) => (clean_filename(p[2]), Ok(None)),
            Some(EventType::Break) => (background, Ok(Some((p[1], p[2])))),
            _ => (background, Ok(None)),
        }
    }
}

fn lower(b: u8) -> (r: u8)
    ensures
        r == ascii_lower(b),
{
    if 65 <= b && b <= 90 {
        b + 32
    } else {
        b
    }
}

fn video_extension(a: u8, b: u8, c: u8) -> (r: bool)
    ensures
        r == is_video_extension(a, b, c),
{
    let (x, y, z) = (lower(a), lower(b), lower(c));
    let ghost e = seq![x, y, z];
    proof {
        reveal_strlit("mp4");
        reveal_strlit("mov");
        reveal_strlit("avi");
        reveal_strlit("flv");
        reveal_strlit("mpg");
        reveal_strlit("wmv");
        reveal_strlit("m4v");
        assert("mp4"@.map_values(|ch: char| ch as u8) =~= seq![109u8, 112u8, 52u8]);
        assert("mov"@.map_values(|ch: char| ch as u8) =~= seq![109u8, 111u8, 118u8]);
        assert("avi"@.map_values(|ch: char| ch as u8) =~= seq![97u8, 118u8, 105u8]);
        assert("flv"@.map_values(|ch: char| ch as u8) =~= seq![102u8, 108u8, 118u8]);
        assert("mpg"@.map_values(|ch: char| ch as u8) =~= seq![109u8, 112u8, 103u8]);
        assert("wmv"@.map_values(|ch: char| ch as u8) =~= seq![119u8, 109u8, 118u8]);
        assert("m4v"@.map_values(|ch: char| ch as u8) =~= seq![109u8, 52u8, 118u8]);
        assert(e == seq![ascii_lower(a), ascii_lower(b), ascii_lower(c)]);
        if x == 109 && y == 112 && z == 52 {
            assert(e =~= seq![109u8, 112u8, 52u8]);
        }
        if x == 109 && y == 111 && z == 118 {
            assert(e =~= seq![109u8, 111u8, 118u8]);
        }
        if x == 97 && y == 118 && z == 105 {
            assert(e =~= seq![97u8, 118u8, 105u8]);
        }
        if x == 102 && y == 108 && z == 118 {
            assert(e =~= seq![102u8, 108u8, 118u8]);
        }
        if x == 109 && y == 112 && z == 103 {
            assert(e =~= seq![109u8, 112u8, 103u8]);
        }
        if x == 119 && y == 109 && z == 118 {
            assert(e =~= seq![119u8, 109u8, 118u8]);
        }
        if x == 109 && y == 52 && z == 118 {
            assert(e =~= seq![109u8, 52u8, 118u8]);
        }
    }
    (x == 109 && y == 112 && z == 52) || (x == 109 && y == 111 && z == 118) || (x == 97 && y == 118
        && z == 105) || (x == 102 && y == 108 && z == 118) || (x == 109 && y == 112 && z == 103)
        || (x == 119 && y == 109 && z == 118) || (x == 109 && y == 52 && z == 118)
}

/// Process a line of the `[Events]` section: update the background file and
/// give back the time texts of a break.
pub fn parse_event_line(background_file: &mut String, line: &str) -> (r: Result<
    Option<BreakTimes>,
    ParseEventsError,
>)
    ensures
        ({
            let (bg, res) = spec_event_line(old(background_file)@, line@);
            &&& final(background_file)@ == bg
            &&& match (r, res) {
                (Ok(None), Ok(None)) => true,
                (Ok(Some(t)), Ok(Some((a, b)))) => t.start_time@ == a && t.end_time@ == b,
                (Err(x), Err(y)) => x == y,
                _ => false,
            }
        }),
{
    let text = trim_comment_str(line);
    let v = chars_of(text);
    let parts = split_ranges(&v, ',');
    let ghost p = split_by(v@, ',');
    if parts.len() < 3 {
        return Err(ParseEventsError::InvalidLine);
    }
    let (a0, b0) = parts[0];
    let (a1, b1) = parts[1];
    let (a2, b2) = parts[2];
    proof {
        assert(p[0] == v@.subrange(a0 as int, b0 as int));
        assert(p[1] == v@.subrange(a1 as int, b1 as int));
        assert(p[2] == v@.subrange(a2 as int, b2 as int));
    }
    let event_type = text.substring_char(a0, b0);
    let start_time = text.substring_char(a1, b1);
    let event_params = text.substring_char(a2, b2);
    let kind = match EventType::from_name(event_type) {
        Ok(k) => k,
        Err(e) => {
            return Err(ParseEventsError::EventType(e));
        },
    };
    match kind {
        EventType::Sprite => {
            if background_file.as_str().is_empty() {
                if parts.len() < 4 {
                    return Err(ParseEventsError::InvalidLine);
                }
                let (a3, b3) = parts[3];
                proof {
                    assert(p[3] == v@.subrange(a3 as int, b3 as int));
                }
                *background_file = clean_filename_str(text.substring_char(a3, b3));
            }
            Ok(None)
        },
        EventType::Video => {
            let filename = clean_filename_str(event_params);
            let bytes = filename.as_str().as_bytes();
            let n = bytes.len();
            if n >= 3 && !video_extension(bytes[n - 3], bytes[n - 2], bytes[n - 1]) {
                *background_file = filename;
            }
            Ok(None)
        },
        EventType::Background => {
            *background_file = clean_filename_str(event_params);
            Ok(None)
        },
        EventType::Break => Ok(
            Some(
                BreakTimes { start_time: start_time.to_owned(), end_time: event_params.to_owned() },
            ),
        ),
        _ => Ok(None),
    }
}

/// The code of a character with ASCII capitals made small.
pub open spec fn lower_code(c: char) -> u32 {
    let v = c as u32;
    if 65 <= v <= 90 {
        (v + 32) as u32
    } else {
        v
    }
}

/// The codes of a text's characters.
pub open spec fn codes(s: Seq<char>) -> Seq<u32> {
    s.map_values(|c: char| c as u32)
}

/// The line `Video,<start>,"<stem>.<ext>"<rest>` of a video event.
pub open spec fn video_line(start: Seq<char>, stem: Seq<char>, ext: Seq<char>, rest: Seq<char>) -> Seq<
    char,
> {
    "Video"@ + seq![','] + start + seq![',', '"'] + stem + seq!['.'] + ext + seq!['"'] + rest
}

proof fn lemma_encode_utf8_concat(a: Seq<char>, b: Seq<char>)
    ensures
        encode_utf8(a + b) == encode_utf8(a) + encode_utf8(b),
    decreases a.len(),
{
    if a.len() == 0 {
        assert(a + b =~= b);
        assert(encode_utf8(a) =~= Seq::<u8>::empty());
        assert(encode_utf8(a) + encode_utf8(b) =~= encode_utf8(b));
    } else {
        assert((a + b).drop_first() =~= a.drop_first() + b);
        assert((a + b)[0] == a[0]);
        lemma_encode_utf8_concat(a.drop_first(), b);
        assert(encode_utf8(a + b) =~= encode_utf8(a) + encode_utf8(b));
    }
}

proof fn lemma_ascii_byte(v: u32)
    by (bit_vector)
    requires
        v <= 0x7F,
    ensures
        ((v & 0x7F) as u8) as u32 == v,
{
}

/// An ASCII character is one byte in UTF-8, of its own code.
proof fn lemma_encode_ascii(c: char)
    requires
        (c as u32) <= 0x7F,
    ensures
        encode_utf8(seq![c]).len() == 1,
        encode_utf8(seq![c])[0] as u32 == c as u32,
{
    lemma_ascii_byte(c as u32);
    assert(seq![c].drop_first() =~= Seq::<char>::empty());
    assert(encode_utf8(seq![c].drop_first()) =~= Seq::<u8>::empty());
}

/// A `Video` event whose quoted file name ends in `.` and a video extension,
/// that is `mp4`, `mov`, `avi`, `flv`, `mpg`, `wmv` or `m4v` in any letter
/// case, leaves the background file as it was and gives nothing: a video is
/// no background image. The file name holds no comma, quote or backslash,
/// the line no comment, and what follows the file name is nothing or
/// further comma-separated parts.
pub proof fn lemma_video_keeps_background(
    background: Seq<char>,
    start: Seq<char>,
    stem: Seq<char>,
    ext: Seq<char>,
    rest: Seq<char>,
)
    requires
        lacks(start, ','),
        lacks(stem, ','),
        lacks(stem, '"'),
        lacks(stem, '\\'),
        rest.len() == 0 || rest[0] == ',',
        no_double_slash(video_line(start, stem, ext, rest)),
        ext.len() == 3,
        ({
            let l = ext.map_values(|c: char| lower_code(c));
            ||| l == codes("mp4"@)
            ||| l == codes("mov"@)
            ||| l == codes("avi"@)
            ||| l == codes("flv"@)
            ||| l == codes("mpg"@)
            ||| l == codes("wmv"@)
            ||| l == codes("m4v"@)
        }),
    ensures
        spec_event_line(background, video_line(start, stem, ext, rest)) == (
            background,
            Ok::<Option<(Seq<char>, Seq<char>)>, ParseEventsError>(None),
        ),
{
    reveal_strlit("Video");
    reveal_strlit("1");
    reveal_strlit("mp4");
    reveal_strlit("mov");
    reveal_strlit("avi");
    reveal_strlit("flv");
    reveal_strlit("mpg");
    reveal_strlit("wmv");
    reveal_strlit("m4v");
    reveal_strlit("0");
    reveal_strlit("Background");
    let line = video_line(start, stem, ext, rest);
    lemma_no_comment_pairs(line, 0);
    let file = stem + seq!['.'] + ext;
    let q = seq!['"'] + file + seq!['"'];
    let video = "Video"@;
    assert(line =~= video + seq![','] + (start + seq![','] + (q + rest)));
    assert(lacks(video, ','));
    assert(lacks(q, ',')) by {
        assert forall|k: int| 0 <= k < q.len() implies #[trigger] q[k] != ',' by {
            if 1 <= k < q.len() - 1 {
                assert(q[k] == file[k - 1]);
                if k - 1 < stem.len() {
                    assert(file[k - 1] == stem[k - 1]);
                } else if k - 1 > stem.len() {
                    assert(file[k - 1] == ext[k - 2 - stem.len()]);
                    let l = ext.map_values(|c: char| lower_code(c));
                    assert(l[k - 2 - stem.len()] == lower_code(ext[k - 2 - stem.len()]));
                }
            }
        }
    }
    if rest.len() == 0 {
        assert(q + rest =~= q);
        lemma_split_single(q, ',');
    } else {
        assert(q + rest =~= q + seq![','] + rest.drop_first());
        lemma_split_join(q, rest.drop_first(), ',');
    }
    lemma_split_join(start, q + rest, ',');
    lemma_split_join(video, start + seq![','] + (q + rest), ',');
    let p = split_by(line, ',');
    assert(p[0] == video);
    assert(p[2] == q);
    assert(p.len() >= 3);
    assert(spec_event_type(video) == Some(EventType::Video));
    // the file name as read
    assert(lacks(q, '\\')) by {
        assert forall|k: int| 0 <= k < q.len() implies #[trigger] q[k] != '\\' by {
            if 1 <= k < q.len() - 1 {
                assert(q[k] == file[k - 1]);
                if k - 1 < stem.len() {
                    assert(file[k - 1] == stem[k - 1]);
                } else if k - 1 > stem.len() {
                    assert(file[k - 1] == ext[k - 2 - stem.len()]);
                    let l = ext.map_values(|c: char| lower_code(c));
                    assert(l[k - 2 - stem.len()] == lower_code(ext[k - 2 - stem.len()]));
                }
            }
        }
    }
    lemma_collapse_plain(q);
    assert(q.drop_first() =~= file + seq!['"']);
    assert((file + seq!['"']).drop_last() =~= file);
    let l = ext.map_values(|c: char| lower_code(c));
    assert(l[2] == lower_code(ext[2]));
    assert(file.last() == ext[2]);
    assert(file.last() != '"');
    if stem.len() > 0 {
        assert(file[0] == stem[0]);
    } else {
        assert(file[0] == '.');
    }
    assert(file[0] != '"');
    assert(trim_quotes(file + seq!['"']) == trim_quotes(file));
    assert(trim_quotes(q) == file);
    assert(lacks(file, '\\')) by {
        assert forall|k: int| 0 <= k < file.len() implies #[trigger] file[k] != '\\' by {
            assert(q[k + 1] == file[k]);
        }
    }
    assert(standardized_path(file) =~= file);
    assert(clean_filename(q) == file);
    // its last three bytes are the extension's codes
    assert forall|k: int| 0 <= k < 3 implies (#[trigger] ext[k] as u32) <= 0x7F by {
        assert(l[k] == lower_code(ext[k]));
    }
    let head = stem + seq!['.'];
    assert(file =~= head + seq![ext[0]] + seq![ext[1]] + seq![ext[2]]);
    lemma_encode_ascii(ext[0]);
    lemma_encode_ascii(ext[1]);
    lemma_encode_ascii(ext[2]);
    lemma_encode_utf8_concat(head, seq![ext[0]]);
    lemma_encode_utf8_concat(head + seq![ext[0]], seq![ext[1]]);
    lemma_encode_utf8_concat(head + seq![ext[0]] + seq![ext[1]], seq![ext[2]]);
    let b = encode_utf8(file);
    let n = b.len();
    assert(n >= 3);
    assert(b[n - 3] as u32 == ext[0] as u32);
    assert(b[n - 2] as u32 == ext[1] as u32);
    assert(b[n - 1] as u32 == ext[2] as u32);
    let e = seq![ascii_lower(b[n - 3]), ascii_lower(b[n - 2]), ascii_lower(b[n - 1])];
    assert(e[0] as u32 == l[0]);
    assert(e[1] as u32 == l[1]);
    assert(e[2] as u32 == l[2]);
    assert(is_video_extension(b[n - 3], b[n - 2], b[n - 1])) by {
        if l == codes("mp4"@) {
            assert(e =~= "mp4"@.map_values(|ch: char| ch as u8));
        } else if l == codes("mov"@) {
            assert(e =~= "mov"@.map_values(|ch: char| ch as u8));
        } else if l == codes("avi"@) {
            assert(e =~= "avi"@.map_values(|ch: char| ch as u8));
        } else if l == codes("flv"@) {
            assert(e =~= "flv"@.map_values(|ch: char| ch as u8));
        } else if l == codes("mpg"@) {
            assert(e =~= "mpg"@.map_values(|ch: char| ch as u8));
        } else if l == codes("wmv"@) {
            assert(e =~= "wmv"@.map_values(|ch: char| ch as u8));
        } else {
            assert(e =~= "m4v"@.map_values(|ch: char| ch as u8));
        }
    }
    assert(!is_image_name(file));
}

} // verus!
