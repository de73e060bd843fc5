//! The text encodings of a `.osu` file and the decoding of one line.
use vstd::prelude::*;
use vstd::utf8::{decode_utf8, valid_utf8};

use super::u16_iter::{be_unit, le_unit, U16BeIterator, U16LeIterator};

verus! {

/// The encoding of a `.osu` file, told by its byte order mark.
#[derive(Copy, Clone, Debug, PartialEq, Eq, Structural)]
pub enum Encoding {
    Utf8,
    Utf16LE,
    Utf16BE,
}

/// All the ways that decoding a line can fail.
#[derive(Copy, Clone, Debug, PartialEq, Eq, Structural)]
pub enum DecoderError {
    /// The line does not fit the encoding (an odd number of bytes in UTF-16).
    IncorrectEncoding,
    /// The input ended within a UTF-16 unit.
    UnexpectedEof,
    /// The line is not valid UTF-8.
    Utf8,
    /// The line holds the given unpaired UTF-16 surrogate.
    Utf16(u16),
}

/// The encoding that a byte order mark at the start of `bytes` tells, and the
/// length of that mark.
pub open spec fn spec_from_bom(bytes: Seq<u8>) -> (Encoding, nat) {
    if bytes.len() >= 3 && bytes[0] == 0xEF && bytes[1] == 0xBB && bytes[2] == 0xBF {
        (Encoding::Utf8, 3)
    } else if bytes.len() >= 2 && bytes[0] == 0xFF && bytes[1] == 0xFE {
        (Encoding::Utf16LE, 2)
    } else if bytes.len() >= 2 && bytes[0] == 0xFE && bytes[1] == 0xFF {
        (Encoding::Utf16BE, 2)
    } else {
        (Encoding::Utf8, 0)
    }
}

/// The 16-bit units of `bytes` in the given byte order.
pub open spec fn utf16_units(bytes: Seq<u8>, little_endian: bool) -> Seq<u16> {
    Seq::new(
        bytes.len() / 2,
        |i: int|
            if little_endian {
                le_unit(bytes[2 * i], bytes[2 * i + 1])
            } else {
                be_unit(bytes[2 * i], bytes[2 * i + 1])
            },
    )
}

pub open spec fn is_high_surrogate(u: u16) -> bool {
    0xD800 <= u <= 0xDBFF
}

pub open spec fn is_low_surrogate(u: u16) -> bool {
    0xDC00 <= u <= 0xDFFF
}

/// The scalar that a surrogate pair encodes.
pub open spec fn pair_scalar(hi: u16, lo: u16) -> u32 {
    (0x10000 + (hi - 0xD800) * 0x400 + (lo - 0xDC00)) as u32
}

/// UTF-16 decoding as `char::decode_utf16` documents it: units outside the
/// surrogate range stand for themselves, a high surrogate followed by a low
/// one encodes one character, any other surrogate is an error that names it.
pub open spec fn decode_utf16(units: Seq<u16>) -> Result<Seq<char>, u16>
    decreases units.len(),
{
    if units.len() == 0 {
        Ok(Seq::empty())
    } else {
        let u = units[0];
        if !is_high_surrogate(u) && !is_low_surrogate(u) {
            match decode_utf16(units.drop_first()) {
                Ok(rest) => Ok(seq![(u as u32) as char] + rest),
                Err(e) => Err(e),
            }
        } else if is_high_surrogate(u) && units.len() > 1 && is_low_surrogate(units[1]) {
            match decode_utf16(units.skip(2)) {
                Ok(rest) => Ok(seq![pair_scalar(u, units[1]) as char] + rest),
                Err(e) => Err(e),
            }
        } else {
            Err(u)
        }
    }
}

/// The characters of one line of raw bytes in the given encoding.
pub open spec fn decode_line(encoding: Encoding, raw: Seq<u8>) -> Result<Seq<char>, DecoderError> {
    match encoding {
        Encoding::Utf8 => if valid_utf8(raw) {
            Ok(decode_utf8(raw))
        } else {
            Err(DecoderError::Utf8)
        },
        _ => if raw.len() % 2 != 0 {
            Err(DecoderError::IncorrectEncoding)
        } else {
            match decode_utf16(utf16_units(raw, encoding == Encoding::Utf16LE)) {
                Ok(chars) => Ok(chars),
                Err(u) => Err(DecoderError::Utf16(u)),
            }
        },
    }
}

/// Prepend `acc` to a successful decoding.
pub open spec fn prepend_chars(acc: Seq<char>, r: Result<Seq<char>, u16>) -> Result<Seq<char>, u16> {
    match r {
        Ok(s) => Ok(acc + s),
        Err(e) => Err(e),
    }
}

/// `str::from_utf8`: the text of `bytes` when they are valid UTF-8.
#[verifier::external_body]
fn utf8_str(bytes: &[u8]) -> (r: Option<&str>)
    ensures
        r is Some <==> valid_utf8(bytes@),
        r matches Some(s) ==> s@ == decode_utf8(bytes@),
{
    std::str::from_utf8(bytes).ok()
}

/// `char::from_u32`: the character of a scalar value, if it is one.
#[verifier::external_body]
fn char_from_u32(x: u32) -> (r: Option<char>)
    ensures
        (x <= 0x10FFFF && !(0xD800 <= x <= 0xDFFF)) ==> r == Some(x as char),
        !(x <= 0x10FFFF && !(0xD800 <= x <= 0xDFFF)) ==> r is None,
{
    char::from_u32(x)
}

/// `String::push`: append one character.
#[verifier::external_body]
pub(crate) fn push_char(s: &mut String, c: char)
    ensures
        final(s)@ == old(s)@.push(c),
{
    s.push(c)
}

/// Build a string holding exactly the given characters.
pub fn string_from_chars(v: &Vec<char>) -> (s: String)
    ensures
        s@ == v@,
{
    let mut s = String::new();
    let mut i: usize = 0;
    while i < v.len()
        invariant
            0 <= i <= v.len(),
            s@ == v@.take(i as int),
        decreases v.len() - i,
    {
        push_char(&mut s, v[i]);
        i = i + 1;
        assert(s@ =~= v@.take(i as int));
    }
    assert(v@.take(v.len() as int) =~= v@);
    s
}

/// Decode a sequence of UTF-16 units into characters.
fn decode_units(units: &Vec<u16>) -> (r: Result<Vec<char>, u16>)
    ensures
        match (r, decode_utf16(units@)) {
            (Ok(v), Ok(s)) => v@ == s,
            (Err(a), Err(b)) => a == b,
            _ => false,
        },
{
    let mut out: Vec<char> = Vec::new();
    let mut i: usize = 0;
    proof {
        assert(units@.skip(0) =~= units@);
        match decode_utf16(units@) {
            Ok(t) => {
                assert(out@ + t =~= t);
            },
            Err(_) => {},
        }
    }
    while i < units.len()
        invariant
            0 <= i <= units.len(),
            decode_utf16(units@) == prepend_chars(out@, decode_utf16(units@.skip(i as int))),
        decreases units.len() - i,
    {
        let u = units[i];
        let ghost rest = units@.skip(i as int);
        if u < 0xD800 || u > 0xDFFF {
            let c = char_from_u32(u as u32);
            let c = match c {
                Some(c) => c,
                None => {
                    return Err(u);
                },
            };
            let ghost old_out = out@;
            proof {
                assert(rest.drop_first() =~= units@.skip(i + 1));
                assert(rest[0] == u);
                assert(decode_utf16(rest) == prepend_chars(
                    seq![c],
                    decode_utf16(units@.skip(i + 1)),
                ));
            }
            out.push(c);
            i = i + 1;
            proof {
                let tail = decode_utf16(units@.skip(i as int));
                match tail {
                    Ok(t) => {
                        assert(out@ + t =~= old_out + (seq![c] + t));
                    },
                    Err(_) => {},
                }
            }
        } else if u <= 0xDBFF && i + 1 < units.len() && units[i + 1] >= 0xDC00 && units[i + 1]
            <= 0xDFFF {
            let lo = units[i + 1];
            let x: u32 = 0x10000 + ((u - 0xD800) as u32) * 0x400 + ((lo - 0xDC00) as u32);
            let c = match char_from_u32(x) {
                Some(c) => c,
                None => {
                    return Err(u);
                },
            };
            let ghost old_out = out@;
            proof {
                assert(rest.skip(2) =~= units@.skip(i + 2));
                assert(rest[0] == u);
                assert(rest[1] == lo);
                assert(x == pair_scalar(u, lo));
                assert(decode_utf16(rest) == prepend_chars(
                    seq![c],
                    decode_utf16(units@.skip(i + 2)),
                ));
            }
            out.push(c);
            i = i + 2;
            proof {
                let tail = decode_utf16(units@.skip(i as int));
                match tail {
                    Ok(t) => {
                        assert(out@ + t =~= old_out + (seq![c] + t));
                    },
                    Err(_) => {},
                }
            }
        } else {
            proof {
                assert(rest[0] == u);
                if i + 1 < units.len() {
                    assert(rest[1] == units@[i + 1]);
                }
            }
            return Err(u);
        }
    }
    proof {
        assert(units@.skip(i as int) =~= Seq::<u16>::empty());
        assert(out@ + Seq::<char>::empty() =~= out@);
    }
    Ok(out)
}

impl Encoding {
    /// The encoding that the byte order mark at the start of `bytes` tells,
    /// and the number of bytes of the mark.
    pub fn from_bom(bytes: &[u8]) -> (r: (Self, usize))
        ensures
            (r.0, r.1 as nat) == spec_from_bom(bytes@),
    {
        let n = bytes.len();
        if n >= 3 && bytes[0] == 0xEF && bytes[1] == 0xBB && bytes[2] == 0xBF {
            (Encoding::Utf8, 3)
        } else if n >= 2 && bytes[0] == 0xFF && bytes[1] == 0xFE {
            (Encoding::Utf16LE, 2)
        } else if n >= 2 && bytes[0] == 0xFE && bytes[1] == 0xFF {
            (Encoding::Utf16BE, 2)
        } else {
            (Encoding::Utf8, 0)
        }
    }

    /// Decode one line of raw bytes.
    pub fn decode(self, raw: &[u8]) -> (r: Result<String, DecoderError>)
        ensures
            match (r, decode_line(self, raw@)) {
                (Ok(s), Ok(t)) => s@ == t,
                (Err(a), Err(b)) => a == b,
                _ => false,
            },
    {
        match self {
            Encoding::Utf8 => match utf8_str(raw) {
                Some(s) => Ok(s.to_owned()),
                None => Err(DecoderError::Utf8),
            },
            _ => {
                if raw.len() % 2 != 0 {
                    return Err(DecoderError::IncorrectEncoding);
                }
                let little = match self {
                    Encoding::Utf16LE => true,
                    _ => false,
                };
                let units = collect_units(raw, little);
                match decode_units(&units) {
                    Ok(chars) => Ok(string_from_chars(&chars)),
                    Err(u) => Err(DecoderError::Utf16(u)),
                }
            },
        }
    }
}

/// All 16-bit units of `raw` in the given byte order.
fn collect_units(raw: &[u8], little: bool) -> (r: Vec<u16>)
    ensures
        r@ == utf16_units(raw@, little),
{
    let mut out: Vec<u16> = Vec::new();
    if little {
        let ghost target = utf16_units(raw@, true);
        let mut it = U16LeIterator::new(raw);
        while it.size_hint().0 > 0
            invariant
                target == utf16_units(raw@, true),
                out@.len() * 2 + it.remaining().len() == raw@.len(),
                target.len() == raw@.len() / 2,
                it.remaining() == raw@.skip(out@.len() * 2 as int),
                forall|k: int| 0 <= k < out@.len() ==> out@[k] == target[k],
            decreases it.remaining().len(),
        {
            let ghost before = it.remaining();
            let ghost n: int = out@.len() as int;
            match it.next() {
                Some(u) => {
                    proof {
                        assert(before[0] == raw@[2 * n]);
                        assert(before[1] == raw@[2 * n + 1]);
                        assert(before.skip(2) =~= raw@.skip((n + 1) * 2));
                        assert(n < raw@.len() / 2);
                        assert(target[n] == le_unit(raw@[2 * n], raw@[2 * n + 1]));
                    }
                    out.push(u);
                },
                None => {},
            }
        }
        assert(out@ =~= target);
    } else {
        let ghost target = utf16_units(raw@, false);
        let mut it = U16BeIterator::new(raw);
        while it.size_hint().0 > 0
            invariant
                target == utf16_units(raw@, false),
                out@.len() * 2 + it.remaining().len() == raw@.len(),
                target.len() == raw@.len() / 2,
                it.remaining() == raw@.skip(out@.len() * 2 as int),
                forall|k: int| 0 <= k < out@.len() ==> out@[k] == target[k],
            decreases it.remaining().len(),
        {
            let ghost before = it.remaining();
            let ghost n: int = out@.len() as int;
            match it.next() {
                Some(u) => {
                    proof {
                        assert(before[0] == raw@[2 * n]);
                        assert(before[1] == raw@[2 * n + 1]);
                        assert(before.skip(2) =~= raw@.skip((n + 1) * 2));
                        assert(n < raw@.len() / 2);
                        assert(target[n] == be_unit(raw@[2 * n], raw@[2 * n + 1]));
                    }
                    out.push(u);
                },
                None => {},
            }
        }
        assert(out@ =~= target);
    }
    out
}

} // verus!
