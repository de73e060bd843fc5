//! Reading the lines of a `.osu` file.
use vstd::prelude::*;

pub mod decoder;
pub mod encoding;
pub mod u16_iter;

use self::decoder::{content_start, lemma_line_len, line_len, next_line_of, raw_line_len, Decoder};
use self::encoding::{DecoderError, Encoding};
use crate::text::{has_prefix, lemma_trim_idempotent, starts_with_str, trim};

verus! {

/// Whether a decoded and trimmed line is passed over: empty lines, comment
/// lines (`//`) and lines that start with a space or an underscore.
pub open spec fn is_skipped(line: Seq<char>) -> bool {
    line.len() == 0 || has_prefix(line, "//"@) || line[0] == ' ' || line[0] == '_'
}

/// Prepend one line to a successful result.
pub open spec fn prepend_line(line: Seq<char>, r: Result<Seq<Seq<char>>, DecoderError>) -> Result<
    Seq<Seq<char>>,
    DecoderError,
> {
    match r {
        Ok(rest) => Ok(seq![line] + rest),
        Err(e) => Err(e),
    }
}

/// The lines of the remaining bytes `s` that reach the section parsers, in
/// order, or the first error that decoding them gives.
pub open spec fn content_lines(s: Seq<u8>, encoding: Encoding) -> Result<
    Seq<Seq<char>>,
    DecoderError,
>
    decreases s.len(),
{
    match next_line_of(s, encoding) {
        None => Ok(Seq::empty()),
        Some(Err(e)) => Err(e),
        Some(Ok((line, k))) => {
            proof {
                lemma_line_len(s);
            }
            if 0 < k <= s.len() {
                let rest = content_lines(s.skip(k as int), encoding);
                if is_skipped(line) {
                    rest
                } else {
                    prepend_line(line, rest)
                }
            } else {
                Ok(Seq::empty())
            }
        },
    }
}

/// All content lines of a whole file.
pub open spec fn file_lines(bytes: Seq<u8>) -> Result<Seq<Seq<char>>, DecoderError> {
    content_lines(bytes.skip(content_start(bytes).1 as int), content_start(bytes).0)
}

/// Whether a line can reach a section parser: trimmed, and not passed over
/// (so not empty and no comment line).
pub open spec fn is_content_line(line: Seq<char>) -> bool {
    trim(line) == line && !is_skipped(line)
}

/// Each content line is trimmed, not empty and no comment line.
pub proof fn lemma_content_lines(s: Seq<u8>, encoding: Encoding)
    ensures
        content_lines(s, encoding) matches Ok(lines) ==> forall|i: int|
            0 <= i < lines.len() ==> is_content_line(#[trigger] lines[i]),
    decreases s.len(),
{
    match next_line_of(s, encoding) {
        Some(Ok((line, k))) => {
            lemma_line_len(s);
            if 0 < k <= s.len() {
                lemma_content_lines(s.skip(k as int), encoding);
                match raw_line_len(s, encoding) {
                    Some(n) => match self::encoding::decode_line(
                        encoding,
                        s.take(n as int),
                    ) {
                        Ok(raw) => lemma_trim_idempotent(raw),
                        Err(_) => {},
                    },
                    None => {},
                }
                match content_lines(s.skip(k as int), encoding) {
                    Ok(rest) => {
                        if !is_skipped(line) {
                            let all = seq![line] + rest;
                            assert forall|i: int| 0 <= i < all.len() implies is_content_line(
                                #[trigger] all[i],
                            ) by {
                                if i > 0 {
                                    assert(all[i] == rest[i - 1]);
                                }
                            }
                        }
                    },
                    Err(_) => {},
                }
            }
        },
        _ => {},
    }
}

proof fn lemma_step_len(s: Seq<u8>, encoding: Encoding)
    requires
        next_line_of(s, encoding) matches Some(Ok((l, k))),
    ensures
        next_line_of(s, encoding) matches Some(Ok((l, k))) && 0 < k <= s.len(),
{
    lemma_line_len(s);
}

/// Reads the lines of a `.osu` file that matter to its sections.
pub struct Reader<'a> {
    decoder: Decoder<'a>,
    curr: String,
}

impl<'a> Reader<'a> {
    pub closed spec fn wf(&self) -> bool {
        self.decoder.wf()
    }

    /// The content lines that are still to be read.
    pub closed spec fn pending(&self) -> Result<Seq<Seq<char>>, DecoderError> {
        content_lines(self.decoder.rest(), self.decoder.spec_encoding())
    }

    /// The number of bytes that are still to be read.
    pub closed spec fn remaining_len(&self) -> nat {
        self.decoder.rest().len()
    }

    /// The line that was read last.
    pub closed spec fn spec_curr(&self) -> Seq<char> {
        self.curr@
    }

    /// Start reading the content of a file.
    pub fn new(bytes: &'a [u8]) -> (r: Self)
        ensures
            r.wf(),
            r.pending() == file_lines(bytes@),
            r.spec_curr() == Seq::<char>::empty(),
    {
        Self { decoder: Decoder::new(bytes), curr: String::new() }
    }

    /// The line that was read last.
    pub fn curr_line(&self) -> (r: &str)
        ensures
            r@ == self.spec_curr(),
    {
        self.curr.as_str()
    }

    /// The next line that is not passed over.
    pub fn next_line(&mut self) -> (r: Result<Option<String>, DecoderError>)
        requires
            old(self).wf(),
        ensures
            final(self).wf(),
            match r {
                Ok(None) => old(self).pending() == Ok::<Seq<Seq<char>>, DecoderError>(Seq::empty())
                    && final(self).pending() == Ok::<Seq<Seq<char>>, DecoderError>(Seq::empty()),
                Ok(Some(line)) => {
                    &&& old(self).pending() == prepend_line(line@, final(self).pending())
                    &&& !is_skipped(line@)
                    &&& final(self).spec_curr() == line@
                    &&& final(self).remaining_len() < old(self).remaining_len()
                },
                Err(e) => old(self).pending() == Err::<Seq<Seq<char>>, DecoderError>(e),
            },
    {
        let ghost start = self.pending();
        loop
            invariant
                self.wf(),
                start == self.pending(),
                start == old(self).pending(),
                self.remaining_len() <= old(self).remaining_len(),
            decreases self.remaining_len(),
        {
            let ghost s = self.decoder.rest();
            let ghost enc = self.decoder.spec_encoding();
            match self.decoder.read_line() {
                Ok(None) => {
                    return Ok(None);
                },
                Err(e) => {
                    return Err(e);
                },
                Ok(Some(line)) => {
                    proof {
                        lemma_step_len(s, enc);
                    }
                    let skip = line.as_str().is_empty() || starts_with_str(line.as_str(), "//")
                        || starts_with_first(&line, ' ') || starts_with_first(&line, '_');
                    if !skip {
                        self.curr = line.clone();
                        return Ok(Some(line));
                    }
                },
            }
        }
    }
}

/// Whether the first character of `s` is `c`.
fn starts_with_first(s: &String, c: char) -> (r: bool)
    ensures
        r == (s@.len() > 0 && s@[0] == c),
{
    let v = crate::text::chars_of(s.as_str());
    v.len() > 0 && v[0] == c
}

} // verus!
