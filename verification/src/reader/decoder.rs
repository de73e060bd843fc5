//! Splitting raw content into decoded lines.
use vstd::prelude::*;
use vstd::slice::slice_subrange;

use super::encoding::{decode_line, spec_from_bom, DecoderError, Encoding};
use crate::text::{chars_of, trim, trim_bounds};

verus! {

/// The number of bytes up to and including the first `\n` of `s`, or all of
/// `s` when there is none.
pub open spec fn line_len(s: Seq<u8>) -> nat
    decreases s.len(),
{
    if s.len() == 0 {
        0
    } else if s[0] == 10 {
        1
    } else {
        1 + line_len(s.drop_first())
    }
}

/// The number of bytes that the next line of `s` takes: up to and including
/// the first `\n`, plus the byte that completes the `\n` unit in UTF-16LE;
/// `None` when that byte is missing.
pub open spec fn raw_line_len(s: Seq<u8>, encoding: Encoding) -> Option<nat> {
    let k = line_len(s);
    if encoding == Encoding::Utf16LE && k > 0 && s[k - 1] == 10 {
        if k < s.len() {
            Some(k + 1)
        } else {
            None
        }
    } else {
        Some(k)
    }
}

/// The next line of the remaining bytes `s`: `None` at the end, else the
/// trimmed decoded line with the number of bytes it takes, or the error that
/// reading it gives.
pub open spec fn next_line_of(s: Seq<u8>, encoding: Encoding) -> Option<
    Result<(Seq<char>, nat), DecoderError>,
> {
    if s.len() == 0 {
        None
    } else {
        match raw_line_len(s, encoding) {
            None => Some(Err(DecoderError::UnexpectedEof)),
            Some(k) => match decode_line(encoding, s.take(k as int)) {
                Err(e) => Some(Err(e)),
                Ok(line) => Some(Ok((trim(line), k))),
            },
        }
    }
}

/// Where the content of `bytes` starts and how it is encoded. A byte order
/// mark is skipped; one or two bytes alone are skipped as well, for lack of
/// room for a mark.
pub open spec fn content_start(bytes: Seq<u8>) -> (Encoding, nat) {
    if 1 <= bytes.len() <= 2 {
        (Encoding::Utf8, bytes.len())
    } else {
        spec_from_bom(bytes)
    }
}

pub proof fn lemma_line_len(s: Seq<u8>)
    ensures
        line_len(s) <= s.len(),
        s.len() > 0 ==> line_len(s) >= 1,
        forall|i: int| 0 <= i < line_len(s) - 1 ==> s[i] != 10,
        line_len(s) > 0 && line_len(s) < s.len() ==> s[line_len(s) - 1] == 10,
        line_len(s) == s.len() && s.len() > 0 && s[s.len() - 1] == 10 ==> true,
    decreases s.len(),
{
    if s.len() > 0 && s[0] != 10 {
        lemma_line_len(s.drop_first());
        assert forall|i: int| 0 <= i < line_len(s) - 1 implies s[i] != 10 by {
            if i > 0 {
                assert(s[i] == s.drop_first()[i - 1]);
            }
        }
        if line_len(s) < s.len() {
            assert(s[line_len(s) - 1] == s.drop_first()[line_len(s.drop_first()) - 1]);
        }
    }
}

/// Reads the lines of raw content.
pub struct Decoder<'a> {
    bytes: &'a [u8],
    pos: usize,
    encoding: Encoding,
}

impl<'a> Decoder<'a> {
    /// The bytes that are still to be read.
    pub closed spec fn rest(&self) -> Seq<u8> {
        self.bytes@.skip(self.pos as int)
    }

    /// The encoding of the content.
    pub closed spec fn spec_encoding(&self) -> Encoding {
        self.encoding
    }

    pub closed spec fn wf(&self) -> bool {
        self.pos <= self.bytes@.len()
    }

    /// Start reading `bytes`, skipping its byte order mark.
    pub fn new(bytes: &'a [u8]) -> (r: Self)
        ensures
            r.wf(),
            r.spec_encoding() == content_start(bytes@).0,
            r.rest() == bytes@.skip(content_start(bytes@).1 as int),
    {
        let len = bytes.len();
        if 1 <= len && len <= 2 {
            return Self { bytes, pos: len, encoding: Encoding::Utf8 };
        }
        let (encoding, consumed) = Encoding::from_bom(bytes);
        Self { bytes, pos: consumed, encoding }
    }

    /// The encoding of the content.
    pub fn encoding(&self) -> (r: Encoding)
        ensures
            r == self.spec_encoding(),
    {
        self.encoding
    }

    /// Read the next line, decoded and trimmed.
    pub fn read_line(&mut self) -> (r: Result<Option<String>, DecoderError>)
        requires
            old(self).wf(),
        ensures
            final(self).wf(),
            final(self).spec_encoding() == old(self).spec_encoding(),
            match (r, next_line_of(old(self).rest(), old(self).spec_encoding())) {
                (Ok(None), None) => final(self).rest() == old(self).rest(),
                (Ok(Some(line)), Some(Ok((l, k)))) => line@ == l && final(self).rest() == old(
                    self,
                ).rest().skip(k as int),
                (Err(a), Some(Err(b))) => a == b,
                _ => false,
            },
    {
        let ghost s = self.rest();
        let len = self.bytes.len();
        let start = self.pos;
        if start >= len {
            proof {
                assert(s.len() == 0);
            }
            return Ok(None);
        }
        proof {
            lemma_line_len(s);
        }
        let mut end = start;
        while end < len && self.bytes[end] != 10
            invariant
                start <= end <= len,
                len == self.bytes@.len(),
                s == self.bytes@.skip(start as int),
                forall|k: int| start <= k < end ==> self.bytes@[k] != 10,
            decreases len - end,
        {
            end = end + 1;
        }
        if end < len {
            end = end + 1;
        }
        proof {
            let k = line_len(s);
            // the scan stops exactly where `line_len` does
            assert(end - start == k) by {
                if (end - start) < k {
                    assert(s[end - start - 1] == self.bytes@[end - 1]);
                    if end - start >= 1 && end <= len && self.bytes@[end - 1] == 10 {
                        assert(s[end - start - 1] == 10);
                    }
                } else if (end - start) > k {
                    assert(s[k - 1] == self.bytes@[start + k - 1]);
                }
            }
        }
        let little = match self.encoding {
            Encoding::Utf16LE => true,
            _ => false,
        };
        if little && self.bytes[end - 1] == 10 {
            if end >= len {
                proof {
                    assert(s[line_len(s) - 1] == self.bytes@[end - 1]);
                }
                return Err(DecoderError::UnexpectedEof);
            }
            end = end + 1;
            proof {
                assert(s[line_len(s) - 1] == self.bytes@[end - 2]);
            }
        } else {
            proof {
                if little && line_len(s) > 0 {
                    assert(s[line_len(s) - 1] == self.bytes@[end - 1]);
                }
            }
        }
        let raw = slice_subrange(self.bytes, start, end);
        proof {
            assert(raw@ =~= s.take((end - start) as int));
        }
        let res = self.encoding.decode(raw);
        match res {
            Ok(line) => {
                self.pos = end;
                let v = chars_of(line.as_str());
                let (a, b) = trim_bounds(&v, 0, v.len());
                proof {
                    assert(v@.subrange(0, v@.len() as int) =~= v@);
                    assert(self.bytes@.skip(end as int) =~= s.skip((end - start) as int));
                }
                let trimmed = line.as_str().substring_char(a, b).to_owned();
                Ok(Some(trimmed))
            },
            Err(e) => Err(e),
        }
    }
}

} // verus!
