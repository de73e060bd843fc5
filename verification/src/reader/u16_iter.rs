//! Iteration over the 16-bit units of UTF-16 encoded bytes.
use vstd::prelude::*;
use vstd::slice::slice_subrange;

verus! {

/// The unit of two bytes in little-endian order.
pub open spec fn le_unit(a: u8, b: u8) -> u16 {
    (a as int + 256 * b as int) as u16
}

/// The unit of two bytes in big-endian order.
pub open spec fn be_unit(a: u8, b: u8) -> u16 {
    (256 * a as int + b as int) as u16
}

/// Iterator over pairs of bytes; a trailing odd byte is never yielded.
pub struct DoubleByteIterator<'a> {
    bytes: &'a [u8],
}

impl<'a> DoubleByteIterator<'a> {
    /// The bytes that are still to be iterated.
    pub closed spec fn remaining(&self) -> Seq<u8> {
        self.bytes@
    }

    /// Iterate over the pairs of `bytes`.
    pub fn new(bytes: &'a [u8]) -> (r: Self)
        ensures
            r.remaining() == bytes@,
    {
        Self { bytes }
    }

    /// The next two bytes, if there are two left.
    pub fn next(&mut self) -> (r: Option<[u8; 2]>)
        ensures
            old(self).remaining().len() >= 2 ==> {
                &&& r matches Some(pair)
                &&& pair@ == seq![old(self).remaining()[0], old(self).remaining()[1]]
                &&& final(self).remaining() == old(self).remaining().skip(2)
            },
            old(self).remaining().len() < 2 ==> r is None && final(self).remaining() == old(
                self,
            ).remaining(),
    {
        if self.bytes.len() < 2 {
            return None;
        }
        let a = self.bytes[0];
        let b = self.bytes[1];
        self.bytes = slice_subrange(self.bytes, 2, self.bytes.len());
        let pair = [a, b];
        assert(pair@ =~= seq![a, b]);
        Some(pair)
    }

    /// The exact number of pairs left, as lower and upper bound.
    pub fn size_hint(&self) -> (r: (usize, Option<usize>))
        ensures
            r.0 == self.remaining().len() / 2,
            r.1 == Some(r.0),
    {
        let len = self.bytes.len() / 2;
        (len, Some(len))
    }
}

/// Iterator over the big-endian 16-bit units of a byte slice.
pub struct U16BeIterator<'a> {
    inner: DoubleByteIterator<'a>,
}

impl<'a> U16BeIterator<'a> {
    /// The bytes that are still to be iterated.
    pub closed spec fn remaining(&self) -> Seq<u8> {
        self.inner.remaining()
    }

    /// Iterate over the big-endian units of `bytes`.
    pub fn new(bytes: &'a [u8]) -> (r: Self)
        ensures
            r.remaining() == bytes@,
    {
        Self { inner: DoubleByteIterator::new(bytes) }
    }

    /// The next unit, if two bytes are left.
    pub fn next(&mut self) -> (r: Option<u16>)
        ensures
            old(self).remaining().len() >= 2 ==> r == Some(
                be_unit(old(self).remaining()[0], old(self).remaining()[1]),
            ) && final(self).remaining() == old(self).remaining().skip(2),
            old(self).remaining().len() < 2 ==> r is None && final(self).remaining() == old(
                self,
            ).remaining(),
    {
        match self.inner.next() {
            Some(pair) => {
                let a = pair[0];
                let b = pair[1];
                Some((a as u16) * 256 + (b as u16))
            },
            None => None,
        }
    }

    /// The exact number of units left, as lower and upper bound.
    pub fn size_hint(&self) -> (r: (usize, Option<usize>))
        ensures
            r.0 == self.remaining().len() / 2,
            r.1 == Some(r.0),
    {
        self.inner.size_hint()
    }
}

/// Iterator over the little-endian 16-bit units of a byte slice.
pub struct U16LeIterator<'a> {
    inner: DoubleByteIterator<'a>,
}

impl<'a> U16LeIterator<'a> {
    /// The bytes that are still to be iterated.
    pub closed spec fn remaining(&self) -> Seq<u8> {
        self.inner.remaining()
    }

    /// Iterate over the little-endian units of `bytes`.
    pub fn new(bytes: &'a [u8]) -> (r: Self)
        ensures
            r.remaining() == bytes@,
    {
        Self { inner: DoubleByteIterator::new(bytes) }
    }

    /// The next unit, if two bytes are left.
    pub fn next(&mut self) -> (r: Option<u16>)
        ensures
            old(self).remaining().len() >= 2 ==> r == Some(
                le_unit(old(self).remaining()[0], old(self).remaining()[1]),
            ) && final(self).remaining() == old(self).remaining().skip(2),
            old(self).remaining().len() < 2 ==> r is None && final(self).remaining() == old(
                self,
            ).remaining(),
    {
        match self.inner.next() {
            Some(pair) => {
                let a = pair[0];
                let b = pair[1];
                Some((a as u16) + (b as u16) * 256)
            },
            None => None,
        }
    }

    /// The exact number of units left, as lower and upper bound.
    pub fn size_hint(&self) -> (r: (usize, Option<usize>))
        ensures
            r.0 == self.remaining().len() / 2,
            r.1 == Some(r.0),
    {
        self.inner.size_hint()
    }
}

} // verus!
