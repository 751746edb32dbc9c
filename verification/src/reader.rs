//! A cursor over the bytes that decoders read from.

use vstd::prelude::*;

verus! {

/// A cursor over a borrowed byte slice.
///
/// Decoders read from the current position and move it forward only when they succeed.
pub struct SliceReader<'a> {
    source: &'a [u8],
    pos: usize,
}

impl<'a> SliceReader<'a> {
    #[verifier::type_invariant]
    spec fn in_bounds(self) -> bool {
        self.pos <= self.source@.len()
    }

    /// All the bytes of the underlying slice, read or not.
    pub closed spec fn bytes(self) -> Seq<u8> {
        self.source@
    }

    /// How many bytes have been read so far.
    pub closed spec fn consumed(self) -> nat {
        self.pos as nat
    }

    /// The bytes that have not been read yet.
    pub open spec fn remaining(self) -> Seq<u8> {
        self.bytes().skip(self.consumed() as int)
    }

    /// Creates a reader positioned at the start of `source`.
    pub fn new(source: &'a [u8]) -> (reader: Self)
        ensures
            reader.bytes() == source@,
            reader.consumed() == 0,
    {
        SliceReader { source, pos: 0 }
    }

    /// Returns the number of bytes read so far.
    pub fn position(&self) -> (pos: usize)
        ensures
            pos == self.consumed(),
            pos <= self.bytes().len(),
    {
        proof {
            use_type_invariant(self);
        }
        self.pos
    }

    /// Returns the number of bytes left to read.
    pub fn remaining_len(&self) -> (len: usize)
        ensures
            len == self.remaining().len(),
            len == self.bytes().len() - self.consumed(),
    {
        proof {
            use_type_invariant(self);
        }
        self.source.len() - self.pos
    }

    /// Returns true if at least one byte is left to read.
    pub fn has_more_bytes(&self) -> (more: bool)
        ensures
            more == (self.remaining().len() > 0),
    {
        proof {
            use_type_invariant(self);
        }
        self.pos < self.source.len()
    }

    /// Returns the byte `offset` places after the current position, without moving.
    pub(crate) fn peek(&self, offset: usize) -> (byte: u8)
        requires
            offset < self.remaining().len(),
        ensures
            byte == self.remaining()[offset as int],
    {
        proof {
            use_type_invariant(self);
            vstd::slice::axiom_spec_len(self.source);
        }
        self.source[self.pos + offset]
    }

    /// Moves the position back to `position`, which was read from this reader earlier.
    pub(crate) fn rewind(&mut self, position: usize)
        requires
            position <= old(self).consumed(),
        ensures
            final(self).bytes() == old(self).bytes(),
            final(self).consumed() == position,
    {
        proof {
            use_type_invariant(&*self);
        }
        self.pos = position;
    }

    /// Moves the position `count` bytes forward.
    pub(crate) fn advance(&mut self, count: usize)
        requires
            count <= old(self).remaining().len(),
        ensures
            final(self).bytes() == old(self).bytes(),
            final(self).consumed() == old(self).consumed() + count,
    {
        proof {
            use_type_invariant(&*self);
            vstd::slice::axiom_spec_len(self.source);
        }
        self.pos = self.pos + count;
    }
}

} // verus!
