//! Digests: fixed-size hash values, their bytes and their encoding.

use vstd::prelude::*;
use vstd::std_specs::cmp::PartialEqSpecImpl;

use crate::error::DeserializationError;
use crate::reader::SliceReader;

verus! {

/// The number of bytes in a digest, which is also the length of its encoding.
pub const DIGEST_SIZE: usize = 32;

/// A fixed-size cryptographic hash value.
///
/// A digest is known here only by its bytes: equal bytes make equal digests, and the
/// encoding of a digest is its bytes, in order.
#[derive(Debug, Clone, Copy, Eq)]
pub struct Digest {
    bytes: [u8; 32],
}

impl View for Digest {
    type V = Seq<u8>;

    closed spec fn view(&self) -> Seq<u8> {
        self.bytes@
    }
}

/// The bytes of each digest of `digests`, in the same order.
pub open spec fn digest_views(digests: Seq<Digest>) -> Seq<Seq<u8>> {
    Seq::new(digests.len(), |i: int| digests[i]@)
}

/// A sequence of digests is determined by the bytes of its digests.
pub proof fn lemma_digest_views_injective(left: Seq<Digest>, right: Seq<Digest>)
    requires
        digest_views(left) == digest_views(right),
    ensures
        left == right,
{
    assert(left.len() == digest_views(left).len());
    assert(right.len() == digest_views(right).len());
    assert forall|i: int| 0 <= i < left.len() implies left[i] == right[i] by {
        assert(left[i]@ == digest_views(left)[i]);
        assert(right[i]@ == digest_views(right)[i]);
        left[i].lemma_view_injective(right[i]);
    }
}

impl Digest {
    /// The bytes of the digest whose bytes are all zero.
    pub open spec fn spec_zero() -> Seq<u8> {
        Seq::new(DIGEST_SIZE as nat, |i: int| 0u8)
    }

    /// What decoding a digest from `input` gives: the first `DIGEST_SIZE` bytes, if there
    /// are that many.
    pub open spec fn spec_parse(input: Seq<u8>) -> Result<Seq<u8>, DeserializationError> {
        if input.len() < DIGEST_SIZE {
            Err(DeserializationError::TruncatedDigest)
        } else {
            Ok(input.take(DIGEST_SIZE as int))
        }
    }

    /// A digest has exactly `DIGEST_SIZE` bytes.
    pub proof fn lemma_view_len(self)
        ensures
            self@.len() == DIGEST_SIZE,
    {
    }

    /// A digest is determined by its bytes.
    pub proof fn lemma_view_injective(self, other: Digest)
        requires
            self@ == other@,
        ensures
            self == other,
    {
        assert(self.bytes =~= other.bytes);
    }

    /// Creates the digest that holds `bytes`.
    pub fn new(bytes: [u8; 32]) -> (digest: Digest)
        ensures
            digest@ == bytes@,
    {
        Digest { bytes }
    }

    /// Returns the bytes of the digest.
    pub fn as_bytes(&self) -> (bytes: [u8; 32])
        ensures
            bytes@ == self@,
    {
        self.bytes
    }

    /// Appends the encoding of the digest, which is its bytes, to `target`.
    pub fn write_into(&self, target: &mut Vec<u8>)
        ensures
            final(target)@ == old(target)@ + self@,
    {
        let mut i: usize = 0;
        while i < DIGEST_SIZE
            invariant
                i <= DIGEST_SIZE,
                target@ == old(target)@ + self@.take(i as int),
            decreases DIGEST_SIZE - i,
        {
            target.push(self.bytes[i]);
            i = i + 1;
        }
    }

    /// Reads a digest from the next `DIGEST_SIZE` bytes of `source`.
    ///
    /// Fails, and leaves `source` where it was, if fewer bytes are left.
    pub fn read_from(source: &mut SliceReader<'_>) -> (result: Result<Digest, DeserializationError>)
        ensures
            final(source).bytes() == old(source).bytes(),
            match Digest::spec_parse(old(source).remaining()) {
                Ok(bytes) => {
                    &&& result matches Ok(digest)
                    &&& digest@ == bytes
                    &&& final(source).consumed() == old(source).consumed() + DIGEST_SIZE
                },
                Err(error) => {
                    &&& result == Err::<Digest, DeserializationError>(error)
                    &&& final(source).consumed() == old(source).consumed()
                },
            },
    {
        if source.remaining_len() < DIGEST_SIZE {
            return Err(DeserializationError::TruncatedDigest);
        }
        let digest = Digest::read_at(source, 0);
        source.advance(DIGEST_SIZE);
        Ok(digest)
    }

    /// Copies the digest that starts `offset` bytes after the position of `source`.
    pub(crate) fn read_at(source: &SliceReader<'_>, offset: usize) -> (digest: Digest)
        requires
            offset + DIGEST_SIZE <= source.remaining().len() <= usize::MAX,
        ensures
            digest@ == source.remaining().subrange(offset as int, offset + DIGEST_SIZE),
    {
        let mut bytes = [0u8; 32];
        let mut i: usize = 0;
        while i < DIGEST_SIZE
            invariant
                i <= DIGEST_SIZE,
                offset + DIGEST_SIZE <= source.remaining().len() <= usize::MAX,
                forall|j: int| 0 <= j < i ==> bytes@[j] == source.remaining()[offset + j],
            decreases DIGEST_SIZE - i,
        {
            bytes[i] = source.peek(offset + i);
            i = i + 1;
        }
        Digest { bytes }
    }
}

impl Default for Digest {
    /// The digest whose bytes are all zero.
    fn default() -> (digest: Digest)
        ensures
            digest@ == Digest::spec_zero(),
    {
        Digest { bytes: [0u8; 32] }
    }
}

impl PartialEq for Digest {
    /// Two digests are equal when their bytes are.
    fn eq(&self, other: &Digest) -> (equal: bool) {
        let mut i: usize = 0;
        while i < DIGEST_SIZE
            invariant
                i <= DIGEST_SIZE,
                forall|j: int| 0 <= j < i ==> self.bytes@[j] == other.bytes@[j],
            decreases DIGEST_SIZE - i,
        {
            if self.bytes[i] != other.bytes[i] {
                return false;
            }
            i = i + 1;
        }
        assert(self.bytes@ =~= other.bytes@);
        true
    }
}

impl PartialEqSpecImpl for Digest {
    open spec fn obeys_eq_spec() -> bool {
        true
    }

    open spec fn eq_spec(&self, other: &Digest) -> bool {
        self@ == other@
    }
}

} // verus!
