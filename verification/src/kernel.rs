//! Kernels: ordered lists of procedure digests, and their encoding.

use vstd::prelude::*;
use vstd::std_specs::cmp::PartialEqSpecImpl;

use crate::digest::{digest_views, Digest, DIGEST_SIZE};
use crate::error::DeserializationError;
use crate::reader::SliceReader;

verus! {

/// The largest number of procedures that a kernel can hold.
pub const MAX_KERNEL_PROCEDURES: usize = 255;

/// The number of bytes at the start of a kernel's encoding that hold its procedure count.
pub const KERNEL_COUNT_SIZE: usize = 2;

/// Why a list of procedure digests does not make a kernel.
#[derive(Debug, Clone, Copy, PartialEq, Eq, Structural)]
pub enum KernelError {
    /// The list holds more than `MAX_KERNEL_PROCEDURES` digests.
    TooManyProcedures,
}

/// An ordered list of the digests of the procedures of a trusted library.
///
/// The order is the one the kernel was made with: nothing is sorted and nothing is removed.
/// A kernel holds at most `MAX_KERNEL_PROCEDURES` digests.
#[derive(Debug, Eq)]
pub struct Kernel {
    procedures: Vec<Digest>,
}

impl View for Kernel {
    type V = Seq<Seq<u8>>;

    /// The bytes of each procedure digest, in the kernel's order.
    closed spec fn view(&self) -> Seq<Seq<u8>> {
        digest_views(self.procedures@)
    }
}

impl Kernel {
    #[verifier::type_invariant]
    pub(crate) closed spec fn within_limit(self) -> bool {
        self.procedures@.len() <= MAX_KERNEL_PROCEDURES
    }

    /// A kernel within its limit holds the digests of a valid kernel.
    pub(crate) proof fn lemma_valid(self)
        requires
            self.within_limit(),
        ensures
            Kernel::spec_valid(self@),
    {
        assert forall|i: int| 0 <= i < self@.len() implies (#[trigger] self@[i]).len()
            == DIGEST_SIZE by {
            self.procedures@[i].lemma_view_len();
        }
    }

    /// Whether `procedures` are the digests of some kernel: at most
    /// `MAX_KERNEL_PROCEDURES` of them, each `DIGEST_SIZE` bytes long.
    pub open spec fn spec_valid(procedures: Seq<Seq<u8>>) -> bool {
        &&& procedures.len() <= MAX_KERNEL_PROCEDURES
        &&& forall|i: int|
            0 <= i < procedures.len() ==> (#[trigger] procedures[i]).len() == DIGEST_SIZE
    }

    /// The encoding of a kernel with the given procedure digests: the number of
    /// procedures in two bytes, low byte first, then the digests in order.
    pub open spec fn spec_encoding(procedures: Seq<Seq<u8>>) -> Seq<u8> {
        seq![(procedures.len() % 256) as u8, (procedures.len() / 256) as u8] + procedures.flatten()
    }

    /// The number of procedures that an encoding starting with `low`, `high` announces.
    pub open spec fn spec_count(low: u8, high: u8) -> nat {
        (low + 256 * high) as nat
    }

    /// What decoding a kernel from the start of `input` gives: the procedure digests and
    /// the number of bytes they were read from, or the reason why there is no kernel.
    pub open spec fn spec_parse(input: Seq<u8>) -> Result<
        (Seq<Seq<u8>>, nat),
        DeserializationError,
    > {
        if input.len() < KERNEL_COUNT_SIZE {
            Err(DeserializationError::TruncatedKernel)
        } else {
            let count: nat = Kernel::spec_count(input[0], input[1]);
            if count > MAX_KERNEL_PROCEDURES {
                Err(DeserializationError::TooManyProcedures)
            } else if input.len() < KERNEL_COUNT_SIZE + DIGEST_SIZE * count {
                Err(DeserializationError::TruncatedKernel)
            } else {
                Ok(
                    (
                        Seq::new(
                            count,
                            |i: int|
                                input.subrange(
                                    KERNEL_COUNT_SIZE + DIGEST_SIZE * i,
                                    KERNEL_COUNT_SIZE + DIGEST_SIZE * i + DIGEST_SIZE,
                                ),
                        ),
                        (KERNEL_COUNT_SIZE + DIGEST_SIZE * count) as nat,
                    ),
                )
            }
        }
    }

    /// The digests of a valid kernel lie one after the other in their concatenation, each
    /// in `DIGEST_SIZE` bytes.
    proof fn lemma_flatten_digests(procedures: Seq<Seq<u8>>)
        requires
            forall|i: int|
                0 <= i < procedures.len() ==> (#[trigger] procedures[i]).len() == DIGEST_SIZE,
        ensures
            procedures.flatten().len() == DIGEST_SIZE * procedures.len(),
            forall|i: int|
                0 <= i < procedures.len() ==> #[trigger] procedures.flatten().subrange(
                    DIGEST_SIZE * i,
                    DIGEST_SIZE * i + DIGEST_SIZE,
                ) == procedures[i],
        decreases procedures.len(),
    {
        if procedures.len() > 0 {
            let others = procedures.drop_first();
            Kernel::lemma_flatten_digests(others);
            let flat = procedures.flatten();
            assert forall|i: int| 0 <= i < procedures.len() implies #[trigger] flat.subrange(
                DIGEST_SIZE * i,
                DIGEST_SIZE * i + DIGEST_SIZE,
            ) == procedures[i] by {
                if i > 0 {
                    // Past the first digest, the digest at `i` is the digest at `i - 1`
                    // of the others.
                    assert(flat.subrange(DIGEST_SIZE * i, DIGEST_SIZE * i + DIGEST_SIZE)
                        =~= others.flatten().subrange(
                        DIGEST_SIZE * (i - 1),
                        DIGEST_SIZE * (i - 1) + DIGEST_SIZE,
                    ));
                }
            }
        }
    }

    /// The encoding of a valid kernel is as long as its count and its digests together.
    pub proof fn lemma_encoding_len(procedures: Seq<Seq<u8>>)
        requires
            Kernel::spec_valid(procedures),
        ensures
            Kernel::spec_encoding(procedures).len() == KERNEL_COUNT_SIZE + DIGEST_SIZE
                * procedures.len(),
    {
        Kernel::lemma_flatten_digests(procedures);
    }

    /// Decoding the encoding of a valid kernel gives that kernel back and reads exactly
    /// the encoding, whatever bytes follow it.
    pub proof fn lemma_parse_encoding(procedures: Seq<Seq<u8>>, rest: Seq<u8>)
        requires
            Kernel::spec_valid(procedures),
        ensures
            Kernel::spec_parse(Kernel::spec_encoding(procedures) + rest) == Ok::<
                (Seq<Seq<u8>>, nat),
                DeserializationError,
            >((procedures, Kernel::spec_encoding(procedures).len())),
    {
        Kernel::lemma_flatten_digests(procedures);
        let input = Kernel::spec_encoding(procedures) + rest;
        let flat = procedures.flatten();
        let parsed = Kernel::spec_parse(input)->Ok_0.0;
        assert forall|i: int| 0 <= i < procedures.len() implies parsed[i] == procedures[i] by {
            assert(parsed[i] =~= flat.subrange(DIGEST_SIZE * i, DIGEST_SIZE * i + DIGEST_SIZE));
        }
        assert(parsed =~= procedures);
    }

    /// Decoding the encoding of a valid kernel with bytes cut off its end reports that
    /// the kernel is truncated.
    pub proof fn lemma_parse_truncated(procedures: Seq<Seq<u8>>, length: int)
        requires
            Kernel::spec_valid(procedures),
            0 <= length < Kernel::spec_encoding(procedures).len(),
        ensures
            Kernel::spec_parse(Kernel::spec_encoding(procedures).take(length)) == Err::<
                (Seq<Seq<u8>>, nat),
                DeserializationError,
            >(DeserializationError::TruncatedKernel),
    {
        Kernel::lemma_flatten_digests(procedures);
    }

    /// Whatever decodes as a kernel is a valid kernel, and the bytes it was read from are
    /// its encoding: nothing but the encoding of a kernel decodes as that kernel.
    pub proof fn lemma_parse_inverts_encoding(input: Seq<u8>)
        requires
            Kernel::spec_parse(input) is Ok,
        ensures
            ({
                let (procedures, length) = Kernel::spec_parse(input)->Ok_0;
                &&& Kernel::spec_valid(procedures)
                &&& length <= input.len()
                &&& Kernel::spec_encoding(procedures) == input.take(length as int)
            }),
    {
        let (procedures, length) = Kernel::spec_parse(input)->Ok_0;
        Kernel::lemma_flatten_digests(procedures);
        let flat = procedures.flatten();
        let body = input.subrange(KERNEL_COUNT_SIZE as int, length as int);
        assert forall|j: int| 0 <= j < flat.len() implies flat[j] == body[j] by {
            // Byte `j` of the digests lies in digest `i`.
            let i: int = j / (DIGEST_SIZE as int);
            let digest = flat.subrange(DIGEST_SIZE * i, DIGEST_SIZE * i + DIGEST_SIZE);
            assert(flat[j] == digest[j - DIGEST_SIZE * i]);
        }
        assert(flat =~= body);
    }

    /// Creates a kernel that holds `proc_hashes`, in the given order.
    ///
    /// Fails if there are more than `MAX_KERNEL_PROCEDURES` of them.
    pub fn new(proc_hashes: Vec<Digest>) -> (result: Result<Kernel, KernelError>)
        ensures
            match result {
                Ok(kernel) => {
                    &&& proc_hashes@.len() <= MAX_KERNEL_PROCEDURES
                    &&& kernel@ == digest_views(proc_hashes@)
                    &&& Kernel::spec_valid(kernel@)
                },
                Err(error) => {
                    &&& proc_hashes@.len() > MAX_KERNEL_PROCEDURES
                    &&& error == KernelError::TooManyProcedures
                },
            },
    {
        if proc_hashes.len() > MAX_KERNEL_PROCEDURES {
            Err(KernelError::TooManyProcedures)
        } else {
            let kernel = Kernel { procedures: proc_hashes };
            proof {
                kernel.lemma_valid();
            }
            Ok(kernel)
        }
    }

    /// Returns the procedure digests, in the kernel's order.
    pub fn proc_hashes(&self) -> (procedures: &[Digest])
        ensures
            digest_views(procedures@) == self@,
            Kernel::spec_valid(self@),
    {
        proof {
            use_type_invariant(self);
            self.lemma_valid();
        }
        self.procedures.as_slice()
    }

    /// Appends the encoding of the kernel to `target`.
    pub fn write_into(&self, target: &mut Vec<u8>)
        ensures
            final(target)@ == old(target)@ + Kernel::spec_encoding(self@),
            Kernel::spec_valid(self@),
    {
        proof {
            use_type_invariant(self);
            self.lemma_valid();
        }
        let count: usize = self.procedures.len();
        target.push((count % 256) as u8);
        target.push((count / 256) as u8);
        let ghost header = target@;
        let mut i: usize = 0;
        while i < count
            invariant
                i <= count,
                count == self.procedures@.len(),
                target@ == header + self@.take(i as int).flatten(),
            decreases count - i,
        {
            self.procedures[i].write_into(target);
            proof {
                self@.lemma_take_succ_push(i as int);
                self@.take(i as int).lemma_flatten_push(self@[i as int]);
            }
            i = i + 1;
        }
        assert(self@.take(count as int) == self@);
    }

    /// Reads a kernel from the bytes of `source` that follow its position.
    ///
    /// Fails, and leaves `source` where it was, if those bytes do not start with the
    /// encoding of a kernel.
    pub fn read_from(source: &mut SliceReader<'_>) -> (result: Result<Kernel, DeserializationError>)
        ensures
            final(source).bytes() == old(source).bytes(),
            match Kernel::spec_parse(old(source).remaining()) {
                Ok((procedures, length)) => {
                    &&& result matches Ok(kernel)
                    &&& kernel@ == procedures
                    &&& Kernel::spec_valid(kernel@)
                    &&& final(source).consumed() == old(source).consumed() + length
                },
                Err(error) => {
                    &&& result == Err::<Kernel, DeserializationError>(error)
                    &&& final(source).consumed() == old(source).consumed()
                },
            },
    {
        let available: usize = source.remaining_len();
        if available < KERNEL_COUNT_SIZE {
            return Err(DeserializationError::TruncatedKernel);
        }
        let low: u8 = source.peek(0);
        let high: u8 = source.peek(1);
        let count: usize = low as usize + 256 * (high as usize);
        if count > MAX_KERNEL_PROCEDURES {
            return Err(DeserializationError::TooManyProcedures);
        }
        if available - KERNEL_COUNT_SIZE < DIGEST_SIZE * count {
            return Err(DeserializationError::TruncatedKernel);
        }
        let mut procedures: Vec<Digest> = Vec::with_capacity(count);
        let mut i: usize = 0;
        while i < count
            invariant
                i <= count <= MAX_KERNEL_PROCEDURES,
                KERNEL_COUNT_SIZE + DIGEST_SIZE * count <= source.remaining().len() <= usize::MAX,
                procedures@.len() == i,
                forall|j: int|
                    0 <= j < i ==> (#[trigger] procedures@[j])@ == source.remaining().subrange(
                        KERNEL_COUNT_SIZE + DIGEST_SIZE * j,
                        KERNEL_COUNT_SIZE + DIGEST_SIZE * j + DIGEST_SIZE,
                    ),
            decreases count - i,
        {
            let digest = Digest::read_at(source, KERNEL_COUNT_SIZE + DIGEST_SIZE * i);
            procedures.push(digest);
            i = i + 1;
        }
        source.advance(KERNEL_COUNT_SIZE + DIGEST_SIZE * count);
        let kernel = Kernel { procedures };
        proof {
            kernel.lemma_valid();
        }
        Ok(kernel)
    }
}

impl Default for Kernel {
    /// The kernel with no procedures.
    fn default() -> (kernel: Kernel)
        ensures
            kernel@ == Seq::<Seq<u8>>::empty(),
            Kernel::spec_valid(kernel@),
    {
        Kernel { procedures: Vec::new() }
    }
}

impl Clone for Kernel {
    /// A kernel with the same procedure digests, in the same order.
    fn clone(&self) -> (kernel: Kernel)
        ensures
            kernel@ == self@,
            Kernel::spec_valid(kernel@),
    {
        proof {
            use_type_invariant(self);
        }
        let kernel = Kernel { procedures: self.procedures.clone() };
        proof {
            kernel.lemma_valid();
        }
        kernel
    }
}

impl PartialEq for Kernel {
    /// Two kernels are equal when they hold equal digests in the same order.
    fn eq(&self, other: &Kernel) -> (equal: bool) {
        let equal = self.procedures == other.procedures;
        proof {
            if equal {
                assert(self@ =~= other@);
            } else if self@ == other@ {
                assert(self.procedures@.len() == self@.len());
                assert(other.procedures@.len() == other@.len());
                assert forall|i: int| 0 <= i < self.procedures@.len() implies (
                #[trigger] self.procedures@[i])@ == other.procedures@[i]@ by {
                    assert(self@[i] == other@[i]);
                }
                assert(false);
            }
        }
        equal
    }
}

impl PartialEqSpecImpl for Kernel {
    open spec fn obeys_eq_spec() -> bool {
        true
    }

    open spec fn eq_spec(&self, other: &Kernel) -> bool {
        self@ == other@
    }
}

} // verus!
