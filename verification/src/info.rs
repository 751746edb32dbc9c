//! Program infos: what they hold, how they are made, and their encoding.

use vstd::prelude::*;
use vstd::std_specs::cmp::PartialEqSpec;

use crate::digest::{digest_views, lemma_digest_views_injective, Digest, DIGEST_SIZE};
use crate::error::DeserializationError;
use crate::kernel::{Kernel, KERNEL_COUNT_SIZE};
use crate::program::Program;
use crate::reader::SliceReader;

verus! {

/// What a program info holds, as plain values.
pub struct ProgramInfoView {
    /// The bytes of the digest that commits to the program's code.
    pub program_hash: Seq<u8>,
    /// The bytes of each procedure digest of the kernel, in the kernel's order.
    pub kernel: Seq<Seq<u8>>,
}

/// The identity of a compiled program: the digest that commits to its code, and the
/// kernel it was compiled against.
///
/// A proof is verified against these two values and nothing else of the program. Once
/// made, a program info does not change.
#[derive(Debug, Eq)]
pub struct ProgramInfo {
    program_hash: Digest,
    kernel: Kernel,
}

impl View for ProgramInfo {
    type V = ProgramInfoView;

    closed spec fn view(&self) -> ProgramInfoView {
        ProgramInfoView { program_hash: self.program_hash@, kernel: self.kernel@ }
    }
}

impl ProgramInfo {
    /// Whether `info` is what some program info holds: a digest of `DIGEST_SIZE` bytes and
    /// the procedure digests of a kernel.
    pub open spec fn spec_valid(info: ProgramInfoView) -> bool {
        &&& info.program_hash.len() == DIGEST_SIZE
        &&& Kernel::spec_valid(info.kernel)
    }

    /// The encoding of a program info: the program hash, then the kernel.
    pub open spec fn spec_encoding(info: ProgramInfoView) -> Seq<u8> {
        info.program_hash + Kernel::spec_encoding(info.kernel)
    }

    /// What decoding a program info from the start of `input` gives: what the program
    /// info holds and the number of bytes it was read from, or the error of the first
    /// component that could not be read.
    pub open spec fn spec_parse(input: Seq<u8>) -> Result<
        (ProgramInfoView, nat),
        DeserializationError,
    > {
        match Digest::spec_parse(input) {
            Err(error) => Err(error),
            Ok(program_hash) => match Kernel::spec_parse(input.skip(DIGEST_SIZE as int)) {
                Err(error) => Err(error),
                Ok((kernel, length)) => Ok(
                    (ProgramInfoView { program_hash, kernel }, DIGEST_SIZE as nat + length),
                ),
            },
        }
    }

    /// What the default program info holds: the zero digest and no procedures.
    pub open spec fn spec_default() -> ProgramInfoView {
        ProgramInfoView { program_hash: Digest::spec_zero(), kernel: Seq::empty() }
    }

    /// Decoding the encoding of a program info gives the same program info back, and
    /// reads exactly the encoding.
    pub proof fn lemma_round_trip(info: ProgramInfoView)
        requires
            ProgramInfo::spec_valid(info),
        ensures
            ProgramInfo::spec_parse(ProgramInfo::spec_encoding(info)) == Ok::<
                (ProgramInfoView, nat),
                DeserializationError,
            >((info, ProgramInfo::spec_encoding(info).len())),
    {
        ProgramInfo::lemma_round_trip_in_stream(info, Seq::empty());
        assert(ProgramInfo::spec_encoding(info) + Seq::<u8>::empty() =~= ProgramInfo::spec_encoding(
            info,
        ));
    }

    /// Decoding bytes that start with the encoding of a program info gives that program
    /// info back and reads exactly the encoding, whatever bytes follow it.
    pub proof fn lemma_round_trip_in_stream(info: ProgramInfoView, rest: Seq<u8>)
        requires
            ProgramInfo::spec_valid(info),
        ensures
            ProgramInfo::spec_parse(ProgramInfo::spec_encoding(info) + rest) == Ok::<
                (ProgramInfoView, nat),
                DeserializationError,
            >((info, ProgramInfo::spec_encoding(info).len())),
    {
        // The input is the program hash, followed by the encoding of the kernel and the
        // rest.
        let input = ProgramInfo::spec_encoding(info) + rest;
        assert(input.take(DIGEST_SIZE as int) =~= info.program_hash);
        assert(input.skip(DIGEST_SIZE as int) =~= Kernel::spec_encoding(info.kernel) + rest);
        Kernel::lemma_parse_encoding(info.kernel, rest);
    }

    /// The encoding of a program info is `DIGEST_SIZE` bytes of program hash,
    /// `KERNEL_COUNT_SIZE` bytes of count and `DIGEST_SIZE` bytes for each procedure.
    pub proof fn lemma_encoding_len(info: ProgramInfoView)
        requires
            ProgramInfo::spec_valid(info),
        ensures
            ProgramInfo::spec_encoding(info).len() == DIGEST_SIZE + KERNEL_COUNT_SIZE + DIGEST_SIZE
                * info.kernel.len(),
    {
        Kernel::lemma_encoding_len(info.kernel);
    }

    /// Program infos with the same encoding are the same: the encoding binds the program
    /// hash and every procedure digest of the kernel, in order.
    pub proof fn lemma_encoding_injective(left: ProgramInfoView, right: ProgramInfoView)
        requires
            ProgramInfo::spec_valid(left),
            ProgramInfo::spec_valid(right),
            ProgramInfo::spec_encoding(left) == ProgramInfo::spec_encoding(right),
        ensures
            left == right,
    {
        ProgramInfo::lemma_round_trip(left);
        ProgramInfo::lemma_round_trip(right);
    }

    /// Whatever decodes as a program info is a valid program info, and the bytes it was
    /// read from are its encoding: a decoded value is never anything but what was encoded.
    pub proof fn lemma_parse_inverts_encoding(input: Seq<u8>)
        requires
            ProgramInfo::spec_parse(input) is Ok,
        ensures
            ({
                let (info, length) = ProgramInfo::spec_parse(input)->Ok_0;
                &&& ProgramInfo::spec_valid(info)
                &&& length <= input.len()
                &&& ProgramInfo::spec_encoding(info) == input.take(length as int)
            }),
    {
        Kernel::lemma_parse_inverts_encoding(input.skip(DIGEST_SIZE as int));
    }

    /// Decoding the encoding of a program info with bytes cut off its end fails: it never
    /// gives a program info. If the cut leaves the program hash whole, the error is that
    /// the kernel is truncated; otherwise, that the digest is.
    pub proof fn lemma_truncated_encoding_fails(info: ProgramInfoView, length: int)
        requires
            ProgramInfo::spec_valid(info),
            0 <= length < ProgramInfo::spec_encoding(info).len(),
        ensures
            ProgramInfo::spec_parse(ProgramInfo::spec_encoding(info).take(length)) == Err::<
                (ProgramInfoView, nat),
                DeserializationError,
            >(
                if length < DIGEST_SIZE {
                    DeserializationError::TruncatedDigest
                } else {
                    DeserializationError::TruncatedKernel
                },
            ),
    {
        if length >= DIGEST_SIZE {
            // What follows the program hash is the encoding of the kernel, cut short.
            let kernel_bytes = Kernel::spec_encoding(info.kernel);
            let input = ProgramInfo::spec_encoding(info).take(length);
            assert(input.skip(DIGEST_SIZE as int) =~= kernel_bytes.take(length - DIGEST_SIZE));
            Kernel::lemma_parse_truncated(info.kernel, length - DIGEST_SIZE);
        }
    }

    /// The default program info is valid, its encoding is `DIGEST_SIZE` zero bytes
    /// followed by a count of zero, and decoding that encoding gives it back.
    pub proof fn lemma_default_round_trip()
        ensures
            ProgramInfo::spec_valid(ProgramInfo::spec_default()),
            ProgramInfo::spec_encoding(ProgramInfo::spec_default()) == Digest::spec_zero()
                + seq![0u8, 0u8],
            ProgramInfo::spec_parse(ProgramInfo::spec_encoding(ProgramInfo::spec_default()))
                == Ok::<(ProgramInfoView, nat), DeserializationError>(
                (ProgramInfo::spec_default(), 34),
            ),
    {
        ProgramInfo::lemma_round_trip(ProgramInfo::spec_default());
    }

    /// Two program infos are equal exactly when the program hashes they were made with
    /// are equal and the kernels they were made with are equal.
    pub proof fn lemma_equality_is_structural(
        left: ProgramInfo,
        left_hash: Digest,
        left_kernel: Kernel,
        right: ProgramInfo,
        right_hash: Digest,
        right_kernel: Kernel,
    )
        requires
            left@.program_hash == left_hash@,
            left@.kernel == left_kernel@,
            right@.program_hash == right_hash@,
            right@.kernel == right_kernel@,
        ensures
            left.eq_spec(&right) <==> left_hash.eq_spec(&right_hash) && left_kernel.eq_spec(
                &right_kernel,
            ),
    {
    }

    /// The procedure digests that a program info hands out are those that the kernel it
    /// was made with hands out, in the same order.
    pub proof fn lemma_kernel_procedures_order(
        info: ProgramInfo,
        kernel: Kernel,
        from_info: Seq<Digest>,
        from_kernel: Seq<Digest>,
    )
        requires
            info@.kernel == kernel@,
            digest_views(from_info) == info@.kernel,
            digest_views(from_kernel) == kernel@,
        ensures
            from_info == from_kernel,
    {
        lemma_digest_views_injective(from_info, from_kernel);
    }

    /// Creates a program info from a program hash and a kernel, both kept as they are.
    pub fn new(program_hash: Digest, kernel: Kernel) -> (info: ProgramInfo)
        ensures
            info@.program_hash == program_hash@,
            info@.kernel == kernel@,
            ProgramInfo::spec_valid(info@),
    {
        proof {
            use_type_invariant(&kernel);
            kernel.lemma_valid();
            program_hash.lemma_view_len();
        }
        ProgramInfo { program_hash, kernel }
    }

    /// Projects a program onto its identity: the digest that commits to its root node, and
    /// its kernel. Everything else of the program is dropped.
    pub fn from_program(program: Program) -> (info: ProgramInfo)
        ensures
            info@.program_hash == program@.root,
            info@.kernel == program@.kernel,
            ProgramInfo::spec_valid(info@),
    {
        let (root, kernel) = program.into_parts();
        let program_hash = root.hash();
        ProgramInfo::new(program_hash, kernel)
    }

    /// Returns the digest that commits to the program's code.
    pub fn program_hash(&self) -> (program_hash: &Digest)
        ensures
            program_hash@ == self@.program_hash,
    {
        &self.program_hash
    }

    /// Returns the kernel the program was compiled against.
    pub fn kernel(&self) -> (kernel: &Kernel)
        ensures
            kernel@ == self@.kernel,
    {
        &self.kernel
    }

    /// Returns the procedure digests of the kernel, in the kernel's order.
    pub fn kernel_procedures(&self) -> (procedures: &[Digest])
        ensures
            digest_views(procedures@) == self@.kernel,
    {
        self.kernel.proc_hashes()
    }

    /// Appends the encoding of the program info to `target`.
    pub fn write_into(&self, target: &mut Vec<u8>)
        ensures
            final(target)@ == old(target)@ + ProgramInfo::spec_encoding(self@),
            ProgramInfo::spec_valid(self@),
    {
        proof {
            self.program_hash.lemma_view_len();
        }
        self.program_hash.write_into(target);
        self.kernel.write_into(target);
    }

    /// Returns the encoding of the program info.
    pub fn to_bytes(&self) -> (bytes: Vec<u8>)
        ensures
            bytes@ == ProgramInfo::spec_encoding(self@),
            ProgramInfo::spec_valid(self@),
    {
        let mut bytes = Vec::new();
        self.write_into(&mut bytes);
        bytes
    }

    /// Reads a program info from the bytes of `source` that follow its position: the
    /// program hash, then the kernel.
    ///
    /// Fails, and leaves `source` where it was, if those bytes do not start with the
    /// encoding of a program info. The error is that of the component that could not be
    /// read.
    pub fn read_from(source: &mut SliceReader<'_>) -> (result: Result<
        ProgramInfo,
        DeserializationError,
    >)
        ensures
            final(source).bytes() == old(source).bytes(),
            match ProgramInfo::spec_parse(old(source).remaining()) {
                Ok((info, length)) => {
                    &&& result matches Ok(read)
                    &&& read@ == info
                    &&& ProgramInfo::spec_valid(read@)
                    &&& final(source).consumed() == old(source).consumed() + length
                },
                Err(error) => {
                    &&& result == Err::<ProgramInfo, DeserializationError>(error)
                    &&& final(source).consumed() == old(source).consumed()
                },
            },
    {
        let start: usize = source.position();
        let program_hash = match Digest::read_from(source) {
            Ok(digest) => digest,
            Err(error) => {
                return Err(error);
            },
        };
        assert(source.remaining() =~= old(source).remaining().skip(DIGEST_SIZE as int));
        match Kernel::read_from(source) {
            Ok(kernel) => Ok(ProgramInfo::new(program_hash, kernel)),
            Err(error) => {
                source.rewind(start);
                Err(error)
            },
        }
    }

    /// Reads a program info from the start of `bytes`. Bytes that follow its encoding are
    /// not looked at.
    pub fn read_from_bytes(bytes: &[u8]) -> (result: Result<ProgramInfo, DeserializationError>)
        ensures
            match ProgramInfo::spec_parse(bytes@) {
                Ok((info, length)) => {
                    &&& result matches Ok(read)
                    &&& read@ == info
                    &&& ProgramInfo::spec_valid(read@)
                },
                Err(error) => result == Err::<ProgramInfo, DeserializationError>(error),
            },
    {
        let mut source = SliceReader::new(bytes);
        assert(source.remaining() =~= bytes@);
        ProgramInfo::read_from(&mut source)
    }
}

impl Default for ProgramInfo {
    /// The program info of no program: the zero digest and a kernel without procedures.
    fn default() -> (info: ProgramInfo)
        ensures
            info@ == ProgramInfo::spec_default(),
            ProgramInfo::spec_valid(info@),
    {
        ProgramInfo::new(Digest::default(), Kernel::default())
    }
}

impl Clone for ProgramInfo {
    /// A program info with the same program hash and the same kernel.
    fn clone(&self) -> (info: ProgramInfo)
        ensures
            info@ == self@,
            ProgramInfo::spec_valid(info@),
    {
        ProgramInfo::new(self.program_hash, self.kernel.clone())
    }
}

impl PartialEq for ProgramInfo {
    /// Two program infos are equal when their program hashes are equal and their kernels
    /// are equal.
    fn eq(&self, other: &ProgramInfo) -> (equal: bool) {
        self.program_hash == other.program_hash && self.kernel == other.kernel
    }
}

impl vstd::std_specs::cmp::PartialEqSpecImpl for ProgramInfo {
    open spec fn obeys_eq_spec() -> bool {
        true
    }

    open spec fn eq_spec(&self, other: &ProgramInfo) -> bool {
        self@ == other@
    }
}

} // verus!
