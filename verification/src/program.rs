//! Programs, as far as their identity goes: a root node and a kernel.

use vstd::prelude::*;

use crate::digest::Digest;
use crate::kernel::Kernel;

verus! {

/// A node of a program's code tree, known here by the digest that commits to it.
///
/// The digest commits to the node and to everything below it, so the digest of the root
/// node identifies the whole program. What the node holds besides is not modelled.
#[derive(Debug, Clone, Copy)]
pub struct CodeBlock {
    hash: Digest,
}

impl View for CodeBlock {
    type V = Seq<u8>;

    /// The bytes of the digest that commits to the node.
    closed spec fn view(&self) -> Seq<u8> {
        self.hash@
    }
}

impl CodeBlock {
    /// Creates a node with the given commitment.
    pub fn new(hash: Digest) -> (block: CodeBlock)
        ensures
            block@ == hash@,
    {
        CodeBlock { hash }
    }

    /// Returns the digest that commits to the node.
    pub fn hash(&self) -> (hash: Digest)
        ensures
            hash@ == self@,
    {
        self.hash
    }
}

/// What a program is made of, as plain values.
pub struct ProgramView {
    /// The bytes of the digest that commits to the root node.
    pub root: Seq<u8>,
    /// The bytes of each procedure digest of the kernel, in the kernel's order.
    pub kernel: Seq<Seq<u8>>,
}

/// A compiled program: the root of its code tree and the kernel it was compiled against.
#[derive(Debug)]
pub struct Program {
    root: CodeBlock,
    kernel: Kernel,
}

impl View for Program {
    type V = ProgramView;

    closed spec fn view(&self) -> ProgramView {
        ProgramView { root: self.root@, kernel: self.kernel@ }
    }
}

impl Program {
    /// Creates a program with the given root node, compiled against `kernel`.
    pub fn new(root: CodeBlock, kernel: Kernel) -> (program: Program)
        ensures
            program@.root == root@,
            program@.kernel == kernel@,
    {
        Program { root, kernel }
    }

    /// Returns the root node of the program.
    pub fn root(&self) -> (root: &CodeBlock)
        ensures
            root@ == self@.root,
    {
        &self.root
    }

    /// Returns the kernel the program was compiled against.
    pub fn kernel(&self) -> (kernel: &Kernel)
        ensures
            kernel@ == self@.kernel,
    {
        &self.kernel
    }

    /// Takes the program apart into its root node and its kernel.
    pub(crate) fn into_parts(self) -> (parts: (CodeBlock, Kernel))
        ensures
            parts.0@ == self@.root,
            parts.1@ == self@.kernel,
    {
        (self.root, self.kernel)
    }
}

} // verus!
