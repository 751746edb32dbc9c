//! Public inputs that identify a compiled program: the commitment to its code and the
//! kernel it was compiled against, with an exact byte encoding.

pub mod digest;
pub mod error;
pub mod info;
pub mod kernel;
pub mod program;
pub mod reader;

pub use digest::{digest_views, Digest, DIGEST_SIZE};
pub use error::DeserializationError;
pub use info::{ProgramInfo, ProgramInfoView};
pub use kernel::{Kernel, KernelError, KERNEL_COUNT_SIZE, MAX_KERNEL_PROCEDURES};
pub use program::{CodeBlock, Program, ProgramView};
pub use reader::SliceReader;
