//! Error kinds of the reader and of the execution engine.

use vstd::prelude::*;

verus! {

/// A failure of the binary format reader. All of these are fatal to the
/// parse call; nothing is retried.
#[derive(Clone, Copy, Debug, PartialEq, Eq, Structural)]
pub enum FormatError {
    /// The buffer ends before the fixed-size header does.
    TruncatedHeader,
    /// The first header word is not the Mach-O 32-bit magic number.
    InvalidMagic,
    /// A load command, or one of its section headers, reaches past the end
    /// of the buffer or past its own declared size.
    TruncatedLoadCommand,
    /// Neither a unix-thread nor an entry-point command was found, so there
    /// is no way to determine where execution starts.
    MissingEntryState,
}

/// A failure of the engine's load phase. The machine is left part-way
/// initialized and must not be reused.
#[derive(Clone, Copy, Debug, PartialEq, Eq, Structural)]
pub enum LoadError {
    /// The requested memory image size is not a multiple of the word size.
    InvalidMemorySize,
    /// The binary has no `__TEXT` segment with a `__text` section.
    MissingTextSection,
    /// Copying the text section would reach outside the memory image or
    /// outside the file buffer.
    TextOutOfBounds,
}

/// A fault that terminates the run loop immediately.
#[derive(Clone, Copy, Debug, PartialEq, Eq, Structural)]
pub enum ExecutionFault {
    /// The opcode at the instruction pointer is outside the recognized set.
    IllegalInstruction,
    /// A software interrupt with a vector other than `0x80`.
    UnknownInterrupt,
    /// A syscall number other than `1` (exit).
    UnknownSyscall,
    /// An instruction fetch, stack push or stack read outside the memory
    /// image, or a stack pointer too small to push onto. The run loop has no
    /// other way to stay total, so such an access faults instead of wrapping.
    MemoryFault,
}

/// Any failure of a whole load-and-run attempt.
#[derive(Clone, Copy, Debug, PartialEq, Eq, Structural)]
pub enum VmError {
    Load(LoadError),
    Exec(ExecutionFault),
}

} // verus!
