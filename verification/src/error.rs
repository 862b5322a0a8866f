//! Errors that reject a module before any of its code runs.

use vstd::prelude::*;
use crate::numeric::Trap;

verus! {

/// Why a module was rejected while it was decoded, validated or instantiated.
#[derive(Copy, Clone, Debug, PartialEq, Eq, Structural)]
pub enum Error {
    /// The input ended before the value being read was complete.
    UnexpectedEof,
    /// A variable-length integer does not fit the width it was read at.
    MalformedVarint,
    /// A section starts with a byte that names no section kind.
    InvalidSectionType(u8),
    /// A byte that should name a value type names none.
    InvalidValType(u8),
    /// A function signature does not start with the byte 0x60.
    InvalidFuncType(u8),
    /// The flag byte of limits is neither 0 nor 1.
    InvalidLimits(u8),
    /// The mutability byte of a global is neither 0 nor 1.
    InvalidMutability(u8),
    /// The bytes do not start with the magic number of a module.
    InvalidMagic,
    /// The version of the encoding is not 1.
    InvalidVersion,
    /// A section, named by its kind byte, comes after one that must follow
    /// it, or comes twice.
    SectionOutOfOrder(u8),
    /// The contents of a section, named by its kind byte, do not end where
    /// its header says.
    SectionSizeMismatch(u8),
    /// The kind byte of an import names no kind of import.
    InvalidImportKind(u8),
    /// The kind byte of an export names no kind of export.
    InvalidExportKind(u8),
    /// A table or element segment holds something else than function
    /// references.
    InvalidElemType(u8),
    /// A segment has a flag that this interpreter does not decode.
    UnsupportedSegment(u32),
    /// The code section holds another number of bodies than the function
    /// section declares.
    FunctionCountMismatch,
    /// The data section holds another number of segments than the data count
    /// says.
    DataCountMismatch,
    /// An instruction takes an operand from an empty stack.
    StackUnderflow,
    /// An operand has another type than the instruction asks for.
    TypeMismatch,
    /// A block ends with more operands on the stack than its results.
    UnbalancedStack,
    /// A branch names a label deeper than the blocks around it.
    UnknownLabel,
    /// The index names no function.
    UnknownFunction,
    /// The index names no signature.
    UnknownType,
    /// The index names no table.
    UnknownTable,
    /// The module has no memory, or the index names none.
    UnknownMemory,
    /// The index names no global.
    UnknownGlobal,
    /// The index names no local.
    UnknownLocal,
    /// A constant global is written.
    ImmutableGlobal,
    /// A memory access claims an alignment beyond its width.
    InvalidAlignment,
    /// An instruction names a block or label table that its code does not
    /// store before it.
    MalformedCode,
    /// A function declares more locals than the interpreter takes.
    TooManyLocals,
    /// The body of a function does not end where its size says.
    BodySizeMismatch,
    /// An initializer or offset holds an instruction that may not stand in a
    /// constant expression.
    NotConstant,
    /// The limits of a table or memory are out of range.
    LimitsOutOfRange,
    /// The module has more than one memory.
    MultipleMemories,
    /// An export names something that the module does not have.
    UnknownExport,
    /// The start function takes parameters or returns results.
    InvalidStartFunction,
    /// The module imports a function, a table or a memory, which no host
    /// binding can stand for, or the host gave another number of values than
    /// the module imports globals.
    UnresolvedImport,
    /// The host gave a value of another type than the imported global has.
    ImportTypeMismatch,
    /// The memory is larger than the machine can address.
    MemoryTooLarge,
    /// An active segment reaches beyond the end of its table or memory.
    SegmentOutOfBounds,
    /// The start function trapped.
    StartTrapped(Trap),
    /// A block type is a negative number that names no value type.
    InvalidBlockType,
    /// Blocks nest deeper than the interpreter takes.
    NestingTooDeep,
    /// An `else` stands where no `if` is open for it.
    MisplacedElse,
    /// The reserved byte behind this opcode is not zero.
    MalformedInstruction(u8),
    /// The opcode names no instruction that this interpreter knows; those
    /// of floating-point arithmetic are among them.
    UnsupportedInstruction(u8),
}

} // verus!
