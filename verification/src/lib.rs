//! A minimal bytecode toolchain: a binary container codec, a canonical
//! instruction encoding, and a register-machine execution engine that
//! inverts the encoder exactly.
//!
//! The container format wraps a code segment and a data segment behind a
//! fixed magic number, a version, and a segment table. The instruction set
//! is straight-line arithmetic over sixteen general-purpose registers plus
//! an explicit halt; instructions come in three encoding classes whose
//! lengths are determined by the opcode's top nibble alone.

pub mod bytes;
pub mod container;
pub mod machine;
pub mod operation;
