//! Abstract operations and their canonical byte encoding.
//!
//! An `Operation` is an opcode with up to two integer operands. Opcodes fall
//! into three encoding classes, each with its own byte shape; the class is
//! recoverable from the first byte alone, so no length field is needed.

use vstd::prelude::*;

use crate::bytes::le_bytes;

verus! {

/// The byte that opens every register-to-immediate instruction.
pub const MARKER: u8 = 0x32;

/// An abstract instruction: an opcode and up to two operands.
///
/// `opt1` is a destination register id (0-15) whenever the opcode needs one;
/// `opt2` is either a 32-bit immediate or a source register id, depending on
/// the opcode class. The type itself performs no validation: validity is a
/// contract enforced by the encoder and the decoder.
#[derive(Debug, Clone, Copy)]
pub struct Operation {
    pub opcode: u8,
    pub opt1: i32,
    pub opt2: i32,
}

/// The first byte of a class A or class B instruction: the opcode in the top
/// nibble, the destination register id in the low nibble.
pub open spec fn head_byte(opcode: u8, reg: i32) -> u8 {
    (opcode * 16 + (reg as u8 % 16)) as u8
}

/// The canonical encoding of an operation.
///
/// - Class A (opcodes 1-5, register op immediate): marker byte, head byte,
///   then the immediate as four little-endian bytes - six bytes in all.
/// - Class B (opcodes 6-10, register op register): head byte, then the source
///   register id as a full byte - two bytes in all.
/// - Class C (opcodes 0xF0 and above, control): the opcode byte alone.
/// - Any other opcode encodes to the empty sequence.
pub open spec fn encode(op: Operation) -> Seq<u8> {
    if 1 <= op.opcode && op.opcode <= 5 {
        seq![MARKER, head_byte(op.opcode, op.opt1)] + le_bytes(op.opt2 as u32)
    } else if 6 <= op.opcode && op.opcode <= 10 {
        seq![head_byte(op.opcode, op.opt1), op.opt2 as u8]
    } else if op.opcode >= 0xF0 {
        seq![op.opcode]
    } else {
        Seq::empty()
    }
}

/// Operand validity, the contract the encoder enforces: whenever the opcode
/// addresses registers, the register operands name one of the sixteen
/// registers.
pub open spec fn operands_valid(op: Operation) -> bool {
    &&& 1 <= op.opcode && op.opcode <= 10 ==> 0 <= op.opt1 < 16
    &&& 6 <= op.opcode && op.opcode <= 10 ==> 0 <= op.opt2 < 16
}

impl Operation {
    /// Builds an operation; no validation happens here.
    pub fn new(opcode: u8, opt1: i32, opt2: i32) -> (r: Self)
        ensures
            r.opcode == opcode,
            r.opt1 == opt1,
            r.opt2 == opt2,
    {
        Self { opcode, opt1, opt2 }
    }

    /// Emits the canonical byte encoding of this operation.
    pub fn generate(&self) -> (r: Vec<u8>)
        requires
            operands_valid(*self),
        ensures
            r@ == encode(*self),
    {
        let mut out: Vec<u8> = Vec::new();
        if 1 <= self.opcode && self.opcode <= 5 {
            out.push(MARKER);
            out.push(self.opcode * 16 + (self.opt1 as u8));
            let imm: u32 = #[verifier::truncate] (self.opt2 as u32);
            out.push((imm % 256) as u8);
            out.push(((imm >> 8) % 256) as u8);
            out.push(((imm >> 16) % 256) as u8);
            out.push(((imm >> 24) % 256) as u8);
            assert(out@ =~= encode(*self));
        } else if 6 <= self.opcode && self.opcode <= 10 {
            out.push(self.opcode * 16 + (self.opt1 as u8));
            out.push(self.opt2 as u8);
            assert(out@ =~= encode(*self));
        } else if self.opcode >= 0xF0 {
            out.push(self.opcode);
            assert(out@ =~= encode(*self));
        } else {
            assert(out@ =~= encode(*self));
        }
        out
    }
}

} // verus!
