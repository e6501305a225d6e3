//! The register file and the fetch-decode-execute engine.
//!
//! The machine state is a register file and a flat memory image formed by
//! concatenating the code segment and the data segment at address zero. Each
//! step classifies the byte under the instruction pointer by its top nibble,
//! applies at most one register mutation, and advances the pointer by the
//! class's length. Arithmetic wraps around the machine word; division by
//! zero, a source register id of sixteen or more, and a fetch past the end
//! of the image are fatal faults.

use vstd::prelude::*;

use crate::bytes::{le32_at, le_bytes, lemma_le32_of_le_bytes, push_all};
use crate::container::{parse, parse_spec, FormatError};
use crate::operation::{encode, head_byte, operands_valid, Operation, MARKER};

verus! {

/// The sixteen general-purpose registers, the instruction pointer, and the
/// segment selector (held for the file format, read by no instruction).
#[derive(Debug, Clone)]
pub struct Register {
    pub regs: Vec<usize>,
    pub ip: usize,
    pub seg: usize,
}

/// Sixteen zeroed general-purpose registers: the start state of every run.
pub open spec fn zero_regs() -> Seq<usize> {
    Seq::new(16, |i: int| 0usize)
}

impl Register {
    /// A well-formed register file has exactly sixteen general registers.
    pub open spec fn wf(&self) -> bool {
        self.regs@.len() == 16
    }

    /// A fresh register file: every slot zero.
    pub fn new() -> (r: Register)
        ensures
            r.wf(),
            r.regs@ == zero_regs(),
            r.ip == 0,
            r.seg == 0,
    {
        let mut regs: Vec<usize> = Vec::new();
        let mut k: usize = 0;
        while k < 16
            invariant
                k <= 16,
                regs@.len() == k,
                forall|i: int| 0 <= i < k ==> regs@[i] == 0,
            decreases 16 - k,
        {
            regs.push(0);
            k = k + 1;
        }
        assert(regs@ =~= zero_regs());
        Register { regs, ip: 0, seg: 0 }
    }
}

/// How one execution run ended.
#[derive(Debug, Clone, Copy, PartialEq, Eq, Structural)]
pub enum Termination {
    /// The halt opcode was reached: the normal terminal state.
    Halted,
    /// The instruction pointer advanced past the configured memory size
    /// without reaching a halt.
    LimitReached,
    /// A divisor of zero, from an immediate or from a source register.
    DivideByZero,
    /// A source register id outside the sixteen-register space: a corrupted
    /// instruction stream.
    InternalFault,
    /// A fetch past the end of the loaded memory image.
    MemoryFault,
}

/// The arithmetic a step applies to the destination register: move, or
/// add, subtract or multiply wrapping around the machine word, or truncating
/// division (the caller rules out a zero divisor first).
pub open spec fn alu(kind: int, cur: usize, val: usize) -> usize {
    if kind == 1 {
        val
    } else if kind == 2 {
        vstd::wrapping::usize_specs::wrapping_add(cur, val)
    } else if kind == 3 {
        vstd::wrapping::usize_specs::wrapping_sub(cur, val)
    } else if kind == 4 {
        vstd::wrapping::usize_specs::wrapping_mul(cur, val)
    } else {
        cur / val
    }
}

/// The arithmetic kind of a register-to-register opcode: opcodes six to nine
/// are add, subtract, multiply and divide; opcode ten is a plain move.
pub open spec fn reg_op_kind(hi: int) -> int {
    if hi == 10 {
        1
    } else {
        hi - 4
    }
}

/// How many more steps a run can take before the instruction pointer passes
/// the memory bound: every step advances the pointer by at least one byte,
/// so this measures the interpreter's termination.
pub open spec fn steps_left(ip: nat, memsize: nat) -> nat {
    if ip > memsize {
        0
    } else {
        (memsize + 1 - ip) as nat
    }
}

/// The machine's small-step interpreter, run to a terminal state.
///
/// From `(regs, ip)` over the memory image `mem`, bounded by `memsize`:
/// a marker byte is consumed with no effect; a top nibble of one to five is
/// a register-immediate instruction of five further bytes; six to ten is a
/// register-register instruction of one further byte; fifteen with a zero
/// low nibble halts; anything else is an unknown opcode, tolerated as a
/// one-byte no-op. Execution ends when it halts, faults, or carries the
/// instruction pointer past `memsize`.
pub open spec fn run_from(regs: Seq<usize>, ip: nat, mem: Seq<u8>, memsize: nat) -> (
    Seq<usize>,
    Termination,
)
    decreases steps_left(ip, memsize),
{
    if ip > memsize {
        (regs, Termination::LimitReached)
    } else if ip >= mem.len() {
        (regs, Termination::MemoryFault)
    } else if mem[ip as int] == MARKER {
        run_from(regs, ip + 1, mem, memsize)
    } else {
        let b = mem[ip as int];
        let hi = b as int / 16;
        let dst = b as int % 16;
        if 1 <= hi && hi <= 5 {
            if ip + 5 > mem.len() {
                (regs, Termination::MemoryFault)
            } else {
                let imm = le32_at(mem, ip as int + 1) as usize;
                if hi == 5 && imm == 0 {
                    (regs, Termination::DivideByZero)
                } else {
                    run_from(regs.update(dst, alu(hi, regs[dst], imm)), ip + 5, mem, memsize)
                }
            }
        } else if 6 <= hi && hi <= 10 {
            if ip + 2 > mem.len() {
                (regs, Termination::MemoryFault)
            } else {
                let src = mem[ip as int + 1] as int;
                if src >= 16 {
                    (regs, Termination::InternalFault)
                } else if reg_op_kind(hi) == 5 && regs[src] == 0 {
                    (regs, Termination::DivideByZero)
                } else {
                    run_from(
                        regs.update(dst, alu(reg_op_kind(hi), regs[dst], regs[src])),
                        ip + 2,
                        mem,
                        memsize,
                    )
                }
            }
        } else if hi == 15 {
            if dst == 0 {
                (regs, Termination::Halted)
            } else {
                run_from(regs, ip + 1, mem, memsize)
            }
        } else {
            run_from(regs, ip + 1, mem, memsize)
        }
    }
}

/// Law: executing a mov-immediate instruction (opcode one) writes the
/// immediate into the destination register, changes no other register, and
/// advances the instruction pointer past the five instruction bytes.
pub proof fn lemma_mov_immediate(regs: Seq<usize>, ip: nat, mem: Seq<u8>, memsize: nat)
    requires
        regs.len() == 16,
        ip <= memsize,
        ip + 5 <= mem.len(),
        mem[ip as int] as int / 16 == 1,
    ensures
        ({
            let dst = mem[ip as int] as int % 16;
            let v = le32_at(mem, ip as int + 1) as usize;
            let regs2 = regs.update(dst, v);
            &&& run_from(regs, ip, mem, memsize) == run_from(regs2, ip + 5, mem, memsize)
            &&& regs2[dst] == v
            &&& forall|j: int| 0 <= j < 16 && j != dst ==> regs2[j] == regs[j]
        }),
{
}

/// Law: executing an add-register instruction (opcode six) leaves the
/// destination register holding the sum of its old value and the source
/// register's value, wrapping around the machine word, and changes no other
/// register. When the sum fits the machine word it is the plain sum.
pub proof fn lemma_add_register(regs: Seq<usize>, ip: nat, mem: Seq<u8>, memsize: nat)
    requires
        regs.len() == 16,
        ip <= memsize,
        ip + 2 <= mem.len(),
        mem[ip as int] as int / 16 == 6,
        mem[ip as int + 1] < 16,
    ensures
        ({
            let dst = mem[ip as int] as int % 16;
            let src = mem[ip as int + 1] as int;
            let sum = vstd::wrapping::usize_specs::wrapping_add(regs[dst], regs[src]);
            let regs2 = regs.update(dst, sum);
            &&& run_from(regs, ip, mem, memsize) == run_from(regs2, ip + 2, mem, memsize)
            &&& regs2[dst] == sum
            &&& regs[dst] + regs[src] <= usize::MAX ==> regs2[dst] == regs[dst] + regs[src]
            &&& forall|j: int| 0 <= j < 16 && j != dst ==> regs2[j] == regs[j]
        }),
{
}

/// Law: the register file is invariant in shape. However a run ends, it ends
/// with the sixteen general-purpose registers it started with: every step
/// mutates at most one existing slot.
pub proof fn lemma_run_preserves_register_count(
    regs: Seq<usize>,
    ip: nat,
    mem: Seq<u8>,
    memsize: nat,
)
    requires
        regs.len() == 16,
    ensures
        run_from(regs, ip, mem, memsize).0.len() == 16,
    decreases steps_left(ip, memsize),
{
    if ip > memsize || ip >= mem.len() {
    } else if mem[ip as int] == MARKER {
        lemma_run_preserves_register_count(regs, ip + 1, mem, memsize);
    } else {
        let b = mem[ip as int];
        let hi = b as int / 16;
        let dst = b as int % 16;
        if 1 <= hi && hi <= 5 {
            if ip + 5 <= mem.len() {
                let imm = le32_at(mem, ip as int + 1) as usize;
                if !(hi == 5 && imm == 0) {
                    lemma_run_preserves_register_count(
                        regs.update(dst, alu(hi, regs[dst], imm)),
                        ip + 5,
                        mem,
                        memsize,
                    );
                }
            }
        } else if 6 <= hi && hi <= 10 {
            if ip + 2 <= mem.len() {
                let src = mem[ip as int + 1] as int;
                if src < 16 && !(reg_op_kind(hi) == 5 && regs[src] == 0) {
                    lemma_run_preserves_register_count(
                        regs.update(dst, alu(reg_op_kind(hi), regs[dst], regs[src])),
                        ip + 2,
                        mem,
                        memsize,
                    );
                }
            }
        } else if hi == 15 {
            if dst != 0 {
                lemma_run_preserves_register_count(regs, ip + 1, mem, memsize);
            }
        } else {
            lemma_run_preserves_register_count(regs, ip + 1, mem, memsize);
        }
    }
}

/// Law: the execution engine inverts the encoder on register-immediate
/// instructions. Running over bytes that hold the encoding of a valid
/// class A operation applies exactly that operation to its destination
/// register and carries the instruction pointer past the six instruction
/// bytes. Excluded, besides an immediate divide by zero: the sub-immediate
/// on register two, whose head byte coincides with the marker byte and is
/// consumed as one.
pub proof fn lemma_engine_inverts_encoder_imm(
    op: Operation,
    regs: Seq<usize>,
    ip: nat,
    mem: Seq<u8>,
    memsize: nat,
)
    requires
        operands_valid(op),
        1 <= op.opcode && op.opcode <= 5,
        !(op.opcode == 3 && op.opt1 == 2),
        op.opcode == 5 ==> op.opt2 != 0,
        regs.len() == 16,
        ip + 1 <= memsize,
        ip + 6 <= mem.len(),
        mem.subrange(ip as int, ip as int + 6) == encode(op),
    ensures
        ({
            let v = (op.opt2 as u32) as usize;
            let regs2 = regs.update(
                op.opt1 as int,
                alu(op.opcode as int, regs[op.opt1 as int], v),
            );
            run_from(regs, ip, mem, memsize) == run_from(regs2, ip + 6, mem, memsize)
        }),
{
    let e = encode(op);
    let sub = mem.subrange(ip as int, ip as int + 6);
    assert(sub[0] == mem[ip as int] && sub[1] == mem[ip as int + 1] && sub[2] == mem[ip as int + 2]
        && sub[3] == mem[ip as int + 3] && sub[4] == mem[ip as int + 4] && sub[5] == mem[ip as int
        + 5]);
    assert(mem[ip as int] == e[0] && mem[ip as int + 1] == e[1] && mem[ip as int + 2] == e[2]
        && mem[ip as int + 3] == e[3] && mem[ip as int + 4] == e[4] && mem[ip as int + 5] == e[5]);
    assert(mem[ip as int] == MARKER);
    let b = mem[ip as int + 1];
    assert(b == head_byte(op.opcode, op.opt1));
    assert(b as int == op.opcode * 16 + op.opt1);
    assert(b as int / 16 == op.opcode && b as int % 16 == op.opt1);
    assert(b != MARKER);
    let x = op.opt2 as u32;
    lemma_le32_of_le_bytes(x);
    assert(mem[ip as int + 2] == le_bytes(x)[0] && mem[ip as int + 3] == le_bytes(x)[1] && mem[ip
        as int + 4] == le_bytes(x)[2] && mem[ip as int + 5] == le_bytes(x)[3]);
    assert(le32_at(mem, ip as int + 2) == x);
    if op.opcode == 5 {
        let y = op.opt2;
        assert(y as u32 != 0) by (bit_vector)
            requires
                y != 0,
        ;
    }
    assert(run_from(regs, ip, mem, memsize) == run_from(regs, ip + 1, mem, memsize));
}

/// Law: the execution engine inverts the encoder on register-to-register
/// instructions. Running over bytes that hold the encoding of a valid
/// class B operation applies exactly that operation to its destination
/// register and carries the instruction pointer past the two instruction
/// bytes. Excluded: a register divide whose source register holds zero.
pub proof fn lemma_engine_inverts_encoder_reg(
    op: Operation,
    regs: Seq<usize>,
    ip: nat,
    mem: Seq<u8>,
    memsize: nat,
)
    requires
        operands_valid(op),
        6 <= op.opcode && op.opcode <= 10,
        op.opcode == 9 ==> regs[op.opt2 as int] != 0,
        regs.len() == 16,
        ip <= memsize,
        ip + 2 <= mem.len(),
        mem.subrange(ip as int, ip as int + 2) == encode(op),
    ensures
        ({
            let regs2 = regs.update(
                op.opt1 as int,
                alu(reg_op_kind(op.opcode as int), regs[op.opt1 as int], regs[op.opt2 as int]),
            );
            run_from(regs, ip, mem, memsize) == run_from(regs2, ip + 2, mem, memsize)
        }),
{
    let e = encode(op);
    let sub = mem.subrange(ip as int, ip as int + 2);
    assert(sub[0] == mem[ip as int] && sub[1] == mem[ip as int + 1]);
    assert(mem[ip as int] == e[0] && mem[ip as int + 1] == e[1]);
    let b = mem[ip as int];
    assert(b == head_byte(op.opcode, op.opt1));
    assert(b as int == op.opcode * 16 + op.opt1);
    assert(b as int / 16 == op.opcode && b as int % 16 == op.opt1);
    assert(b != MARKER);
    assert(mem[ip as int + 1] == op.opt2 as u8);
    assert(mem[ip as int + 1] < 16);
}

/// Law: a div-immediate instruction (opcode five) with a zero immediate ends
/// the run with a divide-by-zero fault and leaves every register - the
/// destination included - unchanged.
pub proof fn lemma_div_immediate_zero(regs: Seq<usize>, ip: nat, mem: Seq<u8>, memsize: nat)
    requires
        ip <= memsize,
        ip + 5 <= mem.len(),
        mem[ip as int] as int / 16 == 5,
        le32_at(mem, ip as int + 1) == 0,
    ensures
        run_from(regs, ip, mem, memsize) == (regs, Termination::DivideByZero),
{
}

/// Law: a div-register instruction (opcode nine) whose source register holds
/// zero ends the run with a divide-by-zero fault and leaves every register -
/// the destination included - unchanged.
pub proof fn lemma_div_register_zero(regs: Seq<usize>, ip: nat, mem: Seq<u8>, memsize: nat)
    requires
        ip <= memsize,
        ip + 2 <= mem.len(),
        mem[ip as int] as int / 16 == 9,
        mem[ip as int + 1] < 16,
        regs[mem[ip as int + 1] as int] == 0,
    ensures
        run_from(regs, ip, mem, memsize) == (regs, Termination::DivideByZero),
{
}

/// Law: the halt opcode ends the run at once in the normal terminal state,
/// with no further register mutation, whatever bytes remain in the image.
pub proof fn lemma_halt(regs: Seq<usize>, ip: nat, mem: Seq<u8>, memsize: nat)
    requires
        ip <= memsize,
        ip < mem.len(),
        mem[ip as int] == 0xF0,
    ensures
        run_from(regs, ip, mem, memsize) == (regs, Termination::Halted),
{
}

/// A loaded machine: the configured memory size that bounds the instruction
/// pointer, the two segments of the program, and the debug flag the host
/// asked for.
pub struct VM {
    pub memory: usize,
    pub code_seg: Vec<u8>,
    pub data_seg: Vec<u8>,
    pub debug: bool,
}

impl VM {
    /// The flat memory image: code bytes, then data bytes, at address zero.
    pub open spec fn image(&self) -> Seq<u8> {
        self.code_seg@ + self.data_seg@
    }

    /// What running this machine from the zeroed start state yields.
    pub open spec fn run_spec(&self) -> (Seq<usize>, Termination) {
        run_from(zero_regs(), 0, self.image(), self.memory as nat)
    }

    /// Loads a machine from a container image: the container is parsed and
    /// its code and data segments become the program.
    pub fn from_bytes(memory: usize, debug: bool, raw: &Vec<u8>) -> (r: Result<VM, FormatError>)
        ensures
            (match r {
                Ok(vm) => {
                    &&& parse_spec(raw@) == Ok::<(Seq<u8>, Seq<u8>), FormatError>(
                        (vm.code_seg@, vm.data_seg@),
                    )
                    &&& vm.memory == memory
                    &&& vm.debug == debug
                },
                Err(e) => parse_spec(raw@) == Err::<(Seq<u8>, Seq<u8>), FormatError>(e),
            }),
    {
        match parse(raw) {
            Ok(segs) => {
                let (code_seg, data_seg) = segs;
                Ok(VM { memory, code_seg, data_seg, debug })
            },
            Err(e) => Err(e),
        }
    }

    /// Writes `value` into the general register named by `id`.
    pub fn change_register_by_id(register: &mut Register, id: u8, value: usize)
        requires
            old(register).wf(),
            id < 16,
        ensures
            final(register).wf(),
            final(register).regs@ == old(register).regs@.update(id as int, value),
            final(register).ip == old(register).ip,
            final(register).seg == old(register).seg,
    {
        register.regs.set(id as usize, value);
    }

    /// Reads the general register named by `id`.
    pub fn get_register_by_id(register: Register, id: u8) -> (r: usize)
        requires
            register.wf(),
            id < 16,
        ensures
            r == register.regs@[id as int],
    {
        register.regs[id as usize]
    }

    /// Reads a 32-bit little-endian value from four consecutive bytes of
    /// memory.
    pub fn get_u32(mem: &[u8], offset: usize) -> (r: u32)
        requires
            offset + 4 <= mem@.len(),
        ensures
            r == le32_at(mem@, offset as int),
    {
        (mem[offset] as u32) | (mem[offset + 1] as u32) << 8u32 | (mem[offset + 2] as u32) << 16u32
            | (mem[offset + 3] as u32) << 24u32
    }

    /// Runs the loaded program from the zeroed start state to its terminal
    /// state: the final register file and how the run ended.
    pub fn run(&self) -> (r: (Register, Termination))
        ensures
            r.0.wf(),
            r.0.regs@ == self.run_spec().0,
            r.1 == self.run_spec().1,
    {
        let mut ram: Vec<u8> = Vec::new();
        push_all(&mut ram, &self.code_seg);
        push_all(&mut ram, &self.data_seg);
        assert(ram@ =~= self.image());
        let mut register = Register::new();
        while register.ip <= self.memory
            invariant
                register.wf(),
                ram@ == self.image(),
                run_from(register.regs@, register.ip as nat, ram@, self.memory as nat)
                    == self.run_spec(),
            decreases steps_left(register.ip as nat, self.memory as nat),
        {
            let ip = register.ip;
            if ip >= ram.len() {
                return (register, Termination::MemoryFault);
            }
            let b = ram[ip];
            if b == MARKER {
                register.ip = ip + 1;
            } else {
                let hi = b / 16;
                let dst = (b % 16) as usize;
                if 1 <= hi && hi <= 5 {
                    if ram.len() - ip < 5 {
                        return (register, Termination::MemoryFault);
                    }
                    let imm = VM::get_u32(ram.as_slice(), ip + 1) as usize;
                    if hi == 5 && imm == 0 {
                        return (register, Termination::DivideByZero);
                    }
                    let cur = register.regs[dst];
                    let newval = if hi == 1 {
                        imm
                    } else if hi == 2 {
                        cur.wrapping_add(imm)
                    } else if hi == 3 {
                        cur.wrapping_sub(imm)
                    } else if hi == 4 {
                        cur.wrapping_mul(imm)
                    } else {
                        cur / imm
                    };
                    register.regs.set(dst, newval);
                    register.ip = ip + 5;
                } else if 6 <= hi && hi <= 10 {
                    if ram.len() - ip < 2 {
                        return (register, Termination::MemoryFault);
                    }
                    let src_id = ram[ip + 1];
                    if src_id >= 16 {
                        return (register, Termination::InternalFault);
                    }
                    let srcv = register.regs[src_id as usize];
                    let kind: u8 = if hi == 10 {
                        1
                    } else {
                        hi - 4
                    };
                    if kind == 5 && srcv == 0 {
                        return (register, Termination::DivideByZero);
                    }
                    let cur = register.regs[dst];
                    let newval = if kind == 1 {
                        srcv
                    } else if kind == 2 {
                        cur.wrapping_add(srcv)
                    } else if kind == 3 {
                        cur.wrapping_sub(srcv)
                    } else if kind == 4 {
                        cur.wrapping_mul(srcv)
                    } else {
                        cur / srcv
                    };
                    register.regs.set(dst, newval);
                    register.ip = ip + 2;
                } else if hi == 15 {
                    if b % 16 == 0 {
                        return (register, Termination::Halted);
                    }
                    register.ip = ip + 1;
                } else {
                    register.ip = ip + 1;
                }
            }
        }
        (register, Termination::LimitReached)
    }
}

} // verus!
