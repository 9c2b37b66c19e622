//! The state of a machine and what each instruction does to it, as functions
//! on mathematical values.

use crate::common::{Error, OpCode, Register};
use crate::parser::{instruction_parse_type, InstructionParseType};
use crate::runtime::utils::{
    first_register_field, fits_immediate20, fits_immediate24, fits_signed_immediate20,
    immediate20_field, immediate24_field, instruction_immediate, instruction_register,
    instruction_register_and_immediate, instruction_two_registers, last_register_field,
    lemma_decode_immediate, lemma_decode_register, lemma_decode_register_and_immediate,
    lemma_decode_two_registers, opcode_field, signed_immediate20_field,
};
use vstd::prelude::*;

verus! {

// ---------------------------------------------------------------------------
// Memory as a sequence of bytes
// ---------------------------------------------------------------------------
/// The 16-bit number whose little-endian bytes are `b0`, `b1`.
pub open spec fn half_from_bytes(b0: u8, b1: u8) -> u16 {
    (b0 as u16) | ((b1 as u16) << 8)
}

/// The 32-bit number whose little-endian bytes are `b0` to `b3`.
pub open spec fn word_from_bytes(b0: u8, b1: u8, b2: u8, b3: u8) -> u32 {
    (b0 as u32) | ((b1 as u32) << 8) | ((b2 as u32) << 16) | ((b3 as u32) << 24)
}

/// Byte `k` (0 is the lowest) of a 32-bit number.
pub open spec fn word_byte(value: u32, k: int) -> u8 {
    if k == 0 {
        (value & 0xFF) as u8
    } else if k == 1 {
        ((value >> 8) & 0xFF) as u8
    } else if k == 2 {
        ((value >> 16) & 0xFF) as u8
    } else {
        ((value >> 24) & 0xFF) as u8
    }
}

/// Byte `k` (0 is the lower) of a 16-bit number.
pub open spec fn half_byte(value: u16, k: int) -> u8 {
    if k == 0 {
        (value & 0xFF) as u8
    } else {
        ((value >> 8) & 0xFF) as u8
    }
}

/// Whether the `width` bytes from `pos` on all lie inside a memory of `len`
/// bytes.
pub open spec fn in_bounds(len: nat, pos: u32, width: int) -> bool {
    pos + width <= len
}

/// What reading 8 bits at `pos` gives: the byte, or nothing out of bounds.
pub open spec fn read_u8_of(memory: Seq<u8>, pos: u32) -> Option<u8> {
    if in_bounds(memory.len(), pos, 1) {
        Some(memory[pos as int])
    } else {
        None
    }
}

/// What reading 16 bits at `pos` gives: the little-endian number, or nothing
/// out of bounds.
pub open spec fn read_u16_of(memory: Seq<u8>, pos: u32) -> Option<u16> {
    if in_bounds(memory.len(), pos, 2) {
        Some(half_from_bytes(memory[pos as int], memory[pos + 1]))
    } else {
        None
    }
}

/// What reading 32 bits at `pos` gives: the little-endian number, or nothing
/// out of bounds.
pub open spec fn read_u32_of(memory: Seq<u8>, pos: u32) -> Option<u32> {
    if in_bounds(memory.len(), pos, 4) {
        Some(
            word_from_bytes(
                memory[pos as int],
                memory[pos + 1],
                memory[pos + 2],
                memory[pos + 3],
            ),
        )
    } else {
        None
    }
}

/// Memory after writing 8 bits at `pos`; unchanged out of bounds.
pub open spec fn write_u8_to(memory: Seq<u8>, pos: u32, value: u8) -> Seq<u8> {
    if in_bounds(memory.len(), pos, 1) {
        memory.update(pos as int, value)
    } else {
        memory
    }
}

/// Memory after writing 16 bits at `pos`, little-endian; unchanged out of
/// bounds.
pub open spec fn write_u16_to(memory: Seq<u8>, pos: u32, value: u16) -> Seq<u8> {
    if in_bounds(memory.len(), pos, 2) {
        memory.update(pos as int, half_byte(value, 0)).update(pos + 1, half_byte(value, 1))
    } else {
        memory
    }
}

/// Memory after writing 32 bits at `pos`, little-endian; unchanged out of
/// bounds.
pub open spec fn write_u32_to(memory: Seq<u8>, pos: u32, value: u32) -> Seq<u8> {
    if in_bounds(memory.len(), pos, 4) {
        memory.update(pos as int, word_byte(value, 0)).update(pos + 1, word_byte(value, 1)).update(
            pos + 2,
            word_byte(value, 2),
        ).update(pos + 3, word_byte(value, 3))
    } else {
        memory
    }
}

// ---------------------------------------------------------------------------
// The state of a machine
// ---------------------------------------------------------------------------
/// What a virtual machine holds at one moment.
pub struct MachineState {
    /// The bytes of memory.
    pub memory: Seq<u8>,
    /// The register file, indexed by [`Register::index`].
    pub registers: Seq<u32>,
    /// Whether the machine has not yet been halted.
    pub running: bool,
    /// Everything the program has printed so far.
    pub stdout: Seq<u8>,
}

impl MachineState {
    /// The state has a full register file.
    pub open spec fn wf(self) -> bool {
        self.registers.len() == 12
    }

    /// The value of a register.
    pub open spec fn reg(self, reg: Register) -> u32 {
        self.registers[reg.index()]
    }

    /// The state after the machine itself writes a register.
    pub open spec fn with_reg(self, reg: Register, value: u32) -> MachineState {
        MachineState { registers: self.registers.update(reg.index(), value), ..self }
    }

    /// The state after the machine records an error.
    pub open spec fn with_error(self, err: Error) -> MachineState {
        self.with_reg(Register::ERR, err.code() as u32)
    }

    /// The state with other memory contents.
    pub open spec fn with_memory(self, memory: Seq<u8>) -> MachineState {
        MachineState { memory, ..self }
    }

    /// The state after a program writes a register: `IP` and `ERR` refuse the
    /// value and the machine records `ReadonlyRegister` instead.
    pub open spec fn user_write(self, reg: Register, value: u32) -> MachineState {
        if reg.is_readonly() {
            self.with_error(Error::ReadonlyRegister)
        } else {
            self.with_reg(reg, value)
        }
    }

    /// The machine stops before the next fetch: an error is recorded or the
    /// program has halted it.
    pub open spec fn stopped(self) -> bool {
        self.reg(Register::ERR) != 0 || !self.running
    }

    /// The exit code that the state stands for: `R1` without an error, else
    /// 32000 plus the error code.
    pub open spec fn exit_code(self) -> int {
        if self.reg(Register::ERR) == 0 {
            self.reg(Register::R1) as int
        } else {
            self.reg(Register::ERR) + 32000
        }
    }

    /// The state in which execution starts at `pos`: running, `IP` at `pos`,
    /// no error.
    pub open spec fn started_at(self, pos: u32) -> MachineState {
        MachineState { running: true, ..self }.with_reg(Register::IP, pos).with_reg(
            Register::ERR,
            0,
        )
    }
}

// ---------------------------------------------------------------------------
// Decoding
// ---------------------------------------------------------------------------
/// The state of a machine that was just created on `memory`: every register
/// is zero but `SP`, which holds the size of memory; nothing is printed, and
/// the machine is not running.
pub open spec fn initial_state(memory: Seq<u8>) -> MachineState {
    MachineState {
        memory,
        registers: Seq::new(12, |i: int| 0u32).update(Register::SP.index(), memory.len() as u32),
        running: false,
        stdout: Seq::empty(),
    }
}

/// An instruction word taken apart.
pub enum Instruction {
    /// An instruction on two registers.
    TwoRegisters(OpCode, Register, Register),
    /// An instruction on a register and an immediate.  The immediate is
    /// already extended to 32 bits: by sign for `LI`, by zeros otherwise.
    RegisterAndImmediate(OpCode, Register, u32),
    /// An instruction on one register.
    Register(OpCode, Register),
    /// An instruction on a 24-bit immediate.
    Immediate(OpCode, u32),
}

/// The immediate of a register-and-immediate instruction, extended to 32 bits.
pub open spec fn extended_immediate(op: OpCode, instruction: u32) -> u32 {
    if op == OpCode::LI {
        signed_immediate20_field(instruction)
    } else {
        immediate20_field(instruction)
    }
}

/// Takes an instruction word apart: `OpCode` where the opcode byte names no
/// instruction, `Register` where a register field that the instruction uses
/// names no register.
pub open spec fn decode(instruction: u32) -> Result<Instruction, Error> {
    match OpCode::numbered(opcode_field(instruction) as int) {
        None => Err(Error::OpCode),
        Some(op) => match instruction_parse_type(op) {
            InstructionParseType::TwoRegisters => match (
                Register::numbered(first_register_field(instruction) as int),
                Register::numbered(last_register_field(instruction) as int),
            ) {
                (Some(reg0), Some(reg1)) => Ok(Instruction::TwoRegisters(op, reg0, reg1)),
                _ => Err(Error::Register),
            },
            InstructionParseType::RegisterAndImmediate => match Register::numbered(
                first_register_field(instruction) as int,
            ) {
                Some(reg) => Ok(
                    Instruction::RegisterAndImmediate(
                        op,
                        reg,
                        extended_immediate(op, instruction),
                    ),
                ),
                None => Err(Error::Register),
            },
            InstructionParseType::Register => match Register::numbered(
                last_register_field(instruction) as int,
            ) {
                Some(reg) => Ok(Instruction::Register(op, reg)),
                None => Err(Error::Register),
            },
            _ => Ok(Instruction::Immediate(op, immediate24_field(instruction))),
        },
    }
}

// ---------------------------------------------------------------------------
// What each instruction does
// ---------------------------------------------------------------------------
/// The result of an arithmetic, bitwise or shift instruction on `x` and `y`.
/// Arithmetic wraps at 32 bits, division is unsigned and gives 0 for a zero
/// divisor, shifts use the low five bits of `y`.
pub open spec fn alu_result(op: OpCode, x: u32, y: u32) -> u32 {
    match op {
        OpCode::ADD | OpCode::ADDI => x.wrapping_add(y),
        OpCode::SUB | OpCode::SUBI => x.wrapping_sub(y),
        OpCode::MUL | OpCode::MULI => x.wrapping_mul(y),
        OpCode::DIV | OpCode::DIVI => if y == 0 {
            0
        } else {
            (x / y) as u32
        },
        OpCode::AND => x & y,
        OpCode::OR => x | y,
        OpCode::XOR => x ^ y,
        OpCode::SRL | OpCode::SRLI => x >> (y & 31),
        OpCode::SLL | OpCode::SLLI => x << (y & 31),
        _ => x,
    }
}

/// Whether the instruction is a division and `y` a zero divisor.
pub open spec fn divides_by_zero(op: OpCode, y: u32) -> bool {
    (op == OpCode::DIV || op == OpCode::DIVI) && y == 0
}

/// The state after an arithmetic, bitwise or shift instruction with operands
/// `x` and `y` and destination `dest`.  A zero divisor records
/// `DivisorNotZero` before the result, 0, is written.
pub open spec fn apply_alu(s: MachineState, op: OpCode, dest: Register, x: u32, y: u32) -> MachineState {
    let faulted = if divides_by_zero(op, y) {
        s.with_error(Error::DivisorNotZero)
    } else {
        s
    };
    faulted.user_write(dest, alu_result(op, x, y))
}

/// The state after a load of 32, 16 or 8 bits at `addr` into `dest`,
/// zero-extended.
pub open spec fn apply_load(s: MachineState, op: OpCode, dest: Register, addr: u32) -> MachineState {
    let loaded: Option<u32> = match op {
        OpCode::LW | OpCode::LWI => read_u32_of(s.memory, addr),
        OpCode::LH | OpCode::LHI => match read_u16_of(s.memory, addr) {
            Some(v) => Some(v as u32),
            None => None,
        },
        _ => match read_u8_of(s.memory, addr) {
            Some(v) => Some(v as u32),
            None => None,
        },
    };
    match loaded {
        Some(value) => s.user_write(dest, value),
        None => s.with_error(Error::Memory),
    }
}

/// The number of bytes that a load or store instruction moves.
pub open spec fn access_width(op: OpCode) -> int {
    match op {
        OpCode::LW | OpCode::LWI | OpCode::SW | OpCode::SWI => 4,
        OpCode::LH | OpCode::LHI | OpCode::SH | OpCode::SHI => 2,
        _ => 1,
    }
}

/// The state after a store of the low 32, 16 or 8 bits of `value` at `addr`.
pub open spec fn apply_store(s: MachineState, op: OpCode, value: u32, addr: u32) -> MachineState {
    if in_bounds(s.memory.len(), addr, access_width(op)) {
        match op {
            OpCode::SW | OpCode::SWI => s.with_memory(write_u32_to(s.memory, addr, value)),
            OpCode::SH | OpCode::SHI => s.with_memory(
                write_u16_to(s.memory, addr, (value & 0xFFFF) as u16),
            ),
            _ => s.with_memory(write_u8_to(s.memory, addr, (value & 0xFF) as u8)),
        }
    } else {
        s.with_error(Error::Memory)
    }
}

/// The state after a jump to `target`: the machine adds 4 to `IP` after every
/// instruction, so the jump leaves 4 less.
pub open spec fn apply_jump(s: MachineState, target: u32) -> MachineState {
    s.with_reg(Register::IP, target.wrapping_sub(4))
}

/// Whether a conditional jump on a register holding `x` is taken.  `JLZI` and
/// `JGZI` read `x` as a two's-complement number.
pub open spec fn jump_taken(op: OpCode, x: u32) -> bool {
    match op {
        OpCode::JZI => x == 0,
        OpCode::JNZI => x != 0,
        OpCode::JLZI => x >= 0x8000_0000,
        OpCode::JGZI => 0 < x < 0x8000_0000,
        _ => false,
    }
}

/// The state after system call `number`: 0 halts, 1 prints the `R2` bytes of
/// memory from `R1` on, anything else is an error.
pub open spec fn apply_syscall(s: MachineState, number: u32) -> MachineState {
    if number == 0 {
        MachineState { running: false, ..s }
    } else if number == 1 {
        let start = s.reg(Register::R1);
        let len = s.reg(Register::R2);
        if start + len <= s.memory.len() {
            MachineState { stdout: s.stdout + s.memory.subrange(start as int, start + len), ..s }
        } else {
            s.with_error(Error::Memory)
        }
    } else {
        s.with_error(Error::Syscall)
    }
}

/// The state after a decoded instruction, before `IP` moves on.
pub open spec fn apply(s: MachineState, instruction: Instruction) -> MachineState {
    match instruction {
        Instruction::TwoRegisters(op, reg0, reg1) => match op {
            OpCode::CPY => s.user_write(reg0, s.reg(reg1)),
            OpCode::LW | OpCode::LH | OpCode::LB => apply_load(s, op, reg0, s.reg(reg1)),
            OpCode::SW | OpCode::SH | OpCode::SB => apply_store(s, op, s.reg(reg0), s.reg(reg1)),
            _ => apply_alu(s, op, reg0, s.reg(reg0), s.reg(reg1)),
        },
        Instruction::RegisterAndImmediate(op, reg, imm) => match op {
            OpCode::LI => s.user_write(reg, imm),
            OpCode::LWI | OpCode::LHI | OpCode::LBI => apply_load(s, op, reg, imm),
            OpCode::SWI | OpCode::SHI | OpCode::SBI => apply_store(s, op, s.reg(reg), imm),
            OpCode::JZI | OpCode::JNZI | OpCode::JLZI | OpCode::JGZI => if jump_taken(
                op,
                s.reg(reg),
            ) {
                apply_jump(s, imm)
            } else {
                s
            },
            _ => apply_alu(s, op, reg, s.reg(reg), imm),
        },
        Instruction::Register(op, reg) => match op {
            OpCode::J => apply_jump(s, s.reg(reg)),
            _ => s.user_write(reg, !s.reg(reg)),
        },
        Instruction::Immediate(op, imm) => match op {
            OpCode::JI => apply_jump(s, imm),
            OpCode::JIL => apply_jump(
                s.with_reg(Register::RA, s.reg(Register::IP).wrapping_add(4)),
                imm,
            ),
            _ => apply_syscall(
                s.with_reg(Register::RA, s.reg(Register::IP).wrapping_add(4)),
                imm,
            ),
        },
    }
}

/// The state after the instruction word `instruction`, before `IP` moves on.
/// A word that does not decode records the error and changes nothing else.
pub open spec fn interpret(s: MachineState, instruction: u32) -> MachineState {
    match decode(instruction) {
        Ok(decoded) => apply(s, decoded),
        Err(err) => s.with_error(err),
    }
}

/// The state after fetching one instruction at `IP` and executing it.  A fetch
/// out of bounds records `Memory`.  Unless the machine stops, `IP` then moves
/// on by 4, wrapping.
pub open spec fn step(s: MachineState) -> MachineState {
    match read_u32_of(s.memory, s.reg(Register::IP)) {
        None => s.with_error(Error::Memory),
        Some(instruction) => {
            let t = interpret(s, instruction);
            if t.stopped() {
                t
            } else {
                t.with_reg(Register::IP, t.reg(Register::IP).wrapping_add(4))
            }
        },
    }
}

/// The state after stepping until the machine stops, for at most `budget`
/// steps.
pub open spec fn run_for(s: MachineState, budget: nat) -> MachineState
    decreases budget,
{
    if budget == 0 || s.stopped() {
        s
    } else {
        run_for(step(s), (budget - 1) as nat)
    }
}


// ---------------------------------------------------------------------------
// What holds of every step
// ---------------------------------------------------------------------------
/// The address that a decoded instruction jumps to in state `s`; `None` for an
/// instruction that is no jump, and for a conditional jump whose condition
/// does not hold.
pub open spec fn jump_target(s: MachineState, instruction: Instruction) -> Option<u32> {
    match instruction {
        Instruction::Register(op, reg) => if op == OpCode::J {
            Some(s.reg(reg))
        } else {
            None
        },
        Instruction::Immediate(op, imm) => if op == OpCode::JI || op == OpCode::JIL {
            Some(imm)
        } else {
            None
        },
        Instruction::RegisterAndImmediate(op, reg, imm) => if jump_taken(op, s.reg(reg)) {
            Some(imm)
        } else {
            None
        },
        _ => None,
    }
}

/// The address that the instruction at `IP` jumps to, if it can be fetched
/// and decoded and is a jump that is taken.
pub open spec fn next_jump_target(s: MachineState) -> Option<u32> {
    match read_u32_of(s.memory, s.reg(Register::IP)) {
        Some(instruction) => match decode(instruction) {
            Ok(decoded) => jump_target(s, decoded),
            Err(_) => None,
        },
        None => None,
    }
}

/// Of every step of a machine that has not stopped, exactly one of four
/// things is true: an error is recorded; or no error is recorded and the
/// machine is halted; or it runs on and a jump has set `IP` to its target; or
/// it runs on, there was no jump, and `IP` has advanced by 4.
pub proof fn lemma_step_outcome(s: MachineState)
    requires
        s.wf(),
        !s.stopped(),
    ensures
        step(s).wf(),
        step(s).reg(Register::ERR) != 0 || !step(s).running || match next_jump_target(s) {
            Some(target) => step(s).reg(Register::IP) == target,
            None => step(s).reg(Register::IP) == s.reg(Register::IP).wrapping_add(4),
        },
        step(s).reg(Register::ERR) <= 6,
{
    match read_u32_of(s.memory, s.reg(Register::IP)) {
        Some(instruction) => {
            match decode(instruction) {
                Ok(decoded) => {
                    lemma_apply_keeps_ip(s, decoded);
                },
                Err(_) => {},
            }
        },
        None => {},
    }
}

/// Once a machine has stopped, more budget changes nothing: a run that stops
/// within some budget ends in the same state under every larger one.
pub proof fn lemma_budget_is_enough(s: MachineState, enough: nat, more: nat)
    requires
        enough <= more,
        run_for(s, enough).stopped(),
    ensures
        run_for(s, more) == run_for(s, enough),
    decreases enough,
{
    if enough > 0 && !s.stopped() {
        lemma_budget_is_enough(step(s), (enough - 1) as nat, (more - 1) as nat);
    }
}

/// A decoded instruction leaves a full register file; it records no error
/// code above 6; and unless it records an error it leaves in `IP` its jump
/// target less 4, or `IP` itself where it does not jump.
pub proof fn lemma_apply_keeps_ip(s: MachineState, instruction: Instruction)
    requires
        s.wf(),
        s.reg(Register::ERR) == 0,
    ensures
        apply(s, instruction).wf(),
        apply(s, instruction).reg(Register::ERR) <= 6,
        apply(s, instruction).reg(Register::ERR) == 0 ==> apply(s, instruction).reg(Register::IP)
            == match jump_target(s, instruction) {
            Some(target) => target.wrapping_sub(4),
            None => s.reg(Register::IP),
        },
{
}

/// A program's write to `IP` or `ERR` records `ReadonlyRegister` and changes
/// nothing else: the value is not written, `IP` keeps what it held.
pub proof fn lemma_readonly_write(s: MachineState, reg: Register, value: u32)
    requires
        s.wf(),
        reg.is_readonly(),
    ensures
        s.user_write(reg, value) == s.with_error(Error::ReadonlyRegister),
        s.user_write(reg, value).reg(Register::ERR) == Error::ReadonlyRegister.code(),
        s.user_write(reg, value).reg(Register::IP) == s.reg(Register::IP),
        forall|other: Register|
            other != Register::ERR ==> s.user_write(reg, value).reg(other) == s.reg(other),
        s.user_write(reg, value).memory == s.memory,
{
}

/// The register that a decoded instruction writes its result to as the
/// program; `None` for stores, jumps and system calls, which write none.
pub open spec fn destination(instruction: Instruction) -> Option<Register> {
    match instruction {
        Instruction::TwoRegisters(op, reg0, _) => if op == OpCode::SW || op == OpCode::SH || op
            == OpCode::SB {
            None
        } else {
            Some(reg0)
        },
        Instruction::RegisterAndImmediate(op, reg, _) => if op == OpCode::SWI || op == OpCode::SHI
            || op == OpCode::SBI || op == OpCode::JZI || op == OpCode::JNZI || op == OpCode::JLZI
            || op == OpCode::JGZI {
            None
        } else {
            Some(reg)
        },
        Instruction::Register(op, reg) => if op == OpCode::J {
            None
        } else {
            Some(reg)
        },
        Instruction::Immediate(_, _) => None,
    }
}

/// An instruction whose destination is `IP` or `ERR` records
/// `ReadonlyRegister` and leaves `IP`, memory and output as they were, unless
/// it is a load whose access does not lie in memory.
pub proof fn lemma_readonly_destination(s: MachineState, instruction: Instruction)
    requires
        s.wf(),
        destination(instruction) matches Some(dest) && dest.is_readonly(),
        accessed_range(s, instruction) matches Some(range) ==> range.0 + range.1
            <= s.memory.len(),
    ensures
        apply(s, instruction).reg(Register::ERR) == Error::ReadonlyRegister.code(),
        apply(s, instruction).reg(Register::IP) == s.reg(Register::IP),
        apply(s, instruction).memory == s.memory,
        apply(s, instruction).stdout == s.stdout,
{
}

/// The bytes of memory that a decoded instruction reads or writes in state
/// `s`, beside its own: the address of the first and their number.  Loads and
/// stores access 4, 2 or 1 bytes at the address in the second register or in
/// the immediate; the print system call reads the `R2` bytes from `R1` on.
pub open spec fn accessed_range(s: MachineState, instruction: Instruction) -> Option<(u32, int)> {
    match instruction {
        Instruction::TwoRegisters(op, reg0, reg1) => if op == OpCode::LW || op == OpCode::SW || op
            == OpCode::LH || op == OpCode::SH || op == OpCode::LB || op == OpCode::SB {
            Some((s.reg(reg1), access_width(op)))
        } else {
            None
        },
        Instruction::RegisterAndImmediate(op, reg, imm) => if op == OpCode::LWI || op
            == OpCode::SWI || op == OpCode::LHI || op == OpCode::SHI || op == OpCode::LBI || op
            == OpCode::SBI {
            Some((imm, access_width(op)))
        } else {
            None
        },
        Instruction::Immediate(op, imm) => if op == OpCode::SYSCALLI && imm == 1 {
            Some((s.reg(Register::R1), s.reg(Register::R2) as int))
        } else {
            None
        },
        _ => None,
    }
}

/// An instruction whose access does not lie in memory records `Memory` and
/// leaves memory and output as they were.
pub proof fn lemma_access_out_of_bounds(s: MachineState, instruction: Instruction)
    requires
        s.wf(),
        accessed_range(s, instruction) matches Some(range) && range.0 + range.1 > s.memory.len(),
    ensures
        apply(s, instruction).reg(Register::ERR) == Error::Memory.code(),
        apply(s, instruction).memory == s.memory,
        apply(s, instruction).stdout == s.stdout,
{
}

/// An instruction whose access lies in memory records no `Memory` error.
pub proof fn lemma_access_in_bounds(s: MachineState, instruction: Instruction)
    requires
        s.wf(),
        s.reg(Register::ERR) == 0,
        accessed_range(s, instruction) matches Some(range) && range.0 + range.1 <= s.memory.len(),
    ensures
        apply(s, instruction).reg(Register::ERR) != Error::Memory.code(),
{
}

/// A fetch that does not lie in memory records `Memory` and changes nothing
/// else.
pub proof fn lemma_fetch_out_of_bounds(s: MachineState)
    requires
        s.wf(),
        s.reg(Register::IP) + 4 > s.memory.len(),
    ensures
        step(s) == s.with_error(Error::Memory),
        step(s).reg(Register::ERR) == Error::Memory.code(),
{
}

/// A division by zero into a register that programs can write records
/// `DivisorNotZero` and writes 0 to the register.
pub proof fn lemma_division_by_zero(s: MachineState, instruction: Instruction)
    requires
        s.wf(),
        match instruction {
            Instruction::TwoRegisters(op, dest, divisor) => op == OpCode::DIV && s.reg(divisor)
                == 0 && !dest.is_readonly(),
            Instruction::RegisterAndImmediate(op, dest, imm) => op == OpCode::DIVI && imm == 0
                && !dest.is_readonly(),
            _ => false,
        },
    ensures
        apply(s, instruction).reg(Register::ERR) == Error::DivisorNotZero.code(),
        match instruction {
            Instruction::TwoRegisters(_, dest, _) => apply(s, instruction).reg(dest) == 0,
            Instruction::RegisterAndImmediate(_, dest, _) => apply(s, instruction).reg(dest) == 0,
            _ => true,
        },
{
}

// ---------------------------------------------------------------------------
// Decoding what was encoded
// ---------------------------------------------------------------------------
/// Whether the immediate `value` survives the encoding of instruction `op` on
/// a register and an immediate.
pub open spec fn fits_extended_immediate(op: OpCode, value: u32) -> bool {
    if op == OpCode::LI {
        fits_signed_immediate20(value)
    } else {
        fits_immediate20(value)
    }
}

/// The word that encodes a decoded instruction.
pub open spec fn encode(instruction: Instruction) -> u32 {
    match instruction {
        Instruction::TwoRegisters(op, reg0, reg1) => instruction_two_registers(op, reg0, reg1),
        Instruction::RegisterAndImmediate(op, reg, imm) => instruction_register_and_immediate(
            op,
            reg,
            imm,
        ),
        Instruction::Register(op, reg) => instruction_register(op, reg),
        Instruction::Immediate(op, imm) => instruction_immediate(op, imm),
    }
}

/// Whether an instruction has the operands that its opcode takes, with an
/// immediate that fits its field.
pub open spec fn encodable(instruction: Instruction) -> bool {
    match instruction {
        Instruction::TwoRegisters(op, _, _) => instruction_parse_type(op)
            == InstructionParseType::TwoRegisters,
        Instruction::RegisterAndImmediate(op, _, imm) => instruction_parse_type(op)
            == InstructionParseType::RegisterAndImmediate && fits_extended_immediate(op, imm),
        Instruction::Register(op, _) => instruction_parse_type(op)
            == InstructionParseType::Register,
        Instruction::Immediate(op, imm) => instruction_parse_type(op)
            == InstructionParseType::Immediate && fits_immediate24(imm),
    }
}

/// Decoding the word that encodes an instruction gives the instruction back.
pub proof fn lemma_decode_encode(instruction: Instruction)
    requires
        encodable(instruction),
    ensures
        decode(encode(instruction)) == Ok::<Instruction, Error>(instruction),
{
    match instruction {
        Instruction::TwoRegisters(op, reg0, reg1) => {
            lemma_decode_two_registers(op, reg0, reg1);
            op.lemma_numbered_code();
            reg0.lemma_numbered_index();
            reg1.lemma_numbered_index();
        },
        Instruction::RegisterAndImmediate(op, reg, imm) => {
            lemma_decode_register_and_immediate(op, reg, imm);
            op.lemma_numbered_code();
            reg.lemma_numbered_index();
        },
        Instruction::Register(op, reg) => {
            lemma_decode_register(op, reg);
            op.lemma_numbered_code();
            reg.lemma_numbered_index();
        },
        Instruction::Immediate(op, imm) => {
            lemma_decode_immediate(op, imm);
            op.lemma_numbered_code();
        },
    }
}

/// Reading a word back from its four bytes gives the word.
pub proof fn lemma_word_from_its_bytes(word: u32)
    ensures
        word_from_bytes(
            word_byte(word, 0),
            word_byte(word, 1),
            word_byte(word, 2),
            word_byte(word, 3),
        ) == word,
{
    assert(((word & 0xFF) as u8) as u32 | ((((word >> 8) & 0xFF) as u8) as u32) << 8 | ((((word
        >> 16) & 0xFF) as u8) as u32) << 16 | ((((word >> 24) & 0xFF) as u8) as u32) << 24 == word)
        by (bit_vector);
}

} // verus!
