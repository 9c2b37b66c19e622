//! Memory and the virtual machine.  What instructions do is defined in
//! [`machine`], how they are encoded in [`utils`].

pub mod machine;
pub mod utils;

use crate::common::{Error, OpCode, Register, ERROR_START_NUM};
use crate::runtime::machine::{
    apply_alu, apply_load, apply_store, apply_syscall, in_bounds, initial_state, interpret,
    read_u16_of, read_u32_of, read_u8_of, run_for, step, word_byte, write_u16_to, write_u32_to,
    write_u8_to, MachineState,
};
use crate::runtime::utils::{
    first_register_field, immediate16_field, immediate20_field, immediate24_field,
    last_register_field, middle_register_field, opcode_field, sign_extend,
    signed_immediate20_field,
};
use vstd::prelude::*;

verus! {

/// A memory that a virtual machine can run on: a fixed number of bytes, read
/// and written as little-endian numbers of 8, 16 or 32 bits.
pub trait Interpreter {
    /// The bytes of the memory.
    spec fn memory(&self) -> Seq<u8>;

    /// Reads 32 bits at `pos`; `None` where they do not all lie in memory.
    #[must_use]
    fn read_u32(&self, pos: u32) -> (value: Option<u32>)
        ensures
            value == read_u32_of(self.memory(), pos),
    ;

    /// Writes 32 bits at `pos`; `false`, and nothing written, where they do
    /// not all lie in memory.
    #[must_use]
    fn write_u32(&mut self, pos: u32, value: u32) -> (written: bool)
        ensures
            written == in_bounds(old(self).memory().len(), pos, 4),
            final(self).memory() == write_u32_to(old(self).memory(), pos, value),
    ;

    /// Reads 16 bits at `pos`; `None` where they do not all lie in memory.
    #[must_use]
    fn read_u16(&self, pos: u32) -> (value: Option<u16>)
        ensures
            value == read_u16_of(self.memory(), pos),
    ;

    /// Writes 16 bits at `pos`; `false`, and nothing written, where they do
    /// not all lie in memory.
    #[must_use]
    fn write_u16(&mut self, pos: u32, value: u16) -> (written: bool)
        ensures
            written == in_bounds(old(self).memory().len(), pos, 2),
            final(self).memory() == write_u16_to(old(self).memory(), pos, value),
    ;

    /// Reads the byte at `pos`; `None` where it does not lie in memory.
    #[must_use]
    fn read_u8(&self, pos: u32) -> (value: Option<u8>)
        ensures
            value == read_u8_of(self.memory(), pos),
    ;

    /// Writes the byte at `pos`; `false`, and nothing written, where it does
    /// not lie in memory.
    #[must_use]
    fn write_u8(&mut self, pos: u32, value: u8) -> (written: bool)
        ensures
            written == in_bounds(old(self).memory().len(), pos, 1),
            final(self).memory() == write_u8_to(old(self).memory(), pos, value),
    ;

    /// The number of bytes of memory.
    fn len(&self) -> (len: u32)
        ensures
            len == self.memory().len(),
    ;
}

/// Size of a [`BinaryInterpreter`]'s memory: 4 MiB.
pub const BINARY_INTERPRETER_MEM_SIZE: u32 = 4194304;

/// Memory of [`BINARY_INTERPRETER_MEM_SIZE`] bytes that starts with `image` and
/// is zero after it.
pub open spec fn loaded_memory(image: Seq<u8>) -> Seq<u8> {
    Seq::new(
        BINARY_INTERPRETER_MEM_SIZE as nat,
        |i: int|
            if i < image.len() {
                image[i]
            } else {
                0u8
            },
    )
}

/// The bytes of a program given as instruction words: each word in
/// little-endian order.
pub open spec fn program_bytes(program: Seq<u32>) -> Seq<u8> {
    Seq::new(4 * program.len(), |i: int| word_byte(program[i / 4], i % 4))
}

/// Each byte cut out of a number fits a byte.
proof fn lemma_byte_ranges(value: u32, half: u16)
    by (bit_vector)
    ensures
        value & 0xFF <= 0xFF,
        (value >> 8) & 0xFF <= 0xFF,
        (value >> 16) & 0xFF <= 0xFF,
        (value >> 24) & 0xFF <= 0xFF,
        value & 0xFFFF <= 0xFFFF,
        half & 0xFF <= 0xFF,
        (half >> 8) & 0xFF <= 0xFF,
{
}

/// A flat memory of 4 MiB held in one buffer.
#[derive(PartialEq, Debug)]
pub struct BinaryInterpreter {
    memory: Vec<u8>,
}

impl BinaryInterpreter {
    #[verifier::type_invariant]
    spec fn has_full_size(&self) -> bool {
        self.memory@.len() == BINARY_INTERPRETER_MEM_SIZE
    }

    /// A memory of zeros.
    pub fn new() -> (interpreter: BinaryInterpreter)
        ensures
            interpreter.memory() == loaded_memory(Seq::empty()),
    {
        let memory = vec![0u8; BINARY_INTERPRETER_MEM_SIZE as usize];
        assert(memory@ =~= loaded_memory(Seq::empty()));
        BinaryInterpreter { memory }
    }

    /// A memory that holds `program` from byte 0 on, each word in little-endian
    /// order, and zeros after it; `None` where the program is larger than
    /// memory.
    pub fn new_with_program(program: &[u32]) -> (interpreter: Option<BinaryInterpreter>)
        ensures
            interpreter is Some <==> 4 * program@.len() <= BINARY_INTERPRETER_MEM_SIZE,
            interpreter matches Some(i) ==> i.memory() == loaded_memory(program_bytes(program@)),
    {
        if program.len() > (BINARY_INTERPRETER_MEM_SIZE / 4) as usize {
            return None;
        }
        let mut memory = vec![0u8; BINARY_INTERPRETER_MEM_SIZE as usize];
        let mut pos: usize = 0;
        while pos < program.len()
            invariant
                pos <= program@.len(),
                4 * program@.len() <= BINARY_INTERPRETER_MEM_SIZE,
                memory@.len() == BINARY_INTERPRETER_MEM_SIZE,
                forall|i: int|
                    0 <= i < 4 * pos ==> #[trigger] memory@[i] == word_byte(program@[i / 4], i % 4),
                forall|i: int| 4 * pos <= i < memory@.len() ==> #[trigger] memory@[i] == 0,
            decreases program@.len() - pos,
        {
            let word = program[pos];
            proof {
                lemma_byte_ranges(word, 0);
            }
            memory[4 * pos] = (word & 0xFF) as u8;
            memory[4 * pos + 1] = ((word >> 8) & 0xFF) as u8;
            memory[4 * pos + 2] = ((word >> 16) & 0xFF) as u8;
            memory[4 * pos + 3] = ((word >> 24) & 0xFF) as u8;
            pos = pos + 1;
        }
        assert(memory@ =~= loaded_memory(program_bytes(program@)));
        Some(BinaryInterpreter { memory })
    }

    /// A memory that holds `initial_memory` from byte 0 on and zeros after it;
    /// `None` where the image is larger than memory.
    pub fn new_with_initial(initial_memory: &Vec<u8>) -> (interpreter: Option<BinaryInterpreter>)
        ensures
            interpreter is Some <==> initial_memory@.len() <= BINARY_INTERPRETER_MEM_SIZE,
            interpreter matches Some(i) ==> i.memory() == loaded_memory(initial_memory@),
    {
        if initial_memory.len() > BINARY_INTERPRETER_MEM_SIZE as usize {
            return None;
        }
        let mut memory = vec![0u8; BINARY_INTERPRETER_MEM_SIZE as usize];
        let mut pos: usize = 0;
        while pos < initial_memory.len()
            invariant
                pos <= initial_memory@.len() <= BINARY_INTERPRETER_MEM_SIZE,
                memory@.len() == BINARY_INTERPRETER_MEM_SIZE,
                forall|i: int| 0 <= i < pos ==> #[trigger] memory@[i] == initial_memory@[i],
                forall|i: int| pos <= i < memory@.len() ==> #[trigger] memory@[i] == 0,
            decreases initial_memory@.len() - pos,
        {
            memory[pos] = initial_memory[pos];
            pos = pos + 1;
        }
        assert(memory@ =~= loaded_memory(initial_memory@));
        Some(BinaryInterpreter { memory })
    }
}

impl Interpreter for BinaryInterpreter {
    closed spec fn memory(&self) -> Seq<u8> {
        self.memory@
    }

    fn read_u32(&self, pos: u32) -> (value: Option<u32>) {
        if pos as u64 + 4 <= self.memory.len() as u64 {
            let p = pos as usize;
            Some(
                (self.memory[p] as u32) | ((self.memory[p + 1] as u32) << 8) | ((self.memory[p
                    + 2] as u32) << 16) | ((self.memory[p + 3] as u32) << 24),
            )
        } else {
            None
        }
    }

    fn write_u32(&mut self, pos: u32, value: u32) -> (written: bool) {
        if pos as u64 + 4 <= self.memory.len() as u64 {
            let p = pos as usize;
            proof {
                use_type_invariant(&*self);
                lemma_byte_ranges(value, 0);
            }
            self.memory[p] = (value & 0xFF) as u8;
            self.memory[p + 1] = ((value >> 8) & 0xFF) as u8;
            self.memory[p + 2] = ((value >> 16) & 0xFF) as u8;
            self.memory[p + 3] = ((value >> 24) & 0xFF) as u8;
            true
        } else {
            false
        }
    }

    fn read_u16(&self, pos: u32) -> (value: Option<u16>) {
        if pos as u64 + 2 <= self.memory.len() as u64 {
            let p = pos as usize;
            Some((self.memory[p] as u16) | ((self.memory[p + 1] as u16) << 8))
        } else {
            None
        }
    }

    fn write_u16(&mut self, pos: u32, value: u16) -> (written: bool) {
        if pos as u64 + 2 <= self.memory.len() as u64 {
            let p = pos as usize;
            proof {
                use_type_invariant(&*self);
                lemma_byte_ranges(0, value);
            }
            self.memory[p] = (value & 0xFF) as u8;
            self.memory[p + 1] = ((value >> 8) & 0xFF) as u8;
            true
        } else {
            false
        }
    }

    fn read_u8(&self, pos: u32) -> (value: Option<u8>) {
        if (pos as u64) < self.memory.len() as u64 {
            Some(self.memory[pos as usize])
        } else {
            None
        }
    }

    fn write_u8(&mut self, pos: u32, value: u8) -> (written: bool) {
        if (pos as u64) < self.memory.len() as u64 {
            proof {
                use_type_invariant(&*self);
            }
            self.memory[pos as usize] = value;
            true
        } else {
            false
        }
    }

    fn len(&self) -> (len: u32) {
        proof {
            use_type_invariant(self);
        }
        self.memory.len() as u32
    }
}


/// The most instructions that one call of [`VirtualMachine::execute`] runs.
pub const EXECUTION_BUDGET: u64 = 0xFFFF_FFFF_FFFF_FFFF;

/// Virtual machine that executes machine code held in an [`Interpreter`]'s
/// memory.  What programs print is collected in a buffer.
pub struct VirtualMachine<InterpreterImpl: Interpreter> {
    interpreter: InterpreterImpl,
    registers: [u32; 12],
    running: bool,
    stdout: Vec<u8>,
}

/// A virtual machine on a [`BinaryInterpreter`].
pub type BinaryVirtualMachine = VirtualMachine<BinaryInterpreter>;

impl<InterpreterImpl: Interpreter> View for VirtualMachine<InterpreterImpl> {
    type V = MachineState;

    closed spec fn view(&self) -> MachineState {
        MachineState {
            memory: self.interpreter.memory(),
            registers: self.registers@,
            running: self.running,
            stdout: self.stdout@,
        }
    }
}

/// Each field of an instruction word fits its width.
proof fn lemma_field_ranges(instruction: u32)
    by (bit_vector)
    ensures
        (instruction >> 24) & 0xFF <= 0xFF,
        (instruction >> 20) & 0xF <= 0xF,
        (instruction >> 16) & 0xF <= 0xF,
        instruction & 0xF <= 0xF,
{
}

/// The low five bits of a number are a shift amount below 32.
proof fn lemma_shift_amount(y: u32)
    by (bit_vector)
    ensures
        y & 31 < 32,
{
}

impl<InterpreterImpl: Interpreter> VirtualMachine<InterpreterImpl> {
    /// Creates a machine on `interpreter`: every register is zero but `SP`,
    /// which holds the size of memory; nothing is printed, and the machine is
    /// not running.
    pub fn new(interpreter: InterpreterImpl) -> (vm: VirtualMachine<InterpreterImpl>)
        ensures
            vm@ == initial_state(interpreter.memory()),
            vm@.wf(),
    {
        let mut result = VirtualMachine {
            interpreter,
            registers: [0u32; 12],
            running: false,
            stdout: Vec::new(),
        };
        let len = result.interpreter.len();
        result.write_register_value(Register::SP, len);
        assert(result@.registers =~= initial_state(interpreter.memory()).registers);
        result
    }

    /// Sets every register to zero.  Memory, output and the running flag stay.
    pub fn reset(&mut self)
        ensures
            final(self)@ == (MachineState {
                registers: Seq::new(12, |i: int| 0u32),
                ..old(self)@
            }),
    {
        self.registers = [0u32; 12];
        assert(self@.registers =~= Seq::new(12, |i: int| 0u32));
    }

    /// Executes the program from address 0 on; see [`VirtualMachine::execute`].
    pub fn execute_first(&mut self) -> (code: u32)
        ensures
            final(self)@ == run_for(old(self)@.started_at(0), EXECUTION_BUDGET as nat),
            code == final(self)@.exit_code(),
    {
        self.execute(0)
    }

    /// Executes the program from address `pos` on: fetches and executes
    /// instructions until one halts the machine or records an error, or until
    /// [`EXECUTION_BUDGET`] instructions have run.  Returns `R1` where no error
    /// is recorded, else [`ERROR_START_NUM`] plus the error code.
    pub fn execute(&mut self, pos: u32) -> (code: u32)
        ensures
            final(self)@ == run_for(old(self)@.started_at(pos), EXECUTION_BUDGET as nat),
            code == final(self)@.exit_code(),
    {
        self.start(pos);
        let ghost start = self@;
        let mut steps: u64 = 0;
        while steps < EXECUTION_BUDGET && !self.is_stopped()
            invariant
                self@.wf(),
                self@.reg(Register::ERR) <= 6,
                run_for(self@, (EXECUTION_BUDGET - steps) as nat) == run_for(
                    start,
                    EXECUTION_BUDGET as nat,
                ),
            decreases EXECUTION_BUDGET - steps,
        {
            self.step();
            steps = steps + 1;
        }
        let error_value = self.read_register_value(Register::ERR);
        if error_value == 0 {
            self.read_register_value(Register::R1)
        } else {
            error_value + ERROR_START_NUM
        }
    }

    /// Makes the machine ready to execute from address `pos` on: it is running,
    /// `IP` holds `pos`, and no error is recorded.
    pub fn start(&mut self, pos: u32)
        ensures
            final(self)@ == old(self)@.started_at(pos),
            final(self)@.wf(),
            !final(self)@.stopped(),
    {
        self.running = true;
        self.write_register_value(Register::IP, pos);
        self.write_register_value(Register::ERR, 0);
    }

    /// Whether the machine stops before the next fetch.
    pub fn is_stopped(&self) -> (stopped: bool)
        ensures
            stopped == self@.stopped(),
    {
        self.read_register_value(Register::ERR) != 0 || !self.running
    }

    /// Fetches the instruction at `IP` and executes it.  A fetch out of bounds
    /// records `Memory`.  Unless the machine stops, `IP` then moves on by 4.
    pub fn step(&mut self)
        ensures
            final(self)@ == step(old(self)@),
            final(self)@.wf(),
            old(self)@.reg(Register::ERR) <= 6 ==> final(self)@.reg(Register::ERR) <= 6,
    {
        let instruction = self.interpreter.read_u32(self.read_register_value(Register::IP));
        match instruction {
            Some(parsed_instruction) => {
                self.interpret_instruction(parsed_instruction);
                if !self.is_stopped() {
                    let next = self.read_register_value(Register::IP).wrapping_add(4);
                    self.write_register_value(Register::IP, next);
                }
            },
            None => {
                self.write_error(Error::Memory);
            },
        }
    }

    /// Executes one instruction word, without moving `IP` on.
    fn interpret_instruction(&mut self, instruction: u32)
        ensures
            final(self)@ == interpret(old(self)@, instruction),
            old(self)@.reg(Register::ERR) <= 6 ==> final(self)@.reg(Register::ERR) <= 6,
    {
        let opcode = OpCode::from_u8(Self::get_opcode(instruction));
        match opcode {
            Some(opcode) => {
                match opcode {
                    OpCode::SYSCALLI => {
                        self.write_next_instruction_address();
                        self.syscall(Self::get_immediate(instruction));
                    },
                    OpCode::CPY
                    | OpCode::LW
                    | OpCode::SW
                    | OpCode::LH
                    | OpCode::SH
                    | OpCode::LB
                    | OpCode::SB => {
                        self.binary_register_operation(instruction, opcode);
                    },
                    OpCode::LI => {
                        let (reg0, imm1) = Self::get_register_and_twos_complement_immediate(
                            instruction,
                        );
                        match Register::from_u8(reg0) {
                            Some(reg_value0) => {
                                self.write_user_register_value(reg_value0, imm1);
                            },
                            None => {
                                self.write_error(Error::Register);
                            },
                        }
                    },
                    OpCode::LWI
                    | OpCode::SWI
                    | OpCode::LHI
                    | OpCode::SHI
                    | OpCode::LBI
                    | OpCode::SBI => {
                        self.binary_register_and_immediate_operation(instruction, opcode);
                    },
                    OpCode::ADD
                    | OpCode::SUB
                    | OpCode::MUL
                    | OpCode::DIV
                    | OpCode::AND
                    | OpCode::OR
                    | OpCode::XOR
                    | OpCode::SRL
                    | OpCode::SLL => {
                        self.binary_register_operation_write0(instruction, opcode);
                    },
                    OpCode::ADDI
                    | OpCode::SUBI
                    | OpCode::MULI
                    | OpCode::DIVI
                    | OpCode::SRLI
                    | OpCode::SLLI => {
                        self.binary_register_and_immediate_operation_write0(instruction, opcode);
                    },
                    OpCode::J => {
                        let reg = Self::get_registers(instruction);
                        match Register::from_u8(reg) {
                            Some(reg_value) => {
                                let address = self.read_user_register_value(reg_value);
                                self.write_register_value(Register::IP, address.wrapping_sub(4));
                            },
                            None => {
                                self.write_error(Error::Register);
                            },
                        }
                    },
                    OpCode::JI => {
                        let address = Self::get_immediate(instruction);
                        self.write_register_value(Register::IP, address.wrapping_sub(4));
                    },
                    OpCode::JIL => {
                        let address = Self::get_immediate(instruction);
                        self.write_next_instruction_address();
                        self.write_register_value(Register::IP, address.wrapping_sub(4));
                    },
                    OpCode::JZI | OpCode::JNZI | OpCode::JLZI | OpCode::JGZI => {
                        self.unary_check_write_ip(instruction, opcode);
                    },
                    OpCode::NOT => {
                        let reg = Self::get_registers(instruction);
                        match Register::from_u8(reg) {
                            Some(reg_value) => {
                                let val = self.read_user_register_value(reg_value);
                                self.write_user_register_value(reg_value, !val);
                            },
                            None => {
                                self.write_error(Error::Register);
                            },
                        }
                    },
                }
            },
            None => {
                self.write_error(Error::OpCode);
            },
        }
    }

    /// Conditional jump: writes the immediate address, less 4, to `IP` if the
    /// instruction's condition holds of its register.
    fn unary_check_write_ip(&mut self, instruction: u32, opcode: OpCode)
        requires
            OpCode::numbered(opcode_field(instruction) as int) == Some(opcode),
            opcode == OpCode::JZI || opcode == OpCode::JNZI || opcode == OpCode::JLZI || opcode
                == OpCode::JGZI,
        ensures
            final(self)@ == interpret(old(self)@, instruction),
            old(self)@.reg(Register::ERR) <= 6 ==> final(self)@.reg(Register::ERR) <= 6,
    {
        let (reg, imm) = Self::get_register_and_immediate(instruction);
        match Register::from_u8(reg) {
            Some(reg_value) => {
                let val = self.read_user_register_value(reg_value);
                let taken = match opcode {
                    OpCode::JZI => val == 0,
                    OpCode::JNZI => val != 0,
                    OpCode::JLZI => val >= 0x8000_0000,
                    _ => 0 < val && val < 0x8000_0000,
                };
                if taken {
                    self.write_register_value(Register::IP, imm.wrapping_sub(4));
                }
            },
            None => {
                self.write_error(Error::Register);
            },
        }
    }

    /// Arithmetic, bitwise or shift instruction on a register and an
    /// immediate; the result goes to the register.
    fn binary_register_and_immediate_operation_write0(&mut self, instruction: u32, opcode: OpCode)
        requires
            OpCode::numbered(opcode_field(instruction) as int) == Some(opcode),
            opcode == OpCode::ADDI || opcode == OpCode::SUBI || opcode == OpCode::MULI || opcode
                == OpCode::DIVI || opcode == OpCode::SRLI || opcode == OpCode::SLLI,
        ensures
            final(self)@ == interpret(old(self)@, instruction),
            old(self)@.reg(Register::ERR) <= 6 ==> final(self)@.reg(Register::ERR) <= 6,
    {
        let (reg, imm) = Self::get_register_and_immediate(instruction);
        match Register::from_u8(reg) {
            Some(reg_value) => {
                let val = self.read_user_register_value(reg_value);
                self.alu_write(opcode, reg_value, val, imm);
            },
            None => {
                self.write_error(Error::Register);
            },
        }
    }

    /// Load or store at an immediate address.
    fn binary_register_and_immediate_operation(&mut self, instruction: u32, opcode: OpCode)
        requires
            OpCode::numbered(opcode_field(instruction) as int) == Some(opcode),
            opcode == OpCode::LWI || opcode == OpCode::SWI || opcode == OpCode::LHI || opcode
                == OpCode::SHI || opcode == OpCode::LBI || opcode == OpCode::SBI,
        ensures
            final(self)@ == interpret(old(self)@, instruction),
            old(self)@.reg(Register::ERR) <= 6 ==> final(self)@.reg(Register::ERR) <= 6,
    {
        let (reg, imm) = Self::get_register_and_immediate(instruction);
        match Register::from_u8(reg) {
            Some(reg_value) => {
                match opcode {
                    OpCode::LWI | OpCode::LHI | OpCode::LBI => {
                        self.load(opcode, reg_value, imm);
                    },
                    _ => {
                        let value = self.read_user_register_value(reg_value);
                        self.store(opcode, value, imm);
                    },
                }
            },
            None => {
                self.write_error(Error::Register);
            },
        }
    }

    /// Arithmetic, bitwise or shift instruction on two registers; the result
    /// goes to the first.
    fn binary_register_operation_write0(&mut self, instruction: u32, opcode: OpCode)
        requires
            OpCode::numbered(opcode_field(instruction) as int) == Some(opcode),
            opcode == OpCode::ADD || opcode == OpCode::SUB || opcode == OpCode::MUL || opcode
                == OpCode::DIV || opcode == OpCode::AND || opcode == OpCode::OR || opcode
                == OpCode::XOR || opcode == OpCode::SRL || opcode == OpCode::SLL,
        ensures
            final(self)@ == interpret(old(self)@, instruction),
            old(self)@.reg(Register::ERR) <= 6 ==> final(self)@.reg(Register::ERR) <= 6,
    {
        let (reg0, reg1) = Self::get_two_registers(instruction);
        match (Register::from_u8(reg0), Register::from_u8(reg1)) {
            (Some(reg_value0), Some(reg_value1)) => {
                let val0 = self.read_user_register_value(reg_value0);
                let val1 = self.read_user_register_value(reg_value1);
                self.alu_write(opcode, reg_value0, val0, val1);
            },
            _ => {
                self.write_error(Error::Register);
            },
        }
    }

    /// Copy, load or store on two registers; the second holds the source or
    /// the address.
    fn binary_register_operation(&mut self, instruction: u32, opcode: OpCode)
        requires
            OpCode::numbered(opcode_field(instruction) as int) == Some(opcode),
            opcode == OpCode::CPY || opcode == OpCode::LW || opcode == OpCode::SW || opcode
                == OpCode::LH || opcode == OpCode::SH || opcode == OpCode::LB || opcode
                == OpCode::SB,
        ensures
            final(self)@ == interpret(old(self)@, instruction),
            old(self)@.reg(Register::ERR) <= 6 ==> final(self)@.reg(Register::ERR) <= 6,
    {
        let (reg0, reg1) = Self::get_two_registers(instruction);
        match (Register::from_u8(reg0), Register::from_u8(reg1)) {
            (Some(reg_value0), Some(reg_value1)) => {
                match opcode {
                    OpCode::CPY => {
                        let value = self.read_user_register_value(reg_value1);
                        self.write_user_register_value(reg_value0, value);
                    },
                    OpCode::LW | OpCode::LH | OpCode::LB => {
                        let addr = self.read_user_register_value(reg_value1);
                        self.load(opcode, reg_value0, addr);
                    },
                    _ => {
                        let value = self.read_user_register_value(reg_value0);
                        let addr = self.read_user_register_value(reg_value1);
                        self.store(opcode, value, addr);
                    },
                }
            },
            _ => {
                self.write_error(Error::Register);
            },
        }
    }

    /// Computes an arithmetic, bitwise or shift instruction on `x` and `y` and
    /// writes the result to `dest` as the program.  A zero divisor records
    /// `DivisorNotZero` first and gives 0.
    fn alu_write(&mut self, opcode: OpCode, dest: Register, x: u32, y: u32)
        ensures
            final(self)@ == apply_alu(old(self)@, opcode, dest, x, y),
            old(self)@.reg(Register::ERR) <= 6 ==> final(self)@.reg(Register::ERR) <= 6,
    {
        proof {
            lemma_shift_amount(y);
        }
        let result = match opcode {
            OpCode::ADD | OpCode::ADDI => x.wrapping_add(y),
            OpCode::SUB | OpCode::SUBI => x.wrapping_sub(y),
            OpCode::MUL | OpCode::MULI => x.wrapping_mul(y),
            OpCode::DIV | OpCode::DIVI => {
                if y == 0 {
                    self.write_error(Error::DivisorNotZero);
                    0
                } else {
                    x / y
                }
            },
            OpCode::AND => x & y,
            OpCode::OR => x | y,
            OpCode::XOR => x ^ y,
            OpCode::SRL | OpCode::SRLI => x >> (y & 31),
            OpCode::SLL | OpCode::SLLI => x << (y & 31),
            _ => x,
        };
        self.write_user_register_value(dest, result);
    }

    /// Loads 32, 16 or 8 bits at `addr` into `dest`, zero-extended.
    fn load(&mut self, opcode: OpCode, dest: Register, addr: u32)
        ensures
            final(self)@ == apply_load(old(self)@, opcode, dest, addr),
            old(self)@.reg(Register::ERR) <= 6 ==> final(self)@.reg(Register::ERR) <= 6,
    {
        let loaded: Option<u32> = match opcode {
            OpCode::LW | OpCode::LWI => self.interpreter.read_u32(addr),
            OpCode::LH | OpCode::LHI => match self.interpreter.read_u16(addr) {
                Some(v) => Some(v as u32),
                None => None,
            },
            _ => match self.interpreter.read_u8(addr) {
                Some(v) => Some(v as u32),
                None => None,
            },
        };
        match loaded {
            Some(value) => {
                self.write_user_register_value(dest, value);
            },
            None => {
                self.write_error(Error::Memory);
            },
        }
    }

    /// Stores the low 32, 16 or 8 bits of `value` at `addr`.
    fn store(&mut self, opcode: OpCode, value: u32, addr: u32)
        requires
            opcode == OpCode::SW || opcode == OpCode::SH || opcode == OpCode::SB || opcode
                == OpCode::SWI || opcode == OpCode::SHI || opcode == OpCode::SBI,
        ensures
            final(self)@ == apply_store(old(self)@, opcode, value, addr),
            old(self)@.reg(Register::ERR) <= 6 ==> final(self)@.reg(Register::ERR) <= 6,
    {
        proof {
            lemma_byte_ranges(value, 0);
        }
        let written: bool;
        match opcode {
            OpCode::SW | OpCode::SWI => {
                written = self.interpreter.write_u32(addr, value);
            },
            OpCode::SH | OpCode::SHI => {
                written = self.interpreter.write_u16(addr, (value & 0xFFFF) as u16);
            },
            _ => {
                written = self.interpreter.write_u8(addr, (value & 0xFF) as u8);
            },
        }
        if !written {
            self.write_error(Error::Memory);
        }
    }

    /// Saves the address of the next instruction in `RA`.
    fn write_next_instruction_address(&mut self)
        ensures
            final(self)@ == old(self)@.with_reg(
                Register::RA,
                old(self)@.reg(Register::IP).wrapping_add(4),
            ),
    {
        let next = self.read_register_value(Register::IP).wrapping_add(4);
        self.write_register_value(Register::RA, next);
    }

    /// Whether programs are barred from writing `reg`: true of `IP` and `ERR`.
    pub fn is_readonly(reg: Register) -> (readonly: bool)
        ensures
            readonly == reg.is_readonly(),
    {
        match reg {
            Register::IP | Register::ERR => true,
            _ => false,
        }
    }

    /// Records an error in `ERR`.
    fn write_error(&mut self, err: Error)
        ensures
            final(self)@ == old(self)@.with_error(err),
            final(self)@.reg(Register::ERR) <= 6,
    {
        self.write_register_value(Register::ERR, err.to_u32());
    }

    /// Writes `value` to the register numbered `reg`, as the machine; records
    /// `Register` where there is no such register.
    pub fn write_unknown_register_value(&mut self, reg: u8, value: u32)
        ensures
            final(self)@ == match Register::numbered(reg as int) {
                Some(r) => old(self)@.with_reg(r, value),
                None => old(self)@.with_error(Error::Register),
            },
    {
        match Register::from_u8(reg) {
            Some(reg_value) => {
                self.write_register_value(reg_value, value);
            },
            None => {
                self.write_error(Error::Register);
            },
        }
    }

    /// Writes `value` to `reg` as a program does: `IP` and `ERR` keep their
    /// value and `ReadonlyRegister` is recorded instead.
    pub fn write_user_register_value(&mut self, reg: Register, value: u32)
        ensures
            final(self)@ == old(self)@.user_write(reg, value),
            reg.is_readonly() ==> final(self)@.reg(Register::ERR)
                == Error::ReadonlyRegister.code() && final(self)@.reg(Register::IP) == old(
                self,
            )@.reg(Register::IP),
            old(self)@.reg(Register::ERR) <= 6 ==> final(self)@.reg(Register::ERR) <= 6,
    {
        if Self::is_readonly(reg) {
            self.write_error(Error::ReadonlyRegister);
        } else {
            self.write_register_value(reg, value);
        }
    }

    /// Writes `value` to `reg` as the machine does, whatever the register.
    pub fn write_register_value(&mut self, reg: Register, value: u32)
        ensures
            final(self)@ == old(self)@.with_reg(reg, value),
            final(self)@.wf(),
    {
        self.registers[reg.to_usize()] = value;
    }

    /// Reads `reg` as a program does.
    pub fn read_user_register_value(&self, reg: Register) -> (value: u32)
        ensures
            value == self@.reg(reg),
    {
        self.read_register_value(reg)
    }

    /// Reads `reg`.
    pub fn read_register_value(&self, reg: Register) -> (value: u32)
        ensures
            value == self@.reg(reg),
    {
        self.registers[reg.to_usize()]
    }

    /// System call `syscall`: 0 halts the machine, 1 prints the `R2` bytes of
    /// memory from `R1` on, anything else records `Syscall`.
    fn syscall(&mut self, syscall: u32)
        ensures
            final(self)@ == apply_syscall(old(self)@, syscall),
            old(self)@.reg(Register::ERR) <= 6 ==> final(self)@.reg(Register::ERR) <= 6,
    {
        if syscall == 0 {
            self.running = false;
        } else if syscall == 1 {
            let start = self.read_register_value(Register::R1);
            let len = self.read_register_value(Register::R2);
            let mem_len = self.interpreter.len();
            if start as u64 + len as u64 <= mem_len as u64 {
                let ghost before = self@;
                let mut done: u32 = 0;
                while done < len
                    invariant
                        done <= len,
                        start + len <= before.memory.len() <= u32::MAX,
                        self@.memory == before.memory,
                        self@.registers == before.registers,
                        self@.running == before.running,
                        self@.stdout == before.stdout + before.memory.subrange(
                            start as int,
                            start + done,
                        ),
                    decreases len - done,
                {
                    let byte = self.interpreter.read_u8(start + done);
                    if let Some(b) = byte {
                        self.stdout.push(b);
                    }
                    done = done + 1;
                    assert(self@.stdout =~= before.stdout + before.memory.subrange(
                        start as int,
                        start + done,
                    ));
                }
            } else {
                self.write_error(Error::Memory);
            }
        } else {
            self.write_error(Error::Syscall);
        }
    }

    /// The opcode byte of an instruction word: bits 31..24.
    pub fn get_opcode(instruction: u32) -> (opcode: u8)
        ensures
            opcode == opcode_field(instruction),
    {
        proof {
            lemma_field_ranges(instruction);
        }
        ((instruction >> 24) & 0xFF) as u8
    }

    /// The 24-bit immediate of an instruction word: bits 23..0.
    pub fn get_immediate(instruction: u32) -> (imm: u32)
        ensures
            imm == immediate24_field(instruction),
    {
        instruction & 0xFF_FFFF
    }

    /// The register number of a single-register instruction: bits 3..0.
    pub fn get_registers(instruction: u32) -> (reg: u8)
        ensures
            reg == last_register_field(instruction),
    {
        proof {
            lemma_field_ranges(instruction);
        }
        (instruction & 0xF) as u8
    }

    /// The register numbers of a two-register instruction: bits 23..20 and
    /// bits 3..0.
    pub fn get_two_registers(instruction: u32) -> (regs: (u8, u8))
        ensures
            regs.0 == first_register_field(instruction),
            regs.1 == last_register_field(instruction),
    {
        proof {
            lemma_field_ranges(instruction);
        }
        (((instruction >> 20) & 0xF) as u8, (instruction & 0xF) as u8)
    }

    /// The register number and the zero-extended 20-bit immediate of an
    /// instruction word: bits 23..20 and bits 19..0.
    pub fn get_register_and_immediate(instruction: u32) -> (fields: (u8, u32))
        ensures
            fields.0 == first_register_field(instruction),
            fields.1 == immediate20_field(instruction),
    {
        proof {
            lemma_field_ranges(instruction);
        }
        (((instruction >> 20) & 0xF) as u8, instruction & 0xF_FFFF)
    }

    /// The register number and the sign-extended 20-bit immediate of an
    /// instruction word.
    pub fn get_register_and_twos_complement_immediate(instruction: u32) -> (fields: (u8, u32))
        ensures
            fields.0 == first_register_field(instruction),
            fields.1 == signed_immediate20_field(instruction),
    {
        proof {
            lemma_field_ranges(instruction);
        }
        (
            ((instruction >> 20) & 0xF) as u8,
            Self::get_u32_from_immediate(instruction & 0xF_FFFF, 0xF_FFFF, 0x8_0000),
        )
    }

    /// The two register numbers and the 16-bit immediate of an instruction
    /// word: bits 23..20, bits 19..16 and bits 15..0.
    pub fn get_two_register_and_immediate(instruction: u32) -> (fields: (u8, u8, u32))
        ensures
            fields.0 == first_register_field(instruction),
            fields.1 == middle_register_field(instruction),
            fields.2 == immediate16_field(instruction),
    {
        proof {
            lemma_field_ranges(instruction);
        }
        (
            ((instruction >> 20) & 0xF) as u8,
            ((instruction >> 16) & 0xF) as u8,
            instruction & 0xFFFF,
        )
    }

    /// Extends a two's-complement immediate to 32 bits: `bitmask` selects the
    /// immediate's bits, `check_negative_bitmask` its sign bit.
    pub fn get_u32_from_immediate(imm: u32, bitmask: u32, check_negative_bitmask: u32) -> (value:
        u32)
        ensures
            value == sign_extend(imm, bitmask, check_negative_bitmask),
    {
        if imm & check_negative_bitmask == 0 {
            imm
        } else {
            imm | !bitmask
        }
    }

    /// The memory that the machine runs on.
    pub fn get_interpreter(&self) -> (interpreter: &InterpreterImpl)
        ensures
            interpreter.memory() == self@.memory,
    {
        &self.interpreter
    }

    /// The memory that the machine runs on, to change it.
    pub fn get_interpreter_mut(&mut self) -> (interpreter: &mut InterpreterImpl)
        ensures
            interpreter.memory() == old(self)@.memory,
            final(self)@ == old(self)@.with_memory(final(interpreter).memory()),
    {
        &mut self.interpreter
    }

    /// The register file, indexed by the registers' numbers.
    pub fn registers(&self) -> (registers: [u32; 12])
        ensures
            registers@ == self@.registers,
    {
        self.registers
    }

    /// What programs have printed since the machine was created.
    pub fn stdout(&self) -> (printed: &Vec<u8>)
        ensures
            printed@ == self@.stdout,
    {
        &self.stdout
    }
}


/// What a run of a program leaves behind.
#[derive(Debug, PartialEq, Eq)]
pub struct RunResult {
    /// The exit code: `R1`, or 32000 plus the error code.
    pub exit_code: u32,
    /// The registers at the end, indexed by their numbers.
    pub registers: [u32; 12],
    /// What the program printed.
    pub stdout: Vec<u8>,
}

/// The state in which a machine stops that was created on the image `image`
/// and started at address 0.
pub open spec fn final_state(image: Seq<u8>) -> MachineState {
    run_for(initial_state(loaded_memory(image)).started_at(0), EXECUTION_BUDGET as nat)
}

/// Loads an image at address 0 of a fresh memory and executes it from there.
/// `None` where the image is larger than memory.
pub fn run(initial_memory: &Vec<u8>) -> (result: Option<RunResult>)
    ensures
        result is Some <==> initial_memory@.len() <= BINARY_INTERPRETER_MEM_SIZE,
        result matches Some(r) ==> r.exit_code == final_state(initial_memory@).exit_code()
            && r.registers@ == final_state(initial_memory@).registers && r.stdout@ == final_state(
            initial_memory@,
        ).stdout,
{
    match BinaryInterpreter::new_with_initial(initial_memory) {
        Some(interpreter) => {
            let mut vm = VirtualMachine::new(interpreter);
            let exit_code = vm.execute_first();
            let registers = vm.registers();
            let stdout = vstd::slice::slice_to_vec(vm.stdout().as_slice());
            Some(RunResult { exit_code, registers, stdout })
        },
        None => None,
    }
}

} // verus!
