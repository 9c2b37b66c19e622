//! The registers, instructions and errors of the machine, with their numbers.

use vstd::prelude::*;

verus! {

/// The registers of the machine, in the order of their 4-bit numbers.
#[derive(PartialEq, Eq, Structural, PartialOrd, Debug, Clone, Copy)]
pub enum Register {
    /// General purpose register 0.
    R0,
    /// General purpose register 1; holds the exit code on halt.
    R1,
    /// General purpose register 2.
    R2,
    /// General purpose register 3.
    R3,
    /// General purpose register 4.
    R4,
    /// General purpose register 5.
    R5,
    /// General purpose register 6.
    R6,
    /// General purpose register 7.
    R7,
    /// Stack pointer.
    SP,
    /// Instruction pointer; read-only to programs.
    IP,
    /// Return address, written by calls and system calls.
    RA,
    /// Error code; read-only to programs.
    ERR,
}

/// Number of registers in the register file.
pub const REGISTER_COUNT: usize = 12;

impl Register {
    /// The register's number in an instruction word and its index in the register file.
    pub open spec fn index(self) -> int {
        match self {
            Register::R0 => 0,
            Register::R1 => 1,
            Register::R2 => 2,
            Register::R3 => 3,
            Register::R4 => 4,
            Register::R5 => 5,
            Register::R6 => 6,
            Register::R7 => 7,
            Register::SP => 8,
            Register::IP => 9,
            Register::RA => 10,
            Register::ERR => 11,
        }
    }

    /// The register with number `n`, if there is one: the inverse of [`Register::index`].
    pub open spec fn numbered(n: int) -> Option<Register> {
        if n == 0 {
            Some(Register::R0)
        } else if n == 1 {
            Some(Register::R1)
        } else if n == 2 {
            Some(Register::R2)
        } else if n == 3 {
            Some(Register::R3)
        } else if n == 4 {
            Some(Register::R4)
        } else if n == 5 {
            Some(Register::R5)
        } else if n == 6 {
            Some(Register::R6)
        } else if n == 7 {
            Some(Register::R7)
        } else if n == 8 {
            Some(Register::SP)
        } else if n == 9 {
            Some(Register::IP)
        } else if n == 10 {
            Some(Register::RA)
        } else if n == 11 {
            Some(Register::ERR)
        } else {
            None
        }
    }

    /// The register's number as a machine integer.
    pub fn to_u8(self) -> (n: u8)
        ensures
            n == self.index(),
            n < 12,
    {
        match self {
            Register::R0 => 0,
            Register::R1 => 1,
            Register::R2 => 2,
            Register::R3 => 3,
            Register::R4 => 4,
            Register::R5 => 5,
            Register::R6 => 6,
            Register::R7 => 7,
            Register::SP => 8,
            Register::IP => 9,
            Register::RA => 10,
            Register::ERR => 11,
        }
    }

    /// The register's index in the register file.
    pub fn to_usize(self) -> (n: usize)
        ensures
            n == self.index(),
            n < 12,
    {
        match self {
            Register::R0 => 0,
            Register::R1 => 1,
            Register::R2 => 2,
            Register::R3 => 3,
            Register::R4 => 4,
            Register::R5 => 5,
            Register::R6 => 6,
            Register::R7 => 7,
            Register::SP => 8,
            Register::IP => 9,
            Register::RA => 10,
            Register::ERR => 11,
        }
    }

    /// The register with number `n`, if there is one.
    pub fn from_u8(n: u8) -> (r: Option<Register>)
        ensures
            r == Register::numbered(n as int),
            r is Some <==> n < 12,
            r matches Some(reg) ==> reg.index() == n,
    {
        match n {
            0 => Some(Register::R0),
            1 => Some(Register::R1),
            2 => Some(Register::R2),
            3 => Some(Register::R3),
            4 => Some(Register::R4),
            5 => Some(Register::R5),
            6 => Some(Register::R6),
            7 => Some(Register::R7),
            8 => Some(Register::SP),
            9 => Some(Register::IP),
            10 => Some(Register::RA),
            11 => Some(Register::ERR),
            _ => None,
        }
    }

    /// Numbering a register and looking the number up gives the register back.
    pub proof fn lemma_numbered_index(self)
        ensures
            0 <= self.index() < 12,
            Register::numbered(self.index()) == Some(self),
    {
    }

    /// Whether programs are barred from writing the register.
    pub open spec fn is_readonly(self) -> bool {
        self == Register::IP || self == Register::ERR
    }
}

/// The instructions of the machine, in the order of their opcode bytes.
#[derive(PartialEq, Eq, Structural, PartialOrd, Debug, Clone, Copy)]
pub enum OpCode {
    /// `cpy`: Copy the second register into the first.
    CPY,
    /// `lw`: Load 32 bits from the address in the second register.
    LW,
    /// `sw`: Store 32 bits of the first register at the address in the second.
    SW,
    /// `lh`: Load 16 bits from the address in the second register.
    LH,
    /// `sh`: Store the low 16 bits of the first register at the address in the second.
    SH,
    /// `lb`: Load 8 bits from the address in the second register.
    LB,
    /// `sb`: Store the low 8 bits of the first register at the address in the second.
    SB,
    /// `li`: Load a sign-extended 20-bit immediate.
    LI,
    /// `add`: Wrapping addition of two registers.
    ADD,
    /// `sub`: Wrapping subtraction of two registers.
    SUB,
    /// `mul`: Wrapping multiplication of two registers.
    MUL,
    /// `div`: Unsigned division of two registers.
    DIV,
    /// `and`: Bitwise and of two registers.
    AND,
    /// `or`: Bitwise or of two registers.
    OR,
    /// `xor`: Bitwise exclusive or of two registers.
    XOR,
    /// `not`: Bitwise complement of a register.
    NOT,
    /// `j`: Jump to the address held in a register.
    J,
    /// `ji`: Jump to an immediate address.
    JI,
    /// `jil`: Call: store the next instruction's address in `RA`, then jump.
    JIL,
    /// `jzi`: Jump to an immediate address if the register is zero.
    JZI,
    /// `jnzi`: Jump to an immediate address if the register is not zero.
    JNZI,
    /// `jlzi`: Jump to an immediate address if the register is negative.
    JLZI,
    /// `jgzi`: Jump to an immediate address if the register is positive.
    JGZI,
    /// `syscalli`: System call selected by an immediate.
    SYSCALLI,
    /// `srl`: Logical shift right by a register.
    SRL,
    /// `sll`: Logical shift left by a register.
    SLL,
    /// `srli`: Logical shift right by an immediate.
    SRLI,
    /// `slli`: Logical shift left by an immediate.
    SLLI,
    /// `addi`: Wrapping addition of an immediate.
    ADDI,
    /// `subi`: Wrapping subtraction of an immediate.
    SUBI,
    /// `muli`: Wrapping multiplication by an immediate.
    MULI,
    /// `divi`: Unsigned division by an immediate.
    DIVI,
    /// `lwi`: Load 32 bits from an immediate address.
    LWI,
    /// `swi`: Store 32 bits at an immediate address.
    SWI,
    /// `lhi`: Load 16 bits from an immediate address.
    LHI,
    /// `shi`: Store the low 16 bits at an immediate address.
    SHI,
    /// `lbi`: Load 8 bits from an immediate address.
    LBI,
    /// `sbi`: Store the low 8 bits at an immediate address.
    SBI,
}

impl OpCode {
    /// The opcode byte of the instruction.
    pub open spec fn code(self) -> int {
        match self {
            OpCode::CPY => 0,
            OpCode::LW => 1,
            OpCode::SW => 2,
            OpCode::LH => 3,
            OpCode::SH => 4,
            OpCode::LB => 5,
            OpCode::SB => 6,
            OpCode::LI => 7,
            OpCode::ADD => 8,
            OpCode::SUB => 9,
            OpCode::MUL => 10,
            OpCode::DIV => 11,
            OpCode::AND => 12,
            OpCode::OR => 13,
            OpCode::XOR => 14,
            OpCode::NOT => 15,
            OpCode::J => 16,
            OpCode::JI => 17,
            OpCode::JIL => 18,
            OpCode::JZI => 19,
            OpCode::JNZI => 20,
            OpCode::JLZI => 21,
            OpCode::JGZI => 22,
            OpCode::SYSCALLI => 23,
            OpCode::SRL => 24,
            OpCode::SLL => 25,
            OpCode::SRLI => 26,
            OpCode::SLLI => 27,
            OpCode::ADDI => 28,
            OpCode::SUBI => 29,
            OpCode::MULI => 30,
            OpCode::DIVI => 31,
            OpCode::LWI => 32,
            OpCode::SWI => 33,
            OpCode::LHI => 34,
            OpCode::SHI => 35,
            OpCode::LBI => 36,
            OpCode::SBI => 37,
        }
    }

    /// The instruction with opcode byte `n`, if there is one: the inverse of [`OpCode::code`].
    pub open spec fn numbered(n: int) -> Option<OpCode> {
        if n == 0 {
            Some(OpCode::CPY)
        } else if n == 1 {
            Some(OpCode::LW)
        } else if n == 2 {
            Some(OpCode::SW)
        } else if n == 3 {
            Some(OpCode::LH)
        } else if n == 4 {
            Some(OpCode::SH)
        } else if n == 5 {
            Some(OpCode::LB)
        } else if n == 6 {
            Some(OpCode::SB)
        } else if n == 7 {
            Some(OpCode::LI)
        } else if n == 8 {
            Some(OpCode::ADD)
        } else if n == 9 {
            Some(OpCode::SUB)
        } else if n == 10 {
            Some(OpCode::MUL)
        } else if n == 11 {
            Some(OpCode::DIV)
        } else if n == 12 {
            Some(OpCode::AND)
        } else if n == 13 {
            Some(OpCode::OR)
        } else if n == 14 {
            Some(OpCode::XOR)
        } else if n == 15 {
            Some(OpCode::NOT)
        } else if n == 16 {
            Some(OpCode::J)
        } else if n == 17 {
            Some(OpCode::JI)
        } else if n == 18 {
            Some(OpCode::JIL)
        } else if n == 19 {
            Some(OpCode::JZI)
        } else if n == 20 {
            Some(OpCode::JNZI)
        } else if n == 21 {
            Some(OpCode::JLZI)
        } else if n == 22 {
            Some(OpCode::JGZI)
        } else if n == 23 {
            Some(OpCode::SYSCALLI)
        } else if n == 24 {
            Some(OpCode::SRL)
        } else if n == 25 {
            Some(OpCode::SLL)
        } else if n == 26 {
            Some(OpCode::SRLI)
        } else if n == 27 {
            Some(OpCode::SLLI)
        } else if n == 28 {
            Some(OpCode::ADDI)
        } else if n == 29 {
            Some(OpCode::SUBI)
        } else if n == 30 {
            Some(OpCode::MULI)
        } else if n == 31 {
            Some(OpCode::DIVI)
        } else if n == 32 {
            Some(OpCode::LWI)
        } else if n == 33 {
            Some(OpCode::SWI)
        } else if n == 34 {
            Some(OpCode::LHI)
        } else if n == 35 {
            Some(OpCode::SHI)
        } else if n == 36 {
            Some(OpCode::LBI)
        } else if n == 37 {
            Some(OpCode::SBI)
        } else {
            None
        }
    }

    /// The opcode byte as a machine integer.
    pub fn to_u8(self) -> (n: u8)
        ensures
            n == self.code(),
            n < 38,
    {
        match self {
            OpCode::CPY => 0,
            OpCode::LW => 1,
            OpCode::SW => 2,
            OpCode::LH => 3,
            OpCode::SH => 4,
            OpCode::LB => 5,
            OpCode::SB => 6,
            OpCode::LI => 7,
            OpCode::ADD => 8,
            OpCode::SUB => 9,
            OpCode::MUL => 10,
            OpCode::DIV => 11,
            OpCode::AND => 12,
            OpCode::OR => 13,
            OpCode::XOR => 14,
            OpCode::NOT => 15,
            OpCode::J => 16,
            OpCode::JI => 17,
            OpCode::JIL => 18,
            OpCode::JZI => 19,
            OpCode::JNZI => 20,
            OpCode::JLZI => 21,
            OpCode::JGZI => 22,
            OpCode::SYSCALLI => 23,
            OpCode::SRL => 24,
            OpCode::SLL => 25,
            OpCode::SRLI => 26,
            OpCode::SLLI => 27,
            OpCode::ADDI => 28,
            OpCode::SUBI => 29,
            OpCode::MULI => 30,
            OpCode::DIVI => 31,
            OpCode::LWI => 32,
            OpCode::SWI => 33,
            OpCode::LHI => 34,
            OpCode::SHI => 35,
            OpCode::LBI => 36,
            OpCode::SBI => 37,
        }
    }

    /// The instruction with opcode byte `n`, if there is one.
    pub fn from_u8(n: u8) -> (r: Option<OpCode>)
        ensures
            r == OpCode::numbered(n as int),
            r is Some <==> n < 38,
            r matches Some(op) ==> op.code() == n,
    {
        match n {
            0 => Some(OpCode::CPY),
            1 => Some(OpCode::LW),
            2 => Some(OpCode::SW),
            3 => Some(OpCode::LH),
            4 => Some(OpCode::SH),
            5 => Some(OpCode::LB),
            6 => Some(OpCode::SB),
            7 => Some(OpCode::LI),
            8 => Some(OpCode::ADD),
            9 => Some(OpCode::SUB),
            10 => Some(OpCode::MUL),
            11 => Some(OpCode::DIV),
            12 => Some(OpCode::AND),
            13 => Some(OpCode::OR),
            14 => Some(OpCode::XOR),
            15 => Some(OpCode::NOT),
            16 => Some(OpCode::J),
            17 => Some(OpCode::JI),
            18 => Some(OpCode::JIL),
            19 => Some(OpCode::JZI),
            20 => Some(OpCode::JNZI),
            21 => Some(OpCode::JLZI),
            22 => Some(OpCode::JGZI),
            23 => Some(OpCode::SYSCALLI),
            24 => Some(OpCode::SRL),
            25 => Some(OpCode::SLL),
            26 => Some(OpCode::SRLI),
            27 => Some(OpCode::SLLI),
            28 => Some(OpCode::ADDI),
            29 => Some(OpCode::SUBI),
            30 => Some(OpCode::MULI),
            31 => Some(OpCode::DIVI),
            32 => Some(OpCode::LWI),
            33 => Some(OpCode::SWI),
            34 => Some(OpCode::LHI),
            35 => Some(OpCode::SHI),
            36 => Some(OpCode::LBI),
            37 => Some(OpCode::SBI),
            _ => None,
        }
    }

    /// Numbering an instruction and looking the number up gives the instruction back.
    pub proof fn lemma_numbered_code(self)
        ensures
            0 <= self.code() < 38,
            OpCode::numbered(self.code()) == Some(self),
    {
    }

    /// The mnemonic of the instruction in assembly source.
    pub open spec fn mnemonic(self) -> Seq<char> {
        match self {
            OpCode::CPY => "cpy"@,
            OpCode::LW => "lw"@,
            OpCode::SW => "sw"@,
            OpCode::LH => "lh"@,
            OpCode::SH => "sh"@,
            OpCode::LB => "lb"@,
            OpCode::SB => "sb"@,
            OpCode::LI => "li"@,
            OpCode::ADD => "add"@,
            OpCode::SUB => "sub"@,
            OpCode::MUL => "mul"@,
            OpCode::DIV => "div"@,
            OpCode::AND => "and"@,
            OpCode::OR => "or"@,
            OpCode::XOR => "xor"@,
            OpCode::NOT => "not"@,
            OpCode::J => "j"@,
            OpCode::JI => "ji"@,
            OpCode::JIL => "jil"@,
            OpCode::JZI => "jzi"@,
            OpCode::JNZI => "jnzi"@,
            OpCode::JLZI => "jlzi"@,
            OpCode::JGZI => "jgzi"@,
            OpCode::SYSCALLI => "syscalli"@,
            OpCode::SRL => "srl"@,
            OpCode::SLL => "sll"@,
            OpCode::SRLI => "srli"@,
            OpCode::SLLI => "slli"@,
            OpCode::ADDI => "addi"@,
            OpCode::SUBI => "subi"@,
            OpCode::MULI => "muli"@,
            OpCode::DIVI => "divi"@,
            OpCode::LWI => "lwi"@,
            OpCode::SWI => "swi"@,
            OpCode::LHI => "lhi"@,
            OpCode::SHI => "shi"@,
            OpCode::LBI => "lbi"@,
            OpCode::SBI => "sbi"@,
        }
    }

    /// The mnemonic as an owned string.
    pub fn to_string(&self) -> (s: String)
        ensures
            s@ == self.mnemonic(),
    {
        let text: &str = match self {
            OpCode::CPY => "cpy",
            OpCode::LW => "lw",
            OpCode::SW => "sw",
            OpCode::LH => "lh",
            OpCode::SH => "sh",
            OpCode::LB => "lb",
            OpCode::SB => "sb",
            OpCode::LI => "li",
            OpCode::ADD => "add",
            OpCode::SUB => "sub",
            OpCode::MUL => "mul",
            OpCode::DIV => "div",
            OpCode::AND => "and",
            OpCode::OR => "or",
            OpCode::XOR => "xor",
            OpCode::NOT => "not",
            OpCode::J => "j",
            OpCode::JI => "ji",
            OpCode::JIL => "jil",
            OpCode::JZI => "jzi",
            OpCode::JNZI => "jnzi",
            OpCode::JLZI => "jlzi",
            OpCode::JGZI => "jgzi",
            OpCode::SYSCALLI => "syscalli",
            OpCode::SRL => "srl",
            OpCode::SLL => "sll",
            OpCode::SRLI => "srli",
            OpCode::SLLI => "slli",
            OpCode::ADDI => "addi",
            OpCode::SUBI => "subi",
            OpCode::MULI => "muli",
            OpCode::DIVI => "divi",
            OpCode::LWI => "lwi",
            OpCode::SWI => "swi",
            OpCode::LHI => "lhi",
            OpCode::SHI => "shi",
            OpCode::LBI => "lbi",
            OpCode::SBI => "sbi",
        };
        text.to_owned()
    }
}

/// The machine errors, in the order of their codes in the `ERR` register.
#[derive(PartialEq, Eq, Structural, PartialOrd, Debug, Clone, Copy)]
pub enum Error {
    /// No error occurred.
    NoError,
    /// The opcode byte names no instruction.
    OpCode,
    /// A register field names no register.
    Register,
    /// The system call number is unknown.
    Syscall,
    /// A memory access fell outside memory.
    Memory,
    /// A program tried to write a read-only register.
    ReadonlyRegister,
    /// A division had a zero divisor.
    DivisorNotZero,
}

impl Error {
    /// The value that the `ERR` register holds for the error.
    pub open spec fn code(self) -> int {
        match self {
            Error::NoError => 0,
            Error::OpCode => 1,
            Error::Register => 2,
            Error::Syscall => 3,
            Error::Memory => 4,
            Error::ReadonlyRegister => 5,
            Error::DivisorNotZero => 6,
        }
    }

    /// The error's code as a machine integer.
    pub fn to_u32(self) -> (n: u32)
        ensures
            n == self.code(),
            n <= 6,
    {
        match self {
            Error::NoError => 0,
            Error::OpCode => 1,
            Error::Register => 2,
            Error::Syscall => 3,
            Error::Memory => 4,
            Error::ReadonlyRegister => 5,
            Error::DivisorNotZero => 6,
        }
    }

    /// The error with code `n`, if there is one.
    pub fn from_u32(n: u32) -> (r: Option<Error>)
        ensures
            r is Some <==> n <= 6,
            r matches Some(e) ==> e.code() == n,
    {
        match n {
            0 => Some(Error::NoError),
            1 => Some(Error::OpCode),
            2 => Some(Error::Register),
            3 => Some(Error::Syscall),
            4 => Some(Error::Memory),
            5 => Some(Error::ReadonlyRegister),
            6 => Some(Error::DivisorNotZero),
            _ => None,
        }
    }
}

/// Exit codes from this number on report a machine error: the number plus the error's code.
pub const ERROR_START_NUM: u32 = 32000;

} // verus!
