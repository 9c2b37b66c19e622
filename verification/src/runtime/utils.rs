//! The layout of instruction words: encoders, and the fields that decoding
//! reads.

use crate::common::{OpCode, Register};
use vstd::prelude::*;

verus! {

// ---------------------------------------------------------------------------
// Fields of an instruction word
// ---------------------------------------------------------------------------
/// Bits 31..24 of an instruction word: the opcode byte.
pub open spec fn opcode_field(instruction: u32) -> u8 {
    ((instruction >> 24) & 0xFF) as u8
}

/// Bits 23..20 of an instruction word: the first register number.
pub open spec fn first_register_field(instruction: u32) -> u8 {
    ((instruction >> 20) & 0xF) as u8
}

/// Bits 19..16 of an instruction word: the middle register number of the
/// two-registers-and-immediate layout.
pub open spec fn middle_register_field(instruction: u32) -> u8 {
    ((instruction >> 16) & 0xF) as u8
}

/// Bits 3..0 of an instruction word: the last register number.
pub open spec fn last_register_field(instruction: u32) -> u8 {
    (instruction & 0xF) as u8
}

/// Bits 15..0 of an instruction word, zero-extended.
pub open spec fn immediate16_field(instruction: u32) -> u32 {
    instruction & 0xFFFF
}

/// Bits 19..0 of an instruction word, zero-extended.
pub open spec fn immediate20_field(instruction: u32) -> u32 {
    instruction & 0xF_FFFF
}

/// Bits 23..0 of an instruction word, zero-extended.
pub open spec fn immediate24_field(instruction: u32) -> u32 {
    instruction & 0xFF_FFFF
}

/// Reads the low bits selected by `bitmask` as a two's-complement number whose
/// sign bit is `check_negative_bitmask`, and extends it to 32 bits.
pub open spec fn sign_extend(imm: u32, bitmask: u32, check_negative_bitmask: u32) -> u32 {
    if imm & check_negative_bitmask == 0 {
        imm
    } else {
        imm | !bitmask
    }
}

/// Bits 19..0 of an instruction word, sign-extended from 20 to 32 bits.
pub open spec fn signed_immediate20_field(instruction: u32) -> u32 {
    sign_extend(immediate20_field(instruction), 0xF_FFFF, 0x8_0000)
}

// ---------------------------------------------------------------------------
// The four layouts (and the reserved fifth)
// ---------------------------------------------------------------------------
/// Single-register layout: opcode in bits 31..24, register in bits 3..0.
pub open spec fn instruction_register(opcode: OpCode, reg: Register) -> u32 {
    ((opcode.code() as u32) << 24) | (reg.index() as u32)
}

/// Immediate-only layout: opcode in bits 31..24, the low 24 bits of `imm` in
/// bits 23..0.
pub open spec fn instruction_immediate(opcode: OpCode, imm: u32) -> u32 {
    ((opcode.code() as u32) << 24) | (imm & 0xFF_FFFF)
}

/// Register-and-immediate layout: opcode in bits 31..24, register in bits
/// 23..20, the low 20 bits of `imm` in bits 19..0.
pub open spec fn instruction_register_and_immediate(opcode: OpCode, reg: Register, imm: u32) -> u32 {
    ((opcode.code() as u32) << 24) | ((reg.index() as u32) << 20) | (imm & 0xF_FFFF)
}

/// Two-register layout: opcode in bits 31..24, first register in bits 23..20,
/// second register in bits 3..0.
pub open spec fn instruction_two_registers(opcode: OpCode, reg0: Register, reg1: Register) -> u32 {
    ((opcode.code() as u32) << 24) | ((reg0.index() as u32) << 20) | (reg1.index() as u32)
}

/// Two-registers-and-immediate layout: opcode in bits 31..24, registers in bits
/// 23..20 and 19..16, the low 16 bits of `imm` in bits 15..0.
pub open spec fn instruction_two_registers_and_immediate(
    opcode: OpCode,
    reg0: Register,
    reg1: Register,
    imm: u32,
) -> u32 {
    ((opcode.code() as u32) << 24) | ((reg0.index() as u32) << 20) | ((reg1.index() as u32) << 16)
        | (imm & 0xFFFF)
}

/// Whether `imm` survives the zero-extended 20-bit immediate field.
pub open spec fn fits_immediate20(imm: u32) -> bool {
    imm <= 0xF_FFFF
}

/// Whether `imm` survives the sign-extended 20-bit immediate field: it is a
/// 32-bit two's-complement number between -2^19 and 2^19 - 1.
pub open spec fn fits_signed_immediate20(imm: u32) -> bool {
    imm <= 0x7_FFFF || imm >= 0xFFF8_0000
}

/// Whether `imm` survives the 24-bit immediate field.
pub open spec fn fits_immediate24(imm: u32) -> bool {
    imm <= 0xFF_FFFF
}

// ---------------------------------------------------------------------------
// Encoders
// ---------------------------------------------------------------------------
/// Encodes an instruction that takes one register.
pub fn create_instruction_register(opcode: OpCode, reg: Register) -> (word: u32)
    ensures
        word == instruction_register(opcode, reg),
{
    ((opcode.to_u8() as u32) << 24) | (reg.to_u8() as u32)
}

/// Encodes an instruction that takes a 24-bit immediate.  Higher bits of `imm`
/// are dropped.
pub fn create_instruction_immediate(opcode: OpCode, imm: u32) -> (word: u32)
    ensures
        word == instruction_immediate(opcode, imm),
{
    ((opcode.to_u8() as u32) << 24) | (imm & 0xFF_FFFF)
}

/// Encodes an instruction that takes a register and a 20-bit immediate.
/// Higher bits of `imm` are dropped.
pub fn create_instruction_register_and_immediate(opcode: OpCode, reg: Register, imm: u32) -> (word:
    u32)
    ensures
        word == instruction_register_and_immediate(opcode, reg, imm),
{
    ((opcode.to_u8() as u32) << 24) | ((reg.to_u8() as u32) << 20) | (imm & 0xF_FFFF)
}

/// Encodes an instruction that takes two registers.
pub fn create_instruction_two_registers(opcode: OpCode, reg0: Register, reg1: Register) -> (word:
    u32)
    ensures
        word == instruction_two_registers(opcode, reg0, reg1),
{
    ((opcode.to_u8() as u32) << 24) | ((reg0.to_u8() as u32) << 20) | (reg1.to_u8() as u32)
}

/// Encodes an instruction that takes two registers and a 16-bit immediate.
/// Higher bits of `imm` are dropped.
pub fn create_instruction_two_registers_and_immediate(
    opcode: OpCode,
    reg0: Register,
    reg1: Register,
    imm: u32,
) -> (word: u32)
    ensures
        word == instruction_two_registers_and_immediate(opcode, reg0, reg1, imm),
{
    ((opcode.to_u8() as u32) << 24) | ((reg0.to_u8() as u32) << 20) | ((reg1.to_u8() as u32) << 16)
        | (imm & 0xFFFF)
}

// ---------------------------------------------------------------------------
// Decoding what was encoded
// ---------------------------------------------------------------------------
/// Fields packed into a word can be read back.
proof fn lemma_fields_of_packed_word(op: u32, a: u32, b: u32, c: u32)
    by (bit_vector)
    requires
        op <= 0xFF,
        a <= 0xF,
        b <= 0xF,
        c <= 0xFFFF,
    ensures
        (((op << 24) | (a << 20) | (b << 16) | c) >> 24) & 0xFF == op,
        (((op << 24) | (a << 20) | (b << 16) | c) >> 20) & 0xF == a,
        (((op << 24) | (a << 20) | (b << 16) | c) >> 16) & 0xF == b,
        ((op << 24) | (a << 20) | (b << 16) | c) & 0xFFFF == c,
{
}

/// The fields of a word with a 20-bit immediate can be read back.
proof fn lemma_fields_of_word_with_immediate20(op: u32, a: u32, imm: u32)
    by (bit_vector)
    requires
        op <= 0xFF,
        a <= 0xF,
    ensures
        (((op << 24) | (a << 20) | (imm & 0xF_FFFF)) >> 24) & 0xFF == op,
        (((op << 24) | (a << 20) | (imm & 0xF_FFFF)) >> 20) & 0xF == a,
        ((op << 24) | (a << 20) | (imm & 0xF_FFFF)) & 0xF_FFFF == imm & 0xF_FFFF,
        imm <= 0xF_FFFF ==> imm & 0xF_FFFF == imm,
{
}

/// The fields of a word with a 24-bit immediate can be read back.
proof fn lemma_fields_of_word_with_immediate24(op: u32, imm: u32)
    by (bit_vector)
    requires
        op <= 0xFF,
    ensures
        (((op << 24) | (imm & 0xFF_FFFF)) >> 24) & 0xFF == op,
        ((op << 24) | (imm & 0xFF_FFFF)) & 0xFF_FFFF == imm & 0xFF_FFFF,
        imm <= 0xFF_FFFF ==> imm & 0xFF_FFFF == imm,
{
}

/// The fields of a word with registers alone can be read back.
proof fn lemma_fields_of_word_with_registers(op: u32, a: u32, b: u32)
    by (bit_vector)
    requires
        op <= 0xFF,
        a <= 0xF,
        b <= 0xF,
    ensures
        (((op << 24) | (a << 20) | b) >> 24) & 0xFF == op,
        (((op << 24) | (a << 20) | b) >> 20) & 0xF == a,
        ((op << 24) | (a << 20) | b) & 0xF == b,
        (((op << 24) | b) >> 24) & 0xFF == op,
        ((op << 24) | b) & 0xF == b,
{
}

/// An immediate between -2^19 and 2^19 - 1 survives cutting to 20 bits and extending by sign.
proof fn lemma_sign_extension(imm: u32)
    by (bit_vector)
    ensures
        (imm <= 0x7_FFFF ==> (imm & 0xF_FFFF) & 0x8_0000 == 0 && imm & 0xF_FFFF == imm),
        (imm >= 0xFFF8_0000 ==> (imm & 0xF_FFFF) & 0x8_0000 != 0 && (imm & 0xF_FFFF) | !0xF_FFFFu32
            == imm),
{
}

/// Decoding the single-register layout gives back the opcode and the register.
pub proof fn lemma_decode_register(opcode: OpCode, reg: Register)
    ensures
        opcode_field(instruction_register(opcode, reg)) == opcode.code(),
        last_register_field(instruction_register(opcode, reg)) == reg.index(),
{
    lemma_fields_of_word_with_registers(opcode.code() as u32, 0, reg.index() as u32);
}

/// Decoding the immediate-only layout gives back the opcode and the low 24 bits
/// of the immediate: the immediate itself where it fits the field.
pub proof fn lemma_decode_immediate(opcode: OpCode, imm: u32)
    ensures
        opcode_field(instruction_immediate(opcode, imm)) == opcode.code(),
        immediate24_field(instruction_immediate(opcode, imm)) == imm & 0xFF_FFFF,
        fits_immediate24(imm) ==> immediate24_field(instruction_immediate(opcode, imm)) == imm,
{
    lemma_fields_of_word_with_immediate24(opcode.code() as u32, imm);
}

/// Decoding the register-and-immediate layout gives back the opcode, the
/// register and the low 20 bits of the immediate.  The zero-extended reading
/// is the immediate itself where it is below 2^20; the sign-extended reading is
/// the immediate itself where it lies between -2^19 and 2^19 - 1.
pub proof fn lemma_decode_register_and_immediate(opcode: OpCode, reg: Register, imm: u32)
    ensures
        opcode_field(instruction_register_and_immediate(opcode, reg, imm)) == opcode.code(),
        first_register_field(instruction_register_and_immediate(opcode, reg, imm)) == reg.index(),
        immediate20_field(instruction_register_and_immediate(opcode, reg, imm)) == imm & 0xF_FFFF,
        fits_immediate20(imm) ==> immediate20_field(
            instruction_register_and_immediate(opcode, reg, imm),
        ) == imm,
        fits_signed_immediate20(imm) ==> signed_immediate20_field(
            instruction_register_and_immediate(opcode, reg, imm),
        ) == imm,
{
    lemma_fields_of_word_with_immediate20(opcode.code() as u32, reg.index() as u32, imm);
    lemma_sign_extension(imm);
}

/// Decoding the two-register layout gives back the opcode and both registers.
pub proof fn lemma_decode_two_registers(opcode: OpCode, reg0: Register, reg1: Register)
    ensures
        opcode_field(instruction_two_registers(opcode, reg0, reg1)) == opcode.code(),
        first_register_field(instruction_two_registers(opcode, reg0, reg1)) == reg0.index(),
        last_register_field(instruction_two_registers(opcode, reg0, reg1)) == reg1.index(),
{
    lemma_fields_of_word_with_registers(
        opcode.code() as u32,
        reg0.index() as u32,
        reg1.index() as u32,
    );
}

/// Decoding the two-registers-and-immediate layout gives back the opcode, both
/// registers and the low 16 bits of the immediate.
pub proof fn lemma_decode_two_registers_and_immediate(
    opcode: OpCode,
    reg0: Register,
    reg1: Register,
    imm: u32,
)
    ensures
        opcode_field(instruction_two_registers_and_immediate(opcode, reg0, reg1, imm))
            == opcode.code(),
        first_register_field(instruction_two_registers_and_immediate(opcode, reg0, reg1, imm))
            == reg0.index(),
        middle_register_field(instruction_two_registers_and_immediate(opcode, reg0, reg1, imm))
            == reg1.index(),
        immediate16_field(instruction_two_registers_and_immediate(opcode, reg0, reg1, imm)) == imm
            & 0xFFFF,
{
    let c = imm & 0xFFFF;
    assert(c <= 0xFFFF) by (bit_vector)
        requires
            c == imm & 0xFFFF,
    ;
    lemma_fields_of_packed_word(opcode.code() as u32, reg0.index() as u32, reg1.index() as u32, c);
}

} // verus!
