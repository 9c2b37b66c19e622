use libcustomvmcpu::common::{Error, OpCode, Register, ERROR_START_NUM};
use libcustomvmcpu::runtime::utils;
use libcustomvmcpu::runtime::{
    BinaryInterpreter, BinaryVirtualMachine, Interpreter, BINARY_INTERPRETER_MEM_SIZE,
};

const SYSCALLI_EXIT_INSTRUCTION: u32 = u32::to_le((OpCode::SYSCALLI as u32) << 3 * 8);

fn load_0_in_r1_instruction() -> u32 {
    utils::create_instruction_register_and_immediate(OpCode::LI, Register::R1, 0)
}

#[test]
fn runtime_get_opcode() {
    assert_eq!(OpCode::SYSCALLI as u8, BinaryVirtualMachine::get_opcode(SYSCALLI_EXIT_INSTRUCTION));
}

#[test]
fn runtime_syscall_exit() {
    let syscode_inst = SYSCALLI_EXIT_INSTRUCTION;
    let interpreter = BinaryInterpreter::new_with_program(&[syscode_inst]).expect("Unexpected error!");
    let mut vm = BinaryVirtualMachine::new(interpreter);

    assert_eq!(0, vm.read_register_value(Register::IP));
    assert_eq!(Some(syscode_inst), vm.get_interpreter().read_u32(0));
    assert_eq!(0, vm.execute_first());
    assert_eq!(0, vm.read_register_value(Register::IP));

    let syscode_inst = SYSCALLI_EXIT_INSTRUCTION;
    let interpreter = BinaryInterpreter::new_with_program(&[
        syscode_inst,
        utils::create_instruction_register_and_immediate(OpCode::LI, Register::R0, 32)
    ]).expect("Unexpected error!");
    let mut vm = BinaryVirtualMachine::new(interpreter);

    assert_eq!(0, vm.read_register_value(Register::IP));
    assert_eq!(Some(syscode_inst), vm.get_interpreter().read_u32(0));
    assert_eq!(0, vm.execute_first());
    assert_eq!(0, vm.read_register_value(Register::R0));
    assert_eq!(0, vm.read_register_value(Register::IP));

}

#[test]
fn runtime_li_r0() {
    let inst = utils::create_instruction_register_and_immediate(OpCode::LI, Register::R0, 564);
    let interpreter = BinaryInterpreter::new_with_program(&[inst, load_0_in_r1_instruction(), SYSCALLI_EXIT_INSTRUCTION]).expect("Unexpected error!");
    let mut vm = BinaryVirtualMachine::new(interpreter);

    assert_eq!(0, vm.execute_first());
    assert_eq!(564, vm.read_register_value(Register::R0));
}

#[test]
fn runtime_li_r1() {
    let inst = utils::create_instruction_register_and_immediate(OpCode::LI, Register::R1, 563);
    let interpreter = BinaryInterpreter::new_with_program(&[inst, SYSCALLI_EXIT_INSTRUCTION]).expect("Unexpected error!");
    let mut vm = BinaryVirtualMachine::new(interpreter);

    assert_eq!(563, vm.execute_first());
    assert_eq!(563, vm.read_register_value(Register::R1));
}

#[test]
fn runtime_li_r7() {
    let inst = utils::create_instruction_register_and_immediate(OpCode::LI, Register::R7, 513);
    let interpreter = BinaryInterpreter::new_with_program(&[inst, load_0_in_r1_instruction(), SYSCALLI_EXIT_INSTRUCTION]).expect("Unexpected error!");
    let mut vm = BinaryVirtualMachine::new(interpreter);

    assert_eq!(0, vm.execute_first());
    assert_eq!(513, vm.read_register_value(Register::R7));
}

#[test]
fn runtime_li_ip() {
    let inst = utils::create_instruction_register_and_immediate(OpCode::LI, Register::IP, 12);
    let interpreter = BinaryInterpreter::new_with_program(&[inst, load_0_in_r1_instruction(), SYSCALLI_EXIT_INSTRUCTION]).expect("Unexpected error!");
    let mut vm = BinaryVirtualMachine::new(interpreter);

    assert_eq!(ERROR_START_NUM + (Error::ReadonlyRegister as u32), vm.execute_first());
}

#[test]
fn runtime_li_err() {
    let inst = utils::create_instruction_register_and_immediate(OpCode::LI, Register::ERR, 12);
    let interpreter = BinaryInterpreter::new_with_program(&[inst, load_0_in_r1_instruction(), SYSCALLI_EXIT_INSTRUCTION]).expect("Unexpected error!");
    let mut vm = BinaryVirtualMachine::new(interpreter);

    assert_eq!(ERROR_START_NUM + (Error::ReadonlyRegister as u32), vm.execute_first());
}

#[test]
fn runtime_add() {
    let program: [u32; 5] = [
        utils::create_instruction_register_and_immediate(OpCode::LI, Register::R0, 16),
        utils::create_instruction_register_and_immediate(OpCode::LI, Register::R1, 5),
        utils::create_instruction_two_registers(OpCode::ADD, Register::R0, Register::R1),
        load_0_in_r1_instruction(),
        SYSCALLI_EXIT_INSTRUCTION
    ];

    let interpreter = BinaryInterpreter::new_with_program(&program).expect("Unexpected error!");
    let mut vm = BinaryVirtualMachine::new(interpreter);

    assert_eq!(0, vm.execute_first());
    assert_eq!(21, vm.read_register_value(Register::R0));
}

#[test]
fn runtime_cpy() {
    let program: [u32; 4] = [
        utils::create_instruction_register_and_immediate(OpCode::LI, Register::R0, 16),
        utils::create_instruction_two_registers(OpCode::CPY, Register::R2, Register::R0),
        load_0_in_r1_instruction(),
        SYSCALLI_EXIT_INSTRUCTION
    ];

    let interpreter = BinaryInterpreter::new_with_program(&program).expect("Unexpected error!");
    let mut vm = BinaryVirtualMachine::new(interpreter);

    assert_eq!(0, vm.execute_first());
    assert_eq!(16, vm.read_register_value(Register::R2));
}

#[test]
fn runtime_sub() {
    let program: [u32; 5] = [
        utils::create_instruction_register_and_immediate(OpCode::LI, Register::R0, 16),
        utils::create_instruction_register_and_immediate(OpCode::LI, Register::R1, 5),
        utils::create_instruction_two_registers(OpCode::SUB, Register::R0, Register::R1),
        load_0_in_r1_instruction(),
        SYSCALLI_EXIT_INSTRUCTION
    ];

    let interpreter = BinaryInterpreter::new_with_program(&program).expect("Unexpected error!");
    let mut vm = BinaryVirtualMachine::new(interpreter);

    assert_eq!(0, vm.execute_first());
    assert_eq!(11, vm.read_register_value(Register::R0));
}

#[test]
fn runtime_mul() {
    let program: [u32; 5] = [
        utils::create_instruction_register_and_immediate(OpCode::LI, Register::R0, 4),
        utils::create_instruction_register_and_immediate(OpCode::LI, Register::R1, 5),
        utils::create_instruction_two_registers(OpCode::MUL, Register::R0, Register::R1),
        load_0_in_r1_instruction(),
        SYSCALLI_EXIT_INSTRUCTION
    ];

    let interpreter = BinaryInterpreter::new_with_program(&program).expect("Unexpected error!");
    let mut vm = BinaryVirtualMachine::new(interpreter);

    assert_eq!(0, vm.execute_first());
    assert_eq!(20, vm.read_register_value(Register::R0));
}

#[test]
fn runtime_div() {
    let program: [u32; 5] = [
        utils::create_instruction_register_and_immediate(OpCode::LI, Register::R0, 20),
        utils::create_instruction_register_and_immediate(OpCode::LI, Register::R1, 5),
        utils::create_instruction_two_registers(OpCode::DIV, Register::R0, Register::R1),
        load_0_in_r1_instruction(),
        SYSCALLI_EXIT_INSTRUCTION
    ];

    let interpreter = BinaryInterpreter::new_with_program(&program).expect("Unexpected error!");
    let mut vm = BinaryVirtualMachine::new(interpreter);

    assert_eq!(0, vm.execute_first());
    assert_eq!(4, vm.read_register_value(Register::R0));

    let program: [u32; 5] = [
        utils::create_instruction_register_and_immediate(OpCode::LI, Register::R0, 24),
        utils::create_instruction_register_and_immediate(OpCode::LI, Register::R1, 5),
        utils::create_instruction_two_registers(OpCode::DIV, Register::R0, Register::R1),
        load_0_in_r1_instruction(),
        SYSCALLI_EXIT_INSTRUCTION
    ];

    let interpreter = BinaryInterpreter::new_with_program(&program).expect("Unexpected error!");
    let mut vm = BinaryVirtualMachine::new(interpreter);

    assert_eq!(0, vm.execute_first());
    assert_eq!(4, vm.read_register_value(Register::R0));
}

#[test]
fn runtime_div_divisor_zero() {
  let program: [u32; 5] = [
      utils::create_instruction_register_and_immediate(OpCode::LI, Register::R0, 20),
      utils::create_instruction_register_and_immediate(OpCode::LI, Register::R1, 0),
      utils::create_instruction_two_registers(OpCode::DIV, Register::R0, Register::R1),
      load_0_in_r1_instruction(),
      SYSCALLI_EXIT_INSTRUCTION
  ];

  let interpreter = BinaryInterpreter::new_with_program(&program).expect("Unexpected error!");
  let mut vm = BinaryVirtualMachine::new(interpreter);

  assert_eq!(ERROR_START_NUM + Error::DivisorNotZero as u32, vm.execute_first());
  assert_eq!(0, vm.read_register_value(Register::R0));
}

#[test]
fn addi() {
    let program: [u32; 4] = [
        utils::create_instruction_register_and_immediate(OpCode::LI, Register::R0, 16),
        utils::create_instruction_register_and_immediate(OpCode::ADDI, Register::R0, 5),
        load_0_in_r1_instruction(),
        SYSCALLI_EXIT_INSTRUCTION
    ];

    let interpreter = BinaryInterpreter::new_with_program(&program).expect("Unexpected error!");
    let mut vm = BinaryVirtualMachine::new(interpreter);

    assert_eq!(0, vm.execute_first());
    assert_eq!(21, vm.read_register_value(Register::R0));
}

#[test]
fn subi() {
    let program: [u32; 4] = [
        utils::create_instruction_register_and_immediate(OpCode::LI, Register::R0, 16),
        utils::create_instruction_register_and_immediate(OpCode::SUBI, Register::R0, 5),
        load_0_in_r1_instruction(),
        SYSCALLI_EXIT_INSTRUCTION
    ];

    let interpreter = BinaryInterpreter::new_with_program(&program).expect("Unexpected error!");
    let mut vm = BinaryVirtualMachine::new(interpreter);

    assert_eq!(0, vm.execute_first());
    assert_eq!(11, vm.read_register_value(Register::R0));
}

#[test]
fn muli() {
    let program: [u32; 4] = [
        utils::create_instruction_register_and_immediate(OpCode::LI, Register::R0, 4),
        utils::create_instruction_register_and_immediate(OpCode::MULI, Register::R0, 5),
        load_0_in_r1_instruction(),
        SYSCALLI_EXIT_INSTRUCTION
    ];

    let interpreter = BinaryInterpreter::new_with_program(&program).expect("Unexpected error!");
    let mut vm = BinaryVirtualMachine::new(interpreter);

    assert_eq!(0, vm.execute_first());
    assert_eq!(20, vm.read_register_value(Register::R0));
}

#[test]
fn divi() {
    let program: [u32; 4] = [
        utils::create_instruction_register_and_immediate(OpCode::LI, Register::R0, 20),
        utils::create_instruction_register_and_immediate(OpCode::DIVI, Register::R0, 5),
        load_0_in_r1_instruction(),
        SYSCALLI_EXIT_INSTRUCTION
    ];

    let interpreter = BinaryInterpreter::new_with_program(&program).expect("Unexpected error!");
    let mut vm = BinaryVirtualMachine::new(interpreter);

    assert_eq!(0, vm.execute_first());
    assert_eq!(4, vm.read_register_value(Register::R0));

    let program: [u32; 4] = [
        utils::create_instruction_register_and_immediate(OpCode::LI, Register::R0, 24),
        utils::create_instruction_register_and_immediate(OpCode::DIVI, Register::R0, 5),
        load_0_in_r1_instruction(),
        SYSCALLI_EXIT_INSTRUCTION
    ];

    let interpreter = BinaryInterpreter::new_with_program(&program).expect("Unexpected error!");
    let mut vm = BinaryVirtualMachine::new(interpreter);

    assert_eq!(0, vm.execute_first());
    assert_eq!(4, vm.read_register_value(Register::R0));
}

#[test]
fn divi_divisor_zero() {
  let program: [u32; 4] = [
      utils::create_instruction_register_and_immediate(OpCode::LI, Register::R0, 20),
      utils::create_instruction_register_and_immediate(OpCode::DIVI, Register::R0, 0),
      load_0_in_r1_instruction(),
      SYSCALLI_EXIT_INSTRUCTION
  ];

  let interpreter = BinaryInterpreter::new_with_program(&program).expect("Unexpected error!");
  let mut vm = BinaryVirtualMachine::new(interpreter);

  assert_eq!(ERROR_START_NUM + Error::DivisorNotZero as u32, vm.execute_first());
  assert_eq!(0, vm.read_register_value(Register::R0));
}

#[test]
fn runtime_lw() {
    let program: [u32; 5] = [
        utils::create_instruction_register_and_immediate(OpCode::LI, Register::R2, 4 * 4),
        utils::create_instruction_two_registers(OpCode::LW, Register::R0, Register::R2),
        load_0_in_r1_instruction(),
        SYSCALLI_EXIT_INSTRUCTION,
        0xFF00FF00
    ];

    let interpreter = BinaryInterpreter::new_with_program(&program).expect("Unexpected error!");
    let mut vm = BinaryVirtualMachine::new(interpreter);

    assert_eq!(0, vm.execute_first());
    assert_eq!(0xFF00FF00, vm.read_register_value(Register::R0));
}

#[test]
fn runtime_sw() {
    let program: [u32; 5] = [
        utils::create_instruction_register_and_immediate(OpCode::LI, Register::R2, 5 * 4),
        utils::create_instruction_register_and_immediate(OpCode::LI, Register::R0, 1033),
        utils::create_instruction_two_registers(OpCode::SW, Register::R0, Register::R2),
        load_0_in_r1_instruction(),
        SYSCALLI_EXIT_INSTRUCTION,
    ];

    let interpreter = BinaryInterpreter::new_with_program(&program).expect("Unexpected error!");
    let mut vm = BinaryVirtualMachine::new(interpreter);

    assert_eq!(0, vm.execute_first());
    assert_eq!(1033, vm.get_interpreter().read_u32(5 * 4).expect("Cannot read memory address"));
}

#[test]
fn runtime_lh() {
    let program: [u32; 5] = [
        utils::create_instruction_register_and_immediate(OpCode::LI, Register::R2, 4 * 4),
        utils::create_instruction_two_registers(OpCode::LH, Register::R0, Register::R2),
        load_0_in_r1_instruction(),
        SYSCALLI_EXIT_INSTRUCTION,
        1032 // Will be stored in [0] and [1] of integer 0124, because little endian
    ];

    let interpreter = BinaryInterpreter::new_with_program(&program).expect("Unexpected error!");
    let mut vm = BinaryVirtualMachine::new(interpreter);

    assert_eq!(0, vm.execute_first());
    assert_eq!(1032, vm.read_register_value(Register::R0));
}

#[test]
fn runtime_sh() {
    let program: [u32; 5] = [
        utils::create_instruction_register_and_immediate(OpCode::LI, Register::R2, 5 * 4),
        utils::create_instruction_register_and_immediate(OpCode::LI, Register::R0, 1033),
        utils::create_instruction_two_registers(OpCode::SH, Register::R0, Register::R2),
        load_0_in_r1_instruction(),
        SYSCALLI_EXIT_INSTRUCTION,
    ];

    let interpreter = BinaryInterpreter::new_with_program(&program).expect("Unexpected error!");
    let mut vm = BinaryVirtualMachine::new(interpreter);

    assert_eq!(0, vm.execute_first());
    assert_eq!(1033, vm.get_interpreter().read_u16(5 * 4).expect("Cannot read memory address"));
}

#[test]
fn runtime_lb() {
    let program: [u32; 5] = [
        utils::create_instruction_register_and_immediate(OpCode::LI, Register::R2, 4 * 4),
        utils::create_instruction_two_registers(OpCode::LB, Register::R0, Register::R2),
        load_0_in_r1_instruction(),
        SYSCALLI_EXIT_INSTRUCTION,
        234 // Will be stored in [0] and [1] of integer 0124, because little endian
    ];

    let interpreter = BinaryInterpreter::new_with_program(&program).expect("Unexpected error!");
    let mut vm = BinaryVirtualMachine::new(interpreter);

    assert_eq!(0, vm.execute_first());
    assert_eq!(234, vm.read_register_value(Register::R0));
}

#[test]
fn runtime_sb() {
    let program: [u32; 5] = [
        utils::create_instruction_register_and_immediate(OpCode::LI, Register::R2, 5 * 4),
        utils::create_instruction_register_and_immediate(OpCode::LI, Register::R0, 234),
        utils::create_instruction_two_registers(OpCode::SB, Register::R0, Register::R2),
        load_0_in_r1_instruction(),
        SYSCALLI_EXIT_INSTRUCTION,
    ];

    let interpreter = BinaryInterpreter::new_with_program(&program).expect("Unexpected error!");
    let mut vm = BinaryVirtualMachine::new(interpreter);

    assert_eq!(0, vm.execute_first());
    assert_eq!(234, vm.get_interpreter().read_u8(5 * 4).expect("Cannot read memory address"));
}

#[test]
fn lb_partial() {
    let program: [u32; 5] = [
        utils::create_instruction_register_and_immediate(OpCode::LI, Register::R2, 4 * 4),
        utils::create_instruction_two_registers(OpCode::LB, Register::R0, Register::R2),
        load_0_in_r1_instruction(),
        SYSCALLI_EXIT_INSTRUCTION,
        1024 + 234 // Will be stored in [0] and [1] of integer 0124, because little endian
    ];

    let interpreter = BinaryInterpreter::new_with_program(&program).expect("Unexpected error!");
    let mut vm = BinaryVirtualMachine::new(interpreter);

    assert_eq!(0, vm.execute_first());
    assert_eq!(234, vm.read_register_value(Register::R0));
}

#[test]
fn sb_partial() {
    let program: [u32; 5] = [
        utils::create_instruction_register_and_immediate(OpCode::LI, Register::R2, 5 * 4),
        utils::create_instruction_register_and_immediate(OpCode::LI, Register::R0, 1024 + 234),
        utils::create_instruction_two_registers(OpCode::SB, Register::R0, Register::R2),
        load_0_in_r1_instruction(),
        SYSCALLI_EXIT_INSTRUCTION,
    ];

    let interpreter = BinaryInterpreter::new_with_program(&program).expect("Unexpected error!");
    let mut vm = BinaryVirtualMachine::new(interpreter);

    assert_eq!(0, vm.execute_first());
    assert_eq!(234, vm.get_interpreter().read_u8(5 * 4).expect("Cannot read memory address"));
    assert_eq!(234, vm.get_interpreter().read_u32(5 * 4).expect("Cannot read memory address"));
}

#[test]
fn lwi() {
    let program: [u32; 4] = [
        utils::create_instruction_register_and_immediate(OpCode::LWI, Register::R0, 3 * 4),
        load_0_in_r1_instruction(),
        SYSCALLI_EXIT_INSTRUCTION,
        0xFF00FF00
    ];

    let interpreter = BinaryInterpreter::new_with_program(&program).expect("Unexpected error!");
    let mut vm = BinaryVirtualMachine::new(interpreter);

    assert_eq!(0, vm.execute_first());
    assert_eq!(0xFF00FF00, vm.read_register_value(Register::R0));
}

#[test]
fn swi() {
    let program: [u32; 4] = [
        utils::create_instruction_register_and_immediate(OpCode::LI, Register::R0, 1033),
        utils::create_instruction_register_and_immediate(OpCode::SWI, Register::R0, 4 * 4),
        load_0_in_r1_instruction(),
        SYSCALLI_EXIT_INSTRUCTION,
    ];

    let interpreter = BinaryInterpreter::new_with_program(&program).expect("Unexpected error!");
    let mut vm = BinaryVirtualMachine::new(interpreter);

    assert_eq!(0, vm.execute_first());
    assert_eq!(1033, vm.get_interpreter().read_u32(4 * 4).expect("Cannot read memory address"));
}

#[test]
fn lhi() {
    let program: [u32; 4] = [
        utils::create_instruction_register_and_immediate(OpCode::LHI, Register::R0, 3 * 4),
        load_0_in_r1_instruction(),
        SYSCALLI_EXIT_INSTRUCTION,
        1032 // Will be stored in [0] and [1] of integer 0124, because little endian
    ];

    let interpreter = BinaryInterpreter::new_with_program(&program).expect("Unexpected error!");
    let mut vm = BinaryVirtualMachine::new(interpreter);

    assert_eq!(0, vm.execute_first());
    assert_eq!(1032, vm.read_register_value(Register::R0));
}

#[test]
fn shi() {
    let program: [u32; 4] = [
        utils::create_instruction_register_and_immediate(OpCode::LI, Register::R0, 1033),
        utils::create_instruction_register_and_immediate(OpCode::SHI, Register::R0, 4 * 4),
        load_0_in_r1_instruction(),
        SYSCALLI_EXIT_INSTRUCTION,
    ];

    let interpreter = BinaryInterpreter::new_with_program(&program).expect("Unexpected error!");
    let mut vm = BinaryVirtualMachine::new(interpreter);

    assert_eq!(0, vm.execute_first());
    assert_eq!(1033, vm.get_interpreter().read_u16(4 * 4).expect("Cannot read memory address"));
}

#[test]
fn lbi() {
    let program: [u32; 4] = [
        utils::create_instruction_register_and_immediate(OpCode::LBI, Register::R0, 3 * 4),
        load_0_in_r1_instruction(),
        SYSCALLI_EXIT_INSTRUCTION,
        234 // Will be stored in [0] and [1] of integer 0124, because little endian
    ];

    let interpreter = BinaryInterpreter::new_with_program(&program).expect("Unexpected error!");
    let mut vm = BinaryVirtualMachine::new(interpreter);

    assert_eq!(0, vm.execute_first());
    assert_eq!(234, vm.read_register_value(Register::R0));
}

#[test]
fn sbi() {
    let program: [u32; 4] = [
        utils::create_instruction_register_and_immediate(OpCode::LI, Register::R0, 234),
        utils::create_instruction_register_and_immediate(OpCode::SBI, Register::R0, 4 * 4),
        load_0_in_r1_instruction(),
        SYSCALLI_EXIT_INSTRUCTION,
    ];

    let interpreter = BinaryInterpreter::new_with_program(&program).expect("Unexpected error!");
    let mut vm = BinaryVirtualMachine::new(interpreter);

    assert_eq!(0, vm.execute_first());
    assert_eq!(234, vm.get_interpreter().read_u8(4 * 4).expect("Cannot read memory address"));
}

#[test]
fn lbi_partial() {
    let program: [u32; 4] = [
        utils::create_instruction_register_and_immediate(OpCode::LBI, Register::R0, 3 * 4),
        load_0_in_r1_instruction(),
        SYSCALLI_EXIT_INSTRUCTION,
        1024 + 234 // Will be stored in [0] and [1] of integer 0124, because little endian
    ];

    let interpreter = BinaryInterpreter::new_with_program(&program).expect("Unexpected error!");
    let mut vm = BinaryVirtualMachine::new(interpreter);

    assert_eq!(0, vm.execute_first());
    assert_eq!(234, vm.read_register_value(Register::R0));
}

#[test]
fn sbi_partial() {
    let program: [u32; 4] = [
        utils::create_instruction_register_and_immediate(OpCode::LI, Register::R0, 1024 + 234),
        utils::create_instruction_register_and_immediate(OpCode::SBI, Register::R0, 4 * 4),
        load_0_in_r1_instruction(),
        SYSCALLI_EXIT_INSTRUCTION,
    ];

    let interpreter = BinaryInterpreter::new_with_program(&program).expect("Unexpected error!");
    let mut vm = BinaryVirtualMachine::new(interpreter);

    assert_eq!(0, vm.execute_first());
    assert_eq!(234, vm.get_interpreter().read_u8(4 * 4).expect("Cannot read memory address"));
    assert_eq!(234, vm.get_interpreter().read_u32(4 * 4).expect("Cannot read memory address"));
}

#[test]
fn runtime_j() {
    let program: [u32; 7] = [
        utils::create_instruction_register_and_immediate(OpCode::LI, Register::R2, 4 * 4),
        utils::create_instruction_register(OpCode::J, Register::R2),
        load_0_in_r1_instruction(),
        SYSCALLI_EXIT_INSTRUCTION,
        utils::create_instruction_register_and_immediate(OpCode::LI, Register::R0, 32),
        load_0_in_r1_instruction(),
        SYSCALLI_EXIT_INSTRUCTION,
    ];

    let interpreter = BinaryInterpreter::new_with_program(&program).expect("Unexpected error!");
    let mut vm = BinaryVirtualMachine::new(interpreter);

    assert_eq!(0, vm.execute_first());
    assert_eq!(32, vm.read_register_value(Register::R0));
}

#[test]
fn runtime_ji() {
    let program: [u32; 6] = [
        utils::create_instruction_immediate(OpCode::JI, 3 * 4),
        load_0_in_r1_instruction(),
        SYSCALLI_EXIT_INSTRUCTION,
        utils::create_instruction_register_and_immediate(OpCode::LI, Register::R0, 32),
        load_0_in_r1_instruction(),
        SYSCALLI_EXIT_INSTRUCTION,
    ];

    let interpreter = BinaryInterpreter::new_with_program(&program).expect("Unexpected error!");
    let mut vm = BinaryVirtualMachine::new(interpreter);

    assert_eq!(0, vm.execute_first());
    assert_eq!(32, vm.read_register_value(Register::R0));
}

#[test]
fn runtime_jil() {
    let program: [u32; 8] = [
        utils::create_instruction_immediate(OpCode::JI, 1 * 4), // nop
        utils::create_instruction_immediate(OpCode::JIL, 4 * 4),
        load_0_in_r1_instruction(),
        SYSCALLI_EXIT_INSTRUCTION,
        utils::create_instruction_register_and_immediate(OpCode::LI, Register::R0, 32),
        utils::create_instruction_two_registers(OpCode::CPY, Register::R3, Register::RA),
        load_0_in_r1_instruction(),
        SYSCALLI_EXIT_INSTRUCTION,
    ];

    let interpreter = BinaryInterpreter::new_with_program(&program).expect("Unexpected error!");
    let mut vm = BinaryVirtualMachine::new(interpreter);

    assert_eq!(0, vm.execute_first());
    assert_eq!(32, vm.read_register_value(Register::R0));
    assert_eq!(8, vm.read_register_value(Register::R3));
}

#[test]
fn runtime_jzi() {
    let program: [u32; 6] = [
        utils::create_instruction_register_and_immediate(OpCode::JZI, Register::R0, 3 * 4),
        load_0_in_r1_instruction(),
        SYSCALLI_EXIT_INSTRUCTION,
        utils::create_instruction_register_and_immediate(OpCode::LI, Register::R0, 32),
        load_0_in_r1_instruction(),
        SYSCALLI_EXIT_INSTRUCTION,
    ];

    let interpreter = BinaryInterpreter::new_with_program(&program).expect("Unexpected error!");
    let mut vm = BinaryVirtualMachine::new(interpreter);

    assert_eq!(0, vm.execute_first());
    assert_eq!(32, vm.read_register_value(Register::R0));
}

#[test]
fn runtime_jnzi() {
    let program: [u32; 7] = [
        utils::create_instruction_register_and_immediate(OpCode::LI, Register::R0, u32::from_le_bytes(i32::to_le_bytes(-1))),
        utils::create_instruction_register_and_immediate(OpCode::JNZI, Register::R0, 4 * 4),
        load_0_in_r1_instruction(),
        SYSCALLI_EXIT_INSTRUCTION,
        utils::create_instruction_register_and_immediate(OpCode::LI, Register::R0, 32),
        load_0_in_r1_instruction(),
        SYSCALLI_EXIT_INSTRUCTION,
    ];

    let interpreter = BinaryInterpreter::new_with_program(&program).expect("Unexpected error!");
    let mut vm = BinaryVirtualMachine::new(interpreter);

    assert_eq!(0, vm.execute_first());
    assert_eq!(32, vm.read_register_value(Register::R0));
}

#[test]
fn li_minus_1()
{
    let program: [u32; 5] = [
        utils::create_instruction_register_and_immediate(OpCode::LI, Register::R0, 4 * 4),
        utils::create_instruction_two_registers(OpCode::LW, Register::R0, Register::R0),
        load_0_in_r1_instruction(),
        SYSCALLI_EXIT_INSTRUCTION,
        u32::from_le_bytes(i32::to_le_bytes(-1))
    ];

    let interpreter = BinaryInterpreter::new_with_program(&program).expect("Unexpected error!");
    let mut vm = BinaryVirtualMachine::new(interpreter);

    assert_eq!(0, vm.execute_first());
    assert_eq!(-1, i32::from_le_bytes(u32::to_le_bytes(vm.read_register_value(Register::R0))));
}

#[test]
fn li_minus_1_new_way()
{
    let program: [u32; 3] = [
        utils::create_instruction_register_and_immediate(OpCode::LI, Register::R0, u32::from_le_bytes(i32::to_le_bytes(-1))),
        load_0_in_r1_instruction(),
        SYSCALLI_EXIT_INSTRUCTION,
    ];

    let interpreter = BinaryInterpreter::new_with_program(&program).expect("Unexpected error!");
    let mut vm = BinaryVirtualMachine::new(interpreter);

    assert_eq!(0, vm.execute_first());
    assert_eq!(-1, i32::from_le_bytes(u32::to_le_bytes(vm.read_register_value(Register::R0))));
}

#[test]
fn runtime_jlzi() {
    let program: [u32; 9] = [
        utils::create_instruction_register_and_immediate(OpCode::LI, Register::R0, 8 * 4),
        utils::create_instruction_two_registers(OpCode::LW, Register::R0, Register::R0),
        utils::create_instruction_register_and_immediate(OpCode::JLZI, Register::R0, 5 * 4),
        load_0_in_r1_instruction(),
        SYSCALLI_EXIT_INSTRUCTION,
        utils::create_instruction_register_and_immediate(OpCode::LI, Register::R0, 32),
        load_0_in_r1_instruction(),
        SYSCALLI_EXIT_INSTRUCTION,
        u32::from_le_bytes(i32::to_le_bytes(-1))
    ];

    let interpreter = BinaryInterpreter::new_with_program(&program).expect("Unexpected error!");
    let mut vm = BinaryVirtualMachine::new(interpreter);

    assert_eq!(0, vm.execute_first());
    assert_eq!(32, vm.read_register_value(Register::R0) as i32);
}

#[test]
fn jlzi_new_way() {
    let program: [u32; 7] = [
        utils::create_instruction_register_and_immediate(OpCode::LI, Register::R0, u32::from_le_bytes(i32::to_le_bytes(-1))),
        utils::create_instruction_register_and_immediate(OpCode::JLZI, Register::R0, 4 * 4),
        load_0_in_r1_instruction(),
        SYSCALLI_EXIT_INSTRUCTION,
        utils::create_instruction_register_and_immediate(OpCode::LI, Register::R0, 32),
        load_0_in_r1_instruction(),
        SYSCALLI_EXIT_INSTRUCTION,
    ];

    let interpreter = BinaryInterpreter::new_with_program(&program).expect("Unexpected error!");
    let mut vm = BinaryVirtualMachine::new(interpreter);

    assert_eq!(0, vm.execute_first());
    assert_eq!(32, vm.read_register_value(Register::R0) as i32);
}

#[test]
fn runtime_jgzi() {
    let program: [u32; 7] = [
        utils::create_instruction_register_and_immediate(OpCode::LI, Register::R0, 1),
        utils::create_instruction_register_and_immediate(OpCode::JGZI, Register::R0, 4 * 4),
        load_0_in_r1_instruction(),
        SYSCALLI_EXIT_INSTRUCTION,
        utils::create_instruction_register_and_immediate(OpCode::LI, Register::R0, 32),
        load_0_in_r1_instruction(),
        SYSCALLI_EXIT_INSTRUCTION,
    ];

    let interpreter = BinaryInterpreter::new_with_program(&program).expect("Unexpected error!");
    let mut vm = BinaryVirtualMachine::new(interpreter);

    assert_eq!(0, vm.execute_first());
    assert_eq!(32, vm.read_register_value(Register::R0));
}

#[test]
fn runtime_and() {
    let program: [u32; 9] = [
        utils::create_instruction_register_and_immediate(OpCode::LI, Register::R0, 7 * 4),
        utils::create_instruction_register_and_immediate(OpCode::LI, Register::R2, 8 * 4),
        utils::create_instruction_two_registers(OpCode::LW, Register::R0, Register::R0),
        utils::create_instruction_two_registers(OpCode::LW, Register::R2, Register::R2),
        utils::create_instruction_two_registers(OpCode::AND, Register::R0, Register::R2),
        load_0_in_r1_instruction(),
        SYSCALLI_EXIT_INSTRUCTION,
        0x0000FFFF,
        0xFFFFA000,
    ];

    let interpreter = BinaryInterpreter::new_with_program(&program).expect("Unexpected error!");
    let mut vm = BinaryVirtualMachine::new(interpreter);

    assert_eq!(0, vm.execute_first());
    assert_eq!(0x0000A000, vm.read_register_value(Register::R0));
}

#[test]
fn runtime_or() {
    let program: [u32; 9] = [
        utils::create_instruction_register_and_immediate(OpCode::LI, Register::R0, 7 * 4),
        utils::create_instruction_register_and_immediate(OpCode::LI, Register::R2, 8 * 4),
        utils::create_instruction_two_registers(OpCode::LW, Register::R0, Register::R0),
        utils::create_instruction_two_registers(OpCode::LW, Register::R2, Register::R2),
        utils::create_instruction_two_registers(OpCode::OR, Register::R0, Register::R2),
        load_0_in_r1_instruction(),
        SYSCALLI_EXIT_INSTRUCTION,
        0x00000FFF,
        0xFFF00000,
    ];

    let interpreter = BinaryInterpreter::new_with_program(&program).expect("Unexpected error!");
    let mut vm = BinaryVirtualMachine::new(interpreter);

    assert_eq!(0, vm.execute_first());
    assert_eq!(0xFFF00FFF, vm.read_register_value(Register::R0));
}

#[test]
fn runtime_xor() {
    let program: [u32; 9] = [
        utils::create_instruction_register_and_immediate(OpCode::LI, Register::R0, 7 * 4),
        utils::create_instruction_register_and_immediate(OpCode::LI, Register::R2, 8 * 4),
        utils::create_instruction_two_registers(OpCode::LW, Register::R0, Register::R0),
        utils::create_instruction_two_registers(OpCode::LW, Register::R2, Register::R2),
        utils::create_instruction_two_registers(OpCode::XOR, Register::R0, Register::R2),
        load_0_in_r1_instruction(),
        SYSCALLI_EXIT_INSTRUCTION,
        0x0000FFFF,
        0xFFFFF000,
    ];

    let interpreter = BinaryInterpreter::new_with_program(&program).expect("Unexpected error!");
    let mut vm = BinaryVirtualMachine::new(interpreter);

    assert_eq!(0, vm.execute_first());
    assert_eq!(0xFFFF0FFF, vm.read_register_value(Register::R0));
}

#[test]
fn runtime_not() {
    let program: [u32; 10] = [
        utils::create_instruction_register_and_immediate(OpCode::LI, Register::R0, 8 * 4),
        utils::create_instruction_register_and_immediate(OpCode::LI, Register::R2, 9 * 4),
        utils::create_instruction_two_registers(OpCode::LW, Register::R0, Register::R0),
        utils::create_instruction_two_registers(OpCode::LW, Register::R2, Register::R2),
        utils::create_instruction_register(OpCode::NOT, Register::R0),
        utils::create_instruction_register(OpCode::NOT, Register::R2),
        load_0_in_r1_instruction(),
        SYSCALLI_EXIT_INSTRUCTION,
        0x00000000,
        0xFFFFFFF0,
    ];

    let interpreter = BinaryInterpreter::new_with_program(&program).expect("Unexpected error!");
    let mut vm = BinaryVirtualMachine::new(interpreter);

    assert_eq!(0, vm.execute_first());
    assert_eq!(0xFFFFFFFF, vm.read_register_value(Register::R0));
    assert_eq!(0x0000000F, vm.read_register_value(Register::R2));
}

#[test]
fn runtime_srl() {
    let program: [u32; 9] = [
        utils::create_instruction_register_and_immediate(OpCode::LI, Register::R0, 7 * 4),
        utils::create_instruction_register_and_immediate(OpCode::LI, Register::R2, 8 * 4),
        utils::create_instruction_two_registers(OpCode::LW, Register::R0, Register::R0),
        utils::create_instruction_two_registers(OpCode::LW, Register::R2, Register::R2),
        utils::create_instruction_two_registers(OpCode::SRL, Register::R0, Register::R2),
        load_0_in_r1_instruction(),
        SYSCALLI_EXIT_INSTRUCTION,
        0x00FFFF00,
        4,
    ];

    let interpreter = BinaryInterpreter::new_with_program(&program).expect("Unexpected error!");
    let mut vm = BinaryVirtualMachine::new(interpreter);

    assert_eq!(0, vm.execute_first());
    assert_eq!(0x000FFFF0, vm.read_register_value(Register::R0));
}

#[test]
fn runtime_sll() {
    let program: [u32; 9] = [
        utils::create_instruction_register_and_immediate(OpCode::LI, Register::R0, 7 * 4),
        utils::create_instruction_register_and_immediate(OpCode::LI, Register::R2, 8 * 4),
        utils::create_instruction_two_registers(OpCode::LW, Register::R0, Register::R0),
        utils::create_instruction_two_registers(OpCode::LW, Register::R2, Register::R2),
        utils::create_instruction_two_registers(OpCode::SLL, Register::R0, Register::R2),
        load_0_in_r1_instruction(),
        SYSCALLI_EXIT_INSTRUCTION,
        0x00FFFF00,
        4,
    ];

    let interpreter = BinaryInterpreter::new_with_program(&program).expect("Unexpected error!");
    let mut vm = BinaryVirtualMachine::new(interpreter);

    assert_eq!(0, vm.execute_first());
    assert_eq!(0x0FFFF000, vm.read_register_value(Register::R0));
}

#[test]
fn runtime_srli() {
    let program: [u32; 6] = [
        utils::create_instruction_register_and_immediate(OpCode::LI, Register::R0, 5 * 4),
        utils::create_instruction_two_registers(OpCode::LW, Register::R0, Register::R0),
        utils::create_instruction_register_and_immediate(OpCode::SRLI, Register::R0, 4),
        load_0_in_r1_instruction(),
        SYSCALLI_EXIT_INSTRUCTION,
        0x00FFFF00,
    ];

    let interpreter = BinaryInterpreter::new_with_program(&program).expect("Unexpected error!");
    let mut vm = BinaryVirtualMachine::new(interpreter);

    assert_eq!(0, vm.execute_first());
    assert_eq!(0x000FFFF0, vm.read_register_value(Register::R0));
}

#[test]
fn runtime_slli() {
    let program: [u32; 6] = [
        utils::create_instruction_register_and_immediate(OpCode::LI, Register::R0, 5 * 4),
        utils::create_instruction_two_registers(OpCode::LW, Register::R0, Register::R0),
        utils::create_instruction_register_and_immediate(OpCode::SLLI, Register::R0, 4),
        load_0_in_r1_instruction(),
        SYSCALLI_EXIT_INSTRUCTION,
        0x00FFFF00,
    ];

    let interpreter = BinaryInterpreter::new_with_program(&program).expect("Unexpected error!");
    let mut vm = BinaryVirtualMachine::new(interpreter);

    assert_eq!(0, vm.execute_first());
    assert_eq!(0x0FFFF000, vm.read_register_value(Register::R0));
}

#[test]
fn new_with_program_overflow() {
    let program = vec!(0; BINARY_INTERPRETER_MEM_SIZE as usize + 100);
    let interpreter = BinaryInterpreter::new_with_program(&program);
    assert_eq!(None, interpreter, "Should be None");
}

#[test]
fn new_with_initial() {
    let mem: Vec<u8> = vec!(1, 2, 3, 4, 10, 100);
    let interpreter = BinaryInterpreter::new_with_initial(&mem);
    assert_ne!(None, interpreter);
    let interpreter = interpreter.expect("Already checked");
    for i in 0..(mem.len() as u32) {
        let read_byte = interpreter.read_u8(i);
        assert_eq!(Some(mem[i as usize]), read_byte);
    }
}

#[test]
fn new_with_initial_with_overflow() {
    let mem: Vec<u8> = vec!(0; BINARY_INTERPRETER_MEM_SIZE as usize + 100);
    let interpreter = BinaryInterpreter::new_with_initial(&mem);
    assert_eq!(None, interpreter);
}

#[test]
fn read_u32_out_of_bounds() {
    let interpreter = BinaryInterpreter::new();
    assert_eq!(None, interpreter.read_u32(BINARY_INTERPRETER_MEM_SIZE as u32));
}

#[test]
fn read_u16_out_of_bounds() {
    let interpreter = BinaryInterpreter::new();
    assert_eq!(None, interpreter.read_u16(BINARY_INTERPRETER_MEM_SIZE as u32));
}

#[test]
fn read_u8_out_of_bounds() {
    let interpreter = BinaryInterpreter::new();
    assert_eq!(None, interpreter.read_u8(BINARY_INTERPRETER_MEM_SIZE as u32));
}

#[test]
fn write_u32_out_of_bounds() {
    let mut interpreter = BinaryInterpreter::new();
    assert_eq!(false, interpreter.write_u32(BINARY_INTERPRETER_MEM_SIZE as u32, 0));
}

#[test]
fn write_u16_out_of_bounds() {
    let mut interpreter = BinaryInterpreter::new();
    assert_eq!(false, interpreter.write_u16(BINARY_INTERPRETER_MEM_SIZE as u32, 0));
}

#[test]
fn write_u8_out_of_bounds() {
    let mut interpreter = BinaryInterpreter::new();
    assert_eq!(false, interpreter.write_u8(BINARY_INTERPRETER_MEM_SIZE as u32, 0));
}

#[test]
fn execute_out_of_bounds() {
    let interpreter = BinaryInterpreter::new();
    let mut vm = BinaryVirtualMachine::new(interpreter);
    vm.execute(BINARY_INTERPRETER_MEM_SIZE as u32);
    assert_eq!(Error::Memory as u32, vm.read_register_value(Register::ERR));
}

#[test]
fn test_no_such_register() {
    let program: [u32; 1] = [utils::create_instruction_register(OpCode::J, Register::R0) + 0xF]; // Make sure to annihilate the register
    let interpreter = BinaryInterpreter::new_with_program(&program).expect("Expected");
    let mut vm = BinaryVirtualMachine::new(interpreter);
    vm.execute_first();
    assert_eq!(Error::Register as u32, vm.read_register_value(Register::ERR));
}

#[test]
fn test_no_such_register_write_register() {
    let program: [u32; 1] = [utils::create_instruction_two_registers(OpCode::CPY, Register::R0, Register::R1) + 0xE]; // Make sure to annihilate the register
    let interpreter = BinaryInterpreter::new_with_program(&program).expect("Expected");
    let mut vm = BinaryVirtualMachine::new(interpreter);
    vm.execute_first();
    assert_eq!(Error::Register as u32, vm.read_register_value(Register::ERR));

    // test binary_register_operation_write0
    let program: [u32; 1] = [
        utils::create_instruction_two_registers(OpCode::CPY, Register::R0, Register::R1)
            + utils::create_instruction_two_registers(OpCode::CPY, Register::R1, Register::R0) * 0xF // sophisticated bs
    ]; // Make sure to annihilate the register
    let interpreter = BinaryInterpreter::new_with_program(&program).expect("Expected");
    let mut vm = BinaryVirtualMachine::new(interpreter);
    vm.execute_first();
    assert_eq!(Error::Register as u32, vm.read_register_value(Register::ERR));
}

#[test]
fn test_no_such_register_biop_write() {
    let program: [u32; 1] = [utils::create_instruction_two_registers(OpCode::ADD, Register::R0, Register::R1) + 0xE]; // Make sure to annihilate the register
    let interpreter = BinaryInterpreter::new_with_program(&program).expect("Expected");
    let mut vm = BinaryVirtualMachine::new(interpreter);
    vm.execute_first();
    assert_eq!(Error::Register as u32, vm.read_register_value(Register::ERR));

    // test binary_register_operation_write0
    let program: [u32; 1] = [
        utils::create_instruction_two_registers(OpCode::ADD, Register::R0, Register::R1)
            + utils::create_instruction_two_registers(OpCode::CPY, Register::R1, Register::R0) * 0xF // sophisticated bs
    ]; // Make sure to annihilate the register
    let interpreter = BinaryInterpreter::new_with_program(&program).expect("Expected");
    let mut vm = BinaryVirtualMachine::new(interpreter);
    vm.execute_first();
    assert_eq!(Error::Register as u32, vm.read_register_value(Register::ERR));

    let program: [u32; 1] = [
        utils::create_instruction_register_and_immediate(OpCode::LI, Register::R0, 123)
            + utils::create_instruction_two_registers(OpCode::CPY, Register::R1, Register::R0) * 0xF // sophisticated bs
    ]; // Make sure to annihilate the register
    let interpreter = BinaryInterpreter::new_with_program(&program).expect("Expected");
    let mut vm = BinaryVirtualMachine::new(interpreter);
    vm.execute_first();
    assert_eq!(Error::Register as u32, vm.read_register_value(Register::ERR));

    // test binary_register_and_immediate_operation_write0
    let program: [u32; 1] = [
        utils::create_instruction_register_and_immediate(OpCode::SRLI, Register::R0, 123)
            + utils::create_instruction_two_registers(OpCode::CPY, Register::R1, Register::R0) * 0xF // sophisticated bs
    ]; // Make sure to annihilate the register
    let interpreter = BinaryInterpreter::new_with_program(&program).expect("Expected");
    let mut vm = BinaryVirtualMachine::new(interpreter);
    vm.execute_first();
    assert_eq!(Error::Register as u32, vm.read_register_value(Register::ERR));
}

#[test]
fn test_no_such_register_check_write_ip() {
    let program: [u32; 1] = [
        utils::create_instruction_register_and_immediate(OpCode::JGZI, Register::R0, 4)
            + utils::create_instruction_two_registers(OpCode::CPY, Register::R1, Register::R0) * 0xF // sophisticated bs
    ]; // Make sure to annihilate the register
    let interpreter = BinaryInterpreter::new_with_program(&program).expect("Expected");
    let mut vm = BinaryVirtualMachine::new(interpreter);
    vm.execute_first();
    assert_eq!(Error::Register as u32, vm.read_register_value(Register::ERR));
}

#[test]
fn test_no_such_register_not() {
    let program: [u32; 1] = [
        utils::create_instruction_register(OpCode::NOT, Register::R0) + 0xF
    ]; // Make sure to annihilate the register
    let interpreter = BinaryInterpreter::new_with_program(&program).expect("Expected");
    let mut vm = BinaryVirtualMachine::new(interpreter);
    vm.execute_first();
    assert_eq!(Error::Register as u32, vm.read_register_value(Register::ERR));
}

#[test]
fn test_cannot_write_register() {
    let program: [u32; 1] = [utils::create_instruction_two_registers(OpCode::CPY, Register::IP, Register::R0)];
    let interpreter = BinaryInterpreter::new_with_program(&program).expect("Expected");
    let mut vm = BinaryVirtualMachine::new(interpreter);
    vm.execute_first();
    assert_eq!(Error::ReadonlyRegister as u32, vm.read_register_value(Register::ERR));

    let program: [u32; 1] = [utils::create_instruction_two_registers(OpCode::CPY, Register::ERR, Register::R0)];
    let interpreter = BinaryInterpreter::new_with_program(&program).expect("Expected");
    let mut vm = BinaryVirtualMachine::new(interpreter);
    vm.execute_first();
    assert_eq!(Error::ReadonlyRegister as u32, vm.read_register_value(Register::ERR));
}

#[test]
fn test_can_write_registers() {
    for register in [Register::R0, Register::R1, Register::R2, Register::R3, Register::R4, Register::R5, Register::R6, Register::R7, Register::RA, Register::SP] {
        let program: [u32; 3] = [
            utils::create_instruction_two_registers(OpCode::CPY, register, Register::IP),
            load_0_in_r1_instruction(),
            SYSCALLI_EXIT_INSTRUCTION
        ];
        let interpreter = BinaryInterpreter::new_with_program(&program).expect("Expected");
        let mut vm = BinaryVirtualMachine::new(interpreter);
        vm.execute_first();
        assert_eq!(Error::NoError as u32, vm.read_register_value(Register::ERR));
    }
}

#[test]
fn test_invalid_syscall() {
    let program: [u32; 1] = [utils::create_instruction_immediate(OpCode::SYSCALLI, 0xFF)];
    let interpreter = BinaryInterpreter::new_with_program(&program).expect("Expected");
    let mut vm = BinaryVirtualMachine::new(interpreter);
    vm.execute_first();
    assert_eq!(Error::Syscall as u32, vm.read_register_value(Register::ERR));
}

#[test]
fn lw_edge() {
    let program: [u32; 5] = [
        utils::create_instruction_register_and_immediate(OpCode::LWI, Register::R0, 4 * 4),
        utils::create_instruction_two_registers(OpCode::LW, Register::R0, Register::R0),
        load_0_in_r1_instruction(),
        SYSCALLI_EXIT_INSTRUCTION,
        BINARY_INTERPRETER_MEM_SIZE - 4
    ];
    let interpreter = BinaryInterpreter::new_with_program(&program).expect("Expected");
    let mut vm = BinaryVirtualMachine::new(interpreter);
    vm.execute_first();
    assert_eq!(Error::NoError as u32, vm.read_register_value(Register::ERR));
}

#[test]
fn lh_edge() {
    let program: [u32; 5] = [
        utils::create_instruction_register_and_immediate(OpCode::LWI, Register::R0, 4 * 4),
        utils::create_instruction_two_registers(OpCode::LH, Register::R0, Register::R0),
        load_0_in_r1_instruction(),
        SYSCALLI_EXIT_INSTRUCTION,
        BINARY_INTERPRETER_MEM_SIZE - 2
    ];
    let interpreter = BinaryInterpreter::new_with_program(&program).expect("Expected");
    let mut vm = BinaryVirtualMachine::new(interpreter);
    vm.execute_first();
    assert_eq!(Error::NoError as u32, vm.read_register_value(Register::ERR));
}

#[test]
fn lb_edge() {
    let program: [u32; 5] = [
        utils::create_instruction_register_and_immediate(OpCode::LWI, Register::R0, 4 * 4),
        utils::create_instruction_two_registers(OpCode::LB, Register::R0, Register::R0),
        load_0_in_r1_instruction(),
        SYSCALLI_EXIT_INSTRUCTION,
        BINARY_INTERPRETER_MEM_SIZE - 1
    ];
    let interpreter = BinaryInterpreter::new_with_program(&program).expect("Expected");
    let mut vm = BinaryVirtualMachine::new(interpreter);
    vm.execute_first();
    assert_eq!(Error::NoError as u32, vm.read_register_value(Register::ERR));
}

#[test]
fn lw_out_of_bounds() {
    for i in 0..3 { // 32-bit = 4-byte
        let program: [u32; 2] = [
            utils::create_instruction_register_and_immediate(OpCode::LI, Register::R0, BINARY_INTERPRETER_MEM_SIZE as u32 - i),
            utils::create_instruction_two_registers(OpCode::LW, Register::R0, Register::R0)
        ];
        let interpreter = BinaryInterpreter::new_with_program(&program).expect("Expected");
        let mut vm = BinaryVirtualMachine::new(interpreter);
        vm.execute_first();
        assert_eq!(Error::Memory as u32, vm.read_register_value(Register::ERR));
    }
}

#[test]
fn lh_out_of_bounds() {
    for i in 0..1 { // 16-bit = 2-byte
        let program: [u32; 2] = [
            utils::create_instruction_register_and_immediate(OpCode::LI, Register::R0, BINARY_INTERPRETER_MEM_SIZE as u32 - i),
            utils::create_instruction_two_registers(OpCode::LH, Register::R0, Register::R0)
        ];
        let interpreter = BinaryInterpreter::new_with_program(&program).expect("Expected");
        let mut vm = BinaryVirtualMachine::new(interpreter);
        vm.execute_first();
        assert_eq!(Error::Memory as u32, vm.read_register_value(Register::ERR));
    }
}

#[test]
fn lb_out_of_bounds() {
    let program: [u32; 2] = [
        utils::create_instruction_register_and_immediate(OpCode::LI, Register::R0, BINARY_INTERPRETER_MEM_SIZE as u32),
        utils::create_instruction_two_registers(OpCode::LB, Register::R0, Register::R0)
    ];
    let interpreter = BinaryInterpreter::new_with_program(&program).expect("Expected");
    let mut vm = BinaryVirtualMachine::new(interpreter);
    vm.execute_first();
    assert_eq!(Error::Memory as u32, vm.read_register_value(Register::ERR));
}

#[test]
fn edge_binary_interpreter() {
    let mut interpreter = BinaryInterpreter::new();
    assert_eq!(Some(0), interpreter.read_u8(BINARY_INTERPRETER_MEM_SIZE - 1));
    assert_eq!(true, interpreter.write_u8(BINARY_INTERPRETER_MEM_SIZE - 1, 128 as u8));
    assert_eq!(Some(128), interpreter.read_u8(BINARY_INTERPRETER_MEM_SIZE - 1));
    
    let mut interpreter = BinaryInterpreter::new();
    assert_eq!(Some(0), interpreter.read_u16(BINARY_INTERPRETER_MEM_SIZE - 2));
    assert_eq!(true, interpreter.write_u16(BINARY_INTERPRETER_MEM_SIZE - 2, 30230));
    assert_eq!(Some(30230), interpreter.read_u16(BINARY_INTERPRETER_MEM_SIZE - 2));

    let mut interpreter = BinaryInterpreter::new();
    assert_eq!(Some(0), interpreter.read_u32(BINARY_INTERPRETER_MEM_SIZE - 4));
    assert_eq!(true, interpreter.write_u32(BINARY_INTERPRETER_MEM_SIZE - 4, 30230));
    assert_eq!(Some(30230), interpreter.read_u32(BINARY_INTERPRETER_MEM_SIZE - 4));
}

#[test]
fn sw_edge() {
    let program: [u32; 5] = [
        utils::create_instruction_register_and_immediate(OpCode::LWI, Register::R0, 4 * 4),
        utils::create_instruction_two_registers(OpCode::SW, Register::R0, Register::R0),
        load_0_in_r1_instruction(),
        SYSCALLI_EXIT_INSTRUCTION,
        BINARY_INTERPRETER_MEM_SIZE - 4
    ];
    let interpreter = BinaryInterpreter::new_with_program(&program).expect("Expected");
    let mut vm = BinaryVirtualMachine::new(interpreter);
    vm.execute_first();
    assert_eq!(Error::NoError as u32, vm.read_register_value(Register::ERR));
}

#[test]
fn sh_edge() {
    let program: [u32; 5] = [
        utils::create_instruction_register_and_immediate(OpCode::LWI, Register::R0, 4 * 4),
        utils::create_instruction_two_registers(OpCode::SH, Register::R0, Register::R0),
        load_0_in_r1_instruction(),
        SYSCALLI_EXIT_INSTRUCTION,
        BINARY_INTERPRETER_MEM_SIZE - 2
    ];
    let interpreter = BinaryInterpreter::new_with_program(&program).expect("Expected");
    let mut vm = BinaryVirtualMachine::new(interpreter);
    vm.execute_first();
    assert_eq!(Error::NoError as u32, vm.read_register_value(Register::ERR));
}

#[test]
fn sb_edge() {
    let program: [u32; 5] = [
        utils::create_instruction_register_and_immediate(OpCode::LWI, Register::R0, 4 * 4),
        utils::create_instruction_two_registers(OpCode::SB, Register::R0, Register::R0),
        load_0_in_r1_instruction(),
        SYSCALLI_EXIT_INSTRUCTION,
        BINARY_INTERPRETER_MEM_SIZE - 1
    ];
    let interpreter = BinaryInterpreter::new_with_program(&program).expect("Expected");
    let mut vm = BinaryVirtualMachine::new(interpreter);
    vm.execute_first();
    assert_eq!(Error::NoError as u32, vm.read_register_value(Register::ERR));
}

#[test]
fn sw_out_of_bounds() {
    for i in 0..3 { // 32-bit = 4-byte
        let program: [u32; 2] = [
            utils::create_instruction_register_and_immediate(OpCode::LI, Register::R0, BINARY_INTERPRETER_MEM_SIZE as u32 - i),
            utils::create_instruction_two_registers(OpCode::SW, Register::R0, Register::R0)
        ];
        let interpreter = BinaryInterpreter::new_with_program(&program).expect("Expected");
        let mut vm = BinaryVirtualMachine::new(interpreter);
        vm.execute_first();
        assert_eq!(Error::Memory as u32, vm.read_register_value(Register::ERR));
    }
}

#[test]
fn sh_out_of_bounds() {
    for i in 0..1 { // 16-bit = 2-byte
        let program: [u32; 2] = [
            utils::create_instruction_register_and_immediate(OpCode::LI, Register::R0, BINARY_INTERPRETER_MEM_SIZE as u32 - i),
            utils::create_instruction_two_registers(OpCode::SH, Register::R0, Register::R0)
        ];
        let interpreter = BinaryInterpreter::new_with_program(&program).expect("Expected");
        let mut vm = BinaryVirtualMachine::new(interpreter);
        vm.execute_first();
        assert_eq!(Error::Memory as u32, vm.read_register_value(Register::ERR));
    }
}

#[test]
fn sb_out_of_bounds() {
    let program: [u32; 2] = [
        utils::create_instruction_register_and_immediate(OpCode::LI, Register::R0, BINARY_INTERPRETER_MEM_SIZE as u32),
        utils::create_instruction_two_registers(OpCode::SB, Register::R0, Register::R0)
    ];
    let interpreter = BinaryInterpreter::new_with_program(&program).expect("Expected");
    let mut vm = BinaryVirtualMachine::new(interpreter);
    vm.execute_first();
    assert_eq!(Error::Memory as u32, vm.read_register_value(Register::ERR));
}

#[test]
fn test_no_such_instruction() {
    let program: [u32; 1] = [
        0xFF000000
    ];
    let interpreter = BinaryInterpreter::new_with_program(&program).expect("Expected");
    let mut vm = BinaryVirtualMachine::new(interpreter);
    vm.execute_first();
    assert_eq!(Error::OpCode as u32, vm.read_register_value(Register::ERR));
}

#[test]
fn test_for_error() {
    assert_eq!(Error::NoError, Error::NoError);
    assert_eq!(Error::ReadonlyRegister, Error::ReadonlyRegister);
    assert_ne!(Error::ReadonlyRegister, Error::NoError);
}
