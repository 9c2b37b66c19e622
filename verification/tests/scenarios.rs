use libcustomvmcpu::common::{Error, OpCode, Register, ERROR_START_NUM};
use libcustomvmcpu::compiler::{assemble, parse_and_compile_str};
use libcustomvmcpu::report::interpreter_report;
use libcustomvmcpu::runtime::utils;
use libcustomvmcpu::runtime::{
    run, BinaryInterpreter, BinaryVirtualMachine, Interpreter, BINARY_INTERPRETER_MEM_SIZE,
};

fn run_source(source: &str) -> (u32, BinaryVirtualMachine) {
    let image = parse_and_compile_str(source).expect("the source assembles");
    let interpreter = BinaryInterpreter::new_with_initial(&image).expect("the image fits");
    let mut vm = BinaryVirtualMachine::new(interpreter);
    let code = vm.execute_first();
    (code, vm)
}

#[test]
fn scenario_halt() {
    let image = parse_and_compile_str("syscalli 0").expect("the source assembles");
    assert_eq!(4, image.len());
    assert_eq!(vec![0u8, 0, 0, OpCode::SYSCALLI as u8], image);
    let (code, vm) = run_source("syscalli 0");
    assert_eq!(0, code);
    for reg in [
        Register::R0,
        Register::R1,
        Register::R2,
        Register::R3,
        Register::R4,
        Register::R5,
        Register::R6,
        Register::R7,
        Register::IP,
        Register::ERR,
    ] {
        assert_eq!(0, vm.read_register_value(reg));
    }
    assert_eq!(BINARY_INTERPRETER_MEM_SIZE, vm.read_register_value(Register::SP));
    assert_eq!(4, vm.read_register_value(Register::RA));
}

#[test]
fn scenario_add_immediate_constants() {
    let (code, vm) = run_source("li $r2, 100\nli $r0, 32\nadd $r0, $r2\nsyscalli 0");
    assert_eq!(0, code);
    assert_eq!(132, vm.read_register_value(Register::R0));
    assert_eq!(100, vm.read_register_value(Register::R2));
}

#[test]
fn scenario_print() {
    let (code, vm) = run_source(
        "li $r1, %s\nli $r2, 14\nsyscalli 1\nli $r1, 0\nsyscalli 0\ns: .str \"Hello, world!\\n\"",
    );
    assert_eq!(0, code);
    assert_eq!(b"Hello, world!\n".to_vec(), *vm.stdout());
}

#[test]
fn scenario_call_and_return_address() {
    let (code, vm) = run_source(
        "ji 4\njil 16\nli $r1, 0\nsyscalli 0\nli $r0, 32\ncpy $r3, $ra\nli $r1, 0\nsyscalli 0",
    );
    assert_eq!(0, code);
    assert_eq!(32, vm.read_register_value(Register::R0));
    assert_eq!(8, vm.read_register_value(Register::R3));
}

#[test]
fn scenario_divisor_zero() {
    let (code, vm) = run_source("li $r0, 20\nli $r1, 0\ndiv $r0, $r1\nsyscalli 0");
    assert_eq!(32000 + 6, code);
    assert_eq!(ERROR_START_NUM + Error::DivisorNotZero as u32, code);
    assert_eq!(0, vm.read_register_value(Register::R0));
    assert_eq!(6, vm.read_register_value(Register::ERR));
}

#[test]
fn scenario_expression_folding() {
    let image = parse_and_compile_str(".i32 (1 + 2) * 3").expect("the source assembles");
    assert_eq!(9, u32::from_le_bytes([image[0], image[1], image[2], image[3]]));
}

#[test]
fn scenario_operator_precedence() {
    assert_eq!(Some(7u32.to_le_bytes().to_vec()), parse_and_compile_str(".i32 1 + 2 * 3"));
    assert_eq!(Some(11u32.to_le_bytes().to_vec()), parse_and_compile_str(".i32 4 * 2 + 3"));
}

#[test]
fn left_associativity_within_a_tier() {
    assert_eq!(Some(5u32.to_le_bytes().to_vec()), parse_and_compile_str(".i32 10 - 3 - 2"));
    assert_eq!(Some(8u32.to_le_bytes().to_vec()), parse_and_compile_str(".i32 16 / 4 * 2"));
    assert_eq!(Some(1u32.to_le_bytes().to_vec()), parse_and_compile_str(".i32 16 / 4 / 4"));
    assert_eq!(Some(9u32.to_le_bytes().to_vec()), parse_and_compile_str(".i32 10 - 3 + 2"));
    assert_eq!(Some(14u32.to_le_bytes().to_vec()), parse_and_compile_str(".i32 2 * 3 + 2 * 4"));
}

#[test]
fn folding_wraps_at_32_bits() {
    assert_eq!(Some(vec![0xFFu8, 0xFF, 0xFF, 0xFF]), parse_and_compile_str(".i32 0 - 1"));
    assert_eq!(Some(vec![0u8, 0, 0, 0]), parse_and_compile_str(".i32 4294967295 + 1"));
    assert_eq!(Some(vec![0u8, 0, 0, 0]), parse_and_compile_str(".i32 65536 * 65536"));
    assert_eq!(Some(vec![2u8, 0, 0, 0]), parse_and_compile_str(".i32 7 / 3"));
}

#[test]
fn assembling_twice_gives_the_same() {
    let source = "start: li $r0, %end\nadd $r0, $r9\n.i32 1 / 0\nend: .str \"a\\qb\"\n";
    let (image0, errors0) = assemble(source);
    let (image1, errors1) = assemble(source);
    assert_eq!(image0, image1);
    assert_eq!(errors0, errors1);
    assert!(!errors0.is_empty());
    let good = "start: li $r0, %end\nend: .str \"ab\"\n";
    assert_eq!(assemble(good), assemble(good));
    assert_eq!(parse_and_compile_str(good), assemble(good).0);
    assert!(assemble(good).1.is_empty());
}

#[test]
fn run_service_gives_exit_code_registers_and_output() {
    let image = parse_and_compile_str(
        "li $r1, %text\nli $r2, 2\nsyscalli 1\nli $r1, 7\nsyscalli 0\ntext: .str \"ok\"",
    )
    .expect("the source assembles");
    let result = run(&image).expect("the image fits");
    assert_eq!(7, result.exit_code);
    assert_eq!(b"ok".to_vec(), result.stdout);
    assert_eq!(7, result.registers[1]);
    assert_eq!(2, result.registers[2]);
    assert_eq!(BINARY_INTERPRETER_MEM_SIZE, result.registers[8]);
    assert_eq!(16, result.registers[9]);
    assert_eq!(20, result.registers[10]);
    assert_eq!(0, result.registers[11]);
}

#[test]
fn run_service_refuses_an_image_larger_than_memory() {
    let image: Vec<u8> = vec![0; BINARY_INTERPRETER_MEM_SIZE as usize + 1];
    assert_eq!(None, run(&image));
    let full: Vec<u8> = vec![0; BINARY_INTERPRETER_MEM_SIZE as usize];
    let result = run(&full).expect("an image as large as memory fits");
    assert_eq!(ERROR_START_NUM + Error::Memory as u32, result.exit_code);
}

#[test]
fn report_of_a_good_program() {
    let report = interpreter_report("syscalli 0");
    assert!(report.success);
    assert!(report.errors.is_empty());
    let result = report.run.expect("the program ran");
    assert_eq!(0, result.exit_code);
    assert_eq!(Vec::<u8>::new(), result.stdout);
    assert_eq!(
        [0, 0, 0, 0, 0, 0, 0, 0, BINARY_INTERPRETER_MEM_SIZE, 0, 4, 0],
        result.registers
    );
}

#[test]
fn report_of_a_bad_program() {
    let report = interpreter_report("li $r0\nsyscalli 0");
    assert!(!report.success);
    assert!(report.run.is_none());
    assert!(!report.errors.is_empty());
}

#[test]
fn loaded_image_is_followed_by_zeros() {
    let image: Vec<u8> = vec![9, 8, 7];
    let interpreter = BinaryInterpreter::new_with_initial(&image).expect("the image fits");
    assert_eq!(Some(9), interpreter.read_u8(0));
    assert_eq!(Some(7), interpreter.read_u8(2));
    assert_eq!(Some(0), interpreter.read_u8(3));
    assert_eq!(Some(0x0007_0809), interpreter.read_u32(0));
    assert_eq!(Some(0x0809), interpreter.read_u16(0));
    assert_eq!(BINARY_INTERPRETER_MEM_SIZE, interpreter.len());
}

#[test]
fn produced_words_decode_to_their_instructions() {
    let image = parse_and_compile_str(
        "start: add $r3, $sp\nli $r7, 0 - 5\naddi $ra, %end\nnot $r4\njil %start + 8\nj $r2\nend:",
    )
    .expect("the source assembles");
    let words: Vec<u32> = image
        .chunks(4)
        .map(|bytes| u32::from_le_bytes([bytes[0], bytes[1], bytes[2], bytes[3]]))
        .collect();
    assert_eq!(
        vec![
            utils::create_instruction_two_registers(OpCode::ADD, Register::R3, Register::SP),
            utils::create_instruction_register_and_immediate(OpCode::LI, Register::R7, 0xFFFF_FFFB),
            utils::create_instruction_register_and_immediate(OpCode::ADDI, Register::RA, 24),
            utils::create_instruction_register(OpCode::NOT, Register::R4),
            utils::create_instruction_immediate(OpCode::JIL, 8),
            utils::create_instruction_register(OpCode::J, Register::R2),
        ],
        words
    );
    assert_eq!(OpCode::ADD as u8, BinaryVirtualMachine::get_opcode(words[0]));
    assert_eq!((3, 8), BinaryVirtualMachine::get_two_registers(words[0]));
    assert_eq!(OpCode::LI as u8, BinaryVirtualMachine::get_opcode(words[1]));
    assert_eq!(
        (7, 0xFFFF_FFFB),
        BinaryVirtualMachine::get_register_and_twos_complement_immediate(words[1])
    );
    assert_eq!(OpCode::ADDI as u8, BinaryVirtualMachine::get_opcode(words[2]));
    assert_eq!((10, 24), BinaryVirtualMachine::get_register_and_immediate(words[2]));
    assert_eq!(OpCode::NOT as u8, BinaryVirtualMachine::get_opcode(words[3]));
    assert_eq!(4, BinaryVirtualMachine::get_registers(words[3]));
    assert_eq!(OpCode::JIL as u8, BinaryVirtualMachine::get_opcode(words[4]));
    assert_eq!(8, BinaryVirtualMachine::get_immediate(words[4]));
    assert_eq!(OpCode::J as u8, BinaryVirtualMachine::get_opcode(words[5]));
    assert_eq!(2, BinaryVirtualMachine::get_registers(words[5]));
}
