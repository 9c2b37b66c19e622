//! The image of a program and the diagnostics of compiling it, as functions
//! of the items.

use crate::common::{Error, OpCode};
use crate::lexer::Lexeme;
use crate::parser::grammar::{binary, item_at, items_from, lexemes_of, number, parse_of};
use crate::parser::{
    instruction_parse_type, Diagnostic, ImmediateTree, InstructionParseType, Item, Operator,
    ParserErrorType, SpannedItem,
};
use crate::runtime::machine::{
    decode, encode, lemma_decode_encode, lemma_word_from_its_bytes, read_u32_of, word_byte,
    Instruction,
};
use crate::runtime::utils::{
    fits_immediate20, fits_immediate24, fits_signed_immediate20, instruction_immediate,
    instruction_register, instruction_register_and_immediate, instruction_two_registers,
};
use vstd::prelude::*;

verus! {

// ---------------------------------------------------------------------------
// Layout
// ---------------------------------------------------------------------------
/// The number of bytes that an item takes in the image: 4 for an instruction
/// and for `.i32`, the length of the string for `.str`, none for a label or
/// for source that did not parse.
pub open spec fn item_size(item: Item) -> nat {
    match item {
        Item::InstructionRegister(_, _)
        | Item::InstructionImmediate(_, _)
        | Item::InstructionTwoRegisters(_, _, _)
        | Item::InstructionRegisterAndImmediate(_, _, _)
        | Item::StoreI32(_) => 4,
        Item::StoreStr(bytes) => bytes.len(),
        Item::Label(_) => 0,
        Item::Error => 0,
    }
}

/// The offset of item `k` in the image: the sizes of the items before it,
/// added up.
pub open spec fn size_before(program: Seq<SpannedItem>, k: int) -> nat
    decreases k,
{
    if k <= 0 {
        0
    } else {
        size_before(program, k - 1) + item_size(program[k - 1].item)
    }
}

/// The size of the image of a program.
pub open spec fn image_size(program: Seq<SpannedItem>) -> nat {
    size_before(program, program.len() as int)
}

/// The offset of the label `name` in a table of labels, if it is defined
/// there.
pub open spec fn lookup(table: Seq<(Seq<u8>, u32)>, name: Seq<u8>) -> Option<u32>
    decreases table.len(),
{
    if table.len() == 0 {
        None
    } else if table.last().0 == name {
        Some(table.last().1)
    } else {
        lookup(table.drop_last(), name)
    }
}

/// The labels that the first `k` items define, each with the offset of its
/// definition.  A name that is defined again keeps its first offset.
pub open spec fn label_table(program: Seq<SpannedItem>, k: int) -> Seq<(Seq<u8>, u32)>
    decreases k,
{
    if k <= 0 {
        Seq::empty()
    } else {
        let before = label_table(program, k - 1);
        match program[k - 1].item {
            Item::Label(name) => if lookup(before, name) is None {
                before.push((name, size_before(program, k - 1) as u32))
            } else {
                before
            },
            _ => before,
        }
    }
}

/// The diagnostic that item `k` cannot be compiled.
pub open spec fn cannot_compile(program: Seq<SpannedItem>, k: int) -> Diagnostic {
    Diagnostic {
        start: program[k].start,
        end: program[k].end,
        kind: ParserErrorType::CannotCompileExpression,
    }
}

/// One diagnostic for each of the first `k` items that defines a label again.
pub open spec fn duplicate_labels(program: Seq<SpannedItem>, k: int) -> Seq<Diagnostic>
    decreases k,
{
    if k <= 0 {
        Seq::empty()
    } else {
        let before = duplicate_labels(program, k - 1);
        match program[k - 1].item {
            Item::Label(name) => if lookup(label_table(program, k - 1), name) is Some {
                before.push(cannot_compile(program, k - 1))
            } else {
                before
            },
            _ => before,
        }
    }
}

// ---------------------------------------------------------------------------
// Emission
// ---------------------------------------------------------------------------
/// The value of `left` and `right` under an operator: wrapping at 32 bits;
/// `None` for a division by zero.
pub open spec fn folded(op: Operator, left: u32, right: u32) -> Option<u32> {
    match op {
        Operator::Add => Some(left.wrapping_add(right)),
        Operator::Sub => Some(left.wrapping_sub(right)),
        Operator::Mul => Some(left.wrapping_mul(right)),
        Operator::Div => if right == 0 {
            None
        } else {
            Some((left / right) as u32)
        },
    }
}

/// The value of the two operands of an operator, where both have one.
pub open spec fn folded_operands(op: Operator, left: Option<u32>, right: Option<u32>) -> Option<
    u32,
> {
    match (left, right) {
        (Some(x), Some(y)) => folded(op, x, y),
        _ => None,
    }
}

/// The value of an immediate expression, with the labels of `table`.  `None`
/// where a label is not defined or a divisor is zero.
pub open spec fn value_of(tree: ImmediateTree, table: Seq<(Seq<u8>, u32)>) -> Option<u32>
    decreases tree,
{
    match tree {
        ImmediateTree::Int(value) => Some(value),
        ImmediateTree::AddrToLabel(name) => lookup(table, name),
        ImmediateTree::Add(left, right) => folded_operands(
            Operator::Add,
            value_of(*left, table),
            value_of(*right, table),
        ),
        ImmediateTree::Sub(left, right) => folded_operands(
            Operator::Sub,
            value_of(*left, table),
            value_of(*right, table),
        ),
        ImmediateTree::Mul(left, right) => folded_operands(
            Operator::Mul,
            value_of(*left, table),
            value_of(*right, table),
        ),
        ImmediateTree::Div(left, right) => folded_operands(
            Operator::Div,
            value_of(*left, table),
            value_of(*right, table),
        ),
    }
}

/// Whether `value` survives the 20-bit immediate field of instruction `op`:
/// `LI` reads the field as a two's-complement number, the others as an
/// unsigned one.
pub open spec fn fits_register_immediate(op: OpCode, value: u32) -> bool {
    if op == OpCode::LI {
        fits_signed_immediate20(value)
    } else {
        fits_immediate20(value)
    }
}

/// The four bytes of a word, lowest first.
pub open spec fn word_bytes(word: u32) -> Seq<u8> {
    seq![word_byte(word, 0), word_byte(word, 1), word_byte(word, 2), word_byte(word, 3)]
}

/// The bytes of an item in the image, with the labels of `table`.  `None`
/// where an immediate has no value or does not fit its field.
pub open spec fn compiled(item: Item, table: Seq<(Seq<u8>, u32)>) -> Option<Seq<u8>> {
    match item {
        Item::InstructionRegister(op, reg) => Some(word_bytes(instruction_register(op, reg))),
        Item::InstructionTwoRegisters(op, reg0, reg1) => Some(
            word_bytes(instruction_two_registers(op, reg0, reg1)),
        ),
        Item::InstructionImmediate(op, imm) => match value_of(imm, table) {
            Some(value) => if fits_immediate24(value) {
                Some(word_bytes(instruction_immediate(op, value)))
            } else {
                None
            },
            None => None,
        },
        Item::InstructionRegisterAndImmediate(op, reg, imm) => match value_of(imm, table) {
            Some(value) => if fits_register_immediate(op, value) {
                Some(word_bytes(instruction_register_and_immediate(op, reg, value)))
            } else {
                None
            },
            None => None,
        },
        Item::StoreI32(imm) => match value_of(imm, table) {
            Some(value) => Some(word_bytes(value)),
            None => None,
        },
        Item::StoreStr(bytes) => Some(bytes),
        Item::Label(_) => Some(Seq::empty()),
        Item::Error => Some(Seq::empty()),
    }
}

/// One diagnostic for each of the first `k` items that does not compile, in
/// source order.
pub open spec fn unresolved_upto(program: Seq<SpannedItem>, table: Seq<(Seq<u8>, u32)>, k: int)
    -> Seq<Diagnostic>
    decreases k,
{
    if k <= 0 {
        Seq::empty()
    } else {
        let before = unresolved_upto(program, table, k - 1);
        if compiled(program[k - 1].item, table) is None {
            before.push(cannot_compile(program, k - 1))
        } else {
            before
        }
    }
}

/// One diagnostic for each item of a program that does not compile, in source
/// order.
pub open spec fn unresolved(program: Seq<SpannedItem>, table: Seq<(Seq<u8>, u32)>) -> Seq<
    Diagnostic,
> {
    unresolved_upto(program, table, program.len() as int)
}

/// The image of the first `k` items: the bytes of each, one after the other.
pub open spec fn image_upto(program: Seq<SpannedItem>, table: Seq<(Seq<u8>, u32)>, k: int) -> Seq<
    u8,
>
    decreases k,
{
    if k <= 0 {
        Seq::empty()
    } else {
        image_upto(program, table, k - 1) + match compiled(program[k - 1].item, table) {
            Some(bytes) => bytes,
            None => Seq::empty(),
        }
    }
}

/// The diagnostics that compiling a program raises.  An image of more than
/// 2^32 - 1 bytes raises one on the last item; otherwise there is one for
/// each label that is defined again, then one for each item that does not
/// compile.
pub open spec fn compile_diagnostics(program: Seq<SpannedItem>) -> Seq<Diagnostic> {
    if image_size(program) > u32::MAX {
        seq![cannot_compile(program, program.len() - 1)]
    } else {
        duplicate_labels(program, program.len() as int) + unresolved(
            program,
            label_table(program, program.len() as int),
        )
    }
}

/// The image of a program.
pub open spec fn image_of(program: Seq<SpannedItem>) -> Seq<u8> {
    image_upto(program, label_table(program, program.len() as int), program.len() as int)
}

/// What assembling the source `src` gives: the image, or `None` where parsing
/// or compiling raises a diagnostic.
pub open spec fn assembled(src: Seq<u8>) -> Option<Seq<u8>> {
    let parse = parse_of(src);
    if parse.errors.len() == 0 && compile_diagnostics(parse.program).len() == 0 {
        Some(image_of(parse.program))
    } else {
        None
    }
}

/// The diagnostics that assembling the source `src` raises: those of the
/// parser, then those of the compiler.
pub open spec fn diagnostics_of(src: Seq<u8>) -> Seq<Diagnostic> {
    parse_of(src).errors + compile_diagnostics(parse_of(src).program)
}


// ---------------------------------------------------------------------------
// Facts about layout and emission
// ---------------------------------------------------------------------------
/// Offsets grow with the item number, and an item ends where the next begins
/// or before.
pub proof fn lemma_size_before_grows(program: Seq<SpannedItem>, j: int, k: int)
    requires
        0 <= j <= k,
    ensures
        size_before(program, j) <= size_before(program, k),
        j < k ==> size_before(program, j) + item_size(program[j].item) <= size_before(program, k),
    decreases k,
{
    if j < k {
        lemma_size_before_grows(program, j, k - 1);
    }
}

/// An item that compiles gives as many bytes as its size.
pub proof fn lemma_compiled_size(item: Item, table: Seq<(Seq<u8>, u32)>)
    ensures
        compiled(item, table) matches Some(bytes) ==> bytes.len() == item_size(item),
{
}

/// Item `k` stands in `image` at its offset, if it compiles.
pub open spec fn placed(
    image: Seq<u8>,
    program: Seq<SpannedItem>,
    table: Seq<(Seq<u8>, u32)>,
    k: int,
) -> bool {
    match compiled(program[k].item, table) {
        Some(bytes) => size_before(program, k) + bytes.len() <= image.len() && image.subrange(
            size_before(program, k) as int,
            (size_before(program, k) + bytes.len()) as int,
        ) == bytes,
        None => true,
    }
}

/// Where each of the first `k` items compiles and stands at its offset, the
/// image starts with their bytes, one after the other.
pub proof fn lemma_placed_items_make_image(
    image: Seq<u8>,
    program: Seq<SpannedItem>,
    table: Seq<(Seq<u8>, u32)>,
    k: int,
)
    requires
        0 <= k <= program.len(),
        forall|j: int| 0 <= j < k ==> compiled(#[trigger] program[j].item, table) is Some,
        forall|j: int| 0 <= j < k ==> #[trigger] placed(image, program, table, j),
    ensures
        size_before(program, k) <= image.len() || k == 0,
        image_upto(program, table, k) =~= image.subrange(0, size_before(program, k) as int),
    decreases k,
{
    if k > 0 {
        lemma_placed_items_make_image(image, program, table, k - 1);
        lemma_compiled_size(program[k - 1].item, table);
        assert(placed(image, program, table, k - 1));
        lemma_size_before_grows(program, 0, k - 1);
    }
}

/// Where none of the first `k` items raises a diagnostic, each of them
/// compiles.
pub proof fn lemma_nothing_unresolved(program: Seq<SpannedItem>, table: Seq<(Seq<u8>, u32)>, k: int)
    requires
        unresolved_upto(program, table, k).len() == 0,
    ensures
        forall|j: int| 0 <= j < k ==> compiled(#[trigger] program[j].item, table) is Some,
    decreases k,
{
    if k > 0 {
        lemma_nothing_unresolved(program, table, k - 1);
    }
}

// ---------------------------------------------------------------------------
// What holds of every image
// ---------------------------------------------------------------------------
/// Whether an item, if it is an instruction, has the operands that its opcode
/// takes.
pub open spec fn well_shaped(item: Item) -> bool {
    match item {
        Item::InstructionRegister(op, _) => instruction_parse_type(op)
            == InstructionParseType::Register,
        Item::InstructionImmediate(op, _) => instruction_parse_type(op)
            == InstructionParseType::Immediate,
        Item::InstructionTwoRegisters(op, _, _) => instruction_parse_type(op)
            == InstructionParseType::TwoRegisters,
        Item::InstructionRegisterAndImmediate(op, _, _) => instruction_parse_type(op)
            == InstructionParseType::RegisterAndImmediate,
        _ => true,
    }
}

/// The instruction that an item is, with the value of its immediate; `None`
/// for an item that is no instruction or whose immediate has no value.
pub open spec fn instruction_of(item: Item, table: Seq<(Seq<u8>, u32)>) -> Option<Instruction> {
    match item {
        Item::InstructionRegister(op, reg) => Some(Instruction::Register(op, reg)),
        Item::InstructionTwoRegisters(op, reg0, reg1) => Some(
            Instruction::TwoRegisters(op, reg0, reg1),
        ),
        Item::InstructionImmediate(op, imm) => match value_of(imm, table) {
            Some(value) => Some(Instruction::Immediate(op, value)),
            None => None,
        },
        Item::InstructionRegisterAndImmediate(op, reg, imm) => match value_of(imm, table) {
            Some(value) => Some(Instruction::RegisterAndImmediate(op, reg, value)),
            None => None,
        },
        _ => None,
    }
}

/// The bytes of an instruction that compiles are the word that encodes it,
/// and decoding that word gives the instruction back.
pub proof fn lemma_compiled_instruction_decodes(item: Item, table: Seq<(Seq<u8>, u32)>)
    requires
        well_shaped(item),
        compiled(item, table) is Some,
        instruction_of(item, table) is Some,
    ensures
        compiled(item, table) == Some(word_bytes(encode(instruction_of(item, table).unwrap()))),
        decode(encode(instruction_of(item, table).unwrap())) == Ok::<Instruction, Error>(
            instruction_of(item, table).unwrap(),
        ),
{
    lemma_decode_encode(instruction_of(item, table).unwrap());
}

/// The parser gives every instruction the operands that its opcode takes.
pub proof fn lemma_parsed_items_well_shaped(src: Seq<u8>, toks: Seq<Lexeme>, i: int)
    ensures
        forall|k: int|
            0 <= k < items_from(src, toks, i).program.len() ==> well_shaped(
                #[trigger] items_from(src, toks, i).program[k].item,
            ),
    decreases toks.len() - i,
{
    match item_at(src, toks, i) {
        None => {},
        Some(parsed) => {
            if i < parsed.next <= toks.len() {
                lemma_parsed_items_well_shaped(src, toks, parsed.next);
            }
        },
    }
}

/// Where each of the first `n` items compiles, the image of these items has
/// as many bytes as the items take and holds item `k` at its offset.
pub proof fn lemma_image_places_items(
    program: Seq<SpannedItem>,
    table: Seq<(Seq<u8>, u32)>,
    k: int,
    n: int,
)
    requires
        0 <= k < n <= program.len(),
        forall|j: int| 0 <= j < n ==> compiled(#[trigger] program[j].item, table) is Some,
    ensures
        image_upto(program, table, n).len() == size_before(program, n),
        placed(image_upto(program, table, n), program, table, k),
    decreases n,
{
    lemma_compiled_size(program[n - 1].item, table);
    lemma_image_length(program, table, n - 1);
    if k < n - 1 {
        lemma_image_places_items(program, table, k, n - 1);
        lemma_compiled_size(program[k].item, table);
        lemma_size_before_grows(program, k, n - 1);
        let bytes = compiled(program[k].item, table).unwrap();
        assert(image_upto(program, table, n).subrange(
            size_before(program, k) as int,
            (size_before(program, k) + bytes.len()) as int,
        ) =~= image_upto(program, table, n - 1).subrange(
            size_before(program, k) as int,
            (size_before(program, k) + bytes.len()) as int,
        ));
    } else {
        let bytes = compiled(program[k].item, table).unwrap();
        assert(image_upto(program, table, n).subrange(
            size_before(program, k) as int,
            (size_before(program, k) + bytes.len()) as int,
        ) =~= bytes);
    }
}

/// Where each of the first `n` items compiles, their image has as many bytes
/// as they take.
pub proof fn lemma_image_length(program: Seq<SpannedItem>, table: Seq<(Seq<u8>, u32)>, n: int)
    requires
        0 <= n <= program.len(),
        forall|j: int| 0 <= j < n ==> compiled(#[trigger] program[j].item, table) is Some,
    ensures
        image_upto(program, table, n).len() == size_before(program, n),
    decreases n,
{
    if n > 0 {
        lemma_image_length(program, table, n - 1);
        lemma_compiled_size(program[n - 1].item, table);
    }
}

/// In the image of a source that assembles, every instruction stands at its
/// offset as the word that encodes it, with the value of its immediate, and
/// decoding that word gives the instruction back.
pub proof fn lemma_image_decodes(src: Seq<u8>, k: int)
    requires
        assembled(src) is Some,
        0 <= k < parse_of(src).program.len(),
        instruction_of(
            parse_of(src).program[k].item,
            label_table(parse_of(src).program, parse_of(src).program.len() as int),
        ) is Some,
    ensures
        ({
            let program = parse_of(src).program;
            let table = label_table(program, program.len() as int);
            let instruction = instruction_of(program[k].item, table).unwrap();
            let image = assembled(src).unwrap();
            &&& size_before(program, k) + 4 <= image.len() <= u32::MAX
            &&& read_u32_of(image, size_before(program, k) as u32) == Some(encode(instruction))
            &&& decode(encode(instruction)) == Ok::<Instruction, Error>(instruction)
        }),
{
    let program = parse_of(src).program;
    let n = program.len() as int;
    let table = label_table(program, n);
    let image = assembled(src).unwrap();
    let instruction = instruction_of(program[k].item, table).unwrap();
    assert(unresolved(program, table).len() == 0);
    lemma_nothing_unresolved(program, table, n);
    lemma_parsed_items_well_shaped(src, lexemes_of(src), 0);
    lemma_compiled_instruction_decodes(program[k].item, table);
    lemma_image_places_items(program, table, k, n);
    lemma_word_from_its_bytes(encode(instruction));
    let offset = size_before(program, k) as int;
    let bytes = word_bytes(encode(instruction));
    assert(image.subrange(offset, offset + 4) == bytes);
    assert(image[offset] == image.subrange(offset, offset + 4)[0]);
    assert(image[offset + 1] == image.subrange(offset, offset + 4)[1]);
    assert(image[offset + 2] == image.subrange(offset, offset + 4)[2]);
    assert(image[offset + 3] == image.subrange(offset, offset + 4)[3]);
}

/// Folding follows the tree: an operator's value is that of its operands,
/// folded, so where `*` or `/` takes two numbers together their value is
/// folded first, and operators of one tier fold from the left.
pub proof fn lemma_folding_follows_tree(
    table: Seq<(Seq<u8>, u32)>,
    op: Operator,
    left: ImmediateTree,
    right: ImmediateTree,
)
    ensures
        value_of(binary(op, left, right), table) == folded_operands(
            op,
            value_of(left, table),
            value_of(right, table),
        ),
        forall|value: u32| value_of(#[trigger] number(value), table) == Some(value),
{
}

/// Assembling is a function of the source alone: equal sources give the same
/// image, byte for byte, and the same diagnostics, one for one.
pub proof fn lemma_assemble_deterministic(first: Seq<u8>, second: Seq<u8>)
    requires
        first == second,
    ensures
        assembled(first) == assembled(second),
        diagnostics_of(first) == diagnostics_of(second),
{
}

} // verus!
