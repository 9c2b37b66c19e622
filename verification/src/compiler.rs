//! The compiler: lays the items of a program out, resolves labels, folds
//! immediate expressions and emits the image.  What it gives is defined in
//! [`image`].

pub mod image;

use crate::common::OpCode;
use crate::compiler::image::{
    assembled, cannot_compile, compile_diagnostics, compiled, diagnostics_of, duplicate_labels,
    folded_operands, image_of, image_size, item_size, label_table, lemma_compiled_size,
    lemma_nothing_unresolved, lemma_placed_items_make_image, lemma_size_before_grows, lookup,
    placed, size_before, unresolved, unresolved_upto, value_of, word_bytes,
};
use crate::parser::{
    bytes_equal, errors_view, items_view, parse_str, Diagnostic, Expr, ImmediateExpr,
    ImmediateTree, Operator, ParserError, ParserErrorType, ParserExpr, ParserResult, SpannedItem,
};
use crate::runtime::utils::{
    create_instruction_immediate, create_instruction_register,
    create_instruction_register_and_immediate, create_instruction_two_registers,
};
use vstd::prelude::*;
use vstd::string::*;

verus! {
// ---------------------------------------------------------------------------
// The items that a pass leaves
// ---------------------------------------------------------------------------
/// Those of the items numbered in `candidates` that do not compile, in the
/// order of `candidates`.
spec fn failing(program: Seq<SpannedItem>, table: Seq<(Seq<u8>, u32)>, candidates: Seq<usize>)
    -> Seq<usize>
    decreases candidates.len(),
{
    if candidates.len() == 0 {
        Seq::empty()
    } else {
        let before = failing(program, table, candidates.drop_last());
        if compiled(program[candidates.last() as int].item, table) is None {
            before.push(candidates.last())
        } else {
            before
        }
    }
}

/// The numbers of the first `k` items.
spec fn numbers(k: int) -> Seq<usize> {
    Seq::new(k as nat, |i: int| i as usize)
}

/// The diagnostics that the items numbered in `candidates` raise where they
/// do not compile.
spec fn raised_by(program: Seq<SpannedItem>, candidates: Seq<usize>) -> Seq<Diagnostic> {
    candidates.map_values(|k: usize| cannot_compile(program, k as int))
}

/// Every item that `failing` keeps is one of the candidates and does not
/// compile, and `failing` keeps no more than it was given.
proof fn lemma_failing_fail(
    program: Seq<SpannedItem>,
    table: Seq<(Seq<u8>, u32)>,
    candidates: Seq<usize>,
)
    ensures
        failing(program, table, candidates).len() <= candidates.len(),
        forall|i: int|
            0 <= i < failing(program, table, candidates).len() ==> compiled(
                program[(#[trigger] failing(program, table, candidates)[i]) as int].item,
                table,
            ) is None && candidates.contains(failing(program, table, candidates)[i]),
    decreases candidates.len(),
{
    if candidates.len() > 0 {
        lemma_failing_fail(program, table, candidates.drop_last());
        let before = failing(program, table, candidates.drop_last());
        assert forall|i: int| 0 <= i < failing(program, table, candidates).len() implies compiled(
            program[(#[trigger] failing(program, table, candidates)[i]) as int].item,
            table,
        ) is None && candidates.contains(failing(program, table, candidates)[i]) by {
            if i < before.len() {
                let found = choose|m: int|
                    0 <= m < candidates.drop_last().len() && candidates.drop_last()[m]
                        == before[i];
                assert(candidates[found] == before[i]);
            } else {
                assert(candidates[candidates.len() - 1] == candidates.last());
            }
        }
    }
}

/// Where none of the candidates compiles, `failing` keeps them all.
proof fn lemma_failing_keeps(
    program: Seq<SpannedItem>,
    table: Seq<(Seq<u8>, u32)>,
    candidates: Seq<usize>,
)
    requires
        forall|i: int|
            0 <= i < candidates.len() ==> compiled(
                program[(#[trigger] candidates[i]) as int].item,
                table,
            ) is None,
    ensures
        failing(program, table, candidates) =~= candidates,
    decreases candidates.len(),
{
    if candidates.len() > 0 {
        lemma_failing_keeps(program, table, candidates.drop_last());
        assert(candidates[candidates.len() - 1] == candidates.last());
    }
}

/// The items that a pass over the first `k` items leaves raise the
/// diagnostics of the first `k` items.
proof fn lemma_failing_raise_unresolved(
    program: Seq<SpannedItem>,
    table: Seq<(Seq<u8>, u32)>,
    k: int,
)
    requires
        0 <= k <= usize::MAX,
    ensures
        raised_by(program, failing(program, table, numbers(k))) =~= unresolved_upto(
            program,
            table,
            k,
        ),
    decreases k,
{
    if k > 0 {
        assert(numbers(k).drop_last() =~= numbers(k - 1));
        assert(numbers(k).last() == (k - 1) as usize);
        lemma_failing_raise_unresolved(program, table, k - 1);
    }
}

// ---------------------------------------------------------------------------
// The compiler
// ---------------------------------------------------------------------------
/// A label with the offset of its definition.
#[derive(Debug)]
pub struct LabelEntry {
    /// The label's name.
    pub name: Vec<u8>,
    /// Offset of the definition in the image.
    pub offset: u32,
}

/// The entries of a table of labels, as mathematical values.
pub open spec fn table_view(entries: Seq<LabelEntry>) -> Seq<(Seq<u8>, u32)> {
    entries.map_values(|e: LabelEntry| (e.name@, e.offset))
}

/// What compiling one item gives.
#[derive(Debug)]
pub enum CompileExprResult {
    /// The item takes no bytes.
    CompileToNone,
    /// The item does not compile.
    CompileToError,
    /// The item's bytes.
    CompileToResult(Vec<u8>),
}

/// The height of an immediate expression.
pub open spec fn height(tree: ImmediateTree) -> nat
    decreases tree,
{
    match tree {
        ImmediateTree::Int(_) => 0,
        ImmediateTree::AddrToLabel(_) => 0,
        ImmediateTree::Add(left, right)
        | ImmediateTree::Sub(left, right)
        | ImmediateTree::Mul(left, right)
        | ImmediateTree::Div(left, right) => 1 + if height(*left) >= height(*right) {
            height(*left)
        } else {
            height(*right)
        },
    }
}

/// Compiles items against the labels collected so far.
pub struct Compiler {
    /// The labels defined so far, in the order of their definitions, each
    /// name once.
    pub label_map: Vec<LabelEntry>,
}

/// The four bytes of a word, lowest first.
fn word_to_bytes(word: u32) -> (bytes: Vec<u8>)
    ensures
        bytes@ == word_bytes(word),
{
    let mut bytes: Vec<u8> = Vec::new();
    assert((word & 0xFF) <= 0xFF && ((word >> 8) & 0xFF) <= 0xFF && ((word >> 16) & 0xFF) <= 0xFF
        && ((word >> 24) & 0xFF) <= 0xFF) by (bit_vector);
    bytes.push((word & 0xFF) as u8);
    bytes.push(((word >> 8) & 0xFF) as u8);
    bytes.push(((word >> 16) & 0xFF) as u8);
    bytes.push(((word >> 24) & 0xFF) as u8);
    assert(bytes@ =~= word_bytes(word));
    bytes
}

impl Compiler {
    /// The labels defined so far, as mathematical values.
    pub open spec fn table(&self) -> Seq<(Seq<u8>, u32)> {
        table_view(self.label_map@)
    }

    /// A compiler that knows no label.
    pub fn new() -> (compiler: Compiler)
        ensures
            compiler.table() == Seq::<(Seq<u8>, u32)>::empty(),
    {
        let compiler = Compiler { label_map: Vec::new() };
        assert(compiler.table() =~= Seq::<(Seq<u8>, u32)>::empty());
        compiler
    }

    /// Looks up the offset of the label `name`.
    pub fn find_label(&self, name: &[u8]) -> (offset: Option<u32>)
        ensures
            offset == lookup(self.table(), name@),
    {
        let mut k: usize = self.label_map.len();
        assert(self.table().take(k as int) =~= self.table());
        while k > 0
            invariant
                k <= self.label_map@.len(),
                lookup(self.table(), name@) == lookup(self.table().take(k as int), name@),
            decreases k,
        {
            k = k - 1;
            proof {
                assert(self.table().take(k + 1).drop_last() =~= self.table().take(k as int));
                assert(self.table().take(k + 1).last() == (
                    self.label_map@[k as int].name@,
                    self.label_map@[k as int].offset,
                ));
            }
            if bytes_equal(self.label_map[k].name.as_slice(), name) {
                return Some(self.label_map[k].offset);
            }
        }
        None
    }

    /// Defines the label `name` at offset `prog_pos`, unless it is defined
    /// already.  Returns whether the label was new.
    pub fn define_label(&mut self, name: &[u8], prog_pos: u32) -> (fresh: bool)
        ensures
            fresh == (lookup(old(self).table(), name@) is None),
            final(self).table() == if fresh {
                old(self).table().push((name@, prog_pos))
            } else {
                old(self).table()
            },
    {
        match self.find_label(name) {
            Some(_) => false,
            None => {
                self.label_map.push(
                    LabelEntry { name: vstd::slice::slice_to_vec(name), offset: prog_pos },
                );
                assert(self.table() =~= old(self).table().push((name@, prog_pos)));
                true
            },
        }
    }

    /// Evaluates an immediate expression: wrapping 32-bit arithmetic; `None`
    /// where a label is not defined or a divisor is zero.
    pub fn interpret_immediate(&self, expr: &ImmediateExpr) -> (value: Option<u32>)
        ensures
            value == value_of(expr@, self.table()),
        decreases 2 * height(expr@) + 1,
    {
        match expr {
            ImmediateExpr::Int(result) => Some(*result),
            ImmediateExpr::AddrToLabel(label) => self.find_label(label.as_slice()),
            ImmediateExpr::Add(expr0, expr1) => self.interpret_immediate_biop(
                expr0,
                expr1,
                Operator::Add,
            ),
            ImmediateExpr::Sub(expr0, expr1) => self.interpret_immediate_biop(
                expr0,
                expr1,
                Operator::Sub,
            ),
            ImmediateExpr::Mul(expr0, expr1) => self.interpret_immediate_biop(
                expr0,
                expr1,
                Operator::Mul,
            ),
            ImmediateExpr::Div(expr0, expr1) => self.interpret_immediate_biop(
                expr0,
                expr1,
                Operator::Div,
            ),
        }
    }

    /// Evaluates both operands of an operator and folds them.
    pub fn interpret_immediate_biop(
        &self,
        expr0: &ImmediateExpr,
        expr1: &ImmediateExpr,
        op: Operator,
    ) -> (value: Option<u32>)
        ensures
            value == folded_operands(
                op,
                value_of(expr0@, self.table()),
                value_of(expr1@, self.table()),
            ),
        decreases
                2 * (if height(expr0@) >= height(expr1@) {
                    height(expr0@)
                } else {
                    height(expr1@)
                }) + 2,
    {
        let result0 = match self.interpret_immediate(expr0) {
            Some(value) => value,
            None => {
                return None;
            },
        };
        let result1 = match self.interpret_immediate(expr1) {
            Some(value) => value,
            None => {
                return None;
            },
        };
        match op {
            Operator::Add => Some(result0.wrapping_add(result1)),
            Operator::Sub => Some(result0.wrapping_sub(result1)),
            Operator::Mul => Some(result0.wrapping_mul(result1)),
            Operator::Div => if result1 == 0 {
                None
            } else {
                Some(result0 / result1)
            },
        }
    }

    /// Compiles one item: its bytes, nothing for a label or for source that
    /// did not parse, an error where an immediate has no value or does not
    /// fit its field.
    pub fn compile_expr(&self, expr: &ParserExpr) -> (result: CompileExprResult)
        ensures
            result is CompileToError <==> compiled(expr@.item, self.table()) is None,
            result matches CompileExprResult::CompileToResult(bytes) ==> compiled(
                expr@.item,
                self.table(),
            ) == Some(bytes@),
            result is CompileToNone ==> compiled(expr@.item, self.table()) == Some(
                Seq::<u8>::empty(),
            ),
    {
        match &expr.expr {
            Expr::Label(_) => CompileExprResult::CompileToNone,
            Expr::Error() => CompileExprResult::CompileToNone,
            Expr::InstructionTwoRegisters(op_code, reg0, reg1) => {
                CompileExprResult::CompileToResult(
                    word_to_bytes(create_instruction_two_registers(*op_code, *reg0, *reg1)),
                )
            },
            Expr::InstructionRegister(op_code, reg) => {
                CompileExprResult::CompileToResult(
                    word_to_bytes(create_instruction_register(*op_code, *reg)),
                )
            },
            Expr::InstructionRegisterAndImmediate(op_code, reg, imm) => {
                match self.interpret_immediate(imm) {
                    Some(value) => {
                        let fits = match op_code {
                            OpCode::LI => value <= 0x7_FFFF || value >= 0xFFF8_0000,
                            _ => value <= 0xF_FFFF,
                        };
                        if fits {
                            CompileExprResult::CompileToResult(
                                word_to_bytes(
                                    create_instruction_register_and_immediate(
                                        *op_code,
                                        *reg,
                                        value,
                                    ),
                                ),
                            )
                        } else {
                            CompileExprResult::CompileToError
                        }
                    },
                    None => CompileExprResult::CompileToError,
                }
            },
            Expr::InstructionImmediate(op_code, imm) => {
                match self.interpret_immediate(imm) {
                    Some(value) => {
                        if value <= 0xFF_FFFF {
                            CompileExprResult::CompileToResult(
                                word_to_bytes(create_instruction_immediate(*op_code, value)),
                            )
                        } else {
                            CompileExprResult::CompileToError
                        }
                    },
                    None => CompileExprResult::CompileToError,
                }
            },
            Expr::StoreI32(imm) => {
                match self.interpret_immediate(imm) {
                    Some(value) => CompileExprResult::CompileToResult(word_to_bytes(value)),
                    None => CompileExprResult::CompileToError,
                }
            },
            Expr::StoreStr(string) => {
                CompileExprResult::CompileToResult(vstd::slice::slice_to_vec(string.as_slice()))
            },
        }
    }
}

/// The number of bytes that an item takes in the image.
pub fn calc_expr_size(expr: &Expr) -> (size: usize)
    ensures
        size == item_size(expr@),
{
    match expr {
        Expr::InstructionTwoRegisters(_, _, _)
        | Expr::InstructionRegisterAndImmediate(_, _, _)
        | Expr::InstructionRegister(_, _)
        | Expr::InstructionImmediate(_, _)
        | Expr::StoreI32(_) => 4,
        Expr::StoreStr(string) => string.len(),
        Expr::Label(_) => 0,
        Expr::Error() => 0,
    }
}


/// Lays the items out: the offset of each, and after the last the size of the
/// image.  `None` where the image would take more than 2^32 - 1 bytes.
fn layout(program: &Vec<ParserExpr>) -> (offsets: Option<Vec<u32>>)
    ensures
        offsets is Some <==> image_size(items_view(program@)) <= u32::MAX,
        offsets matches Some(o) ==> o@.len() == program@.len() + 1 && forall|k: int|
            0 <= k <= program@.len() ==> #[trigger] o@[k] == size_before(items_view(program@), k),
{
    let ghost items = items_view(program@);
    let mut offsets: Vec<u32> = Vec::new();
    let mut position: u32 = 0;
    let mut k: usize = 0;
    while k < program.len()
        invariant
            items == items_view(program@),
            k <= program@.len(),
            offsets@.len() == k,
            position == size_before(items, k as int),
            forall|j: int| 0 <= j < k ==> #[trigger] offsets@[j] == size_before(items, j),
        decreases program@.len() - k,
    {
        let size = calc_expr_size(&program[k].expr);
        if size > (u32::MAX - position) as usize {
            proof {
                lemma_size_before_grows(items, k + 1, program@.len() as int);
            }
            return None;
        }
        offsets.push(position);
        position = position + size as u32;
        k = k + 1;
    }
    offsets.push(position);
    Some(offsets)
}

/// Writes `bytes` into `image` from `pos` on.
fn write_bytes(image: &mut Vec<u8>, pos: usize, bytes: &Vec<u8>)
    requires
        pos + bytes@.len() <= old(image)@.len(),
    ensures
        final(image)@.len() == old(image)@.len(),
        final(image)@.subrange(pos as int, pos + bytes@.len()) == bytes@,
        forall|i: int|
            0 <= i < old(image)@.len() && !(pos <= i < pos + bytes@.len()) ==> final(image)@[i]
                == old(image)@[i],
{
    let mut k: usize = 0;
    let len: usize = image.len();
    while k < bytes.len()
        invariant
            k <= bytes@.len(),
            pos + bytes@.len() <= image@.len() <= usize::MAX,
            image@.len() == old(image)@.len(),
            forall|i: int| 0 <= i < k ==> image@[pos + i] == bytes@[i],
            forall|i: int|
                0 <= i < image@.len() && !(pos <= i < pos + k) ==> image@[i] == old(image)@[i],
        decreases bytes@.len() - k,
    {
        image[pos + k] = bytes[k];
        k = k + 1;
    }
    assert(image@.subrange(pos as int, pos + bytes@.len()) =~= bytes@);
}

/// One pass over the items numbered in `pending`: each that compiles is
/// written into `image` at its offset; the numbers of the others are
/// returned.
fn compile_pass(
    compiler: &Compiler,
    program: &Vec<ParserExpr>,
    offsets: &Vec<u32>,
    pending: &Vec<usize>,
    image: &mut Vec<u8>,
) -> (kept: Vec<usize>)
    requires
        offsets@.len() == program@.len() + 1,
        forall|k: int|
            0 <= k <= program@.len() ==> #[trigger] offsets@[k] == size_before(
                items_view(program@),
                k,
            ),
        old(image)@.len() == image_size(items_view(program@)),
        forall|i: int| 0 <= i < pending@.len() ==> #[trigger] pending@[i] < program@.len(),
    ensures
        kept@ == failing(items_view(program@), compiler.table(), pending@),
        final(image)@.len() == old(image)@.len(),
        forall|j: int|
            0 <= j < program@.len() && placed(
                old(image)@,
                items_view(program@),
                compiler.table(),
                j,
            ) ==> #[trigger] placed(final(image)@, items_view(program@), compiler.table(), j),
        forall|i: int|
            0 <= i < pending@.len() ==> placed(
                final(image)@,
                items_view(program@),
                compiler.table(),
                (#[trigger] pending@[i]) as int,
            ),
{
    let ghost items = items_view(program@);
    let ghost table = compiler.table();
    let mut kept: Vec<usize> = Vec::new();
    let mut i: usize = 0;
    assert(pending@.take(0) =~= Seq::<usize>::empty());
    while i < pending.len()
        invariant
            items == items_view(program@),
            table == compiler.table(),
            offsets@.len() == program@.len() + 1,
            forall|k: int|
                0 <= k <= program@.len() ==> #[trigger] offsets@[k] == size_before(items, k),
            image@.len() == old(image)@.len() == image_size(items),
            forall|m: int| 0 <= m < pending@.len() ==> #[trigger] pending@[m] < program@.len(),
            i <= pending@.len(),
            kept@ == failing(items, table, pending@.take(i as int)),
            forall|j: int|
                0 <= j < program@.len() && placed(old(image)@, items, table, j)
                    ==> #[trigger] placed(image@, items, table, j),
            forall|m: int|
                0 <= m < i ==> placed(image@, items, table, (#[trigger] pending@[m]) as int),
        decreases pending@.len() - i,
    {
        let index = pending[i];
        let ghost before = image@;
        proof {
            assert(pending@.take(i + 1).drop_last() =~= pending@.take(i as int));
            assert(pending@.take(i + 1).last() == index);
            lemma_size_before_grows(items, index as int, program@.len() as int);
            lemma_compiled_size(items[index as int].item, table);
        }
        match compiler.compile_expr(&program[index]) {
            CompileExprResult::CompileToResult(bytes) => {
                write_bytes(image, offsets[index] as usize, &bytes);
                proof {
                    assert forall|j: int|
                        0 <= j < program@.len() && placed(
                            before,
                            items,
                            table,
                            j,
                        ) implies #[trigger] placed(image@, items, table, j) by {
                        if j != index {
                            lemma_compiled_size(items[j].item, table);
                            if j < index {
                                lemma_size_before_grows(items, j, index as int);
                            } else {
                                lemma_size_before_grows(items, index as int, j);
                            }
                            lemma_size_before_grows(items, j, program@.len() as int);
                            match compiled(items[j].item, table) {
                                Some(other) => {
                                    assert(image@.subrange(
                                        size_before(items, j) as int,
                                        (size_before(items, j) + other.len()) as int,
                                    ) =~= before.subrange(
                                        size_before(items, j) as int,
                                        (size_before(items, j) + other.len()) as int,
                                    ));
                                },
                                None => {},
                            }
                        }
                    }
                }
            },
            CompileExprResult::CompileToNone => {
                assert(image@.subrange(
                    size_before(items, index as int) as int,
                    size_before(items, index as int) as int,
                ) =~= Seq::<u8>::empty());
            },
            CompileExprResult::CompileToError => {
                kept.push(index);
            },
        }
        i = i + 1;
    }
    assert(pending@.take(i as int) =~= pending@);
    kept
}

/// Compiles the items of a parsed program into the image.
///
/// The items are laid out one after the other, and each label gets the offset
/// of its definition.  Then the items are compiled in passes, each pass over
/// those that did not compile before, until a pass compiles none.  What is
/// left then cannot be compiled.  Every diagnostic is appended to those of
/// the parser.  The image is returned where there is no diagnostic at all.
pub fn compile(parser_result: &mut ParserResult) -> (image: Option<Vec<u8>>)
    ensures
        final(parser_result).program@ == old(parser_result).program@,
        errors_view(final(parser_result).errors@) == errors_view(old(parser_result).errors@)
            + compile_diagnostics(items_view(old(parser_result).program@)),
        image is Some <==> final(parser_result).errors@.len() == 0,
        image matches Some(bytes) ==> bytes@ == image_of(items_view(old(parser_result).program@)),
{
    let ghost items = items_view(parser_result.program@);
    let ghost errors_before = errors_view(parser_result.errors@);
    let count: usize = parser_result.program.len();
    let offsets = match layout(&parser_result.program) {
        Some(offsets) => offsets,
        None => {
            let start = parser_result.program[count - 1].pos.start;
            let end = parser_result.program[count - 1].pos.end;
            parser_result.errors.push(
                ParserError { pos: start..end, err_type: ParserErrorType::CannotCompileExpression },
            );
            assert(errors_view(parser_result.errors@) =~= errors_before + compile_diagnostics(
                items,
            ));
            return None;
        },
    };
    // Pass 1: the labels.
    let mut compiler = Compiler::new();
    let mut k: usize = 0;
    while k < count
        invariant
            k <= count == parser_result.program@.len(),
            parser_result.program@ == old(parser_result).program@,
            items == items_view(parser_result.program@),
            offsets@.len() == count + 1,
            forall|j: int| 0 <= j <= count ==> #[trigger] offsets@[j] == size_before(items, j),
            compiler.table() == label_table(items, k as int),
            errors_view(parser_result.errors@) =~= errors_before + duplicate_labels(
                items,
                k as int,
            ),
        decreases count - k,
    {
        match &parser_result.program[k].expr {
            Expr::Label(name) => {
                if !compiler.define_label(name.as_slice(), offsets[k]) {
                    let start = parser_result.program[k].pos.start;
                    let end = parser_result.program[k].pos.end;
                    let ghost raised = parser_result.errors@;
                    parser_result.errors.push(
                        ParserError {
                            pos: start..end,
                            err_type: ParserErrorType::CannotCompileExpression,
                        },
                    );
                    assert(errors_view(parser_result.errors@) =~= errors_view(raised).push(
                        cannot_compile(items, k as int),
                    ));
                }
            },
            _ => {},
        }
        k = k + 1;
    }
    let ghost table = compiler.table();
    // Pass 2: the bytes, in passes until one compiles nothing.
    let total = offsets[count];
    let mut result: Vec<u8> = vec![0u8; total as usize];
    let mut pending: Vec<usize> = Vec::new();
    let mut n: usize = 0;
    while n < count
        invariant
            n <= count,
            pending@ =~= numbers(n as int),
        decreases count - n,
    {
        pending.push(n);
        n = n + 1;
    }
    let ghost left = failing(items, table, numbers(count as int));
    let mut old_len = pending.len();
    loop
        invariant_except_break
            old_len == pending@.len(),
            pending@ == numbers(count as int) || (pending@ == left && forall|j: int|
                0 <= j < count ==> #[trigger] placed(result@, items, table, j)),
        invariant
            count == parser_result.program@.len(),
            parser_result.program@ == old(parser_result).program@,
            items == items_view(parser_result.program@),
            table == compiler.table(),
            left == failing(items, table, numbers(count as int)),
            offsets@.len() == count + 1,
            forall|j: int| 0 <= j <= count ==> #[trigger] offsets@[j] == size_before(items, j),
            result@.len() == image_size(items),
            errors_view(parser_result.errors@) =~= errors_before + duplicate_labels(
                items,
                count as int,
            ),
            forall|i: int| 0 <= i < pending@.len() ==> #[trigger] pending@[i] < count,
        ensures
            pending@ == left,
            forall|j: int| 0 <= j < count ==> #[trigger] placed(result@, items, table, j),
        decreases pending@.len(),
    {
        let ghost before = pending@;
        let kept = compile_pass(&compiler, &parser_result.program, &offsets, &pending, &mut result);
        proof {
            lemma_failing_fail(items, table, before);
            if before == numbers(count as int) {
                assert forall|j: int| 0 <= j < count implies #[trigger] placed(
                    result@,
                    items,
                    table,
                    j,
                ) by {
                    assert(before[j] == j as usize);
                }
            } else {
                lemma_failing_fail(items, table, numbers(count as int));
                lemma_failing_keeps(items, table, left);
            }
        }
        let new_len = kept.len();
        pending = kept;
        if old_len == new_len {
            break ;
        }
        old_len = new_len;
    }
    let mut i: usize = 0;
    while i < pending.len()
        invariant
            count == parser_result.program@.len(),
            parser_result.program@ == old(parser_result).program@,
            items == items_view(parser_result.program@),
            i <= pending@.len(),
            forall|m: int| 0 <= m < pending@.len() ==> #[trigger] pending@[m] < count,
            errors_view(parser_result.errors@) =~= errors_before + duplicate_labels(
                items,
                count as int,
            ) + raised_by(items, pending@.take(i as int)),
        decreases pending@.len() - i,
    {
        let index = pending[i];
        let start = parser_result.program[index].pos.start;
        let end = parser_result.program[index].pos.end;
        let ghost raised = parser_result.errors@;
        parser_result.errors.push(
            ParserError { pos: start..end, err_type: ParserErrorType::CannotCompileExpression },
        );
        proof {
            assert(errors_view(parser_result.errors@) =~= errors_view(raised).push(
                cannot_compile(items, index as int),
            ));
            assert(raised_by(items, pending@.take(i + 1)) =~= raised_by(
                items,
                pending@.take(i as int),
            ).push(cannot_compile(items, index as int)));
        }
        i = i + 1;
    }
    proof {
        assert(pending@.take(i as int) =~= pending@);
        lemma_failing_raise_unresolved(items, table, count as int);
    }
    if !parser_result.errors.is_empty() {
        return None;
    }
    proof {
        assert(errors_view(parser_result.errors@).len() == 0);
        assert(unresolved(items, table).len() == 0);
        lemma_nothing_unresolved(items, table, count as int);
        lemma_placed_items_make_image(result@, items, table, count as int);
        assert(result@ =~= result@.subrange(0, image_size(items) as int));
    }
    Some(result)
}

/// Assembles a source: parses it and compiles the items.  Returns the image,
/// or `None` where there is a diagnostic.
pub fn parse_and_compile_str(program: &str) -> (image: Option<Vec<u8>>)
    ensures
        match assembled(program.spec_bytes()) {
            Some(bytes) => image matches Some(found) && found@ == bytes,
            None => image is None,
        },
{
    let mut parser = parse_str(program);
    let ghost parsed = parser@;
    let image = compile(&mut parser);
    proof {
        assert(errors_view(parser.errors@).len() == parser.errors@.len());
        assert(errors_view(parser.errors@).len() == parsed.errors.len() + compile_diagnostics(
            parsed.program,
        ).len());
    }
    image
}


/// Assembles a source: the image, where there is no diagnostic, and the
/// diagnostics.
pub fn assemble(program: &str) -> (result: (Option<Vec<u8>>, Vec<ParserError>))
    ensures
        match assembled(program.spec_bytes()) {
            Some(bytes) => result.0 matches Some(found) && found@ == bytes,
            None => result.0 is None,
        },
        errors_view(result.1@) == diagnostics_of(program.spec_bytes()),
        result.0 is Some <==> result.1@.len() == 0,
{
    let mut parser = parse_str(program);
    let ghost parsed = parser@;
    let image = compile(&mut parser);
    proof {
        assert(errors_view(parser.errors@).len() == parser.errors@.len());
        assert(errors_view(parser.errors@).len() == parsed.errors.len() + compile_diagnostics(
            parsed.program,
        ).len());
    }
    (image, parser.errors)
}

} // verus!
