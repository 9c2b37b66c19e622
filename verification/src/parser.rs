//! Items of a program and the parser that reads them from tokens.  What the
//! parser gives is defined in [`grammar`].

pub mod grammar;

use crate::common::{OpCode, Register};
pub use crate::lexer::Token;
use crate::lexer::{lexemes_from, scan_run, ByteClass, Lexeme, Lexer};
use crate::parser::grammar::{
    after, all_decimal_digits, all_hex_digits, binary, decimal_value, decoded_from, diagnostic_at,
    end_at, escape_value, expected_at, factor_at, hex_value, immediate_at, immediate_rest_at,
    instruction_at, is_hex_digit, item_at, items_from, kind_at, label_at, literal_value,
    mem_i32_at, mem_str_at, newline_at, newlines_end, opcode_of_token, operands_at, parse_of,
    register_at, register_named, start_at, string_at, term_at, term_rest_at, text_at,
    tokens_in_source, Operands, Parsed,
};
use vstd::prelude::*;
use vstd::string::*;

verus! {

/// The operand shapes that an instruction can have.
#[derive(Debug, PartialEq, Eq, Structural, Clone, Copy)]
pub enum InstructionParseType {
    /// Two registers, separated by a comma.
    TwoRegisters,
    /// A register and an immediate, separated by a comma.
    RegisterAndImmediate,
    /// One register.
    Register,
    /// One immediate.
    Immediate,
    /// Two registers and an immediate; no instruction has this shape yet.
    TwoRegistersAndImmediate,
}

/// The operand shape of each instruction.
pub open spec fn instruction_parse_type(op_code: OpCode) -> InstructionParseType {
    match op_code {
        OpCode::CPY
        | OpCode::LW
        | OpCode::SW
        | OpCode::LH
        | OpCode::SH
        | OpCode::LB
        | OpCode::SB
        | OpCode::ADD
        | OpCode::SUB
        | OpCode::MUL
        | OpCode::DIV
        | OpCode::AND
        | OpCode::OR
        | OpCode::XOR
        | OpCode::SRL
        | OpCode::SLL => InstructionParseType::TwoRegisters,
        OpCode::SRLI
        | OpCode::SLLI
        | OpCode::JZI
        | OpCode::JNZI
        | OpCode::JLZI
        | OpCode::JGZI
        | OpCode::LI
        | OpCode::ADDI
        | OpCode::SUBI
        | OpCode::MULI
        | OpCode::DIVI
        | OpCode::SWI
        | OpCode::LWI
        | OpCode::SHI
        | OpCode::LHI
        | OpCode::SBI
        | OpCode::LBI => InstructionParseType::RegisterAndImmediate,
        OpCode::NOT | OpCode::J => InstructionParseType::Register,
        OpCode::SYSCALLI | OpCode::JI | OpCode::JIL => InstructionParseType::Immediate,
    }
}

/// Looks up the operand shape of an instruction.
pub fn get_instruction_parse_type(op_code: OpCode) -> (parse_type: InstructionParseType)
    ensures
        parse_type == instruction_parse_type(op_code),
{
    match op_code {
        OpCode::CPY
        | OpCode::LW
        | OpCode::SW
        | OpCode::LH
        | OpCode::SH
        | OpCode::LB
        | OpCode::SB
        | OpCode::ADD
        | OpCode::SUB
        | OpCode::MUL
        | OpCode::DIV
        | OpCode::AND
        | OpCode::OR
        | OpCode::XOR
        | OpCode::SRL
        | OpCode::SLL => InstructionParseType::TwoRegisters,
        OpCode::SRLI
        | OpCode::SLLI
        | OpCode::JZI
        | OpCode::JNZI
        | OpCode::JLZI
        | OpCode::JGZI
        | OpCode::LI
        | OpCode::ADDI
        | OpCode::SUBI
        | OpCode::MULI
        | OpCode::DIVI
        | OpCode::SWI
        | OpCode::LWI
        | OpCode::SHI
        | OpCode::LHI
        | OpCode::SBI
        | OpCode::LBI => InstructionParseType::RegisterAndImmediate,
        OpCode::NOT | OpCode::J => InstructionParseType::Register,
        OpCode::SYSCALLI | OpCode::JI | OpCode::JIL => InstructionParseType::Immediate,
    }
}


// ---------------------------------------------------------------------------
// Items
// ---------------------------------------------------------------------------
/// An immediate operand as written: a tree of numbers, label references and
/// the four arithmetic operators.
#[derive(Debug, PartialEq)]
pub enum ImmediateExpr {
    /// A number.
    Int(u32),
    /// The sum of two operands.
    Add(Box<ImmediateExpr>, Box<ImmediateExpr>),
    /// The difference of two operands.
    Sub(Box<ImmediateExpr>, Box<ImmediateExpr>),
    /// The product of two operands.
    Mul(Box<ImmediateExpr>, Box<ImmediateExpr>),
    /// The quotient of two operands.
    Div(Box<ImmediateExpr>, Box<ImmediateExpr>),
    /// The address of the label with this name.
    AddrToLabel(Vec<u8>),
}

/// One item of a program.
#[derive(Debug, PartialEq)]
pub enum Expr {
    /// An instruction on one register.
    InstructionRegister(OpCode, Register),
    /// An instruction on an immediate.
    InstructionImmediate(OpCode, Box<ImmediateExpr>),
    /// An instruction on two registers.
    InstructionTwoRegisters(OpCode, Register, Register),
    /// An instruction on a register and an immediate.
    InstructionRegisterAndImmediate(OpCode, Register, Box<ImmediateExpr>),
    /// `.i32`: four bytes that hold a number.
    StoreI32(Box<ImmediateExpr>),
    /// `.str`: the bytes of a string, escapes decoded.
    StoreStr(Vec<u8>),
    /// The definition of the label with this name.
    Label(Vec<u8>),
    /// Source that could not be parsed.
    Error(),
}

/// The kinds of diagnostic.
#[derive(Debug, PartialEq, Eq, Structural, Clone, Copy)]
pub enum ParserErrorType {
    /// A token that starts no item.
    CannotParse,
    /// A register was expected.
    ExpectedRegister,
    /// The register name is unknown.
    ExpectedValidRegister,
    /// An immediate was expected and the source ended.
    ExpectedImmediate,
    /// The token starts no immediate, or the number does not fit in 32 bits.
    ExpectedValidImmediate,
    /// A label definition was expected.
    ExpectedLabel,
    /// The item is not followed by a line break.
    ExpectedNewLine,
    /// This token was expected.
    ExpectedToken(Token),
    /// The item cannot be compiled: a label is unknown or defined twice, a
    /// divisor is zero, or an immediate does not fit its field.
    CannotCompileExpression,
    /// A backslash in a string is followed by a character that names no
    /// escape.
    InvalidEscapeSequence,
}

/// A diagnostic with the range of source bytes that it is about.
#[derive(Debug, PartialEq)]
pub struct ParserError {
    /// The range of source bytes.
    pub pos: std::ops::Range<usize>,
    /// What is wrong there.
    pub err_type: ParserErrorType,
}

/// An item with the range of source bytes that it was parsed from.
#[derive(Debug)]
pub struct ParserExpr {
    /// The range of source bytes.
    pub pos: std::ops::Range<usize>,
    /// The item.
    pub expr: Expr,
}

/// What parsing a source gives: the items in source order, and the
/// diagnostics.
pub struct ParserResult {
    /// The items, in source order.
    pub program: Vec<ParserExpr>,
    /// The diagnostics, in the order in which they were found.
    pub errors: Vec<ParserError>,
}

/// The operators of immediate expressions.
#[derive(Debug, PartialEq, Eq, Structural, Clone, Copy)]
pub enum Operator {
    /// `+`
    Add,
    /// `-`
    Sub,
    /// `*`
    Mul,
    /// `/`
    Div,
}

// ---------------------------------------------------------------------------
// Their mathematical counterparts
// ---------------------------------------------------------------------------
/// An immediate operand as a mathematical tree.
pub enum ImmediateTree {
    /// A number.
    Int(u32),
    /// The sum of two operands.
    Add(Box<ImmediateTree>, Box<ImmediateTree>),
    /// The difference of two operands.
    Sub(Box<ImmediateTree>, Box<ImmediateTree>),
    /// The product of two operands.
    Mul(Box<ImmediateTree>, Box<ImmediateTree>),
    /// The quotient of two operands.
    Div(Box<ImmediateTree>, Box<ImmediateTree>),
    /// The address of the label with this name.
    AddrToLabel(Seq<u8>),
}

/// An item as a mathematical value.
pub enum Item {
    /// An instruction on one register.
    InstructionRegister(OpCode, Register),
    /// An instruction on an immediate.
    InstructionImmediate(OpCode, ImmediateTree),
    /// An instruction on two registers.
    InstructionTwoRegisters(OpCode, Register, Register),
    /// An instruction on a register and an immediate.
    InstructionRegisterAndImmediate(OpCode, Register, ImmediateTree),
    /// Four bytes that hold a number.
    StoreI32(ImmediateTree),
    /// The bytes of a string.
    StoreStr(Seq<u8>),
    /// The definition of a label.
    Label(Seq<u8>),
    /// Source that could not be parsed.
    Error,
}

/// An item with its range of source bytes.
pub struct SpannedItem {
    /// Offset of the first byte.
    pub start: int,
    /// Offset after the last byte.
    pub end: int,
    /// The item.
    pub item: Item,
}

/// A diagnostic with its range of source bytes.
pub struct Diagnostic {
    /// Offset of the first byte.
    pub start: int,
    /// Offset after the last byte.
    pub end: int,
    /// What is wrong there.
    pub kind: ParserErrorType,
}

/// Items and diagnostics as mathematical values.
pub struct Parse {
    /// The items, in source order.
    pub program: Seq<SpannedItem>,
    /// The diagnostics, in the order in which they were found.
    pub errors: Seq<Diagnostic>,
}

/// The tree that an immediate operand stands for.
pub open spec fn tree_of(expr: ImmediateExpr) -> ImmediateTree
    decreases expr,
{
    match expr {
        ImmediateExpr::Int(value) => ImmediateTree::Int(value),
        ImmediateExpr::Add(left, right) => ImmediateTree::Add(
            Box::new(tree_of(*left)),
            Box::new(tree_of(*right)),
        ),
        ImmediateExpr::Sub(left, right) => ImmediateTree::Sub(
            Box::new(tree_of(*left)),
            Box::new(tree_of(*right)),
        ),
        ImmediateExpr::Mul(left, right) => ImmediateTree::Mul(
            Box::new(tree_of(*left)),
            Box::new(tree_of(*right)),
        ),
        ImmediateExpr::Div(left, right) => ImmediateTree::Div(
            Box::new(tree_of(*left)),
            Box::new(tree_of(*right)),
        ),
        ImmediateExpr::AddrToLabel(name) => ImmediateTree::AddrToLabel(name@),
    }
}

impl View for ImmediateExpr {
    type V = ImmediateTree;

    open spec fn view(&self) -> ImmediateTree {
        tree_of(*self)
    }
}

impl View for Expr {
    type V = Item;

    open spec fn view(&self) -> Item {
        match *self {
            Expr::InstructionRegister(op, reg) => Item::InstructionRegister(op, reg),
            Expr::InstructionImmediate(op, imm) => Item::InstructionImmediate(op, tree_of(*imm)),
            Expr::InstructionTwoRegisters(op, reg0, reg1) => Item::InstructionTwoRegisters(
                op,
                reg0,
                reg1,
            ),
            Expr::InstructionRegisterAndImmediate(op, reg, imm) => {
                Item::InstructionRegisterAndImmediate(op, reg, tree_of(*imm))
            },
            Expr::StoreI32(imm) => Item::StoreI32(tree_of(*imm)),
            Expr::StoreStr(bytes) => Item::StoreStr(bytes@),
            Expr::Label(name) => Item::Label(name@),
            Expr::Error() => Item::Error,
        }
    }
}

impl View for ParserExpr {
    type V = SpannedItem;

    open spec fn view(&self) -> SpannedItem {
        SpannedItem { start: self.pos.start as int, end: self.pos.end as int, item: self.expr@ }
    }
}

impl View for ParserError {
    type V = Diagnostic;

    open spec fn view(&self) -> Diagnostic {
        Diagnostic { start: self.pos.start as int, end: self.pos.end as int, kind: self.err_type }
    }
}

/// The items of a list, as mathematical values.
pub open spec fn items_view(program: Seq<ParserExpr>) -> Seq<SpannedItem> {
    program.map_values(|e: ParserExpr| e@)
}

/// The diagnostics of a list, as mathematical values.
pub open spec fn errors_view(errors: Seq<ParserError>) -> Seq<Diagnostic> {
    errors.map_values(|e: ParserError| e@)
}

impl View for ParserResult {
    type V = Parse;

    open spec fn view(&self) -> Parse {
        Parse { program: items_view(self.program@), errors: errors_view(self.errors@) }
    }
}

// ---------------------------------------------------------------------------
// Reading tokens
// ---------------------------------------------------------------------------
/// Whether two byte strings are equal.
pub(crate) fn bytes_equal(a: &[u8], b: &[u8]) -> (equal: bool)
    ensures
        equal == (a@ == b@),
{
    if a.len() != b.len() {
        return false;
    }
    let mut k: usize = 0;
    while k < a.len()
        invariant
            a@.len() == b@.len(),
            k <= a@.len(),
            forall|j: int| 0 <= j < k ==> a@[j] == b@[j],
        decreases a@.len() - k,
    {
        if a[k] != b[k] {
            return false;
        }
        k = k + 1;
    }
    assert(a@ =~= b@);
    true
}

/// Looks up the register with the given name, without the dollar sign.
fn register_from_name(name: &[u8]) -> (reg: Option<Register>)
    ensures
        reg == register_named(name@),
{
    if bytes_equal(name, "r0".as_bytes()) {
        Some(Register::R0)
    } else if bytes_equal(name, "r1".as_bytes()) {
        Some(Register::R1)
    } else if bytes_equal(name, "r2".as_bytes()) {
        Some(Register::R2)
    } else if bytes_equal(name, "r3".as_bytes()) {
        Some(Register::R3)
    } else if bytes_equal(name, "r4".as_bytes()) {
        Some(Register::R4)
    } else if bytes_equal(name, "r5".as_bytes()) {
        Some(Register::R5)
    } else if bytes_equal(name, "r6".as_bytes()) {
        Some(Register::R6)
    } else if bytes_equal(name, "r7".as_bytes()) {
        Some(Register::R7)
    } else if bytes_equal(name, "ip".as_bytes()) {
        Some(Register::IP)
    } else if bytes_equal(name, "ra".as_bytes()) {
        Some(Register::RA)
    } else if bytes_equal(name, "sp".as_bytes()) {
        Some(Register::SP)
    } else if bytes_equal(name, "err".as_bytes()) {
        Some(Register::ERR)
    } else {
        None
    }
}

/// Looks up the instruction that a mnemonic token names.
fn opcode_from_token(token: Token) -> (op: Option<OpCode>)
    ensures
        op == opcode_of_token(token),
{
    match token {
        Token::KwCpy => Some(OpCode::CPY),
        Token::KwLw => Some(OpCode::LW),
        Token::KwSw => Some(OpCode::SW),
        Token::KwLh => Some(OpCode::LH),
        Token::KwSh => Some(OpCode::SH),
        Token::KwLb => Some(OpCode::LB),
        Token::KwSb => Some(OpCode::SB),
        Token::KwLi => Some(OpCode::LI),
        Token::KwLwI => Some(OpCode::LWI),
        Token::KwSwI => Some(OpCode::SWI),
        Token::KwLhI => Some(OpCode::LHI),
        Token::KwShI => Some(OpCode::SHI),
        Token::KwLbI => Some(OpCode::LBI),
        Token::KwSbI => Some(OpCode::SBI),
        Token::KwAdd => Some(OpCode::ADD),
        Token::KwSub => Some(OpCode::SUB),
        Token::KwMul => Some(OpCode::MUL),
        Token::KwDiv => Some(OpCode::DIV),
        Token::KwAddI => Some(OpCode::ADDI),
        Token::KwSubI => Some(OpCode::SUBI),
        Token::KwMulI => Some(OpCode::MULI),
        Token::KwDivI => Some(OpCode::DIVI),
        Token::KwAnd => Some(OpCode::AND),
        Token::KwOr => Some(OpCode::OR),
        Token::KwXor => Some(OpCode::XOR),
        Token::KwSrl => Some(OpCode::SRL),
        Token::KwSll => Some(OpCode::SLL),
        Token::KwSrli => Some(OpCode::SRLI),
        Token::KwSlli => Some(OpCode::SLLI),
        Token::KwNot => Some(OpCode::NOT),
        Token::KwJ => Some(OpCode::J),
        Token::KwJi => Some(OpCode::JI),
        Token::KwJil => Some(OpCode::JIL),
        Token::KwJzi => Some(OpCode::JZI),
        Token::KwJnzi => Some(OpCode::JNZI),
        Token::KwJlzi => Some(OpCode::JLZI),
        Token::KwJgzi => Some(OpCode::JGZI),
        Token::KwSyscalli => Some(OpCode::SYSCALLI),
        _ => None,
    }
}

/// Reads a decimal number; `None` where a byte is no digit or the number does
/// not fit in 32 bits.
fn parse_decimal(text: &[u8]) -> (value: Option<u32>)
    ensures
        value == literal_value(Token::Int, text@),
{
    let mut acc: u64 = 0;
    let mut valid = true;
    let mut too_big = false;
    let mut k: usize = 0;
    while k < text.len()
        invariant
            k <= text@.len(),
            valid == all_decimal_digits(text@.take(k as int)),
            valid && !too_big ==> acc == decimal_value(text@.take(k as int)) && acc <= u32::MAX,
            valid && too_big ==> decimal_value(text@.take(k as int)) > u32::MAX,
        decreases text@.len() - k,
    {
        let b = text[k];
        proof {
            assert(text@.take(k + 1).drop_last() =~= text@.take(k as int));
            assert(text@.take(k + 1).last() == b);
            if all_decimal_digits(text@.take(k + 1)) {
                assert forall|j: int| 0 <= j < k implies 48 <= #[trigger] text@.take(
                    k as int,
                )[j] <= 57 by {
                    assert(text@.take(k + 1)[j] == text@.take(k as int)[j]);
                }
            }
            if 48 <= b <= 57 && all_decimal_digits(text@.take(k as int)) {
                assert forall|j: int| 0 <= j < k + 1 implies 48 <= #[trigger] text@.take(
                    k + 1,
                )[j] <= 57 by {
                    if j < k {
                        assert(text@.take(k + 1)[j] == text@.take(k as int)[j]);
                    }
                }
            }
        }
        if !(48 <= b && b <= 57) {
            valid = false;
        } else if valid && !too_big {
            acc = acc * 10 + (b % 16) as u64;
            if acc > 0xFFFF_FFFF {
                too_big = true;
            }
        }
        k = k + 1;
    }
    assert(text@.take(k as int) =~= text@);
    if valid && !too_big {
        Some(acc as u32)
    } else {
        None
    }
}

/// Reads a hexadecimal number after its `0x`; `None` where a byte is no
/// hexadecimal digit or the number does not fit in 32 bits.
fn parse_hex(text: &[u8]) -> (value: Option<u32>)
    ensures
        value == literal_value(Token::Hex, text@),
{
    if text.len() < 2 {
        return None;
    }
    let ghost digits = text@.skip(2);
    let mut acc: u64 = 0;
    let mut valid = true;
    let mut too_big = false;
    let mut k: usize = 2;
    while k < text.len()
        invariant
            2 <= k <= text@.len(),
            digits == text@.skip(2),
            valid == all_hex_digits(digits.take(k - 2)),
            valid && !too_big ==> acc == hex_value(digits.take(k - 2)) && acc <= u32::MAX,
            valid && too_big ==> hex_value(digits.take(k - 2)) > u32::MAX,
        decreases text@.len() - k,
    {
        let b = text[k];
        proof {
            assert(digits.take(k - 1).drop_last() =~= digits.take(k - 2));
            assert(digits.take(k - 1).last() == b);
            if all_hex_digits(digits.take(k - 1)) {
                assert forall|j: int| 0 <= j < k - 2 implies is_hex_digit(
                    #[trigger] digits.take(k - 2)[j],
                ) by {
                    assert(digits.take(k - 1)[j] == digits.take(k - 2)[j]);
                }
            }
            if is_hex_digit(b) && all_hex_digits(digits.take(k - 2)) {
                assert forall|j: int| 0 <= j < k - 1 implies is_hex_digit(
                    #[trigger] digits.take(k - 1)[j],
                ) by {
                    if j < k - 2 {
                        assert(digits.take(k - 1)[j] == digits.take(k - 2)[j]);
                    }
                }
            }
        }
        if !((48 <= b && b <= 57) || (65 <= b && b <= 70)) {
            valid = false;
        } else if valid && !too_big {
            let digit: u64 = if b <= 57 {
                (b % 16) as u64
            } else {
                (b % 16 + 9) as u64
            };
            acc = acc * 16 + digit;
            if acc > 0xFFFF_FFFF {
                too_big = true;
            }
        }
        k = k + 1;
    }
    assert(digits.take(k - 2) =~= digits);
    if valid && !too_big {
        Some(acc as u32)
    } else {
        None
    }
}

/// Looks up the byte that the escape `\b` stands for.
fn escape_byte(b: u8) -> (value: Option<u8>)
    ensures
        value == escape_value(b),
{
    if b == 110 {
        Some(10u8)
    } else if b == 114 {
        Some(13u8)
    } else if b == 116 {
        Some(9u8)
    } else if b == 48 {
        Some(0u8)
    } else if b == 34 {
        Some(34u8)
    } else if b == 39 {
        Some(39u8)
    } else {
        None
    }
}

/// Builds the tree of `left`, an operator and `right`.
fn make_binary(op: Operator, left: ImmediateExpr, right: ImmediateExpr) -> (expr: ImmediateExpr)
    ensures
        expr@ == binary(op, left@, right@),
{
    match op {
        Operator::Add => ImmediateExpr::Add(Box::new(left), Box::new(right)),
        Operator::Sub => ImmediateExpr::Sub(Box::new(left), Box::new(right)),
        Operator::Mul => ImmediateExpr::Mul(Box::new(left), Box::new(right)),
        Operator::Div => ImmediateExpr::Div(Box::new(left), Box::new(right)),
    }
}

/// Combines two ranges: from the start of `range0` to the end of `range1`.
pub fn combine_range<Idx>(range0: std::ops::Range<Idx>, range1: std::ops::Range<Idx>) -> (range:
    std::ops::Range<Idx>)
    ensures
        range.start == range0.start,
        range.end == range1.end,
{
    range0.start..range1.end
}


// ---------------------------------------------------------------------------
// The parser
// ---------------------------------------------------------------------------
/// Walks over the tokens of a source and collects diagnostics.
pub struct Parser<'a> {
    /// The source.
    pub source: &'a [u8],
    /// The tokens of the source.
    pub tokens: Vec<Lexeme>,
    /// Index of the current token.
    pub index: usize,
    /// The diagnostics raised so far.
    pub errors: Vec<ParserError>,
}

/// The parser `now` is `before` after parsing a construct with `outcome`: it
/// stands at the first token after the construct and has the construct's
/// diagnostics appended.
pub open spec fn follows<T>(now: Parser, before: Parser, outcome: Parsed<T>) -> bool {
    &&& now.source@ == before.source@
    &&& now.tokens@ == before.tokens@
    &&& now.index == outcome.next
    &&& errors_view(now.errors@) =~= errors_view(before.errors@) + outcome.errors
}

impl<'a> Parser<'a> {
    /// The current token exists or is the end, and the tokens lie in the
    /// source.
    pub open spec fn wf(&self) -> bool {
        &&& self.index <= self.tokens@.len()
        &&& tokens_in_source(self.source@, self.tokens@)
    }

    /// A parser at the first of the tokens that `lex` has left.
    pub fn new(lex: &mut Lexer<'a>) -> (parser: Parser<'a>)
        ensures
            parser.wf(),
            parser.source@ == old(lex).source(),
            parser.tokens@ == lexemes_from(old(lex).source(), old(lex).token_end()),
            parser.index == 0,
            parser.errors@.len() == 0,
            final(lex).source() == old(lex).source(),
    {
        let tokens = lex.tokenize();
        Parser { source: lex.input(), tokens, index: 0, errors: Vec::new() }
    }

    /// The kind of the current token; `None` at the end.
    pub fn current(&self) -> (token: Option<Token>)
        requires
            self.wf(),
        ensures
            token == kind_at(self.tokens@, self.index as int),
    {
        if self.index < self.tokens.len() {
            Some(self.tokens[self.index].token)
        } else {
            None
        }
    }

    /// The range of the current token; the empty range at the end of the
    /// source after the last token.
    pub fn span(&self) -> (range: std::ops::Range<usize>)
        requires
            self.wf(),
        ensures
            range.start == start_at(self.source@, self.tokens@, self.index as int),
            range.end == end_at(self.source@, self.tokens@, self.index as int),
            range.start <= range.end <= self.source@.len(),
    {
        if self.index < self.tokens.len() {
            let lexeme = self.tokens[self.index];
            lexeme.start..lexeme.end
        } else {
            self.source.len()..self.source.len()
        }
    }

    /// Moves on to the next token, unless the current one is the end.
    fn next(&mut self)
        requires
            old(self).wf(),
        ensures
            final(self).wf(),
            final(self).source@ == old(self).source@,
            final(self).tokens@ == old(self).tokens@,
            final(self).errors@ == old(self).errors@,
            final(self).index == after(old(self).tokens@, old(self).index as int),
    {
        if self.index < self.tokens.len() {
            self.index = self.index + 1;
        }
    }

    /// Raises a diagnostic on the bytes from `start` to `end`.
    fn raise(&mut self, kind: ParserErrorType, start: usize, end: usize)
        ensures
            final(self).source@ == old(self).source@,
            final(self).tokens@ == old(self).tokens@,
            final(self).index == old(self).index,
            errors_view(final(self).errors@) == errors_view(old(self).errors@) + seq![
                Diagnostic { start: start as int, end: end as int, kind },
            ],
    {
        self.errors.push(ParserError { pos: start..end, err_type: kind });
        assert(errors_view(self.errors@) =~= errors_view(old(self).errors@) + seq![
            Diagnostic { start: start as int, end: end as int, kind },
        ]);
    }

    /// Raises a diagnostic on the current token.
    fn raise_here(&mut self, kind: ParserErrorType)
        requires
            old(self).wf(),
        ensures
            final(self).wf(),
            final(self).source@ == old(self).source@,
            final(self).tokens@ == old(self).tokens@,
            final(self).index == old(self).index,
            errors_view(final(self).errors@) == errors_view(old(self).errors@) + seq![
                diagnostic_at(old(self).source@, old(self).tokens@, old(self).index as int, kind),
            ],
    {
        let span = self.span();
        self.raise(kind, span.start, span.end);
    }

    /// Checks that the current token is `expect`; raises `ExpectedToken`
    /// where it is not.
    fn expect_token(&mut self, expect: Token) -> (found: bool)
        requires
            old(self).wf(),
        ensures
            final(self).wf(),
            found == (kind_at(old(self).tokens@, old(self).index as int) == Some(expect)),
            found ==> final(self).errors@ == old(self).errors@,
            follows(
                *final(self),
                *old(self),
                Parsed {
                    value: found,
                    next: old(self).index as int,
                    errors: expected_at(
                        old(self).source@,
                        old(self).tokens@,
                        old(self).index as int,
                        expect,
                    ).errors,
                },
            ),
    {
        match self.current() {
            Some(token) => {
                if token == expect {
                    return true;
                }
            },
            None => {},
        }
        self.raise_here(ParserErrorType::ExpectedToken(expect));
        false
    }

    /// Consumes the current token if it is `expect`; raises `ExpectedToken`
    /// and leaves it where it is not.
    fn eat_token(&mut self, expect: Token) -> (found: bool)
        requires
            old(self).wf(),
        ensures
            final(self).wf(),
            found == expected_at(
                old(self).source@,
                old(self).tokens@,
                old(self).index as int,
                expect,
            ).value,
            found ==> final(self).errors@ == old(self).errors@,
            old(self).index <= final(self).index,
            follows(
                *final(self),
                *old(self),
                expected_at(old(self).source@, old(self).tokens@, old(self).index as int, expect),
            ),
    {
        if self.expect_token(expect) {
            self.next();
            return true;
        }
        false
    }

    /// Consumes the line breaks at the current token.  Returns whether the
    /// line ended there: at the end of the source, or with a line break.
    fn advance_newlines(&mut self) -> (ended: bool)
        requires
            old(self).wf(),
        ensures
            final(self).wf(),
            final(self).source@ == old(self).source@,
            final(self).tokens@ == old(self).tokens@,
            final(self).errors@ == old(self).errors@,
            final(self).index == newlines_end(old(self).tokens@, old(self).index as int),
            old(self).index <= final(self).index,
            ended == (kind_at(old(self).tokens@, old(self).index as int) is None || kind_at(
                old(self).tokens@,
                old(self).index as int,
            ) == Some(Token::NewLine)),
    {
        if self.index >= self.tokens.len() {
            return true;
        }
        let mut result = false;
        while self.index < self.tokens.len() && self.tokens[self.index].token == Token::NewLine
            invariant
                self.wf(),
                self.source@ == old(self).source@,
                self.tokens@ == old(self).tokens@,
                self.errors@ == old(self).errors@,
                old(self).index <= self.index,
                newlines_end(self.tokens@, self.index as int) == newlines_end(
                    old(self).tokens@,
                    old(self).index as int,
                ),
                result == (self.index > old(self).index),
                !result ==> self.index == old(self).index,
            decreases self.tokens@.len() - self.index,
        {
            self.next();
            result = true;
        }
        result
    }

    /// Expects the end of the line; raises `ExpectedNewLine` where something
    /// else follows.
    fn expect_newline(&mut self) -> (ended: bool)
        requires
            old(self).wf(),
        ensures
            final(self).wf(),
            old(self).index <= final(self).index,
            ended == newline_at(old(self).source@, old(self).tokens@, old(self).index as int).value,
            follows(
                *final(self),
                *old(self),
                newline_at(old(self).source@, old(self).tokens@, old(self).index as int),
            ),
    {
        if !self.advance_newlines() {
            self.raise_here(ParserErrorType::ExpectedNewLine);
            return false;
        }
        true
    }

    /// Parses a register name.
    fn parse_register(&mut self) -> (reg: Option<Register>)
        requires
            old(self).wf(),
        ensures
            final(self).wf(),
            old(self).index <= final(self).index,
            reg == register_at(old(self).source@, old(self).tokens@, old(self).index as int).value,
            follows(
                *final(self),
                *old(self),
                register_at(old(self).source@, old(self).tokens@, old(self).index as int),
            ),
    {
        match self.current() {
            Some(Token::Reg) => {
                let lexeme = self.tokens[self.index];
                let name = vstd::slice::slice_subrange(self.source, lexeme.start + 1, lexeme.end);
                assert(name@ =~= text_at(self.source@, self.tokens@, self.index as int).skip(1));
                let result = register_from_name(name);
                match result {
                    Some(_) => {
                        self.next();
                    },
                    None => {
                        self.raise_here(ParserErrorType::ExpectedValidRegister);
                    },
                }
                result
            },
            _ => {
                self.raise_here(ParserErrorType::ExpectedRegister);
                None
            },
        }
    }

    /// Parses `factor := INT | HEX | '%' IDENT | '(' imm ')'`.
    fn parse_factor(&mut self) -> (expr: Option<ImmediateExpr>)
        requires
            old(self).wf(),
        ensures
            final(self).wf(),
            old(self).index <= final(self).index,
            expr is Some ==> old(self).index < final(self).index,
            expr is Some ==> final(self).errors@ == old(self).errors@,
            match expr {
                Some(e) => factor_at(
                    old(self).source@,
                    old(self).tokens@,
                    old(self).index as int,
                ).value == Some(e@),
                None => factor_at(
                    old(self).source@,
                    old(self).tokens@,
                    old(self).index as int,
                ).value is None,
            },
            follows(
                *final(self),
                *old(self),
                factor_at(old(self).source@, old(self).tokens@, old(self).index as int),
            ),
        decreases old(self).tokens@.len() - old(self).index, 0int,
    {
        match self.current() {
            None => {
                self.raise_here(ParserErrorType::ExpectedImmediate);
                None
            },
            Some(token) => {
                let lexeme = self.tokens[self.index];
                match token {
                    Token::Int | Token::Hex => {
                        let text = vstd::slice::slice_subrange(
                            self.source,
                            lexeme.start,
                            lexeme.end,
                        );
                        let value = match token {
                            Token::Hex => parse_hex(text),
                            _ => parse_decimal(text),
                        };
                        match value {
                            Some(v) => {
                                self.next();
                                Some(ImmediateExpr::Int(v))
                            },
                            None => {
                                self.raise_here(ParserErrorType::ExpectedValidImmediate);
                                None
                            },
                        }
                    },
                    Token::AddrToLabel => {
                        let name = vstd::slice::slice_to_vec(
                            vstd::slice::slice_subrange(self.source, lexeme.start + 1, lexeme.end),
                        );
                        assert(name@ =~= text_at(self.source@, self.tokens@, self.index as int).skip(
                            1,
                        ));
                        self.next();
                        Some(ImmediateExpr::AddrToLabel(name))
                    },
                    Token::OpOpenBracket => {
                        self.next();
                        match self.parse_immediate() {
                            Some(inner) => {
                                if self.eat_token(Token::OpCloseBracket) {
                                    Some(inner)
                                } else {
                                    None
                                }
                            },
                            None => None,
                        }
                    },
                    _ => {
                        self.raise_here(ParserErrorType::ExpectedValidImmediate);
                        None
                    },
                }
            },
        }
    }

    /// Parses `term := factor (('*'|'/') factor)*`.
    fn parse_term(&mut self) -> (expr: Option<ImmediateExpr>)
        requires
            old(self).wf(),
        ensures
            final(self).wf(),
            old(self).index <= final(self).index,
            expr is Some ==> old(self).index < final(self).index,
            expr is Some ==> final(self).errors@ == old(self).errors@,
            match expr {
                Some(e) => term_at(
                    old(self).source@,
                    old(self).tokens@,
                    old(self).index as int,
                ).value == Some(e@),
                None => term_at(
                    old(self).source@,
                    old(self).tokens@,
                    old(self).index as int,
                ).value is None,
            },
            follows(
                *final(self),
                *old(self),
                term_at(old(self).source@, old(self).tokens@, old(self).index as int),
            ),
        decreases old(self).tokens@.len() - old(self).index, 2int,
    {
        let ghost src = self.source@;
        let ghost toks = self.tokens@;
        let ghost whole = term_at(src, toks, self.index as int);
        let mut left = match self.parse_factor() {
            Some(first) => first,
            None => {
                return None;
            },
        };
        loop
            invariant
                self.wf(),
                self.source@ == src,
                self.tokens@ == toks,
                old(self).index < self.index,
                self.errors@ == old(self).errors@,
                src == old(self).source@,
                toks == old(self).tokens@,
                whole == term_at(src, toks, old(self).index as int),
                whole == term_rest_at(src, toks, left@, self.index as int),
            decreases toks.len() - self.index,
        {
            let op = match self.current() {
                Some(Token::OpMul) => Operator::Mul,
                Some(Token::OpDiv) => Operator::Div,
                _ => {
                    return Some(left);
                },
            };
            self.next();
            match self.parse_factor() {
                Some(right) => {
                    left = make_binary(op, left, right);
                },
                None => {
                    return None;
                },
            }
        }
    }

    /// Parses `imm := term (('+'|'-') term)*`.
    fn parse_immediate(&mut self) -> (expr: Option<ImmediateExpr>)
        requires
            old(self).wf(),
        ensures
            final(self).wf(),
            old(self).index <= final(self).index,
            expr is Some ==> old(self).index < final(self).index,
            expr is Some ==> final(self).errors@ == old(self).errors@,
            match expr {
                Some(e) => immediate_at(
                    old(self).source@,
                    old(self).tokens@,
                    old(self).index as int,
                ).value == Some(e@),
                None => immediate_at(
                    old(self).source@,
                    old(self).tokens@,
                    old(self).index as int,
                ).value is None,
            },
            follows(
                *final(self),
                *old(self),
                immediate_at(old(self).source@, old(self).tokens@, old(self).index as int),
            ),
        decreases old(self).tokens@.len() - old(self).index, 4int,
    {
        let ghost src = self.source@;
        let ghost toks = self.tokens@;
        let ghost whole = immediate_at(src, toks, self.index as int);
        let mut left = match self.parse_term() {
            Some(first) => first,
            None => {
                return None;
            },
        };
        loop
            invariant
                self.wf(),
                self.source@ == src,
                self.tokens@ == toks,
                old(self).index < self.index,
                self.errors@ == old(self).errors@,
                src == old(self).source@,
                toks == old(self).tokens@,
                whole == immediate_at(src, toks, old(self).index as int),
                whole == immediate_rest_at(src, toks, left@, self.index as int),
            decreases toks.len() - self.index,
        {
            let op = match self.current() {
                Some(Token::OpAdd) => Operator::Add,
                Some(Token::OpSub) => Operator::Sub,
                _ => {
                    return Some(left);
                },
            };
            self.next();
            match self.parse_term() {
                Some(right) => {
                    left = make_binary(op, left, right);
                },
                None => {
                    return None;
                },
            }
        }
    }

    /// Parses a string literal and decodes its escapes.
    pub fn parse_immediate_string(&mut self) -> (string: Option<Vec<u8>>)
        requires
            old(self).wf(),
        ensures
            final(self).wf(),
            old(self).index <= final(self).index,
            match string {
                Some(bytes) => string_at(
                    old(self).source@,
                    old(self).tokens@,
                    old(self).index as int,
                ).value == Some(bytes@),
                None => string_at(
                    old(self).source@,
                    old(self).tokens@,
                    old(self).index as int,
                ).value is None,
            },
            follows(
                *final(self),
                *old(self),
                string_at(old(self).source@, old(self).tokens@, old(self).index as int),
            ),
    {
        match self.current() {
            Some(Token::String) => {
                let lexeme = self.tokens[self.index];
                if lexeme.end - lexeme.start < 2 {
                    self.raise_here(ParserErrorType::ExpectedToken(Token::String));
                    return None;
                }
                let base: usize = lexeme.start + 1;
                let content = vstd::slice::slice_subrange(self.source, base, lexeme.end - 1);
                let ghost whole = decoded_from(content@, 0, base as int);
                let ghost mut raised: Seq<Diagnostic> = Seq::empty();
                let mut result: Vec<u8> = Vec::new();
                let mut k: usize = 0;
                while k < content.len()
                    invariant
                        self.wf(),
                        self.source@ == old(self).source@,
                        self.tokens@ == old(self).tokens@,
                        self.index == old(self).index,
                        k <= content@.len(),
                        base + content@.len() <= usize::MAX,
                        errors_view(self.errors@) =~= errors_view(old(self).errors@) + raised,
                        whole == decoded_from(content@, 0, base as int),
                        whole.bytes =~= result@ + decoded_from(content@, k as int, base as int).bytes,
                        whole.errors =~= raised + decoded_from(
                            content@,
                            k as int,
                            base as int,
                        ).errors,
                    decreases content@.len() - k,
                {
                    let b = content[k];
                    if b == 92 && k + 1 < content.len() {
                        match escape_byte(content[k + 1]) {
                            Some(value) => {
                                result.push(value);
                                k = k + 2;
                            },
                            None => {
                                let e = scan_run(content, k + 2, ByteClass::Continuation);
                                self.raise(
                                    ParserErrorType::InvalidEscapeSequence,
                                    base + k,
                                    base + e,
                                );
                                proof {
                                    raised = raised + seq![
                                        Diagnostic {
                                            start: base + k,
                                            end: base + e,
                                            kind: ParserErrorType::InvalidEscapeSequence,
                                        },
                                    ];
                                }
                                result.push(63);
                                k = e;
                            },
                        }
                    } else {
                        result.push(b);
                        k = k + 1;
                    }
                }
                self.next();
                Some(result)
            },
            _ => {
                self.raise_here(ParserErrorType::ExpectedToken(Token::String));
                None
            },
        }
    }

    /// Parses what follows the directive `.str`, which is the current token.
    pub fn parse_mem_str(&mut self) -> (item: ParserExpr)
        requires
            old(self).wf(),
        ensures
            final(self).wf(),
            old(self).index <= final(self).index,
            kind_at(old(self).tokens@, old(self).index as int) is Some ==> old(self).index
                < final(self).index,
            item@ == mem_str_at(old(self).source@, old(self).tokens@, old(self).index as int).value,
            follows(
                *final(self),
                *old(self),
                mem_str_at(old(self).source@, old(self).tokens@, old(self).index as int),
            ),
    {
        self.next();
        let pos = self.span();
        let result = match self.parse_immediate_string() {
            Some(string) => {
                self.expect_newline();
                Expr::StoreStr(string)
            },
            None => Expr::Error(),
        };
        ParserExpr { pos, expr: result }
    }

    /// Parses what follows the directive `.i32`, which is the current token.
    pub fn parse_mem_i32(&mut self) -> (item: ParserExpr)
        requires
            old(self).wf(),
        ensures
            final(self).wf(),
            old(self).index <= final(self).index,
            kind_at(old(self).tokens@, old(self).index as int) is Some ==> old(self).index
                < final(self).index,
            item@ == mem_i32_at(old(self).source@, old(self).tokens@, old(self).index as int).value,
            follows(
                *final(self),
                *old(self),
                mem_i32_at(old(self).source@, old(self).tokens@, old(self).index as int),
            ),
    {
        self.next();
        let pos = self.span();
        let result = match self.parse_immediate() {
            Some(expr) => {
                self.expect_newline();
                Expr::StoreI32(Box::new(expr))
            },
            None => Expr::Error(),
        };
        ParserExpr { pos, expr: result }
    }

    /// Parses a label definition.
    pub fn parse_label(&mut self) -> (item: ParserExpr)
        requires
            old(self).wf(),
        ensures
            final(self).wf(),
            old(self).index <= final(self).index,
            kind_at(old(self).tokens@, old(self).index as int) == Some(Token::Label) ==> old(
                self,
            ).index < final(self).index,
            item@ == label_at(old(self).source@, old(self).tokens@, old(self).index as int).value,
            follows(
                *final(self),
                *old(self),
                label_at(old(self).source@, old(self).tokens@, old(self).index as int),
            ),
    {
        let pos = self.span();
        match self.current() {
            Some(Token::Label) => {
                let lexeme = self.tokens[self.index];
                let name = vstd::slice::slice_to_vec(
                    vstd::slice::slice_subrange(self.source, lexeme.start, lexeme.end - 1),
                );
                assert(name@ =~= text_at(self.source@, self.tokens@, self.index as int).drop_last());
                self.next();
                ParserExpr { pos, expr: Expr::Label(name) }
            },
            _ => {
                self.raise_here(ParserErrorType::ExpectedLabel);
                ParserExpr { pos, expr: Expr::Error() }
            },
        }
    }

    /// The operands that `operands_at` describes were parsed into `item`.
    pub open spec fn parsed_operands(
        now: Parser,
        before: Parser,
        item: ParserExpr,
        operands: Operands,
    ) -> bool {
        &&& now.wf()
        &&& before.index <= now.index
        &&& item@ == (SpannedItem {
            start: start_at(before.source@, before.tokens@, before.index as int),
            end: operands.end,
            item: operands.item,
        })
        &&& follows(
            now,
            before,
            Parsed { value: (), next: operands.next, errors: operands.errors },
        )
    }

    /// Parses the operand of an instruction on one register.
    fn parse_operand_register(&mut self, op_code: OpCode) -> (item: ParserExpr)
        requires
            old(self).wf(),
            instruction_parse_type(op_code) == InstructionParseType::Register,
        ensures
            kind_at(old(self).tokens@, old(self).index as int) is Some ==> old(self).index
                < final(self).index,
            Self::parsed_operands(
                *final(self),
                *old(self),
                item,
                operands_at(old(self).source@, old(self).tokens@, old(self).index as int, op_code),
            ),
    {
        let start = self.span();
        self.next();
        let pos = combine_range(start, self.span());
        match self.parse_register() {
            Some(reg) => ParserExpr { pos, expr: Expr::InstructionRegister(op_code, reg) },
            None => ParserExpr { pos, expr: Expr::Error() },
        }
    }

    /// Parses the operand of an instruction on an immediate.
    fn parse_operand_immediate(&mut self, op_code: OpCode) -> (item: ParserExpr)
        requires
            old(self).wf(),
            instruction_parse_type(op_code) == InstructionParseType::Immediate,
        ensures
            kind_at(old(self).tokens@, old(self).index as int) is Some ==> old(self).index
                < final(self).index,
            Self::parsed_operands(
                *final(self),
                *old(self),
                item,
                operands_at(old(self).source@, old(self).tokens@, old(self).index as int, op_code),
            ),
    {
        let start = self.span();
        self.next();
        let pos = combine_range(start, self.span());
        match self.parse_immediate() {
            Some(imm) => ParserExpr {
                pos,
                expr: Expr::InstructionImmediate(op_code, Box::new(imm)),
            },
            None => ParserExpr { pos, expr: Expr::Error() },
        }
    }

    /// Parses the operands of an instruction on two registers.
    fn parse_operands_two_registers(&mut self, op_code: OpCode) -> (item: ParserExpr)
        requires
            old(self).wf(),
            instruction_parse_type(op_code) == InstructionParseType::TwoRegisters,
        ensures
            kind_at(old(self).tokens@, old(self).index as int) is Some ==> old(self).index
                < final(self).index,
            Self::parsed_operands(
                *final(self),
                *old(self),
                item,
                operands_at(old(self).source@, old(self).tokens@, old(self).index as int, op_code),
            ),
    {
        let start = self.span();
        self.next();
        let reg_raw0 = self.parse_register();
        self.eat_token(Token::Comma);
        let reg_raw1 = self.parse_register();
        let pos = combine_range(start, self.span());
        match (reg_raw0, reg_raw1) {
            (Some(reg0), Some(reg1)) => ParserExpr {
                pos,
                expr: Expr::InstructionTwoRegisters(op_code, reg0, reg1),
            },
            _ => ParserExpr { pos, expr: Expr::Error() },
        }
    }

    /// Parses the operands of an instruction on a register and an immediate.
    fn parse_operands_register_and_immediate(&mut self, op_code: OpCode) -> (item: ParserExpr)
        requires
            old(self).wf(),
            instruction_parse_type(op_code) == InstructionParseType::RegisterAndImmediate,
        ensures
            kind_at(old(self).tokens@, old(self).index as int) is Some ==> old(self).index
                < final(self).index,
            Self::parsed_operands(
                *final(self),
                *old(self),
                item,
                operands_at(old(self).source@, old(self).tokens@, old(self).index as int, op_code),
            ),
    {
        let start = self.span();
        self.next();
        let reg_raw = self.parse_register();
        self.eat_token(Token::Comma);
        let imm_raw = self.parse_immediate();
        let pos = combine_range(start, self.span());
        match (reg_raw, imm_raw) {
            (Some(reg), Some(imm)) => ParserExpr {
                pos,
                expr: Expr::InstructionRegisterAndImmediate(op_code, reg, Box::new(imm)),
            },
            _ => ParserExpr { pos, expr: Expr::Error() },
        }
    }

    /// Parses the instruction `op_code`, whose mnemonic is the current token:
    /// its operands, then the end of the line.
    pub fn parse_instruction(&mut self, op_code: OpCode) -> (item: ParserExpr)
        requires
            old(self).wf(),
        ensures
            final(self).wf(),
            old(self).index <= final(self).index,
            kind_at(old(self).tokens@, old(self).index as int) is Some ==> old(self).index
                < final(self).index,
            item@ == instruction_at(
                old(self).source@,
                old(self).tokens@,
                old(self).index as int,
                op_code,
            ).value,
            follows(
                *final(self),
                *old(self),
                instruction_at(
                    old(self).source@,
                    old(self).tokens@,
                    old(self).index as int,
                    op_code,
                ),
            ),
    {
        let start = self.span();
        let parse_type = get_instruction_parse_type(op_code);
        let expr = match parse_type {
            InstructionParseType::Register => self.parse_operand_register(op_code),
            InstructionParseType::Immediate => self.parse_operand_immediate(op_code),
            InstructionParseType::TwoRegisters => self.parse_operands_two_registers(op_code),
            InstructionParseType::RegisterAndImmediate => {
                self.parse_operands_register_and_immediate(op_code)
            },
            InstructionParseType::TwoRegistersAndImmediate => {
                ParserExpr { pos: start.start..start.end, expr: Expr::Error() }
            },
        };
        if !self.expect_newline() {
            return ParserExpr { pos: combine_range(start, self.span()), expr: Expr::Error() };
        }
        expr
    }

    /// Parses one item, after the line breaks before it; `None` at the end of
    /// the source.  A token that starts no item raises `CannotParse` and is
    /// consumed.
    pub fn parse_expr(&mut self) -> (item: Option<ParserExpr>)
        requires
            old(self).wf(),
        ensures
            final(self).wf(),
            final(self).source@ == old(self).source@,
            final(self).tokens@ == old(self).tokens@,
            match item_at(old(self).source@, old(self).tokens@, old(self).index as int) {
                Some(parsed) => item matches Some(expr) && expr@ == parsed.value && follows(
                    *final(self),
                    *old(self),
                    parsed,
                ) && old(self).index < final(self).index,
                None => item is None && final(self).errors@ == old(self).errors@,
            },
    {
        self.advance_newlines();
        match self.current() {
            None => None,
            Some(token) => Some(
                match opcode_from_token(token) {
                    Some(op_code) => self.parse_instruction(op_code),
                    None => match token {
                        Token::Label => self.parse_label(),
                        Token::KwMemI32 => self.parse_mem_i32(),
                        Token::KwMemStr => self.parse_mem_str(),
                        _ => {
                            let pos = self.span();
                            self.raise_here(ParserErrorType::CannotParse);
                            self.next();
                            ParserExpr { pos, expr: Expr::Error() }
                        },
                    },
                },
            ),
        }
    }
}

/// Parses the items of the source that `lex` has left.
pub fn parse(lex: &mut Lexer) -> (result: ParserResult)
    ensures
        final(lex).source() == old(lex).source(),
        result@ == items_from(
            old(lex).source(),
            lexemes_from(old(lex).source(), old(lex).token_end()),
            0,
        ),
{
    let mut parser = Parser::new(lex);
    let mut program: Vec<ParserExpr> = Vec::new();
    let ghost src = parser.source@;
    let ghost toks = parser.tokens@;
    assert(errors_view(parser.errors@) =~= Seq::<Diagnostic>::empty());
    loop
        invariant_except_break
            items_from(src, toks, 0).program =~= items_view(program@) + items_from(
                src,
                toks,
                parser.index as int,
            ).program,
            items_from(src, toks, 0).errors =~= errors_view(parser.errors@) + items_from(
                src,
                toks,
                parser.index as int,
            ).errors,
        invariant
            parser.wf(),
            parser.source@ == src,
            parser.tokens@ == toks,
        ensures
            items_from(src, toks, 0).program =~= items_view(program@),
            items_from(src, toks, 0).errors =~= errors_view(parser.errors@),
        decreases toks.len() - parser.index,
    {
        match parser.parse_expr() {
            Some(expr) => {
                let ghost before = program@;
                program.push(expr);
                assert(items_view(program@) =~= items_view(before) + seq![expr@]);
            },
            None => {
                break ;
            },
        }
    }
    ParserResult { program, errors: parser.errors }
}

/// Parses a source.
pub fn parse_str(program: &str) -> (result: ParserResult)
    ensures
        result@ == parse_of(program.spec_bytes()),
{
    let mut lex = Token::lexer(program);
    parse(&mut lex)
}

/// Parses a source held in a `String`.
pub fn parse_string(program: &String) -> (result: ParserResult)
    ensures
        result@ == parse_of(vstd::utf8::encode_utf8(program@)),
{
    let mut lex = Token::lexer(program.as_str());
    parse(&mut lex)
}

} // verus!
