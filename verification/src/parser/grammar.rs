//! The grammar of assembly source, as functions on a sequence of tokens.

use crate::common::{OpCode, Register};
use crate::lexer::{lexemes_from, run_end, ByteClass, Lexeme, Token};
use crate::parser::{
    instruction_parse_type, Diagnostic, ImmediateTree, InstructionParseType, Item, Operator, Parse,
    ParserErrorType, SpannedItem,
};
use vstd::prelude::*;
use vstd::string::*;

verus! {

// ---------------------------------------------------------------------------
// The grammar, over a sequence of tokens
// ---------------------------------------------------------------------------
/// What parsing one construct at a token gives: its value, the index of the
/// first token after it, and the diagnostics that it raised.
pub struct Parsed<T> {
    /// The value.
    pub value: T,
    /// Index of the first token after the construct.
    pub next: int,
    /// The diagnostics raised.
    pub errors: Seq<Diagnostic>,
}

/// The kind of token `i`; `None` after the last token.
pub open spec fn kind_at(toks: Seq<Lexeme>, i: int) -> Option<Token> {
    if 0 <= i < toks.len() {
        Some(toks[i].token)
    } else {
        None
    }
}

/// The index of the token after token `i`; `i` itself after the last token.
pub open spec fn after(toks: Seq<Lexeme>, i: int) -> int {
    if 0 <= i < toks.len() {
        i + 1
    } else {
        i
    }
}

/// Where token `i` starts; the end of the source after the last token.
pub open spec fn start_at(src: Seq<u8>, toks: Seq<Lexeme>, i: int) -> int {
    if 0 <= i < toks.len() {
        toks[i].start as int
    } else {
        src.len() as int
    }
}

/// Where token `i` ends; the end of the source after the last token.
pub open spec fn end_at(src: Seq<u8>, toks: Seq<Lexeme>, i: int) -> int {
    if 0 <= i < toks.len() {
        toks[i].end as int
    } else {
        src.len() as int
    }
}

/// The bytes of token `i`.
pub open spec fn text_at(src: Seq<u8>, toks: Seq<Lexeme>, i: int) -> Seq<u8> {
    src.subrange(toks[i].start as int, toks[i].end as int)
}

/// A diagnostic about token `i`.
pub open spec fn diagnostic_at(src: Seq<u8>, toks: Seq<Lexeme>, i: int, kind: ParserErrorType)
    -> Diagnostic {
    Diagnostic { start: start_at(src, toks, i), end: end_at(src, toks, i), kind }
}

/// The tokens lie in the source, one after the other, and none is empty.
pub open spec fn tokens_in_source(src: Seq<u8>, toks: Seq<Lexeme>) -> bool {
    forall|k: int| 0 <= k < toks.len() ==> (#[trigger] toks[k]).start < toks[k].end <= src.len()
}

/// The instruction that a mnemonic token names.
pub open spec fn opcode_of_token(token: Token) -> Option<OpCode> {
    match token {
        Token::KwCpy => Some(OpCode::CPY),
        Token::KwLw => Some(OpCode::LW),
        Token::KwSw => Some(OpCode::SW),
        Token::KwLh => Some(OpCode::LH),
        Token::KwSh => Some(OpCode::SH),
        Token::KwLb => Some(OpCode::LB),
        Token::KwSb => Some(OpCode::SB),
        Token::KwLi => Some(OpCode::LI),
        Token::KwLwI => Some(OpCode::LWI),
        Token::KwSwI => Some(OpCode::SWI),
        Token::KwLhI => Some(OpCode::LHI),
        Token::KwShI => Some(OpCode::SHI),
        Token::KwLbI => Some(OpCode::LBI),
        Token::KwSbI => Some(OpCode::SBI),
        Token::KwAdd => Some(OpCode::ADD),
        Token::KwSub => Some(OpCode::SUB),
        Token::KwMul => Some(OpCode::MUL),
        Token::KwDiv => Some(OpCode::DIV),
        Token::KwAddI => Some(OpCode::ADDI),
        Token::KwSubI => Some(OpCode::SUBI),
        Token::KwMulI => Some(OpCode::MULI),
        Token::KwDivI => Some(OpCode::DIVI),
        Token::KwAnd => Some(OpCode::AND),
        Token::KwOr => Some(OpCode::OR),
        Token::KwXor => Some(OpCode::XOR),
        Token::KwSrl => Some(OpCode::SRL),
        Token::KwSll => Some(OpCode::SLL),
        Token::KwSrli => Some(OpCode::SRLI),
        Token::KwSlli => Some(OpCode::SLLI),
        Token::KwNot => Some(OpCode::NOT),
        Token::KwJ => Some(OpCode::J),
        Token::KwJi => Some(OpCode::JI),
        Token::KwJil => Some(OpCode::JIL),
        Token::KwJzi => Some(OpCode::JZI),
        Token::KwJnzi => Some(OpCode::JNZI),
        Token::KwJlzi => Some(OpCode::JLZI),
        Token::KwJgzi => Some(OpCode::JGZI),
        Token::KwSyscalli => Some(OpCode::SYSCALLI),
        _ => None,
    }
}

/// The register with the given name, without the dollar sign.
pub open spec fn register_named(name: Seq<u8>) -> Option<Register> {
    if name == "r0".spec_bytes() {
        Some(Register::R0)
    } else if name == "r1".spec_bytes() {
        Some(Register::R1)
    } else if name == "r2".spec_bytes() {
        Some(Register::R2)
    } else if name == "r3".spec_bytes() {
        Some(Register::R3)
    } else if name == "r4".spec_bytes() {
        Some(Register::R4)
    } else if name == "r5".spec_bytes() {
        Some(Register::R5)
    } else if name == "r6".spec_bytes() {
        Some(Register::R6)
    } else if name == "r7".spec_bytes() {
        Some(Register::R7)
    } else if name == "ip".spec_bytes() {
        Some(Register::IP)
    } else if name == "ra".spec_bytes() {
        Some(Register::RA)
    } else if name == "sp".spec_bytes() {
        Some(Register::SP)
    } else if name == "err".spec_bytes() {
        Some(Register::ERR)
    } else {
        None
    }
}

/// Whether every byte of `digits` is a decimal digit.
pub open spec fn all_decimal_digits(digits: Seq<u8>) -> bool {
    forall|k: int| 0 <= k < digits.len() ==> 48 <= #[trigger] digits[k] <= 57
}

/// The number that a run of decimal digits stands for.
pub open spec fn decimal_value(digits: Seq<u8>) -> nat
    decreases digits.len(),
{
    if digits.len() == 0 {
        0
    } else {
        decimal_value(digits.drop_last()) * 10 + (digits.last() % 16) as nat
    }
}

/// Whether `b` is a hexadecimal digit: a decimal digit or one of `A` to `F`.
pub open spec fn is_hex_digit(b: u8) -> bool {
    (48 <= b <= 57) || (65 <= b <= 70)
}

/// The value of a hexadecimal digit.
pub open spec fn hex_digit_value(b: u8) -> nat {
    if b <= 57 {
        (b % 16) as nat
    } else {
        (b % 16 + 9) as nat
    }
}

/// Whether every byte of `digits` is a hexadecimal digit.
pub open spec fn all_hex_digits(digits: Seq<u8>) -> bool {
    forall|k: int| 0 <= k < digits.len() ==> is_hex_digit(#[trigger] digits[k])
}

/// The number that a run of hexadecimal digits stands for.
pub open spec fn hex_value(digits: Seq<u8>) -> nat
    decreases digits.len(),
{
    if digits.len() == 0 {
        0
    } else {
        hex_value(digits.drop_last()) * 16 + hex_digit_value(digits.last())
    }
}

/// The number that a literal token with these bytes stands for: decimal for
/// `Int`, hexadecimal after the `0x` for `Hex`.  `None` where a byte is no
/// digit (a letter after `F` in a hexadecimal number), or where the number
/// does not fit in 32 bits.
pub open spec fn literal_value(token: Token, text: Seq<u8>) -> Option<u32> {
    if token == Token::Hex {
        if text.len() >= 2 && all_hex_digits(text.skip(2)) && hex_value(text.skip(2))
            <= u32::MAX {
            Some(hex_value(text.skip(2)) as u32)
        } else {
            None
        }
    } else {
        if all_decimal_digits(text) && decimal_value(text) <= u32::MAX {
            Some(decimal_value(text) as u32)
        } else {
            None
        }
    }
}

/// The tree of `left`, an operator and `right`.
pub open spec fn binary(op: Operator, left: ImmediateTree, right: ImmediateTree) -> ImmediateTree {
    match op {
        Operator::Add => ImmediateTree::Add(Box::new(left), Box::new(right)),
        Operator::Sub => ImmediateTree::Sub(Box::new(left), Box::new(right)),
        Operator::Mul => ImmediateTree::Mul(Box::new(left), Box::new(right)),
        Operator::Div => ImmediateTree::Div(Box::new(left), Box::new(right)),
    }
}

/// The operator of the weaker tier that token `i` is: `+` or `-`.
pub open spec fn additive_at(toks: Seq<Lexeme>, i: int) -> Option<Operator> {
    match kind_at(toks, i) {
        Some(Token::OpAdd) => Some(Operator::Add),
        Some(Token::OpSub) => Some(Operator::Sub),
        _ => None,
    }
}

/// The operator of the stronger tier that token `i` is: `*` or `/`.
pub open spec fn multiplicative_at(toks: Seq<Lexeme>, i: int) -> Option<Operator> {
    match kind_at(toks, i) {
        Some(Token::OpMul) => Some(Operator::Mul),
        Some(Token::OpDiv) => Some(Operator::Div),
        _ => None,
    }
}

/// A construct that was parsed without a diagnostic.
pub open spec fn parsed_value<T>(value: T, next: int) -> Parsed<Option<T>> {
    Parsed { value: Some(value), next, errors: Seq::empty() }
}

/// A construct that could not be parsed.
pub open spec fn parsed_nothing<T>(next: int, errors: Seq<Diagnostic>) -> Parsed<Option<T>> {
    Parsed { value: None, next, errors }
}

/// A register at token `i`.  A token that is no register name raises
/// `ExpectedRegister`, an unknown name `ExpectedValidRegister`; neither is
/// consumed.
pub open spec fn register_at(src: Seq<u8>, toks: Seq<Lexeme>, i: int) -> Parsed<Option<Register>> {
    if kind_at(toks, i) == Some(Token::Reg) {
        match register_named(text_at(src, toks, i).skip(1)) {
            Some(reg) => parsed_value(reg, i + 1),
            None => parsed_nothing(
                i,
                seq![diagnostic_at(src, toks, i, ParserErrorType::ExpectedValidRegister)],
            ),
        }
    } else {
        parsed_nothing(i, seq![diagnostic_at(src, toks, i, ParserErrorType::ExpectedRegister)])
    }
}

/// `factor := INT | HEX | '%' IDENT | '(' imm ')'` at token `i`.
pub open spec fn factor_at(src: Seq<u8>, toks: Seq<Lexeme>, i: int) -> Parsed<Option<ImmediateTree>>
    decreases toks.len() - i, 0int,
{
    match kind_at(toks, i) {
        None => parsed_nothing(
            i,
            seq![diagnostic_at(src, toks, i, ParserErrorType::ExpectedImmediate)],
        ),
        Some(Token::Int) | Some(Token::Hex) => match literal_value(
            toks[i].token,
            text_at(src, toks, i),
        ) {
            Some(value) => parsed_value(ImmediateTree::Int(value), i + 1),
            None => parsed_nothing(
                i,
                seq![diagnostic_at(src, toks, i, ParserErrorType::ExpectedValidImmediate)],
            ),
        },
        Some(Token::AddrToLabel) => parsed_value(
            ImmediateTree::AddrToLabel(text_at(src, toks, i).skip(1)),
            i + 1,
        ),
        Some(Token::OpOpenBracket) => {
            let inner = immediate_at(src, toks, i + 1);
            match inner.value {
                Some(tree) => if kind_at(toks, inner.next) == Some(Token::OpCloseBracket) {
                    parsed_value(tree, inner.next + 1)
                } else {
                    parsed_nothing(
                        inner.next,
                        seq![
                            diagnostic_at(
                                src,
                                toks,
                                inner.next,
                                ParserErrorType::ExpectedToken(Token::OpCloseBracket),
                            ),
                        ],
                    )
                },
                None => inner,
            }
        },
        Some(_) => parsed_nothing(
            i,
            seq![diagnostic_at(src, toks, i, ParserErrorType::ExpectedValidImmediate)],
        ),
    }
}

/// The factors that follow `left` in a term, each after `*` or `/`, folded
/// onto it from the left.
pub open spec fn term_rest_at(src: Seq<u8>, toks: Seq<Lexeme>, left: ImmediateTree, i: int)
    -> Parsed<Option<ImmediateTree>>
    decreases toks.len() - i, 1int,
{
    match multiplicative_at(toks, i) {
        Some(op) => {
            let right = factor_at(src, toks, i + 1);
            match right.value {
                Some(tree) => if i < right.next <= toks.len() {
                    term_rest_at(src, toks, binary(op, left, tree), right.next)
                } else {
                    parsed_nothing(i, Seq::empty())
                },
                None => right,
            }
        },
        None => parsed_value(left, i),
    }
}

/// `term := factor (('*'|'/') factor)*` at token `i`.
pub open spec fn term_at(src: Seq<u8>, toks: Seq<Lexeme>, i: int) -> Parsed<Option<ImmediateTree>>
    decreases toks.len() - i, 2int,
{
    let first = factor_at(src, toks, i);
    match first.value {
        Some(tree) => if i < first.next <= toks.len() {
            term_rest_at(src, toks, tree, first.next)
        } else {
            parsed_nothing(i, Seq::empty())
        },
        None => first,
    }
}

/// The terms that follow `left` in an immediate, each after `+` or `-`, folded
/// onto it from the left.
pub open spec fn immediate_rest_at(src: Seq<u8>, toks: Seq<Lexeme>, left: ImmediateTree, i: int)
    -> Parsed<Option<ImmediateTree>>
    decreases toks.len() - i, 3int,
{
    match additive_at(toks, i) {
        Some(op) => {
            let right = term_at(src, toks, i + 1);
            match right.value {
                Some(tree) => if i < right.next <= toks.len() {
                    immediate_rest_at(src, toks, binary(op, left, tree), right.next)
                } else {
                    parsed_nothing(i, Seq::empty())
                },
                None => right,
            }
        },
        None => parsed_value(left, i),
    }
}

/// `imm := term (('+'|'-') term)*` at token `i`.  An immediate either parses
/// without a diagnostic or does not parse.
pub open spec fn immediate_at(src: Seq<u8>, toks: Seq<Lexeme>, i: int) -> Parsed<
    Option<ImmediateTree>,
>
    decreases toks.len() - i, 4int,
{
    let first = term_at(src, toks, i);
    match first.value {
        Some(tree) => if i < first.next <= toks.len() {
            immediate_rest_at(src, toks, tree, first.next)
        } else {
            parsed_nothing(i, Seq::empty())
        },
        None => first,
    }
}


// ---------------------------------------------------------------------------
// The grammar of items
// ---------------------------------------------------------------------------
/// The index of the first token at or after `i` that is no line break.
pub open spec fn newlines_end(toks: Seq<Lexeme>, i: int) -> int
    decreases toks.len() - i,
{
    if kind_at(toks, i) == Some(Token::NewLine) {
        newlines_end(toks, i + 1)
    } else {
        i
    }
}

/// The end of a line at token `i`: the end of the source, or line breaks,
/// which are consumed.  Anything else raises `ExpectedNewLine` and is left.
pub open spec fn newline_at(src: Seq<u8>, toks: Seq<Lexeme>, i: int) -> Parsed<bool> {
    if kind_at(toks, i) is None || kind_at(toks, i) == Some(Token::NewLine) {
        Parsed { value: true, next: newlines_end(toks, i), errors: Seq::empty() }
    } else {
        Parsed {
            value: false,
            next: i,
            errors: seq![diagnostic_at(src, toks, i, ParserErrorType::ExpectedNewLine)],
        }
    }
}

/// The token `expect` at token `i`, which is consumed.  Anything else raises
/// `ExpectedToken` and is left.
pub open spec fn expected_at(src: Seq<u8>, toks: Seq<Lexeme>, i: int, expect: Token) -> Parsed<
    bool,
> {
    if kind_at(toks, i) == Some(expect) {
        Parsed { value: true, next: i + 1, errors: Seq::empty() }
    } else {
        Parsed {
            value: false,
            next: i,
            errors: seq![diagnostic_at(src, toks, i, ParserErrorType::ExpectedToken(expect))],
        }
    }
}

/// The comma between two operands at token `i`.
pub open spec fn comma_at(src: Seq<u8>, toks: Seq<Lexeme>, i: int) -> Parsed<bool> {
    expected_at(src, toks, i, Token::Comma)
}

/// The byte that the escape `\b` stands for.
pub open spec fn escape_value(b: u8) -> Option<u8> {
    if b == 110 {
        Some(10u8)
    } else if b == 114 {
        Some(13u8)
    } else if b == 116 {
        Some(9u8)
    } else if b == 48 {
        Some(0u8)
    } else if b == 34 {
        Some(34u8)
    } else if b == 39 {
        Some(39u8)
    } else {
        None
    }
}

/// The bytes of a string and the diagnostics of its escapes.
pub struct Decoded {
    /// The decoded bytes.
    pub bytes: Seq<u8>,
    /// One diagnostic for each unknown escape.
    pub errors: Seq<Diagnostic>,
}

/// `first` followed by what `rest` holds.
pub open spec fn decoded_after(first: u8, errors: Seq<Diagnostic>, rest: Decoded) -> Decoded {
    Decoded { bytes: seq![first] + rest.bytes, errors: errors + rest.errors }
}

/// Decodes what stands between the quotes of a string literal, from `k` on.
/// A backslash and the character after it give one byte; where the character
/// names no escape that byte is `?` and `InvalidEscapeSequence` is raised on
/// the two.  `base` is the offset of `content` in the source.
pub open spec fn decoded_from(content: Seq<u8>, k: int, base: int) -> Decoded
    decreases content.len() - k,
{
    if !(0 <= k < content.len()) {
        Decoded { bytes: Seq::empty(), errors: Seq::empty() }
    } else if content[k] == 92 && k + 1 < content.len() {
        match escape_value(content[k + 1]) {
            Some(value) => decoded_after(value, Seq::empty(), decoded_from(content, k + 2, base)),
            None => {
                let e = run_end(content, k + 2, ByteClass::Continuation);
                if k < e <= content.len() {
                    decoded_after(
                        63,
                        seq![
                            Diagnostic {
                                start: base + k,
                                end: base + e,
                                kind: ParserErrorType::InvalidEscapeSequence,
                            },
                        ],
                        decoded_from(content, e, base),
                    )
                } else {
                    Decoded { bytes: Seq::empty(), errors: Seq::empty() }
                }
            },
        }
    } else {
        decoded_after(content[k], Seq::empty(), decoded_from(content, k + 1, base))
    }
}

/// A string literal at token `i`, decoded.  Anything else raises
/// `ExpectedToken` and is left.
pub open spec fn string_at(src: Seq<u8>, toks: Seq<Lexeme>, i: int) -> Parsed<Option<Seq<u8>>> {
    if kind_at(toks, i) == Some(Token::String) && toks[i].start + 2 <= toks[i].end {
        let decoded = decoded_from(
            src.subrange(toks[i].start + 1, toks[i].end - 1),
            0,
            toks[i].start + 1,
        );
        Parsed { value: Some(decoded.bytes), next: i + 1, errors: decoded.errors }
    } else {
        parsed_nothing(
            i,
            seq![diagnostic_at(src, toks, i, ParserErrorType::ExpectedToken(Token::String))],
        )
    }
}

/// The operands of an instruction: the item they make, where its range ends,
/// the first token after them, and the diagnostics raised.
pub struct Operands {
    /// The item; `Error` where an operand did not parse.
    pub item: Item,
    /// Offset after the last byte of the item's range.
    pub end: int,
    /// Index of the first token after the operands.
    pub next: int,
    /// The diagnostics raised.
    pub errors: Seq<Diagnostic>,
}

/// The operands of instruction `op`, whose mnemonic is token `i`.
pub open spec fn operands_at(src: Seq<u8>, toks: Seq<Lexeme>, i: int, op: OpCode) -> Operands {
    match instruction_parse_type(op) {
        InstructionParseType::Register => {
            let reg = register_at(src, toks, after(toks, i));
            Operands {
                item: match reg.value {
                    Some(r) => Item::InstructionRegister(op, r),
                    None => Item::Error,
                },
                end: end_at(src, toks, after(toks, i)),
                next: reg.next,
                errors: reg.errors,
            }
        },
        InstructionParseType::Immediate => {
            let imm = immediate_at(src, toks, after(toks, i));
            Operands {
                item: match imm.value {
                    Some(tree) => Item::InstructionImmediate(op, tree),
                    None => Item::Error,
                },
                end: end_at(src, toks, after(toks, i)),
                next: imm.next,
                errors: imm.errors,
            }
        },
        InstructionParseType::TwoRegisters => {
            let reg0 = register_at(src, toks, after(toks, i));
            let comma = comma_at(src, toks, reg0.next);
            let reg1 = register_at(src, toks, comma.next);
            Operands {
                item: match (reg0.value, reg1.value) {
                    (Some(r0), Some(r1)) => Item::InstructionTwoRegisters(op, r0, r1),
                    _ => Item::Error,
                },
                end: end_at(src, toks, reg1.next),
                next: reg1.next,
                errors: reg0.errors + comma.errors + reg1.errors,
            }
        },
        InstructionParseType::RegisterAndImmediate => {
            let reg = register_at(src, toks, after(toks, i));
            let comma = comma_at(src, toks, reg.next);
            let imm = immediate_at(src, toks, comma.next);
            Operands {
                item: match (reg.value, imm.value) {
                    (Some(r), Some(tree)) => Item::InstructionRegisterAndImmediate(op, r, tree),
                    _ => Item::Error,
                },
                end: end_at(src, toks, imm.next),
                next: imm.next,
                errors: reg.errors + comma.errors + imm.errors,
            }
        },
        InstructionParseType::TwoRegistersAndImmediate => Operands {
            item: Item::Error,
            end: end_at(src, toks, i),
            next: i,
            errors: Seq::empty(),
        },
    }
}

/// The instruction `op` whose mnemonic is token `i`: its operands, then the
/// end of the line.  Where the line does not end there the item is `Error`
/// and its range runs to the end of the token found instead.
pub open spec fn instruction_at(src: Seq<u8>, toks: Seq<Lexeme>, i: int, op: OpCode) -> Parsed<
    SpannedItem,
> {
    let operands = operands_at(src, toks, i, op);
    let line = newline_at(src, toks, operands.next);
    Parsed {
        value: if line.value {
            SpannedItem { start: start_at(src, toks, i), end: operands.end, item: operands.item }
        } else {
            SpannedItem {
                start: start_at(src, toks, i),
                end: end_at(src, toks, line.next),
                item: Item::Error,
            }
        },
        next: line.next,
        errors: operands.errors + line.errors,
    }
}

/// A label definition at token `i`: the name is the token without its colon.
/// Anything else raises `ExpectedLabel` and is left.
pub open spec fn label_at(src: Seq<u8>, toks: Seq<Lexeme>, i: int) -> Parsed<SpannedItem> {
    if kind_at(toks, i) == Some(Token::Label) {
        Parsed {
            value: SpannedItem {
                start: start_at(src, toks, i),
                end: end_at(src, toks, i),
                item: Item::Label(text_at(src, toks, i).drop_last()),
            },
            next: i + 1,
            errors: Seq::empty(),
        }
    } else {
        Parsed {
            value: SpannedItem {
                start: start_at(src, toks, i),
                end: end_at(src, toks, i),
                item: Item::Error,
            },
            next: i,
            errors: seq![diagnostic_at(src, toks, i, ParserErrorType::ExpectedLabel)],
        }
    }
}

/// The directive `.i32` at token `i`: an immediate, then the end of the line.
/// The item's range is that of the first token after the directive.
pub open spec fn mem_i32_at(src: Seq<u8>, toks: Seq<Lexeme>, i: int) -> Parsed<SpannedItem> {
    let imm = immediate_at(src, toks, after(toks, i));
    match imm.value {
        Some(tree) => {
            let line = newline_at(src, toks, imm.next);
            Parsed {
                value: SpannedItem {
                    start: start_at(src, toks, after(toks, i)),
                    end: end_at(src, toks, after(toks, i)),
                    item: Item::StoreI32(tree),
                },
                next: line.next,
                errors: imm.errors + line.errors,
            }
        },
        None => Parsed {
            value: SpannedItem {
                start: start_at(src, toks, after(toks, i)),
                end: end_at(src, toks, after(toks, i)),
                item: Item::Error,
            },
            next: imm.next,
            errors: imm.errors,
        },
    }
}

/// The directive `.str` at token `i`: a string literal, then the end of the
/// line.  The item's range is that of the first token after the directive.
pub open spec fn mem_str_at(src: Seq<u8>, toks: Seq<Lexeme>, i: int) -> Parsed<SpannedItem> {
    let string = string_at(src, toks, after(toks, i));
    match string.value {
        Some(bytes) => {
            let line = newline_at(src, toks, string.next);
            Parsed {
                value: SpannedItem {
                    start: start_at(src, toks, after(toks, i)),
                    end: end_at(src, toks, after(toks, i)),
                    item: Item::StoreStr(bytes),
                },
                next: line.next,
                errors: string.errors + line.errors,
            }
        },
        None => Parsed {
            value: SpannedItem {
                start: start_at(src, toks, after(toks, i)),
                end: end_at(src, toks, after(toks, i)),
                item: Item::Error,
            },
            next: string.next,
            errors: string.errors,
        },
    }
}

/// The item that starts at the first token at or after `i` that is no line
/// break; `None` at the end of the source.  A token that starts no item
/// raises `CannotParse`, gives an `Error` item and is consumed.
pub open spec fn item_at(src: Seq<u8>, toks: Seq<Lexeme>, i: int) -> Option<Parsed<SpannedItem>> {
    let j = newlines_end(toks, i);
    match kind_at(toks, j) {
        None => None,
        Some(token) => Some(
            match opcode_of_token(token) {
                Some(op) => instruction_at(src, toks, j, op),
                None => match token {
                    Token::Label => label_at(src, toks, j),
                    Token::KwMemI32 => mem_i32_at(src, toks, j),
                    Token::KwMemStr => mem_str_at(src, toks, j),
                    _ => Parsed {
                        value: SpannedItem {
                            start: start_at(src, toks, j),
                            end: end_at(src, toks, j),
                            item: Item::Error,
                        },
                        next: j + 1,
                        errors: seq![diagnostic_at(src, toks, j, ParserErrorType::CannotParse)],
                    },
                },
            },
        ),
    }
}

/// All items from token `i` on, with the diagnostics raised on the way.
pub open spec fn items_from(src: Seq<u8>, toks: Seq<Lexeme>, i: int) -> Parse
    decreases toks.len() - i,
{
    match item_at(src, toks, i) {
        None => Parse { program: Seq::empty(), errors: Seq::empty() },
        Some(parsed) => if i < parsed.next <= toks.len() {
            let rest = items_from(src, toks, parsed.next);
            Parse {
                program: seq![parsed.value] + rest.program,
                errors: parsed.errors + rest.errors,
            }
        } else {
            Parse { program: seq![parsed.value], errors: parsed.errors }
        },
    }
}

/// The tokens of a source, with their ranges.
pub open spec fn lexemes_of(src: Seq<u8>) -> Seq<Lexeme> {
    lexemes_from(src, 0)
}

/// What parsing the source `src` gives.
pub open spec fn parse_of(src: Seq<u8>) -> Parse {
    items_from(src, lexemes_of(src), 0)
}


// ---------------------------------------------------------------------------
// What holds of every parse
// ---------------------------------------------------------------------------
/// What holds of an immediate, a term or a factor parsed at token `i`: the
/// parser does not move back or past the end; and where it gives a value it
/// has moved forward and raised nothing.
pub open spec fn sound_expression(toks: Seq<Lexeme>, i: int, parsed: Parsed<Option<ImmediateTree>>)
    -> bool {
    &&& i <= parsed.next <= toks.len()
    &&& parsed.value is Some ==> i < parsed.next && parsed.errors.len() == 0
}

/// What holds of the operands that follow a first one at token `i`: the parser
/// does not move back or past the end; and where it gives a value it has
/// raised nothing.
pub open spec fn sound_rest(toks: Seq<Lexeme>, i: int, parsed: Parsed<Option<ImmediateTree>>)
    -> bool {
    &&& i <= parsed.next <= toks.len()
    &&& parsed.value is Some ==> parsed.errors.len() == 0
}

/// A factor is parsed soundly.
pub proof fn lemma_factor_at(src: Seq<u8>, toks: Seq<Lexeme>, i: int)
    requires
        0 <= i <= toks.len(),
    ensures
        sound_expression(toks, i, factor_at(src, toks, i)),
    decreases toks.len() - i, 0int,
{
    if kind_at(toks, i) == Some(Token::OpOpenBracket) {
        lemma_immediate_at(src, toks, i + 1);
    }
}

/// The factors after the first of a term are parsed soundly.
pub proof fn lemma_term_rest_at(src: Seq<u8>, toks: Seq<Lexeme>, left: ImmediateTree, i: int)
    requires
        0 <= i <= toks.len(),
    ensures
        sound_rest(toks, i, term_rest_at(src, toks, left, i)),
    decreases toks.len() - i, 1int,
{
    match multiplicative_at(toks, i) {
        Some(op) => {
            lemma_factor_at(src, toks, i + 1);
            let right = factor_at(src, toks, i + 1);
            match right.value {
                Some(tree) => {
                    lemma_term_rest_at(src, toks, binary(op, left, tree), right.next);
                },
                None => {},
            }
        },
        None => {},
    }
}

/// A term is parsed soundly.
pub proof fn lemma_term_at(src: Seq<u8>, toks: Seq<Lexeme>, i: int)
    requires
        0 <= i <= toks.len(),
    ensures
        sound_expression(toks, i, term_at(src, toks, i)),
    decreases toks.len() - i, 2int,
{
    lemma_factor_at(src, toks, i);
    let first = factor_at(src, toks, i);
    match first.value {
        Some(tree) => {
            lemma_term_rest_at(src, toks, tree, first.next);
        },
        None => {},
    }
}

/// The terms after the first of an immediate are parsed soundly.
pub proof fn lemma_immediate_rest_at(src: Seq<u8>, toks: Seq<Lexeme>, left: ImmediateTree, i: int)
    requires
        0 <= i <= toks.len(),
    ensures
        sound_rest(toks, i, immediate_rest_at(src, toks, left, i)),
    decreases toks.len() - i, 3int,
{
    match additive_at(toks, i) {
        Some(op) => {
            lemma_term_at(src, toks, i + 1);
            let right = term_at(src, toks, i + 1);
            match right.value {
                Some(tree) => {
                    lemma_immediate_rest_at(src, toks, binary(op, left, tree), right.next);
                },
                None => {},
            }
        },
        None => {},
    }
}

/// An immediate is parsed soundly: it either parses without a diagnostic, and
/// then the parser has moved forward, or it does not parse.
pub proof fn lemma_immediate_at(src: Seq<u8>, toks: Seq<Lexeme>, i: int)
    requires
        0 <= i <= toks.len(),
    ensures
        sound_expression(toks, i, immediate_at(src, toks, i)),
    decreases toks.len() - i, 4int,
{
    lemma_term_at(src, toks, i);
    let first = term_at(src, toks, i);
    match first.value {
        Some(tree) => {
            lemma_immediate_rest_at(src, toks, tree, first.next);
        },
        None => {},
    }
}

/// Line breaks end at or after their start and not past the end.
pub proof fn lemma_newlines_end(toks: Seq<Lexeme>, i: int)
    requires
        0 <= i <= toks.len(),
    ensures
        i <= newlines_end(toks, i) <= toks.len(),
        kind_at(toks, newlines_end(toks, i)) != Some(Token::NewLine),
    decreases toks.len() - i,
{
    if kind_at(toks, i) == Some(Token::NewLine) {
        lemma_newlines_end(toks, i + 1);
    }
}

/// Recovery is local: every item takes at least one token, and none takes
/// more than there are.
pub proof fn lemma_item_at(src: Seq<u8>, toks: Seq<Lexeme>, i: int)
    requires
        0 <= i <= toks.len(),
    ensures
        item_at(src, toks, i) matches Some(parsed) ==> i < parsed.next <= toks.len(),
{
    lemma_newlines_end(toks, i);
    let j = newlines_end(toks, i);
    if j < toks.len() {
        lemma_immediate_at(src, toks, j + 1);
        match opcode_of_token(toks[j].token) {
            Some(op) => {
                let operands = operands_at(src, toks, j, op);
                let first = register_at(src, toks, j + 1);
                let comma = comma_at(src, toks, first.next);
                lemma_immediate_at(src, toks, comma.next);
                assert(j + 1 <= operands.next <= toks.len());
                lemma_newlines_end(toks, operands.next);
            },
            None => {
                let number = immediate_at(src, toks, j + 1);
                lemma_newlines_end(toks, number.next);
                let string = string_at(src, toks, j + 1);
                lemma_newlines_end(toks, string.next);
            },
        }
    }
}

// ---------------------------------------------------------------------------
// What holds of every immediate
// ---------------------------------------------------------------------------
/// Token `i` is a number with the value `value`.
pub open spec fn literal_at(src: Seq<u8>, toks: Seq<Lexeme>, i: int, value: u32) -> bool {
    &&& kind_at(toks, i) == Some(Token::Int) || kind_at(toks, i) == Some(Token::Hex)
    &&& literal_value(toks[i].token, text_at(src, toks, i)) == Some(value)
}

/// The operator that token `i` is, of either tier.
pub open spec fn operator_at(toks: Seq<Lexeme>, i: int) -> Option<Operator> {
    match additive_at(toks, i) {
        Some(op) => Some(op),
        None => multiplicative_at(toks, i),
    }
}

/// Whether an operator is of the stronger tier: `*` or `/`.
pub open spec fn binds_tighter(op: Operator) -> bool {
    op == Operator::Mul || op == Operator::Div
}

/// The tree of a number.
pub open spec fn number(value: u32) -> ImmediateTree {
    ImmediateTree::Int(value)
}

/// Precedence and associativity: of three numbers with two operators between
/// them, `a first b second c`, the second operator takes `b` and `c` together
/// where it is `*` or `/` and the first is `+` or `-`; in every other case the
/// first operator takes `a` and `b` together: within a tier operators group
/// from the left.
pub proof fn lemma_precedence(
    src: Seq<u8>,
    toks: Seq<Lexeme>,
    i: int,
    a: u32,
    first: Operator,
    b: u32,
    second: Operator,
    c: u32,
)
    requires
        0 <= i,
        literal_at(src, toks, i, a),
        operator_at(toks, i + 1) == Some(first),
        literal_at(src, toks, i + 2, b),
        operator_at(toks, i + 3) == Some(second),
        literal_at(src, toks, i + 4, c),
        operator_at(toks, i + 5) is None,
    ensures
        immediate_at(src, toks, i).next == i + 5,
        immediate_at(src, toks, i).errors.len() == 0,
        immediate_at(src, toks, i).value == Some(
            if binds_tighter(second) && !binds_tighter(first) {
                binary(first, number(a), binary(second, number(b), number(c)))
            } else {
                binary(second, binary(first, number(a), number(b)), number(c))
            },
        ),
{
    assert(factor_at(src, toks, i) == parsed_value(number(a), i + 1));
    assert(factor_at(src, toks, i + 2) == parsed_value(number(b), i + 3));
    assert(factor_at(src, toks, i + 4) == parsed_value(number(c), i + 5));
    if binds_tighter(first) {
        let ab = binary(first, number(a), number(b));
        if binds_tighter(second) {
            let abc = binary(second, ab, number(c));
            assert(term_rest_at(src, toks, abc, i + 5) == parsed_value(abc, i + 5));
            assert(term_rest_at(src, toks, ab, i + 3) == parsed_value(abc, i + 5));
            assert(term_rest_at(src, toks, number(a), i + 1) == parsed_value(abc, i + 5));
            assert(term_at(src, toks, i) == parsed_value(abc, i + 5));
            assert(immediate_rest_at(src, toks, abc, i + 5) == parsed_value(abc, i + 5));
        } else {
            let abc = binary(second, ab, number(c));
            assert(term_rest_at(src, toks, ab, i + 3) == parsed_value(ab, i + 3));
            assert(term_rest_at(src, toks, number(a), i + 1) == parsed_value(ab, i + 3));
            assert(term_at(src, toks, i) == parsed_value(ab, i + 3));
            assert(term_rest_at(src, toks, number(c), i + 5) == parsed_value(number(c), i + 5));
            assert(term_at(src, toks, i + 4) == parsed_value(number(c), i + 5));
            assert(immediate_rest_at(src, toks, abc, i + 5) == parsed_value(abc, i + 5));
            assert(immediate_rest_at(src, toks, ab, i + 3) == parsed_value(abc, i + 5));
        }
    } else {
        assert(term_rest_at(src, toks, number(a), i + 1) == parsed_value(number(a), i + 1));
        assert(term_at(src, toks, i) == parsed_value(number(a), i + 1));
        if binds_tighter(second) {
            let bc = binary(second, number(b), number(c));
            let abc = binary(first, number(a), bc);
            assert(term_rest_at(src, toks, bc, i + 5) == parsed_value(bc, i + 5));
            assert(term_rest_at(src, toks, number(b), i + 3) == parsed_value(bc, i + 5));
            assert(term_at(src, toks, i + 2) == parsed_value(bc, i + 5));
            assert(immediate_rest_at(src, toks, abc, i + 5) == parsed_value(abc, i + 5));
            assert(immediate_rest_at(src, toks, number(a), i + 1) == parsed_value(abc, i + 5));
        } else {
            let ab = binary(first, number(a), number(b));
            let abc = binary(second, ab, number(c));
            assert(term_rest_at(src, toks, number(b), i + 3) == parsed_value(number(b), i + 3));
            assert(term_at(src, toks, i + 2) == parsed_value(number(b), i + 3));
            assert(term_rest_at(src, toks, number(c), i + 5) == parsed_value(number(c), i + 5));
            assert(term_at(src, toks, i + 4) == parsed_value(number(c), i + 5));
            assert(immediate_rest_at(src, toks, abc, i + 5) == parsed_value(abc, i + 5));
            assert(immediate_rest_at(src, toks, ab, i + 3) == parsed_value(abc, i + 5));
            assert(immediate_rest_at(src, toks, number(a), i + 1) == parsed_value(abc, i + 5));
        }
    }
}

} // verus!
