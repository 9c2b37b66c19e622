//! Tokens of assembly source: what the tokens of a source are, as a function
//! of its bytes, and a lexer that hands them out.

use vstd::prelude::*;
use vstd::string::*;

verus! {

/// The kinds of token in assembly source.
#[derive(Debug, PartialEq, Eq, Structural, Clone, Copy)]
pub enum Token {
    /// An identifier followed by a colon: a label definition.
    Label,
    /// A percent sign followed by an identifier: a reference to a label.
    AddrToLabel,
    /// A dollar sign, lower-case letters and at most one digit: a register name.
    Reg,
    /// `0x` followed by digits and upper-case letters: a hexadecimal number.
    Hex,
    /// A decimal number without leading zeros.
    Int,
    /// A double-quoted string with backslash escapes.
    String,
    /// `cpy`
    KwCpy,
    /// `lw`
    KwLw,
    /// `sw`
    KwSw,
    /// `lh`
    KwLh,
    /// `sh`
    KwSh,
    /// `lb`
    KwLb,
    /// `sb`
    KwSb,
    /// `li`
    KwLi,
    /// `lwi`
    KwLwI,
    /// `swi`
    KwSwI,
    /// `lhi`
    KwLhI,
    /// `shi`
    KwShI,
    /// `lbi`
    KwLbI,
    /// `sbi`
    KwSbI,
    /// `add`
    KwAdd,
    /// `sub`
    KwSub,
    /// `mul`
    KwMul,
    /// `div`
    KwDiv,
    /// `addi`
    KwAddI,
    /// `subi`
    KwSubI,
    /// `muli`
    KwMulI,
    /// `divi`
    KwDivI,
    /// `and`
    KwAnd,
    /// `or`
    KwOr,
    /// `xor`
    KwXor,
    /// `not`
    KwNot,
    /// `j`
    KwJ,
    /// `ji`
    KwJi,
    /// `jil`
    KwJil,
    /// `jzi`
    KwJzi,
    /// `jnzi`
    KwJnzi,
    /// `jlzi`
    KwJlzi,
    /// `jgzi`
    KwJgzi,
    /// `syscalli`
    KwSyscalli,
    /// `srl`
    KwSrl,
    /// `sll`
    KwSll,
    /// `srli`
    KwSrli,
    /// `slli`
    KwSlli,
    /// `.i32`
    KwMemI32,
    /// `.str`
    KwMemStr,
    /// `,`
    Comma,
    /// `+`
    OpAdd,
    /// `-`
    OpSub,
    /// `*`
    OpMul,
    /// `/`
    OpDiv,
    /// `(`
    OpOpenBracket,
    /// `)`
    OpCloseBracket,
    /// A line break: `\n`, `\r`, `\n\r` or `\r\n`.
    NewLine,
    /// A character that starts no token.
    Error,
}

// ---------------------------------------------------------------------------
// Classes of bytes
// ---------------------------------------------------------------------------
/// Classes of bytes of which a token can hold a run.
#[derive(Debug, PartialEq, Eq, Structural, Clone, Copy)]
pub enum ByteClass {
    /// Letters, digits and the underscore.
    Ident,
    /// Decimal digits.
    Digit,
    /// Lower-case letters.
    Lower,
    /// Digits and upper-case letters.
    UpperOrDigit,
    /// Everything but the line feed.
    NotLineFeed,
    /// Bytes that continue a UTF-8 encoded character.
    Continuation,
}

/// Whether `b` is an ASCII letter or the underscore.
#[verifier::allow_in_spec]
pub fn is_ident_start(b: u8) -> bool
    returns
        (65 <= b && b <= 90) || (97 <= b && b <= 122) || b == 95,
{
    (65 <= b && b <= 90) || (97 <= b && b <= 122) || b == 95
}

/// Whether `b` is an ASCII decimal digit.
#[verifier::allow_in_spec]
pub fn is_digit(b: u8) -> bool
    returns
        48 <= b && b <= 57,
{
    48 <= b && b <= 57
}

/// Whether `b` is blank: a space, a tab or a vertical tab.
#[verifier::allow_in_spec]
pub fn is_blank(b: u8) -> bool
    returns
        b == 32 || b == 9 || b == 11,
{
    b == 32 || b == 9 || b == 11
}

/// Whether `b` belongs to `class`.
#[verifier::allow_in_spec]
pub fn in_class(class: ByteClass, b: u8) -> bool
    returns
        match class {
            ByteClass::Ident => is_ident_start(b) || is_digit(b),
            ByteClass::Digit => is_digit(b),
            ByteClass::Lower => 97 <= b && b <= 122,
            ByteClass::UpperOrDigit => is_digit(b) || (65 <= b && b <= 90),
            ByteClass::NotLineFeed => b != 10,
            ByteClass::Continuation => 128 <= b && b <= 191,
        },
{
    match class {
        ByteClass::Ident => is_ident_start(b) || is_digit(b),
        ByteClass::Digit => is_digit(b),
        ByteClass::Lower => 97 <= b && b <= 122,
        ByteClass::UpperOrDigit => is_digit(b) || (65 <= b && b <= 90),
        ByteClass::NotLineFeed => b != 10,
        ByteClass::Continuation => 128 <= b && b <= 191,
    }
}

/// The end of the longest run of bytes of `class` that starts at `i`.
pub open spec fn run_end(src: Seq<u8>, i: int, class: ByteClass) -> int
    decreases src.len() - i,
{
    if 0 <= i < src.len() && in_class(class, src[i]) {
        run_end(src, i + 1, class)
    } else {
        i
    }
}

/// A run ends at or after its start, inside the source, on a byte that is not
/// of the class, and holds only bytes of the class.
pub proof fn lemma_run_end(src: Seq<u8>, i: int, class: ByteClass)
    requires
        0 <= i <= src.len(),
    ensures
        i <= run_end(src, i, class) <= src.len(),
        run_end(src, i, class) < src.len() ==> !in_class(class, src[run_end(src, i, class)]),
        forall|k: int| i <= k < run_end(src, i, class) ==> in_class(class, #[trigger] src[k]),
    decreases src.len() - i,
{
    if i < src.len() && in_class(class, src[i]) {
        lemma_run_end(src, i + 1, class);
    }
}

/// Whether the bytes of `word` stand in `src` at `i`.
#[verifier::opaque]
pub open spec fn has_word(src: Seq<u8>, i: int, word: &str) -> bool {
    0 <= i && 0 < word.spec_bytes().len() && i + word.spec_bytes().len() <= src.len()
        && src.subrange(
        i,
        i + word.spec_bytes().len(),
    ) == word.spec_bytes()
}

/// Whether byte `b` stands in `src` at `i`.
pub open spec fn has_byte(src: Seq<u8>, i: int, b: u8) -> bool {
    0 <= i < src.len() && src[i] == b
}

// ---------------------------------------------------------------------------
// Tokens as a function of the source
// ---------------------------------------------------------------------------
/// The end of the blanks and line comments that start at `i`.  A comment runs
/// from `//` up to the next line feed, which is left.
pub open spec fn skip_end(src: Seq<u8>, i: int) -> int
    decreases src.len() - i,
{
    if 0 <= i < src.len() && is_blank(src[i]) {
        skip_end(src, i + 1)
    } else if 0 <= i && has_byte(src, i, 47) && has_byte(src, i + 1, 47) {
        let e = run_end(src, i + 2, ByteClass::NotLineFeed);
        if i < e <= src.len() {
            skip_end(src, e)
        } else {
            i
        }
    } else {
        i
    }
}

/// The end of the string literal whose opening quote stands just before `i`:
/// the position after the closing quote.  A backslash takes the next byte
/// with it, unless that is a line feed.  `None` for a literal that is not
/// closed.
pub open spec fn string_end(src: Seq<u8>, i: int) -> Option<int>
    decreases src.len() - i,
{
    if !(0 <= i < src.len()) {
        None
    } else if src[i] == 34 {
        Some(i + 1)
    } else if src[i] == 92 {
        if i + 1 < src.len() && src[i + 1] != 10 {
            string_end(src, i + 2)
        } else {
            None
        }
    } else {
        string_end(src, i + 1)
    }
}

/// The end of the error token at `i`: one character, which is one byte and the
/// continuation bytes after it.
pub open spec fn error_end(src: Seq<u8>, i: int) -> int {
    run_end(src, i + 1, ByteClass::Continuation)
}

/// The longest instruction mnemonic that stands in `src` at `i`, with its
/// token and its end.
#[verifier::opaque]
pub open spec fn keyword_at(src: Seq<u8>, i: int) -> Option<(Token, int)> {
    if has_word(src, i, "syscalli") {
        Some((Token::KwSyscalli, i + "syscalli".spec_bytes().len()))
    } else if has_word(src, i, "addi") {
        Some((Token::KwAddI, i + "addi".spec_bytes().len()))
    } else if has_word(src, i, "subi") {
        Some((Token::KwSubI, i + "subi".spec_bytes().len()))
    } else if has_word(src, i, "muli") {
        Some((Token::KwMulI, i + "muli".spec_bytes().len()))
    } else if has_word(src, i, "divi") {
        Some((Token::KwDivI, i + "divi".spec_bytes().len()))
    } else if has_word(src, i, "jnzi") {
        Some((Token::KwJnzi, i + "jnzi".spec_bytes().len()))
    } else if has_word(src, i, "jlzi") {
        Some((Token::KwJlzi, i + "jlzi".spec_bytes().len()))
    } else if has_word(src, i, "jgzi") {
        Some((Token::KwJgzi, i + "jgzi".spec_bytes().len()))
    } else if has_word(src, i, "srli") {
        Some((Token::KwSrli, i + "srli".spec_bytes().len()))
    } else if has_word(src, i, "slli") {
        Some((Token::KwSlli, i + "slli".spec_bytes().len()))
    } else if has_word(src, i, "cpy") {
        Some((Token::KwCpy, i + "cpy".spec_bytes().len()))
    } else if has_word(src, i, "add") {
        Some((Token::KwAdd, i + "add".spec_bytes().len()))
    } else if has_word(src, i, "sub") {
        Some((Token::KwSub, i + "sub".spec_bytes().len()))
    } else if has_word(src, i, "mul") {
        Some((Token::KwMul, i + "mul".spec_bytes().len()))
    } else if has_word(src, i, "div") {
        Some((Token::KwDiv, i + "div".spec_bytes().len()))
    } else if has_word(src, i, "and") {
        Some((Token::KwAnd, i + "and".spec_bytes().len()))
    } else if has_word(src, i, "xor") {
        Some((Token::KwXor, i + "xor".spec_bytes().len()))
    } else if has_word(src, i, "not") {
        Some((Token::KwNot, i + "not".spec_bytes().len()))
    } else if has_word(src, i, "jil") {
        Some((Token::KwJil, i + "jil".spec_bytes().len()))
    } else if has_word(src, i, "jzi") {
        Some((Token::KwJzi, i + "jzi".spec_bytes().len()))
    } else if has_word(src, i, "srl") {
        Some((Token::KwSrl, i + "srl".spec_bytes().len()))
    } else if has_word(src, i, "sll") {
        Some((Token::KwSll, i + "sll".spec_bytes().len()))
    } else if has_word(src, i, "lwi") {
        Some((Token::KwLwI, i + "lwi".spec_bytes().len()))
    } else if has_word(src, i, "swi") {
        Some((Token::KwSwI, i + "swi".spec_bytes().len()))
    } else if has_word(src, i, "lhi") {
        Some((Token::KwLhI, i + "lhi".spec_bytes().len()))
    } else if has_word(src, i, "shi") {
        Some((Token::KwShI, i + "shi".spec_bytes().len()))
    } else if has_word(src, i, "lbi") {
        Some((Token::KwLbI, i + "lbi".spec_bytes().len()))
    } else if has_word(src, i, "sbi") {
        Some((Token::KwSbI, i + "sbi".spec_bytes().len()))
    } else if has_word(src, i, "lw") {
        Some((Token::KwLw, i + "lw".spec_bytes().len()))
    } else if has_word(src, i, "sw") {
        Some((Token::KwSw, i + "sw".spec_bytes().len()))
    } else if has_word(src, i, "lh") {
        Some((Token::KwLh, i + "lh".spec_bytes().len()))
    } else if has_word(src, i, "sh") {
        Some((Token::KwSh, i + "sh".spec_bytes().len()))
    } else if has_word(src, i, "lb") {
        Some((Token::KwLb, i + "lb".spec_bytes().len()))
    } else if has_word(src, i, "sb") {
        Some((Token::KwSb, i + "sb".spec_bytes().len()))
    } else if has_word(src, i, "li") {
        Some((Token::KwLi, i + "li".spec_bytes().len()))
    } else if has_word(src, i, "or") {
        Some((Token::KwOr, i + "or".spec_bytes().len()))
    } else if has_word(src, i, "ji") {
        Some((Token::KwJi, i + "ji".spec_bytes().len()))
    } else if has_word(src, i, "j") {
        Some((Token::KwJ, i + "j".spec_bytes().len()))
    } else {
        None
    }
}

/// The token that starts at `i`, and its end.  Of the tokens that could start
/// there the longest is taken.
#[verifier::opaque]
pub open spec fn token_at(src: Seq<u8>, i: int) -> (Token, int)
    recommends
        0 <= i < src.len(),
{
    let b = src[i];
    if is_ident_start(b) {
        let e = run_end(src, i + 1, ByteClass::Ident);
        if has_byte(src, e, 58) {
            (Token::Label, e + 1)
        } else {
            match keyword_at(src, i) {
                Some(found) => found,
                None => (Token::Error, error_end(src, i)),
            }
        }
    } else if b == 37 {
        if i + 1 < src.len() && is_ident_start(src[i + 1]) {
            (Token::AddrToLabel, run_end(src, i + 2, ByteClass::Ident))
        } else {
            (Token::Error, error_end(src, i))
        }
    } else if b == 36 {
        let e = run_end(src, i + 1, ByteClass::Lower);
        if e > i + 1 {
            if e < src.len() && is_digit(src[e]) {
                (Token::Reg, e + 1)
            } else {
                (Token::Reg, e)
            }
        } else {
            (Token::Error, error_end(src, i))
        }
    } else if b == 48 {
        if has_byte(src, i + 1, 120) && run_end(src, i + 2, ByteClass::UpperOrDigit) > i + 2 {
            (Token::Hex, run_end(src, i + 2, ByteClass::UpperOrDigit))
        } else {
            (Token::Int, i + 1)
        }
    } else if is_digit(b) {
        (Token::Int, run_end(src, i + 1, ByteClass::Digit))
    } else if b == 34 {
        match string_end(src, i + 1) {
            Some(e) => (Token::String, e),
            None => (Token::Error, error_end(src, i)),
        }
    } else if b == 46 {
        if has_word(src, i, ".i32") {
            (Token::KwMemI32, i + ".i32".spec_bytes().len())
        } else if has_word(src, i, ".str") {
            (Token::KwMemStr, i + ".str".spec_bytes().len())
        } else {
            (Token::Error, error_end(src, i))
        }
    } else if b == 44 {
        (Token::Comma, i + 1)
    } else if b == 43 {
        (Token::OpAdd, i + 1)
    } else if b == 45 {
        (Token::OpSub, i + 1)
    } else if b == 42 {
        (Token::OpMul, i + 1)
    } else if b == 47 {
        (Token::OpDiv, i + 1)
    } else if b == 40 {
        (Token::OpOpenBracket, i + 1)
    } else if b == 41 {
        (Token::OpCloseBracket, i + 1)
    } else if b == 10 {
        if has_byte(src, i + 1, 13) {
            (Token::NewLine, i + 2)
        } else {
            (Token::NewLine, i + 1)
        }
    } else if b == 13 {
        if has_byte(src, i + 1, 10) {
            (Token::NewLine, i + 2)
        } else {
            (Token::NewLine, i + 1)
        }
    } else {
        (Token::Error, error_end(src, i))
    }
}

/// A token with the half-open range of bytes that it covers.
#[derive(Debug, PartialEq, Eq, Structural, Clone, Copy)]
pub struct Lexeme {
    /// The kind of token.
    pub token: Token,
    /// Offset of the token's first byte.
    pub start: usize,
    /// Offset after the token's last byte.
    pub end: usize,
}

/// The first token at or after `pos`, with its range; `None` where only
/// blanks and comments are left.
pub open spec fn next_token(src: Seq<u8>, pos: int) -> Option<(Token, int, int)> {
    let start = skip_end(src, pos);
    if start < src.len() {
        Some((token_at(src, start).0, start, token_at(src, start).1))
    } else {
        None
    }
}

/// All tokens from `pos` on, in order.
pub open spec fn tokens_from(src: Seq<u8>, pos: int) -> Seq<(Token, int, int)>
    decreases src.len() - pos,
{
    match next_token(src, pos) {
        Some(found) => if 0 <= pos < found.2 <= src.len() {
            seq![found] + tokens_from(src, found.2)
        } else {
            seq![found]
        },
        None => Seq::empty(),
    }
}


/// A token of `tokens_from` as a lexeme.
pub open spec fn lexeme_of(found: (Token, int, int)) -> Lexeme {
    Lexeme { token: found.0, start: found.1 as usize, end: found.2 as usize }
}

/// All tokens from `pos` on, in order, as lexemes.
pub open spec fn lexemes_from(src: Seq<u8>, pos: int) -> Seq<Lexeme> {
    tokens_from(src, pos).map_values(|found: (Token, int, int)| lexeme_of(found))
}

// ---------------------------------------------------------------------------
// What holds of every token
// ---------------------------------------------------------------------------
/// Skipping blanks and comments moves forward and stays in the source.
pub proof fn lemma_skip_end(src: Seq<u8>, i: int)
    requires
        0 <= i <= src.len(),
    ensures
        i <= skip_end(src, i) <= src.len(),
    decreases src.len() - i,
{
    if i < src.len() && is_blank(src[i]) {
        lemma_skip_end(src, i + 1);
    } else if has_byte(src, i, 47) && has_byte(src, i + 1, 47) {
        let e = run_end(src, i + 2, ByteClass::NotLineFeed);
        lemma_run_end(src, i + 2, ByteClass::NotLineFeed);
        if i < e <= src.len() {
            lemma_skip_end(src, e);
        }
    }
}

/// A string literal that is closed ends after its start and in the source.
pub proof fn lemma_string_end(src: Seq<u8>, i: int)
    requires
        0 <= i <= src.len(),
    ensures
        string_end(src, i) matches Some(e) ==> i < e <= src.len(),
    decreases src.len() - i,
{
    if i < src.len() && src[i] != 34 {
        if src[i] == 92 {
            if i + 1 < src.len() && src[i + 1] != 10 {
                lemma_string_end(src, i + 2);
            }
        } else {
            lemma_string_end(src, i + 1);
        }
    }
}

/// Every token holds at least one byte and ends in the source.
pub proof fn lemma_token_at(src: Seq<u8>, i: int)
    requires
        0 <= i < src.len(),
    ensures
        i < token_at(src, i).1 <= src.len(),
{
    reveal(token_at);
    reveal(keyword_at);
    reveal(has_word);
    lemma_run_end(src, i + 1, ByteClass::Ident);
    lemma_run_end(src, i + 1, ByteClass::Lower);
    lemma_run_end(src, i + 1, ByteClass::Digit);
    lemma_run_end(src, i + 1, ByteClass::Continuation);
    if i + 2 <= src.len() {
        lemma_run_end(src, i + 2, ByteClass::Ident);
        lemma_run_end(src, i + 2, ByteClass::UpperOrDigit);
    }
    lemma_string_end(src, i + 1);
}

/// The tokens of a source hold at least one byte each, lie in the source at
/// or after the position they were looked for from, and follow one another
/// without overlap.
pub proof fn lemma_tokens_in_order(src: Seq<u8>, pos: int)
    requires
        0 <= pos <= src.len(),
    ensures
        forall|k: int|
            0 <= k < tokens_from(src, pos).len() ==> pos <= (#[trigger] tokens_from(
                src,
                pos,
            )[k]).1 < tokens_from(src, pos)[k].2 <= src.len(),
        forall|j: int, k: int|
            0 <= j < k < tokens_from(src, pos).len() ==> (#[trigger] tokens_from(src, pos)[j]).2
                <= (#[trigger] tokens_from(src, pos)[k]).1,
    decreases src.len() - pos,
{
    lemma_skip_end(src, pos);
    match next_token(src, pos) {
        Some(found) => {
            lemma_token_at(src, found.1);
            lemma_tokens_in_order(src, found.2);
            let rest = tokens_from(src, found.2);
            assert(tokens_from(src, pos) == seq![found] + rest);
            assert forall|k: int| 0 <= k < tokens_from(src, pos).len() implies pos <= (
            #[trigger] tokens_from(src, pos)[k]).1 < tokens_from(src, pos)[k].2 <= src.len() by {
                if k > 0 {
                    assert(tokens_from(src, pos)[k] == rest[k - 1]);
                }
            }
            assert forall|j: int, k: int|
                0 <= j < k < tokens_from(src, pos).len() implies (#[trigger] tokens_from(
                src,
                pos,
            )[j]).2 <= (#[trigger] tokens_from(src, pos)[k]).1 by {
                assert(tokens_from(src, pos)[k] == rest[k - 1]);
                if j > 0 {
                    assert(tokens_from(src, pos)[j] == rest[j - 1]);
                }
            }
        },
        None => {},
    }
}

// ---------------------------------------------------------------------------
// Scanning
// ---------------------------------------------------------------------------
/// Finds the end of the run of bytes of `class` that starts at `i`.
pub(crate) fn scan_run(src: &[u8], i: usize, class: ByteClass) -> (e: usize)
    requires
        i <= src@.len(),
    ensures
        e == run_end(src@, i as int, class),
        i <= e <= src@.len(),
{
    let mut k: usize = i;
    while k < src.len() && in_class(class, src[k])
        invariant
            i <= k <= src@.len(),
            run_end(src@, k as int, class) == run_end(src@, i as int, class),
        decreases src@.len() - k,
    {
        k = k + 1;
    }
    k
}

/// Finds the end of the blanks and line comments that start at `i`.
fn scan_skip(src: &[u8], i: usize) -> (e: usize)
    requires
        i <= src@.len(),
    ensures
        e == skip_end(src@, i as int),
        i <= e <= src@.len(),
{
    let mut k: usize = i;
    loop
        invariant
            i <= k <= src@.len(),
            skip_end(src@, k as int) == skip_end(src@, i as int),
        ensures
            i <= k <= src@.len(),
            k == skip_end(src@, i as int),
        decreases src@.len() - k,
    {
        if k < src.len() && is_blank(src[k]) {
            k = k + 1;
        } else if k < src.len() && src[k] == 47 && k + 1 < src.len() && src[k + 1] == 47 {
            k = scan_run(src, k + 2, ByteClass::NotLineFeed);
        } else {
            break ;
        }
    }
    k
}

/// Finds the end of the string literal whose opening quote stands just before
/// `i`; `None` for a literal that is not closed.
fn scan_string(src: &[u8], i: usize) -> (end: Option<usize>)
    requires
        i <= src@.len(),
    ensures
        end is Some <==> string_end(src@, i as int) is Some,
        end matches Some(e) ==> string_end(src@, i as int) == Some(e as int) && i < e
            <= src@.len(),
{
    let mut k: usize = i;
    loop
        invariant
            i <= k <= src@.len(),
            string_end(src@, k as int) == string_end(src@, i as int),
        decreases src@.len() - k,
    {
        if k >= src.len() {
            return None;
        } else if src[k] == 34 {
            return Some(k + 1);
        } else if src[k] == 92 {
            if k + 1 < src.len() && src[k + 1] != 10 {
                k = k + 2;
            } else {
                return None;
            }
        } else {
            k = k + 1;
        }
    }
}

/// Looks for the bytes of `word` in `src` at `i`, and gives the position after
/// them where they stand there.
fn match_word(src: &[u8], i: usize, word: &str) -> (end: Option<usize>)
    requires
        i <= src@.len(),
    ensures
        end is Some <==> has_word(src@, i as int, word),
        end matches Some(e) ==> e == i + word.spec_bytes().len() && i < e <= src@.len(),
{
    reveal(has_word);
    let bytes = word.as_bytes();
    let n = bytes.len();
    let len = src.len();
    if n == 0 || n > len - i {
        return None;
    }
    let mut k: usize = 0;
    while k < n
        invariant
            0 < n == bytes@.len(),
            bytes@ == word.spec_bytes(),
            i + n <= src@.len() <= usize::MAX,
            k <= n,
            forall|j: int| 0 <= j < k ==> src@[i + j] == bytes@[j],
        decreases n - k,
    {
        if src[i + k] != bytes[k] {
            proof {
                reveal(has_word);
                assert(src@.subrange(i as int, i + n)[k as int] == src@[i + k]);
            }
            return None;
        }
        k = k + 1;
    }
    assert(src@.subrange(i as int, i + n) =~= bytes@);
    Some(i + n)
}

/// Finds the longest instruction mnemonic that stands in `src` at `i`.
fn scan_keyword(src: &[u8], i: usize) -> (found: Option<(Token, usize)>)
    requires
        i <= src@.len(),
    ensures
        found is Some <==> keyword_at(src@, i as int) is Some,
        found matches Some(f) ==> keyword_at(src@, i as int) == Some((f.0, f.1 as int)) && i < f.1
            <= src@.len(),
{
    reveal(keyword_at);
    if let Some(e) = match_word(src, i, "syscalli") {
        Some((Token::KwSyscalli, e))
    } else if let Some(e) = match_word(src, i, "addi") {
        Some((Token::KwAddI, e))
    } else if let Some(e) = match_word(src, i, "subi") {
        Some((Token::KwSubI, e))
    } else if let Some(e) = match_word(src, i, "muli") {
        Some((Token::KwMulI, e))
    } else if let Some(e) = match_word(src, i, "divi") {
        Some((Token::KwDivI, e))
    } else if let Some(e) = match_word(src, i, "jnzi") {
        Some((Token::KwJnzi, e))
    } else if let Some(e) = match_word(src, i, "jlzi") {
        Some((Token::KwJlzi, e))
    } else if let Some(e) = match_word(src, i, "jgzi") {
        Some((Token::KwJgzi, e))
    } else if let Some(e) = match_word(src, i, "srli") {
        Some((Token::KwSrli, e))
    } else if let Some(e) = match_word(src, i, "slli") {
        Some((Token::KwSlli, e))
    } else if let Some(e) = match_word(src, i, "cpy") {
        Some((Token::KwCpy, e))
    } else if let Some(e) = match_word(src, i, "add") {
        Some((Token::KwAdd, e))
    } else if let Some(e) = match_word(src, i, "sub") {
        Some((Token::KwSub, e))
    } else if let Some(e) = match_word(src, i, "mul") {
        Some((Token::KwMul, e))
    } else if let Some(e) = match_word(src, i, "div") {
        Some((Token::KwDiv, e))
    } else if let Some(e) = match_word(src, i, "and") {
        Some((Token::KwAnd, e))
    } else if let Some(e) = match_word(src, i, "xor") {
        Some((Token::KwXor, e))
    } else if let Some(e) = match_word(src, i, "not") {
        Some((Token::KwNot, e))
    } else if let Some(e) = match_word(src, i, "jil") {
        Some((Token::KwJil, e))
    } else if let Some(e) = match_word(src, i, "jzi") {
        Some((Token::KwJzi, e))
    } else if let Some(e) = match_word(src, i, "srl") {
        Some((Token::KwSrl, e))
    } else if let Some(e) = match_word(src, i, "sll") {
        Some((Token::KwSll, e))
    } else if let Some(e) = match_word(src, i, "lwi") {
        Some((Token::KwLwI, e))
    } else if let Some(e) = match_word(src, i, "swi") {
        Some((Token::KwSwI, e))
    } else if let Some(e) = match_word(src, i, "lhi") {
        Some((Token::KwLhI, e))
    } else if let Some(e) = match_word(src, i, "shi") {
        Some((Token::KwShI, e))
    } else if let Some(e) = match_word(src, i, "lbi") {
        Some((Token::KwLbI, e))
    } else if let Some(e) = match_word(src, i, "sbi") {
        Some((Token::KwSbI, e))
    } else if let Some(e) = match_word(src, i, "lw") {
        Some((Token::KwLw, e))
    } else if let Some(e) = match_word(src, i, "sw") {
        Some((Token::KwSw, e))
    } else if let Some(e) = match_word(src, i, "lh") {
        Some((Token::KwLh, e))
    } else if let Some(e) = match_word(src, i, "sh") {
        Some((Token::KwSh, e))
    } else if let Some(e) = match_word(src, i, "lb") {
        Some((Token::KwLb, e))
    } else if let Some(e) = match_word(src, i, "sb") {
        Some((Token::KwSb, e))
    } else if let Some(e) = match_word(src, i, "li") {
        Some((Token::KwLi, e))
    } else if let Some(e) = match_word(src, i, "or") {
        Some((Token::KwOr, e))
    } else if let Some(e) = match_word(src, i, "ji") {
        Some((Token::KwJi, e))
    } else if let Some(e) = match_word(src, i, "j") {
        Some((Token::KwJ, e))
    } else {
        None
    }
}

/// Finds the end of the error token at `i`.
fn scan_error(src: &[u8], i: usize) -> (e: usize)
    requires
        i < src@.len(),
    ensures
        e == error_end(src@, i as int),
        i < e <= src@.len(),
{
    let len = src.len();
    scan_run(src, i + 1, ByteClass::Continuation)
}

/// Finds the token that starts at `i`, and its end.
fn scan_token(src: &[u8], i: usize) -> (found: (Token, usize))
    requires
        i < src@.len(),
    ensures
        token_at(src@, i as int) == (found.0, found.1 as int),
        i < found.1 <= src@.len(),
{
    reveal(token_at);
    let len = src.len();
    let b = src[i];
    if is_ident_start(b) {
        let e = scan_run(src, i + 1, ByteClass::Ident);
        if e < src.len() && src[e] == 58 {
            (Token::Label, e + 1)
        } else {
            match scan_keyword(src, i) {
                Some(found) => found,
                None => (Token::Error, scan_error(src, i)),
            }
        }
    } else if b == 37 {
        if i + 1 < src.len() && is_ident_start(src[i + 1]) {
            (Token::AddrToLabel, scan_run(src, i + 2, ByteClass::Ident))
        } else {
            (Token::Error, scan_error(src, i))
        }
    } else if b == 36 {
        let e = scan_run(src, i + 1, ByteClass::Lower);
        if e > i + 1 {
            if e < src.len() && is_digit(src[e]) {
                (Token::Reg, e + 1)
            } else {
                (Token::Reg, e)
            }
        } else {
            (Token::Error, scan_error(src, i))
        }
    } else if b == 48 {
        if i + 1 < src.len() && src[i + 1] == 120 {
            let e = scan_run(src, i + 2, ByteClass::UpperOrDigit);
            if e > i + 2 {
                (Token::Hex, e)
            } else {
                (Token::Int, i + 1)
            }
        } else {
            (Token::Int, i + 1)
        }
    } else if is_digit(b) {
        (Token::Int, scan_run(src, i + 1, ByteClass::Digit))
    } else if b == 34 {
        match scan_string(src, i + 1) {
            Some(e) => (Token::String, e),
            None => (Token::Error, scan_error(src, i)),
        }
    } else if b == 46 {
        if let Some(e) = match_word(src, i, ".i32") {
            (Token::KwMemI32, e)
        } else if let Some(e) = match_word(src, i, ".str") {
            (Token::KwMemStr, e)
        } else {
            (Token::Error, scan_error(src, i))
        }
    } else if b == 44 {
        (Token::Comma, i + 1)
    } else if b == 43 {
        (Token::OpAdd, i + 1)
    } else if b == 45 {
        (Token::OpSub, i + 1)
    } else if b == 42 {
        (Token::OpMul, i + 1)
    } else if b == 47 {
        (Token::OpDiv, i + 1)
    } else if b == 40 {
        (Token::OpOpenBracket, i + 1)
    } else if b == 41 {
        (Token::OpCloseBracket, i + 1)
    } else if b == 10 {
        if i + 1 < src.len() && src[i + 1] == 13 {
            (Token::NewLine, i + 2)
        } else {
            (Token::NewLine, i + 1)
        }
    } else if b == 13 {
        if i + 1 < src.len() && src[i + 1] == 10 {
            (Token::NewLine, i + 2)
        } else {
            (Token::NewLine, i + 1)
        }
    } else {
        (Token::Error, scan_error(src, i))
    }
}

// ---------------------------------------------------------------------------
// The lexer
// ---------------------------------------------------------------------------
/// Hands out the tokens of a source one by one.
pub struct Lexer<'a> {
    source: &'a [u8],
    token_start: usize,
    token_end: usize,
}

impl Token {
    /// A lexer at the start of `source`.
    pub fn lexer<'a>(source: &'a str) -> (lex: Lexer<'a>)
        ensures
            lex.source() == source.spec_bytes(),
            lex.token_start() == 0,
            lex.token_end() == 0,
    {
        Lexer::new(source.as_bytes())
    }
}

impl<'a> Lexer<'a> {
    #[verifier::type_invariant]
    spec fn in_source(&self) -> bool {
        self.token_start <= self.token_end <= self.source@.len()
    }

    /// The bytes of the source.
    pub closed spec fn source(&self) -> Seq<u8> {
        self.source@
    }

    /// Offset of the first byte of the token handed out last.
    pub closed spec fn token_start(&self) -> int {
        self.token_start as int
    }

    /// Offset after the last byte of the token handed out last: where the
    /// search for the next token starts.
    pub closed spec fn token_end(&self) -> int {
        self.token_end as int
    }

    /// A lexer at the start of `source`.
    pub fn new(source: &'a [u8]) -> (lex: Lexer<'a>)
        ensures
            lex.source() == source@,
            lex.token_start() == 0,
            lex.token_end() == 0,
    {
        Lexer { source, token_start: 0, token_end: 0 }
    }

    /// The whole source.
    pub fn input(&self) -> (bytes: &'a [u8])
        ensures
            bytes@ == self.source(),
    {
        self.source
    }

    /// Hands out the next token, or `None` at the end of the source, where the
    /// token's range becomes the empty range at the end.
    pub fn next(&mut self) -> (token: Option<Token>)
        ensures
            final(self).source() == old(self).source(),
            0 <= final(self).token_start() <= final(self).token_end() <= old(self).source().len(),
            match next_token(old(self).source(), old(self).token_end()) {
                Some(found) => token == Some(found.0) && final(self).token_start() == found.1
                    && final(self).token_end() == found.2 && old(self).token_end() <= found.1
                    < found.2,
                None => token is None && final(self).token_start() == old(self).source().len()
                    && final(self).token_end() == old(self).source().len(),
            },
    {
        proof {
            use_type_invariant(&*self);
        }
        let start = scan_skip(self.source, self.token_end);
        if start < self.source.len() {
            let (token, end) = scan_token(self.source, start);
            self.token_end = end;
            self.token_start = start;
            Some(token)
        } else {
            self.token_end = start;
            self.token_start = start;
            None
        }
    }

    /// The range of bytes of the token handed out last.
    pub fn span(&self) -> (range: std::ops::Range<usize>)
        ensures
            range.start == self.token_start(),
            range.end == self.token_end(),
            range.start <= range.end <= self.source().len(),
    {
        proof {
            use_type_invariant(self);
        }
        self.token_start..self.token_end
    }

    /// The bytes of the token handed out last.
    pub fn slice(&self) -> (bytes: &'a [u8])
        ensures
            bytes@ == self.source().subrange(self.token_start(), self.token_end()),
    {
        proof {
            use_type_invariant(self);
        }
        vstd::slice::slice_subrange(self.source, self.token_start, self.token_end)
    }

    /// Hands out all tokens that are left, with their ranges.
    pub fn tokenize(&mut self) -> (lexemes: Vec<Lexeme>)
        ensures
            final(self).source() == old(self).source(),
            lexemes@ == lexemes_from(old(self).source(), old(self).token_end()),
            forall|k: int|
                0 <= k < lexemes@.len() ==> (#[trigger] lexemes@[k]).start < lexemes@[k].end
                    <= old(self).source().len(),
    {
        let mut lexemes: Vec<Lexeme> = Vec::new();
        let ghost src = self.source();
        let ghost first = self.token_end();
        proof {
            use_type_invariant(&*self);
        }
        loop
            invariant
                self.source() == src,
                0 <= self.token_end() <= src.len(),
                lexemes_from(src, first)
                    == lexemes@ + lexemes_from(src, self.token_end()),
                forall|k: int|
                    0 <= k < lexemes@.len() ==> (#[trigger] lexemes@[k]).start < lexemes@[k].end
                        <= src.len(),
            ensures
                lexemes@ == lexemes_from(src, first),
                self.source() == src,
                forall|k: int|
                    0 <= k < lexemes@.len() ==> (#[trigger] lexemes@[k]).start < lexemes@[k].end
                        <= src.len(),
            decreases src.len() - self.token_end(),
        {
            let ghost before = self.token_end();
            match self.next() {
                Some(token) => {
                    let span = self.span();
                    let ghost rest = tokens_from(src, self.token_end());
                    let ghost found = (token, span.start as int, span.end as int);
                    assert(tokens_from(src, before) == seq![found] + rest);
                    assert(lexemes_from(src, before) =~= seq![lexeme_of(found)] + lexemes_from(
                        src,
                        self.token_end(),
                    ));
                    lexemes.push(Lexeme { token, start: span.start, end: span.end });
                },
                None => {
                    assert(tokens_from(src, before) == Seq::<(Token, int, int)>::empty());
                    assert(lexemes_from(src, before) =~= Seq::<Lexeme>::empty());
                    break ;
                },
            }
        }
        lexemes
    }
}

} // verus!
