use vstd::prelude::*;
use vstd::string::StringSliceAdditionalSpecFns;
use crate::grammar::{LiteralValue, OperatorType, OwnedSlice};

verus! {

/// A token of the language, as the parser consumes them.
#[derive(Debug, PartialEq)]
pub enum Token {
    Identifier(OwnedSlice),
    Literal(LiteralValue),
    Operator(OperatorType),
    This,
    Function,
    Class,
    Extends,
    Static,
    Var,
    Let,
    Const,
    Return,
    Break,
    Throw,
    If,
    Else,
    While,
    For,
    In,
    Of,
    Colon,
    Semicolon,
    Comma,
    ParenOn,
    ParenOff,
    BracketOn,
    BracketOff,
    BlockOn,
    BlockOff,
    LineTermination,
}

/// Why a source text could not be read as tokens.
#[derive(Debug, Clone, Copy, PartialEq, Eq, Structural)]
pub enum LexError {
    /// A byte that starts no token.
    UnexpectedCharacter,
    /// A string literal or block comment that is not closed.
    UnterminatedLiteral,
}

pub open spec fn is_digit(b: u8) -> bool {
    48 <= b <= 57
}

/// A byte that can start a name: a letter, `_` or `$`, or any byte of a
/// non-ASCII character.
pub open spec fn is_name_start(b: u8) -> bool {
    (65 <= b <= 90) || (97 <= b <= 122) || b == 95 || b == 36 || b >= 128
}

pub open spec fn is_name_part(b: u8) -> bool {
    is_name_start(b) || is_digit(b)
}

fn digit(b: u8) -> (r: bool)
    ensures
        r == is_digit(b),
{
    48 <= b && b <= 57
}

fn name_start(b: u8) -> (r: bool)
    ensures
        r == is_name_start(b),
{
    (65 <= b && b <= 90) || (97 <= b && b <= 122) || b == 95 || b == 36 || b >= 128
}

fn name_part(b: u8) -> (r: bool)
    ensures
        r == is_name_part(b),
{
    name_start(b) || digit(b)
}

/// The copy of `src[start..end]`.
fn slice_of(src: &[u8], start: usize, end: usize) -> (r: OwnedSlice)
    requires
        start <= end <= src@.len(),
    ensures
        r@ == src@.subrange(start as int, end as int),
{
    let mut bytes: Vec<u8> = Vec::new();
    let mut i: usize = start;
    while i < end
        invariant
            start <= i <= end <= src@.len(),
            bytes@ == src@.subrange(start as int, i as int),
        decreases end - i,
    {
        bytes.push(src[i]);
        i += 1;
        assert(bytes@ =~= src@.subrange(start as int, i as int));
    }
    OwnedSlice::from_bytes(bytes.as_slice())
}

/// The token that the word `w` stands for when it is a keyword, a word
/// operator or a word literal.
pub open spec fn keyword(w: Seq<u8>) -> Option<Token> {
    if w == "this".spec_bytes() {
        Some(Token::This)
    } else if w == "function".spec_bytes() {
        Some(Token::Function)
    } else if w == "class".spec_bytes() {
        Some(Token::Class)
    } else if w == "extends".spec_bytes() {
        Some(Token::Extends)
    } else if w == "static".spec_bytes() {
        Some(Token::Static)
    } else if w == "var".spec_bytes() {
        Some(Token::Var)
    } else if w == "let".spec_bytes() {
        Some(Token::Let)
    } else if w == "const".spec_bytes() {
        Some(Token::Const)
    } else if w == "return".spec_bytes() {
        Some(Token::Return)
    } else if w == "break".spec_bytes() {
        Some(Token::Break)
    } else if w == "throw".spec_bytes() {
        Some(Token::Throw)
    } else if w == "if".spec_bytes() {
        Some(Token::If)
    } else if w == "else".spec_bytes() {
        Some(Token::Else)
    } else if w == "while".spec_bytes() {
        Some(Token::While)
    } else if w == "for".spec_bytes() {
        Some(Token::For)
    } else if w == "of".spec_bytes() {
        Some(Token::Of)
    } else if w == "in".spec_bytes() {
        Some(Token::Operator(OperatorType::In))
    } else if w == "new".spec_bytes() {
        Some(Token::Operator(OperatorType::New))
    } else if w == "typeof".spec_bytes() {
        Some(Token::Operator(OperatorType::Typeof))
    } else if w == "void".spec_bytes() {
        Some(Token::Operator(OperatorType::Void))
    } else if w == "delete".spec_bytes() {
        Some(Token::Operator(OperatorType::Delete))
    } else if w == "instanceof".spec_bytes() {
        Some(Token::Operator(OperatorType::Instanceof))
    } else if w == "true".spec_bytes() {
        Some(Token::Literal(LiteralValue::LiteralTrue))
    } else if w == "false".spec_bytes() {
        Some(Token::Literal(LiteralValue::LiteralFalse))
    } else if w == "null".spec_bytes() {
        Some(Token::Literal(LiteralValue::LiteralNull))
    } else if w == "undefined".spec_bytes() {
        Some(Token::Literal(LiteralValue::LiteralUndefined))
    } else {
        None
    }
}

/// The token that a name stands for: a keyword, a word operator, a word
/// literal, or an identifier.
pub fn word_token(word: OwnedSlice) -> (r: Token)
    ensures
        r == (match keyword(word@) {
            Some(t) => t,
            None => Token::Identifier(word),
        }),
{
    if word.is("this") {
        Token::This
    } else if word.is("function") {
        Token::Function
    } else if word.is("class") {
        Token::Class
    } else if word.is("extends") {
        Token::Extends
    } else if word.is("static") {
        Token::Static
    } else if word.is("var") {
        Token::Var
    } else if word.is("let") {
        Token::Let
    } else if word.is("const") {
        Token::Const
    } else if word.is("return") {
        Token::Return
    } else if word.is("break") {
        Token::Break
    } else if word.is("throw") {
        Token::Throw
    } else if word.is("if") {
        Token::If
    } else if word.is("else") {
        Token::Else
    } else if word.is("while") {
        Token::While
    } else if word.is("for") {
        Token::For
    } else if word.is("of") {
        Token::Of
    } else if word.is("in") {
        Token::Operator(OperatorType::In)
    } else if word.is("new") {
        Token::Operator(OperatorType::New)
    } else if word.is("typeof") {
        Token::Operator(OperatorType::Typeof)
    } else if word.is("void") {
        Token::Operator(OperatorType::Void)
    } else if word.is("delete") {
        Token::Operator(OperatorType::Delete)
    } else if word.is("instanceof") {
        Token::Operator(OperatorType::Instanceof)
    } else if word.is("true") {
        Token::Literal(LiteralValue::LiteralTrue)
    } else if word.is("false") {
        Token::Literal(LiteralValue::LiteralFalse)
    } else if word.is("null") {
        Token::Literal(LiteralValue::LiteralNull)
    } else if word.is("undefined") {
        Token::Literal(LiteralValue::LiteralUndefined)
    } else {
        Token::Identifier(word)
    }
}

/// The byte `k` places after `i`, or 0 past the end.
fn at(src: &[u8], i: usize, k: usize) -> (r: u8)
    requires
        i <= src@.len(),
    ensures
        i + k < src@.len() ==> r == src@[i + k],
        i + k >= src@.len() ==> r == 0,
{
    if k < src.len() - i {
        src[i + k]
    } else {
        0
    }
}

/// The punctuation or operator that starts at `i`, longest first, and its
/// length in bytes.
fn punctuation(src: &[u8], i: usize) -> (r: Option<(Token, usize)>)
    requires
        i < src@.len(),
    ensures
        r matches Some((_, n)) ==> 1 <= n && i + n <= src@.len() && forall|k: int|
            i <= k < i + n ==> src@[k] != 10,
        r matches Some((t, _)) ==> !(t is LineTermination),
{
    let a = src[i];
    let b = at(src, i, 1);
    let c = at(src, i, 2);
    let d = at(src, i, 3);
    let (t, n): (Token, usize) = if a == 40 {
        (Token::ParenOn, 1)
    } else if a == 41 {
        (Token::ParenOff, 1)
    } else if a == 91 {
        (Token::BracketOn, 1)
    } else if a == 93 {
        (Token::BracketOff, 1)
    } else if a == 123 {
        (Token::BlockOn, 1)
    } else if a == 125 {
        (Token::BlockOff, 1)
    } else if a == 59 {
        (Token::Semicolon, 1)
    } else if a == 44 {
        (Token::Comma, 1)
    } else if a == 58 {
        (Token::Colon, 1)
    } else if a == 63 {
        (Token::Operator(OperatorType::Conditional), 1)
    } else if a == 126 {
        (Token::Operator(OperatorType::BitwiseNot), 1)
    } else if a == 46 {
        if b == 46 && c == 46 {
            (Token::Operator(OperatorType::Spread), 3)
        } else {
            (Token::Operator(OperatorType::Accessor), 1)
        }
    } else if a == 61 {
        if b == 61 && c == 61 {
            (Token::Operator(OperatorType::StrictEquality), 3)
        } else if b == 61 {
            (Token::Operator(OperatorType::Equality), 2)
        } else if b == 62 {
            (Token::Operator(OperatorType::FatArrow), 2)
        } else {
            (Token::Operator(OperatorType::Assign), 1)
        }
    } else if a == 33 {
        if b == 61 && c == 61 {
            (Token::Operator(OperatorType::StrictInequality), 3)
        } else if b == 61 {
            (Token::Operator(OperatorType::Inequality), 2)
        } else {
            (Token::Operator(OperatorType::LogicalNot), 1)
        }
    } else if a == 43 {
        if b == 43 {
            (Token::Operator(OperatorType::Increment), 2)
        } else if b == 61 {
            (Token::Operator(OperatorType::AddAssign), 2)
        } else {
            (Token::Operator(OperatorType::Addition), 1)
        }
    } else if a == 45 {
        if b == 45 {
            (Token::Operator(OperatorType::Decrement), 2)
        } else if b == 61 {
            (Token::Operator(OperatorType::SubstractAssign), 2)
        } else {
            (Token::Operator(OperatorType::Substraction), 1)
        }
    } else if a == 42 {
        if b == 42 && c == 61 {
            (Token::Operator(OperatorType::ExponentAssign), 3)
        } else if b == 42 {
            (Token::Operator(OperatorType::Exponent), 2)
        } else if b == 61 {
            (Token::Operator(OperatorType::MultiplyAssign), 2)
        } else {
            (Token::Operator(OperatorType::Multiplication), 1)
        }
    } else if a == 47 {
        if b == 61 {
            (Token::Operator(OperatorType::DivideAssign), 2)
        } else {
            (Token::Operator(OperatorType::Division), 1)
        }
    } else if a == 37 {
        if b == 61 {
            (Token::Operator(OperatorType::RemainderAssign), 2)
        } else {
            (Token::Operator(OperatorType::Remainder), 1)
        }
    } else if a == 60 {
        if b == 60 && c == 61 {
            (Token::Operator(OperatorType::BSLAssign), 3)
        } else if b == 60 {
            (Token::Operator(OperatorType::BitShiftLeft), 2)
        } else if b == 61 {
            (Token::Operator(OperatorType::LesserEquals), 2)
        } else {
            (Token::Operator(OperatorType::Lesser), 1)
        }
    } else if a == 62 {
        if b == 62 && c == 62 && d == 61 {
            (Token::Operator(OperatorType::UBSRAssign), 4)
        } else if b == 62 && c == 62 {
            (Token::Operator(OperatorType::UBitShiftRight), 3)
        } else if b == 62 && c == 61 {
            (Token::Operator(OperatorType::BSRAssign), 3)
        } else if b == 62 {
            (Token::Operator(OperatorType::BitShiftRight), 2)
        } else if b == 61 {
            (Token::Operator(OperatorType::GreaterEquals), 2)
        } else {
            (Token::Operator(OperatorType::Greater), 1)
        }
    } else if a == 38 {
        if b == 38 {
            (Token::Operator(OperatorType::LogicalAnd), 2)
        } else if b == 61 {
            (Token::Operator(OperatorType::BitAndAssign), 2)
        } else {
            (Token::Operator(OperatorType::BitwiseAnd), 1)
        }
    } else if a == 124 {
        if b == 124 {
            (Token::Operator(OperatorType::LogicalOr), 2)
        } else if b == 61 {
            (Token::Operator(OperatorType::BitOrAssign), 2)
        } else {
            (Token::Operator(OperatorType::BitwiseOr), 1)
        }
    } else if a == 94 {
        if b == 61 {
            (Token::Operator(OperatorType::BitXorAssign), 2)
        } else {
            (Token::Operator(OperatorType::BitwiseXor), 1)
        }
    } else {
        return None;
    };
    Some((t, n))
}

/// The value of a run of decimal digits.
pub open spec fn digits_value(s: Seq<u8>) -> nat
    decreases s.len(),
{
    if s.len() == 0 {
        0
    } else {
        digits_value(s.drop_last()) * 10 + (s.last() - 48) as nat
    }
}

/// Reads a number starting at `start`: a run of digits whose value fits 64 bits
/// becomes an integer literal; anything else (a fraction, an exponent, a larger
/// value) keeps its text. Returns the literal and where it ends.
fn number(src: &[u8], start: usize) -> (r: (LiteralValue, usize))
    requires
        start < src@.len(),
        is_digit(src@[start as int]) || src@[start as int] == 46,
    ensures
        start < r.1 <= src@.len(),
        forall|k: int| start <= k < r.1 ==> src@[k] != 10,
        r.0 is LiteralInteger || r.0 is LiteralFloat,
        r.0 matches LiteralValue::LiteralInteger(v) ==> v == digits_value(
            src@.subrange(start as int, r.1 as int),
        ) && forall|k: int| start <= k < r.1 ==> is_digit(#[trigger] src@[k]),
        r.0 matches LiteralValue::LiteralFloat(t) ==> t@ == src@.subrange(
            start as int,
            r.1 as int,
        ),
{
    let mut i: usize = start;
    let mut value: u64 = 0;
    let mut fits = true;
    while i < src.len() && digit(src[i])
        invariant
            start <= i <= src@.len(),
            forall|k: int| start <= k < i ==> is_digit(#[trigger] src@[k]),
            fits ==> value == digits_value(src@.subrange(start as int, i as int)),
        decreases src@.len() - i,
    {
        let d = (src[i] - 48) as u64;
        assert(src@.subrange(start as int, i + 1).drop_last() =~= src@.subrange(
            start as int,
            i as int,
        ));
        if fits && value <= (u64::MAX - d) / 10 {
            assert(value * 10 + d <= u64::MAX) by (nonlinear_arith)
                requires
                    value <= (u64::MAX - d) / 10,
                    d <= 9,
            ;
            value = value * 10 + d;
        } else {
            fits = false;
        }
        i += 1;
    }
    let digits_end = i;
    let mut integer = true;
    if i < src.len() && src[i] == 46 {
        integer = false;
        i += 1;
        while i < src.len() && digit(src[i])
            invariant
                start < i <= src@.len(),
                forall|k: int| start <= k < i ==> src@[k] != 10,
            decreases src@.len() - i,
        {
            i += 1;
        }
    }
    if i < src.len() && (src[i] == 101 || src[i] == 69) {
        let mut j = i + 1;
        if j < src.len() && (src[j] == 43 || src[j] == 45) {
            j += 1;
        }
        if j < src.len() && digit(src[j]) {
            integer = false;
            i = j;
            while i < src.len() && digit(src[i])
                invariant
                    start < i <= src@.len(),
                    forall|k: int| start <= k < i ==> src@[k] != 10,
                decreases src@.len() - i,
            {
                i += 1;
            }
        }
    }
    if integer && fits {
        assert(i == digits_end);
        (LiteralValue::LiteralInteger(value), i)
    } else {
        (LiteralValue::LiteralFloat(slice_of(src, start, i)), i)
    }
}

/// The number of newline bytes in `s`.
pub open spec fn newlines(s: Seq<u8>) -> nat
    decreases s.len(),
{
    if s.len() == 0 {
        0
    } else {
        newlines(s.drop_last()) + if s.last() == 10 {
            1nat
        } else {
            0nat
        }
    }
}

/// The number of line-break tokens in `ts`.
pub open spec fn line_breaks(ts: Seq<Token>) -> nat
    decreases ts.len(),
{
    if ts.len() == 0 {
        0
    } else {
        line_breaks(ts.drop_last()) + if ts.last() is LineTermination {
            1nat
        } else {
            0nat
        }
    }
}

proof fn lemma_newlines_step(s: Seq<u8>, j: int)
    requires
        0 <= j < s.len(),
    ensures
        newlines(s.subrange(0, j + 1)) == newlines(s.subrange(0, j)) + if s[j] == 10 {
            1nat
        } else {
            0nat
        },
{
    assert(s.subrange(0, j + 1).drop_last() =~= s.subrange(0, j));
}

proof fn lemma_newlines_none(s: Seq<u8>, a: int, b: int)
    requires
        0 <= a <= b <= s.len(),
        forall|k: int| a <= k < b ==> s[k] != 10,
    ensures
        newlines(s.subrange(0, b)) == newlines(s.subrange(0, a)),
    decreases b - a,
{
    if b > a {
        lemma_newlines_none(s, a, b - 1);
        lemma_newlines_step(s, b - 1);
    }
}

proof fn lemma_line_breaks_push(ts: Seq<Token>, t: Token)
    ensures
        line_breaks(ts.push(t)) == line_breaks(ts) + if t is LineTermination {
            1nat
        } else {
            0nat
        },
{
    assert(ts.push(t).drop_last() =~= ts);
}

/// Reads the tokens of a source text. Blanks and comments are dropped; each
/// line break is a `LineTermination` token.
pub fn tokenize(source: &str) -> (r: Result<Vec<Token>, LexError>)
    ensures
        source.spec_bytes().len() == 0 ==> (r matches Ok(t) && t@.len() == 0),
        r matches Ok(t) ==> line_breaks(t@) == newlines(source.spec_bytes()),
{
    let src = source.as_bytes();
    let mut tokens: Vec<Token> = Vec::new();
    let mut i: usize = 0;
    while i < src.len()
        invariant
            i <= src@.len(),
            src@ == source.spec_bytes(),
            src@.len() == 0 ==> tokens@.len() == 0,
            line_breaks(tokens@) == newlines(src@.subrange(0, i as int)),
        decreases src@.len() - i,
    {
        let b = src[i];
        let ghost before = tokens@;
        proof {
            lemma_newlines_step(src@, i as int);
        }
        if b == 10 {
            tokens.push(Token::LineTermination);
            proof {
                lemma_line_breaks_push(before, Token::LineTermination);
            }
            i += 1;
        } else if b == 32 || b == 9 || b == 11 || b == 12 || b == 13 {
            i += 1;
        } else if b == 47 && at(src, i, 1) == 47 {
            let mut j = i + 2;
            while j < src.len() && src[j] != 10
                invariant
                    i < j <= src@.len(),
                    forall|k: int| i <= k < j ==> src@[k] != 10,
                decreases src@.len() - j,
            {
                j += 1;
            }
            proof {
                lemma_newlines_none(src@, i as int, j as int);
            }
            i = j;
        } else if b == 47 && at(src, i, 1) == 42 {
            let mut j = i + 2;
            let mut closed = false;
            let mut end: usize = 0;
            proof {
                lemma_newlines_none(src@, i as int, i + 2);
            }
            while j < src.len()
                invariant_except_break
                    !closed,
                invariant
                    i + 2 <= j <= src@.len(),
                    i < src@.len(),
                    !closed ==> line_breaks(tokens@) == newlines(src@.subrange(0, j as int)),
                ensures
                    closed ==> i < end <= src@.len() && line_breaks(tokens@) == newlines(
                        src@.subrange(0, end as int),
                    ),
                decreases src@.len() - j,
            {
                let ghost inner = tokens@;
                proof {
                    lemma_newlines_step(src@, j as int);
                }
                if src[j] == 42 && at(src, j, 1) == 47 {
                    assert(j + 1 < src@.len());
                    proof {
                        lemma_newlines_step(src@, j + 1);
                    }
                    closed = true;
                    end = j + 2;
                    break;
                }
                if src[j] == 10 {
                    tokens.push(Token::LineTermination);
                    proof {
                        lemma_line_breaks_push(inner, Token::LineTermination);
                    }
                }
                j += 1;
            }
            if !closed {
                return Err(LexError::UnterminatedLiteral);
            }
            i = end;
        } else if name_start(b) {
            let mut j = i + 1;
            while j < src.len() && name_part(src[j])
                invariant
                    i < j <= src@.len(),
                    forall|k: int| i <= k < j ==> src@[k] != 10,
                decreases src@.len() - j,
            {
                j += 1;
            }
            let t = word_token(slice_of(src, i, j));
            proof {
                lemma_newlines_none(src@, i as int, j as int);
                lemma_line_breaks_push(before, t);
            }
            tokens.push(t);
            i = j;
        } else if digit(b) || (b == 46 && digit(at(src, i, 1))) {
            let (value, end) = number(src, i);
            proof {
                lemma_newlines_none(src@, i as int, end as int);
                lemma_line_breaks_push(before, Token::Literal(value));
            }
            tokens.push(Token::Literal(value));
            i = end;
        } else if b == 34 || b == 39 {
            let mut j = i + 1;
            let mut closed = false;
            let mut end: usize = 0;
            while j < src.len()
                invariant_except_break
                    !closed,
                invariant
                    i < j,
                    i < src@.len(),
                    b == 34 || b == 39,
                    j <= src@.len() + 1,
                    forall|k: int| i <= k < j && k < src@.len() ==> src@[k] != 10,
                ensures
                    closed ==> i < end <= src@.len() && forall|k: int|
                        i <= k < end ==> src@[k] != 10,
                decreases src@.len() + 1 - j,
            {
                if src[j] == b {
                    closed = true;
                    end = j + 1;
                    break;
                }
                if src[j] == 10 {
                    break;
                }
                if src[j] == 92 {
                    j += 1;
                    if j >= src.len() || src[j] == 10 {
                        break;
                    }
                }
                j += 1;
            }
            if !closed {
                return Err(LexError::UnterminatedLiteral);
            }
            let t = Token::Literal(LiteralValue::LiteralString(slice_of(src, i, end)));
            proof {
                lemma_newlines_none(src@, i as int, end as int);
                lemma_line_breaks_push(before, t);
            }
            tokens.push(t);
            i = end;
        } else {
            match punctuation(src, i) {
                Some((t, n)) => {
                    proof {
                        lemma_newlines_none(src@, i as int, i + n);
                        lemma_line_breaks_push(before, t);
                    }
                    tokens.push(t);
                    i = i + n;
                },
                None => {
                    return Err(LexError::UnexpectedCharacter);
                },
            }
        }
    }
    assert(src@.subrange(0, i as int) =~= src@);
    Ok(tokens)
}

} // verus!
