use vstd::prelude::*;
use crate::codegen::{
    class_member_ok, declarator_ok, expr_ok, is_loop_head, member_ok, opt_expr_ok, program_ok,
    stmt_ok,
};
use crate::grammar::{
    ClassMember, Expression, LiteralValue, ObjectMember, OperatorType, OwnedSlice, Parameter,
    Program, Statement, VariableDeclarationKind, VariableDeclarator,
};
use crate::lexer::{tokenize, LexError, Token};

verus! {

broadcast use vstd::std_specs::vec::group_vec_axioms;

/// Why a source text is not a program.
#[derive(Debug, Clone, Copy, PartialEq, Eq, Structural)]
pub enum ParseError {
    /// The text could not be read as tokens.
    LexicalError(LexError),
    /// A token that no production accepts where it stands.
    UnexpectedToken,
    /// The tokens ran out in the middle of a production.
    UnexpectedEnd,
    /// What stands before `=>` is not a list of names.
    InvalidArrowParameters,
}

/// Whether `p`, found before `=>`, can be read as a parameter list: nothing, a
/// name, or a parenthesized sequence of names.
pub open spec fn coercible(p: Option<Expression>) -> bool {
    match p {
        None => true,
        Some(Expression::Identifier(_)) => true,
        Some(Expression::Sequence(list)) => forall|i: int|
            0 <= i < list.len() ==> (#[trigger] list@[i]) is Identifier,
        _ => false,
    }
}

/// The parameter names that a coercible `p` gives, in order.
pub open spec fn param_names(p: Option<Expression>) -> Seq<Seq<u8>> {
    match p {
        Some(Expression::Identifier(name)) => seq![name@],
        Some(Expression::Sequence(list)) => Seq::new(
            list.len() as nat,
            |i: int| list@[i]->Identifier_0@,
        ),
        _ => Seq::empty(),
    }
}

/// The shape that the parser gives every expression: binary nodes hold infix
/// operators, prefix nodes prefix operators, postfix nodes `++` or `--`, and the
/// body of an arrow function is an expression statement or a block.
pub open spec fn wf_expr(e: Expression) -> bool
    decreases e,
{
    match e {
        Expression::Array(items) => forall|i: int| 0 <= i < items.len() ==> wf_expr(#[trigger] items@[i]),
        Expression::Sequence(items) => forall|i: int| 0 <= i < items.len() ==> wf_expr(#[trigger] items@[i]),
        Expression::Object(ms) => forall|i: int| 0 <= i < ms.len() ==> wf_member(#[trigger] ms@[i]),
        Expression::Member { object, .. } => wf_expr(*object),
        Expression::ComputedMember { object, property } => wf_expr(*object) && wf_expr(*property),
        Expression::Call { callee, arguments } => wf_expr(*callee) && forall|i: int|
            0 <= i < arguments.len() ==> wf_expr(#[trigger] arguments@[i]),
        Expression::Binary { left, operator, right } => operator.is_infix() && wf_expr(*left)
            && wf_expr(*right),
        Expression::Prefix { operator, operand } => operator.is_prefix() && wf_expr(*operand),
        Expression::Postfix { operator, operand } => (operator == OperatorType::Increment
            || operator == OperatorType::Decrement) && wf_expr(*operand),
        Expression::Conditional { test, consequent, alternate } => wf_expr(*test) && wf_expr(
            *consequent,
        ) && wf_expr(*alternate),
        Expression::ArrowFunction { body, .. } => (*body is Expression || *body is Block) && wf_stmt(
            *body,
        ),
        Expression::Function { body, .. } => forall|i: int| 0 <= i < body.len() ==> wf_stmt(#[trigger] body@[i]),
        _ => true,
    }
}

pub open spec fn wf_member(om: ObjectMember) -> bool
    decreases om,
{
    match om {
        ObjectMember::Shorthand { .. } => true,
        ObjectMember::Literal { value, .. } => wf_expr(value),
        ObjectMember::Computed { key, value } => wf_expr(key) && wf_expr(value),
        ObjectMember::Method { body, .. } => forall|i: int| 0 <= i < body.len() ==> wf_stmt(#[trigger] body@[i]),
        ObjectMember::ComputedMethod { name, body, .. } => wf_expr(name) && forall|i: int|
            0 <= i < body.len() ==> wf_stmt(#[trigger] body@[i]),
    }
}

pub open spec fn wf_class_member(c: ClassMember) -> bool
    decreases c,
{
    match c {
        ClassMember::Constructor { body, .. } => forall|i: int| 0 <= i < body.len() ==> wf_stmt(#[trigger] body@[i]),
        ClassMember::Method { body, .. } => forall|i: int| 0 <= i < body.len() ==> wf_stmt(#[trigger] body@[i]),
        ClassMember::Property { value, .. } => wf_expr(value),
    }
}

pub open spec fn wf_declarator(d: VariableDeclarator) -> bool
    decreases d,
{
    match d.value {
        Some(v) => wf_expr(v),
        None => true,
    }
}

pub open spec fn wf_opt_expr(e: Option<Expression>) -> bool
    decreases e,
{
    match e {
        Some(v) => wf_expr(v),
        None => true,
    }
}

/// The shape that the parser gives every statement: declarations declare at
/// least one name, and the expressions in it are well formed.
pub open spec fn wf_stmt(s: Statement) -> bool
    decreases s,
{
    match s {
        Statement::Block { body } => forall|i: int| 0 <= i < body.len() ==> wf_stmt(#[trigger] body@[i]),
        Statement::Transparent { body } => forall|i: int| 0 <= i < body.len() ==> wf_stmt(#[trigger] body@[i]),
        Statement::Labeled { body, .. } => wf_stmt(*body),
        Statement::VariableDeclaration { declarators, .. } => declarators.len() > 0 && forall|i: int|
            0 <= i < declarators.len() ==> wf_declarator(#[trigger] declarators@[i]),
        Statement::Expression { value } => wf_expr(value),
        Statement::Return { value } => wf_opt_expr(value),
        Statement::Break { .. } => true,
        Statement::Function { body, .. } => forall|i: int| 0 <= i < body.len() ==> wf_stmt(#[trigger] body@[i]),
        Statement::If { test, consequent, alternate } => wf_expr(test) && wf_stmt(*consequent) && (match alternate {
            Some(a) => wf_stmt(*a),
            None => true,
        }),
        Statement::While { test, body } => wf_expr(test) && wf_stmt(*body),
        Statement::For { init, test, update, body } => (match init {
            Some(i) => wf_stmt(*i),
            None => true,
        }) && wf_opt_expr(test) && wf_opt_expr(update) && wf_stmt(*body),
        Statement::ForIn { left, right, body } => wf_stmt(*left) && wf_expr(right) && wf_stmt(*body),
        Statement::ForOf { left, right, body } => wf_stmt(*left) && wf_expr(right) && wf_stmt(*body),
        Statement::Class { body, .. } => forall|i: int| 0 <= i < body.len() ==> wf_class_member(#[trigger] body@[i]),
        Statement::Throw { value } => wf_expr(value),
    }
}

/// An expression as the parser returns it: well formed, and ready for the
/// generator.
pub open spec fn parsed_expr(e: Expression) -> bool {
    expr_ok(e) && wf_expr(e)
}

pub open spec fn parsed_member(m: ObjectMember) -> bool {
    member_ok(m) && wf_member(m)
}

pub open spec fn parsed_class_member(m: ClassMember) -> bool {
    class_member_ok(m) && wf_class_member(m)
}

pub open spec fn parsed_declarator(d: VariableDeclarator) -> bool {
    declarator_ok(d) && wf_declarator(d)
}

pub open spec fn parsed_opt_expr(e: Option<Expression>) -> bool {
    opt_expr_ok(e) && wf_opt_expr(e)
}

/// A statement as the parser returns it: well formed, and ready for the
/// generator.
pub open spec fn parsed_stmt(s: Statement) -> bool {
    stmt_ok(s) && wf_stmt(s)
}

/// A program as the parser returns it.
pub open spec fn parsed_program(p: Program) -> bool {
    program_ok(p) && forall|i: int| 0 <= i < p.body.len() ==> wf_stmt(#[trigger] p.body@[i])
}

/// Reads the parameters of an arrow function out of what preceded `=>`.
pub fn arrow_params(p: Option<Expression>) -> (r: Result<Vec<Parameter>, ParseError>)
    ensures
        r is Ok <==> coercible(p),
        r is Err ==> r == Err::<Vec<Parameter>, ParseError>(ParseError::InvalidArrowParameters),
        r matches Ok(ps) ==> ps@.len() == param_names(p).len() && forall|i: int|
            0 <= i < ps@.len() ==> (#[trigger] ps@[i]).name@ == param_names(p)[i],
{
    match p {
        None => Ok(Vec::new()),
        Some(Expression::Identifier(name)) => {
            let mut ps: Vec<Parameter> = Vec::new();
            ps.push(Parameter { name });
            Ok(ps)
        },
        Some(Expression::Sequence(list)) => {
            let ghost orig = list@;
            let mut rest = list;
            let mut ps: Vec<Parameter> = Vec::new();
            while rest.len() > 0
                invariant
                    p == Some(Expression::Sequence(list)),
                    orig == list@,
                    ps@.len() + rest@.len() == orig.len(),
                    rest@ == orig.subrange(ps@.len() as int, orig.len() as int),
                    forall|i: int| 0 <= i < ps@.len() ==> (#[trigger] orig[i]) is Identifier,
                    forall|i: int|
                        0 <= i < ps@.len() ==> (#[trigger] ps@[i]).name@ == orig[i]->Identifier_0@,
                decreases rest@.len(),
            {
                let ghost k = ps@.len() as int;
                assert(rest@[0] == orig[k]);
                let e = rest.remove(0);
                match e {
                    Expression::Identifier(name) => {
                        ps.push(Parameter { name });
                        assert(rest@ =~= orig.subrange(ps@.len() as int, orig.len() as int));
                    },
                    _ => {
                        assert(!(orig[k] is Identifier));
                        return Err(ParseError::InvalidArrowParameters);
                    },
                }
            }
            assert(param_names(p) =~= Seq::new(orig.len() as nat, |i: int| orig[i]->Identifier_0@));
            Ok(ps)
        },
        _ => Err(ParseError::InvalidArrowParameters),
    }
}

/// The tokens from the first one that is not a line break.
pub open spec fn skip_lines(ts: Seq<Token>) -> Seq<Token>
    decreases ts.len(),
{
    if ts.len() > 0 && ts[0] is LineTermination {
        skip_lines(ts.drop_first())
    } else {
        ts
    }
}

/// What is left after skipping line breaks starts with no line break.
pub proof fn lemma_skip_lines(ts: Seq<Token>)
    ensures
        skip_lines(skip_lines(ts)) == skip_lines(ts),
        skip_lines(ts).len() > 0 ==> !(skip_lines(ts)[0] is LineTermination),
    decreases ts.len(),
{
    if ts.len() > 0 && ts[0] is LineTermination {
        lemma_skip_lines(ts.drop_first());
    }
}

/// Whether `t` can start an expression.
pub open spec fn starts_expression(t: Token) -> bool {
    t is This || t is Identifier || t is Literal || t is Operator || t is ParenOn || t is BracketOn
        || t is BlockOn || t is Function
}

/// The expression that the token `t` is on its own, if it is an atom.
pub open spec fn atom(t: Token) -> Option<Expression> {
    match t {
        Token::This => Some(Expression::This),
        Token::Identifier(name) => Some(Expression::Identifier(name)),
        Token::Literal(value) => Some(Expression::Literal(value)),
        _ => None,
    }
}

/// Whether the tokens go on with an operator, a call or a computed member.
pub open spec fn continues(ts: Seq<Token>) -> bool {
    ts.len() > 0 && (ts[0] is Operator || ts[0] is ParenOn || ts[0] is BracketOn)
}

/// The kind of statement that a statement starting with `first` is.
pub open spec fn statement_fits(first: Token, s: Statement) -> bool {
    match first {
        Token::Var => s == Statement::VariableDeclaration {
            kind: VariableDeclarationKind::Var,
            declarators: s->VariableDeclaration_declarators,
        },
        Token::Let => s == Statement::VariableDeclaration {
            kind: VariableDeclarationKind::Let,
            declarators: s->VariableDeclaration_declarators,
        },
        Token::Const => s == Statement::VariableDeclaration {
            kind: VariableDeclarationKind::Const,
            declarators: s->VariableDeclaration_declarators,
        },
        Token::Return => s is Return,
        Token::Break => s is Break,
        Token::Throw => s is Throw,
        Token::Function => s is Function,
        Token::Class => s is Class,
        Token::If => s is If,
        Token::While => s is While,
        Token::For => s is For || s is ForIn || s is ForOf,
        Token::BlockOn => s is Block,
        Token::Semicolon => true,
        _ => s is Expression,
    }
}

/// Whether `t` is the token `expected`, which carries no payload or is an
/// operator.
pub open spec fn kind_matches(t: Token, expected: Token) -> bool {
    match (t, expected) {
        (Token::Operator(a), Token::Operator(b)) => a == b,
        (Token::Colon, Token::Colon) | (Token::Semicolon, Token::Semicolon) | (
            Token::Comma,
            Token::Comma,
        ) | (Token::ParenOn, Token::ParenOn) | (Token::ParenOff, Token::ParenOff) | (
            Token::BracketOn,
            Token::BracketOn,
        ) | (Token::BracketOff, Token::BracketOff) | (Token::BlockOn, Token::BlockOn) | (
            Token::BlockOff,
            Token::BlockOff,
        ) | (Token::Else, Token::Else) | (Token::If, Token::If) | (Token::Extends, Token::Extends)
        | (Token::Static, Token::Static) | (Token::Var, Token::Var) | (Token::Let, Token::Let) | (
            Token::Const,
            Token::Const,
        ) | (Token::Return, Token::Return) | (Token::Function, Token::Function) | (
            Token::Class,
            Token::Class,
        ) | (Token::While, Token::While) | (Token::For, Token::For) | (Token::Of, Token::Of) | (
            Token::In,
            Token::In,
        ) | (Token::Break, Token::Break) | (
            Token::Throw,
            Token::Throw,
        ) => true,
        _ => false,
    }
}

/// Whether `t` is the token `expected`, which carries no payload or is an
/// operator.
fn same_kind(t: &Token, expected: &Token) -> (r: bool)
    ensures
        r == kind_matches(*t, *expected),
{
    match (t, expected) {
        (Token::Operator(a), Token::Operator(b)) => *a == *b,
        (Token::Colon, Token::Colon) | (Token::Semicolon, Token::Semicolon) | (
            Token::Comma,
            Token::Comma,
        ) | (Token::ParenOn, Token::ParenOn) | (Token::ParenOff, Token::ParenOff) | (
            Token::BracketOn,
            Token::BracketOn,
        ) | (Token::BracketOff, Token::BracketOff) | (Token::BlockOn, Token::BlockOn) | (
            Token::BlockOff,
            Token::BlockOff,
        ) | (Token::Else, Token::Else) | (Token::If, Token::If) | (Token::Extends, Token::Extends)
        | (Token::Static, Token::Static) | (Token::Var, Token::Var) | (Token::Let, Token::Let) | (
            Token::Const,
            Token::Const,
        ) | (Token::Return, Token::Return) | (Token::Function, Token::Function) | (
            Token::Class,
            Token::Class,
        ) | (Token::While, Token::While) | (Token::For, Token::For) | (Token::Of, Token::Of) | (
            Token::In,
            Token::In,
        ) | (Token::Break, Token::Break) | (
            Token::Throw,
            Token::Throw,
        ) => true,
        _ => false,
    }
}

/// A Pratt parser over a token stream with one token of lookahead. Line breaks
/// are not tokens of the grammar: passing over one allows a missing semicolon.
pub struct Parser {
    /// The tokens not read yet, the next one last.
    tokens: Vec<Token>,
    allow_asi: bool,
}

impl Parser {
    /// How many tokens are left to read.
    pub closed spec fn remaining(&self) -> nat {
        self.tokens@.len()
    }

    /// Whether a line break was passed since the last token was read, so that a
    /// semicolon may be left out.
    pub closed spec fn asi(&self) -> bool {
        self.allow_asi
    }

    /// The tokens left to read, in reading order.
    pub closed spec fn pending(&self) -> Seq<Token> {
        Seq::new(self.tokens@.len(), |i: int| self.tokens@[self.tokens@.len() - 1 - i])
    }

    pub fn new(tokens: Vec<Token>) -> (r: Self)
        ensures
            r.pending() == tokens@,
            r.remaining() == tokens@.len(),
    {
        let ghost orig = tokens@;
        let ghost n = tokens@.len();
        let mut rest = tokens;
        let mut pending: Vec<Token> = Vec::new();
        while rest.len() > 0
            invariant
                rest@ == orig.subrange(0, rest@.len() as int),
                rest@.len() + pending@.len() == n,
                n == orig.len(),
                forall|j: int| 0 <= j < pending@.len() ==> pending@[j] == orig[n - 1 - j],
            decreases rest@.len(),
        {
            let t = rest.pop().unwrap();
            pending.push(t);
            assert(rest@ =~= orig.subrange(0, rest@.len() as int));
        }
        let r = Parser { tokens: pending, allow_asi: false };
        assert(r.pending() =~= orig);
        r
    }

    fn next_is_line_break(&self) -> (r: bool)
        ensures
            r == (self.pending().len() > 0 && self.pending()[0] is LineTermination),
    {
        if self.tokens.len() == 0 {
            false
        } else {
            match &self.tokens[self.tokens.len() - 1] {
                Token::LineTermination => true,
                _ => false,
            }
        }
    }

    /// Passes over line breaks, noting that a semicolon may now be left out.
    fn handle_line_termination(&mut self)
        ensures
            final(self).tokens@.len() <= old(self).tokens@.len(),
            final(self).pending() == skip_lines(old(self).pending()),
            final(self).asi() == (old(self).asi() || final(self).remaining() < old(self).remaining()),
    {
        loop
            invariant
                self.tokens@.len() <= old(self).tokens@.len(),
                skip_lines(self.pending()) == skip_lines(old(self).pending()),
                self.allow_asi == (old(self).allow_asi || self.tokens@.len() < old(
                    self,
                ).tokens@.len()),
            ensures
                self.tokens@.len() <= old(self).tokens@.len(),
                self.pending() == skip_lines(old(self).pending()),
                self.allow_asi == (old(self).allow_asi || self.tokens@.len() < old(
                    self,
                ).tokens@.len()),
            decreases self.tokens@.len(),
        {
            if !self.next_is_line_break() {
                assert(skip_lines(self.pending()) == self.pending());
                break;
            }
            let ghost before = self.pending();
            self.tokens.pop();
            self.allow_asi = true;
            assert(self.pending() =~= before.drop_first());
        }
    }

    /// The next token that is not a line break.
    fn consume(&mut self) -> (r: Result<Token, ParseError>)
        ensures
            final(self).tokens@.len() <= old(self).tokens@.len(),
            r is Ok ==> final(self).tokens@.len() < old(self).tokens@.len(),
            skip_lines(old(self).pending()).len() == 0 ==> r == Err::<Token, ParseError>(
                ParseError::UnexpectedEnd,
            ),
            skip_lines(old(self).pending()).len() > 0 ==> r == Ok::<Token, ParseError>(
                skip_lines(old(self).pending())[0],
            ) && final(self).pending() == skip_lines(old(self).pending()).drop_first(),
            r is Ok ==> !final(self).asi(),
    {
        self.handle_line_termination();
        let ghost before = self.pending();
        match self.tokens.pop() {
            Some(t) => {
                self.allow_asi = false;
                assert(self.pending() =~= before.drop_first());
                Ok(t)
            },
            None => Err(ParseError::UnexpectedEnd),
        }
    }

    /// Whether the next token that is not a line break is `expected`.
    fn next_is(&mut self, expected: &Token) -> (r: bool)
        ensures
            final(self).tokens@.len() <= old(self).tokens@.len(),
            r ==> final(self).tokens@.len() > 0,
            final(self).pending() == skip_lines(old(self).pending()),
            r == (final(self).pending().len() > 0 && kind_matches(
                final(self).pending()[0],
                *expected,
            )),
    {
        self.handle_line_termination();
        if self.tokens.len() == 0 {
            false
        } else {
            same_kind(&self.tokens[self.tokens.len() - 1], expected)
        }
    }

    fn next_is_identifier(&mut self) -> (r: bool)
        ensures
            final(self).tokens@.len() <= old(self).tokens@.len(),
    {
        self.handle_line_termination();
        if self.tokens.len() == 0 {
            false
        } else {
            match &self.tokens[self.tokens.len() - 1] {
                Token::Identifier(_) => true,
                _ => false,
            }
        }
    }

    /// The next operator, if the next token is one.
    fn next_operator(&mut self) -> (r: Option<OperatorType>)
        ensures
            final(self).tokens@.len() <= old(self).tokens@.len(),
    {
        self.handle_line_termination();
        if self.tokens.len() == 0 {
            None
        } else {
            match &self.tokens[self.tokens.len() - 1] {
                Token::Operator(op) => Some(*op),
                _ => None,
            }
        }
    }

    fn at_end(&mut self) -> (r: bool)
        ensures
            final(self).tokens@.len() <= old(self).tokens@.len(),
            r == (final(self).tokens@.len() == 0),
    {
        self.handle_line_termination();
        self.tokens.len() == 0
    }

    /// Consumes the next token if it is `expected`.
    fn allow(&mut self, expected: &Token) -> (r: bool)
        ensures
            final(self).tokens@.len() <= old(self).tokens@.len(),
            old(self).tokens@.len() == 0 ==> !r,
            r == (skip_lines(old(self).pending()).len() > 0 && kind_matches(
                skip_lines(old(self).pending())[0],
                *expected,
            )),
            r ==> final(self).pending() == skip_lines(old(self).pending()).drop_first(),
            !r ==> final(self).pending() == skip_lines(old(self).pending()),
            r ==> final(self).tokens@.len() < old(self).tokens@.len(),
    {
        if self.next_is(expected) {
            let ghost before = self.pending();
            self.tokens.pop();
            self.allow_asi = false;
            assert(self.pending() =~= before.drop_first());
            true
        } else {
            false
        }
    }

    /// Consumes the next token, which must be `expected`.
    fn expect(&mut self, expected: &Token) -> (r: Result<(), ParseError>)
        ensures
            final(self).tokens@.len() <= old(self).tokens@.len(),
            r is Ok ==> final(self).tokens@.len() < old(self).tokens@.len(),
    {
        if self.allow(expected) {
            Ok(())
        } else if self.at_end() {
            Err(ParseError::UnexpectedEnd)
        } else {
            Err(ParseError::UnexpectedToken)
        }
    }

    /// Consumes a name.
    fn identifier(&mut self) -> (r: Result<OwnedSlice, ParseError>)
        ensures
            final(self).tokens@.len() <= old(self).tokens@.len(),
            r is Ok ==> final(self).tokens@.len() < old(self).tokens@.len(),
            r is Ok <==> (skip_lines(old(self).pending()).len() > 0 && skip_lines(
                old(self).pending(),
            )[0] is Identifier),
            r matches Ok(name) ==> name == skip_lines(old(self).pending())[0]->Identifier_0
                && final(self).pending() == skip_lines(old(self).pending()).drop_first(),
    {
        match self.consume()? {
            Token::Identifier(name) => Ok(name),
            _ => Err(ParseError::UnexpectedToken),
        }
    }

    /// After a statement that needs one, accepts a semicolon (consumed), a
    /// closing parenthesis or brace, the end, or a line break before the next
    /// token.
    fn terminator(&mut self) -> (r: Result<(), ParseError>)
        ensures
            final(self).tokens@.len() <= old(self).tokens@.len(),
    {
        if self.allow(&Token::Semicolon) {
            return Ok(());
        }
        if self.at_end() || self.allow_asi || self.next_is(&Token::ParenOff) || self.next_is(
            &Token::BlockOff,
        ) {
            Ok(())
        } else {
            Err(ParseError::UnexpectedToken)
        }
    }

    /// Items separated by commas up to the token `end`, consumed; a comma may
    /// trail.
    fn expression_list(&mut self, end: &Token) -> (r: Result<Vec<Expression>, ParseError>)
        ensures
            final(self).tokens@.len() <= old(self).tokens@.len(),
            r matches Ok(list) ==> forall|j: int| 0 <= j < list@.len() ==> parsed_expr(#[trigger] list@[j]),
        decreases old(self).tokens@.len(), 1int,
    {
        let mut list: Vec<Expression> = Vec::new();
        loop
            invariant
                self.tokens@.len() <= old(self).tokens@.len(),
                forall|j: int| 0 <= j < list@.len() ==> parsed_expr(#[trigger] list@[j]),
            decreases self.tokens@.len(),
        {
            if self.allow(end) {
                break;
            }
            let item = self.expression(0)?;
            list.push(item);
            let t = self.consume()?;
            if same_kind(&t, &Token::Comma) {
                if self.allow(end) {
                    break;
                }
            } else if same_kind(&t, end) {
                break;
            } else {
                return Err(ParseError::UnexpectedToken);
            }
        }
        Ok(list)
    }

    fn parameter_list(&mut self) -> (r: Result<Vec<Parameter>, ParseError>)
        ensures
            final(self).tokens@.len() <= old(self).tokens@.len(),
            r is Ok ==> final(self).tokens@.len() < old(self).tokens@.len(),
    {
        self.expect(&Token::ParenOn)?;
        let mut list: Vec<Parameter> = Vec::new();
        loop
            invariant
                self.tokens@.len() < old(self).tokens@.len(),
            decreases self.tokens@.len(),
        {
            if self.allow(&Token::ParenOff) {
                break;
            }
            let name = self.identifier()?;
            list.push(Parameter { name });
            let t = self.consume()?;
            if same_kind(&t, &Token::Comma) {
                if self.allow(&Token::ParenOff) {
                    break;
                }
            } else if same_kind(&t, &Token::ParenOff) {
                break;
            } else {
                return Err(ParseError::UnexpectedToken);
            }
        }
        Ok(list)
    }

    fn object_member(&mut self) -> (r: Result<ObjectMember, ParseError>)
        ensures
            final(self).tokens@.len() <= old(self).tokens@.len(),
            r is Ok ==> final(self).tokens@.len() < old(self).tokens@.len(),
            r matches Ok(m) ==> parsed_member(m),
        decreases old(self).tokens@.len(), 1int,
    {
        match self.consume()? {
            Token::Identifier(key) | Token::Literal(LiteralValue::LiteralString(key)) => {
                if self.allow(&Token::Colon) {
                    let value = self.expression(0)?;
                    Ok(ObjectMember::Literal { key, value })
                } else {
                    Ok(ObjectMember::Shorthand { key })
                }
            },
            Token::BracketOn => {
                let key = self.expression(0)?;
                self.expect(&Token::BracketOff)?;
                self.expect(&Token::Colon)?;
                let value = self.expression(0)?;
                Ok(ObjectMember::Computed { key, value })
            },
            _ => Err(ParseError::UnexpectedToken),
        }
    }

    /// The members of an object literal, after its opening brace.
    fn object_expression(&mut self) -> (r: Result<Expression, ParseError>)
        ensures
            final(self).tokens@.len() <= old(self).tokens@.len(),
            r matches Ok(e) ==> parsed_expr(e),
        decreases old(self).tokens@.len(), 2int,
    {
        let mut list: Vec<ObjectMember> = Vec::new();
        loop
            invariant
                self.tokens@.len() <= old(self).tokens@.len(),
                forall|j: int| 0 <= j < list@.len() ==> parsed_member(#[trigger] list@[j]),
            decreases self.tokens@.len(),
        {
            if self.allow(&Token::BlockOff) {
                break;
            }
            let member = self.object_member()?;
            list.push(member);
            let t = self.consume()?;
            if same_kind(&t, &Token::Comma) {
                if self.allow(&Token::BlockOff) {
                    break;
                }
            } else if same_kind(&t, &Token::BlockOff) {
                break;
            } else {
                return Err(ParseError::UnexpectedToken);
            }
        }
        Ok(Expression::Object(list))
    }

    /// A block in braces, or a single expression statement.
    fn block_or_statement(&mut self) -> (r: Result<Statement, ParseError>)
        ensures
            final(self).tokens@.len() <= old(self).tokens@.len(),
            r is Ok ==> final(self).tokens@.len() < old(self).tokens@.len(),
            r matches Ok(s) ==> parsed_stmt(s),
        decreases old(self).tokens@.len(), 3int,
    {
        if self.next_is(&Token::BlockOn) {
            let body = self.block_body()?;
            Ok(Statement::Block { body })
        } else {
            self.expression_statement()
        }
    }

    /// Statements in braces.
    fn block_body(&mut self) -> (r: Result<Vec<Statement>, ParseError>)
        ensures
            final(self).tokens@.len() <= old(self).tokens@.len(),
            r is Ok ==> final(self).tokens@.len() < old(self).tokens@.len(),
            r matches Ok(body) ==> forall|j: int| 0 <= j < body@.len() ==> parsed_stmt(#[trigger] body@[j]),
        decreases old(self).tokens@.len(), 0int,
    {
        self.expect(&Token::BlockOn)?;
        let mut body: Vec<Statement> = Vec::new();
        loop
            invariant
                self.tokens@.len() < old(self).tokens@.len(),
                forall|j: int| 0 <= j < body@.len() ==> parsed_stmt(#[trigger] body@[j]),
            decreases self.tokens@.len(),
        {
            if self.allow(&Token::BlockOff) {
                break;
            }
            match self.statement()? {
                Some(s) => body.push(s),
                None => {
                    return Err(ParseError::UnexpectedEnd);
                },
            }
        }
        Ok(body)
    }

    /// An arrow function, once `=>` is read: `p` is what stood before it.
    fn arrow_function_expression(&mut self, p: Option<Expression>) -> (r: Result<
        Expression,
        ParseError,
    >)
        ensures
            final(self).tokens@.len() <= old(self).tokens@.len(),
            r matches Ok(e) ==> parsed_expr(e) && e is ArrowFunction,
            !coercible(p) ==> r == Err::<Expression, ParseError>(
                ParseError::InvalidArrowParameters,
            ),
        decreases old(self).tokens@.len(), 2int,
    {
        let params = arrow_params(p)?;
        let body = if self.next_is(&Token::BlockOn) {
            let body = self.block_body()?;
            Statement::Block { body }
        } else {
            let value = self.expression(0)?;
            Statement::Expression { value }
        };
        assert(parsed_stmt(body));
        Ok(Expression::ArrowFunction { params, body: Box::new(body) })
    }

    /// The operand of a prefix operator, once the operator is read. Unary `+`
    /// and `-` bind as tightly as the other unary operators.
    fn prefix_expression(&mut self, operator: OperatorType) -> (r: Result<Expression, ParseError>)
        ensures
            final(self).tokens@.len() <= old(self).tokens@.len(),
            r is Err && !operator.is_prefix() ==> final(self).tokens@.len() == old(
                self,
            ).tokens@.len(),
            r matches Ok(e) ==> parsed_expr(e) && operator.is_prefix() && e == (Expression::Prefix {
                operator,
                operand: e->Prefix_operand,
            }),
            !operator.is_prefix() ==> r == Err::<Expression, ParseError>(ParseError::UnexpectedToken),
        decreases old(self).tokens@.len(), 1int,
    {
        if !operator.prefix() {
            return Err(ParseError::UnexpectedToken);
        }
        let bp: u8 = match operator {
            OperatorType::Addition | OperatorType::Substraction => 15,
            _ => operator.binding_power(),
        };
        let operand = self.expression(bp)?;
        Ok(Expression::Prefix { operator, operand: Box::new(operand) })
    }

    /// Reads the operator after `left` and what follows it.
    fn infix_expression(&mut self, left: Expression, bp: u8) -> (r: Result<
        Expression,
        ParseError,
    >)
        requires
            parsed_expr(left),
        ensures
            final(self).tokens@.len() <= old(self).tokens@.len(),
            r is Ok ==> final(self).tokens@.len() < old(self).tokens@.len(),
            r matches Ok(e) ==> parsed_expr(e),
            ({
                let next = skip_lines(old(self).pending());
                &&& next.len() == 0 ==> r == Err::<Expression, ParseError>(
                    ParseError::UnexpectedEnd,
                )
                &&& next.len() > 0 && !(next[0] is Operator) ==> r == Err::<
                    Expression,
                    ParseError,
                >(ParseError::UnexpectedToken)
                &&& next.len() > 0 && next[0] is Operator ==> {
                    let op = next[0]->Operator_0;
                    let rest = skip_lines(next.drop_first());
                    &&& (op == OperatorType::Increment || op == OperatorType::Decrement) ==> r
                        == Ok::<Expression, ParseError>(
                        Expression::Postfix { operator: op, operand: Box::new(left) },
                    ) && final(self).pending() == next.drop_first()
                    &&& op == OperatorType::Accessor ==> (r is Ok <==> (rest.len() > 0
                        && rest[0] is Identifier)) && (r is Ok ==> r == Ok::<
                        Expression,
                        ParseError,
                    >(
                        Expression::Member {
                            object: Box::new(left),
                            property: rest[0]->Identifier_0,
                        },
                    ) && final(self).pending() == rest.drop_first())
                    &&& op == OperatorType::Conditional ==> (r matches Ok(e) ==> e is Conditional
                        && *e->Conditional_test == left)
                    &&& op == OperatorType::FatArrow ==> (r matches Ok(e) ==> e is ArrowFunction)
                        && (!coercible(Some(left)) ==> r == Err::<Expression, ParseError>(
                        ParseError::InvalidArrowParameters,
                    ))
                    &&& !op.is_infix() ==> r == Err::<Expression, ParseError>(
                        ParseError::UnexpectedToken,
                    )
                    &&& (op.is_infix() && op != OperatorType::Increment && op
                        != OperatorType::Decrement && op != OperatorType::Accessor && op
                        != OperatorType::Conditional && op != OperatorType::FatArrow) ==> (
                    r matches Ok(e) ==> e == Expression::Binary {
                        left: Box::new(left),
                        operator: op,
                        right: e->Binary_right,
                    })
                }
            }),
        decreases old(self).tokens@.len(), 0int,
    {
        let operator = match self.consume()? {
            Token::Operator(op) => op,
            _ => {
                return Err(ParseError::UnexpectedToken);
            },
        };
        match operator {
            OperatorType::Increment | OperatorType::Decrement => {
                Ok(Expression::Postfix { operator, operand: Box::new(left) })
            },
            OperatorType::Accessor => {
                let property = self.identifier()?;
                Ok(Expression::Member { object: Box::new(left), property })
            },
            OperatorType::Conditional => {
                let consequent = self.expression(bp)?;
                self.expect(&Token::Colon)?;
                let alternate = self.expression(bp)?;
                Ok(
                    Expression::Conditional {
                        test: Box::new(left),
                        consequent: Box::new(consequent),
                        alternate: Box::new(alternate),
                    },
                )
            },
            OperatorType::FatArrow => self.arrow_function_expression(Some(left)),
            _ => {
                if !operator.infix() {
                    return Err(ParseError::UnexpectedToken);
                }
                let right = self.expression(bp)?;
                Ok(Expression::Binary { left: Box::new(left), operator, right: Box::new(right) })
            },
        }
    }

    /// A function expression, once `function` is read; its name is optional.
    fn function_expression(&mut self) -> (r: Result<Expression, ParseError>)
        ensures
            final(self).tokens@.len() <= old(self).tokens@.len(),
            r matches Ok(e) ==> parsed_expr(e),
        decreases old(self).tokens@.len(), 1int,
    {
        let name = if self.next_is_identifier() {
            Some(self.identifier()?)
        } else {
            None
        };
        let params = self.parameter_list()?;
        let body = self.block_body()?;
        Ok(Expression::Function { name, params, body })
    }

    /// What follows an opening parenthesis: a grouped expression, a sequence,
    /// or the empty parameter list of an arrow function. A sequence becomes the
    /// parameters of an arrow function when `=>` follows it.
    fn sequence_expression(&mut self) -> (r: Result<Expression, ParseError>)
        ensures
            final(self).tokens@.len() <= old(self).tokens@.len(),
            r matches Ok(e) ==> parsed_expr(e),
        decreases old(self).tokens@.len(), 3int,
    {
        if self.allow(&Token::ParenOff) {
            self.expect(&Token::Operator(OperatorType::FatArrow))?;
            return self.arrow_function_expression(None);
        }
        let first = self.expression(0)?;
        if self.allow(&Token::ParenOff) {
            return Ok(first);
        }
        let mut list: Vec<Expression> = Vec::new();
        list.push(first);
        loop
            invariant
                self.tokens@.len() <= old(self).tokens@.len(),
                forall|j: int| 0 <= j < list@.len() ==> parsed_expr(#[trigger] list@[j]),
            decreases self.tokens@.len(),
        {
            if self.allow(&Token::ParenOff) {
                break;
            }
            self.expect(&Token::Comma)?;
            let item = self.expression(0)?;
            list.push(item);
        }
        Ok(Expression::Sequence(list))
    }

    /// Whether a line break stands before a token that would otherwise continue
    /// the expression but here starts a new statement.
    fn asi_stops(&mut self) -> (r: bool)
        ensures
            final(self).tokens@.len() <= old(self).tokens@.len(),
            final(self).pending() == skip_lines(old(self).pending()),
    {
        self.handle_line_termination();
        if !self.allow_asi || self.tokens.len() == 0 {
            return false;
        }
        match &self.tokens[self.tokens.len() - 1] {
            Token::ParenOn | Token::BracketOn => true,
            Token::Operator(op) => match op {
                OperatorType::Division | OperatorType::Addition | OperatorType::Substraction => true,
                _ => false,
            },
            _ => false,
        }
    }

    /// How tightly the next token binds as a continuation of an expression:
    /// an operator by its table, a call 17, a computed member 18, anything else 0.
    fn right_binding_power(&mut self) -> (r: u8)
        ensures
            final(self).tokens@.len() <= old(self).tokens@.len(),
            final(self).pending() == skip_lines(old(self).pending()),
            !continues(final(self).pending()) ==> r == 0,
    {
        self.handle_line_termination();
        if self.tokens.len() == 0 {
            return 0;
        }
        match &self.tokens[self.tokens.len() - 1] {
            Token::Operator(op) => op.binding_power(),
            Token::ParenOn => 17,
            Token::BracketOn => 18,
            _ => 0,
        }
    }

    /// An expression whose operators all bind at least as tightly as `lbp`.
    fn expression(&mut self, lbp: u8) -> (r: Result<Expression, ParseError>)
        ensures
            final(self).tokens@.len() <= old(self).tokens@.len(),
            r is Ok ==> final(self).tokens@.len() < old(self).tokens@.len(),
            r matches Ok(e) ==> parsed_expr(e),
            ({
                let next = skip_lines(old(self).pending());
                &&& next.len() == 0 ==> r == Err::<Expression, ParseError>(
                    ParseError::UnexpectedEnd,
                )
                &&& next.len() > 0 && !starts_expression(next[0]) ==> r == Err::<
                    Expression,
                    ParseError,
                >(ParseError::UnexpectedToken)
                &&& next.len() > 0 && next[0] is Operator && !next[0]->Operator_0.is_prefix()
                    ==> r == Err::<Expression, ParseError>(ParseError::UnexpectedToken)
                &&& next.len() > 0 && atom(next[0]) is Some && !continues(
                    skip_lines(next.drop_first()),
                ) ==> r == Ok::<Expression, ParseError>(atom(next[0])->Some_0)
                    && final(self).pending() == skip_lines(next.drop_first())
            }),
        decreases old(self).tokens@.len(), 0int,
    {
        let ghost next = skip_lines(self.pending());
        let mut left = match self.consume()? {
            Token::This => Expression::This,
            Token::Identifier(value) => Expression::Identifier(value),
            Token::Literal(value) => Expression::Literal(value),
            Token::Operator(op) => self.prefix_expression(op)?,
            Token::ParenOn => self.sequence_expression()?,
            Token::BracketOn => Expression::Array(self.expression_list(&Token::BracketOff)?),
            Token::BlockOn => self.object_expression()?,
            Token::Function => self.function_expression()?,
            _ => {
                return Err(ParseError::UnexpectedToken);
            },
        };
        let ghost settled = atom(next[0]) is Some && !continues(skip_lines(next.drop_first()));
        let ghost first_left = left;
        proof {
            lemma_skip_lines(next.drop_first());
        }
        loop
            invariant
                self.tokens@.len() < old(self).tokens@.len(),
                parsed_expr(left),
                next.len() > 0,
                next == skip_lines(old(self).pending()),
                starts_expression(next[0]),
                next[0] is Operator ==> next[0]->Operator_0.is_prefix(),
                settled == (atom(next[0]) is Some && !continues(skip_lines(next.drop_first()))),
                settled ==> left == first_left && first_left == atom(next[0])->Some_0
                    && skip_lines(self.pending()) == skip_lines(next.drop_first()),
                skip_lines(skip_lines(next.drop_first())) == skip_lines(next.drop_first()),
            ensures
                self.tokens@.len() < old(self).tokens@.len(),
                parsed_expr(left),
                settled ==> left == first_left && self.pending() == skip_lines(next.drop_first()),
            decreases self.tokens@.len(),
        {
            proof {
                lemma_skip_lines(self.pending());
            }
            if self.asi_stops() {
                break;
            }
            proof {
                lemma_skip_lines(self.pending());
            }
            let rbp = self.right_binding_power();
            if lbp > rbp || rbp == 0 {
                break;
            }
            if self.next_operator().is_some() {
                left = self.infix_expression(left, rbp)?;
            } else if self.allow(&Token::ParenOn) {
                let arguments = self.expression_list(&Token::ParenOff)?;
                left = Expression::Call { callee: Box::new(left), arguments };
            } else if self.allow(&Token::BracketOn) {
                let property = self.expression(0)?;
                self.expect(&Token::BracketOff)?;
                left = Expression::ComputedMember {
                    object: Box::new(left),
                    property: Box::new(property),
                };
            } else {
                break;
            }
        }
        Ok(left)
    }

    /// An expression followed by a statement terminator.
    fn expression_statement(&mut self) -> (r: Result<Statement, ParseError>)
        ensures
            final(self).tokens@.len() <= old(self).tokens@.len(),
            r is Ok ==> final(self).tokens@.len() < old(self).tokens@.len(),
            r matches Ok(s) ==> parsed_stmt(s),
            r matches Ok(s) ==> s is Expression,
        decreases old(self).tokens@.len(), 2int,
    {
        let value = self.expression(0)?;
        self.terminator()?;
        Ok(Statement::Expression { value })
    }

    /// `name = value`.
    fn declarator(&mut self) -> (r: Result<VariableDeclarator, ParseError>)
        ensures
            final(self).tokens@.len() <= old(self).tokens@.len(),
            r matches Ok(d) ==> parsed_declarator(d),
        decreases old(self).tokens@.len(), 0int,
    {
        let name = self.identifier()?;
        self.expect(&Token::Operator(OperatorType::Assign))?;
        let value = self.expression(0)?;
        Ok(VariableDeclarator { name, value: Some(value) })
    }

    /// The declarators of a `var`, `let` or `const`, once the keyword is read:
    /// each is a name with a mandatory initializer.
    fn variable_declaration_statement(&mut self, kind: VariableDeclarationKind) -> (r: Result<
        Statement,
        ParseError,
    >)
        ensures
            final(self).tokens@.len() <= old(self).tokens@.len(),
            r matches Ok(s) ==> parsed_stmt(s) && s is VariableDeclaration
                && s->VariableDeclaration_declarators@.len() > 0,
            r matches Ok(s) ==> s->VariableDeclaration_kind == kind,
        decreases old(self).tokens@.len(), 1int,
    {
        let mut declarators: Vec<VariableDeclarator> = Vec::new();
        let first = self.declarator()?;
        declarators.push(first);
        while self.allow(&Token::Comma)
            invariant
                self.tokens@.len() <= old(self).tokens@.len(),
                declarators@.len() > 0,
                forall|j: int|
                    0 <= j < declarators@.len() ==> parsed_declarator(#[trigger] declarators@[j]),
            decreases self.tokens@.len(),
        {
            let next = self.declarator()?;
            declarators.push(next);
        }
        self.terminator()?;
        Ok(Statement::VariableDeclaration { kind, declarators })
    }

    /// Whether the statement ends here: a line break, a semicolon, a closing
    /// brace or parenthesis, or the end.
    fn at_boundary(&mut self) -> (r: bool)
        ensures
            final(self).tokens@.len() <= old(self).tokens@.len(),
    {
        self.at_end() || self.allow_asi || self.next_is(&Token::Semicolon) || self.next_is(
            &Token::BlockOff,
        ) || self.next_is(&Token::ParenOff)
    }

    fn return_statement(&mut self) -> (r: Result<Statement, ParseError>)
        ensures
            final(self).tokens@.len() <= old(self).tokens@.len(),
            r matches Ok(s) ==> parsed_stmt(s),
            r matches Ok(s) ==> s is Return,
        decreases old(self).tokens@.len(), 1int,
    {
        let value = if self.at_boundary() {
            None
        } else {
            Some(self.expression(0)?)
        };
        assert(parsed_opt_expr(value));
        self.terminator()?;
        Ok(Statement::Return { value })
    }

    fn break_statement(&mut self) -> (r: Result<Statement, ParseError>)
        ensures
            final(self).tokens@.len() <= old(self).tokens@.len(),
            r matches Ok(s) ==> parsed_stmt(s) && s is Break,
    {
        let label = if !self.at_boundary() && self.next_is_identifier() {
            Some(self.identifier()?)
        } else {
            None
        };
        self.terminator()?;
        Ok(Statement::Break { label })
    }

    fn throw_statement(&mut self) -> (r: Result<Statement, ParseError>)
        ensures
            final(self).tokens@.len() <= old(self).tokens@.len(),
            r matches Ok(s) ==> parsed_stmt(s),
            r matches Ok(s) ==> s is Throw,
        decreases old(self).tokens@.len(), 1int,
    {
        let value = self.expression(0)?;
        self.terminator()?;
        Ok(Statement::Throw { value })
    }

    /// The rest of an `if`, once the keyword is read, with `else` arms chained.
    fn if_statement(&mut self) -> (r: Result<Statement, ParseError>)
        ensures
            final(self).tokens@.len() <= old(self).tokens@.len(),
            r is Ok ==> final(self).tokens@.len() < old(self).tokens@.len(),
            r matches Ok(s) ==> parsed_stmt(s),
            r matches Ok(s) ==> s is If,
        decreases old(self).tokens@.len(), 0int,
    {
        self.expect(&Token::ParenOn)?;
        let test = self.expression(0)?;
        self.expect(&Token::ParenOff)?;
        let consequent = self.block_or_statement()?;
        let alternate = if self.allow(&Token::Else) {
            if self.allow(&Token::If) {
                Some(Box::new(self.if_statement()?))
            } else {
                Some(Box::new(self.block_or_statement()?))
            }
        } else {
            None
        };
        Ok(Statement::If { test, consequent: Box::new(consequent), alternate })
    }

    fn while_statement(&mut self) -> (r: Result<Statement, ParseError>)
        ensures
            final(self).tokens@.len() <= old(self).tokens@.len(),
            r matches Ok(s) ==> parsed_stmt(s),
            r matches Ok(s) ==> s is While,
        decreases old(self).tokens@.len(), 0int,
    {
        self.expect(&Token::ParenOn)?;
        let test = self.expression(0)?;
        self.expect(&Token::ParenOff)?;
        let body = self.block_or_statement()?;
        Ok(Statement::While { test, body: Box::new(body) })
    }

    fn function_statement(&mut self) -> (r: Result<Statement, ParseError>)
        ensures
            final(self).tokens@.len() <= old(self).tokens@.len(),
            r matches Ok(s) ==> parsed_stmt(s),
            r matches Ok(s) ==> s is Function,
        decreases old(self).tokens@.len(), 0int,
    {
        let name = self.identifier()?;
        let params = self.parameter_list()?;
        let body = self.block_body()?;
        Ok(Statement::Function { name, params, body })
    }

    /// A class member, once its name (and `static`, if any) is read: a
    /// constructor, a method, or a property with its value.
    fn class_member(&mut self, name: OwnedSlice, is_static: bool) -> (r: Result<
        ClassMember,
        ParseError,
    >)
        ensures
            final(self).tokens@.len() <= old(self).tokens@.len(),
            r matches Ok(m) ==> parsed_class_member(m),
        decreases old(self).tokens@.len(), 0int,
    {
        if self.next_is(&Token::ParenOn) {
            let params = self.parameter_list()?;
            let body = self.block_body()?;
            if !is_static && name.is("constructor") {
                Ok(ClassMember::Constructor { params, body })
            } else {
                Ok(ClassMember::Method { is_static, name, params, body })
            }
        } else if self.allow(&Token::Operator(OperatorType::Assign)) {
            let value = self.expression(0)?;
            Ok(ClassMember::Property { is_static, name, value })
        } else if self.at_end() {
            Err(ParseError::UnexpectedEnd)
        } else {
            Err(ParseError::UnexpectedToken)
        }
    }

    /// The rest of a class, once `class` is read.
    fn class_statement(&mut self) -> (r: Result<Statement, ParseError>)
        ensures
            final(self).tokens@.len() <= old(self).tokens@.len(),
            r matches Ok(s) ==> parsed_stmt(s),
            r matches Ok(s) ==> s is Class,
        decreases old(self).tokens@.len(), 0int,
    {
        let name = self.identifier()?;
        let extends = if self.allow(&Token::Extends) {
            Some(self.identifier()?)
        } else {
            None
        };
        self.expect(&Token::BlockOn)?;
        let mut members: Vec<ClassMember> = Vec::new();
        loop
            invariant
                self.tokens@.len() <= old(self).tokens@.len(),
                forall|j: int| 0 <= j < members@.len() ==> parsed_class_member(#[trigger] members@[j]),
            decreases self.tokens@.len(),
        {
            match self.consume()? {
                Token::Identifier(member_name) => {
                    let member = self.class_member(member_name, false)?;
                    members.push(member);
                },
                Token::Static => {
                    let member_name = self.identifier()?;
                    let member = self.class_member(member_name, true)?;
                    members.push(member);
                },
                Token::Semicolon => {},
                Token::BlockOff => {
                    break;
                },
                _ => {
                    return Err(ParseError::UnexpectedToken);
                },
            }
        }
        Ok(Statement::Class { name, extends, body: members })
    }

    /// A declarator in the head of a loop, where the initializer may be left
    /// out.
    fn head_declarator(&mut self) -> (r: Result<VariableDeclarator, ParseError>)
        ensures
            final(self).tokens@.len() <= old(self).tokens@.len(),
            r matches Ok(d) ==> parsed_declarator(d),
        decreases old(self).tokens@.len(), 0int,
    {
        let name = self.identifier()?;
        if self.allow(&Token::Operator(OperatorType::Assign)) {
            let value = self.expression(0)?;
            Ok(VariableDeclarator { name, value: Some(value) })
        } else {
            Ok(VariableDeclarator { name, value: None })
        }
    }

    /// A declaration in the head of a loop, once its keyword is read.
    fn head_declaration(&mut self, kind: VariableDeclarationKind) -> (r: Result<
        Statement,
        ParseError,
    >)
        ensures
            final(self).tokens@.len() <= old(self).tokens@.len(),
            r matches Ok(s) ==> parsed_stmt(s) && is_loop_head(s),
        decreases old(self).tokens@.len(), 1int,
    {
        let mut declarators: Vec<VariableDeclarator> = Vec::new();
        let first = self.head_declarator()?;
        declarators.push(first);
        while self.allow(&Token::Comma)
            invariant
                self.tokens@.len() <= old(self).tokens@.len(),
                forall|j: int|
                    0 <= j < declarators@.len() ==> parsed_declarator(#[trigger] declarators@[j]),
                declarators@.len() > 0,
            decreases self.tokens@.len(),
        {
            let next = self.head_declarator()?;
            declarators.push(next);
        }
        Ok(Statement::VariableDeclaration { kind, declarators })
    }

    /// The rest of a `for`, `for`-`in` or `for`-`of` loop, once `for` is read.
    /// An expression head of the form `a in b` is a `for`-`in` loop.
    fn for_statement(&mut self) -> (r: Result<Statement, ParseError>)
        ensures
            final(self).tokens@.len() <= old(self).tokens@.len(),
            r matches Ok(s) ==> parsed_stmt(s),
            r matches Ok(s) ==> s is For || s is ForIn || s is ForOf,
        decreases old(self).tokens@.len(), 0int,
    {
        self.expect(&Token::ParenOn)?;
        let init: Option<Statement> = if self.next_is(&Token::Semicolon) {
            None
        } else if self.allow(&Token::Var) {
            Some(self.head_declaration(VariableDeclarationKind::Var)?)
        } else if self.allow(&Token::Let) {
            Some(self.head_declaration(VariableDeclarationKind::Let)?)
        } else if self.allow(&Token::Const) {
            Some(self.head_declaration(VariableDeclarationKind::Const)?)
        } else {
            let value = self.expression(0)?;
            match value {
                Expression::Binary { left, operator: OperatorType::In, right } => {
                    self.expect(&Token::ParenOff)?;
                    let body = self.block_or_statement()?;
                    let head = Statement::Expression { value: *left };
                    assert(parsed_stmt(head) && is_loop_head(head) && parsed_expr(*right));
                    return Ok(
                        Statement::ForIn { left: Box::new(head), right: *right, body: Box::new(body) },
                    );
                },
                value => Some(Statement::Expression { value }),
            }
        };
        assert(match init {
            Some(i) => is_loop_head(i) && parsed_stmt(i),
            None => true,
        });
        match init {
            Some(left) => {
                if self.allow(&Token::Operator(OperatorType::In)) {
                    let right = self.expression(0)?;
                    self.expect(&Token::ParenOff)?;
                    let body = self.block_or_statement()?;
                    return Ok(
                        Statement::ForIn { left: Box::new(left), right, body: Box::new(body) },
                    );
                }
                if self.allow(&Token::Of) {
                    let right = self.expression(0)?;
                    self.expect(&Token::ParenOff)?;
                    let body = self.block_or_statement()?;
                    return Ok(
                        Statement::ForOf { left: Box::new(left), right, body: Box::new(body) },
                    );
                }
                self.for_rest(Some(Box::new(left)))
            },
            None => self.for_rest(None),
        }
    }

    /// The test, update and body of a `for` loop, after its initializer.
    fn for_rest(&mut self, init: Option<Box<Statement>>) -> (r: Result<Statement, ParseError>)
        requires
            match init {
                Some(i) => is_loop_head(*i) && parsed_stmt(*i),
                None => true,
            },
        ensures
            final(self).tokens@.len() <= old(self).tokens@.len(),
            r matches Ok(s) ==> parsed_stmt(s),
            r matches Ok(s) ==> s is For,
        decreases old(self).tokens@.len(), 1int,
    {
        self.expect(&Token::Semicolon)?;
        let test = if self.next_is(&Token::Semicolon) {
            None
        } else {
            Some(self.expression(0)?)
        };
        self.expect(&Token::Semicolon)?;
        let update = if self.next_is(&Token::ParenOff) {
            None
        } else {
            Some(self.expression(0)?)
        };
        self.expect(&Token::ParenOff)?;
        let body = self.block_or_statement()?;
        assert(parsed_opt_expr(test) && parsed_opt_expr(update));
        Ok(Statement::For { init, test, update, body: Box::new(body) })
    }

    /// The next statement, or `None` at the end of the tokens.
    pub fn statement(&mut self) -> (r: Result<Option<Statement>, ParseError>)
        ensures
            final(self).remaining() <= old(self).remaining(),
            r matches Ok(Some(_)) ==> final(self).remaining() < old(self).remaining(),
            r matches Ok(Some(s)) ==> parsed_stmt(s),
            r matches Ok(None) ==> final(self).remaining() == 0,
            old(self).remaining() == 0 ==> r == Ok::<Option<Statement>, ParseError>(None),
            r matches Ok(Some(s)) ==> statement_fits(skip_lines(old(self).pending())[0], s),
        decreases old(self).remaining(), 4int,
    {
        proof {
            lemma_skip_lines(self.pending());
        }
        if self.allow(&Token::Var) {
            return Ok(Some(self.variable_declaration_statement(VariableDeclarationKind::Var)?));
        }
        if self.allow(&Token::Let) {
            return Ok(Some(self.variable_declaration_statement(VariableDeclarationKind::Let)?));
        }
        if self.allow(&Token::Const) {
            return Ok(Some(self.variable_declaration_statement(VariableDeclarationKind::Const)?));
        }
        if self.allow(&Token::Return) {
            return Ok(Some(self.return_statement()?));
        }
        if self.allow(&Token::Break) {
            return Ok(Some(self.break_statement()?));
        }
        if self.allow(&Token::Throw) {
            return Ok(Some(self.throw_statement()?));
        }
        if self.allow(&Token::Function) {
            return Ok(Some(self.function_statement()?));
        }
        if self.allow(&Token::Class) {
            return Ok(Some(self.class_statement()?));
        }
        if self.allow(&Token::If) {
            return Ok(Some(self.if_statement()?));
        }
        if self.allow(&Token::While) {
            return Ok(Some(self.while_statement()?));
        }
        if self.allow(&Token::For) {
            return Ok(Some(self.for_statement()?));
        }
        if self.allow(&Token::Semicolon) {
            return self.statement();
        }
        if self.next_is(&Token::BlockOn) {
            let body = self.block_body()?;
            return Ok(Some(Statement::Block { body }));
        }
        if self.at_end() {
            Ok(None)
        } else {
            Ok(Some(self.expression_statement()?))
        }
    }
}

/// Reads a program out of its source text.
pub fn parse(source: String) -> (r: Result<Program, ParseError>)
    ensures
        r matches Ok(p) ==> parsed_program(p) && p.source == source,
{
    let tokens = match tokenize(source.as_str()) {
        Ok(t) => t,
        Err(e) => {
            return Err(ParseError::LexicalError(e));
        },
    };
    let mut parser = Parser::new(tokens);
    let mut body: Vec<Statement> = Vec::new();
    loop
        invariant
            forall|j: int| 0 <= j < body@.len() ==> parsed_stmt(#[trigger] body@[j]),
        decreases parser.remaining(),
    {
        match parser.statement()? {
            Some(s) => body.push(s),
            None => {
                break;
            },
        }
    }
    let program = Program::new(source, body);
    Ok(program)
}

} // verus!
