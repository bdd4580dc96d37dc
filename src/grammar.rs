use vstd::prelude::*;
use vstd::string::StringSliceAdditionalSpecFns;

verus! {

/// An immutable run of UTF-8 bytes taken from a source text: an identifier, a
/// property name, or the textual form of a number or string literal.
#[derive(Debug, PartialEq, Clone)]
pub struct OwnedSlice {
    bytes: Vec<u8>,
}

impl View for OwnedSlice {
    type V = Seq<u8>;

    closed spec fn view(&self) -> Seq<u8> {
        self.bytes@
    }
}

impl OwnedSlice {
    /// The slice holding the bytes of `source`.
    pub fn from_str(source: &str) -> (r: Self)
        ensures
            r@ == source.spec_bytes(),
    {
        OwnedSlice::from_bytes(source.as_bytes())
    }

    /// The slice holding the bytes of a string that lives for the whole program.
    pub fn from_static(source: &'static str) -> (r: Self)
        ensures
            r@ == source.spec_bytes(),
    {
        OwnedSlice::from_bytes(source.as_bytes())
    }

    /// The slice holding a copy of `source`.
    pub fn from_bytes(source: &[u8]) -> (r: Self)
        ensures
            r@ == source@,
    {
        let mut bytes: Vec<u8> = Vec::with_capacity(source.len());
        let mut i: usize = 0;
        while i < source.len()
            invariant
                i <= source@.len(),
                bytes@ == source@.subrange(0, i as int),
            decreases source@.len() - i,
        {
            bytes.push(source[i]);
            i += 1;
            assert(bytes@ =~= source@.subrange(0, i as int));
        }
        assert(bytes@ =~= source@);
        OwnedSlice { bytes }
    }

    /// The bytes of the slice.
    pub fn as_bytes(&self) -> (r: &[u8])
        ensures
            r@ == self@,
    {
        self.bytes.as_slice()
    }

    /// Whether the slice holds exactly the bytes of `text`.
    pub fn is(&self, text: &str) -> (r: bool)
        ensures
            r == (self@ == text.spec_bytes()),
    {
        let other = text.as_bytes();
        if self.bytes.len() != other.len() {
            return false;
        }
        let mut i: usize = 0;
        while i < other.len()
            invariant
                i <= other@.len(),
                self@.len() == other@.len(),
                other@ == text.spec_bytes(),
                forall|j: int| 0 <= j < i ==> self@[j] == other@[j],
            decreases other@.len() - i,
        {
            if self.bytes[i] != other[i] {
                return false;
            }
            i += 1;
        }
        assert(self@ =~= other@);
        true
    }
}

/// A literal value. Numbers other than integers and strings keep the exact
/// text they were written with (a string's quotes included).
#[derive(Debug, PartialEq, Clone)]
pub enum LiteralValue {
    LiteralUndefined,
    LiteralNull,
    LiteralTrue,
    LiteralFalse,
    LiteralInteger(u64),
    LiteralFloat(OwnedSlice),
    LiteralString(OwnedSlice),
}

/// A named function or arrow-function parameter.
#[derive(Debug, PartialEq, Clone)]
pub struct Parameter {
    pub name: OwnedSlice,
}

/// Every operator of the language.
#[derive(Debug, Clone, Copy, PartialEq, Eq, Structural)]
pub enum OperatorType {
    FatArrow,
    Accessor,
    New,
    Increment,
    Decrement,
    LogicalNot,
    BitwiseNot,
    Typeof,
    Void,
    Delete,
    Multiplication,
    Division,
    Remainder,
    Exponent,
    Addition,
    Substraction,
    BitShiftLeft,
    BitShiftRight,
    UBitShiftRight,
    Lesser,
    LesserEquals,
    Greater,
    GreaterEquals,
    Instanceof,
    In,
    StrictEquality,
    StrictInequality,
    Equality,
    Inequality,
    BitwiseAnd,
    BitwiseXor,
    BitwiseOr,
    LogicalAnd,
    LogicalOr,
    Conditional,
    Assign,
    AddAssign,
    SubstractAssign,
    ExponentAssign,
    MultiplyAssign,
    DivideAssign,
    RemainderAssign,
    BSLAssign,
    BSRAssign,
    UBSRAssign,
    BitAndAssign,
    BitXorAssign,
    BitOrAssign,
    Spread,
}

impl OperatorType {
    /// The precedence of the operator: higher binds tighter. `+` and `-` stand
    /// at the additive level here; the parser reads their operand at the unary
    /// level when they stand before it.
    pub open spec fn bp(self) -> u8 {
        match self {
            OperatorType::FatArrow | OperatorType::Accessor => 18,
            OperatorType::New => 17,
            OperatorType::Increment | OperatorType::Decrement => 16,
            OperatorType::LogicalNot | OperatorType::BitwiseNot | OperatorType::Typeof |
            OperatorType::Void | OperatorType::Delete => 15,
            OperatorType::Multiplication | OperatorType::Division |
            OperatorType::Remainder | OperatorType::Exponent => 14,
            OperatorType::Addition | OperatorType::Substraction => 13,
            OperatorType::BitShiftLeft | OperatorType::BitShiftRight |
            OperatorType::UBitShiftRight => 12,
            OperatorType::Lesser | OperatorType::LesserEquals | OperatorType::Greater |
            OperatorType::GreaterEquals | OperatorType::Instanceof | OperatorType::In => 11,
            OperatorType::StrictEquality | OperatorType::StrictInequality |
            OperatorType::Equality | OperatorType::Inequality => 10,
            OperatorType::BitwiseAnd => 9,
            OperatorType::BitwiseXor => 8,
            OperatorType::BitwiseOr => 7,
            OperatorType::LogicalAnd => 6,
            OperatorType::LogicalOr => 5,
            OperatorType::Conditional => 4,
            OperatorType::Assign | OperatorType::AddAssign |
            OperatorType::SubstractAssign | OperatorType::ExponentAssign |
            OperatorType::MultiplyAssign | OperatorType::DivideAssign |
            OperatorType::RemainderAssign | OperatorType::BSLAssign |
            OperatorType::BSRAssign | OperatorType::UBSRAssign |
            OperatorType::BitAndAssign | OperatorType::BitXorAssign |
            OperatorType::BitOrAssign => 3,
            OperatorType::Spread => 1,
        }
    }

    /// Whether the operator may stand before its operand.
    pub open spec fn is_prefix(self) -> bool {
        match self {
            OperatorType::LogicalNot | OperatorType::BitwiseNot | OperatorType::Typeof |
            OperatorType::Void | OperatorType::Delete | OperatorType::New |
            OperatorType::Spread | OperatorType::Increment | OperatorType::Decrement |
            OperatorType::Addition | OperatorType::Substraction => true,
            _ => false,
        }
    }

    /// Whether the operator may stand between two operands.
    pub open spec fn is_infix(self) -> bool {
        match self {
            OperatorType::FatArrow | OperatorType::Accessor | OperatorType::Increment |
            OperatorType::Decrement | OperatorType::Multiplication | OperatorType::Division |
            OperatorType::Remainder | OperatorType::Exponent | OperatorType::Addition |
            OperatorType::Substraction | OperatorType::BitShiftLeft |
            OperatorType::BitShiftRight | OperatorType::UBitShiftRight |
            OperatorType::Lesser | OperatorType::LesserEquals | OperatorType::Greater |
            OperatorType::GreaterEquals | OperatorType::Instanceof | OperatorType::In |
            OperatorType::StrictEquality | OperatorType::StrictInequality |
            OperatorType::Equality | OperatorType::Inequality | OperatorType::BitwiseAnd |
            OperatorType::BitwiseXor | OperatorType::BitwiseOr |
            OperatorType::LogicalAnd | OperatorType::LogicalOr |
            OperatorType::Conditional | OperatorType::Assign | OperatorType::AddAssign |
            OperatorType::SubstractAssign | OperatorType::ExponentAssign |
            OperatorType::MultiplyAssign | OperatorType::DivideAssign |
            OperatorType::RemainderAssign | OperatorType::BSLAssign |
            OperatorType::BSRAssign | OperatorType::UBSRAssign |
            OperatorType::BitAndAssign | OperatorType::BitXorAssign |
            OperatorType::BitOrAssign => true,
            _ => false,
        }
    }

    /// Whether the operator is `=` or a compound assignment.
    pub open spec fn is_assignment(self) -> bool {
        match self {
            OperatorType::Assign | OperatorType::AddAssign |
            OperatorType::SubstractAssign | OperatorType::ExponentAssign |
            OperatorType::MultiplyAssign | OperatorType::DivideAssign |
            OperatorType::RemainderAssign | OperatorType::BSLAssign |
            OperatorType::BSRAssign | OperatorType::UBSRAssign |
            OperatorType::BitAndAssign | OperatorType::BitXorAssign |
            OperatorType::BitOrAssign => true,
            _ => false,
        }
    }

    /// The operator's binding power, from the precedence table.
    pub fn binding_power(&self) -> (r: u8)
        ensures
            r == self.bp(),
            1 <= r <= 18,
    {
        match *self {
            OperatorType::FatArrow | OperatorType::Accessor => 18,
            OperatorType::New => 17,
            OperatorType::Increment | OperatorType::Decrement => 16,
            OperatorType::LogicalNot | OperatorType::BitwiseNot | OperatorType::Typeof |
            OperatorType::Void | OperatorType::Delete => 15,
            OperatorType::Multiplication | OperatorType::Division |
            OperatorType::Remainder | OperatorType::Exponent => 14,
            OperatorType::Addition | OperatorType::Substraction => 13,
            OperatorType::BitShiftLeft | OperatorType::BitShiftRight |
            OperatorType::UBitShiftRight => 12,
            OperatorType::Lesser | OperatorType::LesserEquals | OperatorType::Greater |
            OperatorType::GreaterEquals | OperatorType::Instanceof | OperatorType::In => 11,
            OperatorType::StrictEquality | OperatorType::StrictInequality |
            OperatorType::Equality | OperatorType::Inequality => 10,
            OperatorType::BitwiseAnd => 9,
            OperatorType::BitwiseXor => 8,
            OperatorType::BitwiseOr => 7,
            OperatorType::LogicalAnd => 6,
            OperatorType::LogicalOr => 5,
            OperatorType::Conditional => 4,
            OperatorType::Assign | OperatorType::AddAssign |
            OperatorType::SubstractAssign | OperatorType::ExponentAssign |
            OperatorType::MultiplyAssign | OperatorType::DivideAssign |
            OperatorType::RemainderAssign | OperatorType::BSLAssign |
            OperatorType::BSRAssign | OperatorType::UBSRAssign |
            OperatorType::BitAndAssign | OperatorType::BitXorAssign |
            OperatorType::BitOrAssign => 3,
            OperatorType::Spread => 1,
        }
    }

    pub fn prefix(&self) -> (r: bool)
        ensures
            r == self.is_prefix(),
    {
        match *self {
            OperatorType::LogicalNot | OperatorType::BitwiseNot | OperatorType::Typeof |
            OperatorType::Void | OperatorType::Delete | OperatorType::New |
            OperatorType::Spread | OperatorType::Increment | OperatorType::Decrement |
            OperatorType::Addition | OperatorType::Substraction => true,
            _ => false,
        }
    }

    pub fn infix(&self) -> (r: bool)
        ensures
            r == self.is_infix(),
    {
        match *self {
            OperatorType::FatArrow | OperatorType::Accessor | OperatorType::Increment |
            OperatorType::Decrement | OperatorType::Multiplication | OperatorType::Division |
            OperatorType::Remainder | OperatorType::Exponent | OperatorType::Addition |
            OperatorType::Substraction | OperatorType::BitShiftLeft |
            OperatorType::BitShiftRight | OperatorType::UBitShiftRight |
            OperatorType::Lesser | OperatorType::LesserEquals | OperatorType::Greater |
            OperatorType::GreaterEquals | OperatorType::Instanceof | OperatorType::In |
            OperatorType::StrictEquality | OperatorType::StrictInequality |
            OperatorType::Equality | OperatorType::Inequality | OperatorType::BitwiseAnd |
            OperatorType::BitwiseXor | OperatorType::BitwiseOr |
            OperatorType::LogicalAnd | OperatorType::LogicalOr |
            OperatorType::Conditional | OperatorType::Assign | OperatorType::AddAssign |
            OperatorType::SubstractAssign | OperatorType::ExponentAssign |
            OperatorType::MultiplyAssign | OperatorType::DivideAssign |
            OperatorType::RemainderAssign | OperatorType::BSLAssign |
            OperatorType::BSRAssign | OperatorType::UBSRAssign |
            OperatorType::BitAndAssign | OperatorType::BitXorAssign |
            OperatorType::BitOrAssign => true,
            _ => false,
        }
    }

    pub fn assignment(&self) -> (r: bool)
        ensures
            r == self.is_assignment(),
    {
        match *self {
            OperatorType::Assign | OperatorType::AddAssign |
            OperatorType::SubstractAssign | OperatorType::ExponentAssign |
            OperatorType::MultiplyAssign | OperatorType::DivideAssign |
            OperatorType::RemainderAssign | OperatorType::BSLAssign |
            OperatorType::BSRAssign | OperatorType::UBSRAssign |
            OperatorType::BitAndAssign | OperatorType::BitXorAssign |
            OperatorType::BitOrAssign => true,
            _ => false,
        }
    }
}

/// Every operator can stand before an operand or between two, unless it is the
/// spread or an assignment; and the precedence levels are ordered as the
/// language fixes them, from member access down to spread, with every operator of
/// one level sharing its binding power.
pub proof fn lemma_operator_table(op: OperatorType)
    ensures
        op.is_prefix() || op.is_infix() || op == OperatorType::Spread || op.is_assignment(),
        1 <= op.bp() <= 18,
        op.is_assignment() ==> op.bp() == 3 && op.is_infix(),
        OperatorType::Accessor.bp() > OperatorType::New.bp(),
        OperatorType::New.bp() > OperatorType::Increment.bp(),
        OperatorType::Increment.bp() > OperatorType::LogicalNot.bp(),
        OperatorType::LogicalNot.bp() > OperatorType::Multiplication.bp(),
        OperatorType::Multiplication.bp() > OperatorType::Addition.bp(),
        OperatorType::Addition.bp() > OperatorType::BitShiftLeft.bp(),
        OperatorType::BitShiftLeft.bp() > OperatorType::Lesser.bp(),
        OperatorType::Lesser.bp() > OperatorType::StrictEquality.bp(),
        OperatorType::StrictEquality.bp() > OperatorType::BitwiseAnd.bp(),
        OperatorType::BitwiseAnd.bp() > OperatorType::BitwiseXor.bp(),
        OperatorType::BitwiseXor.bp() > OperatorType::BitwiseOr.bp(),
        OperatorType::BitwiseOr.bp() > OperatorType::LogicalAnd.bp(),
        OperatorType::LogicalAnd.bp() > OperatorType::LogicalOr.bp(),
        OperatorType::LogicalOr.bp() > OperatorType::Conditional.bp(),
        OperatorType::Conditional.bp() > OperatorType::Assign.bp(),
        OperatorType::Assign.bp() > OperatorType::Spread.bp(),
        OperatorType::FatArrow.bp() == OperatorType::Accessor.bp(),
        OperatorType::Decrement.bp() == OperatorType::Increment.bp(),
        (op == OperatorType::BitwiseNot || op == OperatorType::Typeof || op == OperatorType::Void
            || op == OperatorType::Delete) ==> op.bp() == OperatorType::LogicalNot.bp(),
        (op == OperatorType::Division || op == OperatorType::Remainder
            || op == OperatorType::Exponent) ==> op.bp() == OperatorType::Multiplication.bp(),
        op == OperatorType::Substraction ==> op.bp() == OperatorType::Addition.bp(),
        (op == OperatorType::BitShiftRight || op == OperatorType::UBitShiftRight) ==> op.bp()
            == OperatorType::BitShiftLeft.bp(),
        (op == OperatorType::LesserEquals || op == OperatorType::Greater
            || op == OperatorType::GreaterEquals || op == OperatorType::Instanceof
            || op == OperatorType::In) ==> op.bp() == OperatorType::Lesser.bp(),
        (op == OperatorType::StrictInequality || op == OperatorType::Equality
            || op == OperatorType::Inequality) ==> op.bp() == OperatorType::StrictEquality.bp(),
{
}

/// An expression.
#[derive(Debug, PartialEq)]
pub enum Expression {
    This,
    Identifier(OwnedSlice),
    Literal(LiteralValue),
    Array(Vec<Expression>),
    Sequence(Vec<Expression>),
    Object(Vec<ObjectMember>),
    Member { object: Box<Expression>, property: OwnedSlice },
    ComputedMember { object: Box<Expression>, property: Box<Expression> },
    Call { callee: Box<Expression>, arguments: Vec<Expression> },
    Binary { left: Box<Expression>, operator: OperatorType, right: Box<Expression> },
    Prefix { operator: OperatorType, operand: Box<Expression> },
    Postfix { operator: OperatorType, operand: Box<Expression> },
    Conditional {
        test: Box<Expression>,
        consequent: Box<Expression>,
        alternate: Box<Expression>,
    },
    ArrowFunction { params: Vec<Parameter>, body: Box<Statement> },
    Function { name: Option<OwnedSlice>, params: Vec<Parameter>, body: Vec<Statement> },
}

impl Expression {
    /// How tightly the expression holds together when it stands as an operand:
    /// atoms never need parentheses.
    pub open spec fn bp(&self) -> u8 {
        match *self {
            Expression::Member { .. } | Expression::ArrowFunction { .. } => 18,
            Expression::Call { .. } => 17,
            Expression::Prefix { .. } => 15,
            Expression::Binary { operator, .. } | Expression::Postfix { operator, .. } => {
                operator.bp()
            },
            Expression::Conditional { .. } => 4,
            _ => 100,
        }
    }

    pub fn binding_power(&self) -> (r: u8)
        ensures
            r == self.bp(),
    {
        match self {
            Expression::Member { .. } | Expression::ArrowFunction { .. } => 18,
            Expression::Call { .. } => 17,
            Expression::Prefix { .. } => 15,
            Expression::Binary { operator, .. } | Expression::Postfix { operator, .. } => {
                operator.binding_power()
            },
            Expression::Conditional { .. } => 4,
            _ => 100,
        }
    }

    pub fn binary(left: Expression, operator: OperatorType, right: Expression) -> (r: Self)
        ensures
            r == (Expression::Binary { left: Box::new(left), operator, right: Box::new(right) }),
    {
        Expression::Binary { left: Box::new(left), operator, right: Box::new(right) }
    }

    pub fn member(object: Expression, property: OwnedSlice) -> (r: Self)
        ensures
            r == (Expression::Member { object: Box::new(object), property }),
    {
        Expression::Member { object: Box::new(object), property }
    }

    pub fn call(callee: Expression, arguments: Vec<Expression>) -> (r: Self)
        ensures
            r == (Expression::Call { callee: Box::new(callee), arguments }),
    {
        Expression::Call { callee: Box::new(callee), arguments }
    }
}

/// A member of an object literal.
#[derive(Debug, PartialEq)]
pub enum ObjectMember {
    Shorthand { key: OwnedSlice },
    Literal { key: OwnedSlice, value: Expression },
    Computed { key: Expression, value: Expression },
    Method { name: OwnedSlice, params: Vec<Parameter>, body: Vec<Statement> },
    ComputedMethod { name: Expression, params: Vec<Parameter>, body: Vec<Statement> },
}

/// A member of a class body.
#[derive(Debug, PartialEq)]
pub enum ClassMember {
    Constructor { params: Vec<Parameter>, body: Vec<Statement> },
    Method { is_static: bool, name: OwnedSlice, params: Vec<Parameter>, body: Vec<Statement> },
    Property { is_static: bool, name: OwnedSlice, value: Expression },
}

#[derive(Debug, Clone, Copy, PartialEq, Eq, Structural)]
pub enum VariableDeclarationKind {
    Var,
    Let,
    Const,
}

/// One `name = value` of a variable declaration.
#[derive(Debug, PartialEq)]
pub struct VariableDeclarator {
    pub name: OwnedSlice,
    pub value: Option<Expression>,
}

/// A statement. `Transparent` is no statement of the language: it lets a pass
/// over the tree put several statements where one stood, without braces.
#[derive(Debug, PartialEq)]
pub enum Statement {
    Block { body: Vec<Statement> },
    Transparent { body: Vec<Statement> },
    Labeled { label: OwnedSlice, body: Box<Statement> },
    VariableDeclaration { kind: VariableDeclarationKind, declarators: Vec<VariableDeclarator> },
    Expression { value: Expression },
    Return { value: Option<Expression> },
    Break { label: Option<OwnedSlice> },
    Function { name: OwnedSlice, params: Vec<Parameter>, body: Vec<Statement> },
    If { test: Expression, consequent: Box<Statement>, alternate: Option<Box<Statement>> },
    While { test: Expression, body: Box<Statement> },
    For {
        init: Option<Box<Statement>>,
        test: Option<Expression>,
        update: Option<Expression>,
        body: Box<Statement>,
    },
    ForIn { left: Box<Statement>, right: Expression, body: Box<Statement> },
    ForOf { left: Box<Statement>, right: Expression, body: Box<Statement> },
    Class { name: OwnedSlice, extends: Option<OwnedSlice>, body: Vec<ClassMember> },
    Throw { value: Expression },
}

/// A whole program: its source text and its top-level statements in order.
#[derive(Debug, PartialEq)]
pub struct Program {
    pub source: String,
    pub body: Vec<Statement>,
}

impl Program {
    pub fn new(source: String, body: Vec<Statement>) -> (r: Self)
        ensures
            r.source == source,
            r.body == body,
    {
        Program { source, body }
    }
}

} // verus!
