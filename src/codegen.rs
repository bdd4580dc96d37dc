use vstd::prelude::*;
use vstd::string::StringSliceAdditionalSpecFns;
use crate::grammar::{
    ClassMember, Expression, LiteralValue, ObjectMember, OperatorType, OwnedSlice, Parameter,
    Program, Statement, VariableDeclarationKind, VariableDeclarator,
};

verus! {

broadcast use vstd::std_specs::vec::group_vec_axioms;

/// `pretty` in pretty mode, `min` in minify mode.
pub open spec fn pick(m: bool, pretty: Seq<u8>, min: Seq<u8>) -> Seq<u8> {
    if m {
        min
    } else {
        pretty
    }
}

/// A line break followed by the indentation: nothing in minify mode.
pub open spec fn nl(m: bool, ind: Seq<u8>) -> Seq<u8> {
    if m {
        Seq::empty()
    } else {
        "\n".spec_bytes() + ind
    }
}

/// The indentation one level deeper.
pub open spec fn deeper(ind: Seq<u8>) -> Seq<u8> {
    ind + seq![32u8, 32u8, 32u8, 32u8]
}

/// The separator between the items of a list.
pub open spec fn comma(m: bool) -> Seq<u8> {
    pick(m, ", ".spec_bytes(), ",".spec_bytes())
}

/// The decimal digits of `n`, without leading zeros.
pub open spec fn decimal(n: nat) -> Seq<u8>
    decreases n,
{
    if n < 10 {
        seq![(n + 48) as u8]
    } else {
        decimal(n / 10).push((n % 10 + 48) as u8)
    }
}

/// How an operator is written.
pub open spec fn operator_text(op: OperatorType) -> Seq<u8> {
    match op {
        OperatorType::FatArrow => "=>".spec_bytes(),
        OperatorType::Accessor => ".".spec_bytes(),
        OperatorType::New => "new".spec_bytes(),
        OperatorType::Increment => "++".spec_bytes(),
        OperatorType::Decrement => "--".spec_bytes(),
        OperatorType::LogicalNot => "!".spec_bytes(),
        OperatorType::BitwiseNot => "~".spec_bytes(),
        OperatorType::Typeof => "typeof".spec_bytes(),
        OperatorType::Void => "void".spec_bytes(),
        OperatorType::Delete => "delete".spec_bytes(),
        OperatorType::Multiplication => "*".spec_bytes(),
        OperatorType::Division => "/".spec_bytes(),
        OperatorType::Remainder => "%".spec_bytes(),
        OperatorType::Exponent => "**".spec_bytes(),
        OperatorType::Addition => "+".spec_bytes(),
        OperatorType::Substraction => "-".spec_bytes(),
        OperatorType::BitShiftLeft => "<<".spec_bytes(),
        OperatorType::BitShiftRight => ">>".spec_bytes(),
        OperatorType::UBitShiftRight => ">>>".spec_bytes(),
        OperatorType::Lesser => "<".spec_bytes(),
        OperatorType::LesserEquals => "<=".spec_bytes(),
        OperatorType::Greater => ">".spec_bytes(),
        OperatorType::GreaterEquals => ">=".spec_bytes(),
        OperatorType::Instanceof => "instanceof".spec_bytes(),
        OperatorType::In => "in".spec_bytes(),
        OperatorType::StrictEquality => "===".spec_bytes(),
        OperatorType::StrictInequality => "!==".spec_bytes(),
        OperatorType::Equality => "==".spec_bytes(),
        OperatorType::Inequality => "!=".spec_bytes(),
        OperatorType::BitwiseAnd => "&".spec_bytes(),
        OperatorType::BitwiseXor => "^".spec_bytes(),
        OperatorType::BitwiseOr => "|".spec_bytes(),
        OperatorType::LogicalAnd => "&&".spec_bytes(),
        OperatorType::LogicalOr => "||".spec_bytes(),
        OperatorType::Conditional => "?".spec_bytes(),
        OperatorType::Assign => "=".spec_bytes(),
        OperatorType::AddAssign => "+=".spec_bytes(),
        OperatorType::SubstractAssign => "-=".spec_bytes(),
        OperatorType::ExponentAssign => "**=".spec_bytes(),
        OperatorType::MultiplyAssign => "*=".spec_bytes(),
        OperatorType::DivideAssign => "/=".spec_bytes(),
        OperatorType::RemainderAssign => "%=".spec_bytes(),
        OperatorType::BSLAssign => "<<=".spec_bytes(),
        OperatorType::BSRAssign => ">>=".spec_bytes(),
        OperatorType::UBSRAssign => ">>>=".spec_bytes(),
        OperatorType::BitAndAssign => "&=".spec_bytes(),
        OperatorType::BitXorAssign => "^=".spec_bytes(),
        OperatorType::BitOrAssign => "|=".spec_bytes(),
        OperatorType::Spread => "...".spec_bytes(),
    }
}

pub open spec fn kind_text(kind: VariableDeclarationKind) -> Seq<u8> {
    match kind {
        VariableDeclarationKind::Var => "var".spec_bytes(),
        VariableDeclarationKind::Let => "let".spec_bytes(),
        VariableDeclarationKind::Const => "const".spec_bytes(),
    }
}

/// How a literal is written: minify mode shortens `true`, `false` and
/// `undefined`; other literals keep their text.
pub open spec fn literal_code(v: LiteralValue, m: bool) -> Seq<u8> {
    match v {
        LiteralValue::LiteralUndefined => pick(m, "undefined".spec_bytes(), "void 0".spec_bytes()),
        LiteralValue::LiteralNull => "null".spec_bytes(),
        LiteralValue::LiteralTrue => pick(m, "true".spec_bytes(), "!0".spec_bytes()),
        LiteralValue::LiteralFalse => pick(m, "false".spec_bytes(), "!1".spec_bytes()),
        LiteralValue::LiteralInteger(n) => decimal(n as nat),
        LiteralValue::LiteralFloat(s) => s@,
        LiteralValue::LiteralString(s) => s@,
    }
}

/// Parameter names separated by commas.
pub open spec fn params_code(ps: Seq<Parameter>, m: bool) -> Seq<u8>
    decreases ps.len(),
{
    if ps.len() == 0 {
        Seq::empty()
    } else {
        params_code(ps.drop_last(), m) + (if ps.len() > 1 {
            comma(m)
        } else {
            Seq::empty()
        }) + ps.last().name@
    }
}

/// The head of a `for` loop, `for`-`in` or `for`-`of`: a declaration without
/// its semicolon, or an expression.
pub open spec fn is_loop_head(s: Statement) -> bool {
    s is VariableDeclaration || s is Expression
}

/// Whether every loop head in the expression is a declaration or an expression.
pub open spec fn expr_ok(e: Expression) -> bool
    decreases e,
{
    match e {
        Expression::Array(items) => forall|i: int| 0 <= i < items.len() ==> expr_ok(#[trigger] items@[i]),
        Expression::Sequence(items) => forall|i: int| 0 <= i < items.len() ==> expr_ok(#[trigger] items@[i]),
        Expression::Object(ms) => forall|i: int| 0 <= i < ms.len() ==> member_ok(#[trigger] ms@[i]),
        Expression::Member { object, .. } => expr_ok(*object),
        Expression::ComputedMember { object, property } => expr_ok(*object) && expr_ok(*property),
        Expression::Call { callee, arguments } => expr_ok(*callee) && forall|i: int|
            0 <= i < arguments.len() ==> expr_ok(#[trigger] arguments@[i]),
        Expression::Binary { left, right, .. } => expr_ok(*left) && expr_ok(*right),
        Expression::Prefix { operand, .. } => expr_ok(*operand),
        Expression::Postfix { operand, .. } => expr_ok(*operand),
        Expression::Conditional { test, consequent, alternate } => expr_ok(*test) && expr_ok(
            *consequent,
        ) && expr_ok(*alternate),
        Expression::ArrowFunction { body, .. } => stmt_ok(*body),
        Expression::Function { body, .. } => forall|i: int| 0 <= i < body.len() ==> stmt_ok(#[trigger] body@[i]),
        _ => true,
    }
}

pub open spec fn member_ok(om: ObjectMember) -> bool
    decreases om,
{
    match om {
        ObjectMember::Shorthand { .. } => true,
        ObjectMember::Literal { value, .. } => expr_ok(value),
        ObjectMember::Computed { key, value } => expr_ok(key) && expr_ok(value),
        ObjectMember::Method { body, .. } => forall|i: int| 0 <= i < body.len() ==> stmt_ok(#[trigger] body@[i]),
        ObjectMember::ComputedMethod { name, body, .. } => expr_ok(name) && forall|i: int|
            0 <= i < body.len() ==> stmt_ok(#[trigger] body@[i]),
    }
}

pub open spec fn class_member_ok(c: ClassMember) -> bool
    decreases c,
{
    match c {
        ClassMember::Constructor { body, .. } => forall|i: int| 0 <= i < body.len() ==> stmt_ok(#[trigger] body@[i]),
        ClassMember::Method { body, .. } => forall|i: int| 0 <= i < body.len() ==> stmt_ok(#[trigger] body@[i]),
        ClassMember::Property { value, .. } => expr_ok(value),
    }
}

pub open spec fn declarator_ok(d: VariableDeclarator) -> bool
    decreases d,
{
    match d.value {
        Some(v) => expr_ok(v),
        None => true,
    }
}

pub open spec fn opt_expr_ok(e: Option<Expression>) -> bool
    decreases e,
{
    match e {
        Some(v) => expr_ok(v),
        None => true,
    }
}

/// Whether every loop head in the statement is a declaration or an expression.
pub open spec fn stmt_ok(s: Statement) -> bool
    decreases s,
{
    match s {
        Statement::Block { body } => forall|i: int| 0 <= i < body.len() ==> stmt_ok(#[trigger] body@[i]),
        Statement::Transparent { body } => forall|i: int| 0 <= i < body.len() ==> stmt_ok(#[trigger] body@[i]),
        Statement::Labeled { body, .. } => stmt_ok(*body),
        Statement::VariableDeclaration { declarators, .. } => declarators.len() > 0 && forall|i: int|
            0 <= i < declarators.len() ==> declarator_ok(#[trigger] declarators@[i]),
        Statement::Expression { value } => expr_ok(value),
        Statement::Return { value } => opt_expr_ok(value),
        Statement::Break { .. } => true,
        Statement::Function { body, .. } => forall|i: int| 0 <= i < body.len() ==> stmt_ok(#[trigger] body@[i]),
        Statement::If { test, consequent, alternate } => expr_ok(test) && stmt_ok(*consequent) && (match alternate {
            Some(a) => stmt_ok(*a),
            None => true,
        }),
        Statement::While { test, body } => expr_ok(test) && stmt_ok(*body),
        Statement::For { init, test, update, body } => (match init {
            Some(i) => is_loop_head(*i) && stmt_ok(*i),
            None => true,
        }) && opt_expr_ok(test) && opt_expr_ok(update) && stmt_ok(*body),
        Statement::ForIn { left, right, body } => is_loop_head(*left) && stmt_ok(*left) && expr_ok(right)
            && stmt_ok(*body),
        Statement::ForOf { left, right, body } => is_loop_head(*left) && stmt_ok(*left) && expr_ok(right)
            && stmt_ok(*body),
        Statement::Class { body, .. } => forall|i: int| 0 <= i < body.len() ==> class_member_ok(#[trigger] body@[i]),
        Statement::Throw { value } => expr_ok(value),
    }
}

/// Whether the program can be generated: every loop head in it is a
/// declaration or an expression.
pub open spec fn program_ok(p: Program) -> bool {
    forall|i: int| 0 <= i < p.body.len() ==> stmt_ok(#[trigger] p.body@[i])
}

/// What an optional name or value adds after `sep`: nothing when absent.
pub open spec fn opt_slice_code(sep: Seq<u8>, s: Option<OwnedSlice>) -> Seq<u8> {
    match s {
        Some(v) => sep + v@,
        None => Seq::empty(),
    }
}

/// `code` between parentheses when `parens` holds.
pub open spec fn wrap(parens: bool, code: Seq<u8>) -> Seq<u8> {
    if parens {
        seq![40u8] + code + seq![41u8]
    } else {
        code
    }
}

/// A space when `b` holds, else nothing.
pub open spec fn space(b: bool) -> Seq<u8> {
    if b {
        " ".spec_bytes()
    } else {
        Seq::empty()
    }
}

/// An operator written as a word, which must not touch a neighbouring word.
pub open spec fn word_operator(op: OperatorType) -> bool {
    op == OperatorType::Typeof || op == OperatorType::Void || op == OperatorType::Delete || op
        == OperatorType::New || op == OperatorType::In || op == OperatorType::Instanceof
}

/// An operator whose text ends with `+` or `-`, which must not touch another
/// `+` or `-`.
pub open spec fn sign_operator(op: OperatorType) -> bool {
    op == OperatorType::Addition || op == OperatorType::Substraction || op
        == OperatorType::Increment || op == OperatorType::Decrement
}

/// Whether the text written for `e` starts with `+` or `-`: its leftmost part
/// is a prefix `+`, `-`, `++` or `--` that no parenthesis precedes.
pub open spec fn starts_with_sign(e: Expression) -> bool
    decreases e,
{
    match e {
        Expression::Prefix { operator, .. } => sign_operator(operator),
        Expression::Postfix { operator, operand } => !(operand.bp() < operator.bp())
            && starts_with_sign(*operand),
        Expression::Binary { left, operator, .. } => !(left.bp() < operator.bp())
            && starts_with_sign(*left),
        Expression::Member { object, .. } => !(object.bp() < 17) && starts_with_sign(*object),
        Expression::ComputedMember { object, .. } => !(object.bp() < 17) && starts_with_sign(
            *object,
        ),
        Expression::Call { callee, .. } => !(callee.bp() < 17) && starts_with_sign(*callee),
        Expression::Conditional { test, .. } => starts_with_sign(*test),
        _ => false,
    }
}

/// Whether a space must follow `op` when `next` comes after it: a word
/// operator always takes one, and a sign before a sign does.
pub open spec fn gap_after(op: OperatorType, next: Expression, parens: bool) -> bool {
    word_operator(op) || (sign_operator(op) && !parens && starts_with_sign(next))
}

/// The bytes written for an expression, in mode `m`, at indentation `ind`.
pub open spec fn expr_code(e: Expression, m: bool, ind: Seq<u8>) -> Seq<u8>
    decreases e,
{
    match e {
        Expression::This => "this".spec_bytes(),
        Expression::Identifier(s) => s@,
        Expression::Literal(v) => literal_code(v, m),
        Expression::Array(items) => "[".spec_bytes() + exprs_code(items@, m, ind) + "]".spec_bytes(),
        Expression::Sequence(items) => "(".spec_bytes() + exprs_code(items@, m, ind) + ")".spec_bytes(),
        Expression::Object(ms) => "{".spec_bytes() + members_code(ms@, m, deeper(ind)) + nl(m, ind)
            + "}".spec_bytes(),
        Expression::Member { object, property } => wrap(
            object.bp() < 17,
            expr_code(*object, m, ind),
        ) + ".".spec_bytes() + property@,
        Expression::ComputedMember { object, property } => wrap(
            object.bp() < 17,
            expr_code(*object, m, ind),
        ) + "[".spec_bytes() + expr_code(*property, m, ind) + "]".spec_bytes(),
        Expression::Call { callee, arguments } => wrap(callee.bp() < 17, expr_code(*callee, m, ind))
            + "(".spec_bytes() + exprs_code(arguments@, m, ind) + ")".spec_bytes(),
        Expression::Binary { left, operator, right } => (if left.bp() < operator.bp() {
            seq![40u8] + expr_code(*left, m, ind) + seq![41u8]
        } else {
            expr_code(*left, m, ind)
        }) + pick(m, " ".spec_bytes(), space(word_operator(operator))) + operator_text(operator)
            + pick(m, " ".spec_bytes(), space(gap_after(operator, *right, false))) + expr_code(
            *right,
            m,
            ind,
        ),
        Expression::Prefix { operator, operand } => operator_text(operator) + space(
            gap_after(operator, *operand, operand.bp() < 15),
        ) + wrap(operand.bp() < 15, expr_code(*operand, m, ind)),
        Expression::Postfix { operator, operand } => wrap(
            operand.bp() < operator.bp(),
            expr_code(*operand, m, ind),
        ) + operator_text(operator),
        Expression::Conditional { test, consequent, alternate } => expr_code(*test, m, ind) + pick(
            m,
            " ? ".spec_bytes(),
            "?".spec_bytes(),
        ) + expr_code(*consequent, m, ind) + pick(m, " : ".spec_bytes(), ":".spec_bytes())
            + expr_code(*alternate, m, ind),
        Expression::ArrowFunction { params, body } => (if params.len() == 1 {
            params@[0].name@
        } else {
            "(".spec_bytes() + params_code(params@, m) + ")".spec_bytes()
        }) + pick(m, " => ".spec_bytes(), "=>".spec_bytes()) + match *body {
            Statement::Expression { value } => expr_code(value, m, ind),
            _ => stmt_code(*body, m, ind),
        },
        Expression::Function { name, params, body } => "function".spec_bytes() + (match name {
            Some(n) => " ".spec_bytes() + n@,
            None => pick(m, " ".spec_bytes(), Seq::empty()),
        }) + "(".spec_bytes() + params_code(params@, m) + pick(
            m,
            ") {".spec_bytes(),
            "){".spec_bytes(),
        ) + stmts_code(body@, m, deeper(ind)) + nl(m, ind) + "}".spec_bytes(),
    }
}

/// Expressions separated by commas.
pub open spec fn exprs_code(es: Seq<Expression>, m: bool, ind: Seq<u8>) -> Seq<u8>
    decreases es,
{
    if es.len() == 0 {
        Seq::empty()
    } else {
        exprs_code(es.drop_last(), m, ind) + (if es.len() > 1 {
            comma(m)
        } else {
            Seq::empty()
        }) + expr_code(es.last(), m, ind)
    }
}

/// Object members, each on a line of its own at `ind`, separated by commas.
pub open spec fn members_code(ms: Seq<ObjectMember>, m: bool, ind: Seq<u8>) -> Seq<u8>
    decreases ms,
{
    if ms.len() == 0 {
        Seq::empty()
    } else {
        members_code(ms.drop_last(), m, ind) + (if ms.len() > 1 {
            ",".spec_bytes()
        } else {
            Seq::empty()
        }) + nl(m, ind) + member_code(ms.last(), m, ind)
    }
}

pub open spec fn member_code(om: ObjectMember, m: bool, ind: Seq<u8>) -> Seq<u8>
    decreases om,
{
    match om {
        ObjectMember::Shorthand { key } => key@,
        ObjectMember::Literal { key, value } => key@ + pick(m, ": ".spec_bytes(), ":".spec_bytes())
            + expr_code(value, m, ind),
        ObjectMember::Computed { key, value } => "[".spec_bytes() + expr_code(key, m, ind) + pick(
            m,
            "]: ".spec_bytes(),
            "]:".spec_bytes(),
        ) + expr_code(value, m, ind),
        ObjectMember::Method { name, params, body } => name@ + "(".spec_bytes() + params_code(
            params@,
            m,
        ) + pick(m, ") {".spec_bytes(), "){".spec_bytes()) + stmts_code(body@, m, deeper(ind))
            + nl(m, ind) + "}".spec_bytes(),
        ObjectMember::ComputedMethod { name, params, body } => "[".spec_bytes() + expr_code(
            name,
            m,
            ind,
        ) + "](".spec_bytes() + params_code(params@, m) + pick(
            m,
            ") {".spec_bytes(),
            "){".spec_bytes(),
        ) + stmts_code(body@, m, deeper(ind)) + nl(m, ind) + "}".spec_bytes(),
    }
}

/// Statements, each on a line of its own at `ind`.
pub open spec fn stmts_code(ss: Seq<Statement>, m: bool, ind: Seq<u8>) -> Seq<u8>
    decreases ss,
{
    if ss.len() == 0 {
        Seq::empty()
    } else {
        stmts_code(ss.drop_last(), m, ind) + nl(m, ind) + stmt_code(ss.last(), m, ind)
    }
}

/// Statements in place, separated by line breaks.
pub open spec fn inline_code(ss: Seq<Statement>, m: bool, ind: Seq<u8>) -> Seq<u8>
    decreases ss,
{
    if ss.len() == 0 {
        Seq::empty()
    } else {
        inline_code(ss.drop_last(), m, ind) + (if ss.len() > 1 {
            nl(m, ind)
        } else {
            Seq::empty()
        }) + stmt_code(ss.last(), m, ind)
    }
}

/// Class members, each on a line of its own at `ind`.
pub open spec fn class_members_code(cs: Seq<ClassMember>, m: bool, ind: Seq<u8>) -> Seq<u8>
    decreases cs,
{
    if cs.len() == 0 {
        Seq::empty()
    } else {
        class_members_code(cs.drop_last(), m, ind) + nl(m, ind) + class_member_code(
            cs.last(),
            m,
            ind,
        )
    }
}

pub open spec fn static_code(is_static: bool) -> Seq<u8> {
    if is_static {
        "static ".spec_bytes()
    } else {
        Seq::empty()
    }
}

pub open spec fn class_member_code(c: ClassMember, m: bool, ind: Seq<u8>) -> Seq<u8>
    decreases c,
{
    match c {
        ClassMember::Constructor { params, body } => "constructor(".spec_bytes() + params_code(
            params@,
            m,
        ) + pick(m, ") {".spec_bytes(), "){".spec_bytes()) + stmts_code(body@, m, deeper(ind))
            + nl(m, ind) + "}".spec_bytes(),
        ClassMember::Method { is_static, name, params, body } => static_code(is_static) + name@
            + "(".spec_bytes() + params_code(params@, m) + pick(
            m,
            ") {".spec_bytes(),
            "){".spec_bytes(),
        ) + stmts_code(body@, m, deeper(ind)) + nl(m, ind) + "}".spec_bytes(),
        ClassMember::Property { is_static, name, value } => static_code(is_static) + name@ + pick(
            m,
            " = ".spec_bytes(),
            "=".spec_bytes(),
        ) + expr_code(value, m, ind) + ";".spec_bytes(),
    }
}

/// Declarators separated by commas.
pub open spec fn declarators_code(ds: Seq<VariableDeclarator>, m: bool, ind: Seq<u8>) -> Seq<u8>
    decreases ds,
{
    if ds.len() == 0 {
        Seq::empty()
    } else {
        declarators_code(ds.drop_last(), m, ind) + (if ds.len() > 1 {
            comma(m)
        } else {
            Seq::empty()
        }) + declarator_code(ds.last(), m, ind)
    }
}

pub open spec fn declarator_code(d: VariableDeclarator, m: bool, ind: Seq<u8>) -> Seq<u8>
    decreases d,
{
    d.name@ + match d.value {
        Some(v) => pick(m, " = ".spec_bytes(), "=".spec_bytes()) + expr_code(v, m, ind),
        None => Seq::empty(),
    }
}

pub open spec fn opt_expr_code(e: Option<Expression>, m: bool, ind: Seq<u8>) -> Seq<u8>
    decreases e,
{
    match e {
        Some(v) => expr_code(v, m, ind),
        None => Seq::empty(),
    }
}

/// A loop head: a declaration without its semicolon, or an expression.
pub open spec fn head_code(s: Statement, m: bool, ind: Seq<u8>) -> Seq<u8>
    decreases s,
{
    match s {
        Statement::VariableDeclaration { kind, declarators } => kind_text(kind) + " ".spec_bytes()
            + declarators_code(declarators@, m, ind),
        Statement::Expression { value } => expr_code(value, m, ind),
        _ => Seq::empty(),
    }
}

/// The bytes written for a statement, in mode `m`, at indentation `ind`.
pub open spec fn stmt_code(s: Statement, m: bool, ind: Seq<u8>) -> Seq<u8>
    decreases s,
{
    match s {
        Statement::Labeled { label, body } => label@ + pick(m, ": ".spec_bytes(), ":".spec_bytes())
            + stmt_code(*body, m, ind),
        Statement::Block { body } => "{".spec_bytes() + stmts_code(body@, m, deeper(ind)) + nl(
            m,
            ind,
        ) + "}".spec_bytes(),
        Statement::Transparent { body } => inline_code(body@, m, ind),
        Statement::Expression { value } => expr_code(value, m, ind) + ";".spec_bytes(),
        Statement::Return { value } => "return".spec_bytes() + (match value {
            Some(v) => " ".spec_bytes() + expr_code(v, m, ind),
            None => Seq::empty(),
        }) + ";".spec_bytes(),
        Statement::Break { label } => "break".spec_bytes() + opt_slice_code(" ".spec_bytes(), label)
            + ";".spec_bytes(),
        Statement::VariableDeclaration { kind, declarators } => kind_text(kind) + " ".spec_bytes()
            + declarators_code(declarators@, m, ind) + ";".spec_bytes(),
        Statement::Function { name, params, body } => nl(m, ind) + "function ".spec_bytes() + name@
            + "(".spec_bytes() + params_code(params@, m) + pick(
            m,
            ") {".spec_bytes(),
            "){".spec_bytes(),
        ) + stmts_code(body@, m, deeper(ind)) + nl(m, ind) + "}".spec_bytes() + nl(m, ind),
        Statement::If { test, consequent, alternate } => pick(
            m,
            "if (".spec_bytes(),
            "if(".spec_bytes(),
        ) + expr_code(test, m, ind) + pick(m, ") ".spec_bytes(), ")".spec_bytes()) + stmt_code(
            *consequent,
            m,
            ind,
        ) + match alternate {
            Some(a) => " else ".spec_bytes() + stmt_code(*a, m, ind),
            None => Seq::empty(),
        },
        Statement::While { test, body } => pick(m, "while (".spec_bytes(), "while(".spec_bytes())
            + expr_code(test, m, ind) + pick(m, ") ".spec_bytes(), ")".spec_bytes()) + stmt_code(
            *body,
            m,
            ind,
        ),
        Statement::For { init, test, update, body } => pick(
            m,
            "for (".spec_bytes(),
            "for(".spec_bytes(),
        ) + (match init {
            Some(i) => head_code(*i, m, ind),
            None => Seq::empty(),
        }) + pick(m, "; ".spec_bytes(), ";".spec_bytes()) + opt_expr_code(test, m, ind) + pick(
            m,
            "; ".spec_bytes(),
            ";".spec_bytes(),
        ) + opt_expr_code(update, m, ind) + pick(m, ") ".spec_bytes(), ")".spec_bytes())
            + stmt_code(*body, m, ind),
        Statement::ForIn { left, right, body } => pick(m, "for (".spec_bytes(), "for(".spec_bytes())
            + head_code(*left, m, ind) + " in ".spec_bytes() + expr_code(right, m, ind) + pick(
            m,
            ") ".spec_bytes(),
            ")".spec_bytes(),
        ) + stmt_code(*body, m, ind),
        Statement::ForOf { left, right, body } => pick(m, "for (".spec_bytes(), "for(".spec_bytes())
            + head_code(*left, m, ind) + " of ".spec_bytes() + expr_code(right, m, ind) + pick(
            m,
            ") ".spec_bytes(),
            ")".spec_bytes(),
        ) + stmt_code(*body, m, ind),
        Statement::Class { name, extends, body } => nl(m, ind) + "class ".spec_bytes() + name@
            + opt_slice_code(" extends ".spec_bytes(), extends) + pick(
            m,
            " {".spec_bytes(),
            "{".spec_bytes(),
        ) + class_members_code(body@, m, deeper(ind)) + nl(m, ind) + "}".spec_bytes() + nl(m, ind),
        Statement::Throw { value } => "throw ".spec_bytes() + expr_code(value, m, ind)
            + ";".spec_bytes(),
    }
}

/// The whole program: each top-level statement followed by a line break.
pub open spec fn program_code(ss: Seq<Statement>, m: bool) -> Seq<u8>
    decreases ss.len(),
{
    if ss.len() == 0 {
        Seq::empty()
    } else {
        program_code(ss.drop_last(), m) + stmt_code(ss.last(), m, Seq::empty()) + nl(
            m,
            Seq::empty(),
        )
    }
}

/// Relies on itoa's `Buffer::format`: the decimal digits of an integer, with no
/// sign, padding or leading zeros.
#[verifier::external_body]
fn decimal_text(n: u64) -> (r: Vec<u8>)
    ensures
        r@ == decimal(n as nat),
{
    let mut buffer = itoa::Buffer::new();
    buffer.format(n).as_bytes().to_vec()
}

/// The text that the bytes decode to as UTF-8, with any invalid sequence
/// replaced.
pub uninterp spec fn lossy_text(b: Seq<u8>) -> Seq<char>;

/// Relies on `String::from_utf8_lossy`: the result depends on the bytes alone.
#[verifier::external_body]
fn utf8_text(b: &Vec<u8>) -> (r: String)
    ensures
        r@ == lossy_text(b@),
{
    String::from_utf8_lossy(b.as_slice()).into_owned()
}

/// Appends the bytes of `src` to `dst`.
fn append(dst: &mut Vec<u8>, src: &[u8])
    ensures
        final(dst)@ == old(dst)@ + src@,
{
    let mut i: usize = 0;
    while i < src.len()
        invariant
            i <= src@.len(),
            dst@ == old(dst)@ + src@.subrange(0, i as int),
        decreases src@.len() - i,
    {
        dst.push(src[i]);
        i += 1;
        assert(dst@ =~= old(dst)@ + src@.subrange(0, i as int));
    }
    assert(src@.subrange(0, i as int) =~= src@);
}

fn is_word_operator(op: OperatorType) -> (r: bool)
    ensures
        r == word_operator(op),
{
    match op {
        OperatorType::Typeof | OperatorType::Void | OperatorType::Delete | OperatorType::New
        | OperatorType::In | OperatorType::Instanceof => true,
        _ => false,
    }
}

fn is_sign_operator(op: OperatorType) -> (r: bool)
    ensures
        r == sign_operator(op),
{
    match op {
        OperatorType::Addition | OperatorType::Substraction | OperatorType::Increment
        | OperatorType::Decrement => true,
        _ => false,
    }
}

/// Whether the text written for `e` starts with `+` or `-`.
fn leading_sign(e: &Expression) -> (r: bool)
    ensures
        r == starts_with_sign(*e),
    decreases e,
{
    match e {
        Expression::Prefix { operator, .. } => is_sign_operator(*operator),
        Expression::Postfix { operator, operand } => !(operand.binding_power()
            < operator.binding_power()) && leading_sign(operand),
        Expression::Binary { left, operator, .. } => !(left.binding_power()
            < operator.binding_power()) && leading_sign(left),
        Expression::Member { object, .. } => !(object.binding_power() < 17) && leading_sign(object),
        Expression::ComputedMember { object, .. } => !(object.binding_power() < 17) && leading_sign(
            object,
        ),
        Expression::Call { callee, .. } => !(callee.binding_power() < 17) && leading_sign(callee),
        Expression::Conditional { test, .. } => leading_sign(test),
        _ => false,
    }
}

/// Writes the AST out as source text: an output buffer, the current indentation
/// and the minify flag, which selects compact forms and drops cosmetic
/// whitespace.
pub struct Generator {
    minify: bool,
    code: Vec<u8>,
    dent: Vec<u8>,
}

/// `post` holds what `pre` held, followed by `out`, and nothing else changed.
pub open spec fn wrote(pre: Generator, post: Generator, out: Seq<u8>) -> bool {
    &&& post.minified() == pre.minified()
    &&& post.indentation() == pre.indentation()
    &&& post.output() == pre.output() + out
}

impl Generator {
    /// Whether the generator writes the compact form.
    pub closed spec fn minified(&self) -> bool {
        self.minify
    }

    /// The bytes written so far.
    pub closed spec fn output(&self) -> Seq<u8> {
        self.code@
    }

    /// The indentation that starts each new line in pretty mode.
    pub closed spec fn indentation(&self) -> Seq<u8> {
        self.dent@
    }

    pub fn new(minify: bool) -> (r: Self)
        ensures
            r.minified() == minify,
            r.output() == Seq::<u8>::empty(),
            r.indentation() == Seq::<u8>::empty(),
    {
        Generator { minify, code: Vec::with_capacity(128), dent: Vec::new() }
    }

    /// Starts a new line at the current indentation; nothing in minify mode.
    pub fn new_line(&mut self)
        ensures
            wrote(*old(self), *final(self), nl(old(self).minified(), old(self).indentation())),
    {
        if !self.minify {
            self.write_str("\n");
            append(&mut self.code, self.dent.as_slice());
            assert(self.code@ =~= old(self).code@ + nl(self.minify, self.dent@));
        } else {
            assert(self.code@ =~= old(self).code@ + nl(self.minify, self.dent@));
        }
    }

    pub fn write_byte(&mut self, ch: u8)
        ensures
            wrote(*old(self), *final(self), seq![ch]),
    {
        self.code.push(ch);
        assert(self.code@ =~= old(self).code@ + seq![ch]);
    }

    pub fn write_bytes(&mut self, slice: &[u8])
        ensures
            wrote(*old(self), *final(self), slice@),
    {
        append(&mut self.code, slice);
    }

    /// Writes fixed text.
    pub fn write_str(&mut self, text: &str)
        ensures
            wrote(*old(self), *final(self), text.spec_bytes()),
    {
        self.write_bytes(text.as_bytes());
    }

    /// Writes `slice` in pretty mode and `minslice` in minify mode.
    pub fn write_min(&mut self, slice: &str, minslice: &str)
        ensures
            wrote(
                *old(self),
                *final(self),
                pick(old(self).minified(), slice.spec_bytes(), minslice.spec_bytes()),
            ),
    {
        if self.minify {
            self.write_str(minslice);
        } else {
            self.write_str(slice);
        }
    }

    /// Writes a space when `b` holds.
    pub fn write_space(&mut self, b: bool)
        ensures
            wrote(*old(self), *final(self), space(b)),
    {
        if b {
            self.write_str(" ");
        } else {
            assert(self.code@ =~= old(self).code@ + space(b));
        }
    }

    /// Writes a space in pretty mode, and in minify mode when `b` holds.
    pub fn write_gap(&mut self, b: bool)
        ensures
            wrote(*old(self), *final(self), pick(old(self).minified(), " ".spec_bytes(), space(b))),
    {
        if !self.minify || b {
            self.write_str(" ");
        } else {
            assert(self.code@ =~= old(self).code@ + space(b));
        }
    }

    pub fn indent(&mut self)
        ensures
            final(self).minified() == old(self).minified(),
            final(self).output() == old(self).output(),
            final(self).indentation() == deeper(old(self).indentation()),
            final(self).indentation().len() == old(self).indentation().len() + 4,
    {
        self.dent.push(32u8);
        self.dent.push(32u8);
        self.dent.push(32u8);
        self.dent.push(32u8);
        assert(self.dent@ =~= deeper(old(self).dent@));
    }

    pub fn dedent(&mut self)
        requires
            old(self).indentation().len() >= 4,
        ensures
            final(self).minified() == old(self).minified(),
            final(self).output() == old(self).output(),
            final(self).indentation() == old(self).indentation().subrange(
                0,
                old(self).indentation().len() - 4,
            ),
    {
        let n = self.dent.len() - 4;
        self.dent.truncate(n);
    }

    /// The bytes written, handing the buffer over.
    pub fn consume(self) -> (r: Vec<u8>)
        ensures
            r@ == self.output(),
    {
        self.code
    }

    pub fn write_slice(&mut self, s: &OwnedSlice)
        ensures
            wrote(*old(self), *final(self), s@),
    {
        self.write_bytes(s.as_bytes());
    }

    pub fn write_operator(&mut self, op: OperatorType)
        ensures
            wrote(*old(self), *final(self), operator_text(op)),
    {
        let text = match op {
            OperatorType::FatArrow => "=>",
            OperatorType::Accessor => ".",
            OperatorType::New => "new",
            OperatorType::Increment => "++",
            OperatorType::Decrement => "--",
            OperatorType::LogicalNot => "!",
            OperatorType::BitwiseNot => "~",
            OperatorType::Typeof => "typeof",
            OperatorType::Void => "void",
            OperatorType::Delete => "delete",
            OperatorType::Multiplication => "*",
            OperatorType::Division => "/",
            OperatorType::Remainder => "%",
            OperatorType::Exponent => "**",
            OperatorType::Addition => "+",
            OperatorType::Substraction => "-",
            OperatorType::BitShiftLeft => "<<",
            OperatorType::BitShiftRight => ">>",
            OperatorType::UBitShiftRight => ">>>",
            OperatorType::Lesser => "<",
            OperatorType::LesserEquals => "<=",
            OperatorType::Greater => ">",
            OperatorType::GreaterEquals => ">=",
            OperatorType::Instanceof => "instanceof",
            OperatorType::In => "in",
            OperatorType::StrictEquality => "===",
            OperatorType::StrictInequality => "!==",
            OperatorType::Equality => "==",
            OperatorType::Inequality => "!=",
            OperatorType::BitwiseAnd => "&",
            OperatorType::BitwiseXor => "^",
            OperatorType::BitwiseOr => "|",
            OperatorType::LogicalAnd => "&&",
            OperatorType::LogicalOr => "||",
            OperatorType::Conditional => "?",
            OperatorType::Assign => "=",
            OperatorType::AddAssign => "+=",
            OperatorType::SubstractAssign => "-=",
            OperatorType::ExponentAssign => "**=",
            OperatorType::MultiplyAssign => "*=",
            OperatorType::DivideAssign => "/=",
            OperatorType::RemainderAssign => "%=",
            OperatorType::BSLAssign => "<<=",
            OperatorType::BSRAssign => ">>=",
            OperatorType::UBSRAssign => ">>>=",
            OperatorType::BitAndAssign => "&=",
            OperatorType::BitXorAssign => "^=",
            OperatorType::BitOrAssign => "|=",
            OperatorType::Spread => "...",
        };
        self.write_str(text);
    }

    pub fn write_literal(&mut self, v: &LiteralValue)
        ensures
            wrote(*old(self), *final(self), literal_code(*v, old(self).minified())),
    {
        match v {
            LiteralValue::LiteralUndefined => self.write_min("undefined", "void 0"),
            LiteralValue::LiteralNull => self.write_str("null"),
            LiteralValue::LiteralTrue => self.write_min("true", "!0"),
            LiteralValue::LiteralFalse => self.write_min("false", "!1"),
            LiteralValue::LiteralInteger(n) => {
                let digits = decimal_text(*n);
                self.write_bytes(digits.as_slice());
            },
            LiteralValue::LiteralFloat(s) => self.write_slice(s),
            LiteralValue::LiteralString(s) => self.write_slice(s),
        }
    }

    pub fn write_params(&mut self, params: &Vec<Parameter>)
        ensures
            wrote(*old(self), *final(self), params_code(params@, old(self).minified())),
    {
        let mut i: usize = 0;
        while i < params.len()
            invariant
                i <= params@.len(),
                wrote(
                    *old(self),
                    *self,
                    params_code(params@.subrange(0, i as int), old(self).minified()),
                ),
            decreases params@.len() - i,
        {
            if i > 0 {
                self.write_min(", ", ",");
            }
            self.write_slice(&params[i].name);
            assert(params@.subrange(0, i + 1).drop_last() =~= params@.subrange(0, i as int));
            i += 1;
            assert(self.code@ =~= old(self).code@ + params_code(
                params@.subrange(0, i as int),
                self.minify,
            ));
        }
        assert(params@.subrange(0, i as int) =~= params@);
    }
    /// Writes expressions separated by commas.
    pub fn write_list(&mut self, items: &Vec<Expression>)
        requires
            forall|j: int| 0 <= j < items@.len() ==> expr_ok(#[trigger] items@[j]),
        ensures
            wrote(
                *old(self),
                *final(self),
                exprs_code(items@, old(self).minified(), old(self).indentation()),
            ),
        decreases items, 1int,
    {
        let ghost m = self.minify;
        let ghost ind = self.dent@;
        let mut i: usize = 0;
        while i < items.len()
            invariant
                i <= items@.len(),
                forall|j: int| 0 <= j < items@.len() ==> expr_ok(#[trigger] items@[j]),
                m == old(self).minified(),
                ind == old(self).indentation(),
                wrote(*old(self), *self, exprs_code(items@.subrange(0, i as int), m, ind)),
            decreases items@.len() - i,
        {
            if i > 0 {
                self.write_min(", ", ",");
            }
            self.write_expression(&items[i]);
            assert(items@.subrange(0, i + 1).drop_last() =~= items@.subrange(0, i as int));
            i += 1;
            assert(self.code@ =~= old(self).code@ + exprs_code(
                items@.subrange(0, i as int),
                m,
                ind,
            ));
        }
        assert(items@.subrange(0, i as int) =~= items@);
    }

    /// Writes statements one per line, one level deeper, then starts a line at
    /// the current level.
    pub fn write_block(&mut self, items: &Vec<Statement>)
        requires
            forall|j: int| 0 <= j < items@.len() ==> stmt_ok(#[trigger] items@[j]),
        ensures
            wrote(
                *old(self),
                *final(self),
                stmts_code(items@, old(self).minified(), deeper(old(self).indentation())) + nl(
                    old(self).minified(),
                    old(self).indentation(),
                ),
            ),
        decreases items, 1int,
    {
        let ghost m = self.minify;
        let ghost ind = self.dent@;
        self.indent();
        let ghost start = self.code@;
        let mut i: usize = 0;
        while i < items.len()
            invariant
                i <= items@.len(),
                forall|j: int| 0 <= j < items@.len() ==> stmt_ok(#[trigger] items@[j]),
                m == old(self).minified(),
                ind == old(self).indentation(),
                self.minify == m,
                self.dent@ == deeper(ind),
                start == old(self).code@,
                self.code@ == start + stmts_code(items@.subrange(0, i as int), m, deeper(ind)),
            decreases items@.len() - i,
        {
            self.new_line();
            self.write_statement(&items[i]);
            assert(items@.subrange(0, i + 1).drop_last() =~= items@.subrange(0, i as int));
            i += 1;
            assert(self.code@ =~= start + stmts_code(
                items@.subrange(0, i as int),
                m,
                deeper(ind),
            ));
        }
        assert(items@.subrange(0, i as int) =~= items@);
        self.dedent();
        assert(self.dent@ =~= ind);
        self.new_line();
        assert(self.code@ =~= old(self).code@ + (stmts_code(items@, m, deeper(ind)) + nl(m, ind)));
    }

    /// Writes statements in place, separated by line breaks.
    pub fn write_inline(&mut self, items: &Vec<Statement>)
        requires
            forall|j: int| 0 <= j < items@.len() ==> stmt_ok(#[trigger] items@[j]),
        ensures
            wrote(
                *old(self),
                *final(self),
                inline_code(items@, old(self).minified(), old(self).indentation()),
            ),
        decreases items, 1int,
    {
        let ghost m = self.minify;
        let ghost ind = self.dent@;
        let mut i: usize = 0;
        while i < items.len()
            invariant
                i <= items@.len(),
                forall|j: int| 0 <= j < items@.len() ==> stmt_ok(#[trigger] items@[j]),
                m == old(self).minified(),
                ind == old(self).indentation(),
                wrote(*old(self), *self, inline_code(items@.subrange(0, i as int), m, ind)),
            decreases items@.len() - i,
        {
            if i > 0 {
                self.new_line();
            }
            self.write_statement(&items[i]);
            assert(items@.subrange(0, i + 1).drop_last() =~= items@.subrange(0, i as int));
            i += 1;
            assert(self.code@ =~= old(self).code@ + inline_code(
                items@.subrange(0, i as int),
                m,
                ind,
            ));
        }
        assert(items@.subrange(0, i as int) =~= items@);
    }

    /// Writes the members of an object literal between braces.
    pub fn write_object(&mut self, members: &Vec<ObjectMember>)
        requires
            forall|j: int| 0 <= j < members@.len() ==> member_ok(#[trigger] members@[j]),
        ensures
            wrote(
                *old(self),
                *final(self),
                expr_code(
                    Expression::Object(*members),
                    old(self).minified(),
                    old(self).indentation(),
                ),
            ),
        decreases members, 1int,
    {
        let ghost m = self.minify;
        let ghost ind = self.dent@;
        self.write_str("{");
        self.indent();
        let ghost start = self.code@;
        let mut i: usize = 0;
        while i < members.len()
            invariant
                i <= members@.len(),
                forall|j: int| 0 <= j < members@.len() ==> member_ok(#[trigger] members@[j]),
                m == old(self).minified(),
                ind == old(self).indentation(),
                self.minify == m,
                self.dent@ == deeper(ind),
                start == old(self).code@ + "{".spec_bytes(),
                self.code@ == start + members_code(members@.subrange(0, i as int), m, deeper(ind)),
            decreases members@.len() - i,
        {
            if i > 0 {
                self.write_str(",");
            }
            self.new_line();
            self.write_object_member(&members[i]);
            assert(members@.subrange(0, i + 1).drop_last() =~= members@.subrange(0, i as int));
            i += 1;
            assert(self.code@ =~= start + members_code(
                members@.subrange(0, i as int),
                m,
                deeper(ind),
            ));
        }
        assert(members@.subrange(0, i as int) =~= members@);
        self.dedent();
        assert(self.dent@ =~= ind);
        self.new_line();
        self.write_str("}");
        assert(self.code@ =~= old(self).code@ + expr_code(Expression::Object(*members), m, ind));
    }

    #[verifier::rlimit(100)]
    #[verifier::spinoff_prover]
    pub fn write_object_member(&mut self, member: &ObjectMember)
        requires
            member_ok(*member),
        ensures
            wrote(
                *old(self),
                *final(self),
                member_code(*member, old(self).minified(), old(self).indentation()),
            ),
        decreases member, 1int,
    {
        let ghost m = self.minify;
        let ghost ind = self.dent@;
        match member {
            ObjectMember::Shorthand { key } => {
                self.write_slice(key);
                assert(self.code@ =~= old(self).code@ + member_code(*member, m, ind));
            },
            ObjectMember::Literal { key, value } => {
                self.write_slice(key);
                self.write_min(": ", ":");
                self.write_expression(value);
                assert(self.code@ =~= old(self).code@ + member_code(*member, m, ind));
            },
            ObjectMember::Computed { key, value } => {
                self.write_str("[");
                self.write_expression(key);
                self.write_min("]: ", "]:");
                self.write_expression(value);
                assert(self.code@ =~= old(self).code@ + member_code(*member, m, ind));
            },
            ObjectMember::Method { name, params, body } => {
                self.write_slice(name);
                self.write_str("(");
                self.write_params(params);
                self.write_min(") {", "){");
                self.write_block(body);
                self.write_str("}");
                assert(self.code@ =~= old(self).code@ + member_code(*member, m, ind));
            },
            ObjectMember::ComputedMethod { name, params, body } => {
                self.write_str("[");
                self.write_expression(name);
                self.write_str("](");
                self.write_params(params);
                self.write_min(") {", "){");
                self.write_block(body);
                self.write_str("}");
                assert(self.code@ =~= old(self).code@ + member_code(*member, m, ind));
            },
        }
    }

    /// Writes an operand, between parentheses when `parens` holds.
    pub fn write_operand(&mut self, e: &Expression, parens: bool)
        requires
            expr_ok(*e),
        ensures
            wrote(
                *old(self),
                *final(self),
                wrap(parens, expr_code(*e, old(self).minified(), old(self).indentation())),
            ),
        decreases e, 2int,
    {
        if parens {
            self.write_byte(40u8);
            self.write_expression(e);
            self.write_byte(41u8);
        } else {
            self.write_expression(e);
        }
        assert(self.code@ =~= old(self).code@ + wrap(
            parens,
            expr_code(*e, old(self).minified(), old(self).indentation()),
        ));
    }

    #[verifier::rlimit(100)]
    #[verifier::spinoff_prover]
    pub fn write_expression(&mut self, e: &Expression)
        requires
            expr_ok(*e),
        ensures
            wrote(
                *old(self),
                *final(self),
                expr_code(*e, old(self).minified(), old(self).indentation()),
            ),
        decreases e, 1int,
    {
        let ghost m = self.minify;
        let ghost ind = self.dent@;
        match e {
            Expression::This => {
                self.write_str("this");
                assert(self.code@ =~= old(self).code@ + expr_code(*e, m, ind));
            },
            Expression::Identifier(s) => {
                self.write_slice(s);
                assert(self.code@ =~= old(self).code@ + expr_code(*e, m, ind));
            },
            Expression::Literal(v) => {
                self.write_literal(v);
                assert(self.code@ =~= old(self).code@ + expr_code(*e, m, ind));
            },
            Expression::Array(items) => {
                self.write_str("[");
                self.write_list(items);
                self.write_str("]");
                assert(self.code@ =~= old(self).code@ + expr_code(*e, m, ind));
            },
            Expression::Sequence(items) => {
                self.write_str("(");
                self.write_list(items);
                self.write_str(")");
                assert(self.code@ =~= old(self).code@ + expr_code(*e, m, ind));
            },
            Expression::Object(members) => {
                self.write_object(members);
                assert(self.code@ =~= old(self).code@ + expr_code(*e, m, ind));
            },
            Expression::Member { object, property } => {
                self.write_operand(object, object.binding_power() < 17);
                self.write_str(".");
                self.write_slice(property);
                assert(self.code@ =~= old(self).code@ + expr_code(*e, m, ind));
            },
            Expression::ComputedMember { object, property } => {
                self.write_operand(object, object.binding_power() < 17);
                self.write_str("[");
                self.write_expression(property);
                self.write_str("]");
                assert(self.code@ =~= old(self).code@ + expr_code(*e, m, ind));
            },
            Expression::Call { callee, arguments } => {
                self.write_operand(callee, callee.binding_power() < 17);
                self.write_str("(");
                self.write_list(arguments);
                self.write_str(")");
                assert(self.code@ =~= old(self).code@ + expr_code(*e, m, ind));
            },
            Expression::Binary { .. } => {
                self.write_binary(e);
            },
            Expression::Prefix { operator, operand } => {
                self.write_operator(*operator);
                let parens = operand.binding_power() < 15;
                let gap = is_word_operator(*operator) || (is_sign_operator(*operator) && !parens
                    && leading_sign(operand));
                self.write_space(gap);
                self.write_operand(operand, parens);
                assert(self.code@ =~= old(self).code@ + expr_code(*e, m, ind));
            },
            Expression::Postfix { operator, operand } => {
                self.write_operand(operand, operand.binding_power() < operator.binding_power());
                self.write_operator(*operator);
                assert(self.code@ =~= old(self).code@ + expr_code(*e, m, ind));
            },
            Expression::Conditional { .. } => {
                self.write_conditional(e);
            },
            Expression::ArrowFunction { .. } => {
                self.write_arrow_function(e);
            },
            Expression::Function { .. } => {
                self.write_function_expression(e);
            },
        }
    }

    /// Writes a binary expression, wrapping the left operand in parentheses when it binds more loosely than the operator.
    #[verifier::rlimit(100)]
    #[verifier::spinoff_prover]
    fn write_binary(&mut self, e: &Expression)
        requires
            e is Binary,
            expr_ok(*e),
        ensures
            wrote(
                *old(self),
                *final(self),
                expr_code(*e, old(self).minified(), old(self).indentation()),
            ),
        decreases e, 0int,
    {
        let ghost m = self.minify;
        let ghost ind = self.dent@;
        match e {
            Expression::Binary { left, operator, right } => {
                if left.binding_power() < operator.binding_power() {
                    self.write_byte(40u8);
                    self.write_expression(left);
                    self.write_byte(41u8);
                } else {
                    self.write_expression(left);
                }
                self.write_gap(is_word_operator(*operator));
                self.write_operator(*operator);
                let gap = is_word_operator(*operator) || (is_sign_operator(*operator)
                    && leading_sign(right));
                self.write_gap(gap);
                self.write_expression(right);
                assert(self.code@ =~= old(self).code@ + expr_code(*e, m, ind));
            },
            _ => {},
        }
    }

    /// Writes a conditional expression.
    #[verifier::rlimit(100)]
    #[verifier::spinoff_prover]
    fn write_conditional(&mut self, e: &Expression)
        requires
            e is Conditional,
            expr_ok(*e),
        ensures
            wrote(
                *old(self),
                *final(self),
                expr_code(*e, old(self).minified(), old(self).indentation()),
            ),
        decreases e, 0int,
    {
        let ghost m = self.minify;
        let ghost ind = self.dent@;
        match e {
            Expression::Conditional { test, consequent, alternate } => {
                self.write_expression(test);
                self.write_min(" ? ", "?");
                self.write_expression(consequent);
                self.write_min(" : ", ":");
                self.write_expression(alternate);
                assert(self.code@ =~= old(self).code@ + expr_code(*e, m, ind));
            },
            _ => {},
        }
    }

    /// Writes an arrow function: a lone parameter goes without parentheses, and a single-expression body without braces.
    #[verifier::rlimit(100)]
    #[verifier::spinoff_prover]
    fn write_arrow_function(&mut self, e: &Expression)
        requires
            e is ArrowFunction,
            expr_ok(*e),
        ensures
            wrote(
                *old(self),
                *final(self),
                expr_code(*e, old(self).minified(), old(self).indentation()),
            ),
        decreases e, 0int,
    {
        let ghost m = self.minify;
        let ghost ind = self.dent@;
        match e {
            Expression::ArrowFunction { params, body } => {
                if params.len() == 1 {
                    self.write_slice(&params[0].name);
                } else {
                    self.write_str("(");
                    self.write_params(params);
                    self.write_str(")");
                }
                self.write_min(" => ", "=>");
                proof {
                    assert(stmt_ok(**body));
                }
                match &**body {
                    Statement::Expression { value } => self.write_expression(value),
                    _ => self.write_statement(body),
                }
                assert(self.code@ =~= old(self).code@ + expr_code(*e, m, ind));
            },
            _ => {},
        }
    }

    /// Writes a function expression.
    #[verifier::rlimit(100)]
    #[verifier::spinoff_prover]
    fn write_function_expression(&mut self, e: &Expression)
        requires
            e is Function,
            expr_ok(*e),
        ensures
            wrote(
                *old(self),
                *final(self),
                expr_code(*e, old(self).minified(), old(self).indentation()),
            ),
        decreases e, 0int,
    {
        let ghost m = self.minify;
        let ghost ind = self.dent@;
        match e {
            Expression::Function { name, params, body } => {
                self.write_str("function");
                match name {
                    Some(n) => {
                        self.write_str(" ");
                        self.write_slice(n);
                    },
                    None => {
                        self.write_min(" ", "");
                        proof {
                            reveal_strlit("");
                        }
                    },
                }
                self.write_str("(");
                self.write_params(params);
                self.write_min(") {", "){");
                self.write_block(body);
                self.write_str("}");
                assert(self.code@ =~= old(self).code@ + expr_code(*e, m, ind));
            },
            _ => {},
        }
    }

    /// Writes the members of a class body, one per line, one level deeper.
    pub fn write_class_body(&mut self, members: &Vec<ClassMember>)
        requires
            forall|j: int| 0 <= j < members@.len() ==> class_member_ok(#[trigger] members@[j]),
        ensures
            wrote(
                *old(self),
                *final(self),
                class_members_code(members@, old(self).minified(), deeper(old(self).indentation()))
                    + nl(old(self).minified(), old(self).indentation()),
            ),
        decreases members, 1int,
    {
        let ghost m = self.minify;
        let ghost ind = self.dent@;
        self.indent();
        let ghost start = self.code@;
        let mut i: usize = 0;
        while i < members.len()
            invariant
                i <= members@.len(),
                forall|j: int| 0 <= j < members@.len() ==> class_member_ok(#[trigger] members@[j]),
                m == old(self).minified(),
                ind == old(self).indentation(),
                self.minify == m,
                self.dent@ == deeper(ind),
                start == old(self).code@,
                self.code@ == start + class_members_code(
                    members@.subrange(0, i as int),
                    m,
                    deeper(ind),
                ),
            decreases members@.len() - i,
        {
            self.new_line();
            self.write_class_member(&members[i]);
            assert(members@.subrange(0, i + 1).drop_last() =~= members@.subrange(0, i as int));
            i += 1;
            assert(self.code@ =~= start + class_members_code(
                members@.subrange(0, i as int),
                m,
                deeper(ind),
            ));
        }
        assert(members@.subrange(0, i as int) =~= members@);
        self.dedent();
        assert(self.dent@ =~= ind);
        self.new_line();
        assert(self.code@ =~= old(self).code@ + (class_members_code(members@, m, deeper(ind)) + nl(
            m,
            ind,
        )));
    }

    #[verifier::rlimit(100)]
    #[verifier::spinoff_prover]
    pub fn write_class_member(&mut self, member: &ClassMember)
        requires
            class_member_ok(*member),
        ensures
            wrote(
                *old(self),
                *final(self),
                class_member_code(*member, old(self).minified(), old(self).indentation()),
            ),
        decreases member, 1int,
    {
        let ghost m = self.minify;
        let ghost ind = self.dent@;
        match member {
            ClassMember::Constructor { params, body } => {
                self.write_str("constructor(");
                self.write_params(params);
                self.write_min(") {", "){");
                self.write_block(body);
                self.write_str("}");
                assert(self.code@ =~= old(self).code@ + class_member_code(*member, m, ind));
            },
            ClassMember::Method { is_static, name, params, body } => {
                if *is_static {
                    self.write_str("static ");
                }
                self.write_slice(name);
                self.write_str("(");
                self.write_params(params);
                self.write_min(") {", "){");
                self.write_block(body);
                self.write_str("}");
                assert(self.code@ =~= old(self).code@ + class_member_code(*member, m, ind));
            },
            ClassMember::Property { is_static, name, value } => {
                if *is_static {
                    self.write_str("static ");
                }
                self.write_slice(name);
                self.write_min(" = ", "=");
                self.write_expression(value);
                self.write_str(";");
                assert(self.code@ =~= old(self).code@ + class_member_code(*member, m, ind));
            },
        }
    }

    /// Writes declarators separated by commas.
    pub fn write_declarators(&mut self, items: &Vec<VariableDeclarator>)
        requires
            forall|j: int| 0 <= j < items@.len() ==> declarator_ok(#[trigger] items@[j]),
        ensures
            wrote(
                *old(self),
                *final(self),
                declarators_code(items@, old(self).minified(), old(self).indentation()),
            ),
        decreases items, 1int,
    {
        let ghost m = self.minify;
        let ghost ind = self.dent@;
        let mut i: usize = 0;
        while i < items.len()
            invariant
                i <= items@.len(),
                forall|j: int| 0 <= j < items@.len() ==> declarator_ok(#[trigger] items@[j]),
                m == old(self).minified(),
                ind == old(self).indentation(),
                wrote(*old(self), *self, declarators_code(items@.subrange(0, i as int), m, ind)),
            decreases items@.len() - i,
        {
            if i > 0 {
                self.write_min(", ", ",");
            }
            self.write_declarator(&items[i]);
            assert(items@.subrange(0, i + 1).drop_last() =~= items@.subrange(0, i as int));
            i += 1;
            assert(self.code@ =~= old(self).code@ + declarators_code(
                items@.subrange(0, i as int),
                m,
                ind,
            ));
        }
        assert(items@.subrange(0, i as int) =~= items@);
    }

    pub fn write_declarator(&mut self, d: &VariableDeclarator)
        requires
            declarator_ok(*d),
        ensures
            wrote(
                *old(self),
                *final(self),
                declarator_code(*d, old(self).minified(), old(self).indentation()),
            ),
        decreases d, 1int,
    {
        let ghost m = self.minify;
        let ghost ind = self.dent@;
        self.write_slice(&d.name);
        match &d.value {
            Some(value) => {
                self.write_min(" = ", "=");
                self.write_expression(value);
            },
            None => {},
        }
        assert(self.code@ =~= old(self).code@ + declarator_code(*d, m, ind));
    }

    pub fn write_kind(&mut self, kind: VariableDeclarationKind)
        ensures
            wrote(*old(self), *final(self), kind_text(kind)),
    {
        match kind {
            VariableDeclarationKind::Var => self.write_str("var"),
            VariableDeclarationKind::Let => self.write_str("let"),
            VariableDeclarationKind::Const => self.write_str("const"),
        }
    }

    /// Writes the head of a `for` loop: a declaration without its semicolon, or
    /// an expression.
    pub fn write_declaration_or_expression(&mut self, statement: &Statement)
        requires
            is_loop_head(*statement),
            stmt_ok(*statement),
        ensures
            wrote(
                *old(self),
                *final(self),
                head_code(*statement, old(self).minified(), old(self).indentation()),
            ),
        decreases statement, 1int,
    {
        let ghost m = self.minify;
        let ghost ind = self.dent@;
        match statement {
            Statement::VariableDeclaration { kind, declarators } => {
                self.write_kind(*kind);
                self.write_str(" ");
                self.write_declarators(declarators);
            },
            Statement::Expression { value } => {
                self.write_expression(value);
            },
            _ => {},
        }
        assert(self.code@ =~= old(self).code@ + head_code(*statement, m, ind));
    }

    pub fn write_optional(&mut self, e: &Option<Expression>)
        requires
            opt_expr_ok(*e),
        ensures
            wrote(
                *old(self),
                *final(self),
                opt_expr_code(*e, old(self).minified(), old(self).indentation()),
            ),
        decreases e, 1int,
    {
        match e {
            Some(value) => self.write_expression(value),
            None => {
                assert(self.code@ =~= old(self).code@ + Seq::<u8>::empty());
            },
        }
    }

    #[verifier::rlimit(100)]
    #[verifier::spinoff_prover]
    pub fn write_statement(&mut self, statement: &Statement)
        requires
            stmt_ok(*statement),
        ensures
            wrote(
                *old(self),
                *final(self),
                stmt_code(*statement, old(self).minified(), old(self).indentation()),
            ),
        decreases statement, 1int,
    {
        let ghost m = self.minify;
        let ghost ind = self.dent@;
        match statement {
            Statement::Labeled { label, body } => {
                self.write_slice(label);
                self.write_min(": ", ":");
                self.write_statement(body);
                assert(self.code@ =~= old(self).code@ + stmt_code(*statement, m, ind));
            },
            Statement::Block { body } => {
                self.write_str("{");
                self.write_block(body);
                self.write_str("}");
                assert(self.code@ =~= old(self).code@ + stmt_code(*statement, m, ind));
            },
            Statement::Transparent { body } => {
                self.write_inline(body);
                assert(self.code@ =~= old(self).code@ + stmt_code(*statement, m, ind));
            },
            Statement::Expression { value } => {
                self.write_expression(value);
                self.write_str(";");
                assert(self.code@ =~= old(self).code@ + stmt_code(*statement, m, ind));
            },
            Statement::Return { .. } => {
                self.write_return(statement);
            },
            Statement::Break { .. } => {
                self.write_break(statement);
            },
            Statement::VariableDeclaration { .. } => {
                self.write_variable_declaration(statement);
            },
            Statement::Function { .. } => {
                self.write_function_statement(statement);
            },
            Statement::If { .. } => {
                self.write_if(statement);
            },
            Statement::While { test, body } => {
                self.write_min("while (", "while(");
                self.write_expression(test);
                self.write_min(") ", ")");
                self.write_statement(body);
                assert(self.code@ =~= old(self).code@ + stmt_code(*statement, m, ind));
            },
            Statement::For { .. } => {
                self.write_for(statement);
            },
            Statement::ForIn { .. } => {
                self.write_for_in(statement);
            },
            Statement::ForOf { .. } => {
                self.write_for_of(statement);
            },
            Statement::Class { .. } => {
                self.write_class(statement);
            },
            Statement::Throw { value } => {
                self.write_str("throw ");
                self.write_expression(value);
                self.write_str(";");
                assert(self.code@ =~= old(self).code@ + stmt_code(*statement, m, ind));
            },
        }
    }

    /// Writes a `return` statement.
    #[verifier::rlimit(100)]
    #[verifier::spinoff_prover]
    fn write_return(&mut self, statement: &Statement)
        requires
            statement is Return,
            stmt_ok(*statement),
        ensures
            wrote(
                *old(self),
                *final(self),
                stmt_code(*statement, old(self).minified(), old(self).indentation()),
            ),
        decreases statement, 0int,
    {
        let ghost m = self.minify;
        let ghost ind = self.dent@;
        match statement {
            Statement::Return { value } => {
                self.write_str("return");
                proof {
                    assert(opt_expr_ok(*value));
                }
                match value {
                    Some(v) => {
                        self.write_str(" ");
                        self.write_expression(v);
                    },
                    None => {},
                }
                self.write_str(";");
                assert(self.code@ =~= old(self).code@ + stmt_code(*statement, m, ind));
            },
            _ => {},
        }
    }

    /// Writes a `break` statement.
    #[verifier::rlimit(100)]
    #[verifier::spinoff_prover]
    fn write_break(&mut self, statement: &Statement)
        requires
            statement is Break,
            stmt_ok(*statement),
        ensures
            wrote(
                *old(self),
                *final(self),
                stmt_code(*statement, old(self).minified(), old(self).indentation()),
            ),
        decreases statement, 0int,
    {
        let ghost m = self.minify;
        let ghost ind = self.dent@;
        match statement {
            Statement::Break { label } => {
                self.write_str("break");
                match label {
                    Some(l) => {
                        self.write_str(" ");
                        self.write_slice(l);
                    },
                    None => {},
                }
                self.write_str(";");
                assert(self.code@ =~= old(self).code@ + stmt_code(*statement, m, ind));
            },
            _ => {},
        }
    }

    /// Writes a variable declaration.
    #[verifier::rlimit(100)]
    #[verifier::spinoff_prover]
    fn write_variable_declaration(&mut self, statement: &Statement)
        requires
            statement is VariableDeclaration,
            stmt_ok(*statement),
        ensures
            wrote(
                *old(self),
                *final(self),
                stmt_code(*statement, old(self).minified(), old(self).indentation()),
            ),
        decreases statement, 0int,
    {
        let ghost m = self.minify;
        let ghost ind = self.dent@;
        match statement {
            Statement::VariableDeclaration { kind, declarators } => {
                self.write_kind(*kind);
                self.write_str(" ");
                self.write_declarators(declarators);
                self.write_str(";");
                assert(self.code@ =~= old(self).code@ + stmt_code(*statement, m, ind));
            },
            _ => {},
        }
    }

    /// Writes a function statement, set apart by line breaks in pretty mode.
    #[verifier::rlimit(100)]
    #[verifier::spinoff_prover]
    fn write_function_statement(&mut self, statement: &Statement)
        requires
            statement is Function,
            stmt_ok(*statement),
        ensures
            wrote(
                *old(self),
                *final(self),
                stmt_code(*statement, old(self).minified(), old(self).indentation()),
            ),
        decreases statement, 0int,
    {
        let ghost m = self.minify;
        let ghost ind = self.dent@;
        match statement {
            Statement::Function { name, params, body } => {
                self.new_line();
                self.write_str("function ");
                self.write_slice(name);
                self.write_str("(");
                self.write_params(params);
                self.write_min(") {", "){");
                self.write_block(body);
                self.write_str("}");
                self.new_line();
                assert(self.code@ =~= old(self).code@ + stmt_code(*statement, m, ind));
            },
            _ => {},
        }
    }

    /// Writes an `if` statement with its optional `else` arm.
    #[verifier::rlimit(100)]
    #[verifier::spinoff_prover]
    fn write_if(&mut self, statement: &Statement)
        requires
            statement is If,
            stmt_ok(*statement),
        ensures
            wrote(
                *old(self),
                *final(self),
                stmt_code(*statement, old(self).minified(), old(self).indentation()),
            ),
        decreases statement, 0int,
    {
        let ghost m = self.minify;
        let ghost ind = self.dent@;
        match statement {
            Statement::If { test, consequent, alternate } => {
                self.write_min("if (", "if(");
                self.write_expression(test);
                self.write_min(") ", ")");
                self.write_statement(consequent);
                match alternate {
                    Some(a) => {
                        self.write_str(" else ");
                        self.write_statement(a);
                    },
                    None => {},
                }
                assert(self.code@ =~= old(self).code@ + stmt_code(*statement, m, ind));
            },
            _ => {},
        }
    }

    /// Writes a `for` loop.
    #[verifier::rlimit(100)]
    fn write_for(&mut self, statement: &Statement)
        requires
            statement is For,
            stmt_ok(*statement),
        ensures
            wrote(
                *old(self),
                *final(self),
                stmt_code(*statement, old(self).minified(), old(self).indentation()),
            ),
        decreases statement, 0int,
    {
        let ghost m = self.minify;
        let ghost ind = self.dent@;
        match statement {
            Statement::For { init, test, update, body } => {
                self.write_min("for (", "for(");
                match init {
                    Some(i) => self.write_declaration_or_expression(i),
                    None => {},
                }
                let ghost head = match init {
                    Some(i) => head_code(**i, m, ind),
                    None => Seq::empty(),
                };
                assert(self.code@ =~= old(self).code@ + pick(
                    m,
                    "for (".spec_bytes(),
                    "for(".spec_bytes(),
                ) + head);
                let ghost c1 = self.code@;
                self.write_min("; ", ";");
                self.write_optional(test);
                self.write_min("; ", ";");
                self.write_optional(update);
                self.write_min(") ", ")");
                self.write_statement(body);
                assert(self.code@ =~= c1 + pick(m, "; ".spec_bytes(), ";".spec_bytes())
                    + opt_expr_code(*test, m, ind) + pick(m, "; ".spec_bytes(), ";".spec_bytes())
                    + opt_expr_code(*update, m, ind) + pick(m, ") ".spec_bytes(), ")".spec_bytes())
                    + stmt_code(**body, m, ind));
                assert(self.code@ =~= old(self).code@ + stmt_code(*statement, m, ind));
            },
            _ => {},
        }
    }

    /// Writes a `for`-`in` loop.
    #[verifier::rlimit(100)]
    #[verifier::spinoff_prover]
    fn write_for_in(&mut self, statement: &Statement)
        requires
            statement is ForIn,
            stmt_ok(*statement),
        ensures
            wrote(
                *old(self),
                *final(self),
                stmt_code(*statement, old(self).minified(), old(self).indentation()),
            ),
        decreases statement, 0int,
    {
        let ghost m = self.minify;
        let ghost ind = self.dent@;
        match statement {
            Statement::ForIn { left, right, body } => {
                self.write_min("for (", "for(");
                self.write_declaration_or_expression(left);
                self.write_str(" in ");
                self.write_expression(right);
                self.write_min(") ", ")");
                self.write_statement(body);
                assert(self.code@ =~= old(self).code@ + stmt_code(*statement, m, ind));
            },
            _ => {},
        }
    }

    /// Writes a `for`-`of` loop.
    #[verifier::rlimit(100)]
    #[verifier::spinoff_prover]
    fn write_for_of(&mut self, statement: &Statement)
        requires
            statement is ForOf,
            stmt_ok(*statement),
        ensures
            wrote(
                *old(self),
                *final(self),
                stmt_code(*statement, old(self).minified(), old(self).indentation()),
            ),
        decreases statement, 0int,
    {
        let ghost m = self.minify;
        let ghost ind = self.dent@;
        match statement {
            Statement::ForOf { left, right, body } => {
                self.write_min("for (", "for(");
                self.write_declaration_or_expression(left);
                self.write_str(" of ");
                self.write_expression(right);
                self.write_min(") ", ")");
                self.write_statement(body);
                assert(self.code@ =~= old(self).code@ + stmt_code(*statement, m, ind));
            },
            _ => {},
        }
    }

    /// Writes a class, set apart by line breaks in pretty mode.
    #[verifier::rlimit(100)]
    #[verifier::spinoff_prover]
    fn write_class(&mut self, statement: &Statement)
        requires
            statement is Class,
            stmt_ok(*statement),
        ensures
            wrote(
                *old(self),
                *final(self),
                stmt_code(*statement, old(self).minified(), old(self).indentation()),
            ),
        decreases statement, 0int,
    {
        let ghost m = self.minify;
        let ghost ind = self.dent@;
        match statement {
            Statement::Class { name, extends, body } => {
                self.new_line();
                self.write_str("class ");
                self.write_slice(name);
                match extends {
                    Some(s) => {
                        self.write_str(" extends ");
                        self.write_slice(s);
                    },
                    None => {},
                }
                self.write_min(" {", "{");
                self.write_class_body(body);
                self.write_str("}");
                self.new_line();
                assert(self.code@ =~= old(self).code@ + stmt_code(*statement, m, ind));
            },
            _ => {},
        }
    }
}

/// Writes the program out: each top-level statement followed by a line break.
pub fn generate(program: &Program, minify: bool) -> (r: Vec<u8>)
    requires
        program_ok(*program),
    ensures
        r@ == program_code(program.body@, minify),
{
    let mut gen = Generator::new(minify);
    let mut i: usize = 0;
    while i < program.body.len()
        invariant
            i <= program.body@.len(),
            program_ok(*program),
            gen.minified() == minify,
            gen.indentation() == Seq::<u8>::empty(),
            gen.output() == program_code(program.body@.subrange(0, i as int), minify),
        decreases program.body@.len() - i,
    {
        gen.write_statement(&program.body[i]);
        gen.new_line();
        assert(program.body@.subrange(0, i + 1).drop_last() =~= program.body@.subrange(0, i as int));
        i += 1;
    }
    assert(program.body@.subrange(0, i as int) =~= program.body@);
    gen.consume()
}

/// The program as source text.
pub fn generate_code(program: Program, minify: bool) -> (r: String)
    requires
        program_ok(program),
    ensures
        r@ == lossy_text(program_code(program.body@, minify)),
{
    let bytes = generate(&program, minify);
    utf8_text(&bytes)

}


/// A binary expression whose left operand binds more loosely than its operator
/// is written with that operand between parentheses, in either mode: the text
/// opens with `(`, the operand's own text and `)`.
pub proof fn lemma_loose_left_operand_parenthesized(
    left: Expression,
    operator: OperatorType,
    right: Expression,
    m: bool,
    ind: Seq<u8>,
)
    requires
        left.bp() < operator.bp(),
    ensures
        ({
            let code = expr_code(
                Expression::Binary { left: Box::new(left), operator, right: Box::new(right) },
                m,
                ind,
            );
            let inner = expr_code(left, m, ind);
            code.len() >= inner.len() + 2 && code.subrange(0, inner.len() + 2int) == seq![40u8]
                + inner + seq![41u8]
        }),
{
    let code = expr_code(
        Expression::Binary { left: Box::new(left), operator, right: Box::new(right) },
        m,
        ind,
    );
    let inner = expr_code(left, m, ind);
    assert(code.subrange(0, inner.len() + 2int) =~= seq![40u8] + inner + seq![41u8]);
}

} // verus!
