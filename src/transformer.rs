use vstd::prelude::*;
use crate::codegen::{is_loop_head, program_ok, stmt_ok};
use crate::grammar::{Program, Statement, VariableDeclarationKind};

verus! {

broadcast use vstd::std_specs::vec::group_vec_axioms;

/// What the pass over the tree rewrites.
#[derive(Debug, Clone, Copy, PartialEq, Eq, Structural)]
pub struct Settings {
    /// Turn `let` and `const` declarations into `var`.
    pub transform_block_scope: bool,
}

impl Settings {
    /// The settings for output that engines without block scoping run.
    pub fn target_es5() -> (r: Self)
        ensures
            r.transform_block_scope,
    {
        Settings { transform_block_scope: true }
    }
}

/// `b` is `a` with every `let` and `const` declaration made a `var`: in the
/// statement itself and in the statements nested in it through blocks,
/// branches, labels, loops and function statements. Nothing else differs.
pub open spec fn demotes_to(a: Statement, b: Statement) -> bool
    decreases a,
{
    match a {
        Statement::VariableDeclaration { declarators, .. } => b == Statement::VariableDeclaration {
            kind: VariableDeclarationKind::Var,
            declarators,
        },
        Statement::Block { body } => b is Block && b->Block_body@.len() == body@.len() && forall|i: int|
            0 <= i < body@.len() ==> demotes_to(#[trigger] body@[i], b->Block_body@[i]),
        Statement::Transparent { body } => b is Transparent && b->Transparent_body@.len()
            == body@.len() && forall|i: int|
            0 <= i < body@.len() ==> demotes_to(#[trigger] body@[i], b->Transparent_body@[i]),
        Statement::Function { name, params, body } => b is Function && b->Function_name == name
            && b->Function_params == params && b->Function_body@.len() == body@.len() && forall|
            i: int,
        |
            0 <= i < body@.len() ==> demotes_to(#[trigger] body@[i], b->Function_body@[i]),
        Statement::Labeled { label, body } => b is Labeled && b->Labeled_label == label
            && demotes_to(*body, *b->Labeled_body),
        Statement::If { test, consequent, alternate } => b is If && b->If_test == test && demotes_to(
            *consequent,
            *b->If_consequent,
        ) && match alternate {
            Some(x) => b->If_alternate is Some && demotes_to(*x, *b->If_alternate->Some_0),
            None => b->If_alternate is None,
        },
        Statement::While { test, body } => b is While && b->While_test == test && demotes_to(
            *body,
            *b->While_body,
        ),
        Statement::For { init, test, update, body } => b is For && b->For_test == test
            && b->For_update == update && demotes_to(*body, *b->For_body) && match init {
            Some(x) => b->For_init is Some && demotes_to(*x, *b->For_init->Some_0),
            None => b->For_init is None,
        },
        Statement::ForIn { left, right, body } => b is ForIn && b->ForIn_right == right
            && demotes_to(*left, *b->ForIn_left) && demotes_to(*body, *b->ForIn_body),
        Statement::ForOf { left, right, body } => b is ForOf && b->ForOf_right == right
            && demotes_to(*left, *b->ForOf_left) && demotes_to(*body, *b->ForOf_body),
        _ => b == a,
    }
}

/// Demotes every statement of `body`, in order.
fn demote_all(body: Vec<Statement>) -> (r: Vec<Statement>)
    ensures
        r@.len() == body@.len(),
        forall|i: int| 0 <= i < body@.len() ==> demotes_to(#[trigger] body@[i], r@[i]),
        (forall|i: int| 0 <= i < body@.len() ==> stmt_ok(#[trigger] body@[i])) ==> forall|i: int|
            0 <= i < r@.len() ==> stmt_ok(#[trigger] r@[i]),
    decreases body,
{
    let ghost orig = body@;
    let mut rest = body;
    let mut out: Vec<Statement> = Vec::new();
    while rest.len() > 0
        invariant
            orig == body@,
            out@.len() + rest@.len() == orig.len(),
            rest@ == orig.subrange(out@.len() as int, orig.len() as int),
            forall|i: int| 0 <= i < out@.len() ==> demotes_to(#[trigger] orig[i], out@[i]),
            (forall|i: int| 0 <= i < orig.len() ==> stmt_ok(#[trigger] orig[i])) ==> forall|i: int|
                0 <= i < out@.len() ==> stmt_ok(#[trigger] out@[i]),
        decreases rest@.len(),
    {
        let ghost k = out@.len() as int;
        assert(rest@[0] == orig[k]);
        let s = rest.remove(0);
        assert(decreases_to!(body => orig[k]));
        let d = demote_statement(s);
        out.push(d);
        assert(rest@ =~= orig.subrange(out@.len() as int, orig.len() as int));
    }
    out
}

/// Demotes `let` and `const` in `s` and the statements nested in it.
pub fn demote_statement(s: Statement) -> (r: Statement)
    ensures
        demotes_to(s, r),
        stmt_ok(s) ==> stmt_ok(r),
        is_loop_head(s) ==> is_loop_head(r),
    decreases s,
{
    match s {
        Statement::VariableDeclaration { kind: _, declarators } => {
            Statement::VariableDeclaration { kind: VariableDeclarationKind::Var, declarators }
        },
        Statement::Block { body } => Statement::Block { body: demote_all(body) },
        Statement::Transparent { body } => Statement::Transparent { body: demote_all(body) },
        Statement::Function { name, params, body } => {
            Statement::Function { name, params, body: demote_all(body) }
        },
        Statement::Labeled { label, body } => {
            Statement::Labeled { label, body: Box::new(demote_statement(*body)) }
        },
        Statement::If { test, consequent, alternate } => {
            let consequent = Box::new(demote_statement(*consequent));
            let alternate = match alternate {
                Some(a) => Some(Box::new(demote_statement(*a))),
                None => None,
            };
            Statement::If { test, consequent, alternate }
        },
        Statement::While { test, body } => {
            Statement::While { test, body: Box::new(demote_statement(*body)) }
        },
        Statement::For { init, test, update, body } => {
            let init = match init {
                Some(i) => Some(Box::new(demote_statement(*i))),
                None => None,
            };
            Statement::For { init, test, update, body: Box::new(demote_statement(*body)) }
        },
        Statement::ForIn { left, right, body } => {
            let left = Box::new(demote_statement(*left));
            Statement::ForIn { left, right, body: Box::new(demote_statement(*body)) }
        },
        Statement::ForOf { left, right, body } => {
            let left = Box::new(demote_statement(*left));
            Statement::ForOf { left, right, body: Box::new(demote_statement(*body)) }
        },
        other => other,
    }
}

/// Rewrites the program's statements as `settings` asks.
pub fn transform(program: &mut Program, settings: Settings)
    ensures
        final(program).source == old(program).source,
        !settings.transform_block_scope ==> *final(program) == *old(program),
        settings.transform_block_scope ==> final(program).body@.len() == old(program).body@.len()
            && forall|i: int|
            0 <= i < old(program).body@.len() ==> demotes_to(
                #[trigger] old(program).body@[i],
                final(program).body@[i],
            ),
        program_ok(*old(program)) ==> program_ok(*final(program)),
{
    if settings.transform_block_scope {
        let mut body: Vec<Statement> = Vec::new();
        std::mem::swap(&mut body, &mut program.body);
        program.body = demote_all(body);
    }
}

} // verus!
