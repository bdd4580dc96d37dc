use badger::codegen::{generate, generate_code, Generator};
use badger::grammar::{
    Expression, LiteralValue, OperatorType, OwnedSlice, Parameter, Program, Statement,
    VariableDeclarationKind, VariableDeclarator,
};
use badger::parser::parse;

fn pretty(source: &str) -> String {
    generate_code(parse(source.to_string()).unwrap(), false)
}

fn minified(source: &str) -> String {
    generate_code(parse(source.to_string()).unwrap(), true)
}

fn ident(name: &'static str) -> Expression {
    Expression::Identifier(OwnedSlice::from_static(name))
}

#[test]
fn multiplication_binds_tighter_on_the_right() {
    assert_eq!(pretty("a + b * c"), "a + b * c;\n");
}

#[test]
fn parentheses_kept_around_looser_left_operand() {
    assert_eq!(pretty("(a + b) * c"), "(a + b) * c;\n");
    assert_eq!(minified("(a + b) * c"), "(a+b)*c;");
}

#[test]
fn hand_built_loose_left_operand_is_parenthesized() {
    let left = Expression::binary(ident("a"), OperatorType::LogicalOr, ident("b"));
    let e = Expression::binary(left, OperatorType::LogicalAnd, ident("c"));
    let program = Program::new(String::new(), vec![Statement::Expression { value: e }]);
    assert_eq!(generate_code(program, true), "(a||b)&&c;");
}

#[test]
fn tight_left_operand_is_not_parenthesized() {
    let left = Expression::binary(ident("a"), OperatorType::Multiplication, ident("b"));
    let e = Expression::binary(left, OperatorType::Addition, ident("c"));
    let program = Program::new(String::new(), vec![Statement::Expression { value: e }]);
    assert_eq!(generate_code(program, false), "a * b + c;\n");
}

#[test]
fn literal_forms_in_both_modes() {
    assert_eq!(minified("x = true"), "x=!0;");
    assert_eq!(minified("x = false"), "x=!1;");
    assert_eq!(minified("x = undefined"), "x=void 0;");
    assert_eq!(pretty("x = undefined"), "x = undefined;\n");
    assert_eq!(minified("x = null"), "x=null;");
    assert_eq!(minified("x = 'hi'"), "x='hi';");
}

#[test]
fn integers_are_written_in_decimal() {
    assert_eq!(minified("x = 0"), "x=0;");
    assert_eq!(minified("x = 1234567890"), "x=1234567890;");
    assert_eq!(minified("x = 18446744073709551615"), "x=18446744073709551615;");
    let program = Program::new(
        String::new(),
        vec![Statement::Expression { value: Expression::Literal(LiteralValue::LiteralInteger(907)) }],
    );
    assert_eq!(generate(&program, true), b"907;".to_vec());
}

#[test]
fn pretty_blocks_are_indented() {
    assert_eq!(pretty("if (a) { b; c; }"), "if (a) {\n    b;\n    c;\n}\n");
    assert_eq!(pretty("while (a) { if (b) { c; } }"), "while (a) {\n    if (b) {\n        c;\n    }\n}\n");
}

#[test]
fn objects_are_one_member_per_line_when_pretty() {
    assert_eq!(pretty("x = { a: 1, b }"), "x = {\n    a: 1,\n    b\n};\n");
    assert_eq!(minified("x = { a: 1, b }"), "x={a:1,b};");
}

#[test]
fn functions_and_arrows() {
    assert_eq!(minified("function f(a, b) { return a; }"), "function f(a,b){return a;}");
    assert_eq!(minified("f = (a, b) => a"), "f=(a,b)=>a;");
    assert_eq!(minified("f = a => { return a; }"), "f=a=>{return a;};");
    assert_eq!(minified("f = () => 1"), "f=()=>1;");
    assert_eq!(minified("f = function () { }"), "f=function(){};");
}

#[test]
fn calls_members_and_conditionals() {
    assert_eq!(minified("a.b(c)[d]"), "a.b(c)[d];");
    assert_eq!(minified("a ? b : c"), "a?b:c;");
    assert_eq!(pretty("a ? b : c"), "a ? b : c;\n");
    assert_eq!(minified("!a"), "!a;");
    assert_eq!(minified("a++"), "a++;");
    assert_eq!(minified("[1, 2]"), "[1,2];");
}

#[test]
fn classes_and_else_chains() {
    assert_eq!(
        minified("class A extends B { constructor(x) { this.x = x; } static m() { } p = 1; }"),
        "class A extends B{constructor(x){this.x=x;}static m(){}p=1;}"
    );
    assert_eq!(minified("if (a) b; else if (c) d; else e;"), "if(a)b; else if(c)d; else e;");
}

#[test]
fn loop_heads_are_written_without_semicolon() {
    let init = Statement::VariableDeclaration {
        kind: VariableDeclarationKind::Let,
        declarators: vec![VariableDeclarator {
            name: OwnedSlice::from_static("i"),
            value: Some(Expression::Literal(LiteralValue::LiteralInteger(0))),
        }],
    };
    let s = Statement::For {
        init: Some(Box::new(init)),
        test: Some(ident("c")),
        update: None,
        body: Box::new(Statement::Block { body: vec![] }),
    };
    let program = Program::new(String::new(), vec![s]);
    assert_eq!(generate_code(program, true), "for(let i=0;c;){}");
    let s = Statement::ForOf {
        left: Box::new(Statement::Expression { value: ident("x") }),
        right: ident("xs"),
        body: Box::new(Statement::Break { label: None }),
    };
    assert_eq!(generate_code(Program::new(String::new(), vec![s]), false), "for (x of xs) break;\n");
}

#[test]
fn transparent_statements_are_written_in_place() {
    let s = Statement::Transparent {
        body: vec![
            Statement::Expression { value: ident("a") },
            Statement::Expression { value: ident("b") },
        ],
    };
    assert_eq!(generate_code(Program::new(String::new(), vec![s]), false), "a;\nb;\n");
}

#[test]
fn arrow_with_one_parameter_omits_parentheses() {
    let e = Expression::ArrowFunction {
        params: vec![Parameter { name: OwnedSlice::from_static("x") }],
        body: Box::new(Statement::Expression { value: ident("x") }),
    };
    let program = Program::new(String::new(), vec![Statement::Expression { value: e }]);
    assert_eq!(generate_code(program, true), "x=>x;");
}

#[test]
fn generator_primitives() {
    let mut gen = Generator::new(false);
    gen.write_min("a b", "ab");
    gen.indent();
    gen.new_line();
    gen.write_byte(b'x');
    gen.dedent();
    gen.new_line();
    assert_eq!(gen.consume(), b"a b\n    x\n".to_vec());
    let mut gen = Generator::new(true);
    gen.write_min("a b", "ab");
    gen.new_line();
    gen.write_bytes(b"!");
    assert_eq!(gen.consume(), b"ab!".to_vec());
}

#[test]
fn regenerating_is_stable() {
    for source in ["a + b * c", "(a + b) * c", "if (x) { let y = f(1, 2); } else z = [a, { b: c }];", "x = a ? b : c"] {
        for minify in [true, false] {
            let once = generate_code(parse(source.to_string()).unwrap(), minify);
            let twice = generate_code(parse(once.clone()).unwrap(), minify);
            assert_eq!(once, twice);
        }
    }
}

#[test]
fn pretty_and_minified_parse_alike() {
    for source in ["a + b * c", "if (x) { y = 1; }", "f = (a, b) => a", "x = { a: 1, b }"] {
        let ast = parse(source.to_string()).unwrap();
        let p = generate_code(parse(generate_code(parse(source.to_string()).unwrap(), false)).unwrap(), true);
        let m = generate_code(ast, true);
        assert_eq!(p, m);
    }
}

#[test]
fn for_loops_are_parsed_and_written() {
    assert_eq!(minified("for (let i = 0; i < n; i++) { f(i); }"), "for(let i=0;i<n;i++){f(i);}");
    assert_eq!(minified("for (var k in o) f(k)"), "for(var k in o)f(k);");
    assert_eq!(minified("for (k in o) f(k)"), "for(k in o)f(k);");
    assert_eq!(minified("for (x of xs) { }"), "for(x of xs){}");
    assert_eq!(minified("for (;;) { }"), "for(;;){}");
    assert_eq!(pretty("for (;;) { }"), "for (; ; ) {\n}\n");
}

#[test]
fn demotion_reaches_loop_heads() {
    let mut ast = parse("for (let i = 0; i < 2; i++) { const j = i; }".to_string()).unwrap();
    badger::transformer::transform(&mut ast, badger::transformer::Settings::target_es5());
    assert_eq!(generate_code(ast, true), "for(var i=0;i<2;i++){var j=i;}");
}

#[test]
fn empty_source_gives_empty_output() {
    let p = parse(String::new()).unwrap();
    assert!(p.body.is_empty());
    assert_eq!(generate_code(p, true), "");
    assert_eq!(generate_code(parse("\n\n;".to_string()).unwrap(), false), "");
}

#[test]
fn word_operators_keep_their_spaces() {
    assert_eq!(minified("typeof x"), "typeof x;");
    assert_eq!(minified("void x"), "void x;");
    assert_eq!(minified("delete a.b"), "delete a.b;");
    assert_eq!(minified("a in b"), "a in b;");
    assert_eq!(minified("a instanceof b"), "a instanceof b;");
    assert_eq!(pretty("typeof x"), "typeof x;\n");
}

#[test]
fn signs_do_not_run_together() {
    assert_eq!(minified("a - -b"), "a- -b;");
    assert_eq!(minified("a + +b"), "a+ +b;");
    assert_eq!(minified("a + ++b"), "a+ ++b;");
    assert_eq!(minified("- -a"), "- -a;");
    assert_eq!(minified("a - b"), "a-b;");
    assert_eq!(minified("-a"), "-a;");
}

#[test]
fn loose_operands_are_parenthesized() {
    assert_eq!(minified("!(a && b)"), "!(a&&b);");
    assert_eq!(minified("(a + b).c"), "(a+b).c;");
    assert_eq!(minified("(a || b)[0]"), "(a||b)[0];");
    assert_eq!(minified("(a ? f : g)(x)"), "(a?f:g)(x);");
    assert_eq!(minified("f().x"), "f().x;");
    assert_eq!(minified("-a * b"), "-a*b;");
}

#[test]
fn increment_and_decrement_are_both_prefix_and_infix() {
    assert!(OperatorType::Increment.prefix() && OperatorType::Increment.infix());
    assert!(OperatorType::Decrement.prefix() && OperatorType::Decrement.infix());
}

#[test]
fn declarations_keep_their_kind() {
    assert_eq!(minified("const a = 1, b = 2"), "const a=1,b=2;");
}
