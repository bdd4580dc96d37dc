use badger::grammar::{Expression, OperatorType, OwnedSlice};
use badger::lexer::{tokenize, LexError, Token};
use badger::parser::{arrow_params, parse, ParseError};
use badger::transformer::{demote_statement, Settings};

const ALL: [OperatorType; 49] = [
    OperatorType::FatArrow, OperatorType::Accessor, OperatorType::New, OperatorType::Increment,
    OperatorType::Decrement, OperatorType::LogicalNot, OperatorType::BitwiseNot,
    OperatorType::Typeof, OperatorType::Void, OperatorType::Delete, OperatorType::Multiplication,
    OperatorType::Division, OperatorType::Remainder, OperatorType::Exponent,
    OperatorType::Addition, OperatorType::Substraction, OperatorType::BitShiftLeft,
    OperatorType::BitShiftRight, OperatorType::UBitShiftRight, OperatorType::Lesser,
    OperatorType::LesserEquals, OperatorType::Greater, OperatorType::GreaterEquals,
    OperatorType::Instanceof, OperatorType::In, OperatorType::StrictEquality,
    OperatorType::StrictInequality, OperatorType::Equality, OperatorType::Inequality,
    OperatorType::BitwiseAnd, OperatorType::BitwiseXor, OperatorType::BitwiseOr,
    OperatorType::LogicalAnd, OperatorType::LogicalOr, OperatorType::Conditional,
    OperatorType::Assign, OperatorType::AddAssign, OperatorType::SubstractAssign,
    OperatorType::ExponentAssign, OperatorType::MultiplyAssign, OperatorType::DivideAssign,
    OperatorType::RemainderAssign, OperatorType::BSLAssign, OperatorType::BSRAssign,
    OperatorType::UBSRAssign, OperatorType::BitAndAssign, OperatorType::BitXorAssign,
    OperatorType::BitOrAssign, OperatorType::Spread,
];

#[test]
fn every_operator_is_classified() {
    for op in ALL {
        assert!(op.prefix() || op.infix() || op == OperatorType::Spread || op.assignment());
        let bp = op.binding_power();
        assert!(1 <= bp && bp <= 18);
        if op.assignment() {
            assert_eq!(bp, 3);
        }
    }
}

#[test]
fn binding_power_table() {
    assert_eq!(OperatorType::Accessor.binding_power(), 18);
    assert_eq!(OperatorType::New.binding_power(), 17);
    assert_eq!(OperatorType::Increment.binding_power(), 16);
    assert_eq!(OperatorType::Typeof.binding_power(), 15);
    assert_eq!(OperatorType::Exponent.binding_power(), 14);
    assert_eq!(OperatorType::Substraction.binding_power(), 13);
    assert_eq!(OperatorType::UBitShiftRight.binding_power(), 12);
    assert_eq!(OperatorType::In.binding_power(), 11);
    assert_eq!(OperatorType::Inequality.binding_power(), 10);
    assert_eq!(OperatorType::BitwiseAnd.binding_power(), 9);
    assert_eq!(OperatorType::BitwiseXor.binding_power(), 8);
    assert_eq!(OperatorType::BitwiseOr.binding_power(), 7);
    assert_eq!(OperatorType::LogicalAnd.binding_power(), 6);
    assert_eq!(OperatorType::LogicalOr.binding_power(), 5);
    assert_eq!(OperatorType::Conditional.binding_power(), 4);
    assert_eq!(OperatorType::BitOrAssign.binding_power(), 3);
    assert_eq!(OperatorType::Spread.binding_power(), 1);
    assert!(OperatorType::Addition.prefix() && OperatorType::Addition.infix());
    assert!(!OperatorType::Assign.prefix());
    assert!(!OperatorType::Spread.infix());
}

#[test]
fn expression_binding_power() {
    let a = || Expression::Identifier(OwnedSlice::from_static("a"));
    assert_eq!(a().binding_power(), 100);
    assert_eq!(Expression::member(a(), OwnedSlice::from_static("b")).binding_power(), 18);
    assert_eq!(Expression::call(a(), vec![]).binding_power(), 17);
    assert_eq!(Expression::binary(a(), OperatorType::Addition, a()).binding_power(), 13);
}

#[test]
fn owned_slice_compares_text() {
    let s = OwnedSlice::from_static("abc");
    assert!(s.is("abc"));
    assert!(!s.is("abd"));
    assert_eq!(s.as_bytes(), b"abc");
    assert_eq!(s, OwnedSlice::from_bytes(b"abc"));
}

#[test]
fn lexer_reads_tokens() {
    let tokens = tokenize("let x = 1;\n").unwrap();
    assert_eq!(tokens.len(), 6);
    assert_eq!(tokens[0], Token::Let);
    assert_eq!(tokens[5], Token::LineTermination);
    assert!(tokenize("").unwrap().is_empty());
    assert_eq!(tokenize("a # b"), Err(LexError::UnexpectedCharacter));
    assert_eq!(tokenize("'abc"), Err(LexError::UnterminatedLiteral));
}

#[test]
fn parse_errors() {
    assert_eq!(parse("a #".to_string()), Err(ParseError::LexicalError(LexError::UnexpectedCharacter)));
    assert_eq!(parse("var = 1".to_string()), Err(ParseError::UnexpectedToken));
    assert_eq!(parse("a +".to_string()), Err(ParseError::UnexpectedEnd));
    assert_eq!(parse("f = (a, 1) => a".to_string()), Err(ParseError::InvalidArrowParameters));
    assert_eq!(parse("a b".to_string()), Err(ParseError::UnexpectedToken));
}

#[test]
fn automatic_semicolons_at_line_breaks() {
    let p = parse("a = 1\nb = 2\n".to_string()).unwrap();
    assert_eq!(p.body.len(), 2);
    let p = parse("a\n(b)".to_string()).unwrap();
    assert_eq!(p.body.len(), 2);
}

#[test]
fn arrow_parameter_coercion() {
    let id = |n: &'static str| Expression::Identifier(OwnedSlice::from_static(n));
    assert_eq!(arrow_params(None).unwrap().len(), 0);
    let ps = arrow_params(Some(Expression::Sequence(vec![id("a"), id("b")]))).unwrap();
    assert_eq!(ps.len(), 2);
    assert!(ps[1].name.is("b"));
    assert_eq!(arrow_params(Some(Expression::This)), Err(ParseError::InvalidArrowParameters));
}

#[test]
fn demotion_reaches_nested_statements() {
    let p = parse("while (a) { const b = 1; }".to_string()).unwrap();
    let mut body = p.body;
    let s = demote_statement(body.remove(0));
    let again = parse("while (a) { var b = 1; }".to_string()).unwrap();
    assert_eq!(s, again.body.into_iter().next().unwrap());
    assert!(Settings::target_es5().transform_block_scope);
}

#[test]
fn calls_bind_tighter_than_binary_operators() {
    let p = parse("a + f(x)".to_string()).unwrap();
    assert_eq!(p.body.len(), 1);
    match &p.body[0] {
        badger::grammar::Statement::Expression { value: Expression::Binary { operator, right, .. } } => {
            assert_eq!(*operator, OperatorType::Addition);
            assert!(matches!(**right, Expression::Call { .. }));
        }
        _ => panic!("expected a binary expression"),
    }
}

#[test]
fn one_line_break_token_per_newline() {
    let tokens = tokenize("a /* x\ny */ b // c\n'd'\n").unwrap();
    let breaks = tokens.iter().filter(|t| matches!(t, Token::LineTermination)).count();
    assert_eq!(breaks, 3);
    assert_eq!(tokenize("'a\\\nb'"), Err(LexError::UnterminatedLiteral));
}
