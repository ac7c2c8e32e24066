//! Unit tests for the arbitrary-precision integers and the front end.

use cara::bigint::BigInt;
use cara::frontend::{KeywordTypes, Lexer, Parser, Token};
use cara::ast::Op;

fn dec(b: &BigInt) -> String {
    b.to_dec_chars().iter().collect()
}

#[test]
fn from_u64_renders_decimal() {
    assert_eq!(dec(&BigInt::from_u64(0)), "0");
    assert_eq!(dec(&BigInt::from_u64(123)), "123");
    assert_eq!(dec(&BigInt::from_u64(18446744073709551615)), "18446744073709551615");
}

#[test]
fn addition_carries_across_words() {
    let a = BigInt::from_u64(18446744073709551615);
    let one = BigInt::from_u64(1);
    assert_eq!(dec(&a.plus(&one)), "18446744073709551616");
}

#[test]
fn multiplication_is_exact() {
    let a = BigInt::from_u64(18446744073709551615);
    assert_eq!(dec(&a.times(&a)), "340282366920938463426481119284349108225");
}

#[test]
fn subtraction_can_go_negative() {
    let a = BigInt::from_u64(3);
    let b = BigInt::from_u64(10);
    assert_eq!(dec(&a.minus(&b)), "-7");
}

#[test]
fn bigint_division_truncates_toward_zero() {
    let seven = BigInt::from_u64(7);
    let two = BigInt::from_u64(2);
    assert_eq!(dec(&seven.div_trunc(&two)), "3");
    assert_eq!(dec(&seven.negated().div_trunc(&two)), "-3");
    assert_eq!(dec(&seven.negated().rem_trunc(&two)), "-1");
}

#[test]
fn shifts_multiply_and_floor_divide() {
    let one = BigInt::from_u64(1);
    assert_eq!(dec(&one.shl_by(64)), "18446744073709551616");
    let five = BigInt::from_u64(5);
    assert_eq!(dec(&five.shr_by(1)), "2");
    assert_eq!(dec(&five.negated().shr_by(1)), "-3");
}

#[test]
fn comparison_orders_by_value() {
    let a = BigInt::from_u64(3);
    let b = BigInt::from_u64(10);
    assert_eq!(a.cmp_with(&b), -1);
    assert_eq!(b.cmp_with(&a), 1);
    assert_eq!(a.cmp_with(&BigInt::from_u64(3)), 0);
    assert_eq!(b.negated().cmp_with(&a), -1);
}

#[test]
fn usize_conversion_checks_range() {
    assert_eq!(BigInt::from_u64(5).to_usize(), Some(5));
    assert_eq!(BigInt::from_u64(5).negated().to_usize(), None);
}

#[test]
fn truth_tests() {
    assert!(BigInt::from_u64(0).is_zero());
    assert!(!BigInt::from_u64(1).is_zero());
    assert!(BigInt::from_u64(1).is_positive());
    assert!(!BigInt::from_u64(0).is_positive());
    assert!(!BigInt::from_u64(1).negated().is_positive());
}

#[test]
fn keywords_are_recognised() {
    assert_eq!(KeywordTypes::from_string("var"), Some(KeywordTypes::Var));
    assert_eq!(KeywordTypes::from_string("while"), Some(KeywordTypes::While));
    assert_eq!(KeywordTypes::from_string("loop"), None);
}

#[test]
fn lexer_tokenizes_expression() {
    let mut lexer = Lexer::new("1+2*3".to_string());
    assert_eq!(lexer.get_token(), Ok(Some(Token::Number(BigInt::from_u64(1)))));
    assert_eq!(lexer.get_token(), Ok(Some(Token::Operator(Op::Add))));
    assert_eq!(lexer.get_token(), Ok(Some(Token::Number(BigInt::from_u64(2)))));
    assert_eq!(lexer.get_token(), Ok(Some(Token::Operator(Op::Mul))));
    assert_eq!(lexer.get_token(), Ok(Some(Token::Number(BigInt::from_u64(3)))));
    assert_eq!(lexer.get_token(), Ok(None));
}

#[test]
fn lexer_interns_identifiers() {
    let mut lexer = Lexer::new("abc de abc".to_string());
    assert_eq!(lexer.get_token(), Ok(Some(Token::Id(0))));
    assert_eq!(lexer.get_token(), Ok(Some(Token::Id(1))));
    assert_eq!(lexer.get_token(), Ok(Some(Token::Id(0))));
    let table = lexer.string_table();
    assert_eq!(table, vec!["abc".to_string(), "de".to_string()]);
}

#[test]
fn lexer_current_char_peeks() {
    let lexer = Lexer::new("ab".to_string());
    assert_eq!(lexer.current_char(), 'a');
    let empty = Lexer::new("".to_string());
    assert_eq!(empty.current_char(), '\0');
}

#[test]
fn lexer_reports_bad_character() {
    let mut lexer = Lexer::new("@".to_string());
    assert!(lexer.get_token().is_err());
}

#[test]
fn lexer_two_char_operators() {
    let mut lexer = Lexer::new("== != <= >= << >> || &&".to_string());
    let expected = [
        Op::Eq,
        Op::Ne,
        Op::Le,
        Op::Ge,
        Op::LShift,
        Op::RShift,
        Op::Or,
        Op::And,
    ];
    for op in expected {
        assert_eq!(lexer.get_token(), Ok(Some(Token::Operator(op))));
    }
    assert_eq!(lexer.get_token(), Ok(None));
}

#[test]
fn parser_rejects_malformed_input() {
    let lexer = Lexer::new("var = ;".to_string());
    let mut parser = Parser::new(lexer).expect("lexer ok");
    assert!(parser.parse_compile_unit().is_err());
}

#[test]
fn parser_rejects_bare_expression_statement() {
    let lexer = Lexer::new("1 + 1".to_string());
    let mut parser = Parser::new(lexer).expect("lexer ok");
    assert!(parser.parse_compile_unit().is_err());
}

#[test]
fn parser_accepts_empty_program() {
    let lexer = Lexer::new("".to_string());
    let mut parser = Parser::new(lexer).expect("lexer ok");
    assert!(parser.parse_compile_unit().is_ok());
}

#[test]
fn modulo_by_zero_is_an_error() {
    // The remainder operator lives in the tree only; the grammar has no
    // token for it.
    let node = cara::ast::AstNodes::BinaryOp(
        Box::new(cara::ast::AstNodes::Number(BigInt::from_u64(7))),
        Op::Rem,
        Box::new(cara::ast::AstNodes::Number(BigInt::from_u64(0))),
    );
    let mut interp = cara::backend::Interpreter::new(Vec::new());
    match interp.visit(&node) {
        Err(e) => assert_eq!(e, cara::backend::Error::ModuloByZero),
        Ok(v) => panic!("unexpectedly succeeded with {:?}", v),
    }
}

#[test]
fn remainder_has_dividend_sign() {
    let node = cara::ast::AstNodes::BinaryOp(
        Box::new(cara::ast::AstNodes::UnaryOp(
            Op::Sub,
            Box::new(cara::ast::AstNodes::Number(BigInt::from_u64(7))),
        )),
        Op::Rem,
        Box::new(cara::ast::AstNodes::Number(BigInt::from_u64(2))),
    );
    let mut interp = cara::backend::Interpreter::new(Vec::new());
    match interp.visit(&node) {
        Ok(cara::backend::CrValue::Number(b)) => {
            let s: String = b.to_dec_chars().iter().collect();
            assert_eq!(s, "-1");
        }
        other => panic!("unexpected result {:?}", other),
    }
}
