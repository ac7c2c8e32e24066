//! End-to-end tests: source text through the lexer, the parser and the
//! evaluator, checking printed output and error kinds.

use cara::backend::{CrValue, Error, Exit, Interpreter};
use cara::frontend::{Lexer, Parser};

fn run(src: &str) -> (Result<CrValue, Error>, String) {
    let lexer = Lexer::new(src.to_string());
    let mut parser = Parser::new(lexer).expect("lexer error");
    let (ast, table) = parser.parse_compile_unit().expect("parse error");
    let mut interp = Interpreter::new(table);
    interp.set_printer();
    let r = interp.visit(&ast);
    let out: String = interp.output().iter().collect();
    (r, out)
}

fn run_output(src: &str) -> String {
    let (r, out) = run(src);
    assert!(r.is_ok(), "program failed: {:?}", r.err());
    out
}

fn run_error(src: &str) -> Error {
    let (r, _) = run(src);
    match r {
        Ok(v) => panic!("program unexpectedly succeeded with {:?}", v),
        Err(e) => e,
    }
}

#[test]
fn end_to_end_const_sum() {
    // const a = 5; var b = a + 3; print(b);  prints 8 and exits cleanly.
    assert_eq!(run_output("const a = 5; var b = a + 3; print(b);"), "8\n");
}

#[test]
fn end_to_end_assign_to_const_fails() {
    // Writing to a const is BadAssign, reported, no crash.
    assert_eq!(run_error("const a = 1; a = 2;"), Error::BadAssign);
}

#[test]
fn const_value_unchanged_after_bad_assign() {
    // The stored value survives the refused write.
    let (r, out) = run("const a = 1; a = 2; print(a);");
    assert_eq!(r.err(), Some(Error::BadAssign));
    assert_eq!(out, "");
    assert_eq!(run_output("const a = 1; print(a);"), "1\n");
}

#[test]
fn for_loop_enumerates_half_open_range() {
    // End exclusive, default step 1.
    assert_eq!(run_output("for i in (0, 5) { print(i); }"), "0\n1\n2\n3\n4\n");
}

#[test]
fn for_loop_with_step() {
    assert_eq!(run_output("for i in (0, 10, 3) { print(i); }"), "0\n3\n6\n9\n");
}

#[test]
fn while_loop_break() {
    assert_eq!(
        run_output("var i = 0; while i < 10 { if i == 3 { break; } i = i + 1; } print(i);"),
        "3\n"
    );
}

#[test]
fn while_loop_continue() {
    assert_eq!(
        run_output(
            "var i = 0; var s = 0; while i < 5 { i = i + 1; if i == 3 { continue; } s = s + i; } print(s);"
        ),
        "12\n"
    );
}

#[test]
fn list_round_trip() {
    // append then len gives 4; remove(l, 0) returns 1 and len drops to 3.
    assert_eq!(
        run_output("var l = [1,2,3]; append(l, 4); print(len(l)); print(remove(l, 0)); print(len(l));"),
        "4\n1\n3\n"
    );
}

#[test]
fn list_insert_shifts() {
    assert_eq!(
        run_output("var l = [1,3]; insert(l, 1, 2); print(l);"),
        "[1,2,3,]\n"
    );
}

#[test]
fn list_mutation_from_nested_scope_is_shared() {
    // The list lives in the global scope; the loop body grows it in place.
    assert_eq!(
        run_output("var l = []; for i in (0, 3) { append(l, i); } print(len(l)); print(l);"),
        "3\n[0,1,2,]\n"
    );
}

#[test]
fn arbitrary_precision_exceeds_machine_words() {
    // 2^100 computed exactly, not wrapped.
    assert_eq!(
        run_output("var x = 1; for i in (0, 100) { x = x * 2; } print(x);"),
        "1267650600228229401496703205376\n"
    );
}

#[test]
fn arbitrary_precision_shift() {
    assert_eq!(run_output("print(1 << 100);"), "1267650600228229401496703205376\n");
}

#[test]
fn division_by_zero_is_an_error() {
    assert_eq!(run_error("print(1 / 0);"), Error::DivisionByZero);
}

#[test]
fn index_out_of_range_is_an_error() {
    assert_eq!(run_error("var l = [1]; print(l[5]);"), Error::IndexOutOfRange);
}

#[test]
fn index_reads_element() {
    assert_eq!(run_output("var l = [10,20,30]; print(l[1]);"), "20\n");
}

#[test]
fn indexed_assignment_writes_element() {
    assert_eq!(run_output("var l = [10,20,30]; l[1] = 5; print(l);"), "[10,5,30,]\n");
}

#[test]
fn var_in_if_body_is_unreachable_after() {
    assert_eq!(run_error("if 1 { var x = 5; } print(x);"), Error::SymbolNotFound);
}

#[test]
fn var_in_while_body_is_unreachable_after() {
    assert_eq!(
        run_error("var i = 0; while i < 1 { var x = 5; i = 1; } print(x);"),
        Error::SymbolNotFound
    );
}

#[test]
fn loop_variable_is_unreachable_after_for() {
    assert_eq!(run_error("for i in (0, 3) { } print(i);"), Error::SymbolNotFound);
}

#[test]
fn loop_body_bindings_do_not_leak_between_iterations() {
    // x is rebound fresh each iteration; reading it before the definition in
    // the second iteration would fail if the scope were not cleared.
    assert_eq!(
        run_output("for i in (0, 2) { var x = i; print(x); }"),
        "0\n1\n"
    );
}

#[test]
fn inner_shadowing_leaves_outer_binding() {
    assert_eq!(
        run_output("var x = 1; if 1 { var x = 2; print(x); } print(x);"),
        "2\n1\n"
    );
}

#[test]
fn else_branch_taken_when_condition_not_positive() {
    assert_eq!(run_output("if 0 { print(1); } else { print(2); }"), "2\n");
}

#[test]
fn function_call_returns_value() {
    assert_eq!(run_output("fn addtwo(x) { return x + 2; } print(addtwo(40));"), "42\n");
}

#[test]
fn function_falls_off_end_yields_void() {
    assert_eq!(run_output("fn nothing() { } print(nothing());"), "void\n");
}

#[test]
fn recursion_works() {
    assert_eq!(
        run_output("fn fact(n) { if n < 2 { return 1; } return n * fact(n - 1); } print(fact(10));"),
        "3628800\n"
    );
}

#[test]
fn call_scope_sees_caller_bindings() {
    // The call's scope is parented on the caller's current scope, so a free
    // variable in the body resolves at the call site (dynamic scoping).
    assert_eq!(run_output("fn show() { print(y); } var y = 7; show();"), "7\n");
}

#[test]
fn builtins_shadow_user_functions() {
    // A user function named print is never reached.
    assert_eq!(run_output("fn print(x) { return 0; } print(3);"), "3\n");
}

#[test]
fn unknown_function_is_symbol_not_found() {
    assert_eq!(run_error("nosuch();"), Error::SymbolNotFound);
}

#[test]
fn calling_a_variable_is_symbol_not_found() {
    assert_eq!(run_error("var f = 1; f();"), Error::SymbolNotFound);
}

#[test]
fn operand_must_be_numeric() {
    assert_eq!(run_error("var l = [1]; var x = l + 1;"), Error::UseVoidValue);
}

#[test]
fn builtin_arity_is_checked() {
    assert_eq!(run_error("var l = [1]; append(l);"), Error::ArgMismatch);
}

#[test]
fn builtin_needs_bare_variable() {
    assert_eq!(run_error("append(1 + 1, 2);"), Error::ArgMismatch);
}

#[test]
fn break_outside_loop_is_reported() {
    assert_eq!(run_error("break;"), Error::NotInLoop);
    assert_eq!(run_error("continue"), Error::NotInLoop);
}

#[test]
fn return_outside_function_is_reported() {
    assert_eq!(run_error("return 1;"), Error::RetValInVoidFunc);
}

#[test]
fn print_without_sink_fails() {
    let lexer = Lexer::new("print(1);".to_string());
    let mut parser = Parser::new(lexer).expect("lexer error");
    let (ast, table) = parser.parse_compile_unit().expect("parse error");
    let mut interp = Interpreter::new(table);
    let r = interp.visit(&ast);
    match r {
        Err(e) => assert_eq!(e, Error::NoPrinter),
        Ok(v) => panic!("unexpectedly succeeded with {:?}", v),
    }
}

#[test]
fn print_joins_arguments_with_spaces() {
    assert_eq!(run_output("print(1, 2, 3);"), "1 2 3\n");
}

#[test]
fn template_list_repeats_value() {
    assert_eq!(run_output("var l = [7; 3]; print(l); print(len(l));"), "[7,7,7,]\n3\n");
}

#[test]
fn template_list_negative_count_is_an_error() {
    assert_eq!(run_error("var l = [7; 0 - 2];"), Error::ValueOutOfRange);
}

#[test]
fn negative_shift_amount_is_an_error() {
    assert_eq!(run_error("print(1 << (0 - 1));"), Error::ValueOutOfRange);
}

#[test]
fn negative_step_is_an_error() {
    assert_eq!(run_error("for i in (0, 5, 0 - 1) { }"), Error::ValueOutOfRange);
}

#[test]
fn division_truncates_toward_zero() {
    assert_eq!(run_output("print((0 - 7) / 2);"), "-3\n");
    assert_eq!(run_output("print(7 / 2);"), "3\n");
}

#[test]
fn comparisons_yield_zero_or_one() {
    assert_eq!(run_output("print(1 < 2, 2 < 1, 3 == 3, 3 != 3);"), "1 0 1 0\n");
}

#[test]
fn logical_operators_test_positivity() {
    assert_eq!(run_output("print(1 && 0, 1 && 2, 0 || 0, 0 || 5);"), "0 1 0 1\n");
}

#[test]
fn right_shift_floors() {
    assert_eq!(run_output("print(5 >> 1);"), "2\n");
    assert_eq!(run_output("print((0 - 5) >> 1);"), "-3\n");
}

#[test]
fn unary_minus_applies_to_the_rest_of_the_expression() {
    // The grammar parses a leading minus as negating the whole remaining
    // expression: -5 + 2 is -(5 + 2).
    assert_eq!(run_output("print(-5 + 2);"), "-7\n");
    assert_eq!(run_output("print(-5);"), "-5\n");
}

#[test]
fn evaluation_budget_is_an_explicit_error() {
    // An endless loop runs out of the explicit budget instead of hanging.
    let lexer = Lexer::new("while 1 { }".to_string());
    let mut parser = Parser::new(lexer).expect("lexer error");
    let (ast, table) = parser.parse_compile_unit().expect("parse error");
    let mut interp = Interpreter::new(table);
    interp.set_printer();
    let r = interp.visit_node(&ast, 100);
    assert!(matches!(r, Err(Exit::Fault(Error::OutOfFuel))));
}

#[test]
fn deep_recursion_is_an_explicit_error() {
    let lexer = Lexer::new("fn f(n) { return f(n + 1); } f(0);".to_string());
    let mut parser = Parser::new(lexer).expect("lexer error");
    let (ast, table) = parser.parse_compile_unit().expect("parse error");
    let mut interp = Interpreter::new(table);
    interp.set_printer();
    let r = interp.visit_node(&ast, 1000);
    assert!(matches!(r, Err(Exit::Fault(Error::OutOfFuel))));
}

#[test]
fn error_messages_are_stable() {
    assert_eq!(Error::BadAssign.message(), "assigning to constant");
    assert_eq!(Error::SymbolNotFound.message(), "symbol not found");
    assert_eq!(Error::DivisionByZero.message(), "division by zero");
}
