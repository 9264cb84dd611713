use monkey::ast::Program;
use monkey::environment::Environment;
use monkey::eval::{eval, EVAL_FUEL};
use monkey::eval_error::EvalError;
use monkey::lexer::Lexer;
use monkey::node::Node;
use monkey::object::{Object, ObjectComparison};
use monkey::parser::Parser;

fn run(input: &str) -> Result<Object, EvalError> {
    let mut p = Parser::new(Lexer::new(input));
    let program = p.parse_program();
    assert!(p.parse_errors.is_empty(), "parse errors: {:?}", p.parse_errors);
    let mut env = Environment::new_with_builtin();
    eval(&Node::Program(program), &mut env, 0, EVAL_FUEL)
}

fn run_ok(input: &str) -> Object {
    run(input).unwrap()
}

#[test]
fn integer_literals_evaluate_to_themselves() {
    assert_eq!(run_ok("0"), Object::Int(0));
    assert_eq!(run_ok("9223372036854775807"), Object::Int(i64::MAX));
    assert_eq!(run_ok("42;"), Object::Int(42));
}

#[test]
fn arithmetic_follows_precedence_and_associativity() {
    assert_eq!(run_ok("1 + 2 * 3"), Object::Int(7));
    assert_eq!(run_ok("(1 + 2) * 3"), Object::Int(9));
    assert_eq!(run_ok("10 - 2 - 3"), Object::Int(5));
    assert_eq!(run_ok("100 / 10 / 5"), Object::Int(2));
    assert_eq!(run_ok("7 / 2"), Object::Int(3));
    assert_eq!(run_ok("-7 / 2"), Object::Int(-3));
}

#[test]
fn truthiness_of_bang() {
    assert_eq!(run_ok("!5"), Object::Bool(false));
    assert_eq!(run_ok("!0"), Object::Bool(false));
    assert_eq!(run_ok("!\"\""), Object::Bool(false));
    assert_eq!(run_ok("!!5"), Object::Bool(true));
    assert_eq!(run_ok("!if (false) { 1 }"), Object::Bool(true));
}

#[test]
fn closures_capture_their_defining_scope() {
    let input = "let newAdder = fn(x) { fn(y) { x + y } }; let addTwo = newAdder(2); addTwo(3);";
    assert_eq!(run_ok(input), Object::Int(5));
}

#[test]
fn shadowing_does_not_mutate_outer_bindings() {
    let input = "let a = 1; let f = fn() { let a = 99; a }; let b = f(); a";
    assert_eq!(run_ok(input), Object::Int(1));
    let input2 = "let a = 1; let f = fn(a) { a }; let b = f(50); a";
    assert_eq!(run_ok(input2), Object::Int(1));
}

#[test]
fn array_indexing_bounds() {
    assert_eq!(run_ok("[1,2,3][1]"), Object::Int(2));
    assert_eq!(
        run("[1,2,3][5]").unwrap_err(),
        EvalError::IndexOutOfBounds { index: 5, max: 3 }
    );
    assert_eq!(
        run("[1,2,3][-1]").unwrap_err(),
        EvalError::IndexOutOfBounds { index: -1, max: 3 }
    );
}

#[test]
fn hash_indexing_and_misses() {
    assert_eq!(run_ok("{\"foo\":5}[\"foo\"]"), Object::Int(5));
    assert_eq!(run_ok("{\"foo\":5}[\"bar\"]"), Object::Null);
    assert_eq!(run_ok("{1: 2, 1: 3}[1]"), Object::Int(3));
}

#[test]
fn return_short_circuits_blocks() {
    assert_eq!(run_ok("if (true) { if (true) { return 10; } return 1; }"), Object::Int(10));
    assert_eq!(run_ok("let f = fn() { return 1; 2 }; f()"), Object::Int(1));
}

#[test]
fn builtins_are_pure() {
    let input = "let a=[1,2,3]; push(a,4); a";
    assert_eq!(
        run_ok(input),
        Object::Array(vec![Object::Int(1), Object::Int(2), Object::Int(3)])
    );
    let input2 = "let a=[1,2,3]; rest(a); a";
    assert_eq!(
        run_ok(input2),
        Object::Array(vec![Object::Int(1), Object::Int(2), Object::Int(3)])
    );
}

#[test]
fn error_taxonomy_round_trip() {
    assert_eq!(
        run("5 + true").unwrap_err(),
        EvalError::TypeMismatch("5".to_owned(), "true".to_owned())
    );
    assert_eq!(
        run("missing").unwrap_err(),
        EvalError::IdentifierNotFount("missing".to_owned())
    );
    assert_eq!(
        run("len(1)").unwrap_err(),
        EvalError::InvalidOperation { operation: "len".to_owned(), object_type: "1".to_owned() }
    );
    assert_eq!(
        run("len()").unwrap_err(),
        EvalError::InvalidParamCount { expected: 1, actual: 0 }
    );
    assert_eq!(
        run("first([])").unwrap_err(),
        EvalError::IndexOutOfBounds { index: 0, max: 0 }
    );
    assert_eq!(
        run("5[0]").unwrap_err(),
        EvalError::IndexOperatorNotSupported("5".to_owned())
    );
    assert_eq!(
        run("[1,2][true]").unwrap_err(),
        EvalError::InvalidObjectType("Int".to_owned(), "true".to_owned())
    );
    assert_eq!(
        run("{[1]: 2}").unwrap_err(),
        EvalError::InvalidHashKeyType("[1] ".to_owned())
    );
    assert_eq!(
        run("true < false").unwrap_err(),
        EvalError::InvalidOperator("true".to_owned(), "<".to_owned(), "false".to_owned())
    );
    assert_eq!(
        run("1 == true").unwrap_err(),
        EvalError::InvalidOperator("1".to_owned(), "==".to_owned(), "true".to_owned())
    );
}

#[test]
fn parser_accumulates_multiple_errors() {
    let mut p = Parser::new(Lexer::new("let = 5; let y 10; +"));
    let _program: Program = p.parse_program();
    assert!(p.parse_errors.len() >= 2, "errors: {:?}", p.parse_errors);
}

#[test]
fn division_by_zero_is_an_error_not_a_crash() {
    assert_eq!(
        run("5 / 0").unwrap_err(),
        EvalError::InvalidOperator("5".to_owned(), "/".to_owned(), "0".to_owned())
    );
}

#[test]
fn arithmetic_wraps_at_the_edges() {
    assert_eq!(run_ok("9223372036854775807 + 1"), Object::Int(i64::MIN));
    assert_eq!(run_ok("-9223372036854775807 - 2"), Object::Int(i64::MAX));
}

#[test]
fn unary_minus_quirks() {
    assert_eq!(run_ok("-5"), Object::Int(-5));
    // unary minus on a non-integer silently yields null, kept as observed
    assert_eq!(run_ok("-true"), Object::Null);
    assert_eq!(run_ok("-\"x\""), Object::Null);
}

#[test]
fn string_equality_and_concatenation() {
    assert_eq!(run_ok("\"a\" + \"b\" + \"c\""), Object::String("abc".to_owned()));
    assert_eq!(run_ok("\"\" + \"\""), Object::String(String::new()));
}

#[test]
fn empty_program_and_empty_block() {
    assert_eq!(run_ok(""), Object::Null);
    assert_eq!(run_ok("if (true) {}"), Object::Null);
}

#[test]
fn conditions_use_truthiness() {
    assert_eq!(run_ok("if (0) { 1 } else { 2 }"), Object::Int(1));
    assert_eq!(run_ok("if (\"\") { 1 } else { 2 }"), Object::Int(1));
    assert_eq!(run_ok("if (false) { 1 }"), Object::Null);
}

#[test]
fn call_argument_count_is_checked() {
    assert_eq!(
        run("let f = fn(x, y) { x }; f(1)").unwrap_err(),
        EvalError::InvalidParamCount { expected: 2, actual: 1 }
    );
}

#[test]
fn calling_a_non_function_is_an_impossible_state() {
    assert_eq!(run("5(3)").unwrap_err(), EvalError::ImpossibleState("5".to_owned()));
}

#[test]
fn deep_recursion_hits_the_budget() {
    let input = "let f = fn() { f() }; f()";
    assert_eq!(run(input).unwrap_err(), EvalError::RecursionLimitReached);
}

#[test]
fn rendering_matches_the_display_rules() {
    assert_eq!(Object::Int(i64::MIN).render(), "-9223372036854775808");
    assert_eq!(Object::Int(0).render(), "0");
    assert_eq!(Object::Bool(true).render(), "true");
    assert_eq!(Object::Null.render(), "null");
    assert_eq!(
        Object::Array(vec![Object::Int(1), Object::Int(2)]).render(),
        "[1, 2] "
    );
    assert_eq!(run_ok("fn(x, y) { x + y; }").render(), "fn(x ,y) (x + y)");
}

#[test]
fn hash_keys_are_restricted() {
    let err = run("{fn(x){x}: 1}").unwrap_err();
    assert!(matches!(err, EvalError::InvalidHashKeyType(_)), "got {:?}", err);
}

#[test]
fn comparisons_only_between_ints() {
    assert_eq!(run_ok("2 >= 2"), Object::Bool(true));
    assert_eq!(run_ok("2 <= 1"), Object::Bool(false));
    let r = Object::eval_obj_comparison(
        &Object::Int(3),
        &Object::Int(4),
        ObjectComparison::LessThan,
    );
    assert_eq!(r.unwrap(), Object::Bool(true));
}

#[test]
fn lexer_rejects_oversized_integer_literals() {
    let mut lex = Lexer::new("99999999999999999999");
    assert_eq!(lex.next_token(), monkey::token::Token::Illegal);
}

#[test]
fn builtins_can_be_shadowed() {
    assert_eq!(run_ok("let len = 5; len"), Object::Int(5));
}
