use rust_lisp::eval::EvalResult;
use rust_lisp::interpreter::run_interpreter;
use rust_lisp::types::Expr;

fn run(prog: &str) -> (EvalResult, Vec<String>) {
    run_interpreter(prog)
}

fn expect_num(prog: &str, x: f64) {
    match run(prog).0 {
        EvalResult::Expr(Expr::FNum(bits)) => {
            assert_eq!(bits, x.to_bits(), "program {:?}", prog);
        }
        other => panic!("program {:?} gave {:?}", prog, kind(&other)),
    }
}

fn expect_symbol(prog: &str, name: &str) {
    match run(prog).0 {
        EvalResult::Expr(Expr::Symbol(s)) => assert_eq!(s, name, "program {:?}", prog),
        other => panic!("program {:?} gave {:?}", prog, kind(&other)),
    }
}

fn expect_error(prog: &str, msg: &str) {
    match run(prog).0 {
        EvalResult::Error(m) => assert_eq!(m, msg, "program {:?}", prog),
        other => panic!("program {:?} gave {:?}", prog, kind(&other)),
    }
}

fn kind(r: &EvalResult) -> String {
    match r {
        EvalResult::Error(m) => format!("error: {}", m),
        EvalResult::Expr(_) => "expression".to_string(),
        EvalResult::Unit => "unit".to_string(),
    }
}

fn num_list(r: &EvalResult) -> Vec<f64> {
    match r {
        EvalResult::Expr(Expr::List(items)) => items
            .iter()
            .map(|e| match e {
                Expr::FNum(bits) => f64::from_bits(*bits),
                _ => panic!("not a number in list"),
            })
            .collect(),
        _ => panic!("not a list"),
    }
}

#[test]
fn test_addition() {
    expect_num("(+ 1 2 3)", 6.0);
}

#[test]
fn test_nested_multiplication() {
    expect_num("(* 2 (+ 1 1))", 4.0);
}

#[test]
fn test_division_by_zero_is_infinity() {
    expect_num("(/ 5 0)", f64::INFINITY);
}

#[test]
fn test_subtraction() {
    expect_num("(- 10 2 3)", 5.0);
}

#[test]
fn test_multiplication() {
    expect_num("(* 2 3 4)", 24.0);
}

#[test]
fn test_division() {
    expect_num("(/ 12 4)", 3.0);
}

#[test]
fn test_single_operand_is_unchanged() {
    expect_num("(- 5)", 5.0);
    expect_num("(/ 7)", 7.0);
}

#[test]
fn test_fractional_arithmetic() {
    expect_num("(+ 0.5 0.25)", 0.75);
}

#[test]
fn test_equality_true() {
    expect_symbol("(= 1 1 1)", "True");
}

#[test]
fn test_equality_false() {
    expect_symbol("(= 1 2)", "False");
}

#[test]
fn test_inequality_any_differs_from_first() {
    expect_symbol("(!= 1 1 2)", "True");
    expect_symbol("(!= 1 1 1)", "False");
}

#[test]
fn test_not() {
    expect_symbol("(not False)", "True");
    expect_symbol("(not True)", "False");
}

#[test]
fn test_and() {
    expect_symbol("(and True False)", "False");
    expect_symbol("(and True True)", "True");
}

#[test]
fn test_or() {
    expect_symbol("(or False False True)", "True");
    expect_symbol("(or False False)", "False");
}

#[test]
fn test_if_takes_then_branch() {
    expect_num("(if (not False) 1 2)", 1.0);
}

#[test]
fn test_if_takes_else_branch() {
    expect_num("(if False 1 2)", 2.0);
}

#[test]
fn test_untaken_branch_has_no_effect() {
    let (r, out) = run("(if True (print 1) (print 2))");
    assert!(matches!(r, EvalResult::Unit));
    assert_eq!(out, vec!["1".to_string()]);
}

#[test]
fn test_let_then_print() {
    let (r, out) = run("((let x 5) (print x))");
    assert!(matches!(r, EvalResult::Expr(Expr::List(_))));
    assert_eq!(out, vec!["5".to_string()]);
}

#[test]
fn test_recursive_factorial() {
    let (r, _) = run("((fn f (n) (if (= n 0) 1 (* n (f (- n 1))))) (f 4))");
    assert_eq!(num_list(&r), vec![24.0]);
}

#[test]
fn test_dynamic_scope_sees_caller_frames() {
    let (r, _) = run("((fn g (d) y) (fn h (y) (g 0)) (h 1) (h 2))");
    assert_eq!(num_list(&r), vec![1.0, 2.0]);
}

#[test]
fn test_value_binding_reevaluated_on_reference() {
    let (r, _) = run("((let x y) (let y 2) (x))");
    assert_eq!(num_list(&r), vec![2.0]);
}

#[test]
fn test_unbound_symbol_evaluates_to_itself() {
    expect_symbol("foo", "foo");
}

#[test]
fn test_unbound_symbol_is_truthy_predicate() {
    expect_num("(if foo 1 2)", 1.0);
}

#[test]
fn test_arity_mismatch_names_both_counts() {
    expect_error("((fn f (a b) a) (f 1))", "Provided 2 arguments but expected 1!");
}

#[test]
fn test_nan_differs_from_itself() {
    expect_symbol("(= (/ 0 0) (/ 0 0))", "False");
    expect_symbol("(!= (/ 0 0) (/ 0 0))", "True");
}

#[test]
fn test_zeros_of_both_signs_are_equal() {
    expect_symbol("(= 0 -0)", "True");
}

#[test]
fn test_math_on_symbol_is_type_error() {
    expect_error("(+ 1 x)", "Mathematical operations must be performed on numbers!");
}

#[test]
fn test_math_needs_an_operand() {
    expect_error("(+)", "Mathematical operations must be performed on at least one number!");
}

#[test]
fn test_boolean_on_number_is_type_error() {
    expect_error("(and 1 True)", "Boolean operations must be performed symbols!");
}

#[test]
fn test_not_needs_exactly_one_operand() {
    expect_error("(not True False)", "Negation must be performed on one symbol!");
}

#[test]
fn test_reserved_name_rejected() {
    expect_error("(let if 5)", "Reserved variable or function name!");
    expect_error("(fn print (a) a)", "Reserved variable or function name!");
}

#[test]
fn test_let_arity_error() {
    expect_error("(let x)", "Invalid variable definition! Must be 'let x expr'!");
}

#[test]
fn test_let_non_symbol_error() {
    expect_error("(let 1 2)", "Invalid variable definition! Must be 'let x expr!");
}

#[test]
fn test_cannot_assign_unit() {
    expect_error("(let x (print 1))", "Cannot assign Unit to variable!");
}

#[test]
fn test_fn_params_must_be_symbols() {
    expect_error("(fn f (1) 2)", "Function arguments must be strings!");
}

#[test]
fn test_if_wrong_shape() {
    expect_error("(if True 1)", "Invalid if statement! Must be 'if (predicate) (then) (else)'");
}

#[test]
fn test_if_numeric_predicate_is_type_error() {
    expect_error("(if 1 2 3)", "Invalid if statement predicate!");
}

#[test]
fn test_unit_cannot_be_an_argument() {
    expect_error(
        "((fn f (a) a) (f (print 1)))",
        "Cannot pass Unit as an argument to a function!",
    );
}

#[test]
fn test_print_function_object() {
    let (_, out) = run("((fn f (a) a) (print f))");
    assert_eq!(out, vec!["<func-object: f>".to_string()]);
}

#[test]
fn test_print_renders_list_without_evaluating() {
    let (_, out) = run("(print (1 2))");
    assert_eq!(out, vec!["(1 2)".to_string()]);
}

#[test]
fn test_print_joins_operands_with_spaces() {
    let (_, out) = run("(print 1 2 3)");
    assert_eq!(out, vec!["1 2 3".to_string()]);
}

#[test]
fn test_parse_error_unexpected_close() {
    expect_error(")", "Parse error: BadParse(\"Unexpected ) encountered!\")");
}

#[test]
fn test_parse_error_empty_group() {
    expect_error("()", "Parse error: BadParse(\"Unexpected ) encountered!\")");
}

#[test]
fn test_parse_error_unterminated() {
    expect_error("(", "Parse error: EOF");
}

#[test]
fn test_parse_error_empty_program() {
    expect_error("", "Parse error: EOF");
}

#[test]
fn test_implicit_list_collects_values() {
    let (r, _) = run("(1 2 (+ 1 2))");
    assert_eq!(num_list(&r), vec![1.0, 2.0, 3.0]);
}

#[test]
fn test_value_binding_ignores_arguments() {
    let (r, _) = run("((let x 5) (x 1 2))");
    assert_eq!(num_list(&r), vec![5.0]);
}

#[test]
fn test_bare_function_symbol_is_zero_argument_call() {
    expect_error("((fn f (a) a) f)", "Provided 1 arguments but expected 0!");
}

#[test]
fn test_print_fractional_number() {
    let (_, out) = run("(print 2.5)");
    assert_eq!(out, vec!["2.5".to_string()]);
}

#[test]
fn test_print_negative_number() {
    let (_, out) = run("((let x (- 0 3)) (print x))");
    assert_eq!(out, vec!["-3".to_string()]);
}

#[test]
fn test_print_does_not_evaluate_operands() {
    let (_, out) = run("(print (- 0 3))");
    assert_eq!(out, vec!["(- 0 3)".to_string()]);
}
