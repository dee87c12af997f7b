use rust_lisp::eval::Environment;
use rust_lisp::lex::{lex, Token};
use rust_lisp::types::Expr;

#[test]
fn test_default_environment_bindings() {
    let env = Environment::default();
    assert_eq!(env.num_contexts(), 1);
    assert!(env.contains_key("False"));
    assert!(env.contains_key("True"));
    assert!(!env.contains_key("x"));
    match env.lookup("True") {
        Some((params, Expr::List(items))) => {
            assert!(params.is_empty());
            assert_eq!(items.len(), 1);
            match &items[0] {
                Expr::FNum(bits) => assert_eq!(*bits, 1.0f64.to_bits()),
                _ => panic!("True should hold a number"),
            }
        }
        _ => panic!("True should be a value binding holding a list"),
    }
    match env.lookup("False") {
        Some((params, Expr::List(items))) => {
            assert!(params.is_empty());
            assert!(items.is_empty());
        }
        _ => panic!("False should be a value binding holding the empty list"),
    }
}

#[test]
fn test_shadowing_is_frame_local() {
    let mut env = Environment::empty();
    env.push_context();
    env.add_var("x", Expr::fnum(1.0f64.to_bits())).unwrap();
    env.push_context();
    env.add_var("x", Expr::fnum(2.0f64.to_bits())).unwrap();
    match env.lookup("x") {
        Some((_, Expr::FNum(bits))) => assert_eq!(bits, 2.0f64.to_bits()),
        _ => panic!("x should be bound"),
    }
    env.pop_context();
    match env.lookup("x") {
        Some((_, Expr::FNum(bits))) => assert_eq!(bits, 1.0f64.to_bits()),
        _ => panic!("outer x should survive the pop"),
    }
}

#[test]
fn test_add_var_without_frame_fails() {
    let mut env = Environment::empty();
    let r = env.add_var("x", Expr::fnum(0));
    assert_eq!(r.unwrap_err(), "Enviroment has no context!");
}

#[test]
fn test_add_fn_stores_parameters() {
    let mut env = Environment::empty();
    env.push_context();
    env.add_fn("f", vec!["a".to_string(), "b".to_string()], Expr::symbol("a"))
        .unwrap();
    match env.lookup("f") {
        Some((params, _)) => assert_eq!(params, vec!["a".to_string(), "b".to_string()]),
        None => panic!("f should be bound"),
    }
}

#[test]
fn test_from_vars() {
    let vars = [("a", Expr::fnum(1.0f64.to_bits())), ("b", Expr::fnum(2.0f64.to_bits()))];
    let env = Environment::from_vars(&vars);
    assert_eq!(env.num_contexts(), 1);
    assert!(env.contains_key("a"));
    assert!(env.contains_key("b"));
}

#[test]
fn test_lex_splits_parens_and_atoms() {
    let toks = lex("(+ 1 20)").unwrap();
    assert_eq!(toks.len(), 5);
    assert!(matches!(toks[0], Token::LPar));
    assert!(matches!(&toks[1], Token::Literal(s) if s == "+"));
    assert!(matches!(&toks[2], Token::Literal(s) if s == "1"));
    assert!(matches!(&toks[3], Token::Literal(s) if s == "20"));
    assert!(matches!(toks[4], Token::RPar));
}

#[test]
fn test_lex_handles_tight_parens_and_whitespace() {
    let toks = lex("(not(and x\ty))\n").unwrap();
    let texts: Vec<String> = toks
        .iter()
        .map(|t| match t {
            Token::LPar => "(".to_string(),
            Token::RPar => ")".to_string(),
            Token::Literal(s) => s.clone(),
        })
        .collect();
    assert_eq!(texts, vec!["(", "not", "(", "and", "x", "y", ")", ")"]);
}

#[test]
fn test_structural_equality_of_expressions() {
    let a = Expr::list(vec![Expr::symbol("a"), Expr::fnum(1.0f64.to_bits())]);
    let b = Expr::list(vec![Expr::symbol("a"), Expr::fnum(1.0f64.to_bits())]);
    let c = Expr::list(vec![Expr::symbol("a"), Expr::fnum(2.0f64.to_bits())]);
    assert!(a.eq_expr(&b));
    assert!(!a.eq_expr(&c));
    let nan = Expr::fnum(f64::NAN.to_bits());
    assert!(!nan.eq_expr(&nan));
    let zp = Expr::fnum(0.0f64.to_bits());
    let zn = Expr::fnum((-0.0f64).to_bits());
    assert!(zp.eq_expr(&zn));
}
