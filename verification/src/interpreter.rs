//! The top-level pipeline: program text is lexed, parsed into one
//! expression, and evaluated against a fresh default environment. The
//! lines the program printed are returned alongside the result, so the
//! front end can write them out and then report any error.

use vstd::prelude::*;

use crate::eval::{
    EvalResult, EvalResultV, Environment, EnvV, MAX_FUEL, default_contexts, eval, eval_s,
};
use crate::lex::{lex, spec_lex};
use crate::parse::{ParseError, ParseErrorV, ParseResultV, parse, parse_one_s};
use crate::types::ExprV;

verus! {

/// The message the front end sees for a parse failure.
pub open spec fn parse_err_msg(e: ParseErrorV) -> Seq<char> {
    match e {
        ParseErrorV::BadParse(m) => "Parse error: BadParse(\""@ + m + "\")"@,
        ParseErrorV::EOF => "Parse error: EOF"@,
    }
}

/// What running one program yields: the result of evaluating its one
/// expression against a fresh default environment, and the lines it
/// printed. A program that does not parse yields the parse failure and
/// no output.
pub open spec fn run_s(s: Seq<char>) -> (EvalResultV, Seq<Seq<char>>) {
    match parse_one_s(spec_lex(s), 0) {
        ParseResultV::Failure(e) => (EvalResultV::Error(parse_err_msg(e)), Seq::empty()),
        ParseResultV::Success(_, e) => {
            let (r, envf) = eval_s(
                e,
                EnvV { contexts: default_contexts(), output: Seq::empty() },
                MAX_FUEL as nat,
            );
            (r, envf.output)
        },
    }
}

/// Lex, parse and evaluate the given program; the second component is
/// what the program printed, in order.
pub fn run_interpreter(program: &str) -> (r: (EvalResult, Vec<String>))
    ensures
        (r.0@, crate::eval::output_view(r.1@)) == run_s(program@),
{
    match lex(program) {
        Ok(tokens) => match parse(tokens.as_slice()) {
            Ok(expr) => {
                let mut env = Environment::default();
                proof {
                    assert(env@ =~= EnvV {
                        contexts: default_contexts(),
                        output: Seq::<Seq<char>>::empty(),
                    });
                }
                let result = eval(&expr, &mut env);
                (result, env.output)
            },
            Err(error) => {
                let msg = match &error {
                    ParseError::BadParse(m) => {
                        let mut t = String::from_str("Parse error: BadParse(\"");
                        t.append(m.as_str());
                        t.append("\")");
                        proof {
                            assert(t@ =~= "Parse error: BadParse(\""@ + m@ + "\")"@);
                        }
                        t
                    },
                    ParseError::EOF => String::from_str("Parse error: EOF"),
                };
                let out: Vec<String> = Vec::new();
                proof {
                    assert(crate::eval::output_view(out@) =~= Seq::<Seq<char>>::empty());
                }
                (EvalResult::Error(msg), out)
            },
        },
        Err(_) => {
            proof {
                assert(false);
            }
            (EvalResult::Unit, Vec::new())
        },
    }
}

} // verus!
