//! The parser: recursive descent from tokens to one expression tree.
//!
//! A literal that reads as a double becomes a number, any other literal
//! a symbol. A parenthesized group must hold at least one expression
//! before its closing parenthesis; the first expression parsed from the
//! front of the input is the result, trailing tokens are ignored.

use vstd::prelude::*;

use crate::lex::{Token, TokenV, tokens_view};
use crate::num::{parse_fnum, spec_parse_fnum};
use crate::types::{Expr, ExprV, exprs_view};

verus! {

broadcast use vstd::std_specs::vec::group_vec_axioms, vstd::seq::group_seq_axioms;

/// A failure of the parser: malformed input, or input that ended too
/// early.
#[derive(Debug)]
pub enum ParseError {
    BadParse(String),
    EOF,
}

/// The mathematical shape of a parse failure.
#[verifier::ext_equal]
pub enum ParseErrorV {
    BadParse(Seq<char>),
    EOF,
}

impl ParseError {
    /// The view of a parse failure.
    pub open spec fn view(self) -> ParseErrorV {
        match self {
            ParseError::BadParse(m) => ParseErrorV::BadParse(m@),
            ParseError::EOF => ParseErrorV::EOF,
        }
    }
}

/// The outcome of parsing one expression: where the input continues and
/// what was built, or a failure.
#[derive(Debug)]
pub enum ParseResult {
    Success(usize, Expr),
    Failure(ParseError),
}

/// The mathematical shape of a parse outcome.
#[verifier::ext_equal]
pub enum ParseResultV {
    Success(int, ExprV),
    Failure(ParseErrorV),
}

impl ParseResult {
    /// The view of a parse outcome.
    pub open spec fn view(self) -> ParseResultV {
        match self {
            ParseResult::Success(i, e) => ParseResultV::Success(i as int, e.view()),
            ParseResult::Failure(e) => ParseResultV::Failure(e.view()),
        }
    }
}

/// What parsing one expression at the given position yields.
pub open spec fn parse_one_s(toks: Seq<TokenV>, i: int) -> ParseResultV
    decreases toks.len() - i, 0int,
{
    if i < 0 || i >= toks.len() {
        ParseResultV::Failure(ParseErrorV::EOF)
    } else {
        match toks[i] {
            TokenV::LPar => parse_list_s(toks, i + 1, Seq::empty()),
            TokenV::RPar => ParseResultV::Failure(
                ParseErrorV::BadParse("Unexpected ) encountered!"@),
            ),
            TokenV::Literal(s) => match spec_parse_fnum(s) {
                Some(bits) => ParseResultV::Success(i + 1, ExprV::FNum(bits)),
                None => ParseResultV::Success(i + 1, ExprV::Symbol(s)),
            },
        }
    }
}

/// What parsing the elements of a group yields, starting just inside the
/// opening parenthesis: at least one element is parsed, then elements
/// accumulate until the closing parenthesis. A parse that does not
/// advance cannot arise (see `lemma_parse_progress`); the guard on it
/// keeps this definition well-founded.
pub open spec fn parse_list_s(toks: Seq<TokenV>, i: int, acc: Seq<ExprV>) -> ParseResultV
    decreases toks.len() - i, 1int,
{
    match parse_one_s(toks, i) {
        ParseResultV::Failure(e) => ParseResultV::Failure(e),
        ParseResultV::Success(j, e) => {
            let acc1 = acc.push(e);
            if j <= i {
                ParseResultV::Failure(ParseErrorV::EOF)
            } else if j >= toks.len() {
                ParseResultV::Failure(ParseErrorV::BadParse("Unclosed delimiter!"@))
            } else if toks[j] is RPar {
                ParseResultV::Success(j + 1, ExprV::List(acc1))
            } else {
                parse_list_s(toks, j, acc1)
            }
        },
    }
}

/// A successful parse always advances past at least one token and never
/// runs past the end of the input.
pub proof fn lemma_parse_progress(toks: Seq<TokenV>, i: int)
    ensures
        parse_one_s(toks, i) matches ParseResultV::Success(j, _) ==> i < j <= toks.len(),
    decreases toks.len() - i, 0int,
{
    if 0 <= i < toks.len() {
        if toks[i] is LPar {
            lemma_parse_list_progress(toks, i + 1, Seq::empty());
        }
    }
}

/// The group parser, likewise, always lands just past a closing
/// parenthesis inside the input.
pub proof fn lemma_parse_list_progress(toks: Seq<TokenV>, i: int, acc: Seq<ExprV>)
    ensures
        parse_list_s(toks, i, acc) matches ParseResultV::Success(j, _) ==> i < j <= toks.len(),
    decreases toks.len() - i, 1int,
{
    lemma_parse_progress(toks, i);
    match parse_one_s(toks, i) {
        ParseResultV::Failure(_) => {},
        ParseResultV::Success(j, e) => {
            if i < j < toks.len() && !(toks[j] is RPar) {
                lemma_parse_list_progress(toks, j, acc.push(e));
            }
        },
    }
}

/// Parse one expression from the front of the token stream; whatever
/// follows it is ignored.
pub fn parse(tokens: &[Token]) -> (r: Result<Expr, ParseError>)
    ensures
        match r {
            Ok(e) => parse_one_s(tokens_view(tokens@), 0) == ParseResultV::Success(
                parse_one_s(tokens_view(tokens@), 0)->Success_0,
                e.view(),
            ),
            Err(err) => parse_one_s(tokens_view(tokens@), 0) == ParseResultV::Failure(err.view()),
        },
{
    match parser(tokens, 0) {
        ParseResult::Success(_, expr) => Ok(expr),
        ParseResult::Failure(error) => Err(error),
    }
}

/// Parse one expression at the given position.
pub fn parser(tokens: &[Token], index: usize) -> (r: ParseResult)
    ensures
        r.view() == parse_one_s(tokens_view(tokens@), index as int),
        r matches ParseResult::Success(j, _) ==> index < j <= tokens@.len(),
    decreases tokens@.len() - index,
{
    let ghost tv = tokens_view(tokens@);
    let n = tokens.len();
    if index >= n {
        return ParseResult::Failure(ParseError::EOF);
    }
    match &tokens[index] {
        Token::RPar => ParseResult::Failure(
            ParseError::BadParse(String::from_str("Unexpected ) encountered!")),
        ),
        Token::Literal(s) => match parse_fnum(s.as_str()) {
            Some(bits) => ParseResult::Success(index + 1, Expr::FNum(bits)),
            None => ParseResult::Success(index + 1, Expr::Symbol(s.clone())),
        },
        Token::LPar => {
            let mut i = index + 1;
            let mut exprs: Vec<Expr> = Vec::new();
            proof {
                assert(exprs_view(exprs@) =~= Seq::<ExprV>::empty());
            }
            loop
                invariant
                    index < i <= n,
                    n == tokens@.len(),
                    tv == tokens_view(tokens@),
                    parse_one_s(tv, index as int) == parse_list_s(tv, i as int, exprs_view(exprs@)),
                decreases n - i,
            {
                proof {
                    lemma_parse_progress(tv, i as int);
                }
                let step = parser(tokens, i);
                match step {
                    ParseResult::Failure(e) => {
                        return ParseResult::Failure(e);
                    },
                    ParseResult::Success(idx, expr) => {
                        let ghost before = exprs_view(exprs@);
                        exprs.push(expr);
                        proof {
                            assert(exprs_view(exprs@) =~= before.push(expr.view()));
                        }
                        i = idx;
                        if i >= n {
                            return ParseResult::Failure(
                                ParseError::BadParse(String::from_str("Unclosed delimiter!")),
                            );
                        }
                        let again: bool = match &tokens[i] {
                            Token::RPar => false,
                            _ => true,
                        };
                        if !again {
                            let ghost snap = exprs_view(exprs@);
                            let e = Expr::List(exprs);
                            proof {
                                assert(e.view()->List_0 =~= snap);
                                assert(e.view() == ExprV::List(snap));
                            }
                            return ParseResult::Success(i + 1, e);
                        }
                    },
                }
            }
        },
    }
}

} // verus!
