//! The tokenizer: program text becomes a sequence of parenthesis markers
//! and literal atoms. Atoms are delimited by parentheses and by ASCII
//! whitespace; no input is ever rejected.

use vstd::prelude::*;

use vstd::string::StrSliceExecFns;

verus! {

/// One token: an opening or closing parenthesis, or a literal atom.
#[derive(Debug)]
pub enum Token {
    LPar,
    RPar,
    Literal(String),
}

/// The mathematical shape of a token.
#[verifier::ext_equal]
pub enum TokenV {
    LPar,
    RPar,
    Literal(Seq<char>),
}

impl Token {
    /// The view of a token.
    pub open spec fn view(self) -> TokenV {
        match self {
            Token::LPar => TokenV::LPar,
            Token::RPar => TokenV::RPar,
            Token::Literal(s) => TokenV::Literal(s@),
        }
    }
}

/// The views of a sequence of tokens.
pub open spec fn tokens_view(ts: Seq<Token>) -> Seq<TokenV> {
    Seq::new(ts.len(), |i: int| ts[i].view())
}

/// A failure of the tokenizer. The tokenizer accepts every input, so
/// this is never produced; the variant is kept for the interface.
#[derive(Debug)]
pub enum LexError {
    UnknownToken(String),
}

/// The ASCII whitespace characters that separate atoms.
pub open spec fn spec_is_ws(c: char) -> bool {
    c == ' ' || c == '\t' || c == '\n' || c == '\u{c}' || c == '\r'
}

/// The token, if any, that a pending atom contributes.
pub open spec fn flush_atom(cur: Seq<char>) -> Seq<TokenV> {
    if cur.len() == 0 {
        Seq::empty()
    } else {
        seq![TokenV::Literal(cur)]
    }
}

/// The tokens of the remaining text, given the pending atom read so far.
pub open spec fn lex_rec(s: Seq<char>, cur: Seq<char>) -> Seq<TokenV>
    decreases s.len(),
{
    if s.len() == 0 {
        flush_atom(cur)
    } else {
        let c = s[0];
        let rest = s.subrange(1, s.len() as int);
        if c == '(' {
            flush_atom(cur) + seq![TokenV::LPar] + lex_rec(rest, Seq::empty())
        } else if c == ')' {
            flush_atom(cur) + seq![TokenV::RPar] + lex_rec(rest, Seq::empty())
        } else if spec_is_ws(c) {
            flush_atom(cur) + lex_rec(rest, Seq::empty())
        } else {
            lex_rec(rest, cur.push(c))
        }
    }
}

/// The tokens of a piece of program text.
pub open spec fn spec_lex(s: Seq<char>) -> Seq<TokenV> {
    lex_rec(s, Seq::empty())
}

/// Split program text into tokens. Every input lexes successfully.
pub fn lex(input: &str) -> (r: Result<Vec<Token>, LexError>)
    ensures
        r matches Ok(toks) && tokens_view(toks@) == spec_lex(input@),
{
    let ghost sv = input@;
    let n = input.unicode_len();
    let mut toks: Vec<Token> = Vec::new();
    let mut start: usize = 0;
    let mut i: usize = 0;
    proof {
        assert(sv.subrange(0, n as int) =~= sv);
        assert(sv.subrange(0, 0) =~= Seq::<char>::empty());
        assert(tokens_view(toks@) =~= Seq::<TokenV>::empty());
    }
    while i < n
        invariant
            start <= i <= n,
            n == sv.len(),
            sv == input@,
            spec_lex(sv) == tokens_view(toks@) + lex_rec(
                sv.subrange(i as int, n as int),
                sv.subrange(start as int, i as int),
            ),
        decreases n - i,
    {
        let c = input.get_char(i);
        let ghost rem = sv.subrange(i as int, n as int);
        let ghost cur = sv.subrange(start as int, i as int);
        proof {
            assert(rem[0] == sv[i as int]);
            assert(rem.subrange(1, rem.len() as int) =~= sv.subrange(i + 1, n as int));
        }
        if c == '(' {
            if start < i {
                let atom = input.substring_char(start, i);
                toks.push(Token::Literal(atom.to_owned()));
                proof {
                    assert(tokens_view(toks@) =~= tokens_view(toks@.drop_last()) + seq![
                        TokenV::Literal(cur),
                    ]);
                }
            } else {
                proof {
                    assert(flush_atom(cur) =~= Seq::<TokenV>::empty());
                }
            }
            toks.push(Token::LPar);
            proof {
                assert(tokens_view(toks@) =~= tokens_view(toks@.drop_last()) + seq![TokenV::LPar]);
                assert(sv.subrange(i + 1, i + 1) =~= Seq::<char>::empty());
            }
            start = i + 1;
        } else if c == ')' {
            if start < i {
                let atom = input.substring_char(start, i);
                toks.push(Token::Literal(atom.to_owned()));
                proof {
                    assert(tokens_view(toks@) =~= tokens_view(toks@.drop_last()) + seq![
                        TokenV::Literal(cur),
                    ]);
                }
            } else {
                proof {
                    assert(flush_atom(cur) =~= Seq::<TokenV>::empty());
                }
            }
            toks.push(Token::RPar);
            proof {
                assert(tokens_view(toks@) =~= tokens_view(toks@.drop_last()) + seq![TokenV::RPar]);
                assert(sv.subrange(i + 1, i + 1) =~= Seq::<char>::empty());
            }
            start = i + 1;
        } else if c == ' ' || c == '\t' || c == '\n' || c == '\u{c}' || c == '\r' {
            if start < i {
                let atom = input.substring_char(start, i);
                toks.push(Token::Literal(atom.to_owned()));
                proof {
                    assert(tokens_view(toks@) =~= tokens_view(toks@.drop_last()) + seq![
                        TokenV::Literal(cur),
                    ]);
                }
            } else {
                proof {
                    assert(flush_atom(cur) =~= Seq::<TokenV>::empty());
                }
            }
            proof {
                assert(sv.subrange(i + 1, i + 1) =~= Seq::<char>::empty());
            }
            start = i + 1;
        } else {
            proof {
                assert(sv.subrange(start as int, i + 1) =~= cur.push(sv[i as int]));
            }
        }
        i += 1;
        proof {
            assert(tokens_view(toks@) + lex_rec(
                sv.subrange(i as int, n as int),
                sv.subrange(start as int, i as int),
            ) =~= spec_lex(sv));
        }
    }
    if start < n {
        let atom = input.substring_char(start, n);
        toks.push(Token::Literal(atom.to_owned()));
        proof {
            assert(sv.subrange(n as int, n as int) =~= Seq::<char>::empty());
            assert(tokens_view(toks@) =~= tokens_view(toks@.drop_last()) + seq![
                TokenV::Literal(sv.subrange(start as int, n as int)),
            ]);
            assert(tokens_view(toks@) =~= spec_lex(sv));
        }
    } else {
        proof {
            assert(sv.subrange(n as int, n as int) =~= Seq::<char>::empty());
            assert(sv.subrange(start as int, n as int) =~= Seq::<char>::empty());
            assert(flush_atom(Seq::<char>::empty()) =~= Seq::<TokenV>::empty());
            assert(tokens_view(toks@) + Seq::<TokenV>::empty() =~= tokens_view(toks@));
            assert(tokens_view(toks@) =~= spec_lex(sv));
        }
    }
    Ok(toks)
}

} // verus!
