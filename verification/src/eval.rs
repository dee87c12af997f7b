//! The evaluator and its scope-stack environment.
//!
//! An `Environment` is an ordered stack of frames; each frame maps names
//! to bindings. A binding is a pair of a parameter list and a body
//! expression: an empty parameter list makes a value binding, a non-empty
//! one a function binding. Lookup scans frames from the most recently
//! pushed one outwards, and within a frame the latest definition of a
//! name wins.
//!
//! The evaluator itself is specified by a mathematical interpreter over
//! the views of expressions and environments, indexed by a recursion
//! budget; the executable evaluator runs with the budget at its maximum,
//! far beyond any depth a real program can reach before exhausting the
//! machine stack.

use vstd::prelude::*;

use crate::types::{Expr, ExprV, exprs_view, spec_expr_eq};

verus! {

broadcast use vstd::std_specs::vec::group_vec_axioms, vstd::seq::group_seq_axioms;

/// The outcome of evaluating one expression: an error message, a value,
/// or no value at all (definitions and printing produce no value).
#[derive(Debug)]
pub enum EvalResult {
    Error(String),
    Expr(Expr),
    Unit,
}

/// The mathematical shape of an evaluation outcome.
#[verifier::ext_equal]
pub enum EvalResultV {
    Error(Seq<char>),
    Expr(ExprV),
    Unit,
}

impl EvalResult {
    /// The view of an evaluation outcome.
    pub open spec fn view(self) -> EvalResultV {
        match self {
            EvalResult::Error(m) => EvalResultV::Error(m@),
            EvalResult::Expr(e) => EvalResultV::Expr(e.view()),
            EvalResult::Unit => EvalResultV::Unit,
        }
    }
}

/// A binding as stored in a frame: the parameter names and the body.
/// An empty parameter list marks a value binding.
pub type Binding = (Vec<String>, Expr);

/// The view of a binding: parameter names and body over sequences.
pub type BindingV = (Seq<Seq<char>>, ExprV);

/// The view of one frame: its entries in the order they were defined.
pub type FrameV = Seq<(Seq<char>, BindingV)>;

/// The scope stack, together with the lines the program has printed.
pub struct Environment {
    pub contexts: Vec<Vec<(String, Binding)>>,
    pub output: Vec<String>,
}

/// The mathematical shape of an environment: the frame stack and the
/// printed lines.
#[verifier::ext_equal]
pub struct EnvV {
    pub contexts: Seq<FrameV>,
    pub output: Seq<Seq<char>>,
}

/// The views of a sequence of names.
pub open spec fn names_view(v: Seq<String>) -> Seq<Seq<char>> {
    Seq::new(v.len(), |i: int| v[i]@)
}

/// The view of a stored binding.
pub open spec fn binding_view(b: Binding) -> BindingV {
    (names_view(b.0@), b.1.view())
}

/// The view of one frame.
pub open spec fn frame_view(f: Seq<(String, Binding)>) -> FrameV {
    Seq::new(f.len(), |i: int| (f[i].0@, binding_view(f[i].1)))
}

/// The views of the whole frame stack.
pub open spec fn contexts_view(cs: Seq<Vec<(String, Binding)>>) -> Seq<FrameV> {
    Seq::new(cs.len(), |i: int| frame_view(cs[i]@))
}

/// The views of the printed lines.
pub open spec fn output_view(out: Seq<String>) -> Seq<Seq<char>> {
    Seq::new(out.len(), |i: int| out[i]@)
}

impl Environment {
    /// The view of the environment.
    pub open spec fn view(self) -> EnvV {
        EnvV { contexts: contexts_view(self.contexts@), output: output_view(self.output@) }
    }
}

/// The binding a name has in one frame: the latest definition wins.
pub open spec fn frame_lookup(f: FrameV, name: Seq<char>) -> Option<BindingV>
    decreases f.len(),
{
    if f.len() == 0 {
        None
    } else if f[f.len() - 1].0 == name {
        Some(f[f.len() - 1].1)
    } else {
        frame_lookup(f.drop_last(), name)
    }
}

/// The binding a name has in the whole stack: the innermost frame that
/// holds the name decides.
pub open spec fn env_lookup(cs: Seq<FrameV>, name: Seq<char>) -> Option<BindingV>
    decreases cs.len(),
{
    if cs.len() == 0 {
        None
    } else {
        match frame_lookup(cs[cs.len() - 1], name) {
            Some(b) => Some(b),
            None => env_lookup(cs.drop_last(), name),
        }
    }
}

impl Environment {
    /// An environment with no frames and no output.
    pub fn empty() -> (r: Environment)
        ensures
            r@.contexts =~= Seq::<FrameV>::empty(),
            r@.output =~= Seq::<Seq<char>>::empty(),
    {
        Environment { contexts: Vec::new(), output: Vec::new() }
    }

    /// How many frames the stack holds.
    pub fn num_contexts(&self) -> (r: usize)
        ensures
            r == self@.contexts.len(),
    {
        self.contexts.len()
    }

    /// Push a fresh, empty frame on the stack.
    pub fn push_context(&mut self)
        ensures
            final(self)@.contexts =~= old(self)@.contexts.push(Seq::empty()),
            final(self)@.output == old(self)@.output,
    {
        self.contexts.push(Vec::new());
        proof {
            assert(frame_view(Seq::<(String, Binding)>::empty()) =~= Seq::<(Seq<char>,
                BindingV,
            )>::empty());
            assert(self@.contexts =~= old(self)@.contexts.push(Seq::<(Seq<char>, BindingV)>::empty()));
            assert(self@.output =~= old(self)@.output);
        }
    }

    /// Drop the innermost frame, if any frame exists.
    pub fn pop_context(&mut self)
        ensures
            old(self)@.contexts.len() == 0 ==> final(self)@ == old(self)@,
            old(self)@.contexts.len() > 0 ==> final(self)@.contexts =~= old(self)@.contexts.drop_last()
                && final(self)@.output == old(self)@.output,
    {
        let _popped = self.contexts.pop();
        proof {
            if old(self)@.contexts.len() == 0 {
                assert(self@.contexts =~= old(self)@.contexts);
                assert(self@.output =~= old(self)@.output);
                assert(self@ =~= old(self)@);
            } else {
                assert(self@.contexts =~= old(self)@.contexts.drop_last());
                assert(self@.output =~= old(self)@.output);
            }
        }
    }

    /// Define a name as a value binding in the innermost frame; fails
    /// when no frame exists.
    pub fn add_var(&mut self, var: &str, val: Expr) -> (r: Result<(), String>)
        ensures
            old(self)@.contexts.len() == 0 ==> (r matches Err(m) && m@
                == "Enviroment has no context!"@ && final(self)@ == old(self)@),
            old(self)@.contexts.len() > 0 ==> r is Ok && final(self)@.output == old(self)@.output
                && final(self)@.contexts =~= old(self)@.contexts.update(
                old(self)@.contexts.len() - 1,
                old(self)@.contexts.last().push((var@, (Seq::empty(), val.view()))),
            ),
    {
        let n = self.contexts.len();
        if n == 0 {
            Err(String::from_str("Enviroment has no context!"))
        } else {
            let mut frame = self.contexts.pop().unwrap();
            frame.push((String::from_str(var), (Vec::new(), val)));
            self.contexts.push(frame);
            proof {
                let oc = old(self)@.contexts;
                assert(frame_view(frame@) =~= oc.last().push(
                    (var@, (names_view(Seq::<String>::empty()), val.view())),
                ));
                assert(names_view(Seq::<String>::empty()) =~= Seq::<Seq<char>>::empty());
                assert(self@.contexts =~= oc.update(
                    oc.len() - 1,
                    oc.last().push((var@, (Seq::<Seq<char>>::empty(), val.view()))),
                ));
                assert(self@.output =~= old(self)@.output);
            }
            Ok(())
        }
    }

    /// Define a name as a function binding in the innermost frame; fails
    /// when no frame exists.
    pub fn add_fn(&mut self, name: &str, params: Vec<String>, body: Expr) -> (r: Result<
        (),
        String,
    >)
        ensures
            old(self)@.contexts.len() == 0 ==> (r matches Err(m) && m@
                == "Enviroment has no context!"@ && final(self)@ == old(self)@),
            old(self)@.contexts.len() > 0 ==> r is Ok && final(self)@.output == old(self)@.output
                && final(self)@.contexts =~= old(self)@.contexts.update(
                old(self)@.contexts.len() - 1,
                old(self)@.contexts.last().push((name@, (names_view(params@), body.view()))),
            ),
    {
        let n = self.contexts.len();
        if n == 0 {
            Err(String::from_str("Enviroment has no context!"))
        } else {
            let mut frame = self.contexts.pop().unwrap();
            frame.push((String::from_str(name), (params, body)));
            self.contexts.push(frame);
            proof {
                let oc = old(self)@.contexts;
                assert(frame_view(frame@) =~= oc.last().push(
                    (name@, (names_view(params@), body.view())),
                ));
                assert(self@.contexts =~= oc.update(
                    oc.len() - 1,
                    oc.last().push((name@, (names_view(params@), body.view()))),
                ));
                assert(self@.output =~= old(self)@.output);
            }
            Ok(())
        }
    }

    /// Look a name up, innermost frame first; within a frame the latest
    /// definition wins. The returned binding is a structural copy.
    pub fn lookup(&self, symbol: &str) -> (r: Option<(Vec<String>, Expr)>)
        ensures
            match r {
                Option::None => env_lookup(self@.contexts, symbol@) is None,
                Option::Some(b) => env_lookup(self@.contexts, symbol@) == Some(binding_view(b)),
            },
    {
        let ghost cs = self@.contexts;
        let n = self.contexts.len();
        let mut i: usize = n;
        proof {
            assert(cs.take(n as int) =~= cs);
        }
        while i > 0
            invariant
                i <= n,
                n == self.contexts@.len(),
                cs == self@.contexts,
                env_lookup(cs, symbol@) == env_lookup(cs.take(i as int), symbol@),
            decreases i,
        {
            let frame = &self.contexts[i - 1];
            let ghost fv = frame_view(frame@);
            let m = frame.len();
            let mut j: usize = m;
            proof {
                assert(cs.take(i as int).last() == fv);
                assert(fv.take(m as int) =~= fv);
            }
            while j > 0
                invariant
                    j <= m,
                    m == frame@.len(),
                    fv == frame_view(frame@),
                    0 < i <= n,
                    n == self.contexts@.len(),
                    cs == self@.contexts,
                    fv == cs.take(i as int).last(),
                    env_lookup(cs, symbol@) == env_lookup(cs.take(i as int), symbol@),
                    frame_lookup(fv, symbol@) == frame_lookup(fv.take(j as int), symbol@),
                decreases j,
            {
                let entry = &frame[j - 1];
                proof {
                    assert(fv.take(j as int).last() == (entry.0@, binding_view(entry.1)));
                }
                if sym_is(&entry.0, symbol) {
                    proof {
                        assert(frame_lookup(fv.take(j as int), symbol@) == Some(
                            binding_view(entry.1),
                        ));
                    }
                    let params = clone_names(&entry.1.0);
                    let body = entry.1.1.clone_expr();
                    proof {
                        assert(binding_view((params, body)) == binding_view(entry.1));
                    }
                    return Some((params, body));
                }
                proof {
                    assert(fv.take(j as int).drop_last() =~= fv.take(j - 1));
                }
                j -= 1;
            }
            proof {
                assert(fv.take(0) =~= Seq::<(Seq<char>, BindingV)>::empty());
                assert(frame_lookup(fv, symbol@) is None);
                assert(cs.take(i as int).drop_last() =~= cs.take(i - 1));
            }
            i -= 1;
        }
        proof {
            assert(cs.take(0) =~= Seq::<FrameV>::empty());
        }
        None
    }

    /// Whether any frame binds the given name.
    pub fn contains_key(&self, symbol: &str) -> (r: bool)
        ensures
            r == env_lookup(self@.contexts, symbol@) is Some,
    {
        self.lookup(symbol).is_some()
    }

    /// An environment with one frame holding the given names as value
    /// bindings, in order.
    pub fn from_vars(vars: &[(&str, Expr)]) -> (r: Environment)
        ensures
            r@.contexts =~= seq![vars_frame(vars@)],
            r@.output =~= Seq::<Seq<char>>::empty(),
    {
        let mut env = Environment::empty();
        env.push_context();
        proof {
            assert(vars_frame(vars@.take(0)) =~= Seq::<(Seq<char>, BindingV)>::empty());
            assert(env@.contexts =~~= seq![vars_frame(vars@.take(0))]);
        }
        let n = vars.len();
        let mut i: usize = 0;
        while i < n
            invariant
                i <= n,
                n == vars@.len(),
                env@.contexts =~= seq![vars_frame(vars@.take(i as int))],
                env@.output =~= Seq::<Seq<char>>::empty(),
            decreases n - i,
        {
            let name: &str = vars[i].0;
            let val = vars[i].1.clone_expr();
            let ghost before = env@.contexts;
            let _ = env.add_var(name, val);
            proof {
                assert(vars_frame(vars@.take(i + 1)) =~= vars_frame(vars@.take(i as int)).push(
                    (vars@[i as int].0@, (Seq::<Seq<char>>::empty(), vars@[i as int].1.view())),
                ));
                assert(env@.contexts =~= seq![vars_frame(vars@.take(i + 1))]);
            }
            i += 1;
        }
        proof {
            assert(vars@.take(n as int) =~= vars@);
        }
        env
    }

    /// The default environment: one frame in which `False` is the empty
    /// list and `True` is the one-element list holding the number one.
    pub fn default() -> (r: Environment)
        ensures
            r@.contexts =~= default_contexts(),
            r@.output =~= Seq::<Seq<char>>::empty(),
    {
        let mut env = Environment::empty();
        env.push_context();
        let f = Expr::list(Vec::new());
        proof {
            assert(exprs_view(Seq::<Expr>::empty()) =~= Seq::<ExprV>::empty());
            assert(f.view() == ExprV::List(Seq::<ExprV>::empty()));
        }
        let _ = env.add_var("False", f);
        let mut one_items: Vec<Expr> = Vec::new();
        one_items.push(Expr::fnum(ONE_BITS));
        let ghost one_snap = one_items@;
        let t = Expr::list(one_items);
        proof {
            assert(exprs_view(one_snap) =~= seq![ExprV::FNum(ONE_BITS)]);
        }
        let _ = env.add_var("True", t);
        proof {
            assert(t.view() == ExprV::List(seq![ExprV::FNum(ONE_BITS)]));
            assert(env@.contexts =~~= default_contexts());
        }
        env
    }
}

/// The bit pattern of the double 1.0.
pub const ONE_BITS: u64 = 0x3ff0000000000000;

/// The frame `from_vars` builds: each name as a value binding, in order.
pub open spec fn vars_frame(vs: Seq<(&str, Expr)>) -> FrameV {
    Seq::new(vs.len(), |i: int| (vs[i].0@, (Seq::<Seq<char>>::empty(), vs[i].1.view())))
}

/// The frame stack of the default environment.
pub open spec fn default_contexts() -> Seq<FrameV> {
    seq![
        seq![
            ("False"@, (Seq::<Seq<char>>::empty(), ExprV::List(Seq::<ExprV>::empty()))),
            ("True"@, (Seq::<Seq<char>>::empty(), ExprV::List(seq![ExprV::FNum(ONE_BITS)]))),
        ],
    ]
}

/// A copy of a list of names, with the same views.
pub fn clone_names(v: &Vec<String>) -> (r: Vec<String>)
    ensures
        r@ =~= v@,
        names_view(r@) == names_view(v@),
{
    let mut out: Vec<String> = Vec::new();
    let n = v.len();
    let mut i: usize = 0;
    while i < n
        invariant
            i <= n,
            n == v@.len(),
            out@ =~= v@.take(i as int),
        decreases n - i,
    {
        out.push(v[i].clone());
        proof {
            assert(out@ =~= v@.take(i + 1));
        }
        i += 1;
    }
    proof {
        assert(v@.take(n as int) =~= v@);
    }
    out
}

/// Whether a symbol's text equals the given word.
pub fn sym_is(s: &String, w: &str) -> (r: bool)
    ensures
        r == (s@ == w@),
{
    let t = String::from_str(w);
    *s == t
}

/// The decimal digit for a value below ten.
pub open spec fn spec_digit(d: nat) -> char {
    if d == 0 {
        '0'
    } else if d == 1 {
        '1'
    } else if d == 2 {
        '2'
    } else if d == 3 {
        '3'
    } else if d == 4 {
        '4'
    } else if d == 5 {
        '5'
    } else if d == 6 {
        '6'
    } else if d == 7 {
        '7'
    } else if d == 8 {
        '8'
    } else {
        '9'
    }
}

/// The decimal rendering of a natural number.
pub open spec fn spec_dec_digits(n: nat) -> Seq<char>
    decreases n,
{
    if n < 10 {
        seq![spec_digit(n)]
    } else {
        spec_dec_digits(n / 10).push(spec_digit(n % 10))
    }
}

/// The message reported when a function is applied to the wrong number
/// of arguments; it names the two counts the way the evaluator does.
pub open spec fn arity_msg(params: nat, args: nat) -> Seq<char> {
    "Provided "@ + spec_dec_digits(params) + " arguments but expected "@ + spec_dec_digits(args)
        + "!"@
}

/// The message reported when the recursion budget runs out.
pub open spec fn depth_msg() -> Seq<char> {
    "Evaluation depth limit reached!"@
}

/// Whether a name is one of the reserved special-form keywords.
pub open spec fn spec_reserved(s: Seq<char>) -> bool {
    ||| s == "+"@
    ||| s == "-"@
    ||| s == "*"@
    ||| s == "/"@
    ||| s == "or"@
    ||| s == "and"@
    ||| s == "not"@
    ||| s == "="@
    ||| s == "!="@
    ||| s == "if"@
    ||| s == "let"@
    ||| s == "fn"@
    ||| s == "print"@
}

/// The truth value an evaluated operand denotes: a symbol is false
/// exactly when its text is `False`, a list is false exactly when it is
/// empty, and a number has no truth value.
pub open spec fn spec_truthy(e: ExprV) -> Option<bool> {
    match e {
        ExprV::Symbol(s) => Some(s != "False"@),
        ExprV::List(l) => Some(l.len() > 0),
        ExprV::FNum(_) => None,
    }
}

/// The left fold of a mathematical operator over the remaining operands.
pub open spec fn fold_math(op: Seq<char>, acc: u64, rest: Seq<u64>) -> Result<u64, Seq<char>>
    decreases rest.len(),
{
    if rest.len() == 0 {
        Ok(acc)
    } else if op == "+"@ {
        fold_math(op, crate::num::spec_add_bits(acc, rest[0]), rest.subrange(1, rest.len() as int))
    } else if op == "-"@ {
        fold_math(op, crate::num::spec_sub_bits(acc, rest[0]), rest.subrange(1, rest.len() as int))
    } else if op == "*"@ {
        fold_math(op, crate::num::spec_mul_bits(acc, rest[0]), rest.subrange(1, rest.len() as int))
    } else if op == "/"@ {
        fold_math(op, crate::num::spec_div_bits(acc, rest[0]), rest.subrange(1, rest.len() as int))
    } else {
        Err("Illegal mathematical operation!"@)
    }
}

/// The left fold of a boolean operator over the remaining operands.
pub open spec fn fold_bool(op: Seq<char>, acc: bool, rest: Seq<bool>) -> Result<bool, Seq<char>>
    decreases rest.len(),
{
    if rest.len() == 0 {
        Ok(acc)
    } else if op == "or"@ {
        fold_bool(op, acc || rest[0], rest.subrange(1, rest.len() as int))
    } else if op == "and"@ {
        fold_bool(op, acc && rest[0], rest.subrange(1, rest.len() as int))
    } else {
        Err("Illegal boolean operation!"@)
    }
}

/// The parameter names of a function definition: every element of the
/// parameter list must be a bare symbol.
pub open spec fn spec_params_of(args: Seq<ExprV>) -> Result<Seq<Seq<char>>, Seq<char>>
    decreases args.len(),
{
    if args.len() == 0 {
        Ok(Seq::empty())
    } else {
        match args[0] {
            ExprV::Symbol(n) => match spec_params_of(args.subrange(1, args.len() as int)) {
                Ok(rest) => Ok(seq![n] + rest),
                Err(m) => Err(m),
            },
            _ => Err("Function arguments must be strings!"@),
        }
    }
}

/// The frame that binds each parameter to its evaluated argument.
pub open spec fn bind_args(params: Seq<Seq<char>>, vals: Seq<ExprV>) -> FrameV {
    Seq::new(params.len(), |i: int| (params[i], (Seq::<Seq<char>>::empty(), vals[i])))
}

/// A frame stack with the innermost frame dropped, if one exists.
pub open spec fn pop_frame(cs: Seq<FrameV>) -> Seq<FrameV> {
    if cs.len() == 0 {
        cs
    } else {
        cs.drop_last()
    }
}

/// A frame stack whose innermost frame has one more entry.
pub open spec fn define_in_top(cs: Seq<FrameV>, name: Seq<char>, b: BindingV) -> Seq<FrameV>
    recommends
        cs.len() > 0,
{
    cs.update(cs.len() - 1, cs.last().push((name, b)))
}

/// The parts of a printed line, joined with single spaces.
pub open spec fn join_space(parts: Seq<Seq<char>>) -> Seq<char>
    decreases parts.len(),
{
    if parts.len() == 0 {
        Seq::empty()
    } else if parts.len() == 1 {
        parts[0]
    } else {
        parts[0] + " "@ + join_space(parts.subrange(1, parts.len() as int))
    }
}

/// The rendering of one expression for printing. Values are not
/// evaluated: a bound value renders as the rendering of its stored body,
/// a bound function as an opaque placeholder naming it, an unbound
/// symbol as its own text, a number in decimal, a list parenthesized.
/// The budget bounds chains of value bindings; at budget zero a bound
/// value renders as its own name.
pub open spec fn gen_print_s(e: ExprV, cs: Seq<FrameV>, fuel: nat) -> Seq<char>
    decreases fuel, e, 0int,
{
    match e {
        ExprV::Symbol(s) => match env_lookup(cs, s) {
            None => s,
            Some(b) => if b.0.len() == 0 {
                if fuel == 0 {
                    s
                } else {
                    gen_print_s(b.1, cs, (fuel - 1) as nat)
                }
            } else {
                "<func-object: "@ + s + ">"@
            },
        },
        ExprV::FNum(bits) => crate::num::spec_render_fnum(bits),
        ExprV::List(xs) => "("@ + join_space(gen_each_s(xs, cs, fuel)) + ")"@,
    }
}

/// The renderings of each element of a list, in order.
pub open spec fn gen_each_s(xs: Seq<ExprV>, cs: Seq<FrameV>, fuel: nat) -> Seq<Seq<char>>
    decreases fuel, xs, 1int,
{
    if xs.len() == 0 {
        Seq::empty()
    } else {
        seq![gen_print_s(xs[0], cs, fuel)] + gen_each_s(
            xs.subrange(1, xs.len() as int),
            cs,
            fuel,
        )
    }
}

/// What evaluating one expression yields, and the environment it leaves
/// behind. The budget bounds the nesting depth of evaluations: every
/// step into a subterm or a stored body costs one unit.
pub open spec fn eval_s(e: ExprV, env: EnvV, fuel: nat) -> (EvalResultV, EnvV)
    decreases fuel, 1int, 0int,
{
    match e {
        ExprV::Symbol(s) => apply_symbol_s(e, s, Seq::empty(), env, fuel),
        ExprV::FNum(_) => (EvalResultV::Expr(e), env),
        ExprV::List(l) => {
            if l.len() == 0 {
                (EvalResultV::Expr(ExprV::List(Seq::empty())), env)
            } else {
                let rest = l.subrange(1, l.len() as int);
                match l[0] {
                    ExprV::Symbol(s) => {
                        if s == "+"@ || s == "-"@ || s == "*"@ || s == "/"@ {
                            math_s(s, rest, env, fuel)
                        } else if s == "or"@ || s == "and"@ || s == "not"@ {
                            bool_s(s, rest, env, fuel)
                        } else if s == "="@ || s == "!="@ {
                            eq_s(s, rest, env, fuel)
                        } else if s == "if"@ {
                            if_s(rest, env, fuel)
                        } else if s == "let"@ {
                            let_s(rest, env, fuel)
                        } else if s == "fn"@ {
                            fn_s(rest, env)
                        } else if s == "print"@ {
                            print_s(rest, env, fuel)
                        } else if env_lookup(env.contexts, s) is Some {
                            apply_symbol_s(e, s, rest, env, fuel)
                        } else {
                            list_s(l, env, fuel)
                        }
                    },
                    _ => list_s(l, env, fuel),
                }
            }
        },
    }
}

/// Implicit list construction: every element is evaluated in order, the
/// first failure wins, elements that yield no value are dropped, and the
/// surviving values form a new list.
pub open spec fn list_s(items: Seq<ExprV>, env: EnvV, fuel: nat) -> (EvalResultV, EnvV)
    decreases fuel, 0int, items.len() + 1,
{
    let (r, env1) = list_elems_s(items, env, fuel);
    match r {
        Ok(vals) => (EvalResultV::Expr(ExprV::List(vals)), env1),
        Err(m) => (EvalResultV::Error(m), env1),
    }
}

/// The surviving values of evaluating each element of a list in order.
pub open spec fn list_elems_s(items: Seq<ExprV>, env: EnvV, fuel: nat) -> (
    Result<Seq<ExprV>, Seq<char>>,
    EnvV,
)
    decreases fuel, 0int, items.len(),
{
    if items.len() == 0 {
        (Ok(Seq::empty()), env)
    } else if fuel == 0 {
        (Err(depth_msg()), env)
    } else {
        let (r0, env1) = eval_s(items[0], env, (fuel - 1) as nat);
        match r0 {
            EvalResultV::Error(m) => (Err(m), env1),
            EvalResultV::Expr(v) => {
                let (r1, env2) = list_elems_s(items.subrange(1, items.len() as int), env1, fuel);
                match r1 {
                    Ok(vals) => (Ok(seq![v] + vals), env2),
                    Err(m) => (Err(m), env2),
                }
            },
            EvalResultV::Unit => list_elems_s(items.subrange(1, items.len() as int), env1, fuel),
        }
    }
}

/// Resolution of a symbol, shared by bare symbols and list-headed calls.
/// An unbound symbol is itself; a value binding re-evaluates its stored
/// body in the current environment; a function binding checks arity,
/// evaluates the arguments in the caller's environment, and evaluates
/// its body under one new frame binding only the parameters, popped
/// again whatever the outcome.
pub open spec fn apply_symbol_s(
    orig: ExprV,
    s: Seq<char>,
    args: Seq<ExprV>,
    env: EnvV,
    fuel: nat,
) -> (EvalResultV, EnvV)
    decreases fuel, 0int, args.len() + 1,
{
    match env_lookup(env.contexts, s) {
        None => (EvalResultV::Expr(orig), env),
        Some(b) => {
            if b.0.len() == 0 {
                if fuel == 0 {
                    (EvalResultV::Error(depth_msg()), env)
                } else {
                    eval_s(b.1, env, (fuel - 1) as nat)
                }
            } else if b.0.len() != args.len() {
                (EvalResultV::Error(arity_msg(b.0.len(), args.len())), env)
            } else {
                let (r, env1) = eval_args_s(args, env, fuel);
                match r {
                    Err(m) => (EvalResultV::Error(m), env1),
                    Ok(vals) => {
                        let inner = EnvV {
                            contexts: env1.contexts.push(bind_args(b.0, vals)),
                            output: env1.output,
                        };
                        let (rb, env2) = if fuel == 0 {
                            (EvalResultV::Error(depth_msg()), inner)
                        } else {
                            eval_s(b.1, inner, (fuel - 1) as nat)
                        };
                        (rb, EnvV { contexts: pop_frame(env2.contexts), output: env2.output })
                    },
                }
            }
        },
    }
}

/// The evaluated arguments of a call, in the caller's environment; an
/// argument that yields no value is an error.
pub open spec fn eval_args_s(args: Seq<ExprV>, env: EnvV, fuel: nat) -> (
    Result<Seq<ExprV>, Seq<char>>,
    EnvV,
)
    decreases fuel, 0int, args.len(),
{
    if args.len() == 0 {
        (Ok(Seq::empty()), env)
    } else if fuel == 0 {
        (Err(depth_msg()), env)
    } else {
        let (r0, env1) = eval_s(args[0], env, (fuel - 1) as nat);
        match r0 {
            EvalResultV::Error(m) => (Err(m), env1),
            EvalResultV::Unit => (Err("Cannot pass Unit as an argument to a function!"@), env1),
            EvalResultV::Expr(v) => {
                let (r1, env2) = eval_args_s(args.subrange(1, args.len() as int), env1, fuel);
                match r1 {
                    Ok(vals) => (Ok(seq![v] + vals), env2),
                    Err(m) => (Err(m), env2),
                }
            },
        }
    }
}

/// The operands of a mathematical operator, each evaluated and required
/// to be a number.
pub open spec fn math_args_s(vals: Seq<ExprV>, env: EnvV, fuel: nat) -> (
    Result<Seq<u64>, Seq<char>>,
    EnvV,
)
    decreases fuel, 0int, vals.len(),
{
    if vals.len() == 0 {
        (Ok(Seq::empty()), env)
    } else if fuel == 0 {
        (Err(depth_msg()), env)
    } else {
        let (r0, env1) = eval_s(vals[0], env, (fuel - 1) as nat);
        match r0 {
            EvalResultV::Error(m) => (Err(m), env1),
            EvalResultV::Unit => (Err("Mathematical operations must be performed on numbers!"@), env1),
            EvalResultV::Expr(v) => match v {
                ExprV::FNum(bits) => {
                    let (r1, env2) = math_args_s(vals.subrange(1, vals.len() as int), env1, fuel);
                    match r1 {
                        Ok(nums) => (Ok(seq![bits] + nums), env2),
                        Err(m) => (Err(m), env2),
                    }
                },
                _ => (Err("Mathematical operations must be performed on numbers!"@), env1),
            },
        }
    }
}

/// One of the four arithmetic forms: at least one operand, all numbers,
/// folded from the left; a single operand is returned unchanged.
pub open spec fn math_s(op: Seq<char>, vals: Seq<ExprV>, env: EnvV, fuel: nat) -> (
    EvalResultV,
    EnvV,
)
    decreases fuel, 0int, vals.len() + 1,
{
    if vals.len() == 0 {
        (
            EvalResultV::Error("Mathematical operations must be performed on at least one number!"@),
            env,
        )
    } else {
        let (r, env1) = math_args_s(vals, env, fuel);
        match r {
            Err(m) => (EvalResultV::Error(m), env1),
            Ok(nums) => match fold_math(op, nums[0], nums.subrange(1, nums.len() as int)) {
                Ok(bits) => (EvalResultV::Expr(ExprV::FNum(bits)), env1),
                Err(m) => (EvalResultV::Error(m), env1),
            },
        }
    }
}

/// The operands of a boolean operator, each evaluated and mapped to its
/// truth value.
pub open spec fn bool_args_s(vals: Seq<ExprV>, env: EnvV, fuel: nat) -> (
    Result<Seq<bool>, Seq<char>>,
    EnvV,
)
    decreases fuel, 0int, vals.len(),
{
    if vals.len() == 0 {
        (Ok(Seq::empty()), env)
    } else if fuel == 0 {
        (Err(depth_msg()), env)
    } else {
        let (r0, env1) = eval_s(vals[0], env, (fuel - 1) as nat);
        match r0 {
            EvalResultV::Error(m) => (Err(m), env1),
            EvalResultV::Unit => (Err("Boolean operations must be performed on symbols!"@), env1),
            EvalResultV::Expr(v) => match spec_truthy(v) {
                None => (Err("Boolean operations must be performed symbols!"@), env1),
                Some(t) => {
                    let (r1, env2) = bool_args_s(vals.subrange(1, vals.len() as int), env1, fuel);
                    match r1 {
                        Ok(bs) => (Ok(seq![t] + bs), env2),
                        Err(m) => (Err(m), env2),
                    }
                },
            },
        }
    }
}

/// One of the boolean forms: `or` and `and` fold from the left over at
/// least one operand; `not` takes exactly one operand and inverts it.
pub open spec fn bool_s(op: Seq<char>, vals: Seq<ExprV>, env: EnvV, fuel: nat) -> (
    EvalResultV,
    EnvV,
)
    decreases fuel, 0int, vals.len() + 1,
{
    if vals.len() == 0 {
        (EvalResultV::Error("Boolean operations must be performed on at least value!"@), env)
    } else if op == "not"@ && vals.len() != 1 {
        (EvalResultV::Error("Negation must be performed on one symbol!"@), env)
    } else {
        let (r, env1) = bool_args_s(vals, env, fuel);
        match r {
            Err(m) => (EvalResultV::Error(m), env1),
            Ok(bs) => match fold_bool(op, bs[0], bs.subrange(1, bs.len() as int)) {
                Err(m) => (EvalResultV::Error(m), env1),
                Ok(res) => {
                    let shown = if op == "not"@ {
                        !res
                    } else {
                        res
                    };
                    (
                        EvalResultV::Expr(
                            ExprV::Symbol(
                                if shown {
                                    "True"@
                                } else {
                                    "False"@
                                },
                            ),
                        ),
                        env1,
                    )
                },
            },
        }
    }
}

/// The operands of an equality form: an evaluated value stands for
/// itself, while an operand that yields no value stands for its own
/// unevaluated expression.
pub open spec fn eq_args_s(vals: Seq<ExprV>, env: EnvV, fuel: nat) -> (
    Result<Seq<ExprV>, Seq<char>>,
    EnvV,
)
    decreases fuel, 0int, vals.len(),
{
    if vals.len() == 0 {
        (Ok(Seq::empty()), env)
    } else if fuel == 0 {
        (Err(depth_msg()), env)
    } else {
        let (r0, env1) = eval_s(vals[0], env, (fuel - 1) as nat);
        let item = match r0 {
            EvalResultV::Error(m) => Err(m),
            EvalResultV::Expr(v) => Ok(v),
            EvalResultV::Unit => Ok(vals[0]),
        };
        match item {
            Err(m) => (Err(m), env1),
            Ok(v) => {
                let (r1, env2) = eq_args_s(vals.subrange(1, vals.len() as int), env1, fuel);
                match r1 {
                    Ok(rest) => (Ok(seq![v] + rest), env2),
                    Err(m) => (Err(m), env2),
                }
            },
        }
    }
}

/// `=` holds when every operand equals the first; `!=` holds when at
/// least one operand differs from the first.
pub open spec fn eq_s(op: Seq<char>, vals: Seq<ExprV>, env: EnvV, fuel: nat) -> (
    EvalResultV,
    EnvV,
)
    decreases fuel, 0int, vals.len() + 1,
{
    if vals.len() == 0 {
        (
            EvalResultV::Error("Equality operations must be performed on at least one value!"@),
            env,
        )
    } else {
        let (r, env1) = eq_args_s(vals, env, fuel);
        match r {
            Err(m) => (EvalResultV::Error(m), env1),
            Ok(xs) => {
                if op == "="@ {
                    let res = forall|i: int| 0 <= i < xs.len() ==> spec_expr_eq(
                        #[trigger] xs[i],
                        xs[0],
                    );
                    (
                        EvalResultV::Expr(
                            ExprV::Symbol(
                                if res {
                                    "True"@
                                } else {
                                    "False"@
                                },
                            ),
                        ),
                        env1,
                    )
                } else if op == "!="@ {
                    let res = exists|i: int| 0 <= i < xs.len() && !spec_expr_eq(
                        #[trigger] xs[i],
                        xs[0],
                    );
                    (
                        EvalResultV::Expr(
                            ExprV::Symbol(
                                if res {
                                    "True"@
                                } else {
                                    "False"@
                                },
                            ),
                        ),
                        env1,
                    )
                } else {
                    (EvalResultV::Error("Illegal equality operation!"@), env1)
                }
            },
        }
    }
}

/// The conditional form: exactly a predicate and two branches; the
/// predicate decides which single branch is evaluated, and the other is
/// never touched.
pub open spec fn if_s(vals: Seq<ExprV>, env: EnvV, fuel: nat) -> (EvalResultV, EnvV)
    decreases fuel, 0int, 0int,
{
    if vals.len() != 3 {
        (
            EvalResultV::Error("Invalid if statement! Must be 'if (predicate) (then) (else)'"@),
            env,
        )
    } else if fuel == 0 {
        (EvalResultV::Error(depth_msg()), env)
    } else {
        let (r, env1) = eval_s(vals[0], env, (fuel - 1) as nat);
        match r {
            EvalResultV::Error(m) => (EvalResultV::Error(m), env1),
            EvalResultV::Unit => (
                EvalResultV::Error("If statement predicate cannot return Unit!"@),
                env1,
            ),
            EvalResultV::Expr(v) => match spec_truthy(v) {
                None => (EvalResultV::Error("Invalid if statement predicate!"@), env1),
                Some(true) => eval_s(vals[1], env1, (fuel - 1) as nat),
                Some(false) => eval_s(vals[2], env1, (fuel - 1) as nat),
            },
        }
    }
}

/// The `let` form: a reserved-word check on the name before the value is
/// evaluated, then a value binding in the innermost frame.
pub open spec fn let_s(vals: Seq<ExprV>, env: EnvV, fuel: nat) -> (EvalResultV, EnvV)
    decreases fuel, 0int, 0int,
{
    if vals.len() != 2 {
        (EvalResultV::Error("Invalid variable definition! Must be 'let x expr'!"@), env)
    } else if vals[0] matches ExprV::Symbol(s) && spec_reserved(s) {
        (EvalResultV::Error("Reserved variable or function name!"@), env)
    } else {
        match vals[0] {
            ExprV::Symbol(s) => {
                if fuel == 0 {
                    (EvalResultV::Error(depth_msg()), env)
                } else {
                    let (r, env1) = eval_s(vals[1], env, (fuel - 1) as nat);
                    match r {
                        EvalResultV::Error(m) => (EvalResultV::Error(m), env1),
                        EvalResultV::Unit => (
                            EvalResultV::Error("Cannot assign Unit to variable!"@),
                            env1,
                        ),
                        EvalResultV::Expr(v) => {
                            if env1.contexts.len() == 0 {
                                (EvalResultV::Error("Enviroment has no context!"@), env1)
                            } else {
                                (
                                    EvalResultV::Unit,
                                    EnvV {
                                        contexts: define_in_top(
                                            env1.contexts,
                                            s,
                                            (Seq::<Seq<char>>::empty(), v),
                                        ),
                                        output: env1.output,
                                    },
                                )
                            }
                        },
                    }
                }
            },
            _ => (EvalResultV::Error("Invalid variable definition! Must be 'let x expr!"@), env),
        }
    }
}

/// The `fn` form: a name, a list of bare parameter symbols, and a body
/// stored unevaluated as a function binding in the innermost frame.
pub open spec fn fn_s(vals: Seq<ExprV>, env: EnvV) -> (EvalResultV, EnvV) {
    if vals.len() != 3 {
        (
            EvalResultV::Error("Invalid function definition! Must be '(fn my-func (args) body)'!"@),
            env,
        )
    } else if vals[0] matches ExprV::Symbol(s) && spec_reserved(s) {
        (EvalResultV::Error("Reserved variable or function name!"@), env)
    } else {
        match (vals[0], vals[1]) {
            (ExprV::Symbol(name), ExprV::List(args)) => match spec_params_of(args) {
                Err(m) => (EvalResultV::Error(m), env),
                Ok(params) => {
                    if env.contexts.len() == 0 {
                        (EvalResultV::Error("Enviroment has no context!"@), env)
                    } else {
                        (
                            EvalResultV::Unit,
                            EnvV {
                                contexts: define_in_top(env.contexts, name, (params, vals[2])),
                                output: env.output,
                            },
                        )
                    }
                },
            },
            _ => (
                EvalResultV::Error(
                    "Invalid function definition! Must be '(fn my-func (args) body)'!"@,
                ),
                env,
            ),
        }
    }
}

/// The `print` form: at least one operand; their renderings, joined with
/// single spaces, become one line of output, and no value is produced.
pub open spec fn print_s(vals: Seq<ExprV>, env: EnvV, fuel: nat) -> (EvalResultV, EnvV) {
    if vals.len() < 1 {
        (EvalResultV::Error("Missing values in print function'!"@), env)
    } else {
        let line = join_space(gen_each_s(vals, env.contexts, fuel));
        (EvalResultV::Unit, EnvV { contexts: env.contexts, output: env.output.push(line) })
    }
}

/// Whether two pieces of text are equal.
pub fn str_eq(a: &str, b: &str) -> (r: bool)
    ensures
        r == (a@ == b@),
{
    let sa = String::from_str(a);
    let sb = String::from_str(b);
    sa == sb
}

/// The reserved-word check a definition's name must pass.
pub fn reserved_words(symbol: &str) -> (r: Result<(), String>)
    ensures
        r is Err <==> spec_reserved(symbol@),
        r matches Err(m) ==> m@ == "Reserved variable or function name!"@,
{
    if str_eq(symbol, "+") || str_eq(symbol, "-") || str_eq(symbol, "*") || str_eq(symbol, "/")
        || str_eq(symbol, "or") || str_eq(symbol, "and") || str_eq(symbol, "not") || str_eq(
        symbol,
        "=",
    ) || str_eq(symbol, "!=") || str_eq(symbol, "if") || str_eq(symbol, "let") || str_eq(
        symbol,
        "fn",
    ) || str_eq(symbol, "print") {
        Err(String::from_str("Reserved variable or function name!"))
    } else {
        Ok(())
    }
}

/// One decimal digit as text.
fn digit_str(d: u64) -> (r: String)
    requires
        d < 10,
    ensures
        r@ == seq![spec_digit(d as nat)],
{
    let r = if d == 0 {
        String::from_str("0")
    } else if d == 1 {
        String::from_str("1")
    } else if d == 2 {
        String::from_str("2")
    } else if d == 3 {
        String::from_str("3")
    } else if d == 4 {
        String::from_str("4")
    } else if d == 5 {
        String::from_str("5")
    } else if d == 6 {
        String::from_str("6")
    } else if d == 7 {
        String::from_str("7")
    } else if d == 8 {
        String::from_str("8")
    } else {
        String::from_str("9")
    };
    proof {
        reveal_strlit("0");
        reveal_strlit("1");
        reveal_strlit("2");
        reveal_strlit("3");
        reveal_strlit("4");
        reveal_strlit("5");
        reveal_strlit("6");
        reveal_strlit("7");
        reveal_strlit("8");
        reveal_strlit("9");
        assert(r@ =~= seq![spec_digit(d as nat)]);
    }
    r
}

/// The decimal rendering of a count.
pub fn u64_to_string(n: u64) -> (r: String)
    ensures
        r@ == spec_dec_digits(n as nat),
    decreases n,
{
    if n < 10 {
        digit_str(n)
    } else {
        let mut s = u64_to_string(n / 10);
        let d = digit_str(n % 10);
        s.append(d.as_str());
        proof {
            assert(s@ =~= spec_dec_digits((n / 10) as nat).push(spec_digit((n % 10) as nat)));
        }
        s
    }
}

/// The arity-mismatch message, naming both counts.
fn arity_msg_string(params: u64, args: u64) -> (r: String)
    ensures
        r@ == arity_msg(params as nat, args as nat),
{
    let mut s = String::from_str("Provided ");
    let p = u64_to_string(params);
    s.append(p.as_str());
    s.append(" arguments but expected ");
    let a = u64_to_string(args);
    s.append(a.as_str());
    s.append("!");
    proof {
        assert(s@ =~= arity_msg(params as nat, args as nat));
    }
    s
}

/// One space-joined line from its parts.
pub fn join_strings(parts: &Vec<String>) -> (r: String)
    ensures
        r@ == join_space(names_view(parts@)),
{
    if parts.len() == 0 {
        proof {
            assert(names_view(parts@).len() == 0);
        }
        String::new()
    } else {
        let mut s = parts[0].clone();
        let n = parts.len();
        let mut i: usize = 1;
        proof {
            assert(names_view(parts@).take(1) =~= seq![parts@[0]@]);
            assert(s@ == join_space(names_view(parts@).take(1)));
        }
        while i < n
            invariant
                1 <= i <= n,
                n == parts@.len(),
                s@ == join_space(names_view(parts@).take(i as int)),
            decreases n - i,
        {
            s.append(" ");
            s.append(parts[i].as_str());
            proof {
                lemma_join_push(names_view(parts@).take(i as int), parts@[i as int]@);
                assert(names_view(parts@).take(i as int).push(parts@[i as int]@)
                    =~= names_view(parts@).take(i + 1));
            }
            i += 1;
        }
        proof {
            assert(names_view(parts@).take(n as int) =~= names_view(parts@));
        }
        s
    }
}

/// The evaluated arguments of a call, in order, in the caller's
/// environment; an argument that yields no value is an error.
pub fn eval_args(args: &[Expr], env: &mut Environment, fuel: u64) -> (r: Result<Vec<Expr>, String>)
    ensures
        ({
            let (sr, senv) = eval_args_s(exprs_view(args@), old(env)@, fuel as nat);
            final(env)@ == senv && (match (r, sr) {
                (Ok(v), Ok(sv)) => exprs_view(v@) == sv && v@.len() == args@.len(),
                (Err(m), Err(sm)) => m@ == sm,
                _ => false,
            })
        }),
    decreases fuel, 0int, args@.len(),
{
    let ghost sargs = exprs_view(args@);
    if args.len() == 0 {
        proof {
            assert(exprs_view(Seq::<Expr>::empty()) =~= Seq::<ExprV>::empty());
            assert(exprs_view(args@) =~= Seq::<ExprV>::empty());
        }
        Ok(Vec::new())
    } else if fuel == 0 {
        Err(String::from_str("Evaluation depth limit reached!"))
    } else {
        match eval_fuel(&args[0], env, fuel - 1) {
            EvalResult::Error(m) => Err(m),
            EvalResult::Unit => Err(
                String::from_str("Cannot pass Unit as an argument to a function!"),
            ),
            EvalResult::Expr(v) => {
                let tail = &args[1..args.len()];
                proof {
                    assert(exprs_view(tail@) =~= sargs.subrange(1, sargs.len() as int));
                }
                match eval_args(tail, env, fuel) {
                    Err(m) => Err(m),
                    Ok(mut rest) => {
                        let ghost restsnap = exprs_view(rest@);
                        rest.insert(0, v);
                        proof {
                            assert(exprs_view(rest@) =~= seq![v.view()] + restsnap);
                        }
                        Ok(rest)
                    },
                }
            },
        }
    }
}

/// The surviving values of evaluating each element of a list in order;
/// elements that yield no value are dropped.
pub fn list_elems(items: &[Expr], env: &mut Environment, fuel: u64) -> (r: Result<
    Vec<Expr>,
    String,
>)
    ensures
        ({
            let (sr, senv) = list_elems_s(exprs_view(items@), old(env)@, fuel as nat);
            final(env)@ == senv && (match (r, sr) {
                (Ok(v), Ok(sv)) => exprs_view(v@) == sv,
                (Err(m), Err(sm)) => m@ == sm,
                _ => false,
            })
        }),
    decreases fuel, 0int, items@.len(),
{
    let ghost sitems = exprs_view(items@);
    if items.len() == 0 {
        proof {
            assert(exprs_view(items@) =~= Seq::<ExprV>::empty());
        }
        Ok(Vec::new())
    } else if fuel == 0 {
        Err(String::from_str("Evaluation depth limit reached!"))
    } else {
        let r0 = eval_fuel(&items[0], env, fuel - 1);
        let tail = &items[1..items.len()];
        proof {
            assert(exprs_view(tail@) =~= sitems.subrange(1, sitems.len() as int));
        }
        match r0 {
            EvalResult::Error(m) => Err(m),
            EvalResult::Unit => list_elems(tail, env, fuel),
            EvalResult::Expr(v) => match list_elems(tail, env, fuel) {
                Err(m) => Err(m),
                Ok(mut rest) => {
                    let ghost restsnap = exprs_view(rest@);
                    rest.insert(0, v);
                    proof {
                        assert(exprs_view(rest@) =~= seq![v.view()] + restsnap);
                    }
                    Ok(rest)
                },
            },
        }
    }
}

/// The operands of a mathematical form, each evaluated and required to
/// be a number, as raw bit patterns.
pub fn math_args(vals: &[Expr], env: &mut Environment, fuel: u64) -> (r: Result<Vec<u64>, String>)
    ensures
        ({
            let (sr, senv) = math_args_s(exprs_view(vals@), old(env)@, fuel as nat);
            final(env)@ == senv && (match (r, sr) {
                (Ok(v), Ok(sv)) => v@ == sv,
                (Err(m), Err(sm)) => m@ == sm,
                _ => false,
            })
        }),
    decreases fuel, 0int, vals@.len(),
{
    let ghost svals = exprs_view(vals@);
    if vals.len() == 0 {
        proof {
            assert(exprs_view(vals@) =~= Seq::<ExprV>::empty());
        }
        Ok(Vec::new())
    } else if fuel == 0 {
        Err(String::from_str("Evaluation depth limit reached!"))
    } else {
        match eval_fuel(&vals[0], env, fuel - 1) {
            EvalResult::Error(m) => Err(m),
            EvalResult::Unit => Err(
                String::from_str("Mathematical operations must be performed on numbers!"),
            ),
            EvalResult::Expr(v) => match v {
                Expr::FNum(bits) => {
                    let tail = &vals[1..vals.len()];
                    proof {
                        assert(exprs_view(tail@) =~= svals.subrange(1, svals.len() as int));
                    }
                    match math_args(tail, env, fuel) {
                        Err(m) => Err(m),
                        Ok(mut rest) => {
                            let ghost restsnap = rest@;
                            rest.insert(0, bits);
                            proof {
                                assert(rest@ =~= seq![bits] + restsnap);
                            }
                            Ok(rest)
                        },
                    }
                },
                _ => Err(String::from_str("Mathematical operations must be performed on numbers!")),
            },
        }
    }
}

/// The operands of a boolean form, each evaluated and mapped to its
/// truth value.
pub fn bool_args(vals: &[Expr], env: &mut Environment, fuel: u64) -> (r: Result<Vec<bool>, String>)
    ensures
        ({
            let (sr, senv) = bool_args_s(exprs_view(vals@), old(env)@, fuel as nat);
            final(env)@ == senv && (match (r, sr) {
                (Ok(v), Ok(sv)) => v@ == sv,
                (Err(m), Err(sm)) => m@ == sm,
                _ => false,
            })
        }),
    decreases fuel, 0int, vals@.len(),
{
    let ghost svals = exprs_view(vals@);
    if vals.len() == 0 {
        proof {
            assert(exprs_view(vals@) =~= Seq::<ExprV>::empty());
        }
        Ok(Vec::new())
    } else if fuel == 0 {
        Err(String::from_str("Evaluation depth limit reached!"))
    } else {
        match eval_fuel(&vals[0], env, fuel - 1) {
            EvalResult::Error(m) => Err(m),
            EvalResult::Unit => Err(
                String::from_str("Boolean operations must be performed on symbols!"),
            ),
            EvalResult::Expr(v) => {
                let t: bool = match &v {
                    Expr::Symbol(s) => !sym_is(s, "False"),
                    Expr::List(xs) => xs.len() > 0,
                    Expr::FNum(_) => {
                        return Err(
                            String::from_str("Boolean operations must be performed symbols!"),
                        );
                    },
                };
                let tail = &vals[1..vals.len()];
                proof {
                    assert(exprs_view(tail@) =~= svals.subrange(1, svals.len() as int));
                }
                match bool_args(tail, env, fuel) {
                    Err(m) => Err(m),
                    Ok(mut rest) => {
                        let ghost restsnap = rest@;
                        rest.insert(0, t);
                        proof {
                            assert(rest@ =~= seq![t] + restsnap);
                        }
                        Ok(rest)
                    },
                }
            },
        }
    }
}

/// The operands of an equality form: an evaluated value stands for
/// itself, an operand that yields no value stands for its own
/// unevaluated expression.
pub fn eq_args(vals: &[Expr], env: &mut Environment, fuel: u64) -> (r: Result<Vec<Expr>, String>)
    ensures
        ({
            let (sr, senv) = eq_args_s(exprs_view(vals@), old(env)@, fuel as nat);
            final(env)@ == senv && (match (r, sr) {
                (Ok(v), Ok(sv)) => exprs_view(v@) == sv,
                (Err(m), Err(sm)) => m@ == sm,
                _ => false,
            })
        }),
    decreases fuel, 0int, vals@.len(),
{
    let ghost svals = exprs_view(vals@);
    if vals.len() == 0 {
        proof {
            assert(exprs_view(vals@) =~= Seq::<ExprV>::empty());
        }
        Ok(Vec::new())
    } else if fuel == 0 {
        Err(String::from_str("Evaluation depth limit reached!"))
    } else {
        let item: Expr = match eval_fuel(&vals[0], env, fuel - 1) {
            EvalResult::Error(m) => {
                return Err(m);
            },
            EvalResult::Expr(v) => v,
            EvalResult::Unit => vals[0].clone_expr(),
        };
        let tail = &vals[1..vals.len()];
        proof {
            assert(exprs_view(tail@) =~= svals.subrange(1, svals.len() as int));
        }
        match eq_args(tail, env, fuel) {
            Err(m) => Err(m),
            Ok(mut rest) => {
                let ghost restsnap = exprs_view(rest@);
                rest.insert(0, item);
                proof {
                    assert(exprs_view(rest@) =~= seq![item.view()] + restsnap);
                }
                Ok(rest)
            },
        }
    }
}

/// The rendering of one expression for printing, under a budget for
/// chains of value bindings.
pub fn gen_fuel(expr: &Expr, env: &Environment, fuel: u64) -> (r: String)
    ensures
        r@ == gen_print_s(expr.view(), env@.contexts, fuel as nat),
    decreases fuel, *expr, 0int,
{
    match expr {
        Expr::Symbol(s) => match env.lookup(s.as_str()) {
            None => s.clone(),
            Some((params, body)) => {
                if params.len() == 0 {
                    if fuel == 0 {
                        s.clone()
                    } else {
                        gen_fuel(&body, env, fuel - 1)
                    }
                } else {
                    let mut t = String::from_str("<func-object: ");
                    t.append(s.as_str());
                    t.append(">");
                    proof {
                        assert(t@ =~= "<func-object: "@ + s@ + ">"@);
                    }
                    t
                }
            },
        },
        Expr::FNum(bits) => crate::num::render_fnum(*bits),
        Expr::List(xs) => {
            proof {
                assert(decreases_to!(*expr => *xs));
                assert(decreases_to!(*xs => xs@));
                assert(expr.view()->List_0 =~= exprs_view(xs@));
            }
            let parts = gen_each_fuel(xs.as_slice(), env, fuel);
            let joined = join_strings(&parts);
            let mut t = String::from_str("(");
            t.append(joined.as_str());
            t.append(")");
            proof {
                assert(t@ =~= "("@ + join_space(gen_each_s(exprs_view(xs@), env@.contexts, fuel as nat)) + ")"@);
            }
            t
        },
    }
}

/// The renderings of each element of a list, in order.
pub fn gen_each_fuel(xs: &[Expr], env: &Environment, fuel: u64) -> (r: Vec<String>)
    ensures
        names_view(r@) == gen_each_s(exprs_view(xs@), env@.contexts, fuel as nat),
    decreases fuel, xs@, 1int,
{
    let ghost sxs = exprs_view(xs@);
    if xs.len() == 0 {
        let r: Vec<String> = Vec::new();
        proof {
            assert(exprs_view(xs@) =~= Seq::<ExprV>::empty());
            assert(names_view(r@) =~= gen_each_s(exprs_view(xs@), env@.contexts, fuel as nat));
        }
        r
    } else {
        let first = gen_fuel(&xs[0], env, fuel);
        let tail = &xs[1..xs.len()];
        proof {
            assert(exprs_view(tail@) =~= sxs.subrange(1, sxs.len() as int));
        }
        let mut rest = gen_each_fuel(tail, env, fuel);
        let ghost restsnap = names_view(rest@);
        rest.insert(0, first);
        proof {
            assert(names_view(rest@) =~= seq![first@] + restsnap);
        }
        rest
    }
}

/// The parameter names of a function definition: every element must be
/// a bare symbol.
pub fn params_of(args: &[Expr]) -> (r: Result<Vec<String>, String>)
    ensures
        match (r, spec_params_of(exprs_view(args@))) {
            (Ok(v), Ok(sv)) => names_view(v@) == sv,
            (Err(m), Err(sm)) => m@ == sm,
            _ => false,
        },
    decreases args@.len(),
{
    let ghost sargs = exprs_view(args@);
    if args.len() == 0 {
        let r: Vec<String> = Vec::new();
        proof {
            assert(exprs_view(args@) =~= Seq::<ExprV>::empty());
            assert(names_view(r@) =~= Seq::<Seq<char>>::empty());
        }
        Ok(r)
    } else {
        match &args[0] {
            Expr::Symbol(n) => {
                let tail = &args[1..args.len()];
                proof {
                    assert(exprs_view(tail@) =~= sargs.subrange(1, sargs.len() as int));
                }
                match params_of(tail) {
                    Err(m) => Err(m),
                    Ok(mut rest) => {
                        let ghost restsnap = names_view(rest@);
                        rest.insert(0, n.clone());
                        proof {
                            assert(names_view(rest@) =~= seq![n@] + restsnap);
                        }
                        Ok(rest)
                    },
                }
            },
            _ => Err(String::from_str("Function arguments must be strings!")),
        }
    }
}

/// Resolution of a symbol, shared by bare symbols and list-headed calls.
pub fn evaluate_symbol(
    orig: &Expr,
    symbol: &str,
    args: &[Expr],
    env: &mut Environment,
    fuel: u64,
) -> (r: EvalResult)
    ensures
        (r@, final(env)@) == apply_symbol_s(
            orig.view(),
            symbol@,
            exprs_view(args@),
            old(env)@,
            fuel as nat,
        ),
    decreases fuel, 0int, args@.len() + 1,
{
    match env.lookup(symbol) {
        None => EvalResult::Expr(orig.clone_expr()),
        Some((params, body)) => {
            if params.len() == 0 {
                if fuel == 0 {
                    EvalResult::Error(String::from_str("Evaluation depth limit reached!"))
                } else {
                    eval_fuel(&body, env, fuel - 1)
                }
            } else if params.len() != args.len() {
                EvalResult::Error(
                    arity_msg_string(params.len() as u64, args.len() as u64),
                )
            } else {
                match eval_args(args, env, fuel) {
                    Err(m) => EvalResult::Error(m),
                    Ok(vals) => {
                        let ghost env1 = env@;
                        let ghost frame = bind_args(names_view(params@), exprs_view(vals@));
                        env.push_context();
                        let n = params.len();
                        let mut k: usize = 0;
                        proof {
                            assert(bind_args(
                                names_view(params@).take(0),
                                exprs_view(vals@).take(0),
                            ) =~= Seq::<(Seq<char>, BindingV)>::empty());
                            assert(env@.contexts =~= env1.contexts.push(
                                bind_args(
                                    names_view(params@).take(0),
                                    exprs_view(vals@).take(0),
                                ),
                            ));
                        }
                        while k < n
                            invariant
                                k <= n,
                                n == params@.len() == vals@.len(),
                                env@.output == env1.output,
                                env@.contexts =~= env1.contexts.push(
                                    bind_args(
                                        names_view(params@).take(k as int),
                                        exprs_view(vals@).take(k as int),
                                    ),
                                ),
                            decreases n - k,
                        {
                            let val = vals[k].clone_expr();
                            let _ = env.add_var(params[k].as_str(), val);
                            proof {
                                assert(bind_args(
                                    names_view(params@).take(k + 1),
                                    exprs_view(vals@).take(k + 1),
                                ) =~= bind_args(
                                    names_view(params@).take(k as int),
                                    exprs_view(vals@).take(k as int),
                                ).push((params@[k as int]@, (Seq::<Seq<char>>::empty(),
                                vals@[k as int].view()))));
                            }
                            k += 1;
                        }
                        proof {
                            assert(names_view(params@).take(n as int) =~= names_view(params@));
                            assert(exprs_view(vals@).take(n as int) =~= exprs_view(vals@));
                            assert(env@.contexts =~= env1.contexts.push(frame));
                        }
                        let rb = if fuel == 0 {
                            EvalResult::Error(String::from_str("Evaluation depth limit reached!"))
                        } else {
                            eval_fuel(&body, env, fuel - 1)
                        };
                        env.pop_context();
                        rb
                    },
                }
            }
        },
    }
}

/// One of the four arithmetic forms, folded from the left over at least
/// one numeric operand.
pub fn do_math(vals: &[Expr], env: &mut Environment, op: &str, fuel: u64) -> (r: EvalResult)
    ensures
        (r@, final(env)@) == math_s(op@, exprs_view(vals@), old(env)@, fuel as nat),
    decreases fuel, 0int, vals@.len() + 1,
{
    if vals.len() == 0 {
        return EvalResult::Error(
            String::from_str("Mathematical operations must be performed on at least one number!"),
        );
    }
    match math_args(vals, env, fuel) {
        Err(m) => EvalResult::Error(m),
        Ok(nums) => {
            let ghost snums = nums@;
            let ghost smath = math_args_s(exprs_view(vals@), old(env)@, fuel as nat);
            let mut acc = nums[0];
            let n = nums.len();
            let mut i: usize = 1;
            while i < n
                invariant
                    1 <= i <= n,
                    n == nums@.len(),
                    nums@ == snums,
                    smath == math_args_s(exprs_view(vals@), old(env)@, fuel as nat),
                    smath.0 == Ok::<Seq<u64>, Seq<char>>(snums),
                    smath.1 == env@,
                    exprs_view(vals@).len() > 0,
                    fold_math(op@, snums[0], snums.subrange(1, n as int)) == fold_math(
                        op@,
                        acc,
                        snums.subrange(i as int, n as int),
                    ),
                decreases n - i,
            {
                proof {
                    assert(snums.subrange(i as int, n as int).subrange(
                        1,
                        n - i,
                    ) =~= snums.subrange(i + 1, n as int));
                    assert(snums.subrange(i as int, n as int)[0] == snums[i as int]);
                }
                if str_eq(op, "+") {
                    acc = crate::num::add_bits(acc, nums[i]);
                } else if str_eq(op, "-") {
                    acc = crate::num::sub_bits(acc, nums[i]);
                } else if str_eq(op, "*") {
                    acc = crate::num::mul_bits(acc, nums[i]);
                } else if str_eq(op, "/") {
                    acc = crate::num::div_bits(acc, nums[i]);
                } else {
                    return EvalResult::Error(String::from_str("Illegal mathematical operation!"));
                }
                i += 1;
            }
            proof {
                assert(snums.subrange(n as int, n as int) =~= Seq::<u64>::empty());
            }
            EvalResult::Expr(Expr::FNum(acc))
        },
    }
}

/// One of the boolean forms: `or` and `and` fold from the left, `not`
/// takes exactly one operand and inverts it. The result is always one of
/// the canonical symbols `True` and `False`.
pub fn do_boolean(vals: &[Expr], env: &mut Environment, op: &str, fuel: u64) -> (r: EvalResult)
    ensures
        (r@, final(env)@) == bool_s(op@, exprs_view(vals@), old(env)@, fuel as nat),
    decreases fuel, 0int, vals@.len() + 1,
{
    if vals.len() == 0 {
        return EvalResult::Error(
            String::from_str("Boolean operations must be performed on at least value!"),
        );
    }
    if str_eq(op, "not") && vals.len() != 1 {
        return EvalResult::Error(String::from_str("Negation must be performed on one symbol!"));
    }
    match bool_args(vals, env, fuel) {
        Err(m) => EvalResult::Error(m),
        Ok(bs) => {
            let ghost sbs = bs@;
            let ghost sbool = bool_args_s(exprs_view(vals@), old(env)@, fuel as nat);
            let mut acc = bs[0];
            let n = bs.len();
            let mut i: usize = 1;
            while i < n
                invariant
                    1 <= i <= n,
                    n == bs@.len(),
                    bs@ == sbs,
                    sbool == bool_args_s(exprs_view(vals@), old(env)@, fuel as nat),
                    sbool.0 == Ok::<Seq<bool>, Seq<char>>(sbs),
                    sbool.1 == env@,
                    exprs_view(vals@).len() > 0,
                    op@ == "not"@ ==> exprs_view(vals@).len() == 1,
                    fold_bool(op@, sbs[0], sbs.subrange(1, n as int)) == fold_bool(
                        op@,
                        acc,
                        sbs.subrange(i as int, n as int),
                    ),
                decreases n - i,
            {
                proof {
                    assert(sbs.subrange(i as int, n as int).subrange(1, n - i) =~= sbs.subrange(
                        i + 1,
                        n as int,
                    ));
                    assert(sbs.subrange(i as int, n as int)[0] == sbs[i as int]);
                }
                if str_eq(op, "or") {
                    acc = acc || bs[i];
                } else if str_eq(op, "and") {
                    acc = acc && bs[i];
                } else {
                    return EvalResult::Error(String::from_str("Illegal boolean operation!"));
                }
                i += 1;
            }
            proof {
                assert(sbs.subrange(n as int, n as int) =~= Seq::<bool>::empty());
            }
            let shown = if str_eq(op, "not") {
                !acc
            } else {
                acc
            };
            if shown {
                EvalResult::Expr(Expr::symbol("True"))
            } else {
                EvalResult::Expr(Expr::symbol("False"))
            }
        },
    }
}

/// One of the equality forms: `=` holds when every operand equals the
/// first, `!=` when at least one differs from the first.
pub fn do_equality(vals: &[Expr], env: &mut Environment, op: &str, fuel: u64) -> (r: EvalResult)
    ensures
        (r@, final(env)@) == eq_s(op@, exprs_view(vals@), old(env)@, fuel as nat),
    decreases fuel, 0int, vals@.len() + 1,
{
    if vals.len() == 0 {
        return EvalResult::Error(
            String::from_str("Equality operations must be performed on at least one value!"),
        );
    }
    match eq_args(vals, env, fuel) {
        Err(m) => EvalResult::Error(m),
        Ok(xs) => {
            let ghost sxs = exprs_view(xs@);
            if str_eq(op, "=") {
                let n = xs.len();
                let mut i: usize = 0;
                let mut all: bool = true;
                while i < n
                    invariant
                        i <= n,
                        n == xs@.len(),
                        sxs == exprs_view(xs@),
                        all == (forall|j: int|
                            0 <= j < i ==> spec_expr_eq(#[trigger] sxs[j], sxs[0])),
                    decreases n - i,
                {
                    proof {
                        assert(sxs[i as int] == xs@[i as int].view());
                        assert(sxs[0] == xs@[0].view());
                    }
                    if !xs[i].eq_expr(&xs[0]) {
                        all = false;
                    }
                    i += 1;
                }
                if all {
                    EvalResult::Expr(Expr::symbol("True"))
                } else {
                    EvalResult::Expr(Expr::symbol("False"))
                }
            } else if str_eq(op, "!=") {
                let n = xs.len();
                let mut i: usize = 0;
                let mut any: bool = false;
                while i < n
                    invariant
                        i <= n,
                        n == xs@.len(),
                        sxs == exprs_view(xs@),
                        any == (exists|j: int|
                            0 <= j < i && !spec_expr_eq(#[trigger] sxs[j], sxs[0])),
                    decreases n - i,
                {
                    proof {
                        assert(sxs[i as int] == xs@[i as int].view());
                        assert(sxs[0] == xs@[0].view());
                    }
                    if !xs[i].eq_expr(&xs[0]) {
                        any = true;
                    }
                    i += 1;
                }
                if any {
                    EvalResult::Expr(Expr::symbol("True"))
                } else {
                    EvalResult::Expr(Expr::symbol("False"))
                }
            } else {
                EvalResult::Error(String::from_str("Illegal equality operation!"))
            }
        },
    }
}

/// The conditional form: the predicate decides which single branch is
/// evaluated; the other is never touched.
pub fn if_statement(vals: &[Expr], env: &mut Environment, fuel: u64) -> (r: EvalResult)
    ensures
        (r@, final(env)@) == if_s(exprs_view(vals@), old(env)@, fuel as nat),
    decreases fuel, 0int, 0int,
{
    if vals.len() != 3 {
        return EvalResult::Error(
            String::from_str("Invalid if statement! Must be 'if (predicate) (then) (else)'"),
        );
    }
    if fuel == 0 {
        return EvalResult::Error(String::from_str("Evaluation depth limit reached!"));
    }
    match eval_fuel(&vals[0], env, fuel - 1) {
        EvalResult::Error(m) => EvalResult::Error(m),
        EvalResult::Unit => EvalResult::Error(
            String::from_str("If statement predicate cannot return Unit!"),
        ),
        EvalResult::Expr(v) => {
            let test: bool = match &v {
                Expr::Symbol(s) => !sym_is(s, "False"),
                Expr::List(xs) => xs.len() > 0,
                Expr::FNum(_) => {
                    return EvalResult::Error(String::from_str("Invalid if statement predicate!"));
                },
            };
            if test {
                eval_fuel(&vals[1], env, fuel - 1)
            } else {
                eval_fuel(&vals[2], env, fuel - 1)
            }
        },
    }
}

/// The `let` form: a reserved-word check on the name before the value is
/// evaluated, then a value binding in the innermost frame.
pub fn add_var_to_env(vals: &[Expr], env: &mut Environment, fuel: u64) -> (r: EvalResult)
    ensures
        (r@, final(env)@) == let_s(exprs_view(vals@), old(env)@, fuel as nat),
    decreases fuel, 0int, 0int,
{
    if vals.len() != 2 {
        return EvalResult::Error(
            String::from_str("Invalid variable definition! Must be 'let x expr'!"),
        );
    }
    if let Expr::Symbol(s) = &vals[0] {
        let check = reserved_words(s.as_str());
        if let Err(m) = check {
            return EvalResult::Error(m);
        }
    }
    match &vals[0] {
        Expr::Symbol(s) => {
            if fuel == 0 {
                return EvalResult::Error(String::from_str("Evaluation depth limit reached!"));
            }
            match eval_fuel(&vals[1], env, fuel - 1) {
                EvalResult::Error(m) => EvalResult::Error(m),
                EvalResult::Unit => EvalResult::Error(
                    String::from_str("Cannot assign Unit to variable!"),
                ),
                EvalResult::Expr(v) => match env.add_var(s.as_str(), v) {
                    Err(m) => EvalResult::Error(m),
                    Ok(_) => EvalResult::Unit,
                },
            }
        },
        _ => EvalResult::Error(
            String::from_str("Invalid variable definition! Must be 'let x expr!"),
        ),
    }
}

/// The `fn` form: a name, a list of bare parameter symbols, and a body
/// stored unevaluated as a function binding in the innermost frame.
pub fn add_fun_to_env(vals: &[Expr], env: &mut Environment) -> (r: EvalResult)
    ensures
        (r@, final(env)@) == fn_s(exprs_view(vals@), old(env)@),
{
    if vals.len() != 3 {
        return EvalResult::Error(
            String::from_str("Invalid function definition! Must be '(fn my-func (args) body)'!"),
        );
    }
    if let Expr::Symbol(s) = &vals[0] {
        let check = reserved_words(s.as_str());
        if let Err(m) = check {
            return EvalResult::Error(m);
        }
    }
    match (&vals[0], &vals[1]) {
        (Expr::Symbol(name), Expr::List(args)) => {
            proof {
                assert(vals@[0].view() == ExprV::Symbol(name@));
                assert(vals@[1].view()->List_0 =~= exprs_view(args@));
            }
            match params_of(args.as_slice()) {
                Err(m) => EvalResult::Error(m),
                Ok(params) => {
                    let body = vals[2].clone_expr();
                    match env.add_fn(name.as_str(), params, body) {
                        Err(m) => EvalResult::Error(m),
                        Ok(_) => EvalResult::Unit,
                    }
                },
            }
        },
        _ => EvalResult::Error(
            String::from_str("Invalid function definition! Must be '(fn my-func (args) body)'!"),
        ),
    }
}

/// The `print` form: the renderings of the operands, joined with single
/// spaces, become one line of output.
pub fn print(vals: &[Expr], env: &mut Environment, fuel: u64) -> (r: EvalResult)
    ensures
        (r@, final(env)@) == print_s(exprs_view(vals@), old(env)@, fuel as nat),
{
    if vals.len() < 1 {
        return EvalResult::Error(String::from_str("Missing values in print function'!"));
    }
    let parts = gen_each_fuel(vals, env, fuel);
    let line = join_strings(&parts);
    env.output.push(line);
    proof {
        assert(env@.output =~= old(env)@.output.push(line@));
        assert(env@.contexts =~= old(env)@.contexts);
        assert(env@ =~= EnvV {
            contexts: old(env)@.contexts,
            output: old(env)@.output.push(
                join_space(gen_each_s(exprs_view(vals@), old(env)@.contexts, fuel as nat)),
            ),
        });
    }
    EvalResult::Unit
}

/// Evaluation of one expression under a recursion budget.
pub fn eval_fuel(expr: &Expr, env: &mut Environment, fuel: u64) -> (r: EvalResult)
    ensures
        (r@, final(env)@) == eval_s(expr.view(), old(env)@, fuel as nat),
    decreases fuel, 1int, 0int,
{
    match expr {
        Expr::Symbol(s) => {
            let none: Vec<Expr> = Vec::new();
            proof {
                assert(exprs_view(none@) =~= Seq::<ExprV>::empty());
            }
            evaluate_symbol(expr, s.as_str(), none.as_slice(), env, fuel)
        },
        Expr::FNum(_) => EvalResult::Expr(expr.clone_expr()),
        Expr::List(vals) => {
            proof {
                assert(expr.view()->List_0 =~= exprs_view(vals@));
            }
            if vals.len() == 0 {
                let e = Expr::List(Vec::new());
                proof {
                    assert(e.view()->List_0 =~= Seq::<ExprV>::empty());
                    assert(e.view() == ExprV::List(Seq::<ExprV>::empty()));
                }
                return EvalResult::Expr(e);
            }
            let sl = vals.as_slice();
            let rest = &sl[1..sl.len()];
            proof {
                assert(exprs_view(rest@) =~= exprs_view(vals@).subrange(
                    1,
                    exprs_view(vals@).len() as int,
                ));
            }
            match &vals[0] {
                Expr::Symbol(s) => {
                    if sym_is(s, "+") {
                        do_math(rest, env, "+", fuel)
                    } else if sym_is(s, "-") {
                        do_math(rest, env, "-", fuel)
                    } else if sym_is(s, "*") {
                        do_math(rest, env, "*", fuel)
                    } else if sym_is(s, "/") {
                        do_math(rest, env, "/", fuel)
                    } else if sym_is(s, "or") {
                        do_boolean(rest, env, "or", fuel)
                    } else if sym_is(s, "and") {
                        do_boolean(rest, env, "and", fuel)
                    } else if sym_is(s, "not") {
                        do_boolean(rest, env, "not", fuel)
                    } else if sym_is(s, "=") {
                        do_equality(rest, env, "=", fuel)
                    } else if sym_is(s, "!=") {
                        do_equality(rest, env, "!=", fuel)
                    } else if sym_is(s, "if") {
                        if_statement(rest, env, fuel)
                    } else if sym_is(s, "let") {
                        add_var_to_env(rest, env, fuel)
                    } else if sym_is(s, "fn") {
                        add_fun_to_env(rest, env)
                    } else if sym_is(s, "print") {
                        print(rest, env, fuel)
                    } else if env.contains_key(s.as_str()) {
                        evaluate_symbol(expr, s.as_str(), rest, env, fuel)
                    } else {
                        eval_list(sl, env, fuel)
                    }
                },
                _ => eval_list(sl, env, fuel),
            }
        },
    }
}

/// Implicit list construction over all elements of a list.
pub fn eval_list(items: &[Expr], env: &mut Environment, fuel: u64) -> (r: EvalResult)
    ensures
        (r@, final(env)@) == list_s(exprs_view(items@), old(env)@, fuel as nat),
    decreases fuel, 0int, items@.len() + 1,
{
    match list_elems(items, env, fuel) {
        Err(m) => EvalResult::Error(m),
        Ok(v) => {
            let ghost snap = exprs_view(v@);
            let e = Expr::List(v);
            proof {
                assert(e.view()->List_0 =~= snap);
                assert(e.view() == ExprV::List(snap));
            }
            EvalResult::Expr(e)
        },
    }
}

/// The recursion budget the public evaluator runs with: deep enough that
/// the machine stack is exhausted long before the budget is.
pub const MAX_FUEL: u64 = 0xffff_ffff_ffff_ffff;

/// Evaluate the given expression against the given environment.
pub fn eval(expr: &Expr, env: &mut Environment) -> (r: EvalResult)
    ensures
        (r@, final(env)@) == eval_s(expr.view(), old(env)@, MAX_FUEL as nat),
{
    eval_fuel(expr, env, MAX_FUEL)
}

/// The text the `print` form shows for one expression. Values are not
/// evaluated; the environment is read, never changed.
pub fn gen_print_output(expr: &Expr, env: &mut Environment) -> (r: String)
    ensures
        r@ == gen_print_s(expr.view(), old(env)@.contexts, MAX_FUEL as nat),
        final(env)@ == old(env)@,
{
    gen_fuel(expr, env, MAX_FUEL)
}

/// An unbound symbol evaluates to itself, whatever the budget, and the
/// environment is untouched; and every unbound symbol other than
/// `False` counts as true when used as a predicate.
pub proof fn lemma_unbound_symbol(s: Seq<char>, env: EnvV, fuel: nat)
    requires
        env_lookup(env.contexts, s) is None,
    ensures
        eval_s(ExprV::Symbol(s), env, fuel) == (EvalResultV::Expr(ExprV::Symbol(s)), env),
        s != "False"@ ==> spec_truthy(ExprV::Symbol(s)) == Some(true),
{
    assert(eval_s(ExprV::Symbol(s), env, fuel) == apply_symbol_s(
        ExprV::Symbol(s),
        s,
        Seq::empty(),
        env,
        fuel,
    ));
}

/// Applying a function to the wrong number of arguments always fails
/// with the message naming both counts, before any argument is
/// evaluated: the environment comes back exactly as it was, so no
/// parameter is ever partially bound.
pub proof fn lemma_arity_mismatch(
    orig: ExprV,
    s: Seq<char>,
    args: Seq<ExprV>,
    env: EnvV,
    fuel: nat,
    params: Seq<Seq<char>>,
    body: ExprV,
)
    requires
        env_lookup(env.contexts, s) == Some((params, body)),
        params.len() > 0,
        params.len() != args.len(),
    ensures
        apply_symbol_s(orig, s, args, env, fuel) == (
            EvalResultV::Error(arity_msg(params.len(), args.len())),
            env,
        ),
{
}

/// An unbound symbol other than `False` used as the predicate of a
/// conditional sends evaluation into the `then` branch.
pub proof fn lemma_unbound_symbol_predicate(vals: Seq<ExprV>, s: Seq<char>, env: EnvV, fuel: nat)
    requires
        vals.len() == 3,
        vals[0] == ExprV::Symbol(s),
        env_lookup(env.contexts, s) is None,
        s != "False"@,
        fuel > 0,
    ensures
        if_s(vals, env, fuel) == eval_s(vals[1], env, (fuel - 1) as nat),
{
    lemma_unbound_symbol(s, env, (fuel - 1) as nat);
    lemma_if_branch(vals, env, fuel, ExprV::Symbol(s), env, true);
}

/// The conditional evaluates exactly one branch: once the predicate has
/// been evaluated, the whole outcome is the outcome of the chosen branch
/// alone, so the untaken branch contributes nothing — not even output.
pub proof fn lemma_if_branch(
    vals: Seq<ExprV>,
    env: EnvV,
    fuel: nat,
    pv: ExprV,
    env1: EnvV,
    t: bool,
)
    requires
        vals.len() == 3,
        fuel > 0,
        eval_s(vals[0], env, (fuel - 1) as nat) == (EvalResultV::Expr(pv), env1),
        spec_truthy(pv) == Some(t),
    ensures
        if_s(vals, env, fuel) == if t {
            eval_s(vals[1], env1, (fuel - 1) as nat)
        } else {
            eval_s(vals[2], env1, (fuel - 1) as nat)
        },
{
}

/// Joining one more part appends one space and the part.
proof fn lemma_join_push(parts: Seq<Seq<char>>, last: Seq<char>)
    requires
        parts.len() >= 1,
    ensures
        join_space(parts.push(last)) == join_space(parts) + " "@ + last,
    decreases parts.len(),
{
    if parts.len() == 1 {
        assert(parts.push(last).subrange(1, 2) =~= seq![last]);
        assert(join_space(seq![last]) == last);
        assert(join_space(parts.push(last)) =~= parts[0] + " "@ + last);
    } else {
        let tail = parts.subrange(1, parts.len() as int);
        lemma_join_push(tail, last);
        assert(parts.push(last).subrange(1, parts.len() as int + 1) =~= tail.push(last));
        assert(join_space(parts.push(last)) == parts[0] + " "@ + join_space(tail.push(last)));
        assert(join_space(parts) + " "@ + last =~= parts[0] + " "@ + (join_space(tail) + " "@
            + last));
    }
}

} // verus!
