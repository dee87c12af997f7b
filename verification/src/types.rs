//! The expression tree of the language: an immutable value with three
//! variants (symbol, number, list), together with its mathematical view
//! and the structural equality the language compares values with.
//!
//! Numbers are IEEE-754 double-precision values carried as their raw
//! 64-bit patterns, so that the logic here stays in integer arithmetic.

use vstd::prelude::*;

verus! {

broadcast use vstd::std_specs::vec::group_vec_axioms, vstd::seq::group_seq_axioms;

/// One node of the expression tree. A `FNum` carries the raw bit pattern
/// of an IEEE-754 double.
#[derive(Debug)]
pub enum Expr {
    Symbol(String),
    FNum(u64),
    List(Vec<Expr>),
}

/// The mathematical shape of an expression: strings become sequences of
/// characters, vectors become sequences.
#[verifier::ext_equal]
pub enum ExprV {
    Symbol(Seq<char>),
    FNum(u64),
    List(Seq<ExprV>),
}

impl Expr {
    /// The view of an expression: the same tree over `Seq` in place of
    /// `String` and `Vec`.
    pub open spec fn view(self) -> ExprV
        decreases self,
    {
        match self {
            Expr::Symbol(s) => ExprV::Symbol(s@),
            Expr::FNum(b) => ExprV::FNum(b),
            Expr::List(l) => ExprV::List(
                Seq::new(
                    l@.len(),
                    |i: int|
                        if 0 <= i < l@.len() {
                            l@[i].view()
                        } else {
                            ExprV::List(Seq::empty())
                        },
                ),
            ),
        }
    }

    /// Build a symbol node from its text.
    pub fn symbol(s: &str) -> (r: Expr)
        ensures
            r.view() == ExprV::Symbol(s@),
    {
        Expr::Symbol(String::from_str(s))
    }

    /// Build a number node from the bit pattern of a double.
    pub fn fnum(bits: u64) -> (r: Expr)
        ensures
            r.view() == ExprV::FNum(bits),
    {
        Expr::FNum(bits)
    }

    /// Build a list node from its (already built) elements.
    pub fn list(items: Vec<Expr>) -> (r: Expr)
        ensures
            r.view() == ExprV::List(exprs_view(items@)),
    {
        let ghost snap = items@;
        let e = Expr::List(items);
        proof {
            assert(e.view()->List_0 =~= exprs_view(snap));
            assert(e.view() == ExprV::List(exprs_view(snap)));
        }
        e
    }
}

/// The views of a sequence of expressions, element by element.
pub open spec fn exprs_view(l: Seq<Expr>) -> Seq<ExprV> {
    Seq::new(l.len(), |i: int| l[i].view())
}

/// Whether a double's bit pattern encodes a NaN: all exponent bits set
/// and a non-zero significand.
pub open spec fn spec_is_nan_bits(a: u64) -> bool {
    (a >> 52) & 0x7ff == 0x7ff && (a & 0xf_ffff_ffff_ffff) != 0
}

/// Whether a double's bit pattern encodes a zero of either sign.
pub open spec fn spec_is_zero_bits(a: u64) -> bool {
    a & 0x7fff_ffff_ffff_ffff == 0
}

/// IEEE-754 equality of two doubles given as bit patterns: a NaN equals
/// nothing, the two zeros equal each other, and all other values are
/// equal exactly when their bit patterns are.
pub open spec fn spec_fnum_eq(a: u64, b: u64) -> bool {
    &&& !spec_is_nan_bits(a)
    &&& !spec_is_nan_bits(b)
    &&& (a == b || (spec_is_zero_bits(a) && spec_is_zero_bits(b)))
}

/// IEEE-754 equality on raw bit patterns.
pub fn fnum_eq(a: u64, b: u64) -> (r: bool)
    ensures
        r == spec_fnum_eq(a, b),
{
    let a_nan = (a >> 52) & 0x7ff == 0x7ff && (a & 0xf_ffff_ffff_ffff) != 0;
    let b_nan = (b >> 52) & 0x7ff == 0x7ff && (b & 0xf_ffff_ffff_ffff) != 0;
    !a_nan && !b_nan && (a == b || (a & 0x7fff_ffff_ffff_ffff == 0 && b & 0x7fff_ffff_ffff_ffff
        == 0))
}

/// Structural equality of two expressions: symbols by name, numbers by
/// IEEE-754 equality, lists pairwise; different variants never compare
/// equal.
pub open spec fn spec_expr_eq(a: ExprV, b: ExprV) -> bool
    decreases a,
{
    match (a, b) {
        (ExprV::Symbol(x), ExprV::Symbol(y)) => x == y,
        (ExprV::FNum(x), ExprV::FNum(y)) => spec_fnum_eq(x, y),
        (ExprV::List(x), ExprV::List(y)) => x.len() == y.len() && (forall|i: int|
            0 <= i < x.len() ==> spec_expr_eq(#[trigger] x[i], y[i])),
        _ => false,
    }
}

impl Expr {
    /// Structural equality, as the language's equality operator compares
    /// values.
    pub fn eq_expr(&self, other: &Expr) -> (r: bool)
        ensures
            r == spec_expr_eq(self.view(), other.view()),
        decreases self,
    {
        match (self, other) {
            (Expr::Symbol(x), Expr::Symbol(y)) => *x == *y,
            (Expr::FNum(x), Expr::FNum(y)) => fnum_eq(*x, *y),
            (Expr::List(x), Expr::List(y)) => {
                proof {
                    assert(self.view()->List_0 =~= exprs_view(x@));
                    assert(other.view()->List_0 =~= exprs_view(y@));
                }
                if x.len() != y.len() {
                    return false;
                }
                let n = x.len();
                let mut i: usize = 0;
                while i < n
                    invariant
                        n == x@.len() == y@.len(),
                        i <= n,
                        *self == Expr::List(*x),
                        *other == Expr::List(*y),
                        self.view() == ExprV::List(exprs_view(x@)),
                        other.view() == ExprV::List(exprs_view(y@)),
                        forall|j: int|
                            0 <= j < i ==> spec_expr_eq(
                                #[trigger] exprs_view(x@)[j],
                                exprs_view(y@)[j],
                            ),
                    decreases n - i,
                {
                    proof {
                        assert(decreases_to!(Expr::List(*x) => *x));
                        assert(decreases_to!(*x => x@[i as int]));
                    }
                    if !x[i].eq_expr(&y[i]) {
                        proof {
                            assert(!spec_expr_eq(exprs_view(x@)[i as int], exprs_view(y@)[i as int]));
                        }
                        return false;
                    }
                    i += 1;
                }
                true
            },
            _ => false,
        }
    }

    /// A structural copy of the expression, with the same view.
    #[verifier::loop_isolation(false)]
    pub fn clone_expr(&self) -> (r: Expr)
        ensures
            r.view() == self.view(),
        decreases self,
    {
        match self {
            Expr::Symbol(s) => Expr::Symbol(s.clone()),
            Expr::FNum(b) => Expr::FNum(*b),
            Expr::List(l) => {
                let mut out: Vec<Expr> = Vec::new();
                let n = l.len();
                let mut i: usize = 0;
                while i < n
                    invariant
                        n == l@.len(),
                        i <= n,
                        out@.len() == i,
                        *self == Expr::List(*l),
                        forall|j: int| 0 <= j < i ==> (#[trigger] out@[j].view()) == l@[j].view(),
                    decreases n - i,
                {
                    proof {
                        assert(decreases_to!(*self => *l));
                        assert(decreases_to!(*l => l@[i as int]));
                    }
                    let c = l[i].clone_expr();
                    out.push(c);
                    i += 1;
                }
                let ghost snap = out@;
                let r = Expr::List(out);
                proof {
                    assert(r->List_0@ == snap);
                    assert(r.view()->List_0 =~= exprs_view(snap));
                    assert(self.view()->List_0 =~= exprs_view(l@));
                    assert(exprs_view(snap) =~= exprs_view(l@));
                    assert(self.view() == ExprV::List(self.view()->List_0));
                    assert(r.view() == ExprV::List(r.view()->List_0));
                }
                r
            },
        }
    }
}

} // verus!
