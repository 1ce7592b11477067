//! The value of a gauge as an arithmetic expression.
//!
//! Gauges report floating-point numbers. What such a number is made of, and
//! in which order, is fixed here; the rounding is left to whoever evaluates
//! the expression.
use crate::text;
use vstd::prelude::*;

verus! {

/// An arithmetic expression over whole numbers and decimal texts.
#[derive(Debug)]
pub enum Formula {
    Whole(u128),
    /// A number as it was written; `text::is_decimal_text` says which texts
    /// are numbers.
    Literal(String),
    Product(Box<Formula>, Box<Formula>),
    Quotient(Box<Formula>, Box<Formula>),
    Difference(Box<Formula>, Box<Formula>),
    /// The larger of two values.
    Larger(Box<Formula>, Box<Formula>),
}

/// What a `Formula` says.
#[verifier::ext_equal]
pub enum Expr {
    Whole(nat),
    Literal(Seq<char>),
    Product(Box<Expr>, Box<Expr>),
    Quotient(Box<Expr>, Box<Expr>),
    Difference(Box<Expr>, Box<Expr>),
    Larger(Box<Expr>, Box<Expr>),
}

impl Expr {
    pub open spec fn times(self, other: Expr) -> Expr {
        Expr::Product(Box::new(self), Box::new(other))
    }

    pub open spec fn over(self, other: Expr) -> Expr {
        Expr::Quotient(Box::new(self), Box::new(other))
    }

    pub open spec fn minus(self, other: Expr) -> Expr {
        Expr::Difference(Box::new(self), Box::new(other))
    }

    pub open spec fn or_larger(self, other: Expr) -> Expr {
        Expr::Larger(Box::new(self), Box::new(other))
    }

    /// Every text in the expression writes a number.
    pub open spec fn readable(self) -> bool
        decreases self,
    {
        match self {
            Expr::Whole(_) => true,
            Expr::Literal(s) => text::is_decimal_text(s),
            Expr::Product(a, b) => a.readable() && b.readable(),
            Expr::Quotient(a, b) => a.readable() && b.readable(),
            Expr::Difference(a, b) => a.readable() && b.readable(),
            Expr::Larger(a, b) => a.readable() && b.readable(),
        }
    }

    /// The exact value of the expression, where `number` says what each text
    /// writes.
    pub open spec fn exact(self, number: spec_fn(Seq<char>) -> real) -> real
        decreases self,
    {
        match self {
            Expr::Whole(n) => n as real,
            Expr::Literal(s) => number(s),
            Expr::Product(a, b) => a.exact(number) * b.exact(number),
            Expr::Quotient(a, b) => a.exact(number) / b.exact(number),
            Expr::Difference(a, b) => a.exact(number) - b.exact(number),
            Expr::Larger(a, b) => if a.exact(number) >= b.exact(number) {
                a.exact(number)
            } else {
                b.exact(number)
            },
        }
    }

    /// The exact value of the expression, where each text is worth the number
    /// that it writes. An expression with a text that writes no number, such as
    /// infinity, has none; nothing is said of it here.
    pub open spec fn value(self) -> real {
        self.exact(|s: Seq<char>| text::decimal_value(s)->0)
    }
}

impl Formula {
    /// What the formula says; `@` is short for it.
    pub open spec fn model(self) -> Expr
        decreases self,
    {
        match self {
            Formula::Whole(n) => Expr::Whole(n as nat),
            Formula::Literal(s) => Expr::Literal(s@),
            Formula::Product(a, b) => a.model().times(b.model()),
            Formula::Quotient(a, b) => a.model().over(b.model()),
            Formula::Difference(a, b) => a.model().minus(b.model()),
            Formula::Larger(a, b) => a.model().or_larger(b.model()),
        }
    }
}

/// A formula says what it is made of: the numbers and texts themselves, and the
/// same operation on the same operands.
pub proof fn law_formula_says_its_parts(a: Formula, b: Formula, n: u128, s: String)
    ensures
        Formula::Whole(n).model() == Expr::Whole(n as nat),
        Formula::Literal(s).model() == Expr::Literal(s@),
        Formula::Product(Box::new(a), Box::new(b)).model() == Expr::Product(
            Box::new(a.model()),
            Box::new(b.model()),
        ),
        Formula::Quotient(Box::new(a), Box::new(b)).model() == Expr::Quotient(
            Box::new(a.model()),
            Box::new(b.model()),
        ),
        Formula::Difference(Box::new(a), Box::new(b)).model() == Expr::Difference(
            Box::new(a.model()),
            Box::new(b.model()),
        ),
        Formula::Larger(Box::new(a), Box::new(b)).model() == Expr::Larger(
            Box::new(a.model()),
            Box::new(b.model()),
        ),
        a@ == a.model(),
{
}

/// The value of an expression is the arithmetic that it writes.
pub proof fn law_value_is_arithmetic(
    a: Expr,
    b: Expr,
    n: nat,
    s: Seq<char>,
    number: spec_fn(Seq<char>) -> real,
)
    ensures
        Expr::Whole(n).exact(number) == n as real,
        Expr::Literal(s).exact(number) == number(s),
        a.times(b) == Expr::Product(Box::new(a), Box::new(b)),
        a.over(b) == Expr::Quotient(Box::new(a), Box::new(b)),
        a.minus(b) == Expr::Difference(Box::new(a), Box::new(b)),
        a.or_larger(b) == Expr::Larger(Box::new(a), Box::new(b)),
        a.times(b).exact(number) == a.exact(number) * b.exact(number),
        a.over(b).exact(number) == a.exact(number) / b.exact(number),
        a.minus(b).exact(number) == a.exact(number) - b.exact(number),
        a.or_larger(b).exact(number) >= a.exact(number),
        a.or_larger(b).exact(number) >= b.exact(number),
        a.or_larger(b).exact(number) == a.exact(number) || a.or_larger(b).exact(number) == b.exact(
            number,
        ),
{
}

impl View for Formula {
    type V = Expr;

    open spec fn view(&self) -> Expr {
        self.model()
    }
}

impl Clone for Formula {
    fn clone(&self) -> (r: Self)
        ensures
            r@ == self@,
        decreases self,
    {
        match self {
            Formula::Whole(n) => Formula::Whole(*n),
            Formula::Literal(s) => Formula::Literal(s.clone()),
            Formula::Product(a, b) => Formula::Product(
                Box::new((&**a).clone()),
                Box::new((&**b).clone()),
            ),
            Formula::Quotient(a, b) => Formula::Quotient(
                Box::new((&**a).clone()),
                Box::new((&**b).clone()),
            ),
            Formula::Difference(a, b) => Formula::Difference(
                Box::new((&**a).clone()),
                Box::new((&**b).clone()),
            ),
            Formula::Larger(a, b) => Formula::Larger(
                Box::new((&**a).clone()),
                Box::new((&**b).clone()),
            ),
        }
    }
}

impl Formula {
    pub fn times(self, other: Formula) -> (r: Formula)
        ensures
            r@ == self@.times(other@),
    {
        Formula::Product(Box::new(self), Box::new(other))
    }

    pub fn over(self, other: Formula) -> (r: Formula)
        ensures
            r@ == self@.over(other@),
    {
        Formula::Quotient(Box::new(self), Box::new(other))
    }

    pub fn minus(self, other: Formula) -> (r: Formula)
        ensures
            r@ == self@.minus(other@),
    {
        Formula::Difference(Box::new(self), Box::new(other))
    }

    pub fn or_larger(self, other: Formula) -> (r: Formula)
        ensures
            r@ == self@.or_larger(other@),
    {
        Formula::Larger(Box::new(self), Box::new(other))
    }
}

} // verus!
