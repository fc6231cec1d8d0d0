//! The expression tree, its constructors and its queries.
//!
//! A tree is a value: every child belongs to one parent, nothing is shared
//! and nothing is changed in place. Two trees are equal when they have the
//! same shape and the same leaves, a constant by the patterns of its
//! components.
use vstd::prelude::*;
use vstd::std_specs::cmp::PartialEqSpecImpl;
use vstd::string::*;
use crate::binary64::{EULER, HALF, ONE, PI, TEN, THREE, TWO, ZERO};
use crate::number::number::{number_text_is_single_valued, Number};
use crate::unit::{legible, single_worded};

verus! {

/// A boxed tree: the child of a node.
pub type E = Box<Expr>;

/// A mathematical expression in any number of one-letter variables.
///
/// There is no node for the tangent: it is the quotient of a sine and a
/// cosine. `Gamma` can be built and printed, and nothing more is defined on
/// it.
#[derive(Debug)]
pub enum Expr {
    Const(Number),
    Var(char),
    Neg(E),
    Add(E, E),
    Sub(E, E),
    Mul(E, E),
    Div(E, E),
    Pow(E, E),
    Sin(E),
    Cos(E),
    Sinh(E),
    Cosh(E),
    Asin(E),
    Acos(E),
    Asinh(E),
    Acosh(E),
    Ln(E),
    Exp(E),
    Factorial(E),
    Gamma(E),
}

/// The functions of one operand that a node can apply.
#[derive(Clone, Copy, Debug, PartialEq, Eq, Structural)]
pub enum Func {
    Neg,
    Sin,
    Cos,
    Sinh,
    Cosh,
    Asin,
    Acos,
    Asinh,
    Acosh,
    Ln,
    Exp,
    Factorial,
    Gamma,
}

/// The operators of two operands that a node can apply.
#[derive(Clone, Copy, Debug, PartialEq, Eq, Structural)]
pub enum Oper {
    Add,
    Sub,
    Mul,
    Div,
    Pow,
}

/// A tree taken apart at its root: a leaf, or an operation and its operands.
#[derive(Debug)]
pub enum Node {
    Const(Number),
    Var(char),
    Unary(Func, Expr),
    Binary(Oper, Expr, Expr),
}

impl Expr {
    /// The root of the tree and its operands.
    pub open spec fn node(self) -> Node {
        match self {
            Expr::Const(c) => Node::Const(c),
            Expr::Var(x) => Node::Var(x),
            Expr::Neg(i) => Node::Unary(Func::Neg, *i),
            Expr::Sin(i) => Node::Unary(Func::Sin, *i),
            Expr::Cos(i) => Node::Unary(Func::Cos, *i),
            Expr::Sinh(i) => Node::Unary(Func::Sinh, *i),
            Expr::Cosh(i) => Node::Unary(Func::Cosh, *i),
            Expr::Asin(i) => Node::Unary(Func::Asin, *i),
            Expr::Acos(i) => Node::Unary(Func::Acos, *i),
            Expr::Asinh(i) => Node::Unary(Func::Asinh, *i),
            Expr::Acosh(i) => Node::Unary(Func::Acosh, *i),
            Expr::Ln(i) => Node::Unary(Func::Ln, *i),
            Expr::Exp(i) => Node::Unary(Func::Exp, *i),
            Expr::Factorial(i) => Node::Unary(Func::Factorial, *i),
            Expr::Gamma(i) => Node::Unary(Func::Gamma, *i),
            Expr::Add(l, r) => Node::Binary(Oper::Add, *l, *r),
            Expr::Sub(l, r) => Node::Binary(Oper::Sub, *l, *r),
            Expr::Mul(l, r) => Node::Binary(Oper::Mul, *l, *r),
            Expr::Div(l, r) => Node::Binary(Oper::Div, *l, *r),
            Expr::Pow(l, r) => Node::Binary(Oper::Pow, *l, *r),
        }
    }

    /// The node that applies `func` to `i`.
    pub open spec fn unary(func: Func, i: Expr) -> Expr {
        match func {
            Func::Neg => Expr::Neg(Box::new(i)),
            Func::Sin => Expr::Sin(Box::new(i)),
            Func::Cos => Expr::Cos(Box::new(i)),
            Func::Sinh => Expr::Sinh(Box::new(i)),
            Func::Cosh => Expr::Cosh(Box::new(i)),
            Func::Asin => Expr::Asin(Box::new(i)),
            Func::Acos => Expr::Acos(Box::new(i)),
            Func::Asinh => Expr::Asinh(Box::new(i)),
            Func::Acosh => Expr::Acosh(Box::new(i)),
            Func::Ln => Expr::Ln(Box::new(i)),
            Func::Exp => Expr::Exp(Box::new(i)),
            Func::Factorial => Expr::Factorial(Box::new(i)),
            Func::Gamma => Expr::Gamma(Box::new(i)),
        }
    }

    /// The node that applies `oper` to `l` and `r`.
    pub open spec fn binary(oper: Oper, l: Expr, r: Expr) -> Expr {
        match oper {
            Oper::Add => Expr::Add(Box::new(l), Box::new(r)),
            Oper::Sub => Expr::Sub(Box::new(l), Box::new(r)),
            Oper::Mul => Expr::Mul(Box::new(l), Box::new(r)),
            Oper::Div => Expr::Div(Box::new(l), Box::new(r)),
            Oper::Pow => Expr::Pow(Box::new(l), Box::new(r)),
        }
    }

    /// The number of a constant; the undefined number for any other tree.
    pub open spec fn number(self) -> Number {
        match self {
            Expr::Const(n) => n,
            _ => Number::NaN,
        }
    }

    /// The function of a node of one operand.
    pub open spec fn func(self) -> Func {
        match self.node() {
            Node::Unary(func, _) => func,
            _ => Func::Neg,
        }
    }

    /// The operator of a node of two operands.
    pub open spec fn oper(self) -> Oper {
        match self.node() {
            Node::Binary(oper, _, _) => oper,
            _ => Oper::Add,
        }
    }

    /// The operand of a node of one operand, the left operand of a node of
    /// two; a leaf gives itself.
    pub open spec fn first(self) -> Expr {
        match self.node() {
            Node::Unary(_, i) => i,
            Node::Binary(_, l, _) => l,
            _ => self,
        }
    }

    /// The right operand of a node of two operands; any other tree gives
    /// itself.
    pub open spec fn second(self) -> Expr {
        match self.node() {
            Node::Binary(_, _, r) => r,
            _ => self,
        }
    }

    /// The number of nodes of the tree.
    pub open spec fn size(self) -> nat
        decreases self,
    {
        match self {
            Expr::Const(_) => 1,
            Expr::Var(_) => 1,
            _ => if self.node() is Binary {
                1 + self.first().size() + self.second().size()
            } else {
                1 + self.first().size()
            },
        }
    }

    /// Does the variable `s` occur anywhere in the tree?
    pub open spec fn mentions(self, s: char) -> bool
        decreases self,
    {
        match self {
            Expr::Const(_) => false,
            Expr::Var(x) => x == s,
            _ => if self.node() is Binary {
                self.first().mentions(s) || self.second().mentions(s)
            } else {
                self.first().mentions(s)
            },
        }
    }

    /// The tree with every occurrence of the variable `from` replaced by the
    /// variable `to`.
    pub open spec fn renamed(self, from: char, to: char) -> Expr
        decreases self,
    {
        match self.node() {
            Node::Const(_) => self,
            Node::Var(x) => if x == from {
                Expr::Var(to)
            } else {
                self
            },
            Node::Unary(func, _) => Expr::unary(func, self.first().renamed(from, to)),
            Node::Binary(oper, _, _) => Expr::binary(
                oper,
                self.first().renamed(from, to),
                self.second().renamed(from, to),
            ),
        }
    }

    /// Written without parentheses where it stands as an operand: a
    /// variable, and a constant that is not complex.
    pub open spec fn atomic(self) -> bool {
        match self {
            Expr::Var(_) => true,
            Expr::Const(c) => !(c is Complex),
            _ => false,
        }
    }

    /// What stands before the operand of a node of one operand.
    pub open spec fn opening(self) -> Seq<char> {
        match self {
            Expr::Neg(_) => "-("@,
            Expr::Sin(_) => "sin("@,
            Expr::Cos(_) => "cos("@,
            Expr::Sinh(_) => "sinh("@,
            Expr::Cosh(_) => "cosh("@,
            Expr::Asin(_) => "asin("@,
            Expr::Acos(_) => "acos("@,
            Expr::Asinh(_) => "asinh("@,
            Expr::Acosh(_) => "acosh("@,
            Expr::Ln(_) => "ln("@,
            Expr::Exp(_) => "e^("@,
            Expr::Gamma(_) => "gamma("@,
            _ => "("@,
        }
    }

    /// What stands after the operand of a node of one operand.
    pub open spec fn closing(self) -> Seq<char> {
        match self {
            Expr::Factorial(_) => ")!"@,
            _ => ")"@,
        }
    }

    /// What stands between the operands of a node of two operands.
    pub open spec fn symbol(self) -> Seq<char> {
        match self {
            Expr::Add(_, _) => " + "@,
            Expr::Sub(_, _) => " - "@,
            Expr::Mul(_, _) => " * "@,
            Expr::Div(_, _) => " / "@,
            _ => "^"@,
        }
    }

    /// The text `p` of this tree where it stands as an operand: as it is if
    /// the tree is atomic, else in parentheses.
    pub open spec fn enclosed(self, p: Seq<char>) -> Seq<char> {
        if self.atomic() {
            p
        } else {
            "("@ + p + ")"@
        }
    }

    /// The text of a node of one operand whose operand has the text `p`.
    pub open spec fn framed(self, p: Seq<char>) -> Seq<char> {
        self.opening() + p + self.closing()
    }

    /// The text of a node of two operands whose operands have the texts `p`
    /// and `q`.
    pub open spec fn infixed(self, p: Seq<char>, q: Seq<char>) -> Seq<char> {
        self.first().enclosed(p) + self.symbol() + self.second().enclosed(q)
    }

    /// `s` is the text of the tree, its constants written by `show`.
    ///
    /// A variable is its letter. A node of one operand is the function's
    /// name and the operand in parentheses; the factorial puts its mark
    /// behind. A node of two operands is the operator between the operands,
    /// each in parentheses unless it is atomic, so that the text shows the
    /// tree's structure without any rule of precedence.
    pub open spec fn text<S: Fn(u64) -> String>(self, show: &S, s: Seq<char>) -> bool
        decreases self,
    {
        match self {
            Expr::Const(c) => c.text(show, s),
            Expr::Var(x) => s == seq![x],
            _ => if self.node() is Binary {
                exists|p: Seq<char>, q: Seq<char>|
                    self.first().text(show, p) && self.second().text(show, q) && s
                        == #[trigger] self.infixed(p, q)
            } else {
                exists|p: Seq<char>| self.first().text(show, p) && s == #[trigger] self.framed(p)
            },
        }
    }

    /// Takes the tree apart at its root.
    pub fn into_node(self) -> (n: Node)
        ensures
            n == self.node(),
    {
        match self {
            Expr::Const(c) => Node::Const(c),
            Expr::Var(x) => Node::Var(x),
            Expr::Neg(i) => Node::Unary(Func::Neg, *i),
            Expr::Sin(i) => Node::Unary(Func::Sin, *i),
            Expr::Cos(i) => Node::Unary(Func::Cos, *i),
            Expr::Sinh(i) => Node::Unary(Func::Sinh, *i),
            Expr::Cosh(i) => Node::Unary(Func::Cosh, *i),
            Expr::Asin(i) => Node::Unary(Func::Asin, *i),
            Expr::Acos(i) => Node::Unary(Func::Acos, *i),
            Expr::Asinh(i) => Node::Unary(Func::Asinh, *i),
            Expr::Acosh(i) => Node::Unary(Func::Acosh, *i),
            Expr::Ln(i) => Node::Unary(Func::Ln, *i),
            Expr::Exp(i) => Node::Unary(Func::Exp, *i),
            Expr::Factorial(i) => Node::Unary(Func::Factorial, *i),
            Expr::Gamma(i) => Node::Unary(Func::Gamma, *i),
            Expr::Add(l, r) => Node::Binary(Oper::Add, *l, *r),
            Expr::Sub(l, r) => Node::Binary(Oper::Sub, *l, *r),
            Expr::Mul(l, r) => Node::Binary(Oper::Mul, *l, *r),
            Expr::Div(l, r) => Node::Binary(Oper::Div, *l, *r),
            Expr::Pow(l, r) => Node::Binary(Oper::Pow, *l, *r),
        }
    }

    /// Builds the node that applies `func` to `i`.
    pub fn apply(func: Func, i: Expr) -> (r: Expr)
        ensures
            r == Expr::unary(func, i),
            r.node() == Node::Unary(func, i),
    {
        match func {
            Func::Neg => Expr::Neg(Box::new(i)),
            Func::Sin => Expr::Sin(Box::new(i)),
            Func::Cos => Expr::Cos(Box::new(i)),
            Func::Sinh => Expr::Sinh(Box::new(i)),
            Func::Cosh => Expr::Cosh(Box::new(i)),
            Func::Asin => Expr::Asin(Box::new(i)),
            Func::Acos => Expr::Acos(Box::new(i)),
            Func::Asinh => Expr::Asinh(Box::new(i)),
            Func::Acosh => Expr::Acosh(Box::new(i)),
            Func::Ln => Expr::Ln(Box::new(i)),
            Func::Exp => Expr::Exp(Box::new(i)),
            Func::Factorial => Expr::Factorial(Box::new(i)),
            Func::Gamma => Expr::Gamma(Box::new(i)),
        }
    }

    /// Builds the node that applies `oper` to `l` and `r`.
    pub fn combine(oper: Oper, l: Expr, r: Expr) -> (out: Expr)
        ensures
            out == Expr::binary(oper, l, r),
            out.node() == Node::Binary(oper, l, r),
    {
        match oper {
            Oper::Add => Expr::Add(Box::new(l), Box::new(r)),
            Oper::Sub => Expr::Sub(Box::new(l), Box::new(r)),
            Oper::Mul => Expr::Mul(Box::new(l), Box::new(r)),
            Oper::Div => Expr::Div(Box::new(l), Box::new(r)),
            Oper::Pow => Expr::Pow(Box::new(l), Box::new(r)),
        }
    }

    /// Is the root a constant?
    pub fn is_const(&self) -> (r: bool)
        ensures
            r == (*self is Const),
    {
        match self {
            Expr::Const(_) => true,
            _ => false,
        }
    }

    /// Is the root a variable?
    pub fn is_var(&self) -> (r: bool)
        ensures
            r == (*self is Var),
    {
        match self {
            Expr::Var(_) => true,
            _ => false,
        }
    }

    /// Is the root an operation: neither a constant nor a variable?
    pub fn is_op(&self) -> (r: bool)
        ensures
            r == !(*self is Const || *self is Var),
    {
        match self {
            Expr::Const(_) => false,
            Expr::Var(_) => false,
            _ => true,
        }
    }

    /// Does the variable `s` occur anywhere in the tree?
    pub fn has_var(&self, s: char) -> (r: bool)
        ensures
            r == self.mentions(s),
        decreases *self,
    {
        match self {
            Expr::Const(_) => false,
            Expr::Var(x) => s == *x,
            Expr::Neg(i)
            | Expr::Sin(i)
            | Expr::Cos(i)
            | Expr::Sinh(i)
            | Expr::Cosh(i)
            | Expr::Asin(i)
            | Expr::Acos(i)
            | Expr::Asinh(i)
            | Expr::Acosh(i)
            | Expr::Ln(i)
            | Expr::Exp(i)
            | Expr::Factorial(i)
            | Expr::Gamma(i) => i.has_var(s),
            Expr::Add(l, r)
            | Expr::Sub(l, r)
            | Expr::Mul(l, r)
            | Expr::Div(l, r)
            | Expr::Pow(l, r) => l.has_var(s) || r.has_var(s),
        }
    }

    /// The tree with every occurrence of the variable `sym1` replaced by the
    /// variable `sym2`.
    pub fn substitute(&self, sym1: char, sym2: char) -> (r: Expr)
        ensures
            r == self.renamed(sym1, sym2),
        decreases *self,
    {
        match self {
            Expr::Const(c) => Expr::Const(*c),
            Expr::Var(x) => if *x == sym1 {
                Expr::Var(sym2)
            } else {
                Expr::Var(*x)
            },
            Expr::Neg(i) => neg(i.substitute(sym1, sym2)),
            Expr::Sin(i) => sin(i.substitute(sym1, sym2)),
            Expr::Cos(i) => cos(i.substitute(sym1, sym2)),
            Expr::Sinh(i) => sinh(i.substitute(sym1, sym2)),
            Expr::Cosh(i) => cosh(i.substitute(sym1, sym2)),
            Expr::Asin(i) => asin(i.substitute(sym1, sym2)),
            Expr::Acos(i) => acos(i.substitute(sym1, sym2)),
            Expr::Asinh(i) => asinh(i.substitute(sym1, sym2)),
            Expr::Acosh(i) => acosh(i.substitute(sym1, sym2)),
            Expr::Ln(i) => ln(i.substitute(sym1, sym2)),
            Expr::Exp(i) => exp(i.substitute(sym1, sym2)),
            Expr::Factorial(i) => factorial(i.substitute(sym1, sym2)),
            Expr::Gamma(i) => gamma(i.substitute(sym1, sym2)),
            Expr::Add(l, r) => self::add(l.substitute(sym1, sym2), r.substitute(sym1, sym2)),
            Expr::Sub(l, r) => self::sub(l.substitute(sym1, sym2), r.substitute(sym1, sym2)),
            Expr::Mul(l, r) => self::mul(l.substitute(sym1, sym2), r.substitute(sym1, sym2)),
            Expr::Div(l, r) => div(l.substitute(sym1, sym2), r.substitute(sym1, sym2)),
            Expr::Pow(l, r) => pow(l.substitute(sym1, sym2), r.substitute(sym1, sym2)),
        }
    }

    /// The text of the tree, its constants written by `show`.
    pub fn to_string<S: Fn(u64) -> String>(&self, show: &S) -> (r: String)
        requires
            legible(show),
        ensures
            self.text(show, r@),
        decreases *self,
    {
        match self {
            Expr::Const(c) => c.to_string(show),
            Expr::Var(x) => letter(*x),
            Expr::Neg(i)
            | Expr::Sin(i)
            | Expr::Cos(i)
            | Expr::Sinh(i)
            | Expr::Cosh(i)
            | Expr::Asin(i)
            | Expr::Acos(i)
            | Expr::Asinh(i)
            | Expr::Acosh(i)
            | Expr::Ln(i)
            | Expr::Exp(i)
            | Expr::Factorial(i)
            | Expr::Gamma(i) => {
                let p = i.to_string(show);
                let r = frame(self.opening_str(), &p, self.closing_str());
                assert(r@ == self.framed(p@));
                r
            },
            Expr::Add(l, r)
            | Expr::Sub(l, r)
            | Expr::Mul(l, r)
            | Expr::Div(l, r)
            | Expr::Pow(l, r) => {
                let p = l.to_string(show);
                let q = r.to_string(show);
                let out = infix(l, &p, self.symbol_str(), r, &q);
                assert(out@ == self.infixed(p@, q@));
                out
            },
        }
    }

    /// What stands before the operand of a node of one operand.
    fn opening_str(&self) -> (r: &'static str)
        ensures
            r@ == self.opening(),
    {
        match self {
            Expr::Neg(_) => "-(",
            Expr::Sin(_) => "sin(",
            Expr::Cos(_) => "cos(",
            Expr::Sinh(_) => "sinh(",
            Expr::Cosh(_) => "cosh(",
            Expr::Asin(_) => "asin(",
            Expr::Acos(_) => "acos(",
            Expr::Asinh(_) => "asinh(",
            Expr::Acosh(_) => "acosh(",
            Expr::Ln(_) => "ln(",
            Expr::Exp(_) => "e^(",
            Expr::Gamma(_) => "gamma(",
            _ => "(",
        }
    }

    /// What stands after the operand of a node of one operand.
    fn closing_str(&self) -> (r: &'static str)
        ensures
            r@ == self.closing(),
    {
        match self {
            Expr::Factorial(_) => ")!",
            _ => ")",
        }
    }

    /// What stands between the operands of a node of two operands.
    fn symbol_str(&self) -> (r: &'static str)
        ensures
            r@ == self.symbol(),
    {
        match self {
            Expr::Add(_, _) => " + ",
            Expr::Sub(_, _) => " - ",
            Expr::Mul(_, _) => " * ",
            Expr::Div(_, _) => " / ",
            _ => "^",
        }
    }

    /// Is the tree written without parentheses as an operand?
    fn is_atomic(&self) -> (r: bool)
        ensures
            r == self.atomic(),
    {
        match self {
            Expr::Var(_) => true,
            Expr::Const(c) => match c {
                Number::Complex(_, _) => false,
                _ => true,
            },
            _ => false,
        }
    }

    /// A boxed copy of the tree.
    pub fn pack(&self) -> (r: E)
        ensures
            *r == *self,
    {
        Box::new(self.clone())
    }
}

impl Clone for Expr {
    /// A deep copy: equal to the tree it was made from.
    fn clone(&self) -> (r: Self)
        ensures
            r == *self,
        decreases *self,
    {
        match self {
            Expr::Const(c) => Expr::Const(*c),
            Expr::Var(x) => Expr::Var(*x),
            Expr::Neg(i) => Expr::Neg(Box::new((**i).clone())),
            Expr::Sin(i) => Expr::Sin(Box::new((**i).clone())),
            Expr::Cos(i) => Expr::Cos(Box::new((**i).clone())),
            Expr::Sinh(i) => Expr::Sinh(Box::new((**i).clone())),
            Expr::Cosh(i) => Expr::Cosh(Box::new((**i).clone())),
            Expr::Asin(i) => Expr::Asin(Box::new((**i).clone())),
            Expr::Acos(i) => Expr::Acos(Box::new((**i).clone())),
            Expr::Asinh(i) => Expr::Asinh(Box::new((**i).clone())),
            Expr::Acosh(i) => Expr::Acosh(Box::new((**i).clone())),
            Expr::Ln(i) => Expr::Ln(Box::new((**i).clone())),
            Expr::Exp(i) => Expr::Exp(Box::new((**i).clone())),
            Expr::Factorial(i) => Expr::Factorial(Box::new((**i).clone())),
            Expr::Gamma(i) => Expr::Gamma(Box::new((**i).clone())),
            Expr::Add(l, r) => Expr::Add(Box::new((**l).clone()), Box::new((**r).clone())),
            Expr::Sub(l, r) => Expr::Sub(Box::new((**l).clone()), Box::new((**r).clone())),
            Expr::Mul(l, r) => Expr::Mul(Box::new((**l).clone()), Box::new((**r).clone())),
            Expr::Div(l, r) => Expr::Div(Box::new((**l).clone()), Box::new((**r).clone())),
            Expr::Pow(l, r) => Expr::Pow(Box::new((**l).clone()), Box::new((**r).clone())),
        }
    }
}

impl PartialEq for Expr {
    /// Equality of shape and leaves.
    fn eq(&self, other: &Self) -> (r: bool)
        decreases *self,
    {
        match (self, other) {
            (Expr::Const(a), Expr::Const(b)) => *a == *b,
            (Expr::Var(a), Expr::Var(b)) => *a == *b,
            (Expr::Neg(a), Expr::Neg(b))
            | (Expr::Sin(a), Expr::Sin(b))
            | (Expr::Cos(a), Expr::Cos(b))
            | (Expr::Sinh(a), Expr::Sinh(b))
            | (Expr::Cosh(a), Expr::Cosh(b))
            | (Expr::Asin(a), Expr::Asin(b))
            | (Expr::Acos(a), Expr::Acos(b))
            | (Expr::Asinh(a), Expr::Asinh(b))
            | (Expr::Acosh(a), Expr::Acosh(b))
            | (Expr::Ln(a), Expr::Ln(b))
            | (Expr::Exp(a), Expr::Exp(b))
            | (Expr::Factorial(a), Expr::Factorial(b))
            | (Expr::Gamma(a), Expr::Gamma(b)) => (**a).eq(&**b),
            (Expr::Add(a, c), Expr::Add(b, d))
            | (Expr::Sub(a, c), Expr::Sub(b, d))
            | (Expr::Mul(a, c), Expr::Mul(b, d))
            | (Expr::Div(a, c), Expr::Div(b, d))
            | (Expr::Pow(a, c), Expr::Pow(b, d)) => (**a).eq(&**b) && (**c).eq(&**d),
            _ => false,
        }
    }
}

impl PartialEqSpecImpl for Expr {
    /// `==` on trees means what `eq_spec` says.
    open spec fn obeys_eq_spec() -> bool {
        true
    }

    /// Two trees are equal when they are the same tree.
    open spec fn eq_spec(&self, other: &Expr) -> bool {
        *self == *other
    }
}

impl Eq for Expr {

}

/// Replacing a variable by itself changes nothing.
pub proof fn renaming_to_itself(e: Expr, s: char)
    ensures
        e.renamed(s, s) == e,
    decreases e,
{
    match e.node() {
        Node::Unary(_, i) => {
            renaming_to_itself(i, s);
        },
        Node::Binary(_, l, r) => {
            renaming_to_itself(l, s);
            renaming_to_itself(r, s);
        },
        _ => {},
    }
}

/// Replacing a variable that does not occur changes nothing.
pub proof fn renaming_an_absent_variable(e: Expr, from: char, to: char)
    requires
        !e.mentions(from),
    ensures
        e.renamed(from, to) == e,
    decreases e,
{
    match e.node() {
        Node::Unary(_, i) => {
            renaming_an_absent_variable(i, from, to);
        },
        Node::Binary(_, l, r) => {
            renaming_an_absent_variable(l, from, to);
            renaming_an_absent_variable(r, from, to);
        },
        _ => {},
    }
}

/// After a variable has been replaced by another it occurs no more, the new
/// one occurs if and only if either did, and every other variable occurs as
/// before.
pub proof fn renaming_moves_occurrences(e: Expr, from: char, to: char, c: char)
    requires
        from != to,
    ensures
        !e.renamed(from, to).mentions(from),
        e.renamed(from, to).mentions(to) <==> e.mentions(from) || e.mentions(to),
        c != from && c != to ==> (e.renamed(from, to).mentions(c) <==> e.mentions(c)),
    decreases e,
{
    match e.node() {
        Node::Unary(_, i) => {
            renaming_moves_occurrences(i, from, to, c);
        },
        Node::Binary(_, l, r) => {
            renaming_moves_occurrences(l, from, to, c);
            renaming_moves_occurrences(r, from, to, c);
        },
        _ => {},
    }
}

/// With a formatter that is a function, a tree has one text.
pub proof fn text_is_single_valued<S: Fn(u64) -> String>(
    show: &S,
    e: Expr,
    s1: Seq<char>,
    s2: Seq<char>,
)
    requires
        single_worded(show),
        e.text(show, s1),
        e.text(show, s2),
    ensures
        s1 == s2,
    decreases e,
{
    match e {
        Expr::Const(c) => {
            number_text_is_single_valued(show, c, s1, s2);
        },
        Expr::Var(_) => {},
        _ => {
            if e.node() is Binary {
                let (p1, q1) = choose|p: Seq<char>, q: Seq<char>|
                    e.first().text(show, p) && e.second().text(show, q) && s1
                        == #[trigger] e.infixed(p, q);
                let (p2, q2) = choose|p: Seq<char>, q: Seq<char>|
                    e.first().text(show, p) && e.second().text(show, q) && s2
                        == #[trigger] e.infixed(p, q);
                text_is_single_valued(show, e.first(), p1, p2);
                text_is_single_valued(show, e.second(), q1, q2);
            } else {
                let p1 = choose|p: Seq<char>|
                    e.first().text(show, p) && s1 == #[trigger] e.framed(p);
                let p2 = choose|p: Seq<char>|
                    e.first().text(show, p) && s2 == #[trigger] e.framed(p);
                text_is_single_valued(show, e.first(), p1, p2);
            }
        },
    }
}

/// The text of one letter, by `String::from` of a `char`: a string that holds
/// that character and nothing else.
#[verifier::external_body]
fn letter(c: char) -> (r: String)
    ensures
        r@ == seq![c],
{
    String::from(c)
}

/// `body` between `before` and `after`.
fn frame(before: &str, body: &String, after: &str) -> (r: String)
    ensures
        r@ == before@ + body@ + after@,
{
    let mut out = String::from_str(before);
    out.append(body.as_str());
    out.append(after);
    out
}

/// The text of an operand: in parentheses unless the operand is atomic.
fn operand(e: &Expr, p: &String) -> (r: String)
    ensures
        r@ == e.enclosed(p@),
{
    if e.is_atomic() {
        p.clone()
    } else {
        frame("(", p, ")")
    }
}

/// Two operands and what stands between them.
fn infix(l: &Expr, p: &String, between: &str, r: &Expr, q: &String) -> (out: String)
    ensures
        out@ == l.enclosed(p@) + between@ + r.enclosed(q@),
{
    let mut out = operand(l, p);
    let right = operand(r, q);
    out.append(between);
    out.append(right.as_str());
    out
}

/// Boxes a tree.
pub fn pack(e: Expr) -> (r: E)
    ensures
        *r == e,
{
    Box::new(e)
}

/// A copy of the tree in a box.
pub fn unpack(e: &E) -> (r: Expr)
    ensures
        r == **e,
{
    (**e).clone()
}

/// The undefined constant.
pub fn nan() -> (r: Expr)
    ensures
        r == Expr::Const(Number::NaN),
{
    Expr::Const(Number::NaN)
}

/// The constant zero.
pub fn zero() -> (r: Expr)
    ensures
        r == Expr::Const(Number::Real(ZERO)),
{
    Expr::Const(Number::Real(ZERO))
}

/// The constant one.
pub fn one() -> (r: Expr)
    ensures
        r == Expr::Const(Number::Real(ONE)),
{
    Expr::Const(Number::Real(ONE))
}

/// The constant two.
pub fn two() -> (r: Expr)
    ensures
        r == Expr::Const(Number::Real(TWO)),
{
    Expr::Const(Number::Real(TWO))
}

/// The circle constant, to eleven decimal places.
pub fn pi() -> (r: Expr)
    ensures
        r == Expr::Const(Number::Real(PI)),
{
    Expr::Const(Number::Real(PI))
}

/// The base of the natural logarithm, to eleven decimal places.
pub fn e() -> (r: Expr)
    ensures
        r == Expr::Const(Number::Real(EULER)),
{
    Expr::Const(Number::Real(EULER))
}

/// The real constant with the pattern `v`.
pub fn con(v: u64) -> (r: Expr)
    ensures
        r == Expr::Const(Number::Real(v)),
{
    Expr::Const(Number::Real(v))
}

/// The variable `c`.
pub fn var(c: char) -> (r: Expr)
    ensures
        r == Expr::Var(c),
{
    Expr::Var(c)
}

/// The variable `c` times the real constant with the pattern `v`.
pub fn varf(c: char, v: u64) -> (r: Expr)
    ensures
        r == Expr::Mul(Box::new(Expr::Const(Number::Real(v))), Box::new(Expr::Var(c))),
{
    self::mul(con(v), var(c))
}

/// The negation of `e`: always a `Neg` node.
pub fn neg(e: Expr) -> (r: Expr)
    ensures
        r == Expr::Neg(Box::new(e)),
{
    Expr::Neg(Box::new(e))
}

/// The exponential of `e`.
pub fn exp(e: Expr) -> (r: Expr)
    ensures
        r == Expr::Exp(Box::new(e)),
{
    Expr::Exp(Box::new(e))
}

/// The sum of `l` and `r`.
pub fn add(l: Expr, r: Expr) -> (out: Expr)
    ensures
        out == Expr::Add(Box::new(l), Box::new(r)),
{
    Expr::Add(Box::new(l), Box::new(r))
}

/// The difference of `l` and `r`.
pub fn sub(l: Expr, r: Expr) -> (out: Expr)
    ensures
        out == Expr::Sub(Box::new(l), Box::new(r)),
{
    Expr::Sub(Box::new(l), Box::new(r))
}

/// The product of `l` and `r`.
pub fn mul(l: Expr, r: Expr) -> (out: Expr)
    ensures
        out == Expr::Mul(Box::new(l), Box::new(r)),
{
    Expr::Mul(Box::new(l), Box::new(r))
}

/// The quotient of `l` and `r`.
pub fn div(l: Expr, r: Expr) -> (out: Expr)
    ensures
        out == Expr::Div(Box::new(l), Box::new(r)),
{
    Expr::Div(Box::new(l), Box::new(r))
}

/// `l` raised to `r`.
pub fn pow(l: Expr, r: Expr) -> (out: Expr)
    ensures
        out == Expr::Pow(Box::new(l), Box::new(r)),
{
    Expr::Pow(Box::new(l), Box::new(r))
}

/// `l` raised to the real constant with the pattern `f`.
pub fn powf(l: Expr, f: u64) -> (out: Expr)
    ensures
        out == Expr::Pow(Box::new(l), Box::new(Expr::Const(Number::Real(f)))),
{
    Expr::Pow(Box::new(l), Box::new(con(f)))
}

/// The square root of `e`: `e` raised to one half.
pub fn sqrt(e: Expr) -> (r: Expr)
    ensures
        r == Expr::Pow(Box::new(e), Box::new(Expr::Const(Number::Real(HALF)))),
{
    powf(e, HALF)
}

/// `e` squared: `e` raised to two.
pub fn square(e: Expr) -> (r: Expr)
    ensures
        r == Expr::Pow(Box::new(e), Box::new(Expr::Const(Number::Real(TWO)))),
{
    powf(e, TWO)
}

/// `e` cubed: `e` raised to three.
pub fn cube(e: Expr) -> (r: Expr)
    ensures
        r == Expr::Pow(Box::new(e), Box::new(Expr::Const(Number::Real(THREE)))),
{
    powf(e, THREE)
}

/// The sine of `e`.
pub fn sin(e: Expr) -> (r: Expr)
    ensures
        r == Expr::Sin(Box::new(e)),
{
    Expr::Sin(Box::new(e))
}

/// The cosine of `e`.
pub fn cos(e: Expr) -> (r: Expr)
    ensures
        r == Expr::Cos(Box::new(e)),
{
    Expr::Cos(Box::new(e))
}

/// The hyperbolic sine of `e`.
pub fn sinh(e: Expr) -> (r: Expr)
    ensures
        r == Expr::Sinh(Box::new(e)),
{
    Expr::Sinh(Box::new(e))
}

/// The hyperbolic cosine of `e`.
pub fn cosh(e: Expr) -> (r: Expr)
    ensures
        r == Expr::Cosh(Box::new(e)),
{
    Expr::Cosh(Box::new(e))
}

/// The arc sine of `e`.
pub fn asin(e: Expr) -> (r: Expr)
    ensures
        r == Expr::Asin(Box::new(e)),
{
    Expr::Asin(Box::new(e))
}

/// The arc cosine of `e`.
pub fn acos(e: Expr) -> (r: Expr)
    ensures
        r == Expr::Acos(Box::new(e)),
{
    Expr::Acos(Box::new(e))
}

/// The inverse hyperbolic sine of `e`.
pub fn asinh(e: Expr) -> (r: Expr)
    ensures
        r == Expr::Asinh(Box::new(e)),
{
    Expr::Asinh(Box::new(e))
}

/// The inverse hyperbolic cosine of `e`.
pub fn acosh(e: Expr) -> (r: Expr)
    ensures
        r == Expr::Acosh(Box::new(e)),
{
    Expr::Acosh(Box::new(e))
}

/// The tangent of `e`: the sine of `e` over the cosine of `e`.
pub fn tan(e: Expr) -> (r: Expr)
    ensures
        r == Expr::Div(Box::new(Expr::Sin(Box::new(e))), Box::new(Expr::Cos(Box::new(e)))),
{
    let e2 = e.clone();
    div(sin(e), cos(e2))
}

/// The natural logarithm of `e`.
pub fn ln(e: Expr) -> (r: Expr)
    ensures
        r == Expr::Ln(Box::new(e)),
{
    Expr::Ln(Box::new(e))
}

/// The logarithm of `e` to the base with the pattern `base`: the natural
/// logarithm of `e` over that of the base.
pub fn log(base: u64, e: Expr) -> (r: Expr)
    ensures
        r == Expr::Div(
            Box::new(Expr::Ln(Box::new(e))),
            Box::new(Expr::Ln(Box::new(Expr::Const(Number::Real(base))))),
        ),
{
    div(ln(e), ln(con(base)))
}

/// The logarithm of `e` to the base two.
pub fn base2(e: Expr) -> (r: Expr)
    ensures
        r == Expr::Div(
            Box::new(Expr::Ln(Box::new(e))),
            Box::new(Expr::Ln(Box::new(Expr::Const(Number::Real(TWO))))),
        ),
{
    log(TWO, e)
}

/// The logarithm of `e` to the base ten.
pub fn base10(e: Expr) -> (r: Expr)
    ensures
        r == Expr::Div(
            Box::new(Expr::Ln(Box::new(e))),
            Box::new(Expr::Ln(Box::new(Expr::Const(Number::Real(TEN))))),
        ),
{
    log(TEN, e)
}

/// The factorial of `e`.
pub fn factorial(e: Expr) -> (r: Expr)
    ensures
        r == Expr::Factorial(Box::new(e)),
{
    Expr::Factorial(Box::new(e))
}

/// The gamma function of `e`.
pub fn gamma(e: Expr) -> (r: Expr)
    ensures
        r == Expr::Gamma(Box::new(e)),
{
    Expr::Gamma(Box::new(e))
}

} // verus!
