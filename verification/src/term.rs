//! What evaluation yields: a closed arithmetic term, in which every name is
//! bound and every call is accepted, so that computing it cannot fail.
//!
//! A value is a binary64 number given by its bit pattern.
use vstd::prelude::*;
use vstd::string::*;
use crate::text::{decimal, decimal_string, is_digit, is_numeral_char, to_chars};
use crate::token::OperatorType;
use crate::lexer::{count_dots, is_number};

verus! {

/// A function that a name can be bound to.
#[derive(Debug, Clone, Copy, PartialEq, Eq, Structural)]
pub enum Function {
    /// Sine of the first argument.
    Sin,
    /// Cosine of the first argument.
    Cos,
    /// Tangent of the first argument.
    Tan,
    /// The first argument rounded up.
    Ceil,
    /// The first argument rounded down.
    Floor,
    /// Cube root of the first argument.
    Cbrt,
    /// The first argument rounded to the nearest integer.
    Round,
    /// The larger of exactly two arguments.
    Max,
    /// The smaller of exactly two arguments.
    Min,
    /// A function that the caller keeps, known here by its number. It takes
    /// any number of arguments.
    Foreign(u64),
}

impl Function {
    /// Whether the function takes exactly two arguments.
    pub open spec fn is_binary(self) -> bool {
        self == Function::Max || self == Function::Min
    }

    /// Whether the function can be called with `n` arguments. A function of
    /// one argument needs at least one and reads only the first.
    pub open spec fn accepts(self, n: nat) -> bool {
        match self {
            Function::Foreign(_) => true,
            Function::Max | Function::Min => n == 2,
            _ => n >= 1,
        }
    }

    /// What a refused call with `n` arguments is told.
    pub open spec fn complaint(self, n: nat) -> Seq<char> {
        if self.is_binary() {
            "Not enough arguments, expected 2, but got "@ + decimal(n)
        } else {
            "Not enough arguments, expected 1, but got 0"@
        }
    }

    /// Checks a call with `n` arguments: nothing where the function accepts
    /// it, else the complaint.
    pub fn check(&self, n: usize) -> (r: Option<String>)
        ensures
            match r {
                None => self.accepts(n as nat),
                Some(m) => !self.accepts(n as nat) && m@ == self.complaint(n as nat),
            },
    {
        match self {
            Function::Foreign(_) => None,
            Function::Max | Function::Min => {
                if n == 2 {
                    None
                } else {
                    let mut m = "Not enough arguments, expected 2, but got ".to_owned();
                    let count = decimal_string(n);
                    m.append(count.as_str());
                    Some(m)
                }
            },
            _ => {
                if n >= 1 {
                    None
                } else {
                    Some("Not enough arguments, expected 1, but got 0".to_owned())
                }
            },
        }
    }
}

/// Whether the text writes a number: digits with at most one dot among them,
/// beginning with a digit.
pub open spec fn is_numeral(s: Seq<char>) -> bool {
    &&& s.len() > 0
    &&& is_digit(s[0])
    &&& forall|i: int| 0 <= i < s.len() ==> is_numeral_char(#[trigger] s[i])
    &&& is_number(s)
}

/// Whether the text writes a number.
pub fn check_numeral(s: &str) -> (r: bool)
    ensures
        r == is_numeral(s@),
{
    let chars: Vec<char> = to_chars(s);
    let n: usize = chars.len();
    if n == 0 {
        return false;
    }
    if !(chars[0] >= '0' && chars[0] <= '9') {
        return false;
    }
    let mut i: usize = 0;
    let mut dots: usize = 0;
    assert(chars@.subrange(0, 0) =~= Seq::<char>::empty());
    while i < n
        invariant
            chars@ == s@,
            i <= n == chars.len(),
            dots <= i,
            dots == count_dots(chars@.subrange(0, i as int)),
            forall|k: int| 0 <= k < i ==> is_numeral_char(#[trigger] chars@[k]),
        decreases n - i,
    {
        let c: char = chars[i];
        if !((c >= '0' && c <= '9') || c == '.') {
            return false;
        }
        assert(chars@.subrange(0, i + 1).drop_last() =~= chars@.subrange(0, i as int));
        if c == '.' {
            dots += 1;
        }
        i += 1;
    }
    assert(chars@.subrange(0, n as int) =~= chars@);
    dots <= 1
}

/// A closed arithmetic term.
#[derive(Debug, PartialEq, Eq)]
pub enum Term {
    /// The number that a numeral writes.
    Literal(String),
    /// A value, by its bit pattern.
    Value(u64),
    /// Plus (the absolute value) or minus (the negation) of a term.
    Unary { op: OperatorType, operand: Box<Term> },
    /// An operator applied to two terms.
    Binary { left: Box<Term>, op: OperatorType, right: Box<Term> },
    /// A function applied to the values of the terms, in order.
    Apply { function: Function, args: Vec<Term> },
}

/// Mathematical model of a [`Term`].
pub enum Closed {
    Literal(Seq<char>),
    Value(u64),
    Unary { op: OperatorType, operand: Box<Closed> },
    Binary { left: Box<Closed>, op: OperatorType, right: Box<Closed> },
    Apply { function: Function, args: Seq<Closed> },
}

impl Closed {
    /// Whether computing the term cannot fail: its numerals write numbers,
    /// its prefix operators are signs, and its calls are accepted.
    pub open spec fn sound(self) -> bool
        decreases self,
    {
        match self {
            Closed::Literal(n) => is_numeral(n),
            Closed::Value(_) => true,
            Closed::Unary { op, operand } => op.is_sign() && operand.sound(),
            Closed::Binary { left, op, right } => left.sound() && right.sound(),
            Closed::Apply { function, args } => function.accepts(args.len()) && forall|i: int|
                0 <= i < args.len() ==> (#[trigger] args[i]).sound(),
        }
    }
}

impl Term {
    /// The closed term that this term is.
    pub open spec fn closed(&self) -> Closed
        decreases self,
    {
        match self {
            Term::Literal(n) => Closed::Literal(n@),
            Term::Value(v) => Closed::Value(*v),
            Term::Unary { op, operand } => Closed::Unary {
                op: *op,
                operand: Box::new(operand.closed()),
            },
            Term::Binary { left, op, right } => Closed::Binary {
                left: Box::new(left.closed()),
                op: *op,
                right: Box::new(right.closed()),
            },
            Term::Apply { function, args } => Closed::Apply {
                function: *function,
                args: Seq::new(
                    args@.len(),
                    |i: int|
                        if 0 <= i < args@.len() {
                            args[i].closed()
                        } else {
                            arbitrary()
                        },
                ),
            },
        }
    }
}

impl View for Term {
    type V = Closed;

    open spec fn view(&self) -> Closed {
        self.closed()
    }
}

/// The models of a sequence of terms, in order.
pub open spec fn closed_all(terms: Seq<Term>) -> Seq<Closed> {
    Seq::new(terms.len(), |i: int| terms[i]@)
}

} // verus!
