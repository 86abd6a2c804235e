//! Evaluation: a walk of the tree against a context that binds every name,
//! checks every call and yields a closed term, or the first failure met on
//! the way from left to right.
use vstd::prelude::*;
use vstd::string::*;
use crate::error::{Error, Failure};
use crate::expression::{trees, Expression, Tree};
use crate::interpreter::{apply, builtins, lookup, Bindings, Interpreter, PI};
use crate::token::OperatorType;
use crate::term::{check_numeral, closed_all, is_numeral, Closed, Term};

verus! {

/// What evaluating the tree against the bindings yields.
///
/// A number must be written by a numeral. A variable must be bound. The
/// operand of a prefix operator is evaluated before the operator is checked.
/// The arguments of a call are evaluated before its name is looked up.
pub open spec fn resolve(t: Tree, b: Bindings) -> Result<Closed, Failure>
    decreases t, 0nat,
{
    match t {
        Tree::Number(n) => if is_numeral(n) {
            Ok(Closed::Literal(n))
        } else {
            Err(Failure::ParseNum(n))
        },
        Tree::Variable(v) => match lookup(b.vars, v) {
            Some(value) => Ok(Closed::Value(value)),
            None => Err(Failure::UndefinedIdentifier(v)),
        },
        Tree::Unary { op, operand } => match resolve(*operand, b) {
            Ok(x) => if op.is_sign() {
                Ok(Closed::Unary { op, operand: Box::new(x) })
            } else {
                Err(Failure::InvalidUnaryOperator(op))
            },
            Err(e) => Err(e),
        },
        Tree::Binary { left, op, right } => match resolve(*left, b) {
            Ok(x) => match resolve(*right, b) {
                Ok(y) => Ok(Closed::Binary { left: Box::new(x), op, right: Box::new(y) }),
                Err(e) => Err(e),
            },
            Err(e) => Err(e),
        },
        Tree::Call { callee, args } => match resolve_first(args, args.len(), b) {
            Ok(xs) => match apply(b, callee, xs) {
                Some(r) => r,
                None => Err(Failure::UndefinedIdentifier(callee)),
            },
            Err(e) => Err(e),
        },
    }
}

/// What evaluating the first `n` of the trees yields: their terms in order,
/// or the failure of the first tree that fails.
pub open spec fn resolve_first(args: Seq<Tree>, n: nat, b: Bindings) -> Result<
    Seq<Closed>,
    Failure,
>
    decreases args, n,
{
    if n == 0 || n > args.len() {
        Ok(Seq::empty())
    } else {
        match resolve_first(args, (n - 1) as nat, b) {
            Ok(xs) => match resolve(args[n - 1], b) {
                Ok(x) => Ok(xs.push(x)),
                Err(e) => Err(e),
            },
            Err(e) => Err(e),
        }
    }
}

/// A failure among the first trees is the failure of the whole list.
pub proof fn lemma_first_failure(args: Seq<Tree>, n: nat, m: nat, b: Bindings)
    requires
        n <= m <= args.len(),
        resolve_first(args, n, b) is Err,
    ensures
        resolve_first(args, m, b) == resolve_first(args, n, b),
    decreases m,
{
    if n < m {
        lemma_first_failure(args, n, (m - 1) as nat, b);
    }
}

/// Whether the evaluator's answer is the one that [`resolve`] gives.
pub open spec fn settles(r: Result<Term, Error>, s: Result<Closed, Failure>) -> bool {
    match r {
        Ok(t) => s == Ok::<Closed, Failure>(t@),
        Err(e) => s == Err::<Closed, Failure>(e@),
    }
}

impl Expression {
    /// Evaluates the expression against the context.
    pub fn eval(&self, ctx: &Interpreter) -> (r: Result<Term, Error>)
        ensures
            settles(r, resolve(self@, ctx@)),
        decreases self,
    {
        match self {
            Expression::Number(n) => {
                if check_numeral(n.as_str()) {
                    Ok(Term::Literal(n.clone()))
                } else {
                    Err(Error::ParseNumError(n.clone()))
                }
            },
            Expression::Variable(var) => {
                match ctx.get_var(var.as_str()) {
                    Some(value) => Ok(Term::Value(value)),
                    None => Err(Error::undefined(var.clone())),
                }
            },
            Expression::Unary { op, expr } => {
                match expr.eval(ctx) {
                    Ok(operand) => Self::apply_unary_op(op, operand),
                    Err(e) => Err(e),
                }
            },
            Expression::Binary { left, op, right } => {
                match left.eval(ctx) {
                    Ok(x) => match right.eval(ctx) {
                        Ok(y) => Ok(
                            Term::Binary { left: Box::new(x), op: *op, right: Box::new(y) },
                        ),
                        Err(e) => Err(e),
                    },
                    Err(e) => Err(e),
                }
            },
            Expression::Call { callee, args } => {
                let ghost all = trees(args@);
                assert(self@->Call_args =~= all);
                let mut evaluated: Vec<Term> = Vec::new();
                let mut i: usize = 0;
                assert(closed_all(evaluated@) =~= Seq::<Closed>::empty());
                while i < args.len()
                    invariant
                        i <= args.len(),
                        all == trees(args@),
                        self@ == (Tree::Call { callee: callee@, args: all }),
                        self == (Expression::Call { callee: *callee, args: *args }),
                        resolve_first(all, i as nat, ctx@) == Ok::<Seq<Closed>, Failure>(
                            closed_all(evaluated@),
                        ),
                    decreases args.len() - i,
                {
                    let ghost done = closed_all(evaluated@);
                    match args[i].eval(ctx) {
                        Ok(value) => {
                            evaluated.push(value);
                            assert(closed_all(evaluated@) =~= done.push(value@));
                        },
                        Err(e) => {
                            proof {
                                assert(all[i as int] == args[i as int]@);
                                assert(resolve_first(all, (i + 1) as nat, ctx@) == Err::<
                                    Seq<Closed>,
                                    Failure,
                                >(e@));
                                lemma_first_failure(all, (i + 1) as nat, all.len(), ctx@);
                            }
                            return Err(e);
                        },
                    }
                    i += 1;
                }
                match ctx.call_fn(callee.as_str(), evaluated) {
                    Some(r) => r,
                    None => Err(Error::undefined(callee.clone())),
                }
            },
        }
    }

    /// Puts a prefix operator before a term. Only plus, the absolute value,
    /// and minus, the negation, are prefix operators.
    pub fn apply_unary_op(op: &OperatorType, operand: Term) -> (r: Result<Term, Error>)
        ensures
            match r {
                Ok(t) => op.is_sign() && t@ == (Closed::Unary {
                    op: *op,
                    operand: Box::new(operand@),
                }),
                Err(e) => !op.is_sign() && e@ == Failure::InvalidUnaryOperator(*op),
            },
    {
        match op {
            OperatorType::PLUS | OperatorType::MINUS => Ok(
                Term::Unary { op: *op, operand: Box::new(operand) },
            ),
            _ => Err(Error::invalid_unary_op(op)),
        }
    }
}

impl Interpreter {
    /// Evaluates the expression against this context.
    pub fn evaluate(&self, expr: Expression) -> (r: Result<Term, Error>)
        ensures
            settles(r, resolve(expr@, self@)),
    {
        expr.eval(self)
    }
}

/// A context that starts without variables. It binds the standard functions.
#[derive(Debug)]
pub struct Context {
    bound: Interpreter,
}

impl View for Context {
    type V = Bindings;

    closed spec fn view(&self) -> Bindings {
        self.bound@
    }
}

impl Default for Context {
    /// A context without variables.
    fn default() -> (r: Context)
        ensures
            r@ == (Bindings { vars: Map::empty(), fns: builtins() }),
    {
        Context { bound: Interpreter::bare() }
    }
}

impl Context {
    /// A context without variables.
    pub fn new() -> (r: Context)
        ensures
            r@ == (Bindings { vars: Map::empty(), fns: builtins() }),
    {
        Context::default()
    }

    /// Binds the constant `PI`.
    pub fn init(&mut self)
        ensures
            final(self)@.vars == old(self)@.vars.insert("PI"@, PI),
            final(self)@.fns == old(self)@.fns,
    {
        self.bound.define_var("PI".to_owned(), PI);
    }

    /// Binds a variable to a value; an earlier binding of the name is
    /// replaced.
    pub fn define(&mut self, name: String, value: u64)
        ensures
            final(self)@.vars == old(self)@.vars.insert(name@, value),
            final(self)@.fns == old(self)@.fns,
    {
        self.bound.define_var(name, value);
    }

    /// The value of a variable, if the name is bound.
    pub fn get_var(&self, name: &str) -> (r: Option<u64>)
        ensures
            r == lookup(self@.vars, name@),
    {
        self.bound.get_var(name)
    }

    /// Evaluates the expression against this context.
    pub fn eval(&self, expr: Expression) -> (r: Result<Term, Error>)
        ensures
            settles(r, resolve(expr@, self@)),
    {
        expr.eval(&self.bound)
    }
}

} // verus!
