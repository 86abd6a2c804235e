//! Evaluation in steps, for a context that binds functions which the caller
//! keeps.
//!
//! The library cannot run such a function. It evaluates up to the first call
//! of one whose value it has not been told, and stops there with the call to
//! make. The caller makes the call and starts over with one more answer. So
//! the caller's functions run in the order of evaluation, and a failure of one
//! comes before every failure behind it.
use vstd::prelude::*;
use vstd::string::*;
use crate::error::{Error, Failure};
use crate::expression::{trees, Expression, Tree};
use crate::interpreter::{apply, lookup, Bindings, Interpreter};
use crate::term::{check_numeral, closed_all, is_numeral, Closed, Function, Term};

verus! {

/// Why a stepwise evaluation stopped before its end.
#[derive(Debug, PartialEq, Eq)]
pub enum Stop {
    /// Evaluation failed.
    Failed(Error),
    /// The caller's function with this number is to be called with the
    /// values of these terms, and its value added to the answers.
    Call { function: u64, args: Vec<Term> },
}

/// Mathematical model of a [`Stop`].
pub enum Halt {
    Failed(Failure),
    Call { function: u64, args: Seq<Closed> },
}

impl View for Stop {
    type V = Halt;

    open spec fn view(&self) -> Halt {
        match self {
            Stop::Failed(e) => Halt::Failed(e@),
            Stop::Call { function, args } => Halt::Call {
                function: *function,
                args: closed_all(args@),
            },
        }
    }
}

/// What a call that the context accepted yields, given the answers: a call
/// of a caller's function is its answer, the next one not yet used, or a stop
/// where no answer is left; any other call is the application itself.
pub open spec fn answer(term: Closed, answers: Seq<u64>, used: nat) -> Result<(Closed, nat), Halt> {
    match term {
        Closed::Apply { function: Function::Foreign(id), args } => if used < answers.len() {
            Ok((Closed::Value(answers[used as int]), used + 1))
        } else {
            Err(Halt::Call { function: id, args })
        },
        _ => Ok((term, used)),
    }
}

/// What evaluating the tree yields when the first `used` answers are spent:
/// the term and the number of answers spent after it, or the stop. The order
/// is that of [`crate::eval::resolve`].
pub open spec fn run(t: Tree, b: Bindings, answers: Seq<u64>, used: nat) -> Result<
    (Closed, nat),
    Halt,
>
    decreases t, 0nat,
{
    match t {
        Tree::Number(n) => if is_numeral(n) {
            Ok((Closed::Literal(n), used))
        } else {
            Err(Halt::Failed(Failure::ParseNum(n)))
        },
        Tree::Variable(v) => match lookup(b.vars, v) {
            Some(value) => Ok((Closed::Value(value), used)),
            None => Err(Halt::Failed(Failure::UndefinedIdentifier(v))),
        },
        Tree::Unary { op, operand } => match run(*operand, b, answers, used) {
            Ok((x, u)) => if op.is_sign() {
                Ok((Closed::Unary { op, operand: Box::new(x) }, u))
            } else {
                Err(Halt::Failed(Failure::InvalidUnaryOperator(op)))
            },
            Err(h) => Err(h),
        },
        Tree::Binary { left, op, right } => match run(*left, b, answers, used) {
            Ok((x, u)) => match run(*right, b, answers, u) {
                Ok((y, w)) => Ok((Closed::Binary { left: Box::new(x), op, right: Box::new(y) }, w)),
                Err(h) => Err(h),
            },
            Err(h) => Err(h),
        },
        Tree::Call { callee, args } => match run_first(args, args.len(), b, answers, used) {
            Ok((xs, u)) => match apply(b, callee, xs) {
                Some(Ok(term)) => answer(term, answers, u),
                Some(Err(e)) => Err(Halt::Failed(e)),
                None => Err(Halt::Failed(Failure::UndefinedIdentifier(callee))),
            },
            Err(h) => Err(h),
        },
    }
}

/// What evaluating the first `n` of the trees yields, one after the other.
pub open spec fn run_first(args: Seq<Tree>, n: nat, b: Bindings, answers: Seq<u64>, used: nat)
    -> Result<(Seq<Closed>, nat), Halt>
    decreases args, n,
{
    if n == 0 || n > args.len() {
        Ok((Seq::empty(), used))
    } else {
        match run_first(args, (n - 1) as nat, b, answers, used) {
            Ok((xs, u)) => match run(args[n - 1], b, answers, u) {
                Ok((x, w)) => Ok((xs.push(x), w)),
                Err(h) => Err(h),
            },
            Err(h) => Err(h),
        }
    }
}

/// A stop among the first trees is the stop of the whole list.
pub proof fn lemma_first_stop(
    args: Seq<Tree>,
    n: nat,
    m: nat,
    b: Bindings,
    answers: Seq<u64>,
    used: nat,
)
    requires
        n <= m <= args.len(),
        run_first(args, n, b, answers, used) is Err,
    ensures
        run_first(args, m, b, answers, used) == run_first(args, n, b, answers, used),
    decreases m,
{
    if n < m {
        lemma_first_stop(args, n, (m - 1) as nat, b, answers, used);
    }
}

/// Whether the answer of a step is the one that [`run`] gives.
pub open spec fn follows(r: Result<Term, Stop>, used: nat, s: Result<(Closed, nat), Halt>) -> bool {
    match r {
        Ok(t) => s == Ok::<(Closed, nat), Halt>((t@, used)),
        Err(h) => s == Err::<(Closed, nat), Halt>(h@),
    }
}

impl Expression {
    /// Evaluates the expression against the context, given the values that
    /// the caller's functions returned so far, in the order of their calls.
    /// It yields the term, in which each call of a caller's function is its
    /// value, or stops at the first failure or at the first call that no
    /// answer is given for.
    pub fn resume(&self, ctx: &Interpreter, answers: &Vec<u64>) -> (r: Result<Term, Stop>)
        ensures
            match r {
                Ok(t) => run(self@, ctx@, answers@, 0) is Ok && run(self@, ctx@, answers@, 0)->Ok_0.0
                    == t@,
                Err(h) => run(self@, ctx@, answers@, 0) == Err::<(Closed, nat), Halt>(h@),
            },
    {
        let mut used: usize = 0;
        self.walk(ctx, answers, &mut used)
    }

    fn walk(&self, ctx: &Interpreter, answers: &Vec<u64>, used: &mut usize) -> (r: Result<
        Term,
        Stop,
    >)
        requires
            *old(used) <= answers.len(),
        ensures
            *final(used) <= answers.len(),
            follows(r, *final(used) as nat, run(self@, ctx@, answers@, *old(used) as nat)),
        decreases self,
    {
        match self {
            Expression::Number(n) => {
                if check_numeral(n.as_str()) {
                    Ok(Term::Literal(n.clone()))
                } else {
                    Err(Stop::Failed(Error::ParseNumError(n.clone())))
                }
            },
            Expression::Variable(var) => {
                match ctx.get_var(var.as_str()) {
                    Some(value) => Ok(Term::Value(value)),
                    None => Err(Stop::Failed(Error::undefined(var.clone()))),
                }
            },
            Expression::Unary { op, expr } => {
                match expr.walk(ctx, answers, used) {
                    Ok(operand) => match Self::apply_unary_op(op, operand) {
                        Ok(t) => Ok(t),
                        Err(e) => Err(Stop::Failed(e)),
                    },
                    Err(h) => Err(h),
                }
            },
            Expression::Binary { left, op, right } => {
                match left.walk(ctx, answers, used) {
                    Ok(x) => match right.walk(ctx, answers, used) {
                        Ok(y) => Ok(
                            Term::Binary { left: Box::new(x), op: *op, right: Box::new(y) },
                        ),
                        Err(h) => Err(h),
                    },
                    Err(h) => Err(h),
                }
            },
            Expression::Call { callee, args } => {
                let ghost all = trees(args@);
                let ghost start = *used as nat;
                assert(self@->Call_args =~= all);
                let mut evaluated: Vec<Term> = Vec::new();
                let mut i: usize = 0;
                assert(closed_all(evaluated@) =~= Seq::<Closed>::empty());
                while i < args.len()
                    invariant
                        i <= args.len(),
                        *used <= answers.len(),
                        start == *old(used) as nat,
                        all == trees(args@),
                        self@ == (Tree::Call { callee: callee@, args: all }),
                        self == (Expression::Call { callee: *callee, args: *args }),
                        run_first(all, i as nat, ctx@, answers@, start) == Ok::<
                            (Seq<Closed>, nat),
                            Halt,
                        >((closed_all(evaluated@), *used as nat)),
                    decreases args.len() - i,
                {
                    let ghost done = closed_all(evaluated@);
                    match args[i].walk(ctx, answers, used) {
                        Ok(value) => {
                            evaluated.push(value);
                            assert(closed_all(evaluated@) =~= done.push(value@));
                            assert(all[i as int] == args[i as int]@);
                        },
                        Err(h) => {
                            proof {
                                assert(all[i as int] == args[i as int]@);
                                assert(run_first(all, (i + 1) as nat, ctx@, answers@, start) == Err::<
                                    (Seq<Closed>, nat),
                                    Halt,
                                >(h@));
                                lemma_first_stop(
                                    all,
                                    (i + 1) as nat,
                                    all.len(),
                                    ctx@,
                                    answers@,
                                    start,
                                );
                            }
                            return Err(h);
                        },
                    }
                    i += 1;
                }
                match ctx.call_fn(callee.as_str(), evaluated) {
                    Some(Ok(term)) => match term {
                        Term::Apply { function: Function::Foreign(id), args: given } => {
                            assert(term@->Apply_args =~= closed_all(given@));
                            if *used < answers.len() {
                                let value: u64 = answers[*used];
                                *used = *used + 1;
                                Ok(Term::Value(value))
                            } else {
                                Err(Stop::Call { function: id, args: given })
                            }
                        },
                        other => Ok(other),
                    },
                    Some(Err(e)) => Err(Stop::Failed(e)),
                    None => Err(Stop::Failed(Error::undefined(callee.clone()))),
                }
            },
        }
    }
}

} // verus!
