//! The syntax tree that the parser builds and the evaluator reads.
use vstd::prelude::*;
use crate::token::OperatorType;

verus! {

/// A parsed expression. Each node owns its children. A number carries the
/// numeral as it was written.
#[derive(Debug, PartialEq, Eq)]
pub enum Expression {
    /// A number, like `2`.
    Number(String),
    /// A variable, like `PI`.
    Variable(String),
    /// A prefix operator and its operand, like `-2`.
    Unary { op: OperatorType, expr: Box<Expression> },
    /// Two operands and the operator between them, like `2 + 3`.
    Binary { left: Box<Expression>, op: OperatorType, right: Box<Expression> },
    /// A function call, like `sin(2)`.
    Call { callee: String, args: Vec<Expression> },
}

/// Mathematical model of an [`Expression`].
pub enum Tree {
    Number(Seq<char>),
    Variable(Seq<char>),
    Unary { op: OperatorType, operand: Box<Tree> },
    Binary { left: Box<Tree>, op: OperatorType, right: Box<Tree> },
    Call { callee: Seq<char>, args: Seq<Tree> },
}

impl Expression {
    /// The tree that this expression is.
    pub open spec fn tree(&self) -> Tree
        decreases self,
    {
        match self {
            Expression::Number(n) => Tree::Number(n@),
            Expression::Variable(v) => Tree::Variable(v@),
            Expression::Unary { op, expr } => Tree::Unary {
                op: *op,
                operand: Box::new(expr.tree()),
            },
            Expression::Binary { left, op, right } => Tree::Binary {
                left: Box::new(left.tree()),
                op: *op,
                right: Box::new(right.tree()),
            },
            Expression::Call { callee, args } => Tree::Call {
                callee: callee@,
                args: Seq::new(
                    args@.len(),
                    |i: int|
                        if 0 <= i < args@.len() {
                            args[i].tree()
                        } else {
                            arbitrary()
                        },
                ),
            },
        }
    }
}

impl View for Expression {
    type V = Tree;

    open spec fn view(&self) -> Tree {
        self.tree()
    }
}

/// The models of a sequence of expressions, in order.
pub open spec fn trees(args: Seq<Expression>) -> Seq<Tree> {
    Seq::new(args.len(), |i: int| args[i]@)
}

} // verus!
