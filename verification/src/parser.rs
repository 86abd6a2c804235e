//! The parser: precedence climbing over a token sequence.
//!
//! The grammar is given by four mutually recursive functions on token
//! sequences, [`primary`], [`expression`], [`climb`] and [`arguments`]; the
//! parser's methods compute exactly these.
use vstd::prelude::*;
use crate::error::{Error, Failure};
use crate::expression::{trees, Expression, Tree};
use crate::token::{lexemes, Kind, Lexeme, OperatorType, Token, TokenType};

verus! {

/// What parsing one expression yields: the tree or the failure, and the
/// position of the first token that was not consumed.
pub struct Step {
    pub result: Result<Tree, Failure>,
    pub next: int,
}

/// What parsing an argument list yields.
pub struct List {
    pub result: Result<Seq<Tree>, Failure>,
    pub next: int,
}

/// The failure for a token other than the expected one.
pub open spec fn unexpected(expected: Seq<char>, found: Option<Seq<char>>) -> Failure {
    Failure::UnexpectedValue { found, expected }
}

/// Where the cursor stands after a step at or behind the end of the tokens:
/// one further on, unless it is the largest index there is.
pub open spec fn beyond(pos: int) -> int {
    if pos < usize::MAX {
        pos + 1
    } else {
        pos
    }
}

/// Requires a closing parenthesis at `pos` and yields `tree` behind it.
pub open spec fn closing(ts: Seq<Lexeme>, pos: int, expected: Seq<char>, tree: Tree) -> Step {
    if 0 <= pos < ts.len() {
        if ts[pos].kind is RParen {
            Step { result: Ok(tree), next: pos + 1 }
        } else {
            Step {
                result: Err(unexpected(expected, Some(ts[pos].kind.describe()))),
                next: pos + 1,
            }
        }
    } else {
        Step { result: Err(unexpected(expected, None)), next: beyond(pos) }
    }
}

/// A primary at `pos`: a signed primary, a number, a parenthesised
/// expression, a call or a variable. Any other token is reported as found;
/// nothing is found only where the tokens have ended.
pub open spec fn primary(ts: Seq<Lexeme>, pos: int) -> Step
    decreases ts.len() - pos, 0int,
{
    if pos < 0 || pos >= ts.len() {
        Step { result: Err(unexpected("token"@, None)), next: beyond(pos) }
    } else {
        match ts[pos].kind {
            Kind::Operator(op) => if op.is_sign() {
                let inner = primary(ts, pos + 1);
                match inner.result {
                    Ok(t) => Step {
                        result: Ok(Tree::Unary { op, operand: Box::new(t) }),
                        next: inner.next,
                    },
                    Err(e) => inner,
                }
            } else {
                Step {
                    result: Err(unexpected("number or ("@, Some(ts[pos].kind.describe()))),
                    next: pos + 1,
                }
            },
            Kind::Literal(n) => Step { result: Ok(Tree::Number(n)), next: pos + 1 },
            Kind::LParen => {
                let inner = expression(ts, pos + 1, 0);
                match inner.result {
                    Ok(t) => closing(ts, inner.next, ")"@, t),
                    Err(e) => inner,
                }
            },
            Kind::Identifier(name) => if pos + 1 < ts.len() && ts[pos + 1].kind is LParen {
                let list = arguments(ts, pos + 2);
                match list.result {
                    Ok(args) => closing(
                        ts,
                        list.next,
                        Kind::RParen.describe(),
                        Tree::Call { callee: name, args },
                    ),
                    Err(e) => Step { result: Err(e), next: list.next },
                }
            } else {
                Step { result: Ok(Tree::Variable(name)), next: pos + 1 }
            },
            _ => Step {
                result: Err(unexpected("number or ("@, Some(ts[pos].kind.describe()))),
                next: pos + 1,
            },
        }
    }
}

/// An expression at `pos` whose operators all bind at least as tightly as
/// `min`: a primary, then as many operators and right-hand sides as follow.
pub open spec fn expression(ts: Seq<Lexeme>, pos: int, min: int) -> Step
    decreases ts.len() - pos, 2int,
{
    let first = primary(ts, pos);
    match first.result {
        Ok(lhs) => if pos < first.next <= ts.len() {
            climb(ts, lhs, first.next, min)
        } else {
            first
        },
        Err(e) => first,
    }
}

/// Folds the operators that follow `lhs` from `pos` on. An operator that
/// binds less tightly than `min` ends the fold; any other takes as its
/// right-hand side an expression that binds strictly tighter than itself, so
/// that operators of one level group to the left.
pub open spec fn climb(ts: Seq<Lexeme>, lhs: Tree, pos: int, min: int) -> Step
    decreases ts.len() - pos, 1int,
{
    if 0 <= pos < ts.len() {
        match ts[pos].kind {
            Kind::Operator(op) => if op.level() < min {
                Step { result: Ok(lhs), next: pos }
            } else {
                let rhs = expression(ts, pos + 1, op.level() + 1);
                match rhs.result {
                    Ok(r) => {
                        let folded = Tree::Binary { left: Box::new(lhs), op, right: Box::new(r) };
                        if pos < rhs.next <= ts.len() {
                            climb(ts, folded, rhs.next, min)
                        } else {
                            Step { result: Ok(folded), next: rhs.next }
                        }
                    },
                    Err(e) => rhs,
                }
            },
            _ => Step { result: Ok(lhs), next: pos },
        }
    } else {
        Step { result: Ok(lhs), next: pos }
    }
}

/// The arguments of a call, from the token behind its opening parenthesis up
/// to, and without, the closing one.
pub open spec fn arguments(ts: Seq<Lexeme>, pos: int) -> List
    decreases ts.len() - pos, 4int,
{
    if 0 <= pos < ts.len() && ts[pos].kind is RParen {
        List { result: Ok(Seq::empty()), next: pos }
    } else {
        more_arguments(ts, pos, Seq::empty())
    }
}

/// One more argument at `pos` behind those in `done`, and then a comma and
/// further arguments, or the closing parenthesis.
pub open spec fn more_arguments(ts: Seq<Lexeme>, pos: int, done: Seq<Tree>) -> List
    decreases ts.len() - pos, 3int,
{
    let one = expression(ts, pos, 0);
    match one.result {
        Ok(t) => if 0 <= one.next < ts.len() && ts[one.next].kind is Comma {
            if pos <= one.next {
                more_arguments(ts, one.next + 1, done.push(t))
            } else {
                List { result: Ok(done.push(t)), next: one.next }
            }
        } else if 0 <= one.next < ts.len() && ts[one.next].kind is RParen {
            List { result: Ok(done.push(t)), next: one.next }
        } else if 0 <= one.next < ts.len() {
            List {
                result: Err(
                    unexpected(", or ( in argument list"@, Some(ts[one.next].kind.describe())),
                ),
                next: one.next,
            }
        } else {
            List { result: Err(unexpected(", or ( in argument list"@, None)), next: one.next }
        },
        Err(e) => List { result: Err(e), next: one.next },
    }
}

/// Whether the parser's answer is the one the grammar gives.
pub open spec fn agrees(r: Result<Expression, Error>, s: Result<Tree, Failure>) -> bool {
    match r {
        Ok(e) => s == Ok::<Tree, Failure>(e@),
        Err(e) => s == Err::<Tree, Failure>(e@),
    }
}

/// Whether the parser's answer for an argument list is the one the grammar
/// gives.
pub open spec fn agrees_list(
    r: Result<Vec<Expression>, Error>,
    s: Result<Seq<Tree>, Failure>,
) -> bool {
    match r {
        Ok(v) => s == Ok::<Seq<Tree>, Failure>(trees(v@)),
        Err(e) => s == Err::<Seq<Tree>, Failure>(e@),
    }
}

/// Parses a token sequence into a tree of [`Expression`]s. It reads the
/// tokens from left to right with one cursor and never goes back.
pub struct Parser<'a> {
    tokens: &'a [Token],
    pos: usize,
}

impl<'a> Parser<'a> {
    /// The tokens that this parser reads.
    pub closed spec fn input(&self) -> Seq<Lexeme> {
        lexemes(self.tokens@)
    }

    /// The position of the next token to read.
    pub closed spec fn cursor(&self) -> int {
        self.pos as int
    }

    /// A parser at the start of the tokens.
    pub fn new(tokens: &'a [Token]) -> (p: Parser<'a>)
        ensures
            p.input() == lexemes(tokens@),
            p.cursor() == 0,
    {
        Parser { tokens, pos: 0 }
    }

    fn peek(&self) -> (r: Option<&'a Token>)
        ensures
            match r {
                Some(t) => self.cursor() < self.input().len() && t@ == self.input()[self.cursor()],
                None => self.cursor() >= self.input().len(),
            },
    {
        if self.pos < self.tokens.len() {
            Some(&self.tokens[self.pos])
        } else {
            None
        }
    }

    fn advance(&mut self) -> (r: Option<&'a Token>)
        ensures
            final(self).input() == old(self).input(),
            match r {
                Some(t) => old(self).cursor() < old(self).input().len() && t@ == old(
                    self,
                ).input()[old(self).cursor()] && final(self).cursor() == old(self).cursor() + 1,
                None => old(self).cursor() >= old(self).input().len() && final(self).cursor()
                    == beyond(old(self).cursor()),
            },
    {
        let token = self.peek();
        let n: usize = self.tokens.len();
        assert(self.input().len() == n);
        if self.pos < usize::MAX {
            self.pos += 1;
        }
        token
    }

    fn expect_token(&mut self, expected: TokenType) -> (r: Result<&'a Token, Error>)
        ensures
            final(self).input() == old(self).input(),
            old(self).cursor() <= final(self).cursor(),
            match r {
                Ok(t) => {
                    &&& old(self).cursor() < old(self).input().len()
                    &&& t@ == old(self).input()[old(self).cursor()]
                    &&& t@.kind == expected@
                    &&& final(self).cursor() == old(self).cursor() + 1
                },
                Err(e) => if old(self).cursor() < old(self).input().len() {
                    &&& old(self).input()[old(self).cursor()].kind != expected@
                    &&& e@ == unexpected(
                        expected@.describe(),
                        Some(old(self).input()[old(self).cursor()].kind.describe()),
                    )
                    &&& final(self).cursor() == old(self).cursor() + 1
                } else {
                    &&& e@ == unexpected(expected@.describe(), None)
                    &&& final(self).cursor() == beyond(old(self).cursor())
                },
            },
    {
        let wanted = expected.describe();
        match self.advance() {
            Some(token) => {
                if token.ty().same(&expected) {
                    Ok(token)
                } else {
                    let found = token.ty().describe();
                    Err(Error::unexpected_value(wanted.as_str(), Some(found.as_str())))
                }
            },
            None => Err(Error::unexpected_value(wanted.as_str(), None)),
        }
    }

    /// Parses one primary at the cursor.
    pub fn parse_primary(&mut self) -> (r: Result<Expression, Error>)
        ensures
            final(self).input() == old(self).input(),
            final(self).cursor() == primary(old(self).input(), old(self).cursor()).next,
            agrees(r, primary(old(self).input(), old(self).cursor()).result),
            old(self).cursor() <= final(self).cursor(),
            r is Ok ==> old(self).cursor() < final(self).cursor() <= old(self).input().len(),
        decreases old(self).input().len() - old(self).cursor(), 0int,
    {
        match self.advance() {
            None => Err(Error::unexpected_value("token", None)),
            Some(t) => match t.ty() {
                TokenType::OPERATOR(op) => {
                    let op: OperatorType = *op;
                    match op {
                        OperatorType::PLUS | OperatorType::MINUS => {
                            match self.parse_primary() {
                                Ok(expr) => Ok(Expression::Unary { op, expr: Box::new(expr) }),
                                Err(e) => Err(e),
                            }
                        },
                        _ => {
                            let found = t.ty().describe();
                            Err(Error::unexpected_value("number or (", Some(found.as_str())))
                        },
                    }
                },
                TokenType::LITERAL(l) => Ok(Expression::Number(l.clone())),
                TokenType::LPAREN => {
                    match self.parse_expression(0) {
                        Ok(expr) => match self.advance() {
                            Some(j) => match j.ty() {
                                TokenType::RPAREN => Ok(expr),
                                other => {
                                    let found = other.describe();
                                    Err(Error::unexpected_value(")", Some(found.as_str())))
                                },
                            },
                            None => Err(Error::unexpected_value(")", None)),
                        },
                        Err(e) => Err(e),
                    }
                },
                TokenType::IDENTIFIER(ident) => {
                    let call: bool = match self.peek() {
                        Some(next) => match next.ty() {
                            TokenType::LPAREN => true,
                            _ => false,
                        },
                        None => false,
                    };
                    if call {
                        self.advance();
                        match self.parse_argument_list() {
                            Ok(args) => match self.expect_token(TokenType::RPAREN) {
                                Ok(_) => {
                                    let node = Expression::Call { callee: ident.clone(), args };
                                    assert(node@->Call_args =~= trees(args@));
                                    Ok(node)
                                },
                                Err(e) => Err(e),
                            },
                            Err(e) => Err(e),
                        }
                    } else {
                        Ok(Expression::Variable(ident.clone()))
                    }
                },
                other => {
                    let found = other.describe();
                    Err(Error::unexpected_value("number or (", Some(found.as_str())))
                },
            },
        }
    }

    fn parse_argument_list(&mut self) -> (r: Result<Vec<Expression>, Error>)
        requires
            old(self).cursor() <= old(self).input().len(),
        ensures
            r is Ok ==> final(self).cursor() < old(self).input().len(),
            final(self).input() == old(self).input(),
            final(self).cursor() == arguments(old(self).input(), old(self).cursor()).next,
            agrees_list(r, arguments(old(self).input(), old(self).cursor()).result),
            old(self).cursor() <= final(self).cursor(),
        decreases old(self).input().len() - old(self).cursor(), 4int,
    {
        let mut args: Vec<Expression> = Vec::new();
        let ghost ts = self.input();
        let ghost start = self.cursor();
        assert(trees(args@) =~= Seq::<Tree>::empty());
        match self.peek() {
            Some(tok) => match tok.ty() {
                TokenType::RPAREN => {
                    return Ok(args);
                },
                _ => {},
            },
            None => {},
        }
        loop
            invariant
                self.input() == ts,
                ts == old(self).input(),
                start == old(self).cursor(),
                start <= self.cursor() <= ts.len(),
                arguments(ts, start) == more_arguments(ts, self.cursor(), trees(args@)),
            decreases ts.len() - self.cursor(),
        {
            let ghost done = trees(args@);
            match self.parse_expression(0) {
                Ok(expr) => {
                    args.push(expr);
                    assert(trees(args@) =~= done.push(expr@));
                },
                Err(e) => {
                    return Err(e);
                },
            }
            match self.peek() {
                Some(tok) => match tok.ty() {
                    TokenType::COMMA => {
                        self.advance();
                    },
                    TokenType::RPAREN => {
                        return Ok(args);
                    },
                    other => {
                        let found = other.describe();
                        return Err(
                            Error::unexpected_value(
                                ", or ( in argument list",
                                Some(found.as_str()),
                            ),
                        );
                    },
                },
                None => {
                    return Err(Error::unexpected_value(", or ( in argument list", None));
                },
            }
        }
    }

    /// Parses one expression at the cursor whose operators all bind at least
    /// as tightly as `min_prec`.
    pub fn parse_expression(&mut self, min_prec: u8) -> (r: Result<Expression, Error>)
        ensures
            final(self).input() == old(self).input(),
            final(self).cursor() == expression(
                old(self).input(),
                old(self).cursor(),
                min_prec as int,
            ).next,
            agrees(r, expression(old(self).input(), old(self).cursor(), min_prec as int).result),
            old(self).cursor() <= final(self).cursor(),
            r is Ok ==> old(self).cursor() < final(self).cursor() <= old(self).input().len(),
        decreases old(self).input().len() - old(self).cursor(), 2int,
    {
        let ghost ts = self.input();
        let ghost start = self.cursor();
        let mut lhs: Expression = match self.parse_primary() {
            Ok(e) => e,
            Err(e) => {
                return Err(e);
            },
        };
        loop
            invariant
                self.input() == ts,
                ts == old(self).input(),
                start == old(self).cursor(),
                start < self.cursor() <= ts.len(),
                expression(ts, start, min_prec as int) == climb(
                    ts,
                    lhs@,
                    self.cursor(),
                    min_prec as int,
                ),
            decreases ts.len() - self.cursor(),
        {
            let op: OperatorType = match self.peek() {
                Some(t) => match t.get_op() {
                    Some(op) => op,
                    None => {
                        return Ok(lhs);
                    },
                },
                None => {
                    return Ok(lhs);
                },
            };
            let prec: u8 = op.precendance();
            if prec < min_prec {
                return Ok(lhs);
            }
            self.advance();
            let rhs: Expression = match self.parse_expression(prec + 1) {
                Ok(e) => e,
                Err(e) => {
                    return Err(e);
                },
            };
            lhs = Expression::Binary { left: Box::new(lhs), op, right: Box::new(rhs) };
        }
    }
}

} // verus!
