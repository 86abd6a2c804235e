//! Properties of the library that hold of all inputs.
use vstd::prelude::*;
use crate::error::{Error, Failure};
use crate::eval::{resolve, resolve_first, settles};
use crate::expression::{Expression, Tree};
use crate::interpreter::{Bindings, Interpreter};
use crate::lexer::{count_dots, numeral_end, scan_from};
use crate::parser::{arguments, climb, closing, expression, more_arguments, primary, Step};
use crate::term::{is_numeral, Closed, Term};
use crate::stepwise::{run, run_first, Halt};
use crate::text::trimmed;
use crate::token::{Kind, Lexeme, OperatorType};

verus! {

/// Evaluating one expression against one context twice gives the same
/// answer: both succeed with the same term, or both fail with the same
/// failure.
pub proof fn law_evaluation_repeats(
    expr: Expression,
    ctx: Interpreter,
    first: Result<Term, Error>,
    second: Result<Term, Error>,
)
    requires
        settles(first, resolve(expr@, ctx@)),
        settles(second, resolve(expr@, ctx@)),
    ensures
        first is Ok <==> second is Ok,
        first is Ok ==> first->Ok_0@ == second->Ok_0@,
        first is Err ==> first->Err_0@ == second->Err_0@,
{
}

/// A primary never moves the cursor back. Where it succeeds it has consumed
/// at least one token and none beyond the last.
pub proof fn law_primary_advances(ts: Seq<Lexeme>, pos: int)
    requires
        0 <= pos,
    ensures
        pos <= primary(ts, pos).next,
        primary(ts, pos).result is Ok ==> pos < primary(ts, pos).next <= ts.len(),
    decreases ts.len() - pos, 0int,
{
    if pos < ts.len() {
        match ts[pos].kind {
            Kind::Operator(op) => {
                if op.is_sign() {
                    law_primary_advances(ts, pos + 1);
                }
            },
            Kind::LParen => {
                law_expression_advances(ts, pos + 1, 0);
            },
            Kind::Identifier(name) => {
                if pos + 1 < ts.len() && ts[pos + 1].kind is LParen {
                    law_arguments_advance(ts, pos + 2);
                }
            },
            _ => {},
        }
    }
}

/// An expression is its primary and the operators folded behind it. It
/// never moves the cursor back. Where it succeeds it has consumed at least
/// one token and none beyond the last.
pub proof fn law_expression_advances(ts: Seq<Lexeme>, pos: int, min: int)
    requires
        0 <= pos,
    ensures
        pos <= expression(ts, pos, min).next,
        expression(ts, pos, min).result is Ok ==> pos < expression(ts, pos, min).next
            <= ts.len(),
        expression(ts, pos, min) == (match primary(ts, pos).result {
            Ok(lhs) => climb(ts, lhs, primary(ts, pos).next, min),
            Err(_) => primary(ts, pos),
        }),
    decreases ts.len() - pos, 2int,
{
    law_primary_advances(ts, pos);
    let first = primary(ts, pos);
    if let Ok(lhs) = first.result {
        law_climb_advances(ts, lhs, first.next, min);
    }
}

/// Folding operators never moves the cursor back, and where it succeeds the
/// cursor stands within the tokens or at their end. Also,
/// each operator folded takes the whole expression behind it as its
/// right-hand side.
pub proof fn law_climb_advances(ts: Seq<Lexeme>, lhs: Tree, pos: int, min: int)
    requires
        0 <= pos <= ts.len(),
    ensures
        pos <= climb(ts, lhs, pos, min).next,
        climb(ts, lhs, pos, min).result is Ok ==> climb(ts, lhs, pos, min).next <= ts.len(),
        pos < ts.len() ==> (match ts[pos].kind {
            Kind::Operator(op) => op.level() >= min ==> climb(ts, lhs, pos, min) == (match expression(
                ts,
                pos + 1,
                op.level() + 1,
            ).result {
                Ok(r) => climb(
                    ts,
                    Tree::Binary { left: Box::new(lhs), op, right: Box::new(r) },
                    expression(ts, pos + 1, op.level() + 1).next,
                    min,
                ),
                Err(_) => expression(ts, pos + 1, op.level() + 1),
            }),
            _ => true,
        }),
    decreases ts.len() - pos, 1int,
{
    if pos < ts.len() {
        if let Kind::Operator(op) = ts[pos].kind {
            if op.level() >= min {
                law_expression_advances(ts, pos + 1, op.level() + 1);
                let rhs = expression(ts, pos + 1, op.level() + 1);
                if let Ok(r) = rhs.result {
                    law_climb_advances(
                        ts,
                        Tree::Binary { left: Box::new(lhs), op, right: Box::new(r) },
                        rhs.next,
                        min,
                    );
                }
            }
        }
    }
}

/// An argument list never moves the cursor back, and where it succeeds a
/// token stands at the cursor.
pub proof fn law_arguments_advance(ts: Seq<Lexeme>, pos: int)
    requires
        0 <= pos <= ts.len(),
    ensures
        pos <= arguments(ts, pos).next,
        arguments(ts, pos).result is Ok ==> arguments(ts, pos).next < ts.len(),
    decreases ts.len() - pos, 4int,
{
    if !(pos < ts.len() && ts[pos].kind is RParen) {
        law_more_arguments_advance(ts, pos, Seq::empty());
    }
}

/// Further arguments never move the cursor back; where they succeed a token
/// stands at the cursor; and
/// behind a comma the list always goes on.
pub proof fn law_more_arguments_advance(ts: Seq<Lexeme>, pos: int, done: Seq<Tree>)
    requires
        0 <= pos <= ts.len(),
    ensures
        pos <= more_arguments(ts, pos, done).next,
        more_arguments(ts, pos, done).result is Ok ==> more_arguments(ts, pos, done).next
            < ts.len(),
        ({
            let one = expression(ts, pos, 0);
            one.result is Ok && one.next < ts.len() && ts[one.next].kind is Comma
                ==> more_arguments(ts, pos, done) == more_arguments(
                ts,
                one.next + 1,
                done.push(one.result->Ok_0),
            )
        }),
    decreases ts.len() - pos, 3int,
{
    law_expression_advances(ts, pos, 0);
    let one = expression(ts, pos, 0);
    if one.result is Ok && one.next < ts.len() && ts[one.next].kind is Comma {
        law_more_arguments_advance(ts, one.next + 1, done.push(one.result->Ok_0));
    }
}

/// Whether `depth` opening parentheses stand from `pos` on, and as many
/// closing ones from `end` on.
pub open spec fn wrapped(ts: Seq<Lexeme>, pos: int, end: int, depth: nat) -> bool {
    &&& 0 <= pos
    &&& pos + depth <= end
    &&& end + depth <= ts.len()
    &&& forall|i: int| pos <= i < pos + depth ==> (#[trigger] ts[i]).kind is LParen
    &&& forall|i: int| end <= i < end + depth ==> (#[trigger] ts[i]).kind is RParen
}

/// An expression within any number of pairs of parentheses parses to the
/// tree of the expression alone, and the cursor ends behind the last closing
/// parenthesis.
pub proof fn law_parentheses_nest(ts: Seq<Lexeme>, pos: int, depth: nat)
    requires
        depth >= 1,
        expression(ts, pos + depth, 0).result is Ok,
        wrapped(ts, pos, expression(ts, pos + depth, 0).next, depth),
    ensures
        primary(ts, pos) == (Step {
            result: expression(ts, pos + depth, 0).result,
            next: expression(ts, pos + depth, 0).next + depth,
        }),
    decreases depth,
{
    let inner = expression(ts, pos + depth, 0);
    assert(ts[pos].kind is LParen);
    assert(ts[inner.next + depth - 1].kind is RParen);
    let tree = inner.result->Ok_0;
    let last = inner.next + depth - 1;
    if depth > 1 {
        law_parentheses_nest(ts, pos + 1, (depth - 1) as nat);
        assert(pos + 1 + (depth - 1) as nat == pos + depth);
        assert(primary(ts, pos + 1) == Step { result: inner.result, next: last });
        assert(ts[last].kind is RParen);
        assert(climb(ts, tree, last, 0) == Step { result: Ok(tree), next: last });
        assert(expression(ts, pos + 1, 0) == Step { result: Ok(tree), next: last });
    } else {
        assert(expression(ts, pos + 1, 0) == inner);
    }
    assert(closing(ts, last, ")"@, tree) == Step { result: Ok(tree), next: last + 1 });
}

proof fn lemma_numeral_run(s: Seq<char>, pos: int)
    requires
        0 <= pos <= s.len(),
        forall|i: int| pos <= i < s.len() ==> crate::text::is_numeral_char(#[trigger] s[i]),
    ensures
        numeral_end(s, pos) == s.len(),
    decreases s.len() - pos,
{
    if pos < s.len() {
        lemma_numeral_run(s, pos + 1);
    }
}

/// A source that is a numeral, white space around it aside, evaluates to
/// the number that the numeral writes.
pub proof fn law_numeral_between_blanks(source: Seq<char>)
    requires
        is_numeral(trimmed(source)),
    ensures
        crate::outcome(source) == Ok::<Closed, Failure>(Closed::Literal(trimmed(source))),
{
    let n = trimmed(source);
    let len = n.len() as int;
    lemma_numeral_run(n, 1);
    assert(n.subrange(0, len) =~= n);
    let token = Lexeme { kind: Kind::Literal(n), line: 1, col: 1 };
    let rest = scan_from(n, len, 1, (1 + len - 0) as nat);
    assert(rest.tokens =~= Seq::<Lexeme>::empty());
    assert(scan_from(n, 0, 1, 1) == rest.after(token));
    let ts = scan_from(n, 0, 1, 1).tokens;
    assert(ts =~= seq![token]);
    assert(primary(ts, 0) == Step { result: Ok(Tree::Number(n)), next: 1 });
    assert(climb(ts, Tree::Number(n), 1, 0) == Step { result: Ok(Tree::Number(n)), next: 1 });
    assert(expression(ts, 0, 0) == Step { result: Ok(Tree::Number(n)), next: 1 });
}

/// Every numeral evaluates to the number that it writes: a source that is
/// digits with at most one dot among them, beginning with a digit, yields
/// that very numeral as its term.
pub proof fn law_numeral_evaluates_to_itself(n: Seq<char>)
    requires
        is_numeral(n),
    ensures
        trimmed(n) == n,
        crate::outcome(n) == Ok::<Closed, Failure>(Closed::Literal(n)),
{
    assert(crate::text::is_numeral_char(n[0]));
    assert(crate::text::is_numeral_char(n.last()));
    assert(crate::text::skip_leading(n) == n);
    assert(crate::text::skip_trailing(n) == n);
    law_numeral_between_blanks(n);
}

/// A term that evaluation yields can be computed without failure: its
/// numerals write numbers, its prefix operators are signs and its calls are
/// accepted.
pub proof fn law_resolved_terms_are_sound(t: Tree, b: Bindings)
    requires
        resolve(t, b) is Ok,
    ensures
        resolve(t, b)->Ok_0.sound(),
    decreases t, 0nat,
{
    match t {
        Tree::Number(_) => {},
        Tree::Variable(_) => {},
        Tree::Unary { op, operand } => {
            law_resolved_terms_are_sound(*operand, b);
        },
        Tree::Binary { left, op, right } => {
            law_resolved_terms_are_sound(*left, b);
            law_resolved_terms_are_sound(*right, b);
        },
        Tree::Call { callee, args } => {
            lemma_first_sound(args, args.len(), b);
        },
    }
}

proof fn lemma_first_sound(args: Seq<Tree>, n: nat, b: Bindings)
    requires
        n <= args.len(),
        resolve_first(args, n, b) is Ok,
    ensures
        resolve_first(args, n, b)->Ok_0.len() == n,
        forall|i: int| 0 <= i < n ==> (#[trigger] resolve_first(args, n, b)->Ok_0[i]).sound(),
    decreases args, n,
{
    if n > 0 {
        lemma_first_sound(args, (n - 1) as nat, b);
        law_resolved_terms_are_sound(args[n - 1], b);
    }
}

/// Every literal that a scan yields is a numeral that writes a number.
pub proof fn law_scanned_literals_are_numerals(s: Seq<char>, pos: int, line: nat, col: nat)
    requires
        0 <= pos <= s.len(),
    ensures
        forall|i: int|
            0 <= i < scan_from(s, pos, line, col).tokens.len() ==> (match (
            #[trigger] scan_from(s, pos, line, col).tokens[i]).kind {
                Kind::Literal(n) => is_numeral(n),
                _ => true,
            }),
    decreases s.len() - pos,
{
    if pos < s.len() {
        let c = s[pos];
        crate::lexer::lemma_run_bounds(s, pos + 1);
        if crate::text::is_digit(c) {
            let end = numeral_end(s, pos + 1);
            let text = s.subrange(pos, end);
            if crate::lexer::is_number(text) {
                lemma_run_members(s, pos + 1);
                assert(is_numeral(text));
                law_scanned_literals_are_numerals(s, end, line, (col + end - pos) as nat);
            }
        } else if crate::text::is_identifier_start(c) {
            let end = crate::lexer::identifier_end(s, pos + 1);
            law_scanned_literals_are_numerals(s, end, line, (col + end - pos) as nat);
        } else if crate::lexer::symbol(c) is Some {
            law_scanned_literals_are_numerals(s, pos + 1, line, col + 1);
        } else if c == ' ' || c == '\t' {
            law_scanned_literals_are_numerals(s, pos + 1, line, col + 1);
        } else if c == '\n' {
            law_scanned_literals_are_numerals(s, pos + 1, line + 1, col);
        }
    }
}

proof fn lemma_run_members(s: Seq<char>, pos: int)
    requires
        0 <= pos <= s.len(),
    ensures
        forall|i: int|
            pos <= i < numeral_end(s, pos) ==> crate::text::is_numeral_char(#[trigger] s[i]),
    decreases s.len() - pos,
{
    if pos < s.len() && crate::text::is_numeral_char(s[pos]) {
        lemma_run_members(s, pos + 1);
    }
}

/// How many newlines stand in the text from `from` up to, and without, `to`.
pub open spec fn newlines(s: Seq<char>, from: int, to: int) -> nat
    decreases to - from,
{
    if from >= to || from < 0 || to > s.len() {
        0
    } else {
        newlines(s, from + 1, to) + if s[from] == '\n' {
            1nat
        } else {
            0nat
        }
    }
}

/// Whether the character belongs to the alphabet of the lexer.
pub open spec fn is_known(c: char) -> bool {
    crate::text::is_digit(c) || crate::text::is_identifier_start(c) || crate::lexer::symbol(c) is Some
        || c == ' ' || c == '\t' || c == '\n'
}

proof fn lemma_no_newlines(s: Seq<char>, from: int, mid: int, to: int)
    requires
        0 <= from <= mid <= to <= s.len(),
        forall|i: int| from <= i < mid ==> #[trigger] s[i] != '\n',
    ensures
        newlines(s, from, to) == newlines(s, mid, to),
    decreases mid - from,
{
    if from < mid {
        lemma_no_newlines(s, from + 1, mid, to);
    }
}

proof fn lemma_identifier_members(s: Seq<char>, pos: int)
    requires
        0 <= pos <= s.len(),
    ensures
        forall|i: int|
            pos <= i < crate::lexer::identifier_end(s, pos) ==> crate::text::is_identifier_char(
                #[trigger] s[i],
            ),
    decreases s.len() - pos,
{
    if pos < s.len() && crate::text::is_identifier_char(s[pos]) {
        lemma_identifier_members(s, pos + 1);
    }
}

/// An unknown character is reported with its own position. Where a scan
/// from `pos` fails with an unknown character, that character stands in the
/// text at some index `k` and is outside the alphabet; the row reported is the
/// line of `pos` plus the newlines between `pos` and `k`, and the column
/// reported is the column of `pos` plus the other characters between them.
pub proof fn law_unknown_character_position(s: Seq<char>, pos: int, line: nat, col: nat) -> (k:
    int)
    requires
        0 <= pos <= s.len(),
        scan_from(s, pos, line, col).failure is Some,
        scan_from(s, pos, line, col).failure->0 is UnknownChar,
    ensures
        pos <= k < s.len(),
        !is_known(s[k]),
        newlines(s, pos, k) <= k - pos,
        scan_from(s, pos, line, col).failure == Some(
            Failure::UnknownChar {
                row: line + newlines(s, pos, k),
                col: (col + (k - pos) - newlines(s, pos, k)) as nat,
                ch: s[k],
            },
        ),
    decreases s.len() - pos,
{
    let c = s[pos];
    crate::lexer::lemma_run_bounds(s, pos + 1);
    if crate::text::is_digit(c) {
        let end = numeral_end(s, pos + 1);
        lemma_run_members(s, pos + 1);
        let k = law_unknown_character_position(s, end, line, (col + end - pos) as nat);
        lemma_no_newlines(s, pos, end, k);
        k
    } else if crate::text::is_identifier_start(c) {
        let end = crate::lexer::identifier_end(s, pos + 1);
        lemma_identifier_members(s, pos + 1);
        let k = law_unknown_character_position(s, end, line, (col + end - pos) as nat);
        lemma_no_newlines(s, pos, end, k);
        k
    } else if crate::lexer::symbol(c) is Some {
        law_unknown_character_position(s, pos + 1, line, col + 1)
    } else if c == ' ' || c == '\t' {
        law_unknown_character_position(s, pos + 1, line, col + 1)
    } else if c == '\n' {
        law_unknown_character_position(s, pos + 1, line + 1, col)
    } else {
        pos
    }
}

proof fn lemma_runs_stop(s: Seq<char>, pos: int, k: int)
    requires
        0 <= pos <= k < s.len(),
        !crate::text::is_numeral_char(s[k]),
        !crate::text::is_identifier_char(s[k]),
    ensures
        numeral_end(s, pos) <= k,
        crate::lexer::identifier_end(s, pos) <= k,
    decreases k - pos,
{
    if pos < k {
        lemma_runs_stop(s, pos + 1, k);
    }
}

proof fn lemma_no_dots(s: Seq<char>)
    requires
        forall|i: int| 0 <= i < s.len() ==> #[trigger] s[i] != '.',
    ensures
        count_dots(s) == 0,
    decreases s.len(),
{
    if s.len() > 0 {
        lemma_no_dots(s.drop_last());
    }
}

/// A scan fails at the first character outside the alphabet. Where every
/// character before index `k` belongs to the alphabet, and the character at
/// `k` neither belongs to it nor can continue a numeral or an identifier, the
/// scan from a position `pos` up to `k` fails with that character as unknown,
/// at the row and the column of `k`.
pub proof fn law_first_unknown_character_fails(
    s: Seq<char>,
    pos: int,
    line: nat,
    col: nat,
    k: int,
)
    requires
        0 <= pos <= k < s.len(),
        forall|i: int| pos <= i < k ==> is_known(#[trigger] s[i]),
        !is_known(s[k]),
        s[k] != '.',
        !crate::text::is_identifier_char(s[k]),
    ensures
        newlines(s, pos, k) <= k - pos,
        scan_from(s, pos, line, col).failure == Some(
            Failure::UnknownChar {
                row: line + newlines(s, pos, k),
                col: (col + (k - pos) - newlines(s, pos, k)) as nat,
                ch: s[k],
            },
        ),
    decreases s.len() - pos,
{
    if pos < k {
        let c = s[pos];
        assert(is_known(c));
        crate::lexer::lemma_run_bounds(s, pos + 1);
        lemma_runs_stop(s, pos + 1, k);
        if crate::text::is_digit(c) {
            let end = numeral_end(s, pos + 1);
            lemma_run_members(s, pos + 1);
            assert forall|i: int| 0 <= i < s.subrange(pos, end).len() implies #[trigger] s.subrange(
                pos,
                end,
            )[i] != '.' by {
                assert(is_known(s[pos + i]));
            }
            lemma_no_dots(s.subrange(pos, end));
            law_first_unknown_character_fails(s, end, line, (col + end - pos) as nat, k);
            lemma_no_newlines(s, pos, end, k);
        } else if crate::text::is_identifier_start(c) {
            let end = crate::lexer::identifier_end(s, pos + 1);
            lemma_identifier_members(s, pos + 1);
            law_first_unknown_character_fails(s, end, line, (col + end - pos) as nat, k);
            lemma_no_newlines(s, pos, end, k);
        } else if crate::lexer::symbol(c) is Some {
            law_first_unknown_character_fails(s, pos + 1, line, col + 1, k);
        } else if c == ' ' || c == '\t' {
            law_first_unknown_character_fails(s, pos + 1, line, col + 1, k);
        } else {
            law_first_unknown_character_fails(s, pos + 1, line + 1, col, k);
        }
    }
}

/// Whether the tokens are exactly three numbers with two operators between
/// them.
pub open spec fn is_chain(
    ts: Seq<Lexeme>,
    a: Seq<char>,
    first: OperatorType,
    b: Seq<char>,
    second: OperatorType,
    c: Seq<char>,
) -> bool {
    &&& ts.len() == 5
    &&& ts[0].kind == Kind::Literal(a)
    &&& ts[1].kind == Kind::Operator(first)
    &&& ts[2].kind == Kind::Literal(b)
    &&& ts[3].kind == Kind::Operator(second)
    &&& ts[4].kind == Kind::Literal(c)
}

/// Of two operators in a row, the second takes the middle operand only
/// where it binds strictly tighter than the first; operators of one level,
/// and a looser one behind a tighter one, group to the left.
pub proof fn law_operators_group_by_level(
    ts: Seq<Lexeme>,
    a: Seq<char>,
    first: OperatorType,
    b: Seq<char>,
    second: OperatorType,
    c: Seq<char>,
)
    requires
        is_chain(ts, a, first, b, second, c),
    ensures
        expression(ts, 0, 0).next == 5,
        second.level() > first.level() ==> expression(ts, 0, 0).result == Ok::<Tree, Failure>(
            Tree::Binary {
                left: Box::new(Tree::Number(a)),
                op: first,
                right: Box::new(
                    Tree::Binary {
                        left: Box::new(Tree::Number(b)),
                        op: second,
                        right: Box::new(Tree::Number(c)),
                    },
                ),
            },
        ),
        second.level() <= first.level() ==> expression(ts, 0, 0).result == Ok::<Tree, Failure>(
            Tree::Binary {
                left: Box::new(
                    Tree::Binary {
                        left: Box::new(Tree::Number(a)),
                        op: first,
                        right: Box::new(Tree::Number(b)),
                    },
                ),
                op: second,
                right: Box::new(Tree::Number(c)),
            },
        ),
{
    let na = Tree::Number(a);
    let nb = Tree::Number(b);
    let nc = Tree::Number(c);
    let inner = first.level() + 1;
    let last = second.level() + 1;
    assert(primary(ts, 0) == Step { result: Ok(na), next: 1 });
    assert(primary(ts, 2) == Step { result: Ok(nb), next: 3 });
    assert(primary(ts, 4) == Step { result: Ok(nc), next: 5 });
    assert(climb(ts, nc, 5, last) == Step { result: Ok(nc), next: 5 });
    assert(expression(ts, 4, last) == Step { result: Ok(nc), next: 5 });
    if second.level() > first.level() {
        let bc = Tree::Binary { left: Box::new(nb), op: second, right: Box::new(nc) };
        assert(climb(ts, bc, 5, inner) == Step { result: Ok(bc), next: 5 });
        assert(climb(ts, nb, 3, inner) == Step { result: Ok(bc), next: 5 });
        assert(expression(ts, 2, inner) == Step { result: Ok(bc), next: 5 });
        let abc = Tree::Binary { left: Box::new(na), op: first, right: Box::new(bc) };
        assert(climb(ts, abc, 5, 0) == Step { result: Ok(abc), next: 5 });
        assert(climb(ts, na, 1, 0) == Step { result: Ok(abc), next: 5 });
    } else {
        let ab = Tree::Binary { left: Box::new(na), op: first, right: Box::new(nb) };
        assert(climb(ts, nb, 3, inner) == Step { result: Ok(nb), next: 3 });
        assert(expression(ts, 2, inner) == Step { result: Ok(nb), next: 3 });
        let abc = Tree::Binary { left: Box::new(ab), op: second, right: Box::new(nc) };
        assert(climb(ts, abc, 5, 0) == Step { result: Ok(abc), next: 5 });
        assert(climb(ts, ab, 3, 0) == Step {
            result: Ok(Tree::Binary { left: Box::new(ab), op: second, right: Box::new(nc) }),
            next: 5,
        });
        assert(climb(ts, na, 1, 0) == climb(ts, ab, 3, 0));
    }
}

/// A name that the context does not bind is undefined: a variable at once,
/// a function once all its arguments have evaluated.
pub proof fn law_unbound_names_are_undefined(name: Seq<char>, args: Seq<Tree>, b: Bindings)
    ensures
        !b.vars.contains_key(name) ==> resolve(Tree::Variable(name), b) == Err::<Closed, Failure>(
            Failure::UndefinedIdentifier(name),
        ),
        !b.fns.contains_key(name) && resolve_first(args, args.len(), b) is Ok ==> resolve(
            Tree::Call { callee: name, args },
            b,
        ) == Err::<Closed, Failure>(Failure::UndefinedIdentifier(name)),
{
}

/// Where the scan goes on behind the token or the blank that stands at
/// `pos`: the position, the line and the column.
pub open spec fn step_of(s: Seq<char>, pos: int, line: nat, col: nat) -> (int, nat, nat) {
    let c = s[pos];
    if crate::text::is_digit(c) {
        let end = numeral_end(s, pos + 1);
        (end, line, (col + end - pos) as nat)
    } else if crate::text::is_identifier_start(c) {
        let end = crate::lexer::identifier_end(s, pos + 1);
        (end, line, (col + end - pos) as nat)
    } else if c == '\n' {
        (pos + 1, line + 1, col)
    } else {
        (pos + 1, line, col + 1)
    }
}

/// No token of a scan stands before the position at which the scan began.
pub proof fn law_tokens_follow_the_start(s: Seq<char>, pos: int, line: nat, col: nat, i: int)
    requires
        0 <= pos <= s.len(),
        0 <= i < scan_from(s, pos, line, col).tokens.len(),
    ensures
        line + col <= scan_from(s, pos, line, col).tokens[i].line + scan_from(
            s,
            pos,
            line,
            col,
        ).tokens[i].col,
    decreases s.len() - pos,
{
    crate::lexer::lemma_run_bounds(s, pos + 1);
    let (next, l, c) = step_of(s, pos, line, col);
    let rest = scan_from(s, next, l, c);
    if scan_from(s, pos, line, col).tokens.len() == rest.tokens.len() {
        assert(scan_from(s, pos, line, col).tokens =~= rest.tokens);
        law_tokens_follow_the_start(s, next, l, c, i);
    } else if i > 0 {
        assert(scan_from(s, pos, line, col).tokens[i] == rest.tokens[i - 1]);
        law_tokens_follow_the_start(s, next, l, c, i - 1);
    }
}

/// The tokens of a scan come in the order of the source: of two tokens, the
/// later one stands at a later position, where a position is counted by line
/// and column together.
pub proof fn law_tokens_in_source_order(
    s: Seq<char>,
    pos: int,
    line: nat,
    col: nat,
    i: int,
    j: int,
)
    requires
        0 <= pos <= s.len(),
        0 <= i < j < scan_from(s, pos, line, col).tokens.len(),
    ensures
        scan_from(s, pos, line, col).tokens[i].line + scan_from(s, pos, line, col).tokens[i].col
            < scan_from(s, pos, line, col).tokens[j].line + scan_from(
            s,
            pos,
            line,
            col,
        ).tokens[j].col,
    decreases s.len() - pos,
{
    crate::lexer::lemma_run_bounds(s, pos + 1);
    let (next, l, c) = step_of(s, pos, line, col);
    let rest = scan_from(s, next, l, c);
    if scan_from(s, pos, line, col).tokens.len() == rest.tokens.len() {
        assert(scan_from(s, pos, line, col).tokens =~= rest.tokens);
        law_tokens_in_source_order(s, next, l, c, i, j);
    } else {
        assert(scan_from(s, pos, line, col).tokens[j] == rest.tokens[j - 1]);
        if i > 0 {
            assert(scan_from(s, pos, line, col).tokens[i] == rest.tokens[i - 1]);
            law_tokens_in_source_order(s, next, l, c, i - 1, j - 1);
        } else {
            law_tokens_follow_the_start(s, next, l, c, j - 1);
        }
    }
}

/// The numeral within `depth` pairs of parentheses.
pub open spec fn nested(n: Seq<char>, depth: nat) -> Seq<char> {
    Seq::new(depth, |i: int| '(') + n + Seq::new(depth, |i: int| ')')
}

/// The kind of the token with index `i` in the scan of a nested numeral.
pub open spec fn nested_kind(n: Seq<char>, depth: nat, i: int) -> Kind {
    if i < depth {
        Kind::LParen
    } else if i == depth {
        Kind::Literal(n)
    } else {
        Kind::RParen
    }
}

proof fn lemma_numeral_run_to(s: Seq<char>, pos: int, end: int)
    requires
        0 <= pos <= end <= s.len(),
        forall|i: int| pos <= i < end ==> crate::text::is_numeral_char(#[trigger] s[i]),
        end == s.len() || !crate::text::is_numeral_char(s[end]),
    ensures
        numeral_end(s, pos) == end,
    decreases end - pos,
{
    if pos < end {
        lemma_numeral_run_to(s, pos + 1, end);
    }
}

proof fn lemma_scan_nested(n: Seq<char>, depth: nat, pos: int, line: nat, col: nat)
    requires
        is_numeral(n),
        0 <= pos <= depth || depth + n.len() <= pos <= 2 * depth + n.len(),
    ensures
        ({
            let first = if pos <= depth {
                pos
            } else {
                pos - n.len() + 1
            };
            let sc = scan_from(nested(n, depth), pos, line, col);
            &&& sc.failure is None
            &&& sc.tokens.len() == 2 * depth + 1 - first
            &&& forall|i: int|
                0 <= i < sc.tokens.len() ==> (#[trigger] sc.tokens[i]).kind == nested_kind(
                    n,
                    depth,
                    first + i,
                )
        }),
    decreases 2 * depth + n.len() - pos,
{
    let s = nested(n, depth);
    let len = 2 * depth + n.len();
    let sc = scan_from(s, pos, line, col);
    assert(s.len() == len);
    if pos >= len {
    } else if pos == depth {
        let end = (depth + n.len()) as int;
        assert forall|i: int| pos <= i < end implies crate::text::is_numeral_char(
            #[trigger] s[i],
        ) by {
            assert(s[i] == n[i - depth]);
        }
        assert(s[pos] == n[0]);
        if end < len {
            assert(s[end] == ')');
        }
        lemma_numeral_run_to(s, pos + 1, end);
        assert(s.subrange(pos, end) =~= n);
        lemma_scan_nested(n, depth, end, line, (col + end - pos) as nat);
        let rest = scan_from(s, end, line, (col + end - pos) as nat);
        assert(sc == rest.after(Lexeme { kind: Kind::Literal(n), line, col }));
        assert forall|i: int| 0 <= i < sc.tokens.len() implies (#[trigger] sc.tokens[i]).kind
            == nested_kind(n, depth, pos + i) by {
            if i > 0 {
                assert(sc.tokens[i] == rest.tokens[i - 1]);
            }
        }
    } else {
        let kind = if pos < depth {
            Kind::LParen
        } else {
            Kind::RParen
        };
        assert(s[pos] == if pos < depth {
            '('
        } else {
            ')'
        });
        assert(crate::lexer::symbol(s[pos]) == Some(kind));
        lemma_scan_nested(n, depth, pos + 1, line, col + 1);
        let rest = scan_from(s, pos + 1, line, col + 1);
        assert(sc == rest.after(Lexeme { kind, line, col }));
        let first = if pos <= depth {
            pos
        } else {
            pos - n.len() + 1
        };
        assert forall|i: int| 0 <= i < sc.tokens.len() implies (#[trigger] sc.tokens[i]).kind
            == nested_kind(n, depth, first + i) by {
            if i > 0 {
                assert(sc.tokens[i] == rest.tokens[i - 1]);
            }
        }
    }
}

/// A numeral within any number of pairs of parentheses evaluates to the
/// number that the numeral writes.
pub proof fn law_nested_numeral_evaluates(n: Seq<char>, depth: nat)
    requires
        is_numeral(n),
    ensures
        crate::outcome(nested(n, depth)) == Ok::<Closed, Failure>(Closed::Literal(n)),
{
    let s = nested(n, depth);
    if depth == 0 {
        assert(s =~= n);
        law_numeral_evaluates_to_itself(n);
    } else {
        assert(s[0] == '(');
        assert(s.last() == ')');
        assert(crate::text::skip_leading(s) == s);
        assert(crate::text::skip_trailing(s) == s);
        lemma_scan_nested(n, depth, 0, 1, 1);
        let ts = scan_from(s, 0, 1, 1).tokens;
        let num = Tree::Number(n);
        let here = depth as int;
        assert(ts[here].kind == nested_kind(n, depth, here));
        assert(ts[here + 1].kind == nested_kind(n, depth, here + 1));
        assert(primary(ts, here) == Step { result: Ok(num), next: here + 1 });
        assert(climb(ts, num, here + 1, 0) == Step { result: Ok(num), next: here + 1 });
        assert(expression(ts, here, 0) == Step { result: Ok(num), next: here + 1 });
        assert(wrapped(ts, 0, here + 1, depth)) by {
            assert forall|i: int| 0 <= i < 0 + depth implies (#[trigger] ts[i]).kind is LParen by {
                assert(ts[i].kind == nested_kind(n, depth, i));
            }
            assert forall|i: int| here + 1 <= i < here + 1 + depth implies (
            #[trigger] ts[i]).kind is RParen by {
                assert(ts[i].kind == nested_kind(n, depth, i));
            }
        }
        law_parentheses_nest(ts, 0, depth);
        let last = 2 * here + 1;
        assert(primary(ts, 0) == Step { result: Ok(num), next: last });
        assert(climb(ts, num, last, 0) == Step { result: Ok(num), next: last });
        assert(expression(ts, 0, 0) == Step { result: Ok(num), next: last });
    }
}

/// Whether the context binds no function that the caller keeps.
pub open spec fn binds_no_callers_function(b: Bindings) -> bool {
    forall|name: Seq<char>| #[trigger]
        b.fns.contains_key(name) ==> !(b.fns[name] is Foreign)
}

/// Where the context binds no function that the caller keeps, evaluation in
/// steps is evaluation: it never stops for a call, spends no answer, and
/// yields the same term or the same failure.
pub proof fn law_steps_agree_with_evaluation(
    t: Tree,
    b: Bindings,
    answers: Seq<u64>,
    used: nat,
)
    requires
        binds_no_callers_function(b),
    ensures
        run(t, b, answers, used) == (match resolve(t, b) {
            Ok(c) => Ok::<(Closed, nat), Halt>((c, used)),
            Err(e) => Err::<(Closed, nat), Halt>(Halt::Failed(e)),
        }),
    decreases t, 0nat,
{
    match t {
        Tree::Number(_) => {},
        Tree::Variable(_) => {},
        Tree::Unary { op, operand } => {
            law_steps_agree_with_evaluation(*operand, b, answers, used);
        },
        Tree::Binary { left, op, right } => {
            law_steps_agree_with_evaluation(*left, b, answers, used);
            law_steps_agree_with_evaluation(*right, b, answers, used);
        },
        Tree::Call { callee, args } => {
            lemma_first_steps_agree(args, args.len(), b, answers, used);
            if b.fns.contains_key(callee) {
                assert(!(b.fns[callee] is Foreign));
            }
        },
    }
}

proof fn lemma_first_steps_agree(
    args: Seq<Tree>,
    n: nat,
    b: Bindings,
    answers: Seq<u64>,
    used: nat,
)
    requires
        binds_no_callers_function(b),
        n <= args.len(),
    ensures
        run_first(args, n, b, answers, used) == (match resolve_first(args, n, b) {
            Ok(xs) => Ok::<(Seq<Closed>, nat), Halt>((xs, used)),
            Err(e) => Err::<(Seq<Closed>, nat), Halt>(Halt::Failed(e)),
        }),
    decreases args, n,
{
    if n > 0 {
        lemma_first_steps_agree(args, (n - 1) as nat, b, answers, used);
        law_steps_agree_with_evaluation(args[n - 1], b, answers, used);
    }
}

} // verus!
