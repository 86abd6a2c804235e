use lexper::interpreter::PI;
use lexper::{
    eval, Context, Error, Expression, Function, Interpreter, Lexer, OperatorType, Parser, Stop, Term,
};

fn compute(term: &Term) -> f64 {
    match term {
        Term::Literal(numeral) => numeral.parse::<f64>().unwrap(),
        Term::Value(bits) => f64::from_bits(*bits),
        Term::Unary { op, operand } => {
            let x = compute(operand);
            match op {
                OperatorType::PLUS => x.abs(),
                OperatorType::MINUS => -x,
                _ => unreachable!(),
            }
        }
        Term::Binary { left, op, right } => {
            let x = compute(left);
            let y = compute(right);
            match op {
                OperatorType::PLUS => x + y,
                OperatorType::MINUS => x - y,
                OperatorType::MULTIPLY => x * y,
                OperatorType::DIVIDE => x / y,
                OperatorType::MODULO => x % y,
                OperatorType::POWER => x.powf(y),
            }
        }
        Term::Apply { function, args } => {
            let v: Vec<f64> = args.iter().map(compute).collect();
            match function {
                Function::Sin => v[0].sin(),
                Function::Cos => v[0].cos(),
                Function::Tan => v[0].tan(),
                Function::Ceil => v[0].ceil(),
                Function::Floor => v[0].floor(),
                Function::Cbrt => v[0].cbrt(),
                Function::Round => v[0].round(),
                Function::Max => v[0].max(v[1]),
                Function::Min => v[0].min(v[1]),
                Function::Foreign(_) => v.iter().sum(),
            }
        }
    }
}

fn value(source: &str) -> f64 {
    compute(&eval(source).unwrap())
}

fn parse(source: &str) -> Expression {
    let mut lexer = Lexer::new(source.to_string());
    lexer.lex().unwrap();
    let mut parser = Parser::new(lexer.tokens());
    parser.parse_expression(0).unwrap()
}

#[test]
fn test_eval_simple() {
    let raw = "2 + 10";
    println!("Raw String: {}", raw);
    let mut lexer = Lexer::new(raw.to_string());
    lexer.lex().unwrap();

    println!("{:#?}", lexer.tokens());

    let mut parser = Parser::new(lexer.tokens());
    let expr = parser.parse_expression(0).unwrap();

    println!("\n{:#?}", expr);

    let mut ctx = Context::new();
    ctx.init();

    let result = compute(&ctx.eval(expr).unwrap());
    println!("Result: {}", result);
    assert_eq!(result, 12.0);
}

#[test]
fn numerals_evaluate_to_themselves() {
    assert_eq!(eval("7"), Ok(Term::Literal("7".to_string())));
    assert_eq!(eval("3.25"), Ok(Term::Literal("3.25".to_string())));
    assert_eq!(eval("10."), Ok(Term::Literal("10.".to_string())));
    assert_eq!(eval("  42  "), Ok(Term::Literal("42".to_string())));
    assert_eq!(value("3.25"), 3.25);
    assert_eq!(value("0"), 0.0);
    assert_eq!(value("123456789"), 123456789.0);
}

#[test]
fn precedence_binds_products_before_sums() {
    assert_eq!(value("2 + 3 * 4"), 14.0);
    assert_eq!(value("(2 + 3) * 4"), 20.0);
    assert_eq!(value("2 * 3 + 4"), 10.0);
    assert_eq!(value("8 / 4 / 2"), 1.0);
}

#[test]
fn equal_levels_group_to_the_left() {
    assert_eq!(value("2 - 3 - 1"), -2.0);
    assert_eq!(value("2 ^ 3 ^ 2"), 64.0);
    assert_eq!(value("7 % 4 ^ 2"), 9.0);
    assert_eq!(value("2 * 7 % 4"), 6.0);
}

#[test]
fn evaluation_yields_the_exact_term() {
    assert_eq!(
        eval("2 + 3 * 4"),
        Ok(Term::Binary {
            left: Box::new(Term::Literal("2".to_string())),
            op: OperatorType::PLUS,
            right: Box::new(Term::Binary {
                left: Box::new(Term::Literal("3".to_string())),
                op: OperatorType::MULTIPLY,
                right: Box::new(Term::Literal("4".to_string())),
            }),
        })
    );
    assert_eq!(
        eval("max(PI, -1)"),
        Ok(Term::Apply {
            function: Function::Max,
            args: vec![
                Term::Value(PI),
                Term::Unary {
                    op: OperatorType::MINUS,
                    operand: Box::new(Term::Literal("1".to_string())),
                },
            ],
        })
    );
}

#[test]
fn unary_signs() {
    assert_eq!(value("-2"), -2.0);
    assert_eq!(value("+-2"), 2.0);
    assert_eq!(value("--2"), 2.0);
    assert_eq!(value("-+2"), -2.0);
    assert_eq!(value("+2"), 2.0);
    assert_eq!(value("-2 ^ 2"), 4.0);
    assert_eq!(value("3 - -2"), 5.0);
}

#[test]
fn builtin_dispatch() {
    assert_eq!(value("sin(0)"), 0.0);
    assert_eq!(value("cos(0)"), 1.0);
    assert_eq!(value("tan(0)"), 0.0);
    assert_eq!(value("max(3, 7)"), 7.0);
    assert_eq!(value("min(3, 7)"), 3.0);
    assert_eq!(value("ceil(1.2)"), 2.0);
    assert_eq!(value("floor(1.8)"), 1.0);
    assert_eq!(value("round(2.5)"), 3.0);
    assert_eq!(value("cbrt(27)"), 3.0);
    assert_eq!(value("sin(0, 5)"), 0.0);
    assert_eq!(f64::round(value("sin(2) + 20^2")), 401.0);
    assert_eq!(value("max(min(1, 2), floor(0.5))"), 1.0);
}

#[test]
fn arity_errors() {
    assert_eq!(
        eval("sin()"),
        Err(Error::Other("Not enough arguments, expected 1, but got 0".to_string()))
    );
    assert_eq!(
        eval("max(1)"),
        Err(Error::Other("Not enough arguments, expected 2, but got 1".to_string()))
    );
    assert_eq!(
        eval("min()"),
        Err(Error::Other("Not enough arguments, expected 2, but got 0".to_string()))
    );
    assert_eq!(
        eval("max(1, 2, 3)"),
        Err(Error::Other("Not enough arguments, expected 2, but got 3".to_string()))
    );
    assert_eq!(
        eval("min(1,1,1,1,1,1,1,1,1,1,1,1)"),
        Err(Error::Other("Not enough arguments, expected 2, but got 12".to_string()))
    );
}

#[test]
fn undefined_references() {
    assert_eq!(eval("foo"), Err(Error::UndefinedIdentifier("foo".to_string())));
    assert_eq!(eval("bar(1)"), Err(Error::UndefinedIdentifier("bar".to_string())));
    assert_eq!(eval("1 + foo * 2"), Err(Error::UndefinedIdentifier("foo".to_string())));
    assert_eq!(eval("sin"), Err(Error::UndefinedIdentifier("sin".to_string())));
    assert_eq!(eval("PI(1)"), Err(Error::UndefinedIdentifier("PI".to_string())));
}

#[test]
fn the_first_failure_from_the_left_wins() {
    assert_eq!(eval("a + b"), Err(Error::UndefinedIdentifier("a".to_string())));
    assert_eq!(eval("f(x, y)"), Err(Error::UndefinedIdentifier("x".to_string())));
    assert_eq!(eval("max(1, y, z)"), Err(Error::UndefinedIdentifier("y".to_string())));
    assert_eq!(eval("sin(cos())"), Err(Error::Other(
        "Not enough arguments, expected 1, but got 0".to_string()
    )));
}

#[test]
fn pi_is_the_circle_constant() {
    assert_eq!(value("PI"), std::f64::consts::PI);
    assert_eq!(PI, std::f64::consts::PI.to_bits());
    assert_eq!(eval("PI"), Ok(Term::Value(PI)));
}

#[test]
fn a_prefix_operator_other_than_a_sign_is_refused() {
    let ctx = Interpreter::new();
    let expr = Expression::Unary {
        op: OperatorType::MULTIPLY,
        expr: Box::new(Expression::Number("2".to_string())),
    };
    assert_eq!(ctx.evaluate(expr), Err(Error::InvalidUnaryOperator(OperatorType::MULTIPLY)));
    let inner = Expression::Unary {
        op: OperatorType::POWER,
        expr: Box::new(Expression::Variable("nothing".to_string())),
    };
    assert_eq!(
        ctx.evaluate(inner),
        Err(Error::UndefinedIdentifier("nothing".to_string()))
    );
    assert_eq!(
        Expression::apply_unary_op(&OperatorType::MINUS, Term::Value(1)),
        Ok(Term::Unary { op: OperatorType::MINUS, operand: Box::new(Term::Value(1)) })
    );
    assert_eq!(
        Expression::apply_unary_op(&OperatorType::DIVIDE, Term::Value(1)),
        Err(Error::InvalidUnaryOperator(OperatorType::DIVIDE))
    );
}

#[test]
fn a_number_that_no_numeral_writes_is_refused() {
    let ctx = Interpreter::new();
    for text in ["", "abc", ".5", "1.2.3", "1e5", "-1"] {
        let expr = Expression::Number(text.to_string());
        assert_eq!(ctx.evaluate(expr), Err(Error::ParseNumError(text.to_string())));
    }
    let expr = Expression::Number("1.5".to_string());
    assert_eq!(ctx.evaluate(expr), Ok(Term::Literal("1.5".to_string())));
}

#[test]
fn evaluating_twice_gives_the_same_answer() {
    let ctx = Interpreter::new();
    for source in ["2 + 3 * 4", "sin(PI) - max(1, 2)", "foo + 1", "max(1)"] {
        let expr = parse(source);
        let first = expr.eval(&ctx);
        let second = expr.eval(&ctx);
        assert_eq!(first, second);
    }
}

#[test]
fn nested_parentheses() {
    for depth in [1usize, 2, 10, 200] {
        let source = format!("{}5{}", "(".repeat(depth), ")".repeat(depth));
        assert_eq!(eval(&source), Ok(Term::Literal("5".to_string())));
    }
    assert_eq!(value("((2 + 3) * (4 - 1))"), 15.0);
    assert_eq!(value("(((((1 + 2)))))"), 3.0);
}

#[test]
fn ieee_edge_cases_are_values() {
    assert_eq!(value("1 / 0"), f64::INFINITY);
    assert_eq!(value("-1 / 0"), f64::NEG_INFINITY);
    assert!(value("0 / 0").is_nan());
    assert!(value("(0 - 8) ^ 0.5").is_nan());
    assert_eq!(value("7 % 4"), 3.0);
    assert_eq!(value("2 ^ 10"), 1024.0);
}

#[test]
fn tokens_behind_the_expression_are_not_read() {
    assert_eq!(eval("2 3"), Ok(Term::Literal("2".to_string())));
    assert_eq!(eval("2 )"), Ok(Term::Literal("2".to_string())));
}

fn with_functions() -> Interpreter {
    let mut ctx = Interpreter::new();
    ctx.define_fn("f".to_string(), Function::Foreign(0));
    ctx.define_fn("g".to_string(), Function::Foreign(1));
    ctx
}

#[test]
fn a_call_of_a_function_of_the_caller_stops_the_evaluation() {
    let ctx = with_functions();
    let expr = parse("f(1) + nosuch");
    assert_eq!(
        expr.resume(&ctx, &vec![]),
        Err(Stop::Call { function: 0, args: vec![Term::Literal("1".to_string())] })
    );
    assert_eq!(
        expr.resume(&ctx, &vec![7]),
        Err(Stop::Failed(Error::UndefinedIdentifier("nosuch".to_string())))
    );
    let expr = parse("nosuch + f(1)");
    assert_eq!(
        expr.resume(&ctx, &vec![]),
        Err(Stop::Failed(Error::UndefinedIdentifier("nosuch".to_string())))
    );
}

#[test]
fn answers_are_taken_in_the_order_of_the_calls() {
    let ctx = with_functions();
    let expr = parse("g(f(1), 2) - f()");
    assert_eq!(
        expr.resume(&ctx, &vec![]),
        Err(Stop::Call { function: 0, args: vec![Term::Literal("1".to_string())] })
    );
    assert_eq!(
        expr.resume(&ctx, &vec![10]),
        Err(Stop::Call {
            function: 1,
            args: vec![Term::Value(10), Term::Literal("2".to_string())],
        })
    );
    assert_eq!(
        expr.resume(&ctx, &vec![10, 20]),
        Err(Stop::Call { function: 0, args: vec![] })
    );
    let done = Term::Binary {
        left: Box::new(Term::Value(20)),
        op: OperatorType::MINUS,
        right: Box::new(Term::Value(30)),
    };
    assert_eq!(expr.resume(&ctx, &vec![10, 20, 30]), Ok(done));
    let done = Term::Binary {
        left: Box::new(Term::Value(20)),
        op: OperatorType::MINUS,
        right: Box::new(Term::Value(30)),
    };
    assert_eq!(expr.resume(&ctx, &vec![10, 20, 30, 40]), Ok(done));
}

#[test]
fn without_functions_of_the_caller_a_step_is_the_whole_evaluation() {
    let ctx = Interpreter::new();
    for source in ["2 + 3 * 4", "max(PI, -1)", "sin(cos(1))"] {
        let expr = parse(source);
        assert_eq!(expr.resume(&ctx, &vec![]).ok(), expr.eval(&ctx).ok());
        assert_eq!(expr.resume(&ctx, &vec![5]).ok(), expr.eval(&ctx).ok());
    }
    assert_eq!(
        parse("max(1)").resume(&ctx, &vec![]),
        Err(Stop::Failed(Error::Other(
            "Not enough arguments, expected 2, but got 1".to_string()
        )))
    );
    let bad = Expression::Unary {
        op: OperatorType::POWER,
        expr: Box::new(Expression::Number("1.2.3".to_string())),
    };
    assert_eq!(
        bad.resume(&ctx, &vec![]),
        Err(Stop::Failed(Error::ParseNumError("1.2.3".to_string())))
    );
    let bad = Expression::Unary {
        op: OperatorType::POWER,
        expr: Box::new(Expression::Number("1".to_string())),
    };
    assert_eq!(
        bad.resume(&ctx, &vec![]),
        Err(Stop::Failed(Error::InvalidUnaryOperator(OperatorType::POWER)))
    );
}
