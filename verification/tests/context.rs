use lexper::interpreter::PI;
use lexper::term::check_numeral;
use lexper::{Context, Error, Expression, Function, Interpreter, OperatorType, Term};

#[test]
fn the_standard_context() {
    let ctx = Interpreter::new();
    assert_eq!(ctx.get_var("PI"), Some(PI));
    assert_eq!(ctx.get_var("pi"), None);
    assert_eq!(ctx.get_var("sin"), None);
    for (name, function) in [
        ("sin", Function::Sin),
        ("cos", Function::Cos),
        ("tan", Function::Tan),
        ("ceil", Function::Ceil),
        ("floor", Function::Floor),
        ("cbrt", Function::Cbrt),
        ("round", Function::Round),
    ] {
        assert_eq!(
            ctx.call_fn(name, vec![Term::Value(1)]),
            Some(Ok(Term::Apply { function, args: vec![Term::Value(1)] }))
        );
        assert_eq!(
            ctx.call_fn(name, vec![]),
            Some(Err(Error::Other("Not enough arguments, expected 1, but got 0".to_string())))
        );
    }
    for (name, function) in [("max", Function::Max), ("min", Function::Min)] {
        assert_eq!(
            ctx.call_fn(name, vec![Term::Value(1), Term::Value(2)]),
            Some(Ok(Term::Apply { function, args: vec![Term::Value(1), Term::Value(2)] }))
        );
        assert_eq!(
            ctx.call_fn(name, vec![Term::Value(1)]),
            Some(Err(Error::Other("Not enough arguments, expected 2, but got 1".to_string())))
        );
    }
    assert_eq!(ctx.call_fn("sqrt", vec![Term::Value(1)]), None);
    assert_eq!(ctx.call_fn("PI", vec![]), None);
}

#[test]
fn the_last_definition_of_a_name_holds() {
    let mut ctx = Interpreter::new();
    ctx.define_var("x".to_string(), 1);
    ctx.define_var("y".to_string(), 2);
    assert_eq!(ctx.get_var("x"), Some(1));
    ctx.define_var("x".to_string(), 3);
    assert_eq!(ctx.get_var("x"), Some(3));
    assert_eq!(ctx.get_var("y"), Some(2));
    ctx.define_var("PI".to_string(), 4);
    assert_eq!(ctx.get_var("PI"), Some(4));

    ctx.define_fn("sin".to_string(), Function::Max);
    assert_eq!(
        ctx.call_fn("sin", vec![Term::Value(1)]),
        Some(Err(Error::Other("Not enough arguments, expected 2, but got 1".to_string())))
    );
    ctx.define_fn("mine".to_string(), Function::Foreign(5));
    assert_eq!(
        ctx.call_fn("mine", vec![]),
        Some(Ok(Term::Apply { function: Function::Foreign(5), args: vec![] }))
    );
    assert_eq!(ctx.call_fn("cos", vec![]).map(|r| r.is_err()), Some(true));
}

#[test]
fn variables_and_functions_are_named_apart() {
    let mut ctx = Interpreter::new();
    ctx.define_var("sin".to_string(), 9);
    assert_eq!(ctx.get_var("sin"), Some(9));
    let call = Expression::Call {
        callee: "sin".to_string(),
        args: vec![Expression::Variable("sin".to_string())],
    };
    assert_eq!(
        ctx.evaluate(call),
        Ok(Term::Apply { function: Function::Sin, args: vec![Term::Value(9)] })
    );
}

#[test]
fn a_context_starts_without_variables() {
    let mut ctx = Context::new();
    assert_eq!(ctx.get_var("PI"), None);
    assert_eq!(
        ctx.eval(Expression::Variable("PI".to_string())),
        Err(Error::UndefinedIdentifier("PI".to_string()))
    );
    ctx.init();
    assert_eq!(ctx.get_var("PI"), Some(PI));
    ctx.define("two".to_string(), 2.0f64.to_bits());
    assert_eq!(ctx.get_var("two"), Some(0x4000_0000_0000_0000));
    assert_eq!(
        ctx.eval(Expression::Variable("two".to_string())),
        Ok(Term::Value(0x4000_0000_0000_0000))
    );
    assert_eq!(
        ctx.eval(Expression::Call { callee: "floor".to_string(), args: vec![] }),
        Err(Error::Other("Not enough arguments, expected 1, but got 0".to_string()))
    );
}

#[test]
fn error_builders() {
    assert_eq!(
        Error::invalid_unary_op(&OperatorType::POWER),
        Error::InvalidUnaryOperator(OperatorType::POWER)
    );
    assert_eq!(
        Error::unexpected_value(")", Some("COMMA")),
        Error::UnexpectedValue { found: Some("COMMA".to_string()), expected: ")".to_string() }
    );
    assert_eq!(
        Error::unexpected_value("token", None),
        Error::UnexpectedValue { found: None, expected: "token".to_string() }
    );
    assert_eq!(Error::unknown_char(2, 5, '@'), Error::UnknownChar { row: 2, col: 5, char: '@' });
    assert_eq!(
        Error::undefined("foo".to_string()),
        Error::UndefinedIdentifier("foo".to_string())
    );
    assert_eq!(Error::other("bad".to_string()), Error::Other("bad".to_string()));
}

#[test]
fn error_messages() {
    assert_eq!(
        Error::InvalidUnaryOperator(OperatorType::DIVIDE).message(),
        "Invalid unary operator usage. Operator: DIVIDE"
    );
    assert_eq!(
        Error::unexpected_value(")", Some("COMMA")).message(),
        "Expected: ')', but got: 'COMMA'"
    );
    assert_eq!(
        Error::unexpected_value("token", None).message(),
        "Expected: 'token', but nothing found"
    );
    assert_eq!(
        Error::undefined("foo".to_string()).message(),
        "Undefined identifier met: foo"
    );
    assert_eq!(
        Error::unknown_char(12, 345, '@').message(),
        "Unknown character met at: Row: 12, Column: 345, Character: @"
    );
    assert_eq!(Error::other("bad".to_string()).message(), "bad");
    assert_eq!(
        Error::ParseNumError("1.2.3".to_string()).message(),
        "invalid float literal"
    );
}

#[test]
fn arity_rules() {
    assert_eq!(Function::Sin.check(1), None);
    assert_eq!(Function::Sin.check(3), None);
    assert_eq!(
        Function::Round.check(0),
        Some("Not enough arguments, expected 1, but got 0".to_string())
    );
    assert_eq!(Function::Max.check(2), None);
    assert_eq!(
        Function::Min.check(10),
        Some("Not enough arguments, expected 2, but got 10".to_string())
    );
    assert_eq!(Function::Foreign(0).check(0), None);
    assert_eq!(Function::Foreign(0).check(9), None);
}

#[test]
fn numerals() {
    for text in ["0", "12", "1.", "1.5", "00.10"] {
        assert!(check_numeral(text));
    }
    for text in ["", ".", ".5", "1.2.3", "1a", "a1", "-1", "1 ", "1e3"] {
        assert!(!check_numeral(text));
    }
}

#[test]
fn default_contexts() {
    let ctx = Interpreter::default();
    assert_eq!(ctx.get_var("PI"), None);
    assert_eq!(ctx.call_fn("sin", vec![Term::Value(1)]), None);
    let ctx = Context::default();
    assert_eq!(ctx.get_var("PI"), None);
    assert_eq!(
        ctx.eval(Expression::Call { callee: "sin".to_string(), args: vec![Expression::Number("1".to_string())] }),
        Ok(Term::Apply { function: Function::Sin, args: vec![Term::Literal("1".to_string())] })
    );
    assert!(format!("{:?}", ctx).contains("sin"));
}
