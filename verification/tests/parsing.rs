use lexper::{Error, Expression, Lexer, OperatorType, Parser, Token, TokenType};

fn parse(source: &str) -> Result<Expression, Error> {
    let mut lexer = Lexer::new(source.to_string());
    lexer.lex().unwrap();
    let mut parser = Parser::new(lexer.tokens());
    parser.parse_expression(0)
}

fn number(text: &str) -> Box<Expression> {
    Box::new(Expression::Number(text.to_string()))
}

fn binary(left: Box<Expression>, op: OperatorType, right: Box<Expression>) -> Box<Expression> {
    Box::new(Expression::Binary { left, op, right })
}

fn unexpected(expected: &str, found: Option<&str>) -> Error {
    Error::UnexpectedValue { found: found.map(|f| f.to_string()), expected: expected.to_string() }
}

#[test]
fn test_expr_simple() {
    let raw = "2 + 3";
    let mut lexer = Lexer::new(raw.to_string());
    lexer.lex().unwrap();

    println!("{:#?}", lexer.tokens());

    let mut parser = Parser::new(lexer.tokens());
    let ast = parser.parse_expression(0).unwrap();
    println!("{:#?}", ast);

    assert_eq!(
        ast,
        Expression::Binary {
            left: Box::new(Expression::Number("2".to_string())),
            op: OperatorType::PLUS,
            right: Box::new(Expression::Number("3".to_string()))
        }
    )
}

#[test]
fn tighter_operators_take_the_right_hand_side() {
    assert_eq!(
        parse("2 + 3 * 4"),
        Ok(*binary(
            number("2"),
            OperatorType::PLUS,
            binary(number("3"), OperatorType::MULTIPLY, number("4"))
        ))
    );
    assert_eq!(
        parse("2 * 3 + 4"),
        Ok(*binary(
            binary(number("2"), OperatorType::MULTIPLY, number("3")),
            OperatorType::PLUS,
            number("4")
        ))
    );
    assert_eq!(
        parse("1 + 2 ^ 3 * 4"),
        Ok(*binary(
            number("1"),
            OperatorType::PLUS,
            binary(
                binary(number("2"), OperatorType::POWER, number("3")),
                OperatorType::MULTIPLY,
                number("4")
            )
        ))
    );
}

#[test]
fn one_level_folds_to_the_left() {
    assert_eq!(
        parse("2 - 3 - 1"),
        Ok(*binary(
            binary(number("2"), OperatorType::MINUS, number("3")),
            OperatorType::MINUS,
            number("1")
        ))
    );
    assert_eq!(
        parse("2 ^ 3 % 2"),
        Ok(*binary(
            binary(number("2"), OperatorType::POWER, number("3")),
            OperatorType::MODULO,
            number("2")
        ))
    );
}

#[test]
fn a_threshold_ends_the_fold() {
    let mut lexer = Lexer::new("2 * 3 + 4".to_string());
    lexer.lex().unwrap();
    let mut parser = Parser::new(lexer.tokens());
    assert_eq!(
        parser.parse_expression(2),
        Ok(*binary(number("2"), OperatorType::MULTIPLY, number("3")))
    );
    assert_eq!(
        parser.parse_primary(),
        Ok(Expression::Unary { op: OperatorType::PLUS, expr: number("4") })
    );
    assert_eq!(parser.parse_primary(), Err(unexpected("token", None)));
    assert_eq!(parser.parse_expression(0), Err(unexpected("token", None)));
}

#[test]
fn signs_chain() {
    assert_eq!(
        parse("+-3"),
        Ok(Expression::Unary {
            op: OperatorType::PLUS,
            expr: Box::new(Expression::Unary { op: OperatorType::MINUS, expr: number("3") }),
        })
    );
    assert_eq!(
        parse("-2 ^ 2"),
        Ok(*binary(
            Box::new(Expression::Unary { op: OperatorType::MINUS, expr: number("2") }),
            OperatorType::POWER,
            number("2")
        ))
    );
}

#[test]
fn calls_and_variables() {
    assert_eq!(parse("x"), Ok(Expression::Variable("x".to_string())));
    assert_eq!(parse("f()"), Ok(Expression::Call { callee: "f".to_string(), args: vec![] }));
    assert_eq!(
        parse("f(1, g(x), 2 + 3)"),
        Ok(Expression::Call {
            callee: "f".to_string(),
            args: vec![
                *number("1"),
                Expression::Call {
                    callee: "g".to_string(),
                    args: vec![Expression::Variable("x".to_string())],
                },
                *binary(number("2"), OperatorType::PLUS, number("3")),
            ],
        })
    );
    assert_eq!(
        parse("x * (1)"),
        Ok(*binary(
            Box::new(Expression::Variable("x".to_string())),
            OperatorType::MULTIPLY,
            number("1")
        ))
    );
}

#[test]
fn parentheses_leave_no_node() {
    assert_eq!(parse("(2)"), Ok(*number("2")));
    assert_eq!(
        parse("(2 + 3) * 4"),
        Ok(*binary(
            binary(number("2"), OperatorType::PLUS, number("3")),
            OperatorType::MULTIPLY,
            number("4")
        ))
    );
}

#[test]
fn parse_failures() {
    assert_eq!(parse(""), Err(unexpected("token", None)));
    assert_eq!(parse("2 +"), Err(unexpected("token", None)));
    assert_eq!(parse("-"), Err(unexpected("token", None)));
    assert_eq!(parse(")"), Err(unexpected("number or (", Some("RPAREN"))));
    assert_eq!(parse("* 2"), Err(unexpected("number or (", Some("OPERATOR(MULTIPLY)"))));
    assert_eq!(parse("2 + / 2"), Err(unexpected("number or (", Some("OPERATOR(DIVIDE)"))));
    assert_eq!(parse("% 2"), Err(unexpected("number or (", Some("OPERATOR(MODULO)"))));
    assert_eq!(parse("^"), Err(unexpected("number or (", Some("OPERATOR(POWER)"))));
    assert_eq!(parse(","), Err(unexpected("number or (", Some("COMMA"))));
    assert_eq!(parse("(2"), Err(unexpected(")", None)));
    assert_eq!(parse("(2 3"), Err(unexpected(")", Some("LITERAL(3)"))));
    assert_eq!(parse("(2 x"), Err(unexpected(")", Some("IDENTIFIER(\"x\")"))));
    assert_eq!(parse("(2, 3)"), Err(unexpected(")", Some("COMMA"))));
    assert_eq!(parse("((2) ("), Err(unexpected(")", Some("LPAREN"))));
    assert_eq!(parse("f("), Err(unexpected("token", None)));
    assert_eq!(parse("f(1"), Err(unexpected(", or ( in argument list", None)));
    assert_eq!(parse("f(1 2)"), Err(unexpected(", or ( in argument list", Some("LITERAL(2)"))));
    assert_eq!(
        parse("f(1 x)"),
        Err(unexpected(", or ( in argument list", Some("IDENTIFIER(\"x\")")))
    );
    assert_eq!(parse("f(1 (2))"), Err(unexpected(", or ( in argument list", Some("LPAREN"))));
    assert_eq!(parse("f(1,)"), Err(unexpected("number or (", Some("RPAREN"))));
    assert_eq!(parse("f(,)"), Err(unexpected("number or (", Some("COMMA"))));
    assert_eq!(parse("f(1, (2)"), Err(unexpected(", or ( in argument list", None)));
}

#[test]
fn hand_made_tokens() {
    let tokens = vec![
        Token::new(TokenType::IDENTIFIER("max".to_string()), 1, 1),
        Token::new(TokenType::LPAREN, 1, 4),
        Token::new(TokenType::LITERAL("1".to_string()), 1, 5),
        Token::new(TokenType::COMMA, 1, 6),
        Token::new(TokenType::LITERAL("2".to_string()), 1, 7),
        Token::new(TokenType::RPAREN, 1, 8),
    ];
    let mut parser = Parser::new(&tokens);
    assert_eq!(
        parser.parse_expression(0),
        Ok(Expression::Call { callee: "max".to_string(), args: vec![*number("1"), *number("2")] })
    );
}

#[test]
fn a_call_that_is_not_closed() {
    let tokens = vec![
        Token::new(TokenType::IDENTIFIER("f".to_string()), 1, 1),
        Token::new(TokenType::LPAREN, 1, 2),
        Token::new(TokenType::RPAREN, 1, 3),
        Token::new(TokenType::IDENTIFIER("x".to_string()), 1, 4),
    ];
    let mut parser = Parser::new(&tokens);
    assert_eq!(
        parser.parse_expression(0),
        Ok(Expression::Call { callee: "f".to_string(), args: vec![] })
    );
    assert_eq!(parser.parse_primary(), Ok(Expression::Variable("x".to_string())));
    assert_eq!(parser.parse_primary(), Err(unexpected("token", None)));
    assert_eq!(parser.parse_primary(), Err(unexpected("token", None)));
}
