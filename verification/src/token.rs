//! The lexical alphabet: operators with their binding strength, token kinds
//! and positioned tokens.
use vstd::prelude::*;

verus! {

/// The six arithmetic operators.
#[derive(Debug, Clone, Copy, PartialEq, Eq, Structural)]
#[allow(clippy::upper_case_acronyms)]
pub enum OperatorType {
    PLUS,
    MINUS,
    MULTIPLY,
    DIVIDE,
    MODULO,
    POWER,
}

impl OperatorType {
    /// Binding strength as a mathematical integer; higher binds tighter.
    /// Modulo shares the top tier with power.
    pub open spec fn level(self) -> int {
        match self {
            OperatorType::PLUS | OperatorType::MINUS => 1,
            OperatorType::MULTIPLY | OperatorType::DIVIDE => 2,
            OperatorType::POWER | OperatorType::MODULO => 3,
        }
    }

    /// Whether the operator may stand in prefix position.
    pub open spec fn is_sign(self) -> bool {
        self == OperatorType::PLUS || self == OperatorType::MINUS
    }

    /// The operator's name, as diagnostics print it.
    pub open spec fn name(self) -> Seq<char> {
        match self {
            OperatorType::PLUS => "PLUS"@,
            OperatorType::MINUS => "MINUS"@,
            OperatorType::MULTIPLY => "MULTIPLY"@,
            OperatorType::DIVIDE => "DIVIDE"@,
            OperatorType::MODULO => "MODULO"@,
            OperatorType::POWER => "POWER"@,
        }
    }

    /// Binding strength of the operator.
    pub fn precendance(&self) -> (p: u8)
        ensures
            p as int == self.level(),
            1 <= p <= 3,
    {
        match self {
            OperatorType::PLUS | OperatorType::MINUS => 1,
            OperatorType::MULTIPLY | OperatorType::DIVIDE => 2,
            OperatorType::POWER | OperatorType::MODULO => 3,
        }
    }

    /// The operator's name as a string.
    pub fn label(&self) -> (s: &'static str)
        ensures
            s@ == self.name(),
    {
        match self {
            OperatorType::PLUS => "PLUS",
            OperatorType::MINUS => "MINUS",
            OperatorType::MULTIPLY => "MULTIPLY",
            OperatorType::DIVIDE => "DIVIDE",
            OperatorType::MODULO => "MODULO",
            OperatorType::POWER => "POWER",
        }
    }
}

/// What a token is. A literal carries the numeral exactly as it was written;
/// an identifier carries its name.
#[derive(Debug, Clone, PartialEq, Eq)]
#[allow(clippy::upper_case_acronyms)]
pub enum TokenType {
    LITERAL(String),
    OPERATOR(OperatorType),
    LPAREN,
    RPAREN,
    IDENTIFIER(String),
    COMMA,
}

/// Mathematical model of a [`TokenType`].
pub enum Kind {
    Literal(Seq<char>),
    Operator(OperatorType),
    LParen,
    RParen,
    Identifier(Seq<char>),
    Comma,
}

impl Kind {
    /// The text that diagnostics show for a token of this kind. A numeral
    /// is shown as it was written, and the name of an identifier in double
    /// quotes.
    pub open spec fn describe(self) -> Seq<char> {
        match self {
            Kind::Literal(n) => "LITERAL("@ + n + ")"@,
            Kind::Operator(op) => "OPERATOR("@ + op.name() + ")"@,
            Kind::LParen => "LPAREN"@,
            Kind::RParen => "RPAREN"@,
            Kind::Identifier(n) => "IDENTIFIER(\""@ + n + "\")"@,
            Kind::Comma => "COMMA"@,
        }
    }
}

impl View for TokenType {
    type V = Kind;

    open spec fn view(&self) -> Kind {
        match self {
            TokenType::LITERAL(n) => Kind::Literal(n@),
            TokenType::OPERATOR(op) => Kind::Operator(*op),
            TokenType::LPAREN => Kind::LParen,
            TokenType::RPAREN => Kind::RParen,
            TokenType::IDENTIFIER(n) => Kind::Identifier(n@),
            TokenType::COMMA => Kind::Comma,
        }
    }
}

impl TokenType {
    /// A copy of this token type.
    pub fn duplicate(&self) -> (r: TokenType)
        ensures
            r@ == self@,
    {
        match self {
            TokenType::LITERAL(n) => TokenType::LITERAL(n.clone()),
            TokenType::OPERATOR(op) => TokenType::OPERATOR(*op),
            TokenType::LPAREN => TokenType::LPAREN,
            TokenType::RPAREN => TokenType::RPAREN,
            TokenType::IDENTIFIER(n) => TokenType::IDENTIFIER(n.clone()),
            TokenType::COMMA => TokenType::COMMA,
        }
    }

    /// Whether the two token types are equal.
    pub fn same(&self, other: &TokenType) -> (r: bool)
        ensures
            r == (self@ == other@),
    {
        match (self, other) {
            (TokenType::LITERAL(a), TokenType::LITERAL(b)) => *a == *b,
            (TokenType::OPERATOR(a), TokenType::OPERATOR(b)) => *a == *b,
            (TokenType::LPAREN, TokenType::LPAREN) => true,
            (TokenType::RPAREN, TokenType::RPAREN) => true,
            (TokenType::IDENTIFIER(a), TokenType::IDENTIFIER(b)) => *a == *b,
            (TokenType::COMMA, TokenType::COMMA) => true,
            _ => false,
        }
    }

    /// The text that diagnostics show for this token type: a numeral as it
    /// was written, the name of an identifier in double quotes.
    pub fn describe(&self) -> (s: String)
        ensures
            s@ == self@.describe(),
    {
        match self {
            TokenType::LITERAL(n) => {
                let mut s = "LITERAL(".to_owned();
                s.append(n.as_str());
                s.append(")");
                s
            },
            TokenType::OPERATOR(op) => {
                let mut s = "OPERATOR(".to_owned();
                s.append(op.label());
                s.append(")");
                s
            },
            TokenType::LPAREN => "LPAREN".to_owned(),
            TokenType::RPAREN => "RPAREN".to_owned(),
            TokenType::IDENTIFIER(n) => {
                let mut s = "IDENTIFIER(\"".to_owned();
                s.append(n.as_str());
                s.append("\")");
                s
            },
            TokenType::COMMA => "COMMA".to_owned(),
        }
    }
}

/// A token with the line and column at which it starts, both counted from 1.
#[derive(Debug, Clone, PartialEq, Eq)]
pub struct Token {
    pub kind: TokenType,
    pub line: usize,
    pub col: usize,
}

/// Mathematical model of a [`Token`].
pub struct Lexeme {
    pub kind: Kind,
    pub line: nat,
    pub col: nat,
}

impl View for Token {
    type V = Lexeme;

    open spec fn view(&self) -> Lexeme {
        Lexeme { kind: self.kind@, line: self.line as nat, col: self.col as nat }
    }
}

/// The models of a sequence of tokens, in order.
pub open spec fn lexemes(tokens: Seq<Token>) -> Seq<Lexeme> {
    tokens.map_values(|t: Token| t@)
}

impl Token {
    /// A token of the given kind at the given position.
    pub fn new(kind: TokenType, line: usize, col: usize) -> (t: Token)
        ensures
            t.kind == kind,
            t.line == line,
            t.col == col,
    {
        Token { kind, line, col }
    }

    /// The operator this token stands for, if it is one.
    pub fn get_op(&self) -> (r: Option<OperatorType>)
        ensures
            r == (match self@.kind {
                Kind::Operator(op) => Some(op),
                _ => None,
            }),
    {
        match &self.kind {
            TokenType::OPERATOR(x) => Some(*x),
            _ => None,
        }
    }

    /// A copy of this token's type.
    pub fn get_type(&self) -> (r: TokenType)
        ensures
            r@ == self@.kind,
    {
        self.kind.duplicate()
    }

    /// This token's type.
    pub fn ty(&self) -> (r: &TokenType)
        ensures
            *r == self.kind,
    {
        &self.kind
    }
}

} // verus!
