//! The failures that lexing, parsing and evaluation report.
use vstd::prelude::*;
use vstd::string::*;
use crate::text::{decimal, decimal_string, push_char};
use crate::token::OperatorType;

verus! {

/// Every failure of the library. Nothing in it aborts; each layer hands one of
/// these up to its caller.
#[derive(Debug, Clone, PartialEq, Eq)]
pub enum Error {
    /// A scanned numeral is not a number; carries the numeral.
    ParseNumError(String),
    /// An operator other than plus or minus stands in prefix position.
    InvalidUnaryOperator(OperatorType),
    /// The parser met something other than what the grammar asks for.
    UnexpectedValue { found: Option<String>, expected: String },
    /// A variable or function name that the context does not bind.
    UndefinedIdentifier(String),
    /// A character outside the alphabet, with its position.
    UnknownChar { row: usize, col: usize, char: char },
    /// A failure described by its message only.
    Other(String),
}

/// Mathematical model of an [`Error`].
pub enum Failure {
    ParseNum(Seq<char>),
    InvalidUnaryOperator(OperatorType),
    UnexpectedValue { found: Option<Seq<char>>, expected: Seq<char> },
    UndefinedIdentifier(Seq<char>),
    UnknownChar { row: nat, col: nat, ch: char },
    Other(Seq<char>),
}

impl Failure {
    /// The text that describes the failure to a reader.
    pub open spec fn message(self) -> Seq<char> {
        match self {
            Failure::ParseNum(_) => "invalid float literal"@,
            Failure::InvalidUnaryOperator(op) => "Invalid unary operator usage. Operator: "@
                + op.name(),
            Failure::UnexpectedValue { found, expected } => match found {
                Some(f) => "Expected: '"@ + expected + "', but got: '"@ + f + "'"@,
                None => "Expected: '"@ + expected + "', but nothing found"@,
            },
            Failure::UndefinedIdentifier(name) => "Undefined identifier met: "@ + name,
            Failure::UnknownChar { row, col, ch } => ("Unknown character met at: Row: "@ + decimal(
                row,
            ) + ", Column: "@ + decimal(col) + ", Character: "@).push(ch),
            Failure::Other(m) => m,
        }
    }
}

impl View for Error {
    type V = Failure;

    open spec fn view(&self) -> Failure {
        match self {
            Error::ParseNumError(n) => Failure::ParseNum(n@),
            Error::InvalidUnaryOperator(op) => Failure::InvalidUnaryOperator(*op),
            Error::UnexpectedValue { found, expected } => Failure::UnexpectedValue {
                found: match found {
                    Some(f) => Some(f@),
                    None => None,
                },
                expected: expected@,
            },
            Error::UndefinedIdentifier(n) => Failure::UndefinedIdentifier(n@),
            Error::UnknownChar { row, col, char } => Failure::UnknownChar {
                row: *row as nat,
                col: *col as nat,
                ch: *char,
            },
            Error::Other(m) => Failure::Other(m@),
        }
    }
}

impl Error {
    /// The error for an operator that cannot stand in prefix position.
    pub fn invalid_unary_op(op: &OperatorType) -> (e: Error)
        ensures
            e@ == Failure::InvalidUnaryOperator(*op),
    {
        Error::InvalidUnaryOperator(*op)
    }

    /// The error for a token other than the expected one; `found` is absent
    /// where the input ended.
    pub fn unexpected_value(expected: &str, found: Option<&str>) -> (e: Error)
        ensures
            e@ == (Failure::UnexpectedValue {
                found: match found {
                    Some(f) => Some(f@),
                    None => None,
                },
                expected: expected@,
            }),
    {
        let found: Option<String> = match found {
            Some(f) => Some(f.to_owned()),
            None => None,
        };
        Error::UnexpectedValue { found, expected: expected.to_owned() }
    }

    /// The error for a character outside the alphabet.
    pub fn unknown_char(row: usize, col: usize, char: char) -> (e: Error)
        ensures
            e@ == (Failure::UnknownChar { row: row as nat, col: col as nat, ch: char }),
    {
        Error::UnknownChar { row, col, char }
    }

    /// The error for a name that nothing binds.
    pub fn undefined(ident: String) -> (e: Error)
        ensures
            e@ == Failure::UndefinedIdentifier(ident@),
    {
        Error::UndefinedIdentifier(ident)
    }

    /// The text that describes the error to a reader.
    pub fn message(&self) -> (s: String)
        ensures
            s@ == self@.message(),
    {
        match self {
            Error::ParseNumError(_) => "invalid float literal".to_owned(),
            Error::InvalidUnaryOperator(op) => {
                let mut s = "Invalid unary operator usage. Operator: ".to_owned();
                s.append(op.label());
                s
            },
            Error::UnexpectedValue { found, expected } => {
                let mut s = "Expected: '".to_owned();
                s.append(expected.as_str());
                match found {
                    Some(f) => {
                        s.append("', but got: '");
                        s.append(f.as_str());
                        s.append("'");
                    },
                    None => {
                        s.append("', but nothing found");
                    },
                }
                s
            },
            Error::UndefinedIdentifier(name) => {
                let mut s = "Undefined identifier met: ".to_owned();
                s.append(name.as_str());
                s
            },
            Error::UnknownChar { row, col, char } => {
                let mut s = "Unknown character met at: Row: ".to_owned();
                let r = decimal_string(*row);
                s.append(r.as_str());
                s.append(", Column: ");
                let c = decimal_string(*col);
                s.append(c.as_str());
                s.append(", Character: ");
                push_char(&mut s, *char);
                s
            },
            Error::Other(m) => m.clone(),
        }
    }

    /// An error that carries only a message.
    pub fn other(s: String) -> (e: Error)
        ensures
            e@ == Failure::Other(s@),
    {
        Error::Other(s)
    }
}

} // verus!
