//! The lexer: from source text to positioned tokens.
//!
//! Lines and columns are counted from 1 over the source without its leading
//! and trailing white space. Each character read adds one to the column,
//! except a newline between tokens, which adds one to the line and leaves the
//! column as it is.
use vstd::prelude::*;
use vstd::string::*;
use crate::error::{Error, Failure};
use crate::text::{
    alphanumeric, is_digit, is_identifier_char, is_identifier_start, is_numeral_char, to_chars,
    trim, trimmed,
};
use crate::token::{lexemes, Kind, Lexeme, OperatorType, Token, TokenType};

verus! {

/// Where the run of numeral characters that begins at `pos` ends.
pub open spec fn numeral_end(s: Seq<char>, pos: int) -> int
    decreases s.len() - pos,
{
    if 0 <= pos < s.len() && is_numeral_char(s[pos]) {
        numeral_end(s, pos + 1)
    } else {
        pos
    }
}

/// Where the run of identifier characters that begins at `pos` ends.
pub open spec fn identifier_end(s: Seq<char>, pos: int) -> int
    decreases s.len() - pos,
{
    if 0 <= pos < s.len() && is_identifier_char(s[pos]) {
        identifier_end(s, pos + 1)
    } else {
        pos
    }
}

/// A run never ends before it begins, nor beyond the text.
pub proof fn lemma_run_bounds(s: Seq<char>, pos: int)
    requires
        0 <= pos <= s.len(),
    ensures
        pos <= numeral_end(s, pos) <= s.len(),
        pos <= identifier_end(s, pos) <= s.len(),
    decreases s.len() - pos,
{
    if pos < s.len() {
        lemma_run_bounds(s, pos + 1);
    }
}

/// How many dots the text holds.
pub open spec fn count_dots(s: Seq<char>) -> nat
    decreases s.len(),
{
    if s.len() == 0 {
        0
    } else {
        count_dots(s.drop_last()) + if s.last() == '.' {
            1nat
        } else {
            0nat
        }
    }
}

/// A run of digits and dots that begins with a digit writes a number exactly
/// when it holds at most one dot.
pub open spec fn is_number(s: Seq<char>) -> bool {
    count_dots(s) <= 1
}

/// The token that a single character stands for, if it stands for one.
pub open spec fn symbol(c: char) -> Option<Kind> {
    if c == '+' {
        Some(Kind::Operator(OperatorType::PLUS))
    } else if c == '-' {
        Some(Kind::Operator(OperatorType::MINUS))
    } else if c == '*' {
        Some(Kind::Operator(OperatorType::MULTIPLY))
    } else if c == '/' {
        Some(Kind::Operator(OperatorType::DIVIDE))
    } else if c == '%' {
        Some(Kind::Operator(OperatorType::MODULO))
    } else if c == '^' {
        Some(Kind::Operator(OperatorType::POWER))
    } else if c == '(' {
        Some(Kind::LParen)
    } else if c == ')' {
        Some(Kind::RParen)
    } else if c == ',' {
        Some(Kind::Comma)
    } else {
        None
    }
}

/// What a scan yields: the tokens found, and the failure that ended it early,
/// if one did.
pub struct Scan {
    pub tokens: Seq<Lexeme>,
    pub failure: Option<Failure>,
}

impl Scan {
    /// The scan with one more token in front.
    pub open spec fn after(self, first: Lexeme) -> Scan {
        Scan { tokens: seq![first] + self.tokens, failure: self.failure }
    }
}

/// The scan of `s` from `pos` on, where `pos` stands at the given line and
/// column.
pub open spec fn scan_from(s: Seq<char>, pos: int, line: nat, col: nat) -> Scan
    decreases s.len() - pos,
{
    if pos < 0 || pos >= s.len() {
        Scan { tokens: Seq::empty(), failure: None }
    } else {
        let c = s[pos];
        if is_digit(c) {
            let end = numeral_end(s, pos + 1);
            let text = s.subrange(pos, end);
            proof {
                lemma_run_bounds(s, pos + 1);
            }
            if is_number(text) {
                scan_from(s, end, line, (col + end - pos) as nat).after(
                    Lexeme { kind: Kind::Literal(text), line, col },
                )
            } else {
                Scan { tokens: Seq::empty(), failure: Some(Failure::ParseNum(text)) }
            }
        } else if is_identifier_start(c) {
            let end = identifier_end(s, pos + 1);
            proof {
                lemma_run_bounds(s, pos + 1);
            }
            scan_from(s, end, line, (col + end - pos) as nat).after(
                Lexeme { kind: Kind::Identifier(s.subrange(pos, end)), line, col },
            )
        } else if symbol(c) is Some {
            scan_from(s, pos + 1, line, col + 1).after(Lexeme { kind: symbol(c)->0, line, col })
        } else if c == ' ' || c == '\t' {
            scan_from(s, pos + 1, line, col + 1)
        } else if c == '\n' {
            scan_from(s, pos + 1, line + 1, col)
        } else {
            Scan { tokens: Seq::empty(), failure: Some(Failure::UnknownChar { row: line, col, ch: c }) }
        }
    }
}

/// The scan of a source text: of the text without its leading and trailing
/// white space, from line 1 and column 1.
pub open spec fn scan(source: Seq<char>) -> Scan {
    scan_from(trimmed(source), 0, 1, 1)
}

fn symbol_of(c: char) -> (r: Option<TokenType>)
    ensures
        match r {
            Some(k) => symbol(c) == Some(k@),
            None => symbol(c) is None,
        },
{
    if c == '+' {
        Some(TokenType::OPERATOR(OperatorType::PLUS))
    } else if c == '-' {
        Some(TokenType::OPERATOR(OperatorType::MINUS))
    } else if c == '*' {
        Some(TokenType::OPERATOR(OperatorType::MULTIPLY))
    } else if c == '/' {
        Some(TokenType::OPERATOR(OperatorType::DIVIDE))
    } else if c == '%' {
        Some(TokenType::OPERATOR(OperatorType::MODULO))
    } else if c == '^' {
        Some(TokenType::OPERATOR(OperatorType::POWER))
    } else if c == '(' {
        Some(TokenType::LPAREN)
    } else if c == ')' {
        Some(TokenType::RPAREN)
    } else if c == ',' {
        Some(TokenType::COMMA)
    } else {
        None
    }
}

proof fn lemma_token_added(before: Seq<Token>, t: Token, rest: Seq<Lexeme>)
    ensures
        lexemes(before.push(t)) + rest =~= lexemes(before) + (seq![t@] + rest),
{
    assert(lexemes(before.push(t)) =~= lexemes(before).push(t@));
}

/// Turns a source text into tokens.
#[derive(Debug, Clone)]
pub struct Lexer {
    tokens: Vec<Token>,
    source: String,
}

impl Lexer {
    /// The source text that this lexer reads.
    pub closed spec fn text(&self) -> Seq<char> {
        self.source@
    }

    /// The tokens that this lexer holds.
    pub closed spec fn found(&self) -> Seq<Token> {
        self.tokens@
    }

    /// A lexer for the source, with no tokens yet.
    pub fn new(source: String) -> (l: Lexer)
        ensures
            l.text() == source@,
            l.found() == Seq::<Token>::empty(),
    {
        Lexer { tokens: Vec::new(), source }
    }

    /// Scans the source and appends the tokens found to those held. On a
    /// failure the tokens found before it stay, and nothing after it is read.
    pub fn lex(&mut self) -> (r: Result<(), Error>)
        ensures
            final(self).text() == old(self).text(),
            lexemes(final(self).found()) == lexemes(old(self).found()) + scan(
                old(self).text(),
            ).tokens,
            match r {
                Ok(_) => scan(old(self).text()).failure is None,
                Err(e) => scan(old(self).text()).failure == Some(e@),
            },
    {
        let text: &str = trim(self.source.as_str());
        let chars: Vec<char> = to_chars(text);
        let n: usize = chars.len();
        let mut pos: usize = 0;
        let mut newlines: usize = 0;
        let ghost total = scan(self.source@);
        let ghost held = lexemes(self.tokens@);
        while pos < n
            invariant
                self.source == old(self).source,
                text@ == chars@,
                chars@ == trimmed(self.source@),
                n == chars.len(),
                newlines <= pos <= n,
                total == scan(self.source@),
                held == lexemes(old(self).tokens@),
                lexemes(self.tokens@) + scan_from(
                    chars@,
                    pos as int,
                    (newlines + 1) as nat,
                    (pos - newlines + 1) as nat,
                ).tokens == held + total.tokens,
                scan_from(
                    chars@,
                    pos as int,
                    (newlines + 1) as nat,
                    (pos - newlines + 1) as nat,
                ).failure == total.failure,
            decreases n - pos,
        {
            let c: char = chars[pos];
            let line: usize = newlines + 1;
            let col: usize = pos - newlines + 1;
            let ghost here = scan_from(chars@, pos as int, line as nat, col as nat);
            if c >= '0' && c <= '9' {
                let mut end: usize = pos + 1;
                let mut dots: usize = 0;
                assert(chars@.subrange(pos as int, end as int).drop_last() =~= Seq::<char>::empty());
                assert(count_dots(chars@.subrange(pos as int, end as int).drop_last()) == 0);
                assert(chars@.subrange(pos as int, end as int).last() == c);
                while end < n && ((chars[end] >= '0' && chars[end] <= '9') || chars[end] == '.')
                    invariant
                        pos < end <= n == chars.len(),
                        dots <= end - pos,
                        dots == count_dots(chars@.subrange(pos as int, end as int)),
                        numeral_end(chars@, pos + 1) == numeral_end(chars@, end as int),
                    decreases n - end,
                {
                    assert(chars@.subrange(pos as int, end + 1).drop_last() =~= chars@.subrange(
                        pos as int,
                        end as int,
                    ));
                    if chars[end] == '.' {
                        dots += 1;
                    }
                    end += 1;
                }
                let numeral: String = text.substring_char(pos, end).to_owned();
                if dots > 1 {
                    return Err(Error::ParseNumError(numeral));
                }
                proof {
                    lemma_token_added(
                        self.tokens@,
                        Token { kind: TokenType::LITERAL(numeral), line, col },
                        scan_from(chars@, end as int, line as nat, (col + end - pos) as nat).tokens,
                    );
                }
                self.tokens.push(Token::new(TokenType::LITERAL(numeral), line, col));
                pos = end;
            } else if (c >= 'a' && c <= 'z') || (c >= 'A' && c <= 'Z') || c == '_' {
                let mut end: usize = pos + 1;
                while end < n && (alphanumeric(chars[end]) || chars[end] == '_')
                    invariant
                        pos < end <= n == chars.len(),
                        identifier_end(chars@, pos + 1) == identifier_end(chars@, end as int),
                    decreases n - end,
                {
                    end += 1;
                }
                let name: String = text.substring_char(pos, end).to_owned();
                proof {
                    lemma_token_added(
                        self.tokens@,
                        Token { kind: TokenType::IDENTIFIER(name), line, col },
                        scan_from(chars@, end as int, line as nat, (col + end - pos) as nat).tokens,
                    );
                }
                self.tokens.push(Token::new(TokenType::IDENTIFIER(name), line, col));
                pos = end;
            } else {
                match symbol_of(c) {
                    Some(kind) => {
                        proof {
                            lemma_token_added(
                                self.tokens@,
                                Token { kind, line, col },
                                scan_from(chars@, pos + 1, line as nat, (col + 1) as nat).tokens,
                            );
                        }
                        self.tokens.push(Token::new(kind, line, col));
                        pos += 1;
                    },
                    None => {
                        if c == ' ' || c == '\t' {
                            pos += 1;
                        } else if c == '\n' {
                            newlines += 1;
                            pos += 1;
                        } else {
                            assert(here.tokens =~= Seq::<Lexeme>::empty());
                            assert(lexemes(self.tokens@) + here.tokens =~= lexemes(self.tokens@));
                            return Err(Error::unknown_char(line, col, c));
                        }
                    },
                }
            }
        }
        assert(lexemes(self.tokens@) + Seq::<Lexeme>::empty() =~= lexemes(self.tokens@));
        Ok(())
    }

    /// The tokens found so far, in source order.
    pub fn tokens(&self) -> (r: &Vec<Token>)
        ensures
            r@ == self.found(),
    {
        &self.tokens
    }
}

} // verus!
