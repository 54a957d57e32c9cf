use vstd::prelude::*;

verus! {

/// One lexical unit of source text.
#[derive(Debug, Clone, PartialEq)]
pub enum Token {
    LParen,
    RParen,
    LBrace,
    RBrace,
    Comma,
    Dot,
    Semicolon,
    Colon,
    ColonColon,
    Minus,
    Plus,
    Star,
    Slash,
    Eq,
    EqEq,
    Bang,
    NEq,
    Gt,
    GtEq,
    Lt,
    LtEq,
    Pipe,
    Or,
    Ampersand,
    And,
    /// An identifier, with its text as written.
    Iden(String),
    /// A string literal, with the text between the quotes as written.
    Str(String),
    Int(i64),
    /// A floating-point literal, with its text as written. The text always
    /// has the shape that `float_literal` describes, so it parses as an
    /// `f64` without error.
    Float(String),
    If,
    Else,
    True,
    False,
    Fn,
    For,
    In,
    Null,
    Print,
    Return,
    Let,
    Loop,
}

/// What a token stands for, with text payloads as character sequences.
/// Tokens that carry no payload stand for themselves.
pub enum Lexeme {
    Sym(Token),
    Iden(Seq<char>),
    Str(Seq<char>),
    Int(i64),
    Float(Seq<char>),
}

impl View for Token {
    type V = Lexeme;

    open spec fn view(&self) -> Lexeme {
        match self {
            Token::Iden(s) => Lexeme::Iden(s@),
            Token::Str(s) => Lexeme::Str(s@),
            Token::Int(v) => Lexeme::Int(*v),
            Token::Float(s) => Lexeme::Float(s@),
            _ => Lexeme::Sym(*self),
        }
    }
}

/// Why a literal that starts with a digit is not an integer.
#[derive(Debug, Clone, Copy, PartialEq, Eq, Structural)]
pub enum IntFault {
    /// A character other than a decimal digit occurs in it.
    InvalidDigit,
    /// All its characters are digits, but the value exceeds `i64::MAX`.
    TooLarge,
}

/// Why scanning stopped.
#[derive(Debug, Clone, PartialEq)]
pub enum LexError {
    /// End of input inside a `"` literal.
    UnterminatedString,
    /// End of input inside a `/* ... */` comment, nesting included.
    UnterminatedBlockComment,
    /// An atom that starts with a digit and holds a `.` but is no float literal.
    MalformedFloat(String),
    /// An atom that starts with a digit, holds no `.`, and is no `i64`.
    MalformedInt(String, IntFault),
    /// An atom that is no keyword, number or identifier.
    UnexpectedToken(String),
}

/// The model of a `LexError`.
pub enum Fault {
    UnterminatedString,
    UnterminatedBlockComment,
    MalformedFloat(Seq<char>),
    MalformedInt(Seq<char>, IntFault),
    UnexpectedToken(Seq<char>),
}

impl View for LexError {
    type V = Fault;

    open spec fn view(&self) -> Fault {
        match self {
            LexError::UnterminatedString => Fault::UnterminatedString,
            LexError::UnterminatedBlockComment => Fault::UnterminatedBlockComment,
            LexError::MalformedFloat(s) => Fault::MalformedFloat(s@),
            LexError::MalformedInt(s, f) => Fault::MalformedInt(s@, *f),
            LexError::UnexpectedToken(s) => Fault::UnexpectedToken(s@),
        }
    }
}

/// The model of one item of the scanner's output.
pub open spec fn item_view(r: Result<Token, LexError>) -> Result<Lexeme, Fault> {
    match r {
        Ok(t) => Ok(t@),
        Err(e) => Err(e@),
    }
}

/// The model of a sequence of output items.
pub open spec fn items_view(r: Seq<Result<Token, LexError>>) -> Seq<Result<Lexeme, Fault>> {
    r.map_values(|x: Result<Token, LexError>| item_view(x))
}

pub open spec fn int_fault_text(f: IntFault) -> Seq<char> {
    match f {
        IntFault::InvalidDigit => "invalid digit found in string"@,
        IntFault::TooLarge => "number too large to fit in target type"@,
    }
}

/// The human-readable message of a fault.
pub open spec fn fault_message(f: Fault) -> Seq<char> {
    match f {
        Fault::UnterminatedString => "unterminated string literal"@,
        Fault::UnterminatedBlockComment => "unterminated block comment"@,
        Fault::MalformedFloat(a) => "error while parsing float "@ + a + ": invalid float literal"@,
        Fault::MalformedInt(a, k) => "error while parsing int "@ + a + ": "@ + int_fault_text(k),
        Fault::UnexpectedToken(a) => "unexpected token: "@ + a,
    }
}

impl IntFault {
    /// The reason, in words.
    pub fn reason(&self) -> (r: &'static str)
        ensures
            r@ == int_fault_text(*self),
    {
        match self {
            IntFault::InvalidDigit => "invalid digit found in string",
            IntFault::TooLarge => "number too large to fit in target type",
        }
    }
}

impl LexError {
    /// A message that names the construct, and the offending atom where
    /// there is one.
    pub fn message(&self) -> (r: String)
        ensures
            r@ == fault_message(self@),
    {
        match self {
            LexError::UnterminatedString => "unterminated string literal".to_owned(),
            LexError::UnterminatedBlockComment => "unterminated block comment".to_owned(),
            LexError::MalformedFloat(a) => "error while parsing float ".to_owned().concat(
                a.as_str(),
            ).concat(": invalid float literal"),
            LexError::MalformedInt(a, k) => "error while parsing int ".to_owned().concat(
                a.as_str(),
            ).concat(": ").concat(k.reason()),
            LexError::UnexpectedToken(a) => "unexpected token: ".to_owned().concat(a.as_str()),
        }
    }
}

} // verus!
