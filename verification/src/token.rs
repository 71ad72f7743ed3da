//! Lexical tokens: a token couples a kind with the 1-indexed source line it
//! came from and, for word tokens, the text it holds.

use crate::text::{spec_dec, str_eq, u32_to_string};
use vstd::prelude::*;

verus! {

/// The kind of a lexical unit.
#[derive(Debug, Clone, Copy, PartialEq, Eq, Structural)]
pub enum TokenType {
    String,
    Eol,
    Sep,
    OpenParen,
    CloseParen,
    StringDelim,
    Equal,
    Error,
}

/// The mathematical value of a token: its kind, source line and text.
pub ghost struct TokenModel {
    pub kind: TokenType,
    pub line: u32,
    pub text: Seq<char>,
}

/// A lexical unit, immutable once created.
#[derive(Debug, Clone)]
pub struct Token {
    token_type: TokenType,
    line_number: u32,
    token: String,
}

impl View for Token {
    type V = TokenModel;

    closed spec fn view(&self) -> TokenModel {
        TokenModel { kind: self.token_type, line: self.line_number, text: self.token@ }
    }
}

impl DeepView for Token {
    type V = TokenModel;

    open spec fn deep_view(&self) -> TokenModel {
        self@
    }
}

impl Token {
    /// A token that carries no text, such as a separator or a line end.
    pub fn new_empty_token(tt: TokenType, line: u32) -> (t: Token)
        ensures
            t@ == (TokenModel { kind: tt, line, text: Seq::<char>::empty() }),
    {
        let t = Token { token_type: tt, line_number: line, token: String::new() };
        proof {
            assert(t@.text =~= Seq::<char>::empty());
        }
        t
    }

    /// A token that carries text, such as a word or a string literal body.
    pub fn new_token(tt: TokenType, line: u32, value: &str) -> (t: Token)
        ensures
            t@ == (TokenModel { kind: tt, line, text: value@ }),
    {
        Token { token_type: tt, line_number: line, token: value.to_owned() }
    }

    pub fn get_type(&self) -> (tt: &TokenType)
        ensures
            tt == self@.kind,
    {
        &self.token_type
    }

    pub fn get_line(&self) -> (line: &u32)
        ensures
            line == self@.line,
    {
        &self.line_number
    }

    pub fn get_value(&self) -> (value: &str)
        ensures
            value@ == self@.text,
    {
        self.token.as_str()
    }

    /// The token rendered for humans, in the shape
    /// `Token: type(<kind>) value (<text>) source line (<line>)`.
    pub fn to_display_string(&self) -> (s: String)
        ensures
            s@ == "Token: type("@ + type_name_seq(self@.kind) + ") value ("@ + self@.text
                + ") source line ("@ + spec_dec(self@.line as nat) + ")"@,
    {
        let mut s = String::from_str("Token: type(");
        s.append(self.token_type.name());
        s.append(") value (");
        s.append(self.token.as_str());
        s.append(") source line (");
        s.append(u32_to_string(self.line_number).as_str());
        s.append(")");
        s
    }
}

impl PartialEq for Token {
    fn eq(&self, rhs: &Self) -> (r: bool) {
        (self.token_type == rhs.token_type) && (self.line_number == rhs.line_number) && str_eq(
            self.token.as_str(),
            rhs.token.as_str(),
        )
    }
}

impl vstd::std_specs::cmp::PartialEqSpecImpl for Token {
    open spec fn obeys_eq_spec() -> bool {
        true
    }

    open spec fn eq_spec(&self, rhs: &Token) -> bool {
        self@ == rhs@
    }
}

/// The characters of a token kind's name.
pub open spec fn type_name_seq(tt: TokenType) -> Seq<char> {
    match tt {
        TokenType::String => "String"@,
        TokenType::Eol => "Eol"@,
        TokenType::Sep => "Sep"@,
        TokenType::OpenParen => "OpenParen"@,
        TokenType::CloseParen => "CloseParen"@,
        TokenType::StringDelim => "StringDelim"@,
        TokenType::Equal => "Equal"@,
        TokenType::Error => "Error"@,
    }
}

impl TokenType {
    /// The kind's name, as `to_display_string` prints it.
    pub fn name(&self) -> (s: &'static str)
        ensures
            s@ == type_name_seq(*self),
    {
        match self {
            TokenType::String => "String",
            TokenType::Eol => "Eol",
            TokenType::Sep => "Sep",
            TokenType::OpenParen => "OpenParen",
            TokenType::CloseParen => "CloseParen",
            TokenType::StringDelim => "StringDelim",
            TokenType::Equal => "Equal",
            TokenType::Error => "Error",
        }
    }
}

pub type TokenList = Vec<Token>;

} // verus!
