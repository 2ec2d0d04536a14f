//! The token vocabulary shared by the lexer and the parser: a closed set of
//! token kinds and a token carrying the kind together with the exact source
//! text (or canonical form) that produced it.

use vstd::prelude::*;
use std::collections::HashMap;

use crate::text::str_eq;

verus! {

/// The closed set of token kinds: specials, identifier and literal classes,
/// operators, punctuation, and keywords.
#[derive(Debug, Eq, PartialEq, Clone, Copy, Hash, Structural)]
#[allow(non_camel_case_types)]
pub enum TokenType {
    ILLEGAL,
    EOF,
    IDENT,
    INT,
    ASSIGN,
    PLUS,
    MINUS,
    BANG,
    ASTERISK,
    SLASH,
    LT,
    GT,
    EQ,
    NEQ,
    COMMA,
    SEMICOLON,
    LPAREN,
    RPAREN,
    LBRACE,
    RBRACE,
    FUNCTION,
    LET,
    TRUE,
    FALSE,
    IF,
    ELSE,
    RETURN,
}

/// The keyword table as a mathematical function: the kind that a given
/// identifier run denotes, `IDENT` when it is no keyword.
pub open spec fn spec_lookup_ident(s: Seq<char>) -> TokenType {
    if s == "fn"@ {
        TokenType::FUNCTION
    } else if s == "let"@ {
        TokenType::LET
    } else if s == "if"@ {
        TokenType::IF
    } else if s == "else"@ {
        TokenType::ELSE
    } else if s == "return"@ {
        TokenType::RETURN
    } else if s == "true"@ {
        TokenType::TRUE
    } else if s == "false"@ {
        TokenType::FALSE
    } else {
        TokenType::IDENT
    }
}

impl TokenType {
    /// The reserved words of the language, as a lookup table from the word to
    /// its token kind. The exact meaning of keyword lookup is stated on
    /// `lookup_ident`, which is what the lexer relies on; Verus gives no
    /// model to a map keyed by `String`, so nothing more is claimed here.
    pub fn keywords() -> HashMap<String, TokenType> {
        let mut m: HashMap<String, TokenType> = HashMap::new();
        m.insert("fn".to_owned(), TokenType::FUNCTION);
        m.insert("let".to_owned(), TokenType::LET);
        m.insert("if".to_owned(), TokenType::IF);
        m.insert("else".to_owned(), TokenType::ELSE);
        m.insert("return".to_owned(), TokenType::RETURN);
        m.insert("true".to_owned(), TokenType::TRUE);
        m.insert("false".to_owned(), TokenType::FALSE);
        m
    }

    /// Decides whether an identifier run is a reserved word, and returns the
    /// keyword kind on a hit and `IDENT` on a miss.
    pub fn lookup_ident(ident: &str) -> (r: TokenType)
        ensures
            r == spec_lookup_ident(ident@),
    {
        if str_eq(ident, "fn") {
            TokenType::FUNCTION
        } else if str_eq(ident, "let") {
            TokenType::LET
        } else if str_eq(ident, "if") {
            TokenType::IF
        } else if str_eq(ident, "else") {
            TokenType::ELSE
        } else if str_eq(ident, "return") {
            TokenType::RETURN
        } else if str_eq(ident, "true") {
            TokenType::TRUE
        } else if str_eq(ident, "false") {
            TokenType::FALSE
        } else {
            TokenType::IDENT
        }
    }
}

/// The mathematical content of a token: its kind and the characters of its
/// literal text.
pub struct TokenModel {
    pub token_type: TokenType,
    pub literal: Seq<char>,
}

/// A token: the kind recognised together with the exact source slice (or
/// canonical form such as `"=="`) that produced it.
#[derive(Debug, Eq, PartialEq)]
pub struct Token {
    token_type: TokenType,
    literal: String,
}

impl View for Token {
    type V = TokenModel;

    closed spec fn view(&self) -> TokenModel {
        TokenModel { token_type: self.token_type, literal: self.literal@ }
    }
}

impl Clone for Token {
    /// Copies the token, keeping its kind and literal.
    fn clone(&self) -> (r: Self)
        ensures
            r@ == self@,
    {
        Token { token_type: self.token_type, literal: self.literal.clone() }
    }
}

impl Token {
    /// Builds a token from its kind and literal text.
    pub fn new(token_type: TokenType, literal: &str) -> (r: Self)
        ensures
            r@.token_type == token_type,
            r@.literal == literal@,
    {
        Token { token_type, literal: literal.to_owned() }
    }

    /// The token's kind.
    pub fn get_token_type(&self) -> (r: TokenType)
        ensures
            r == self@.token_type,
    {
        self.token_type
    }

    /// A copy of the token's literal text.
    pub fn get_literal(&self) -> (r: String)
        ensures
            r@ == self@.literal,
    {
        self.literal.clone()
    }

    /// Whether the token is of the given kind.
    pub fn token_type_is(&self, token_type: TokenType) -> (r: bool)
        ensures
            r == (self@.token_type == token_type),
    {
        self.token_type == token_type
    }
}

} // verus!
