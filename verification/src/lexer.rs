//! The streaming tokenizer. `next_token` never fails: unrecognised
//! characters become `ILLEGAL` tokens and, once the input is exhausted,
//! every further call returns `EOF`.
//!
//! The mathematical model is `next_token_model`, which maps the input
//! characters and a cursor to the token recognised there and the cursor
//! after it, and `lex`, the finite token stream of a whole input.

use vstd::prelude::*;

use crate::token::{spec_lookup_ident, Token, TokenModel, TokenType};

verus! {

/// Whitespace that separates tokens: space, tab, CR, LF.
pub open spec fn is_ws_char(c: char) -> bool {
    c == ' ' || c == '\t' || c == '\n' || c == '\r'
}

/// Characters that may form an identifier run.
pub open spec fn is_letter_char(c: char) -> bool {
    ('a' as u32 <= c as u32 && c as u32 <= 'z' as u32) || ('A' as u32 <= c as u32 && c as u32
        <= 'Z' as u32) || c == '_'
}

/// Characters that may form an integer run.
pub open spec fn is_digit_char(c: char) -> bool {
    '0' as u32 <= c as u32 && c as u32 <= '9' as u32
}

/// The first index at or after `i` that holds no whitespace.
pub open spec fn skip_ws(s: Seq<char>, i: nat) -> nat
    decreases s.len() - i,
    when i <= s.len()
{
    if i < s.len() && is_ws_char(s[i as int]) {
        skip_ws(s, i + 1)
    } else {
        i
    }
}

/// The end of the identifier run that starts at `i`.
pub open spec fn ident_end(s: Seq<char>, i: nat) -> nat
    decreases s.len() - i,
    when i <= s.len()
{
    if i < s.len() && is_letter_char(s[i as int]) {
        ident_end(s, i + 1)
    } else {
        i
    }
}

/// The end of the integer run that starts at `i`.
pub open spec fn num_end(s: Seq<char>, i: nat) -> nat
    decreases s.len() - i,
    when i <= s.len()
{
    if i < s.len() && is_digit_char(s[i as int]) {
        num_end(s, i + 1)
    } else {
        i
    }
}

pub proof fn lemma_skip_ws_bounds(s: Seq<char>, i: nat)
    requires
        i <= s.len(),
    ensures
        i <= skip_ws(s, i) <= s.len(),
    decreases s.len() - i,
{
    if i < s.len() && is_ws_char(s[i as int]) {
        lemma_skip_ws_bounds(s, i + 1);
    }
}

pub proof fn lemma_ident_end_bounds(s: Seq<char>, i: nat)
    requires
        i <= s.len(),
    ensures
        i <= ident_end(s, i) <= s.len(),
    decreases s.len() - i,
{
    if i < s.len() && is_letter_char(s[i as int]) {
        lemma_ident_end_bounds(s, i + 1);
    }
}

pub proof fn lemma_num_end_bounds(s: Seq<char>, i: nat)
    requires
        i <= s.len(),
    ensures
        i <= num_end(s, i) <= s.len(),
    decreases s.len() - i,
{
    if i < s.len() && is_digit_char(s[i as int]) {
        lemma_num_end_bounds(s, i + 1);
    }
}

/// A digit run ends exactly at the first non-digit.
pub proof fn lemma_num_end_digits(s: Seq<char>, i: nat, e: nat)
    requires
        i <= e < s.len(),
        forall|k: int| i <= k < e ==> is_digit_char(#[trigger] s[k]),
        !is_digit_char(s[e as int]),
    ensures
        num_end(s, i) == e,
    decreases e - i,
{
    if i < e {
        assert(is_digit_char(s[i as int]));
        lemma_num_end_digits(s, i + 1, e);
    }
}

/// A token together with the cursor that follows it.
pub struct LexStep {
    pub tok: TokenModel,
    pub next: nat,
}

pub open spec fn token_model(token_type: TokenType, literal: Seq<char>) -> TokenModel {
    TokenModel { token_type, literal }
}

/// The token recognised at cursor `pos` of input `s`, and the cursor after
/// it: whitespace is skipped, `==`/`!=` take one character of lookahead,
/// letter and digit runs extend as far as they reach, the exhausted input
/// yields `EOF`, and any other character yields `ILLEGAL`.
pub open spec fn next_token_model(s: Seq<char>, pos: nat) -> LexStep {
    let i = skip_ws(s, pos);
    if i >= s.len() {
        LexStep { tok: token_model(TokenType::EOF, ""@), next: i }
    } else {
        let c = s[i as int];
        if c == '=' {
            if i + 1 < s.len() && s[i as int + 1] == '=' {
                LexStep { tok: token_model(TokenType::EQ, "=="@), next: i + 2 }
            } else {
                LexStep { tok: token_model(TokenType::ASSIGN, "="@), next: i + 1 }
            }
        } else if c == '!' {
            if i + 1 < s.len() && s[i as int + 1] == '=' {
                LexStep { tok: token_model(TokenType::NEQ, "!="@), next: i + 2 }
            } else {
                LexStep { tok: token_model(TokenType::BANG, "!"@), next: i + 1 }
            }
        } else if c == ';' {
            LexStep { tok: token_model(TokenType::SEMICOLON, ";"@), next: i + 1 }
        } else if c == '(' {
            LexStep { tok: token_model(TokenType::LPAREN, "("@), next: i + 1 }
        } else if c == ')' {
            LexStep { tok: token_model(TokenType::RPAREN, ")"@), next: i + 1 }
        } else if c == ',' {
            LexStep { tok: token_model(TokenType::COMMA, ","@), next: i + 1 }
        } else if c == '+' {
            LexStep { tok: token_model(TokenType::PLUS, "+"@), next: i + 1 }
        } else if c == '-' {
            LexStep { tok: token_model(TokenType::MINUS, "-"@), next: i + 1 }
        } else if c == '*' {
            LexStep { tok: token_model(TokenType::ASTERISK, "*"@), next: i + 1 }
        } else if c == '/' {
            LexStep { tok: token_model(TokenType::SLASH, "/"@), next: i + 1 }
        } else if c == '<' {
            LexStep { tok: token_model(TokenType::LT, "<"@), next: i + 1 }
        } else if c == '>' {
            LexStep { tok: token_model(TokenType::GT, ">"@), next: i + 1 }
        } else if c == '{' {
            LexStep { tok: token_model(TokenType::LBRACE, "{"@), next: i + 1 }
        } else if c == '}' {
            LexStep { tok: token_model(TokenType::RBRACE, "}"@), next: i + 1 }
        } else if is_letter_char(c) {
            let j = ident_end(s, i);
            let lit = s.subrange(i as int, j as int);
            LexStep { tok: token_model(spec_lookup_ident(lit), lit), next: j }
        } else if is_digit_char(c) {
            let j = num_end(s, i);
            LexStep { tok: token_model(TokenType::INT, s.subrange(i as int, j as int)), next: j }
        } else {
            LexStep { tok: token_model(TokenType::ILLEGAL, seq![c]), next: i + 1 }
        }
    }
}

/// The cursor never moves backwards nor past the end, a non-`EOF` token
/// consumes at least one character, and the exhausted input always yields
/// `EOF` in place.
pub proof fn lemma_next_token_progress(s: Seq<char>, pos: nat)
    requires
        pos <= s.len(),
    ensures
        pos <= next_token_model(s, pos).next <= s.len(),
        next_token_model(s, pos).tok.token_type != TokenType::EOF ==> next_token_model(
            s,
            pos,
        ).next > pos,
        next_token_model(s, pos).tok.token_type == TokenType::EOF ==> next_token_model(
            s,
            pos,
        ).next == skip_ws(s, pos) == s.len(),
{
    lemma_skip_ws_bounds(s, pos);
    let i = skip_ws(s, pos);
    if i < s.len() {
        let c = s[i as int];
        if is_letter_char(c) {
            lemma_ident_end_bounds(s, i + 1);
            assert(ident_end(s, i) == ident_end(s, i + 1));
        } else if is_digit_char(c) {
            lemma_num_end_bounds(s, i + 1);
            assert(num_end(s, i) == num_end(s, i + 1));
        }
    }
}

/// The token stream of `s` from cursor `pos` on, up to and including the
/// first `EOF`.
pub open spec fn lex_from(s: Seq<char>, pos: nat) -> Seq<TokenModel>
    decreases s.len() - pos,
    when pos <= s.len() via lex_from_dec
{
    let st = next_token_model(s, pos);
    if st.tok.token_type == TokenType::EOF {
        seq![st.tok]
    } else {
        seq![st.tok] + lex_from(s, st.next)
    }
}

#[via_fn]
proof fn lex_from_dec(s: Seq<char>, pos: nat) {
    lemma_next_token_progress(s, pos);
}

/// The full token stream of an input.
pub open spec fn lex(s: Seq<char>) -> Seq<TokenModel> {
    lex_from(s, 0)
}

/// Lexer totality: every finite input produces a finite token stream —
/// at most one token per character plus the final one — that ends in
/// exactly one `EOF`.
pub proof fn lemma_lexer_totality(s: Seq<char>)
    ensures
        1 <= lex(s).len() <= s.len() + 1,
        lex(s).last().token_type == TokenType::EOF,
        forall|k: int|
            0 <= k < lex(s).len() - 1 ==> #[trigger] lex(s)[k].token_type != TokenType::EOF,
{
    lemma_lex_from_totality(s, 0);
}

pub proof fn lemma_lex_from_totality(s: Seq<char>, pos: nat)
    requires
        pos <= s.len(),
    ensures
        1 <= lex_from(s, pos).len() <= s.len() - pos + 1,
        lex_from(s, pos).last().token_type == TokenType::EOF,
        forall|k: int|
            0 <= k < lex_from(s, pos).len() - 1 ==> #[trigger] lex_from(s, pos)[k].token_type
                != TokenType::EOF,
    decreases s.len() - pos,
{
    lemma_next_token_progress(s, pos);
    let st = next_token_model(s, pos);
    if st.tok.token_type != TokenType::EOF {
        lemma_lex_from_totality(s, st.next);
    }
}

/// What the lexer's well-formedness gives its callers: the cursor lies
/// within the input.
pub proof fn lemma_lexer_wf_bounds(l: &Lexer)
    requires
        l.wf(),
    ensures
        l.cursor() <= l.input_seq().len(),
{
}

/// The streaming tokenizer: owns the input text and a cursor to the current
/// character.
pub struct Lexer {
    input: String,
    len: usize,
    position: usize,
}

/// Free-function form of the identifier-character test.
fn is_letter(ch: &char) -> (r: bool)
    ensures
        r == is_letter_char(*ch),
{
    ('a' as u32 <= *ch as u32 && *ch as u32 <= 'z' as u32) || ('A' as u32 <= *ch as u32 && *ch
        as u32 <= 'Z' as u32) || *ch == '_'
}

/// Free-function form of the digit test.
fn is_digit(ch: &char) -> (r: bool)
    ensures
        r == is_digit_char(*ch),
{
    '0' as u32 <= *ch as u32 && *ch as u32 <= '9' as u32
}

impl Lexer {
    /// The input characters being tokenized.
    pub closed spec fn input_seq(&self) -> Seq<char> {
        self.input@
    }

    /// The cursor: the index of the current character.
    pub closed spec fn cursor(&self) -> nat {
        self.position as nat
    }

    /// The lexer's internal consistency: the cursor lies within the input
    /// and the cached length is the character count.
    pub closed spec fn wf(&self) -> bool {
        self.len as nat == self.input@.len() && self.position <= self.len
    }

    /// Builds a lexer over `input` with the cursor at the first character.
    pub fn new(input: &str) -> (r: Self)
        ensures
            r.wf(),
            r.input_seq() == input@,
            r.cursor() == 0,
    {
        let len = input.unicode_len();
        Lexer { input: input.to_owned(), len, position: 0 }
    }

    /// Advances the cursor by one character, saturating at the end of the
    /// input.
    fn read_char(&mut self)
        requires
            old(self).wf(),
        ensures
            final(self).wf(),
            final(self).input_seq() == old(self).input_seq(),
            old(self).cursor() < old(self).input_seq().len() ==> final(self).cursor() == old(
                self,
            ).cursor() + 1,
            old(self).cursor() == old(self).input_seq().len() ==> final(self).cursor() == old(
                self,
            ).cursor(),
    {
        if self.position < self.len {
            self.position = self.position + 1;
        }
    }

    /// Moves the cursor past the whitespace under it.
    fn skip_whitespace(&mut self)
        requires
            old(self).wf(),
        ensures
            final(self).wf(),
            final(self).input_seq() == old(self).input_seq(),
            final(self).cursor() == skip_ws(old(self).input_seq(), old(self).cursor()),
    {
        let ghost inp = self.input;
        let ghost target = skip_ws(self.input@, self.position as nat);
        proof {
            lemma_skip_ws_bounds(self.input@, self.position as nat);
        }
        loop
            invariant
                self.wf(),
                self.input == inp,
                target == skip_ws(inp@, self.position as nat),
                self.position as nat <= target,
                target <= inp@.len(),
            ensures
                self.wf(),
                self.input == inp,
                self.position as nat == target,
            decreases inp@.len() - self.position,
        {
            if self.position < self.len {
                let c = self.input.as_str().get_char(self.position);
                if c == ' ' || c == '\t' || c == '\n' || c == '\r' {
                    self.position = self.position + 1;
                    proof {
                        lemma_skip_ws_bounds(inp@, self.position as nat);
                    }
                } else {
                    break ;
                }
            } else {
                break ;
            }
        }
    }

    /// Reads the identifier run that starts at the cursor and leaves the
    /// cursor at its end.
    fn read_identifier(&mut self) -> (r: String)
        requires
            old(self).wf(),
            old(self).cursor() < old(self).input_seq().len(),
            is_letter_char(old(self).input_seq()[old(self).cursor() as int]),
        ensures
            final(self).wf(),
            final(self).input_seq() == old(self).input_seq(),
            final(self).cursor() == ident_end(old(self).input_seq(), old(self).cursor()),
            r@ == old(self).input_seq().subrange(
                old(self).cursor() as int,
                final(self).cursor() as int,
            ),
    {
        let start = self.position;
        let ghost inp = self.input;
        let ghost target = ident_end(self.input@, self.position as nat);
        proof {
            lemma_ident_end_bounds(self.input@, self.position as nat);
        }
        loop
            invariant
                self.wf(),
                self.input == inp,
                start <= self.position,
                target == ident_end(inp@, self.position as nat),
                self.position as nat <= target,
                target <= inp@.len(),
            ensures
                self.wf(),
                self.input == inp,
                start <= self.position,
                self.position as nat == target,
            decreases inp@.len() - self.position,
        {
            if self.position < self.len {
                let c = self.input.as_str().get_char(self.position);
                if is_letter(&c) {
                    self.position = self.position + 1;
                    proof {
                        lemma_ident_end_bounds(inp@, self.position as nat);
                    }
                } else {
                    break ;
                }
            } else {
                break ;
            }
        }
        self.input.as_str().substring_char(start, self.position).to_owned()
    }

    /// Reads the integer run that starts at the cursor and leaves the cursor
    /// at its end.
    fn read_number(&mut self) -> (r: String)
        requires
            old(self).wf(),
            old(self).cursor() < old(self).input_seq().len(),
            is_digit_char(old(self).input_seq()[old(self).cursor() as int]),
        ensures
            final(self).wf(),
            final(self).input_seq() == old(self).input_seq(),
            final(self).cursor() == num_end(old(self).input_seq(), old(self).cursor()),
            r@ == old(self).input_seq().subrange(
                old(self).cursor() as int,
                final(self).cursor() as int,
            ),
    {
        let start = self.position;
        let ghost inp = self.input;
        let ghost target = num_end(self.input@, self.position as nat);
        proof {
            lemma_num_end_bounds(self.input@, self.position as nat);
        }
        loop
            invariant
                self.wf(),
                self.input == inp,
                start <= self.position,
                target == num_end(inp@, self.position as nat),
                self.position as nat <= target,
                target <= inp@.len(),
            ensures
                self.wf(),
                self.input == inp,
                start <= self.position,
                self.position as nat == target,
            decreases inp@.len() - self.position,
        {
            if self.position < self.len {
                let c = self.input.as_str().get_char(self.position);
                if is_digit(&c) {
                    self.position = self.position + 1;
                    proof {
                        lemma_num_end_bounds(inp@, self.position as nat);
                    }
                } else {
                    break ;
                }
            } else {
                break ;
            }
        }
        self.input.as_str().substring_char(start, self.position).to_owned()
    }

    /// Recognises the next token and advances the cursor past it. Never
    /// fails: unknown characters yield `ILLEGAL`, and the exhausted input
    /// yields `EOF` on this call and on every later one.
    pub fn next_token(&mut self) -> (r: Token)
        requires
            old(self).wf(),
        ensures
            final(self).wf(),
            final(self).input_seq() == old(self).input_seq(),
            r@ == next_token_model(old(self).input_seq(), old(self).cursor()).tok,
            final(self).cursor() == next_token_model(old(self).input_seq(), old(self).cursor()).next,
    {
        self.skip_whitespace();
        proof {
            lemma_skip_ws_bounds(old(self).input_seq(), old(self).cursor());
        }
        if self.position >= self.len {
            return Token::new(TokenType::EOF, "");
        }
        let ghost i = self.position as nat;
        let ghost s = self.input@;
        let c = self.input.as_str().get_char(self.position);
        if c == '=' {
            if self.position + 1 < self.len && self.input.as_str().get_char(self.position + 1)
                == '=' {
                self.position = self.position + 2;
                Token::new(TokenType::EQ, "==")
            } else {
                self.position = self.position + 1;
                Token::new(TokenType::ASSIGN, "=")
            }
        } else if c == '!' {
            if self.position + 1 < self.len && self.input.as_str().get_char(self.position + 1)
                == '=' {
                self.position = self.position + 2;
                Token::new(TokenType::NEQ, "!=")
            } else {
                self.position = self.position + 1;
                Token::new(TokenType::BANG, "!")
            }
        } else if c == ';' {
            self.read_char();
            Token::new(TokenType::SEMICOLON, ";")
        } else if c == '(' {
            self.read_char();
            Token::new(TokenType::LPAREN, "(")
        } else if c == ')' {
            self.read_char();
            Token::new(TokenType::RPAREN, ")")
        } else if c == ',' {
            self.read_char();
            Token::new(TokenType::COMMA, ",")
        } else if c == '+' {
            self.read_char();
            Token::new(TokenType::PLUS, "+")
        } else if c == '-' {
            self.read_char();
            Token::new(TokenType::MINUS, "-")
        } else if c == '*' {
            self.read_char();
            Token::new(TokenType::ASTERISK, "*")
        } else if c == '/' {
            self.read_char();
            Token::new(TokenType::SLASH, "/")
        } else if c == '<' {
            self.read_char();
            Token::new(TokenType::LT, "<")
        } else if c == '>' {
            self.read_char();
            Token::new(TokenType::GT, ">")
        } else if c == '{' {
            self.read_char();
            Token::new(TokenType::LBRACE, "{")
        } else if c == '}' {
            self.read_char();
            Token::new(TokenType::RBRACE, "}")
        } else if is_letter(&c) {
            let ident = self.read_identifier();
            let token_type = TokenType::lookup_ident(ident.as_str());
            Token::new(token_type, ident.as_str())
        } else if is_digit(&c) {
            let number = self.read_number();
            Token::new(TokenType::INT, number.as_str())
        } else {
            let lit = self.input.as_str().substring_char(self.position, self.position + 1);
            let tok = Token::new(TokenType::ILLEGAL, lit);
            self.read_char();
            proof {
                assert(lit@ =~= seq![s[i as int]]);
            }
            tok
        }
    }
}

} // verus!
