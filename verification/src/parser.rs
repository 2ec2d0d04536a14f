//! The Pratt parser: pulls the lexer's tokens, keeps one token of
//! lookahead, builds the syntax tree, and records a diagnostic for every
//! failure, resynchronising at the next semicolon.
//!
//! Every parsing method is proved to compute exactly the corresponding
//! function of the grammar model (`crate::grammar`), so the tree and the
//! number of diagnostics are functions of the input text alone. The
//! diagnostics' wording is not part of any contract; their number is.

use vstd::prelude::*;

use crate::ast::{boxed_exprs_model, boxed_stmts_model, stmts_model, Expression, Node, Program, Statement};
use crate::grammar::{
    cl, nxt, prec_of, sp_block, sp_block_stmts, sp_call_args, sp_chain, sp_chain_wrap,
    sp_expression, sp_exprstmt, sp_function, sp_grouped, sp_if, sp_let, sp_params, sp_program,
    sp_resync, sp_return, sp_statement, tt, wf_tokens, Parsed,
};
use crate::lexer::{lex_from, Lexer};
use crate::text::{parse_bool, parse_i64};
use crate::token::{Token, TokenModel, TokenType};

verus! {

/// The precedence levels of the expression grammar, lowest first.
#[derive(Debug, Eq, PartialEq, Ord, PartialOrd, Clone, Hash)]
#[allow(non_camel_case_types)]
pub enum Opt {
    LOWEST,
    EQUALS,
    LESSGREATER,
    SUM,
    PRODUCT,
    PREFIX,
    CALL,
}

/// The rank of a precedence level on the grammar model's ladder.
pub open spec fn opt_rank(o: Opt) -> int {
    match o {
        Opt::LOWEST => 0,
        Opt::EQUALS => 1,
        Opt::LESSGREATER => 2,
        Opt::SUM => 3,
        Opt::PRODUCT => 4,
        Opt::PREFIX => 5,
        Opt::CALL => 6,
    }
}

/// The rank of a precedence level, as a machine integer.
fn opt_value(o: &Opt) -> (r: u8)
    ensures
        r as int == opt_rank(*o),
{
    match o {
        Opt::LOWEST => 0,
        Opt::EQUALS => 1,
        Opt::LESSGREATER => 2,
        Opt::SUM => 3,
        Opt::PRODUCT => 4,
        Opt::PREFIX => 5,
        Opt::CALL => 6,
    }
}

/// A short display name for a token kind, used in diagnostics.
fn token_type_name(t: &TokenType) -> &'static str {
    match t {
        TokenType::ILLEGAL => "ILLEGAL",
        TokenType::EOF => "EOF",
        TokenType::IDENT => "IDENT",
        TokenType::INT => "INT",
        TokenType::ASSIGN => "ASSIGN",
        TokenType::PLUS => "PLUS",
        TokenType::MINUS => "MINUS",
        TokenType::BANG => "BANG",
        TokenType::ASTERISK => "ASTERISK",
        TokenType::SLASH => "SLASH",
        TokenType::LT => "LT",
        TokenType::GT => "GT",
        TokenType::EQ => "EQ",
        TokenType::NEQ => "NEQ",
        TokenType::COMMA => "COMMA",
        TokenType::SEMICOLON => "SEMICOLON",
        TokenType::LPAREN => "LPAREN",
        TokenType::RPAREN => "RPAREN",
        TokenType::LBRACE => "LBRACE",
        TokenType::RBRACE => "RBRACE",
        TokenType::FUNCTION => "FUNCTION",
        TokenType::LET => "LET",
        TokenType::TRUE => "TRUE",
        TokenType::FALSE => "FALSE",
        TokenType::IF => "IF",
        TokenType::ELSE => "ELSE",
        TokenType::RETURN => "RETURN",
    }
}

/// Whether an optional expression result matches a model-level parse
/// result: both absent, or the expression's model is the parsed node.
pub open spec fn matches_expr(r: Option<Expression>, res: Parsed<crate::ast::ExprModel>) -> bool {
    match r {
        Some(e) => res.node == Some(crate::ast::expr_model(e)),
        None => res.node is None,
    }
}

/// Whether an optional statement result matches a model-level parse result.
pub open spec fn matches_stmt(r: Option<Statement>, res: Parsed<crate::ast::StmtModel>) -> bool {
    match r {
        Some(s) => res.node == Some(crate::ast::stmt_model(s)),
        None => res.node is None,
    }
}

/// The parser: the token stream pulled from the lexer, a cursor with one
/// token of lookahead, and the diagnostics recorded so far.
pub struct Parser {
    tokens: Vec<Token>,
    pos: usize,
    errors: Vec<String>,
}

impl Parser {
    /// The models of the tokens being parsed.
    pub closed spec fn toks(&self) -> Seq<TokenModel> {
        Seq::new(self.tokens@.len(), |i: int| self.tokens@[i]@)
    }

    /// The cursor: the index of the current token.
    pub closed spec fn cursor(&self) -> int {
        self.pos as int
    }

    /// The diagnostics recorded so far.
    pub closed spec fn spec_errors(&self) -> Seq<String> {
        self.errors@
    }

    /// The parser's internal consistency: a well-formed token stream with
    /// the cursor inside it.
    pub closed spec fn wf(&self) -> bool {
        wf_tokens(self.toks()) && 0 <= self.pos < self.tokens@.len()
    }

    /// The precedence of a binary-operator token; `LOWEST` for any token
    /// that is no such operator.
    fn precedences(token_type: &TokenType) -> (r: Opt)
        ensures
            opt_rank(r) == prec_of(*token_type),
    {
        match token_type {
            TokenType::EQ | TokenType::NEQ => Opt::EQUALS,
            TokenType::PLUS | TokenType::MINUS => Opt::SUM,
            TokenType::ASTERISK | TokenType::SLASH => Opt::PRODUCT,
            TokenType::LT | TokenType::GT => Opt::LESSGREATER,
            TokenType::LPAREN => Opt::CALL,
            _ => Opt::LOWEST,
        }
    }

    /// Builds a parser by draining the given lexer: every token up to and
    /// including the first `EOF`.
    pub fn new(lexer: Lexer) -> (r: Self)
        requires
            lexer.wf(),
        ensures
            r.wf(),
            r.toks() == lex_from(lexer.input_seq(), lexer.cursor()),
            r.cursor() == 0,
            r.spec_errors().len() == 0,
    {
        let mut lexer = lexer;
        let ghost s = lexer.input_seq();
        let ghost c0 = lexer.cursor();
        let mut tokens: Vec<Token> = Vec::new();
        proof {
            crate::lexer::lemma_lexer_wf_bounds(&lexer);
        }
        loop
            invariant_except_break
                Seq::new(tokens@.len(), |i: int| tokens@[i]@) + lex_from(s, lexer.cursor())
                    =~= lex_from(s, c0),
                forall|k: int|
                    0 <= k < tokens@.len() ==> (#[trigger] tokens@[k]@).token_type
                        != TokenType::EOF,
            invariant
                lexer.wf(),
                lexer.input_seq() == s,
                c0 <= lexer.cursor() <= s.len(),
            ensures
                lexer.input_seq() == s,
                Seq::new(tokens@.len(), |i: int| tokens@[i]@) =~= lex_from(s, c0),
            decreases s.len() - lexer.cursor(),
        {
            proof {
                crate::lexer::lemma_next_token_progress(s, lexer.cursor());
            }
            let t = lexer.next_token();
            let is_eof = t.token_type_is(TokenType::EOF);
            let ghost before = Seq::new(tokens@.len(), |i: int| tokens@[i]@);
            tokens.push(t);
            proof {
                assert(Seq::new(tokens@.len(), |i: int| tokens@[i]@) =~= before.push(t@));
            }
            if is_eof {
                proof {
                    assert(Seq::new(tokens@.len(), |i: int| tokens@[i]@) =~= lex_from(s, c0));
                }
                break ;
            }
        }
        let ghost toks = Seq::new(tokens@.len(), |i: int| tokens@[i]@);
        proof {
            crate::grammar::lemma_lex_wf(s, c0);
            assert(wf_tokens(toks));
            assert(toks.len() >= 1);
        }
        Parser { tokens, pos: 0, errors: Vec::new() }
    }

    /// Advances the cursor by one token, saturating at the final `EOF`.
    pub fn next_token(&mut self)
        requires
            old(self).wf(),
        ensures
            final(self).wf(),
            final(self).toks() == old(self).toks(),
            final(self).spec_errors() == old(self).spec_errors(),
            final(self).cursor() == nxt(old(self).toks(), old(self).cursor()),
    {
        if self.pos < self.tokens.len() - 1 {
            self.pos = self.pos + 1;
        }
    }

    /// The current token.
    fn cur(&self) -> (r: &Token)
        requires
            self.wf(),
        ensures
            r@ == self.toks()[self.cursor()],
    {
        &self.tokens[self.pos]
    }

    /// The lookahead token.
    fn peek(&self) -> (r: &Token)
        requires
            self.wf(),
        ensures
            r@ == self.toks()[nxt(self.toks(), self.cursor())],
    {
        if self.pos < self.tokens.len() - 1 {
            &self.tokens[self.pos + 1]
        } else {
            &self.tokens[self.tokens.len() - 1]
        }
    }

    /// Whether the lookahead token is of the given kind.
    fn peek_token_is(&self, token_type: TokenType) -> (r: bool)
        requires
            self.wf(),
        ensures
            r == (tt(self.toks(), nxt(self.toks(), self.cursor())) == token_type),
    {
        self.peek().token_type_is(token_type)
    }

    /// Whether the current token is of the given kind.
    fn current_token_is(&self, token_type: TokenType) -> (r: bool)
        requires
            self.wf(),
        ensures
            r == (tt(self.toks(), self.cursor()) == token_type),
    {
        self.cur().token_type_is(token_type)
    }

    /// Whether the lookahead token can begin an infix continuation: its
    /// precedence is not `LOWEST`.
    fn peek_token_is_infix(&self) -> (r: bool)
        requires
            self.wf(),
        ensures
            r == (prec_of(tt(self.toks(), nxt(self.toks(), self.cursor()))) != 0),
    {
        let p = self.peek_precedence();
        !matches!(p, Opt::LOWEST)
    }

    /// The precedence of the current token.
    fn current_precedence(&self) -> (r: Opt)
        requires
            self.wf(),
        ensures
            opt_rank(r) == prec_of(tt(self.toks(), self.cursor())),
    {
        Self::precedences(&self.cur().get_token_type())
    }

    /// The precedence of the lookahead token.
    fn peek_precedence(&self) -> (r: Opt)
        requires
            self.wf(),
        ensures
            opt_rank(r) == prec_of(tt(self.toks(), nxt(self.toks(), self.cursor()))),
    {
        Self::precedences(&self.peek().get_token_type())
    }

    /// A copy of the diagnostics recorded so far.
    pub fn get_errors(&self) -> (r: Vec<String>)
        ensures
            r@ == self.spec_errors(),
    {
        let mut out: Vec<String> = Vec::new();
        let n = self.errors.len();
        let mut i: usize = 0;
        while i < n
            invariant
                0 <= i <= n,
                n == self.errors@.len(),
                out@.len() == i,
                forall|k: int| 0 <= k < i ==> out@[k] == self.errors@[k],
            decreases n - i,
        {
            out.push(self.errors[i].clone());
            i = i + 1;
        }
        proof {
            assert(out@ =~= self.errors@);
        }
        out
    }

    /// The current and lookahead tokens, rendered for a diagnostic.
    fn get_tokens_str(&self) -> String
        requires
            self.wf(),
    {
        let mut s = " (current: '".to_owned();
        let cur_lit = self.cur().get_literal();
        s.append(cur_lit.as_str());
        s.append("', peek: '");
        let peek_lit = self.peek().get_literal();
        s.append(peek_lit.as_str());
        s.append("')");
        s
    }

    /// Records a diagnostic with the current token context.
    fn push_error(&mut self, what: &str)
        requires
            old(self).wf(),
        ensures
            final(self).wf(),
            final(self).toks() == old(self).toks(),
            final(self).cursor() == old(self).cursor(),
            final(self).spec_errors().len() == old(self).spec_errors().len() + 1,
    {
        let mut msg = what.to_owned();
        let ctx = self.get_tokens_str();
        msg.append(ctx.as_str());
        self.errors.push(msg);
    }

    /// Diagnostic: an `ILLEGAL` token was met.
    fn make_illegal_error(&mut self)
        requires
            old(self).wf(),
        ensures
            final(self).wf(),
            final(self).toks() == old(self).toks(),
            final(self).cursor() == old(self).cursor(),
            final(self).spec_errors().len() == old(self).spec_errors().len() + 1,
    {
        self.push_error("an unrecognisable token was met");
    }

    /// Diagnostic: a statement could not be parsed.
    fn make_parse_statement_error(&mut self)
        requires
            old(self).wf(),
        ensures
            final(self).wf(),
            final(self).toks() == old(self).toks(),
            final(self).cursor() == old(self).cursor(),
            final(self).spec_errors().len() == old(self).spec_errors().len() + 1,
    {
        self.push_error("a statement could not be parsed");
    }

    /// Diagnostic: an expression could not be parsed.
    fn make_parse_expression_error(&mut self)
        requires
            old(self).wf(),
        ensures
            final(self).wf(),
            final(self).toks() == old(self).toks(),
            final(self).cursor() == old(self).cursor(),
            final(self).spec_errors().len() == old(self).spec_errors().len() + 1,
    {
        self.push_error("an expression could not be parsed");
    }

    /// Diagnostic: an identifier could not be parsed.
    fn make_parse_identifier_error(&mut self)
        requires
            old(self).wf(),
        ensures
            final(self).wf(),
            final(self).toks() == old(self).toks(),
            final(self).cursor() == old(self).cursor(),
            final(self).spec_errors().len() == old(self).spec_errors().len() + 1,
    {
        self.push_error("an identifier could not be parsed");
    }

    /// Diagnostic: an integer literal could not be parsed.
    fn make_parse_integer_literal_error(&mut self)
        requires
            old(self).wf(),
        ensures
            final(self).wf(),
            final(self).toks() == old(self).toks(),
            final(self).cursor() == old(self).cursor(),
            final(self).spec_errors().len() == old(self).spec_errors().len() + 1,
    {
        self.push_error("an integer literal could not be parsed");
    }

    /// Diagnostic: a boolean literal could not be parsed.
    fn make_parse_boolean_literal_error(&mut self)
        requires
            old(self).wf(),
        ensures
            final(self).wf(),
            final(self).toks() == old(self).toks(),
            final(self).cursor() == old(self).cursor(),
            final(self).spec_errors().len() == old(self).spec_errors().len() + 1,
    {
        self.push_error("a boolean literal could not be parsed");
    }

    /// Diagnostic: a function literal's parameters could not be parsed.
    fn make_parse_parameters_error(&mut self)
        requires
            old(self).wf(),
        ensures
            final(self).wf(),
            final(self).toks() == old(self).toks(),
            final(self).cursor() == old(self).cursor(),
            final(self).spec_errors().len() == old(self).spec_errors().len() + 1,
    {
        self.push_error("function parameters could not be parsed");
    }

    /// Diagnostic: a block could not be parsed.
    fn make_parse_block_statement_error(&mut self)
        requires
            old(self).wf(),
        ensures
            final(self).wf(),
            final(self).toks() == old(self).toks(),
            final(self).cursor() == old(self).cursor(),
            final(self).spec_errors().len() == old(self).spec_errors().len() + 1,
    {
        self.push_error("a block could not be parsed");
    }

    /// Diagnostic: a call's arguments could not be parsed.
    fn make_parse_call_arguments_error(&mut self)
        requires
            old(self).wf(),
        ensures
            final(self).wf(),
            final(self).toks() == old(self).toks(),
            final(self).cursor() == old(self).cursor(),
            final(self).spec_errors().len() == old(self).spec_errors().len() + 1,
    {
        self.push_error("call arguments could not be parsed");
    }

    /// Diagnostic: no parse rule fits the current token.
    fn make_unknown_token_error(&mut self)
        requires
            old(self).wf(),
        ensures
            final(self).wf(),
            final(self).toks() == old(self).toks(),
            final(self).cursor() == old(self).cursor(),
            final(self).spec_errors().len() == old(self).spec_errors().len() + 1,
    {
        self.push_error("an unexpected token was met");
    }

    /// Diagnostic: the current token is not of the expected kind.
    fn make_current_expect_error(&mut self, expect_type: TokenType)
        requires
            old(self).wf(),
        ensures
            final(self).wf(),
            final(self).toks() == old(self).toks(),
            final(self).cursor() == old(self).cursor(),
            final(self).spec_errors().len() == old(self).spec_errors().len() + 1,
    {
        let mut msg = "the current token should be ".to_owned();
        msg.append(token_type_name(&expect_type));
        msg.append(" but is ");
        let actual = self.cur().get_token_type();
        msg.append(token_type_name(&actual));
        let ctx = self.get_tokens_str();
        msg.append(ctx.as_str());
        self.errors.push(msg);
    }

    /// Parses one statement: `let`, `return`, or an expression statement.
    pub fn parse_statement(&mut self) -> (r: Option<Statement>)
        requires
            old(self).wf(),
        ensures
            final(self).wf(),
            final(self).toks() == old(self).toks(),
            old(self).cursor() <= final(self).cursor(),
            ({
                let res = sp_statement(old(self).toks(), old(self).cursor());
                &&& final(self).cursor() == res.next
                &&& final(self).spec_errors().len() == old(self).spec_errors().len() + res.errs
                &&& matches_stmt(r, res)
            }),
        decreases old(self).toks().len() - old(self).cursor(), 7int,
    {
        if self.current_token_is(TokenType::LET) {
            self.parse_let_statement()
        } else if self.current_token_is(TokenType::RETURN) {
            self.parse_return_statement()
        } else {
            self.parse_expression_statement()
        }
    }

    /// Parses `LET IDENT ASSIGN expression SEMICOLON`; the cursor ends on
    /// the semicolon. Any deviation records a diagnostic and yields nothing.
    fn parse_let_statement(&mut self) -> (r: Option<Statement>)
        requires
            old(self).wf(),
            tt(old(self).toks(), old(self).cursor()) == TokenType::LET,
        ensures
            final(self).wf(),
            final(self).toks() == old(self).toks(),
            old(self).cursor() <= final(self).cursor(),
            ({
                let res = sp_let(old(self).toks(), old(self).cursor());
                &&& final(self).cursor() == res.next
                &&& final(self).spec_errors().len() == old(self).spec_errors().len() + res.errs
                &&& matches_stmt(r, res)
            }),
        decreases old(self).toks().len() - old(self).cursor(), 6int,
    {
        let ghost t = self.toks();
        let ghost i0 = self.cursor();
        if !self.peek_token_is(TokenType::IDENT) {
            self.make_peek_expect_error(TokenType::IDENT);
            return None;
        }
        let tok = self.cur().clone();
        self.next_token();
        let name = match self.parse_identifier() {
            Some(n) => n,
            None => {
                return None;
            },
        };
        if !self.peek_token_is(TokenType::ASSIGN) {
            self.make_peek_expect_error(TokenType::ASSIGN);
            return None;
        }
        self.next_token();
        self.next_token();
        let value = match self.parse_expression(Opt::LOWEST) {
            Some(v) => v,
            None => {
                self.make_parse_expression_error();
                return None;
            },
        };
        if !self.peek_token_is(TokenType::SEMICOLON) {
            self.make_peek_expect_error(TokenType::SEMICOLON);
            return None;
        }
        self.next_token();
        Some(Statement::LetStatement { token: tok, name: Box::new(name), value: Box::new(value) })
    }

    /// Parses `RETURN expression SEMICOLON`; the cursor ends on the
    /// semicolon.
    fn parse_return_statement(&mut self) -> (r: Option<Statement>)
        requires
            old(self).wf(),
            tt(old(self).toks(), old(self).cursor()) == TokenType::RETURN,
        ensures
            final(self).wf(),
            final(self).toks() == old(self).toks(),
            old(self).cursor() <= final(self).cursor(),
            ({
                let res = sp_return(old(self).toks(), old(self).cursor());
                &&& final(self).cursor() == res.next
                &&& final(self).spec_errors().len() == old(self).spec_errors().len() + res.errs
                &&& matches_stmt(r, res)
            }),
        decreases old(self).toks().len() - old(self).cursor(), 6int,
    {
        let tok = self.cur().clone();
        self.next_token();
        let value = match self.parse_expression(Opt::LOWEST) {
            Some(v) => v,
            None => {
                self.make_parse_expression_error();
                return None;
            },
        };
        if !self.peek_token_is(TokenType::SEMICOLON) {
            self.make_peek_expect_error(TokenType::SEMICOLON);
            return None;
        }
        self.next_token();
        Some(Statement::ReturnStatement { token: tok, return_value: Box::new(value) })
    }

    /// Parses an expression statement: the expression at lowest precedence,
    /// then the semicolon when one follows (it is optional, so block-final
    /// expressions and bare `if`/`fn` forms parse).
    fn parse_expression_statement(&mut self) -> (r: Option<Statement>)
        requires
            old(self).wf(),
        ensures
            final(self).wf(),
            final(self).toks() == old(self).toks(),
            old(self).cursor() <= final(self).cursor(),
            ({
                let res = sp_exprstmt(old(self).toks(), old(self).cursor());
                &&& final(self).cursor() == res.next
                &&& final(self).spec_errors().len() == old(self).spec_errors().len() + res.errs
                &&& matches_stmt(r, res)
            }),
        decreases old(self).toks().len() - old(self).cursor(), 6int,
    {
        let tok = self.cur().clone();
        let expression = match self.parse_expression(Opt::LOWEST) {
            Some(e) => e,
            None => {
                self.make_parse_expression_error();
                return None;
            },
        };
        if self.peek_token_is(TokenType::SEMICOLON) {
            self.next_token();
        }
        Some(Statement::ExpressionStatement { token: tok, expression: Box::new(expression) })
    }

    /// Parses an expression by Pratt's method: a null-denotation for the
    /// current token, then the infix chain while the lookahead binds
    /// tighter than `precedence`.
    fn parse_expression(&mut self, precedence: Opt) -> (r: Option<Expression>)
        requires
            old(self).wf(),
        ensures
            final(self).wf(),
            final(self).toks() == old(self).toks(),
            old(self).cursor() <= final(self).cursor(),
            ({
                let res = sp_expression(
                    old(self).toks(),
                    old(self).cursor(),
                    opt_rank(precedence),
                );
                &&& final(self).cursor() == res.next
                &&& final(self).spec_errors().len() == old(self).spec_errors().len() + res.errs
                &&& matches_expr(r, res)
            }),
        decreases old(self).toks().len() - old(self).cursor(), 4int,
    {
        let ghost t = self.toks();
        let ghost i0 = self.cursor();
        let ghost mp = opt_rank(precedence);
        let ghost e0 = self.spec_errors().len();
        let ghost target = sp_expression(t, i0, mp);
        let ctype = self.cur().get_token_type();
        let left_opt: Option<Expression> = match ctype {
            TokenType::IF => self.parse_if_expression(),
            TokenType::FUNCTION => self.parse_function_literal(),
            TokenType::IDENT => self.parse_identifier(),
            TokenType::INT => self.parse_integer_literal(),
            TokenType::TRUE | TokenType::FALSE => self.parse_boolean_literal(),
            TokenType::BANG | TokenType::MINUS => self.parse_prefix_expression(),
            TokenType::LPAREN => self.parse_grouped_expression(),
            _ => {
                self.make_unknown_token_error();
                None
            },
        };
        let mut left = match left_opt {
            Some(l) => l,
            None => {
                return None;
            },
        };
        proof {
            assert(target == sp_chain_wrap(
                t,
                i0,
                self.cursor(),
                (self.spec_errors().len() - e0) as nat,
                crate::ast::expr_model(left),
                mp,
            ));
        }
        loop
            invariant
                self.wf(),
                self.toks() == t,
                t == old(self).toks(),
                i0 == old(self).cursor(),
                e0 == old(self).spec_errors().len(),
                wf_tokens(t),
                0 <= i0 <= self.cursor() < t.len(),
                mp == opt_rank(precedence),
                0 <= mp,
                target == sp_expression(t, i0, mp),
                e0 <= self.spec_errors().len(),
                ({
                    let c = sp_chain(t, self.cursor(), crate::ast::expr_model(left), mp);
                    &&& target.node == c.node
                    &&& target.next == c.next
                    &&& e0 + target.errs == self.spec_errors().len() + c.errs
                }),
            ensures
                self.wf(),
                self.toks() == t,
                0 <= i0 <= self.cursor() < t.len(),
                e0 <= self.spec_errors().len(),
                sp_chain(t, self.cursor(), crate::ast::expr_model(left), mp) == (Parsed {
                    node: Some(crate::ast::expr_model(left)),
                    next: self.cursor(),
                    errs: 0nat,
                }),
                ({
                    let c = sp_chain(t, self.cursor(), crate::ast::expr_model(left), mp);
                    &&& target.node == c.node
                    &&& target.next == c.next
                    &&& e0 + target.errs == self.spec_errors().len() + c.errs
                }),
            decreases t.len() - self.cursor(),
        {
            if self.peek_token_is(TokenType::SEMICOLON) {
                break ;
            }
            let pv = opt_value(&precedence);
            let ppv = opt_value(&self.peek_precedence());
            if pv >= ppv {
                break ;
            }
            if !self.peek_token_is_infix() {
                break ;
            }
            if self.peek_token_is(TokenType::LPAREN) {
                let tok_of_left = left.get_token();
                let is_callable = tok_of_left.token_type_is(TokenType::FUNCTION)
                    || tok_of_left.token_type_is(TokenType::IDENT);
                if is_callable {
                    let ghost lm = crate::ast::expr_model(left);
                    self.next_token();
                    match self.parse_call_expression(left) {
                        Some(e) => {
                            left = e;
                        },
                        None => {
                            return None;
                        },
                    }
                } else {
                    break ;
                }
            } else {
                let ghost lm = crate::ast::expr_model(left);
                self.next_token();
                match self.parse_infix_expression(left) {
                    Some(e) => {
                        left = e;
                    },
                    None => {
                        return None;
                    },
                }
            }
        }
        Some(left)
    }

    /// The null-denotation of an identifier token: an `Identifier` node
    /// carrying the token and its text; `EOF` and `ILLEGAL` are refused.
    fn parse_identifier(&mut self) -> (r: Option<Expression>)
        requires
            old(self).wf(),
        ensures
            final(self).wf(),
            final(self).toks() == old(self).toks(),
            final(self).cursor() == old(self).cursor(),
            ({
                let t = old(self).toks();
                let i = old(self).cursor();
                if tt(t, i) == TokenType::EOF || tt(t, i) == TokenType::ILLEGAL {
                    r is None && final(self).spec_errors().len() == old(self).spec_errors().len() + 1
                } else {
                    final(self).spec_errors() == old(self).spec_errors() && (r matches Some(e)
                        && crate::ast::expr_model(e) == (crate::ast::ExprModel::Identifier {
                        token: t[i],
                        value: t[i].literal,
                    }))
                }
            }),
    {
        if self.current_token_is(TokenType::EOF) || self.current_token_is(TokenType::ILLEGAL) {
            self.make_parse_identifier_error();
            return None;
        }
        let tok = self.cur().clone();
        let value = self.cur().get_literal();
        Some(Expression::Identifier { token: tok, value })
    }

    /// The null-denotation of an `INT` token: its literal read in decimal;
    /// a diagnostic when the text is no fitting number.
    fn parse_integer_literal(&mut self) -> (r: Option<Expression>)
        requires
            old(self).wf(),
        ensures
            final(self).wf(),
            final(self).toks() == old(self).toks(),
            final(self).cursor() == old(self).cursor(),
            ({
                let t = old(self).toks();
                let i = old(self).cursor();
                match crate::text::spec_parse_i64(t[i].literal) {
                    Some(v) => r matches Some(e) && crate::ast::expr_model(e)
                        == (crate::ast::ExprModel::IntegerLiteral {
                        token: t[i],
                        value: v as i64,
                    }) && final(self).spec_errors() == old(self).spec_errors(),
                    None => r is None && final(self).spec_errors().len() == old(self).spec_errors().len() + 1,
                }
            }),
    {
        let lit = self.cur().get_literal();
        match parse_i64(lit.as_str()) {
            Some(v) => {
                let tok = self.cur().clone();
                Some(Expression::IntegerLiteral { token: tok, value: v })
            },
            None => {
                self.make_parse_integer_literal_error();
                None
            },
        }
    }

    /// The null-denotation of a boolean keyword token: its literal read as
    /// `true` or `false`.
    fn parse_boolean_literal(&mut self) -> (r: Option<Expression>)
        requires
            old(self).wf(),
        ensures
            final(self).wf(),
            final(self).toks() == old(self).toks(),
            final(self).cursor() == old(self).cursor(),
            ({
                let t = old(self).toks();
                let i = old(self).cursor();
                match crate::text::spec_parse_bool(t[i].literal) {
                    Some(b) => r matches Some(e) && crate::ast::expr_model(e)
                        == (crate::ast::ExprModel::BooleanLiteral { token: t[i], value: b })
                        && final(self).spec_errors() == old(self).spec_errors(),
                    None => r is None && final(self).spec_errors().len() == old(self).spec_errors().len() + 1,
                }
            }),
    {
        let lit = self.cur().get_literal();
        match parse_bool(lit.as_str()) {
            Some(b) => {
                let tok = self.cur().clone();
                Some(Expression::BooleanLiteral { token: tok, value: b })
            },
            None => {
                self.make_parse_boolean_literal_error();
                None
            },
        }
    }

    /// The null-denotation of `!` or `-`: the operator token, then its
    /// operand at `PREFIX` precedence.
    fn parse_prefix_expression(&mut self) -> (r: Option<Expression>)
        requires
            old(self).wf(),
            tt(old(self).toks(), old(self).cursor()) == TokenType::BANG || tt(
                old(self).toks(),
                old(self).cursor(),
            ) == TokenType::MINUS,
        ensures
            final(self).wf(),
            final(self).toks() == old(self).toks(),
            old(self).cursor() <= final(self).cursor(),
            ({
                let t = old(self).toks();
                let i = old(self).cursor();
                let sub = sp_expression(t, nxt(t, i), 5);
                &&& final(self).cursor() == sub.next
                &&& cl(t, i, sub.next) == sub.next
                &&& final(self).spec_errors().len() == old(self).spec_errors().len() + sub.errs
                &&& match r {
                    Some(e) => sub.node matches Some(rm) && crate::ast::expr_model(e)
                        == (crate::ast::ExprModel::PrefixExpression {
                        token: t[i],
                        operator: t[i].literal,
                        right_exp: Box::new(rm),
                    }),
                    None => sub.node is None,
                }
            }),
        decreases old(self).toks().len() - old(self).cursor(), 3int,
    {
        let tok = self.cur().clone();
        self.next_token();
        let exp = match self.parse_expression(Opt::PREFIX) {
            Some(e) => e,
            None => {
                return None;
            },
        };
        let operator = tok.get_literal();
        Some(Expression::PrefixExpression { operator, token: tok, right_exp: Box::new(exp) })
    }

    /// The left-denotation of a binary operator: the operator token under
    /// the cursor, then the right operand at the operator's own precedence
    /// (strictly-greater comparison makes equal precedence left-associate).
    fn parse_infix_expression(&mut self, left: Expression) -> (r: Option<Expression>)
        requires
            old(self).wf(),
            prec_of(tt(old(self).toks(), old(self).cursor())) >= 1,
        ensures
            final(self).wf(),
            final(self).toks() == old(self).toks(),
            old(self).cursor() <= final(self).cursor(),
            ({
                let t = old(self).toks();
                let i = old(self).cursor();
                let sub = sp_expression(t, nxt(t, i), prec_of(tt(t, i)));
                &&& final(self).cursor() == sub.next
                &&& cl(t, nxt(t, i), sub.next) == sub.next
                &&& i < sub.next
                &&& final(self).spec_errors().len() == old(self).spec_errors().len() + sub.errs
                &&& match r {
                    Some(e) => sub.node matches Some(rm) && crate::ast::expr_model(e)
                        == (crate::ast::ExprModel::InfixExpression {
                        token: t[i],
                        operator: t[i].literal,
                        left_exp: Box::new(crate::ast::expr_model(left)),
                        right_exp: Box::new(rm),
                    }),
                    None => sub.node is None,
                }
            }),
        decreases old(self).toks().len() - old(self).cursor(), 3int,
    {
        let tok = self.cur().clone();
        let precedence = self.current_precedence();
        self.next_token();
        let right = match self.parse_expression(precedence) {
            Some(e) => e,
            None => {
                return None;
            },
        };
        let operator = tok.get_literal();
        Some(
            Expression::InfixExpression {
                operator,
                token: tok,
                left_exp: Box::new(left),
                right_exp: Box::new(right),
            },
        )
    }

    /// A parenthesised group: the inner expression, then the mandatory
    /// closing `)`.
    fn parse_grouped_expression(&mut self) -> (r: Option<Expression>)
        requires
            old(self).wf(),
            tt(old(self).toks(), old(self).cursor()) == TokenType::LPAREN,
        ensures
            final(self).wf(),
            final(self).toks() == old(self).toks(),
            old(self).cursor() <= final(self).cursor(),
            ({
                let res = sp_grouped(old(self).toks(), old(self).cursor());
                &&& final(self).cursor() == res.next
                &&& final(self).spec_errors().len() == old(self).spec_errors().len() + res.errs
                &&& matches_expr(r, res)
            }),
        decreases old(self).toks().len() - old(self).cursor(), 3int,
    {
        self.next_token();
        let exp = match self.parse_expression(Opt::LOWEST) {
            Some(e) => e,
            None => {
                return None;
            },
        };
        if !self.peek_token_is(TokenType::RPAREN) {
            self.make_peek_expect_error(TokenType::RPAREN);
            return None;
        }
        self.next_token();
        Some(exp)
    }

    /// An `if` expression: `IF LPAREN expression RPAREN block`, with an
    /// optional `ELSE block`; both branches are always blocks.
    #[verifier::rlimit(100)]
    fn parse_if_expression(&mut self) -> (r: Option<Expression>)
        requires
            old(self).wf(),
            tt(old(self).toks(), old(self).cursor()) == TokenType::IF,
        ensures
            final(self).wf(),
            final(self).toks() == old(self).toks(),
            old(self).cursor() <= final(self).cursor(),
            ({
                let res = sp_if(old(self).toks(), old(self).cursor());
                &&& final(self).cursor() == res.next
                &&& final(self).spec_errors().len() == old(self).spec_errors().len() + res.errs
                &&& matches_expr(r, res)
            }),
        decreases old(self).toks().len() - old(self).cursor(), 3int,
    {
        let tok = self.cur().clone();
        if !self.peek_token_is(TokenType::LPAREN) {
            self.make_peek_expect_error(TokenType::LPAREN);
            return None;
        }
        self.next_token();
        let condition = match self.parse_expression(Opt::LOWEST) {
            Some(c) => c,
            None => {
                return None;
            },
        };
        if !self.current_token_is(TokenType::RPAREN) {
            self.make_current_expect_error(TokenType::RPAREN);
            return None;
        }
        if !self.peek_token_is(TokenType::LBRACE) {
            self.make_peek_expect_error(TokenType::LBRACE);
            return None;
        }
        self.next_token();
        let consequence = match self.parse_block_statement() {
            Some(b) => b,
            None => {
                return None;
            },
        };
        if self.peek_token_is(TokenType::ELSE) {
            self.next_token();
            if !self.peek_token_is(TokenType::LBRACE) {
                self.make_peek_expect_error(TokenType::LBRACE);
                return None;
            }
            self.next_token();
            let alt = match self.parse_block_statement() {
                Some(b) => b,
                None => {
                    return None;
                },
            };
            Some(
                Expression::IfExpression {
                    token: tok,
                    condition: Box::new(condition),
                    consequence: Box::new(consequence),
                    alternative: Box::new(Some(alt)),
                },
            )
        } else {
            Some(
                Expression::IfExpression {
                    token: tok,
                    condition: Box::new(condition),
                    consequence: Box::new(consequence),
                    alternative: Box::new(None),
                },
            )
        }
    }

    /// A function literal: `FUNCTION LPAREN parameters RPAREN block`.
    fn parse_function_literal(&mut self) -> (r: Option<Expression>)
        requires
            old(self).wf(),
            tt(old(self).toks(), old(self).cursor()) == TokenType::FUNCTION,
        ensures
            final(self).wf(),
            final(self).toks() == old(self).toks(),
            old(self).cursor() <= final(self).cursor(),
            ({
                let res = sp_function(old(self).toks(), old(self).cursor());
                &&& final(self).cursor() == res.next
                &&& final(self).spec_errors().len() == old(self).spec_errors().len() + res.errs
                &&& matches_expr(r, res)
            }),
        decreases old(self).toks().len() - old(self).cursor(), 3int,
    {
        let tok = self.cur().clone();
        if !self.peek_token_is(TokenType::LPAREN) {
            self.make_peek_expect_error(TokenType::LPAREN);
            return None;
        }
        self.next_token();
        let mut parameters: Vec<Box<Expression>> = Vec::new();
        self.next_token();
        if !self.parse_function_parameters(&mut parameters) {
            self.make_parse_parameters_error();
            return None;
        }
        if !self.peek_token_is(TokenType::LBRACE) {
            self.make_peek_expect_error(TokenType::LBRACE);
            return None;
        }
        self.next_token();
        let body = match self.parse_block_statement() {
            Some(b) => b,
            None => {
                self.make_parse_block_statement_error();
                return None;
            },
        };
        Some(Expression::FunctionLiteral { token: tok, parameters, body })
    }

    /// The parameters of a function literal: zero or more `IDENT`s
    /// separated by commas; `true` on success, with the cursor on the
    /// closing `)`.
    fn parse_function_parameters(&mut self, parameters: &mut Vec<Box<Expression>>) -> (r: bool)
        requires
            old(self).wf(),
        ensures
            final(self).wf(),
            final(self).toks() == old(self).toks(),
            old(self).cursor() <= final(self).cursor(),
            ({
                let res = sp_params(
                    old(self).toks(),
                    old(self).cursor(),
                    boxed_exprs_model(old(parameters)@),
                );
                &&& final(self).cursor() == res.next
                &&& final(self).spec_errors().len() == old(self).spec_errors().len() + res.errs
                &&& r == (res.node is Some)
                &&& (r ==> res.node == Some(boxed_exprs_model(final(parameters)@)))
            }),
    {
        let ghost t = self.toks();
        let ghost target = sp_params(t, self.cursor(), boxed_exprs_model(parameters@));
        let ghost i0 = self.cursor();
        let ghost e0 = self.spec_errors().len();
        loop
            invariant
                self.wf(),
                self.toks() == t,
                t == old(self).toks(),
                i0 == old(self).cursor(),
                e0 == old(self).spec_errors().len(),
                target == sp_params(t, i0, boxed_exprs_model(old(parameters)@)),
                wf_tokens(t),
                0 <= i0 <= self.cursor() < t.len(),
                self.spec_errors().len() == e0,
                target == sp_params(t, self.cursor(), boxed_exprs_model(parameters@)),
            decreases t.len() - self.cursor(),
        {
            if self.current_token_is(TokenType::RPAREN) {
                return true;
            }
            if !self.current_token_is(TokenType::IDENT) {
                return false;
            }
            let tokc = self.cur().clone();
            let lit = self.cur().get_literal();
            let ident = Expression::Identifier { token: tokc, value: lit };
            let ghost before = parameters@;
            if self.peek_token_is(TokenType::COMMA) {
                parameters.push(Box::new(ident));
                proof {
                    crate::ast::lemma_boxed_exprs_model_push(before, parameters@[before.len() as int]);
                }
                self.next_token();
                self.next_token();
            } else if self.peek_token_is(TokenType::RPAREN) {
                parameters.push(Box::new(ident));
                proof {
                    crate::ast::lemma_boxed_exprs_model_push(before, parameters@[before.len() as int]);
                }
                self.next_token();
                return true;
            } else {
                return false;
            }
        }
    }

    /// A call expression, entered with the cursor on the `(` after the
    /// callee.
    fn parse_call_expression(&mut self, function: Expression) -> (r: Option<Expression>)
        requires
            old(self).wf(),
            tt(old(self).toks(), old(self).cursor()) == TokenType::LPAREN,
        ensures
            final(self).wf(),
            final(self).toks() == old(self).toks(),
            old(self).cursor() <= final(self).cursor(),
            ({
                let t = old(self).toks();
                let i = old(self).cursor();
                let args = sp_call_args(t, nxt(t, i), Seq::empty());
                &&& nxt(t, i) <= args.next <= t.len() - 1
                &&& final(self).cursor() == args.next
                &&& match r {
                    Some(e) => args.node matches Some(am) && crate::ast::expr_model(e)
                        == (crate::ast::ExprModel::CallExpression {
                        token: t[i],
                        function: Box::new(crate::ast::expr_model(function)),
                        arguments: am,
                    }) && final(self).spec_errors().len() == old(self).spec_errors().len()
                        + args.errs,
                    None => args.node is None && final(self).spec_errors().len() == old(
                        self,
                    ).spec_errors().len() + args.errs + 1,
                }
            }),
        decreases old(self).toks().len() - old(self).cursor(), 3int,
    {
        let tok = self.cur().clone();
        self.next_token();
        let mut arguments: Vec<Box<Expression>> = Vec::new();
        if !self.parse_call_arguments(&mut arguments) {
            self.make_parse_call_arguments_error();
            return None;
        }
        Some(Expression::CallExpression { token: tok, function: Box::new(function), arguments })
    }

    /// The arguments of a call: expressions at lowest precedence separated
    /// by commas; `true` on success, with the cursor on the closing `)`.
    fn parse_call_arguments(&mut self, arguments: &mut Vec<Box<Expression>>) -> (r: bool)
        requires
            old(self).wf(),
        ensures
            final(self).wf(),
            final(self).toks() == old(self).toks(),
            old(self).cursor() <= final(self).cursor(),
            ({
                let res = sp_call_args(
                    old(self).toks(),
                    old(self).cursor(),
                    boxed_exprs_model(old(arguments)@),
                );
                &&& final(self).cursor() == res.next
                &&& final(self).spec_errors().len() == old(self).spec_errors().len() + res.errs
                &&& r == (res.node is Some)
                &&& (r ==> res.node == Some(boxed_exprs_model(final(arguments)@)))
            }),
        decreases old(self).toks().len() - old(self).cursor(), 5int,
    {
        let ghost t = self.toks();
        let ghost i0 = self.cursor();
        let ghost e0 = self.spec_errors().len();
        let ghost target = sp_call_args(t, i0, boxed_exprs_model(arguments@));
        loop
            invariant
                self.wf(),
                self.toks() == t,
                t == old(self).toks(),
                i0 == old(self).cursor(),
                e0 == old(self).spec_errors().len(),
                target == sp_call_args(t, i0, boxed_exprs_model(old(arguments)@)),
                wf_tokens(t),
                0 <= i0 <= self.cursor() < t.len(),
                e0 <= self.spec_errors().len(),
                ({
                    let c = sp_call_args(t, self.cursor(), boxed_exprs_model(arguments@));
                    &&& target.node == c.node
                    &&& target.next == c.next
                    &&& e0 + target.errs == self.spec_errors().len() + c.errs
                }),
            decreases t.len() - self.cursor(),
        {
            if self.current_token_is(TokenType::RPAREN) {
                return true;
            }
            let arg = match self.parse_expression(Opt::LOWEST) {
                Some(a) => a,
                None => {
                    self.make_parse_expression_error();
                    return false;
                },
            };
            let ghost before = arguments@;
            arguments.push(Box::new(arg));
            proof {
                crate::ast::lemma_boxed_exprs_model_push(before, arguments@[before.len() as int]);
            }
            if self.peek_token_is(TokenType::COMMA) {
                self.next_token();
                self.next_token();
            } else if self.peek_token_is(TokenType::RPAREN) {
                self.next_token();
                return true;
            } else {
                return false;
            }
        }
    }

    /// A block: statements between `{` and `}` (an unclosed block ends at
    /// `EOF`), entered with the cursor on the `{`.
    #[verifier::rlimit(100)]
    fn parse_block_statement(&mut self) -> (r: Option<Statement>)
        requires
            old(self).wf(),
            tt(old(self).toks(), old(self).cursor()) == TokenType::LBRACE,
        ensures
            final(self).wf(),
            final(self).toks() == old(self).toks(),
            old(self).cursor() <= final(self).cursor(),
            ({
                let res = sp_block(old(self).toks(), old(self).cursor());
                &&& final(self).cursor() == res.next
                &&& final(self).spec_errors().len() == old(self).spec_errors().len() + res.errs
                &&& matches_stmt(r, res)
            }),
        decreases old(self).toks().len() - old(self).cursor(), 3int,
    {
        let ghost t = self.toks();
        let ghost i0 = self.cursor();
        let ghost e0 = self.spec_errors().len();
        let brace_tok = self.cur().clone();
        let mut statements: Vec<Box<Statement>> = Vec::new();
        self.next_token();
        let ghost target = sp_block_stmts(t, self.cursor(), Seq::empty());
        loop
            invariant
                self.wf(),
                self.toks() == t,
                t == old(self).toks(),
                i0 == old(self).cursor(),
                e0 == old(self).spec_errors().len(),
                tt(t, i0) == TokenType::LBRACE,
                target == sp_block_stmts(t, nxt(t, i0), Seq::empty()),
                wf_tokens(t),
                0 <= i0 < t.len(),
                i0 < self.cursor() < t.len(),
                e0 <= self.spec_errors().len(),
                ({
                    let c = sp_block_stmts(t, self.cursor(), boxed_stmts_model(statements@));
                    &&& target.node == c.node
                    &&& target.next == c.next
                    &&& e0 + target.errs == self.spec_errors().len() + c.errs
                }),
            ensures
                self.wf(),
                self.toks() == t,
                e0 <= self.spec_errors().len(),
                tt(t, self.cursor()) == TokenType::RBRACE || tt(t, self.cursor())
                    == TokenType::EOF,
                target.node == Some(boxed_stmts_model(statements@)),
                target.next == self.cursor(),
                e0 + target.errs == self.spec_errors().len(),
            decreases t.len() - self.cursor(),
        {
            if self.current_token_is(TokenType::RBRACE) || self.current_token_is(
                TokenType::EOF,
            ) {
                break ;
            }
            let stmt = match self.parse_statement() {
                Some(s) => s,
                None => {
                    return None;
                },
            };
            let ghost before = statements@;
            statements.push(Box::new(stmt));
            proof {
                crate::ast::lemma_boxed_stmts_model_push(before, statements@[before.len() as int]);
            }
            self.next_token();
        }
        Some(Statement::BlockStatement { token: brace_tok, statements })
    }

    /// Advances to the next semicolon after a failed statement. Yields
    /// `false` — after recording a diagnostic — when `EOF` or an `ILLEGAL`
    /// token comes first, which ends parsing for good.
    fn resync(&mut self) -> (r: bool)
        requires
            old(self).wf(),
        ensures
            final(self).wf(),
            final(self).toks() == old(self).toks(),
            old(self).cursor() <= final(self).cursor(),
            ({
                let rr = sp_resync(old(self).toks(), old(self).cursor());
                &&& final(self).cursor() == rr.0
                &&& r == !rr.1
                &&& (r ==> final(self).spec_errors() == old(self).spec_errors() && tt(
                    old(self).toks(),
                    rr.0,
                ) == TokenType::SEMICOLON)
                &&& (!r ==> final(self).spec_errors().len() == old(self).spec_errors().len() + 1)
            }),
    {
        let ghost t = self.toks();
        let ghost rs0 = self.cursor();
        loop
            invariant
                self.wf(),
                self.toks() == t,
                t == old(self).toks(),
                rs0 == old(self).cursor(),
                wf_tokens(t),
                0 <= rs0 <= self.cursor() < t.len(),
                self.spec_errors() == old(self).spec_errors(),
                sp_resync(t, self.cursor()) == sp_resync(t, rs0),
            ensures
                self.wf(),
                self.toks() == t,
                self.spec_errors() == old(self).spec_errors(),
                rs0 <= self.cursor() < t.len(),
                sp_resync(t, rs0) == (self.cursor(), false),
                tt(t, self.cursor()) == TokenType::SEMICOLON,
            decreases t.len() - self.cursor(),
        {
            if self.current_token_is(TokenType::SEMICOLON) {
                break ;
            }
            self.next_token();
            if self.current_token_is(TokenType::EOF) || self.current_token_is(
                TokenType::ILLEGAL,
            ) {
                self.make_illegal_error();
                return false;
            }
        }
        true
    }

    /// Parses a whole program: statements until `EOF`. An `ILLEGAL` token
    /// is fatal; after a failed statement the parser records a diagnostic
    /// and resynchronises at the next semicolon. The tree surfaces only
    /// when no diagnostic at all was recorded; otherwise `get_errors` tells
    /// why.
    #[verifier::rlimit(100)]
    pub fn parse_program(&mut self) -> (r: Option<Program>)
        requires
            old(self).wf(),
        ensures
            final(self).wf(),
            final(self).toks() == old(self).toks(),
            ({
                let res = sp_program(old(self).toks(), old(self).cursor(), Seq::empty());
                &&& final(self).spec_errors().len() == old(self).spec_errors().len() + res.errs
                &&& match r {
                    Some(p) => final(self).spec_errors().len() == 0 && stmts_model(p.statements@)
                        == res.stmts,
                    None => final(self).spec_errors().len() > 0,
                }
            }),
    {
        let ghost t = self.toks();
        let ghost i0 = self.cursor();
        let ghost e0 = self.spec_errors().len();
        let ghost target = sp_program(t, i0, Seq::empty());
        let mut program = Program::new();
        loop
            invariant_except_break
                ({
                    let c = sp_program(t, self.cursor(), stmts_model(program.statements@));
                    &&& target.stmts == c.stmts
                    &&& e0 + target.errs == self.spec_errors().len() + c.errs
                }),
            invariant
                self.wf(),
                self.toks() == t,
                t == old(self).toks(),
                i0 == old(self).cursor(),
                e0 == old(self).spec_errors().len(),
                target == sp_program(t, i0, Seq::empty()),
                wf_tokens(t),
                0 <= i0 <= self.cursor() < t.len(),
                e0 <= self.spec_errors().len(),
            ensures
                self.wf(),
                self.toks() == t,
                e0 <= self.spec_errors().len(),
                e0 + target.errs == self.spec_errors().len(),
                self.spec_errors().len() == e0 ==> target.stmts == stmts_model(
                    program.statements@,
                ),
            decreases t.len() - self.cursor(),
        {
            if self.current_token_is(TokenType::EOF) {
                break ;
            }
            if self.current_token_is(TokenType::ILLEGAL) {
                self.make_illegal_error();
                break ;
            }
            let ghost j = self.cursor();
            let ghost acc_m = stmts_model(program.statements@);
            let ghost e_top = self.spec_errors().len();
            let st_res = self.parse_statement();
            match st_res {
                Some(stmt) => {
                    let ghost before = program.statements@;
                    program.statements.push(stmt);
                    proof {
                        crate::ast::lemma_stmts_model_push(
                            before,
                            program.statements@[before.len() as int],
                        );
                    }
                    self.next_token();
                },
                None => {
                    self.make_parse_statement_error();
                    if !self.resync() {
                        return None;
                    }
                    self.next_token();
                },
            }
        }
        if self.errors.len() != 0 {
            None
        } else {
            Some(program)
        }
    }

    /// Diagnostic: the lookahead token is not of the expected kind.
    fn make_peek_expect_error(&mut self, expect_type: TokenType)
        requires
            old(self).wf(),
        ensures
            final(self).wf(),
            final(self).toks() == old(self).toks(),
            final(self).cursor() == old(self).cursor(),
            final(self).spec_errors().len() == old(self).spec_errors().len() + 1,
    {
        let mut msg = "the next token should be ".to_owned();
        msg.append(token_type_name(&expect_type));
        msg.append(" but is ");
        let actual = self.peek().get_token_type();
        msg.append(token_type_name(&actual));
        let ctx = self.get_tokens_str();
        msg.append(ctx.as_str());
        self.errors.push(msg);
    }
}

} // verus!
