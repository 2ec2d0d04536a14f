//! The grammar as mathematics: a functional Pratt parser over the token
//! model. Each function maps a token sequence and a cursor to the node
//! recognised there, the cursor of the node's last token, and the number of
//! diagnostics recorded. The executable parser is proved to compute exactly
//! these functions, so parsing is deterministic by construction.
//!
//! Cursor convention: a parse function is entered with the cursor on the
//! first token of its construct and leaves it on the last one; `nxt`
//! advances the cursor, saturating at the final `EOF` token.

use vstd::prelude::*;

use crate::ast::{ExprModel, StmtModel};
use crate::lexer::{lex_from, lemma_lex_from_totality};
use crate::text::{spec_parse_bool, spec_parse_i64};
use crate::token::{TokenModel, TokenType};

verus! {

/// A well-formed token stream: nonempty, ending in the one and only `EOF`.
pub open spec fn wf_tokens(toks: Seq<TokenModel>) -> bool {
    &&& toks.len() >= 1
    &&& toks[toks.len() - 1].token_type == TokenType::EOF
    &&& forall|k: int|
        0 <= k < toks.len() - 1 ==> (#[trigger] toks[k].token_type) != TokenType::EOF
}

/// The lexer's output is a well-formed token stream.
pub proof fn lemma_lex_wf(s: Seq<char>, pos: nat)
    requires
        pos <= s.len(),
    ensures
        wf_tokens(lex_from(s, pos)),
{
    lemma_lex_from_totality(s, pos);
}

/// The kind of the token under cursor `i`.
pub open spec fn tt(toks: Seq<TokenModel>, i: int) -> TokenType
    recommends
        0 <= i < toks.len(),
{
    toks[i].token_type
}

/// The cursor advanced by one token, saturating at the final `EOF`.
pub open spec fn nxt(toks: Seq<TokenModel>, i: int) -> int {
    if i + 1 < toks.len() {
        i + 1
    } else {
        toks.len() - 1
    }
}

/// `x` when it lies between `lo` and the last cursor, `lo` otherwise. The
/// parse functions guard cursors they receive from sub-parses with this, so
/// that their termination is structural; on well-formed runs it is the
/// identity.
pub open spec fn cl(toks: Seq<TokenModel>, lo: int, x: int) -> int {
    if lo <= x <= toks.len() - 1 {
        x
    } else {
        lo
    }
}

/// The precedence ladder, as ranks: `LOWEST` 0, `EQUALS` 1, `LESSGREATER`
/// 2, `SUM` 3, `PRODUCT` 4, `PREFIX` 5, `CALL` 6.
pub open spec fn prec_of(t: TokenType) -> int {
    match t {
        TokenType::EQ => 1,
        TokenType::NEQ => 1,
        TokenType::LT => 2,
        TokenType::GT => 2,
        TokenType::PLUS => 3,
        TokenType::MINUS => 3,
        TokenType::ASTERISK => 4,
        TokenType::SLASH => 4,
        TokenType::LPAREN => 6,
        _ => 0,
    }
}

/// What a parse function yields: the node when it succeeded, the cursor of
/// the construct's last token (or of the failure), and how many diagnostics
/// were recorded.
pub struct Parsed<T> {
    pub node: Option<T>,
    pub next: int,
    pub errs: nat,
}

/// What parsing a whole program yields: the statements and the total number
/// of diagnostics; the program surfaces only when that number is zero.
pub struct ParsedProgram {
    pub stmts: Seq<StmtModel>,
    pub errs: nat,
}

/// Whether an expression may stand as the callee of a call: an identifier
/// or a function literal, judged by its token.
pub open spec fn callable(e: ExprModel) -> bool {
    crate::ast::expr_token(e).token_type == TokenType::FUNCTION || crate::ast::expr_token(
        e,
    ).token_type == TokenType::IDENT
}

/// Resynchronisation after a failed statement: the cursor of the next
/// `SEMICOLON`, or of the `EOF`/`ILLEGAL` token that makes the failure
/// fatal (`true` in the second component).
pub open spec fn sp_resync(toks: Seq<TokenModel>, m: int) -> (int, bool)
    decreases toks.len() - m,
    when wf_tokens(toks) && 0 <= m < toks.len()
{
    if tt(toks, m) == TokenType::SEMICOLON {
        (m, false)
    } else {
        let m2 = nxt(toks, m);
        if tt(toks, m2) == TokenType::EOF || tt(toks, m2) == TokenType::ILLEGAL {
            (m2, true)
        } else if tt(toks, m2) == TokenType::SEMICOLON {
            (m2, false)
        } else {
            sp_resync(toks, m2)
        }
    }
}

/// The parameter list of a function literal: `IDENT`s separated by commas,
/// closed by `RPAREN`; entered on the first token after `(`, left on the
/// closing `)`.
pub open spec fn sp_params(toks: Seq<TokenModel>, m: int, acc: Seq<ExprModel>) -> Parsed<
    Seq<ExprModel>,
>
    decreases toks.len() - m,
    when wf_tokens(toks) && 0 <= m < toks.len()
{
    if tt(toks, m) == TokenType::RPAREN {
        Parsed { node: Some(acc), next: m, errs: 0 }
    } else if tt(toks, m) != TokenType::IDENT {
        Parsed { node: None, next: m, errs: 0 }
    } else {
        let ident = ExprModel::Identifier { token: toks[m], value: toks[m].literal };
        if tt(toks, nxt(toks, m)) == TokenType::COMMA {
            sp_params(toks, nxt(toks, nxt(toks, m)), acc.push(ident))
        } else if tt(toks, nxt(toks, m)) == TokenType::RPAREN {
            Parsed { node: Some(acc.push(ident)), next: nxt(toks, m), errs: 0 }
        } else {
            Parsed { node: None, next: m, errs: 0 }
        }
    }
}

/// An expression at minimum precedence `minp`: a null-denotation for the
/// token under the cursor, then the left-denotation chain.
pub open spec fn sp_expression(toks: Seq<TokenModel>, i: int, minp: int) -> Parsed<ExprModel>
    decreases toks.len() - i, 4int,
    when wf_tokens(toks) && 0 <= i < toks.len() && 0 <= minp
{
    let t = tt(toks, i);
    if t == TokenType::IDENT {
        let node = ExprModel::Identifier { token: toks[i], value: toks[i].literal };
        sp_chain_wrap(toks, i, i, 0, node, minp)
    } else if t == TokenType::INT {
        match spec_parse_i64(toks[i].literal) {
            Some(v) => {
                let node = ExprModel::IntegerLiteral { token: toks[i], value: v as i64 };
                sp_chain_wrap(toks, i, i, 0, node, minp)
            },
            None => Parsed { node: None, next: i, errs: 1 },
        }
    } else if t == TokenType::TRUE || t == TokenType::FALSE {
        match spec_parse_bool(toks[i].literal) {
            Some(b) => {
                let node = ExprModel::BooleanLiteral { token: toks[i], value: b };
                sp_chain_wrap(toks, i, i, 0, node, minp)
            },
            None => Parsed { node: None, next: i, errs: 1 },
        }
    } else if t == TokenType::BANG || t == TokenType::MINUS {
        let sub = sp_expression(toks, nxt(toks, i), 5);
        match sub.node {
            Some(right) => {
                let node = ExprModel::PrefixExpression {
                    token: toks[i],
                    operator: toks[i].literal,
                    right_exp: Box::new(right),
                };
                sp_chain_wrap(toks, i, cl(toks, i, sub.next), sub.errs, node, minp)
            },
            None => Parsed { node: None, next: cl(toks, i, sub.next), errs: sub.errs },
        }
    } else if t == TokenType::LPAREN {
        let sub = sp_grouped(toks, i);
        match sub.node {
            Some(e) => sp_chain_wrap(toks, i, cl(toks, i, sub.next), sub.errs, e, minp),
            None => Parsed { node: None, next: cl(toks, i, sub.next), errs: sub.errs },
        }
    } else if t == TokenType::IF {
        let sub = sp_if(toks, i);
        match sub.node {
            Some(e) => sp_chain_wrap(toks, i, cl(toks, i, sub.next), sub.errs, e, minp),
            None => Parsed { node: None, next: cl(toks, i, sub.next), errs: sub.errs },
        }
    } else if t == TokenType::FUNCTION {
        let sub = sp_function(toks, i);
        match sub.node {
            Some(e) => sp_chain_wrap(toks, i, cl(toks, i, sub.next), sub.errs, e, minp),
            None => Parsed { node: None, next: cl(toks, i, sub.next), errs: sub.errs },
        }
    } else {
        Parsed { node: None, next: i, errs: 1 }
    }
}

/// Glue between the null-denotation and the chain: adds the
/// null-denotation's diagnostics to the chain's result.
pub open spec fn sp_chain_wrap(
    toks: Seq<TokenModel>,
    i: int,
    j: int,
    errs0: nat,
    left: ExprModel,
    minp: int,
) -> Parsed<ExprModel>
    decreases toks.len() - i, 3int,
    when wf_tokens(toks) && 0 <= i <= j < toks.len() && 0 <= minp
{
    let c = sp_chain(toks, cl(toks, i, j), left, minp);
    Parsed { node: c.node, next: c.next, errs: (errs0 + c.errs) as nat }
}

/// The left-denotation chain: while the token after the expression is no
/// semicolon and binds tighter than `minp`, extend the expression — a call
/// when that token is `(` after a callable, an infix form on a binary
/// operator — and continue.
pub open spec fn sp_chain(toks: Seq<TokenModel>, j: int, left: ExprModel, minp: int) -> Parsed<
    ExprModel,
>
    decreases toks.len() - j, 2int,
    when wf_tokens(toks) && 0 <= j < toks.len() && 0 <= minp
{
    let p = tt(toks, nxt(toks, j));
    if p == TokenType::SEMICOLON || minp >= prec_of(p) {
        Parsed { node: Some(left), next: j, errs: 0 }
    } else if p == TokenType::LPAREN {
        if callable(left) {
            let args = sp_call_args(toks, nxt(toks, nxt(toks, j)), Seq::empty());
            match args.node {
                Some(arguments) => {
                    let node = ExprModel::CallExpression {
                        token: toks[nxt(toks, j)],
                        function: Box::new(left),
                        arguments,
                    };
                    let k = cl(toks, nxt(toks, j), args.next);
                    let c = sp_chain(toks, k, node, minp);
                    Parsed { node: c.node, next: c.next, errs: (args.errs + c.errs) as nat }
                },
                None => Parsed {
                    node: None,
                    next: cl(toks, j, args.next),
                    errs: (args.errs + 1) as nat,
                },
            }
        } else {
            Parsed { node: Some(left), next: j, errs: 0 }
        }
    } else {
        let sub = sp_expression(toks, nxt(toks, nxt(toks, j)), prec_of(p));
        match sub.node {
            Some(right) => {
                let node = ExprModel::InfixExpression {
                    token: toks[nxt(toks, j)],
                    operator: toks[nxt(toks, j)].literal,
                    left_exp: Box::new(left),
                    right_exp: Box::new(right),
                };
                let k = cl(toks, nxt(toks, nxt(toks, j)), sub.next);
                let c = sp_chain(toks, k, node, minp);
                Parsed { node: c.node, next: c.next, errs: (sub.errs + c.errs) as nat }
            },
            None => Parsed { node: None, next: cl(toks, j, sub.next), errs: sub.errs },
        }
    }
}

/// The argument list of a call: expressions at lowest precedence separated
/// by commas, closed by `RPAREN`; entered on the first token after `(`,
/// left on the closing `)`.
pub open spec fn sp_call_args(toks: Seq<TokenModel>, m: int, acc: Seq<ExprModel>) -> Parsed<
    Seq<ExprModel>,
>
    decreases toks.len() - m, 5int,
    when wf_tokens(toks) && 0 <= m < toks.len()
{
    if tt(toks, m) == TokenType::RPAREN {
        Parsed { node: Some(acc), next: m, errs: 0 }
    } else {
        let e = sp_expression(toks, m, 0);
        match e.node {
            Some(arg) => {
                let k = cl(toks, m, e.next);
                if tt(toks, nxt(toks, k)) == TokenType::COMMA {
                    let r = sp_call_args(toks, nxt(toks, nxt(toks, k)), acc.push(arg));
                    Parsed { node: r.node, next: r.next, errs: (e.errs + r.errs) as nat }
                } else if tt(toks, nxt(toks, k)) == TokenType::RPAREN {
                    Parsed { node: Some(acc.push(arg)), next: nxt(toks, k), errs: e.errs }
                } else {
                    Parsed { node: None, next: k, errs: e.errs }
                }
            },
            None => Parsed { node: None, next: cl(toks, m, e.next), errs: (e.errs + 1) as nat },
        }
    }
}

/// A parenthesised group: the inner expression at lowest precedence, then
/// the closing `RPAREN`, on which the cursor is left.
pub open spec fn sp_grouped(toks: Seq<TokenModel>, i: int) -> Parsed<ExprModel>
    decreases toks.len() - i, 3int,
    when wf_tokens(toks) && 0 <= i < toks.len() && tt(toks, i) == TokenType::LPAREN
{
    let sub = sp_expression(toks, nxt(toks, i), 0);
    match sub.node {
        Some(e) => {
            let k = cl(toks, i, sub.next);
            if tt(toks, nxt(toks, k)) == TokenType::RPAREN {
                Parsed { node: Some(e), next: nxt(toks, k), errs: sub.errs }
            } else {
                Parsed { node: None, next: k, errs: (sub.errs + 1) as nat }
            }
        },
        None => Parsed { node: None, next: cl(toks, i, sub.next), errs: sub.errs },
    }
}

/// An `if` expression: `IF LPAREN expression RPAREN block (ELSE block)?`,
/// left on the final block's last token.
pub open spec fn sp_if(toks: Seq<TokenModel>, i: int) -> Parsed<ExprModel>
    decreases toks.len() - i, 3int,
    when wf_tokens(toks) && 0 <= i < toks.len() && tt(toks, i) == TokenType::IF
{
    if tt(toks, nxt(toks, i)) != TokenType::LPAREN {
        Parsed { node: None, next: i, errs: 1 }
    } else {
        let sub = sp_expression(toks, nxt(toks, i), 0);
        match sub.node {
            Some(cond) => {
                let k = cl(toks, nxt(toks, i), sub.next);
                if tt(toks, k) != TokenType::RPAREN {
                    Parsed { node: None, next: k, errs: (sub.errs + 1) as nat }
                } else if tt(toks, nxt(toks, k)) != TokenType::LBRACE {
                    Parsed { node: None, next: k, errs: (sub.errs + 1) as nat }
                } else {
                    let cons = sp_block(toks, nxt(toks, k));
                    match cons.node {
                        Some(consequence) => {
                            let b = cl(toks, nxt(toks, k), cons.next);
                            if tt(toks, nxt(toks, b)) == TokenType::ELSE {
                                let e = nxt(toks, b);
                                if tt(toks, nxt(toks, e)) != TokenType::LBRACE {
                                    Parsed {
                                        node: None,
                                        next: e,
                                        errs: (sub.errs + cons.errs + 1) as nat,
                                    }
                                } else {
                                    let alt = sp_block(toks, nxt(toks, e));
                                    match alt.node {
                                        Some(alternative) => {
                                            let node = ExprModel::IfExpression {
                                                token: toks[i],
                                                condition: Box::new(cond),
                                                consequence: Box::new(consequence),
                                                alternative: Some(Box::new(alternative)),
                                            };
                                            Parsed {
                                                node: Some(node),
                                                next: cl(toks, nxt(toks, e), alt.next),
                                                errs: (sub.errs + cons.errs + alt.errs) as nat,
                                            }
                                        },
                                        None => Parsed {
                                            node: None,
                                            next: cl(toks, nxt(toks, e), alt.next),
                                            errs: (sub.errs + cons.errs + alt.errs) as nat,
                                        },
                                    }
                                }
                            } else {
                                let node = ExprModel::IfExpression {
                                    token: toks[i],
                                    condition: Box::new(cond),
                                    consequence: Box::new(consequence),
                                    alternative: None,
                                };
                                Parsed {
                                    node: Some(node),
                                    next: b,
                                    errs: (sub.errs + cons.errs) as nat,
                                }
                            }
                        },
                        None => Parsed {
                            node: None,
                            next: cl(toks, nxt(toks, k), cons.next),
                            errs: cons.errs + sub.errs,
                        },
                    }
                }
            },
            None => Parsed { node: None, next: cl(toks, i, sub.next), errs: sub.errs },
        }
    }
}

/// A function literal: `FUNCTION LPAREN parameters RPAREN block`, left on
/// the body's last token.
pub open spec fn sp_function(toks: Seq<TokenModel>, i: int) -> Parsed<ExprModel>
    decreases toks.len() - i, 3int,
    when wf_tokens(toks) && 0 <= i < toks.len() && tt(toks, i) == TokenType::FUNCTION
{
    if tt(toks, nxt(toks, i)) != TokenType::LPAREN {
        Parsed { node: None, next: i, errs: 1 }
    } else {
        let params = sp_params(toks, nxt(toks, nxt(toks, i)), Seq::empty());
        match params.node {
            Some(parameters) => {
                let pr = cl(toks, nxt(toks, i), params.next);
                if tt(toks, nxt(toks, pr)) != TokenType::LBRACE {
                    Parsed { node: None, next: pr, errs: (params.errs + 1) as nat }
                } else {
                    let body = sp_block(toks, nxt(toks, pr));
                    match body.node {
                        Some(b) => {
                            let node = ExprModel::FunctionLiteral {
                                token: toks[i],
                                parameters,
                                body: Box::new(b),
                            };
                            Parsed {
                                node: Some(node),
                                next: cl(toks, nxt(toks, pr), body.next),
                                errs: (params.errs + body.errs) as nat,
                            }
                        },
                        None => Parsed {
                            node: None,
                            next: cl(toks, nxt(toks, pr), body.next),
                            errs: (params.errs + body.errs + 1) as nat,
                        },
                    }
                }
            },
            None => Parsed {
                node: None,
                next: cl(toks, nxt(toks, i), params.next),
                errs: (params.errs + 1) as nat,
            },
        }
    }
}

/// A block: statements until `RBRACE` or `EOF`, entered on the `LBRACE`,
/// left on the token that closed it.
pub open spec fn sp_block(toks: Seq<TokenModel>, i: int) -> Parsed<StmtModel>
    decreases toks.len() - i, 3int,
    when wf_tokens(toks) && 0 <= i < toks.len() && tt(toks, i) == TokenType::LBRACE
{
    let inner = sp_block_stmts(toks, nxt(toks, i), Seq::empty());
    match inner.node {
        Some(statements) => {
            let node = StmtModel::BlockStatement { token: toks[i], statements };
            Parsed { node: Some(node), next: inner.next, errs: inner.errs }
        },
        None => Parsed { node: None, next: inner.next, errs: inner.errs },
    }
}

/// The statements of a block, until `RBRACE` or `EOF`.
pub open spec fn sp_block_stmts(toks: Seq<TokenModel>, m: int, acc: Seq<StmtModel>) -> Parsed<
    Seq<StmtModel>,
>
    decreases toks.len() - m, 8int,
    when wf_tokens(toks) && 0 <= m < toks.len()
{
    if tt(toks, m) == TokenType::RBRACE || tt(toks, m) == TokenType::EOF {
        Parsed { node: Some(acc), next: m, errs: 0 }
    } else {
        let st = sp_statement(toks, m);
        match st.node {
            Some(s) => {
                let k = cl(toks, m, st.next);
                let r = sp_block_stmts(toks, nxt(toks, k), acc.push(s));
                Parsed { node: r.node, next: r.next, errs: (st.errs + r.errs) as nat }
            },
            None => Parsed { node: None, next: cl(toks, m, st.next), errs: st.errs },
        }
    }
}

/// A statement: `let`, `return`, or an expression statement.
pub open spec fn sp_statement(toks: Seq<TokenModel>, i: int) -> Parsed<StmtModel>
    decreases toks.len() - i, 7int,
    when wf_tokens(toks) && 0 <= i < toks.len()
{
    if tt(toks, i) == TokenType::LET {
        sp_let(toks, i)
    } else if tt(toks, i) == TokenType::RETURN {
        sp_return(toks, i)
    } else {
        sp_exprstmt(toks, i)
    }
}

/// A `let` statement: `LET IDENT ASSIGN expression SEMICOLON`, left on the
/// semicolon. The bound name is always an `Identifier` node.
pub open spec fn sp_let(toks: Seq<TokenModel>, i: int) -> Parsed<StmtModel>
    decreases toks.len() - i, 6int,
    when wf_tokens(toks) && 0 <= i < toks.len() && tt(toks, i) == TokenType::LET
{
    if tt(toks, nxt(toks, i)) != TokenType::IDENT {
        Parsed { node: None, next: i, errs: 1 }
    } else if tt(toks, nxt(toks, nxt(toks, i))) != TokenType::ASSIGN {
        Parsed { node: None, next: nxt(toks, i), errs: 1 }
    } else {
        let name = ExprModel::Identifier {
            token: toks[nxt(toks, i)],
            value: toks[nxt(toks, i)].literal,
        };
        let start = nxt(toks, nxt(toks, nxt(toks, i)));
        let value = sp_expression(toks, start, 0);
        match value.node {
            Some(v) => {
                let k = cl(toks, start, value.next);
                if tt(toks, nxt(toks, k)) == TokenType::SEMICOLON {
                    let node = StmtModel::LetStatement {
                        token: toks[i],
                        name: Box::new(name),
                        value: Box::new(v),
                    };
                    Parsed { node: Some(node), next: nxt(toks, k), errs: value.errs }
                } else {
                    Parsed { node: None, next: k, errs: (value.errs + 1) as nat }
                }
            },
            None => Parsed {
                node: None,
                next: cl(toks, start, value.next),
                errs: (value.errs + 1) as nat,
            },
        }
    }
}

/// A `return` statement: `RETURN expression SEMICOLON`, left on the
/// semicolon.
pub open spec fn sp_return(toks: Seq<TokenModel>, i: int) -> Parsed<StmtModel>
    decreases toks.len() - i, 6int,
    when wf_tokens(toks) && 0 <= i < toks.len() && tt(toks, i) == TokenType::RETURN
{
    let value = sp_expression(toks, nxt(toks, i), 0);
    match value.node {
        Some(v) => {
            let k = cl(toks, nxt(toks, i), value.next);
            if tt(toks, nxt(toks, k)) == TokenType::SEMICOLON {
                let node = StmtModel::ReturnStatement { token: toks[i], return_value: Box::new(v) };
                Parsed { node: Some(node), next: nxt(toks, k), errs: value.errs }
            } else {
                Parsed { node: None, next: k, errs: (value.errs + 1) as nat }
            }
        },
        None => Parsed {
            node: None,
            next: cl(toks, nxt(toks, i), value.next),
            errs: (value.errs + 1) as nat,
        },
    }
}

/// An expression statement: an expression at lowest precedence, then an
/// optional semicolon, consumed when present.
pub open spec fn sp_exprstmt(toks: Seq<TokenModel>, i: int) -> Parsed<StmtModel>
    decreases toks.len() - i, 6int,
    when wf_tokens(toks) && 0 <= i < toks.len()
{
    let e = sp_expression(toks, i, 0);
    match e.node {
        Some(exp) => {
            let k = cl(toks, i, e.next);
            let node = StmtModel::ExpressionStatement {
                token: toks[i],
                expression: Box::new(exp),
            };
            if tt(toks, nxt(toks, k)) == TokenType::SEMICOLON {
                Parsed { node: Some(node), next: nxt(toks, k), errs: e.errs }
            } else {
                Parsed { node: Some(node), next: k, errs: e.errs }
            }
        },
        None => Parsed { node: None, next: cl(toks, i, e.next), errs: (e.errs + 1) as nat },
    }
}

/// The top-level loop: statements until `EOF`, an `ILLEGAL` token is fatal,
/// and a failed statement is resynchronised at the next semicolon (or
/// fatally at `EOF`/`ILLEGAL`).
pub open spec fn sp_program(toks: Seq<TokenModel>, i: int, acc: Seq<StmtModel>) -> ParsedProgram
    decreases toks.len() - i, 9int,
    when wf_tokens(toks) && 0 <= i < toks.len()
{
    if tt(toks, i) == TokenType::EOF {
        ParsedProgram { stmts: acc, errs: 0 }
    } else if tt(toks, i) == TokenType::ILLEGAL {
        ParsedProgram { stmts: acc, errs: 1 }
    } else {
        let st = sp_statement(toks, i);
        match st.node {
            Some(s) => {
                let k = cl(toks, i, st.next);
                let r = sp_program(toks, nxt(toks, k), acc.push(s));
                ParsedProgram { stmts: r.stmts, errs: (st.errs + r.errs) as nat }
            },
            None => {
                let (rs, fatal) = sp_resync(toks, cl(toks, i, st.next));
                if fatal {
                    ParsedProgram { stmts: acc, errs: (st.errs + 2) as nat }
                } else {
                    let r = sp_program(toks, nxt(toks, cl(toks, i, rs)), acc);
                    ParsedProgram { stmts: r.stmts, errs: (st.errs + 1 + r.errs) as nat }
                }
            },
        }
    }
}

/// Operator precedence: `a op1 b op2 c;` groups under the operator of
/// higher precedence, and left-associates when the precedences tie.
pub proof fn lemma_operator_precedence(
    a: TokenModel,
    o1: TokenModel,
    b: TokenModel,
    o2: TokenModel,
    c: TokenModel,
    semi: TokenModel,
    eof: TokenModel,
)
    requires
        a.token_type == TokenType::IDENT,
        b.token_type == TokenType::IDENT,
        c.token_type == TokenType::IDENT,
        1 <= prec_of(o1.token_type) <= 4,
        1 <= prec_of(o2.token_type) <= 4,
        semi.token_type == TokenType::SEMICOLON,
        eof.token_type == TokenType::EOF,
    ensures
        ({
            let toks = seq![a, o1, b, o2, c, semi, eof];
            let am = ExprModel::Identifier { token: a, value: a.literal };
            let bm = ExprModel::Identifier { token: b, value: b.literal };
            let cm = ExprModel::Identifier { token: c, value: c.literal };
            let left_first = ExprModel::InfixExpression {
                token: o2,
                operator: o2.literal,
                left_exp: Box::new(
                    ExprModel::InfixExpression {
                        token: o1,
                        operator: o1.literal,
                        left_exp: Box::new(am),
                        right_exp: Box::new(bm),
                    },
                ),
                right_exp: Box::new(cm),
            };
            let right_first = ExprModel::InfixExpression {
                token: o1,
                operator: o1.literal,
                left_exp: Box::new(am),
                right_exp: Box::new(
                    ExprModel::InfixExpression {
                        token: o2,
                        operator: o2.literal,
                        left_exp: Box::new(bm),
                        right_exp: Box::new(cm),
                    },
                ),
            };
            sp_expression(toks, 0, 0).node == Some(
                if prec_of(o1.token_type) >= prec_of(o2.token_type) {
                    left_first
                } else {
                    right_first
                },
            )
        }),
{
    let toks = seq![a, o1, b, o2, c, semi, eof];
    let am = ExprModel::Identifier { token: a, value: a.literal };
    let bm = ExprModel::Identifier { token: b, value: b.literal };
    let cm = ExprModel::Identifier { token: c, value: c.literal };
    let p1 = prec_of(o1.token_type);
    let p2 = prec_of(o2.token_type);
    assert(toks.len() == 7);
    assert(toks[0] == a && toks[1] == o1 && toks[2] == b && toks[3] == o2 && toks[4] == c
        && toks[5] == semi && toks[6] == eof);
    assert(wf_tokens(toks)) by {
        assert(o1.token_type != TokenType::EOF && o2.token_type != TokenType::EOF);
        assert(forall|k: int| 0 <= k < 6 ==> (#[trigger] toks[k].token_type) != TokenType::EOF);
    }
    assert(o1.token_type != TokenType::LPAREN && o1.token_type != TokenType::SEMICOLON);
    assert(o2.token_type != TokenType::LPAREN && o2.token_type != TokenType::SEMICOLON);
    assert(nxt(toks, 0) == 1 && nxt(toks, 1) == 2 && nxt(toks, 2) == 3 && nxt(toks, 3) == 4
        && nxt(toks, 4) == 5 && nxt(toks, 5) == 6);
    if p1 >= p2 {
        // b stops before op2, so op1 binds first; then op2 extends the
        // combined left operand.
        assert(sp_chain(toks, 2, bm, p1) == (Parsed { node: Some(bm), next: 2, errs: 0nat }));
        assert(sp_expression(toks, 2, p1) == sp_chain_wrap(toks, 2, 2, 0, bm, p1));
        assert(cl(toks, 2, 2) == 2);
        assert(sp_expression(toks, 2, p1) == (Parsed { node: Some(bm), next: 2, errs: 0nat }));
        let n1 = ExprModel::InfixExpression {
            token: o1,
            operator: o1.literal,
            left_exp: Box::new(am),
            right_exp: Box::new(bm),
        };
        assert(sp_chain(toks, 4, cm, p2) == (Parsed { node: Some(cm), next: 4, errs: 0nat }));
        assert(sp_expression(toks, 4, p2) == sp_chain_wrap(toks, 4, 4, 0, cm, p2));
        assert(cl(toks, 4, 4) == 4);
        assert(sp_expression(toks, 4, p2) == (Parsed { node: Some(cm), next: 4, errs: 0nat }));
        let n2 = ExprModel::InfixExpression {
            token: o2,
            operator: o2.literal,
            left_exp: Box::new(n1),
            right_exp: Box::new(cm),
        };
        assert(sp_chain(toks, 4, n2, 0) == (Parsed { node: Some(n2), next: 4, errs: 0nat }));
        assert(cl(toks, 4, 4) == 4);
        assert(sp_chain(toks, 2, n1, 0) == (Parsed { node: Some(n2), next: 4, errs: 0nat }));
        assert(cl(toks, 2, 2) == 2);
        assert(sp_chain(toks, 0, am, 0) == (Parsed { node: Some(n2), next: 4, errs: 0nat }));
        assert(sp_expression(toks, 0, 0) == sp_chain_wrap(toks, 0, 0, 0, am, 0));
        assert(cl(toks, 0, 0) == 0);
        assert(sp_expression(toks, 0, 0).node == Some(n2));
    } else {
        // op2 binds tighter: it captures b and c before op1 closes over
        // the whole right operand.
        assert(sp_chain(toks, 4, cm, p2) == (Parsed { node: Some(cm), next: 4, errs: 0nat }));
        assert(sp_expression(toks, 4, p2) == sp_chain_wrap(toks, 4, 4, 0, cm, p2));
        assert(cl(toks, 4, 4) == 4);
        assert(sp_expression(toks, 4, p2) == (Parsed { node: Some(cm), next: 4, errs: 0nat }));
        let n3 = ExprModel::InfixExpression {
            token: o2,
            operator: o2.literal,
            left_exp: Box::new(bm),
            right_exp: Box::new(cm),
        };
        assert(sp_chain(toks, 4, n3, p1) == (Parsed { node: Some(n3), next: 4, errs: 0nat }));
        assert(cl(toks, 4, 4) == 4);
        assert(sp_chain(toks, 2, bm, p1) == (Parsed { node: Some(n3), next: 4, errs: 0nat }));
        assert(sp_expression(toks, 2, p1) == sp_chain_wrap(toks, 2, 2, 0, bm, p1));
        assert(cl(toks, 2, 2) == 2);
        assert(sp_expression(toks, 2, p1) == (Parsed { node: Some(n3), next: 4, errs: 0nat }));
        let n4 = ExprModel::InfixExpression {
            token: o1,
            operator: o1.literal,
            left_exp: Box::new(am),
            right_exp: Box::new(n3),
        };
        assert(sp_chain(toks, 4, n4, 0) == (Parsed { node: Some(n4), next: 4, errs: 0nat }));
        assert(cl(toks, 2, 4) == 4);
        assert(sp_chain(toks, 0, am, 0) == (Parsed { node: Some(n4), next: 4, errs: 0nat }));
        assert(sp_expression(toks, 0, 0) == sp_chain_wrap(toks, 0, 0, 0, am, 0));
        assert(cl(toks, 0, 0) == 0);
        assert(sp_expression(toks, 0, 0).node == Some(n4));
    }
}

/// Pretty-print round trip, shown for the integer-literal layer: printing
/// the one-statement program `n;` and parsing the text back yields, with
/// no diagnostics, one integer-literal expression statement carrying the
/// same value — and printing the parsed tree reproduces the text exactly.
pub proof fn lemma_print_parse_integer_statement(n: nat)
    requires
        n <= i64::MAX,
    ensures
        ({
            let text = crate::text::u64_dec_str(n) + ";"@;
            let res = sp_parse_program(crate::lexer::lex(text));
            &&& res.errs == 0
            &&& res.stmts.len() == 1
            &&& (res.stmts[0] matches StmtModel::ExpressionStatement { expression, .. }
                && (*expression matches ExprModel::IntegerLiteral { value, .. } && value == n
                as i64))
            &&& crate::ast::stmts_str(res.stmts) == text
        }),
{
    crate::text::lemma_dec_round_trip(n);
    let digits = crate::text::u64_dec_str(n);
    let dl = digits.len();
    let text = digits + ";"@;
    reveal_strlit(";");
    assert(";"@ =~= seq![';']);
    assert(text.len() == dl + 1);
    assert(forall|k: int| 0 <= k < dl ==> crate::lexer::is_digit_char(#[trigger] text[k])) by {
        assert(forall|k: int| 0 <= k < dl ==> text[k] == digits[k]);
    }
    assert(text[dl as int] == ';');
    assert(!crate::lexer::is_digit_char(';'));

    // Lexing: the digit run, the semicolon, the end.
    assert(crate::lexer::is_digit_char(text[0]));
    assert(!crate::lexer::is_ws_char(text[0]));
    assert(crate::lexer::skip_ws(text, 0) == 0);
    crate::lexer::lemma_num_end_digits(text, 0, dl as nat);
    let st0 = crate::lexer::next_token_model(text, 0);
    assert(text.subrange(0, dl as int) =~= digits);
    assert(st0.tok.token_type == TokenType::INT && st0.tok.literal == digits && st0.next
        == dl as nat);
    assert(crate::lexer::skip_ws(text, dl as nat) == dl as nat);
    let st1 = crate::lexer::next_token_model(text, dl as nat);
    assert(st1.tok.token_type == TokenType::SEMICOLON && st1.next == dl + 1);
    let st2 = crate::lexer::next_token_model(text, (dl + 1) as nat);
    assert(crate::lexer::skip_ws(text, (dl + 1) as nat) == dl + 1);
    assert(st2.tok.token_type == TokenType::EOF);
    assert(crate::lexer::lex_from(text, (dl + 1) as nat) =~= seq![st2.tok]);
    assert(crate::lexer::lex_from(text, dl as nat) =~= seq![st1.tok, st2.tok]);
    assert(crate::lexer::lex_from(text, 0) =~= seq![st0.tok, st1.tok, st2.tok]);
    let toks = crate::lexer::lex(text);
    assert(toks =~= seq![st0.tok, st1.tok, st2.tok]);
    lemma_lex_wf(text, 0);

    // Parsing: one integer-literal statement, closed by the semicolon.
    assert(nxt(toks, 0) == 1 && nxt(toks, 1) == 2 && nxt(toks, 2) == 2);
    assert(crate::text::spec_parse_i64(digits) == Some(n as int));
    let node = ExprModel::IntegerLiteral { token: toks[0], value: n as i64 };
    assert(sp_chain(toks, 0, node, 0) == (Parsed { node: Some(node), next: 0, errs: 0nat }));
    assert(sp_expression(toks, 0, 0) == sp_chain_wrap(toks, 0, 0, 0, node, 0));
    assert(cl(toks, 0, 0) == 0);
    assert(sp_expression(toks, 0, 0) == (Parsed { node: Some(node), next: 0, errs: 0nat }));
    let stmt = StmtModel::ExpressionStatement { token: toks[0], expression: Box::new(node) };
    assert(sp_exprstmt(toks, 0) == (Parsed { node: Some(stmt), next: 1, errs: 0nat }));
    assert(sp_statement(toks, 0) == (Parsed { node: Some(stmt), next: 1, errs: 0nat }));
    assert(tt(toks, 2) == TokenType::EOF);
    assert(sp_program(toks, 2, seq![stmt]) == (ParsedProgram { stmts: seq![stmt], errs: 0nat }));
    assert(cl(toks, 0, 1) == 1);
    assert(Seq::<StmtModel>::empty().push(stmt) =~= seq![stmt]);
    assert(sp_program(toks, 0, Seq::empty()) == (ParsedProgram {
        stmts: seq![stmt],
        errs: 0nat,
    }));

    // Printing the parsed tree gives the text back.
    let out = crate::ast::stmts_str(seq![stmt]);
    assert(seq![stmt].subrange(0, 0) =~= Seq::<StmtModel>::empty());
    assert(out == crate::ast::stmts_str(Seq::<StmtModel>::empty()) + crate::ast::stmt_str(stmt));
    assert(crate::ast::expr_str(node) == crate::text::i64_dec_str(n as i64 as int));
    assert(crate::text::i64_dec_str(n as i64 as int) == digits);
    assert(out =~= text);
}

/// What parsing an input's token stream yields.
pub open spec fn sp_parse_program(toks: Seq<TokenModel>) -> ParsedProgram {
    sp_program(toks, 0, Seq::empty())
}

/// Parser determinism: the program and the number of diagnostics are
/// functions of the input characters alone, so two runs over equal inputs
/// agree exactly. `Parser::parse_program` is proved to return precisely
/// `sp_parse_program` of its lexer's token stream, which carries this fact
/// over to the executable parser.
pub proof fn lemma_parser_determinism(a: Seq<char>, b: Seq<char>)
    requires
        a == b,
    ensures
        sp_parse_program(lex_from(a, 0)) == sp_parse_program(lex_from(b, 0)),
{
}

} // verus!
