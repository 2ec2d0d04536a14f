//! The abstract syntax tree: statements and expressions as two mutually
//! recursive tagged variants, each carrying the token that triggered its
//! construction, plus the deterministic pretty-printer.
//!
//! The mathematical model mirrors the tree with sequences in place of
//! vectors (`StmtModel`, `ExprModel`); `stmt_str` and `expr_str` state what
//! the pretty-printer produces.

use vstd::prelude::*;

use crate::text::{bool_str, bool_to_string, i64_dec_str, i64_to_string};
use crate::token::{Token, TokenModel, TokenType};

verus! {

/// The mathematical content of an expression node.
pub enum ExprModel {
    Identifier { token: TokenModel, value: Seq<char> },
    IntegerLiteral { token: TokenModel, value: i64 },
    BooleanLiteral { token: TokenModel, value: bool },
    FunctionLiteral { token: TokenModel, parameters: Seq<ExprModel>, body: Box<StmtModel> },
    PrefixExpression { token: TokenModel, operator: Seq<char>, right_exp: Box<ExprModel> },
    InfixExpression {
        token: TokenModel,
        operator: Seq<char>,
        left_exp: Box<ExprModel>,
        right_exp: Box<ExprModel>,
    },
    IfExpression {
        token: TokenModel,
        condition: Box<ExprModel>,
        consequence: Box<StmtModel>,
        alternative: Option<Box<StmtModel>>,
    },
    CallExpression {
        token: TokenModel,
        function: Box<ExprModel>,
        arguments: Seq<ExprModel>,
    },
}

/// The mathematical content of a statement node.
pub enum StmtModel {
    ExpressionStatement { token: TokenModel, expression: Box<ExprModel> },
    LetStatement { token: TokenModel, name: Box<ExprModel>, value: Box<ExprModel> },
    ReturnStatement { token: TokenModel, return_value: Box<ExprModel> },
    BlockStatement { token: TokenModel, statements: Seq<StmtModel> },
}

/// A statement node. `LetStatement.name` is always an `Identifier`, and the
/// branches of an `IfExpression` are always `BlockStatement`s: the parser
/// enforces both.
#[derive(Debug, PartialEq)]
pub enum Statement {
    ExpressionStatement { token: Token, expression: Box<Expression> },
    LetStatement { token: Token, name: Box<Expression>, value: Box<Expression> },
    ReturnStatement { token: Token, return_value: Box<Expression> },
    BlockStatement { token: Token, statements: Vec<Box<Statement>> },
}

/// An expression node.
#[derive(Debug, PartialEq)]
pub enum Expression {
    Identifier { token: Token, value: String },
    IntegerLiteral { token: Token, value: i64 },
    BooleanLiteral { token: Token, value: bool },
    FunctionLiteral { token: Token, parameters: Vec<Box<Expression>>, body: Statement },
    PrefixExpression { token: Token, operator: String, right_exp: Box<Expression> },
    InfixExpression {
        token: Token,
        operator: String,
        left_exp: Box<Expression>,
        right_exp: Box<Expression>,
    },
    IfExpression {
        token: Token,
        condition: Box<Expression>,
        consequence: Box<Statement>,
        alternative: Box<Option<Statement>>,
    },
    CallExpression { token: Token, function: Box<Expression>, arguments: Vec<Box<Expression>> },
}

/// The model of an expression node.
pub open spec fn expr_model(e: Expression) -> ExprModel
    decreases e,
{
    match e {
        Expression::Identifier { token, value } => ExprModel::Identifier {
            token: token@,
            value: value@,
        },
        Expression::IntegerLiteral { token, value } => ExprModel::IntegerLiteral {
            token: token@,
            value,
        },
        Expression::BooleanLiteral { token, value } => ExprModel::BooleanLiteral {
            token: token@,
            value,
        },
        Expression::FunctionLiteral { token, parameters, body } => ExprModel::FunctionLiteral {
            token: token@,
            parameters: boxed_exprs_model(parameters@),
            body: Box::new(stmt_model(body)),
        },
        Expression::PrefixExpression { token, operator, right_exp } => {
            ExprModel::PrefixExpression {
                token: token@,
                operator: operator@,
                right_exp: Box::new(expr_model(*right_exp)),
            }
        },
        Expression::InfixExpression { token, operator, left_exp, right_exp } => {
            ExprModel::InfixExpression {
                token: token@,
                operator: operator@,
                left_exp: Box::new(expr_model(*left_exp)),
                right_exp: Box::new(expr_model(*right_exp)),
            }
        },
        Expression::IfExpression { token, condition, consequence, alternative } => {
            ExprModel::IfExpression {
                token: token@,
                condition: Box::new(expr_model(*condition)),
                consequence: Box::new(stmt_model(*consequence)),
                alternative: match *alternative {
                    Some(alt) => Some(Box::new(stmt_model(alt))),
                    None => None,
                },
            }
        },
        Expression::CallExpression { token, function, arguments } => ExprModel::CallExpression {
            token: token@,
            function: Box::new(expr_model(*function)),
            arguments: boxed_exprs_model(arguments@),
        },
    }
}

/// The models of a sequence of boxed expressions, in order.
pub open spec fn boxed_exprs_model(v: Seq<Box<Expression>>) -> Seq<ExprModel>
    decreases v,
{
    if v.len() == 0 {
        Seq::empty()
    } else {
        boxed_exprs_model(v.subrange(0, v.len() - 1)).push(expr_model(*v[v.len() - 1]))
    }
}

/// The model of a statement node.
pub open spec fn stmt_model(s: Statement) -> StmtModel
    decreases s,
{
    match s {
        Statement::ExpressionStatement { token, expression } => StmtModel::ExpressionStatement {
            token: token@,
            expression: Box::new(expr_model(*expression)),
        },
        Statement::LetStatement { token, name, value } => StmtModel::LetStatement {
            token: token@,
            name: Box::new(expr_model(*name)),
            value: Box::new(expr_model(*value)),
        },
        Statement::ReturnStatement { token, return_value } => StmtModel::ReturnStatement {
            token: token@,
            return_value: Box::new(expr_model(*return_value)),
        },
        Statement::BlockStatement { token, statements } => StmtModel::BlockStatement {
            token: token@,
            statements: boxed_stmts_model(statements@),
        },
    }
}

/// The models of a sequence of boxed statements, in order.
pub open spec fn boxed_stmts_model(v: Seq<Box<Statement>>) -> Seq<StmtModel>
    decreases v,
{
    if v.len() == 0 {
        Seq::empty()
    } else {
        boxed_stmts_model(v.subrange(0, v.len() - 1)).push(stmt_model(*v[v.len() - 1]))
    }
}

/// The models of a sequence of statements, in order.
pub open spec fn stmts_model(v: Seq<Statement>) -> Seq<StmtModel>
    decreases v,
{
    if v.len() == 0 {
        Seq::empty()
    } else {
        stmts_model(v.subrange(0, v.len() - 1)).push(stmt_model(v[v.len() - 1]))
    }
}

impl View for Expression {
    type V = ExprModel;

    open spec fn view(&self) -> ExprModel {
        expr_model(*self)
    }
}

impl View for Statement {
    type V = StmtModel;

    open spec fn view(&self) -> StmtModel {
        stmt_model(*self)
    }
}

/// What the pretty-printer produces for an expression.
pub open spec fn expr_str(e: ExprModel) -> Seq<char>
    decreases e,
{
    match e {
        ExprModel::Identifier { token, value } => value,
        ExprModel::IntegerLiteral { token, value } => i64_dec_str(value as int),
        ExprModel::BooleanLiteral { token, value } => bool_str(value),
        ExprModel::FunctionLiteral { token, parameters, body } => token.literal + "("@
            + exprs_str_comma(parameters) + ")"@ + stmt_str(*body),
        ExprModel::PrefixExpression { token, operator, right_exp } => "("@ + operator + expr_str(
            *right_exp,
        ) + ")"@,
        ExprModel::InfixExpression { token, operator, left_exp, right_exp } => "("@ + expr_str(
            *left_exp,
        ) + " "@ + operator + " "@ + expr_str(*right_exp) + ")"@,
        ExprModel::IfExpression { token, condition, consequence, alternative } => "if "@
            + expr_str(*condition) + stmt_str(*consequence) + (match alternative {
            Some(alt) => " else"@ + stmt_str(*alt),
            None => Seq::empty(),
        }),
        ExprModel::CallExpression { token, function, arguments } => expr_str(*function) + "("@
            + exprs_str_comma(arguments) + ")"@,
    }
}

/// The comma-joined renderings of a sequence of expressions.
pub open spec fn exprs_str_comma(es: Seq<ExprModel>) -> Seq<char>
    decreases es,
{
    if es.len() == 0 {
        Seq::empty()
    } else if es.len() == 1 {
        expr_str(es[0])
    } else {
        exprs_str_comma(es.subrange(0, es.len() - 1)) + ", "@ + expr_str(es[es.len() - 1])
    }
}

/// What the pretty-printer produces for a statement.
pub open spec fn stmt_str(s: StmtModel) -> Seq<char>
    decreases s,
{
    match s {
        StmtModel::LetStatement { token, name, value } => token.literal + " "@ + expr_str(*name)
            + " = "@ + expr_str(*value) + ";"@,
        StmtModel::ReturnStatement { token, return_value } => token.literal + " "@ + expr_str(
            *return_value,
        ) + ";"@,
        StmtModel::ExpressionStatement { token, expression } => expr_str(*expression) + ";"@,
        StmtModel::BlockStatement { token, statements } => "{"@ + stmts_str(statements) + "}"@,
    }
}

/// The concatenated renderings of a sequence of statements.
pub open spec fn stmts_str(ss: Seq<StmtModel>) -> Seq<char>
    decreases ss,
{
    if ss.len() == 0 {
        Seq::empty()
    } else {
        stmts_str(ss.subrange(0, ss.len() - 1)) + stmt_str(ss[ss.len() - 1])
    }
}

/// The token of a statement model.
pub open spec fn stmt_token(s: StmtModel) -> TokenModel {
    match s {
        StmtModel::ExpressionStatement { token, .. } => token,
        StmtModel::LetStatement { token, .. } => token,
        StmtModel::ReturnStatement { token, .. } => token,
        StmtModel::BlockStatement { token, .. } => token,
    }
}

/// The token of an expression model.
pub open spec fn expr_token(e: ExprModel) -> TokenModel {
    match e {
        ExprModel::Identifier { token, .. } => token,
        ExprModel::IntegerLiteral { token, .. } => token,
        ExprModel::BooleanLiteral { token, .. } => token,
        ExprModel::FunctionLiteral { token, .. } => token,
        ExprModel::PrefixExpression { token, .. } => token,
        ExprModel::InfixExpression { token, .. } => token,
        ExprModel::IfExpression { token, .. } => token,
        ExprModel::CallExpression { token, .. } => token,
    }
}

/// A node of the tree: anything that remembers the token that produced it.
pub trait Node {
    /// The token the node carries, at the model level.
    spec fn spec_token(&self) -> TokenModel;

    /// The literal text of the node's token.
    fn token_literal(&self) -> (r: String)
        ensures
            r@ == self.spec_token().literal,
    ;

    /// A copy of the node's token.
    fn get_token(&self) -> (r: Token)
        ensures
            r@ == self.spec_token(),
    ;
}

impl Node for Statement {
    open spec fn spec_token(&self) -> TokenModel {
        stmt_token(stmt_model(*self))
    }

    fn token_literal(&self) -> (r: String) {
        match self {
            Statement::ExpressionStatement { token, .. } => token.get_literal(),
            Statement::LetStatement { token, .. } => token.get_literal(),
            Statement::ReturnStatement { token, .. } => token.get_literal(),
            Statement::BlockStatement { token, .. } => token.get_literal(),
        }
    }

    fn get_token(&self) -> (r: Token) {
        match self {
            Statement::ExpressionStatement { token, .. } => token.clone(),
            Statement::LetStatement { token, .. } => token.clone(),
            Statement::ReturnStatement { token, .. } => token.clone(),
            Statement::BlockStatement { token, .. } => token.clone(),
        }
    }
}

impl Node for Expression {
    open spec fn spec_token(&self) -> TokenModel {
        expr_token(expr_model(*self))
    }

    fn token_literal(&self) -> (r: String) {
        match self {
            Expression::Identifier { token, .. } => token.get_literal(),
            Expression::IntegerLiteral { token, .. } => token.get_literal(),
            Expression::BooleanLiteral { token, .. } => token.get_literal(),
            Expression::FunctionLiteral { token, .. } => token.get_literal(),
            Expression::PrefixExpression { token, .. } => token.get_literal(),
            Expression::InfixExpression { token, .. } => token.get_literal(),
            Expression::IfExpression { token, .. } => token.get_literal(),
            Expression::CallExpression { token, .. } => token.get_literal(),
        }
    }

    fn get_token(&self) -> (r: Token) {
        match self {
            Expression::Identifier { token, .. } => token.clone(),
            Expression::IntegerLiteral { token, .. } => token.clone(),
            Expression::BooleanLiteral { token, .. } => token.clone(),
            Expression::FunctionLiteral { token, .. } => token.clone(),
            Expression::PrefixExpression { token, .. } => token.clone(),
            Expression::InfixExpression { token, .. } => token.clone(),
            Expression::IfExpression { token, .. } => token.clone(),
            Expression::CallExpression { token, .. } => token.clone(),
        }
    }
}

/// What `get_value` yields for an expression: the payload a test would want
/// to look at.
pub open spec fn expr_value_str(e: ExprModel) -> Seq<char> {
    match e {
        ExprModel::Identifier { value, .. } => value,
        ExprModel::IntegerLiteral { value, .. } => i64_dec_str(value as int),
        ExprModel::BooleanLiteral { value, .. } => bool_str(value),
        ExprModel::FunctionLiteral { .. } => Seq::empty(),
        ExprModel::PrefixExpression { operator, .. } => operator,
        ExprModel::InfixExpression { token, operator, left_exp, right_exp } => expr_str(
            ExprModel::InfixExpression { token, operator, left_exp, right_exp },
        ),
        ExprModel::IfExpression { .. } => Seq::empty(),
        ExprModel::CallExpression { function, .. } => expr_str(*function),
    }
}

impl Expression {
    /// The value the node holds, rendered as text: the identifier name,
    /// the printed literal, a prefix form's operator symbol, an infix form
    /// and a callee fully printed — or empty for function literals and
    /// `if` expressions.
    pub fn get_value(&self) -> (r: String)
        ensures
            r@ == expr_value_str(self@),
    {
        match self {
            Expression::Identifier { value, .. } => value.clone(),
            Expression::IntegerLiteral { value, .. } => i64_to_string(*value),
            Expression::BooleanLiteral { value, .. } => bool_to_string(*value),
            Expression::FunctionLiteral { .. } => String::new(),
            Expression::PrefixExpression { operator, .. } => operator.clone(),
            Expression::InfixExpression { .. } => self.to_string(),
            Expression::IfExpression { .. } => String::new(),
            Expression::CallExpression { function, .. } => function.to_string(),
        }
    }

    /// Pretty-prints the expression: prefix and infix forms fully
    /// parenthesised, `if` and function literals followed by their blocks.
    pub fn to_string(&self) -> (r: String)
        ensures
            r@ == expr_str(self@),
        decreases *self,
    {
        match self {
            Expression::Identifier { value, .. } => value.clone(),
            Expression::IntegerLiteral { value, .. } => i64_to_string(*value),
            Expression::BooleanLiteral { value, .. } => bool_to_string(*value),
            Expression::FunctionLiteral { token, parameters, body } => {
                let mut s = token.get_literal();
                s.append("(");
                let joined = exprs_to_string_comma(parameters);
                s.append(joined.as_str());
                s.append(")");
                let body_s = body.to_string();
                s.append(body_s.as_str());
                s
            },
            Expression::PrefixExpression { operator, right_exp, .. } => {
                let mut s = "(".to_owned();
                s.append(operator.as_str());
                let right_s = right_exp.to_string();
                s.append(right_s.as_str());
                s.append(")");
                s
            },
            Expression::InfixExpression { operator, left_exp, right_exp, .. } => {
                let mut s = "(".to_owned();
                let left_s = left_exp.to_string();
                s.append(left_s.as_str());
                s.append(" ");
                s.append(operator.as_str());
                s.append(" ");
                let right_s = right_exp.to_string();
                s.append(right_s.as_str());
                s.append(")");
                s
            },
            Expression::IfExpression { condition, consequence, alternative, .. } => {
                let mut s = "if ".to_owned();
                let cond_s = condition.to_string();
                s.append(cond_s.as_str());
                let cons_s = consequence.to_string();
                s.append(cons_s.as_str());
                match &**alternative {
                    Some(alt) => {
                        s.append(" else");
                        let alt_s = alt.to_string();
                        s.append(alt_s.as_str());
                    },
                    None => {},
                }
                s
            },
            Expression::CallExpression { function, arguments, .. } => {
                let mut s = function.to_string();
                s.append("(");
                let joined = exprs_to_string_comma(arguments);
                s.append(joined.as_str());
                s.append(")");
                s
            },
        }
    }
}

/// Pretty-prints a comma-separated expression list.
fn exprs_to_string_comma(es: &Vec<Box<Expression>>) -> (r: String)
    ensures
        r@ == exprs_str_comma(boxed_exprs_model(es@)),
    decreases *es,
{
    let mut s = String::new();
    let n = es.len();
    let mut i: usize = 0;
    while i < n
        invariant
            0 <= i <= n,
            n == es@.len(),
            s@ == exprs_str_comma(boxed_exprs_model(es@.subrange(0, i as int))),
        decreases n - i,
    {
        let e_s = es[i].to_string();
        if i == 0 {
            s = e_s;
        } else {
            s.append(", ");
            s.append(e_s.as_str());
        }
        proof {
            lemma_exprs_str_comma_step(es@, i as int);
        }
        i = i + 1;
    }
    proof {
        assert(es@.subrange(0, es@.len() as int) =~= es@);
    }
    s
}

/// One step of the comma join: rendering the first `i + 1` expressions
/// appends the rendering of element `i` (after `", "` when it is not the
/// first).
proof fn lemma_exprs_str_comma_step(v: Seq<Box<Expression>>, i: int)
    requires
        0 <= i < v.len(),
    ensures
        i == 0 ==> exprs_str_comma(boxed_exprs_model(v.subrange(0, 1))) == expr_str(expr_model(
            *v[0],
        )),
        i > 0 ==> exprs_str_comma(boxed_exprs_model(v.subrange(0, i + 1))) == exprs_str_comma(
            boxed_exprs_model(v.subrange(0, i)),
        ) + ", "@ + expr_str(expr_model(*v[i])),
{
    let p = v.subrange(0, i + 1);
    assert(p.subrange(0, p.len() - 1) =~= v.subrange(0, i));
    assert(boxed_exprs_model(p) == boxed_exprs_model(v.subrange(0, i)).push(
        expr_model(*v[i]),
    ));
    let m = boxed_exprs_model(p);
    assert(m.len() == boxed_exprs_model(v.subrange(0, i)).len() + 1);
    lemma_boxed_exprs_model_len(v.subrange(0, i));
    lemma_boxed_exprs_model_len(p);
    if i == 0 {
        assert(m.len() == 1);
        assert(m[0] == expr_model(*v[0]));
    } else {
        assert(m.subrange(0, m.len() - 1) =~= boxed_exprs_model(v.subrange(0, i)));
        assert(m[m.len() - 1] == expr_model(*v[i]));
    }
}

pub proof fn lemma_boxed_exprs_model_len(v: Seq<Box<Expression>>)
    ensures
        boxed_exprs_model(v).len() == v.len(),
    decreases v,
{
    if v.len() > 0 {
        lemma_boxed_exprs_model_len(v.subrange(0, v.len() - 1));
    }
}

pub proof fn lemma_boxed_stmts_model_len(v: Seq<Box<Statement>>)
    ensures
        boxed_stmts_model(v).len() == v.len(),
    decreases v,
{
    if v.len() > 0 {
        lemma_boxed_stmts_model_len(v.subrange(0, v.len() - 1));
    }
}

/// Appending an expression appends its model.
pub proof fn lemma_boxed_exprs_model_push(v: Seq<Box<Expression>>, x: Box<Expression>)
    ensures
        boxed_exprs_model(v.push(x)) == boxed_exprs_model(v).push(expr_model(*x)),
{
    let w = v.push(x);
    assert(w.subrange(0, w.len() - 1) =~= v);
    assert(w[w.len() - 1] == x);
}

/// Appending a statement appends its model.
pub proof fn lemma_boxed_stmts_model_push(v: Seq<Box<Statement>>, x: Box<Statement>)
    ensures
        boxed_stmts_model(v.push(x)) == boxed_stmts_model(v).push(stmt_model(*x)),
{
    let w = v.push(x);
    assert(w.subrange(0, w.len() - 1) =~= v);
    assert(w[w.len() - 1] == x);
}

/// Appending a statement appends its model.
pub proof fn lemma_stmts_model_push(v: Seq<Statement>, x: Statement)
    ensures
        stmts_model(v.push(x)) == stmts_model(v).push(stmt_model(x)),
{
    let w = v.push(x);
    assert(w.subrange(0, w.len() - 1) =~= v);
    assert(w[w.len() - 1] == x);
}

pub proof fn lemma_stmts_model_len(v: Seq<Statement>)
    ensures
        stmts_model(v).len() == v.len(),
    decreases v,
{
    if v.len() > 0 {
        lemma_stmts_model_len(v.subrange(0, v.len() - 1));
    }
}

impl Statement {
    /// Pretty-prints the statement: `let` and `return` forms end in `;`, an
    /// expression statement is its expression followed by `;`, and a block
    /// is its statements between braces.
    pub fn to_string(&self) -> (r: String)
        ensures
            r@ == stmt_str(self@),
        decreases *self,
    {
        match self {
            Statement::LetStatement { token, name, value } => {
                let mut s = token.get_literal();
                s.append(" ");
                let name_s = name.to_string();
                s.append(name_s.as_str());
                s.append(" = ");
                let value_s = value.to_string();
                s.append(value_s.as_str());
                s.append(";");
                s
            },
            Statement::ReturnStatement { token, return_value } => {
                let mut s = token.get_literal();
                s.append(" ");
                let value_s = return_value.to_string();
                s.append(value_s.as_str());
                s.append(";");
                s
            },
            Statement::ExpressionStatement { expression, .. } => {
                let mut s = expression.to_string();
                s.append(";");
                s
            },
            Statement::BlockStatement { statements, .. } => {
                let mut s = "{".to_owned();
                let n = statements.len();
                let mut i: usize = 0;
                while i < n
                    invariant
                        0 <= i <= n,
                        n == statements@.len(),
                        *self is BlockStatement,
                        (*self)->BlockStatement_statements == *statements,
                        s@ == "{"@ + stmts_str(
                            boxed_stmts_model(statements@.subrange(0, i as int)),
                        ),
                    decreases n - i,
                {
                    proof {
                        assert(decreases_to!(*self => (*self)->BlockStatement_statements));
                        assert(decreases_to!(*statements => statements@[i as int]));
                    }
                    let st_s = statements[i].to_string();
                    s.append(st_s.as_str());
                    proof {
                        let p = statements@.subrange(0, i + 1);
                        assert(p.subrange(0, p.len() - 1) =~= statements@.subrange(0, i as int));
                        lemma_boxed_stmts_model_len(p);
                        let m = boxed_stmts_model(p);
                        assert(m.subrange(0, m.len() - 1) =~= boxed_stmts_model(
                            statements@.subrange(0, i as int),
                        ));
                        assert(m[m.len() - 1] == stmt_model(*statements@[i as int]));
                    }
                    i = i + 1;
                }
                s.append("}");
                proof {
                    assert(statements@.subrange(0, statements@.len() as int) =~= statements@);
                }
                s
            },
        }
    }
}

/// A whole program: the ordered sequence of its top-level statements.
#[derive(Debug)]
pub struct Program {
    pub statements: Vec<Statement>,
}

impl View for Program {
    type V = Seq<StmtModel>;

    open spec fn view(&self) -> Seq<StmtModel> {
        stmts_model(self.statements@)
    }
}

impl Program {
    /// An empty program.
    pub fn new() -> (r: Program)
        ensures
            r.statements@.len() == 0,
            r@ == Seq::<StmtModel>::empty(),
    {
        Program { statements: Vec::new() }
    }

    /// The literal of the first statement's token, or the empty string for
    /// an empty program.
    pub fn token_literal(&self) -> (r: String)
        ensures
            self.statements@.len() > 0 ==> r@ == stmt_token(
                stmt_model(self.statements@[0]),
            ).literal,
            self.statements@.len() == 0 ==> r@ == Seq::<char>::empty(),
    {
        if self.statements.len() > 0 {
            self.statements[0].token_literal()
        } else {
            String::new()
        }
    }

    /// Pretty-prints the program: the concatenation of its statements'
    /// renderings.
    pub fn to_string(&self) -> (r: String)
        ensures
            r@ == stmts_str(self@),
    {
        let mut s = String::new();
        let n = self.statements.len();
        let mut i: usize = 0;
        while i < n
            invariant
                0 <= i <= n,
                n == self.statements@.len(),
                s@ == stmts_str(stmts_model(self.statements@.subrange(0, i as int))),
            decreases n - i,
        {
            let st_s = self.statements[i].to_string();
            s.append(st_s.as_str());
            proof {
                let p = self.statements@.subrange(0, i + 1);
                assert(p.subrange(0, p.len() - 1) =~= self.statements@.subrange(0, i as int));
                lemma_stmts_model_len(p);
                let m = stmts_model(p);
                assert(m.subrange(0, m.len() - 1) =~= stmts_model(
                    self.statements@.subrange(0, i as int),
                ));
                assert(m[m.len() - 1] == stmt_model(self.statements@[i as int]));
            }
            i = i + 1;
        }
        proof {
            assert(self.statements@.subrange(0, self.statements@.len() as int)
                =~= self.statements@);
        }
        s
    }
}

} // verus!
