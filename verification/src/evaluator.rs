//! The evaluator: a pure recursive walk from the syntax tree to a runtime
//! value. A `return` wraps its value in a `ReturnValue` envelope, which
//! every enclosing block passes through unchanged until the program loop
//! observes it and stops. The wrap is idempotent — an operand that is
//! already an envelope passes through — so an envelope is never doubly
//! wrapped (`lemma_envelope_never_doubly_wrapped`).
//!
//! Arithmetic whose mathematical result does not fit in an `i64`, and
//! division by zero, yield `Null`, as does any operator applied to operand
//! types it is not defined on.
//!
//! `let` statements, identifiers, function literals and calls are outside
//! this evaluator's scope: `eval_program` asks its callers (through
//! `stmts_evaluable`) for trees free of them.

use vstd::prelude::*;

use crate::ast::{ExprModel, Expression, Program, Statement, StmtModel};
use crate::object::{spec_truthy, Object};
use crate::text::str_eq;

verus! {

/// An integer result when it fits in `i64`, `Null` otherwise.
pub open spec fn int_result(v: int) -> Object {
    if i64::MIN <= v <= i64::MAX {
        Object::Integer { value: v as i64 }
    } else {
        Object::Null
    }
}

/// Division truncated towards zero, as the machine divides.
pub open spec fn tdiv(l: int, r: int) -> int {
    let la = if l < 0 {
        -l
    } else {
        l
    };
    let ra = if r < 0 {
        -r
    } else {
        r
    };
    if (l < 0) != (r < 0) {
        -(la / ra)
    } else {
        la / ra
    }
}

/// What an infix operator yields on two integers: arithmetic gives an
/// integer (`Null` on overflow or division by zero), comparison gives a
/// boolean, and any other operator gives `Null`.
pub open spec fn int_arith(op: Seq<char>, l: int, r: int) -> Object {
    if op == "+"@ {
        int_result(l + r)
    } else if op == "-"@ {
        int_result(l - r)
    } else if op == "*"@ {
        int_result(l * r)
    } else if op == "/"@ {
        if r == 0 {
            Object::Null
        } else {
            int_result(tdiv(l, r))
        }
    } else if op == "<"@ {
        Object::Boolean { value: l < r }
    } else if op == ">"@ {
        Object::Boolean { value: l > r }
    } else if op == "=="@ {
        Object::Boolean { value: l == r }
    } else if op == "!="@ {
        Object::Boolean { value: l != r }
    } else {
        Object::Null
    }
}

/// What an infix operator yields on two booleans: only equality and
/// inequality are defined.
pub open spec fn bool_infix(op: Seq<char>, l: bool, r: bool) -> Object {
    if op == "=="@ {
        Object::Boolean { value: l == r }
    } else if op == "!="@ {
        Object::Boolean { value: l != r }
    } else {
        Object::Null
    }
}

/// What `!` yields: the negated boolean, `true` on `Null`, `false` on
/// every other (truthy) value.
pub open spec fn spec_bang(o: Object) -> Object {
    match o {
        Object::Boolean { value } => Object::Boolean { value: !value },
        Object::Null => Object::Boolean { value: true },
        _ => Object::Boolean { value: false },
    }
}

/// What prefix `-` yields: the negated integer (`Null` when the negation
/// does not fit), `Null` on every other operand.
pub open spec fn spec_minus(o: Object) -> Object {
    match o {
        Object::Integer { value } => int_result(-(value as int)),
        _ => Object::Null,
    }
}

/// What a prefix operator yields.
pub open spec fn eval_prefix(op: Seq<char>, right: Object) -> Object {
    if op == "!"@ {
        spec_bang(right)
    } else if op == "-"@ {
        spec_minus(right)
    } else {
        Object::Null
    }
}

/// What an infix operator yields: integer rules on two integers, boolean
/// rules on two booleans, `Null` on any mixed or other pairing.
pub open spec fn eval_infix(op: Seq<char>, left: Object, right: Object) -> Object {
    match (left, right) {
        (Object::Integer { value: l }, Object::Integer { value: r }) => int_arith(
            op,
            l as int,
            r as int,
        ),
        (Object::Boolean { value: l }, Object::Boolean { value: r }) => bool_infix(op, l, r),
        _ => Object::Null,
    }
}

/// Whether an expression lies in the evaluator's scope: identifiers,
/// function literals and calls do not.
pub open spec fn expr_evaluable(e: ExprModel) -> bool
    decreases e,
{
    match e {
        ExprModel::Identifier { .. } => false,
        ExprModel::IntegerLiteral { .. } => true,
        ExprModel::BooleanLiteral { .. } => true,
        ExprModel::FunctionLiteral { .. } => false,
        ExprModel::PrefixExpression { right_exp, .. } => expr_evaluable(*right_exp),
        ExprModel::InfixExpression { left_exp, right_exp, .. } => expr_evaluable(*left_exp)
            && expr_evaluable(*right_exp),
        ExprModel::IfExpression { condition, consequence, alternative, .. } => expr_evaluable(
            *condition,
        ) && stmt_evaluable(*consequence) && (match alternative {
            Some(alt) => stmt_evaluable(*alt),
            None => true,
        }),
        ExprModel::CallExpression { .. } => false,
    }
}

/// Whether a statement lies in the evaluator's scope: `let` does not.
pub open spec fn stmt_evaluable(s: StmtModel) -> bool
    decreases s,
{
    match s {
        StmtModel::ExpressionStatement { expression, .. } => expr_evaluable(*expression),
        StmtModel::LetStatement { .. } => false,
        StmtModel::ReturnStatement { return_value, .. } => expr_evaluable(*return_value),
        StmtModel::BlockStatement { statements, .. } => stmts_evaluable(statements),
    }
}

/// Whether every statement of a sequence lies in the evaluator's scope.
pub open spec fn stmts_evaluable(ss: Seq<StmtModel>) -> bool
    decreases ss,
{
    if ss.len() == 0 {
        true
    } else {
        stmt_evaluable(ss[0]) && stmts_evaluable(ss.subrange(1, ss.len() as int))
    }
}

pub proof fn lemma_stmts_evaluable_index(ss: Seq<StmtModel>, k: int)
    requires
        stmts_evaluable(ss),
        0 <= k < ss.len(),
    ensures
        stmt_evaluable(ss[k]),
    decreases k,
{
    if k > 0 {
        lemma_stmts_evaluable_index(ss.subrange(1, ss.len() as int), k - 1);
    }
}

/// The value as a return envelope: a bare value is wrapped once, an
/// envelope passes through unchanged, so that none is ever doubly wrapped.
pub open spec fn enveloped(v: Object) -> Object {
    match v {
        Object::ReturnValue { .. } => v,
        _ => Object::ReturnValue { value: Box::new(v) },
    }
}

/// Whether a value respects the envelope discipline: an envelope's payload
/// is itself no envelope.
pub open spec fn singly_wrapped(o: Object) -> bool {
    match o {
        Object::ReturnValue { value } => !(*value is ReturnValue),
        _ => true,
    }
}

/// What evaluating an expression yields.
pub open spec fn spec_eval_expr(e: ExprModel) -> Object
    decreases e, 0int,
{
    match e {
        ExprModel::IntegerLiteral { value, .. } => Object::Integer { value },
        ExprModel::BooleanLiteral { value, .. } => Object::Boolean { value },
        ExprModel::PrefixExpression { operator, right_exp, .. } => eval_prefix(
            operator,
            spec_eval_expr(*right_exp),
        ),
        ExprModel::InfixExpression { operator, left_exp, right_exp, .. } => eval_infix(
            operator,
            spec_eval_expr(*left_exp),
            spec_eval_expr(*right_exp),
        ),
        ExprModel::IfExpression { condition, consequence, alternative, .. } => {
            if spec_truthy(spec_eval_expr(*condition)) {
                spec_eval_stmt(*consequence)
            } else {
                match alternative {
                    Some(alt) => spec_eval_stmt(*alt),
                    None => Object::Null,
                }
            }
        },
        _ => Object::Null,
    }
}

/// What evaluating a statement yields: a `return` wraps its value in an
/// envelope; a block stops at the first envelope and otherwise yields its
/// last statement's value (`Null` when empty).
pub open spec fn spec_eval_stmt(s: StmtModel) -> Object
    decreases s, 1int,
{
    match s {
        StmtModel::ExpressionStatement { expression, .. } => spec_eval_expr(*expression),
        StmtModel::LetStatement { .. } => Object::Null,
        StmtModel::ReturnStatement { return_value, .. } => enveloped(
            spec_eval_expr(*return_value),
        ),
        StmtModel::BlockStatement { statements, .. } => spec_eval_block(statements),
    }
}

/// What evaluating a statement sequence yields: statements in order, the
/// first `ReturnValue` envelope passed through the moment it appears, else
/// the last value, `Null` when there is none.
pub open spec fn spec_eval_block(ss: Seq<StmtModel>) -> Object
    decreases ss, 2int,
{
    if ss.len() == 0 {
        Object::Null
    } else {
        let v = spec_eval_stmt(ss[0]);
        if v is ReturnValue {
            v
        } else if ss.len() == 1 {
            v
        } else {
            spec_eval_block(ss.subrange(1, ss.len() as int))
        }
    }
}

/// What a whole program yields: its statements as one sequence, stopping
/// at the first envelope, which the top level returns as it is.
pub open spec fn spec_eval_program(ss: Seq<StmtModel>) -> Object {
    spec_eval_block(ss)
}

/// Return envelope: in a statement sequence, the first statement whose
/// evaluation yields a `ReturnValue` envelope determines the value of the
/// whole sequence — nothing after it is observed.
pub proof fn lemma_return_envelope(ss: Seq<StmtModel>, k: int)
    requires
        0 <= k < ss.len(),
        spec_eval_stmt(ss[k]) is ReturnValue,
        forall|j: int| 0 <= j < k ==> !(#[trigger] spec_eval_stmt(ss[j]) is ReturnValue),
    ensures
        spec_eval_block(ss) == spec_eval_stmt(ss[k]),
        spec_eval_block(ss) == spec_eval_block(ss.subrange(0, k + 1)),
    decreases k,
{
    let tail = ss.subrange(1, ss.len() as int);
    let front = ss.subrange(0, k + 1);
    if k == 0 {
        assert(front[0] == ss[0]);
        assert(front.len() == 1);
    } else {
        assert(tail[k - 1] == ss[k]);
        assert(forall|j: int|
            0 <= j < k - 1 ==> !(#[trigger] spec_eval_stmt(tail[j]) is ReturnValue)) by {
            assert(forall|j: int| 0 <= j < k - 1 ==> tail[j] == ss[j + 1]);
        }
        lemma_return_envelope(tail, k - 1);
        assert(!(spec_eval_stmt(ss[0]) is ReturnValue));
        assert(ss.len() > 1);
        assert(spec_eval_block(ss) == spec_eval_block(tail));
        assert(spec_eval_block(ss) == spec_eval_stmt(ss[k]));
        let tf = tail.subrange(0, k);
        assert(tf[k - 1] == tail[k - 1]);
        assert(forall|j: int|
            0 <= j < k - 1 ==> !(#[trigger] spec_eval_stmt(tf[j]) is ReturnValue)) by {
            assert(forall|j: int| 0 <= j < k - 1 ==> tf[j] == tail[j]);
        }
        lemma_return_envelope(tf, k - 1);
        assert(spec_eval_block(tf) == spec_eval_stmt(ss[k]));
        assert(front[0] == ss[0]);
        assert(front.len() == k + 1);
        assert(front.subrange(1, front.len() as int) =~= tf);
        assert(spec_eval_block(front) == spec_eval_block(tf));
    }
}


/// Evaluating an expression never doubly wraps the envelope.
pub proof fn lemma_expr_singly_wrapped(e: ExprModel)
    ensures
        singly_wrapped(spec_eval_expr(e)),
    decreases e, 0int,
{
    match e {
        ExprModel::IfExpression { condition, consequence, alternative, .. } => {
            if spec_truthy(spec_eval_expr(*condition)) {
                lemma_stmt_singly_wrapped(*consequence);
            } else {
                match alternative {
                    Some(alt) => lemma_stmt_singly_wrapped(*alt),
                    None => {},
                }
            }
        },
        _ => {},
    }
}

/// Evaluating a statement never doubly wraps the envelope.
pub proof fn lemma_stmt_singly_wrapped(s: StmtModel)
    ensures
        singly_wrapped(spec_eval_stmt(s)),
    decreases s, 1int,
{
    match s {
        StmtModel::ExpressionStatement { expression, .. } => {
            lemma_expr_singly_wrapped(*expression);
        },
        StmtModel::ReturnStatement { return_value, .. } => {
            lemma_expr_singly_wrapped(*return_value);
        },
        StmtModel::BlockStatement { statements, .. } => {
            lemma_block_singly_wrapped(statements);
        },
        _ => {},
    }
}

/// Evaluating a statement sequence never doubly wraps the envelope.
pub proof fn lemma_block_singly_wrapped(ss: Seq<StmtModel>)
    ensures
        singly_wrapped(spec_eval_block(ss)),
    decreases ss, 2int,
{
    if ss.len() > 0 {
        lemma_stmt_singly_wrapped(ss[0]);
        let v = spec_eval_stmt(ss[0]);
        if !(v is ReturnValue) && ss.len() > 1 {
            lemma_block_singly_wrapped(ss.subrange(1, ss.len() as int));
        }
    }
}

/// Return envelope, second half: whatever a program evaluates to, the
/// envelope is never doubly wrapped — its payload is itself no envelope.
pub proof fn lemma_envelope_never_doubly_wrapped(ss: Seq<StmtModel>)
    ensures
        singly_wrapped(spec_eval_program(ss)),
{
    lemma_block_singly_wrapped(ss);
}

/// The evaluator. It holds no state: evaluation is a pure function of the
/// tree.
#[derive(Debug, Eq, PartialEq, Copy, Clone, Hash)]
pub struct Eval {}

impl Eval {

    /// Decides whether a whole program lies in the evaluator's scope, so
    /// that a caller can establish `eval_program`'s precondition before
    /// evaluating.
    pub fn program_is_evaluable(program: &Program) -> (r: bool)
        ensures
            r == stmts_evaluable(program@),
    {
        let ghost m = crate::ast::stmts_model(program.statements@);
        proof {
            crate::ast::lemma_stmts_model_len(program.statements@);
        }
        let n = program.statements.len();
        let mut i: usize = 0;
        let mut ok = true;
        proof {
            assert(m.subrange(0, n as int) =~= m);
        }
        while i < n
            invariant
                0 <= i <= n,
                n == program.statements@.len(),
                m == crate::ast::stmts_model(program.statements@),
                m.len() == n,
                stmts_evaluable(m) == (ok && stmts_evaluable(m.subrange(i as int, n as int))),
            decreases n - i,
        {
            proof {
                lemma_stmts_model_index(program.statements@, i as int);
            }
            let this_ok = Self::statement_evaluable(&program.statements[i]);
            let ghost suffix = m.subrange(i as int, n as int);
            proof {
                assert(suffix[0] == m[i as int]);
                assert(suffix.subrange(1, suffix.len() as int) =~= m.subrange(
                    i as int + 1,
                    n as int,
                ));
            }
            ok = ok && this_ok;
            i = i + 1;
        }
        ok
    }

    /// Decides whether one statement lies in the evaluator's scope.
    fn statement_evaluable(statement: &Statement) -> (r: bool)
        ensures
            r == stmt_evaluable(statement@),
        decreases *statement, 1int,
    {
        match statement {
            Statement::ExpressionStatement { expression, .. } => Self::expression_evaluable(
                expression,
            ),
            Statement::LetStatement { .. } => false,
            Statement::ReturnStatement { return_value, .. } => Self::expression_evaluable(
                return_value,
            ),
            Statement::BlockStatement { statements, .. } => {
                let ghost m = crate::ast::boxed_stmts_model(statements@);
                proof {
                    crate::ast::lemma_boxed_stmts_model_len(statements@);
                }
                let n = statements.len();
                let mut i: usize = 0;
                let mut ok = true;
                proof {
                    assert(m.subrange(0, n as int) =~= m);
                }
                while i < n
                    invariant
                        0 <= i <= n,
                        n == statements@.len(),
                        *statement is BlockStatement,
                        (*statement)->BlockStatement_statements == *statements,
                        m == crate::ast::boxed_stmts_model(statements@),
                        m.len() == n,
                        stmts_evaluable(m) == (ok && stmts_evaluable(
                            m.subrange(i as int, n as int),
                        )),
                    decreases n - i,
                {
                    proof {
                        lemma_boxed_stmts_model_index(statements@, i as int);
                        assert(decreases_to!(*statement => (*statement)->BlockStatement_statements));
                        assert(decreases_to!(*statements => statements@[i as int]));
                    }
                    let this_ok = Self::statement_evaluable(&statements[i]);
                    let ghost suffix = m.subrange(i as int, n as int);
                    proof {
                        assert(suffix[0] == m[i as int]);
                        assert(suffix.subrange(1, suffix.len() as int) =~= m.subrange(
                            i as int + 1,
                            n as int,
                        ));
                    }
                    ok = ok && this_ok;
                    i = i + 1;
                }
                ok
            },
        }
    }

    /// Decides whether one expression lies in the evaluator's scope.
    fn expression_evaluable(expression: &Expression) -> (r: bool)
        ensures
            r == expr_evaluable(expression@),
        decreases *expression, 0int,
    {
        match expression {
            Expression::IntegerLiteral { .. } => true,
            Expression::BooleanLiteral { .. } => true,
            Expression::PrefixExpression { right_exp, .. } => Self::expression_evaluable(
                right_exp,
            ),
            Expression::InfixExpression { left_exp, right_exp, .. } => {
                let l = Self::expression_evaluable(left_exp);
                let r0 = Self::expression_evaluable(right_exp);
                l && r0
            },
            Expression::IfExpression { condition, consequence, alternative, .. } => {
                let c = Self::expression_evaluable(condition);
                let t = Self::statement_evaluable(consequence);
                let a = match &**alternative {
                    Some(alt) => Self::statement_evaluable(alt),
                    None => true,
                };
                c && t && a
            },
            _ => false,
        }
    }

    /// Evaluates a whole program: statements in order, stopping at the
    /// first `ReturnValue` envelope, which is returned as it is for the
    /// caller to unwrap.
    pub fn eval_program(program: &Program) -> (r: Object)
        requires
            stmts_evaluable(program@),
        ensures
            r == spec_eval_program(program@),
            singly_wrapped(r),
    {
        proof {
            lemma_envelope_never_doubly_wrapped(program@);
        }
        Self::eval_statements(&program.statements)
    }

    /// Evaluates top-level statements in order, stopping at the first
    /// envelope.
    fn eval_statements(statements: &Vec<Statement>) -> (r: Object)
        requires
            stmts_evaluable(crate::ast::stmts_model(statements@)),
        ensures
            r == spec_eval_block(crate::ast::stmts_model(statements@)),
    {
        let ghost m = crate::ast::stmts_model(statements@);
        proof {
            crate::ast::lemma_stmts_model_len(statements@);
        }
        let mut result = Object::Null;
        let n = statements.len();
        proof {
            assert(m.subrange(0, n as int) =~= m);
        }
        let mut i: usize = 0;
        while i < n
            invariant
                0 <= i <= n,
                n == statements@.len(),
                m == crate::ast::stmts_model(statements@),
                m.len() == n,
                stmts_evaluable(m),
                i < n ==> spec_eval_block(m) == spec_eval_block(m.subrange(i as int, n as int)),
                i == n ==> spec_eval_block(m) == (if n == 0 {
                    Object::Null
                } else {
                    result
                }),
                i == n && n == 0 ==> result == Object::Null,
            decreases n - i,
        {
            proof {
                lemma_stmts_model_index(statements@, i as int);
                lemma_stmts_evaluable_index(m, i as int);
            }
            result = Self::eval_statement(&statements[i]);
            let ghost suffix = m.subrange(i as int, n as int);
            proof {
                assert(suffix[0] == m[i as int]);
                assert(suffix.subrange(1, suffix.len() as int) =~= m.subrange(
                    i as int + 1,
                    n as int,
                ));
            }
            if result.get_type().is_return_value() {
                proof {
                    assert(spec_eval_block(suffix) == result);
                }
                return result;
            }
            i = i + 1;
        }
        result
    }

    /// Evaluates one statement.
    fn eval_statement(statement: &Statement) -> (r: Object)
        requires
            stmt_evaluable(statement@),
        ensures
            r == spec_eval_stmt(statement@),
        decreases *statement, 3int,
    {
        match statement {
            Statement::ExpressionStatement { .. } => Self::eval_expression_statement(statement),
            Statement::LetStatement { .. } => Object::Null,
            Statement::ReturnStatement { return_value, .. } => Self::eval_return_statement(
                return_value,
            ),
            Statement::BlockStatement { .. } => Self::eval_block_statement(statement),
        }
    }

    /// Evaluates an expression statement: the value of its expression.
    fn eval_expression_statement(statement: &Statement) -> (r: Object)
        requires
            statement@ is ExpressionStatement,
            stmt_evaluable(statement@),
        ensures
            r == spec_eval_stmt(statement@),
        decreases *statement, 2int,
    {
        match statement {
            Statement::ExpressionStatement { expression, .. } => Self::eval_expression(expression),
            _ => Object::Null,
        }
    }

    /// Evaluates a `return`: the operand's value wrapped in an envelope.
    /// An operand that already evaluated to an envelope (a `return` inside
    /// an `if` operand) passes through unchanged, so no envelope is ever
    /// doubly wrapped.
    fn eval_return_statement(return_value: &Expression) -> (r: Object)
        requires
            expr_evaluable(return_value@),
        ensures
            r == enveloped(spec_eval_expr(return_value@)),
        decreases *return_value, 2int,
    {
        let value = Self::eval_expression(return_value);
        if value.get_type().is_return_value() {
            value
        } else {
            Object::ReturnValue { value: Box::new(value) }
        }
    }

    /// Evaluates a block: statements in order, the first envelope passed
    /// through unchanged, else the last statement's value.
    fn eval_block_statement(block: &Statement) -> (r: Object)
        requires
            block@ is BlockStatement,
            stmt_evaluable(block@),
        ensures
            r == spec_eval_stmt(block@),
        decreases *block, 2int,
    {
        match block {
            Statement::BlockStatement { statements, .. } => {
                let ghost m = crate::ast::boxed_stmts_model(statements@);
                proof {
                    crate::ast::lemma_boxed_stmts_model_len(statements@);
                }
                let mut result = Object::Null;
                let n = statements.len();
                proof {
                    assert(m.subrange(0, n as int) =~= m);
                }
                let mut i: usize = 0;
                while i < n
                    invariant
                        0 <= i <= n,
                        n == statements@.len(),
                        *block is BlockStatement,
                        (*block)->BlockStatement_statements == *statements,
                        m == crate::ast::boxed_stmts_model(statements@),
                        m.len() == n,
                        stmts_evaluable(m),
                        i < n ==> spec_eval_block(m) == spec_eval_block(
                            m.subrange(i as int, n as int),
                        ),
                        i == n ==> spec_eval_block(m) == (if n == 0 {
                            Object::Null
                        } else {
                            result
                        }),
                        i == n && n == 0 ==> result == Object::Null,
                    decreases n - i,
                {
                    proof {
                        lemma_boxed_stmts_model_index(statements@, i as int);
                        lemma_stmts_evaluable_index(m, i as int);
                        assert(decreases_to!(*block => (*block)->BlockStatement_statements));
                        assert(decreases_to!(*statements => statements@[i as int]));
                    }
                    result = Self::eval_statement(&statements[i]);
                    let ghost suffix = m.subrange(i as int, n as int);
                    proof {
                        assert(suffix[0] == m[i as int]);
                        assert(suffix.subrange(1, suffix.len() as int) =~= m.subrange(
                            i as int + 1,
                            n as int,
                        ));
                    }
                    if result.get_type().is_return_value() {
                        proof {
                            assert(spec_eval_block(suffix) == result);
                        }
                        return result;
                    }
                    i = i + 1;
                }
                result
            },
            _ => Object::Null,
        }
    }

    /// Evaluates one expression.
    fn eval_expression(expression: &Expression) -> (r: Object)
        requires
            expr_evaluable(expression@),
        ensures
            r == spec_eval_expr(expression@),
        decreases *expression, 1int,
    {
        match expression {
            Expression::IntegerLiteral { value, .. } => Object::Integer { value: *value },
            Expression::BooleanLiteral { value, .. } => Object::Boolean { value: *value },
            Expression::PrefixExpression { operator, right_exp, .. } => {
                let right = Self::eval_expression(right_exp);
                Self::eval_prefix_expression(operator.as_str(), &right)
            },
            Expression::InfixExpression { operator, left_exp, right_exp, .. } => {
                let left = Self::eval_expression(left_exp);
                let right = Self::eval_expression(right_exp);
                Self::eval_infix_expression(operator.as_str(), &left, &right)
            },
            Expression::IfExpression { condition, consequence, alternative, .. } => {
                let cond = Self::eval_expression(condition);
                if cond.is_truthy() {
                    Self::eval_statement(consequence)
                } else {
                    match &**alternative {
                        Some(alt) => Self::eval_statement(alt),
                        None => Object::Null,
                    }
                }
            },
            _ => Object::Null,
        }
    }

    /// Applies a prefix operator to an already evaluated operand.
    fn eval_prefix_expression(operator: &str, right: &Object) -> (r: Object)
        ensures
            r == eval_prefix(operator@, *right),
    {
        if str_eq(operator, "!") {
            Self::eval_bang_operation(right)
        } else if str_eq(operator, "-") {
            Self::eval_minus_operation(right)
        } else {
            Object::Null
        }
    }

    /// Applies `!`: negates a boolean, `Null` is truthy-negated to `true`,
    /// every other value to `false`.
    fn eval_bang_operation(right: &Object) -> (r: Object)
        ensures
            r == spec_bang(*right),
    {
        match right {
            Object::Boolean { value } => Object::Boolean { value: !*value },
            Object::Null => Object::Boolean { value: true },
            _ => Object::Boolean { value: false },
        }
    }

    /// Applies prefix `-`: negates an integer, `Null` when the negation
    /// does not fit or the operand is no integer.
    fn eval_minus_operation(right: &Object) -> (r: Object)
        ensures
            r == spec_minus(*right),
    {
        match right {
            Object::Integer { value } => {
                if *value == i64::MIN {
                    Object::Null
                } else {
                    Object::Integer { value: -(*value) }
                }
            },
            _ => Object::Null,
        }
    }

    /// Applies an infix operator to two already evaluated operands.
    fn eval_infix_expression(operator: &str, left: &Object, right: &Object) -> (r: Object)
        ensures
            r == eval_infix(operator@, *left, *right),
    {
        let left_type = left.get_type();
        let right_type = right.get_type();
        if left_type.is_integer() && right_type.is_integer() {
            Self::eval_integer_infix_expression(operator, left, right)
        } else if left_type.is_boolean() && right_type.is_boolean() {
            Self::eval_boolean_infix_expression(operator, left, right)
        } else {
            Object::Null
        }
    }

    /// Integer rules: `+ - * /` give an integer (`Null` on overflow or
    /// division by zero), `< > == !=` give a boolean, anything else `Null`.
    fn eval_integer_infix_expression(operator: &str, left: &Object, right: &Object) -> (r: Object)
        requires
            *left is Integer,
            *right is Integer,
        ensures
            r == int_arith(operator@, left->Integer_value as int, right->Integer_value as int),
    {
        let l: i64 = match left {
            Object::Integer { value } => *value,
            _ => 0,
        };
        let r0: i64 = match right {
            Object::Integer { value } => *value,
            _ => 0,
        };
        if str_eq(operator, "+") {
            let v: i128 = l as i128 + r0 as i128;
            if v >= i64::MIN as i128 && v <= i64::MAX as i128 {
                Object::Integer { value: v as i64 }
            } else {
                Object::Null
            }
        } else if str_eq(operator, "-") {
            let v: i128 = l as i128 - r0 as i128;
            if v >= i64::MIN as i128 && v <= i64::MAX as i128 {
                Object::Integer { value: v as i64 }
            } else {
                Object::Null
            }
        } else if str_eq(operator, "*") {
            proof {
                assert((l as int) * (r0 as int) <= i128::MAX as int && (l as int) * (r0 as int)
                    >= i128::MIN as int) by (nonlinear_arith)
                    requires
                        i64::MIN <= l <= i64::MAX,
                        i64::MIN <= r0 <= i64::MAX,
                ;
            }
            let v: i128 = l as i128 * r0 as i128;
            if v >= i64::MIN as i128 && v <= i64::MAX as i128 {
                Object::Integer { value: v as i64 }
            } else {
                Object::Null
            }
        } else if str_eq(operator, "/") {
            if r0 == 0 {
                Object::Null
            } else {
                Self::divide_integers(l, r0)
            }
        } else if str_eq(operator, "<") {
            Object::Boolean { value: l < r0 }
        } else if str_eq(operator, ">") {
            Object::Boolean { value: l > r0 }
        } else if str_eq(operator, "==") {
            Object::Boolean { value: l == r0 }
        } else if str_eq(operator, "!=") {
            Object::Boolean { value: l != r0 }
        } else {
            Object::Null
        }
    }

    /// Divides two integers, truncating towards zero; the one quotient that
    /// does not fit (`i64::MIN / -1`) yields `Null`.
    fn divide_integers(l: i64, r: i64) -> (res: Object)
        requires
            r != 0,
        ensures
            res == int_result(tdiv(l as int, r as int)),
    {
        let la: u64 = Self::abs_u64(l);
        let ra: u64 = Self::abs_u64(r);
        let q: u64 = la / ra;
        proof {
            assert(la / ra <= la) by (nonlinear_arith)
                requires
                    ra >= 1,
                    la >= 0,
            ;
        }
        if (l < 0) != (r < 0) {
            if q == 0 {
                Object::Integer { value: 0 }
            } else if q <= 9223372036854775807u64 {
                Object::Integer { value: -(q as i64) }
            } else {
                Object::Integer { value: i64::MIN }
            }
        } else {
            if q <= 9223372036854775807u64 {
                Object::Integer { value: q as i64 }
            } else {
                Object::Null
            }
        }
    }

    /// The absolute value of an `i64`, exact even for the minimum.
    fn abs_u64(v: i64) -> (r: u64)
        ensures
            r as int == (if v < 0 {
                -(v as int)
            } else {
                v as int
            }),
    {
        if v >= 0 {
            v as u64
        } else if v == i64::MIN {
            9223372036854775808u64
        } else {
            (-v) as u64
        }
    }

    /// Boolean rules: only `==` and `!=` are defined; anything else gives
    /// `Null`.
    fn eval_boolean_infix_expression(operator: &str, left: &Object, right: &Object) -> (r: Object)
        requires
            *left is Boolean,
            *right is Boolean,
        ensures
            r == bool_infix(operator@, left->Boolean_value, right->Boolean_value),
    {
        let l: bool = match left {
            Object::Boolean { value } => *value,
            _ => false,
        };
        let r0: bool = match right {
            Object::Boolean { value } => *value,
            _ => false,
        };
        if str_eq(operator, "==") {
            Object::Boolean { value: l == r0 }
        } else if str_eq(operator, "!=") {
            Object::Boolean { value: l != r0 }
        } else {
            Object::Null
        }
    }
}

/// Position of a statement's model inside the model of the sequence.
pub proof fn lemma_stmts_model_index(v: Seq<Statement>, i: int)
    requires
        0 <= i < v.len(),
    ensures
        crate::ast::stmts_model(v).len() == v.len(),
        crate::ast::stmts_model(v)[i] == crate::ast::stmt_model(v[i]),
    decreases v.len(),
{
    crate::ast::lemma_stmts_model_len(v);
    if v.len() > 0 {
        let p = v.subrange(0, v.len() - 1);
        crate::ast::lemma_stmts_model_len(p);
        if i < v.len() - 1 {
            lemma_stmts_model_index(p, i);
            assert(p[i] == v[i]);
        }
    }
}

/// Position of a boxed statement's model inside the model of the sequence.
pub proof fn lemma_boxed_stmts_model_index(v: Seq<Box<Statement>>, i: int)
    requires
        0 <= i < v.len(),
    ensures
        crate::ast::boxed_stmts_model(v).len() == v.len(),
        crate::ast::boxed_stmts_model(v)[i] == crate::ast::stmt_model(*v[i]),
    decreases v.len(),
{
    crate::ast::lemma_boxed_stmts_model_len(v);
    if v.len() > 0 {
        let p = v.subrange(0, v.len() - 1);
        crate::ast::lemma_boxed_stmts_model_len(p);
        if i < v.len() - 1 {
            lemma_boxed_stmts_model_index(p, i);
            assert(p[i] == v[i]);
        }
    }
}

} // verus!
