//! The runtime value model and the tree-walking interpreter: evaluating
//! expressions to values, executing statements for their bindings and
//! printed output, and raising structured runtime errors.

use vstd::prelude::*;
use vstd::string::StringExecFns;
use crate::ast::{Expr, ExprV, LitV, Literal};
use crate::environment::{Environment, lookup_chain, EnvV};
use crate::errors::{ParserError, RuntimeError, RuntimeErrV};
use crate::float::{
    add_floats, div_floats, eq_floats, float_add, float_div, float_eq, float_ge, float_gt,
    float_le, float_lt, float_mul, float_neg, float_sub, float_text, float_to_string, ge_floats,
    gt_floats, le_floats, lt_floats, mul_floats, neg_float, sub_floats,
};
use crate::syntax::{Statement, StmtV};
use crate::taco::Taco;
use crate::text::{dec_int, i64_to_string};
use crate::token::{Token, TokenType, TokenV};

verus! {

/// Specification-level runtime value.
pub enum ValueV {
    Integer(i64),
    Float(u64),
    Str(Seq<char>),
    Boolean(bool),
    Nil,
}

/// A runtime value: one of the five scalar kinds. Floating-point values
/// are carried as their IEEE 754 binary64 bit patterns. There is no
/// implicit cross-kind coercion.
#[derive(Debug, PartialEq)]
pub enum Value {
    Integer(i64),
    Float(u64),
    String(String),
    Boolean(bool),
    Nil,
}

impl View for Value {
    type V = ValueV;

    open spec fn view(&self) -> ValueV {
        match self {
            Value::Integer(i) => ValueV::Integer(*i),
            Value::Float(b) => ValueV::Float(*b),
            Value::String(s) => ValueV::Str(s@),
            Value::Boolean(b) => ValueV::Boolean(*b),
            Value::Nil => ValueV::Nil,
        }
    }
}

impl Clone for Value {
    fn clone(&self) -> (r: Value)
        ensures
            r == *self,
    {
        match self {
            Value::Integer(i) => Value::Integer(*i),
            Value::Float(b) => Value::Float(*b),
            Value::String(s) => Value::String(s.clone()),
            Value::Boolean(b) => Value::Boolean(*b),
            Value::Nil => Value::Nil,
        }
    }
}

/// The runtime value a literal denotes.
pub open spec fn lit_value(l: LitV) -> ValueV {
    match l {
        LitV::Integer(i) => ValueV::Integer(i),
        LitV::Float(b) => ValueV::Float(b),
        LitV::Str(s) => ValueV::Str(s),
        LitV::Boolean(b) => ValueV::Boolean(b),
        LitV::Nil => ValueV::Nil,
    }
}

impl From<Literal> for Value {
    fn from(literal: Literal) -> (r: Value) {
        match literal {
            Literal::Integer(i) => Value::Integer(i),
            Literal::Float(b) => Value::Float(b),
            Literal::String(s) => Value::String(s),
            Literal::Boolean(b) => Value::Boolean(b),
            Literal::Nil => Value::Nil,
        }
    }
}

impl vstd::std_specs::convert::FromSpecImpl<Literal> for Value {
    open spec fn obeys_from_spec() -> bool {
        true
    }

    open spec fn from_spec(literal: Literal) -> Value {
        match literal {
            Literal::Integer(i) => Value::Integer(i),
            Literal::Float(b) => Value::Float(b),
            Literal::String(s) => Value::String(s),
            Literal::Boolean(b) => Value::Boolean(b),
            Literal::Nil => Value::Nil,
        }
    }
}

/// The truthiness of a value: only `nil` and `false` are falsy; every
/// other value, including `0`, `0.0` and the empty string, is truthy.
pub open spec fn truthy(v: ValueV) -> bool {
    !(v == ValueV::Nil || v == ValueV::Boolean(false))
}

impl Value {
    /// Whether this value counts as true in a boolean position.
    pub fn is_truthy(&self) -> (r: bool)
        ensures
            r == truthy(self@),
    {
        match self {
            Value::Nil => false,
            Value::Boolean(b) => *b,
            _ => true,
        }
    }
}

/// The kind of a value, named as in operand-mismatch diagnostics.
pub open spec fn value_kind_text(v: ValueV) -> Seq<char> {
    match v {
        ValueV::Integer(_) => "Integer"@,
        ValueV::Float(_) => "Float"@,
        ValueV::Str(_) => "String"@,
        ValueV::Boolean(_) => "Boolean"@,
        ValueV::Nil => "Nil"@,
    }
}

/// The canonical printed form of a value: integers and floats in decimal,
/// strings verbatim, booleans as `true`/`false`, nil as `nil`.
pub open spec fn str_of_value(v: ValueV) -> Seq<char> {
    match v {
        ValueV::Integer(i) => dec_int(i as int),
        ValueV::Float(b) => float_text(b),
        ValueV::Str(s) => s,
        ValueV::Boolean(b) => if b {
            "true"@
        } else {
            "false"@
        },
        ValueV::Nil => "nil"@,
    }
}

/// A runtime error value at the specification level.
pub open spec fn rt_err(token: TokenV, message: Seq<char>) -> RuntimeErrV {
    RuntimeErrV { token, message }
}

/// The two's-complement negation of a 64-bit integer.
pub open spec fn neg_wrapped(i: i64) -> i64 {
    if i == i64::MIN {
        i64::MIN
    } else {
        (-(i as int)) as i64
    }
}

/// The truncating two's-complement division of two 64-bit integers, for a
/// nonzero divisor.
pub open spec fn div_wrapped(a: i64, b: i64) -> i64 {
    match a.checked_div(b) {
        Some(q) => q,
        None => i64::MIN,
    }
}

/// What a unary operator yields on a value: `-` negates integers and
/// floats and rejects every other kind; `!` yields the negated truthiness.
pub open spec fn apply_unary(op: TokenV, v: ValueV) -> Result<ValueV, RuntimeErrV> {
    match op.kind {
        TokenType::Minus => match v {
            ValueV::Integer(i) => Ok(ValueV::Integer(neg_wrapped(i))),
            ValueV::Float(b) => Ok(ValueV::Float(float_neg(b))),
            _ => Err(rt_err(op, "Invalid operand for unary minus"@)),
        },
        TokenType::Bang => Ok(ValueV::Boolean(!truthy(v))),
        _ => Err(rt_err(op, "Invalid unary operator"@)),
    }
}

/// What a binary operator yields on two values. Arithmetic and comparison
/// require both operands of one numeric kind; `+` also joins two strings;
/// `==` and `!=` require both operands of one of the four non-nil kinds;
/// division by an additive identity is an error. Anything else is an
/// operand-kind mismatch.
pub open spec fn apply_binary(op: TokenV, l: ValueV, r: ValueV) -> Result<ValueV, RuntimeErrV> {
    match op.kind {
        TokenType::Plus => match (l, r) {
            (ValueV::Integer(a), ValueV::Integer(b)) => Ok(ValueV::Integer(a.wrapping_add(b))),
            (ValueV::Float(a), ValueV::Float(b)) => Ok(ValueV::Float(float_add(a, b))),
            (ValueV::Str(a), ValueV::Str(b)) => Ok(ValueV::Str(a + b)),
            _ => Err(
                rt_err(
                    op,
                    "Invalid operands for addition: "@ + value_kind_text(l) + " - "@
                        + value_kind_text(r),
                ),
            ),
        },
        TokenType::Minus => match (l, r) {
            (ValueV::Integer(a), ValueV::Integer(b)) => Ok(ValueV::Integer(a.wrapping_sub(b))),
            (ValueV::Float(a), ValueV::Float(b)) => Ok(ValueV::Float(float_sub(a, b))),
            _ => Err(rt_err(op, "Invalid operands for subtraction"@)),
        },
        TokenType::Star => match (l, r) {
            (ValueV::Integer(a), ValueV::Integer(b)) => Ok(ValueV::Integer(a.wrapping_mul(b))),
            (ValueV::Float(a), ValueV::Float(b)) => Ok(ValueV::Float(float_mul(a, b))),
            _ => Err(rt_err(op, "Invalid operands for multiplication"@)),
        },
        TokenType::Slash => match (l, r) {
            (ValueV::Integer(a), ValueV::Integer(b)) => if b == 0 {
                Err(rt_err(op, "Division by zero"@))
            } else {
                Ok(ValueV::Integer(div_wrapped(a, b)))
            },
            (ValueV::Float(a), ValueV::Float(b)) => if float_eq(b, 0) {
                Err(rt_err(op, "Division by zero"@))
            } else {
                Ok(ValueV::Float(float_div(a, b)))
            },
            _ => Err(rt_err(op, "Invalid operands for division"@)),
        },
        TokenType::Greater => match (l, r) {
            (ValueV::Integer(a), ValueV::Integer(b)) => Ok(ValueV::Boolean(a > b)),
            (ValueV::Float(a), ValueV::Float(b)) => Ok(ValueV::Boolean(float_gt(a, b))),
            _ => Err(rt_err(op, "Invalid operands for greater than"@)),
        },
        TokenType::GreaterEqual => match (l, r) {
            (ValueV::Integer(a), ValueV::Integer(b)) => Ok(ValueV::Boolean(a >= b)),
            (ValueV::Float(a), ValueV::Float(b)) => Ok(ValueV::Boolean(float_ge(a, b))),
            _ => Err(rt_err(op, "Invalid operands for greater than or equal"@)),
        },
        TokenType::Less => match (l, r) {
            (ValueV::Integer(a), ValueV::Integer(b)) => Ok(ValueV::Boolean(a < b)),
            (ValueV::Float(a), ValueV::Float(b)) => Ok(ValueV::Boolean(float_lt(a, b))),
            _ => Err(rt_err(op, "Invalid operands for less than"@)),
        },
        TokenType::LessEqual => match (l, r) {
            (ValueV::Integer(a), ValueV::Integer(b)) => Ok(ValueV::Boolean(a <= b)),
            (ValueV::Float(a), ValueV::Float(b)) => Ok(ValueV::Boolean(float_le(a, b))),
            _ => Err(rt_err(op, "Invalid operands for less than or equal"@)),
        },
        TokenType::EqualEqual => match (l, r) {
            (ValueV::Boolean(a), ValueV::Boolean(b)) => Ok(ValueV::Boolean(a == b)),
            (ValueV::Integer(a), ValueV::Integer(b)) => Ok(ValueV::Boolean(a == b)),
            (ValueV::Float(a), ValueV::Float(b)) => Ok(ValueV::Boolean(float_eq(a, b))),
            (ValueV::Str(a), ValueV::Str(b)) => Ok(ValueV::Boolean(a == b)),
            _ => Err(rt_err(op, "Invalid operands for equality"@)),
        },
        TokenType::BangEqual => match (l, r) {
            (ValueV::Boolean(a), ValueV::Boolean(b)) => Ok(ValueV::Boolean(a != b)),
            (ValueV::Integer(a), ValueV::Integer(b)) => Ok(ValueV::Boolean(a != b)),
            (ValueV::Float(a), ValueV::Float(b)) => Ok(ValueV::Boolean(!float_eq(a, b))),
            (ValueV::Str(a), ValueV::Str(b)) => Ok(ValueV::Boolean(a != b)),
            _ => Err(rt_err(op, "Invalid operands for inequality"@)),
        },
        _ => Err(rt_err(op, "Invalid binary operator"@)),
    }
}

/// What an expression evaluates to against an environment chain: a value,
/// or the first runtime error raised. Operands are evaluated left first,
/// always.
pub open spec fn eval_expr(e: ExprV, env: EnvV) -> Result<ValueV, RuntimeErrV>
    decreases e,
{
    match e {
        ExprV::Lit(l) => Ok(lit_value(l)),
        ExprV::Grouping(inner) => eval_expr(*inner, env),
        ExprV::Unary(op, right) => match eval_expr(*right, env) {
            Ok(v) => apply_unary(op, v),
            Err(err) => Err(err),
        },
        ExprV::Binary(left, op, right) => match eval_expr(*left, env) {
            Ok(lv) => match eval_expr(*right, env) {
                Ok(rv) => apply_binary(op, lv, rv),
                Err(err) => Err(err),
            },
            Err(err) => Err(err),
        },
        ExprV::Var(t) => match lookup_chain(env, t.lexeme) {
            Some(v) => Ok(v),
            None => Err(rt_err(t, "Undefined variable '"@ + t.lexeme + "'."@)),
        },
    }
}

/// The outcome of one statement: the new environment chain, the lines it
/// printed, and the runtime error it raised, if any.
pub struct StepV {
    pub env: EnvV,
    pub out: Seq<Seq<char>>,
    pub err: Option<RuntimeErrV>,
}

/// What executing one statement does: a `let` binds the initializer's
/// value in the innermost scope; `print` and a bare expression print the
/// value's canonical form; a runtime error leaves the environment chain
/// unchanged and nothing printed.
pub open spec fn exec_stmt(s: StmtV, env: EnvV) -> StepV {
    match s {
        StmtV::Let(name, init) => match eval_expr(init, env) {
            Ok(v) => StepV {
                env: env.update(0, env[0].insert(name.lexeme, v)),
                out: Seq::empty(),
                err: None,
            },
            Err(err) => StepV { env, out: Seq::empty(), err: Some(err) },
        },
        StmtV::Print(e) => match eval_expr(e, env) {
            Ok(v) => StepV { env, out: seq![str_of_value(v)], err: None },
            Err(err) => StepV { env, out: Seq::empty(), err: Some(err) },
        },
        StmtV::Expression(e) => match eval_expr(e, env) {
            Ok(v) => StepV { env, out: seq![str_of_value(v)], err: None },
            Err(err) => StepV { env, out: Seq::empty(), err: Some(err) },
        },
    }
}

/// The outcome of a statement sequence: everything printed, and the first
/// runtime error, if any, at which execution stopped.
pub struct RunV {
    pub out: Seq<Seq<char>>,
    pub err: Option<RuntimeErrV>,
}

/// What executing a statement list does: statements run in order against
/// the growing environment chain; the first runtime error stops the run.
pub open spec fn run_stmts(ss: Seq<StmtV>, env: EnvV) -> RunV
    decreases ss.len(),
{
    if ss.len() == 0 {
        RunV { out: Seq::empty(), err: None }
    } else {
        let step = exec_stmt(ss[0], env);
        match step.err {
            Some(err) => RunV { out: step.out, err: Some(err) },
            None => {
                let rest = run_stmts(ss.skip(1), step.env);
                RunV { out: step.out + rest.out, err: rest.err }
            },
        }
    }
}

/// The view of a statement vector.
pub open spec fn stmts_view(ss: Seq<Statement>) -> Seq<StmtV> {
    Seq::new(ss.len(), |i: int| ss[i]@)
}

/// The environment chain a fresh execution session starts from: one empty
/// global scope.
pub open spec fn initial_env() -> EnvV {
    seq![Map::<Seq<char>, ValueV>::empty()]
}

/// The stateless evaluator. It carries the session's error flags as they
/// stood when it was created.
#[derive(Debug, Clone, Copy)]
pub struct Interpreter {
    pub had_error: bool,
    pub had_runtime_error: bool,
}

impl Interpreter {
    /// Builds an interpreter carrying the session's current error flags.
    pub fn new(instance: &Taco) -> (r: Interpreter)
        ensures
            r.had_error == instance.has_error,
            r.had_runtime_error == instance.has_runtime_error,
    {
        Interpreter {
            had_error: instance.has_error,
            had_runtime_error: instance.has_runtime_error,
        }
    }

    /// Renders a value in its canonical printed form.
    pub fn stringify(&self, value: Value) -> (r: String)
        ensures
            r@ == str_of_value(value@),
    {
        match value {
            Value::Integer(i) => i64_to_string(i),
            Value::Float(b) => float_to_string(b),
            Value::String(s) => s,
            Value::Boolean(b) => if b {
                String::from_str("true")
            } else {
                String::from_str("false")
            },
            Value::Nil => String::from_str("nil"),
        }
    }

    /// Evaluates an expression against an environment chain, exactly as
    /// [`eval_expr`] describes.
    pub fn evaluate(&self, environment: &Environment, expr: &Expr) -> (r: Result<
        Value,
        RuntimeError,
    >)
        ensures
            match r {
                Ok(v) => eval_expr(expr@, environment@) == Ok::<ValueV, RuntimeErrV>(v@),
                Err(e) => eval_expr(expr@, environment@) == Err::<ValueV, RuntimeErrV>(e@),
            },
        decreases expr,
    {
        match expr {
            Expr::Literal(l) => Ok(
                match l {
                    Literal::String(s) => Value::String(s.clone()),
                    Literal::Integer(i) => Value::Integer(*i),
                    Literal::Float(b) => Value::Float(*b),
                    Literal::Boolean(b) => Value::Boolean(*b),
                    Literal::Nil => Value::Nil,
                },
            ),
            Expr::GroupingExpr(g) => self.evaluate(environment, &g.expr),
            Expr::UnaryExpr(u) => {
                let right = self.evaluate(environment, &u.right)?;
                self.apply_unary_op(&u.operator, right)
            },
            Expr::BinaryExpr(b) => {
                let left = self.evaluate(environment, &b.left)?;
                let right = self.evaluate(environment, &b.right)?;
                self.apply_binary_op(&b.operator, left, right)
            },
            Expr::VarDeclaration(t) => match environment.get(t.lexeme.as_str()) {
                Some(v) => Ok(v),
                None => {
                    let mut msg = String::new();
                    msg.append("Undefined variable '");
                    msg.append(t.lexeme.as_str());
                    msg.append("'.");
                    proof {
                        assert(msg@ =~= "Undefined variable '"@ + t@.lexeme + "'."@);
                    }
                    Err(RuntimeError::new(t.clone(), msg.as_str()))
                },
            },
        }
    }

    /// Applies a unary operator to a value, exactly as [`apply_unary`]
    /// describes.
    fn apply_unary_op(&self, operator: &Token, right: Value) -> (r: Result<Value, RuntimeError>)
        ensures
            match r {
                Ok(v) => apply_unary(operator@, right@) == Ok::<ValueV, RuntimeErrV>(v@),
                Err(e) => apply_unary(operator@, right@) == Err::<ValueV, RuntimeErrV>(e@),
            },
    {
        match operator.token_type {
            TokenType::Minus => match right {
                Value::Integer(i) => Ok(
                    Value::Integer(
                        if i == i64::MIN {
                            i64::MIN
                        } else {
                            -i
                        },
                    ),
                ),
                Value::Float(b) => Ok(Value::Float(neg_float(b))),
                _ => Err(RuntimeError::new(operator.clone(), "Invalid operand for unary minus")),
            },
            TokenType::Bang => Ok(Value::Boolean(!right.is_truthy())),
            _ => Err(RuntimeError::new(operator.clone(), "Invalid unary operator")),
        }
    }

    /// Applies a binary operator to two values, exactly as [`apply_binary`]
    /// describes.
    fn apply_binary_op(&self, operator: &Token, left: Value, right: Value) -> (r: Result<
        Value,
        RuntimeError,
    >)
        ensures
            match r {
                Ok(v) => apply_binary(operator@, left@, right@) == Ok::<ValueV, RuntimeErrV>(v@),
                Err(e) => apply_binary(operator@, left@, right@) == Err::<ValueV, RuntimeErrV>(
                    e@,
                ),
            },
    {
        match operator.token_type {
            TokenType::Plus => match (left, right) {
                (Value::Integer(a), Value::Integer(b)) => Ok(Value::Integer(a.wrapping_add(b))),
                (Value::Float(a), Value::Float(b)) => Ok(Value::Float(add_floats(a, b))),
                (Value::String(a), Value::String(b)) => Ok(Value::String(a.concat(b.as_str()))),
                (l, r) => {
                    let mut msg = String::new();
                    msg.append("Invalid operands for addition: ");
                    msg.append(kind_name(&l));
                    msg.append(" - ");
                    msg.append(kind_name(&r));
                    proof {
                        assert(msg@ =~= "Invalid operands for addition: "@ + value_kind_text(l@)
                            + " - "@ + value_kind_text(r@));
                    }
                    Err(RuntimeError::new(operator.clone(), msg.as_str()))
                },
            },
            TokenType::Minus => match (left, right) {
                (Value::Integer(a), Value::Integer(b)) => Ok(Value::Integer(a.wrapping_sub(b))),
                (Value::Float(a), Value::Float(b)) => Ok(Value::Float(sub_floats(a, b))),
                _ => Err(RuntimeError::new(operator.clone(), "Invalid operands for subtraction")),
            },
            TokenType::Star => match (left, right) {
                (Value::Integer(a), Value::Integer(b)) => Ok(Value::Integer(a.wrapping_mul(b))),
                (Value::Float(a), Value::Float(b)) => Ok(Value::Float(mul_floats(a, b))),
                _ => Err(
                    RuntimeError::new(operator.clone(), "Invalid operands for multiplication"),
                ),
            },
            TokenType::Slash => match (left, right) {
                (Value::Integer(a), Value::Integer(b)) => {
                    if b == 0 {
                        Err(RuntimeError::new(operator.clone(), "Division by zero"))
                    } else {
                        let q = match a.checked_div(b) {
                            Some(q) => q,
                            None => i64::MIN,
                        };
                        Ok(Value::Integer(q))
                    }
                },
                (Value::Float(a), Value::Float(b)) => {
                    if eq_floats(b, 0) {
                        Err(RuntimeError::new(operator.clone(), "Division by zero"))
                    } else {
                        Ok(Value::Float(div_floats(a, b)))
                    }
                },
                _ => Err(RuntimeError::new(operator.clone(), "Invalid operands for division")),
            },
            TokenType::Greater => match (left, right) {
                (Value::Integer(a), Value::Integer(b)) => Ok(Value::Boolean(a > b)),
                (Value::Float(a), Value::Float(b)) => Ok(Value::Boolean(gt_floats(a, b))),
                _ => Err(RuntimeError::new(operator.clone(), "Invalid operands for greater than")),
            },
            TokenType::GreaterEqual => match (left, right) {
                (Value::Integer(a), Value::Integer(b)) => Ok(Value::Boolean(a >= b)),
                (Value::Float(a), Value::Float(b)) => Ok(Value::Boolean(ge_floats(a, b))),
                _ => Err(
                    RuntimeError::new(
                        operator.clone(),
                        "Invalid operands for greater than or equal",
                    ),
                ),
            },
            TokenType::Less => match (left, right) {
                (Value::Integer(a), Value::Integer(b)) => Ok(Value::Boolean(a < b)),
                (Value::Float(a), Value::Float(b)) => Ok(Value::Boolean(lt_floats(a, b))),
                _ => Err(RuntimeError::new(operator.clone(), "Invalid operands for less than")),
            },
            TokenType::LessEqual => match (left, right) {
                (Value::Integer(a), Value::Integer(b)) => Ok(Value::Boolean(a <= b)),
                (Value::Float(a), Value::Float(b)) => Ok(Value::Boolean(le_floats(a, b))),
                _ => Err(
                    RuntimeError::new(operator.clone(), "Invalid operands for less than or equal"),
                ),
            },
            TokenType::EqualEqual => match (left, right) {
                (Value::Boolean(a), Value::Boolean(b)) => Ok(Value::Boolean(a == b)),
                (Value::Integer(a), Value::Integer(b)) => Ok(Value::Boolean(a == b)),
                (Value::Float(a), Value::Float(b)) => Ok(Value::Boolean(eq_floats(a, b))),
                (Value::String(a), Value::String(b)) => Ok(Value::Boolean(a == b)),
                _ => Err(RuntimeError::new(operator.clone(), "Invalid operands for equality")),
            },
            TokenType::BangEqual => match (left, right) {
                (Value::Boolean(a), Value::Boolean(b)) => Ok(Value::Boolean(a != b)),
                (Value::Integer(a), Value::Integer(b)) => Ok(Value::Boolean(a != b)),
                (Value::Float(a), Value::Float(b)) => Ok(Value::Boolean(!eq_floats(a, b))),
                (Value::String(a), Value::String(b)) => Ok(Value::Boolean(!(a == b))),
                _ => Err(RuntimeError::new(operator.clone(), "Invalid operands for inequality")),
            },
            _ => Err(RuntimeError::new(operator.clone(), "Invalid binary operator")),
        }
    }

    /// Executes one statement against the environment chain, exactly as
    /// [`exec_stmt`] describes, returning the lines it printed and the
    /// runtime error it raised, if any.
    pub fn execute(&self, environment: &mut Environment, statement: &Statement) -> (r: (
        Vec<String>,
        Option<RuntimeError>,
    ))
        ensures
            ({
                let step = exec_stmt(statement@, old(environment)@);
                &&& final(environment)@ == step.env
                &&& r.0.deep_view() == step.out
                &&& match r.1 {
                    Some(e) => step.err == Some(e@),
                    None => step.err is None,
                }
            }),
    {
        match statement {
            Statement::LetStatement(s) => {
                let initializer = match &s.initializer {
                    Expr::Literal(Literal::Nil) => Ok(Value::Nil),
                    _ => self.evaluate(environment, &s.initializer),
                };
                match initializer {
                    Ok(v) => {
                        environment.define(s.name.lexeme.clone(), v);
                        let out: Vec<String> = Vec::new();
                        proof {
                            assert(out.deep_view() =~= Seq::<Seq<char>>::empty());
                        }
                        (out, None)
                    },
                    Err(e) => {
                        let out: Vec<String> = Vec::new();
                        proof {
                            assert(out.deep_view() =~= Seq::<Seq<char>>::empty());
                        }
                        (out, Some(e))
                    },
                }
            },
            Statement::PrintStatement(s) => {
                match self.evaluate(environment, &s.expression) {
                    Ok(v) => {
                        let mut out: Vec<String> = Vec::new();
                        out.push(self.stringify(v));
                        proof {
                            assert(out.deep_view() =~= seq![
                                str_of_value(
                                    eval_expr(s.expression@, environment@)->Ok_0,
                                ),
                            ]);
                        }
                        (out, None)
                    },
                    Err(e) => {
                        let out: Vec<String> = Vec::new();
                        proof {
                            assert(out.deep_view() =~= Seq::<Seq<char>>::empty());
                        }
                        (out, Some(e))
                    },
                }
            },
            Statement::ExpressionStatement(s) => {
                match self.evaluate(environment, &s.expression) {
                    Ok(v) => {
                        let mut out: Vec<String> = Vec::new();
                        out.push(self.stringify(v));
                        proof {
                            assert(out.deep_view() =~= seq![
                                str_of_value(
                                    eval_expr(s.expression@, environment@)->Ok_0,
                                ),
                            ]);
                        }
                        (out, None)
                    },
                    Err(e) => {
                        let out: Vec<String> = Vec::new();
                        proof {
                            assert(out.deep_view() =~= Seq::<Seq<char>>::empty());
                        }
                        (out, Some(e))
                    },
                }
            },
        }
    }

    /// Runs a parsed statement list against a fresh session environment.
    /// A syntax error, or an error flag already set, executes nothing.
    /// Returns everything printed, and the first runtime error if one
    /// stopped the run.
    #[verifier::rlimit(100)]
    pub fn interpret(&self, ast: Result<Vec<Statement>, ParserError>) -> (r: (
        Vec<String>,
        Result<(), RuntimeError>,
    ))
        ensures
            (self.had_error || ast is Err) ==> r.0.deep_view() == Seq::<Seq<char>>::empty() && r.1
                is Ok,
            (!self.had_error && ast is Ok) ==> ({
                let run = run_stmts(stmts_view(ast->Ok_0@), initial_env());
                &&& r.0.deep_view() == run.out
                &&& match r.1 {
                    Ok(()) => run.err is None,
                    Err(e) => run.err == Some(e@),
                }
            }),
    {
        let mut outputs: Vec<String> = Vec::new();
        proof {
            assert(outputs.deep_view() =~= Seq::<Seq<char>>::empty());
        }
        if self.had_error {
            return (outputs, Ok(()));
        }
        let statements = match ast {
            Ok(statements) => statements,
            Err(_) => {
                return (outputs, Ok(()));
            },
        };
        proof {
            assert(ast == Ok::<Vec<Statement>, ParserError>(statements));
        }
        let mut environment = Environment::new();
        let ghost all = stmts_view(statements@);
        let ghost whole = run_stmts(all, initial_env());
        let n = statements.len();
        let mut i: usize = 0;
        proof {
            assert(all.skip(0) =~= all);
        }
        while i < n
            invariant
                !self.had_error,
                ast == Ok::<Vec<Statement>, ParserError>(statements),
                i <= n,
                n == statements@.len(),
                all == stmts_view(statements@),
                whole == run_stmts(all, initial_env()),
                whole.out == outputs.deep_view() + run_stmts(all.skip(i as int), environment@).out,
                whole.err == run_stmts(all.skip(i as int), environment@).err,
            decreases n - i,
        {
            let ghost env_before = environment@;
            let ghost rest = all.skip(i as int);
            let ghost outputs_before = outputs.deep_view();
            let (out, err) = self.execute(&mut environment, &statements[i]);
            proof {
                assert(rest.len() > 0);
                assert(rest[0] == all[i as int]);
                assert(rest.skip(1) =~= all.skip(i + 1));
            }
            append_all(&mut outputs, out);
            let ghost step = exec_stmt(rest[0], env_before);
            proof {
                lemma_run_stmts_step(rest, env_before);
            }
            match err {
                Some(e) => {
                    proof {
                        assert(step.err == Some(e@));
                        assert(run_stmts(rest, env_before).out == step.out);
                        assert(run_stmts(rest, env_before).err == Some(e@));
                        assert(whole.out =~= outputs.deep_view());
                        assert(whole.out == outputs.deep_view());
                        assert(whole.err == Some(e@));
                        assert(stmts_view(ast->Ok_0@) == all);
                        assert(!(self.had_error || ast is Err));
                    }
                    return (outputs, Err(e));
                },
                None => {},
            }
            i = i + 1;
            proof {
                assert(step.err is None);
                assert(run_stmts(rest, env_before).out == step.out + run_stmts(
                    rest.skip(1),
                    step.env,
                ).out);
                assert(run_stmts(rest, env_before).err == run_stmts(rest.skip(1), step.env).err);
                assert(environment@ == step.env);
                assert(outputs.deep_view() + run_stmts(all.skip(i as int), environment@).out
                    =~= outputs_before + run_stmts(rest, env_before).out);
            }
        }
        proof {
            assert(all.skip(n as int).len() == 0);
            assert(run_stmts(all.skip(n as int), environment@).out == Seq::<Seq<char>>::empty());
            assert(run_stmts(all.skip(n as int), environment@).err is None);
            assert(whole.out =~= outputs.deep_view());
        }
        (outputs, Ok(()))
    }
}

/// One step of [`run_stmts`]: the head statement runs first, and the rest
/// runs only when it raised no error.
pub proof fn lemma_run_stmts_step(ss: Seq<StmtV>, env: EnvV)
    requires
        ss.len() > 0,
    ensures
        ({
            let step = exec_stmt(ss[0], env);
            match step.err {
                Some(err) => run_stmts(ss, env) == RunV { out: step.out, err: Some(err) },
                None => run_stmts(ss, env) == RunV {
                    out: step.out + run_stmts(ss.skip(1), step.env).out,
                    err: run_stmts(ss.skip(1), step.env).err,
                },
            }
        }),
{
}

/// Moves every line of `src` onto the end of `dst`.
fn append_all(dst: &mut Vec<String>, src: Vec<String>)
    ensures
        final(dst).deep_view() == old(dst).deep_view() + src.deep_view(),
{
    let ghost base = dst.deep_view();
    let m = src.len();
    let mut k: usize = 0;
    while k < m
        invariant
            k <= m,
            m == src@.len(),
            dst.deep_view() =~= base + src.deep_view().take(k as int),
        decreases m - k,
    {
        let ghost prev = dst@;
        let ghost prev_deep = dst.deep_view();
        let line = src[k].clone();
        proof {
            assert(line@ == src.deep_view()[k as int]);
        }
        dst.push(line);
        k = k + 1;
        proof {
            assert(dst@ =~= prev.push(line));
            assert(dst.deep_view() =~= prev_deep.push(line@)) by {
                assert forall|j: int| 0 <= j < prev.len() implies #[trigger] dst.deep_view()[j]
                    == prev_deep[j] by {
                    assert(dst@[j] == prev[j]);
                }
                assert(dst.deep_view()[prev.len() as int] == line@);
            }
            assert(prev_deep.push(line@) =~= base + src.deep_view().take(k as int));
        }
    }
    proof {
        assert(src.deep_view().take(m as int) =~= src.deep_view());
    }
}


/// Printing a literal integer outputs exactly its decimal rendering, for
/// every 64-bit integer and every environment chain, raising no error and
/// changing no binding.
pub proof fn law_print_integer_literal(n: i64, env: EnvV)
    ensures
        ({
            let step = exec_stmt(StmtV::Print(ExprV::Lit(LitV::Integer(n))), env);
            &&& step.env == env
            &&& step.out == seq![dec_int(n as int)]
            &&& step.err is None
        }),
{
}


/// Definition then lookup: after a `let` binds a name to a literal's
/// value, reading that name through any token carrying it yields exactly
/// that value, in every environment chain.
pub proof fn law_definition_then_lookup(name: TokenV, ref_tok: TokenV, v: LitV, env: EnvV)
    requires
        env.len() > 0,
        ref_tok.lexeme == name.lexeme,
    ensures
        ({
            let after = exec_stmt(StmtV::Let(name, ExprV::Lit(v)), env).env;
            eval_expr(ExprV::Var(ref_tok), after) == Ok::<ValueV, RuntimeErrV>(lit_value(v))
        }),
{
    let after = exec_stmt(StmtV::Let(name, ExprV::Lit(v)), env).env;
    assert(after[0] == env[0].insert(name.lexeme, lit_value(v)));
    assert(after[0].contains_key(name.lexeme));
}

/// A `let` for a name already bound in the innermost scope overwrites the
/// binding: after defining a name twice from literals, reading it yields
/// the value of the second literal.
pub proof fn law_redefinition(name: TokenV, first: LitV, second: LitV, env: EnvV)
    requires
        env.len() > 0,
    ensures
        ({
            let after_first = exec_stmt(StmtV::Let(name, ExprV::Lit(first)), env).env;
            let after_second = exec_stmt(
                StmtV::Let(name, ExprV::Lit(second)),
                after_first,
            ).env;
            lookup_chain(after_second, name.lexeme) == Some(lit_value(second))
        }),
{
    let after_first = exec_stmt(StmtV::Let(name, ExprV::Lit(first)), env).env;
    let after_second = exec_stmt(StmtV::Let(name, ExprV::Lit(second)), after_first).env;
    assert(after_second[0] == after_first[0].insert(name.lexeme, lit_value(second)));
    assert(after_second[0].contains_key(name.lexeme));
}

/// `+` yields a value exactly when both operands are integers, both are
/// floats, or both are strings; two strings join end to end; any other
/// pairing is an operand-kind mismatch naming both kinds.
pub proof fn law_plus_operands(op: TokenV, l: ValueV, r: ValueV)
    requires
        op.kind == TokenType::Plus,
    ensures
        apply_binary(op, l, r) is Ok <==> ((l is Integer && r is Integer) || (l is Float && r
            is Float) || (l is Str && r is Str)),
        forall|a: Seq<char>, b: Seq<char>|
            l == ValueV::Str(a) && r == ValueV::Str(b) ==> apply_binary(op, l, r) == Ok::<
                ValueV,
                RuntimeErrV,
            >(ValueV::Str(a + b)),
        !((l is Integer && r is Integer) || (l is Float && r is Float) || (l is Str && r
            is Str)) ==> apply_binary(op, l, r) == Err::<ValueV, RuntimeErrV>(
            rt_err(
                op,
                "Invalid operands for addition: "@ + value_kind_text(l) + " - "@
                    + value_kind_text(r),
            ),
        ),
{
}

/// `/` on two integers or two floats whose right operand is the additive
/// identity of its kind raises the division-by-zero runtime error, never
/// an abort; on a nonzero right operand of the matching kind it yields a
/// value.
pub proof fn law_division_by_zero(op: TokenV, l: ValueV, r: ValueV)
    requires
        op.kind == TokenType::Slash,
    ensures
        l is Integer && r == ValueV::Integer(0) ==> apply_binary(op, l, r) == Err::<
            ValueV,
            RuntimeErrV,
        >(rt_err(op, "Division by zero"@)),
        forall|a: u64, b: u64|
            l == ValueV::Float(a) && r == ValueV::Float(b) && float_eq(b, 0) ==> apply_binary(
                op,
                l,
                r,
            ) == Err::<ValueV, RuntimeErrV>(rt_err(op, "Division by zero"@)),
        forall|a: i64, b: i64|
            l == ValueV::Integer(a) && r == ValueV::Integer(b) && b != 0 ==> apply_binary(
                op,
                l,
                r,
            ) is Ok,
{
}

/// Truthiness: only `nil` and `false` are falsy, and `!` yields exactly
/// the negated truthiness of its operand, for every value.
pub proof fn law_truthiness(op: TokenV, v: ValueV)
    requires
        op.kind == TokenType::Bang,
    ensures
        truthy(v) <==> !(v == ValueV::Nil || v == ValueV::Boolean(false)),
        apply_unary(op, v) == Ok::<ValueV, RuntimeErrV>(ValueV::Boolean(!truthy(v))),
{
}

/// The kind of a value, named as in diagnostics.
fn kind_name(v: &Value) -> (r: &'static str)
    ensures
        r@ == value_kind_text(v@),
{
    match v {
        Value::Integer(_) => "Integer",
        Value::Float(_) => "Float",
        Value::String(_) => "String",
        Value::Boolean(_) => "Boolean",
        Value::Nil => "Nil",
    }
}

} // verus!
