//! The expression model: literal values and the expression tree, together
//! with their specification-level views.

use vstd::prelude::*;
use vstd::string::StringExecFns;
use crate::token::{Token, TokenV};
use crate::text::{chars_of, chars_eq_str, is_digit_c, digit_val};
use crate::float::{float_of_text, parse_float};

verus! {

/// Specification-level literal value.
pub enum LitV {
    Str(Seq<char>),
    Integer(i64),
    Float(u64),
    Boolean(bool),
    Nil,
}

/// A literal scalar value. Floating-point values are carried as their IEEE
/// 754 binary64 bit patterns.
#[derive(Debug)]
pub enum Literal {
    String(String),
    Integer(i64),
    Float(u64),
    Boolean(bool),
    Nil,
}

impl View for Literal {
    type V = LitV;

    open spec fn view(&self) -> LitV {
        match self {
            Literal::String(s) => LitV::Str(s@),
            Literal::Integer(i) => LitV::Integer(*i),
            Literal::Float(b) => LitV::Float(*b),
            Literal::Boolean(b) => LitV::Boolean(*b),
            Literal::Nil => LitV::Nil,
        }
    }
}

impl Clone for Literal {
    fn clone(&self) -> (r: Literal)
        ensures
            r == *self,
    {
        match self {
            Literal::String(s) => Literal::String(s.clone()),
            Literal::Integer(i) => Literal::Integer(*i),
            Literal::Float(b) => Literal::Float(*b),
            Literal::Boolean(b) => Literal::Boolean(*b),
            Literal::Nil => Literal::Nil,
        }
    }
}

/// The value of a digit sequence read in base ten.
pub open spec fn digits_val(s: Seq<char>) -> int
    decreases s.len(),
{
    if s.len() == 0 {
        0
    } else {
        digits_val(s.drop_last()) * 10 + digit_val(s.last())
    }
}

/// Whether every character of the sequence is a decimal digit.
pub open spec fn all_digits(s: Seq<char>) -> bool {
    forall|i: int| 0 <= i < s.len() ==> is_digit_c(s[i])
}

/// The digit part of a signed integer literal: the text after an optional
/// leading sign.
pub open spec fn int_text_body(s: Seq<char>) -> Seq<char> {
    if s.len() > 0 && (s[0] == '+' || s[0] == '-') {
        s.subrange(1, s.len() as int)
    } else {
        s
    }
}

/// Whether the text carries a leading minus sign.
pub open spec fn int_text_negative(s: Seq<char>) -> bool {
    s.len() > 0 && s[0] == '-'
}

/// Whether the text is a well-formed signed decimal integer: an optional
/// sign followed by one or more digits.
pub open spec fn is_int_text(s: Seq<char>) -> bool {
    int_text_body(s).len() > 0 && all_digits(int_text_body(s))
}

/// The mathematical value of a well-formed signed decimal integer text.
pub open spec fn int_text_value(s: Seq<char>) -> int {
    if int_text_negative(s) {
        -digits_val(int_text_body(s))
    } else {
        digits_val(int_text_body(s))
    }
}

/// The 64-bit signed integer denoted by the text, if the text is a
/// well-formed signed decimal integer whose value fits.
pub open spec fn parsed_i64(s: Seq<char>) -> Option<i64> {
    if is_int_text(s) && i64::MIN <= int_text_value(s) <= i64::MAX {
        Some(int_text_value(s) as i64)
    } else {
        None
    }
}

/// The value of a digit sequence is never negative.
proof fn lemma_digits_val_nonneg(s: Seq<char>)
    requires
        all_digits(s),
    ensures
        digits_val(s) >= 0,
    decreases s.len(),
{
    if s.len() > 0 {
        assert(all_digits(s.drop_last()));
        lemma_digits_val_nonneg(s.drop_last());
    }
}

/// Reading more digits never decreases the value.
proof fn lemma_digits_val_prefix(s: Seq<char>, k: int)
    requires
        all_digits(s),
        0 <= k <= s.len(),
    ensures
        digits_val(s.take(k)) <= digits_val(s),
    decreases s.len() - k,
{
    if k < s.len() {
        lemma_digits_val_prefix(s, k + 1);
        assert(s.take(k + 1).drop_last() =~= s.take(k));
        assert(all_digits(s.take(k + 1)));
        lemma_digits_val_nonneg(s.take(k));
        assert(digits_val(s.take(k + 1)) == digits_val(s.take(k)) * 10 + digit_val(
            s.take(k + 1).last(),
        ));
        assert(digits_val(s.take(k)) * 10 >= digits_val(s.take(k))) by (nonlinear_arith)
            requires
                digits_val(s.take(k)) >= 0,
        ;
    } else {
        assert(s.take(k) =~= s);
    }
}

/// Parses a signed decimal 64-bit integer from text, exactly as
/// [`parsed_i64`] describes.
pub fn parse_i64(s: &str) -> (r: Option<i64>)
    ensures
        r == parsed_i64(s@),
{
    let cs = chars_of(s);
    let n = cs.len();
    let mut start: usize = 0;
    let mut negative = false;
    if n > 0 && (cs[0] == '+' || cs[0] == '-') {
        negative = cs[0] == '-';
        start = 1;
    }
    proof {
        assert(int_text_body(s@) =~= cs@.subrange(start as int, n as int));
        assert(int_text_negative(s@) == negative);
    }
    if start >= n {
        return None;
    }
    let ghost body = int_text_body(s@);
    let bound: u64 = if negative {
        9223372036854775808u64
    } else {
        9223372036854775807u64
    };
    let mut mag: u64 = 0;
    let mut i: usize = start;
    while i < n
        invariant
            start <= i <= n,
            start < n,
            start <= 1,
            n == cs@.len(),
            cs@ == s@,
            body == int_text_body(s@),
            body =~= cs@.subrange(start as int, n as int),
            negative == int_text_negative(s@),
            bound == if negative {
                9223372036854775808u64
            } else {
                9223372036854775807u64
            },
            forall|j: int| start <= j < i ==> is_digit_c(cs@[j]),
            mag == digits_val(body.take(i - start)),
            mag <= bound,
        decreases n - i,
    {
        let c = cs[i];
        let u = c as u32;
        if !(48 <= u && u <= 57) {
            proof {
                assert(!is_digit_c(body[i - start]));
            }
            return None;
        }
        let d: u64 = (u - 48) as u64;
        proof {
            assert(body.take(i + 1 - start).drop_last() =~= body.take(i - start));
            assert(body.take(i + 1 - start).last() == c);
        }
        let next = match mag.checked_mul(10) {
            Some(m) => m.checked_add(d),
            None => None,
        };
        match next {
            Some(m) if m <= bound => {
                mag = m;
            },
            _ => {
                proof {
                    let k = i + 1 - start;
                    assert(digits_val(body.take(k)) == mag * 10 + d);
                    assert(digits_val(body.take(k)) > bound);
                    if all_digits(body) {
                        lemma_digits_val_prefix(body, k);
                        assert(digits_val(body) > bound);
                    }
                }
                return None;
            },
        }
        i = i + 1;
    }
    proof {
        assert(body.take(n - start) =~= body);
        assert(all_digits(body));
        assert(digits_val(body) == mag);
    }
    if negative {
        if mag == 9223372036854775808u64 {
            Some(i64::MIN)
        } else {
            Some(-(mag as i64))
        }
    } else {
        Some(mag as i64)
    }
}

/// The literal denoted by a piece of raw text: first a signed 64-bit
/// integer parse, then a floating-point parse, then an exact match against
/// `true`, `false` and `nil`, else a plain string.
pub open spec fn lit_v_of_text(s: Seq<char>) -> LitV {
    match parsed_i64(s) {
        Some(i) => LitV::Integer(i),
        None => match float_of_text(s) {
            Some(b) => LitV::Float(b),
            None => if s == "true"@ {
                LitV::Boolean(true)
            } else if s == "false"@ {
                LitV::Boolean(false)
            } else if s == "nil"@ {
                LitV::Nil
            } else {
                LitV::Str(s)
            },
        },
    }
}

impl Literal {
    /// Builds the literal a piece of raw lexeme text denotes, by the
    /// cascade [`lit_v_of_text`] describes.
    pub fn new(value: &str) -> (r: Literal)
        ensures
            r@ == lit_v_of_text(value@),
    {
        match parse_i64(value) {
            Some(i) => Literal::Integer(i),
            None => match parse_float(value) {
                Some(b) => Literal::Float(b),
                None => {
                    let cs = chars_of(value);
                    if chars_eq_str(&cs, "true") {
                        Literal::Boolean(true)
                    } else if chars_eq_str(&cs, "false") {
                        Literal::Boolean(false)
                    } else if chars_eq_str(&cs, "nil") {
                        Literal::Nil
                    } else {
                        Literal::String(String::from_str(value))
                    }
                },
            },
        }
    }
}

/// A wrapper holding a single literal value of any type.
pub struct LiteralExpr<T> {
    value: T,
}

impl<T> LiteralExpr<T> {
    /// Wraps a value.
    pub fn new(value: T) -> LiteralExpr<T> {
        LiteralExpr { value }
    }
}

/// Specification-level expression tree.
pub enum ExprV {
    Binary(Box<ExprV>, TokenV, Box<ExprV>),
    Grouping(Box<ExprV>),
    Unary(TokenV, Box<ExprV>),
    Lit(LitV),
    Var(TokenV),
}

/// An expression: a literal, a variable reference, a grouping, or the
/// application of a unary or binary operator.
#[derive(Debug)]
pub enum Expr {
    BinaryExpr(Box<BinaryExpr>),
    GroupingExpr(Box<GroupingExpr>),
    UnaryExpr(Box<UnaryExpr>),
    Literal(Literal),
    VarDeclaration(Token),
}

/// A binary operator application: left operand, operator token, right
/// operand.
#[derive(Debug)]
pub struct BinaryExpr {
    pub left: Expr,
    pub operator: Token,
    pub right: Expr,
}

/// A prefix operator application: operator token and operand.
#[derive(Debug)]
pub struct UnaryExpr {
    pub operator: Token,
    pub right: Expr,
}

/// A parenthesized expression.
#[derive(Debug)]
pub struct GroupingExpr {
    pub expr: Expr,
}

impl View for Expr {
    type V = ExprV;

    open spec fn view(&self) -> ExprV
        decreases self,
    {
        match self {
            Expr::BinaryExpr(b) => ExprV::Binary(
                Box::new(b.left@),
                b.operator@,
                Box::new(b.right@),
            ),
            Expr::GroupingExpr(g) => ExprV::Grouping(Box::new(g.expr@)),
            Expr::UnaryExpr(u) => ExprV::Unary(u.operator@, Box::new(u.right@)),
            Expr::Literal(l) => ExprV::Lit(l@),
            Expr::VarDeclaration(t) => ExprV::Var(t@),
        }
    }
}

impl Clone for Expr {
    fn clone(&self) -> (r: Expr)
        ensures
            r == *self,
        decreases self,
    {
        match self {
            Expr::BinaryExpr(b) => Expr::BinaryExpr(
                Box::new(
                    BinaryExpr {
                        left: b.left.clone(),
                        operator: b.operator.clone(),
                        right: b.right.clone(),
                    },
                ),
            ),
            Expr::GroupingExpr(g) => Expr::GroupingExpr(
                Box::new(GroupingExpr { expr: g.expr.clone() }),
            ),
            Expr::UnaryExpr(u) => Expr::UnaryExpr(
                Box::new(UnaryExpr { operator: u.operator.clone(), right: u.right.clone() }),
            ),
            Expr::Literal(l) => Expr::Literal(l.clone()),
            Expr::VarDeclaration(t) => Expr::VarDeclaration(t.clone()),
        }
    }
}

impl BinaryExpr {
    /// Builds a binary node from its three parts.
    pub fn new(left: Expr, operator: Token, right: Expr) -> (r: BinaryExpr)
        ensures
            r.left == left,
            r.operator == operator,
            r.right == right,
    {
        BinaryExpr { left, operator, right }
    }

    /// The left operand.
    pub fn get_left(&self) -> (r: Expr)
        ensures
            r == self.left,
    {
        self.left.clone()
    }

    /// The operator token.
    pub fn get_operator(&self) -> (r: &Token)
        ensures
            r == self.operator,
    {
        &self.operator
    }

    /// The right operand.
    pub fn get_right(&self) -> (r: Expr)
        ensures
            r == self.right,
    {
        self.right.clone()
    }
}

impl UnaryExpr {
    /// Builds a unary node from its two parts.
    pub fn new(operator: Token, right: Expr) -> (r: UnaryExpr)
        ensures
            r.operator == operator,
            r.right == right,
    {
        UnaryExpr { operator, right }
    }

    /// The operator token.
    pub fn get_operator(&self) -> (r: &Token)
        ensures
            r == self.operator,
    {
        &self.operator
    }

    /// The operand.
    pub fn get_right(&self) -> (r: &Expr)
        ensures
            r == self.right,
    {
        &self.right
    }
}

impl GroupingExpr {
    /// Wraps an expression in a grouping node.
    pub fn new(expr: Expr) -> (r: GroupingExpr)
        ensures
            r.expr == expr,
    {
        GroupingExpr { expr }
    }
}

} // verus!
