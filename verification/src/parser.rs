//! The recursive-descent parser: one token of lookahead, precedence encoded
//! by call nesting, left-associative binary levels, and fail-fast error
//! reporting. Parsing is specified by a recursive function over token
//! views; each method's contract ties it to that function exactly.
//!
//! Error policy: parsing is fail-fast. The first failed expectation stops
//! the current unit and is returned as a syntax error carrying the
//! offending token; `synchronize` then discards tokens up to the next
//! statement boundary.

use vstd::prelude::*;
use crate::ast::{lit_v_of_text, BinaryExpr, Expr, ExprV, GroupingExpr, LitV, Literal, UnaryExpr};
use crate::errors::{throw_error, ParserError, ParserErrV};
use crate::syntax::{ExpressionStatement, LetStatement, PrintStatement, Statement, StmtV};
use crate::token::{Token, TokenType, TokenV};

verus! {

/// Whether a token kind begins a new statement, for error recovery.
pub open spec fn is_boundary_kind(k: TokenType) -> bool {
    ||| k == TokenType::Class
    ||| k == TokenType::Func
    ||| k == TokenType::Let
    ||| k == TokenType::For
    ||| k == TokenType::If
    ||| k == TokenType::While
    ||| k == TokenType::Print
    ||| k == TokenType::Return
}

/// The position where error recovery stops, scanning from `pos`: the first
/// position at end-of-input, just after a semicolon, or at a token that
/// begins a new statement.
pub open spec fn sync_from(toks: Seq<TokenV>, pos: int) -> int
    decreases toks.len() - pos,
{
    if pos >= toks.len() || pos < 1 {
        pos
    } else if toks[pos].kind == TokenType::Eof {
        pos
    } else if toks[pos - 1].kind == TokenType::Semicolon {
        pos
    } else if is_boundary_kind(toks[pos].kind) {
        pos
    } else {
        sync_from(toks, pos + 1)
    }
}

/// Consumes the token sequence via recursive descent with one token of
/// lookahead.
pub struct Parser {
    pub tokens: Vec<Token>,
    pub current: usize,
}

impl Parser {
    /// Whether the token list ends with an end-of-input token and the
    /// cursor still stands on a token.
    pub open spec fn wf(&self) -> bool {
        &&& self.tokens@.len() > 0
        &&& self.tokens@[self.tokens@.len() - 1].token_type == TokenType::Eof
        &&& self.current < self.tokens@.len()
    }

    /// Starts a parse at the beginning of a token list.
    pub fn new(tokens: Vec<Token>) -> (r: Parser)
        ensures
            r.tokens == tokens,
            r.current == 0,
    {
        Parser { tokens, current: 0 }
    }

    /// The token under the cursor.
    fn peek(&self) -> (r: Token)
        requires
            self.wf(),
        ensures
            r == self.tokens@[self.current as int],
    {
        self.tokens[self.current].clone()
    }

    /// The token just before the cursor.
    fn previous(&self) -> (r: Token)
        requires
            self.wf(),
            self.current >= 1,
        ensures
            r == self.tokens@[self.current - 1],
    {
        self.tokens[self.current - 1].clone()
    }

    /// Whether the cursor stands on the end-of-input token.
    fn is_at_end(&self) -> (r: bool)
        requires
            self.wf(),
        ensures
            r == (self.tokens@[self.current as int].token_type == TokenType::Eof),
    {
        self.peek().token_type == TokenType::Eof
    }

    /// Whether the cursor stands on a token of the given kind; always
    /// false at end-of-input.
    fn check(&self, token: TokenType) -> (r: bool)
        requires
            self.wf(),
        ensures
            r == (self.tokens@[self.current as int].token_type != TokenType::Eof
                && self.tokens@[self.current as int].token_type == token),
    {
        if self.is_at_end() {
            return false;
        }
        self.peek().token_type == token
    }

    /// Moves the cursor past the current token, unless it is end-of-input,
    /// and returns the token just before the new cursor.
    fn advance(&mut self) -> (r: Token)
        requires
            old(self).wf(),
            old(self).tokens@[old(self).current as int].token_type == TokenType::Eof ==> old(
                self,
            ).current >= 1,
        ensures
            final(self).wf(),
            final(self).tokens == old(self).tokens,
            final(self).current == if old(self).tokens@[old(self).current as int].token_type
                != TokenType::Eof {
                old(self).current + 1
            } else {
                old(self).current as int
            },
            r == final(self).tokens@[final(self).current - 1],
    {
        if !self.is_at_end() {
            let n = self.tokens.len();
            proof {
                assert(self.tokens@[self.current as int].token_type != TokenType::Eof);
                assert(self.current < n - 1);
            }
            self.current = self.current + 1;
        }
        self.previous()
    }

    /// If the cursor stands on one of the given kinds, consumes it and
    /// returns true; otherwise leaves everything unchanged.
    fn match_tokens(&mut self, types: &[TokenType]) -> (r: bool)
        requires
            old(self).wf(),
        ensures
            final(self).wf(),
            final(self).tokens == old(self).tokens,
            r == (old(self).tokens@[old(self).current as int].token_type != TokenType::Eof
                && types@.contains(old(self).tokens@[old(self).current as int].token_type)),
            r ==> final(self).current == old(self).current + 1,
            !r ==> final(self).current == old(self).current,
    {
        let n = types.len();
        let mut i: usize = 0;
        while i < n
            invariant
                i <= n,
                n == types@.len(),
                self == old(self),
                self.wf(),
                forall|j: int|
                    0 <= j < i ==> !(self.tokens@[self.current as int].token_type != TokenType::Eof
                        && types@[j] == self.tokens@[self.current as int].token_type),
            decreases n - i,
        {
            if self.check(types[i]) {
                self.advance();
                return true;
            }
            i = i + 1;
        }
        false
    }

    /// Consumes a token of the expected kind, or builds the syntax error
    /// carrying the offending token and the message.
    fn consume(&mut self, token: TokenType, message: &str) -> (r: Result<Token, ParserError>)
        requires
            old(self).wf(),
        ensures
            final(self).wf(),
            final(self).tokens == old(self).tokens,
            match r {
                Ok(t) => {
                    &&& old(self).tokens@[old(self).current as int].token_type != TokenType::Eof
                    &&& old(self).tokens@[old(self).current as int].token_type == token
                    &&& t == old(self).tokens@[old(self).current as int]
                    &&& final(self).current == old(self).current + 1
                },
                Err(e) => {
                    &&& !(old(self).tokens@[old(self).current as int].token_type != TokenType::Eof
                        && old(self).tokens@[old(self).current as int].token_type == token)
                    &&& final(self).current == old(self).current
                    &&& e@.tokens =~= seq![old(self).tokens@[old(self).current as int]@]
                    &&& e@.message == message@
                },
            },
    {
        if self.check(token) {
            Ok(self.advance())
        } else {
            Err(throw_error(self.peek(), message))
        }
    }

    /// Discards tokens until the next statement boundary: a consumed
    /// semicolon, a token that begins a new statement, or end-of-input.
    fn synchronize(&mut self)
        requires
            old(self).wf(),
            old(self).tokens@[old(self).current as int].token_type == TokenType::Eof ==> old(
                self,
            ).current >= 1,
        ensures
            final(self).wf(),
            final(self).tokens == old(self).tokens,
            final(self).current == sync_from(
                final(self).tokens.deep_view(),
                if old(self).tokens@[old(self).current as int].token_type != TokenType::Eof {
                    old(self).current + 1
                } else {
                    old(self).current as int
                },
            ),
    {
        let ghost toks = self.tokens.deep_view();
        self.advance();
        while !(self.peek().token_type == TokenType::Eof) && !(self.previous().token_type
            == TokenType::Semicolon) && !(Parser::is_boundary(self.peek().token_type))
            invariant
                self.wf(),
                self.current >= 1,
                self.tokens == old(self).tokens,
                toks == self.tokens.deep_view(),
                sync_from(toks, self.current as int) == sync_from(
                    toks,
                    if old(self).tokens@[old(self).current as int].token_type != TokenType::Eof {
                        old(self).current + 1
                    } else {
                        old(self).current as int
                    },
                ),
            decreases toks.len() - self.current,
        {
            proof {
                assert(toks[self.current as int].kind == self.tokens@[
                    self.current as int
                ].token_type);
            }
            self.advance();
        }
    }

    /// Whether a token kind begins a new statement.
    fn is_boundary(k: TokenType) -> (r: bool)
        ensures
            r == is_boundary_kind(k),
    {
        match k {
            TokenType::Class => true,
            TokenType::Func => true,
            TokenType::Let => true,
            TokenType::For => true,
            TokenType::If => true,
            TokenType::While => true,
            TokenType::Print => true,
            TokenType::Return => true,
            _ => false,
        }
    }
}


/// A successfully parsed expression: the tree and the position just past
/// it.
pub struct ParsedExpr {
    pub expr: ExprV,
    pub next: int,
}

/// A successfully parsed statement: the statement and the position just
/// past it.
pub struct ParsedStmt {
    pub stmt: StmtV,
    pub next: int,
}

/// The kind of the token at a position.
pub open spec fn kind_at(toks: Seq<TokenV>, pos: int) -> TokenType {
    toks[pos].kind
}

/// Whether the token at a position has the given kind; never true of the
/// end-of-input token or out of range.
pub open spec fn at_kind(toks: Seq<TokenV>, pos: int, k: TokenType) -> bool {
    &&& 0 <= pos < toks.len()
    &&& kind_at(toks, pos) != TokenType::Eof
    &&& kind_at(toks, pos) == k
}

/// How many tokens remain at a position; zero when the position is out of
/// range.
pub open spec fn rem(toks: Seq<TokenV>, pos: int) -> int {
    if pos <= 0 {
        toks.len() as int
    } else if pos >= toks.len() {
        0
    } else {
        toks.len() - pos
    }
}

/// A syntax error carrying one offending token.
pub open spec fn perr(t: TokenV, m: Seq<char>) -> ParserErrV {
    ParserErrV { tokens: seq![t], message: m }
}

/// The literal a literal token denotes: a string token carries its
/// literal text; a number token goes through the text cascade.
pub open spec fn lit_of_tokenv(t: TokenV) -> LitV {
    if t.kind == TokenType::String {
        LitV::Str(t.literal)
    } else {
        lit_v_of_text(t.lexeme)
    }
}

/// The position `p`, held to at least `lo` and at most the end of the
/// token list; parsing always advances and stays in range, so in every
/// reachable case this is `p` itself.
pub open spec fn bump(toks: Seq<TokenV>, p: int, lo: int) -> int {
    let q = if p > lo {
        p
    } else {
        lo
    };
    if q > toks.len() {
        toks.len() as int
    } else {
        q
    }
}

/// Parses a primary expression: a literal, an identifier, or a
/// parenthesized expression, which must be closed.
pub open spec fn sp_primary(toks: Seq<TokenV>, pos: int) -> Result<ParsedExpr, ParserErrV>
    decreases rem(toks, pos), 0int,
{
    if at_kind(toks, pos, TokenType::False) {
        Ok(ParsedExpr { expr: ExprV::Lit(LitV::Boolean(false)), next: pos + 1 })
    } else if at_kind(toks, pos, TokenType::True) {
        Ok(ParsedExpr { expr: ExprV::Lit(LitV::Boolean(true)), next: pos + 1 })
    } else if at_kind(toks, pos, TokenType::Nil) {
        Ok(ParsedExpr { expr: ExprV::Lit(LitV::Nil), next: pos + 1 })
    } else if at_kind(toks, pos, TokenType::Integer) || at_kind(toks, pos, TokenType::Float)
        || at_kind(toks, pos, TokenType::String) {
        Ok(ParsedExpr { expr: ExprV::Lit(lit_of_tokenv(toks[pos])), next: pos + 1 })
    } else if at_kind(toks, pos, TokenType::Identifier) {
        Ok(ParsedExpr { expr: ExprV::Var(toks[pos]), next: pos + 1 })
    } else if at_kind(toks, pos, TokenType::LeftParen) {
        match sp_expression(toks, pos + 1) {
            Err(e) => Err(e),
            Ok(inner) => if at_kind(toks, inner.next, TokenType::RightParen) {
                Ok(
                    ParsedExpr {
                        expr: ExprV::Grouping(Box::new(inner.expr)),
                        next: inner.next + 1,
                    },
                )
            } else {
                Err(perr(toks[inner.next], "Expected ')' after expression."@))
            },
        }
    } else {
        Err(perr(toks[pos], "Expected expression"@))
    }
}

/// Parses a unary expression: `!` and prefix `-` apply right-associatively.
pub open spec fn sp_unary(toks: Seq<TokenV>, pos: int) -> Result<ParsedExpr, ParserErrV>
    decreases rem(toks, pos), 1int,
{
    if at_kind(toks, pos, TokenType::Bang) || at_kind(toks, pos, TokenType::Minus) {
        match sp_unary(toks, pos + 1) {
            Err(e) => Err(e),
            Ok(r) => Ok(
                ParsedExpr { expr: ExprV::Unary(toks[pos], Box::new(r.expr)), next: r.next },
            ),
        }
    } else {
        sp_primary(toks, pos)
    }
}

/// Folds further `*` and `/` applications onto a parsed left operand.
pub open spec fn sp_factor_more(toks: Seq<TokenV>, pos: int, acc: ExprV) -> Result<
    ParsedExpr,
    ParserErrV,
>
    decreases rem(toks, pos), 2int,
{
    if at_kind(toks, pos, TokenType::Slash) || at_kind(toks, pos, TokenType::Star) {
        match sp_unary(toks, pos + 1) {
            Err(e) => Err(e),
            Ok(r) => sp_factor_more(
                toks,
                bump(toks, r.next, pos + 1),
                ExprV::Binary(Box::new(acc), toks[pos], Box::new(r.expr)),
            ),
        }
    } else {
        Ok(ParsedExpr { expr: acc, next: pos })
    }
}

/// Parses a factor: unary operands folded left-associatively under `*`
/// and `/`.
pub open spec fn sp_factor(toks: Seq<TokenV>, pos: int) -> Result<ParsedExpr, ParserErrV>
    decreases rem(toks, pos), 3int,
{
    match sp_unary(toks, pos) {
        Err(e) => Err(e),
        Ok(f) => sp_factor_more(toks, bump(toks, f.next, pos), f.expr),
    }
}

/// Folds further `+` and `-` applications onto a parsed left operand.
pub open spec fn sp_term_more(toks: Seq<TokenV>, pos: int, acc: ExprV) -> Result<
    ParsedExpr,
    ParserErrV,
>
    decreases rem(toks, pos), 4int,
{
    if at_kind(toks, pos, TokenType::Minus) || at_kind(toks, pos, TokenType::Plus) {
        match sp_factor(toks, pos + 1) {
            Err(e) => Err(e),
            Ok(r) => sp_term_more(
                toks,
                bump(toks, r.next, pos + 1),
                ExprV::Binary(Box::new(acc), toks[pos], Box::new(r.expr)),
            ),
        }
    } else {
        Ok(ParsedExpr { expr: acc, next: pos })
    }
}

/// Parses a term: factors folded left-associatively under `+` and `-`.
pub open spec fn sp_term(toks: Seq<TokenV>, pos: int) -> Result<ParsedExpr, ParserErrV>
    decreases rem(toks, pos), 5int,
{
    match sp_factor(toks, pos) {
        Err(e) => Err(e),
        Ok(f) => sp_term_more(toks, bump(toks, f.next, pos), f.expr),
    }
}

/// Folds further comparison applications onto a parsed left operand.
pub open spec fn sp_comparison_more(toks: Seq<TokenV>, pos: int, acc: ExprV) -> Result<
    ParsedExpr,
    ParserErrV,
>
    decreases rem(toks, pos), 6int,
{
    if at_kind(toks, pos, TokenType::Greater) || at_kind(toks, pos, TokenType::GreaterEqual)
        || at_kind(toks, pos, TokenType::Less) || at_kind(toks, pos, TokenType::LessEqual) {
        match sp_term(toks, pos + 1) {
            Err(e) => Err(e),
            Ok(r) => sp_comparison_more(
                toks,
                bump(toks, r.next, pos + 1),
                ExprV::Binary(Box::new(acc), toks[pos], Box::new(r.expr)),
            ),
        }
    } else {
        Ok(ParsedExpr { expr: acc, next: pos })
    }
}

/// Parses a comparison: terms folded left-associatively under `<`, `<=`,
/// `>` and `>=`.
pub open spec fn sp_comparison(toks: Seq<TokenV>, pos: int) -> Result<ParsedExpr, ParserErrV>
    decreases rem(toks, pos), 7int,
{
    match sp_term(toks, pos) {
        Err(e) => Err(e),
        Ok(f) => sp_comparison_more(toks, bump(toks, f.next, pos), f.expr),
    }
}

/// Folds further `==` and `!=` applications onto a parsed left operand.
pub open spec fn sp_equality_more(toks: Seq<TokenV>, pos: int, acc: ExprV) -> Result<
    ParsedExpr,
    ParserErrV,
>
    decreases rem(toks, pos), 8int,
{
    if at_kind(toks, pos, TokenType::BangEqual) || at_kind(toks, pos, TokenType::EqualEqual) {
        match sp_comparison(toks, pos + 1) {
            Err(e) => Err(e),
            Ok(r) => sp_equality_more(
                toks,
                bump(toks, r.next, pos + 1),
                ExprV::Binary(Box::new(acc), toks[pos], Box::new(r.expr)),
            ),
        }
    } else {
        Ok(ParsedExpr { expr: acc, next: pos })
    }
}

/// Parses an equality: comparisons folded left-associatively under `==`
/// and `!=`.
pub open spec fn sp_equality(toks: Seq<TokenV>, pos: int) -> Result<ParsedExpr, ParserErrV>
    decreases rem(toks, pos), 9int,
{
    match sp_comparison(toks, pos) {
        Err(e) => Err(e),
        Ok(f) => sp_equality_more(toks, bump(toks, f.next, pos), f.expr),
    }
}

/// Parses an expression: the lowest precedence level is equality.
pub open spec fn sp_expression(toks: Seq<TokenV>, pos: int) -> Result<ParsedExpr, ParserErrV>
    decreases rem(toks, pos), 10int,
{
    sp_equality(toks, pos)
}

/// Parses a `let` declaration after its keyword: a required identifier,
/// an optional `=` initializer defaulting to the `nil` literal, and a
/// required semicolon, whose absence is reported at the previous token.
pub open spec fn sp_let_declaration(toks: Seq<TokenV>, pos: int) -> Result<
    ParsedStmt,
    ParserErrV,
> {
    if at_kind(toks, pos, TokenType::Identifier) {
        let name = toks[pos];
        if at_kind(toks, pos + 1, TokenType::Equal) {
            match sp_expression(toks, pos + 2) {
                Err(e) => Err(e),
                Ok(v) => if at_kind(toks, v.next, TokenType::Semicolon) {
                    Ok(ParsedStmt { stmt: StmtV::Let(name, v.expr), next: v.next + 1 })
                } else {
                    Err(perr(toks[v.next - 1], "Expect ';' after variable declaration."@))
                },
            }
        } else {
            if at_kind(toks, pos + 1, TokenType::Semicolon) {
                Ok(
                    ParsedStmt {
                        stmt: StmtV::Let(name, ExprV::Lit(LitV::Nil)),
                        next: pos + 2,
                    },
                )
            } else {
                Err(perr(toks[pos], "Expect ';' after variable declaration."@))
            }
        }
    } else {
        Err(perr(toks[pos], "Expect variable name."@))
    }
}

/// Parses a `print` statement after its keyword: an expression and a
/// required semicolon, whose absence is reported at the current token.
pub open spec fn sp_print_statement(toks: Seq<TokenV>, pos: int) -> Result<
    ParsedStmt,
    ParserErrV,
> {
    match sp_expression(toks, pos) {
        Err(e) => Err(e),
        Ok(v) => if at_kind(toks, v.next, TokenType::Semicolon) {
            Ok(ParsedStmt { stmt: StmtV::Print(v.expr), next: v.next + 1 })
        } else {
            Err(perr(toks[v.next], "Expect ';' after value."@))
        },
    }
}

/// Parses a bare expression statement: an expression and a required
/// semicolon, whose absence is reported at the current token.
pub open spec fn sp_expr_statement(toks: Seq<TokenV>, pos: int) -> Result<
    ParsedStmt,
    ParserErrV,
> {
    match sp_expression(toks, pos) {
        Err(e) => Err(e),
        Ok(v) => if at_kind(toks, v.next, TokenType::Semicolon) {
            Ok(ParsedStmt { stmt: StmtV::Expression(v.expr), next: v.next + 1 })
        } else {
            Err(perr(toks[v.next], "Expect ';' after expression."@))
        },
    }
}

/// Parses one declaration: a `let` declaration, a `print` statement, or a
/// bare expression statement.
pub open spec fn sp_declaration(toks: Seq<TokenV>, pos: int) -> Result<ParsedStmt, ParserErrV> {
    if at_kind(toks, pos, TokenType::Let) {
        sp_let_declaration(toks, pos + 1)
    } else if at_kind(toks, pos, TokenType::Print) {
        sp_print_statement(toks, pos + 1)
    } else {
        sp_expr_statement(toks, pos)
    }
}

/// Parses declarations until end-of-input. Parsing is fail-fast: the
/// first syntax error is the result, and nothing parsed before it is
/// kept.
pub open spec fn sp_parse(toks: Seq<TokenV>, pos: int) -> Result<Seq<StmtV>, ParserErrV>
    decreases rem(toks, pos),
{
    if !(0 <= pos < toks.len()) || kind_at(toks, pos) == TokenType::Eof {
        Ok(Seq::empty())
    } else {
        match sp_declaration(toks, pos) {
            Err(e) => Err(e),
            Ok(d) => match sp_parse(toks, bump(toks, d.next, pos + 1)) {
                Err(e) => Err(e),
                Ok(rest) => Ok(seq![d.stmt] + rest),
            },
        }
    }
}




/// Unfolds one folding step of [`sp_equality_more`] at an operator token.
proof fn lemma_sp_equality_more_step(toks: Seq<TokenV>, pos: int, acc: ExprV)
    requires
        at_kind(toks, pos, TokenType::BangEqual) || at_kind(toks, pos, TokenType::EqualEqual),
    ensures
        sp_equality_more(toks, pos, acc) == (match sp_comparison(toks, pos + 1) {
            Err(e) => Err::<ParsedExpr, ParserErrV>(e),
            Ok(r) => sp_equality_more(
                toks,
                bump(toks, r.next, pos + 1),
                ExprV::Binary(Box::new(acc), toks[pos], Box::new(r.expr)),
            ),
        }),
{
}

/// At a token that is no operator of this level, [`sp_equality_more`] stops.
proof fn lemma_sp_equality_more_done(toks: Seq<TokenV>, pos: int, acc: ExprV)
    requires
        !(at_kind(toks, pos, TokenType::BangEqual) || at_kind(toks, pos, TokenType::EqualEqual)),
    ensures
        sp_equality_more(toks, pos, acc) == Ok::<ParsedExpr, ParserErrV>(
            ParsedExpr { expr: acc, next: pos },
        ),
{
}

/// Unfolds one folding step of [`sp_comparison_more`] at an operator token.
proof fn lemma_sp_comparison_more_step(toks: Seq<TokenV>, pos: int, acc: ExprV)
    requires
        at_kind(toks, pos, TokenType::Greater) || at_kind(toks, pos, TokenType::GreaterEqual)
            || at_kind(toks, pos, TokenType::Less) || at_kind(toks, pos, TokenType::LessEqual),
    ensures
        sp_comparison_more(toks, pos, acc) == (match sp_term(toks, pos + 1) {
            Err(e) => Err::<ParsedExpr, ParserErrV>(e),
            Ok(r) => sp_comparison_more(
                toks,
                bump(toks, r.next, pos + 1),
                ExprV::Binary(Box::new(acc), toks[pos], Box::new(r.expr)),
            ),
        }),
{
}

/// At a token that is no operator of this level, [`sp_comparison_more`] stops.
proof fn lemma_sp_comparison_more_done(toks: Seq<TokenV>, pos: int, acc: ExprV)
    requires
        !(at_kind(toks, pos, TokenType::Greater) || at_kind(toks, pos, TokenType::GreaterEqual)
            || at_kind(toks, pos, TokenType::Less) || at_kind(toks, pos, TokenType::LessEqual)),
    ensures
        sp_comparison_more(toks, pos, acc) == Ok::<ParsedExpr, ParserErrV>(
            ParsedExpr { expr: acc, next: pos },
        ),
{
}

/// Unfolds one folding step of [`sp_term_more`] at an operator token.
proof fn lemma_sp_term_more_step(toks: Seq<TokenV>, pos: int, acc: ExprV)
    requires
        at_kind(toks, pos, TokenType::Minus) || at_kind(toks, pos, TokenType::Plus),
    ensures
        sp_term_more(toks, pos, acc) == (match sp_factor(toks, pos + 1) {
            Err(e) => Err::<ParsedExpr, ParserErrV>(e),
            Ok(r) => sp_term_more(
                toks,
                bump(toks, r.next, pos + 1),
                ExprV::Binary(Box::new(acc), toks[pos], Box::new(r.expr)),
            ),
        }),
{
}

/// At a token that is no operator of this level, [`sp_term_more`] stops.
proof fn lemma_sp_term_more_done(toks: Seq<TokenV>, pos: int, acc: ExprV)
    requires
        !(at_kind(toks, pos, TokenType::Minus) || at_kind(toks, pos, TokenType::Plus)),
    ensures
        sp_term_more(toks, pos, acc) == Ok::<ParsedExpr, ParserErrV>(
            ParsedExpr { expr: acc, next: pos },
        ),
{
}

/// Unfolds one folding step of [`sp_factor_more`] at an operator token.
proof fn lemma_sp_factor_more_step(toks: Seq<TokenV>, pos: int, acc: ExprV)
    requires
        at_kind(toks, pos, TokenType::Slash) || at_kind(toks, pos, TokenType::Star),
    ensures
        sp_factor_more(toks, pos, acc) == (match sp_unary(toks, pos + 1) {
            Err(e) => Err::<ParsedExpr, ParserErrV>(e),
            Ok(r) => sp_factor_more(
                toks,
                bump(toks, r.next, pos + 1),
                ExprV::Binary(Box::new(acc), toks[pos], Box::new(r.expr)),
            ),
        }),
{
}

/// At a token that is no operator of this level, [`sp_factor_more`] stops.
proof fn lemma_sp_factor_more_done(toks: Seq<TokenV>, pos: int, acc: ExprV)
    requires
        !(at_kind(toks, pos, TokenType::Slash) || at_kind(toks, pos, TokenType::Star)),
    ensures
        sp_factor_more(toks, pos, acc) == Ok::<ParsedExpr, ParserErrV>(
            ParsedExpr { expr: acc, next: pos },
        ),
{
}

impl Parser {

    /// Parses an expression, exactly as [`sp_expression`] describes.
    fn expression(&mut self) -> (r: Result<Expr, ParserError>)
        requires
            old(self).wf(),
        ensures
            final(self).wf(),
            final(self).tokens == old(self).tokens,
            match r {
                Ok(e) => sp_expression(old(self).tokens.deep_view(), old(self).current as int)
                    == Ok::<ParsedExpr, ParserErrV>(
                    ParsedExpr { expr: e@, next: final(self).current as int },
                ) && old(self).current < final(self).current,
                Err(e) => sp_expression(old(self).tokens.deep_view(), old(self).current as int)
                    == Err::<ParsedExpr, ParserErrV>(e@) && old(self).current <= final(self).current
                    && e@.tokens.len() == 1,
            },
        decreases old(self).tokens@.len() - old(self).current, 10int,
    {
        self.equality()
    }

    /// Parses a chain of equality operators, left-associatively, exactly as
    /// [`sp_equality`] describes.
    #[verifier::rlimit(100)]
    fn equality(&mut self) -> (r: Result<Expr, ParserError>)
        requires
            old(self).wf(),
        ensures
            final(self).wf(),
            final(self).tokens == old(self).tokens,
            match r {
                Ok(e) => sp_equality(old(self).tokens.deep_view(), old(self).current as int)
                    == Ok::<ParsedExpr, ParserErrV>(
                    ParsedExpr { expr: e@, next: final(self).current as int },
                ) && old(self).current < final(self).current,
                Err(e) => sp_equality(old(self).tokens.deep_view(), old(self).current as int)
                    == Err::<ParsedExpr, ParserErrV>(e@) && old(self).current <= final(self).current
                    && e@.tokens.len() == 1,
            },
        decreases old(self).tokens@.len() - old(self).current, 9int,
    {
        let ghost toks = self.tokens.deep_view();
        let ghost pos = self.current as int;
        let mut expr = match self.comparison() {
            Ok(e) => e,
            Err(e) => {
                return Err(e);
            },
        };
        proof {
            assert(self.current as int == bump(toks, self.current as int, pos));
            assert(sp_equality(toks, pos) == sp_equality_more(toks, self.current as int, expr@));
        }
        loop
            invariant
                self.wf(),
                self.tokens == old(self).tokens,
                toks == self.tokens.deep_view(),
                pos == old(self).current,
                pos < self.current,
                sp_equality(toks, pos) == sp_equality_more(toks, self.current as int, expr@),
            ensures
                self.wf(),
                self.tokens == old(self).tokens,
                pos < self.current,
                sp_equality(toks, pos) == Ok::<ParsedExpr, ParserErrV>(
                    ParsedExpr { expr: expr@, next: self.current as int },
                ),
            decreases self.tokens@.len() - self.current,
        {
            let ghost cur = self.current as int;
            if !self.match_tokens(&[TokenType::BangEqual, TokenType::EqualEqual]) {
                proof {
                    lemma_sp_equality_more_done(toks, cur, expr@);
                }
                break;
            }
            proof {
                lemma_sp_equality_more_step(toks, cur, expr@);
            }
            let operator = self.previous();
            let right = match self.comparison() {
                Ok(e) => e,
                Err(e) => {
                    return Err(e);
                },
            };
            let ghost acc_prev = expr@;
            expr = Expr::BinaryExpr(Box::new(BinaryExpr::new(expr, operator, right)));
            proof {
                assert(expr@ == ExprV::Binary(Box::new(acc_prev), toks[cur], Box::new(right@)));
                assert(self.current as int == bump(toks, self.current as int, cur + 1));
            }
        }
        Ok(expr)
    }

    /// Parses a chain of comparison operators, left-associatively, exactly as
    /// [`sp_comparison`] describes.
    #[verifier::rlimit(100)]
    fn comparison(&mut self) -> (r: Result<Expr, ParserError>)
        requires
            old(self).wf(),
        ensures
            final(self).wf(),
            final(self).tokens == old(self).tokens,
            match r {
                Ok(e) => sp_comparison(old(self).tokens.deep_view(), old(self).current as int)
                    == Ok::<ParsedExpr, ParserErrV>(
                    ParsedExpr { expr: e@, next: final(self).current as int },
                ) && old(self).current < final(self).current,
                Err(e) => sp_comparison(old(self).tokens.deep_view(), old(self).current as int)
                    == Err::<ParsedExpr, ParserErrV>(e@) && old(self).current <= final(self).current
                    && e@.tokens.len() == 1,
            },
        decreases old(self).tokens@.len() - old(self).current, 7int,
    {
        let ghost toks = self.tokens.deep_view();
        let ghost pos = self.current as int;
        let mut expr = match self.term() {
            Ok(e) => e,
            Err(e) => {
                return Err(e);
            },
        };
        proof {
            assert(self.current as int == bump(toks, self.current as int, pos));
            assert(sp_comparison(toks, pos) == sp_comparison_more(toks, self.current as int, expr@));
        }
        loop
            invariant
                self.wf(),
                self.tokens == old(self).tokens,
                toks == self.tokens.deep_view(),
                pos == old(self).current,
                pos < self.current,
                sp_comparison(toks, pos) == sp_comparison_more(toks, self.current as int, expr@),
            ensures
                self.wf(),
                self.tokens == old(self).tokens,
                pos < self.current,
                sp_comparison(toks, pos) == Ok::<ParsedExpr, ParserErrV>(
                    ParsedExpr { expr: expr@, next: self.current as int },
                ),
            decreases self.tokens@.len() - self.current,
        {
            let ghost cur = self.current as int;
            if !self.match_tokens(&[TokenType::Greater, TokenType::GreaterEqual, TokenType::Less, TokenType::LessEqual]) {
                proof {
                    lemma_sp_comparison_more_done(toks, cur, expr@);
                }
                break;
            }
            proof {
                lemma_sp_comparison_more_step(toks, cur, expr@);
            }
            let operator = self.previous();
            let right = match self.term() {
                Ok(e) => e,
                Err(e) => {
                    return Err(e);
                },
            };
            let ghost acc_prev = expr@;
            expr = Expr::BinaryExpr(Box::new(BinaryExpr::new(expr, operator, right)));
            proof {
                assert(expr@ == ExprV::Binary(Box::new(acc_prev), toks[cur], Box::new(right@)));
                assert(self.current as int == bump(toks, self.current as int, cur + 1));
            }
        }
        Ok(expr)
    }

    /// Parses a chain of additive operators, left-associatively, exactly as
    /// [`sp_term`] describes.
    #[verifier::rlimit(100)]
    fn term(&mut self) -> (r: Result<Expr, ParserError>)
        requires
            old(self).wf(),
        ensures
            final(self).wf(),
            final(self).tokens == old(self).tokens,
            match r {
                Ok(e) => sp_term(old(self).tokens.deep_view(), old(self).current as int)
                    == Ok::<ParsedExpr, ParserErrV>(
                    ParsedExpr { expr: e@, next: final(self).current as int },
                ) && old(self).current < final(self).current,
                Err(e) => sp_term(old(self).tokens.deep_view(), old(self).current as int)
                    == Err::<ParsedExpr, ParserErrV>(e@) && old(self).current <= final(self).current
                    && e@.tokens.len() == 1,
            },
        decreases old(self).tokens@.len() - old(self).current, 5int,
    {
        let ghost toks = self.tokens.deep_view();
        let ghost pos = self.current as int;
        let mut expr = match self.factor() {
            Ok(e) => e,
            Err(e) => {
                return Err(e);
            },
        };
        proof {
            assert(self.current as int == bump(toks, self.current as int, pos));
            assert(sp_term(toks, pos) == sp_term_more(toks, self.current as int, expr@));
        }
        loop
            invariant
                self.wf(),
                self.tokens == old(self).tokens,
                toks == self.tokens.deep_view(),
                pos == old(self).current,
                pos < self.current,
                sp_term(toks, pos) == sp_term_more(toks, self.current as int, expr@),
            ensures
                self.wf(),
                self.tokens == old(self).tokens,
                pos < self.current,
                sp_term(toks, pos) == Ok::<ParsedExpr, ParserErrV>(
                    ParsedExpr { expr: expr@, next: self.current as int },
                ),
            decreases self.tokens@.len() - self.current,
        {
            let ghost cur = self.current as int;
            if !self.match_tokens(&[TokenType::Minus, TokenType::Plus]) {
                proof {
                    lemma_sp_term_more_done(toks, cur, expr@);
                }
                break;
            }
            proof {
                lemma_sp_term_more_step(toks, cur, expr@);
            }
            let operator = self.previous();
            let right = match self.factor() {
                Ok(e) => e,
                Err(e) => {
                    return Err(e);
                },
            };
            let ghost acc_prev = expr@;
            expr = Expr::BinaryExpr(Box::new(BinaryExpr::new(expr, operator, right)));
            proof {
                assert(expr@ == ExprV::Binary(Box::new(acc_prev), toks[cur], Box::new(right@)));
                assert(self.current as int == bump(toks, self.current as int, cur + 1));
            }
        }
        Ok(expr)
    }

    /// Parses a chain of multiplicative operators, left-associatively, exactly as
    /// [`sp_factor`] describes.
    #[verifier::rlimit(100)]
    fn factor(&mut self) -> (r: Result<Expr, ParserError>)
        requires
            old(self).wf(),
        ensures
            final(self).wf(),
            final(self).tokens == old(self).tokens,
            match r {
                Ok(e) => sp_factor(old(self).tokens.deep_view(), old(self).current as int)
                    == Ok::<ParsedExpr, ParserErrV>(
                    ParsedExpr { expr: e@, next: final(self).current as int },
                ) && old(self).current < final(self).current,
                Err(e) => sp_factor(old(self).tokens.deep_view(), old(self).current as int)
                    == Err::<ParsedExpr, ParserErrV>(e@) && old(self).current <= final(self).current
                    && e@.tokens.len() == 1,
            },
        decreases old(self).tokens@.len() - old(self).current, 3int,
    {
        let ghost toks = self.tokens.deep_view();
        let ghost pos = self.current as int;
        let mut expr = match self.unary() {
            Ok(e) => e,
            Err(e) => {
                return Err(e);
            },
        };
        proof {
            assert(self.current as int == bump(toks, self.current as int, pos));
            assert(sp_factor(toks, pos) == sp_factor_more(toks, self.current as int, expr@));
        }
        loop
            invariant
                self.wf(),
                self.tokens == old(self).tokens,
                toks == self.tokens.deep_view(),
                pos == old(self).current,
                pos < self.current,
                sp_factor(toks, pos) == sp_factor_more(toks, self.current as int, expr@),
            ensures
                self.wf(),
                self.tokens == old(self).tokens,
                pos < self.current,
                sp_factor(toks, pos) == Ok::<ParsedExpr, ParserErrV>(
                    ParsedExpr { expr: expr@, next: self.current as int },
                ),
            decreases self.tokens@.len() - self.current,
        {
            let ghost cur = self.current as int;
            if !self.match_tokens(&[TokenType::Slash, TokenType::Star]) {
                proof {
                    lemma_sp_factor_more_done(toks, cur, expr@);
                }
                break;
            }
            proof {
                lemma_sp_factor_more_step(toks, cur, expr@);
            }
            let operator = self.previous();
            let right = match self.unary() {
                Ok(e) => e,
                Err(e) => {
                    return Err(e);
                },
            };
            let ghost acc_prev = expr@;
            expr = Expr::BinaryExpr(Box::new(BinaryExpr::new(expr, operator, right)));
            proof {
                assert(expr@ == ExprV::Binary(Box::new(acc_prev), toks[cur], Box::new(right@)));
                assert(self.current as int == bump(toks, self.current as int, cur + 1));
            }
        }
        Ok(expr)
    }

    /// Parses a unary expression, exactly as [`sp_unary`] describes.
    fn unary(&mut self) -> (r: Result<Expr, ParserError>)
        requires
            old(self).wf(),
        ensures
            final(self).wf(),
            final(self).tokens == old(self).tokens,
            match r {
                Ok(e) => sp_unary(old(self).tokens.deep_view(), old(self).current as int)
                    == Ok::<ParsedExpr, ParserErrV>(
                    ParsedExpr { expr: e@, next: final(self).current as int },
                ) && old(self).current < final(self).current,
                Err(e) => sp_unary(old(self).tokens.deep_view(), old(self).current as int)
                    == Err::<ParsedExpr, ParserErrV>(e@) && old(self).current <= final(self).current
                    && e@.tokens.len() == 1,
            },
        decreases old(self).tokens@.len() - old(self).current, 1int,
    {
        let ghost toks = self.tokens.deep_view();
        let ghost pos = self.current as int;
        if self.match_tokens(&[TokenType::Bang, TokenType::Minus]) {
            let operator = self.previous();
            let right = match self.unary() {
                Ok(e) => e,
                Err(e) => {
                    return Err(e);
                },
            };
            return Ok(Expr::UnaryExpr(Box::new(UnaryExpr::new(operator, right))));
        }
        self.primary()
    }

    /// Parses a primary expression, exactly as [`sp_primary`] describes.
    fn primary(&mut self) -> (r: Result<Expr, ParserError>)
        requires
            old(self).wf(),
        ensures
            final(self).wf(),
            final(self).tokens == old(self).tokens,
            match r {
                Ok(e) => sp_primary(old(self).tokens.deep_view(), old(self).current as int)
                    == Ok::<ParsedExpr, ParserErrV>(
                    ParsedExpr { expr: e@, next: final(self).current as int },
                ) && old(self).current < final(self).current,
                Err(e) => sp_primary(old(self).tokens.deep_view(), old(self).current as int)
                    == Err::<ParsedExpr, ParserErrV>(e@) && old(self).current <= final(self).current
                    && e@.tokens.len() == 1,
            },
        decreases old(self).tokens@.len() - old(self).current, 0int,
    {
        let ghost toks = self.tokens.deep_view();
        let ghost pos = self.current as int;
        if self.match_tokens(&[TokenType::False]) {
            return Ok(Expr::Literal(Literal::Boolean(false)));
        }
        if self.match_tokens(&[TokenType::True]) {
            return Ok(Expr::Literal(Literal::Boolean(true)));
        }
        if self.match_tokens(&[TokenType::Nil]) {
            return Ok(Expr::Literal(Literal::Nil));
        }
        if self.match_tokens(&[TokenType::Integer, TokenType::Float, TokenType::String]) {
            let prev = self.previous();
            if prev.token_type == TokenType::String {
                proof {
                    assert(lit_of_tokenv(toks[pos]) == LitV::Str(toks[pos].literal));
                }
                return Ok(Expr::Literal(Literal::String(prev.literal)));
            }
            return Ok(Expr::Literal(Literal::new(prev.lexeme.as_str())));
        }
        if self.match_tokens(&[TokenType::Identifier]) {
            return Ok(Expr::VarDeclaration(self.previous()));
        }
        if self.match_tokens(&[TokenType::LeftParen]) {
            let expr = match self.expression() {
                Ok(e) => e,
                Err(e) => {
                    return Err(e);
                },
            };
            match self.consume(TokenType::RightParen, "Expected ')' after expression.") {
                Ok(_) => {
                    return Ok(Expr::GroupingExpr(Box::new(GroupingExpr::new(expr))));
                },
                Err(e) => {
                    return Err(e);
                },
            }
        }
        Err(throw_error(self.peek(), "Expected expression"))
    }
}




/// Appends one statement.
fn push_stmt(dst: &mut Vec<Statement>, s: Statement)
    ensures
        final(dst).deep_view() == old(dst).deep_view().push(s@),
{
    let ghost prev = dst@;
    let ghost prev_deep = dst.deep_view();
    let ghost sv = s@;
    dst.push(s);
    proof {
        assert(dst@ =~= prev.push(dst@.last()));
        assert(dst.deep_view() =~= prev_deep.push(sv)) by {
            assert forall|j: int| 0 <= j < prev.len() implies #[trigger] dst.deep_view()[j]
                == prev_deep[j] by {
                assert(dst@[j] == prev[j]);
            }
            assert(dst.deep_view()[prev.len() as int] == sv);
        }
    }
}

/// Unfolds one step of [`sp_parse`] at a position that holds a token
/// other than end-of-input.
proof fn lemma_sp_parse_step(toks: Seq<TokenV>, pos: int)
    requires
        0 <= pos < toks.len(),
        kind_at(toks, pos) != TokenType::Eof,
    ensures
        sp_parse(toks, pos) == (match sp_declaration(toks, pos) {
            Err(e) => Err::<Seq<StmtV>, ParserErrV>(e),
            Ok(d) => match sp_parse(toks, bump(toks, d.next, pos + 1)) {
                Err(e) => Err::<Seq<StmtV>, ParserErrV>(e),
                Ok(rest) => Ok::<Seq<StmtV>, ParserErrV>(seq![d.stmt] + rest),
            },
        }),
{
}

/// At end-of-input, [`sp_parse`] yields the empty statement list.
proof fn lemma_sp_parse_end(toks: Seq<TokenV>, pos: int)
    requires
        !(0 <= pos < toks.len()) || kind_at(toks, pos) == TokenType::Eof,
    ensures
        sp_parse(toks, pos) == Ok::<Seq<StmtV>, ParserErrV>(Seq::<StmtV>::empty()),
{
}

impl Parser {
    /// Parses one declaration, exactly as [`sp_declaration`] describes.
    fn declaration(&mut self) -> (r: Result<Statement, ParserError>)
        requires
            old(self).wf(),
        ensures
            final(self).wf(),
            final(self).tokens == old(self).tokens,
            match r {
                Ok(st) => sp_declaration(old(self).tokens.deep_view(), old(self).current as int)
                    == Ok::<ParsedStmt, ParserErrV>(
                    ParsedStmt { stmt: st@, next: final(self).current as int },
                ) && old(self).current < final(self).current,
                Err(e) => sp_declaration(old(self).tokens.deep_view(), old(self).current as int)
                    == Err::<ParsedStmt, ParserErrV>(e@) && old(self).current <= final(self).current
                    && e@.tokens.len() == 1,
            },
    {
        if self.match_tokens(&[TokenType::Let]) {
            return self.let_declaration();
        }
        if self.match_tokens(&[TokenType::Print]) {
            return self.print_statement();
        }
        self.expr_statement()
    }

    /// Parses a `let` declaration after its keyword, exactly as
    /// [`sp_let_declaration`] describes.
    fn let_declaration(&mut self) -> (r: Result<Statement, ParserError>)
        requires
            old(self).wf(),
        ensures
            final(self).wf(),
            final(self).tokens == old(self).tokens,
            match r {
                Ok(st) => sp_let_declaration(
                    old(self).tokens.deep_view(),
                    old(self).current as int,
                ) == Ok::<ParsedStmt, ParserErrV>(
                    ParsedStmt { stmt: st@, next: final(self).current as int },
                ) && old(self).current < final(self).current,
                Err(e) => sp_let_declaration(
                    old(self).tokens.deep_view(),
                    old(self).current as int,
                ) == Err::<ParsedStmt, ParserErrV>(e@) && old(self).current <= final(self).current
                    && e@.tokens.len() == 1,
            },
    {
        let ghost toks = self.tokens.deep_view();
        let ghost pos = self.current as int;
        let name = match self.consume(TokenType::Identifier, "Expect variable name.") {
            Ok(name) => name,
            Err(err) => {
                return Err(err);
            },
        };
        let mut initializer = Expr::Literal(Literal::Nil);
        if self.match_tokens(&[TokenType::Equal]) {
            let value = match self.expression() {
                Ok(expr) => expr,
                Err(err) => {
                    return Err(err);
                },
            };
            initializer = value;
            if self.match_tokens(&[TokenType::Semicolon]) {
                return Ok(Statement::LetStatement(LetStatement::new(name, initializer)));
            }
            return Err(throw_error(self.previous(), "Expect ';' after variable declaration."));
        }
        if self.match_tokens(&[TokenType::Semicolon]) {
            return Ok(Statement::LetStatement(LetStatement::new(name, initializer)));
        }
        return Err(throw_error(self.previous(), "Expect ';' after variable declaration."));
    }

    /// Parses a `print` statement after its keyword, exactly as
    /// [`sp_print_statement`] describes.
    fn print_statement(&mut self) -> (r: Result<Statement, ParserError>)
        requires
            old(self).wf(),
        ensures
            final(self).wf(),
            final(self).tokens == old(self).tokens,
            match r {
                Ok(st) => sp_print_statement(
                    old(self).tokens.deep_view(),
                    old(self).current as int,
                ) == Ok::<ParsedStmt, ParserErrV>(
                    ParsedStmt { stmt: st@, next: final(self).current as int },
                ) && old(self).current < final(self).current,
                Err(e) => sp_print_statement(
                    old(self).tokens.deep_view(),
                    old(self).current as int,
                ) == Err::<ParsedStmt, ParserErrV>(e@) && old(self).current <= final(self).current
                    && e@.tokens.len() == 1,
            },
    {
        let value = match self.expression() {
            Ok(expr) => expr,
            Err(err) => {
                return Err(err);
            },
        };
        if self.match_tokens(&[TokenType::Semicolon]) {
            return Ok(Statement::PrintStatement(PrintStatement::new(value)));
        }
        Err(throw_error(self.peek(), "Expect ';' after value."))
    }

    /// Parses a bare expression statement, exactly as
    /// [`sp_expr_statement`] describes.
    fn expr_statement(&mut self) -> (r: Result<Statement, ParserError>)
        requires
            old(self).wf(),
        ensures
            final(self).wf(),
            final(self).tokens == old(self).tokens,
            match r {
                Ok(st) => sp_expr_statement(
                    old(self).tokens.deep_view(),
                    old(self).current as int,
                ) == Ok::<ParsedStmt, ParserErrV>(
                    ParsedStmt { stmt: st@, next: final(self).current as int },
                ) && old(self).current < final(self).current,
                Err(e) => sp_expr_statement(
                    old(self).tokens.deep_view(),
                    old(self).current as int,
                ) == Err::<ParsedStmt, ParserErrV>(e@) && old(self).current <= final(self).current
                    && e@.tokens.len() == 1,
            },
    {
        let expr = match self.expression() {
            Ok(expr) => expr,
            Err(err) => {
                return Err(err);
            },
        };
        if self.match_tokens(&[TokenType::Semicolon]) {
            return Ok(Statement::ExpressionStatement(ExpressionStatement::new(expr)));
        }
        Err(throw_error(self.peek(), "Expect ';' after expression."))
    }

    /// Parses declarations until end-of-input, exactly as [`sp_parse`]
    /// describes. Parsing is fail-fast: on the first syntax error the
    /// parser synchronizes to the next statement boundary and returns
    /// that error, keeping nothing parsed before it.
    #[verifier::rlimit(100)]
    pub fn parse(&mut self) -> (r: Result<Vec<Statement>, ParserError>)
        requires
            old(self).wf(),
        ensures
            final(self).wf(),
            final(self).tokens == old(self).tokens,
            match r {
                Ok(v) => sp_parse(old(self).tokens.deep_view(), old(self).current as int)
                    == Ok::<Seq<StmtV>, ParserErrV>(v.deep_view()),
                Err(e) => sp_parse(old(self).tokens.deep_view(), old(self).current as int)
                    == Err::<Seq<StmtV>, ParserErrV>(e@) && e@.tokens.len() == 1,
            },
    {
        let ghost toks = self.tokens.deep_view();
        let ghost pos0 = self.current as int;
        let mut statements: Vec<Statement> = Vec::new();
        proof {
            assert(statements.deep_view() =~= Seq::<StmtV>::empty());
        }
        loop
            invariant
                self.wf(),
                self.tokens == old(self).tokens,
                toks == self.tokens.deep_view(),
                pos0 == old(self).current,
                pos0 <= self.current,
                match sp_parse(toks, self.current as int) {
                    Ok(rest) => sp_parse(toks, pos0) == Ok::<Seq<StmtV>, ParserErrV>(
                        statements.deep_view() + rest,
                    ),
                    Err(e) => sp_parse(toks, pos0) == Err::<Seq<StmtV>, ParserErrV>(e),
                },
            ensures
                self.wf(),
                self.tokens == old(self).tokens,
                sp_parse(toks, pos0) == Ok::<Seq<StmtV>, ParserErrV>(statements.deep_view()),
            decreases self.tokens@.len() - self.current,
        {
            if self.is_at_end() {
                proof {
                    lemma_sp_parse_end(toks, self.current as int);
                    assert(statements.deep_view() + Seq::<StmtV>::empty()
                        =~= statements.deep_view());
                }
                break;
            }
            let ghost cur = self.current as int;
            proof {
                lemma_sp_parse_step(toks, cur);
            }
            let dec = match self.declaration() {
                Ok(dec) => dec,
                Err(err) => {
                    self.synchronize();
                    return Err(err);
                },
            };
            let ghost prev_deep = statements.deep_view();
            let ghost dv = dec@;
            push_stmt(&mut statements, dec);
            proof {
                assert(self.current as int == bump(toks, self.current as int, cur + 1));
                assert(match sp_parse(toks, self.current as int) {
                    Ok(rest) => prev_deep.push(dv) + rest =~= prev_deep + (seq![dv] + rest),
                    Err(e) => true,
                });
            }
        }
        Ok(statements)
    }
}

} // verus!
