//! The shared error vocabulary: lexical, syntax, and runtime failures, each
//! carrying a source line and a message, and the exact shapes of the
//! diagnostic lines built from them.

use vstd::prelude::*;
use vstd::string::StringExecFns;
use crate::text::{dec_nat, usize_to_string};
use crate::token::{Token, TokenType, TokenV};

verus! {

/// The diagnostic line for a lexical or syntax failure:
/// `[line N] Error <where>: <message>`.
pub open spec fn report_text(line: nat, where_: Seq<char>, message: Seq<char>) -> Seq<char> {
    "[line "@ + dec_nat(line) + "] Error "@ + where_ + ": "@ + message
}

/// The diagnostic line for a runtime failure: `[Line N] Error: <message>`.
pub open spec fn runtime_report_text(line: nat, message: Seq<char>) -> Seq<char> {
    "[Line "@ + dec_nat(line) + "] Error: "@ + message
}

/// Builds the diagnostic line for a lexical or syntax failure.
pub fn report(line: usize, where_: &str, message: &str) -> (r: String)
    ensures
        r@ == report_text(line as nat, where_@, message@),
{
    let mut out = String::new();
    out.append("[line ");
    let num = usize_to_string(line);
    out.append(num.as_str());
    out.append("] Error ");
    out.append(where_);
    out.append(": ");
    out.append(message);
    proof {
        assert(out@ =~= report_text(line as nat, where_@, message@));
    }
    out
}

/// Builds the diagnostic line for a lexical failure, with an empty
/// `<where>` part.
pub fn error(line: usize, message: &str) -> (r: String)
    ensures
        r@ == report_text(line as nat, ""@, message@),
{
    report(line, "", message)
}

/// Specification-level lexical error.
pub struct LexErrV {
    pub line: int,
    pub message: Seq<char>,
}

/// A lexical failure: the source line it was found on and its message.
/// Scanning reports it and continues; it never aborts the pass.
#[derive(Debug)]
pub struct LexError {
    pub line: usize,
    pub message: String,
}

impl View for LexError {
    type V = LexErrV;

    open spec fn view(&self) -> LexErrV {
        LexErrV { line: self.line as int, message: self.message@ }
    }
}

impl DeepView for LexError {
    type V = LexErrV;

    open spec fn deep_view(&self) -> LexErrV {
        self@
    }
}

impl Clone for LexError {
    fn clone(&self) -> (r: LexError)
        ensures
            r == *self,
    {
        LexError { line: self.line, message: self.message.clone() }
    }
}

impl LexError {
    /// Pairs a source line with a message.
    pub fn new(line: usize, message: String) -> (r: LexError)
        ensures
            r.line == line,
            r.message == message,
    {
        LexError { line, message }
    }

    /// The diagnostic line for this failure.
    pub fn report_string(&self) -> (r: String)
        ensures
            r@ == report_text(self.line as nat, ""@, self.message@),
    {
        error(self.line, self.message.as_str())
    }
}

/// Specification-level syntax error: the offending tokens and the message.
pub struct ParserErrV {
    pub tokens: Seq<TokenV>,
    pub message: Seq<char>,
}

/// A syntax failure: the offending token and a message. Parsing of the
/// current unit stops and the error is surfaced to the caller.
#[derive(Debug)]
pub struct ParserError {
    pub token: Vec<Token>,
    pub message: String,
}

impl View for ParserError {
    type V = ParserErrV;

    open spec fn view(&self) -> ParserErrV {
        ParserErrV { tokens: self.token.deep_view(), message: self.message@ }
    }
}

/// The `<where>` part of a syntax diagnostic: `at end` for the end-of-input
/// token, else `at '<lexeme>'`.
pub open spec fn syntax_where_text(t: TokenV) -> Seq<char> {
    if t.kind == TokenType::Eof {
        "at end"@
    } else {
        "at '"@ + t.lexeme + "'"@
    }
}

/// Builds the syntax error carrying the offending token and the message.
pub fn throw_error(token: Token, message: &str) -> (r: ParserError)
    ensures
        r@.tokens =~= seq![token@],
        r@.message == message@,
{
    let r = ParserError::new(vec![token], message);
    proof {
        assert(r@.tokens =~= seq![r.token@[0]@]);
    }
    r
}

impl ParserError {
    /// Pairs the offending tokens with a message.
    pub fn new(token: Vec<Token>, message: &str) -> (r: ParserError)
        ensures
            r.token == token,
            r.message@ == message@,
    {
        ParserError { token, message: String::from_str(message) }
    }

    /// The offending tokens.
    pub fn get_token(&self) -> (r: &Vec<Token>)
        ensures
            r == self.token,
    {
        &self.token
    }

    /// The diagnostic line for this failure, built from its first token.
    pub fn report_string(&self) -> (r: String)
        requires
            self.token@.len() > 0,
        ensures
            r@ == report_text(
                self.token@[0].line as nat,
                syntax_where_text(self.token@[0]@),
                self.message@,
            ),
    {
        let t = &self.token[0];
        if t.token_type == TokenType::Eof {
            report(t.line, "at end", self.message.as_str())
        } else {
            let mut where_ = String::new();
            where_.append("at '");
            where_.append(t.lexeme.as_str());
            where_.append("'");
            proof {
                assert(where_@ =~= syntax_where_text(t@));
            }
            report(t.line, where_.as_str(), self.message.as_str())
        }
    }
}

/// Specification-level runtime error: the offending token and the message.
pub struct RuntimeErrV {
    pub token: TokenV,
    pub message: Seq<char>,
}

/// A runtime failure during evaluation: a type mismatch, a division by
/// zero, or an unresolved identifier. Carries the offending token for its
/// line and lexeme. It propagates to the statement-execution boundary; it
/// is never an abort.
#[derive(Debug)]
pub struct RuntimeError {
    pub token: Token,
    pub message: String,
}

impl View for RuntimeError {
    type V = RuntimeErrV;

    open spec fn view(&self) -> RuntimeErrV {
        RuntimeErrV { token: self.token@, message: self.message@ }
    }
}

impl RuntimeError {
    /// Pairs the offending token with a message.
    pub fn new(token: Token, message: &str) -> (r: RuntimeError)
        ensures
            r.token == token,
            r.message@ == message@,
    {
        RuntimeError { token, message: String::from_str(message) }
    }

    /// The offending token.
    pub fn get_token(&self) -> (r: &Token)
        ensures
            r == self.token,
    {
        &self.token
    }

    /// The message.
    pub fn get_message(&self) -> (r: &str)
        ensures
            r@ == self.message@,
    {
        self.message.as_str()
    }

    /// The diagnostic line for this failure.
    pub fn report_string(&self) -> (r: String)
        ensures
            r@ == runtime_report_text(self.token.line as nat, self.message@),
    {
        let mut out = String::new();
        out.append("[Line ");
        let num = usize_to_string(self.token.line);
        out.append(num.as_str());
        out.append("] Error: ");
        out.append(self.message.as_str());
        proof {
            assert(out@ =~= runtime_report_text(self.token.line as nat, self.message@));
        }
        out
    }
}

} // verus!
