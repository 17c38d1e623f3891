//! The lexer: a single left-to-right pass over the source characters,
//! producing the token sequence and the lexical errors. The whole pass is
//! specified by [`lex_from`], a recursive function over the source view;
//! [`Scanner::scan_tokens`] is proved to produce exactly its result.

use vstd::prelude::*;
use vstd::hash_map::StringHashMap;
use crate::errors::{LexErrV, LexError};
use crate::text::{chars_of, is_digit_c, string_of_range};
use crate::token::{Token, TokenType, TokenV};

verus! {

pub uninterp spec fn alphabetic(c: char) -> bool;

/// Relies on `char::is_alphabetic`: whether a character is alphabetic
/// depends on the character alone.
#[verifier::external_body]
fn char_is_alphabetic(c: char) -> (r: bool)
    ensures
        r == alphabetic(c),
{
    c.is_alphabetic()
}

/// Whether a character may begin an identifier.
pub open spec fn is_alpha_c(c: char) -> bool {
    alphabetic(c) || c == '_'
}

/// Whether a character may continue an identifier.
pub open spec fn is_alnum_c(c: char) -> bool {
    is_digit_c(c) || is_alpha_c(c)
}

/// The fixed table of reserved words and their token kinds.
pub open spec fn keyword_map() -> Map<Seq<char>, TokenType> {
    Map::<Seq<char>, TokenType>::empty().insert("and"@, TokenType::And).insert(
        "class"@,
        TokenType::Class,
    ).insert("else"@, TokenType::Else).insert("false"@, TokenType::False).insert(
        "for"@,
        TokenType::For,
    ).insert("taco"@, TokenType::Func).insert("if"@, TokenType::If).insert(
        "nil"@,
        TokenType::Nil,
    ).insert("or"@, TokenType::Or).insert("print"@, TokenType::Print).insert(
        "return"@,
        TokenType::Return,
    ).insert("super"@, TokenType::Super).insert("this"@, TokenType::This).insert(
        "true"@,
        TokenType::True,
    ).insert("let"@, TokenType::Let).insert("while"@, TokenType::While)
}

/// The kind an identifier text resolves to: its keyword kind, or plain
/// identifier.
pub open spec fn ident_kind(s: Seq<char>) -> TokenType {
    if keyword_map().contains_key(s) {
        keyword_map()[s]
    } else {
        TokenType::Identifier
    }
}

/// The token kind of a single punctuation character, if it is one.
pub open spec fn punct_kind(c: char) -> Option<TokenType> {
    if c == '(' {
        Some(TokenType::LeftParen)
    } else if c == ')' {
        Some(TokenType::RightParen)
    } else if c == '{' {
        Some(TokenType::LeftBrace)
    } else if c == '}' {
        Some(TokenType::RightBrace)
    } else if c == ',' {
        Some(TokenType::Comma)
    } else if c == '.' {
        Some(TokenType::Dot)
    } else if c == '-' {
        Some(TokenType::Minus)
    } else if c == '+' {
        Some(TokenType::Plus)
    } else if c == ';' {
        Some(TokenType::Semicolon)
    } else if c == '*' {
        Some(TokenType::Star)
    } else {
        None
    }
}

/// The first position at or after `pos` holding a newline, or the end.
pub open spec fn line_skip(src: Seq<char>, pos: int) -> int
    decreases src.len() - pos,
{
    if pos >= src.len() {
        src.len() as int
    } else if src[pos] == '\n' {
        pos
    } else {
        line_skip(src, pos + 1)
    }
}

/// The first position at or after `pos` that ends a single-line string:
/// a closing quote or a newline, or the end.
pub open spec fn string_stop(src: Seq<char>, pos: int) -> int
    decreases src.len() - pos,
{
    if pos >= src.len() {
        src.len() as int
    } else if src[pos] == '"' || src[pos] == '\n' {
        pos
    } else {
        string_stop(src, pos + 1)
    }
}

/// The first position at or after `pos` holding a closing backtick, or
/// the end.
pub open spec fn mstring_stop(src: Seq<char>, pos: int) -> int
    decreases src.len() - pos,
{
    if pos >= src.len() {
        src.len() as int
    } else if src[pos] == '`' {
        pos
    } else {
        mstring_stop(src, pos + 1)
    }
}

/// The first position at or after `pos` holding a non-digit, or the end.
pub open spec fn digits_stop(src: Seq<char>, pos: int) -> int
    decreases src.len() - pos,
{
    if pos >= src.len() {
        src.len() as int
    } else if !is_digit_c(src[pos]) {
        pos
    } else {
        digits_stop(src, pos + 1)
    }
}

/// The first position at or after `pos` holding a character that cannot
/// continue an identifier, or the end.
pub open spec fn ident_stop(src: Seq<char>, pos: int) -> int
    decreases src.len() - pos,
{
    if pos >= src.len() {
        src.len() as int
    } else if !is_alnum_c(src[pos]) {
        pos
    } else {
        ident_stop(src, pos + 1)
    }
}

/// The position just past the first `*/` at or after `pos`, or the end
/// when none follows.
pub open spec fn comment_stop(src: Seq<char>, pos: int) -> int
    decreases src.len() - pos,
{
    if pos + 1 >= src.len() {
        src.len() as int
    } else if src[pos] == '*' && src[pos + 1] == '/' {
        pos + 2
    } else {
        comment_stop(src, pos + 1)
    }
}

/// How many newlines the range `[a, b)` of the source holds.
pub open spec fn count_nl(src: Seq<char>, a: int, b: int) -> int
    decreases b - a,
{
    if a >= b {
        0
    } else {
        count_nl(src, a, b - 1) + if src[b - 1] == '\n' {
            1int
        } else {
            0int
        }
    }
}

/// The effect of scanning one token: the next cursor position, the line
/// counter afterwards, and the token or lexical error produced, if any.
pub struct ScanStepV {
    pub next: int,
    pub line2: int,
    pub tok: Option<TokenV>,
    pub err: Option<LexErrV>,
}

/// A step producing a token whose lexeme and literal both cover
/// `[pos, next)` of the source.
pub open spec fn op_step(src: Seq<char>, pos: int, next: int, line: int, kind: TokenType)
    -> ScanStepV {
    ScanStepV {
        next,
        line2: line,
        tok: Some(
            TokenV {
                kind,
                lexeme: src.subrange(pos, next),
                literal: src.subrange(pos, next),
                line,
            },
        ),
        err: None,
    }
}

/// A step producing no token.
pub open spec fn silent_step(next: int, line2: int) -> ScanStepV {
    ScanStepV { next, line2, tok: None, err: None }
}

/// One-or-two-character operator: a trailing `=` selects the second kind.
pub open spec fn probe_eq_step(
    src: Seq<char>,
    pos: int,
    line: int,
    one: TokenType,
    two: TokenType,
) -> ScanStepV {
    if pos + 1 < src.len() && src[pos + 1] == '=' {
        op_step(src, pos, pos + 2, line, two)
    } else {
        op_step(src, pos, pos + 1, line, one)
    }
}

/// What scanning one token from position `pos` on line `line` does.
pub open spec fn scan_one(src: Seq<char>, pos: int, line: int) -> ScanStepV
    recommends
        0 <= pos < src.len(),
{
    let c = src[pos];
    if punct_kind(c) is Some {
        op_step(src, pos, pos + 1, line, punct_kind(c)->Some_0)
    } else if c == '!' {
        probe_eq_step(src, pos, line, TokenType::Bang, TokenType::BangEqual)
    } else if c == '=' {
        probe_eq_step(src, pos, line, TokenType::Equal, TokenType::EqualEqual)
    } else if c == '<' {
        probe_eq_step(src, pos, line, TokenType::Less, TokenType::LessEqual)
    } else if c == '>' {
        probe_eq_step(src, pos, line, TokenType::Greater, TokenType::GreaterEqual)
    } else if c == '#' {
        silent_step(line_skip(src, pos + 1), line)
    } else if c == '/' {
        if pos + 1 < src.len() && src[pos + 1] == '*' {
            let stop = comment_stop(src, pos + 2);
            silent_step(stop, line + count_nl(src, pos + 2, stop))
        } else {
            op_step(src, pos, pos + 1, line, TokenType::Slash)
        }
    } else if c == ' ' || c == '\r' || c == '\t' {
        silent_step(pos + 1, line)
    } else if c == '\n' {
        silent_step(pos + 1, line + 1)
    } else if c == '"' {
        let stop = string_stop(src, pos + 1);
        if stop >= src.len() || src[stop] == '\n' {
            ScanStepV {
                next: stop,
                line2: line,
                tok: None,
                err: Some(LexErrV { line, message: "Unterminated string"@ }),
            }
        } else {
            ScanStepV {
                next: stop + 1,
                line2: line,
                tok: Some(
                    TokenV {
                        kind: TokenType::String,
                        lexeme: src.subrange(pos, stop + 1),
                        literal: src.subrange(pos + 1, stop),
                        line,
                    },
                ),
                err: None,
            }
        }
    } else if c == '`' {
        let stop = mstring_stop(src, pos + 1);
        let line2 = line + count_nl(src, pos + 1, stop);
        if stop >= src.len() {
            ScanStepV {
                next: stop,
                line2,
                tok: None,
                err: Some(LexErrV { line: line2, message: "Unterminated string"@ }),
            }
        } else {
            ScanStepV {
                next: stop + 1,
                line2,
                tok: Some(
                    TokenV {
                        kind: TokenType::String,
                        lexeme: src.subrange(pos, stop + 1),
                        literal: src.subrange(pos + 1, stop),
                        line: line2,
                    },
                ),
                err: None,
            }
        }
    } else if is_digit_c(c) {
        let d1 = digits_stop(src, pos + 1);
        if d1 < src.len() && src[d1] == '.' && d1 + 1 < src.len() && is_digit_c(src[d1 + 1]) {
            let d2 = digits_stop(src, d1 + 1);
            ScanStepV {
                next: d2,
                line2: line,
                tok: Some(
                    TokenV {
                        kind: TokenType::Float,
                        lexeme: src.subrange(pos, d2),
                        literal: src.subrange(pos, d2),
                        line,
                    },
                ),
                err: None,
            }
        } else {
            ScanStepV {
                next: d1,
                line2: line,
                tok: Some(
                    TokenV {
                        kind: TokenType::Integer,
                        lexeme: src.subrange(pos, d1),
                        literal: src.subrange(pos, d1),
                        line,
                    },
                ),
                err: None,
            }
        }
    } else if is_alpha_c(c) {
        let stop = ident_stop(src, pos + 1);
        let text = src.subrange(pos, stop);
        ScanStepV {
            next: stop,
            line2: line,
            tok: Some(
                TokenV { kind: ident_kind(text), lexeme: text, literal: Seq::empty(), line },
            ),
            err: None,
        }
    } else {
        ScanStepV {
            next: pos + 1,
            line2: line,
            tok: None,
            err: Some(LexErrV { line, message: "Unexpected character found"@ }),
        }
    }
}

/// The end-of-input token.
pub open spec fn eof_tok(line: int) -> TokenV {
    TokenV { kind: TokenType::Eof, lexeme: Seq::empty(), literal: Seq::empty(), line }
}

/// The result of a whole pass: the tokens in order, ending with the
/// end-of-input token, and the lexical errors in order.
pub struct LexOutV {
    pub toks: Seq<TokenV>,
    pub errs: Seq<LexErrV>,
}

/// The elements of an option, as a sequence of zero or one.
pub open spec fn opt_seq<T>(o: Option<T>) -> Seq<T> {
    match o {
        Some(t) => seq![t],
        None => Seq::empty(),
    }
}

/// Every stop position lies between its start and the end of the source.
proof fn lemma_stops_bounds(src: Seq<char>, pos: int)
    requires
        0 <= pos <= src.len(),
    ensures
        pos <= line_skip(src, pos) <= src.len(),
        pos <= string_stop(src, pos) <= src.len(),
        pos <= mstring_stop(src, pos) <= src.len(),
        pos <= digits_stop(src, pos) <= src.len(),
        pos <= ident_stop(src, pos) <= src.len(),
        pos <= comment_stop(src, pos) <= src.len(),
    decreases src.len() - pos,
{
    if pos < src.len() {
        lemma_stops_bounds(src, pos + 1);
    }
}

/// A newline count is never negative.
proof fn lemma_count_nl_nonneg(src: Seq<char>, a: int, b: int)
    ensures
        count_nl(src, a, b) >= 0,
        b >= a ==> count_nl(src, a, b) <= b - a,
    decreases b - a,
{
    if a < b {
        lemma_count_nl_nonneg(src, a, b - 1);
    }
}

/// Scanning one token always advances the cursor, never past the end, and
/// never moves the line counter backwards.
proof fn lemma_scan_one_advances(src: Seq<char>, pos: int, line: int)
    requires
        0 <= pos < src.len(),
    ensures
        pos < scan_one(src, pos, line).next <= src.len(),
        scan_one(src, pos, line).line2 >= line,
{
    lemma_stops_bounds(src, pos + 1);
    if pos + 2 <= src.len() {
        lemma_stops_bounds(src, pos + 2);
        lemma_count_nl_nonneg(src, pos + 2, comment_stop(src, pos + 2));
    }
    lemma_count_nl_nonneg(src, pos + 1, mstring_stop(src, pos + 1));
    let c = src[pos];
    if is_digit_c(c) {
        let d1 = digits_stop(src, pos + 1);
        if d1 < src.len() && src[d1] == '.' && d1 + 1 < src.len() && is_digit_c(src[d1 + 1]) {
            lemma_stops_bounds(src, d1 + 1);
        }
    }
}

/// What scanning the whole source from a position and line produces.
pub open spec fn lex_from(src: Seq<char>, pos: int, line: int) -> LexOutV
    decreases src.len() - pos,
        when pos >= src.len() || (0 <= pos && line >= 0)
    via lex_from_decreases
{
    if pos >= src.len() {
        LexOutV { toks: seq![eof_tok(line)], errs: Seq::empty() }
    } else {
        let st = scan_one(src, pos, line);
        let rest = lex_from(src, st.next, st.line2);
        LexOutV { toks: opt_seq(st.tok) + rest.toks, errs: opt_seq(st.err) + rest.errs }
    }
}

#[via_fn]
proof fn lex_from_decreases(src: Seq<char>, pos: int, line: int) {
    if pos < src.len() {
        lemma_scan_one_advances(src, pos, line);
    }
}


/// Copies a token list.
fn clone_tokens(v: &Vec<Token>) -> (r: Vec<Token>)
    ensures
        r@ == v@,
{
    let n = v.len();
    let mut r: Vec<Token> = Vec::new();
    let mut i: usize = 0;
    while i < n
        invariant
            i <= n,
            n == v@.len(),
            r@ == v@.take(i as int),
        decreases n - i,
    {
        r.push(v[i].clone());
        i = i + 1;
        proof {
            assert(r@ =~= v@.take(i as int));
        }
    }
    proof {
        assert(v@.take(n as int) =~= v@);
    }
    r
}

/// The lexer state: the source characters, the tokens and errors produced
/// so far, the keyword table, and the start, cursor and line counters.
pub struct Scanner {
    pub source: Vec<char>,
    pub tokens: Vec<Token>,
    pub errors: Vec<LexError>,
    pub keywords: StringHashMap<TokenType>,
    pub start: usize,
    pub current: usize,
    pub line: usize,
}

impl Scanner {
    /// The scanner's cursor and line counters stay within the source, and
    /// its keyword table is the fixed one.
    pub open spec fn wf(&self) -> bool {
        &&& self.start <= self.current <= self.source@.len()
        &&& 1 <= self.line <= 1 + self.current
        &&& self.source@.len() < usize::MAX
        &&& self.keywords@ == keyword_map()
    }

    /// Builds the fixed table of reserved words.
    pub fn create_keywords() -> (r: StringHashMap<TokenType>)
        ensures
            r@ == keyword_map(),
    {
        let mut map: StringHashMap<TokenType> = StringHashMap::new();
        map.insert(String::from_str("and"), TokenType::And);
        map.insert(String::from_str("class"), TokenType::Class);
        map.insert(String::from_str("else"), TokenType::Else);
        map.insert(String::from_str("false"), TokenType::False);
        map.insert(String::from_str("for"), TokenType::For);
        map.insert(String::from_str("taco"), TokenType::Func);
        map.insert(String::from_str("if"), TokenType::If);
        map.insert(String::from_str("nil"), TokenType::Nil);
        map.insert(String::from_str("or"), TokenType::Or);
        map.insert(String::from_str("print"), TokenType::Print);
        map.insert(String::from_str("return"), TokenType::Return);
        map.insert(String::from_str("super"), TokenType::Super);
        map.insert(String::from_str("this"), TokenType::This);
        map.insert(String::from_str("true"), TokenType::True);
        map.insert(String::from_str("let"), TokenType::Let);
        map.insert(String::from_str("while"), TokenType::While);
        map
    }

    /// A copy of the keyword table.
    pub fn get_keywords(&self) -> (r: StringHashMap<TokenType>)
        requires
            self.keywords@ == keyword_map(),
        ensures
            r@ == self.keywords@,
    {
        Scanner::create_keywords()
    }

    /// Starts a scan at the beginning of the source, on line one.
    pub fn new(source: String) -> (r: Scanner)
        requires
            source@.len() < usize::MAX,
        ensures
            r.wf(),
            r.source@ == source@,
            r.tokens@ == Seq::<Token>::empty(),
            r.errors@ == Seq::<LexError>::empty(),
            r.start == 0,
            r.current == 0,
            r.line == 1,
    {
        let r = Scanner {
            source: chars_of(source.as_str()),
            tokens: Vec::new(),
            errors: Vec::new(),
            keywords: Scanner::create_keywords(),
            start: 0,
            current: 0,
            line: 1,
        };
        r
    }

    /// Whether the cursor has passed the last source character.
    fn is_at_end(&self) -> (r: bool)
        ensures
            r == (self.current >= self.source@.len()),
    {
        self.current >= self.source.len()
    }

    /// Consumes and returns the character under the cursor.
    fn advance(&mut self) -> (c: char)
        requires
            old(self).wf(),
            old(self).current < old(self).source@.len(),
        ensures
            final(self).wf(),
            final(self).source == old(self).source,
            final(self).tokens == old(self).tokens,
            final(self).errors == old(self).errors,
            final(self).keywords == old(self).keywords,
            final(self).start == old(self).start,
            final(self).line == old(self).line,
            final(self).current == old(self).current + 1,
            c == old(self).source@[old(self).current as int],
    {
        let c = self.source[self.current];
        self.current = self.current + 1;
        c
    }

    /// The character under the cursor, or the null character at the end.
    fn peek(&self) -> (c: char)
        requires
            self.wf(),
        ensures
            c == if self.current < self.source@.len() {
                self.source@[self.current as int]
            } else {
                '\0'
            },
    {
        if self.is_at_end() {
            return '\0';
        }
        self.source[self.current]
    }

    /// The character after the cursor, or the null character at the end.
    fn peek_next(&self) -> (c: char)
        requires
            self.wf(),
        ensures
            c == if self.current + 1 < self.source@.len() {
                self.source@[self.current + 1]
            } else {
                '\0'
            },
    {
        if self.current + 1 >= self.source.len() {
            return '\0';
        }
        self.source[self.current + 1]
    }

    /// Whether the character under the cursor is the expected one.
    fn match_next(&self, token: char) -> (r: bool)
        requires
            self.wf(),
        ensures
            r == (self.current < self.source@.len() && self.source@[self.current as int] == token),
    {
        if self.is_at_end() {
            return false;
        }
        self.source[self.current] == token
    }

    /// Whether a character is a decimal digit.
    fn is_a_digit(character: char) -> (r: bool)
        ensures
            r == is_digit_c(character),
    {
        let u = character as u32;
        48 <= u && u <= 57
    }

    /// Whether a character may begin an identifier.
    fn is_alpha(character: char) -> (r: bool)
        ensures
            r == is_alpha_c(character),
    {
        char_is_alphabetic(character) || character == '_'
    }

    /// Whether a character may continue an identifier.
    fn is_alphanumeric(character: char) -> (r: bool)
        ensures
            r == is_alnum_c(character),
    {
        Scanner::is_a_digit(character) || Scanner::is_alpha(character)
    }

    /// Appends a token of the given kind whose lexeme is the source text
    /// from `start` to the cursor, with the given literal text.
    fn add_token_with_literal(&mut self, type_: TokenType, literal: String)
        requires
            old(self).wf(),
        ensures
            final(self).wf(),
            final(self).source == old(self).source,
            final(self).errors == old(self).errors,
            final(self).keywords == old(self).keywords,
            final(self).start == old(self).start,
            final(self).line == old(self).line,
            final(self).current == old(self).current,
            final(self).tokens.deep_view() == old(self).tokens.deep_view() + seq![
                TokenV {
                    kind: type_,
                    lexeme: old(self).source@.subrange(
                        old(self).start as int,
                        old(self).current as int,
                    ),
                    literal: literal@,
                    line: old(self).line as int,
                },
            ],
    {
        let text = string_of_range(&self.source, self.start, self.current);
        let ghost prev = self.tokens@;
        let ghost prev_deep = self.tokens.deep_view();
        let tok = Token { token_type: type_, lexeme: text, literal, line: self.line };
        let ghost tv = tok@;
        self.tokens.push(tok);
        proof {
            assert(self.tokens@ =~= prev.push(self.tokens@.last()));
            assert(self.tokens.deep_view() =~= prev_deep.push(tv)) by {
                assert forall|j: int| 0 <= j < prev.len() implies #[trigger] self.tokens.deep_view()[j]
                    == prev_deep[j] by {
                    assert(self.tokens@[j] == prev[j]);
                }
                assert(self.tokens.deep_view()[prev.len() as int] == tv);
            }
            assert(self.tokens.deep_view() =~= prev_deep + seq![tv]);
        }
    }

    /// Appends a token with an empty literal text.
    fn add_token(&mut self, type_: TokenType)
        requires
            old(self).wf(),
        ensures
            final(self).wf(),
            final(self).source == old(self).source,
            final(self).errors == old(self).errors,
            final(self).keywords == old(self).keywords,
            final(self).start == old(self).start,
            final(self).line == old(self).line,
            final(self).current == old(self).current,
            final(self).tokens.deep_view() == old(self).tokens.deep_view() + seq![
                TokenV {
                    kind: type_,
                    lexeme: old(self).source@.subrange(
                        old(self).start as int,
                        old(self).current as int,
                    ),
                    literal: Seq::empty(),
                    line: old(self).line as int,
                },
            ],
    {
        let lit = String::new();
        self.add_token_with_literal(type_, lit);
    }

    /// Records a lexical error on the current line.
    fn add_error(&mut self, message: &str)
        requires
            old(self).wf(),
        ensures
            final(self).wf(),
            final(self).source == old(self).source,
            final(self).tokens == old(self).tokens,
            final(self).keywords == old(self).keywords,
            final(self).start == old(self).start,
            final(self).line == old(self).line,
            final(self).current == old(self).current,
            final(self).errors.deep_view() == old(self).errors.deep_view() + seq![
                LexErrV { line: old(self).line as int, message: message@ },
            ],
    {
        let ghost prev = self.errors@;
        let ghost prev_deep = self.errors.deep_view();
        let e = LexError { line: self.line, message: String::from_str(message) };
        let ghost ev = e@;
        self.errors.push(e);
        proof {
            assert(self.errors@ =~= prev.push(self.errors@.last()));
            assert(self.errors.deep_view() =~= prev_deep.push(ev)) by {
                assert forall|j: int| 0 <= j < prev.len() implies #[trigger] self.errors.deep_view()[j]
                    == prev_deep[j] by {
                    assert(self.errors@[j] == prev[j]);
                }
                assert(self.errors.deep_view()[prev.len() as int] == ev);
            }
            assert(self.errors.deep_view() =~= prev_deep + seq![ev]);
        }
    }
}


impl Scanner {
    /// Scans the rest of a single-line string, after its opening quote.
    /// A newline or the end of input before the closing quote is an
    /// unterminated-string error; the string token's literal text is the
    /// content between the quotes.
    fn handle_string(&mut self)
        requires
            old(self).wf(),
            old(self).start < old(self).source@.len(),
            old(self).current == old(self).start + 1,
            old(self).source@[old(self).start as int] == '"',
        ensures
            final(self).wf(),
            final(self).source == old(self).source,
            final(self).keywords == old(self).keywords,
            final(self).start == old(self).start,
            ({
                let st = scan_one(old(self).source@, old(self).start as int, old(self).line as int);
                &&& final(self).current as int == st.next
                &&& final(self).line as int == st.line2
                &&& final(self).tokens.deep_view() == old(self).tokens.deep_view() + opt_seq(st.tok)
                &&& final(self).errors.deep_view() == old(self).errors.deep_view() + opt_seq(st.err)
            }),
    {
        let ghost src = self.source@;
        let ghost stop = string_stop(src, old(self).start as int + 1);
        let n = self.source.len();
        while self.current < n && self.source[self.current] != '"' && self.source[self.current]
            != '\n'
            invariant
                self.wf(),
                self.source == old(self).source,
                self.tokens == old(self).tokens,
                self.errors == old(self).errors,
                self.keywords == old(self).keywords,
                self.start == old(self).start,
                self.line == old(self).line,
                src == self.source@,
                n == src.len(),
                old(self).start + 1 <= self.current,
                string_stop(src, self.current as int) == stop,
            decreases n - self.current,
        {
            let ghost cur = self.current as int;
            self.current = self.current + 1;
            proof {
                assert(string_stop(src, cur) == string_stop(src, cur + 1));
            }
        }
        proof {
            assert(self.current as int == stop);
        }
        if self.current >= n {
            self.add_error("Unterminated string");
            return;
        }
        if self.source[self.current] == '\n' {
            self.add_error("Unterminated string");
            return;
        }
        self.current = self.current + 1;
        let value = string_of_range(&self.source, self.start + 1, self.current - 1);
        self.add_token_with_literal(TokenType::String, value);
    }

    /// Scans the rest of a multi-line string, after its opening backtick,
    /// crossing lines freely; only the end of input before the closing
    /// backtick is an unterminated-string error.
    fn handle_multiline_string(&mut self)
        requires
            old(self).wf(),
            old(self).start < old(self).source@.len(),
            old(self).current == old(self).start + 1,
            old(self).source@[old(self).start as int] == '`',
        ensures
            final(self).wf(),
            final(self).source == old(self).source,
            final(self).keywords == old(self).keywords,
            final(self).start == old(self).start,
            ({
                let st = scan_one(old(self).source@, old(self).start as int, old(self).line as int);
                &&& final(self).current as int == st.next
                &&& final(self).line as int == st.line2
                &&& final(self).tokens.deep_view() == old(self).tokens.deep_view() + opt_seq(st.tok)
                &&& final(self).errors.deep_view() == old(self).errors.deep_view() + opt_seq(st.err)
            }),
    {
        let ghost src = self.source@;
        let ghost stop = mstring_stop(src, old(self).start as int + 1);
        let n = self.source.len();
        while self.current < n && self.source[self.current] != '`'
            invariant
                self.wf(),
                self.source == old(self).source,
                self.tokens == old(self).tokens,
                self.errors == old(self).errors,
                self.keywords == old(self).keywords,
                self.start == old(self).start,
                src == self.source@,
                n == src.len(),
                old(self).start + 1 <= self.current,
                mstring_stop(src, self.current as int) == stop,
                self.line as int == old(self).line + count_nl(
                    src,
                    old(self).start as int + 1,
                    self.current as int,
                ),
            decreases n - self.current,
        {
            let ghost cur = self.current as int;
            proof {
                lemma_count_nl_nonneg(src, old(self).start as int + 1, cur);
            }
            if self.source[self.current] == '\n' {
                self.line = self.line + 1;
            }
            self.current = self.current + 1;
            proof {
                assert(mstring_stop(src, cur) == mstring_stop(src, cur + 1));
                assert(count_nl(src, old(self).start as int + 1, cur + 1) == count_nl(
                    src,
                    old(self).start as int + 1,
                    cur,
                ) + if src[cur] == '\n' {
                    1int
                } else {
                    0int
                });
            }
        }
        proof {
            assert(self.current as int == stop);
        }
        if self.current >= n {
            self.add_error("Unterminated string");
            return;
        }
        self.current = self.current + 1;
        let value = string_of_range(&self.source, self.start + 1, self.current - 1);
        self.add_token_with_literal(TokenType::String, value);
    }

    /// Scans a block comment, after its opening `/*`: everything up to
    /// and including the first `*/` is dropped, or the whole rest of the
    /// input when no `*/` follows; lines crossed move the line counter.
    fn handle_multiline_comment(&mut self)
        requires
            old(self).wf(),
            old(self).current == old(self).start + 2,
            old(self).current <= old(self).source@.len(),
        ensures
            final(self).wf(),
            final(self).source == old(self).source,
            final(self).tokens == old(self).tokens,
            final(self).errors == old(self).errors,
            final(self).keywords == old(self).keywords,
            final(self).start == old(self).start,
            final(self).current as int == comment_stop(old(self).source@, old(self).current as int),
            final(self).line as int == old(self).line + count_nl(
                old(self).source@,
                old(self).current as int,
                comment_stop(old(self).source@, old(self).current as int),
            ),
    {
        let ghost src = self.source@;
        let ghost c0 = old(self).current as int;
        let ghost stop = comment_stop(src, c0);
        let n = self.source.len();
        while self.current + 1 < n && !(self.source[self.current] == '*'
            && self.source[self.current + 1] == '/')
            invariant
                self.wf(),
                self.source == old(self).source,
                self.tokens == old(self).tokens,
                self.errors == old(self).errors,
                self.keywords == old(self).keywords,
                self.start == old(self).start,
                src == self.source@,
                n == src.len(),
                c0 <= self.current,
                comment_stop(src, self.current as int) == stop,
                self.line as int == old(self).line + count_nl(src, c0, self.current as int),
            decreases n - self.current,
        {
            let ghost cur = self.current as int;
            proof {
                lemma_count_nl_nonneg(src, c0, cur);
            }
            if self.source[self.current] == '\n' {
                self.line = self.line + 1;
            }
            self.current = self.current + 1;
            proof {
                assert(comment_stop(src, cur) == comment_stop(src, cur + 1));
                assert(count_nl(src, c0, cur + 1) == count_nl(src, c0, cur) + if src[cur] == '\n' {
                    1int
                } else {
                    0int
                });
            }
        }
        if self.current + 1 < n {
            let ghost cur = self.current as int;
            proof {
                assert(stop == cur + 2);
                assert(src[cur] == '*' && src[cur + 1] == '/');
                assert(count_nl(src, c0, cur + 1) == count_nl(src, c0, cur));
                assert(count_nl(src, c0, cur + 2) == count_nl(src, c0, cur + 1));
            }
            self.current = self.current + 2;
        } else {
            if self.current < n {
                let ghost cur = self.current as int;
                proof {
                    assert(stop == n as int);
                    assert(count_nl(src, c0, cur + 1) == count_nl(src, c0, cur) + if src[cur]
                        == '\n' {
                        1int
                    } else {
                        0int
                    });
                }
                if self.source[self.current] == '\n' {
                    self.line = self.line + 1;
                }
                self.current = self.current + 1;
            } else {
                proof {
                    assert(stop == n as int);
                }
            }
        }
    }

    /// Scans the rest of a number, after its first digit: digits, then
    /// optionally a dot followed by a digit and more digits for a float.
    fn handle_number(&mut self)
        requires
            old(self).wf(),
            old(self).start < old(self).source@.len(),
            old(self).current == old(self).start + 1,
            is_digit_c(old(self).source@[old(self).start as int]),
            punct_kind(old(self).source@[old(self).start as int]) is None,
        ensures
            final(self).wf(),
            final(self).source == old(self).source,
            final(self).keywords == old(self).keywords,
            final(self).start == old(self).start,
            ({
                let st = scan_one(old(self).source@, old(self).start as int, old(self).line as int);
                &&& final(self).current as int == st.next
                &&& final(self).line as int == st.line2
                &&& final(self).tokens.deep_view() == old(self).tokens.deep_view() + opt_seq(st.tok)
                &&& final(self).errors.deep_view() == old(self).errors.deep_view() + opt_seq(st.err)
            }),
    {
        let ghost src = self.source@;
        let ghost d1 = digits_stop(src, old(self).start as int + 1);
        let n = self.source.len();
        let mut is_float = false;
        while self.current < n && Scanner::is_a_digit(self.source[self.current])
            invariant
                self.wf(),
                self.source == old(self).source,
                self.tokens == old(self).tokens,
                self.errors == old(self).errors,
                self.keywords == old(self).keywords,
                self.start == old(self).start,
                self.line == old(self).line,
                src == self.source@,
                n == src.len(),
                old(self).start + 1 <= self.current,
                digits_stop(src, self.current as int) == d1,
            decreases n - self.current,
        {
            let ghost cur = self.current as int;
            self.current = self.current + 1;
            proof {
                assert(digits_stop(src, cur) == digits_stop(src, cur + 1));
            }
        }
        proof {
            assert(self.current as int == d1);
        }
        if self.peek() == '.' && Scanner::is_a_digit(self.peek_next()) {
            is_float = true;
            self.current = self.current + 1;
            let ghost d2 = digits_stop(src, d1 + 1);
            while self.current < n && Scanner::is_a_digit(self.source[self.current])
                invariant
                    self.wf(),
                    self.source == old(self).source,
                    self.tokens == old(self).tokens,
                    self.errors == old(self).errors,
                    self.keywords == old(self).keywords,
                    self.start == old(self).start,
                    self.line == old(self).line,
                    src == self.source@,
                    n == src.len(),
                    d1 + 1 <= self.current,
                    digits_stop(src, self.current as int) == d2,
                decreases n - self.current,
            {
                let ghost cur = self.current as int;
                self.current = self.current + 1;
                proof {
                    assert(digits_stop(src, cur) == digits_stop(src, cur + 1));
                }
            }
            proof {
                assert(self.current as int == d2);
            }
            let value = string_of_range(&self.source, self.start, self.current);
            self.add_token_with_literal(TokenType::Float, value);
        } else {
            let value = string_of_range(&self.source, self.start, self.current);
            self.add_token_with_literal(TokenType::Integer, value);
        }
    }

    /// Scans the rest of an identifier, after its first character, then
    /// resolves it against the keyword table.
    fn handle_identifier(&mut self)
        requires
            old(self).wf(),
            old(self).start < old(self).source@.len(),
            old(self).current == old(self).start + 1,
            is_alpha_c(old(self).source@[old(self).start as int]),
            punct_kind(old(self).source@[old(self).start as int]) is None,
            !is_digit_c(old(self).source@[old(self).start as int]),
            old(self).source@[old(self).start as int] != '!',
            old(self).source@[old(self).start as int] != '=',
            old(self).source@[old(self).start as int] != '<',
            old(self).source@[old(self).start as int] != '>',
            old(self).source@[old(self).start as int] != '#',
            old(self).source@[old(self).start as int] != '/',
            old(self).source@[old(self).start as int] != ' ',
            old(self).source@[old(self).start as int] != '\r',
            old(self).source@[old(self).start as int] != '\t',
            old(self).source@[old(self).start as int] != '\n',
            old(self).source@[old(self).start as int] != '"',
            old(self).source@[old(self).start as int] != '`',
        ensures
            final(self).wf(),
            final(self).source == old(self).source,
            final(self).keywords == old(self).keywords,
            final(self).start == old(self).start,
            ({
                let st = scan_one(old(self).source@, old(self).start as int, old(self).line as int);
                &&& final(self).current as int == st.next
                &&& final(self).line as int == st.line2
                &&& final(self).tokens.deep_view() == old(self).tokens.deep_view() + opt_seq(st.tok)
                &&& final(self).errors.deep_view() == old(self).errors.deep_view() + opt_seq(st.err)
            }),
    {
        let ghost src = self.source@;
        let ghost stop = ident_stop(src, old(self).start as int + 1);
        let n = self.source.len();
        while self.current < n && Scanner::is_alphanumeric(self.source[self.current])
            invariant
                self.wf(),
                self.source == old(self).source,
                self.tokens == old(self).tokens,
                self.errors == old(self).errors,
                self.keywords == old(self).keywords,
                self.start == old(self).start,
                self.line == old(self).line,
                src == self.source@,
                n == src.len(),
                old(self).start + 1 <= self.current,
                ident_stop(src, self.current as int) == stop,
            decreases n - self.current,
        {
            let ghost cur = self.current as int;
            self.current = self.current + 1;
            proof {
                assert(ident_stop(src, cur) == ident_stop(src, cur + 1));
            }
        }
        proof {
            assert(self.current as int == stop);
        }
        let text = string_of_range(&self.source, self.start, self.current);
        let type_ = match self.keywords.get(text.as_str()) {
            Some(k) => *k,
            None => TokenType::Identifier,
        };
        proof {
            assert(type_ == ident_kind(src.subrange(self.start as int, self.current as int)));
        }
        self.add_token(type_);
    }
}


impl Scanner {
    /// Scans one token starting at the cursor, exactly as [`scan_one`]
    /// describes: the cursor and line counter move to its result, and the
    /// token or error it gives, if any, is appended.
    fn scan_token(&mut self)
        requires
            old(self).wf(),
            old(self).start == old(self).current,
            old(self).current < old(self).source@.len(),
        ensures
            final(self).wf(),
            final(self).source == old(self).source,
            final(self).keywords == old(self).keywords,
            final(self).start == old(self).start,
            ({
                let st = scan_one(old(self).source@, old(self).current as int, old(self).line as int);
                &&& final(self).current as int == st.next
                &&& final(self).line as int == st.line2
                &&& final(self).tokens.deep_view() == old(self).tokens.deep_view() + opt_seq(st.tok)
                &&& final(self).errors.deep_view() == old(self).errors.deep_view() + opt_seq(st.err)
            }),
    {
        let ghost src = self.source@;
        let ghost pos = old(self).current as int;
        let c = self.advance();
        match c {
            '(' => {
                let lit = string_of_range(&self.source, self.start, self.current);
                self.add_token_with_literal(TokenType::LeftParen, lit);
            },
            ')' => {
                let lit = string_of_range(&self.source, self.start, self.current);
                self.add_token_with_literal(TokenType::RightParen, lit);
            },
            '{' => {
                let lit = string_of_range(&self.source, self.start, self.current);
                self.add_token_with_literal(TokenType::LeftBrace, lit);
            },
            '}' => {
                let lit = string_of_range(&self.source, self.start, self.current);
                self.add_token_with_literal(TokenType::RightBrace, lit);
            },
            ',' => {
                let lit = string_of_range(&self.source, self.start, self.current);
                self.add_token_with_literal(TokenType::Comma, lit);
            },
            '.' => {
                let lit = string_of_range(&self.source, self.start, self.current);
                self.add_token_with_literal(TokenType::Dot, lit);
            },
            '-' => {
                let lit = string_of_range(&self.source, self.start, self.current);
                self.add_token_with_literal(TokenType::Minus, lit);
            },
            '+' => {
                let lit = string_of_range(&self.source, self.start, self.current);
                self.add_token_with_literal(TokenType::Plus, lit);
            },
            ';' => {
                let lit = string_of_range(&self.source, self.start, self.current);
                self.add_token_with_literal(TokenType::Semicolon, lit);
            },
            '*' => {
                let lit = string_of_range(&self.source, self.start, self.current);
                self.add_token_with_literal(TokenType::Star, lit);
            },
            '!' => {
                if self.match_next('=') {
                    self.advance();
                    let lit = string_of_range(&self.source, self.start, self.current);
                    self.add_token_with_literal(TokenType::BangEqual, lit);
                } else {
                    let lit = string_of_range(&self.source, self.start, self.current);
                    self.add_token_with_literal(TokenType::Bang, lit);
                }
            },
            '=' => {
                if self.match_next('=') {
                    self.advance();
                    let lit = string_of_range(&self.source, self.start, self.current);
                    self.add_token_with_literal(TokenType::EqualEqual, lit);
                } else {
                    let lit = string_of_range(&self.source, self.start, self.current);
                    self.add_token_with_literal(TokenType::Equal, lit);
                }
            },
            '<' => {
                if self.match_next('=') {
                    self.advance();
                    let lit = string_of_range(&self.source, self.start, self.current);
                    self.add_token_with_literal(TokenType::LessEqual, lit);
                } else {
                    let lit = string_of_range(&self.source, self.start, self.current);
                    self.add_token_with_literal(TokenType::Less, lit);
                }
            },
            '>' => {
                if self.match_next('=') {
                    self.advance();
                    let lit = string_of_range(&self.source, self.start, self.current);
                    self.add_token_with_literal(TokenType::GreaterEqual, lit);
                } else {
                    let lit = string_of_range(&self.source, self.start, self.current);
                    self.add_token_with_literal(TokenType::Greater, lit);
                }
            },
            '#' => {
                let ghost skip = line_skip(src, pos + 1);
                let n = self.source.len();
                while self.current < n && self.source[self.current] != '\n'
                    invariant
                        self.wf(),
                        self.source == old(self).source,
                        self.tokens == old(self).tokens,
                        self.errors == old(self).errors,
                        self.keywords == old(self).keywords,
                        self.start == old(self).start,
                        self.line == old(self).line,
                        src == self.source@,
                        n == src.len(),
                        pos + 1 <= self.current,
                        line_skip(src, self.current as int) == skip,
                    decreases n - self.current,
                {
                    let ghost cur = self.current as int;
                    self.current = self.current + 1;
                    proof {
                        assert(line_skip(src, cur) == line_skip(src, cur + 1));
                    }
                }
                proof {
                    assert(self.current as int == skip);
                }
            },
            '/' => {
                if self.match_next('*') {
                    self.advance();
                    self.handle_multiline_comment();
                } else {
                    let lit = string_of_range(&self.source, self.start, self.current);
                    self.add_token_with_literal(TokenType::Slash, lit);
                }
            },
            ' ' | '\r' | '\t' => {},
            '\n' => {
                self.line = self.line + 1;
            },
            '"' => {
                self.handle_string();
            },
            '`' => {
                self.handle_multiline_string();
            },
            _ => {
                if Scanner::is_a_digit(c) {
                    self.handle_number();
                } else if Scanner::is_alpha(c) {
                    self.handle_identifier();
                } else {
                    self.add_error("Unexpected character found");
                }
            },
        }
    }

    /// Scans the whole remaining source, appending the tokens and errors
    /// that [`lex_from`] gives, with the end-of-input token last, and
    /// returns a copy of the token list.
    pub fn scan_tokens(&mut self) -> (r: Vec<Token>)
        requires
            old(self).wf(),
        ensures
            final(self).wf(),
            final(self).tokens.deep_view() == old(self).tokens.deep_view() + lex_from(
                old(self).source@,
                old(self).current as int,
                old(self).line as int,
            ).toks,
            final(self).errors.deep_view() == old(self).errors.deep_view() + lex_from(
                old(self).source@,
                old(self).current as int,
                old(self).line as int,
            ).errs,
            r@ == final(self).tokens@,
    {
        let ghost src = self.source@;
        let ghost lex = lex_from(src, old(self).current as int, old(self).line as int);
        let ghost toks0 = self.tokens.deep_view();
        let ghost errs0 = self.errors.deep_view();
        while !self.is_at_end()
            invariant
                self.wf(),
                self.source@ == src,
                toks0 + lex.toks =~= self.tokens.deep_view() + lex_from(
                    src,
                    self.current as int,
                    self.line as int,
                ).toks,
                errs0 + lex.errs =~= self.errors.deep_view() + lex_from(
                    src,
                    self.current as int,
                    self.line as int,
                ).errs,
            decreases src.len() - self.current,
        {
            self.start = self.current;
            let ghost pos = self.current as int;
            let ghost ln = self.line as int;
            let ghost toks_before = self.tokens.deep_view();
            let ghost errs_before = self.errors.deep_view();
            self.scan_token();
            proof {
                lemma_scan_one_advances(src, pos, ln);
                let st = scan_one(src, pos, ln);
                assert(lex_from(src, pos, ln).toks == opt_seq(st.tok) + lex_from(
                    src,
                    st.next,
                    st.line2,
                ).toks);
                assert(lex_from(src, pos, ln).errs == opt_seq(st.err) + lex_from(
                    src,
                    st.next,
                    st.line2,
                ).errs);
                assert(self.tokens.deep_view() + lex_from(
                    src,
                    self.current as int,
                    self.line as int,
                ).toks =~= toks_before + lex_from(src, pos, ln).toks);
                assert(self.errors.deep_view() + lex_from(
                    src,
                    self.current as int,
                    self.line as int,
                ).errs =~= errs_before + lex_from(src, pos, ln).errs);
            }
        }
        let ghost toks_end = self.tokens.deep_view();
        let ghost prev = self.tokens@;
        let eof = Token {
            token_type: TokenType::Eof,
            lexeme: String::new(),
            literal: String::new(),
            line: self.line,
        };
        let ghost ev = eof@;
        self.tokens.push(eof);
        proof {
            assert(ev == eof_tok(self.line as int));
            assert(self.tokens@ =~= prev.push(self.tokens@.last()));
            assert(self.tokens.deep_view() =~= toks_end.push(ev)) by {
                assert forall|j: int| 0 <= j < prev.len() implies #[trigger] self.tokens.deep_view()[j]
                    == toks_end[j] by {
                    assert(self.tokens@[j] == prev[j]);
                }
                assert(self.tokens.deep_view()[prev.len() as int] == ev);
            }
            assert(lex_from(src, self.current as int, self.line as int).toks == seq![
                eof_tok(self.line as int),
            ]);
            assert(lex_from(src, self.current as int, self.line as int).errs
                == Seq::<LexErrV>::empty());
            assert(self.tokens.deep_view() =~= toks0 + lex.toks);
            assert(self.errors.deep_view() =~= errs0 + lex.errs);
        }
        clone_tokens(&self.tokens)
    }
}

/// A whole pass always yields at least one token; the last one, and only
/// the last one, is the end-of-input token.
pub proof fn lemma_lex_single_eof(src: Seq<char>, pos: int, line: int)
    requires
        0 <= pos,
        0 <= line,
    ensures
        lex_from(src, pos, line).toks.len() >= 1,
        lex_from(src, pos, line).toks.last().kind == TokenType::Eof,
        forall|i: int|
            0 <= i < lex_from(src, pos, line).toks.len() - 1 ==> lex_from(
                src,
                pos,
                line,
            ).toks[i].kind != TokenType::Eof,
    decreases src.len() - pos,
{
    if pos >= src.len() {
    } else {
        let st = scan_one(src, pos, line);
        lemma_scan_one_advances(src, pos, line);
        lemma_lex_single_eof(src, st.next, st.line2);
        assert(match st.tok {
            Some(t) => t.kind != TokenType::Eof,
            None => true,
        });
        let toks = lex_from(src, pos, line).toks;
        let rest = lex_from(src, st.next, st.line2).toks;
        assert(toks == opt_seq(st.tok) + rest);
        assert(toks.last() == rest.last());
        assert forall|i: int| 0 <= i < toks.len() - 1 implies toks[i].kind != TokenType::Eof by {
            if i >= opt_seq(st.tok).len() {
                assert(toks[i] == rest[i - opt_seq(st.tok).len()]);
            }
        }
    }
}

} // verus!
