//! Ghost model of the scan: character classes, lexeme boundaries, and a
//! state machine `spec_step` / `spec_scan` over the source's character
//! sequence. The executable scanner is proved to follow this model exactly,
//! and the scanner's laws are proved about it.

use crate::error::ScannerErrorV;
use crate::token::LiteralV;
use crate::token::TokenType;
use crate::token::TokenV;
use vstd::prelude::*;

verus! {

// ---------------------------------------------------------------------------
// Character classes
// ---------------------------------------------------------------------------
/// ASCII decimal digit.
pub open spec fn is_digit(c: char) -> bool {
    48 <= c as u32 && c as u32 <= 57
}

/// ASCII letter or underscore: the characters that may open an identifier.
pub open spec fn is_alpha(c: char) -> bool {
    (65 <= c as u32 && c as u32 <= 90) || (97 <= c as u32 && c as u32 <= 122) || c as u32 == 95
}

/// Character that may continue an identifier.
pub open spec fn is_alnum(c: char) -> bool {
    is_alpha(c) || is_digit(c)
}

/// Executable test for `is_digit`.
pub fn is_digit_char(c: char) -> (r: bool)
    ensures
        r == is_digit(c),
{
    let u = c as u32;
    48 <= u && u <= 57
}

/// Executable test for `is_alpha`.
pub fn is_alpha_char(c: char) -> (r: bool)
    ensures
        r == is_alpha(c),
{
    let u = c as u32;
    (65 <= u && u <= 90) || (97 <= u && u <= 122) || u == 95
}

/// Executable test for `is_alnum`.
pub fn is_alnum_char(c: char) -> (r: bool)
    ensures
        r == is_alnum(c),
{
    is_alpha_char(c) || is_digit_char(c)
}

/// Single-character punctuation other than slash (which may open a comment).
pub open spec fn is_punct(c: char) -> bool {
    c == '(' || c == ')' || c == '{' || c == '}' || c == ',' || c == '.' || c == '-' || c == '+'
        || c == ';' || c == '*'
}

/// The token kind of one punctuation character.
pub open spec fn punct_kind(c: char) -> TokenType
    recommends
        is_punct(c),
{
    if c == '(' {
        TokenType::LeftParen
    } else if c == ')' {
        TokenType::RightParen
    } else if c == '{' {
        TokenType::LeftBrace
    } else if c == '}' {
        TokenType::RightBrace
    } else if c == ',' {
        TokenType::Comma
    } else if c == '.' {
        TokenType::Dot
    } else if c == '-' {
        TokenType::Minus
    } else if c == '+' {
        TokenType::Plus
    } else if c == ';' {
        TokenType::Semicolon
    } else {
        TokenType::Star
    }
}

/// Character that may open a one- or two-character comparison operator.
pub open spec fn is_operator_start(c: char) -> bool {
    c == '!' || c == '=' || c == '<' || c == '>'
}

/// The token kind of an operator character standing alone.
pub open spec fn operator_single_kind(c: char) -> TokenType
    recommends
        is_operator_start(c),
{
    if c == '!' {
        TokenType::Bang
    } else if c == '=' {
        TokenType::Equal
    } else if c == '<' {
        TokenType::Less
    } else {
        TokenType::Greater
    }
}

/// The token kind of an operator character followed by `=`.
pub open spec fn operator_double_kind(c: char) -> TokenType
    recommends
        is_operator_start(c),
{
    if c == '!' {
        TokenType::BangEqual
    } else if c == '=' {
        TokenType::EqualEqual
    } else if c == '<' {
        TokenType::LessEqual
    } else {
        TokenType::GreaterEqual
    }
}

/// Whitespace that is discarded without effect on line counting.
pub open spec fn is_blank(c: char) -> bool {
    c == ' ' || c == '\r' || c == '\t'
}

/// Whether a character belongs to any recognized class; anything else is
/// reported as an unexpected character.
pub open spec fn is_recognized(c: char) -> bool {
    is_punct(c) || is_operator_start(c) || c == '/' || is_blank(c) || c == '\n' || c == '"'
        || is_digit(c) || is_alpha(c)
}

// ---------------------------------------------------------------------------
// Lexeme boundaries
// ---------------------------------------------------------------------------
/// Index just past the maximal run of decimal digits starting at `i`.
pub open spec fn digit_run_end(s: Seq<char>, i: int) -> int
    recommends
        0 <= i <= s.len(),
    decreases s.len() - i,
{
    if i < s.len() && is_digit(s[i]) {
        digit_run_end(s, i + 1)
    } else {
        i
    }
}

/// Index just past the maximal run of identifier characters starting at `i`.
pub open spec fn ident_run_end(s: Seq<char>, i: int) -> int
    recommends
        0 <= i <= s.len(),
    decreases s.len() - i,
{
    if i < s.len() && is_alnum(s[i]) {
        ident_run_end(s, i + 1)
    } else {
        i
    }
}

/// Index of the first newline at or after `i`, or the end of the source:
/// where a line comment opened before `i` stops consuming.
pub open spec fn line_comment_end(s: Seq<char>, i: int) -> int
    recommends
        0 <= i <= s.len(),
    decreases s.len() - i,
{
    if i < s.len() && s[i] != '\n' {
        line_comment_end(s, i + 1)
    } else {
        i
    }
}

/// Index of the first double quote at or after `i`, or the end of the
/// source: where a string literal opened before `i` closes.
pub open spec fn string_close(s: Seq<char>, i: int) -> int
    recommends
        0 <= i <= s.len(),
    decreases s.len() - i,
{
    if i < s.len() && s[i] != '"' {
        string_close(s, i + 1)
    } else {
        i
    }
}

/// Number of newline characters in `s[i..j]`.
pub open spec fn newlines_in(s: Seq<char>, i: int, j: int) -> int
    recommends
        0 <= i <= j <= s.len(),
    decreases j - i,
{
    if i >= j {
        0
    } else {
        (if s[i] == '\n' {
            1int
        } else {
            0int
        }) + newlines_in(s, i + 1, j)
    }
}

// ---------------------------------------------------------------------------
// Keywords and error messages
// ---------------------------------------------------------------------------
/// Fixed keyword table: the token kind of an identifier-shaped lexeme.
pub open spec fn keyword_kind(t: Seq<char>) -> TokenType {
    if t == "and"@ {
        TokenType::And
    } else if t == "class"@ {
        TokenType::Class
    } else if t == "else"@ {
        TokenType::Else
    } else if t == "false"@ {
        TokenType::False
    } else if t == "for"@ {
        TokenType::For
    } else if t == "fun"@ {
        TokenType::Fun
    } else if t == "if"@ {
        TokenType::If
    } else if t == "nil"@ {
        TokenType::Nil
    } else if t == "or"@ {
        TokenType::Or
    } else if t == "print"@ {
        TokenType::Print
    } else if t == "return"@ {
        TokenType::Return
    } else if t == "super"@ {
        TokenType::Super
    } else if t == "this"@ {
        TokenType::This
    } else if t == "true"@ {
        TokenType::True
    } else if t == "var"@ {
        TokenType::Var
    } else if t == "while"@ {
        TokenType::While
    } else {
        TokenType::Identifier
    }
}

/// The literal attached to a keyword token: only `true`, `false` and `nil`
/// carry one.
pub open spec fn keyword_literal(k: TokenType) -> Option<LiteralV> {
    match k {
        TokenType::True => Some(LiteralV::Boolean(true)),
        TokenType::False => Some(LiteralV::Boolean(false)),
        TokenType::Nil => Some(LiteralV::Nil),
        _ => None,
    }
}

/// Message recorded for a character outside every recognized class.
pub open spec fn unexpected_message(c: char) -> Seq<char> {
    "Unexpected character: "@.push(c)
}

/// Message recorded for a string literal that never closes.
pub open spec fn unterminated_message() -> Seq<char> {
    "Unterminated string."@
}

// ---------------------------------------------------------------------------
// The scan state machine
// ---------------------------------------------------------------------------
/// Ghost scan state: the cursor (index of the next unread character, line,
/// column) together with the tokens and errors produced so far.
#[verifier::ext_equal]
pub ghost struct ScanState {
    pub current: int,
    pub line: int,
    pub column: int,
    pub tokens: Seq<TokenV>,
    pub errors: Seq<ScannerErrorV>,
}

/// The state before any character has been consumed: line 1, column 0,
/// nothing produced.
pub open spec fn initial_state() -> ScanState {
    ScanState { current: 0, line: 1, column: 0, tokens: Seq::empty(), errors: Seq::empty() }
}

/// State after one more token has been emitted with the cursor moved.
pub open spec fn emitted(
    st: ScanState,
    kind: TokenType,
    lexeme: Seq<char>,
    literal: Option<LiteralV>,
    current: int,
    line: int,
    column: int,
) -> ScanState {
    ScanState {
        current,
        line,
        column,
        tokens: st.tokens.push(TokenV { token_type: kind, lexeme, literal, line, column }),
        errors: st.errors,
    }
}

/// Rest of a string lexeme once the opening quote (at `start`) has been
/// consumed and the cursor stands just past it. If no closing quote follows,
/// everything to the end of the source is consumed, an error is recorded at
/// the final cursor position, and no token is emitted; otherwise the token
/// carries the text strictly between the quotes as its decoded literal.
/// Newlines inside the literal advance the line counter without resetting
/// the column.
pub open spec fn string_tail_step(s: Seq<char>, st: ScanState, start: int) -> ScanState
    recommends
        0 <= start < st.current <= s.len(),
{
    let close = string_close(s, st.current);
    if close == s.len() {
        let line = st.line + newlines_in(s, st.current, s.len() as int);
        let column = st.column + (s.len() - st.current);
        ScanState {
            current: s.len() as int,
            line,
            column,
            tokens: st.tokens,
            errors: st.errors.push(ScannerErrorV { message: unterminated_message(), line, column }),
        }
    } else {
        emitted(
            st,
            TokenType::String,
            s.subrange(start, close + 1),
            Some(LiteralV::String(s.subrange(start + 1, close))),
            close + 1,
            st.line + newlines_in(s, st.current, close),
            st.column + (close + 1 - st.current),
        )
    }
}

/// Rest of a number lexeme once its first digit (at `start`) has been
/// consumed: the maximal digit run, then a fractional part only when a dot
/// is immediately followed by a digit. The token's decoded literal is the
/// exact numeric text of the lexeme.
pub open spec fn number_tail_step(s: Seq<char>, st: ScanState, start: int) -> ScanState
    recommends
        0 <= start < st.current <= s.len(),
{
    let run = digit_run_end(s, st.current);
    let end = if run < s.len() && s[run] == '.' && run + 1 < s.len() && is_digit(s[run + 1]) {
        digit_run_end(s, run + 1)
    } else {
        run
    };
    emitted(
        st,
        TokenType::Number,
        s.subrange(start, end),
        Some(LiteralV::Number(s.subrange(start, end))),
        end,
        st.line,
        st.column + (end - st.current),
    )
}

/// Rest of an identifier-shaped lexeme once its first character (at `start`)
/// has been consumed: the maximal alphanumeric/underscore run, then the
/// keyword lookup.
pub open spec fn ident_tail_step(s: Seq<char>, st: ScanState, start: int) -> ScanState
    recommends
        0 <= start < st.current <= s.len(),
{
    let end = ident_run_end(s, st.current);
    let text = s.subrange(start, end);
    let kind = keyword_kind(text);
    emitted(st, kind, text, keyword_literal(kind), end, st.line, st.column + (end - st.current))
}

/// One step of the scan: consumes exactly one lexeme (or one discarded
/// character) starting at `st.current` and returns the next state. Every
/// emitted token's position is the cursor position after the lexeme was
/// fully consumed.
pub open spec fn spec_step(s: Seq<char>, st: ScanState) -> ScanState
    recommends
        0 <= st.current < s.len(),
{
    let start = st.current;
    let c = s[start];
    if is_punct(c) {
        emitted(st, punct_kind(c), s.subrange(start, start + 1), None, start + 1, st.line, st.column + 1)
    } else if is_operator_start(c) {
        if start + 1 < s.len() && s[start + 1] == '=' {
            emitted(
                st,
                operator_double_kind(c),
                s.subrange(start, start + 2),
                None,
                start + 2,
                st.line,
                st.column + 2,
            )
        } else {
            emitted(
                st,
                operator_single_kind(c),
                s.subrange(start, start + 1),
                None,
                start + 1,
                st.line,
                st.column + 1,
            )
        }
    } else if c == '/' {
        if start + 1 < s.len() && s[start + 1] == '/' {
            // A line comment: discarded up to (not including) the newline.
            let end = line_comment_end(s, start + 2);
            ScanState { current: end, column: st.column + (end - start), ..st }
        } else {
            emitted(st, TokenType::Slash, s.subrange(start, start + 1), None, start + 1, st.line, st.column + 1)
        }
    } else if is_blank(c) {
        ScanState { current: start + 1, column: st.column + 1, ..st }
    } else if c == '\n' {
        ScanState { current: start + 1, line: st.line + 1, column: 0, ..st }
    } else if c == '"' {
        string_tail_step(s, ScanState { current: start + 1, column: st.column + 1, ..st }, start)
    } else if is_digit(c) {
        number_tail_step(s, ScanState { current: start + 1, column: st.column + 1, ..st }, start)
    } else if is_alpha(c) {
        ident_tail_step(s, ScanState { current: start + 1, column: st.column + 1, ..st }, start)
    } else {
        // Unrecognized character: record an error, emit nothing, and resume
        // with the next character.
        ScanState {
            current: start + 1,
            line: st.line,
            column: st.column + 1,
            tokens: st.tokens,
            errors: st.errors.push(
                ScannerErrorV {
                    message: unexpected_message(c),
                    line: st.line,
                    column: st.column + 1,
                },
            ),
        }
    }
}

// ---------------------------------------------------------------------------
// Bounds of the lexeme boundary functions
// ---------------------------------------------------------------------------
/// `digit_run_end` stays within the source, consumes only digits, and stops
/// at the first non-digit.
pub proof fn lemma_digit_run_end(s: Seq<char>, i: int)
    requires
        0 <= i <= s.len(),
    ensures
        i <= digit_run_end(s, i) <= s.len(),
        forall|k: int| i <= k < digit_run_end(s, i) ==> is_digit(s[k]),
        digit_run_end(s, i) < s.len() ==> !is_digit(s[digit_run_end(s, i)]),
    decreases s.len() - i,
{
    if i < s.len() && is_digit(s[i]) {
        lemma_digit_run_end(s, i + 1);
    }
}

/// `ident_run_end` stays within the source, consumes only identifier
/// characters, and stops at the first other character.
pub proof fn lemma_ident_run_end(s: Seq<char>, i: int)
    requires
        0 <= i <= s.len(),
    ensures
        i <= ident_run_end(s, i) <= s.len(),
        forall|k: int| i <= k < ident_run_end(s, i) ==> is_alnum(s[k]),
        ident_run_end(s, i) < s.len() ==> !is_alnum(s[ident_run_end(s, i)]),
    decreases s.len() - i,
{
    if i < s.len() && is_alnum(s[i]) {
        lemma_ident_run_end(s, i + 1);
    }
}

/// `line_comment_end` stays within the source, passes no newline, and stops
/// at the first newline if there is one.
pub proof fn lemma_line_comment_end(s: Seq<char>, i: int)
    requires
        0 <= i <= s.len(),
    ensures
        i <= line_comment_end(s, i) <= s.len(),
        forall|k: int| i <= k < line_comment_end(s, i) ==> s[k] != '\n',
        line_comment_end(s, i) < s.len() ==> s[line_comment_end(s, i)] == '\n',
    decreases s.len() - i,
{
    if i < s.len() && s[i] != '\n' {
        lemma_line_comment_end(s, i + 1);
    }
}

/// `string_close` stays within the source, passes no double quote, and stops
/// at the first double quote if there is one.
pub proof fn lemma_string_close(s: Seq<char>, i: int)
    requires
        0 <= i <= s.len(),
    ensures
        i <= string_close(s, i) <= s.len(),
        forall|k: int| i <= k < string_close(s, i) ==> s[k] != '"',
        string_close(s, i) < s.len() ==> s[string_close(s, i)] == '"',
    decreases s.len() - i,
{
    if i < s.len() && s[i] != '"' {
        lemma_string_close(s, i + 1);
    }
}

/// The newline count of a range is non-negative and at most the range's
/// width.
pub proof fn lemma_newlines_bounds(s: Seq<char>, i: int, j: int)
    requires
        0 <= i <= j <= s.len(),
    ensures
        0 <= newlines_in(s, i, j) <= j - i,
    decreases j - i,
{
    if i < j {
        lemma_newlines_bounds(s, i + 1, j);
    }
}

/// Extending a range by one character on the right adds that character's
/// newline count.
pub proof fn lemma_newlines_snoc(s: Seq<char>, i: int, j: int)
    requires
        0 <= i <= j < s.len(),
    ensures
        newlines_in(s, i, j + 1) == newlines_in(s, i, j) + (if s[j] == '\n' {
            1int
        } else {
            0int
        }),
    decreases j - i,
{
    if i < j {
        lemma_newlines_snoc(s, i + 1, j);
    } else {
        assert(newlines_in(s, j + 1, j + 1) == 0);
        assert(newlines_in(s, i, j) == 0);
    }
}

// ---------------------------------------------------------------------------
// The whole scan
// ---------------------------------------------------------------------------
/// Each step consumes at least one character and never passes the end.
pub proof fn lemma_step_advances(s: Seq<char>, st: ScanState)
    requires
        0 <= st.current < s.len(),
    ensures
        st.current < spec_step(s, st).current <= s.len(),
{
    let start = st.current;
    let c = s[start];
    if is_punct(c) || is_operator_start(c) || is_blank(c) || c == '\n' {
    } else if c == '/' {
        if start + 1 < s.len() && s[start + 1] == '/' {
            lemma_line_comment_end(s, start + 2);
        }
    } else if c == '"' {
        lemma_string_close(s, start + 1);
    } else if is_digit(c) {
        lemma_digit_run_end(s, start + 1);
        let run = digit_run_end(s, start + 1);
        if run < s.len() && s[run] == '.' && run + 1 < s.len() && is_digit(s[run + 1]) {
            lemma_digit_run_end(s, run + 1);
        }
    } else if is_alpha(c) {
        lemma_ident_run_end(s, start + 1);
    }
}

/// Runs the step function until the cursor reaches the end of the source.
pub open spec fn spec_scan(s: Seq<char>, st: ScanState) -> ScanState
    recommends
        0 <= st.current <= s.len(),
    decreases s.len() - st.current
        when 0 <= st.current
        via spec_scan_decreases
{
    if st.current >= s.len() {
        st
    } else {
        spec_scan(s, spec_step(s, st))
    }
}

#[via_fn]
proof fn spec_scan_decreases(s: Seq<char>, st: ScanState) {
    if 0 <= st.current && st.current < s.len() {
        lemma_step_advances(s, st);
    }
}

/// The end-of-input token: empty lexeme, no literal, positioned at the
/// cursor after the last consumed character.
pub open spec fn eof_token(st: ScanState) -> TokenV {
    TokenV {
        token_type: TokenType::Eof,
        lexeme: Seq::empty(),
        literal: None,
        line: st.line,
        column: st.column,
    }
}

/// The complete scan of a source text from the initial state: every lexeme
/// in left-to-right order, closed by exactly one end-of-input token.
pub open spec fn scan_result(s: Seq<char>) -> ScanState {
    let st = spec_scan(s, initial_state());
    ScanState { tokens: st.tokens.push(eof_token(st)), ..st }
}

} // verus!
