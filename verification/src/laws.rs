//! Laws of the scanner, proved once and for all over the ghost model: how
//! whole classes of inputs scan, how operators and numbers are delimited,
//! and how errors and line counting behave.

use crate::error::ScannerErrorV;
use crate::scan_model::digit_run_end;
use crate::scan_model::initial_state;
use crate::scan_model::is_digit;
use crate::scan_model::is_operator_start;
use crate::scan_model::is_punct;
use crate::scan_model::is_recognized;
use crate::scan_model::lemma_digit_run_end;
use crate::scan_model::lemma_line_comment_end;
use crate::scan_model::lemma_step_advances;
use crate::scan_model::lemma_string_close;
use crate::scan_model::line_comment_end;
use crate::scan_model::newlines_in;
use crate::scan_model::operator_double_kind;
use crate::scan_model::operator_single_kind;
use crate::scan_model::punct_kind;
use crate::scan_model::scan_result;
use crate::scan_model::spec_scan;
use crate::scan_model::spec_step;
use crate::scan_model::string_close;
use crate::scan_model::unexpected_message;
use crate::scan_model::unterminated_message;
use crate::scan_model::ScanState;
use crate::token::TokenType;
use crate::token::TokenV;
use vstd::prelude::*;

verus! {

/// The punctuation token emitted for the character at index `k`, stamped
/// with the given line and with the column just past that character.
pub open spec fn punct_token(s: Seq<char>, k: int, line: int, column: int) -> TokenV {
    TokenV {
        token_type: punct_kind(s[k]),
        lexeme: s.subrange(k, k + 1),
        literal: None,
        line,
        column,
    }
}

/// Scanning a tail made solely of single-character punctuation appends one
/// token per character, in source order, with no errors and no line breaks.
pub proof fn lemma_punct_scan(s: Seq<char>, st: ScanState)
    requires
        0 <= st.current <= s.len(),
        forall|i: int| st.current <= i < s.len() ==> is_punct(s[i]),
    ensures
        spec_scan(s, st).errors == st.errors,
        spec_scan(s, st).line == st.line,
        spec_scan(s, st).column == st.column + (s.len() - st.current),
        spec_scan(s, st).tokens.len() == st.tokens.len() + (s.len() - st.current),
        forall|j: int|
            0 <= j < st.tokens.len() ==> #[trigger] spec_scan(s, st).tokens[j] == st.tokens[j],
        forall|j: int|
            st.tokens.len() <= j < st.tokens.len() + (s.len() - st.current)
                ==> #[trigger] spec_scan(s, st).tokens[j] == punct_token(
                s,
                st.current + (j - st.tokens.len()),
                st.line,
                st.column + (j - st.tokens.len()) + 1,
            ),
    decreases s.len() - st.current,
{
    if st.current < s.len() {
        assert(is_punct(s[st.current]));
        let st1 = spec_step(s, st);
        lemma_punct_scan(s, st1);
        assert forall|j: int|
            st.tokens.len() <= j < st.tokens.len() + (s.len() - st.current) implies #[trigger] spec_scan(
            s,
            st,
        ).tokens[j] == punct_token(
            s,
            st.current + (j - st.tokens.len()),
            st.line,
            st.column + (j - st.tokens.len()) + 1,
        ) by {
            if j == st.tokens.len() {
                assert(spec_scan(s, st).tokens[j] == st1.tokens[j]);
            } else {
                assert(spec_scan(s, st).tokens[j] == punct_token(
                    s,
                    st1.current + (j - st1.tokens.len()),
                    st1.line,
                    st1.column + (j - st1.tokens.len()) + 1,
                ));
            }
        }
    }
}

/// For inputs consisting solely of recognized single-character punctuation
/// marks, the scan produces exactly one token per source character plus one
/// end-of-input token, in left-to-right source order, and no errors. All of
/// it stays on line 1, and each token's column is its one-based position.
pub proof fn lemma_punctuation_only(s: Seq<char>)
    requires
        forall|i: int| 0 <= i < s.len() ==> is_punct(s[i]),
    ensures
        scan_result(s).tokens.len() == s.len() + 1,
        scan_result(s).errors.len() == 0,
        forall|k: int|
            0 <= k < s.len() ==> #[trigger] scan_result(s).tokens[k] == punct_token(s, k, 1, k + 1),
        scan_result(s).tokens[s.len() as int].token_type == TokenType::Eof,
        scan_result(s).tokens[s.len() as int].line == 1,
        scan_result(s).tokens[s.len() as int].column == s.len() as int,
{
    lemma_punct_scan(s, initial_state());
}

/// An input that opens a string literal and never closes it scans to no
/// token at all for that lexeme — only the end-of-input token — and exactly
/// one unterminated-string error; the scan still runs to completion.
pub proof fn lemma_unterminated_string(s: Seq<char>)
    requires
        s.len() >= 1,
        s[0] == '"',
        forall|i: int| 1 <= i < s.len() ==> s[i] != '"',
    ensures
        scan_result(s).tokens.len() == 1,
        scan_result(s).tokens[0].token_type == TokenType::Eof,
        scan_result(s).errors.len() == 1,
        scan_result(s).errors[0].message == unterminated_message(),
        scan_result(s).errors[0].line == 1 + newlines_in(s, 1, s.len() as int),
{
    lemma_string_close(s, 1);
    assert(string_close(s, 1) == s.len());
    let st1 = spec_step(s, initial_state());
    assert(st1.current == s.len());
    assert(spec_scan(s, initial_state()) == spec_scan(s, st1));
    assert(spec_scan(s, st1) == st1);
}

/// A character outside every recognized class yields exactly one error and
/// no token, and the scan resumes with the very next character.
pub proof fn lemma_unexpected_character(s: Seq<char>, st: ScanState)
    requires
        0 <= st.current < s.len(),
        !is_recognized(s[st.current]),
    ensures
        spec_step(s, st).tokens == st.tokens,
        spec_step(s, st).errors == st.errors.push(
            ScannerErrorV {
                message: unexpected_message(s[st.current]),
                line: st.line,
                column: st.column + 1,
            },
        ),
        spec_step(s, st).current == st.current + 1,
        spec_step(s, st).line == st.line,
{
}

/// A two-character operator is never formed without an exact match: an
/// operator starter not followed by `=` yields its one-character token,
/// consuming exactly one character.
pub proof fn lemma_operator_single(s: Seq<char>, st: ScanState)
    requires
        0 <= st.current < s.len(),
        is_operator_start(s[st.current]),
        st.current + 1 == s.len() || s[st.current + 1] != '=',
    ensures
        spec_step(s, st).tokens == st.tokens.push(
            TokenV {
                token_type: operator_single_kind(s[st.current]),
                lexeme: s.subrange(st.current, st.current + 1),
                literal: None,
                line: st.line,
                column: st.column + 1,
            },
        ),
        spec_step(s, st).errors == st.errors,
        spec_step(s, st).current == st.current + 1,
{
}

/// An operator starter immediately followed by `=` yields the two-character
/// token, consuming both characters.
pub proof fn lemma_operator_double(s: Seq<char>, st: ScanState)
    requires
        0 <= st.current,
        st.current + 1 < s.len(),
        is_operator_start(s[st.current]),
        s[st.current + 1] == '=',
    ensures
        spec_step(s, st).tokens == st.tokens.push(
            TokenV {
                token_type: operator_double_kind(s[st.current]),
                lexeme: s.subrange(st.current, st.current + 2),
                literal: None,
                line: st.line,
                column: st.column + 2,
            },
        ),
        spec_step(s, st).errors == st.errors,
        spec_step(s, st).current == st.current + 2,
{
}

/// A dot immediately after a digit run, when not itself followed by another
/// digit, terminates the number before the dot: the emitted number token's
/// lexeme ends at the dot and the dot is not consumed.
pub proof fn lemma_number_stops_before_dot(s: Seq<char>, st: ScanState)
    requires
        0 <= st.current < s.len(),
        is_digit(s[st.current]),
        digit_run_end(s, st.current + 1) < s.len(),
        s[digit_run_end(s, st.current + 1)] == '.',
        digit_run_end(s, st.current + 1) + 1 == s.len() || !is_digit(
            s[digit_run_end(s, st.current + 1) + 1],
        ),
    ensures
        spec_step(s, st).current == digit_run_end(s, st.current + 1),
        s[spec_step(s, st).current] == '.',
        spec_step(s, st).tokens.len() == st.tokens.len() + 1,
        spec_step(s, st).tokens.last().token_type == TokenType::Number,
        spec_step(s, st).tokens.last().lexeme == s.subrange(
            st.current,
            digit_run_end(s, st.current + 1),
        ),
{
    lemma_digit_run_end(s, st.current + 1);
}

/// A line comment produces no token and no error, leaves the line counter
/// untouched, and stops before the terminating newline, which is then
/// handled as an ordinary newline (incrementing the line counter).
pub proof fn lemma_comment_produces_nothing(s: Seq<char>, st: ScanState)
    requires
        0 <= st.current,
        st.current + 1 < s.len(),
        s[st.current] == '/',
        s[st.current + 1] == '/',
    ensures
        spec_step(s, st).tokens == st.tokens,
        spec_step(s, st).errors == st.errors,
        spec_step(s, st).line == st.line,
        spec_step(s, st).current == line_comment_end(s, st.current + 2),
        spec_step(s, st).current < s.len() ==> s[spec_step(s, st).current] == '\n',
{
    lemma_line_comment_end(s, st.current + 2);
}

/// Every newline inside a terminated string literal increments the line
/// counter: the string token's line is the opening line plus the newline
/// count of the consumed literal text (the column is not reset by those
/// newlines).
pub proof fn lemma_string_counts_newlines(s: Seq<char>, st: ScanState)
    requires
        0 <= st.current < s.len(),
        s[st.current] == '"',
        string_close(s, st.current + 1) < s.len(),
    ensures
        spec_step(s, st).line == st.line + newlines_in(
            s,
            st.current + 1,
            string_close(s, st.current + 1),
        ),
        spec_step(s, st).tokens.len() == st.tokens.len() + 1,
        spec_step(s, st).tokens.last().token_type == TokenType::String,
        spec_step(s, st).tokens.last().line == spec_step(s, st).line,
{
}

/// One step appends at most one token and at most one error, never
/// disturbing what was already produced, and never emits an end-of-input
/// token.
pub proof fn lemma_step_appends(s: Seq<char>, st: ScanState)
    requires
        0 <= st.current < s.len(),
    ensures
        st.tokens.len() <= spec_step(s, st).tokens.len() <= st.tokens.len() + 1,
        st.errors.len() <= spec_step(s, st).errors.len() <= st.errors.len() + 1,
        forall|j: int| 0 <= j < st.tokens.len() ==> #[trigger] spec_step(s, st).tokens[j] == st.tokens[j],
        forall|j: int| 0 <= j < st.errors.len() ==> #[trigger] spec_step(s, st).errors[j] == st.errors[j],
        forall|j: int|
            st.tokens.len() <= j < spec_step(s, st).tokens.len() ==> #[trigger] spec_step(
                s,
                st,
            ).tokens[j].token_type != TokenType::Eof,
{
}

/// The scan only appends: everything produced before some point stays in
/// place, in its order of detection, and no token produced by the pass
/// itself is an end-of-input token.
pub proof fn lemma_scan_appends(s: Seq<char>, st: ScanState)
    requires
        0 <= st.current <= s.len(),
    ensures
        st.tokens.len() <= spec_scan(s, st).tokens.len(),
        st.errors.len() <= spec_scan(s, st).errors.len(),
        forall|j: int| 0 <= j < st.tokens.len() ==> #[trigger] spec_scan(s, st).tokens[j] == st.tokens[j],
        forall|j: int| 0 <= j < st.errors.len() ==> #[trigger] spec_scan(s, st).errors[j] == st.errors[j],
        forall|j: int|
            st.tokens.len() <= j < spec_scan(s, st).tokens.len() ==> #[trigger] spec_scan(
                s,
                st,
            ).tokens[j].token_type != TokenType::Eof,
    decreases s.len() - st.current,
{
    if st.current < s.len() {
        lemma_step_appends(s, st);
        lemma_step_advances(s, st);
        lemma_scan_appends(s, spec_step(s, st));
    }
}

/// A completed scan's token sequence ends with exactly one end-of-input
/// token: the last token is `Eof` with an empty lexeme, and no earlier
/// token is an `Eof`.
pub proof fn lemma_single_eof(s: Seq<char>)
    ensures
        scan_result(s).tokens.len() >= 1,
        scan_result(s).tokens.last().token_type == TokenType::Eof,
        scan_result(s).tokens.last().lexeme == Seq::<char>::empty(),
        forall|j: int|
            0 <= j < scan_result(s).tokens.len() - 1 ==> #[trigger] scan_result(
                s,
            ).tokens[j].token_type != TokenType::Eof,
{
    lemma_scan_appends(s, initial_state());
}

} // verus!

