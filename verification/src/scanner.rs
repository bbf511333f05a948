//! The scanner: a single stateful pass that converts source text into a
//! sequence of typed tokens and a sequence of lexical errors. No anomaly is
//! fatal: an unexpected character or an unterminated string is recorded and
//! the scan resumes with the next character.

use crate::error::ScannerError;
use crate::error::ScannerErrorV;
use crate::scan_model::digit_run_end;
use crate::scan_model::ident_run_end;
use crate::scan_model::ident_tail_step;
use crate::scan_model::initial_state;
use crate::scan_model::is_alnum_char;
use crate::scan_model::is_alpha;
use crate::scan_model::is_alpha_char;
use crate::scan_model::is_digit;
use crate::scan_model::is_digit_char;
use crate::scan_model::keyword_kind;
use crate::scan_model::lemma_digit_run_end;
use crate::scan_model::lemma_ident_run_end;
use crate::scan_model::lemma_line_comment_end;
use crate::scan_model::lemma_newlines_bounds;
use crate::scan_model::lemma_newlines_snoc;
use crate::scan_model::lemma_step_advances;
use crate::scan_model::lemma_string_close;
use crate::scan_model::line_comment_end;
use crate::scan_model::newlines_in;
use crate::scan_model::number_tail_step;
use crate::scan_model::scan_result;
use crate::scan_model::spec_scan;
use crate::scan_model::spec_step;
use crate::scan_model::string_close;
use crate::scan_model::string_tail_step;
use crate::scan_model::unexpected_message;
use crate::scan_model::unterminated_message;
use crate::scan_model::ScanState;
use crate::token::Literal;
use crate::token::Token;
use crate::token::TokenType;
use crate::token::TokenV;
use vstd::prelude::*;
use vstd::string::StrSliceExecFns;
use vstd::string::StringExecFns;

verus! {

/// The scanner: owns the source buffer and the scanning cursor, and
/// accumulates the produced tokens and the recorded errors.
///
/// `start` is the index of the first character of the lexeme being scanned,
/// `current` the index of the next unread character, `line` the 1-based line
/// counter and `column` the position within the current line (reset on a
/// newline). All indices count characters, not bytes.
#[derive(Debug, Clone)]
pub struct Scanner {
    pub source: std::string::String,
    pub tokens: Vec<Token>,
    pub start: usize,
    pub current: usize,
    pub line: u32,
    pub column: u32,
    pub errors: Vec<ScannerError>,
}

impl Scanner {
    /// The source as a character sequence.
    pub open spec fn src(self) -> Seq<char> {
        self.source@
    }

    /// The scanner's cursor and output, as a ghost scan state.
    pub open spec fn st(self) -> ScanState {
        ScanState {
            current: self.current as int,
            line: self.line as int,
            column: self.column as int,
            tokens: self.tokens.deep_view(),
            errors: self.errors.deep_view(),
        }
    }

    /// Cursor well-formedness, maintained throughout a scan. The bound on
    /// the source length keeps the line and column counters within `u32`.
    pub open spec fn wf(self) -> bool {
        &&& self.source@.len() < 0xFFFF_FFFF
        &&& self.current as int <= self.source@.len()
        &&& self.start <= self.current
        &&& 1 <= self.line as int
        &&& self.line as int <= self.current as int + 1
        &&& self.column as int <= self.current as int
    }

    /// A scanner on which no scan has been started: cursor at the origin,
    /// nothing produced yet.
    pub open spec fn fresh(self) -> bool {
        &&& self.current == 0
        &&& self.start == 0
        &&& self.line == 1
        &&& self.column == 0
        &&& self.tokens@.len() == 0
        &&& self.errors@.len() == 0
    }

    /// Builds a scanner over `source`, at line 1, column 0, with empty token
    /// and error sequences. The length bound is a machine limit: it keeps
    /// the `u32` line/column counters from overflowing.
    pub fn new(source: std::string::String) -> (r: Scanner)
        requires
            source@.len() < 0xFFFF_FFFF,
        ensures
            r.source@ == source@,
            r.wf(),
            r.fresh(),
    {
        Scanner {
            source,
            tokens: Vec::new(),
            start: 0,
            current: 0,
            line: 1,
            column: 0,
            errors: Vec::new(),
        }
    }

    /// Whether the cursor has consumed the whole source.
    fn is_at_end(&self) -> (r: bool)
        ensures
            r == (self.current >= self.src().len()),
    {
        self.current >= self.source.as_str().unicode_len()
    }

    /// Consumes and returns one character, advancing the cursor and the
    /// column.
    fn advance(&mut self) -> (c: char)
        requires
            old(self).wf(),
            old(self).current < old(self).src().len(),
        ensures
            c == old(self).src()[old(self).current as int],
            final(self).current == old(self).current + 1,
            final(self).column == old(self).column + 1,
            final(self).line == old(self).line,
            final(self).start == old(self).start,
            final(self).source == old(self).source,
            final(self).tokens == old(self).tokens,
            final(self).errors == old(self).errors,
    {
        let c = self.source.as_str().get_char(self.current);
        self.current = self.current + 1;
        self.column = self.column + 1;
        c
    }

    /// One-character lookahead that consumes the next character only when it
    /// equals `expected`; returns whether it matched.
    fn advance_peek(&mut self, expected: char) -> (r: bool)
        requires
            old(self).wf(),
        ensures
            r == (old(self).current < old(self).src().len() && old(self).src()[old(
                self,
            ).current as int] == expected),
            final(self).current == old(self).current + (if r {
                1int
            } else {
                0int
            }),
            final(self).column == old(self).column + (if r {
                1int
            } else {
                0int
            }),
            final(self).line == old(self).line,
            final(self).start == old(self).start,
            final(self).source == old(self).source,
            final(self).tokens == old(self).tokens,
            final(self).errors == old(self).errors,
    {
        if self.is_at_end() {
            return false;
        }
        let next_char = self.source.as_str().get_char(self.current);
        if next_char != expected {
            return false;
        }
        self.current = self.current + 1;
        self.column = self.column + 1;
        true
    }

    /// The next unread character, without consuming it; the NUL character
    /// when the source is exhausted.
    fn peek(&self) -> (c: char)
        ensures
            c == (if self.current < self.src().len() {
                self.src()[self.current as int]
            } else {
                '\0'
            }),
    {
        if self.is_at_end() {
            return '\0';
        }
        self.source.as_str().get_char(self.current)
    }

    /// The character after the next unread one, without consuming anything;
    /// the NUL character when fewer than two characters remain.
    fn peek_next(&self) -> (c: char)
        requires
            self.wf(),
        ensures
            c == (if self.current + 1 < self.src().len() {
                self.src()[self.current + 1]
            } else {
                '\0'
            }),
    {
        if self.current + 1 >= self.source.as_str().unicode_len() {
            return '\0';
        }
        self.source.as_str().get_char(self.current + 1)
    }

    /// Emits one token for the lexeme `source[start..current]`, stamped with
    /// the cursor's current line and column.
    fn add_token(&mut self, token_type: TokenType, literal: Option<Literal>)
        requires
            old(self).wf(),
        ensures
            final(self).tokens.deep_view() == old(self).tokens.deep_view().push(
                TokenV {
                    token_type,
                    lexeme: old(self).src().subrange(
                        old(self).start as int,
                        old(self).current as int,
                    ),
                    literal: match literal {
                        Some(l) => Some(l@),
                        None => None,
                    },
                    line: old(self).line as int,
                    column: old(self).column as int,
                },
            ),
            final(self).current == old(self).current,
            final(self).column == old(self).column,
            final(self).line == old(self).line,
            final(self).start == old(self).start,
            final(self).source == old(self).source,
            final(self).errors == old(self).errors,
    {
        let text_slice = self.source.as_str().substring_char(self.start, self.current);
        let text = String::from_str(text_slice);
        let t = Token::new(token_type, text, literal, self.line, self.column);
        let ghost pre = self.tokens.deep_view();
        let ghost tv = t@;
        self.tokens.push(t);
        proof {
            assert(self.tokens.deep_view() =~= pre.push(tv));
        }
    }

    /// Extracts a string literal whose opening quote has just been consumed.
    /// Consumes through the closing quote and emits a string token carrying
    /// the text strictly between the quotes; if the source ends first,
    /// records an unterminated-string error and emits nothing. Newlines
    /// inside the literal advance the line counter without resetting the
    /// column.
    fn construct_string(&mut self)
        requires
            old(self).wf(),
            old(self).start + 1 == old(self).current,
            old(self).src()[old(self).start as int] == '"',
        ensures
            final(self).st() == string_tail_step(old(self).src(), old(self).st(), old(self).start as int),
            final(self).source == old(self).source,
            final(self).start == old(self).start,
            final(self).wf(),
    {
        let ghost s = self.src();
        let ghost cur0 = old(self).current as int;
        let ghost close = string_close(s, cur0);
        proof {
            lemma_string_close(s, cur0);
        }
        while !self.is_at_end() && self.peek() != '"'
            invariant
                self.wf(),
                self.source == old(self).source,
                self.start == old(self).start,
                self.tokens == old(self).tokens,
                self.errors == old(self).errors,
                s == self.src(),
                cur0 == old(self).current as int,
                0 <= cur0,
                close == string_close(s, cur0),
                close <= s.len(),
                cur0 <= self.current as int <= close,
                close == string_close(s, self.current as int),
                self.line as int == old(self).line + newlines_in(s, cur0, self.current as int),
                self.column as int == old(self).column + (self.current - old(self).current),
            decreases s.len() - self.current,
        {
            proof {
                lemma_string_close(s, self.current as int + 1);
                lemma_newlines_snoc(s, cur0, self.current as int);
            }
            let c = self.advance();
            if c == '\n' {
                self.line = self.line + 1;
            }
        }
        proof {
            lemma_newlines_bounds(s, cur0, self.current as int);
        }
        if self.is_at_end() {
            // The source ended before a closing quote: record the anomaly
            // and emit no token.
            let message = String::from_str("Unterminated string.");
            let ghost pre = self.errors.deep_view();
            let e = ScannerError { message, line: self.line, column: self.column };
            let ghost ev = e@;
            self.errors.push(e);
            proof {
                assert(self.errors.deep_view() =~= pre.push(ev));
                assert(ev.message =~= unterminated_message());
                assert(self.st() =~= string_tail_step(s, old(self).st(), old(self).start as int));
            }
            return;
        }
        // The closing quote.
        self.advance();
        let value_slice = self.source.as_str().substring_char(self.start + 1, self.current - 1);
        let value = String::from_str(value_slice);
        self.add_token(TokenType::String, Some(Literal::String(value)));
        proof {
            assert(self.st() =~= string_tail_step(s, old(self).st(), old(self).start as int));
        }
    }

    /// Extracts a number literal whose first digit has just been consumed:
    /// a maximal digit run, then a fractional part only when a dot is
    /// immediately followed by a digit (a trailing dot is left unconsumed).
    /// The emitted token carries the exact numeric text as its literal.
    fn construct_number(&mut self)
        requires
            old(self).wf(),
            old(self).start + 1 == old(self).current,
            is_digit(old(self).src()[old(self).start as int]),
        ensures
            final(self).st() == number_tail_step(old(self).src(), old(self).st(), old(self).start as int),
            final(self).source == old(self).source,
            final(self).start == old(self).start,
            final(self).wf(),
    {
        let ghost s = self.src();
        let ghost cur0 = old(self).current as int;
        let ghost run = digit_run_end(s, cur0);
        proof {
            lemma_digit_run_end(s, cur0);
        }
        while is_digit_char(self.peek())
            invariant
                self.wf(),
                self.source == old(self).source,
                self.start == old(self).start,
                self.tokens == old(self).tokens,
                self.errors == old(self).errors,
                self.line == old(self).line,
                s == self.src(),
                cur0 == old(self).current as int,
                0 <= cur0,
                run == digit_run_end(s, cur0),
                run <= s.len(),
                cur0 <= self.current as int <= run,
                run == digit_run_end(s, self.current as int),
                self.column as int == old(self).column + (self.current - old(self).current),
            decreases s.len() - self.current,
        {
            proof {
                lemma_digit_run_end(s, self.current as int + 1);
            }
            self.advance();
        }
        // The digit run is exhausted: the cursor stands at `run`.
        if self.peek() == '.' && is_digit_char(self.peek_next()) {
            // Consume the dot, then the fractional digit run.
            self.advance();
            let ghost frac0 = self.current as int;
            let ghost end = digit_run_end(s, frac0);
            proof {
                lemma_digit_run_end(s, frac0);
            }
            while is_digit_char(self.peek())
                invariant
                    self.wf(),
                    self.source == old(self).source,
                    self.start == old(self).start,
                    self.tokens == old(self).tokens,
                    self.errors == old(self).errors,
                    self.line == old(self).line,
                    s == self.src(),
                    cur0 == old(self).current as int,
                    0 <= cur0 < frac0,
                    end == digit_run_end(s, frac0),
                    end <= s.len(),
                    frac0 <= self.current as int <= end,
                    end == digit_run_end(s, self.current as int),
                    self.column as int == old(self).column + (self.current - old(self).current),
                decreases s.len() - self.current,
            {
                proof {
                    lemma_digit_run_end(s, self.current as int + 1);
                }
                self.advance();
            }
        }
        let text_slice = self.source.as_str().substring_char(self.start, self.current);
        let value = String::from_str(text_slice);
        self.add_token(TokenType::Number, Some(Literal::Number(value)));
        proof {
            assert(self.st() =~= number_tail_step(s, old(self).st(), old(self).start as int));
        }
    }

    /// Extracts an identifier-shaped lexeme whose first character has just
    /// been consumed: a maximal run of alphanumeric characters and
    /// underscores, then a lookup against the fixed keyword table. Keyword
    /// tokens carry a literal only for `true`, `false` and `nil`.
    fn construct_identifier(&mut self)
        requires
            old(self).wf(),
            old(self).start + 1 == old(self).current,
            is_alpha(old(self).src()[old(self).start as int]),
        ensures
            final(self).st() == ident_tail_step(old(self).src(), old(self).st(), old(self).start as int),
            final(self).source == old(self).source,
            final(self).start == old(self).start,
            final(self).wf(),
    {
        let ghost s = self.src();
        let ghost cur0 = old(self).current as int;
        let ghost end = ident_run_end(s, cur0);
        proof {
            lemma_ident_run_end(s, cur0);
        }
        while is_alnum_char(self.peek())
            invariant
                self.wf(),
                self.source == old(self).source,
                self.start == old(self).start,
                self.tokens == old(self).tokens,
                self.errors == old(self).errors,
                self.line == old(self).line,
                s == self.src(),
                cur0 == old(self).current as int,
                0 <= cur0,
                end == ident_run_end(s, cur0),
                end <= s.len(),
                cur0 <= self.current as int <= end,
                end == ident_run_end(s, self.current as int),
                self.column as int == old(self).column + (self.current - old(self).current),
            decreases s.len() - self.current,
        {
            proof {
                lemma_ident_run_end(s, self.current as int + 1);
            }
            self.advance();
        }
        let text_slice = self.source.as_str().substring_char(self.start, self.current);
        let token_type = if crate::text::str_eq(text_slice, "and") {
            TokenType::And
        } else if crate::text::str_eq(text_slice, "class") {
            TokenType::Class
        } else if crate::text::str_eq(text_slice, "else") {
            TokenType::Else
        } else if crate::text::str_eq(text_slice, "false") {
            TokenType::False
        } else if crate::text::str_eq(text_slice, "for") {
            TokenType::For
        } else if crate::text::str_eq(text_slice, "fun") {
            TokenType::Fun
        } else if crate::text::str_eq(text_slice, "if") {
            TokenType::If
        } else if crate::text::str_eq(text_slice, "nil") {
            TokenType::Nil
        } else if crate::text::str_eq(text_slice, "or") {
            TokenType::Or
        } else if crate::text::str_eq(text_slice, "print") {
            TokenType::Print
        } else if crate::text::str_eq(text_slice, "return") {
            TokenType::Return
        } else if crate::text::str_eq(text_slice, "super") {
            TokenType::Super
        } else if crate::text::str_eq(text_slice, "this") {
            TokenType::This
        } else if crate::text::str_eq(text_slice, "true") {
            TokenType::True
        } else if crate::text::str_eq(text_slice, "var") {
            TokenType::Var
        } else if crate::text::str_eq(text_slice, "while") {
            TokenType::While
        } else {
            TokenType::Identifier
        };
        proof {
            assert(token_type == keyword_kind(s.subrange(old(self).start as int, self.current as int)));
        }
        let literal: Option<Literal> = match token_type {
            TokenType::True => Some(Literal::Boolean(true)),
            TokenType::False => Some(Literal::Boolean(false)),
            TokenType::Nil => Some(Literal::Nil),
            _ => None,
        };
        self.add_token(token_type, literal);
        proof {
            assert(self.st() =~= ident_tail_step(s, old(self).st(), old(self).start as int));
        }
    }

    /// Scans one lexeme starting at the cursor, following `spec_step`
    /// exactly: classify the consumed character, resolve one/two-character
    /// operators by lookahead, discard whitespace and comments, extract
    /// literals, and record an error for anything unrecognized.
    fn scan_token(&mut self)
        requires
            old(self).wf(),
            old(self).start == old(self).current,
            old(self).current < old(self).src().len(),
        ensures
            final(self).st() == spec_step(old(self).src(), old(self).st()),
            final(self).source == old(self).source,
            final(self).start == old(self).start,
            final(self).wf(),
            old(self).current < final(self).current,
    {
        let ghost s = self.src();
        let ghost st0 = self.st();
        let current_char = self.advance();
        match current_char {
            '(' => {
                self.add_token(TokenType::LeftParen, None);
                proof {
                    assert(self.st() =~= spec_step(s, st0));
                }
            },
            ')' => {
                self.add_token(TokenType::RightParen, None);
                proof {
                    assert(self.st() =~= spec_step(s, st0));
                }
            },
            '{' => {
                self.add_token(TokenType::LeftBrace, None);
                proof {
                    assert(self.st() =~= spec_step(s, st0));
                }
            },
            '}' => {
                self.add_token(TokenType::RightBrace, None);
                proof {
                    assert(self.st() =~= spec_step(s, st0));
                }
            },
            ',' => {
                self.add_token(TokenType::Comma, None);
                proof {
                    assert(self.st() =~= spec_step(s, st0));
                }
            },
            '.' => {
                self.add_token(TokenType::Dot, None);
                proof {
                    assert(self.st() =~= spec_step(s, st0));
                }
            },
            '-' => {
                self.add_token(TokenType::Minus, None);
                proof {
                    assert(self.st() =~= spec_step(s, st0));
                }
            },
            '+' => {
                self.add_token(TokenType::Plus, None);
                proof {
                    assert(self.st() =~= spec_step(s, st0));
                }
            },
            ';' => {
                self.add_token(TokenType::Semicolon, None);
                proof {
                    assert(self.st() =~= spec_step(s, st0));
                }
            },
            '*' => {
                self.add_token(TokenType::Star, None);
                proof {
                    assert(self.st() =~= spec_step(s, st0));
                }
            },
            '!' => {
                if self.advance_peek('=') {
                    self.add_token(TokenType::BangEqual, None);
                } else {
                    self.add_token(TokenType::Bang, None);
                }
                proof {
                    assert(self.st() =~= spec_step(s, st0));
                }
            },
            '=' => {
                if self.advance_peek('=') {
                    self.add_token(TokenType::EqualEqual, None);
                } else {
                    self.add_token(TokenType::Equal, None);
                }
                proof {
                    assert(self.st() =~= spec_step(s, st0));
                }
            },
            '<' => {
                if self.advance_peek('=') {
                    self.add_token(TokenType::LessEqual, None);
                } else {
                    self.add_token(TokenType::Less, None);
                }
                proof {
                    assert(self.st() =~= spec_step(s, st0));
                }
            },
            '>' => {
                if self.advance_peek('=') {
                    self.add_token(TokenType::GreaterEqual, None);
                } else {
                    self.add_token(TokenType::Greater, None);
                }
                proof {
                    assert(self.st() =~= spec_step(s, st0));
                }
            },
            '/' => {
                if self.advance_peek('/') {
                    // A comment runs to the end of the line and is
                    // discarded; the newline itself is left unconsumed.
                    let ghost cur2 = self.current as int;
                    let ghost end = line_comment_end(s, cur2);
                    proof {
                        lemma_line_comment_end(s, cur2);
                    }
                    while !self.is_at_end() && self.peek() != '\n'
                        invariant
                            self.wf(),
                            self.source == old(self).source,
                            self.start == old(self).start,
                            self.tokens == old(self).tokens,
                            self.errors == old(self).errors,
                            self.line == old(self).line,
                            s == self.src(),
                            0 <= cur2,
                            end == line_comment_end(s, cur2),
                            end <= s.len(),
                            cur2 <= self.current as int <= end,
                            end == line_comment_end(s, self.current as int),
                            self.column as int == old(self).column + (self.current as int
                                - old(self).current as int),
                        decreases s.len() - self.current,
                    {
                        proof {
                            lemma_line_comment_end(s, self.current as int + 1);
                        }
                        self.advance();
                    }
                    proof {
                        assert(self.st() =~= spec_step(s, st0));
                    }
                } else {
                    self.add_token(TokenType::Slash, None);
                    proof {
                        assert(self.st() =~= spec_step(s, st0));
                    }
                }
            },
            ' ' | '\r' | '\t' => {
                // Whitespace is discarded: no token, no error.
                proof {
                    assert(self.st() =~= spec_step(s, st0));
                }
            },
            '\n' => {
                self.line = self.line + 1;
                self.column = 0;
                proof {
                    assert(self.st() =~= spec_step(s, st0));
                }
            },
            '"' => {
                self.construct_string();
                proof {
                    assert(self.st() =~= spec_step(s, st0));
                }
            },
            _ => {
                if is_digit_char(current_char) {
                    self.construct_number();
                    proof {
                        assert(self.st() =~= spec_step(s, st0));
                    }
                } else if is_alpha_char(current_char) {
                    self.construct_identifier();
                    proof {
                        assert(self.st() =~= spec_step(s, st0));
                    }
                } else {
                    // An unrecognized character: record it and move on.
                    let char_slice = self.source.as_str().substring_char(
                        self.current - 1,
                        self.current,
                    );
                    let mut message = String::from_str("Unexpected character: ");
                    message.append(char_slice);
                    let ghost pre = self.errors.deep_view();
                    let e = ScannerError { message, line: self.line, column: self.column };
                    let ghost ev = e@;
                    self.errors.push(e);
                    proof {
                        assert(char_slice@ =~= seq![current_char]);
                        assert(ev.message =~= unexpected_message(current_char));
                        assert(self.errors.deep_view() =~= pre.push(ev));
                        assert(self.st() =~= spec_step(s, st0));
                    }
                }
            },
        }
        proof {
            lemma_step_advances(s, st0);
        }
    }

    /// Performs the entire scan, exactly once, over a freshly constructed
    /// scanner: every lexeme of the source in left-to-right order, then
    /// exactly one end-of-input token whose lexeme is empty and whose
    /// position is the cursor after the last consumed character.
    ///
    /// Invoking the scan twice on one scanner is not a supported use: the
    /// cursor is not reset, which is why a fresh scanner is required here.
    pub fn scan_tokens(&mut self)
        requires
            old(self).wf(),
            old(self).fresh(),
        ensures
            final(self).source == old(self).source,
            final(self).tokens.deep_view() == scan_result(old(self).source@).tokens,
            final(self).errors.deep_view() == scan_result(old(self).source@).errors,
            final(self).wf(),
    {
        let ghost s = self.src();
        proof {
            assert(self.tokens.deep_view() =~= Seq::<TokenV>::empty());
            assert(self.errors.deep_view() =~= Seq::<ScannerErrorV>::empty());
            assert(self.st() =~= initial_state());
        }
        while !self.is_at_end()
            invariant
                self.wf(),
                self.source == old(self).source,
                s == self.src(),
                spec_scan(s, self.st()) == spec_scan(s, initial_state()),
            decreases s.len() - self.current,
        {
            // The cursor stands at the beginning of the next lexeme.
            self.start = self.current;
            let ghost pre = self.st();
            self.scan_token();
            proof {
                assert(spec_scan(s, pre) == spec_scan(s, spec_step(s, pre)));
            }
        }
        proof {
            assert(spec_scan(s, self.st()) == self.st());
        }
        let ghost pre_tokens = self.tokens.deep_view();
        let t = Token::new(TokenType::Eof, String::new(), None, self.line, self.column);
        let ghost tv = t@;
        self.tokens.push(t);
        proof {
            assert(self.tokens.deep_view() =~= pre_tokens.push(tv));
            assert(self.tokens.deep_view() =~= scan_result(s).tokens);
            assert(self.errors.deep_view() =~= scan_result(s).errors);
        }
    }
}

} // verus!
