//! The scanner: owns the source text and a cursor, consumes the text left
//! to right exactly once, and produces the complete token sequence,
//! terminated by a single end-of-input token, together with the lexical
//! errors it met on the way.
//!
//! `scan_tokens` is proved to produce exactly `model::scan_output` of the
//! source, and to collect exactly `model::scan_errors`.

use vstd::prelude::*;

use vstd::string::StrSliceExecFns;

use crate::model::{
    alnum_run_end, block_comment_close, count_newlines, digit_run_end, is_digit_char,
    lemma_step_bounds, number_end, opt_seq, scan_errors, scan_output, scan_to_char, spec_keyword,
    spec_scan, spec_step, unicode_alphanumeric,
};
use crate::token::{LexError, SpecLexError, SpecToken, Token, TokenType};

verus! {

/// Relies on `char::is_alphanumeric`: whether `c` is in one of the
/// Unicode Alphabetic or Number categories, a property of `c` alone.
#[verifier::external_body]
fn char_is_alphanumeric(c: char) -> (r: bool)
    ensures
        r == unicode_alphanumeric(c),
{
    c.is_alphanumeric()
}

/// Whether `c` is an ASCII decimal digit.
fn char_is_digit(c: char) -> (r: bool)
    ensures
        r == is_digit_char(c),
{
    48 <= c as u32 && c as u32 <= 57
}

/// The scanner over one source text: the text itself (read-only for the
/// scan's duration), the index of the current token's first character,
/// the next unread index, the 1-based line counter, and the append-only
/// token and error sequences.
pub struct Scanner {
    source: String,
    tokens: Vec<Token>,
    errors: Vec<LexError>,
    start: usize,
    current: usize,
    line: i32,
    length: usize,
}

impl Scanner {
    /// The source text under scan, as a sequence of characters.
    pub closed spec fn src(&self) -> Seq<char> {
        self.source@
    }

    /// The tokens emitted so far, as mathematical values.
    pub closed spec fn toks(&self) -> Seq<crate::token::SpecToken> {
        self.tokens.deep_view()
    }

    /// The errors collected so far, as mathematical values.
    pub closed spec fn errs(&self) -> Seq<crate::token::SpecLexError> {
        self.errors.deep_view()
    }

    pub closed spec fn cursor(&self) -> int {
        self.current as int
    }

    pub closed spec fn token_start(&self) -> int {
        self.start as int
    }

    pub closed spec fn line_no(&self) -> int {
        self.line as int
    }

    /// The scanner's internal invariant: the cursor indices stay inside
    /// the source, the line counter starts at 1 and grows by at most one
    /// per character consumed (so it fits an `i32`), and the cached
    /// character count is the source's length.
    pub closed spec fn wf(&self) -> bool {
        &&& self.start <= self.current <= self.source@.len()
        &&& self.length == self.source@.len()
        &&& self.source@.len() < 0x7fff_ffff
        &&& 1 <= self.line as int
        &&& self.line as int - 1 <= self.current as int
    }

    /// A scanner that has not consumed anything yet: cursor at the start,
    /// line 1, no tokens, no errors.
    pub closed spec fn fresh(&self) -> bool {
        &&& self.start == 0
        &&& self.current == 0
        &&& self.line as int == 1
        &&& self.toks() == Seq::<crate::token::SpecToken>::empty()
        &&& self.errs() == Seq::<crate::token::SpecLexError>::empty()
    }

    /// Builds a scanner over `source`, ready to scan from its first
    /// character.  The bound on the length keeps line numbers inside the
    /// `i32` line counter.
    pub fn new(source: String) -> (s: Scanner)
        requires
            source@.len() < 0x7fff_ffff,
        ensures
            s.wf(),
            s.fresh(),
            s.src() == source@,
    {
        let length = source.as_str().unicode_len();
        let s = Scanner {
            source,
            tokens: Vec::new(),
            errors: Vec::new(),
            start: 0,
            current: 0,
            line: 1,
            length,
        };
        proof {
            assert(s.toks() =~= Seq::<crate::token::SpecToken>::empty());
            assert(s.errs() =~= Seq::<crate::token::SpecLexError>::empty());
        }
        s
    }

    /// Whether the cursor has consumed the whole source.
    fn is_at_end(&self) -> (r: bool)
        requires
            self.wf(),
        ensures
            r == (self.cursor() == self.src().len()),
    {
        self.current >= self.length
    }

    /// Consumes and returns the character under the cursor.
    fn advance(&mut self) -> (c: char)
        requires
            old(self).wf(),
            old(self).cursor() < old(self).src().len(),
        ensures
            final(self).wf(),
            c == old(self).src()[old(self).cursor()],
            final(self).cursor() == old(self).cursor() + 1,
            final(self).src() == old(self).src(),
            final(self).toks() == old(self).toks(),
            final(self).errs() == old(self).errs(),
            final(self).token_start() == old(self).token_start(),
            final(self).line_no() == old(self).line_no(),
    {
        let c = self.source.as_str().get_char(self.current);
        self.current = self.current + 1;
        c
    }

    /// The character under the cursor, or NUL at the end of the input.
    fn peek(&self) -> (c: char)
        requires
            self.wf(),
        ensures
            c == (if self.cursor() < self.src().len() {
                self.src()[self.cursor()]
            } else {
                '\0'
            }),
    {
        if self.is_at_end() {
            return '\0';
        }
        self.source.as_str().get_char(self.current)
    }

    /// The character one past the cursor, or NUL if the input ends first.
    fn peek_next(&self) -> (c: char)
        requires
            self.wf(),
        ensures
            c == (if self.cursor() + 1 < self.src().len() {
                self.src()[self.cursor() + 1]
            } else {
                '\0'
            }),
    {
        if self.current + 1 >= self.length {
            return '\0';
        }
        self.source.as_str().get_char(self.current + 1)
    }

    /// One character of lookahead: consumes the character under the
    /// cursor exactly when it equals `expected`.
    fn is_match(&mut self, expected: char) -> (r: bool)
        requires
            old(self).wf(),
        ensures
            final(self).wf(),
            r == (old(self).cursor() < old(self).src().len() && old(self).src()[old(
                self,
            ).cursor()] == expected),
            final(self).cursor() == old(self).cursor() + (if r {
                1int
            } else {
                0int
            }),
            final(self).src() == old(self).src(),
            final(self).toks() == old(self).toks(),
            final(self).errs() == old(self).errs(),
            final(self).token_start() == old(self).token_start(),
            final(self).line_no() == old(self).line_no(),
    {
        if self.is_at_end() {
            return false;
        }
        if self.source.as_str().get_char(self.current) != expected {
            return false;
        }
        self.current = self.current + 1;
        true
    }

    /// Emits one token whose lexeme is the source text between the start
    /// of the current token and the cursor, with the given literal
    /// payload, on the current line.
    fn add_token_literal(&mut self, token: TokenType, literal: Option<String>)
        requires
            old(self).wf(),
        ensures
            final(self).wf(),
            final(self).src() == old(self).src(),
            final(self).cursor() == old(self).cursor(),
            final(self).token_start() == old(self).token_start(),
            final(self).line_no() == old(self).line_no(),
            final(self).errs() == old(self).errs(),
            final(self).toks() == old(self).toks().push(
                (SpecToken {
                    kind: token,
                    lexeme: old(self).src().subrange(
                        old(self).token_start(),
                        old(self).cursor(),
                    ),
                    literal: match literal {
                        Some(l) => l@,
                        None => Seq::empty(),
                    },
                    line: old(self).line_no(),
                }),
            ),
    {
        let text = self.source.as_str().substring_char(self.start, self.current).to_owned();
        let lit = match literal {
            Some(l) => l,
            None => String::new(),
        };
        let t = Token::new(token, text, lit, self.line);
        self.tokens.push(t);
        proof {
            assert(self.toks() =~= old(self).toks().push(t@));
        }
    }

    /// Emits one token with an empty literal payload.
    fn add_token(&mut self, token: TokenType)
        requires
            old(self).wf(),
        ensures
            final(self).wf(),
            final(self).src() == old(self).src(),
            final(self).cursor() == old(self).cursor(),
            final(self).token_start() == old(self).token_start(),
            final(self).line_no() == old(self).line_no(),
            final(self).errs() == old(self).errs(),
            final(self).toks() == old(self).toks().push(
                (SpecToken {
                    kind: token,
                    lexeme: old(self).src().subrange(
                        old(self).token_start(),
                        old(self).cursor(),
                    ),
                    literal: Seq::empty(),
                    line: old(self).line_no(),
                }),
            ),
    {
        self.add_token_literal(token, None);
    }

    /// Records one lexical error.
    fn add_error(&mut self, e: LexError)
        requires
            old(self).wf(),
        ensures
            final(self).wf(),
            final(self).src() == old(self).src(),
            final(self).cursor() == old(self).cursor(),
            final(self).token_start() == old(self).token_start(),
            final(self).line_no() == old(self).line_no(),
            final(self).toks() == old(self).toks(),
            final(self).errs() == old(self).errs().push(e@),
    {
        self.errors.push(e);
        proof {
            assert(self.errs() =~= old(self).errs().push(self.errors@.last()@));
        }
    }

    /// Which token kind the given word is reserved for, if any: exactly
    /// the fixed keyword and type-keyword table of the model.
    pub fn get_keyword(&mut self, identifier: String) -> (r: Option<TokenType>)
        ensures
            *final(self) == *old(self),
            r == spec_keyword(identifier@),
    {
        if identifier == "and".to_owned() {
            Some(TokenType::And)
        } else if identifier == "else".to_owned() {
            Some(TokenType::Else)
        } else if identifier == "false".to_owned() {
            Some(TokenType::False)
        } else if identifier == "fn".to_owned() {
            Some(TokenType::Fn)
        } else if identifier == "if".to_owned() {
            Some(TokenType::If)
        } else if identifier == "nil".to_owned() {
            Some(TokenType::Nil)
        } else if identifier == "or".to_owned() {
            Some(TokenType::Or)
        } else if identifier == "print".to_owned() {
            Some(TokenType::Print)
        } else if identifier == "return".to_owned() {
            Some(TokenType::Return)
        } else if identifier == "true".to_owned() {
            Some(TokenType::True)
        } else if identifier == "var".to_owned() {
            Some(TokenType::Var)
        } else if identifier == "match".to_owned() {
            Some(TokenType::Match)
        } else if identifier == "do".to_owned() {
            Some(TokenType::Do)
        } else if identifier == "end".to_owned() {
            Some(TokenType::End)
        } else if identifier == "number".to_owned() {
            Some(TokenType::NumberType)
        } else if identifier == "float".to_owned() {
            Some(TokenType::FloatType)
        } else if identifier == "bool".to_owned() {
            Some(TokenType::BoolType)
        } else if identifier == "string".to_owned() {
            Some(TokenType::StringType)
        } else if identifier == "function".to_owned() {
            Some(TokenType::FunctionType)
        } else {
            None
        }
    }

    /// Consumes the rest of a line comment: everything up to, but not
    /// including, the next newline.
    fn skip_line_comment(&mut self)
        requires
            old(self).wf(),
        ensures
            final(self).wf(),
            final(self).src() == old(self).src(),
            final(self).cursor() == scan_to_char(old(self).src(), old(self).cursor(), '\n'),
            final(self).token_start() == old(self).token_start(),
            final(self).line_no() == old(self).line_no(),
            final(self).toks() == old(self).toks(),
            final(self).errs() == old(self).errs(),
    {
        let ghost src = self.src();
        let ghost c0 = self.cursor();
        while self.peek() != '\n' && !self.is_at_end()
            invariant
                self.wf(),
                self.src() == src,
                c0 <= self.cursor(),
                self.token_start() == old(self).token_start(),
                self.line_no() == old(self).line_no(),
                self.toks() == old(self).toks(),
                self.errs() == old(self).errs(),
                scan_to_char(src, c0, '\n') == scan_to_char(src, self.cursor(), '\n'),
            decreases src.len() - self.cursor(),
        {
            self.advance();
        }
    }

    /// Consumes the interior of a block comment through its `*/`
    /// terminator, counting embedded newlines; records an error instead
    /// when the input ends before the terminator.  The cursor stands just
    /// past the opening `/*` on entry.
    fn skip_block_comment(&mut self)
        requires
            old(self).wf(),
        ensures
            final(self).wf(),
            final(self).src() == old(self).src(),
            final(self).token_start() == old(self).token_start(),
            final(self).toks() == old(self).toks(),
            ({
                let src = old(self).src();
                let c0 = old(self).cursor();
                match block_comment_close(src, c0) {
                    Some(close) => {
                        &&& final(self).cursor() == close + 2
                        &&& final(self).line_no() == old(self).line_no() + count_newlines(
                            src,
                            c0,
                            close,
                        )
                        &&& final(self).errs() == old(self).errs()
                    },
                    None => {
                        &&& final(self).cursor() == src.len()
                        &&& final(self).line_no() == old(self).line_no() + count_newlines(
                            src,
                            c0,
                            src.len() as int,
                        )
                        &&& final(self).errs() == old(self).errs().push(
                            (SpecLexError::UnterminatedBlockComment {
                                line: old(self).line_no(),
                            }),
                        )
                    },
                }
            }),
    {
        let start_line = self.line;
        let ghost src = self.src();
        let ghost c0 = self.cursor();
        while !(self.peek() == '*' && self.peek_next() == '/') && !self.is_at_end()
            invariant
                self.wf(),
                self.src() == src,
                c0 <= self.cursor(),
                self.token_start() == old(self).token_start(),
                self.toks() == old(self).toks(),
                self.errs() == old(self).errs(),
                self.line_no() == old(self).line_no() + count_newlines(src, c0, self.cursor()),
                block_comment_close(src, c0) == block_comment_close(src, self.cursor()),
            decreases src.len() - self.cursor(),
        {
            let c = self.advance();
            if c == '\n' {
                self.line = self.line + 1;
            }
        }
        if self.is_at_end() {
            self.add_error(LexError::UnterminatedBlockComment { line: start_line });
        } else {
            self.advance();
            self.advance();
        }
    }

    /// Scans a string literal.  The cursor stands just past the opening
    /// quote on entry; the token's literal is the contents between the
    /// quotes, its line the line of the opening quote.  When the input
    /// ends before a closing quote, an error is recorded and no token is
    /// emitted.
    fn make_string(&mut self)
        requires
            old(self).wf(),
            old(self).token_start() == old(self).cursor() - 1,
            old(self).src()[old(self).token_start()] == '"',
        ensures
            final(self).wf(),
            final(self).src() == old(self).src(),
            final(self).token_start() == old(self).token_start(),
            ({
                let src = old(self).src();
                let c0 = old(self).cursor();
                let close = scan_to_char(src, c0, '"');
                if close < src.len() {
                    &&& final(self).cursor() == close + 1
                    &&& final(self).line_no() == old(self).line_no() + count_newlines(
                        src,
                        c0,
                        close,
                    )
                    &&& final(self).toks() == old(self).toks().push(
                        (SpecToken {
                            kind: TokenType::String,
                            lexeme: src.subrange(c0 - 1, close + 1),
                            literal: src.subrange(c0, close),
                            line: old(self).line_no(),
                        }),
                    )
                    &&& final(self).errs() == old(self).errs()
                } else {
                    &&& final(self).cursor() == src.len()
                    &&& final(self).line_no() == old(self).line_no() + count_newlines(
                        src,
                        c0,
                        src.len() as int,
                    )
                    &&& final(self).toks() == old(self).toks()
                    &&& final(self).errs() == old(self).errs().push(
                        (SpecLexError::UnterminatedString { line: old(self).line_no() }),
                    )
                }
            }),
    {
        let start_line = self.line;
        let ghost src = self.src();
        let ghost c0 = self.cursor();
        while self.peek() != '"' && !self.is_at_end()
            invariant
                self.wf(),
                self.src() == src,
                c0 <= self.cursor(),
                self.token_start() == old(self).token_start(),
                self.toks() == old(self).toks(),
                self.errs() == old(self).errs(),
                self.line_no() == old(self).line_no() + count_newlines(src, c0, self.cursor()),
                scan_to_char(src, c0, '"') == scan_to_char(src, self.cursor(), '"'),
            decreases src.len() - self.cursor(),
        {
            let c = self.advance();
            if c == '\n' {
                self.line = self.line + 1;
            }
        }
        if self.is_at_end() {
            self.add_error(LexError::UnterminatedString { line: start_line });
        } else {
            self.advance();
            let lexeme = self.source.as_str().substring_char(self.start, self.current).to_owned();
            let value = self.source.as_str().substring_char(self.start + 1, self.current - 1)
                .to_owned();
            let t = Token::new(TokenType::String, lexeme, value, start_line);
            self.tokens.push(t);
            proof {
                assert(self.toks() =~= old(self).toks().push(self.tokens@.last()@));
            }
        }
    }

    /// Scans a number: a maximal run of digits, extended past one decimal
    /// point only when at least one further digit follows it.  The cursor
    /// stands just past the leading digit on entry.
    fn make_number(&mut self)
        requires
            old(self).wf(),
            old(self).token_start() == old(self).cursor() - 1,
            is_digit_char(old(self).src()[old(self).token_start()]),
        ensures
            final(self).wf(),
            final(self).src() == old(self).src(),
            final(self).token_start() == old(self).token_start(),
            final(self).line_no() == old(self).line_no(),
            final(self).errs() == old(self).errs(),
            final(self).cursor() == number_end(old(self).src(), old(self).token_start()),
            final(self).toks() == old(self).toks().push(
                (SpecToken {
                    kind: TokenType::Number,
                    lexeme: old(self).src().subrange(
                        old(self).token_start(),
                        number_end(old(self).src(), old(self).token_start()),
                    ),
                    literal: old(self).src().subrange(
                        old(self).token_start(),
                        number_end(old(self).src(), old(self).token_start()),
                    ),
                    line: old(self).line_no(),
                }),
            ),
    {
        let ghost src = self.src();
        let ghost start = self.token_start();
        while char_is_digit(self.peek())
            invariant
                self.wf(),
                self.src() == src,
                self.token_start() == start,
                start + 1 <= self.cursor(),
                self.line_no() == old(self).line_no(),
                self.toks() == old(self).toks(),
                self.errs() == old(self).errs(),
                digit_run_end(src, start + 1) == digit_run_end(src, self.cursor()),
            decreases src.len() - self.cursor(),
        {
            self.advance();
        }
        proof {
            assert(digit_run_end(src, start) == digit_run_end(src, start + 1));
            assert(self.cursor() == digit_run_end(src, start));
        }
        let ghost d = self.cursor();
        if self.peek() == '.' && char_is_digit(self.peek_next()) {
            self.advance();
            while char_is_digit(self.peek())
                invariant
                    self.wf(),
                    self.src() == src,
                    self.token_start() == start,
                    d + 1 <= self.cursor(),
                    self.line_no() == old(self).line_no(),
                    self.toks() == old(self).toks(),
                    self.errs() == old(self).errs(),
                    digit_run_end(src, d + 1) == digit_run_end(src, self.cursor()),
                decreases src.len() - self.cursor(),
            {
                self.advance();
            }
        }
        proof {
            assert(self.cursor() == number_end(src, start));
        }
        let value = self.source.as_str().substring_char(self.start, self.current).to_owned();
        self.add_token_literal(TokenType::Number, Some(value));
    }

    /// Scans an identifier or keyword: a maximal run of alphanumeric
    /// characters, emitted as the matching keyword kind when the word is
    /// reserved and as an identifier otherwise.  The cursor stands just
    /// past the leading character on entry.
    fn make_identifier(&mut self)
        requires
            old(self).wf(),
            old(self).token_start() == old(self).cursor() - 1,
            unicode_alphanumeric(old(self).src()[old(self).token_start()]),
        ensures
            final(self).wf(),
            final(self).src() == old(self).src(),
            final(self).token_start() == old(self).token_start(),
            final(self).line_no() == old(self).line_no(),
            final(self).errs() == old(self).errs(),
            final(self).cursor() == alnum_run_end(old(self).src(), old(self).token_start()),
            ({
                let src = old(self).src();
                let start = old(self).token_start();
                let w = src.subrange(start, alnum_run_end(src, start));
                final(self).toks() == old(self).toks().push(
                    match spec_keyword(w) {
                        Some(kind) => (SpecToken {
                            kind,
                            lexeme: w,
                            literal: Seq::empty(),
                            line: old(self).line_no(),
                        }),
                        None => (SpecToken {
                            kind: TokenType::Identifier,
                            lexeme: w,
                            literal: w,
                            line: old(self).line_no(),
                        }),
                    },
                )
            }),
    {
        let ghost src = self.src();
        let ghost start = self.token_start();
        while !self.is_at_end() && char_is_alphanumeric(self.peek())
            invariant
                self.wf(),
                self.src() == src,
                self.token_start() == start,
                start + 1 <= self.cursor(),
                self.line_no() == old(self).line_no(),
                self.toks() == old(self).toks(),
                self.errs() == old(self).errs(),
                alnum_run_end(src, start + 1) == alnum_run_end(src, self.cursor()),
            decreases src.len() - self.cursor(),
        {
            self.advance();
        }
        proof {
            assert(alnum_run_end(src, start) == alnum_run_end(src, start + 1));
            assert(self.cursor() == alnum_run_end(src, start));
        }
        let value = self.source.as_str().substring_char(self.start, self.current).to_owned();
        if let Some(keyword) = self.get_keyword(value.clone()) {
            self.add_token(keyword);
            return ;
        }
        self.add_token_literal(TokenType::Identifier, Some(value));
    }

    /// One dispatch: consumes one token, comment, skipped character or
    /// erroneous construct, exactly as the model's step function says.
    fn scan_token(&mut self)
        requires
            old(self).wf(),
            old(self).token_start() == old(self).cursor(),
            old(self).cursor() < old(self).src().len(),
        ensures
            final(self).wf(),
            final(self).src() == old(self).src(),
            ({
                let st = spec_step(old(self).src(), old(self).cursor(), old(self).line_no());
                &&& final(self).cursor() == st.next
                &&& final(self).line_no() == st.line
                &&& final(self).toks() == old(self).toks() + opt_seq(st.token)
                &&& final(self).errs() == old(self).errs() + opt_seq(st.error)
            }),
    {
        let ghost src = old(self).src();
        let ghost pos = old(self).cursor();
        let ghost line0 = old(self).line_no();
        let ghost st = spec_step(src, pos, line0);
        let c = self.advance();
        match c {
            '\n' => {
                self.line = self.line + 1;
            },
            ' ' => {},
            '{' => self.add_token(TokenType::LeftBrace),
            '}' => self.add_token(TokenType::RightBrace),
            '(' => self.add_token(TokenType::LeftParen),
            ')' => self.add_token(TokenType::RightParen),
            ',' => self.add_token(TokenType::Comma),
            '.' => self.add_token(TokenType::Dot),
            '-' => {
                let token = if self.is_match('>') {
                    TokenType::FnTypeImplication
                } else {
                    TokenType::Minus
                };
                self.add_token(token);
            },
            '+' => self.add_token(TokenType::Plus),
            ';' => self.add_token(TokenType::Semicolon),
            '*' => self.add_token(TokenType::Star),
            '!' => {
                let token = if self.is_match('=') {
                    TokenType::BangEqual
                } else {
                    TokenType::Bang
                };
                self.add_token(token);
            },
            '=' => {
                let token = if self.is_match('=') {
                    TokenType::EqualEqual
                } else {
                    TokenType::Equal
                };
                self.add_token(token);
            },
            '<' => {
                let token = if self.is_match('=') {
                    TokenType::LessEqual
                } else {
                    TokenType::Less
                };
                self.add_token(token);
            },
            '>' => {
                let token = if self.is_match('=') {
                    TokenType::GreaterEqual
                } else {
                    TokenType::Greater
                };
                self.add_token(token);
            },
            '#' => self.skip_line_comment(),
            '/' => {
                if self.is_match('*') {
                    self.skip_block_comment();
                } else {
                    self.add_token(TokenType::Slash);
                }
            },
            ':' => {
                if self.is_match(':') {
                    self.add_token(TokenType::FnTypeAssigner);
                }
            },
            '"' => self.make_string(),
            _ => {
                if char_is_digit(c) {
                    self.make_number();
                } else if char_is_alphanumeric(c) {
                    self.make_identifier();
                } else {
                    self.add_error(
                        LexError::UnexpectedCharacter { character: c, line: self.line },
                    );
                }
            },
        }
        proof {
            assert(self.toks() =~= old(self).toks() + opt_seq(st.token));
            assert(self.errs() =~= old(self).errs() + opt_seq(st.error));
        }
    }

    /// Drives the cursor to the end of the source, producing the complete
    /// token sequence — every token of the model's scan, in source order,
    /// terminated by exactly one end-of-input token — and collecting
    /// exactly the model's lexical errors.
    ///
    /// The error policy is collect-and-continue: a lexical error never
    /// aborts the scan.  An unexpected character is skipped and recorded;
    /// an unterminated string or block comment is recorded and the scan
    /// resumes at the end of the input, so the token sequence is complete
    /// either way.  The caller reads the errors through `get_errors` and
    /// decides what to make of them.
    pub fn scan_tokens(&mut self)
        requires
            old(self).wf(),
            old(self).fresh(),
        ensures
            final(self).wf(),
            final(self).src() == old(self).src(),
            final(self).toks() == scan_output(old(self).src()),
            final(self).errs() == scan_errors(old(self).src()),
    {
        let ghost src = self.src();
        while !self.is_at_end()
            invariant
                self.wf(),
                self.src() == src,
                spec_scan(src, 0, 1).tokens =~= self.toks() + spec_scan(
                    src,
                    self.cursor(),
                    self.line_no(),
                ).tokens,
                spec_scan(src, 0, 1).errors =~= self.errs() + spec_scan(
                    src,
                    self.cursor(),
                    self.line_no(),
                ).errors,
                spec_scan(src, 0, 1).line == spec_scan(src, self.cursor(), self.line_no()).line,
            decreases src.len() - self.cursor(),
        {
            let ghost pos = self.cursor();
            let ghost line0 = self.line_no();
            let ghost st = spec_step(src, pos, line0);
            proof {
                lemma_step_bounds(src, pos, line0);
            }
            self.start = self.current;
            self.scan_token();
            proof {
                assert(spec_scan(src, pos, line0).tokens =~= opt_seq(st.token) + spec_scan(
                    src,
                    st.next,
                    st.line,
                ).tokens);
                assert(spec_scan(src, pos, line0).errors =~= opt_seq(st.error) + spec_scan(
                    src,
                    st.next,
                    st.line,
                ).errors);
            }
        }
        let t = Token::new(TokenType::EOF, String::new(), String::new(), self.line);
        self.tokens.push(t);
        proof {
            assert(self.toks() =~= old(self).toks() + scan_output(src));
            assert(self.toks() =~= scan_output(src));
            assert(self.errs() =~= scan_errors(src));
        }
    }

    /// The tokens produced so far: after `scan_tokens`, the complete
    /// sequence.
    pub fn get_tokens(&mut self) -> (r: &Vec<Token>)
        ensures
            *final(self) == *old(self),
            r.deep_view() == old(self).toks(),
    {
        &self.tokens
    }

    /// The lexical errors collected so far, in source order.
    pub fn get_errors(&mut self) -> (r: &Vec<LexError>)
        ensures
            *final(self) == *old(self),
            r.deep_view() == old(self).errs(),
    {
        &self.errors
    }
}

} // verus!
