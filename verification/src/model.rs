//! The mathematical model of the scan: a step function that says, for a
//! cursor standing on any character, which token or error the scanner
//! produces, how far the cursor moves and how the line counter advances;
//! and its transitive closure over the whole source.
//!
//! The scanner's public contracts are stated against this model, so every
//! fact proved about the model holds of the executable scanner.

use vstd::prelude::*;

use crate::token::{SpecLexError, SpecToken, TokenType};

verus! {

/// Whether `c` is an ASCII decimal digit, the only digits the number rule
/// recognizes.
pub open spec fn is_digit_char(c: char) -> bool {
    48 <= c as u32 && c as u32 <= 57
}

/// Whether `c` counts as a word character for identifier scanning: the
/// Unicode alphanumeric property.  The executable scanner decides it with
/// `char::is_alphanumeric`, whose result is a function of `c` alone; this
/// name stands for that result.
pub uninterp spec fn unicode_alphanumeric(c: char) -> bool;

/// The first position at or after `pos` holding the character `c`, or the
/// length of `src` if there is none.
pub open spec fn scan_to_char(src: Seq<char>, pos: int, c: char) -> int
    recommends
        0 <= pos <= src.len(),
    decreases src.len() - pos,
{
    if pos >= src.len() {
        src.len() as int
    } else if src[pos] == c {
        pos
    } else {
        scan_to_char(src, pos + 1, c)
    }
}

/// The first position at or after `pos` holding a non-digit, or the length
/// of `src`: the end of the maximal digit run starting at `pos`.
pub open spec fn digit_run_end(src: Seq<char>, pos: int) -> int
    recommends
        0 <= pos <= src.len(),
    decreases src.len() - pos,
{
    if pos < src.len() && is_digit_char(src[pos]) {
        digit_run_end(src, pos + 1)
    } else {
        pos
    }
}

/// The end of the maximal alphanumeric run starting at `pos`.
pub open spec fn alnum_run_end(src: Seq<char>, pos: int) -> int
    recommends
        0 <= pos <= src.len(),
    decreases src.len() - pos,
{
    if pos < src.len() && unicode_alphanumeric(src[pos]) {
        alnum_run_end(src, pos + 1)
    } else {
        pos
    }
}

/// Where a number token beginning at `pos` ends: the maximal digit run,
/// extended past one decimal point only when at least one further digit
/// follows it.
pub open spec fn number_end(src: Seq<char>, pos: int) -> int
    recommends
        0 <= pos <= src.len(),
{
    let d = digit_run_end(src, pos);
    if d < src.len() && src[d] == '.' && d + 1 < src.len() && is_digit_char(src[d + 1]) {
        digit_run_end(src, d + 1)
    } else {
        d
    }
}

/// The position of the `*` of the first `*/` pair at or after `pos`, or
/// `None` if the input ends first.
pub open spec fn block_comment_close(src: Seq<char>, pos: int) -> Option<int>
    recommends
        0 <= pos <= src.len(),
    decreases src.len() - pos,
{
    if pos >= src.len() {
        None
    } else if src[pos] == '*' && pos + 1 < src.len() && src[pos + 1] == '/' {
        Some(pos)
    } else {
        block_comment_close(src, pos + 1)
    }
}

/// How many newline characters `src` holds in the half-open range
/// `[from, to)`.
pub open spec fn count_newlines(src: Seq<char>, from: int, to: int) -> int
    recommends
        0 <= from <= to <= src.len(),
    decreases to - from,
{
    if from >= to {
        0
    } else {
        count_newlines(src, from, to - 1) + (if src[to - 1] == '\n' {
            1int
        } else {
            0int
        })
    }
}

/// The fixed keyword and type-keyword table: which token kind a scanned
/// word is reserved for, if any.
pub open spec fn spec_keyword(w: Seq<char>) -> Option<TokenType> {
    if w == "and"@ {
        Some(TokenType::And)
    } else if w == "else"@ {
        Some(TokenType::Else)
    } else if w == "false"@ {
        Some(TokenType::False)
    } else if w == "fn"@ {
        Some(TokenType::Fn)
    } else if w == "if"@ {
        Some(TokenType::If)
    } else if w == "nil"@ {
        Some(TokenType::Nil)
    } else if w == "or"@ {
        Some(TokenType::Or)
    } else if w == "print"@ {
        Some(TokenType::Print)
    } else if w == "return"@ {
        Some(TokenType::Return)
    } else if w == "true"@ {
        Some(TokenType::True)
    } else if w == "var"@ {
        Some(TokenType::Var)
    } else if w == "match"@ {
        Some(TokenType::Match)
    } else if w == "do"@ {
        Some(TokenType::Do)
    } else if w == "end"@ {
        Some(TokenType::End)
    } else if w == "number"@ {
        Some(TokenType::NumberType)
    } else if w == "float"@ {
        Some(TokenType::FloatType)
    } else if w == "bool"@ {
        Some(TokenType::BoolType)
    } else if w == "string"@ {
        Some(TokenType::StringType)
    } else if w == "function"@ {
        Some(TokenType::FunctionType)
    } else {
        None
    }
}

/// What one dispatch of the scanner does from a cursor standing at `pos`
/// on line `line`: where the cursor moves, the line reached, and the token
/// or error produced, if any.
pub struct Step {
    pub next: int,
    pub line: int,
    pub token: Option<SpecToken>,
    pub error: Option<SpecLexError>,
}

/// A step that consumes `n` characters and emits a token of kind `kind`
/// whose lexeme is the consumed text and whose literal is empty.
pub open spec fn op_step(src: Seq<char>, pos: int, n: int, kind: TokenType, line: int) -> Step {
    Step {
        next: pos + n,
        line,
        token: Some(
            SpecToken {
                kind,
                lexeme: src.subrange(pos, pos + n),
                literal: Seq::empty(),
                line,
            },
        ),
        error: None,
    }
}

/// A step that consumes `n` characters and produces neither token nor
/// error.
pub open spec fn skip_step(pos: int, n: int, line: int) -> Step {
    Step { next: pos + n, line, token: None, error: None }
}

/// One dispatch of the scanner, by the character under the cursor.
/// Maximal munch governs every multi-character decision: the two-character
/// operators, the decimal point of a number, the run of an identifier.
pub open spec fn spec_step(src: Seq<char>, pos: int, line: int) -> Step
    recommends
        0 <= pos < src.len(),
{
    let c = src[pos];
    if c == '\n' {
        Step { next: pos + 1, line: line + 1, token: None, error: None }
    } else if c == ' ' {
        skip_step(pos, 1, line)
    } else if c == '{' {
        op_step(src, pos, 1, TokenType::LeftBrace, line)
    } else if c == '}' {
        op_step(src, pos, 1, TokenType::RightBrace, line)
    } else if c == '(' {
        op_step(src, pos, 1, TokenType::LeftParen, line)
    } else if c == ')' {
        op_step(src, pos, 1, TokenType::RightParen, line)
    } else if c == ',' {
        op_step(src, pos, 1, TokenType::Comma, line)
    } else if c == '.' {
        op_step(src, pos, 1, TokenType::Dot, line)
    } else if c == '-' {
        if pos + 1 < src.len() && src[pos + 1] == '>' {
            op_step(src, pos, 2, TokenType::FnTypeImplication, line)
        } else {
            op_step(src, pos, 1, TokenType::Minus, line)
        }
    } else if c == '+' {
        op_step(src, pos, 1, TokenType::Plus, line)
    } else if c == ';' {
        op_step(src, pos, 1, TokenType::Semicolon, line)
    } else if c == '*' {
        op_step(src, pos, 1, TokenType::Star, line)
    } else if c == '!' {
        if pos + 1 < src.len() && src[pos + 1] == '=' {
            op_step(src, pos, 2, TokenType::BangEqual, line)
        } else {
            op_step(src, pos, 1, TokenType::Bang, line)
        }
    } else if c == '=' {
        if pos + 1 < src.len() && src[pos + 1] == '=' {
            op_step(src, pos, 2, TokenType::EqualEqual, line)
        } else {
            op_step(src, pos, 1, TokenType::Equal, line)
        }
    } else if c == '<' {
        if pos + 1 < src.len() && src[pos + 1] == '=' {
            op_step(src, pos, 2, TokenType::LessEqual, line)
        } else {
            op_step(src, pos, 1, TokenType::Less, line)
        }
    } else if c == '>' {
        if pos + 1 < src.len() && src[pos + 1] == '=' {
            op_step(src, pos, 2, TokenType::GreaterEqual, line)
        } else {
            op_step(src, pos, 1, TokenType::Greater, line)
        }
    } else if c == '#' {
        // Line comment: consume up to, not including, the newline, which
        // the next step handles.
        Step { next: scan_to_char(src, pos + 1, '\n'), line, token: None, error: None }
    } else if c == '/' {
        if pos + 1 < src.len() && src[pos + 1] == '*' {
            match block_comment_close(src, pos + 2) {
                Some(close) => Step {
                    next: close + 2,
                    line: line + count_newlines(src, pos + 2, close),
                    token: None,
                    error: None,
                },
                None => Step {
                    next: src.len() as int,
                    line: line + count_newlines(src, pos + 2, src.len() as int),
                    token: None,
                    error: Some(SpecLexError::UnterminatedBlockComment { line }),
                },
            }
        } else {
            op_step(src, pos, 1, TokenType::Slash, line)
        }
    } else if c == ':' {
        if pos + 1 < src.len() && src[pos + 1] == ':' {
            op_step(src, pos, 2, TokenType::FnTypeAssigner, line)
        } else {
            // A lone colon is consumed without producing a token.
            skip_step(pos, 1, line)
        }
    } else if c == '"' {
        let close = scan_to_char(src, pos + 1, '"');
        if close < src.len() {
            Step {
                next: close + 1,
                line: line + count_newlines(src, pos + 1, close),
                token: Some(
                    SpecToken {
                        kind: TokenType::String,
                        lexeme: src.subrange(pos, close + 1),
                        literal: src.subrange(pos + 1, close),
                        line,
                    },
                ),
                error: None,
            }
        } else {
            Step {
                next: src.len() as int,
                line: line + count_newlines(src, pos + 1, src.len() as int),
                token: None,
                error: Some(SpecLexError::UnterminatedString { line }),
            }
        }
    } else if is_digit_char(c) {
        let end = number_end(src, pos);
        Step {
            next: end,
            line,
            token: Some(
                SpecToken {
                    kind: TokenType::Number,
                    lexeme: src.subrange(pos, end),
                    literal: src.subrange(pos, end),
                    line,
                },
            ),
            error: None,
        }
    } else if unicode_alphanumeric(c) {
        let end = alnum_run_end(src, pos);
        let w = src.subrange(pos, end);
        match spec_keyword(w) {
            Some(kind) => Step {
                next: end,
                line,
                token: Some(SpecToken { kind, lexeme: w, literal: Seq::empty(), line }),
                error: None,
            },
            None => Step {
                next: end,
                line,
                token: Some(
                    SpecToken { kind: TokenType::Identifier, lexeme: w, literal: w, line },
                ),
                error: None,
            },
        }
    } else {
        Step {
            next: pos + 1,
            line,
            token: None,
            error: Some(SpecLexError::UnexpectedCharacter { character: c, line }),
        }
    }
}

pub proof fn lemma_scan_to_char(src: Seq<char>, pos: int, c: char)
    requires
        0 <= pos <= src.len(),
    ensures
        pos <= scan_to_char(src, pos, c) <= src.len(),
        scan_to_char(src, pos, c) < src.len() ==> src[scan_to_char(src, pos, c)] == c,
        forall|j: int| pos <= j < scan_to_char(src, pos, c) ==> src[j] != c,
    decreases src.len() - pos,
{
    if pos < src.len() && src[pos] != c {
        lemma_scan_to_char(src, pos + 1, c);
    }
}

pub proof fn lemma_digit_run_end(src: Seq<char>, pos: int)
    requires
        0 <= pos <= src.len(),
    ensures
        pos <= digit_run_end(src, pos) <= src.len(),
        forall|j: int| pos <= j < digit_run_end(src, pos) ==> is_digit_char(src[j]),
        pos < src.len() && is_digit_char(src[pos]) ==> digit_run_end(src, pos) > pos,
        digit_run_end(src, pos) < src.len() ==> !is_digit_char(src[digit_run_end(src, pos)]),
    decreases src.len() - pos,
{
    if pos < src.len() && is_digit_char(src[pos]) {
        lemma_digit_run_end(src, pos + 1);
    }
}

pub proof fn lemma_alnum_run_end(src: Seq<char>, pos: int)
    requires
        0 <= pos <= src.len(),
    ensures
        pos <= alnum_run_end(src, pos) <= src.len(),
        forall|j: int| pos <= j < alnum_run_end(src, pos) ==> unicode_alphanumeric(src[j]),
        pos < src.len() && unicode_alphanumeric(src[pos]) ==> alnum_run_end(src, pos) > pos,
        alnum_run_end(src, pos) < src.len() ==> !unicode_alphanumeric(
            src[alnum_run_end(src, pos)],
        ),
    decreases src.len() - pos,
{
    if pos < src.len() && unicode_alphanumeric(src[pos]) {
        lemma_alnum_run_end(src, pos + 1);
    }
}

pub proof fn lemma_number_end(src: Seq<char>, pos: int)
    requires
        0 <= pos < src.len(),
        is_digit_char(src[pos]),
    ensures
        pos < number_end(src, pos) <= src.len(),
{
    lemma_digit_run_end(src, pos);
    let d = digit_run_end(src, pos);
    if d < src.len() && src[d] == '.' && d + 1 < src.len() && is_digit_char(src[d + 1]) {
        lemma_digit_run_end(src, d + 1);
    }
}

pub proof fn lemma_block_comment_close(src: Seq<char>, pos: int)
    requires
        0 <= pos <= src.len(),
    ensures
        match block_comment_close(src, pos) {
            Some(close) => pos <= close && close + 1 < src.len() && src[close] == '*'
                && src[close + 1] == '/',
            None => forall|j: int|
                pos <= j < src.len() ==> !((#[trigger] src[j]) == '*' && j + 1 < src.len()
                    && src[j + 1] == '/'),
        },
    decreases src.len() - pos,
{
    if pos < src.len() && !(src[pos] == '*' && pos + 1 < src.len() && src[pos + 1] == '/') {
        lemma_block_comment_close(src, pos + 1);
    }
}

pub proof fn lemma_count_newlines(src: Seq<char>, from: int, to: int)
    requires
        from <= to,
    ensures
        0 <= count_newlines(src, from, to) <= to - from,
    decreases to - from,
{
    if from < to {
        lemma_count_newlines(src, from, to - 1);
    }
}

/// Every step consumes at least one character, never runs past the end of
/// the source, and advances the line counter by at most the number of
/// characters it consumes.
pub proof fn lemma_step_bounds(src: Seq<char>, pos: int, line: int)
    requires
        0 <= pos < src.len(),
    ensures
        pos < spec_step(src, pos, line).next <= src.len(),
        line <= spec_step(src, pos, line).line,
        spec_step(src, pos, line).line - line <= spec_step(src, pos, line).next - pos,
{
    let c = src[pos];
    if c == '#' {
        lemma_scan_to_char(src, pos + 1, '\n');
    } else if c == '/' && pos + 1 < src.len() && src[pos + 1] == '*' {
        lemma_block_comment_close(src, pos + 2);
        match block_comment_close(src, pos + 2) {
            Some(close) => {
                lemma_count_newlines(src, pos + 2, close);
            },
            None => {
                lemma_count_newlines(src, pos + 2, src.len() as int);
            },
        }
    } else if c == '"' {
        lemma_scan_to_char(src, pos + 1, '"');
        let close = scan_to_char(src, pos + 1, '"');
        if close < src.len() {
            lemma_count_newlines(src, pos + 1, close);
        } else {
            lemma_count_newlines(src, pos + 1, src.len() as int);
        }
    } else if is_digit_char(c) {
        lemma_number_end(src, pos);
    } else if unicode_alphanumeric(c) {
        lemma_alnum_run_end(src, pos);
    }
}

/// What the whole scan produces from a cursor at `pos` on line `line`:
/// all remaining tokens and errors in source order, and the line reached
/// at the end of the input.  The end-of-input token is not part of this
/// sequence; `scan_output` appends it.
pub struct ScanState {
    pub tokens: Seq<SpecToken>,
    pub errors: Seq<SpecLexError>,
    pub line: int,
}

/// An optional value as a sequence of length zero or one.
pub open spec fn opt_seq<A>(o: Option<A>) -> Seq<A> {
    match o {
        Some(a) => seq![a],
        None => Seq::empty(),
    }
}

pub open spec fn spec_scan(src: Seq<char>, pos: int, line: int) -> ScanState
    recommends
        0 <= pos <= src.len(),
    decreases src.len() - pos,
        when 0 <= pos
        via spec_scan_decreases
{
    if pos >= src.len() {
        ScanState { tokens: Seq::empty(), errors: Seq::empty(), line }
    } else {
        let st = spec_step(src, pos, line);
        let rest = spec_scan(src, st.next, st.line);
        ScanState {
            tokens: opt_seq(st.token) + rest.tokens,
            errors: opt_seq(st.error) + rest.errors,
            line: rest.line,
        }
    }
}

#[via_fn]
proof fn spec_scan_decreases(src: Seq<char>, pos: int, line: int) {
    if pos < src.len() {
        lemma_step_bounds(src, pos, line);
    }
}

/// The end-of-input token: empty lexeme and literal, carrying the line
/// reached at the end of the source.
pub open spec fn eof_token(line: int) -> SpecToken {
    SpecToken { kind: TokenType::EOF, lexeme: Seq::empty(), literal: Seq::empty(), line }
}

/// The complete token sequence for a source text: every token the scan
/// produces, in source order, terminated by the single end-of-input token.
pub open spec fn scan_output(src: Seq<char>) -> Seq<SpecToken> {
    let s = spec_scan(src, 0, 1);
    s.tokens.push(eof_token(s.line))
}

/// The lexical errors the scan of a source text collects, in source order.
pub open spec fn scan_errors(src: Seq<char>) -> Seq<SpecLexError> {
    spec_scan(src, 0, 1).errors
}

} // verus!
