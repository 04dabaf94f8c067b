//! Laws of the scan, proved once and for all over the model — and so,
//! through `scan_tokens`'s contract, over everything the executable
//! scanner produces.

use vstd::prelude::*;

use crate::model::{
    block_comment_close, count_newlines, digit_run_end, is_digit_char, lemma_digit_run_end,
    lemma_scan_to_char, lemma_step_bounds, number_end, op_step, scan_output, scan_to_char,
    spec_keyword, spec_scan, spec_step,
};
use crate::token::{SpecLexError, SpecToken, TokenType};

verus! {

proof fn lemma_scan_no_eof(src: Seq<char>, pos: int, line: int)
    requires
        0 <= pos <= src.len(),
    ensures
        forall|i: int|
            0 <= i < spec_scan(src, pos, line).tokens.len() ==> (#[trigger] spec_scan(
                src,
                pos,
                line,
            ).tokens[i]).kind != TokenType::EOF,
    decreases src.len() - pos,
{
    if pos < src.len() {
        let st = spec_step(src, pos, line);
        lemma_step_bounds(src, pos, line);
        lemma_scan_no_eof(src, st.next, st.line);
    }
}

/// For every source text, the output token sequence ends in the single
/// end-of-input token: it is the final element, and no end-of-input
/// token appears earlier.
pub proof fn lemma_end_of_input_last(src: Seq<char>)
    ensures
        scan_output(src).len() >= 1,
        scan_output(src).last().kind == TokenType::EOF,
        forall|i: int|
            0 <= i < scan_output(src).len() - 1 ==> (#[trigger] scan_output(src)[i]).kind
                != TokenType::EOF,
{
    lemma_scan_no_eof(src, 0, 1);
}

/// Maximal munch: wherever one of the two-character operators stands,
/// the step scans it as the single compound token consuming both
/// characters, never as two adjacent single-character tokens.
pub proof fn lemma_maximal_munch(src: Seq<char>, pos: int, line: int)
    requires
        0 <= pos,
        pos + 1 < src.len(),
    ensures
        src[pos] == '!' && src[pos + 1] == '=' ==> spec_step(src, pos, line) == op_step(
            src,
            pos,
            2,
            TokenType::BangEqual,
            line,
        ),
        src[pos] == '=' && src[pos + 1] == '=' ==> spec_step(src, pos, line) == op_step(
            src,
            pos,
            2,
            TokenType::EqualEqual,
            line,
        ),
        src[pos] == '<' && src[pos + 1] == '=' ==> spec_step(src, pos, line) == op_step(
            src,
            pos,
            2,
            TokenType::LessEqual,
            line,
        ),
        src[pos] == '>' && src[pos + 1] == '=' ==> spec_step(src, pos, line) == op_step(
            src,
            pos,
            2,
            TokenType::GreaterEqual,
            line,
        ),
        src[pos] == '-' && src[pos + 1] == '>' ==> spec_step(src, pos, line) == op_step(
            src,
            pos,
            2,
            TokenType::FnTypeImplication,
            line,
        ),
        src[pos] == ':' && src[pos + 1] == ':' ==> spec_step(src, pos, line) == op_step(
            src,
            pos,
            2,
            TokenType::FnTypeAssigner,
            line,
        ),
{
}

/// Comments never produce a token or an error-free step that emits one:
/// a line comment leaves the line counter alone, and a terminated block
/// comment whose interior spans N newlines advances the line counter by
/// exactly N — `count_newlines` of its interior.
pub proof fn lemma_comments_produce_no_tokens(src: Seq<char>, pos: int, line: int)
    requires
        0 <= pos < src.len(),
    ensures
        src[pos] == '#' ==> spec_step(src, pos, line).token is None && spec_step(
            src,
            pos,
            line,
        ).error is None && spec_step(src, pos, line).line == line,
        (src[pos] == '/' && pos + 1 < src.len() && src[pos + 1] == '*' && block_comment_close(
            src,
            pos + 2,
        ) is Some) ==> spec_step(src, pos, line).token is None && spec_step(
            src,
            pos,
            line,
        ).error is None && spec_step(src, pos, line).line == line + count_newlines(
            src,
            pos + 2,
            block_comment_close(src, pos + 2).unwrap(),
        ),
        (src[pos] == '/' && pos + 1 < src.len() && src[pos + 1] == '*' && block_comment_close(
            src,
            pos + 2,
        ) is None) ==> spec_step(src, pos, line).token is None && spec_step(src, pos, line).error
            == Some(SpecLexError::UnterminatedBlockComment { line }),
{
}

/// Whether every position of `s` in `[from, to)` holds an ASCII digit.
pub open spec fn all_digits(s: Seq<char>, from: int, to: int) -> bool {
    forall|j: int| from <= j < to ==> is_digit_char(#[trigger] s[j])
}

/// Whether `s` is one maximal-munch number lexeme: one or more digits,
/// optionally followed by one decimal point and one or more further
/// digits, with nothing else.
pub open spec fn is_number_lexeme(s: Seq<char>) -> bool {
    ||| (s.len() >= 1 && all_digits(s, 0, s.len() as int))
    ||| (exists|k: int|
        1 <= k && k + 1 < s.len() && (#[trigger] s[k]) == '.' && all_digits(s, 0, k)
            && all_digits(s, k + 1, s.len() as int))
}

proof fn lemma_number_lexeme_shape(src: Seq<char>, pos: int)
    requires
        0 <= pos < src.len(),
        is_digit_char(src[pos]),
    ensures
        is_number_lexeme(src.subrange(pos, number_end(src, pos))),
{
    lemma_digit_run_end(src, pos);
    let d = digit_run_end(src, pos);
    let end = number_end(src, pos);
    let s = src.subrange(pos, end);
    if d < src.len() && src[d] == '.' && d + 1 < src.len() && is_digit_char(src[d + 1]) {
        lemma_digit_run_end(src, d + 1);
        let k = d - pos;
        assert(s[k] == '.');
        assert(1 <= k && k + 1 < s.len());
        assert(all_digits(s, 0, k));
        assert(all_digits(s, k + 1, s.len() as int));
    } else {
        assert(s.len() >= 1 && all_digits(s, 0, s.len() as int));
    }
}

proof fn lemma_scan_numbers(src: Seq<char>, pos: int, line: int)
    requires
        0 <= pos <= src.len(),
    ensures
        forall|i: int|
            0 <= i < spec_scan(src, pos, line).tokens.len() && (#[trigger] spec_scan(
                src,
                pos,
                line,
            ).tokens[i]).kind == TokenType::Number ==> is_number_lexeme(
                spec_scan(src, pos, line).tokens[i].lexeme,
            ),
    decreases src.len() - pos,
{
    if pos < src.len() {
        let st = spec_step(src, pos, line);
        lemma_step_bounds(src, pos, line);
        lemma_scan_numbers(src, st.next, st.line);
        if is_digit_char(src[pos]) {
            lemma_number_lexeme_shape(src, pos);
        }
    }
}

/// Every number token's lexeme is one or more digits, optionally
/// followed by one decimal point and one or more further digits — no
/// leading or embedded character other than digits and that one point.
pub proof fn lemma_number_tokens(src: Seq<char>)
    ensures
        forall|i: int|
            0 <= i < scan_output(src).len() && (#[trigger] scan_output(src)[i]).kind
                == TokenType::Number ==> is_number_lexeme(scan_output(src)[i].lexeme),
{
    lemma_scan_numbers(src, 0, 1);
}

/// What a well-formed string token looks like: the lexeme is the quoted
/// text, the literal is the lexeme with exactly its first and last
/// characters — the quotes — removed, and the literal holds no quote.
pub open spec fn string_token_shape(t: SpecToken) -> bool {
    &&& t.lexeme.len() >= 2
    &&& t.lexeme.first() == '"'
    &&& t.lexeme.last() == '"'
    &&& t.literal == t.lexeme.subrange(1, t.lexeme.len() - 1)
    &&& forall|j: int| 0 <= j < t.literal.len() ==> (#[trigger] t.literal[j]) != '"'
}

proof fn lemma_scan_strings(src: Seq<char>, pos: int, line: int)
    requires
        0 <= pos <= src.len(),
    ensures
        forall|i: int|
            0 <= i < spec_scan(src, pos, line).tokens.len() && (#[trigger] spec_scan(
                src,
                pos,
                line,
            ).tokens[i]).kind == TokenType::String ==> string_token_shape(
                spec_scan(src, pos, line).tokens[i],
            ),
    decreases src.len() - pos,
{
    if pos < src.len() {
        let st = spec_step(src, pos, line);
        lemma_step_bounds(src, pos, line);
        lemma_scan_strings(src, st.next, st.line);
        if src[pos] == '"' {
            lemma_scan_to_char(src, pos + 1, '"');
            let close = scan_to_char(src, pos + 1, '"');
            if close < src.len() {
                let t = st.token.unwrap();
                assert(t.literal =~= t.lexeme.subrange(1, t.lexeme.len() - 1));
                assert(string_token_shape(t));
            }
        }
    }
}

/// Every string token's literal equals its lexeme with exactly the first
/// and last characters — the two quotes — removed, and contains no quote
/// character.
pub proof fn lemma_string_tokens(src: Seq<char>)
    ensures
        forall|i: int|
            0 <= i < scan_output(src).len() && (#[trigger] scan_output(src)[i]).kind
                == TokenType::String ==> string_token_shape(scan_output(src)[i]),
{
    lemma_scan_strings(src, 0, 1);
}

proof fn lemma_keyword_word_shape(w: Seq<char>)
    ensures
        spec_keyword(w) is Some ==> w.len() >= 2 && 97 <= w[0] as u32 <= 122,
        spec_keyword(w) is Some ==> spec_keyword(w).unwrap() != TokenType::Identifier
            && spec_keyword(w).unwrap() != TokenType::Number && spec_keyword(w).unwrap()
            != TokenType::String && spec_keyword(w).unwrap() != TokenType::EOF,
{
    reveal_strlit("and");
    reveal_strlit("else");
    reveal_strlit("false");
    reveal_strlit("fn");
    reveal_strlit("if");
    reveal_strlit("nil");
    reveal_strlit("or");
    reveal_strlit("print");
    reveal_strlit("return");
    reveal_strlit("true");
    reveal_strlit("var");
    reveal_strlit("match");
    reveal_strlit("do");
    reveal_strlit("end");
    reveal_strlit("number");
    reveal_strlit("float");
    reveal_strlit("bool");
    reveal_strlit("string");
    reveal_strlit("function");
}

proof fn lemma_scan_keywords(src: Seq<char>, pos: int, line: int)
    requires
        0 <= pos <= src.len(),
    ensures
        forall|i: int|
            0 <= i < spec_scan(src, pos, line).tokens.len() ==> {
                let t = #[trigger] spec_scan(src, pos, line).tokens[i];
                &&& (t.kind == TokenType::Identifier ==> spec_keyword(t.lexeme) is None)
                &&& (spec_keyword(t.lexeme) is Some ==> t.kind == spec_keyword(
                    t.lexeme,
                ).unwrap())
            },
    decreases src.len() - pos,
{
    if pos < src.len() {
        let st = spec_step(src, pos, line);
        lemma_step_bounds(src, pos, line);
        lemma_scan_keywords(src, st.next, st.line);
        if st.token is Some {
            let t = st.token.unwrap();
            lemma_keyword_word_shape(t.lexeme);
            assert(t.lexeme == src.subrange(pos, st.next) || t.lexeme == src.subrange(
                pos,
                number_end(src, pos),
            ));
            if is_digit_char(src[pos]) {
                lemma_digit_run_end(src, pos);
            }
        }
    }
}

/// Every identifier token's lexeme matches no reserved keyword, and
/// every token whose lexeme matches a reserved keyword carries exactly
/// that keyword's kind.
pub proof fn lemma_keyword_tokens(src: Seq<char>)
    ensures
        forall|i: int|
            0 <= i < scan_output(src).len() ==> {
                let t = #[trigger] scan_output(src)[i];
                &&& (t.kind == TokenType::Identifier ==> spec_keyword(t.lexeme) is None)
                &&& (spec_keyword(t.lexeme) is Some ==> t.kind == spec_keyword(
                    t.lexeme,
                ).unwrap())
            },
{
    lemma_scan_keywords(src, 0, 1);
    lemma_keyword_word_shape(Seq::<char>::empty());
}

} // verus!

