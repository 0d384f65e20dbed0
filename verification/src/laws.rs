//! General properties of the lexer, stated over the model and proved once and
//! for all. Each holds for every input; the scenario-shaped counterparts live
//! in the test suite.

use vstd::prelude::*;

use crate::chars::{is_ascii_letter, is_digit_char, is_letter, is_ws};
use crate::model::{
    alpha_end, digit_end, digits_val, ident_token, is_kw, lemma_alpha_end, lemma_digit_end,
    lemma_skip_ws, lex_step, skip_ws, SpecToken,
};

verus! {

/// For an input consisting solely of whitespace, the first token produced is
/// end-of-input.
pub proof fn lemma_whitespace_only_yields_eof(s: Seq<char>)
    requires
        forall|i: int| 0 <= i < s.len() ==> is_ws(s[i]),
    ensures
        lex_step(s, 0).token == SpecToken::Eof,
{
    lemma_skip_ws(s, 0);
}

/// Once end-of-input is produced the lexer is in its terminal state: the
/// cursor rests at the end of the input, and every further step produces
/// end-of-input again without moving it.
pub proof fn lemma_eof_is_terminal(s: Seq<char>, p: int)
    requires
        0 <= p <= s.len(),
        lex_step(s, p).token == SpecToken::Eof,
    ensures
        lex_step(s, p).next == s.len(),
        lex_step(s, lex_step(s, p).next).token == SpecToken::Eof,
        lex_step(s, lex_step(s, p).next).next == s.len(),
{
    lemma_skip_ws(s, p);
}

/// A token starting on an ASCII letter is the maximal alphabetic run from
/// there, taken as one word: each of the seven keywords maps to its keyword
/// token, and any other word becomes an identifier token carrying exactly that
/// text.
pub proof fn lemma_word_token(s: Seq<char>, p: int)
    requires
        0 <= p <= s.len(),
        skip_ws(s, p) < s.len(),
        is_ascii_letter(s[skip_ws(s, p)]),
    ensures
        ({
            let q = skip_ws(s, p);
            let e = alpha_end(s, q);
            let w = s.subrange(q, e);
            &&& q < e <= s.len()
            &&& lex_step(s, p).next == e
            &&& lex_step(s, p).token == ident_token(w)
            &&& (!is_kw(w) ==> lex_step(s, p).token == SpecToken::Ident(w))
            &&& (e == s.len() || !is_letter(s[e]))
            &&& forall|i: int| q <= i < e ==> is_letter(s[i])
        }),
{
    lemma_skip_ws(s, p);
    lemma_alpha_end(s, skip_ws(s, p));
}

/// A token starting on an ASCII digit is the maximal digit run from there,
/// read in base 10: one integer token carrying the run's value where it fits
/// in a signed 64-bit integer, and the illegal token where it does not. No
/// digit is dropped: the next token starts at the first non-digit.
pub proof fn lemma_int_token(s: Seq<char>, p: int)
    requires
        0 <= p <= s.len(),
        skip_ws(s, p) < s.len(),
        is_digit_char(s[skip_ws(s, p)]),
    ensures
        ({
            let q = skip_ws(s, p);
            let e = digit_end(s, q);
            let v = digits_val(s.subrange(q, e));
            &&& q < e <= s.len()
            &&& lex_step(s, p).next == e
            &&& (v <= i64::MAX ==> lex_step(s, p).token == SpecToken::Int(v))
            &&& (v > i64::MAX ==> lex_step(s, p).token == SpecToken::Illegal)
            &&& (e == s.len() || !is_digit_char(s[e]))
            &&& forall|i: int| q <= i < e ==> is_digit_char(s[i])
        }),
{
    lemma_skip_ws(s, p);
    lemma_digit_end(s, skip_ws(s, p));
}

/// Whitespace between tokens never reaches a token and never yields one of its
/// own: everything skipped before a token is whitespace, no character of an
/// identifier's text is whitespace, and every token except end-of-input
/// consumes at least one non-whitespace character.
pub proof fn lemma_whitespace_never_in_token(s: Seq<char>, p: int)
    requires
        0 <= p <= s.len(),
    ensures
        forall|i: int| p <= i < skip_ws(s, p) ==> is_ws(s[i]),
        lex_step(s, p).token matches SpecToken::Ident(w) ==> forall|j: int|
            0 <= j < w.len() ==> !is_ws(w[j]),
        lex_step(s, p).token != SpecToken::Eof ==> lex_step(s, p).next > skip_ws(s, p),
{
    lemma_skip_ws(s, p);
    let q = skip_ws(s, p);
    if q < s.len() {
        let c = s[q];
        if is_ascii_letter(c) {
            lemma_alpha_end(s, q);
            let e = alpha_end(s, q);
            let w = s.subrange(q, e);
            assert(forall|j: int| 0 <= j < w.len() ==> is_letter(#[trigger] w[j]));
        } else if is_digit_char(c) {
            lemma_digit_end(s, q);
        }
    }
}

} // verus!
