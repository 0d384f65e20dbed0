//! The mathematical model of the lexer: what token stands at a given cursor
//! position of a given input, and where the cursor stands afterwards.

use vstd::prelude::*;

use crate::chars::{is_ascii_letter, is_digit_char, is_letter, is_ws};

verus! {

/// The mathematical form of one token: the same variants as the executable
/// `Token`, with the identifier text as a sequence of characters and the
/// integer value unbounded.
pub enum SpecToken {
    Illegal,
    Eof,
    Ident(Seq<char>),
    Int(int),
    Assign,
    Plus,
    Minus,
    Bang,
    Asterisk,
    Slash,
    Eq,
    NotEq,
    Gt,
    Lt,
    Comma,
    Semicolon,
    LParen,
    RParen,
    LBrace,
    RBrace,
    Function,
    Let,
    Return,
    If,
    Else,
    True,
    False,
}

/// The outcome of producing one token: the token itself and the cursor
/// position at which the next one starts.
pub struct LexStep {
    pub token: SpecToken,
    pub next: int,
}

/// The first position at or after `p` that does not hold whitespace.
pub open spec fn skip_ws(s: Seq<char>, p: int) -> int
    decreases s.len() - p,
{
    if 0 <= p < s.len() && is_ws(s[p]) {
        skip_ws(s, p + 1)
    } else {
        p
    }
}

/// The end of the maximal alphabetic run starting at `p`.
pub open spec fn alpha_end(s: Seq<char>, p: int) -> int
    decreases s.len() - p,
{
    if 0 <= p < s.len() && is_letter(s[p]) {
        alpha_end(s, p + 1)
    } else {
        p
    }
}

/// The end of the maximal ASCII-digit run starting at `p`.
pub open spec fn digit_end(s: Seq<char>, p: int) -> int
    decreases s.len() - p,
{
    if 0 <= p < s.len() && is_digit_char(s[p]) {
        digit_end(s, p + 1)
    } else {
        p
    }
}

/// The numeric value of one ASCII digit.
pub open spec fn digit_val(c: char) -> int {
    (c as u32) - 0x30
}

/// The value of a digit run read in base 10.
pub open spec fn digits_val(s: Seq<char>) -> int
    decreases s.len(),
{
    if s.len() == 0 {
        0
    } else {
        10 * digits_val(s.drop_last()) + digit_val(s.last())
    }
}

/// Whether a scanned word is one of the seven keywords.
pub open spec fn is_kw(w: Seq<char>) -> bool {
    w == "fn"@ || w == "let"@ || w == "return"@ || w == "if"@ || w == "else"@ || w == "true"@
        || w == "false"@
}

/// The token a scanned word stands for: its keyword token where the word is a
/// keyword, an identifier carrying the word itself otherwise.
pub open spec fn ident_token(w: Seq<char>) -> SpecToken {
    if w == "fn"@ {
        SpecToken::Function
    } else if w == "let"@ {
        SpecToken::Let
    } else if w == "return"@ {
        SpecToken::Return
    } else if w == "if"@ {
        SpecToken::If
    } else if w == "else"@ {
        SpecToken::Else
    } else if w == "true"@ {
        SpecToken::True
    } else if w == "false"@ {
        SpecToken::False
    } else {
        SpecToken::Ident(w)
    }
}

/// One step of the lexer: skip whitespace, classify the character under the
/// cursor, and scan as far as the token reaches.
pub open spec fn lex_step(s: Seq<char>, p: int) -> LexStep {
    let q = skip_ws(s, p);
    if q >= s.len() {
        LexStep { token: SpecToken::Eof, next: s.len() as int }
    } else {
        let c = s[q];
        if c == ',' {
            LexStep { token: SpecToken::Comma, next: q + 1 }
        } else if c == '+' {
            LexStep { token: SpecToken::Plus, next: q + 1 }
        } else if c == '-' {
            LexStep { token: SpecToken::Minus, next: q + 1 }
        } else if c == '*' {
            LexStep { token: SpecToken::Asterisk, next: q + 1 }
        } else if c == '/' {
            LexStep { token: SpecToken::Slash, next: q + 1 }
        } else if c == ';' {
            LexStep { token: SpecToken::Semicolon, next: q + 1 }
        } else if c == '=' {
            if q + 1 < s.len() && s[q + 1] == '=' {
                LexStep { token: SpecToken::Eq, next: q + 2 }
            } else {
                LexStep { token: SpecToken::Assign, next: q + 1 }
            }
        } else if c == '!' {
            if q + 1 < s.len() && s[q + 1] == '=' {
                LexStep { token: SpecToken::NotEq, next: q + 2 }
            } else {
                LexStep { token: SpecToken::Bang, next: q + 1 }
            }
        } else if c == '>' {
            LexStep { token: SpecToken::Gt, next: q + 1 }
        } else if c == '<' {
            LexStep { token: SpecToken::Lt, next: q + 1 }
        } else if c == '{' {
            LexStep { token: SpecToken::LBrace, next: q + 1 }
        } else if c == '}' {
            LexStep { token: SpecToken::RBrace, next: q + 1 }
        } else if c == '(' {
            LexStep { token: SpecToken::LParen, next: q + 1 }
        } else if c == ')' {
            LexStep { token: SpecToken::RParen, next: q + 1 }
        } else if is_ascii_letter(c) {
            let e = alpha_end(s, q);
            LexStep { token: ident_token(s.subrange(q, e)), next: e }
        } else if is_digit_char(c) {
            let e = digit_end(s, q);
            let v = digits_val(s.subrange(q, e));
            if v <= i64::MAX {
                LexStep { token: SpecToken::Int(v), next: e }
            } else {
                LexStep { token: SpecToken::Illegal, next: e }
            }
        } else {
            LexStep { token: SpecToken::Illegal, next: q + 1 }
        }
    }
}

/// `skip_ws` lands between `p` and the end of the input, every character it
/// passes over is whitespace, and it stops at the end or at a non-whitespace
/// character.
pub proof fn lemma_skip_ws(s: Seq<char>, p: int)
    requires
        0 <= p <= s.len(),
    ensures
        p <= skip_ws(s, p) <= s.len(),
        forall|i: int| p <= i < skip_ws(s, p) ==> is_ws(s[i]),
        skip_ws(s, p) == s.len() || !is_ws(s[skip_ws(s, p)]),
    decreases s.len() - p,
{
    if p < s.len() && is_ws(s[p]) {
        lemma_skip_ws(s, p + 1);
    }
}

/// `alpha_end` delimits a maximal alphabetic run: everything in it is
/// alphabetic, it does not pass the end of the input, and it stops at the end
/// or at a non-alphabetic character. A run starting on a letter is nonempty.
pub proof fn lemma_alpha_end(s: Seq<char>, p: int)
    requires
        0 <= p <= s.len(),
    ensures
        p <= alpha_end(s, p) <= s.len(),
        forall|i: int| p <= i < alpha_end(s, p) ==> is_letter(s[i]),
        alpha_end(s, p) == s.len() || !is_letter(s[alpha_end(s, p)]),
        p < s.len() && is_letter(s[p]) ==> alpha_end(s, p) > p,
    decreases s.len() - p,
{
    if p < s.len() && is_letter(s[p]) {
        lemma_alpha_end(s, p + 1);
    }
}

/// `digit_end` delimits a maximal digit run, in the same way as `alpha_end`.
pub proof fn lemma_digit_end(s: Seq<char>, p: int)
    requires
        0 <= p <= s.len(),
    ensures
        p <= digit_end(s, p) <= s.len(),
        forall|i: int| p <= i < digit_end(s, p) ==> is_digit_char(s[i]),
        digit_end(s, p) == s.len() || !is_digit_char(s[digit_end(s, p)]),
        p < s.len() && is_digit_char(s[p]) ==> digit_end(s, p) > p,
    decreases s.len() - p,
{
    if p < s.len() && is_digit_char(s[p]) {
        lemma_digit_end(s, p + 1);
    }
}

/// The value of a digit run is never negative.
pub proof fn lemma_digits_val_nonneg(s: Seq<char>)
    requires
        forall|i: int| 0 <= i < s.len() ==> is_digit_char(s[i]),
    ensures
        digits_val(s) >= 0,
    decreases s.len(),
{
    if s.len() > 0 {
        assert(forall|i: int| 0 <= i < s.drop_last().len() ==> s.drop_last()[i] == s[i]);
        lemma_digits_val_nonneg(s.drop_last());
        assert(is_digit_char(s[s.len() - 1]));
    }
}

} // verus!
