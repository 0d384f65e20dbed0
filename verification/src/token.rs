//! The lexer itself: the `Token` type, the `Lexer` with its cursor, and the
//! operation that produces the next token.

use vstd::prelude::*;
use vstd::pervasive::unreached;
use vstd::string::StrSliceExecFns;

use crate::chars::{
    ch_is_alphabetic, ch_is_ascii_alphabetic, ch_is_ascii_digit, ch_is_whitespace, is_digit_char,
};
use crate::model::{
    alpha_end, digit_end, digits_val, is_kw, lemma_alpha_end, lemma_digit_end,
    lemma_digits_val_nonneg, lemma_skip_ws, lex_step, skip_ws, SpecToken,
};

verus! {

/// One lexical unit: an end or illegal marker, an identifier with its text, an
/// integer literal with its value, or one of the fixed operator, delimiter and
/// keyword tokens.
#[derive(Debug)]
pub enum Token {
    Illegal,
    Eof,
    Ident(String),
    Int(i64),
    Assign,
    Plus,
    Minus,
    Bang,
    Asterisk,
    Slash,
    Eq,
    NotEq,
    Gt,
    Lt,
    Comma,
    Semicolon,
    LParen,
    RParen,
    LBrace,
    RBrace,
    Function,
    Let,
    Return,
    If,
    Else,
    True,
    False,
}

impl View for Token {
    type V = SpecToken;

    open spec fn view(&self) -> SpecToken {
        match self {
            Token::Illegal => SpecToken::Illegal,
            Token::Eof => SpecToken::Eof,
            Token::Ident(s) => SpecToken::Ident(s@),
            Token::Int(i) => SpecToken::Int(*i as int),
            Token::Assign => SpecToken::Assign,
            Token::Plus => SpecToken::Plus,
            Token::Minus => SpecToken::Minus,
            Token::Bang => SpecToken::Bang,
            Token::Asterisk => SpecToken::Asterisk,
            Token::Slash => SpecToken::Slash,
            Token::Eq => SpecToken::Eq,
            Token::NotEq => SpecToken::NotEq,
            Token::Gt => SpecToken::Gt,
            Token::Lt => SpecToken::Lt,
            Token::Comma => SpecToken::Comma,
            Token::Semicolon => SpecToken::Semicolon,
            Token::LParen => SpecToken::LParen,
            Token::RParen => SpecToken::RParen,
            Token::LBrace => SpecToken::LBrace,
            Token::RBrace => SpecToken::RBrace,
            Token::Function => SpecToken::Function,
            Token::Let => SpecToken::Let,
            Token::Return => SpecToken::Return,
            Token::If => SpecToken::If,
            Token::Else => SpecToken::Else,
            Token::True => SpecToken::True,
            Token::False => SpecToken::False,
        }
    }
}

impl vstd::std_specs::cmp::PartialEqSpecImpl for Token {
    open spec fn obeys_eq_spec() -> bool {
        true
    }

    open spec fn eq_spec(&self, other: &Token) -> bool {
        self@ == other@
    }
}

impl PartialEq for Token {
    fn eq(&self, other: &Token) -> (r: bool) {
        match (self, other) {
            (Token::Illegal, Token::Illegal) => true,
            (Token::Eof, Token::Eof) => true,
            (Token::Ident(a), Token::Ident(b)) => str_eq(a.as_str(), b.as_str()),
            (Token::Int(a), Token::Int(b)) => a == b,
            (Token::Assign, Token::Assign) => true,
            (Token::Plus, Token::Plus) => true,
            (Token::Minus, Token::Minus) => true,
            (Token::Bang, Token::Bang) => true,
            (Token::Asterisk, Token::Asterisk) => true,
            (Token::Slash, Token::Slash) => true,
            (Token::Eq, Token::Eq) => true,
            (Token::NotEq, Token::NotEq) => true,
            (Token::Gt, Token::Gt) => true,
            (Token::Lt, Token::Lt) => true,
            (Token::Comma, Token::Comma) => true,
            (Token::Semicolon, Token::Semicolon) => true,
            (Token::LParen, Token::LParen) => true,
            (Token::RParen, Token::RParen) => true,
            (Token::LBrace, Token::LBrace) => true,
            (Token::RBrace, Token::RBrace) => true,
            (Token::Function, Token::Function) => true,
            (Token::Let, Token::Let) => true,
            (Token::Return, Token::Return) => true,
            (Token::If, Token::If) => true,
            (Token::Else, Token::Else) => true,
            (Token::True, Token::True) => true,
            (Token::False, Token::False) => true,
            _ => false,
        }
    }
}

/// The ways lexing can fail: the input source could not be read or decoded, or
/// it was empty. The empty variant is reserved: empty input is accepted and
/// simply yields an immediate end-of-input token.
#[derive(Debug, PartialEq, Eq, Structural)]
pub enum LexerError {
    Invalid,
    Empty,
}

impl LexerError {
    /// A short description of the error.
    pub fn message(&self) -> (r: &'static str)
        ensures
            *self is Invalid ==> r@ == "invalid input"@,
            *self is Empty ==> r@ == "empty input"@,
    {
        match self {
            LexerError::Invalid => "invalid input",
            LexerError::Empty => "empty input",
        }
    }
}

/// Whether the two string slices hold the same characters.
fn str_eq(a: &str, b: &str) -> (r: bool)
    ensures
        r == (a@ == b@),
{
    let na = a.unicode_len();
    let nb = b.unicode_len();
    if na != nb {
        return false;
    }
    let mut i: usize = 0;
    while i < na
        invariant
            i <= na,
            na == a@.len(),
            na == b@.len(),
            forall|j: int| 0 <= j < i ==> a@[j] == b@[j],
        decreases na - i,
    {
        if a.get_char(i) != b.get_char(i) {
            return false;
        }
        i += 1;
    }
    proof {
        assert(a@ =~= b@);
    }
    true
}

/// Whether the scanned word is one of the keywords `fn`, `let`, `return`,
/// `if`, `else`, `true`, `false`.
pub fn is_keyword(s: &str) -> (r: bool)
    ensures
        r == is_kw(s@),
{
    str_eq(s, "fn") || str_eq(s, "let") || str_eq(s, "return") || str_eq(s, "if") || str_eq(
        s,
        "else",
    ) || str_eq(s, "true") || str_eq(s, "false")
}

/// Relies on `String::push`: appends the character at the end of the string.
#[verifier::external_body]
fn push_char(s: &mut String, c: char)
    ensures
        final(s)@ == old(s)@.push(c),
{
    s.push(c);
}

/// The lexer: the input as an indexed sequence of characters, the cursor
/// position, the read position used for lookahead, and the character under the
/// cursor (`None` once the input is exhausted).
pub struct Lexer {
    input: Vec<char>,
    pos: usize,
    read_pos: usize,
    // None here means Eof
    ch: Option<char>,
}

impl Lexer {
    /// The input the lexer was built over.
    pub closed spec fn spec_input(&self) -> Seq<char> {
        self.input@
    }

    /// The current cursor position.
    pub closed spec fn spec_pos(&self) -> int {
        self.pos as int
    }

    /// The position the lookahead reads from.
    pub closed spec fn spec_read_pos(&self) -> int {
        self.read_pos as int
    }

    /// The cursor invariant: within the input the read position is one past
    /// the cursor and the current character reflects the input there; at the
    /// end both positions rest at the input's length and no character is held.
    pub closed spec fn wf(&self) -> bool {
        &&& self.pos <= self.input@.len()
        &&& (self.pos < self.input@.len() ==> {
            &&& self.read_pos == self.pos + 1
            &&& self.ch == Some(self.input@[self.pos as int])
        })
        &&& (self.pos == self.input@.len() ==> {
            &&& self.read_pos == self.pos
            &&& self.ch is None
        })
    }

    /// Advance the cursor to the read position, or rest at the end of the
    /// input once it is exhausted.
    pub fn read_char(&mut self)
        ensures
            final(self).wf(),
            final(self).spec_input() == old(self).spec_input(),
            final(self).spec_pos() == (if old(self).spec_read_pos() < old(
                self,
            ).spec_input().len() {
                old(self).spec_read_pos()
            } else {
                old(self).spec_input().len() as int
            }),
    {
        if self.read_pos >= self.input.len() {
            self.ch = None;
            self.pos = self.input.len();
            self.read_pos = self.input.len();
        } else {
            self.ch = Some(self.input[self.read_pos]);
            self.pos = self.read_pos;
            self.read_pos = self.read_pos + 1;
        }
    }

    /// A non-consuming look at the character one position past the cursor.
    fn peek_char(&mut self) -> (r: Option<char>)
        requires
            old(self).wf(),
        ensures
            *final(self) == *old(self),
            r == (if old(self).spec_pos() + 1 < old(self).spec_input().len() {
                Some(old(self).spec_input()[old(self).spec_pos() + 1])
            } else {
                None::<char>
            }),
    {
        if self.read_pos >= self.input.len() {
            return None;
        }
        return Some(self.input[self.read_pos]);
    }

    /// Advance the cursor past every whitespace character before the next
    /// token.
    pub fn eat_whitespace(&mut self)
        requires
            old(self).wf(),
        ensures
            final(self).wf(),
            final(self).spec_input() == old(self).spec_input(),
            final(self).spec_pos() == skip_ws(old(self).spec_input(), old(self).spec_pos()),
    {
        let ghost s = self.spec_input();
        let ghost p0 = self.spec_pos();
        loop
            invariant
                self.wf(),
                s == old(self).spec_input(),
                p0 == old(self).spec_pos(),
                self.spec_input() == s,
                skip_ws(s, self.spec_pos()) == skip_ws(s, p0),
            decreases s.len() - self.spec_pos(),
        {
            if self.ch.is_none() {
                return ;
            }
            // unwrap is safe because we checked for None
            if !ch_is_whitespace(self.ch.unwrap()) {
                return ;
            }
            self.read_char();
        }
    }

    /// Scan the maximal alphabetic run starting at the cursor and return its
    /// text; the cursor is left on the first character past the run.
    pub fn read_identifier(&mut self) -> (r: String)
        requires
            old(self).wf(),
        ensures
            final(self).wf(),
            final(self).spec_input() == old(self).spec_input(),
            final(self).spec_pos() == alpha_end(old(self).spec_input(), old(self).spec_pos()),
            r@ == old(self).spec_input().subrange(old(self).spec_pos(), final(self).spec_pos()),
    {
        let pos = self.pos;
        let ghost s = self.spec_input();
        loop
            invariant
                self.wf(),
                self.spec_input() == s,
                pos <= self.spec_pos(),
                alpha_end(s, self.spec_pos()) == alpha_end(s, pos as int),
            ensures
                self.wf(),
                self.spec_input() == s,
                self.spec_pos() == alpha_end(s, pos as int),
            decreases s.len() - self.spec_pos(),
        {
            match self.ch {
                Some(x) => {
                    if ch_is_alphabetic(x) {
                        self.read_char();
                    } else {
                        break ;
                    }
                },
                None => {
                    break ;
                },
            }
        }
        let mut ident = String::new();
        let mut i: usize = pos;
        while i < self.pos
            invariant
                self.wf(),
                self.spec_input() == s,
                pos <= i <= self.spec_pos(),
                self.spec_pos() <= s.len(),
                ident@ == s.subrange(pos as int, i as int),
            decreases self.spec_pos() - i,
        {
            let c = self.input[i];
            push_char(&mut ident, c);
            proof {
                assert(s.subrange(pos as int, i + 1) =~= s.subrange(pos as int, i as int).push(
                    s[i as int],
                ));
            }
            i += 1;
        }
        ident
    }

    /// Scan the maximal ASCII-digit run starting at the cursor and parse it in
    /// base 10 as a signed 64-bit integer. An empty run, and a run whose value
    /// does not fit, yield `None`; the cursor is left on the first character
    /// past the run either way.
    pub fn read_int(&mut self) -> (r: Option<i64>)
        requires
            old(self).wf(),
        ensures
            final(self).wf(),
            final(self).spec_input() == old(self).spec_input(),
            final(self).spec_pos() == digit_end(old(self).spec_input(), old(self).spec_pos()),
            ({
                let w = old(self).spec_input().subrange(
                    old(self).spec_pos(),
                    final(self).spec_pos(),
                );
                &&& (w.len() == 0 ==> r is None)
                &&& (w.len() > 0 && digits_val(w) <= i64::MAX ==> r == Some(digits_val(w) as i64))
                &&& (w.len() > 0 && digits_val(w) > i64::MAX ==> r is None)
            }),
    {
        let pos = self.pos;
        let ghost s = self.spec_input();
        loop
            invariant
                self.wf(),
                self.spec_input() == s,
                pos <= self.spec_pos(),
                digit_end(s, self.spec_pos()) == digit_end(s, pos as int),
            ensures
                self.wf(),
                self.spec_input() == s,
                self.spec_pos() == digit_end(s, pos as int),
            decreases s.len() - self.spec_pos(),
        {
            match self.ch {
                Some(x) => {
                    if ch_is_ascii_digit(x) {
                        self.read_char();
                    } else {
                        break ;
                    }
                },
                None => {
                    break ;
                },
            }
        }
        // an empty digit run does not parse as an integer
        if self.pos == pos {
            return None;
        }
        proof {
            lemma_digit_end(s, pos as int);
        }
        let mut val: Option<i64> = Some(0);
        let mut i: usize = pos;
        while i < self.pos
            invariant
                self.wf(),
                self.spec_input() == s,
                pos <= i <= self.spec_pos(),
                self.spec_pos() <= s.len(),
                forall|j: int| pos <= j < self.spec_pos() ==> is_digit_char(s[j]),
                match val {
                    Some(v) => v >= 0 && v as int == digits_val(
                        s.subrange(pos as int, i as int),
                    ),
                    None => digits_val(s.subrange(pos as int, i as int)) > i64::MAX,
                },
            decreases self.spec_pos() - i,
        {
            let c = self.input[i];
            proof {
                assert(is_digit_char(s[i as int]));
                assert(s.subrange(pos as int, i + 1) =~= s.subrange(pos as int, i as int).push(
                    s[i as int],
                ));
                assert(s.subrange(pos as int, i + 1).drop_last() =~= s.subrange(
                    pos as int,
                    i as int,
                ));
            }
            let d: i64 = ((c as u32) - 0x30) as i64;
            val = match val {
                Some(v) => {
                    match v.checked_mul(10) {
                        Some(m) => m.checked_add(d),
                        None => None,
                    }
                },
                None => None,
            };
            i += 1;
        }
        val
    }

    /// Produce the next token and leave the cursor one character past it.
    pub fn next_token(&mut self) -> (t: Token)
        requires
            old(self).wf(),
        ensures
            final(self).wf(),
            final(self).spec_input() == old(self).spec_input(),
            t@ == lex_step(old(self).spec_input(), old(self).spec_pos()).token,
            final(self).spec_pos() == lex_step(old(self).spec_input(), old(self).spec_pos()).next,
    {
        let ghost s = self.spec_input();
        let ghost p0 = self.spec_pos();
        self.eat_whitespace();
        let ghost q = skip_ws(s, p0);
        proof {
            lemma_skip_ws(s, p0);
        }
        let tkn = match self.ch {
            None => Token::Eof,
            Some(c) => {
                if c == ',' {
                    Token::Comma
                } else if c == '+' {
                    Token::Plus
                } else if c == '-' {
                    Token::Minus
                } else if c == '*' {
                    Token::Asterisk
                } else if c == '/' {
                    Token::Slash
                } else if c == ';' {
                    Token::Semicolon
                } else if c == '=' {
                    match self.peek_char() {
                        Some(x) => {
                            if x == '=' {
                                self.read_char();
                                Token::Eq
                            } else {
                                Token::Assign
                            }
                        },
                        None => Token::Assign,
                    }
                } else if c == '!' {
                    match self.peek_char() {
                        Some(x) => {
                            if x == '=' {
                                self.read_char();
                                Token::NotEq
                            } else {
                                Token::Bang
                            }
                        },
                        None => Token::Bang,
                    }
                } else if c == '>' {
                    Token::Gt
                } else if c == '<' {
                    Token::Lt
                } else if c == '{' {
                    Token::LBrace
                } else if c == '}' {
                    Token::RBrace
                } else if c == '(' {
                    Token::LParen
                } else if c == ')' {
                    Token::RParen
                } else if ch_is_ascii_alphabetic(c) {
                    // identifier and integer scanning advance the cursor past
                    // the whole run themselves, so these branches return
                    // without the trailing advance the single-character cases
                    // rely on
                    let ident = self.read_identifier();
                    proof {
                        lemma_alpha_end(s, q);
                    }
                    if is_keyword(ident.as_str()) {
                        if str_eq(ident.as_str(), "fn") {
                            return Token::Function;
                        } else if str_eq(ident.as_str(), "let") {
                            return Token::Let;
                        } else if str_eq(ident.as_str(), "return") {
                            return Token::Return;
                        } else if str_eq(ident.as_str(), "if") {
                            return Token::If;
                        } else if str_eq(ident.as_str(), "else") {
                            return Token::Else;
                        } else if str_eq(ident.as_str(), "true") {
                            return Token::True;
                        } else if str_eq(ident.as_str(), "false") {
                            return Token::False;
                        } else {
                            unreached()
                        }
                    } else {
                        return Token::Ident(ident);
                    }
                } else if ch_is_ascii_digit(c) {
                    let i = self.read_int();
                    proof {
                        lemma_digit_end(s, q);
                        let e = digit_end(s, q);
                        let w = s.subrange(q, e);
                        assert(forall|k: int| 0 <= k < w.len() ==> w[k] == s[q + k]);
                        lemma_digits_val_nonneg(w);
                    }
                    match i {
                        None => {
                            // error parsing int
                            return Token::Illegal;
                        },
                        Some(v) => {
                            return Token::Int(v);
                        },
                    }
                } else {
                    Token::Illegal
                }
            },
        };
        self.read_char();
        tkn
    }

    /// Build a lexer over the given source text, with the cursor on its first
    /// character. Construction from in-memory text always succeeds; the error
    /// type is kept for input sources that cannot be read or decoded before
    /// the text reaches the lexer.
    pub fn new(input: &str) -> (r: Result<Lexer, LexerError>)
        ensures
            r is Ok,
            r matches Ok(l) ==> l.wf() && l.spec_input() == input@ && l.spec_pos() == 0,
    {
        let n = input.unicode_len();
        let mut chars: Vec<char> = Vec::new();
        let mut i: usize = 0;
        while i < n
            invariant
                i <= n,
                n == input@.len(),
                chars@.len() == i,
                forall|j: int| 0 <= j < i ==> chars@[j] == input@[j],
            decreases n - i,
        {
            chars.push(input.get_char(i));
            i += 1;
        }
        proof {
            assert(chars@ =~= input@);
        }
        let mut l = Lexer { input: chars, pos: 0, read_pos: 0, ch: None };
        l.read_char();
        Ok(l)
    }
}

} // verus!
