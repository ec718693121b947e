use vstd::prelude::*;
use vstd::string::StrSliceExecFns;

use crate::scan::digit_end;
use crate::scan::ident_end;
use crate::scan::is_digit_char;
use crate::scan::is_letter_char;
use crate::scan::kind_at;
use crate::scan::lemma_kind_not_end_of_input;
use crate::scan::lemma_skip_ws_props;
use crate::scan::lemma_token_end_bounds;
use crate::scan::skip_ws;
use crate::scan::token_end;
use crate::scan::token_literal_at;
use crate::scan::token_seq;
use crate::token::Token;
use crate::token::TokenType;
use crate::token::lookup_ident;

verus! {

/// The lexer: a source buffer, read-only after construction, and a scanning
/// cursor over it.
pub struct Lexer {
    input: String,
    position: usize,
    read_position: usize,
    ch: char,
}

/// The kind and literal a token carries, as one mathematical value.
pub open spec fn token_model(t: Token) -> (TokenType, Seq<char>) {
    (t.kind, t.literal@)
}

/// The kinds and literals a sequence of tokens carries.
pub open spec fn tokens_model(ts: Seq<Token>) -> Seq<(TokenType, Seq<char>)> {
    ts.map_values(|t: Token| token_model(t))
}

impl Lexer {
    /// The source text being scanned.
    pub closed spec fn src(self) -> Seq<char> {
        self.input@
    }

    /// The index of the character the cursor stands on.
    pub closed spec fn pos(self) -> int {
        self.position as int
    }

    /// The cursor is inside the buffer, the lookahead index is one past it,
    /// and the current character mirrors the buffer (the NUL sentinel once
    /// the input is exhausted).
    pub closed spec fn wf(self) -> bool {
        &&& self.position <= self.src().len()
        &&& self.src().len() < usize::MAX as int
        &&& self.read_position == self.position + 1
        &&& self.ch == (if self.position < self.src().len() {
            self.src()[self.position as int]
        } else {
            '\0'
        })
    }

    /// Creates a lexer whose cursor stands on the first character of `inp`,
    /// or on the end-of-input sentinel when `inp` is empty.
    pub fn new(inp: String) -> (l: Lexer)
        requires
            inp@.len() < usize::MAX as int,
        ensures
            l.wf(),
            l.src() == inp@,
            l.pos() == 0,
    {
        let n = inp.as_str().unicode_len();
        let ch = if n == 0 {
            '\0'
        } else {
            inp.as_str().get_char(0)
        };
        Lexer { input: inp, position: 0, read_position: 1, ch }
    }

    /// Advances the cursor by one character: the current character becomes
    /// the next one in the buffer, or the sentinel at the end.
    pub fn read_char(&mut self)
        requires
            old(self).wf(),
            old(self).pos() < old(self).src().len(),
        ensures
            final(self).wf(),
            final(self).src() == old(self).src(),
            final(self).pos() == old(self).pos() + 1,
    {
        let n = self.input.as_str().unicode_len();
        if self.read_position >= n {
            self.ch = '\0';
        } else {
            self.ch = self.input.as_str().get_char(self.read_position);
        }
        self.position = self.read_position;
        self.read_position = self.read_position + 1;
    }

    /// Advances the cursor past the whitespace under it.
    fn skip_whitespace(&mut self)
        requires
            old(self).wf(),
        ensures
            final(self).wf(),
            final(self).src() == old(self).src(),
            final(self).pos() == skip_ws(old(self).src(), old(self).pos()),
    {
        let n = self.input.as_str().unicode_len();
        while self.position < n && (self.ch == ' ' || self.ch == '\t' || self.ch == '\n'
            || self.ch == '\r')
            invariant
                self.wf(),
                self.src() == old(self).src(),
                n == self.src().len(),
                skip_ws(self.src(), self.pos()) == skip_ws(old(self).src(), old(self).pos()),
            decreases n - self.position,
        {
            self.read_char();
        }
    }

    /// Consumes the maximal identifier run under the cursor and returns its
    /// exact source text.
    fn read_identifier(&mut self) -> (lit: String)
        requires
            old(self).wf(),
            old(self).pos() < old(self).src().len(),
            is_letter_char(old(self).src()[old(self).pos()]),
        ensures
            final(self).wf(),
            final(self).src() == old(self).src(),
            final(self).pos() == ident_end(old(self).src(), old(self).pos()),
            lit@ == old(self).src().subrange(old(self).pos(), final(self).pos()),
    {
        let start = self.position;
        let n = self.input.as_str().unicode_len();
        while self.position < n && (('a' <= self.ch && self.ch <= 'z') || ('A' <= self.ch
            && self.ch <= 'Z') || self.ch == '_' || ('0' <= self.ch && self.ch <= '9'))
            invariant
                self.wf(),
                self.src() == old(self).src(),
                n == self.src().len(),
                start <= self.position,
                ident_end(self.src(), start as int) == ident_end(self.src(), self.pos()),
            decreases n - self.position,
        {
            self.read_char();
        }
        self.input.as_str().substring_char(start, self.position).to_owned()
    }

    /// Consumes the maximal digit run under the cursor and returns its exact
    /// source text.
    fn read_number(&mut self) -> (lit: String)
        requires
            old(self).wf(),
            old(self).pos() < old(self).src().len(),
            is_digit_char(old(self).src()[old(self).pos()]),
        ensures
            final(self).wf(),
            final(self).src() == old(self).src(),
            final(self).pos() == digit_end(old(self).src(), old(self).pos()),
            lit@ == old(self).src().subrange(old(self).pos(), final(self).pos()),
    {
        let start = self.position;
        let n = self.input.as_str().unicode_len();
        while self.position < n && ('0' <= self.ch && self.ch <= '9')
            invariant
                self.wf(),
                self.src() == old(self).src(),
                n == self.src().len(),
                start <= self.position,
                digit_end(self.src(), start as int) == digit_end(self.src(), self.pos()),
            decreases n - self.position,
        {
            self.read_char();
        }
        self.input.as_str().substring_char(start, self.position).to_owned()
    }

    /// Skips whitespace, then scans the token under the cursor and advances
    /// exactly past it: the token's kind, literal and the new cursor position
    /// are the ones the scanning model gives for the old position. At the end
    /// of the input it returns EndOfInput with an empty literal and does not
    /// advance, so every later call returns EndOfInput again.
    pub fn next_token(&mut self) -> (tok: Token)
        requires
            old(self).wf(),
        ensures
            final(self).wf(),
            final(self).src() == old(self).src(),
            final(self).pos() == token_end(
                old(self).src(),
                skip_ws(old(self).src(), old(self).pos()),
            ),
            tok.kind == kind_at(old(self).src(), skip_ws(old(self).src(), old(self).pos())),
            tok.literal@ == token_literal_at(
                old(self).src(),
                skip_ws(old(self).src(), old(self).pos()),
            ),
    {
        self.skip_whitespace();
        let ghost s = self.src();
        let ghost j = self.pos();
        let n = self.input.as_str().unicode_len();
        if self.position >= n {
            proof {
                assert(Seq::<char>::empty() =~= s.subrange(j, token_end(s, j)));
            }
            return Token { kind: TokenType::EndOfInput, literal: String::new() };
        }
        let c = self.ch;
        if ('a' <= c && c <= 'z') || ('A' <= c && c <= 'Z') || c == '_' {
            let lit = self.read_identifier();
            let kind = lookup_ident(&lit);
            Token { kind, literal: lit }
        } else if '0' <= c && c <= '9' {
            let lit = self.read_number();
            Token { kind: TokenType::Integer, literal: lit }
        } else {
            let start = self.position;
            let two = (c == '=' || c == '!') && self.read_position < n && self.input.as_str()
                .get_char(self.read_position) == '=';
            let kind = if c == '=' {
                if two {
                    TokenType::Equal
                } else {
                    TokenType::Assign
                }
            } else if c == '!' {
                if two {
                    TokenType::NotEqual
                } else {
                    TokenType::Bang
                }
            } else if c == '+' {
                TokenType::Plus
            } else if c == '-' {
                TokenType::Minus
            } else if c == '*' {
                TokenType::Asterisk
            } else if c == '/' {
                TokenType::Slash
            } else if c == '<' {
                TokenType::LessThan
            } else if c == '>' {
                TokenType::GreaterThan
            } else if c == ',' {
                TokenType::Comma
            } else if c == ';' {
                TokenType::Semicolon
            } else if c == '(' {
                TokenType::LeftParen
            } else if c == ')' {
                TokenType::RightParen
            } else if c == '{' {
                TokenType::LeftBrace
            } else if c == '}' {
                TokenType::RightBrace
            } else {
                TokenType::Illegal
            };
            self.read_char();
            if two {
                self.read_char();
            }
            let lit = self.input.as_str().substring_char(start, self.position).to_owned();
            Token { kind, literal: lit }
        }
    }
}

/// Scans the whole input: returns every token in source order, ending with
/// the single EndOfInput token, exactly as the scanning model gives them.
pub fn tokenize(input: String) -> (toks: Vec<Token>)
    requires
        input@.len() < usize::MAX as int,
    ensures
        tokens_model(toks@) == token_seq(input@, 0),
{
    let ghost s = input@;
    let mut lexer = Lexer::new(input);
    let mut toks: Vec<Token> = Vec::new();
    proof {
        assert(tokens_model(toks@) =~= Seq::<(TokenType, Seq<char>)>::empty());
        assert(tokens_model(toks@) + token_seq(s, 0) =~= token_seq(s, 0));
    }
    loop
        invariant_except_break
            lexer.wf(),
            lexer.src() == s,
            token_seq(s, 0) == tokens_model(toks@) + token_seq(s, lexer.pos()),
        ensures
            tokens_model(toks@) == token_seq(s, 0),
        decreases s.len() - lexer.pos(),
    {
        let ghost pos_before: int = lexer.pos();
        let ghost toks_before: Seq<Token> = toks@;
        let tok = lexer.next_token();
        let kind = tok.kind;
        proof {
            lemma_skip_ws_props(s, pos_before);
            lemma_token_end_bounds(s, skip_ws(s, pos_before));
        }
        toks.push(tok);
        proof {
            let j = skip_ws(s, pos_before);
            assert(tokens_model(toks@) =~= tokens_model(toks_before) + seq![token_model(tok)]);
            if j >= s.len() {
                assert(tok.literal@ =~= Seq::<char>::empty());
                assert(token_seq(s, pos_before) =~= seq![token_model(tok)]);
                assert(tokens_model(toks@) =~= token_seq(s, 0));
            } else {
                lemma_kind_not_end_of_input(s, j);
                assert(token_seq(s, pos_before) == seq![token_model(tok)] + token_seq(
                    s,
                    token_end(s, j),
                ));
                assert(token_seq(s, 0) =~= tokens_model(toks@) + token_seq(s, lexer.pos()));
            }
        }
        if kind == TokenType::EndOfInput {
            break;
        }
    }
    toks
}

} // verus!
