use vstd::prelude::*;

verus! {

/// The classification of one lexical unit.
#[derive(Debug, PartialEq, Eq, Structural, Clone, Copy)]
pub enum TokenType {
    Illegal,
    EndOfInput,
    Identifier,
    Integer,
    Assign,
    Plus,
    Minus,
    Bang,
    Asterisk,
    Slash,
    LessThan,
    GreaterThan,
    Equal,
    NotEqual,
    Comma,
    Semicolon,
    LeftParen,
    RightParen,
    LeftBrace,
    RightBrace,
    Function,
    Let,
    If,
    Else,
    Return,
    True,
    False,
}

/// One lexical unit: its kind and the exact source text it was scanned from.
#[derive(Debug)]
pub struct Token {
    pub kind: TokenType,
    pub literal: String,
}

/// Whether `lit` is one of the language's reserved words.
pub open spec fn is_reserved_word(lit: Seq<char>) -> bool {
    ||| lit == seq!['f', 'n']
    ||| lit == seq!['l', 'e', 't']
    ||| lit == seq!['i', 'f']
    ||| lit == seq!['e', 'l', 's', 'e']
    ||| lit == seq!['r', 'e', 't', 'u', 'r', 'n']
    ||| lit == seq!['t', 'r', 'u', 'e']
    ||| lit == seq!['f', 'a', 'l', 's', 'e']
}

/// The kind an identifier-shaped literal is classified as: the matching
/// keyword where it is a reserved word, Identifier otherwise.
pub open spec fn keyword_kind(lit: Seq<char>) -> TokenType {
    if lit == seq!['f', 'n'] {
        TokenType::Function
    } else if lit == seq!['l', 'e', 't'] {
        TokenType::Let
    } else if lit == seq!['i', 'f'] {
        TokenType::If
    } else if lit == seq!['e', 'l', 's', 'e'] {
        TokenType::Else
    } else if lit == seq!['r', 'e', 't', 'u', 'r', 'n'] {
        TokenType::Return
    } else if lit == seq!['t', 'r', 'u', 'e'] {
        TokenType::True
    } else if lit == seq!['f', 'a', 'l', 's', 'e'] {
        TokenType::False
    } else {
        TokenType::Identifier
    }
}

/// Consults the keyword table: an identifier literal that exactly matches a
/// reserved word yields that keyword's kind, anything else yields Identifier.
pub fn lookup_ident(lit: &String) -> (t: TokenType)
    ensures
        t == keyword_kind(lit@),
{
    proof {
        reveal_strlit("fn");
        reveal_strlit("let");
        reveal_strlit("if");
        reveal_strlit("else");
        reveal_strlit("return");
        reveal_strlit("true");
        reveal_strlit("false");
        assert("fn"@ =~= seq!['f', 'n']);
        assert("let"@ =~= seq!['l', 'e', 't']);
        assert("if"@ =~= seq!['i', 'f']);
        assert("else"@ =~= seq!['e', 'l', 's', 'e']);
        assert("return"@ =~= seq!['r', 'e', 't', 'u', 'r', 'n']);
        assert("true"@ =~= seq!['t', 'r', 'u', 'e']);
        assert("false"@ =~= seq!['f', 'a', 'l', 's', 'e']);
    }
    if *lit == "fn".to_owned() {
        TokenType::Function
    } else if *lit == "let".to_owned() {
        TokenType::Let
    } else if *lit == "if".to_owned() {
        TokenType::If
    } else if *lit == "else".to_owned() {
        TokenType::Else
    } else if *lit == "return".to_owned() {
        TokenType::Return
    } else if *lit == "true".to_owned() {
        TokenType::True
    } else if *lit == "false".to_owned() {
        TokenType::False
    } else {
        TokenType::Identifier
    }
}

} // verus!
