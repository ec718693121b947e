use vstd::prelude::*;

use crate::token::TokenType;
use crate::token::is_reserved_word;
use crate::token::keyword_kind;

verus! {

/// Whitespace skipped between tokens: space, tab, newline, carriage return.
pub open spec fn is_whitespace_char(c: char) -> bool {
    c == ' ' || c == '\t' || c == '\n' || c == '\r'
}

/// Characters that may begin an identifier: ASCII letters and underscore.
pub open spec fn is_letter_char(c: char) -> bool {
    ('a' <= c && c <= 'z') || ('A' <= c && c <= 'Z') || c == '_'
}

/// ASCII decimal digits.
pub open spec fn is_digit_char(c: char) -> bool {
    '0' <= c && c <= '9'
}

/// Characters that may continue an identifier run.
pub open spec fn is_ident_char(c: char) -> bool {
    is_letter_char(c) || is_digit_char(c)
}

/// The first position at or after `i` that does not hold whitespace.
pub open spec fn skip_ws(s: Seq<char>, i: int) -> int
    decreases s.len() - i,
{
    if 0 <= i && i < s.len() && is_whitespace_char(s[i]) {
        skip_ws(s, i + 1)
    } else {
        i
    }
}

/// The position just past the maximal identifier run starting at `i`.
pub open spec fn ident_end(s: Seq<char>, i: int) -> int
    decreases s.len() - i,
{
    if 0 <= i && i < s.len() && is_ident_char(s[i]) {
        ident_end(s, i + 1)
    } else {
        i
    }
}

/// The position just past the maximal digit run starting at `i`.
pub open spec fn digit_end(s: Seq<char>, i: int) -> int
    decreases s.len() - i,
{
    if 0 <= i && i < s.len() && is_digit_char(s[i]) {
        digit_end(s, i + 1)
    } else {
        i
    }
}

/// Whether one of the two-character operators `==` or `!=` starts at `j`.
pub open spec fn two_char_op_at(s: Seq<char>, j: int) -> bool {
    0 <= j && j + 1 < s.len() && (s[j] == '=' || s[j] == '!') && s[j + 1] == '='
}

/// The position just past the token that starts at the non-whitespace
/// position `j`: maximal runs for identifiers and integers, two characters
/// for `==` and `!=`, one character for every other token.
pub open spec fn token_end(s: Seq<char>, j: int) -> int {
    if !(0 <= j && j < s.len()) {
        j
    } else if is_letter_char(s[j]) {
        ident_end(s, j)
    } else if is_digit_char(s[j]) {
        digit_end(s, j)
    } else if two_char_op_at(s, j) {
        j + 2
    } else {
        j + 1
    }
}

/// The exact source text of the token that starts at `j` (empty at the end
/// of the input).
pub open spec fn token_literal_at(s: Seq<char>, j: int) -> Seq<char> {
    s.subrange(j, token_end(s, j))
}

/// The kind of the token that starts at the non-whitespace position `j`.
pub open spec fn kind_at(s: Seq<char>, j: int) -> TokenType {
    if !(0 <= j && j < s.len()) {
        TokenType::EndOfInput
    } else if is_letter_char(s[j]) {
        keyword_kind(s.subrange(j, ident_end(s, j)))
    } else if is_digit_char(s[j]) {
        TokenType::Integer
    } else if s[j] == '=' {
        if two_char_op_at(s, j) {
            TokenType::Equal
        } else {
            TokenType::Assign
        }
    } else if s[j] == '!' {
        if two_char_op_at(s, j) {
            TokenType::NotEqual
        } else {
            TokenType::Bang
        }
    } else if s[j] == '+' {
        TokenType::Plus
    } else if s[j] == '-' {
        TokenType::Minus
    } else if s[j] == '*' {
        TokenType::Asterisk
    } else if s[j] == '/' {
        TokenType::Slash
    } else if s[j] == '<' {
        TokenType::LessThan
    } else if s[j] == '>' {
        TokenType::GreaterThan
    } else if s[j] == ',' {
        TokenType::Comma
    } else if s[j] == ';' {
        TokenType::Semicolon
    } else if s[j] == '(' {
        TokenType::LeftParen
    } else if s[j] == ')' {
        TokenType::RightParen
    } else if s[j] == '{' {
        TokenType::LeftBrace
    } else if s[j] == '}' {
        TokenType::RightBrace
    } else {
        TokenType::Illegal
    }
}

/// Every position skipped on the way to `skip_ws(s, i)` holds whitespace,
/// and the position reached does not.
pub proof fn lemma_skip_ws_props(s: Seq<char>, i: int)
    requires
        0 <= i <= s.len(),
    ensures
        i <= skip_ws(s, i) <= s.len(),
        forall|m: int| i <= m < skip_ws(s, i) ==> is_whitespace_char(s[m]),
        skip_ws(s, i) < s.len() ==> !is_whitespace_char(s[skip_ws(s, i)]),
    decreases s.len() - i,
{
    if i < s.len() && is_whitespace_char(s[i]) {
        lemma_skip_ws_props(s, i + 1);
    }
}

/// The maximal identifier run: every character before `ident_end(s, i)`
/// continues the run and the character there, if any, does not.
pub proof fn lemma_ident_end_props(s: Seq<char>, i: int)
    requires
        0 <= i <= s.len(),
    ensures
        i <= ident_end(s, i) <= s.len(),
        forall|m: int| i <= m < ident_end(s, i) ==> is_ident_char(s[m]),
        ident_end(s, i) < s.len() ==> !is_ident_char(s[ident_end(s, i)]),
    decreases s.len() - i,
{
    if i < s.len() && is_ident_char(s[i]) {
        lemma_ident_end_props(s, i + 1);
    }
}

/// The maximal digit run: every character before `digit_end(s, i)` is a
/// digit and the character there, if any, is not.
pub proof fn lemma_digit_end_props(s: Seq<char>, i: int)
    requires
        0 <= i <= s.len(),
    ensures
        i <= digit_end(s, i) <= s.len(),
        forall|m: int| i <= m < digit_end(s, i) ==> is_digit_char(s[m]),
        digit_end(s, i) < s.len() ==> !is_digit_char(s[digit_end(s, i)]),
    decreases s.len() - i,
{
    if i < s.len() && is_digit_char(s[i]) {
        lemma_digit_end_props(s, i + 1);
    }
}

/// Every token lies within the input, and a token that starts before the end
/// of the input consumes at least one character.
pub proof fn lemma_token_end_bounds(s: Seq<char>, j: int)
    requires
        0 <= j <= s.len(),
    ensures
        j <= token_end(s, j) <= s.len(),
        j < s.len() ==> j + 1 <= token_end(s, j),
{
    if j < s.len() {
        if is_letter_char(s[j]) {
            assert(ident_end(s, j) == ident_end(s, j + 1));
            lemma_ident_end_props(s, j + 1);
        } else if is_digit_char(s[j]) {
            assert(digit_end(s, j) == digit_end(s, j + 1));
            lemma_digit_end_props(s, j + 1);
        }
    }
}

/// A token that starts before the end of the input is never EndOfInput.
pub proof fn lemma_kind_not_end_of_input(s: Seq<char>, j: int)
    requires
        0 <= j < s.len(),
    ensures
        kind_at(s, j) != TokenType::EndOfInput,
{
}

/// The full token stream of `s` from position `i`: every token in source
/// order, as kind and literal, ending with the single EndOfInput token.
pub open spec fn token_seq(s: Seq<char>, i: int) -> Seq<(TokenType, Seq<char>)>
    decreases s.len() - i,
        when 0 <= i <= s.len()
        via token_seq_decreases
{
    let j = skip_ws(s, i);
    if j >= s.len() {
        seq![(TokenType::EndOfInput, Seq::<char>::empty())]
    } else {
        seq![(kind_at(s, j), token_literal_at(s, j))] + token_seq(s, token_end(s, j))
    }
}

#[via_fn]
proof fn token_seq_decreases(s: Seq<char>, i: int) {
    lemma_skip_ws_props(s, i);
    if skip_ws(s, i) < s.len() {
        lemma_token_end_bounds(s, skip_ws(s, i));
    }
}

/// Law: for every finite input the token stream is finite, ends in the
/// EndOfInput token with an empty literal, and EndOfInput appears nowhere
/// before that final position.
pub proof fn lemma_stream_terminates(s: Seq<char>, i: int)
    requires
        0 <= i <= s.len(),
    ensures
        token_seq(s, i).len() >= 1,
        token_seq(s, i).last() == (TokenType::EndOfInput, Seq::<char>::empty()),
        forall|m: int|
            0 <= m < token_seq(s, i).len() - 1 ==> #[trigger] token_seq(s, i)[m].0
                != TokenType::EndOfInput,
    decreases s.len() - i,
{
    let j = skip_ws(s, i);
    lemma_skip_ws_props(s, i);
    if j < s.len() {
        lemma_token_end_bounds(s, j);
        lemma_kind_not_end_of_input(s, j);
        lemma_stream_terminates(s, token_end(s, j));
        let head = seq![(kind_at(s, j), token_literal_at(s, j))];
        let tail = token_seq(s, token_end(s, j));
        assert(token_seq(s, i) == head + tail);
        assert((head + tail).last() == tail.last());
        assert forall|m: int| 0 <= m < token_seq(s, i).len() - 1 implies #[trigger] token_seq(
            s,
            i,
        )[m].0 != TokenType::EndOfInput by {
            if m > 0 {
                assert(token_seq(s, i)[m] == tail[m - 1]);
            }
        }
    }
}

/// Law: EndOfInput is the idempotent terminal state: it is produced exactly
/// when no characters are left after the whitespace, it consumes nothing, and
/// scanning again from the position it leaves yields EndOfInput once more.
pub proof fn lemma_end_of_input_stable(s: Seq<char>, i: int)
    requires
        0 <= i <= s.len(),
    ensures
        kind_at(s, skip_ws(s, i)) == TokenType::EndOfInput <==> skip_ws(s, i) == s.len(),
        skip_ws(s, i) == s.len() ==> token_end(s, skip_ws(s, i)) == skip_ws(s, i),
        skip_ws(s, i) == s.len() ==> kind_at(
            s,
            skip_ws(s, token_end(s, skip_ws(s, i))),
        ) == TokenType::EndOfInput,
{
    lemma_skip_ws_props(s, i);
    if skip_ws(s, i) < s.len() {
        lemma_kind_not_end_of_input(s, skip_ws(s, i));
    }
}

/// The input rebuilt from position `i`: for each token in turn, the
/// whitespace actually present before it followed by its literal, with the
/// trailing whitespace before EndOfInput at the end.
pub open spec fn rebuilt_from(s: Seq<char>, i: int) -> Seq<char>
    decreases s.len() - i,
        when 0 <= i <= s.len()
        via rebuilt_from_decreases
{
    let j = skip_ws(s, i);
    if j >= s.len() {
        s.subrange(i, s.len() as int)
    } else {
        s.subrange(i, j) + token_literal_at(s, j) + rebuilt_from(s, token_end(s, j))
    }
}

#[via_fn]
proof fn rebuilt_from_decreases(s: Seq<char>, i: int) {
    lemma_skip_ws_props(s, i);
    if skip_ws(s, i) < s.len() {
        lemma_token_end_bounds(s, skip_ws(s, i));
    }
}

/// Law: concatenating, in source order, each token's literal together with
/// the whitespace present before it rebuilds the tail of the input exactly:
/// no character is lost and none is duplicated.
pub proof fn lemma_coverage_from(s: Seq<char>, i: int)
    requires
        0 <= i <= s.len(),
    ensures
        rebuilt_from(s, i) == s.subrange(i, s.len() as int),
    decreases s.len() - i,
{
    let j = skip_ws(s, i);
    lemma_skip_ws_props(s, i);
    if j < s.len() {
        lemma_token_end_bounds(s, j);
        let k = token_end(s, j);
        lemma_coverage_from(s, k);
        assert(s.subrange(i, j) + s.subrange(j, k) + s.subrange(k, s.len() as int) =~= s.subrange(
            i,
            s.len() as int,
        ));
    }
}

/// Law: the whole input is rebuilt exactly from its token literals and the
/// whitespace between them.
pub proof fn lemma_coverage(s: Seq<char>)
    ensures
        rebuilt_from(s, 0) == s,
{
    lemma_coverage_from(s, 0);
    assert(s.subrange(0, s.len() as int) =~= s);
}

/// Law: a token whose literal exactly matches a reserved word is classified
/// as that keyword, never as Identifier.
pub proof fn lemma_keyword_precedence(s: Seq<char>, j: int)
    requires
        0 <= j <= s.len(),
        is_reserved_word(token_literal_at(s, j)),
    ensures
        kind_at(s, j) == keyword_kind(token_literal_at(s, j)),
        kind_at(s, j) != TokenType::Identifier,
{
    lemma_token_end_bounds(s, j);
    let lit = token_literal_at(s, j);
    assert(lit.len() >= 2);
    assert(j < s.len());
    assert(s[j] == lit[0]);
    assert(is_letter_char(s[j]));
    assert(token_end(s, j) == ident_end(s, j));
}

/// Law (maximal munch): an identifier or integer token consumes the maximal
/// run: every character inside the token continues the run, and the
/// character that follows the token, if any, does not.
pub proof fn lemma_maximal_munch(s: Seq<char>, j: int)
    requires
        0 <= j < s.len(),
    ensures
        is_letter_char(s[j]) ==> (forall|m: int|
            j <= m < token_end(s, j) ==> is_ident_char(s[m])) && (token_end(s, j) < s.len()
            ==> !is_ident_char(s[token_end(s, j)])),
        is_digit_char(s[j]) ==> (forall|m: int|
            j <= m < token_end(s, j) ==> is_digit_char(s[m])) && (token_end(s, j) < s.len()
            ==> !is_digit_char(s[token_end(s, j)])),
{
    if is_letter_char(s[j]) {
        lemma_ident_end_props(s, j);
    } else if is_digit_char(s[j]) {
        lemma_digit_end_props(s, j);
    }
}

} // verus!
