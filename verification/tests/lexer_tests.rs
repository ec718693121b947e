use monkey_lexer::lexer::Lexer;
use monkey_lexer::token::TokenType::{
    Assign, Asterisk, Bang, Comma, Else, EndOfInput, Equal, False, Function, GreaterThan,
    Identifier, If, Illegal, Integer, LeftBrace, LeftParen, LessThan, Let, Minus, NotEqual, Plus,
    Return, RightBrace, RightParen, Semicolon, Slash, True,
};

#[test]
fn test_next_token() {
    let input = "=+(){},;";
    let expected = [
        (Assign, "="),
        (Plus, "+"),
        (LeftParen, "("),
        (RightParen, ")"),
        (LeftBrace, "{"),
        (RightBrace, "}"),
        (Comma, ","),
        (Semicolon, ";"),
        (EndOfInput, ""),
    ];

    let mut l = Lexer::new(input.to_string());
    for i in expected.iter() {
        let tok = l.next_token();
        println!("Current input: {}", i.1);
        println!("Current token: {:?}", tok);
        assert_eq!(tok.literal, i.1);
    }
}

#[test]
fn test_next_token_2() {
    let input = "let five = 5;
    let ten = 10;
    let add = fn(x, y) {
    x + y;
    };
    let result = add(five, ten);";

    let expected = [
        (Let, "let"),
        (Identifier, "five"),
        (Assign, "="),
        (Integer, "5"),
        (Semicolon, ";"),
        (Let, "let"),
        (Identifier, "ten"),
        (Assign, "="),
        (Integer, "10"),
        (Semicolon, ";"),
        (Let, "let"),
        (Identifier, "add"),
        (Assign, "="),
        (Function, "fn"),
        (LeftParen, "("),
        (Identifier, "x"),
        (Comma, ","),
        (Identifier, "y"),
        (RightParen, ")"),
        (LeftBrace, "{"),
        (Identifier, "x"),
        (Plus, "+"),
        (Identifier, "y"),
        (Semicolon, ";"),
        (RightBrace, "}"),
        (Semicolon, ";"),
        (Let, "let"),
        (Identifier, "result"),
        (Assign, "="),
        (Identifier, "add"),
        (LeftParen, "("),
        (Identifier, "five"),
        (Comma, ","),
        (Identifier, "ten"),
        (RightParen, ")"),
        (Semicolon, ";"),
        (EndOfInput, ""),
    ];

    let mut l = Lexer::new(input.to_string());
    for i in expected.iter() {
        let tok = l.next_token();
        println!("Current input: {}", i.1);
        println!("Current token: {:?}", tok);
        assert_eq!(tok.literal, i.1);
    }
}

fn check(input: &str, expected: &[(monkey_lexer::token::TokenType, &str)]) {
    let mut l = Lexer::new(input.to_string());
    for (kind, literal) in expected.iter() {
        let tok = l.next_token();
        assert_eq!(tok.kind, *kind, "kind mismatch in {:?} at {:?}", input, literal);
        assert_eq!(tok.literal, *literal, "literal mismatch in {:?}", input);
    }
}

#[test]
fn delimiters_and_kinds() {
    check(
        "=+(){},;",
        &[
            (Assign, "="),
            (Plus, "+"),
            (LeftParen, "("),
            (RightParen, ")"),
            (LeftBrace, "{"),
            (RightBrace, "}"),
            (Comma, ","),
            (Semicolon, ";"),
            (EndOfInput, ""),
        ],
    );
}

#[test]
fn let_statement() {
    check(
        "let five = 5;",
        &[
            (Let, "let"),
            (Identifier, "five"),
            (Assign, "="),
            (Integer, "5"),
            (Semicolon, ";"),
            (EndOfInput, ""),
        ],
    );
}

#[test]
fn function_literal() {
    check(
        "let add = fn(x, y) { x + y; };",
        &[
            (Let, "let"),
            (Identifier, "add"),
            (Assign, "="),
            (Function, "fn"),
            (LeftParen, "("),
            (Identifier, "x"),
            (Comma, ","),
            (Identifier, "y"),
            (RightParen, ")"),
            (LeftBrace, "{"),
            (Identifier, "x"),
            (Plus, "+"),
            (Identifier, "y"),
            (Semicolon, ";"),
            (RightBrace, "}"),
            (Semicolon, ";"),
            (EndOfInput, ""),
        ],
    );
}

#[test]
fn empty_input_yields_end_of_input() {
    let mut l = Lexer::new(String::new());
    let tok = l.next_token();
    assert_eq!(tok.kind, EndOfInput);
    assert_eq!(tok.literal, "");
}

#[test]
fn end_of_input_is_idempotent() {
    let mut l = Lexer::new("x".to_string());
    let tok = l.next_token();
    assert_eq!(tok.kind, Identifier);
    for _ in 0..5 {
        let tok = l.next_token();
        assert_eq!(tok.kind, EndOfInput);
        assert_eq!(tok.literal, "");
    }
}

#[test]
fn illegal_character_reported_and_scan_continues() {
    check(
        "let @ five",
        &[
            (Let, "let"),
            (Illegal, "@"),
            (Identifier, "five"),
            (EndOfInput, ""),
        ],
    );
}

#[test]
fn illegal_characters_do_not_abort() {
    check(
        "#@$",
        &[
            (Illegal, "#"),
            (Illegal, "@"),
            (Illegal, "$"),
            (EndOfInput, ""),
        ],
    );
}

#[test]
fn maximal_munch_integer() {
    check("12", &[(Integer, "12"), (EndOfInput, "")]);
}

#[test]
fn maximal_munch_identifier() {
    check("foobar", &[(Identifier, "foobar"), (EndOfInput, "")]);
}

#[test]
fn adjacent_runs_split_only_at_class_change() {
    check(
        "abc123 123abc",
        &[
            (Identifier, "abc123"),
            (Integer, "123"),
            (Identifier, "abc"),
            (EndOfInput, ""),
        ],
    );
}

#[test]
fn keywords_are_never_identifiers() {
    check(
        "fn let if else return true false",
        &[
            (Function, "fn"),
            (Let, "let"),
            (If, "if"),
            (Else, "else"),
            (Return, "return"),
            (True, "true"),
            (False, "false"),
            (EndOfInput, ""),
        ],
    );
}

#[test]
fn near_keywords_are_identifiers() {
    check(
        "lets fnx letter truey _let",
        &[
            (Identifier, "lets"),
            (Identifier, "fnx"),
            (Identifier, "letter"),
            (Identifier, "truey"),
            (Identifier, "_let"),
            (EndOfInput, ""),
        ],
    );
}

#[test]
fn underscore_identifiers() {
    check(
        "_ _x1 a_b_c",
        &[
            (Identifier, "_"),
            (Identifier, "_x1"),
            (Identifier, "a_b_c"),
            (EndOfInput, ""),
        ],
    );
}

#[test]
fn single_char_operators() {
    check(
        "-!*/<>",
        &[
            (Minus, "-"),
            (Bang, "!"),
            (Asterisk, "*"),
            (Slash, "/"),
            (LessThan, "<"),
            (GreaterThan, ">"),
            (EndOfInput, ""),
        ],
    );
}

#[test]
fn two_char_operators() {
    check(
        "== != 10 == 10; 9 != 10;",
        &[
            (Equal, "=="),
            (NotEqual, "!="),
            (Integer, "10"),
            (Equal, "=="),
            (Integer, "10"),
            (Semicolon, ";"),
            (Integer, "9"),
            (NotEqual, "!="),
            (Integer, "10"),
            (Semicolon, ";"),
            (EndOfInput, ""),
        ],
    );
}

#[test]
fn operator_lookahead_does_not_overconsume() {
    check(
        "=! === !!=",
        &[
            (Assign, "="),
            (Bang, "!"),
            (Equal, "=="),
            (Assign, "="),
            (Bang, "!"),
            (NotEqual, "!="),
            (EndOfInput, ""),
        ],
    );
}

#[test]
fn all_whitespace_kinds_are_skipped() {
    check(
        " \t\r\n let \t x \r\n ",
        &[(Let, "let"), (Identifier, "x"), (EndOfInput, "")],
    );
}

#[test]
fn whitespace_only_input() {
    check("   \t\n", &[(EndOfInput, ""), (EndOfInput, "")]);
}

#[test]
fn minus_is_not_part_of_integer() {
    check(
        "-5",
        &[(Minus, "-"), (Integer, "5"), (EndOfInput, "")],
    );
}

#[test]
fn tokenize_returns_whole_stream() {
    let toks = monkey_lexer::lexer::tokenize("let x = 1;".to_string());
    let expected = [
        (Let, "let"),
        (Identifier, "x"),
        (Assign, "="),
        (Integer, "1"),
        (Semicolon, ";"),
        (EndOfInput, ""),
    ];
    assert_eq!(toks.len(), expected.len());
    for (tok, (kind, literal)) in toks.iter().zip(expected.iter()) {
        assert_eq!(tok.kind, *kind);
        assert_eq!(tok.literal, *literal);
    }
}

#[test]
fn tokenize_empty_input() {
    let toks = monkey_lexer::lexer::tokenize(String::new());
    assert_eq!(toks.len(), 1);
    assert_eq!(toks[0].kind, EndOfInput);
    assert_eq!(toks[0].literal, "");
}

#[test]
fn lookup_ident_matches_keyword_table() {
    assert_eq!(monkey_lexer::token::lookup_ident(&"let".to_string()), Let);
    assert_eq!(monkey_lexer::token::lookup_ident(&"fn".to_string()), Function);
    assert_eq!(
        monkey_lexer::token::lookup_ident(&"letting".to_string()),
        Identifier
    );
}

#[test]
fn read_char_advances_cursor() {
    // After skipping the first character by hand the next token is the second one.
    let mut l = Lexer::new("+;".to_string());
    l.read_char();
    let tok = l.next_token();
    assert_eq!(tok.kind, Semicolon);
    assert_eq!(tok.literal, ";");
}

#[test]
fn coverage_concatenation_rebuilds_input() {
    let input = "let five = 5;\n let ten != 10 @ fn";
    let toks = monkey_lexer::lexer::tokenize(input.to_string());
    // Walk the input once more: between tokens only whitespace may sit, and
    // gluing gaps and literals back together gives the input text.
    let mut rebuilt = String::new();
    let mut rest: &str = input;
    for tok in toks.iter() {
        let at = rest.find(tok.literal.as_str()).expect("literal must occur in the remainder");
        assert!(
            rest[..at].chars().all(|c| c == ' ' || c == '\t' || c == '\n' || c == '\r'),
            "only whitespace may sit before the next literal"
        );
        rebuilt.push_str(&rest[..at]);
        rebuilt.push_str(tok.literal.as_str());
        rest = &rest[at + tok.literal.len()..];
    }
    rebuilt.push_str(rest);
    assert!(rest.chars().all(|c| c == ' ' || c == '\t' || c == '\n' || c == '\r'));
    assert_eq!(rebuilt, input);
}

#[test]
fn nul_byte_is_illegal_not_end_of_input() {
    check(
        "\0;",
        &[(Illegal, "\0"), (Semicolon, ";"), (EndOfInput, "")],
    );
}
