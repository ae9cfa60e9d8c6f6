use monkey::lexer::Lexer;
use monkey::token::{Token, TokenType};

fn lex_all(input: &str) -> Vec<Token> {
    let mut lexer = Lexer::new(input);
    let mut tokens = Vec::new();
    // One call for each character is enough to reach the end; one more shows `Eof`.
    for _ in 0..=input.chars().count() {
        tokens.push(lexer.next_token());
    }
    tokens
}

fn kinds_and_literals(input: &str, count: usize) -> Vec<(TokenType, String)> {
    let mut lexer = Lexer::new(input);
    let mut tokens = Vec::new();
    for _ in 0..count {
        let token = lexer.next_token();
        tokens.push((token.kind, token.literal));
    }
    tokens
}

#[test]
fn next_token() {
    let input = "let five = 5;
    let ten = 10;

    let add = fn(x, y) {
        x + y;
    };

    let result = add(five, ten);
    !-/*5;
    5 < 10 > 5;
    
    if (5 < 10) {
        return true;
    } else {
        return false;
    }
    
    10 == 10;
    10 != 9;
    ";

    let tests = vec![
        Token::new(TokenType::Let, "let"),
        Token::new(TokenType::Ident, "five"),
        Token::new(TokenType::Assign, "="),
        Token::new(TokenType::Int, "5"),
        Token::new(TokenType::Semicolon, ";"),
        Token::new(TokenType::Let, "let"),
        Token::new(TokenType::Ident, "ten"),
        Token::new(TokenType::Assign, "="),
        Token::new(TokenType::Int, "10"),
        Token::new(TokenType::Semicolon, ";"),
        Token::new(TokenType::Let, "let"),
        Token::new(TokenType::Ident, "add"),
        Token::new(TokenType::Assign, "="),
        Token::new(TokenType::Function, "fn"),
        Token::new(TokenType::LParen, "("),
        Token::new(TokenType::Ident, "x"),
        Token::new(TokenType::Comma, ","),
        Token::new(TokenType::Ident, "y"),
        Token::new(TokenType::RParen, ")"),
        Token::new(TokenType::LBrace, "{"),
        Token::new(TokenType::Ident, "x"),
        Token::new(TokenType::Plus, "+"),
        Token::new(TokenType::Ident, "y"),
        Token::new(TokenType::Semicolon, ";"),
        Token::new(TokenType::RBrace, "}"),
        Token::new(TokenType::Semicolon, ";"),
        Token::new(TokenType::Let, "let"),
        Token::new(TokenType::Ident, "result"),
        Token::new(TokenType::Assign, "="),
        Token::new(TokenType::Ident, "add"),
        Token::new(TokenType::LParen, "("),
        Token::new(TokenType::Ident, "five"),
        Token::new(TokenType::Comma, ","),
        Token::new(TokenType::Ident, "ten"),
        Token::new(TokenType::RParen, ")"),
        Token::new(TokenType::Semicolon, ";"),
        Token::new(TokenType::Bang, "!"),
        Token::new(TokenType::Minus, "-"),
        Token::new(TokenType::Slash, "/"),
        Token::new(TokenType::Star, "*"),
        Token::new(TokenType::Int, "5"),
        Token::new(TokenType::Semicolon, ";"),
        Token::new(TokenType::Int, "5"),
        Token::new(TokenType::Lt, "<"),
        Token::new(TokenType::Int, "10"),
        Token::new(TokenType::Gt, ">"),
        Token::new(TokenType::Int, "5"),
        Token::new(TokenType::Semicolon, ";"),
        Token::new(TokenType::If, "if"),
        Token::new(TokenType::LParen, "("),
        Token::new(TokenType::Int, "5"),
        Token::new(TokenType::Lt, "<"),
        Token::new(TokenType::Int, "10"),
        Token::new(TokenType::RParen, ")"),
        Token::new(TokenType::LBrace, "{"),
        Token::new(TokenType::Return, "return"),
        Token::new(TokenType::True, "true"),
        Token::new(TokenType::Semicolon, ";"),
        Token::new(TokenType::RBrace, "}"),
        Token::new(TokenType::Else, "else"),
        Token::new(TokenType::LBrace, "{"),
        Token::new(TokenType::Return, "return"),
        Token::new(TokenType::False, "false"),
        Token::new(TokenType::Semicolon, ";"),
        Token::new(TokenType::RBrace, "}"),
        Token::new(TokenType::Int, "10"),
        Token::new(TokenType::Eq, "=="),
        Token::new(TokenType::Int, "10"),
        Token::new(TokenType::Semicolon, ";"),
        Token::new(TokenType::Int, "10"),
        Token::new(TokenType::NotEq, "!="),
        Token::new(TokenType::Int, "9"),
        Token::new(TokenType::Semicolon, ";"),
        Token::new(TokenType::Eof, ""),
    ];

    let mut lexer = Lexer::new(input);

    for (i, tt) in tests.iter().enumerate() {
        let token = lexer.next_token();

        assert_eq!(token.kind, tt.kind, "tests[{}] failed - type wrong.", i);

        assert_eq!(token, *tt, "tests[{}] failed - literal wrong.", i);
    }
}

#[test]
fn lexes_punctuation() {
    let expected = vec![
        (TokenType::Assign, "=".to_string()),
        (TokenType::Plus, "+".to_string()),
        (TokenType::LParen, "(".to_string()),
        (TokenType::RParen, ")".to_string()),
        (TokenType::LBrace, "{".to_string()),
        (TokenType::RBrace, "}".to_string()),
        (TokenType::Comma, ",".to_string()),
        (TokenType::Semicolon, ";".to_string()),
        (TokenType::Eof, "".to_string()),
    ];
    assert_eq!(kinds_and_literals("=+(){},;", 9), expected);
}

#[test]
fn lexes_a_let_statement() {
    let expected = vec![
        (TokenType::Let, "let".to_string()),
        (TokenType::Ident, "five".to_string()),
        (TokenType::Assign, "=".to_string()),
        (TokenType::Int, "5".to_string()),
        (TokenType::Semicolon, ";".to_string()),
        (TokenType::Eof, "".to_string()),
    ];
    assert_eq!(kinds_and_literals("let five = 5;", 6), expected);
}

#[test]
fn lexes_two_character_operators() {
    let expected = vec![
        (TokenType::Int, "10".to_string()),
        (TokenType::Eq, "==".to_string()),
        (TokenType::Int, "10".to_string()),
        (TokenType::Semicolon, ";".to_string()),
        (TokenType::Int, "10".to_string()),
        (TokenType::NotEq, "!=".to_string()),
        (TokenType::Int, "9".to_string()),
        (TokenType::Semicolon, ";".to_string()),
        (TokenType::Eof, "".to_string()),
    ];
    assert_eq!(kinds_and_literals("10 == 10; 10 != 9;", 9), expected);
}

#[test]
fn a_lone_operator_at_the_end_is_one_character() {
    assert_eq!(
        kinds_and_literals("=", 2),
        vec![(TokenType::Assign, "=".to_string()), (TokenType::Eof, "".to_string())]
    );
    assert_eq!(
        kinds_and_literals("!", 2),
        vec![(TokenType::Bang, "!".to_string()), (TokenType::Eof, "".to_string())]
    );
    assert_eq!(
        kinds_and_literals("=!", 3),
        vec![
            (TokenType::Assign, "=".to_string()),
            (TokenType::Bang, "!".to_string()),
            (TokenType::Eof, "".to_string())
        ]
    );
    assert_eq!(
        kinds_and_literals("===", 3),
        vec![
            (TokenType::Eq, "==".to_string()),
            (TokenType::Assign, "=".to_string()),
            (TokenType::Eof, "".to_string())
        ]
    );
}

#[test]
fn a_word_at_the_end_of_the_input_is_read_whole() {
    assert_eq!(
        kinds_and_literals("foobar", 2),
        vec![(TokenType::Ident, "foobar".to_string()), (TokenType::Eof, "".to_string())]
    );
    assert_eq!(
        kinds_and_literals("x", 2),
        vec![(TokenType::Ident, "x".to_string()), (TokenType::Eof, "".to_string())]
    );
    assert_eq!(
        kinds_and_literals("return", 2),
        vec![(TokenType::Return, "return".to_string()), (TokenType::Eof, "".to_string())]
    );
    assert_eq!(
        kinds_and_literals("12345", 2),
        vec![(TokenType::Int, "12345".to_string()), (TokenType::Eof, "".to_string())]
    );
}

#[test]
fn words_take_letters_digits_and_underscores() {
    assert_eq!(
        kinds_and_literals("_a1 b_2c 3d", 5),
        vec![
            (TokenType::Ident, "_a1".to_string()),
            (TokenType::Ident, "b_2c".to_string()),
            (TokenType::Int, "3".to_string()),
            (TokenType::Ident, "d".to_string()),
            (TokenType::Eof, "".to_string()),
        ]
    );
}

#[test]
fn keywords_are_whole_words() {
    assert_eq!(
        kinds_and_literals("fn fnx let lets if else true false return", 10),
        vec![
            (TokenType::Function, "fn".to_string()),
            (TokenType::Ident, "fnx".to_string()),
            (TokenType::Let, "let".to_string()),
            (TokenType::Ident, "lets".to_string()),
            (TokenType::If, "if".to_string()),
            (TokenType::Else, "else".to_string()),
            (TokenType::True, "true".to_string()),
            (TokenType::False, "false".to_string()),
            (TokenType::Return, "return".to_string()),
            (TokenType::Eof, "".to_string()),
        ]
    );
}

#[test]
fn letters_beyond_ascii_make_words() {
    // `é` and `京` are alphabetic; `²` is numeric and may continue a word but not start one.
    assert_eq!(
        kinds_and_literals("été 京x a² ²", 5),
        vec![
            (TokenType::Ident, "été".to_string()),
            (TokenType::Ident, "京x".to_string()),
            (TokenType::Ident, "a²".to_string()),
            (TokenType::Illegal, "²".to_string()),
            (TokenType::Eof, "".to_string()),
        ]
    );
}

#[test]
fn unknown_characters_are_illegal_tokens() {
    assert_eq!(
        kinds_and_literals("a @ # 💝", 5),
        vec![
            (TokenType::Ident, "a".to_string()),
            (TokenType::Illegal, "@".to_string()),
            (TokenType::Illegal, "#".to_string()),
            (TokenType::Illegal, "💝".to_string()),
            (TokenType::Eof, "".to_string()),
        ]
    );
}

#[test]
fn only_the_four_blanks_are_skipped() {
    assert_eq!(
        kinds_and_literals(" \t\r\na", 2),
        vec![(TokenType::Ident, "a".to_string()), (TokenType::Eof, "".to_string())]
    );
    // A no-break space is no blank of the language.
    assert_eq!(
        kinds_and_literals("\u{a0}a", 3),
        vec![
            (TokenType::Illegal, "\u{a0}".to_string()),
            (TokenType::Ident, "a".to_string()),
            (TokenType::Eof, "".to_string())
        ]
    );
}

#[test]
fn the_empty_input_is_at_its_end() {
    assert_eq!(kinds_and_literals("", 1), vec![(TokenType::Eof, "".to_string())]);
    assert_eq!(kinds_and_literals("   ", 1), vec![(TokenType::Eof, "".to_string())]);
}

#[test]
fn the_lexer_reaches_the_end_and_stays_there() {
    for input in ["", "a", "let x = 5;", "  \n ", "a + b * (c - 1) != !d", "été @@ 12ab"] {
        let tokens = lex_all(input);
        let count = input.chars().count();
        assert_eq!(tokens[count].kind, TokenType::Eof);
        assert_eq!(tokens[count].literal, "");
        let mut lexer = Lexer::new(input);
        for _ in 0..count {
            lexer.next_token();
        }
        for _ in 0..5 {
            assert_eq!(lexer.next_token(), Token::new(TokenType::Eof, ""));
        }
    }
}

#[test]
fn a_nul_character_reads_as_eof_and_lexing_goes_on() {
    assert_eq!(
        kinds_and_literals("a\0b", 4),
        vec![
            (TokenType::Ident, "a".to_string()),
            (TokenType::Eof, "".to_string()),
            (TokenType::Ident, "b".to_string()),
            (TokenType::Eof, "".to_string()),
        ]
    );
}

#[test]
fn the_lexemes_spell_the_input() {
    for input in [
        "let five = 5;",
        "a+b",
        "  if (x < y) { x } else { y }  ",
        "!-/*5;\n5 < 10 > 5;",
        "10 == 10; 10 != 9;",
        "été @ 12ab_c",
    ] {
        let without_blanks: String =
            input.chars().filter(|c| !matches!(c, ' ' | '\t' | '\n' | '\r')).collect();
        let spelled: String = lex_all(input)
            .into_iter()
            .filter(|token| token.kind != TokenType::Eof)
            .map(|token| token.literal)
            .collect();
        assert_eq!(spelled, without_blanks);
    }
}

#[test]
fn token_of_a_word() {
    assert_eq!(Token::from_ident("fn".to_string()), Token::new(TokenType::Function, "fn"));
    assert_eq!(Token::from_ident("let".to_string()), Token::new(TokenType::Let, "let"));
    assert_eq!(Token::from_ident("if".to_string()), Token::new(TokenType::If, "if"));
    assert_eq!(Token::from_ident("else".to_string()), Token::new(TokenType::Else, "else"));
    assert_eq!(Token::from_ident("true".to_string()), Token::new(TokenType::True, "true"));
    assert_eq!(Token::from_ident("false".to_string()), Token::new(TokenType::False, "false"));
    assert_eq!(Token::from_ident("return".to_string()), Token::new(TokenType::Return, "return"));
    assert_eq!(Token::from_ident("Let".to_string()), Token::new(TokenType::Ident, "Let"));
    assert_eq!(Token::from_ident("foobar".to_string()), Token::new(TokenType::Ident, "foobar"));
    assert_eq!(Token::from_ident("".to_string()), Token::new(TokenType::Ident, ""));
}

#[test]
fn token_kinds_have_names() {
    let names = [
        (TokenType::Illegal, "ILLEGAL"),
        (TokenType::Eof, "EOF"),
        (TokenType::Ident, "IDENT"),
        (TokenType::Int, "INT"),
        (TokenType::Assign, "="),
        (TokenType::Plus, "+"),
        (TokenType::Minus, "-"),
        (TokenType::Bang, "!"),
        (TokenType::Star, "*"),
        (TokenType::Slash, "/"),
        (TokenType::Lt, "<"),
        (TokenType::Gt, ">"),
        (TokenType::Eq, "=="),
        (TokenType::NotEq, "!="),
        (TokenType::Comma, ","),
        (TokenType::Semicolon, ";"),
        (TokenType::LParen, "("),
        (TokenType::RParen, ")"),
        (TokenType::LBrace, "{"),
        (TokenType::RBrace, "}"),
        (TokenType::Function, "FUNCTION"),
        (TokenType::Let, "LET"),
        (TokenType::If, "IF"),
        (TokenType::Else, "ELSE"),
        (TokenType::Return, "RETURN"),
        (TokenType::True, "TRUE"),
        (TokenType::False, "FALSE"),
    ];
    for (kind, name) in names {
        assert_eq!(kind.to_string(), name);
        assert_eq!(kind.as_str(), name);
    }
    assert_eq!(Token::default(), Token::new(TokenType::Eof, ""));
    assert_eq!(TokenType::default(), TokenType::Eof);
}
