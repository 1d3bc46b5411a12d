use scriptlang::lexer::{
    decimal_string, describe_token, dump_lines, is_reserved, tokenizer, try_tokenizer, Token,
    Tokens,
};
use scriptlang::parser::{parse, Node, SyntaxError};

fn kinds(input: &str) -> Vec<Token> {
    tokenizer(input.to_string()).into_iter().map(|t| t.token).collect()
}

#[test]
fn tokens_new_keeps_its_arguments() {
    let tokens = Tokens::new(Token::Number(5), 12);
    assert_eq!(tokens.token, Token::Number(5));
    assert_eq!(tokens.line, 12);
}

#[test]
fn tokenize_print_call() {
    assert_eq!(
        kinds("print(\"abc\")"),
        vec![
            Token::Other("print".to_string()),
            Token::LeftParen,
            Token::String("abc".to_string()),
            Token::RightParen,
            Token::Eof
        ]
    );
}

#[test]
fn tokenize_single_characters() {
    assert_eq!(
        kinds("( ) { } + - * / . ; = 。 ；"),
        vec![
            Token::LeftParen,
            Token::RightParen,
            Token::LeftBracket,
            Token::RightBracket,
            Token::Plus,
            Token::Dash,
            Token::Star,
            Token::Slash,
            Token::Dot,
            Token::Semicolon,
            Token::Equal,
            Token::Dot,
            Token::Semicolon,
            Token::Eof
        ]
    );
}

#[test]
fn tokenize_keywords() {
    assert_eq!(
        kinds("true false while repeat if else other"),
        vec![
            Token::Bool(true),
            Token::Bool(false),
            Token::While,
            Token::Repeat,
            Token::If,
            Token::Else,
            Token::Other("other".to_string()),
            Token::Eof
        ]
    );
}

#[test]
fn tokenize_numbers() {
    assert_eq!(kinds("7"), vec![Token::Number(7), Token::Eof]);
    assert_eq!(kinds("1234567890"), vec![Token::Number(1234567890), Token::Eof]);
    assert_eq!(kinds("9223372036854775807"), vec![Token::Number(i64::MAX), Token::Eof]);
    assert_eq!(kinds("3+3"), vec![Token::Number(3), Token::Plus, Token::Number(3), Token::Eof]);
    assert_eq!(kinds("12 34"), vec![Token::Number(12), Token::Number(34), Token::Eof]);
}

#[test]
fn tokenize_number_that_starts_with_zero_is_a_word() {
    assert_eq!(kinds("012"), vec![Token::Other("012".to_string()), Token::Eof]);
}

#[test]
fn tokenize_number_too_large() {
    assert_eq!(try_tokenizer("9223372036854775808".to_string()), None);
    assert_eq!(try_tokenizer("1;\n99999999999999999999999;".to_string()), None);
    assert_eq!(
        try_tokenizer("9223372036854775807".to_string()),
        Some(vec![Tokens::new(Token::Number(i64::MAX), 1), Tokens::new(Token::Eof, 1)])
    );
}

#[test]
fn tokenize_strings() {
    assert_eq!(
        kinds("\"hello world\"\"\""),
        vec![Token::String("hello world".to_string()), Token::String("".to_string()), Token::Eof]
    );
    assert_eq!(kinds("\"open"), vec![Token::String("open".to_string()), Token::Eof]);
    assert_eq!(kinds("\"true\""), vec![Token::String("true".to_string()), Token::Eof]);
}

#[test]
fn tokenize_words_end_at_reserved_characters() {
    assert_eq!(
        kinds("abc.test"),
        vec![
            Token::Other("abc".to_string()),
            Token::Dot,
            Token::Other("test".to_string()),
            Token::Eof
        ]
    );
    assert_eq!(
        kinds("abc;"),
        vec![Token::Other("abc".to_string()), Token::Semicolon, Token::Eof]
    );
    assert_eq!(
        kinds("x=y"),
        vec![
            Token::Other("x".to_string()),
            Token::Equal,
            Token::Other("y".to_string()),
            Token::Eof
        ]
    );
    assert_eq!(
        kinds("a\tb\r\nc\u{3000}d1 true;"),
        vec![
            Token::Other("a".to_string()),
            Token::Other("b".to_string()),
            Token::Other("c".to_string()),
            Token::Other("d1".to_string()),
            Token::Bool(true),
            Token::Semicolon,
            Token::Eof
        ]
    );
    assert_eq!(
        kinds("、a”b"),
        vec![Token::Other("、a".to_string()), Token::Other("”b".to_string()), Token::Eof]
    );
}

#[test]
fn tokenize_counts_lines() {
    let tokens = tokenizer("1;\n\n  \"a\"\n\tx\n".to_string());
    let lines: Vec<u64> = tokens.iter().map(|t| t.line).collect();
    assert_eq!(lines, vec![1, 1, 3, 4, 5]);
    assert_eq!(tokens[4].token, Token::Eof);
}

#[test]
fn tokenize_counts_lines_inside_strings() {
    let tokens = tokenizer("\"a\nb\n\" x\n\"open\n\n".to_string());
    assert_eq!(
        tokens,
        vec![
            Tokens::new(Token::String("a\nb\n".to_string()), 1),
            Tokens::new(Token::Other("x".to_string()), 3),
            Tokens::new(Token::String("open\n\n".to_string()), 4),
            Tokens::new(Token::Eof, 6),
        ]
    );
}

#[test]
fn tokenize_skips_unicode_whitespace() {
    assert_eq!(kinds("\u{A0}\u{3000}\u{2003}\r\t5"), vec![Token::Number(5), Token::Eof]);
    for code in 0u32..0x3100 {
        if let Some(ch) = char::from_u32(code) {
            if ch.is_whitespace() {
                assert_eq!(kinds(&ch.to_string()), vec![Token::Eof]);
            } else if ch != '"' {
                assert_eq!(kinds(&ch.to_string()).len(), 2);
            }
        }
    }
}

#[test]
fn tokenize_empty_input() {
    assert_eq!(tokenizer(String::new()), vec![Tokens::new(Token::Eof, 1)]);
}

#[test]
fn decimal_string_writes_integers() {
    assert_eq!(decimal_string(0), "0");
    assert_eq!(decimal_string(7), "7");
    assert_eq!(decimal_string(10), "10");
    assert_eq!(decimal_string(-1), "-1");
    assert_eq!(decimal_string(1234567890), "1234567890");
    assert_eq!(decimal_string(i64::MAX), "9223372036854775807");
    assert_eq!(decimal_string(i64::MIN), "-9223372036854775808");
    for n in -1000i64..1000 {
        assert_eq!(decimal_string(n), n.to_string());
    }
}

#[test]
fn describe_token_lines() {
    assert_eq!(describe_token(&Token::Number(-42)), "Number: -42");
    assert_eq!(describe_token(&Token::String("a b".to_string())), "String: a b");
    assert_eq!(describe_token(&Token::Other("print".to_string())), "Other: print");
    assert_eq!(describe_token(&Token::Bool(true)), "Bool: true");
    assert_eq!(describe_token(&Token::Bool(false)), "Bool: false");
    assert_eq!(describe_token(&Token::Eof), "End of file");
    assert_eq!(
        dump_lines(&tokenizer("print(\"abc\") 3+4; { } - * / . = repeat".to_string())),
        vec![
            "Other: print",
            "(",
            "String: abc",
            ")",
            "Number: 3",
            "+",
            "Number: 4",
            ";",
            "{",
            "}",
            "-",
            "*",
            "/",
            ".",
            "=",
            "repeat",
            "End of file"
        ]
    );
    let rest = vec![
        Tokens::new(Token::EqualEqual, 1),
        Tokens::new(Token::NotEqual, 1),
        Tokens::new(Token::More, 1),
        Tokens::new(Token::Less, 1),
        Tokens::new(Token::EqualMore, 1),
        Tokens::new(Token::EqualLess, 1),
        Tokens::new(Token::While, 1),
        Tokens::new(Token::For, 1),
        Tokens::new(Token::If, 1),
        Tokens::new(Token::Elseif, 1),
        Tokens::new(Token::Else, 1),
    ];
    assert_eq!(
        dump_lines(&rest),
        vec!["==", "!=", ">", "<", ">=", "<=", "while", "for", "if", "elseif", "else"]
    );
}

#[test]
fn number_literals_round_trip() {
    for n in [1i64, 2, 9, 10, 11, 99, 100, 101, 4096, 1234567890123, i64::MAX - 1, i64::MAX] {
        let source = decimal_string(n) + ";";
        let tokens = tokenizer(source);
        assert_eq!(
            tokens,
            vec![
                Tokens::new(Token::Number(n), 1),
                Tokens::new(Token::Semicolon, 1),
                Tokens::new(Token::Eof, 1)
            ]
        );
        assert_eq!(parse(tokens), Ok(vec![Node::Int(n), Node::Eof]));
    }
}

#[test]
fn zero_and_negative_literals_are_no_numbers() {
    assert_eq!(kinds("0;"), vec![Token::Other("0".to_string()), Token::Semicolon, Token::Eof]);
    assert_eq!(parse(tokenizer("0;".to_string())), Ok(vec![Node::Eof]));
    assert_eq!(
        parse(tokenizer("-5;".to_string())),
        Err(SyntaxError::new("- token found in unexpected location".to_string(), 1))
    );
}

#[test]
fn reserved_characters() {
    for ch in "()+-*/\" \n.;=；。、”’{}".chars() {
        assert!(is_reserved(ch));
    }
    for ch in "a0\t_'\u{3000},:!<>".chars() {
        assert!(!is_reserved(ch));
    }
}

#[test]
fn clones_are_equal() {
    let tokens = tokenizer("print(\"abc\") 12 true".to_string());
    assert_eq!(tokens.clone(), tokens);
}
