use rough::lexer::Lexer;
use rough::token::{Token, TokenType};

fn number_value(token: &Token) -> Option<f64> {
    match token.token_type() {
        TokenType::Number(digits) => digits.parse::<f64>().ok(),
        _ => None,
    }
}

#[test]
fn test_simple_tokens() {
    let tests = vec![
        ("()[],|#".to_string(), vec![
         Token::new(TokenType::LParen, 0),
         Token::new(TokenType::RParen, 1),
         Token::new(TokenType::LBracket, 2),
         Token::new(TokenType::RBracket, 3),
         Token::new(TokenType::Comma, 4),
         Token::new(TokenType::Pipe, 5),
         Token::new(TokenType::Comment("".to_string()), 6),
        ]),
        ("foo := |x| 53 in print
            \"bar\"".to_string(), vec![
            Token::new(TokenType::Ident("foo".to_string()), 0),
            Token::new(TokenType::Space, 3),
            Token::new(TokenType::Assign, 4),
            Token::new(TokenType::Space, 6),
            Token::new(TokenType::Pipe, 7),
            Token::new(TokenType::Ident("x".to_string()), 8),
            Token::new(TokenType::Pipe, 9),
            Token::new(TokenType::Space, 10),
            Token::new(TokenType::Number("53".to_string()), 11),
            Token::new(TokenType::Space, 13),
            Token::new(TokenType::In, 14),
            Token::new(TokenType::Space, 16),
            Token::new(TokenType::Ident("print".to_string()), 17),
            Token::new(TokenType::Newline, 22),
            Token::new(TokenType::Tab, 23),
            Token::new(TokenType::Tab, 27),
            Token::new(TokenType::Tab, 31),
            Token::new(TokenType::Str("bar".to_string()), 35),
            ]),
    ];

    for (test, (given, expected)) in tests.iter().enumerate() {
        let mut lexer = Lexer::new(given);
        let lexer_output: Vec<Token> = lexer.collect();
        assert_eq!(lexer_output.len(), expected.len());
        assert!(lexer.errors().is_empty());
        for (i, expect) in expected.iter().enumerate() {
            assert_eq!(lexer_output[i], *expect, "Test{}, token{}: {:?} not equal to {:?}", test, i, lexer_output[i], expect);
            assert_eq!(lexer_output[i].position(), expect.position());
        }
    }
    let mut lexer = Lexer::new(&tests[1].0);
    let tokens = lexer.collect();
    assert_eq!(number_value(&tokens[8]), Some(53.0));
}

fn kinds(source: &str) -> Vec<TokenType> {
    let mut lexer = Lexer::new(source);
    lexer.collect().iter().map(|token| token.token_type().clone()).collect()
}

fn positions(source: &str) -> Vec<usize> {
    let mut lexer = Lexer::new(source);
    lexer.collect().iter().map(|token| token.position()).collect()
}

#[test]
fn structural_characters_are_one_token_each() {
    let source = "()[],|";
    assert_eq!(
        kinds(source),
        vec![
            TokenType::LParen,
            TokenType::RParen,
            TokenType::LBracket,
            TokenType::RBracket,
            TokenType::Comma,
            TokenType::Pipe,
        ]
    );
    assert_eq!(positions(source), vec![0, 1, 2, 3, 4, 5]);
    assert_eq!(kinds("]]((,|#"), vec![
        TokenType::RBracket,
        TokenType::RBracket,
        TokenType::LParen,
        TokenType::LParen,
        TokenType::Comma,
        TokenType::Pipe,
        TokenType::Comment("".to_string()),
    ]);
    assert_eq!(positions("]]((,|#"), vec![0, 1, 2, 3, 4, 5, 6]);
}

#[test]
fn hash_takes_the_rest_of_the_line() {
    assert_eq!(kinds("#()"), vec![TokenType::Comment("()".to_string())]);
    assert_eq!(
        kinds("(# note\n)"),
        vec![
            TokenType::LParen,
            TokenType::Comment(" note".to_string()),
            TokenType::Newline,
            TokenType::RParen,
        ]
    );
    assert_eq!(positions("(# note\n)"), vec![0, 1, 7, 8]);
}

#[test]
fn star_hash_closes_a_comment() {
    assert_eq!(
        kinds("# a * b *#c"),
        vec![TokenType::Comment(" a * b ".to_string()), TokenType::Ident("c".to_string())]
    );
    assert_eq!(positions("# a * b *#c"), vec![0, 10]);
    assert_eq!(kinds("#*"), vec![TokenType::Comment("*".to_string())]);
    assert_eq!(kinds("#*#"), vec![TokenType::Comment("".to_string())]);
}

#[test]
fn spaces_collapse_by_four() {
    assert_eq!(kinds(" "), vec![TokenType::Space]);
    assert_eq!(kinds("  "), vec![TokenType::Space, TokenType::Space]);
    assert_eq!(kinds("   "), vec![TokenType::Space, TokenType::Space, TokenType::Space]);
    assert_eq!(kinds("    "), vec![TokenType::Tab]);
    assert_eq!(kinds("     "), vec![TokenType::Tab, TokenType::Space]);
    assert_eq!(positions("     "), vec![0, 4]);
    assert_eq!(
        kinds("          "),
        vec![TokenType::Tab, TokenType::Tab, TokenType::Space, TokenType::Space]
    );
    assert_eq!(positions("          "), vec![0, 4, 8, 9]);
    assert_eq!(
        kinds("  a    "),
        vec![
            TokenType::Space,
            TokenType::Space,
            TokenType::Ident("a".to_string()),
            TokenType::Tab,
        ]
    );
}

#[test]
fn tab_character_is_a_tab() {
    assert_eq!(kinds("\t"), vec![TokenType::Tab]);
}

#[test]
fn same_input_same_tokens() {
    let source = "foo := |x| 53 § \"open";
    let mut first = Lexer::new(source);
    let mut second = Lexer::new(source);
    let first_tokens = first.collect();
    let second_tokens = second.collect();
    assert_eq!(first_tokens, second_tokens);
    assert_eq!(
        first_tokens.iter().map(|t| t.position()).collect::<Vec<_>>(),
        second_tokens.iter().map(|t| t.position()).collect::<Vec<_>>()
    );
    assert_eq!(first.errors(), second.errors());
    assert_eq!(first.errors().len(), 2);
}

#[test]
fn unknown_character_is_isolated() {
    let mut lexer = Lexer::new("(§)");
    let tokens = lexer.collect();
    assert_eq!(tokens, vec![Token::new(TokenType::LParen, 0), Token::new(TokenType::RParen, 3)]);
    assert_eq!(tokens[0].position(), 0);
    assert_eq!(tokens[1].position(), 3);
    assert_eq!(lexer.errors().len(), 1);
    assert_eq!(lexer.errors()[0].message(), "unrecognized character `§` at offset 1");
    assert_eq!(lexer.errors()[0].offset(), Some(1));
}

#[test]
fn offsets_count_bytes() {
    let mut lexer = Lexer::new("\"é€😀\" x");
    let tokens = lexer.collect();
    assert_eq!(
        tokens,
        vec![
            Token::new(TokenType::Str("é€😀".to_string()), 0),
            Token::new(TokenType::Space, 11),
            Token::new(TokenType::Ident("x".to_string()), 12),
        ]
    );
    assert_eq!(tokens[1].position(), 11);
    assert_eq!(tokens[2].position(), 12);
    let mut lexer = Lexer::new("😀a");
    let tokens = lexer.collect();
    assert_eq!(tokens[0].position(), 4);
    assert_eq!(lexer.errors()[0].message(), "unrecognized character `😀` at offset 0");
}

#[test]
fn large_offsets_are_written_in_decimal() {
    let mut source = " ".repeat(1203);
    source.push('§');
    let mut lexer = Lexer::new(&source);
    let tokens = lexer.collect();
    assert_eq!(tokens.len(), 300 + 3);
    assert_eq!(lexer.errors()[0].message(), "unrecognized character `§` at offset 1203");
    assert_eq!(lexer.errors()[0].offset(), Some(1203));
}

#[test]
fn unterminated_string_reads_to_the_end() {
    let mut lexer = Lexer::new("a \"bc d");
    let tokens = lexer.collect();
    assert_eq!(tokens, vec![Token::new(TokenType::Ident("a".to_string()), 0), Token::new(TokenType::Space, 1)]);
    assert_eq!(lexer.errors().len(), 1);
    assert_eq!(lexer.errors()[0].message(), "unterminated string");
    assert_eq!(lexer.errors()[0].offset(), Some(2));
    assert!(lexer.next().is_none());
}

#[test]
fn strings_hold_what_stands_between_the_quotes() {
    assert_eq!(kinds("\"\""), vec![TokenType::Str("".to_string())]);
    assert_eq!(
        kinds("\"a # b\nc\"d"),
        vec![TokenType::Str("a # b\nc".to_string()), TokenType::Ident("d".to_string())]
    );
}

#[test]
fn newline_pairs_collapse() {
    assert_eq!(kinds("\n"), vec![TokenType::Newline]);
    assert_eq!(kinds("\r"), vec![TokenType::Newline]);
    assert_eq!(kinds("\n\r"), vec![TokenType::Newline]);
    assert_eq!(kinds("\r\n"), vec![TokenType::Newline]);
    assert_eq!(kinds("\n\n"), vec![TokenType::Newline, TokenType::Newline]);
    assert_eq!(kinds("\r\n\r"), vec![TokenType::Newline, TokenType::Newline]);
    assert_eq!(positions("\r\n\r"), vec![0, 2]);
}

#[test]
fn colon_and_assign() {
    assert_eq!(kinds(":"), vec![TokenType::Colon]);
    assert_eq!(kinds(":="), vec![TokenType::Assign]);
    assert_eq!(kinds("::="), vec![TokenType::Colon, TokenType::Assign]);
    assert_eq!(kinds(":=="), vec![TokenType::Assign, TokenType::Operator("=".to_string())]);
}

#[test]
fn operator_symbols_make_one_token_per_run() {
    assert_eq!(kinds("+"), vec![TokenType::Operator("+".to_string())]);
    assert_eq!(
        kinds("!$%&*+./<=>?@\\^-~{}"),
        vec![TokenType::Operator("!$%&*+./<=>?@\\^-~{}".to_string())]
    );
    assert_eq!(
        kinds("a<=b"),
        vec![
            TokenType::Ident("a".to_string()),
            TokenType::Operator("<=".to_string()),
            TokenType::Ident("b".to_string()),
        ]
    );
    assert_eq!(positions("a<=b"), vec![0, 1, 3]);
}

#[test]
fn numbers_are_runs_of_digits() {
    assert_eq!(kinds("0"), vec![TokenType::Number("0".to_string())]);
    assert_eq!(
        kinds("12.5"),
        vec![
            TokenType::Number("12".to_string()),
            TokenType::Operator(".".to_string()),
            TokenType::Number("5".to_string()),
        ]
    );
    assert_eq!(
        kinds("7x"),
        vec![TokenType::Number("7".to_string()), TokenType::Ident("x".to_string())]
    );
    let mut lexer = Lexer::new("0123456789");
    let tokens = lexer.collect();
    assert_eq!(number_value(&tokens[0]), Some(123456789.0));
}

#[test]
fn keywords_and_identifiers() {
    assert_eq!(kinds("if"), vec![TokenType::If]);
    assert_eq!(kinds("else"), vec![TokenType::Else]);
    assert_eq!(kinds("in"), vec![TokenType::In]);
    assert_eq!(kinds("iff"), vec![TokenType::Ident("iff".to_string())]);
    assert_eq!(kinds("i"), vec![TokenType::Ident("i".to_string())]);
    assert_eq!(kinds("If"), vec![TokenType::Ident("If".to_string())]);
    assert_eq!(kinds("elsa"), vec![TokenType::Ident("elsa".to_string())]);
    assert_eq!(kinds("_in_"), vec![TokenType::Ident("_in_".to_string())]);
    assert_eq!(
        kinds("x1"),
        vec![TokenType::Ident("x".to_string()), TokenType::Number("1".to_string())]
    );
}

#[test]
fn tokens_come_one_at_a_time() {
    let mut lexer = Lexer::new("a §§ b");
    assert_eq!(lexer.next().unwrap().position(), 0);
    assert!(lexer.errors().is_empty());
    assert_eq!(lexer.next().unwrap().position(), 1);
    assert_eq!(lexer.next().unwrap().position(), 6);
    assert_eq!(lexer.errors().len(), 2);
    assert_eq!(lexer.next().unwrap(), Token::new(TokenType::Ident("b".to_string()), 7));
    assert!(lexer.next().is_none());
    assert!(lexer.next().is_none());
    assert_eq!(lexer.into_errors().len(), 2);
}

#[test]
fn tokens_are_equal_by_kind() {
    assert_eq!(Token::new(TokenType::Comma, 1), Token::new(TokenType::Comma, 9));
    assert_ne!(Token::new(TokenType::Comma, 1), Token::new(TokenType::Colon, 1));
    assert_ne!(
        Token::new(TokenType::Ident("a".to_string()), 0),
        Token::new(TokenType::Str("a".to_string()), 0)
    );
    assert_ne!(
        Token::new(TokenType::Ident("a".to_string()), 0),
        Token::new(TokenType::Ident("b".to_string()), 0)
    );
}

#[test]
fn token_text() {
    assert_eq!(TokenType::Ident("foo".to_string()).to_text(), "foo");
    assert_eq!(TokenType::Number("53".to_string()).to_text(), "53");
    assert_eq!(TokenType::Str("bar".to_string()).to_text(), "bar");
    assert_eq!(TokenType::Comment(" c".to_string()).to_text(), " c");
    assert_eq!(TokenType::Operator("<=".to_string()).to_text(), "<=");
    assert_eq!(TokenType::LParen.to_text(), "(");
    assert_eq!(TokenType::RParen.to_text(), ")");
    assert_eq!(TokenType::LBracket.to_text(), "[");
    assert_eq!(TokenType::RBracket.to_text(), "]");
    assert_eq!(TokenType::Colon.to_text(), ":");
    assert_eq!(TokenType::Comma.to_text(), ",");
    assert_eq!(TokenType::If.to_text(), "if");
    assert_eq!(TokenType::Else.to_text(), "else");
    assert_eq!(TokenType::Assign.to_text(), ":=");
    assert_eq!(TokenType::In.to_text(), "in");
    assert_eq!(TokenType::Pipe.to_text(), "|");
    assert_eq!(TokenType::Space.to_text(), " ");
    assert_eq!(TokenType::Tab.to_text(), "    ");
    assert_eq!(TokenType::Newline.to_text(), "\n");
}
