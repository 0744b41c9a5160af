use minicc::compiler::lexer::{
    check_for_symbol, consume, has_malformed_comment, lex, match_identifier_or_constant,
    match_non_symbol_token, postprocess_tokens, try_lex, word_token, CommentToken, KeywordToken,
    LexError, SymbolToken, Token,
};
use minicc::compiler::pattern::{CONSTANT_PATTERN, IDENTIFIER_PATTERN};
use minicc::compiler::text::chars_of;

fn identifier(text: &str) -> Token {
    Token::Identifier(text.to_string())
}

fn constant(text: &str) -> Token {
    Token::Constant(text.to_string())
}

fn symbol(symbol: SymbolToken) -> Token {
    Token::Symbol(symbol)
}

fn keyword(keyword: KeywordToken) -> Token {
    Token::Keyword(keyword)
}

fn lex_checked(source: &str) -> Result<Vec<Token>, LexError> {
    assert!(!has_malformed_comment(source));
    lex(source.to_string())
}

fn without_whitespace(tokens: Vec<Token>) -> Vec<Token> {
    let mut kept = Vec::new();
    for token in tokens {
        if token != Token::Symbol(SymbolToken::Whitespace) {
            kept.push(token);
        }
    }
    kept
}

fn lexeme_length(token: &Token) -> usize {
    match token {
        Token::Identifier(text) => text.chars().count(),
        Token::Constant(text) => text.chars().count(),
        Token::Keyword(KeywordToken::Int) => 3,
        Token::Keyword(KeywordToken::Void) => 4,
        Token::Keyword(KeywordToken::Return) => 6,
        Token::Symbol(SymbolToken::Whitespace) => 0,
        Token::Symbol(SymbolToken::Decrement) => 2,
        Token::Symbol(_) => 1,
        Token::Comment(_) => 0,
    }
}

fn total_lexeme_length(tokens: &[Token]) -> usize {
    let mut total = 0;
    for token in tokens {
        total += lexeme_length(token);
    }
    total
}

#[test]
fn lex_minimal_program() {
    let tokens = lex_checked("int main(void){return 2;}").unwrap();
    assert_eq!(
        tokens,
        vec![
            keyword(KeywordToken::Int),
            symbol(SymbolToken::Whitespace),
            identifier("main"),
            symbol(SymbolToken::OpenParen),
            keyword(KeywordToken::Void),
            symbol(SymbolToken::CloseParen),
            symbol(SymbolToken::OpenBrace),
            keyword(KeywordToken::Return),
            symbol(SymbolToken::Whitespace),
            constant("2"),
            symbol(SymbolToken::Semicolon),
            symbol(SymbolToken::CloseBrace),
        ]
    );
    assert_eq!(
        without_whitespace(tokens),
        vec![
            keyword(KeywordToken::Int),
            identifier("main"),
            symbol(SymbolToken::OpenParen),
            keyword(KeywordToken::Void),
            symbol(SymbolToken::CloseParen),
            symbol(SymbolToken::OpenBrace),
            keyword(KeywordToken::Return),
            constant("2"),
            symbol(SymbolToken::Semicolon),
            symbol(SymbolToken::CloseBrace),
        ]
    );
}

#[test]
fn lex_line_comment_then_declaration() {
    let tokens = lex_checked("// hello\nint x;").unwrap();
    assert_eq!(
        tokens,
        vec![
            Token::Comment(CommentToken::LineComment),
            keyword(KeywordToken::Int),
            symbol(SymbolToken::Whitespace),
            identifier("x"),
            symbol(SymbolToken::Semicolon),
        ]
    );
}

#[test]
fn lex_empty_text_has_no_tokens() {
    assert_eq!(lex_checked(""), Ok(vec![]));
}

#[test]
fn lex_keeps_whitespace_tokens() {
    assert_eq!(
        lex_checked(" \t\n"),
        Ok(vec![
            symbol(SymbolToken::Whitespace),
            symbol(SymbolToken::Whitespace),
            symbol(SymbolToken::Whitespace),
        ])
    );
}

#[test]
fn lex_all_symbols() {
    assert_eq!(
        lex_checked("(){};\"-~"),
        Ok(vec![
            symbol(SymbolToken::OpenParen),
            symbol(SymbolToken::CloseParen),
            symbol(SymbolToken::OpenBrace),
            symbol(SymbolToken::CloseBrace),
            symbol(SymbolToken::Semicolon),
            symbol(SymbolToken::Quote),
            symbol(SymbolToken::Minus),
            symbol(SymbolToken::Tilde),
        ])
    );
}

#[test]
fn lex_unary_operators() {
    assert_eq!(
        lex_checked("return ~-2;"),
        Ok(vec![
            keyword(KeywordToken::Return),
            symbol(SymbolToken::Whitespace),
            symbol(SymbolToken::Tilde),
            symbol(SymbolToken::Minus),
            constant("2"),
            symbol(SymbolToken::Semicolon),
        ])
    );
}

#[test]
fn lex_word_at_end_of_text() {
    assert_eq!(lex_checked("abc"), Ok(vec![identifier("abc")]));
    assert_eq!(lex_checked("42"), Ok(vec![constant("42")]));
    assert_eq!(lex_checked("void"), Ok(vec![keyword(KeywordToken::Void)]));
}

#[test]
fn lex_word_ends_at_comment_marker() {
    assert_eq!(
        lex_checked("x// y\n"),
        Ok(vec![identifier("x"), Token::Comment(CommentToken::LineComment)])
    );
}

#[test]
fn lex_rejects_unclassifiable_word() {
    assert_eq!(
        lex_checked("int 2abc;"),
        Err(LexError::Classification("2abc".to_string()))
    );
    assert_eq!(lex_checked("a+b"), Err(LexError::Classification("a+b".to_string())));
    assert_eq!(lex_checked("x = 1"), Err(LexError::Classification("=".to_string())));
}

#[test]
fn lex_reports_first_error_only() {
    assert_eq!(
        lex_checked("1a 2b /*"),
        Err(LexError::Classification("1a".to_string()))
    );
}

#[test]
fn lex_unterminated_comment_marker() {
    assert_eq!(
        lex_checked("int x; /"),
        Err(LexError::UnterminatedConstruct(CommentToken::PendingComment))
    );
}

#[test]
fn lex_unterminated_line_comment() {
    assert_eq!(
        lex_checked("// no line feed"),
        Err(LexError::UnterminatedConstruct(CommentToken::LineComment))
    );
    assert_eq!(
        lex_checked("//"),
        Err(LexError::UnterminatedConstruct(CommentToken::LineComment))
    );
}

#[test]
fn lex_unterminated_block_comment() {
    assert_eq!(
        lex_checked("/* never closed"),
        Err(LexError::UnterminatedConstruct(CommentToken::BlockComment))
    );
    assert_eq!(
        lex_checked("/* star at the end *"),
        Err(LexError::UnterminatedConstruct(CommentToken::BlockComment))
    );
    assert_eq!(
        lex_checked("/*/"),
        Err(LexError::UnterminatedConstruct(CommentToken::BlockComment))
    );
}

#[test]
fn lex_block_comment() {
    assert_eq!(
        lex_checked("/* a\n b */int"),
        Ok(vec![Token::Comment(CommentToken::BlockComment), keyword(KeywordToken::Int)])
    );
    assert_eq!(lex_checked("/**/"), Ok(vec![Token::Comment(CommentToken::BlockComment)]));
}

#[test]
fn lex_block_comment_closed_after_run_of_stars() {
    assert_eq!(lex_checked("/***/"), Ok(vec![Token::Comment(CommentToken::BlockComment)]));
    assert_eq!(
        lex_checked("/* ** */;"),
        Ok(vec![Token::Comment(CommentToken::BlockComment), symbol(SymbolToken::Semicolon)])
    );
}

#[test]
fn lex_comment_hides_symbols_and_words() {
    assert_eq!(
        lex_checked("/* 2abc -- ; */\n// 1x /y\n"),
        Ok(vec![
            Token::Comment(CommentToken::BlockComment),
            symbol(SymbolToken::Whitespace),
            Token::Comment(CommentToken::LineComment),
        ])
    );
}

#[test]
fn lex_line_comment_swallows_its_line_feed() {
    assert_eq!(
        lex_checked("//\n\n"),
        Ok(vec![Token::Comment(CommentToken::LineComment), symbol(SymbolToken::Whitespace)])
    );
}

#[test]
fn lex_merges_decrement() {
    assert_eq!(
        lex_checked("--x"),
        Ok(vec![symbol(SymbolToken::Decrement), identifier("x")])
    );
    assert_eq!(
        lex_checked("- -"),
        Ok(vec![
            symbol(SymbolToken::Minus),
            symbol(SymbolToken::Whitespace),
            symbol(SymbolToken::Minus),
        ])
    );
}

#[test]
fn lex_three_minus_signs_merge_from_the_left() {
    assert_eq!(
        lex_checked("---"),
        Ok(vec![symbol(SymbolToken::Decrement), symbol(SymbolToken::Minus)])
    );
    assert_eq!(
        lex_checked("----"),
        Ok(vec![symbol(SymbolToken::Decrement), symbol(SymbolToken::Decrement)])
    );
    assert_eq!(
        lex_checked("-----"),
        Ok(vec![
            symbol(SymbolToken::Decrement),
            symbol(SymbolToken::Decrement),
            symbol(SymbolToken::Minus),
        ])
    );
}

#[test]
fn malformed_comment_marker_is_detected() {
    assert!(has_malformed_comment("/x"));
    assert!(has_malformed_comment("a / b"));
    assert!(has_malformed_comment("int x; /-"));
    assert!(has_malformed_comment("/* ok */ / *"));
}

#[test]
fn malformed_comment_marker_behind_an_error_is_not_reached() {
    assert!(!has_malformed_comment("2abc /x"));
    assert_eq!(
        lex("2abc /x".to_string()),
        Err(LexError::Classification("2abc".to_string()))
    );
    assert!(!has_malformed_comment("/* /x"));
}

#[test]
fn comment_marker_inside_comment_is_not_malformed() {
    assert!(!has_malformed_comment("// a /b\n"));
    assert!(!has_malformed_comment("/* a /b */"));
    assert!(!has_malformed_comment(""));
    assert!(!has_malformed_comment("/"));
}

#[test]
fn check_for_symbol_table() {
    assert_eq!(check_for_symbol('('), Some(SymbolToken::OpenParen));
    assert_eq!(check_for_symbol(')'), Some(SymbolToken::CloseParen));
    assert_eq!(check_for_symbol('{'), Some(SymbolToken::OpenBrace));
    assert_eq!(check_for_symbol('}'), Some(SymbolToken::CloseBrace));
    assert_eq!(check_for_symbol(';'), Some(SymbolToken::Semicolon));
    assert_eq!(check_for_symbol('"'), Some(SymbolToken::Quote));
    assert_eq!(check_for_symbol('/'), Some(SymbolToken::CommentSymbol));
    assert_eq!(check_for_symbol('\n'), Some(SymbolToken::Whitespace));
    assert_eq!(check_for_symbol(' '), Some(SymbolToken::Whitespace));
    assert_eq!(check_for_symbol('\t'), Some(SymbolToken::Whitespace));
    assert_eq!(check_for_symbol('-'), Some(SymbolToken::Minus));
    assert_eq!(check_for_symbol('~'), Some(SymbolToken::Tilde));
}

#[test]
fn check_for_symbol_rejects_other_characters() {
    for ch in ['a', 'Z', '0', '_', '*', '+', '\r', '\'', '[', 'é'] {
        assert_eq!(check_for_symbol(ch), None);
    }
}

#[test]
fn keywords_are_recognized_exactly() {
    assert_eq!(match_non_symbol_token("int".to_string()), Ok(keyword(KeywordToken::Int)));
    assert_eq!(match_non_symbol_token("void".to_string()), Ok(keyword(KeywordToken::Void)));
    assert_eq!(
        match_non_symbol_token("return".to_string()),
        Ok(keyword(KeywordToken::Return))
    );
    assert_eq!(match_non_symbol_token("Int".to_string()), Ok(identifier("Int")));
    assert_eq!(match_non_symbol_token("integer".to_string()), Ok(identifier("integer")));
    assert_eq!(match_non_symbol_token("returns".to_string()), Ok(identifier("returns")));
}

#[test]
fn keyword_takes_precedence_over_identifier() {
    for word in ["int", "void", "return"] {
        assert_eq!(match_identifier_or_constant(word.to_string()), Ok(identifier(word)));
        assert!(matches!(match_non_symbol_token(word.to_string()), Ok(Token::Keyword(_))));
    }
}

#[test]
fn identifiers_and_constants() {
    assert_eq!(match_identifier_or_constant("main".to_string()), Ok(identifier("main")));
    assert_eq!(match_identifier_or_constant("_".to_string()), Ok(identifier("_")));
    assert_eq!(match_identifier_or_constant("_x9".to_string()), Ok(identifier("_x9")));
    assert_eq!(match_identifier_or_constant("A1b2".to_string()), Ok(identifier("A1b2")));
    assert_eq!(match_identifier_or_constant("0".to_string()), Ok(constant("0")));
    assert_eq!(match_identifier_or_constant("0123456789".to_string()), Ok(constant("0123456789")));
}

#[test]
fn unclassifiable_words() {
    for word in ["", "2abc", "9_", "a+b", "a.b", "@", "a@", "1.5", "abc\n", "12\n", " x"] {
        assert_eq!(
            match_identifier_or_constant(word.to_string()),
            Err(LexError::Classification(word.to_string()))
        );
    }
}

#[test]
fn words_outside_ascii() {
    assert_eq!(match_identifier_or_constant("aé".to_string()), Ok(identifier("aé")));
    assert_eq!(match_identifier_or_constant("x٣".to_string()), Ok(identifier("x٣")));
    assert_eq!(
        match_identifier_or_constant("é".to_string()),
        Err(LexError::Classification("é".to_string()))
    );
    assert_eq!(
        match_identifier_or_constant("٣".to_string()),
        Err(LexError::Classification("٣".to_string()))
    );
    assert_eq!(
        match_identifier_or_constant("a→b".to_string()),
        Err(LexError::Classification("a→b".to_string()))
    );
}

#[test]
fn no_word_is_both_identifier_and_constant() {
    let words = ["int", "void", "return", "x", "_1", "1", "007", "1x", "x1", "", "é", "a b"];
    for word in words {
        let as_word = match_identifier_or_constant(word.to_string());
        let starts_with_digit = word.chars().next().map_or(false, |ch| ch.is_ascii_digit());
        match as_word {
            Ok(Token::Identifier(text)) => {
                assert_eq!(text, word);
                assert!(!starts_with_digit);
            }
            Ok(Token::Constant(text)) => {
                assert_eq!(text, word);
                assert!(starts_with_digit);
                assert!(!matches!(
                    match_non_symbol_token(word.to_string()),
                    Ok(Token::Keyword(_))
                ));
            }
            Ok(other) => panic!("{:?}", other),
            Err(error) => assert_eq!(error, LexError::Classification(word.to_string())),
        }
    }
}

#[test]
fn patterns() {
    assert_eq!(IDENTIFIER_PATTERN, r"^[a-zA-Z_]\w*\b$");
    assert_eq!(CONSTANT_PATTERN, r"^[0-9]+\b$");
}

#[test]
fn word_token_asks_identifier_first() {
    let word = || "w".to_string();
    assert_eq!(word_token(word(), true, false), Ok(identifier("w")));
    assert_eq!(word_token(word(), true, true), Ok(identifier("w")));
    assert_eq!(word_token(word(), false, true), Ok(constant("w")));
    assert_eq!(
        word_token(word(), false, false),
        Err(LexError::Classification("w".to_string()))
    );
}

#[test]
fn error_messages() {
    assert_eq!(
        LexError::Classification("2abc".to_string()).message(),
        "2abc did not match an identifier or a constant"
    );
    assert_eq!(
        LexError::UnterminatedConstruct(CommentToken::BlockComment).message(),
        "Unexpected EOF"
    );
}

#[test]
fn postprocess_merges_pairs() {
    let minus = || symbol(SymbolToken::Minus);
    let decrement = || symbol(SymbolToken::Decrement);
    assert_eq!(postprocess_tokens(vec![]), vec![]);
    assert_eq!(postprocess_tokens(vec![minus()]), vec![minus()]);
    assert_eq!(postprocess_tokens(vec![minus(), minus()]), vec![decrement()]);
    assert_eq!(
        postprocess_tokens(vec![minus(), minus(), minus()]),
        vec![decrement(), minus()]
    );
    assert_eq!(
        postprocess_tokens(vec![identifier("a"), minus(), minus(), identifier("b")]),
        vec![identifier("a"), decrement(), identifier("b")]
    );
    assert_eq!(
        postprocess_tokens(vec![minus(), identifier("a"), minus()]),
        vec![minus(), identifier("a"), minus()]
    );
    assert_eq!(
        postprocess_tokens(vec![decrement(), minus(), minus()]),
        vec![decrement(), decrement()]
    );
}

#[test]
fn postprocess_is_idempotent() {
    let minus = || symbol(SymbolToken::Minus);
    let inputs = vec![
        vec![],
        vec![minus()],
        vec![minus(), minus()],
        vec![minus(), minus(), minus()],
        vec![minus(), minus(), minus(), minus()],
        vec![minus(), identifier("x"), minus(), minus(), minus(), constant("1")],
        vec![symbol(SymbolToken::Decrement), minus(), minus(), minus()],
    ];
    for input in inputs {
        let once = postprocess_tokens(input);
        let twice = postprocess_tokens(once.clone());
        assert_eq!(once, twice);
    }
}

#[test]
fn consume_appends_and_does_not_merge() {
    let chars = chars_of("--;");
    let before = vec![identifier("kept")];
    assert_eq!(
        consume(&chars, before),
        Ok(vec![
            identifier("kept"),
            symbol(SymbolToken::Minus),
            symbol(SymbolToken::Minus),
            symbol(SymbolToken::Semicolon),
        ])
    );
}

#[test]
fn consume_reports_errors() {
    let chars = chars_of("x /*");
    assert_eq!(
        consume(&chars, vec![]),
        Err(LexError::UnterminatedConstruct(CommentToken::BlockComment))
    );
}

#[test]
fn lexemes_account_for_the_text() {
    let cases = [
        ("int main(void){return 2;}", 23),
        ("// hello\nint x;", 5),
        ("return --x;\n", 10),
        ("/* a */ ~ - 12 /* b */\n", 4),
        ("", 0),
        ("---", 3),
    ];
    for (source, significant) in cases {
        let tokens = lex_checked(source).unwrap();
        assert_eq!(total_lexeme_length(&tokens), significant);
    }
}

#[test]
fn lexing_is_total_on_the_language() {
    let sources = [
        "int main(void){return 2;}",
        "int main(void) {\n\treturn ~(-2);\n}\n",
        "/* header */\nint _a1(void) { return 007; } // done\n",
        "\"\"",
        "a b c 1 2 3",
    ];
    for source in sources {
        assert!(lex_checked(source).is_ok());
    }
}

fn ascii_identifier(word: &str) -> bool {
    let mut chars = word.chars();
    match chars.next() {
        Some(first) if first.is_ascii_alphabetic() || first == '_' => {
            chars.all(|ch| ch.is_ascii_alphanumeric() || ch == '_')
        }
        _ => false,
    }
}

fn ascii_constant(word: &str) -> bool {
    !word.is_empty() && word.chars().all(|ch| ch.is_ascii_digit())
}

fn expected_for_ascii(word: &str) -> Result<Token, LexError> {
    if ascii_identifier(word) {
        Ok(identifier(word))
    } else if ascii_constant(word) {
        Ok(constant(word))
    } else {
        Err(LexError::Classification(word.to_string()))
    }
}

#[test]
fn patterns_on_every_ascii_character() {
    for code in 0u8..128 {
        let word = (code as char).to_string();
        assert_eq!(match_identifier_or_constant(word.clone()), expected_for_ascii(&word));
    }
}

#[test]
fn patterns_on_pairs_of_ascii_characters() {
    let alphabet = ['a', 'Z', '_', '0', '9', '\0', '\n', ' ', '+', '@', '[', '`', '{', '\u{7f}'];
    for first in alphabet {
        for second in alphabet {
            let word: String = [first, second].iter().collect();
            assert_eq!(match_identifier_or_constant(word.clone()), expected_for_ascii(&word));
        }
    }
}

#[test]
fn patterns_on_longer_ascii_words() {
    let words = [
        "a1_b2", "_0_", "abc def", "abc\tdef", "x-y", "12a", "a12", "0000", "12 ", " 12", "12\n",
        "\n12", "a\n", "\na", "a\r", "1\r", "a\u{b}", "A_Z_0_9", "__", "9__", "a/b", "a~", "1;",
    ];
    for word in words {
        assert_eq!(match_identifier_or_constant(word.to_string()), expected_for_ascii(word));
    }
}

#[test]
fn try_lex_tells_malformed_text_apart() {
    assert_eq!(try_lex("a /b".to_string()), None);
    assert_eq!(try_lex("/-".to_string()), None);
    assert_eq!(
        try_lex("a--".to_string()),
        Some(Ok(vec![identifier("a"), symbol(SymbolToken::Decrement)]))
    );
    assert_eq!(
        try_lex("1a /b".to_string()),
        Some(Err(LexError::Classification("1a".to_string())))
    );
    assert_eq!(
        try_lex("/*".to_string()),
        Some(Err(LexError::UnterminatedConstruct(CommentToken::BlockComment)))
    );
    assert_eq!(try_lex(String::new()), Some(Ok(vec![])));
}
