use minilex::lexer::tokenize;
use minilex::lexer::Error;
use minilex::token::Token;
use minilex::token::TokenType;

fn tokens_to_string(tokens: &[Token]) -> Vec<String> {
    let strings: Vec<String> = tokens.iter().map(|t| t.token_type.print_form()).collect();
    strings
}

#[test]
fn test_whitespace() {
    let tokens = tokenize(" \t").unwrap();
    assert_eq!(tokens.len(), 0);
}

#[test]
fn test_comment() {
    let tokens1 = tokenize("/").unwrap();
    assert_eq!(tokens_to_string(&tokens1), vec!["/"]);

    let tokens2 = tokenize("/ // + - * /").unwrap();
    assert_eq!(tokens_to_string(&tokens2), vec!["/"]);
}

#[test]
fn test_punctuation_marks() {
    let tokens1 = tokenize("{ } = >> | || && == != > >= < <= ++ + - * /").unwrap();
    assert_eq!(
        tokens_to_string(&tokens1),
        vec![
            "{", "}", "=", ">>", "|", "||", "&&", "==", "!=", ">", ">=", "<", "<=", "++", "+",
            "-", "*", "/",
        ]
    );

    let tokens2 = tokenize("?? & ^ ? . [ ] => ! ( ) # .. ... : ,").unwrap();
    assert_eq!(
        tokens_to_string(&tokens2),
        vec![
            "??", "&", "^", "?", ".", "[", "]", "=>", "!", "(", ")", "#", "..", "...", ":",
            ",",
        ]
    );
}

#[test]
fn test_newline_identifiers() {
    // Each of the three line-terminator forms yields exactly one NewLine.
    let tokens = tokenize("a\r\nb\n\rc").unwrap();
    assert_eq!(tokens_to_string(&tokens), vec!["a", "\n", "b", "\n", "\n", "c"]);
    let spans: Vec<(usize, usize)> = tokens
        .iter()
        .map(|t| (t.location.start, t.location.end))
        .collect();
    assert_eq!(spans, vec![(0, 1), (1, 3), (3, 4), (4, 5), (5, 6), (6, 7)]);
    assert!(tokens.iter().all(|t| t.location.file_id == 0));
}

#[test]
fn test_newline_single() {
    for (src, span) in [("x\ny", (1, 2)), ("x\r\ny", (1, 3)), ("x\ry", (1, 2))] {
        let tokens = tokenize(src).unwrap();
        assert_eq!(tokens.len(), 3);
        assert_eq!(tokens[1].token_type, TokenType::NewLine);
        assert_eq!((tokens[1].location.start, tokens[1].location.end), span);
        assert!(tokens
            .iter()
            .enumerate()
            .all(|(i, t)| (t.token_type == TokenType::NewLine) == (i == 1)));
    }
}

#[test]
fn test_keywords_and_identifiers() {
    let tokens = tokenize("let x = y").unwrap();
    let kinds: Vec<TokenType> = tokens.into_iter().map(|t| t.token_type).collect();
    assert_eq!(
        kinds,
        vec![
            TokenType::Let,
            TokenType::Identifier("x".to_string()),
            TokenType::Assign,
            TokenType::Identifier("y".to_string()),
        ]
    );

    let tokens2 = tokenize("match which alias foo_9").unwrap();
    let kinds2: Vec<TokenType> = tokens2.into_iter().map(|t| t.token_type).collect();
    assert_eq!(
        kinds2,
        vec![
            TokenType::Match,
            TokenType::Which,
            TokenType::Alias,
            TokenType::Identifier("foo_9".to_string()),
        ]
    );
}

#[test]
fn test_identifier_spans() {
    let tokens = tokenize("alpha beta").unwrap();
    assert_eq!(tokens.len(), 2);
    assert_eq!(tokens[0].token_type, TokenType::Identifier("alpha".to_string()));
    assert_eq!((tokens[0].location.start, tokens[0].location.end), (0, 5));
    assert_eq!(tokens[1].token_type, TokenType::Identifier("beta".to_string()));
    assert_eq!((tokens[1].location.start, tokens[1].location.end), (6, 10));
}

#[test]
fn test_longest_match_runs() {
    let tokens = tokenize("....").unwrap();
    assert_eq!(tokens_to_string(&tokens), vec!["...", "."]);

    let tokens2 = tokenize("===").unwrap();
    assert_eq!(tokens_to_string(&tokens2), vec!["==", "="]);

    let tokens3 = tokenize("=>>").unwrap();
    assert_eq!(tokens_to_string(&tokens3), vec!["=>", ">"]);
}

#[test]
fn test_comment_to_end_of_input() {
    // A comment with no trailing newline consumes the remainder silently.
    assert_eq!(tokenize("//abc").unwrap().len(), 0);
    // The terminating newline itself is scanned and produces a NewLine.
    let tokens = tokenize("// x\n").unwrap();
    assert_eq!(tokens.len(), 1);
    assert_eq!(tokens[0].token_type, TokenType::NewLine);
    assert_eq!((tokens[0].location.start, tokens[0].location.end), (4, 5));
}

#[test]
fn test_comment_elision_matches_newline_form() {
    let with_comment = tokenize("a //x + [\ny").unwrap();
    let without = tokenize("a \ny").unwrap();
    let kinds1: Vec<TokenType> = with_comment.into_iter().map(|t| t.token_type).collect();
    let kinds2: Vec<TokenType> = without.into_iter().map(|t| t.token_type).collect();
    assert_eq!(kinds1, kinds2);
}

#[test]
fn test_unexpected_char() {
    for src in ["@", "1", "\"abc\"", "'c'", "`t`", "a $ b", "~"] {
        match tokenize(src) {
            Err(Error::LexerError(msg)) => assert_eq!(msg, "unexpected char"),
            Ok(_) => panic!("scanning should have failed"),
        }
    }
}

#[test]
fn test_lookup_keyword_all() {
    let cases: Vec<(&str, TokenType)> = vec![
        ("let", TokenType::Let),
        ("match", TokenType::Match),
        ("if", TokenType::If),
        ("then", TokenType::Then),
        ("else", TokenType::Else),
        ("for", TokenType::For),
        ("next", TokenType::Next),
        ("in", TokenType::In),
        ("branch", TokenType::Branch),
        ("each", TokenType::Each),
        ("mix", TokenType::Mix),
        ("which", TokenType::Which),
        ("where", TokenType::Where),
        ("only", TokenType::Only),
        ("within", TokenType::Within),
        ("into", TokenType::Into),
        ("regular", TokenType::Regular),
        ("template", TokenType::Template),
        ("to", TokenType::To),
        ("namespace", TokenType::Namespace),
        ("use", TokenType::Use),
        ("function", TokenType::Function),
        ("const", TokenType::Const),
        ("enum", TokenType::Enum),
        ("struct", TokenType::Struct),
        ("union", TokenType::Union),
        ("trait", TokenType::Trait),
        ("impl", TokenType::Impl),
        ("alias", TokenType::Alias),
    ];
    for (spelling, kind) in cases {
        assert_eq!(minilex::lexer::lookup_keyword(spelling), kind);
    }
    // Case-sensitive, exact: near misses are identifiers.
    for other in ["Let", "lets", "le", "whered", "_", "x0"] {
        assert_eq!(
            minilex::lexer::lookup_keyword(other),
            TokenType::Identifier(other.to_string())
        );
    }
}

#[test]
fn test_print_round_trip() {
    let kinds = vec![
        TokenType::LeftBrace,
        TokenType::RightBrace,
        TokenType::Assign,
        TokenType::Forward,
        TokenType::Pipe,
        TokenType::LogicOr,
        TokenType::LogicAnd,
        TokenType::Equal,
        TokenType::NotEqual,
        TokenType::GreaterThan,
        TokenType::GreaterThanOrEqual,
        TokenType::LessThan,
        TokenType::LessThanOrEqual,
        TokenType::Concat,
        TokenType::Plus,
        TokenType::Minus,
        TokenType::Asterisk,
        TokenType::Slash,
        TokenType::UnwrapOr,
        TokenType::Combine,
        TokenType::Cast,
        TokenType::Unwrap,
        TokenType::Dot,
        TokenType::LeftBracket,
        TokenType::RightBracket,
        TokenType::Arrow,
        TokenType::Exclamation,
        TokenType::LeftParen,
        TokenType::RightParen,
        TokenType::Hash,
        TokenType::Range,
        TokenType::Ellipsis,
        TokenType::Colon,
        TokenType::Comma,
        TokenType::Let,
        TokenType::Match,
        TokenType::If,
        TokenType::Then,
        TokenType::Else,
        TokenType::For,
        TokenType::Next,
        TokenType::In,
        TokenType::Branch,
        TokenType::Each,
        TokenType::Mix,
        TokenType::Which,
        TokenType::Where,
        TokenType::Only,
        TokenType::Within,
        TokenType::Into,
        TokenType::Regular,
        TokenType::Template,
        TokenType::To,
        TokenType::Namespace,
        TokenType::Use,
        TokenType::Function,
        TokenType::Const,
        TokenType::Enum,
        TokenType::Struct,
        TokenType::Union,
        TokenType::Trait,
        TokenType::Impl,
        TokenType::Alias,
    ];
    for kind in kinds {
        let printed = kind.print_form();
        let tokens = tokenize(&printed).unwrap();
        assert_eq!(tokens.len(), 1);
        assert_eq!(tokens[0].token_type, kind);
        assert_eq!(tokens[0].location.start, 0);
        assert_eq!(tokens[0].location.end, printed.chars().count());
    }
}
