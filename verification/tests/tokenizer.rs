use tausch::{TauschError, Token, TokenType, Tokenizer};

fn tok(typ: TokenType, label: &str) -> Token {
    Token { typ, label: label.to_string() }
}

fn tokens(line: &str) -> Vec<Token> {
    Tokenizer::new().tokenize(line.to_string()).expect("the line has only known characters")
}

fn tokenizer_message(line: &str) -> String {
    match Tokenizer::new().tokenize(line.to_string()) {
        Err(TauschError::Tokenizer(message)) => message,
        Err(TauschError::Parser(message)) => panic!("parser error: {}", message),
        Ok(found) => panic!("{} tokens", found.len()),
    }
}

#[test]
fn empty_line_has_no_tokens() {
    assert_eq!(tokens("").len(), 0);
}

#[test]
fn white_space_alone_has_no_tokens() {
    assert_eq!(tokens(" ").len(), 0);
    assert_eq!(tokens("   \t \n\r\n ").len(), 0);
    assert_eq!(tokens("\u{a0}\u{2003}").len(), 0);
}

#[test]
fn unknown_character_fails() {
    assert_eq!(tokenizer_message("a+b"), "Unknown token: '+'");
}

#[test]
fn first_unknown_character_is_reported() {
    assert_eq!(tokenizer_message("a b-c+d"), "Unknown token: '-'");
    assert_eq!(tokenizer_message("  $x + y"), "Unknown token: '$'");
    assert_eq!(tokenizer_message("if cond ; hello?"), "Unknown token: '?'");
}

#[test]
fn unknown_character_discards_earlier_tokens() {
    assert!(matches!(
        Tokenizer::new().tokenize("hello world (".to_string()),
        Err(TauschError::Tokenizer(_))
    ));
}

#[test]
fn reserved_prefix_is_part_of_a_name() {
    assert_eq!(tokens("ifx"), vec![tok(TokenType::Variable, "ifx")]);
    assert_eq!(tokens("xif"), vec![tok(TokenType::Variable, "xif")]);
    assert_eq!(tokens("iff"), vec![tok(TokenType::Variable, "iff")]);
}

#[test]
fn reserved_words_are_recognized() {
    assert_eq!(
        tokens("if ; : !"),
        vec![
            tok(TokenType::IfStart, "if"),
            tok(TokenType::IfEnd, ";"),
            tok(TokenType::IfElse, ":"),
            tok(TokenType::IfNegate, "!"),
        ]
    );
}

#[test]
fn single_reserved_word() {
    assert_eq!(tokens("if"), vec![tok(TokenType::IfStart, "if")]);
    assert_eq!(tokens(";"), vec![tok(TokenType::IfEnd, ";")]);
    assert_eq!(tokens(":"), vec![tok(TokenType::IfElse, ":")]);
    assert_eq!(tokens("!"), vec![tok(TokenType::IfNegate, "!")]);
}

#[test]
fn conditional_line_tokens() {
    assert_eq!(
        tokens("if ncond ; hello : world"),
        vec![
            tok(TokenType::IfStart, "if"),
            tok(TokenType::Variable, "ncond"),
            tok(TokenType::IfEnd, ";"),
            tok(TokenType::Variable, "hello"),
            tok(TokenType::IfElse, ":"),
            tok(TokenType::Variable, "world"),
        ]
    );
}

#[test]
fn tokens_keep_the_order_of_the_line() {
    assert_eq!(
        tokens("c b a b"),
        vec![
            tok(TokenType::Variable, "c"),
            tok(TokenType::Variable, "b"),
            tok(TokenType::Variable, "a"),
            tok(TokenType::Variable, "b"),
        ]
    );
}

#[test]
fn reserved_characters_inside_a_run_make_a_name() {
    assert_eq!(tokens("cond;hello"), vec![tok(TokenType::Variable, "cond;hello")]);
    assert_eq!(tokens("a!b"), vec![tok(TokenType::Variable, "a!b")]);
    assert_eq!(tokens("!cond"), vec![tok(TokenType::Variable, "!cond")]);
    assert_eq!(tokens(";;"), vec![tok(TokenType::Variable, ";;")]);
    assert_eq!(tokens("if;"), vec![tok(TokenType::Variable, "if;")]);
}

#[test]
fn any_white_space_separates() {
    assert_eq!(
        tokens("\tif\ncond\r\n;   hello\n"),
        vec![
            tok(TokenType::IfStart, "if"),
            tok(TokenType::Variable, "cond"),
            tok(TokenType::IfEnd, ";"),
            tok(TokenType::Variable, "hello"),
        ]
    );
}

#[test]
fn names_hold_letters_digits_and_underscores() {
    assert_eq!(tokens("_a1_B2"), vec![tok(TokenType::Variable, "_a1_B2")]);
    assert_eq!(tokens("42"), vec![tok(TokenType::Variable, "42")]);
    assert_eq!(
        tokens("gr\u{f6}\u{df}e \u{4eac}"),
        vec![tok(TokenType::Variable, "gr\u{f6}\u{df}e"), tok(TokenType::Variable, "\u{4eac}")]
    );
}

#[test]
fn variable_labels_are_never_empty() {
    for line in ["a", " a ", "if a ; b : c", "a  b", "!! ;; ::"] {
        for token in tokens(line) {
            assert!(!token.label.is_empty());
        }
    }
}

#[test]
fn character_classes() {
    let tokenizer = Tokenizer::new();
    for c in ['a', 'Z', '0', '9', '_', '\u{e9}'] {
        assert!(tokenizer.is_allowed_var_name(c));
        assert!(tokenizer.is_allowed_token(c));
    }
    for c in [';', ':', '!'] {
        assert!(!tokenizer.is_allowed_var_name(c));
        assert!(tokenizer.is_allowed_token(c));
    }
    for c in [' ', '\n', '+', '-', '(', '?', '\'', '"', '.'] {
        assert!(!tokenizer.is_allowed_var_name(c));
        assert!(!tokenizer.is_allowed_token(c));
    }
}

#[test]
fn classification_of_words() {
    let tokenizer = Tokenizer::new();
    assert_eq!(tokenizer.classify(&"if".to_string()), tok(TokenType::IfStart, "if"));
    assert_eq!(tokenizer.classify(&";".to_string()), tok(TokenType::IfEnd, ";"));
    assert_eq!(tokenizer.classify(&":".to_string()), tok(TokenType::IfElse, ":"));
    assert_eq!(tokenizer.classify(&"!".to_string()), tok(TokenType::IfNegate, "!"));
    assert_eq!(tokenizer.classify(&"If".to_string()), tok(TokenType::Variable, "If"));
    assert_eq!(tokenizer.classify(&"hello".to_string()), tok(TokenType::Variable, "hello"));
}

#[test]
fn token_equality_is_structural() {
    assert_eq!(tok(TokenType::Variable, "a"), tok(TokenType::Variable, "a"));
    assert_ne!(tok(TokenType::Variable, "a"), tok(TokenType::Variable, "b"));
    assert_ne!(tok(TokenType::Variable, "if"), tok(TokenType::IfStart, "if"));
    assert_eq!(tok(TokenType::IfEnd, ";").clone(), tok(TokenType::IfEnd, ";"));
    assert_eq!(TokenType::IfElse, TokenType::IfElse);
    assert_ne!(TokenType::IfElse, TokenType::IfEnd);
}

#[test]
fn token_type_names() {
    assert_eq!(TokenType::Variable.name(), "Variable");
    assert_eq!(TokenType::IfStart.name(), "IfStart");
    assert_eq!(TokenType::IfNegate.name(), "IfNegate");
    assert_eq!(TokenType::IfEnd.name(), "IfEnd");
    assert_eq!(TokenType::IfElse.name(), "IfElse");
}

#[test]
fn tokenizing_is_repeatable() {
    let tokenizer = Tokenizer::new();
    let first = tokenizer.tokenize("if a ; b".to_string()).expect("known characters");
    let second = tokenizer.tokenize("if a ; b".to_string()).expect("known characters");
    assert_eq!(first, second);
}
