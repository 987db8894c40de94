use tausch::text::contains_char;
use tausch::{Environment, TauschError, Variable, VariableValue};

#[test]
fn new_environment_binds_nothing() {
    let env = Environment::new();
    assert!(!env.contains_key(&"hello".to_string()));
    assert_eq!(env.get(&"hello".to_string()), None);
    assert_eq!(env.get(&"".to_string()), None);
}

#[test]
fn insert_binds_a_name() {
    let mut env = Environment::new();
    env.insert("hello".to_string(), VariableValue::Str("42".to_string()));
    env.insert("cond".to_string(), VariableValue::Bool(true));
    env.insert("nothing".to_string(), VariableValue::Empty);
    assert_eq!(env.get(&"hello".to_string()), Some(&VariableValue::Str("42".to_string())));
    assert_eq!(env.get(&"cond".to_string()), Some(&VariableValue::Bool(true)));
    assert_eq!(env.get(&"nothing".to_string()), Some(&VariableValue::Empty));
    assert!(env.contains_key(&"cond".to_string()));
    assert!(!env.contains_key(&"Cond".to_string()));
    assert_eq!(env.get(&"hell".to_string()), None);
}

#[test]
fn insert_replaces_an_earlier_value() {
    let mut env = Environment::new();
    env.insert("a".to_string(), VariableValue::Bool(true));
    env.insert("b".to_string(), VariableValue::Str("first".to_string()));
    env.insert("a".to_string(), VariableValue::Str("second".to_string()));
    assert_eq!(env.get(&"a".to_string()), Some(&VariableValue::Str("second".to_string())));
    assert_eq!(env.get(&"b".to_string()), Some(&VariableValue::Str("first".to_string())));
    env.insert("b".to_string(), VariableValue::Empty);
    assert_eq!(env.get(&"a".to_string()), Some(&VariableValue::Str("second".to_string())));
    assert_eq!(env.get(&"b".to_string()), Some(&VariableValue::Empty));
}

#[test]
fn value_clone_is_equal() {
    for value in [
        VariableValue::Bool(true),
        VariableValue::Bool(false),
        VariableValue::Str("42".to_string()),
        VariableValue::Str(String::new()),
        VariableValue::Empty,
    ] {
        assert_eq!(value.clone(), value);
    }
    assert_ne!(VariableValue::Str("true".to_string()), VariableValue::Bool(true));
    assert_ne!(VariableValue::Str(String::new()), VariableValue::Empty);
}

#[test]
fn variable_new_keeps_key_and_value() {
    let variable = Variable::new("hello".to_string(), 42);
    assert_eq!(variable.key, "hello");
    assert_eq!(variable.value, 42);
    let copy = variable.clone();
    assert_eq!(copy.key, "hello");
    assert_eq!(copy.value, 42);
    let flag = Variable::new("cond".to_string(), VariableValue::Bool(true));
    assert_eq!(flag.key, "cond");
    assert_eq!(flag.value, VariableValue::Bool(true));
}

#[test]
fn error_constructors_build_messages() {
    match TauschError::unknown_token('+') {
        TauschError::Tokenizer(message) => assert_eq!(message, "Unknown token: '+'"),
        TauschError::Parser(message) => panic!("parser error: {}", message),
    }
    match TauschError::parser("No tokens") {
        TauschError::Parser(message) => assert_eq!(message, "No tokens"),
        TauschError::Tokenizer(message) => panic!("tokenizer error: {}", message),
    }
    match TauschError::about_variable(&"x".to_string(), "' not found!") {
        TauschError::Parser(message) => assert_eq!(message, "Variable 'x' not found!"),
        TauschError::Tokenizer(message) => panic!("tokenizer error: {}", message),
    }
    assert_eq!(TauschError::unknown_token('\u{20ac}').message(), "Unknown token: '\u{20ac}'");
    assert_eq!(TauschError::parser("oops").message(), "oops");
}

#[test]
fn contains_char_finds_characters() {
    assert!(contains_char(&"if".to_string(), 'i'));
    assert!(contains_char(&"if".to_string(), 'f'));
    assert!(!contains_char(&"if".to_string(), 'x'));
    assert!(!contains_char(&String::new(), 'x'));
    assert!(contains_char(&"gr\u{f6}\u{df}e".to_string(), 'e'));
    assert!(contains_char(&"gr\u{f6}\u{df}e".to_string(), '\u{df}'));
}
