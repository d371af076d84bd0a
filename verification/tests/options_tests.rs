use hey_chat_gpt::{OptError, OptToken, parse_options};

#[test]
fn parses_all_options() {
    let tokens = vec![
        OptToken::Key("model".to_string()),
        OptToken::Eq,
        OptToken::Str("o1-preview".to_string()),
        OptToken::Semi,
        OptToken::Key("seed".to_string()),
        OptToken::Eq,
        OptToken::Int(20),
        OptToken::Semi,
        OptToken::Key("max_completion_tokens".to_string()),
        OptToken::Eq,
        OptToken::Int(4096),
        OptToken::Semi,
        OptToken::Str("a prompt".to_string()),
    ];
    let opts = parse_options(&tokens).unwrap();
    assert_eq!(opts.model, Some("o1-preview".to_string()));
    assert_eq!(opts.seed, Some(20));
    assert_eq!(opts.max_completion_tokens, Some(4096));
    assert_eq!(opts.prompt, Some("a prompt".to_string()));
}

#[test]
fn empty_token_list_gives_empty_options() {
    let opts = parse_options(&Vec::new()).unwrap();
    assert_eq!(opts.model, None);
    assert_eq!(opts.seed, None);
    assert_eq!(opts.max_completion_tokens, None);
    assert_eq!(opts.prompt, None);
}

#[test]
fn comma_separators_are_accepted() {
    let tokens = vec![
        OptToken::Key("seed".to_string()),
        OptToken::Eq,
        OptToken::Int(1),
        OptToken::Comma,
        OptToken::Key("seed".to_string()),
        OptToken::Eq,
        OptToken::Int(2),
    ];
    let opts = parse_options(&tokens).unwrap();
    assert_eq!(opts.seed, Some(2));
}

#[test]
fn unknown_key_is_an_error() {
    let tokens = vec![
        OptToken::Key("temperature".to_string()),
        OptToken::Eq,
        OptToken::Int(1),
    ];
    assert_eq!(parse_options(&tokens), Err(OptError::UnknownKey));
}

#[test]
fn missing_eq_is_an_error() {
    let tokens = vec![OptToken::Key("seed".to_string()), OptToken::Int(1)];
    assert_eq!(parse_options(&tokens), Err(OptError::ExpectedEq));
}

#[test]
fn wrong_value_type_is_an_error() {
    let tokens = vec![
        OptToken::Key("model".to_string()),
        OptToken::Eq,
        OptToken::Int(1),
    ];
    assert_eq!(parse_options(&tokens), Err(OptError::ExpectedStringValue));
    let tokens = vec![
        OptToken::Key("seed".to_string()),
        OptToken::Eq,
        OptToken::Str("x".to_string()),
    ];
    assert_eq!(parse_options(&tokens), Err(OptError::ExpectedIntValue));
}

#[test]
fn leading_separator_is_an_error() {
    let tokens = vec![OptToken::Comma];
    assert_eq!(parse_options(&tokens), Err(OptError::UnexpectedToken));
}
