use prmt::{parse, Token};

#[test]
fn test_simple_text() {
    let tokens = parse("Hello, World!");
    assert_eq!(tokens, vec![Token::Text(String::from("Hello, World!"))]);
}

#[test]
fn test_simple_placeholder() {
    let tokens = parse("{path}");
    assert_eq!(tokens.len(), 1);
    if let Token::Placeholder(params) = &tokens[0] {
        assert_eq!(params.module, "path");
        assert_eq!(params.style, "");
        assert_eq!(params.format, "");
        assert_eq!(params.prefix, "");
        assert_eq!(params.suffix, "");
    } else {
        panic!("Expected placeholder");
    }
}

#[test]
fn test_placeholder_with_all_fields() {
    let tokens = parse("{path:cyan:short:[:]}");
    assert_eq!(tokens.len(), 1);
    if let Token::Placeholder(params) = &tokens[0] {
        assert_eq!(params.module, "path");
        assert_eq!(params.style, "cyan");
        assert_eq!(params.format, "short");
        assert_eq!(params.prefix, "[");
        assert_eq!(params.suffix, "]");
    } else {
        panic!("Expected placeholder");
    }
}

#[test]
fn test_escaped_colon_in_field() {
    let tokens = parse("{module:style:format:pre\\:fix:suffix}");
    if let Token::Placeholder(params) = &tokens[0] {
        assert_eq!(params.prefix, "pre:fix");
    } else {
        panic!("Expected placeholder");
    }
}

#[test]
fn test_escaped_braces_in_text() {
    let tokens = parse("\\{not a placeholder\\}");
    assert_eq!(
        tokens,
        vec![
            Token::Text(String::from("{")),
            Token::Text(String::from("not a placeholder")),
            Token::Text(String::from("}")),
        ]
    );
}

#[test]
fn parser_test_escape_sequences() {
    let tokens = parse("Line1\\nLine2\\tTabbed");
    assert_eq!(
        tokens,
        vec![
            Token::Text(String::from("Line1")),
            Token::Text(String::from("\n")),
            Token::Text(String::from("Line2")),
            Token::Text(String::from("\t")),
            Token::Text(String::from("Tabbed")),
        ]
    );
}

#[test]
fn parser_test_unclosed_placeholder() {
    let tokens = parse("{unclosed");
    // The parser should treat unclosed placeholders as text
    let combined: String = tokens
        .iter()
        .map(|t| match t {
            Token::Text(s) => s.as_str(),
            _ => panic!("Expected text token"),
        })
        .collect();
    assert_eq!(combined, "{unclosed");
}

#[test]
fn parser_test_empty_fields() {
    let tokens = parse("{module::::}");
    if let Token::Placeholder(params) = &tokens[0] {
        assert_eq!(params.module, "module");
        assert_eq!(params.style, "");
        assert_eq!(params.format, "");
        assert_eq!(params.prefix, "");
        assert_eq!(params.suffix, "");
    } else {
        panic!("Expected placeholder");
    }
}

#[test]
fn test_mixed_content() {
    let tokens = parse("Hello {user:yellow}, welcome to {path:cyan:short}!");
    assert_eq!(tokens.len(), 5);
    assert!(matches!(tokens[0], Token::Text(_)));
    assert!(matches!(tokens[1], Token::Placeholder(_)));
    assert!(matches!(tokens[2], Token::Text(_)));
    assert!(matches!(tokens[3], Token::Placeholder(_)));
    assert!(matches!(tokens[4], Token::Text(_)));
}
