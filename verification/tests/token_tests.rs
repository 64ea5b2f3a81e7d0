use minilex::token::Location;
use minilex::token::Token;
use minilex::token::TokenType;

#[test]
fn test_location_display() {
    let ca1 = Location {
        file_id: 1,
        start: 2,
        end: 3,
    };

    assert_eq!(ca1.display_string(), "file id: 1, start: 2, end: 3");
}

#[test]
fn test_location_eq() {
    let ca1 = Location {
        file_id: 1,
        start: 2,
        end: 3,
    };
    let ca2 = Location {
        file_id: 2,
        start: 2,
        end: 3,
    };
    let ca3 = Location {
        file_id: 1,
        start: 2,
        end: 3,
    };

    assert_ne!(ca1, ca2);
    assert_eq!(ca1, ca3);
}

#[test]
fn test_token_type_display() {
    let tt1 = TokenType::Identifier("foo".to_string());
    let tt2 = TokenType::If;

    assert_eq!(tt1.print_form(), "foo");
    assert_eq!(tt2.print_form(), "if");
}

#[test]
fn test_token_type_eq() {
    let tt1 = TokenType::Identifier("foo".to_string());
    let tt2 = TokenType::String("foo".to_string());
    let tt3 = TokenType::Identifier("foo".to_string());

    assert_ne!(tt1, tt2);
    assert_eq!(tt1, tt3);

    assert_ne!(TokenType::Let, TokenType::For);
    assert_eq!(TokenType::Let, TokenType::Let);
}

#[test]
fn test_token_display() {
    let tk1 = Token {
        location: Location {
            file_id: 1,
            start: 2,
            end: 3,
        },
        token_type: TokenType::Plus,
    };

    let tk2 = Token {
        location: Location {
            file_id: 1,
            start: 2,
            end: 3,
        },
        token_type: TokenType::Minus,
    };

    assert_eq!(tk1.display_string(), "file id: 1, start: 2, end: 3 - +");
    assert_ne!(tk1, tk2);
}

#[test]
fn test_display_numbers() {
    let zero = Location {
        file_id: 0,
        start: 0,
        end: 0,
    };
    assert_eq!(zero.display_string(), "file id: 0, start: 0, end: 0");

    let wide = Location {
        file_id: 10,
        start: 1234567890,
        end: 18446744073709551615,
    };
    assert_eq!(
        wide.display_string(),
        "file id: 10, start: 1234567890, end: 18446744073709551615"
    );
}

#[test]
fn test_literal_print_forms() {
    assert_eq!(TokenType::NewLine.print_form(), "\n");
    assert_eq!(TokenType::Integer(42).print_form(), "42");
    assert_eq!(TokenType::Integer(-7).print_form(), "-7");
    assert_eq!(TokenType::Integer(-9223372036854775808).print_form(), "-9223372036854775808");
    assert_eq!(TokenType::Boolean(true).print_form(), "true");
    assert_eq!(TokenType::Boolean(false).print_form(), "false");
    assert_eq!(TokenType::Char('q').print_form(), "q");
    assert_eq!(TokenType::String("hi there".to_string()).print_form(), "hi there");
    assert_eq!(TokenType::TemplateString("a{b}".to_string()).print_form(), "a{b}");
    assert_eq!(TokenType::HashString("tag".to_string()).print_form(), "tag");
    assert_eq!(TokenType::Regexp("[a-z]+".to_string()).print_form(), "[a-z]+");
    assert_eq!(TokenType::NamedOperator("zip".to_string()).print_form(), "zip");
}
