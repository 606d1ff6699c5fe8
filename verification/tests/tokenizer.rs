use coding_survivor::number::{Arithmetic, Number};
use coding_survivor::tokenizer::{
    get_prompt_tokens, resolve_identifier, resolve_string, resolve_two_chars_type, Characters,
    Literal, Token, TokenType, TokenizerError,
};

struct Floats;

impl Arithmetic for Floats {
    fn parse(&self, literal: &str) -> Number {
        Number { bits: literal.parse::<f64>().expect("a decimal literal").to_bits() }
    }

    fn add(&self, left: Number, right: Number) -> Number {
        Number { bits: (f64::from_bits(left.bits) + f64::from_bits(right.bits)).to_bits() }
    }

    fn subtract(&self, left: Number, right: Number) -> Number {
        Number { bits: (f64::from_bits(left.bits) - f64::from_bits(right.bits)).to_bits() }
    }

    fn multiply(&self, left: Number, right: Number) -> Number {
        Number { bits: (f64::from_bits(left.bits) * f64::from_bits(right.bits)).to_bits() }
    }

    fn divide(&self, left: Number, right: Number) -> Number {
        Number { bits: (f64::from_bits(left.bits) / f64::from_bits(right.bits)).to_bits() }
    }

    fn format(&self, value: Number) -> String {
        f64::from_bits(value.bits).to_string()
    }
}

fn number(value: f64) -> Number {
    Number { bits: value.to_bits() }
}

fn tokens_of(text: &str) -> Vec<Token> {
    get_prompt_tokens(text.to_string(), &Floats).expect("the text has tokens")
}

fn kinds(text: &str) -> Vec<TokenType> {
    tokens_of(text).iter().map(|token| token.token_type).collect()
}

fn scan_of(text: &str) -> Characters {
    Characters::new(text)
}

fn rest_of(characters: &Characters) -> String {
    characters.rest()
}

#[test]
fn one_plus_two_is_three_tokens_and_the_end() {
    let tokens = tokens_of("1+2");
    assert_eq!(
        tokens,
        vec![
            Token {
                token_type: TokenType::NUMBER,
                lexeme: "1".to_string(),
                literal: Some(Literal::Num(number(1.0))),
                line: 0
            },
            Token { token_type: TokenType::PLUS, lexeme: "+".to_string(), literal: None, line: 0 },
            Token {
                token_type: TokenType::NUMBER,
                lexeme: "2".to_string(),
                literal: Some(Literal::Num(number(2.0))),
                line: 0
            },
            Token { token_type: TokenType::EOF, lexeme: "".to_string(), literal: None, line: 0 },
        ]
    );
}

#[test]
fn unterminated_string_is_an_error() {
    let result = get_prompt_tokens("\"abc".to_string(), &Floats);
    assert_eq!(result, Err(TokenizerError::StringTokenScanError));
}

#[test]
fn unterminated_string_behind_good_tokens_gives_no_tokens() {
    let result = get_prompt_tokens("1 + \"abc".to_string(), &Floats);
    assert_eq!(result, Err(TokenizerError::StringTokenScanError));
}

#[test]
fn empty_text_is_the_end_of_input_alone() {
    assert_eq!(
        tokens_of(""),
        vec![Token { token_type: TokenType::EOF, lexeme: "".to_string(), literal: None, line: 0 }]
    );
}

#[test]
fn spaces_give_no_token() {
    assert_eq!(kinds("   "), vec![TokenType::EOF]);
    assert_eq!(kinds(" 1  +  2 "), kinds("1+2"));
}

#[test]
fn every_single_character_token_has_its_kind() {
    assert_eq!(
        kinds("(){},.-+;*/"),
        vec![
            TokenType::LEFT_PAREN,
            TokenType::RIGHT_PAREN,
            TokenType::LEFT_BRACE,
            TokenType::RIGHT_BRACE,
            TokenType::COMMA,
            TokenType::DOT,
            TokenType::MINUS,
            TokenType::PLUS,
            TokenType::SEMICOLON,
            TokenType::STAR,
            TokenType::SLASH,
            TokenType::EOF,
        ]
    );
}

#[test]
fn a_comparison_collapses_with_the_equals_sign_behind_it() {
    assert_eq!(
        kinds("! != = == < <= > >="),
        vec![
            TokenType::BANG,
            TokenType::BANG_EQUAL,
            TokenType::EQUAL,
            TokenType::EQUAL_EQUAL,
            TokenType::LESS,
            TokenType::LESS_EQUAL,
            TokenType::GREATER,
            TokenType::GREATER_EQUAL,
            TokenType::EOF,
        ]
    );
}

#[test]
fn a_two_character_operator_is_written_with_its_first_character() {
    let tokens = tokens_of("<=");
    assert_eq!(tokens.len(), 2);
    assert_eq!(tokens[0].token_type, TokenType::LESS_EQUAL);
    assert_eq!(tokens[0].lexeme, "<");
}

#[test]
fn three_equals_signs_are_a_pair_and_a_single() {
    assert_eq!(kinds("==="), vec![TokenType::EQUAL_EQUAL, TokenType::EQUAL, TokenType::EOF]);
}

#[test]
fn a_number_takes_its_digits_and_its_point() {
    let tokens = tokens_of("12.5+3.");
    assert_eq!(tokens[0].literal, Some(Literal::Num(number(12.5))));
    assert_eq!(tokens[0].lexeme, "1");
    assert_eq!(tokens[1].token_type, TokenType::PLUS);
    assert_eq!(tokens[2].literal, Some(Literal::Num(number(3.0))));
    assert_eq!(tokens.len(), 4);
}

#[test]
fn a_number_with_two_points_is_refused() {
    assert_eq!(
        get_prompt_tokens("1.2.3".to_string(), &Floats),
        Err(TokenizerError::TokenScanError)
    );
    assert_eq!(get_prompt_tokens("1..".to_string(), &Floats), Err(TokenizerError::TokenScanError));
}

#[test]
fn a_point_before_the_digits_is_a_token_of_its_own() {
    assert_eq!(kinds(".5"), vec![TokenType::DOT, TokenType::NUMBER, TokenType::EOF]);
}

#[test]
fn a_string_keeps_its_opening_quote_and_loses_its_closing_one() {
    let tokens = tokens_of("\"ab c\"");
    assert_eq!(tokens.len(), 2);
    assert_eq!(tokens[0].token_type, TokenType::STRING);
    assert_eq!(tokens[0].lexeme, "\"");
    assert_eq!(tokens[0].literal, Some(Literal::Str("\"ab c".to_string())));
}

#[test]
fn an_empty_string_is_its_opening_quote() {
    let tokens = tokens_of("\"\"");
    assert_eq!(tokens[0].literal, Some(Literal::Str("\"".to_string())));
    assert_eq!(tokens.len(), 2);
}

#[test]
fn every_keyword_is_an_identifier_of_its_kind() {
    let words = [
        ("and", TokenType::AND),
        ("class", TokenType::CLASS),
        ("else", TokenType::ELSE),
        ("false", TokenType::FALSE),
        ("fun", TokenType::FUN),
        ("for", TokenType::FOR),
        ("if", TokenType::IF),
        ("nil", TokenType::NIL),
        ("or", TokenType::OR),
        ("print", TokenType::PRINT),
        ("return", TokenType::RETURN),
        ("super", TokenType::SUPER),
        ("this", TokenType::THIS),
        ("true", TokenType::TRUE),
        ("var", TokenType::VAR),
        ("while", TokenType::WHILE),
    ];
    for (word, kind) in words {
        let tokens = tokens_of(word);
        assert_eq!(tokens.len(), 2, "{word}");
        assert_eq!(tokens[0].token_type, TokenType::IDENTIFIER, "{word}");
        assert_eq!(tokens[0].literal, Some(Literal::Identifier(kind)), "{word}");
        assert_eq!(tokens[0].lexeme, word[..1], "{word}");
    }
}

#[test]
fn a_word_that_is_no_keyword_is_a_label() {
    let tokens = tokens_of("moveDown");
    assert_eq!(
        tokens[0],
        Token {
            token_type: TokenType::LABEL,
            lexeme: "label".to_string(),
            literal: Some(Literal::Label("moveDown".to_string())),
            line: 0
        }
    );
    assert_eq!(tokens.len(), 2);
}

#[test]
fn a_keyword_with_more_letters_behind_it_is_a_label() {
    let tokens = tokens_of("truely");
    assert_eq!(tokens[0].token_type, TokenType::LABEL);
    assert_eq!(tokens[0].literal, Some(Literal::Label("truely".to_string())));
}

#[test]
fn a_label_ends_at_the_first_character_that_is_not_alphanumeric() {
    assert_eq!(
        kinds("moveUp()"),
        vec![TokenType::LABEL, TokenType::LEFT_PAREN, TokenType::RIGHT_PAREN, TokenType::EOF]
    );
    let tokens = tokens_of("abc1 def");
    assert_eq!(tokens[0].literal, Some(Literal::Label("abc1".to_string())));
    assert_eq!(tokens[1].literal, Some(Literal::Label("def".to_string())));
}

#[test]
fn letters_outside_ascii_make_words_too() {
    let tokens = tokens_of("\u{e9}t\u{e9}");
    assert_eq!(tokens[0].literal, Some(Literal::Label("\u{e9}t\u{e9}".to_string())));
}

#[test]
fn digits_first_make_a_number_then_a_label() {
    let tokens = tokens_of("12ab");
    assert_eq!(tokens[0].literal, Some(Literal::Num(number(12.0))));
    assert_eq!(tokens[1].literal, Some(Literal::Label("ab".to_string())));
}

#[test]
fn a_character_of_no_token_is_an_error() {
    for text in ["#", "1 + $", "a_b", "\t", "[", "'a'", "1\n2"] {
        assert_eq!(
            get_prompt_tokens(text.to_string(), &Floats),
            Err(TokenizerError::TokenScanError),
            "{text:?}"
        );
    }
}

#[test]
fn the_first_error_wins() {
    assert_eq!(
        get_prompt_tokens("# \"abc".to_string(), &Floats),
        Err(TokenizerError::TokenScanError)
    );
    assert_eq!(
        get_prompt_tokens("\"abc #".to_string(), &Floats),
        Err(TokenizerError::StringTokenScanError)
    );
}

#[test]
fn two_chars_type_takes_the_equals_sign_only_where_it_collapses() {
    let mut characters = scan_of("=1");
    assert_eq!(resolve_two_chars_type(TokenType::BANG, &mut characters), TokenType::BANG_EQUAL);
    assert_eq!(rest_of(&characters), "1");

    let mut characters = scan_of("1=");
    assert_eq!(resolve_two_chars_type(TokenType::LESS, &mut characters), TokenType::LESS);
    assert_eq!(rest_of(&characters), "1=");

    let mut characters = scan_of("");
    assert_eq!(resolve_two_chars_type(TokenType::GREATER, &mut characters), TokenType::GREATER);

    let mut characters = scan_of("=");
    assert_eq!(resolve_two_chars_type(TokenType::PLUS, &mut characters), TokenType::PLUS);
    assert_eq!(rest_of(&characters), "=");
}

#[test]
fn resolve_string_stops_behind_the_closing_quote() {
    let mut characters = scan_of("abc\" rest");
    assert_eq!(resolve_string('"', &mut characters), Ok("\"abc".to_string()));
    assert_eq!(rest_of(&characters), " rest");

    let mut characters = scan_of("abc");
    assert_eq!(resolve_string('"', &mut characters), Err(TokenizerError::StringTokenScanError));
}

#[test]
fn resolve_identifier_takes_a_keyword_and_leaves_any_other_word() {
    let mut characters = scan_of("rue+1");
    assert_eq!(resolve_identifier('t', &mut characters), Ok(TokenType::TRUE));
    assert_eq!(rest_of(&characters), "+1");

    let mut characters = scan_of("ruth+1");
    assert_eq!(resolve_identifier('t', &mut characters), Err(TokenizerError::IdentifierMissmatch));
    assert_eq!(rest_of(&characters), "ruth+1");
}

#[test]
fn the_scan_hands_its_characters_out_one_by_one() {
    let mut characters = scan_of("ab");
    assert_eq!(characters.peek(), Some('a'));
    assert_eq!(characters.next(), Some('a'));
    assert_eq!(characters.rest(), "b");
    assert_eq!(characters.next(), Some('b'));
    assert_eq!(characters.peek(), None);
    assert_eq!(characters.next(), None);
    assert_eq!(characters.rest(), "");
}

#[test]
fn the_scan_looks_ahead_without_taking() {
    let mut characters = scan_of("abcd");
    assert_eq!(characters.peek_at(0), Some('a'));
    assert_eq!(characters.peek_at(3), Some('d'));
    assert_eq!(characters.peek_at(4), None);
    assert_eq!(characters.rest(), "abcd");
    characters.advance(2);
    assert_eq!(characters.rest(), "cd");
    assert_eq!(characters.peek_at(1), Some('d'));
    assert_eq!(characters.peek_at(2), None);
    characters.advance(0);
    characters.advance(2);
    assert_eq!(characters.rest(), "");
    let mut characters = scan_of("abc");
    characters.advance(7);
    assert_eq!(characters.rest(), "");
    assert_eq!(characters.next(), None);
}
