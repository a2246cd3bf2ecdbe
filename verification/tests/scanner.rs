use lox_vm::scanner::{characters, Scanner};
use lox_vm::token::{Message, Token, TokenType};

fn tokens_of(source: &str) -> Vec<Token> {
    let mut scanner = Scanner::new(source);
    let mut tokens = Vec::new();
    loop {
        let token = scanner.scan_token();
        tokens.push(token);
        if token.token_type == TokenType::EOF {
            return tokens;
        }
        assert!(tokens.len() <= source.chars().count() + 1);
    }
}

fn kinds_of(source: &str) -> Vec<TokenType> {
    tokens_of(source).iter().map(|token| token.token_type).collect()
}

fn token(token_type: TokenType, start: usize, length: usize, line: u64) -> Token {
    Token { token_type, start, length, line, message: None }
}

#[test]
fn characters_are_those_of_the_text() {
    assert_eq!(characters("a-é\0"), vec!['a', '-', 'é', '\0']);
    assert_eq!(characters(""), Vec::<char>::new());
}

#[test]
fn empty_source_is_end_of_input() {
    assert_eq!(tokens_of(""), vec![token(TokenType::EOF, 0, 0, 0)]);
    assert_eq!(tokens_of("\0"), vec![token(TokenType::EOF, 0, 0, 0)]);
}

#[test]
fn end_of_input_repeats() {
    let mut scanner = Scanner::new("1\0");
    assert_eq!(scanner.scan_token(), token(TokenType::NUMBER, 0, 1, 0));
    assert_eq!(scanner.scan_token(), token(TokenType::EOF, 1, 0, 0));
    assert_eq!(scanner.scan_token(), token(TokenType::EOF, 1, 0, 0));
}

#[test]
fn terminator_ends_input_wherever_it_stands() {
    assert_eq!(kinds_of("1\0 + 2"), vec![TokenType::NUMBER, TokenType::EOF]);
}

#[test]
fn source_without_terminator_is_read_to_its_end() {
    assert_eq!(
        tokens_of("12"),
        vec![token(TokenType::NUMBER, 0, 2, 0), token(TokenType::EOF, 2, 0, 0)]
    );
}

#[test]
fn single_character_punctuation() {
    assert_eq!(
        kinds_of("(){};,.-+/*%\0"),
        vec![
            TokenType::LEFT_PAREN,
            TokenType::RIGHT_PAREN,
            TokenType::LEFT_BRACE,
            TokenType::RIGHT_BRACE,
            TokenType::SEMICOLON,
            TokenType::COMMA,
            TokenType::DOT,
            TokenType::MINUS,
            TokenType::PLUS,
            TokenType::SLASH,
            TokenType::STAR,
            TokenType::MOD,
            TokenType::EOF,
        ]
    );
}

#[test]
fn operators_of_one_and_two_characters() {
    assert_eq!(
        tokens_of("! != = == < <= > >=\0"),
        vec![
            token(TokenType::BANG, 0, 1, 0),
            token(TokenType::BANG_EQUAL, 2, 2, 0),
            token(TokenType::EQUAL, 5, 1, 0),
            token(TokenType::EQUAL_EQUAL, 7, 2, 0),
            token(TokenType::LESS, 10, 1, 0),
            token(TokenType::LESS_EQUAL, 12, 2, 0),
            token(TokenType::GREATER, 15, 1, 0),
            token(TokenType::GREATER_EQUAL, 17, 2, 0),
            token(TokenType::EOF, 19, 0, 0),
        ]
    );
    assert_eq!(
        kinds_of("!==\0"),
        vec![TokenType::BANG_EQUAL, TokenType::EQUAL, TokenType::EOF]
    );
}

#[test]
fn runs_of_blanks_are_passed_over() {
    assert_eq!(
        tokens_of("   \t\r  1    +\t\t2   \0"),
        vec![
            token(TokenType::NUMBER, 7, 1, 0),
            token(TokenType::PLUS, 12, 1, 0),
            token(TokenType::NUMBER, 15, 1, 0),
            token(TokenType::EOF, 19, 0, 0),
        ]
    );
}

#[test]
fn newlines_count_lines() {
    assert_eq!(
        tokens_of("1\n\n+\n2\n\0"),
        vec![
            token(TokenType::NUMBER, 0, 1, 0),
            token(TokenType::PLUS, 3, 1, 2),
            token(TokenType::NUMBER, 5, 1, 3),
            token(TokenType::EOF, 7, 0, 4),
        ]
    );
}

#[test]
fn line_comments_are_passed_over() {
    assert_eq!(
        tokens_of("// one\n// two\n 7 // three\n// four\0"),
        vec![token(TokenType::NUMBER, 15, 1, 2), token(TokenType::EOF, 33, 0, 3)]
    );
    assert_eq!(kinds_of("1 / 2\0"), vec![
        TokenType::NUMBER,
        TokenType::SLASH,
        TokenType::NUMBER,
        TokenType::EOF
    ]);
    assert_eq!(kinds_of("/ /\0"), vec![TokenType::SLASH, TokenType::SLASH, TokenType::EOF]);
}

#[test]
fn numbers_with_and_without_fraction() {
    assert_eq!(
        tokens_of("12 3.25 4. .5\0"),
        vec![
            token(TokenType::NUMBER, 0, 2, 0),
            token(TokenType::NUMBER, 3, 4, 0),
            token(TokenType::NUMBER, 8, 1, 0),
            token(TokenType::DOT, 9, 1, 0),
            token(TokenType::DOT, 11, 1, 0),
            token(TokenType::NUMBER, 12, 1, 0),
            token(TokenType::EOF, 13, 0, 0),
        ]
    );
    assert_eq!(
        tokens_of("1.2.3\0"),
        vec![
            token(TokenType::NUMBER, 0, 3, 0),
            token(TokenType::DOT, 3, 1, 0),
            token(TokenType::NUMBER, 4, 1, 0),
            token(TokenType::EOF, 5, 0, 0),
        ]
    );
}

#[test]
fn strings_include_their_quotes() {
    assert_eq!(
        tokens_of("\"ab c\" \"\"\0"),
        vec![
            token(TokenType::STRING, 0, 6, 0),
            token(TokenType::STRING, 7, 2, 0),
            token(TokenType::EOF, 9, 0, 0),
        ]
    );
}

#[test]
fn string_over_lines_carries_its_first_line() {
    assert_eq!(
        tokens_of("\n\"a\nb\n\" 1\0"),
        vec![
            token(TokenType::STRING, 1, 6, 1),
            token(TokenType::NUMBER, 8, 1, 3),
            token(TokenType::EOF, 9, 0, 3),
        ]
    );
}

#[test]
fn unterminated_string_is_an_error_token() {
    assert_eq!(
        tokens_of("1 \"abc\n\0"),
        vec![
            token(TokenType::NUMBER, 0, 1, 0),
            Token {
                token_type: TokenType::ERROR,
                start: 2,
                length: 5,
                line: 0,
                message: Some(Message::UnterminatedString),
            },
            token(TokenType::EOF, 7, 0, 1),
        ]
    );
}

#[test]
fn unexpected_character_is_an_error_token() {
    assert_eq!(
        tokens_of("1 @ 2\0"),
        vec![
            token(TokenType::NUMBER, 0, 1, 0),
            Token {
                token_type: TokenType::ERROR,
                start: 2,
                length: 1,
                line: 0,
                message: Some(Message::UnexpectedCharacter),
            },
            token(TokenType::NUMBER, 4, 1, 0),
            token(TokenType::EOF, 5, 0, 0),
        ]
    );
    assert_eq!(kinds_of("#\0"), vec![TokenType::ERROR, TokenType::EOF]);
    assert_eq!(kinds_of("é\0"), vec![TokenType::ERROR, TokenType::EOF]);
}

#[test]
fn every_keyword_is_recognised() {
    assert_eq!(
        kinds_of("and class else false for fun if nil or print return super this true var while\0"),
        vec![
            TokenType::AND,
            TokenType::CLASS,
            TokenType::ELSE,
            TokenType::FALSE,
            TokenType::FOR,
            TokenType::FUN,
            TokenType::IF,
            TokenType::NIL,
            TokenType::OR,
            TokenType::PRINT,
            TokenType::RETURN,
            TokenType::SUPER,
            TokenType::THIS,
            TokenType::TRUE,
            TokenType::VAR,
            TokenType::WHILE,
            TokenType::EOF,
        ]
    );
}

#[test]
fn near_keywords_are_identifiers() {
    let source = "an andy clas classes f fa fals falsey fo fore fu funk i iff t th thi thiss tr tru truer va vary x _ _a whil a1\0";
    let kinds = kinds_of(source);
    assert_eq!(kinds.len(), 29);
    for kind in &kinds[..28] {
        assert_eq!(*kind, TokenType::IDENTIFIER);
    }
    assert_eq!(kinds[28], TokenType::EOF);
}

#[test]
fn identifiers_take_letters_and_digits() {
    assert_eq!(
        tokens_of("abc12 x_y é1\0"),
        vec![
            token(TokenType::IDENTIFIER, 0, 5, 0),
            token(TokenType::IDENTIFIER, 6, 1, 0),
            token(TokenType::IDENTIFIER, 7, 2, 0),
            Token {
                token_type: TokenType::ERROR,
                start: 10,
                length: 1,
                line: 0,
                message: Some(Message::UnexpectedCharacter),
            },
            token(TokenType::NUMBER, 11, 1, 0),
            token(TokenType::EOF, 12, 0, 0),
        ]
    );
    assert_eq!(tokens_of("aé9+\0")[0], token(TokenType::IDENTIFIER, 0, 3, 0));
}

#[test]
fn ascii_letters_and_digits_continue_an_identifier() {
    for code in 1..128u8 {
        let c = code as char;
        let source = format!("q{}\0", c);
        let first = tokens_of(&source)[0];
        assert_eq!(first.token_type, TokenType::IDENTIFIER);
        assert_eq!(first.start, 0);
        let continues = c.is_ascii_alphabetic() || c.is_ascii_digit();
        assert_eq!(first.length, if continues { 2 } else { 1 }, "{:?}", c);
    }
}

#[test]
fn no_token_covers_the_terminator() {
    let source = "ab\0cd \"x\0y\" 12\0";
    assert_eq!(
        tokens_of(source),
        vec![token(TokenType::IDENTIFIER, 0, 2, 0), token(TokenType::EOF, 2, 0, 0)]
    );
    assert_eq!(
        tokens_of("\"x\0y\""),
        vec![
            Token {
                token_type: TokenType::ERROR,
                start: 0,
                length: 2,
                line: 0,
                message: Some(Message::UnterminatedString),
            },
            token(TokenType::EOF, 2, 0, 0),
        ]
    );
    assert_eq!(
        tokens_of("12.\0"),
        vec![
            token(TokenType::NUMBER, 0, 2, 0),
            token(TokenType::DOT, 2, 1, 0),
            token(TokenType::EOF, 3, 0, 0),
        ]
    );
}

#[test]
fn keyword_after_blanks_is_recognised() {
    assert_eq!(
        tokens_of("  \n  while\0"),
        vec![token(TokenType::WHILE, 5, 5, 1), token(TokenType::EOF, 10, 0, 1)]
    );
}

#[test]
fn rescanning_gives_the_same_tokens() {
    let source = "(1 + 2.5) * -3 // done\n \"s\" @ while x1 <= != \"open\0";
    let first = tokens_of(source);
    let second = tokens_of(source);
    assert_eq!(first, second);
    assert_eq!(first.len(), 16);
    let copy = String::from(source);
    assert_eq!(tokens_of(&copy), first);
}

#[test]
fn token_type_slots_are_in_declaration_order() {
    assert_eq!(TokenType::LEFT_PAREN.index(), 0);
    assert_eq!(TokenType::MINUS.index(), 6);
    assert_eq!(TokenType::NUMBER.index(), 22);
    assert_eq!(TokenType::ERROR.index(), 39);
    assert_eq!(TokenType::EOF.index(), 40);
    assert_eq!(lox_vm::token::TOKEN_TYPE_COUNT, 41);
}

#[test]
fn messages_have_their_wording() {
    assert_eq!(Message::UnexpectedCharacter.text(), "Unexpected character");
    assert_eq!(Message::UnterminatedString.text(), "Unterminated string");
    assert_eq!(Message::ExpectedEndOfExpression.text(), "Expected end of expression");
    assert_eq!(Message::ExpectedRightParen.text(), "Expected ')' after expression");
    assert_eq!(Message::ExpectedExpression.text(), "Expected expression");
    assert_eq!(Message::InvalidNumber.text(), "Invalid number");
    assert_eq!(Message::TooManyConstants.text(), "Too many constants in one chunk");
}
