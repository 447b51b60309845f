use ray_rs::lexer::RayTokenizer;
use ray_rs::rat::Rat;
use ray_rs::token::Token;

static KEYWORD_SAMPLE: &'static str = "camera point_light";
static WHITESPACE_SAMPLE: &'static str = " \t\t\n\r";
static NUMBERS_SAMPLE: &'static str = "-10 500.00001 -0.0 9";
static PUNCTUATION_SAMPLE: &'static str = ",;(){}";

static CAMERA_SAMPLE: &'static str = "camera {
	position = (4,0,0);
	viewdir = (-1,0,0);
	aspectratio = 1;
	updir = (0,1,0);
}";

fn lex(input: &str) -> Result<Vec<Token>, ray_rs::error::TokenizationError> {
    let mut tokenizer = RayTokenizer::new(input);
    tokenizer.tokenize()
}

#[test]
fn keyword_tokenize_test() {
    let tokens = lex(KEYWORD_SAMPLE);
    let expected = [Token::Camera, Token::PointLight];
    assert!(tokens.unwrap().eq(&expected));
}

#[test]
fn whitespace_tokenize_test() {
    let tokens = lex(WHITESPACE_SAMPLE);
    assert_eq!(tokens.unwrap().len(), 0);
}

#[test]
fn number_tokenize_test() {
    let tokens = lex(NUMBERS_SAMPLE);
    // -0.0 lexes to the exact fraction 0/10; the other literals are exact.
    let expected = [
        Token::Scalar(Rat { num: -10, den: 1 }),
        Token::Scalar(Rat { num: 50000001, den: 100000 }),
        Token::Scalar(Rat { num: 0, den: 10 }),
        Token::Scalar(Rat { num: 9, den: 1 }),
    ];
    assert!(tokens.unwrap().iter().eq(expected.iter()));
}

#[test]
fn punctuation_tokenize_test() {
    let tokens = lex(PUNCTUATION_SAMPLE);
    let expected = [
        Token::Comma,
        Token::Semicolon,
        Token::LParen,
        Token::RParen,
        Token::LBrace,
        Token::RBrace,
    ];
    println!("{:?}", tokens);
    println!("{:?}", expected.iter());
    assert!(tokens.unwrap().iter().eq(expected.iter()));
}

#[test]
fn camera_parse_test() {
    // Field names are keywords of the language, and a minus sign fuses onto
    // the numeric literal that follows it.
    let tokens = lex(CAMERA_SAMPLE);
    let expected = [
        Token::Camera,
        Token::LBrace,
        Token::Position,
        Token::Equals,
        Token::LParen,
        Token::Scalar(Rat { num: 4, den: 1 }),
        Token::Comma,
        Token::Scalar(Rat { num: 0, den: 1 }),
        Token::Comma,
        Token::Scalar(Rat { num: 0, den: 1 }),
        Token::RParen,
        Token::Semicolon,
        Token::Viewdir,
        Token::Equals,
        Token::LParen,
        Token::Scalar(Rat { num: -1, den: 1 }),
        Token::Comma,
        Token::Scalar(Rat { num: 0, den: 1 }),
        Token::Comma,
        Token::Scalar(Rat { num: 0, den: 1 }),
        Token::RParen,
        Token::Semicolon,
        Token::Aspectratio,
        Token::Equals,
        Token::Scalar(Rat { num: 1, den: 1 }),
        Token::Semicolon,
        Token::Updir,
        Token::Equals,
        Token::LParen,
        Token::Scalar(Rat { num: 0, den: 1 }),
        Token::Comma,
        Token::Scalar(Rat { num: 1, den: 1 }),
        Token::Comma,
        Token::Scalar(Rat { num: 0, den: 1 }),
        Token::RParen,
        Token::Semicolon,
        Token::RBrace,
    ];
    assert!(tokens.unwrap().iter().eq(expected.iter()));
}

#[test]
fn string_literal_test() {
    let tokens = lex("name = 'teapot';").unwrap();
    let quoted: Vec<char> = "'teapot'".chars().collect();
    assert_eq!(
        tokens,
        vec![Token::Name, Token::Equals, Token::StrLit(quoted), Token::Semicolon]
    );
}

#[test]
fn comment_invisibility_test() {
    // Inserting whitespace, line comments and block comments between tokens
    // never changes the token sequence.
    let plain = lex("SBT-raytracer 1.0 sphere {}").unwrap();
    let commented = lex(
        "SBT-raytracer /* header */ 1.0 // trailing comment\n   sphere /* gap */ {\t}",
    )
    .unwrap();
    assert_eq!(plain, commented);
}

#[test]
fn colour_spelling_test() {
    let tokens = lex("color colour").unwrap();
    assert_eq!(tokens, vec![Token::Color, Token::Color]);
}

#[test]
fn keyword_not_identifier_test() {
    // The round-trip examples: "-10" lexes to the scalar -10, "camera" to
    // the camera keyword and not to an identifier.
    assert_eq!(lex("-10").unwrap(), vec![Token::Scalar(Rat { num: -10, den: 1 })]);
    assert_eq!(lex("camera").unwrap(), vec![Token::Camera]);
    let ident: Vec<char> = "cameras".chars().collect();
    assert_eq!(lex("cameras").unwrap(), vec![Token::Ident(ident)]);
}

#[test]
fn lexical_error_offset_test() {
    let err = lex("sphere @").unwrap_err();
    assert_eq!(err.kind, ray_rs::error::ErrorKind::Lexical);
    assert_eq!(err.offset, 7);
}

#[test]
fn unterminated_string_test() {
    let err = lex("name = 'oops").unwrap_err();
    assert_eq!(err.kind, ray_rs::error::ErrorKind::Lexical);
}

#[test]
fn unterminated_block_comment_test() {
    let err = lex("sphere /* no end").unwrap_err();
    assert_eq!(err.kind, ray_rs::error::ErrorKind::Lexical);
}

#[test]
fn dot_leading_number_test() {
    assert_eq!(lex(".5").unwrap(), vec![Token::Scalar(Rat { num: 5, den: 10 })]);
    assert_eq!(lex("-.5").unwrap(), vec![Token::Scalar(Rat { num: -5, den: 10 })]);
}

#[test]
fn lone_minus_test() {
    assert_eq!(lex("-").unwrap(), vec![Token::Minus]);
}
