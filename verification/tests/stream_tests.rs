use ray_rs::rat::Rat;
use ray_rs::stream::TokenStream;
use ray_rs::token::Token;

#[test]
fn peekable_read_test() {
    let tokens = vec![Token::Camera, Token::LBrace, Token::RBrace];
    let mut peekable = TokenStream::new(tokens);

    // attempt to read expected tokens
    let camera = peekable.read(&Token::Camera).unwrap();
    assert_eq!(camera, Token::Camera);
    let left_brace = peekable.read(&Token::LBrace).unwrap();
    assert_eq!(left_brace, Token::LBrace);
    let right_brace = peekable.read(&Token::RBrace).unwrap();
    assert_eq!(right_brace, Token::RBrace);
}

#[test]
fn peekable_read_value_test() {
    let foo_chars: Vec<char> = "foo".chars().collect();
    let bar_chars: Vec<char> = "bar".chars().collect();
    let tokens = vec![
        Token::Ident(foo_chars.clone()),
        Token::StrLit(bar_chars.clone()),
        Token::Scalar(Rat { num: 845, den: 1 }),
    ];
    let mut peekable = TokenStream::new(tokens);
    let underscore: Vec<char> = "_".chars().collect();
    let foo = peekable.read(&Token::Ident(underscore.clone())).unwrap();
    assert_eq!(foo, Token::Ident(foo_chars));
    let bar = peekable.read(&Token::StrLit(underscore)).unwrap();
    assert_eq!(bar, Token::StrLit(bar_chars));
    let baz = peekable.read(&Token::Scalar(Rat { num: 0, den: 1 })).unwrap();
    assert_eq!(baz, Token::Scalar(Rat { num: 845, den: 1 }));
}

#[test]
#[should_panic]
fn peekable_failed_read_test() {
    let tokens = vec![Token::Camera];
    let mut peekable = TokenStream::new(tokens);

    // do one fault read, this should panic on unwrap
    peekable.read(&Token::SbtRaytracer).unwrap();
}

#[test]
fn read_discipline_test() {
    // read consumes exactly one token on success and none on failure;
    // conditional_read consumes one exactly when it answers true; peek
    // never advances.
    let tokens = vec![Token::Camera, Token::LBrace];
    let mut s = TokenStream::new(tokens);
    assert_eq!(s.remaining(), 2);

    assert!(matches!(s.peek(), Some(Token::Camera)));
    assert!(matches!(s.peek(), Some(Token::Camera)));
    assert_eq!(s.remaining(), 2);

    assert!(s.read(&Token::LBrace).is_err());
    assert_eq!(s.remaining(), 2);

    assert!(!s.conditional_read(&Token::LBrace));
    assert_eq!(s.remaining(), 2);

    assert!(s.conditional_read(&Token::Camera));
    assert_eq!(s.remaining(), 1);

    assert!(s.read(&Token::LBrace).is_ok());
    assert_eq!(s.remaining(), 0);

    assert!(s.peek().is_none());
    let err = s.read(&Token::LBrace).unwrap_err();
    assert_eq!(err.kind, ray_rs::error::ErrorKind::Syntax);
}

#[test]
fn variant_identity_test() {
    // Payload-bearing variants match by variant alone; payload-free
    // variants by full identity.
    let a = Token::Scalar(Rat { num: 1, den: 2 });
    let b = Token::Scalar(Rat { num: 7, den: 1 });
    assert!(ray_rs::token::token_discriminant_equal(&a, &b));
    assert!(!ray_rs::token::token_discriminant_equal(&a, &Token::Camera));
    assert!(ray_rs::token::token_discriminant_equal(&Token::Comma, &Token::Comma));
}
