use ray_rs::builder::RayParser;
use ray_rs::error::{ErrorKind, TokenizationError};

#[test]
fn error_construction_test() {
    let e = TokenizationError::new("something went wrong".to_string());
    assert_eq!(e.kind, ErrorKind::Other);
    assert_eq!(e.offset, 0);
    assert_eq!(e.description(), "something went wrong");
}

#[test]
fn numeric_range_error_test() {
    // Two nested scales by a 38-digit factor: each literal fits an i128,
    // but their exact product cannot, so composing the transforms reports
    // a range error instead of wrapping.
    let big = "99999999999999999999999999999999999999";
    let input = format!(
        "SBT-raytracer 1.0\nscale({}, scale({}, sphere {{ }}));",
        big, big
    );
    let err = RayParser::parse_scene(&input).unwrap_err();
    assert_eq!(err.kind, ErrorKind::NumericRange);
}

#[test]
fn oversized_literal_error_test() {
    // A numeric literal that cannot fit an i128 at all is a lexical error.
    let input = "SBT-raytracer 1.0\nscale(999999999999999999999999999999999999999, sphere { });";
    let err = RayParser::parse_scene(input).unwrap_err();
    assert_eq!(err.kind, ErrorKind::Lexical);
}
