//! The general laws of the front end, stated and machine-checked once.
//!
//! Lexer round-trip: re-lexing the canonical text of any keyword or
//! punctuation token, of a bareword, of an integer literal or of a string
//! literal yields back exactly that one token. Transform composition: a
//! doubly-nested transform node's matrix is exactly the ambient matrix
//! times the first local matrix times the second, and every node's stored
//! inverse multiplies back to the identity. Group transparency: the members
//! of a bare group are well-formed under the group's own ambient node.

use vstd::prelude::*;

use crate::lexer::{
    digits_value, is_alpha_char, is_digit_char, is_ident_char, is_ws_char, lex_from,
    scan_digits, scan_ident_end, scan_str_end, skip_trivia, LexOut, NextTok, next_token_spec,
    scan_number, TriviaMode,
};
use crate::matrix::{entv, mat_wf, mul_entry, mul_ok, prod_is_identity, Mat};
use crate::rat::pair_eqv;
use crate::scene::{
    elem_wf, node_same, node_wf, TransformableElement, TransformNode,
};
use crate::token::{fixed_token_text, keyword_or_ident, TokenV};

verus! {

/// A run of bareword characters extends to the end of the input.
proof fn lemma_scan_ident_full(s: Seq<char>, i: int)
    requires
        0 <= i <= s.len(),
        forall|k: int| i <= k < s.len() ==> is_ident_char(#[trigger] s[k]),
    ensures
        scan_ident_end(s, i) == s.len(),
    decreases s.len() - i,
{
    if i < s.len() {
        lemma_scan_ident_full(s, i + 1);
    }
}

/// A run of digits extends to the end of the input.
proof fn lemma_scan_digits_full(s: Seq<char>, i: int)
    requires
        0 <= i <= s.len(),
        forall|k: int| i <= k < s.len() ==> is_digit_char(#[trigger] s[k]),
    ensures
        scan_digits(s, i) == s.len(),
    decreases s.len() - i,
{
    if i < s.len() {
        lemma_scan_digits_full(s, i + 1);
    }
}

/// Lexing a bareword alone yields exactly its keyword token, or an
/// identifier carrying the text when it is no keyword.
pub proof fn lemma_lex_bareword(s: Seq<char>)
    requires
        s.len() > 0,
        is_alpha_char(s[0]),
        forall|i: int| 0 <= i < s.len() ==> is_ident_char(#[trigger] s[i]),
    ensures
        lex_from(s, 0) == LexOut::Toks(seq![keyword_or_ident(s)]),
{
    assert(skip_trivia(s, 0, TriviaMode::Normal) == Some(0int));
    lemma_scan_ident_full(s, 0);
    assert(s.subrange(0, s.len() as int) =~= s);
    assert(next_token_spec(s, 0) == NextTok::Tok(keyword_or_ident(s), s.len() as int));
    assert(skip_trivia(s, s.len() as int, TriviaMode::Normal) == Some(s.len() as int));
    assert(next_token_spec(s, s.len() as int) == NextTok::Done);
    assert(lex_from(s, s.len() as int) == LexOut::Toks(Seq::<TokenV>::empty()));
    assert(seq![keyword_or_ident(s)] + Seq::<TokenV>::empty() =~= seq![keyword_or_ident(s)]);
}

/// The token a lone punctuation character lexes to.
pub open spec fn punct_token_of(c: char) -> Option<TokenV> {
    if c == ';' {
        Some(TokenV::Semicolon)
    } else if c == ',' {
        Some(TokenV::Comma)
    } else if c == '{' {
        Some(TokenV::LBrace)
    } else if c == '}' {
        Some(TokenV::RBrace)
    } else if c == '(' {
        Some(TokenV::LParen)
    } else if c == ')' {
        Some(TokenV::RParen)
    } else if c == '=' {
        Some(TokenV::Equals)
    } else if c == '-' {
        Some(TokenV::Minus)
    } else {
        None
    }
}

/// Lexing a lone punctuation character yields exactly its token.
pub proof fn lemma_lex_punct(s: Seq<char>)
    requires
        s.len() == 1,
        punct_token_of(s[0]) is Some,
    ensures
        lex_from(s, 0) == LexOut::Toks(seq![punct_token_of(s[0]).unwrap()]),
{
    let t = punct_token_of(s[0]).unwrap();
    assert(skip_trivia(s, 0, TriviaMode::Normal) == Some(0int));
    assert(next_token_spec(s, 0) == NextTok::Tok(t, 1int));
    assert(skip_trivia(s, 1, TriviaMode::Normal) == Some(1int));
    assert(next_token_spec(s, 1) == NextTok::Done);
    assert(lex_from(s, 1) == LexOut::Toks(Seq::<TokenV>::empty()));
    assert(seq![t] + Seq::<TokenV>::empty() =~= seq![t]);
}

/// Lexing an unsigned integer literal alone yields exactly one scalar
/// token carrying its value over the denominator one.
pub proof fn lemma_lex_integer(s: Seq<char>)
    requires
        s.len() > 0,
        forall|i: int| 0 <= i < s.len() ==> is_digit_char(#[trigger] s[i]),
        digits_value(s, 0, s.len() as int) <= i128::MAX,
    ensures
        lex_from(s, 0) == LexOut::Toks(
            seq![TokenV::Scalar(digits_value(s, 0, s.len() as int), 1)],
        ),
{
    let t = TokenV::Scalar(digits_value(s, 0, s.len() as int), 1);
    assert(skip_trivia(s, 0, TriviaMode::Normal) == Some(0int));
    lemma_scan_digits_full(s, 0);
    assert(scan_number(s, 0, 0, false) == NextTok::Tok(t, s.len() as int));
    assert(next_token_spec(s, 0) == NextTok::Tok(t, s.len() as int));
    assert(skip_trivia(s, s.len() as int, TriviaMode::Normal) == Some(s.len() as int));
    assert(next_token_spec(s, s.len() as int) == NextTok::Done);
    assert(lex_from(s, s.len() as int) == LexOut::Toks(Seq::<TokenV>::empty()));
    assert(seq![t] + Seq::<TokenV>::empty() =~= seq![t]);
}

/// Lexing a minus sign fused onto an integer literal yields exactly one
/// scalar token carrying the negated value: unary minus is part of the
/// number, not a standalone token, whenever a digit follows.
pub proof fn lemma_lex_negative_integer(s: Seq<char>)
    requires
        s.len() >= 2,
        s[0] == '-',
        forall|i: int| 1 <= i < s.len() ==> is_digit_char(#[trigger] s[i]),
        digits_value(s, 1, s.len() as int) <= i128::MAX,
    ensures
        lex_from(s, 0) == LexOut::Toks(
            seq![TokenV::Scalar(-digits_value(s, 1, s.len() as int), 1)],
        ),
{
    let t = TokenV::Scalar(-digits_value(s, 1, s.len() as int), 1);
    assert(skip_trivia(s, 0, TriviaMode::Normal) == Some(0int));
    lemma_scan_digits_full(s, 1);
    assert(is_digit_char(s[1]));
    assert(scan_number(s, 0, 1, true) == NextTok::Tok(t, s.len() as int));
    assert(next_token_spec(s, 0) == NextTok::Tok(t, s.len() as int));
    assert(skip_trivia(s, s.len() as int, TriviaMode::Normal) == Some(s.len() as int));
    assert(next_token_spec(s, s.len() as int) == NextTok::Done);
    assert(lex_from(s, s.len() as int) == LexOut::Toks(Seq::<TokenV>::empty()));
    assert(seq![t] + Seq::<TokenV>::empty() =~= seq![t]);
}

/// A run of digits ends exactly at `e`, the first non-digit position.
proof fn lemma_scan_digits_until(s: Seq<char>, i: int, e: int)
    requires
        0 <= i <= e <= s.len(),
        forall|k: int| i <= k < e ==> is_digit_char(#[trigger] s[k]),
        e == s.len() || !is_digit_char(s[e]),
    ensures
        scan_digits(s, i) == e,
    decreases e - i,
{
    if i < e {
        lemma_scan_digits_until(s, i + 1, e);
    }
}

/// Lexing a decimal literal alone — digits, one decimal point, digits, with
/// at least one digit in all — yields exactly one scalar token carrying the
/// exact fraction: the joined digits over ten to the number of fraction
/// digits.
pub proof fn lemma_lex_decimal(s: Seq<char>, dot: int)
    requires
        0 <= dot < s.len(),
        s[dot] == '.',
        forall|k: int| 0 <= k < dot ==> is_digit_char(#[trigger] s[k]),
        forall|k: int| dot < k < s.len() ==> is_digit_char(#[trigger] s[k]),
        dot > 0 || dot + 1 < s.len(),
        crate::lexer::pow10((s.len() - dot - 1) as nat) <= i128::MAX,
        digits_value(s, 0, dot) * crate::lexer::pow10((s.len() - dot - 1) as nat) + digits_value(
            s,
            dot + 1,
            s.len() as int,
        ) <= i128::MAX,
    ensures
        lex_from(s, 0) == LexOut::Toks(
            seq![
                TokenV::Scalar(
                    digits_value(s, 0, dot) * crate::lexer::pow10((s.len() - dot - 1) as nat)
                        + digits_value(s, dot + 1, s.len() as int),
                    crate::lexer::pow10((s.len() - dot - 1) as nat),
                ),
            ],
        ),
{
    let fl = (s.len() - dot - 1) as nat;
    let mant = digits_value(s, 0, dot) * crate::lexer::pow10(fl) + digits_value(
        s,
        dot + 1,
        s.len() as int,
    );
    let t = TokenV::Scalar(mant, crate::lexer::pow10(fl));
    assert(skip_trivia(s, 0, TriviaMode::Normal) == Some(0int));
    lemma_scan_digits_until(s, 0, dot);
    lemma_scan_digits_until(s, dot + 1, s.len() as int);
    crate::lexer::lemma_digits_value_nonneg(s, 0, dot);
    crate::lexer::lemma_digits_value_nonneg(s, dot + 1, s.len() as int);
    crate::lexer::lemma_pow10_pos(fl);
    assert(digits_value(s, 0, dot) * crate::lexer::pow10(fl) >= 0) by (nonlinear_arith)
        requires
            digits_value(s, 0, dot) >= 0,
            crate::lexer::pow10(fl) >= 1,
    ;
    assert(scan_number(s, 0, 0, false) == NextTok::Tok(t, s.len() as int));
    assert(next_token_spec(s, 0) == NextTok::Tok(t, s.len() as int));
    assert(skip_trivia(s, s.len() as int, TriviaMode::Normal) == Some(s.len() as int));
    assert(next_token_spec(s, s.len() as int) == NextTok::Done);
    assert(lex_from(s, s.len() as int) == LexOut::Toks(Seq::<TokenV>::empty()));
    assert(seq![t] + Seq::<TokenV>::empty() =~= seq![t]);
}

/// Lexing a complete quoted string literal alone yields exactly one string
/// token carrying the full lexeme, quotes included.
pub proof fn lemma_lex_strlit(s: Seq<char>)
    requires
        s.len() >= 2,
        s[0] == '\'',
        scan_str_end(s, 1) == Some(s.len() as int),
    ensures
        lex_from(s, 0) == LexOut::Toks(seq![TokenV::StrLit(s)]),
{
    let t = TokenV::StrLit(s);
    assert(skip_trivia(s, 0, TriviaMode::Normal) == Some(0int));
    assert(s.subrange(0, s.len() as int) =~= s);
    assert(next_token_spec(s, 0) == NextTok::Tok(t, s.len() as int));
    assert(skip_trivia(s, s.len() as int, TriviaMode::Normal) == Some(s.len() as int));
    assert(next_token_spec(s, s.len() as int) == NextTok::Done);
    assert(lex_from(s, s.len() as int) == LexOut::Toks(Seq::<TokenV>::empty()));
    assert(seq![t] + Seq::<TokenV>::empty() =~= seq![t]);
}

/// Round-trip for one span of the keyword table.
#[verifier::rlimit(100)]
proof fn lemma_keyword_round_trip_0(t: TokenV)
    requires
        t is SbtRaytracer || t is Camera || t is PointLight || t is DirectionalLight || t is AmbientLight || t is Sphere || t is Box || t is Square,
    ensures
        fixed_token_text(t) is Some,
        lex_from(fixed_token_text(t).unwrap(), 0) == LexOut::Toks(seq![t]),
{
    reveal_strlit("SBT-raytracer");
    reveal_strlit("camera");
    reveal_strlit("point_light");
    reveal_strlit("directional_light");
    reveal_strlit("ambient_light");
    reveal_strlit("sphere");
    reveal_strlit("box");
    reveal_strlit("square");
    match t {
        TokenV::SbtRaytracer => {
            let s = "SBT-raytracer"@;
            assert forall|i: int| 0 <= i < s.len() implies is_ident_char(
                #[trigger] s[i],
            ) by {}
            lemma_lex_bareword(s);
            assert(keyword_or_ident(s) == TokenV::SbtRaytracer);
        },
        TokenV::Camera => {
            let s = "camera"@;
            assert forall|i: int| 0 <= i < s.len() implies is_ident_char(
                #[trigger] s[i],
            ) by {}
            lemma_lex_bareword(s);
            assert(keyword_or_ident(s) == TokenV::Camera);
        },
        TokenV::PointLight => {
            let s = "point_light"@;
            assert forall|i: int| 0 <= i < s.len() implies is_ident_char(
                #[trigger] s[i],
            ) by {}
            lemma_lex_bareword(s);
            assert(keyword_or_ident(s) == TokenV::PointLight);
        },
        TokenV::DirectionalLight => {
            let s = "directional_light"@;
            assert forall|i: int| 0 <= i < s.len() implies is_ident_char(
                #[trigger] s[i],
            ) by {}
            lemma_lex_bareword(s);
            assert(keyword_or_ident(s) == TokenV::DirectionalLight);
        },
        TokenV::AmbientLight => {
            let s = "ambient_light"@;
            assert forall|i: int| 0 <= i < s.len() implies is_ident_char(
                #[trigger] s[i],
            ) by {}
            lemma_lex_bareword(s);
            assert(s != "SBT-raytracer"@) by {
                assert(s[0] != "SBT-raytracer"@[0]);
            }
            assert(keyword_or_ident(s) == TokenV::AmbientLight);
        },
        TokenV::Sphere => {
            let s = "sphere"@;
            assert forall|i: int| 0 <= i < s.len() implies is_ident_char(
                #[trigger] s[i],
            ) by {}
            lemma_lex_bareword(s);
            assert(s != "camera"@) by {
                assert(s[0] != "camera"@[0]);
            }
            assert(keyword_or_ident(s) == TokenV::Sphere);
        },
        TokenV::Box => {
            let s = "box"@;
            assert forall|i: int| 0 <= i < s.len() implies is_ident_char(
                #[trigger] s[i],
            ) by {}
            lemma_lex_bareword(s);
            assert(keyword_or_ident(s) == TokenV::Box);
        },
        TokenV::Square => {
            let s = "square"@;
            assert forall|i: int| 0 <= i < s.len() implies is_ident_char(
                #[trigger] s[i],
            ) by {}
            lemma_lex_bareword(s);
            assert(s != "camera"@) by {
                assert(s[0] != "camera"@[0]);
            }
            assert(s != "sphere"@) by {
                assert(s[1] != "sphere"@[1]);
            }
            assert(keyword_or_ident(s) == TokenV::Square);
        },
        _ => {},
    }
}

/// Round-trip for one span of the keyword table.
#[verifier::rlimit(100)]
proof fn lemma_keyword_round_trip_1(t: TokenV)
    requires
        t is Cylinder || t is Cone || t is Trimesh || t is Translate || t is Rotate || t is Scale || t is Transform || t is Material,
    ensures
        fixed_token_text(t) is Some,
        lex_from(fixed_token_text(t).unwrap(), 0) == LexOut::Toks(seq![t]),
{
    reveal_strlit("SBT-raytracer");
    reveal_strlit("camera");
    reveal_strlit("point_light");
    reveal_strlit("directional_light");
    reveal_strlit("ambient_light");
    reveal_strlit("sphere");
    reveal_strlit("box");
    reveal_strlit("square");
    reveal_strlit("cylinder");
    reveal_strlit("cone");
    reveal_strlit("trimesh");
    reveal_strlit("translate");
    reveal_strlit("rotate");
    reveal_strlit("scale");
    reveal_strlit("transform");
    reveal_strlit("material");
    match t {
        TokenV::Cylinder => {
            let s = "cylinder"@;
            assert forall|i: int| 0 <= i < s.len() implies is_ident_char(
                #[trigger] s[i],
            ) by {}
            lemma_lex_bareword(s);
            assert(keyword_or_ident(s) == TokenV::Cylinder);
        },
        TokenV::Cone => {
            let s = "cone"@;
            assert forall|i: int| 0 <= i < s.len() implies is_ident_char(
                #[trigger] s[i],
            ) by {}
            lemma_lex_bareword(s);
            assert(keyword_or_ident(s) == TokenV::Cone);
        },
        TokenV::Trimesh => {
            let s = "trimesh"@;
            assert forall|i: int| 0 <= i < s.len() implies is_ident_char(
                #[trigger] s[i],
            ) by {}
            lemma_lex_bareword(s);
            assert(keyword_or_ident(s) == TokenV::Trimesh);
        },
        TokenV::Translate => {
            let s = "translate"@;
            assert forall|i: int| 0 <= i < s.len() implies is_ident_char(
                #[trigger] s[i],
            ) by {}
            lemma_lex_bareword(s);
            assert(keyword_or_ident(s) == TokenV::Translate);
        },
        TokenV::Rotate => {
            let s = "rotate"@;
            assert forall|i: int| 0 <= i < s.len() implies is_ident_char(
                #[trigger] s[i],
            ) by {}
            lemma_lex_bareword(s);
            assert(s != "camera"@) by {
                assert(s[0] != "camera"@[0]);
            }
            assert(s != "sphere"@) by {
                assert(s[0] != "sphere"@[0]);
            }
            assert(s != "square"@) by {
                assert(s[0] != "square"@[0]);
            }
            assert(keyword_or_ident(s) == TokenV::Rotate);
        },
        TokenV::Scale => {
            let s = "scale"@;
            assert forall|i: int| 0 <= i < s.len() implies is_ident_char(
                #[trigger] s[i],
            ) by {}
            lemma_lex_bareword(s);
            assert(keyword_or_ident(s) == TokenV::Scale);
        },
        TokenV::Transform => {
            let s = "transform"@;
            assert forall|i: int| 0 <= i < s.len() implies is_ident_char(
                #[trigger] s[i],
            ) by {}
            lemma_lex_bareword(s);
            assert(s != "translate"@) by {
                assert(s[5] != "translate"@[5]);
            }
            assert(keyword_or_ident(s) == TokenV::Transform);
        },
        TokenV::Material => {
            let s = "material"@;
            assert forall|i: int| 0 <= i < s.len() implies is_ident_char(
                #[trigger] s[i],
            ) by {}
            lemma_lex_bareword(s);
            assert(s != "cylinder"@) by {
                assert(s[0] != "cylinder"@[0]);
            }
            assert(keyword_or_ident(s) == TokenV::Material);
        },
        _ => {},
    }
}

/// Round-trip for one span of the keyword table.
#[verifier::rlimit(100)]
proof fn lemma_keyword_round_trip_2(t: TokenV)
    requires
        t is Symtrue || t is Symfalse || t is Position || t is Viewdir || t is Updir || t is Aspectratio || t is Fov || t is Color,
    ensures
        fixed_token_text(t) is Some,
        lex_from(fixed_token_text(t).unwrap(), 0) == LexOut::Toks(seq![t]),
{
    reveal_strlit("SBT-raytracer");
    reveal_strlit("camera");
    reveal_strlit("point_light");
    reveal_strlit("directional_light");
    reveal_strlit("ambient_light");
    reveal_strlit("sphere");
    reveal_strlit("box");
    reveal_strlit("square");
    reveal_strlit("cylinder");
    reveal_strlit("cone");
    reveal_strlit("trimesh");
    reveal_strlit("translate");
    reveal_strlit("rotate");
    reveal_strlit("scale");
    reveal_strlit("transform");
    reveal_strlit("material");
    reveal_strlit("true");
    reveal_strlit("false");
    reveal_strlit("position");
    reveal_strlit("viewdir");
    reveal_strlit("updir");
    reveal_strlit("aspectratio");
    reveal_strlit("fov");
    reveal_strlit("color");
    match t {
        TokenV::Symtrue => {
            let s = "true"@;
            assert forall|i: int| 0 <= i < s.len() implies is_ident_char(
                #[trigger] s[i],
            ) by {}
            lemma_lex_bareword(s);
            assert(s != "cone"@) by {
                assert(s[0] != "cone"@[0]);
            }
            assert(keyword_or_ident(s) == TokenV::Symtrue);
        },
        TokenV::Symfalse => {
            let s = "false"@;
            assert forall|i: int| 0 <= i < s.len() implies is_ident_char(
                #[trigger] s[i],
            ) by {}
            lemma_lex_bareword(s);
            assert(s != "scale"@) by {
                assert(s[0] != "scale"@[0]);
            }
            assert(keyword_or_ident(s) == TokenV::Symfalse);
        },
        TokenV::Position => {
            let s = "position"@;
            assert forall|i: int| 0 <= i < s.len() implies is_ident_char(
                #[trigger] s[i],
            ) by {}
            lemma_lex_bareword(s);
            assert(s != "cylinder"@) by {
                assert(s[0] != "cylinder"@[0]);
            }
            assert(s != "material"@) by {
                assert(s[0] != "material"@[0]);
            }
            assert(keyword_or_ident(s) == TokenV::Position);
        },
        TokenV::Viewdir => {
            let s = "viewdir"@;
            assert forall|i: int| 0 <= i < s.len() implies is_ident_char(
                #[trigger] s[i],
            ) by {}
            lemma_lex_bareword(s);
            assert(s != "trimesh"@) by {
                assert(s[0] != "trimesh"@[0]);
            }
            assert(keyword_or_ident(s) == TokenV::Viewdir);
        },
        TokenV::Updir => {
            let s = "updir"@;
            assert forall|i: int| 0 <= i < s.len() implies is_ident_char(
                #[trigger] s[i],
            ) by {}
            lemma_lex_bareword(s);
            assert(s != "scale"@) by {
                assert(s[0] != "scale"@[0]);
            }
            assert(s != "false"@) by {
                assert(s[0] != "false"@[0]);
            }
            assert(keyword_or_ident(s) == TokenV::Updir);
        },
        TokenV::Aspectratio => {
            let s = "aspectratio"@;
            assert forall|i: int| 0 <= i < s.len() implies is_ident_char(
                #[trigger] s[i],
            ) by {}
            lemma_lex_bareword(s);
            assert(s != "point_light"@) by {
                assert(s[0] != "point_light"@[0]);
            }
            assert(keyword_or_ident(s) == TokenV::Aspectratio);
        },
        TokenV::Fov => {
            let s = "fov"@;
            assert forall|i: int| 0 <= i < s.len() implies is_ident_char(
                #[trigger] s[i],
            ) by {}
            lemma_lex_bareword(s);
            assert(s != "box"@) by {
                assert(s[0] != "box"@[0]);
            }
            assert(keyword_or_ident(s) == TokenV::Fov);
        },
        TokenV::Color => {
            let s = "color"@;
            assert forall|i: int| 0 <= i < s.len() implies is_ident_char(
                #[trigger] s[i],
            ) by {}
            lemma_lex_bareword(s);
            assert(s != "scale"@) by {
                assert(s[0] != "scale"@[0]);
            }
            assert(s != "false"@) by {
                assert(s[0] != "false"@[0]);
            }
            assert(s != "updir"@) by {
                assert(s[0] != "updir"@[0]);
            }
            assert(keyword_or_ident(s) == TokenV::Color);
        },
        _ => {},
    }
}

/// Round-trip for one span of the keyword table.
#[verifier::rlimit(100)]
proof fn lemma_keyword_round_trip_3(t: TokenV)
    requires
        t is Direction || t is Capped || t is Height || t is BottomRadius || t is TopRadius || t is ConstantAttenuationCoeff || t is LinearAttenuationCoeff || t is QuadraticAttenuationCoeff,
    ensures
        fixed_token_text(t) is Some,
        lex_from(fixed_token_text(t).unwrap(), 0) == LexOut::Toks(seq![t]),
{
    reveal_strlit("SBT-raytracer");
    reveal_strlit("camera");
    reveal_strlit("point_light");
    reveal_strlit("directional_light");
    reveal_strlit("ambient_light");
    reveal_strlit("sphere");
    reveal_strlit("box");
    reveal_strlit("square");
    reveal_strlit("cylinder");
    reveal_strlit("cone");
    reveal_strlit("trimesh");
    reveal_strlit("translate");
    reveal_strlit("rotate");
    reveal_strlit("scale");
    reveal_strlit("transform");
    reveal_strlit("material");
    reveal_strlit("true");
    reveal_strlit("false");
    reveal_strlit("position");
    reveal_strlit("viewdir");
    reveal_strlit("updir");
    reveal_strlit("aspectratio");
    reveal_strlit("fov");
    reveal_strlit("color");
    reveal_strlit("direction");
    reveal_strlit("capped");
    reveal_strlit("height");
    reveal_strlit("bottom_radius");
    reveal_strlit("top_radius");
    reveal_strlit("constant_attenuation_coeff");
    reveal_strlit("linear_attenuation_coeff");
    reveal_strlit("quadratic_attenuation_coeff");
    match t {
        TokenV::Direction => {
            let s = "direction"@;
            assert forall|i: int| 0 <= i < s.len() implies is_ident_char(
                #[trigger] s[i],
            ) by {}
            lemma_lex_bareword(s);
            assert(s != "translate"@) by {
                assert(s[0] != "translate"@[0]);
            }
            assert(s != "transform"@) by {
                assert(s[0] != "transform"@[0]);
            }
            assert(keyword_or_ident(s) == TokenV::Direction);
        },
        TokenV::Capped => {
            let s = "capped"@;
            assert forall|i: int| 0 <= i < s.len() implies is_ident_char(
                #[trigger] s[i],
            ) by {}
            lemma_lex_bareword(s);
            assert(s != "camera"@) by {
                assert(s[2] != "camera"@[2]);
            }
            assert(s != "sphere"@) by {
                assert(s[0] != "sphere"@[0]);
            }
            assert(s != "square"@) by {
                assert(s[0] != "square"@[0]);
            }
            assert(s != "rotate"@) by {
                assert(s[0] != "rotate"@[0]);
            }
            assert(keyword_or_ident(s) == TokenV::Capped);
        },
        TokenV::Height => {
            let s = "height"@;
            assert forall|i: int| 0 <= i < s.len() implies is_ident_char(
                #[trigger] s[i],
            ) by {}
            lemma_lex_bareword(s);
            assert(s != "camera"@) by {
                assert(s[0] != "camera"@[0]);
            }
            assert(s != "sphere"@) by {
                assert(s[0] != "sphere"@[0]);
            }
            assert(s != "square"@) by {
                assert(s[0] != "square"@[0]);
            }
            assert(s != "rotate"@) by {
                assert(s[0] != "rotate"@[0]);
            }
            assert(s != "capped"@) by {
                assert(s[0] != "capped"@[0]);
            }
            assert(keyword_or_ident(s) == TokenV::Height);
        },
        TokenV::BottomRadius => {
            let s = "bottom_radius"@;
            assert forall|i: int| 0 <= i < s.len() implies is_ident_char(
                #[trigger] s[i],
            ) by {}
            lemma_lex_bareword(s);
            assert(s != "SBT-raytracer"@) by {
                assert(s[0] != "SBT-raytracer"@[0]);
            }
            assert(s != "ambient_light"@) by {
                assert(s[0] != "ambient_light"@[0]);
            }
            assert(keyword_or_ident(s) == TokenV::BottomRadius);
        },
        TokenV::TopRadius => {
            let s = "top_radius"@;
            assert forall|i: int| 0 <= i < s.len() implies is_ident_char(
                #[trigger] s[i],
            ) by {}
            lemma_lex_bareword(s);
            assert(keyword_or_ident(s) == TokenV::TopRadius);
        },
        TokenV::ConstantAttenuationCoeff => {
            let s = "constant_attenuation_coeff"@;
            assert forall|i: int| 0 <= i < s.len() implies is_ident_char(
                #[trigger] s[i],
            ) by {}
            lemma_lex_bareword(s);
            assert(keyword_or_ident(s) == TokenV::ConstantAttenuationCoeff);
        },
        TokenV::LinearAttenuationCoeff => {
            let s = "linear_attenuation_coeff"@;
            assert forall|i: int| 0 <= i < s.len() implies is_ident_char(
                #[trigger] s[i],
            ) by {}
            lemma_lex_bareword(s);
            assert(keyword_or_ident(s) == TokenV::LinearAttenuationCoeff);
        },
        TokenV::QuadraticAttenuationCoeff => {
            let s = "quadratic_attenuation_coeff"@;
            assert forall|i: int| 0 <= i < s.len() implies is_ident_char(
                #[trigger] s[i],
            ) by {}
            lemma_lex_bareword(s);
            assert(keyword_or_ident(s) == TokenV::QuadraticAttenuationCoeff);
        },
        _ => {},
    }
}

/// Round-trip for one span of the keyword table.
#[verifier::rlimit(100)]
proof fn lemma_keyword_round_trip_4(t: TokenV)
    requires
        t is Name || t is Emissive || t is Ambient || t is Specular || t is Reflective || t is Diffuse || t is Transmissive || t is Shininess,
    ensures
        fixed_token_text(t) is Some,
        lex_from(fixed_token_text(t).unwrap(), 0) == LexOut::Toks(seq![t]),
{
    reveal_strlit("SBT-raytracer");
    reveal_strlit("camera");
    reveal_strlit("point_light");
    reveal_strlit("directional_light");
    reveal_strlit("ambient_light");
    reveal_strlit("sphere");
    reveal_strlit("box");
    reveal_strlit("square");
    reveal_strlit("cylinder");
    reveal_strlit("cone");
    reveal_strlit("trimesh");
    reveal_strlit("translate");
    reveal_strlit("rotate");
    reveal_strlit("scale");
    reveal_strlit("transform");
    reveal_strlit("material");
    reveal_strlit("true");
    reveal_strlit("false");
    reveal_strlit("position");
    reveal_strlit("viewdir");
    reveal_strlit("updir");
    reveal_strlit("aspectratio");
    reveal_strlit("fov");
    reveal_strlit("color");
    reveal_strlit("direction");
    reveal_strlit("capped");
    reveal_strlit("height");
    reveal_strlit("bottom_radius");
    reveal_strlit("top_radius");
    reveal_strlit("constant_attenuation_coeff");
    reveal_strlit("linear_attenuation_coeff");
    reveal_strlit("quadratic_attenuation_coeff");
    reveal_strlit("name");
    reveal_strlit("emissive");
    reveal_strlit("ambient");
    reveal_strlit("specular");
    reveal_strlit("reflective");
    reveal_strlit("diffuse");
    reveal_strlit("transmissive");
    reveal_strlit("shininess");
    match t {
        TokenV::Name => {
            let s = "name"@;
            assert forall|i: int| 0 <= i < s.len() implies is_ident_char(
                #[trigger] s[i],
            ) by {}
            lemma_lex_bareword(s);
            assert(s != "cone"@) by {
                assert(s[0] != "cone"@[0]);
            }
            assert(s != "true"@) by {
                assert(s[0] != "true"@[0]);
            }
            assert(keyword_or_ident(s) == TokenV::Name);
        },
        TokenV::Emissive => {
            let s = "emissive"@;
            assert forall|i: int| 0 <= i < s.len() implies is_ident_char(
                #[trigger] s[i],
            ) by {}
            lemma_lex_bareword(s);
            assert(s != "cylinder"@) by {
                assert(s[0] != "cylinder"@[0]);
            }
            assert(s != "material"@) by {
                assert(s[0] != "material"@[0]);
            }
            assert(s != "position"@) by {
                assert(s[0] != "position"@[0]);
            }
            assert(keyword_or_ident(s) == TokenV::Emissive);
        },
        TokenV::Ambient => {
            let s = "ambient"@;
            assert forall|i: int| 0 <= i < s.len() implies is_ident_char(
                #[trigger] s[i],
            ) by {}
            lemma_lex_bareword(s);
            assert(s != "trimesh"@) by {
                assert(s[0] != "trimesh"@[0]);
            }
            assert(s != "viewdir"@) by {
                assert(s[0] != "viewdir"@[0]);
            }
            assert(keyword_or_ident(s) == TokenV::Ambient);
        },
        TokenV::Specular => {
            let s = "specular"@;
            assert forall|i: int| 0 <= i < s.len() implies is_ident_char(
                #[trigger] s[i],
            ) by {}
            lemma_lex_bareword(s);
            assert(s != "cylinder"@) by {
                assert(s[0] != "cylinder"@[0]);
            }
            assert(s != "material"@) by {
                assert(s[0] != "material"@[0]);
            }
            assert(s != "position"@) by {
                assert(s[0] != "position"@[0]);
            }
            assert(s != "emissive"@) by {
                assert(s[0] != "emissive"@[0]);
            }
            assert(keyword_or_ident(s) == TokenV::Specular);
        },
        TokenV::Reflective => {
            let s = "reflective"@;
            assert forall|i: int| 0 <= i < s.len() implies is_ident_char(
                #[trigger] s[i],
            ) by {}
            lemma_lex_bareword(s);
            assert(s != "top_radius"@) by {
                assert(s[0] != "top_radius"@[0]);
            }
            assert(keyword_or_ident(s) == TokenV::Reflective);
        },
        TokenV::Diffuse => {
            let s = "diffuse"@;
            assert forall|i: int| 0 <= i < s.len() implies is_ident_char(
                #[trigger] s[i],
            ) by {}
            lemma_lex_bareword(s);
            assert(s != "trimesh"@) by {
                assert(s[0] != "trimesh"@[0]);
            }
            assert(s != "viewdir"@) by {
                assert(s[0] != "viewdir"@[0]);
            }
            assert(s != "ambient"@) by {
                assert(s[0] != "ambient"@[0]);
            }
            assert(keyword_or_ident(s) == TokenV::Diffuse);
        },
        TokenV::Transmissive => {
            let s = "transmissive"@;
            assert forall|i: int| 0 <= i < s.len() implies is_ident_char(
                #[trigger] s[i],
            ) by {}
            lemma_lex_bareword(s);
            assert(keyword_or_ident(s) == TokenV::Transmissive);
        },
        TokenV::Shininess => {
            let s = "shininess"@;
            assert forall|i: int| 0 <= i < s.len() implies is_ident_char(
                #[trigger] s[i],
            ) by {}
            lemma_lex_bareword(s);
            assert(s != "translate"@) by {
                assert(s[0] != "translate"@[0]);
            }
            assert(s != "transform"@) by {
                assert(s[0] != "transform"@[0]);
            }
            assert(s != "direction"@) by {
                assert(s[0] != "direction"@[0]);
            }
            assert(keyword_or_ident(s) == TokenV::Shininess);
        },
        _ => {},
    }
}

/// Round-trip for one span of the keyword table.
#[verifier::rlimit(100)]
proof fn lemma_keyword_round_trip_5(t: TokenV)
    requires
        t is Index || t is Polypoints || t is Normals || t is Faces || t is Gennormals || t is Materials || t is MapKw,
    ensures
        fixed_token_text(t) is Some,
        lex_from(fixed_token_text(t).unwrap(), 0) == LexOut::Toks(seq![t]),
{
    reveal_strlit("SBT-raytracer");
    reveal_strlit("camera");
    reveal_strlit("point_light");
    reveal_strlit("directional_light");
    reveal_strlit("ambient_light");
    reveal_strlit("sphere");
    reveal_strlit("box");
    reveal_strlit("square");
    reveal_strlit("cylinder");
    reveal_strlit("cone");
    reveal_strlit("trimesh");
    reveal_strlit("translate");
    reveal_strlit("rotate");
    reveal_strlit("scale");
    reveal_strlit("transform");
    reveal_strlit("material");
    reveal_strlit("true");
    reveal_strlit("false");
    reveal_strlit("position");
    reveal_strlit("viewdir");
    reveal_strlit("updir");
    reveal_strlit("aspectratio");
    reveal_strlit("fov");
    reveal_strlit("color");
    reveal_strlit("direction");
    reveal_strlit("capped");
    reveal_strlit("height");
    reveal_strlit("bottom_radius");
    reveal_strlit("top_radius");
    reveal_strlit("constant_attenuation_coeff");
    reveal_strlit("linear_attenuation_coeff");
    reveal_strlit("quadratic_attenuation_coeff");
    reveal_strlit("name");
    reveal_strlit("emissive");
    reveal_strlit("ambient");
    reveal_strlit("specular");
    reveal_strlit("reflective");
    reveal_strlit("diffuse");
    reveal_strlit("transmissive");
    reveal_strlit("shininess");
    reveal_strlit("index");
    reveal_strlit("points");
    reveal_strlit("normals");
    reveal_strlit("faces");
    reveal_strlit("gennormals");
    reveal_strlit("materials");
    reveal_strlit("map");
    match t {
        TokenV::Index => {
            let s = "index"@;
            assert forall|i: int| 0 <= i < s.len() implies is_ident_char(
                #[trigger] s[i],
            ) by {}
            lemma_lex_bareword(s);
            assert(s != "scale"@) by {
                assert(s[0] != "scale"@[0]);
            }
            assert(s != "false"@) by {
                assert(s[0] != "false"@[0]);
            }
            assert(s != "updir"@) by {
                assert(s[0] != "updir"@[0]);
            }
            assert(s != "color"@) by {
                assert(s[0] != "color"@[0]);
            }
            assert(keyword_or_ident(s) == TokenV::Index);
        },
        TokenV::Polypoints => {
            let s = "points"@;
            assert forall|i: int| 0 <= i < s.len() implies is_ident_char(
                #[trigger] s[i],
            ) by {}
            lemma_lex_bareword(s);
            assert(s != "camera"@) by {
                assert(s[0] != "camera"@[0]);
            }
            assert(s != "sphere"@) by {
                assert(s[0] != "sphere"@[0]);
            }
            assert(s != "square"@) by {
                assert(s[0] != "square"@[0]);
            }
            assert(s != "rotate"@) by {
                assert(s[0] != "rotate"@[0]);
            }
            assert(s != "capped"@) by {
                assert(s[0] != "capped"@[0]);
            }
            assert(s != "height"@) by {
                assert(s[0] != "height"@[0]);
            }
            assert(keyword_or_ident(s) == TokenV::Polypoints);
        },
        TokenV::Normals => {
            let s = "normals"@;
            assert forall|i: int| 0 <= i < s.len() implies is_ident_char(
                #[trigger] s[i],
            ) by {}
            lemma_lex_bareword(s);
            assert(s != "trimesh"@) by {
                assert(s[0] != "trimesh"@[0]);
            }
            assert(s != "viewdir"@) by {
                assert(s[0] != "viewdir"@[0]);
            }
            assert(s != "ambient"@) by {
                assert(s[0] != "ambient"@[0]);
            }
            assert(s != "diffuse"@) by {
                assert(s[0] != "diffuse"@[0]);
            }
            assert(keyword_or_ident(s) == TokenV::Normals);
        },
        TokenV::Faces => {
            let s = "faces"@;
            assert forall|i: int| 0 <= i < s.len() implies is_ident_char(
                #[trigger] s[i],
            ) by {}
            lemma_lex_bareword(s);
            assert(s != "scale"@) by {
                assert(s[0] != "scale"@[0]);
            }
            assert(s != "false"@) by {
                assert(s[2] != "false"@[2]);
            }
            assert(s != "updir"@) by {
                assert(s[0] != "updir"@[0]);
            }
            assert(s != "color"@) by {
                assert(s[0] != "color"@[0]);
            }
            assert(s != "index"@) by {
                assert(s[0] != "index"@[0]);
            }
            assert(keyword_or_ident(s) == TokenV::Faces);
        },
        TokenV::Gennormals => {
            let s = "gennormals"@;
            assert forall|i: int| 0 <= i < s.len() implies is_ident_char(
                #[trigger] s[i],
            ) by {}
            lemma_lex_bareword(s);
            assert(s != "top_radius"@) by {
                assert(s[0] != "top_radius"@[0]);
            }
            assert(s != "reflective"@) by {
                assert(s[0] != "reflective"@[0]);
            }
            assert(keyword_or_ident(s) == TokenV::Gennormals);
        },
        TokenV::Materials => {
            let s = "materials"@;
            assert forall|i: int| 0 <= i < s.len() implies is_ident_char(
                #[trigger] s[i],
            ) by {}
            lemma_lex_bareword(s);
            assert(s != "translate"@) by {
                assert(s[0] != "translate"@[0]);
            }
            assert(s != "transform"@) by {
                assert(s[0] != "transform"@[0]);
            }
            assert(s != "direction"@) by {
                assert(s[0] != "direction"@[0]);
            }
            assert(s != "shininess"@) by {
                assert(s[0] != "shininess"@[0]);
            }
            assert(keyword_or_ident(s) == TokenV::Materials);
        },
        TokenV::MapKw => {
            let s = "map"@;
            assert forall|i: int| 0 <= i < s.len() implies is_ident_char(
                #[trigger] s[i],
            ) by {}
            lemma_lex_bareword(s);
            assert(s != "box"@) by {
                assert(s[0] != "box"@[0]);
            }
            assert(s != "fov"@) by {
                assert(s[0] != "fov"@[0]);
            }
            assert(keyword_or_ident(s) == TokenV::MapKw);
        },
        _ => {},
    }
}

/// Round-trip for the punctuation tokens.
#[verifier::rlimit(100)]
proof fn lemma_punct_round_trip(t: TokenV)
    requires
        t is LParen || t is RParen || t is LBrace || t is RBrace || t is Comma || t is Minus || t is Equals || t is Semicolon,
    ensures
        fixed_token_text(t) is Some,
        lex_from(fixed_token_text(t).unwrap(), 0) == LexOut::Toks(seq![t]),
{
    match t {
        TokenV::LParen => {
            reveal_strlit("(");
            let s = "("@;
            lemma_lex_punct(s);
        },
        TokenV::RParen => {
            reveal_strlit(")");
            let s = ")"@;
            lemma_lex_punct(s);
        },
        TokenV::LBrace => {
            reveal_strlit("{");
            let s = "{"@;
            lemma_lex_punct(s);
        },
        TokenV::RBrace => {
            reveal_strlit("}");
            let s = "}"@;
            lemma_lex_punct(s);
        },
        TokenV::Comma => {
            reveal_strlit(",");
            let s = ","@;
            lemma_lex_punct(s);
        },
        TokenV::Minus => {
            reveal_strlit("-");
            let s = "-"@;
            lemma_lex_punct(s);
        },
        TokenV::Equals => {
            reveal_strlit("=");
            let s = "="@;
            lemma_lex_punct(s);
        },
        TokenV::Semicolon => {
            reveal_strlit(";");
            let s = ";"@;
            lemma_lex_punct(s);
        },
        _ => {},
    }
}

/// Lexer round-trip for the fixed-text tokens: for every keyword and every
/// punctuation token, lexing its canonical source text yields back exactly
/// that token — in particular each keyword lexes to its keyword token, not
/// to an identifier.
pub proof fn lemma_fixed_token_round_trip(t: TokenV)
    requires
        fixed_token_text(t) is Some,
    ensures
        lex_from(fixed_token_text(t).unwrap(), 0) == LexOut::Toks(seq![t]),
{
    match t {
        TokenV::Ident(_) => {},
        TokenV::StrLit(_) => {},
        TokenV::Scalar(_, _) => {},
        TokenV::LParen => { lemma_punct_round_trip(t); },
        TokenV::RParen => { lemma_punct_round_trip(t); },
        TokenV::LBrace => { lemma_punct_round_trip(t); },
        TokenV::RBrace => { lemma_punct_round_trip(t); },
        TokenV::Comma => { lemma_punct_round_trip(t); },
        TokenV::Minus => { lemma_punct_round_trip(t); },
        TokenV::Equals => { lemma_punct_round_trip(t); },
        TokenV::Semicolon => { lemma_punct_round_trip(t); },
        TokenV::SbtRaytracer => { lemma_keyword_round_trip_0(t); },
        TokenV::Camera => { lemma_keyword_round_trip_0(t); },
        TokenV::PointLight => { lemma_keyword_round_trip_0(t); },
        TokenV::DirectionalLight => { lemma_keyword_round_trip_0(t); },
        TokenV::AmbientLight => { lemma_keyword_round_trip_0(t); },
        TokenV::Sphere => { lemma_keyword_round_trip_0(t); },
        TokenV::Box => { lemma_keyword_round_trip_0(t); },
        TokenV::Square => { lemma_keyword_round_trip_0(t); },
        TokenV::Cylinder => { lemma_keyword_round_trip_1(t); },
        TokenV::Cone => { lemma_keyword_round_trip_1(t); },
        TokenV::Trimesh => { lemma_keyword_round_trip_1(t); },
        TokenV::Translate => { lemma_keyword_round_trip_1(t); },
        TokenV::Rotate => { lemma_keyword_round_trip_1(t); },
        TokenV::Scale => { lemma_keyword_round_trip_1(t); },
        TokenV::Transform => { lemma_keyword_round_trip_1(t); },
        TokenV::Material => { lemma_keyword_round_trip_1(t); },
        TokenV::Symtrue => { lemma_keyword_round_trip_2(t); },
        TokenV::Symfalse => { lemma_keyword_round_trip_2(t); },
        TokenV::Position => { lemma_keyword_round_trip_2(t); },
        TokenV::Viewdir => { lemma_keyword_round_trip_2(t); },
        TokenV::Updir => { lemma_keyword_round_trip_2(t); },
        TokenV::Aspectratio => { lemma_keyword_round_trip_2(t); },
        TokenV::Fov => { lemma_keyword_round_trip_2(t); },
        TokenV::Color => { lemma_keyword_round_trip_2(t); },
        TokenV::Direction => { lemma_keyword_round_trip_3(t); },
        TokenV::Capped => { lemma_keyword_round_trip_3(t); },
        TokenV::Height => { lemma_keyword_round_trip_3(t); },
        TokenV::BottomRadius => { lemma_keyword_round_trip_3(t); },
        TokenV::TopRadius => { lemma_keyword_round_trip_3(t); },
        TokenV::ConstantAttenuationCoeff => { lemma_keyword_round_trip_3(t); },
        TokenV::LinearAttenuationCoeff => { lemma_keyword_round_trip_3(t); },
        TokenV::QuadraticAttenuationCoeff => { lemma_keyword_round_trip_3(t); },
        TokenV::Name => { lemma_keyword_round_trip_4(t); },
        TokenV::Emissive => { lemma_keyword_round_trip_4(t); },
        TokenV::Ambient => { lemma_keyword_round_trip_4(t); },
        TokenV::Specular => { lemma_keyword_round_trip_4(t); },
        TokenV::Reflective => { lemma_keyword_round_trip_4(t); },
        TokenV::Diffuse => { lemma_keyword_round_trip_4(t); },
        TokenV::Transmissive => { lemma_keyword_round_trip_4(t); },
        TokenV::Shininess => { lemma_keyword_round_trip_4(t); },
        TokenV::Index => { lemma_keyword_round_trip_5(t); },
        TokenV::Polypoints => { lemma_keyword_round_trip_5(t); },
        TokenV::Normals => { lemma_keyword_round_trip_5(t); },
        TokenV::Faces => { lemma_keyword_round_trip_5(t); },
        TokenV::Gennormals => { lemma_keyword_round_trip_5(t); },
        TokenV::Materials => { lemma_keyword_round_trip_5(t); },
        TokenV::MapKw => { lemma_keyword_round_trip_5(t); },
    }
}

/// Transform composition: where a node `n1` was composed from an ambient
/// node `p` with local matrix `l1`, and `n2` from `n1` with `l2` — exactly
/// what the nested transform productions establish — the leaf node's matrix
/// is mathematically `p.matrix * l1 * l2` (left to right), and the leaf's stored
/// inverse multiplies back with its matrix to the identity on both sides.
pub proof fn lemma_transform_composition(
    p: TransformNode,
    l1: Mat,
    n1: TransformNode,
    l2: Mat,
    n2: TransformNode,
)
    requires
        node_wf(p),
        node_wf(n1),
        node_wf(n2),
        mat_wf(l1) && l1.n == 4,
        mat_wf(l2) && l2.n == 4,
        mul_ok(n1.xform.e@, p.xform.e@, l1.e@, 4),
        mul_ok(n2.xform.e@, n1.xform.e@, l2.e@, 4),
    ensures
        forall|i: int, j: int|
            0 <= i < 4 && 0 <= j < 4 ==> pair_eqv(
                #[trigger] entv(n2.xform.e@, 4, i, j),
                mul_entry(n1.xform.e@, l2.e@, 4, i, j),
            ),
        forall|i: int, j: int|
            0 <= i < 4 && 0 <= j < 4 ==> pair_eqv(
                #[trigger] entv(n1.xform.e@, 4, i, j),
                mul_entry(p.xform.e@, l1.e@, 4, i, j),
            ),
        prod_is_identity(n2.xform.e@, n2.inverse.e@, 4),
        prod_is_identity(n2.inverse.e@, n2.xform.e@, 4),
{
}

/// Group transparency: a bare group introduces no transform of its own —
/// every member of a group that is well-formed under an ambient node is
/// itself well-formed under that same ambient node, and in particular every
/// geometry declared directly inside the group carries exactly the ambient
/// node.
pub proof fn lemma_group_transparency(es: Vec<TransformableElement>, ambient: TransformNode)
    requires
        elem_wf(TransformableElement::Group(es), ambient),
    ensures
        forall|i: int| 0 <= i < es.len() ==> elem_wf(#[trigger] es@[i], ambient),
        forall|i: int|
            0 <= i < es.len() ==> ((#[trigger] es@[i]) matches TransformableElement::Geometry(g)
                ==> node_same(g.node, ambient)),
{
    assert forall|i: int| 0 <= i < es.len() implies elem_wf(#[trigger] es@[i], ambient) by {
        reveal_with_fuel(crate::scene::elem_wf, 2);
        let ge = TransformableElement::Group(es);
        assert(ge->Group_0 == es);
        assert(elem_wf(ge, ambient));
    }
    assert forall|i: int| 0 <= i < es.len() implies ((#[trigger] es@[i])
        matches TransformableElement::Geometry(g) ==> node_same(g.node, ambient)) by {
        reveal_with_fuel(crate::scene::elem_wf, 2);
        assert(elem_wf(es@[i], ambient));
        match es@[i] {
            TransformableElement::Geometry(g) => {
                assert(node_same(g.node, ambient));
            },
            _ => {},
        }
    }
}


// ---------------------------------------------------------------------------
// Whitespace and comment invisibility
// ---------------------------------------------------------------------------

/// A scanner outcome with its position shifted right by `l`.
pub open spec fn shift_next(o: NextTok, l: int) -> NextTok {
    match o {
        NextTok::Done => NextTok::Done,
        NextTok::Tok(t, e) => NextTok::Tok(t, l + e),
        NextTok::Fail(f) => NextTok::Fail(l + f),
    }
}

/// Skipping trivia in `w + s` from a position inside `s` behaves as in `s`
/// alone, shifted.
proof fn lemma_skip_trivia_shift(w: Seq<char>, s: Seq<char>, i: int, mode: TriviaMode)
    requires
        0 <= i <= s.len(),
    ensures
        skip_trivia(w + s, w.len() + i, mode) == (match skip_trivia(s, i, mode) {
            Some(j) => Some(w.len() + j),
            None => None::<int>,
        }),
    decreases s.len() - i,
{
    let l = w.len() as int;
    if i >= s.len() {
    } else {
        assert((w + s)[l + i] == s[i]);
        if i + 1 < s.len() {
            assert((w + s)[l + i + 1] == s[i + 1]);
        }
        match mode {
            TriviaMode::Normal => {
                if is_ws_char(s[i]) {
                    lemma_skip_trivia_shift(w, s, i + 1, TriviaMode::Normal);
                } else if s[i] == '/' && i + 1 < s.len() && s[i + 1] == '/' {
                    lemma_skip_trivia_shift(w, s, i + 2, TriviaMode::InLine);
                } else if s[i] == '/' && i + 1 < s.len() && s[i + 1] == '*' {
                    lemma_skip_trivia_shift(w, s, i + 2, TriviaMode::InBlock);
                }
            },
            TriviaMode::InLine => {
                if s[i] == '\n' {
                    lemma_skip_trivia_shift(w, s, i + 1, TriviaMode::Normal);
                } else {
                    lemma_skip_trivia_shift(w, s, i + 1, TriviaMode::InLine);
                }
            },
            TriviaMode::InBlock => {
                if s[i] == '*' && i + 1 < s.len() && s[i + 1] == '/' {
                    lemma_skip_trivia_shift(w, s, i + 2, TriviaMode::Normal);
                } else {
                    lemma_skip_trivia_shift(w, s, i + 1, TriviaMode::InBlock);
                }
            },
        }
    }
}

/// Digit runs in `w + s` from a position inside `s` end where they end in
/// `s`, shifted.
proof fn lemma_scan_digits_shift(w: Seq<char>, s: Seq<char>, i: int)
    requires
        0 <= i <= s.len(),
    ensures
        scan_digits(w + s, w.len() + i) == w.len() + scan_digits(s, i),
    decreases s.len() - i,
{
    let l = w.len() as int;
    if i < s.len() {
        assert((w + s)[l + i] == s[i]);
        if is_digit_char(s[i]) {
            lemma_scan_digits_shift(w, s, i + 1);
        }
    }
}

/// Bareword runs shift.
proof fn lemma_scan_ident_shift(w: Seq<char>, s: Seq<char>, i: int)
    requires
        0 <= i <= s.len(),
    ensures
        scan_ident_end(w + s, w.len() + i) == w.len() + scan_ident_end(s, i),
    decreases s.len() - i,
{
    let l = w.len() as int;
    if i < s.len() {
        assert((w + s)[l + i] == s[i]);
        if is_ident_char(s[i]) {
            lemma_scan_ident_shift(w, s, i + 1);
        }
    }
}

/// String-literal scanning shifts.
proof fn lemma_scan_str_shift(w: Seq<char>, s: Seq<char>, i: int)
    requires
        0 <= i <= s.len(),
    ensures
        scan_str_end(w + s, w.len() + i) == (match scan_str_end(s, i) {
            Some(e) => Some(w.len() + e),
            None => None::<int>,
        }),
    decreases s.len() - i,
{
    let l = w.len() as int;
    if i < s.len() {
        assert((w + s)[l + i] == s[i]);
        if i + 1 < s.len() {
            assert((w + s)[l + i + 1] == s[i + 1]);
        }
        if s[i] == '\'' {
        } else if s[i] == '\\' && i + 1 < s.len() && s[i + 1] == '\'' {
            lemma_scan_str_shift(w, s, i + 2);
        } else {
            lemma_scan_str_shift(w, s, i + 1);
        }
    }
}

/// Digit-run values shift.
proof fn lemma_digits_value_shift(w: Seq<char>, s: Seq<char>, i: int, j: int)
    requires
        0 <= i,
        i <= j <= s.len(),
    ensures
        digits_value(w + s, w.len() + i, w.len() + j) == digits_value(s, i, j),
    decreases j - i,
{
    let l = w.len() as int;
    if i < j {
        assert((w + s)[l + j - 1] == s[j - 1]);
        lemma_digits_value_shift(w, s, i, j - 1);
    }
}

/// Numeric-literal scanning shifts: same token value, shifted end.
proof fn lemma_scan_number_shift(w: Seq<char>, s: Seq<char>, start: int, j: int, neg: bool)
    requires
        0 <= start,
        0 <= j <= s.len(),
    ensures
        scan_number(w + s, w.len() + start, w.len() + j, neg) == shift_next(
            scan_number(s, start, j, neg),
            w.len() as int,
        ),
{
    let l = w.len() as int;
    lemma_scan_digits_shift(w, s, j);
    let d1 = scan_digits(s, j);
    crate::lexer::lemma_scan_digits_bounds(s, j);
    if d1 < s.len() {
        assert((w + s)[l + d1] == s[d1]);
    }
    if d1 < s.len() && s[d1] == '.' {
        lemma_scan_digits_shift(w, s, d1 + 1);
        let d2 = scan_digits(s, d1 + 1);
        crate::lexer::lemma_scan_digits_bounds(s, d1 + 1);
        lemma_digits_value_shift(w, s, j, d1);
        lemma_digits_value_shift(w, s, d1 + 1, d2);
    } else {
        lemma_digits_value_shift(w, s, j, d1);
    }
}

/// One-token scanning from a position inside `s` behaves as in `s` alone,
/// shifted.
#[verifier::rlimit(100)]
proof fn lemma_next_token_shift(w: Seq<char>, s: Seq<char>, i: int)
    requires
        0 <= i <= s.len(),
    ensures
        next_token_spec(w + s, w.len() + i) == shift_next(next_token_spec(s, i), w.len() as int),
{
    let l = w.len() as int;
    lemma_skip_trivia_shift(w, s, i, TriviaMode::Normal);
    match skip_trivia(s, i, TriviaMode::Normal) {
        None => {},
        Some(j) => {
            crate::lexer::lemma_skip_trivia_bounds(s, i, TriviaMode::Normal);
            if j >= s.len() {
            } else {
                assert((w + s)[l + j] == s[j]);
                if j + 1 < s.len() {
                    assert((w + s)[l + j + 1] == s[j + 1]);
                }
                let c = s[j];
                if c == ';' || c == ',' || c == '{' || c == '}' || c == '(' || c == ')' || c
                    == '=' {
                } else if c == '\'' {
                    lemma_scan_str_shift(w, s, j + 1);
                    match scan_str_end(s, j + 1) {
                        None => {},
                        Some(e) => {
                            crate::lexer::lemma_scan_str_end_bounds(s, j + 1);
                            assert((w + s).subrange(l + j, l + e) =~= s.subrange(j, e));
                        },
                    }
                } else if c == '-' {
                    if j + 1 < s.len() && (is_digit_char(s[j + 1]) || s[j + 1] == '.') {
                        lemma_scan_number_shift(w, s, j, j + 1, true);
                    }
                } else if is_digit_char(c) || c == '.' {
                    lemma_scan_number_shift(w, s, j, j, false);
                } else if is_alpha_char(c) {
                    lemma_scan_ident_shift(w, s, j);
                    let e = scan_ident_end(s, j);
                    crate::lexer::lemma_scan_ident_end_bounds(s, j);
                    assert((w + s).subrange(l + j, l + e) =~= s.subrange(j, e));
                }
            }
        },
    }
}

/// A successfully scanned token always stands strictly right of where
/// scanning began, inside the input.
proof fn lemma_next_token_advances(s: Seq<char>, i: int)
    requires
        0 <= i <= s.len(),
        next_token_spec(s, i) is Tok,
    ensures
        i < next_token_spec(s, i)->Tok_1 <= s.len(),
{
    crate::lexer::lemma_skip_trivia_bounds(s, i, TriviaMode::Normal);
    match skip_trivia(s, i, TriviaMode::Normal) {
        None => {},
        Some(j) => {
            if j < s.len() {
                let c = s[j];
                if c == '\'' {
                    if scan_str_end(s, j + 1) is Some {
                        crate::lexer::lemma_scan_str_end_bounds(s, j + 1);
                    }
                } else if c == '-' && j + 1 < s.len() && (is_digit_char(s[j + 1]) || s[j + 1]
                    == '.') {
                    lemma_scan_number_advances(s, j, j + 1, true);
                } else if is_digit_char(c) || c == '.' {
                    lemma_scan_number_advances(s, j, j, false);
                } else if is_alpha_char(c) {
                    crate::lexer::lemma_scan_ident_end_bounds(s, j);
                    assert(is_ident_char(s[j]));
                    assert(scan_ident_end(s, j) == scan_ident_end(s, j + 1));
                    crate::lexer::lemma_scan_ident_end_bounds(s, j + 1);
                }
            }
        },
    }
}

/// A successfully scanned numeric literal ends past its digits' start.
proof fn lemma_scan_number_advances(s: Seq<char>, start: int, j: int, neg: bool)
    requires
        0 <= start <= j <= s.len(),
        scan_number(s, start, j, neg) is Tok,
    ensures
        start < scan_number(s, start, j, neg)->Tok_1 <= s.len(),
{
    crate::lexer::lemma_scan_digits_bounds(s, j);
    let d1 = scan_digits(s, j);
    if d1 < s.len() && s[d1] == '.' {
        crate::lexer::lemma_scan_digits_bounds(s, d1 + 1);
    }
}

/// Whole-input lexing from a position inside `s` behaves as in `s` alone:
/// the same tokens, or the same failure at the shifted offset.
proof fn lemma_lex_shift(w: Seq<char>, s: Seq<char>, i: int)
    requires
        0 <= i <= s.len(),
    ensures
        lex_from(w + s, w.len() + i) == (match lex_from(s, i) {
            LexOut::Toks(ts) => LexOut::Toks(ts),
            LexOut::Fail(o) => LexOut::Fail(w.len() + o),
        }),
    decreases s.len() - i,
{
    let l = w.len() as int;
    lemma_next_token_shift(w, s, i);
    match next_token_spec(s, i) {
        NextTok::Done => {},
        NextTok::Fail(_) => {},
        NextTok::Tok(t, j) => {
            lemma_next_token_advances(s, i);
            lemma_lex_shift(w, s, j);
        },
    }
}

/// Where the trivia scanner stands when it runs off the end of `w`, having
/// consumed every character as whitespace or comment text; `None` when a
/// non-trivia character stops it early.
pub open spec fn full_trivia_mode(w: Seq<char>, i: int, mode: TriviaMode) -> Option<TriviaMode>
    decreases w.len() - i,
{
    if i >= w.len() {
        Some(mode)
    } else {
        match mode {
            TriviaMode::Normal => {
                if is_ws_char(w[i]) {
                    full_trivia_mode(w, i + 1, TriviaMode::Normal)
                } else if w[i] == '/' && i + 1 < w.len() && w[i + 1] == '/' {
                    full_trivia_mode(w, i + 2, TriviaMode::InLine)
                } else if w[i] == '/' && i + 1 < w.len() && w[i + 1] == '*' {
                    full_trivia_mode(w, i + 2, TriviaMode::InBlock)
                } else {
                    None
                }
            },
            TriviaMode::InLine => {
                if w[i] == '\n' {
                    full_trivia_mode(w, i + 1, TriviaMode::Normal)
                } else {
                    full_trivia_mode(w, i + 1, TriviaMode::InLine)
                }
            },
            TriviaMode::InBlock => {
                if w[i] == '*' && i + 1 < w.len() && w[i + 1] == '/' {
                    full_trivia_mode(w, i + 2, TriviaMode::Normal)
                } else {
                    full_trivia_mode(w, i + 1, TriviaMode::InBlock)
                }
            },
        }
    }
}

/// A complete block of trivia: whitespace, line comments each closed by a
/// newline, and closed block comments, and nothing else. Such text — and
/// only such text — can stand invisibly between two tokens.
pub open spec fn is_trivia_block(w: Seq<char>) -> bool {
    full_trivia_mode(w, 0, TriviaMode::Normal) == Some(TriviaMode::Normal)
}

/// Skipping trivia through a complete trivia block continues into `s`
/// exactly as skipping `s` alone, shifted.
proof fn lemma_skip_trivia_prepend(w: Seq<char>, s: Seq<char>, i: int, mode: TriviaMode)
    requires
        0 <= i <= w.len(),
        full_trivia_mode(w, i, mode) == Some(TriviaMode::Normal),
    ensures
        skip_trivia(w + s, i, mode) == (match skip_trivia(s, 0, TriviaMode::Normal) {
            Some(j) => Some(w.len() + j),
            None => None::<int>,
        }),
    decreases w.len() - i,
{
    if i >= w.len() {
        lemma_skip_trivia_shift(w, s, 0, mode);
    } else {
        assert((w + s)[i] == w[i]);
        if i + 1 < w.len() {
            assert((w + s)[i + 1] == w[i + 1]);
        }
        match mode {
            TriviaMode::Normal => {
                if is_ws_char(w[i]) {
                    lemma_skip_trivia_prepend(w, s, i + 1, TriviaMode::Normal);
                } else if w[i] == '/' && i + 1 < w.len() && w[i + 1] == '/' {
                    lemma_skip_trivia_prepend(w, s, i + 2, TriviaMode::InLine);
                } else {
                    assert(w[i] == '/' && i + 1 < w.len() && w[i + 1] == '*');
                    lemma_skip_trivia_prepend(w, s, i + 2, TriviaMode::InBlock);
                }
            },
            TriviaMode::InLine => {
                if w[i] == '\n' {
                    lemma_skip_trivia_prepend(w, s, i + 1, TriviaMode::Normal);
                } else {
                    lemma_skip_trivia_prepend(w, s, i + 1, TriviaMode::InLine);
                }
            },
            TriviaMode::InBlock => {
                if w[i] == '*' && i + 1 < w.len() && w[i + 1] == '/' {
                    lemma_skip_trivia_prepend(w, s, i + 2, TriviaMode::Normal);
                } else {
                    lemma_skip_trivia_prepend(w, s, i + 1, TriviaMode::InBlock);
                }
            },
        }
    }
}

/// Skipping trivia is idempotent: skipping again from where it stopped
/// stays there.
proof fn lemma_skip_trivia_idem(s: Seq<char>, i: int)
    requires
        0 <= i <= s.len(),
        skip_trivia(s, i, TriviaMode::Normal) is Some,
    ensures
        skip_trivia(s, skip_trivia(s, i, TriviaMode::Normal).unwrap(), TriviaMode::Normal)
            == skip_trivia(s, i, TriviaMode::Normal),
    decreases s.len() - i,
{
    if i >= s.len() {
    } else if is_ws_char(s[i]) {
        lemma_skip_trivia_idem_from(s, i + 1, TriviaMode::Normal);
    } else if s[i] == '/' && i + 1 < s.len() && s[i + 1] == '/' {
        lemma_skip_trivia_idem_from(s, i + 2, TriviaMode::InLine);
    } else if s[i] == '/' && i + 1 < s.len() && s[i + 1] == '*' {
        lemma_skip_trivia_idem_from(s, i + 2, TriviaMode::InBlock);
    }
}

/// Helper: from any mode, the position trivia skipping stops at is a
/// fixpoint of skipping in normal mode.
proof fn lemma_skip_trivia_idem_from(s: Seq<char>, i: int, mode: TriviaMode)
    requires
        0 <= i <= s.len(),
        skip_trivia(s, i, mode) is Some,
    ensures
        skip_trivia(s, skip_trivia(s, i, mode).unwrap(), TriviaMode::Normal) == skip_trivia(
            s,
            i,
            mode,
        ),
    decreases s.len() - i,
{
    crate::lexer::lemma_skip_trivia_bounds(s, i, mode);
    if i >= s.len() {
    } else {
        match mode {
            TriviaMode::Normal => {
                if is_ws_char(s[i]) {
                    lemma_skip_trivia_idem_from(s, i + 1, TriviaMode::Normal);
                } else if s[i] == '/' && i + 1 < s.len() && s[i + 1] == '/' {
                    lemma_skip_trivia_idem_from(s, i + 2, TriviaMode::InLine);
                } else if s[i] == '/' && i + 1 < s.len() && s[i + 1] == '*' {
                    lemma_skip_trivia_idem_from(s, i + 2, TriviaMode::InBlock);
                }
            },
            TriviaMode::InLine => {
                if s[i] == '\n' {
                    lemma_skip_trivia_idem_from(s, i + 1, TriviaMode::Normal);
                } else {
                    lemma_skip_trivia_idem_from(s, i + 1, TriviaMode::InLine);
                }
            },
            TriviaMode::InBlock => {
                if s[i] == '*' && i + 1 < s.len() && s[i + 1] == '/' {
                    lemma_skip_trivia_idem_from(s, i + 2, TriviaMode::Normal);
                } else {
                    lemma_skip_trivia_idem_from(s, i + 1, TriviaMode::InBlock);
                }
            },
        }
    }
}

/// Whitespace and comment invisibility: prepending any complete block of
/// trivia — extra whitespace, line comments, or non-nested block comments —
/// to a source text never changes its token sequence; a lexical error is
/// unchanged too, its offset merely shifted past the inserted text. Since
/// every token boundary restarts the lexer on the remaining suffix, this is
/// exactly what insertion of trivia between two tokens does.
#[verifier::rlimit(100)]
pub proof fn lemma_trivia_invisible(w: Seq<char>, s: Seq<char>)
    requires
        is_trivia_block(w),
    ensures
        lex_from(w + s, 0) == (match lex_from(s, 0) {
            LexOut::Toks(ts) => LexOut::Toks(ts),
            LexOut::Fail(o) => LexOut::Fail(w.len() + o),
        }),
{
    let l = w.len() as int;
    let x = w + s;
    lemma_skip_trivia_prepend(w, s, 0, TriviaMode::Normal);
    match skip_trivia(s, 0, TriviaMode::Normal) {
        None => {
            assert(next_token_spec(x, 0) == NextTok::Fail(x.len() as int));
            assert(next_token_spec(s, 0) == NextTok::Fail(s.len() as int));
        },
        Some(j0) => {
            crate::lexer::lemma_skip_trivia_bounds(s, 0, TriviaMode::Normal);
            // Both scans proceed from their skip results; re-skipping from
            // there is a fixpoint, so each equals the scan started there.
            lemma_skip_trivia_idem(s, 0);
            lemma_skip_trivia_shift(w, s, j0, TriviaMode::Normal);
            assert(skip_trivia(x, l + j0, TriviaMode::Normal) == Some(l + j0));
            assert(next_token_spec(x, 0) == next_token_spec(x, l + j0));
            assert(next_token_spec(s, 0) == next_token_spec(s, j0));
            lemma_next_token_shift(w, s, j0);
            match next_token_spec(s, 0) {
                NextTok::Done => {},
                NextTok::Fail(_) => {},
                NextTok::Tok(t, j) => {
                    lemma_next_token_advances(s, 0);
                    lemma_lex_shift(w, s, j);
                },
            }
        },
    }
}

/// Whitespace and comment invisibility at an arbitrary token boundary.
/// Every token boundary restarts the lexer on the remaining suffix: after
/// the tokens of `a` are scanned, `lex_from` continues at position
/// `a.len()`. Inserting a complete trivia block there — between the tokens
/// of `a` and those of `b` — leaves the remaining token sequence unchanged,
/// and shifts a later lexical error by the inserted length.
pub proof fn lemma_trivia_insertion(a: Seq<char>, w: Seq<char>, b: Seq<char>)
    requires
        is_trivia_block(w),
    ensures
        lex_from(a + w + b, a.len() as int) == (match lex_from(a + b, a.len() as int) {
            LexOut::Toks(ts) => LexOut::Toks(ts),
            LexOut::Fail(o) => LexOut::Fail(w.len() + o),
        }),
{
    let l = a.len() as int;
    assert(a + w + b =~= a + (w + b));
    lemma_lex_shift(a, w + b, 0);
    assert(lex_from(a + (w + b), l) == (match lex_from(w + b, 0) {
        LexOut::Toks(ts) => LexOut::Toks(ts),
        LexOut::Fail(o) => LexOut::Fail(l + o),
    }));
    lemma_trivia_invisible(w, b);
    lemma_lex_shift(a, b, 0);
}

} // verus!
