//! The recursive-descent scene builder.
//!
//! Every production takes the token stream by mutable reference and, per the
//! propagation policy, returns the first error it meets. The contracts state
//! the stream discipline (the token sequence is never changed, the cursor
//! never moves backwards, success consumes at least one token), the exact
//! values read for the leaf productions, and for the element grammar the
//! transform well-formedness `elem_wf`: geometry carries exactly the ambient
//! node, groups are transparent, and a transform node is exactly the ambient
//! matrix times the declared local matrix, with certified inverses.

use vstd::prelude::*;

use crate::error::{ErrorKind, TokenizationError};
use crate::rat::{rat_wf, Rat};
use crate::matrix::{mat_wf, seq_rats_wf, Mat};
use crate::lexer::RayTokenizer;
use crate::rotation::rotation_matrix;
use crate::scene::{
    camera_wf, camera_zero, decl_wf, elem_wf, flatten_elem, flatten_list, light_wf, material_wf,
    node_same, node_wf, rat_zero, scene_wf, vec3_wf, vec3_zero, Camera, GeometryDecl,
    GeometryKind, Light, LightType, Material, Scene, TransformNode, TransformableElement,
    TransformedElement, Vec3,
};
use crate::grammar::{
    decl_matches, elem_matches, elem_out, elem_v_pure, flatten_list_v, geom_out, group_items,
    group_out, lemma_flatten_list_matches, lemma_group_items_prefix, lemma_scene_items_prefix,
    rotate_out, scale_out, scene_items, scene_out, scene_out_at, scene_v_empty, transform_out,
    translate_out, ElemV, SceneV,
};
use crate::stream::TokenStream;
use crate::token::{Token, TokenV};

verus! {

/// The token at position `p` is a scalar (with the positive denominator
/// every lexed scalar has).
pub open spec fn scalar_at(ts: Seq<Token>, p: int) -> bool {
    &&& 0 <= p < ts.len()
    &&& (ts[p]@ matches TokenV::Scalar(n, d) && d > 0)
}

/// The token at position `p` matches `pat` by variant identity.
pub open spec fn variant_at(ts: Seq<Token>, p: int, pat: Token) -> bool {
    &&& 0 <= p < ts.len()
    &&& crate::token::token_variant_eq(ts[p], pat)
}

/// The seven tokens of a three-component vector stand at position `p`:
/// `( s , s , s )`.
pub open spec fn vec3_at(ts: Seq<Token>, p: int) -> bool {
    &&& variant_at(ts, p, Token::LParen)
    &&& scalar_at(ts, p + 1)
    &&& variant_at(ts, p + 2, Token::Comma)
    &&& scalar_at(ts, p + 3)
    &&& variant_at(ts, p + 4, Token::Comma)
    &&& scalar_at(ts, p + 5)
    &&& variant_at(ts, p + 6, Token::RParen)
}

/// The nine tokens of a four-component vector stand at position `p`.
pub open spec fn vec4_at(ts: Seq<Token>, p: int) -> bool {
    &&& variant_at(ts, p, Token::LParen)
    &&& scalar_at(ts, p + 1)
    &&& variant_at(ts, p + 2, Token::Comma)
    &&& scalar_at(ts, p + 3)
    &&& variant_at(ts, p + 4, Token::Comma)
    &&& scalar_at(ts, p + 5)
    &&& variant_at(ts, p + 6, Token::Comma)
    &&& scalar_at(ts, p + 7)
    &&& variant_at(ts, p + 8, Token::RParen)
}

/// The token at position `p` is a scalar of any denominator, which is what
/// the one-scalar/three-scalar `scale` disambiguation peeks for.
pub open spec fn scalar_variant_at(ts: Seq<Token>, p: int) -> bool {
    &&& 0 <= p < ts.len()
    &&& ts[p]@ is Scalar
}

/// The exact rational payload of a scalar token (zero for any other token).
pub open spec fn tok_scalar(t: Token) -> Rat {
    match t {
        Token::Scalar(v) => v,
        _ => (Rat { num: 0, den: 1 }),
    }
}

/// The vector value whose seven tokens `( x , y , z )` stand at position `p`.
pub open spec fn vec3_val(ts: Seq<Token>, p: int) -> Vec3 {
    (Vec3 { x: tok_scalar(ts[p + 1]), y: tok_scalar(ts[p + 3]), z: tok_scalar(ts[p + 5]) })
}

/// The four components whose nine tokens stand at position `p`.
pub open spec fn vec4_val(ts: Seq<Token>, p: int) -> (Rat, Rat, Rat, Rat) {
    (tok_scalar(ts[p + 1]), tok_scalar(ts[p + 3]), tok_scalar(ts[p + 5]), tok_scalar(ts[p + 7]))
}

/// The character payload of a string-literal token (empty for any other
/// token).
pub open spec fn tok_chars(t: Token) -> Seq<char> {
    match t {
        Token::StrLit(w) => w@,
        _ => Seq::empty(),
    }
}

/// The shape `= <scalar> ;` follows the field keyword at `p`.
pub open spec fn scalar_expr_at(ts: Seq<Token>, p: int) -> bool {
    &&& variant_at(ts, p + 1, Token::Equals)
    &&& scalar_at(ts, p + 2)
    &&& variant_at(ts, p + 3, Token::Semicolon)
}

/// The shape `= <boolean> ;` follows the field keyword at `p`.
pub open spec fn bool_expr_at(ts: Seq<Token>, p: int) -> bool {
    &&& variant_at(ts, p + 1, Token::Equals)
    &&& 0 <= p + 2 < ts.len()
    &&& (ts[p + 2]@ is Symtrue || ts[p + 2]@ is Symfalse)
    &&& variant_at(ts, p + 3, Token::Semicolon)
}

/// The shape `= ( x , y , z ) ;` follows the field keyword at `p`.
pub open spec fn vec3_expr_at(ts: Seq<Token>, p: int) -> bool {
    &&& variant_at(ts, p + 1, Token::Equals)
    &&& vec3_at(ts, p + 2)
    &&& variant_at(ts, p + 9, Token::Semicolon)
}

/// The shape `= '<text>' ;` follows the field keyword at `p`.
pub open spec fn str_expr_at(ts: Seq<Token>, p: int) -> bool {
    &&& variant_at(ts, p + 1, Token::Equals)
    &&& 0 <= p + 2 < ts.len()
    &&& ts[p + 2]@ is StrLit
    &&& variant_at(ts, p + 3, Token::Semicolon)
}

/// The outcome of interpreting a block production at a position: the value
/// the tokens derive together with the position just past the production,
/// a semantic fault (an unknown field name), or a syntactic fault.
pub ghost enum BlockOut<V> {
    Done(V, int),
    Sem,
    Syn,
}

/// Read one scalar token and return its exact value: succeeds exactly when
/// the next token is a scalar (with the positive denominator every lexed
/// scalar has), consuming it; otherwise consumes nothing.
pub fn parse_scalar(s: &mut TokenStream) -> (r: Result<Rat, TokenizationError>)
    requires
        old(s).wf(),
    ensures
        final(s).tokens == old(s).tokens,
        final(s).wf(),
        r is Ok <==> old(s).pos < old(s).tokens.len() && (old(s).tokens@[old(s).pos as int]@
            matches TokenV::Scalar(n, d) && d > 0),
        r matches Ok(v) ==> (rat_wf(v) && old(s).tokens@[old(s).pos as int] == Token::Scalar(v)
            && old(s).tokens@[old(s).pos as int]@ == TokenV::Scalar(v.num as int, v.den as int)
            && final(s).pos == old(s).pos + 1),
        r matches Err(e) ==> final(s).pos == old(s).pos && e.kind == ErrorKind::Syntax,
{
    let next: Option<Rat> = match s.peek() {
        Some(t) => match t {
            Token::Scalar(v) => Some(*v),
            _ => None,
        },
        None => None,
    };
    match next {
        Some(v) => {
            if v.den > 0 {
                s.advance();
                Ok(v)
            } else {
                Err(TokenizationError::of_kind(ErrorKind::Syntax, "malformed scalar token"))
            }
        },
        None => Err(TokenizationError::of_kind(ErrorKind::Syntax, "expected a scalar")),
    }
}

/// Read one boolean symbol: succeeds exactly when the next token is `true`
/// or `false`, consuming it; otherwise consumes nothing.
pub fn parse_boolean(s: &mut TokenStream) -> (r: Result<bool, TokenizationError>)
    requires
        old(s).wf(),
    ensures
        final(s).tokens == old(s).tokens,
        final(s).wf(),
        r is Ok <==> old(s).pos < old(s).tokens.len() && (old(s).tokens@[old(s).pos as int]@
            is Symtrue || old(s).tokens@[old(s).pos as int]@ is Symfalse),
        r matches Ok(b) ==> b == (old(s).tokens@[old(s).pos as int]@ is Symtrue) && final(s).pos
            == old(s).pos + 1,
        r matches Err(e) ==> final(s).pos == old(s).pos && e.kind == ErrorKind::Syntax,
{
    let next: Option<bool> = match s.peek() {
        Some(t) => match t {
            Token::Symtrue => Some(true),
            Token::Symfalse => Some(false),
            _ => None,
        },
        None => None,
    };
    match next {
        Some(b) => {
            s.advance();
            Ok(b)
        },
        None => Err(TokenizationError::of_kind(ErrorKind::Syntax, "expected a boolean")),
    }
}

/// Read a parenthesized three-component vector `(x, y, z)`.
pub fn parse_vector3(s: &mut TokenStream) -> (r: Result<Vec3, TokenizationError>)
    requires
        old(s).wf(),
    ensures
        final(s).tokens == old(s).tokens,
        final(s).wf(),
        final(s).pos >= old(s).pos,
        r is Ok <==> vec3_at(old(s).tokens@, old(s).pos as int),
        r matches Ok(v) ==> vec3_wf(v) && final(s).pos == old(s).pos + 7 && v == vec3_val(
            old(s).tokens@,
            old(s).pos as int,
        ),
        r matches Err(e) ==> e.kind == ErrorKind::Syntax,
{
    match s.read(&Token::LParen) {
        Ok(_) => {},
        Err(e) => { return Err(e); },
    }
    let x = match parse_scalar(s) {
        Ok(v) => v,
        Err(e) => { return Err(e); },
    };
    match s.read(&Token::Comma) {
        Ok(_) => {},
        Err(e) => { return Err(e); },
    }
    let y = match parse_scalar(s) {
        Ok(v) => v,
        Err(e) => { return Err(e); },
    };
    match s.read(&Token::Comma) {
        Ok(_) => {},
        Err(e) => { return Err(e); },
    }
    let z = match parse_scalar(s) {
        Ok(v) => v,
        Err(e) => { return Err(e); },
    };
    match s.read(&Token::RParen) {
        Ok(_) => {},
        Err(e) => { return Err(e); },
    }
    Ok(Vec3 { x, y, z })
}

/// Read a parenthesized four-component vector `(x, y, z, w)`.
pub fn parse_vector4(s: &mut TokenStream) -> (r: Result<(Rat, Rat, Rat, Rat), TokenizationError>)
    requires
        old(s).wf(),
    ensures
        final(s).tokens == old(s).tokens,
        final(s).wf(),
        final(s).pos >= old(s).pos,
        r is Ok <==> vec4_at(old(s).tokens@, old(s).pos as int),
        r matches Ok(v) ==> rat_wf(v.0) && rat_wf(v.1) && rat_wf(v.2) && rat_wf(v.3)
            && final(s).pos == old(s).pos + 9 && v == vec4_val(old(s).tokens@, old(s).pos as int),
        r matches Err(e) ==> e.kind == ErrorKind::Syntax,
{
    match s.read(&Token::LParen) {
        Ok(_) => {},
        Err(e) => { return Err(e); },
    }
    let x = match parse_scalar(s) {
        Ok(v) => v,
        Err(e) => { return Err(e); },
    };
    match s.read(&Token::Comma) {
        Ok(_) => {},
        Err(e) => { return Err(e); },
    }
    let y = match parse_scalar(s) {
        Ok(v) => v,
        Err(e) => { return Err(e); },
    };
    match s.read(&Token::Comma) {
        Ok(_) => {},
        Err(e) => { return Err(e); },
    }
    let z = match parse_scalar(s) {
        Ok(v) => v,
        Err(e) => { return Err(e); },
    };
    match s.read(&Token::Comma) {
        Ok(_) => {},
        Err(e) => { return Err(e); },
    }
    let w = match parse_scalar(s) {
        Ok(v) => v,
        Err(e) => { return Err(e); },
    };
    match s.read(&Token::RParen) {
        Ok(_) => {},
        Err(e) => { return Err(e); },
    }
    Ok((x, y, z, w))
}

/// Read one `<field> = <scalar> ;` assignment, field keyword included:
/// succeeds exactly when those four tokens stand at the cursor, consuming
/// them and returning the scalar's exact value.
pub fn parse_scalar_expression(s: &mut TokenStream) -> (r: Result<Rat, TokenizationError>)
    requires
        old(s).wf(),
    ensures
        final(s).tokens == old(s).tokens,
        final(s).wf(),
        final(s).pos >= old(s).pos,
        r is Ok <==> old(s).pos < old(s).tokens.len() && variant_at(
            old(s).tokens@,
            old(s).pos + 1,
            Token::Equals,
        ) && scalar_at(old(s).tokens@, old(s).pos + 2) && variant_at(
            old(s).tokens@,
            old(s).pos + 3,
            Token::Semicolon,
        ),
        r matches Ok(v) ==> rat_wf(v) && v == tok_scalar(old(s).tokens@[old(s).pos + 2])
            && final(s).pos == old(s).pos + 4,
        r matches Err(e) ==> e.kind == ErrorKind::Syntax,
{
    match s.peek() {
        Some(_) => {},
        None => {
            return Err(TokenizationError::of_kind(ErrorKind::Syntax, "out of tokens"));
        },
    }
    s.advance();
    match s.read(&Token::Equals) {
        Ok(_) => {},
        Err(e) => { return Err(e); },
    }
    let v = match parse_scalar(s) {
        Ok(v) => v,
        Err(e) => { return Err(e); },
    };
    match s.read(&Token::Semicolon) {
        Ok(_) => {},
        Err(e) => { return Err(e); },
    }
    Ok(v)
}

/// Read one `<field> = <boolean> ;` assignment, field keyword included:
/// succeeds exactly when those four tokens stand at the cursor, consuming
/// them and returning the symbol's truth value.
pub fn parse_boolean_expression(s: &mut TokenStream) -> (r: Result<bool, TokenizationError>)
    requires
        old(s).wf(),
    ensures
        final(s).tokens == old(s).tokens,
        final(s).wf(),
        final(s).pos >= old(s).pos,
        r is Ok <==> old(s).pos < old(s).tokens.len() && variant_at(
            old(s).tokens@,
            old(s).pos + 1,
            Token::Equals,
        ) && old(s).pos + 2 < old(s).tokens.len() && (old(s).tokens@[old(s).pos + 2]@ is Symtrue
            || old(s).tokens@[old(s).pos + 2]@ is Symfalse) && variant_at(
            old(s).tokens@,
            old(s).pos + 3,
            Token::Semicolon,
        ),
        r matches Ok(b) ==> b == (old(s).tokens@[old(s).pos + 2]@ is Symtrue) && final(s).pos
            == old(s).pos + 4,
        r matches Err(e) ==> e.kind == ErrorKind::Syntax,
{
    match s.peek() {
        Some(_) => {},
        None => {
            return Err(TokenizationError::of_kind(ErrorKind::Syntax, "out of tokens"));
        },
    }
    s.advance();
    match s.read(&Token::Equals) {
        Ok(_) => {},
        Err(e) => { return Err(e); },
    }
    let v = match parse_boolean(s) {
        Ok(v) => v,
        Err(e) => { return Err(e); },
    };
    match s.read(&Token::Semicolon) {
        Ok(_) => {},
        Err(e) => { return Err(e); },
    }
    Ok(v)
}

/// Read one `<field> = (x, y, z) ;` assignment, field keyword included:
/// succeeds exactly when those ten tokens stand at the cursor, consuming
/// them and returning the vector's exact components.
pub fn parse_vector3_expression(s: &mut TokenStream) -> (r: Result<Vec3, TokenizationError>)
    requires
        old(s).wf(),
    ensures
        final(s).tokens == old(s).tokens,
        final(s).wf(),
        final(s).pos >= old(s).pos,
        r is Ok <==> old(s).pos < old(s).tokens.len() && variant_at(
            old(s).tokens@,
            old(s).pos + 1,
            Token::Equals,
        ) && vec3_at(old(s).tokens@, old(s).pos + 2) && variant_at(
            old(s).tokens@,
            old(s).pos + 9,
            Token::Semicolon,
        ),
        r matches Ok(v) ==> vec3_wf(v) && v == vec3_val(old(s).tokens@, old(s).pos + 2)
            && final(s).pos == old(s).pos + 10,
        r matches Err(e) ==> e.kind == ErrorKind::Syntax,
{
    match s.peek() {
        Some(_) => {},
        None => {
            return Err(TokenizationError::of_kind(ErrorKind::Syntax, "out of tokens"));
        },
    }
    s.advance();
    match s.read(&Token::Equals) {
        Ok(_) => {},
        Err(e) => { return Err(e); },
    }
    let v = match parse_vector3(s) {
        Ok(v) => v,
        Err(e) => { return Err(e); },
    };
    match s.read(&Token::Semicolon) {
        Ok(_) => {},
        Err(e) => { return Err(e); },
    }
    Ok(v)
}

/// Read one `<field> = (x, y, z, w) ;` assignment, field keyword included.
pub fn parse_vector4_expression(s: &mut TokenStream) -> (r: Result<
    (Rat, Rat, Rat, Rat),
    TokenizationError,
>)
    requires
        old(s).wf(),
    ensures
        final(s).tokens == old(s).tokens,
        final(s).wf(),
        final(s).pos >= old(s).pos,
        r is Ok <==> old(s).pos < old(s).tokens.len() && variant_at(
            old(s).tokens@,
            old(s).pos + 1,
            Token::Equals,
        ) && vec4_at(old(s).tokens@, old(s).pos + 2) && variant_at(
            old(s).tokens@,
            old(s).pos + 11,
            Token::Semicolon,
        ),
        r matches Ok(v) ==> rat_wf(v.0) && rat_wf(v.1) && rat_wf(v.2) && rat_wf(v.3) && v
            == vec4_val(old(s).tokens@, old(s).pos + 2) && final(s).pos == old(s).pos + 12,
        r matches Err(e) ==> e.kind == ErrorKind::Syntax,
{
    match s.peek() {
        Some(_) => {},
        None => {
            return Err(TokenizationError::of_kind(ErrorKind::Syntax, "out of tokens"));
        },
    }
    s.advance();
    match s.read(&Token::Equals) {
        Ok(_) => {},
        Err(e) => { return Err(e); },
    }
    let v = match parse_vector4(s) {
        Ok(v) => v,
        Err(e) => { return Err(e); },
    };
    match s.read(&Token::Semicolon) {
        Ok(_) => {},
        Err(e) => { return Err(e); },
    }
    Ok(v)
}

/// Read one `<field> = '<text>' ;` assignment, field keyword included; the
/// string payload is returned with its quotes as lexed.
pub fn parse_string_expression(s: &mut TokenStream) -> (r: Result<Vec<char>, TokenizationError>)
    requires
        old(s).wf(),
    ensures
        final(s).tokens == old(s).tokens,
        final(s).wf(),
        final(s).pos >= old(s).pos,
        r is Ok <==> old(s).pos < old(s).tokens.len() && variant_at(
            old(s).tokens@,
            old(s).pos + 1,
            Token::Equals,
        ) && old(s).pos + 2 < old(s).tokens.len() && (old(s).tokens@[old(s).pos + 2]@
            matches TokenV::StrLit(w)) && variant_at(
            old(s).tokens@,
            old(s).pos + 3,
            Token::Semicolon,
        ),
        r matches Ok(text) ==> final(s).pos == old(s).pos + 4 && old(s).tokens@[
            old(s).pos + 2
        ]@ == TokenV::StrLit(text@) && text@ == tok_chars(old(s).tokens@[old(s).pos + 2]),
        r matches Err(e) ==> e.kind == ErrorKind::Syntax,
{
    match s.peek() {
        Some(_) => {},
        None => {
            return Err(TokenizationError::of_kind(ErrorKind::Syntax, "out of tokens"));
        },
    }
    s.advance();
    match s.read(&Token::Equals) {
        Ok(_) => {},
        Err(e) => { return Err(e); },
    }
    let text_opt: Option<Vec<char>> = match s.peek() {
        Some(t) => match t {
            Token::StrLit(w) => Some(crate::token::copy_chars(w)),
            _ => None,
        },
        None => None,
    };
    let text = match text_opt {
        Some(tx) => tx,
        None => {
            return Err(TokenizationError::of_kind(ErrorKind::Syntax, "expected a string literal"));
        },
    };
    s.advance();
    match s.read(&Token::Semicolon) {
        Ok(_) => {},
        Err(e) => { return Err(e); },
    }
    Ok(text)
}

/// The error for a field name the enclosing block does not recognize.
fn unknown_field_err() -> (e: TokenizationError)
    ensures
        e.kind == ErrorKind::Semantic,
{
    TokenizationError::of_kind(ErrorKind::Semantic, "unknown field name in block")
}

/// The error for a token that cannot stand where it does.
fn unexpected_token_err() -> (e: TokenizationError)
    ensures
        e.kind == ErrorKind::Syntax,
{
    TokenizationError::of_kind(ErrorKind::Syntax, "unexpected token")
}

/// The error for input that ends where more was required.
fn out_of_tokens_err() -> (e: TokenizationError)
    ensures
        e.kind == ErrorKind::Syntax,
{
    TokenizationError::of_kind(ErrorKind::Syntax, "out of tokens")
}

/// The mathematical value of a material block: each field as parsed, the
/// name as a character sequence.
pub ghost struct MaterialV {
    pub emissive: Option<Vec3>,
    pub ambient: Option<Vec3>,
    pub specular: Option<Vec3>,
    pub reflective: Option<Vec3>,
    pub diffuse: Option<Vec3>,
    pub transmissive: Option<Vec3>,
    pub shininess: Option<Rat>,
    pub index: Option<Rat>,
    pub name: Option<Seq<char>>,
}

/// The character sequence of an optional character vector.
pub open spec fn opt_chars(o: Option<Vec<char>>) -> Option<Seq<char>> {
    match o {
        Some(w) => Some(w@),
        None => None,
    }
}

/// The mathematical value a material holds.
pub open spec fn material_mirror(m: Material) -> MaterialV {
    MaterialV {
        emissive: m.emissive,
        ambient: m.ambient,
        specular: m.specular,
        reflective: m.reflective,
        diffuse: m.diffuse,
        transmissive: m.transmissive,
        shininess: m.shininess,
        index: m.index,
        name: opt_chars(m.name),
    }
}

/// The mathematical value of an optional material.
pub open spec fn opt_material_mirror(o: Option<Material>) -> Option<MaterialV> {
    match o {
        Some(m) => Some(material_mirror(m)),
        None => None,
    }
}

/// The material value with no field set.
pub open spec fn material_v_empty() -> MaterialV {
    MaterialV {
        emissive: None,
        ambient: None,
        specular: None,
        reflective: None,
        diffuse: None,
        transmissive: None,
        shininess: None,
        index: None,
        name: None,
    }
}

/// Interpret the body of a `material = { ... }` block from position `p`
/// (just past the opening brace), folding each `<field> = <value> ;`
/// assignment over `acc` — later assignments to a field win — until the
/// closing `} ;`, whose end position is returned. An unknown field name is
/// the semantic fault; any other failure of shape is the syntactic fault.
pub open spec fn material_body(ts: Seq<Token>, p: int, acc: MaterialV) -> BlockOut<MaterialV>
    decreases ts.len() - p,
{
    if p < 0 || p >= ts.len() {
        BlockOut::Syn
    } else {
        match ts[p] {
            Token::RBrace => if variant_at(ts, p + 1, Token::Semicolon) {
                BlockOut::Done(acc, p + 2)
            } else {
                BlockOut::Syn
            },
            Token::Emissive => if vec3_expr_at(ts, p) {
                material_body(ts, p + 10, MaterialV { emissive: Some(vec3_val(ts, p + 2)), ..acc })
            } else {
                BlockOut::Syn
            },
            Token::Ambient => if vec3_expr_at(ts, p) {
                material_body(ts, p + 10, MaterialV { ambient: Some(vec3_val(ts, p + 2)), ..acc })
            } else {
                BlockOut::Syn
            },
            Token::Specular => if vec3_expr_at(ts, p) {
                material_body(ts, p + 10, MaterialV { specular: Some(vec3_val(ts, p + 2)), ..acc })
            } else {
                BlockOut::Syn
            },
            Token::Reflective => if vec3_expr_at(ts, p) {
                material_body(
                    ts,
                    p + 10,
                    MaterialV { reflective: Some(vec3_val(ts, p + 2)), ..acc },
                )
            } else {
                BlockOut::Syn
            },
            Token::Diffuse => if vec3_expr_at(ts, p) {
                material_body(ts, p + 10, MaterialV { diffuse: Some(vec3_val(ts, p + 2)), ..acc })
            } else {
                BlockOut::Syn
            },
            Token::Transmissive => if vec3_expr_at(ts, p) {
                material_body(
                    ts,
                    p + 10,
                    MaterialV { transmissive: Some(vec3_val(ts, p + 2)), ..acc },
                )
            } else {
                BlockOut::Syn
            },
            Token::Shininess => if scalar_expr_at(ts, p) {
                material_body(
                    ts,
                    p + 4,
                    MaterialV { shininess: Some(tok_scalar(ts[p + 2])), ..acc },
                )
            } else {
                BlockOut::Syn
            },
            Token::Index => if scalar_expr_at(ts, p) {
                material_body(ts, p + 4, MaterialV { index: Some(tok_scalar(ts[p + 2])), ..acc })
            } else {
                BlockOut::Syn
            },
            Token::Name => if str_expr_at(ts, p) {
                material_body(ts, p + 4, MaterialV { name: Some(tok_chars(ts[p + 2])), ..acc })
            } else {
                BlockOut::Syn
            },
            Token::Ident(_) => BlockOut::Sem,
            _ => BlockOut::Syn,
        }
    }
}

/// Interpret a whole `material = { ... } ;` assignment standing at `p`.
pub open spec fn material_assign_out(ts: Seq<Token>, p: int) -> BlockOut<MaterialV> {
    if variant_at(ts, p, Token::Material) && variant_at(ts, p + 1, Token::Equals) && variant_at(
        ts,
        p + 2,
        Token::LBrace,
    ) {
        material_body(ts, p + 3, material_v_empty())
    } else {
        BlockOut::Syn
    }
}

/// Parse `material = { <fields> } ;` — the `material` keyword, then an
/// unordered sequence of color, scalar and name assignments: succeeds
/// exactly when the tokens at the cursor derive the production, returning
/// its interpreted value and consuming through the closing `} ;`; an
/// unknown field name is a semantic error, any other fault a syntax error.
#[verifier::rlimit(100)]
pub fn parse_material_assignment(s: &mut TokenStream) -> (r: Result<Material, TokenizationError>)
    requires
        old(s).wf(),
    ensures
        final(s).tokens == old(s).tokens,
        final(s).wf(),
        final(s).pos >= old(s).pos,
        r is Ok ==> material_wf(r.unwrap()) && final(s).pos > old(s).pos,
        r is Ok <==> material_assign_out(old(s).tokens@, old(s).pos as int) is Done,
        r matches Ok(m) ==> (material_assign_out(old(s).tokens@, old(s).pos as int)
            matches BlockOut::Done(mv, end) && material_mirror(m) == mv && final(s).pos == end),
        material_assign_out(old(s).tokens@, old(s).pos as int) is Sem ==> (r matches Err(e)
            && e.kind == ErrorKind::Semantic),
        material_assign_out(old(s).tokens@, old(s).pos as int) is Syn ==> (r matches Err(e)
            && e.kind == ErrorKind::Syntax),
        r matches Err(e) ==> e.kind == ErrorKind::Syntax || e.kind == ErrorKind::Semantic,
{
    match s.read(&Token::Material) {
        Ok(_) => {},
        Err(e) => { return Err(e); },
    }
    match s.read(&Token::Equals) {
        Ok(_) => {},
        Err(e) => { return Err(e); },
    }
    match s.read(&Token::LBrace) {
        Ok(_) => {},
        Err(e) => { return Err(e); },
    }
    let mut m = Material::empty();
    loop
        invariant
            s.wf(),
            s.tokens == old(s).tokens,
            s.pos > old(s).pos,
            material_wf(m),
            material_body(old(s).tokens@, s.pos as int, material_mirror(m)) == material_assign_out(
                old(s).tokens@,
                old(s).pos as int,
            ),
        decreases s.tokens.len() - s.pos,
    {
        match material_step(s, &mut m) {
            Ok(true) => {
                return Ok(m);
            },
            Ok(false) => {},
            Err(e) => { return Err(e); },
        }
    }
}

/// Consume one step of a material block's body: the closing `} ;` (the
/// answer `true`), or one field assignment folded into `m` (the answer
/// `false`), stepping the interpretation accordingly.
#[verifier::rlimit(100)]
fn material_step(s: &mut TokenStream, m: &mut Material) -> (r: Result<bool, TokenizationError>)
    requires
        old(s).wf(),
        material_wf(*old(m)),
    ensures
        final(s).tokens == old(s).tokens,
        final(s).wf(),
        material_wf(*final(m)),
        r is Ok ==> final(s).pos > old(s).pos,
        r matches Ok(done) ==> (if done {
            material_body(old(s).tokens@, old(s).pos as int, material_mirror(*old(m)))
                == BlockOut::<MaterialV>::Done(material_mirror(*final(m)), final(s).pos as int)
        } else {
            material_body(old(s).tokens@, old(s).pos as int, material_mirror(*old(m)))
                == material_body(old(s).tokens@, final(s).pos as int, material_mirror(*final(m)))
        }),
        r matches Err(e) ==> !(material_body(
            old(s).tokens@,
            old(s).pos as int,
            material_mirror(*old(m)),
        ) is Done) && (material_body(old(s).tokens@, old(s).pos as int, material_mirror(*old(m)))
            is Sem ==> e.kind == ErrorKind::Semantic) && (material_body(
            old(s).tokens@,
            old(s).pos as int,
            material_mirror(*old(m)),
        ) is Syn ==> e.kind == ErrorKind::Syntax) && (e.kind == ErrorKind::Syntax || e.kind
            == ErrorKind::Semantic) && final(s).pos >= old(s).pos,
{
    {
        let kind: u32 = match s.peek() {
            None => {
                return Err(out_of_tokens_err());
            },
            Some(t) => match t {
                Token::RBrace => 0,
                Token::Emissive => 1,
                Token::Ambient => 2,
                Token::Specular => 3,
                Token::Reflective => 4,
                Token::Diffuse => 5,
                Token::Transmissive => 6,
                Token::Shininess => 7,
                Token::Index => 8,
                Token::Name => 9,
                Token::Ident(_) => 10,
                _ => 11,
            },
        };
        if kind == 0 {
            s.advance();
            match s.read(&Token::Semicolon) {
                Ok(_) => {},
                Err(e) => { return Err(e); },
            }
            return Ok(true);
        } else if kind == 1 {
            let v = match parse_vector3_expression(s) {
                Ok(v) => v,
                Err(e) => { return Err(e); },
            };
            m.emissive = Some(v);
        } else if kind == 2 {
            let v = match parse_vector3_expression(s) {
                Ok(v) => v,
                Err(e) => { return Err(e); },
            };
            m.ambient = Some(v);
        } else if kind == 3 {
            let v = match parse_vector3_expression(s) {
                Ok(v) => v,
                Err(e) => { return Err(e); },
            };
            m.specular = Some(v);
        } else if kind == 4 {
            let v = match parse_vector3_expression(s) {
                Ok(v) => v,
                Err(e) => { return Err(e); },
            };
            m.reflective = Some(v);
        } else if kind == 5 {
            let v = match parse_vector3_expression(s) {
                Ok(v) => v,
                Err(e) => { return Err(e); },
            };
            m.diffuse = Some(v);
        } else if kind == 6 {
            let v = match parse_vector3_expression(s) {
                Ok(v) => v,
                Err(e) => { return Err(e); },
            };
            m.transmissive = Some(v);
        } else if kind == 7 {
            let v = match parse_scalar_expression(s) {
                Ok(v) => v,
                Err(e) => { return Err(e); },
            };
            m.shininess = Some(v);
        } else if kind == 8 {
            let v = match parse_scalar_expression(s) {
                Ok(v) => v,
                Err(e) => { return Err(e); },
            };
            m.index = Some(v);
        } else if kind == 9 {
            let v = match parse_string_expression(s) {
                Ok(v) => v,
                Err(e) => { return Err(e); },
            };
            m.name = Some(v);
        } else if kind == 10 {
            return Err(unknown_field_err());
        } else {
            return Err(unexpected_token_err());
        }
    }
    Ok(false)
}

/// Interpret the body of a `camera { ... }` block from position `p` (just
/// past the opening brace): fold the field assignments over `acc` until
/// the closing brace, whose end position is returned.
pub open spec fn camera_body(ts: Seq<Token>, p: int, acc: Camera) -> BlockOut<Camera>
    decreases ts.len() - p,
{
    if p < 0 || p >= ts.len() {
        BlockOut::Syn
    } else {
        match ts[p] {
            Token::RBrace => BlockOut::Done(acc, p + 1),
            Token::Position => if vec3_expr_at(ts, p) {
                camera_body(ts, p + 10, Camera { position: vec3_val(ts, p + 2), ..acc })
            } else {
                BlockOut::Syn
            },
            Token::Viewdir => if vec3_expr_at(ts, p) {
                camera_body(ts, p + 10, Camera { viewdir: vec3_val(ts, p + 2), ..acc })
            } else {
                BlockOut::Syn
            },
            Token::Updir => if vec3_expr_at(ts, p) {
                camera_body(ts, p + 10, Camera { updir: vec3_val(ts, p + 2), ..acc })
            } else {
                BlockOut::Syn
            },
            Token::Aspectratio => if scalar_expr_at(ts, p) {
                camera_body(ts, p + 4, Camera { aspect_ratio: tok_scalar(ts[p + 2]), ..acc })
            } else {
                BlockOut::Syn
            },
            Token::Fov => if scalar_expr_at(ts, p) {
                camera_body(ts, p + 4, Camera { fov: tok_scalar(ts[p + 2]), ..acc })
            } else {
                BlockOut::Syn
            },
            Token::Ident(_) => BlockOut::Sem,
            _ => BlockOut::Syn,
        }
    }
}

/// Interpret a whole `camera { ... }` block standing at `p`, from the
/// all-zero defaults.
pub open spec fn camera_out(ts: Seq<Token>, p: int) -> BlockOut<Camera> {
    if variant_at(ts, p, Token::Camera) && variant_at(ts, p + 1, Token::LBrace) {
        camera_body(ts, p + 2, camera_zero())
    } else {
        BlockOut::Syn
    }
}

/// Parse `camera { <fields> }`: position, viewdir, updir, aspectratio, fov,
/// in any order; fields left out keep their zero defaults. Succeeds exactly
/// when the tokens at the cursor derive the block, returning its
/// interpreted field values and consuming through the closing brace; an
/// unknown field name is a semantic error, any other fault a syntax error.
#[verifier::rlimit(50)]
pub fn parse_camera_block(s: &mut TokenStream) -> (r: Result<Camera, TokenizationError>)
    requires
        old(s).wf(),
    ensures
        final(s).tokens == old(s).tokens,
        final(s).wf(),
        final(s).pos >= old(s).pos,
        r is Ok ==> camera_wf(r.unwrap()) && final(s).pos > old(s).pos,
        r is Ok <==> camera_out(old(s).tokens@, old(s).pos as int) is Done,
        r matches Ok(c) ==> (camera_out(old(s).tokens@, old(s).pos as int)
            matches BlockOut::Done(cv, end) && c == cv && final(s).pos == end),
        camera_out(old(s).tokens@, old(s).pos as int) is Sem ==> (r matches Err(e) && e.kind
            == ErrorKind::Semantic),
        camera_out(old(s).tokens@, old(s).pos as int) is Syn ==> (r matches Err(e) && e.kind
            == ErrorKind::Syntax),
        r matches Err(e) ==> e.kind == ErrorKind::Syntax || e.kind == ErrorKind::Semantic,
{
    match s.read(&Token::Camera) {
        Ok(_) => {},
        Err(e) => { return Err(e); },
    }
    match s.read(&Token::LBrace) {
        Ok(_) => {},
        Err(e) => { return Err(e); },
    }
    let mut cam = Camera::new();
    loop
        invariant
            s.wf(),
            s.tokens == old(s).tokens,
            s.pos > old(s).pos,
            camera_wf(cam),
            camera_body(old(s).tokens@, s.pos as int, cam) == camera_out(
                old(s).tokens@,
                old(s).pos as int,
            ),
        decreases s.tokens.len() - s.pos,
    {
        let kind: u32 = match s.peek() {
            None => {
                return Err(out_of_tokens_err());
            },
            Some(t) => match t {
                Token::RBrace => 0,
                Token::Position => 1,
                Token::Viewdir => 2,
                Token::Updir => 3,
                Token::Aspectratio => 4,
                Token::Fov => 5,
                Token::Ident(_) => 6,
                _ => 7,
            },
        };
        if kind == 0 {
            s.advance();
            return Ok(cam);
        } else if kind == 1 {
            let v = match parse_vector3_expression(s) {
                Ok(v) => v,
                Err(e) => { return Err(e); },
            };
            cam.position = v;
        } else if kind == 2 {
            let v = match parse_vector3_expression(s) {
                Ok(v) => v,
                Err(e) => { return Err(e); },
            };
            cam.viewdir = v;
        } else if kind == 3 {
            let v = match parse_vector3_expression(s) {
                Ok(v) => v,
                Err(e) => { return Err(e); },
            };
            cam.updir = v;
        } else if kind == 4 {
            let v = match parse_scalar_expression(s) {
                Ok(v) => v,
                Err(e) => { return Err(e); },
            };
            cam.aspect_ratio = v;
        } else if kind == 5 {
            let v = match parse_scalar_expression(s) {
                Ok(v) => v,
                Err(e) => { return Err(e); },
            };
            cam.fov = v;
        } else if kind == 6 {
            return Err(unknown_field_err());
        } else {
            return Err(unexpected_token_err());
        }
    }
}

/// Interpret the body of a `point_light { ... }` block from position `p`
/// (just past the opening brace): fold the field assignments over the
/// accumulated position, color and attenuation coefficients until the
/// closing brace, whose end position is returned with the finished light.
pub open spec fn point_light_body(
    ts: Seq<Token>,
    p: int,
    pos: Vec3,
    color: Vec3,
    ca: Rat,
    la: Rat,
    qa: Rat,
) -> BlockOut<Light>
    decreases ts.len() - p,
{
    if p < 0 || p >= ts.len() {
        BlockOut::Syn
    } else {
        match ts[p] {
            Token::RBrace => BlockOut::Done(
                Light { light_type: LightType::PointLight { pos, a: ca, b: la, c: qa }, color },
                p + 1,
            ),
            Token::Position => if vec3_expr_at(ts, p) {
                point_light_body(ts, p + 10, vec3_val(ts, p + 2), color, ca, la, qa)
            } else {
                BlockOut::Syn
            },
            Token::Color => if vec3_expr_at(ts, p) {
                point_light_body(ts, p + 10, pos, vec3_val(ts, p + 2), ca, la, qa)
            } else {
                BlockOut::Syn
            },
            Token::ConstantAttenuationCoeff => if scalar_expr_at(ts, p) {
                point_light_body(ts, p + 4, pos, color, tok_scalar(ts[p + 2]), la, qa)
            } else {
                BlockOut::Syn
            },
            Token::LinearAttenuationCoeff => if scalar_expr_at(ts, p) {
                point_light_body(ts, p + 4, pos, color, ca, tok_scalar(ts[p + 2]), qa)
            } else {
                BlockOut::Syn
            },
            Token::QuadraticAttenuationCoeff => if scalar_expr_at(ts, p) {
                point_light_body(ts, p + 4, pos, color, ca, la, tok_scalar(ts[p + 2]))
            } else {
                BlockOut::Syn
            },
            Token::Ident(_) => BlockOut::Sem,
            _ => BlockOut::Syn,
        }
    }
}

/// Interpret a whole `point_light { ... }` block standing at `p`, from the
/// zero defaults.
pub open spec fn point_light_out(ts: Seq<Token>, p: int) -> BlockOut<Light> {
    if variant_at(ts, p, Token::PointLight) && variant_at(ts, p + 1, Token::LBrace) {
        point_light_body(ts, p + 2, vec3_zero(), vec3_zero(), rat_zero(), rat_zero(), rat_zero())
    } else {
        BlockOut::Syn
    }
}

/// Parse `point_light { <fields> }`: position, color (either spelling) and
/// the three attenuation coefficients, in any order; missing fields keep
/// zero defaults. Succeeds exactly when the tokens at the cursor derive
/// the block, returning the interpreted light and consuming through the
/// closing brace; an unknown field name is a semantic error, any other
/// fault a syntax error.
#[verifier::rlimit(100)]
pub fn parse_point_light_block(s: &mut TokenStream) -> (r: Result<Light, TokenizationError>)
    requires
        old(s).wf(),
    ensures
        final(s).tokens == old(s).tokens,
        final(s).wf(),
        final(s).pos >= old(s).pos,
        r is Ok ==> light_wf(r.unwrap()) && final(s).pos > old(s).pos,
        r is Ok <==> point_light_out(old(s).tokens@, old(s).pos as int) is Done,
        r matches Ok(l) ==> (point_light_out(old(s).tokens@, old(s).pos as int)
            matches BlockOut::Done(lv, end) && l == lv && final(s).pos == end),
        point_light_out(old(s).tokens@, old(s).pos as int) is Sem ==> (r matches Err(e) && e.kind
            == ErrorKind::Semantic),
        point_light_out(old(s).tokens@, old(s).pos as int) is Syn ==> (r matches Err(e) && e.kind
            == ErrorKind::Syntax),
        r matches Err(e) ==> e.kind == ErrorKind::Syntax || e.kind == ErrorKind::Semantic,
{
    match s.read(&Token::PointLight) {
        Ok(_) => {},
        Err(e) => { return Err(e); },
    }
    match s.read(&Token::LBrace) {
        Ok(_) => {},
        Err(e) => { return Err(e); },
    }
    let mut pos = Vec3::zero();
    let mut color = Vec3::zero();
    let mut ca = Rat::zero();
    let mut la = Rat::zero();
    let mut qa = Rat::zero();
    loop
        invariant
            s.wf(),
            s.tokens == old(s).tokens,
            s.pos > old(s).pos,
            vec3_wf(pos),
            vec3_wf(color),
            rat_wf(ca),
            rat_wf(la),
            rat_wf(qa),
            point_light_body(old(s).tokens@, s.pos as int, pos, color, ca, la, qa)
                == point_light_out(old(s).tokens@, old(s).pos as int),
        decreases s.tokens.len() - s.pos,
    {
        let kind: u32 = match s.peek() {
            None => {
                return Err(out_of_tokens_err());
            },
            Some(t) => match t {
                Token::RBrace => 0,
                Token::Position => 1,
                Token::Color => 2,
                Token::ConstantAttenuationCoeff => 3,
                Token::LinearAttenuationCoeff => 4,
                Token::QuadraticAttenuationCoeff => 5,
                Token::Ident(_) => 6,
                _ => 7,
            },
        };
        if kind == 0 {
            s.advance();
            return Ok(Light {
                light_type: LightType::PointLight { pos, a: ca, b: la, c: qa },
                color,
            });
        } else if kind == 1 {
            let v = match parse_vector3_expression(s) {
                Ok(v) => v,
                Err(e) => { return Err(e); },
            };
            pos = v;
        } else if kind == 2 {
            let v = match parse_vector3_expression(s) {
                Ok(v) => v,
                Err(e) => { return Err(e); },
            };
            color = v;
        } else if kind == 3 {
            let v = match parse_scalar_expression(s) {
                Ok(v) => v,
                Err(e) => { return Err(e); },
            };
            ca = v;
        } else if kind == 4 {
            let v = match parse_scalar_expression(s) {
                Ok(v) => v,
                Err(e) => { return Err(e); },
            };
            la = v;
        } else if kind == 5 {
            let v = match parse_scalar_expression(s) {
                Ok(v) => v,
                Err(e) => { return Err(e); },
            };
            qa = v;
        } else if kind == 6 {
            return Err(unknown_field_err());
        } else {
            return Err(unexpected_token_err());
        }
    }
}

/// Interpret the body of a `directional_light { ... }` block from
/// position `p` (just past the opening brace).
pub open spec fn directional_light_body(ts: Seq<Token>, p: int, direction: Vec3, color: Vec3)
    -> BlockOut<Light>
    decreases ts.len() - p,
{
    if p < 0 || p >= ts.len() {
        BlockOut::Syn
    } else {
        match ts[p] {
            Token::RBrace => BlockOut::Done(
                Light { light_type: LightType::DirectionalLight { orientation: direction }, color },
                p + 1,
            ),
            Token::Direction => if vec3_expr_at(ts, p) {
                directional_light_body(ts, p + 10, vec3_val(ts, p + 2), color)
            } else {
                BlockOut::Syn
            },
            Token::Color => if vec3_expr_at(ts, p) {
                directional_light_body(ts, p + 10, direction, vec3_val(ts, p + 2))
            } else {
                BlockOut::Syn
            },
            Token::Ident(_) => BlockOut::Sem,
            _ => BlockOut::Syn,
        }
    }
}

/// Interpret a whole `directional_light { ... }` block standing at `p`,
/// from the zero defaults.
pub open spec fn directional_light_out(ts: Seq<Token>, p: int) -> BlockOut<Light> {
    if variant_at(ts, p, Token::DirectionalLight) && variant_at(ts, p + 1, Token::LBrace) {
        directional_light_body(ts, p + 2, vec3_zero(), vec3_zero())
    } else {
        BlockOut::Syn
    }
}

/// Parse `directional_light { <fields> }`: direction and color (either
/// spelling), in any order; missing fields keep zero defaults. Succeeds
/// exactly when the tokens at the cursor derive the block, returning the
/// interpreted light and consuming through the closing brace; an unknown
/// field name is a semantic error, any other fault a syntax error.
#[verifier::rlimit(100)]
pub fn parse_directional_light_block(s: &mut TokenStream) -> (r: Result<Light, TokenizationError>)
    requires
        old(s).wf(),
    ensures
        final(s).tokens == old(s).tokens,
        final(s).wf(),
        final(s).pos >= old(s).pos,
        r is Ok ==> light_wf(r.unwrap()) && final(s).pos > old(s).pos,
        r is Ok <==> directional_light_out(old(s).tokens@, old(s).pos as int) is Done,
        r matches Ok(l) ==> (directional_light_out(old(s).tokens@, old(s).pos as int)
            matches BlockOut::Done(lv, end) && l == lv && final(s).pos == end),
        directional_light_out(old(s).tokens@, old(s).pos as int) is Sem ==> (r matches Err(e)
            && e.kind == ErrorKind::Semantic),
        directional_light_out(old(s).tokens@, old(s).pos as int) is Syn ==> (r matches Err(e)
            && e.kind == ErrorKind::Syntax),
        r matches Err(e) ==> e.kind == ErrorKind::Syntax || e.kind == ErrorKind::Semantic,
{
    match s.read(&Token::DirectionalLight) {
        Ok(_) => {},
        Err(e) => { return Err(e); },
    }
    match s.read(&Token::LBrace) {
        Ok(_) => {},
        Err(e) => { return Err(e); },
    }
    let mut direction = Vec3::zero();
    let mut color = Vec3::zero();
    loop
        invariant
            s.wf(),
            s.tokens == old(s).tokens,
            s.pos > old(s).pos,
            vec3_wf(direction),
            vec3_wf(color),
            directional_light_body(old(s).tokens@, s.pos as int, direction, color)
                == directional_light_out(old(s).tokens@, old(s).pos as int),
        decreases s.tokens.len() - s.pos,
    {
        let kind: u32 = match s.peek() {
            None => {
                return Err(out_of_tokens_err());
            },
            Some(t) => match t {
                Token::RBrace => 0,
                Token::Direction => 1,
                Token::Color => 2,
                Token::Ident(_) => 3,
                _ => 4,
            },
        };
        if kind == 0 {
            s.advance();
            return Ok(Light {
                light_type: LightType::DirectionalLight { orientation: direction },
                color,
            });
        } else if kind == 1 {
            let v = match parse_vector3_expression(s) {
                Ok(v) => v,
                Err(e) => { return Err(e); },
            };
            direction = v;
        } else if kind == 2 {
            let v = match parse_vector3_expression(s) {
                Ok(v) => v,
                Err(e) => { return Err(e); },
            };
            color = v;
        } else if kind == 3 {
            return Err(unknown_field_err());
        } else {
            return Err(unexpected_token_err());
        }
    }
}

/// Interpret the body of an `ambient_light { ... }` block from position
/// `p` (just past the opening brace).
pub open spec fn ambient_body(ts: Seq<Token>, p: int, color: Vec3) -> BlockOut<Vec3>
    decreases ts.len() - p,
{
    if p < 0 || p >= ts.len() {
        BlockOut::Syn
    } else {
        match ts[p] {
            Token::RBrace => BlockOut::Done(color, p + 1),
            Token::Color => if vec3_expr_at(ts, p) {
                ambient_body(ts, p + 10, vec3_val(ts, p + 2))
            } else {
                BlockOut::Syn
            },
            Token::Ident(_) => BlockOut::Sem,
            _ => BlockOut::Syn,
        }
    }
}

/// Interpret a whole `ambient_light { ... }` block standing at `p`, from
/// the zero default.
pub open spec fn ambient_out(ts: Seq<Token>, p: int) -> BlockOut<Vec3> {
    if variant_at(ts, p, Token::AmbientLight) && variant_at(ts, p + 1, Token::LBrace) {
        ambient_body(ts, p + 2, vec3_zero())
    } else {
        BlockOut::Syn
    }
}

/// Parse `ambient_light { <fields> }`: a single color field (either
/// spelling); missing keeps the zero default. Succeeds exactly when the
/// tokens at the cursor derive the block, returning the interpreted color
/// and consuming through the closing brace; an unknown field name is a
/// semantic error, any other fault a syntax error.
#[verifier::rlimit(100)]
pub fn parse_ambient_light_block(s: &mut TokenStream) -> (r: Result<Vec3, TokenizationError>)
    requires
        old(s).wf(),
    ensures
        final(s).tokens == old(s).tokens,
        final(s).wf(),
        final(s).pos >= old(s).pos,
        r is Ok ==> vec3_wf(r.unwrap()) && final(s).pos > old(s).pos,
        r is Ok <==> ambient_out(old(s).tokens@, old(s).pos as int) is Done,
        r matches Ok(v) ==> (ambient_out(old(s).tokens@, old(s).pos as int)
            matches BlockOut::Done(av, end) && v == av && final(s).pos == end),
        ambient_out(old(s).tokens@, old(s).pos as int) is Sem ==> (r matches Err(e) && e.kind
            == ErrorKind::Semantic),
        ambient_out(old(s).tokens@, old(s).pos as int) is Syn ==> (r matches Err(e) && e.kind
            == ErrorKind::Syntax),
        r matches Err(e) ==> e.kind == ErrorKind::Syntax || e.kind == ErrorKind::Semantic,
{
    match s.read(&Token::AmbientLight) {
        Ok(_) => {},
        Err(e) => { return Err(e); },
    }
    match s.read(&Token::LBrace) {
        Ok(_) => {},
        Err(e) => { return Err(e); },
    }
    let mut color = Vec3::zero();
    loop
        invariant
            s.wf(),
            s.tokens == old(s).tokens,
            s.pos > old(s).pos,
            vec3_wf(color),
            ambient_body(old(s).tokens@, s.pos as int, color) == ambient_out(
                old(s).tokens@,
                old(s).pos as int,
            ),
        decreases s.tokens.len() - s.pos,
    {
        let kind: u32 = match s.peek() {
            None => {
                return Err(out_of_tokens_err());
            },
            Some(t) => match t {
                Token::RBrace => 0,
                Token::Color => 1,
                Token::Ident(_) => 2,
                _ => 3,
            },
        };
        if kind == 0 {
            s.advance();
            return Ok(color);
        } else if kind == 1 {
            let v = match parse_vector3_expression(s) {
                Ok(v) => v,
                Err(e) => { return Err(e); },
            };
            color = v;
        } else if kind == 2 {
            return Err(unknown_field_err());
        } else {
            return Err(unexpected_token_err());
        }
    }
}


// ---------------------------------------------------------------------------
// Local matrices
// ---------------------------------------------------------------------------

/// The rational one.
pub open spec fn rone() -> Rat {
    (Rat { num: 1, den: 1 })
}

/// The rational zero.
pub open spec fn rzero() -> Rat {
    (Rat { num: 0, den: 1 })
}

/// The entries of the translation matrix by `(x, y, z)`.
pub open spec fn translation_entries(x: Rat, y: Rat, z: Rat) -> Seq<Rat> {
    seq![
        rone(), rzero(), rzero(), x,
        rzero(), rone(), rzero(), y,
        rzero(), rzero(), rone(), z,
        rzero(), rzero(), rzero(), rone(),
    ]
}

/// The entries of the scale matrix with diagonal `(x, y, z, 1)`.
pub open spec fn scale_entries(x: Rat, y: Rat, z: Rat) -> Seq<Rat> {
    seq![
        x, rzero(), rzero(), rzero(),
        rzero(), y, rzero(), rzero(),
        rzero(), rzero(), z, rzero(),
        rzero(), rzero(), rzero(), rone(),
    ]
}

/// The entries of the matrix with the four given rows.
pub open spec fn rows_entries(
    r1: (Rat, Rat, Rat, Rat),
    r2: (Rat, Rat, Rat, Rat),
    r3: (Rat, Rat, Rat, Rat),
    r4: (Rat, Rat, Rat, Rat),
) -> Seq<Rat> {
    seq![
        r1.0, r1.1, r1.2, r1.3,
        r2.0, r2.1, r2.2, r2.3,
        r3.0, r3.1, r3.2, r3.3,
        r4.0, r4.1, r4.2, r4.3,
    ]
}

/// The translation matrix by `(x, y, z)`.
pub fn translation_matrix(x: Rat, y: Rat, z: Rat) -> (m: Mat)
    requires
        rat_wf(x),
        rat_wf(y),
        rat_wf(z),
    ensures
        mat_wf(m),
        m.n == 4,
        m.e@ == translation_entries(x, y, z),
{
    let mut e: Vec<Rat> = Vec::new();
    e.push(Rat::one());
    e.push(Rat::zero());
    e.push(Rat::zero());
    e.push(x);
    e.push(Rat::zero());
    e.push(Rat::one());
    e.push(Rat::zero());
    e.push(y);
    e.push(Rat::zero());
    e.push(Rat::zero());
    e.push(Rat::one());
    e.push(z);
    e.push(Rat::zero());
    e.push(Rat::zero());
    e.push(Rat::zero());
    e.push(Rat::one());
    proof {
        assert(e@ =~= translation_entries(x, y, z));
        assert(seq_rats_wf(e@));
    }
    Mat { n: 4, e }
}

/// The scale matrix with factors `(x, y, z)`.
pub fn scale_matrix(x: Rat, y: Rat, z: Rat) -> (m: Mat)
    requires
        rat_wf(x),
        rat_wf(y),
        rat_wf(z),
    ensures
        mat_wf(m),
        m.n == 4,
        m.e@ == scale_entries(x, y, z),
{
    let mut e: Vec<Rat> = Vec::new();
    e.push(x);
    e.push(Rat::zero());
    e.push(Rat::zero());
    e.push(Rat::zero());
    e.push(Rat::zero());
    e.push(y);
    e.push(Rat::zero());
    e.push(Rat::zero());
    e.push(Rat::zero());
    e.push(Rat::zero());
    e.push(z);
    e.push(Rat::zero());
    e.push(Rat::zero());
    e.push(Rat::zero());
    e.push(Rat::zero());
    e.push(Rat::one());
    proof {
        assert(e@ =~= scale_entries(x, y, z));
        assert(seq_rats_wf(e@));
    }
    Mat { n: 4, e }
}

/// The matrix whose rows are the four given rows, row-major as written.
pub fn mat4_from_rows(
    r1: (Rat, Rat, Rat, Rat),
    r2: (Rat, Rat, Rat, Rat),
    r3: (Rat, Rat, Rat, Rat),
    r4: (Rat, Rat, Rat, Rat),
) -> (m: Mat)
    requires
        rat_wf(r1.0) && rat_wf(r1.1) && rat_wf(r1.2) && rat_wf(r1.3),
        rat_wf(r2.0) && rat_wf(r2.1) && rat_wf(r2.2) && rat_wf(r2.3),
        rat_wf(r3.0) && rat_wf(r3.1) && rat_wf(r3.2) && rat_wf(r3.3),
        rat_wf(r4.0) && rat_wf(r4.1) && rat_wf(r4.2) && rat_wf(r4.3),
    ensures
        mat_wf(m),
        m.n == 4,
        m.e@ == rows_entries(r1, r2, r3, r4),
{
    let mut e: Vec<Rat> = Vec::new();
    e.push(r1.0);
    e.push(r1.1);
    e.push(r1.2);
    e.push(r1.3);
    e.push(r2.0);
    e.push(r2.1);
    e.push(r2.2);
    e.push(r2.3);
    e.push(r3.0);
    e.push(r3.1);
    e.push(r3.2);
    e.push(r3.3);
    e.push(r4.0);
    e.push(r4.1);
    e.push(r4.2);
    e.push(r4.3);
    proof {
        assert(e@ =~= rows_entries(r1, r2, r3, r4));
        assert(seq_rats_wf(e@));
    }
    Mat { n: 4, e }
}

// ---------------------------------------------------------------------------
// Geometry productions
// ---------------------------------------------------------------------------

/// The mathematical value of a unit-object body: its optional material
/// and name.
pub ghost struct UnitV {
    pub material: Option<MaterialV>,
    pub name: Option<Seq<char>>,
}

/// Interpret the body of a unit-object block from position `p` (just past
/// the opening brace): `material` and `name` assignments in any order
/// until the closing brace, whose end position is returned.
pub open spec fn unit_body(ts: Seq<Token>, p: int, acc: UnitV) -> BlockOut<UnitV>
    decreases ts.len() - p,
{
    if p < 0 || p >= ts.len() {
        BlockOut::Syn
    } else {
        match ts[p] {
            Token::RBrace => BlockOut::Done(acc, p + 1),
            Token::Material => match material_assign_out(ts, p) {
                BlockOut::Done(mv, end) => if p < end <= ts.len() {
                    unit_body(ts, end, UnitV { material: Some(mv), ..acc })
                } else {
                    BlockOut::Syn
                },
                BlockOut::Sem => BlockOut::Sem,
                BlockOut::Syn => BlockOut::Syn,
            },
            Token::Name => if str_expr_at(ts, p) {
                unit_body(ts, p + 4, UnitV { name: Some(tok_chars(ts[p + 2])), ..acc })
            } else {
                BlockOut::Syn
            },
            Token::Ident(_) => BlockOut::Sem,
            _ => BlockOut::Syn,
        }
    }
}

/// Interpret a whole unit-object block `kw { ... }` standing at `p`.
pub open spec fn unit_out(ts: Seq<Token>, p: int, kw: Token) -> BlockOut<UnitV> {
    if variant_at(ts, p, kw) && variant_at(ts, p + 1, Token::LBrace) {
        unit_body(ts, p + 2, UnitV { material: None, name: None })
    } else {
        BlockOut::Syn
    }
}

/// Whether a token names one of the four unit objects.
pub open spec fn unit_kw(t: TokenV) -> bool {
    t is Sphere || t is Box || t is Square || t is Cylinder
}

/// Parse the body of a unit object (`sphere`, `box`, `square`, `cylinder`):
/// the keyword itself, then `{`, then `material` and `name` assignments in
/// any order until `}`. For a unit keyword this succeeds exactly when the
/// tokens at the cursor derive the block, yielding the parameterless
/// geometry of that kind with the interpreted material and name and
/// consuming through the closing brace; an unknown field name is a
/// semantic error. For any other keyword it fails.
pub fn parse_unit_object(s: &mut TokenStream, object_type: &Token, node: &TransformNode) -> (r:
    Result<GeometryDecl, TokenizationError>)
    requires
        old(s).wf(),
        node_wf(*node),
    ensures
        final(s).tokens == old(s).tokens,
        final(s).wf(),
        final(s).pos >= old(s).pos,
        r matches Ok(d) ==> decl_wf(d) && node_same(d.node, *node) && final(s).pos > old(s).pos,
        r matches Ok(d) ==> (object_type@ is Sphere ==> d.kind is Sphere) && (object_type@ is Box
            ==> d.kind is Box) && (object_type@ is Square ==> d.kind is Square) && (object_type@
            is Cylinder ==> d.kind is Cylinder),
        unit_kw(object_type@) ==> (r is Ok <==> unit_out(
            old(s).tokens@,
            old(s).pos as int,
            *object_type,
        ) is Done),
        r matches Ok(d) ==> (unit_out(old(s).tokens@, old(s).pos as int, *object_type)
            matches BlockOut::Done(uv, end) && opt_material_mirror(d.material) == uv.material
            && opt_chars(d.name) == uv.name && final(s).pos == end),
        unit_kw(object_type@) && unit_out(old(s).tokens@, old(s).pos as int, *object_type) is Sem
            ==> (r matches Err(e) && e.kind == ErrorKind::Semantic),
        unit_kw(object_type@) && unit_out(old(s).tokens@, old(s).pos as int, *object_type) is Syn
            ==> (r matches Err(e) && e.kind == ErrorKind::Syntax),
        !unit_kw(object_type@) ==> r is Err,
        r matches Err(e) ==> e.kind == ErrorKind::Syntax || e.kind == ErrorKind::Semantic,
{
    let kind: GeometryKind = match object_type {
        Token::Sphere => GeometryKind::Sphere,
        Token::Box => GeometryKind::Box,
        Token::Square => GeometryKind::Square,
        Token::Cylinder => GeometryKind::Cylinder,
        _ => {
            return Err(unexpected_token_err());
        },
    };
    match s.read(object_type) {
        Ok(_) => {},
        Err(e) => { return Err(e); },
    }
    match s.read(&Token::LBrace) {
        Ok(_) => {},
        Err(e) => { return Err(e); },
    }
    let mut material: Option<Material> = None;
    let mut name: Option<Vec<char>> = None;
    loop
        invariant
            s.wf(),
            s.tokens == old(s).tokens,
            s.pos > old(s).pos,
            node_wf(*node),
            material matches Some(m) ==> material_wf(m),
            kind is Sphere || kind is Box || kind is Square || kind is Cylinder,
            unit_kw(object_type@),
            object_type@ is Sphere ==> kind is Sphere,
            object_type@ is Box ==> kind is Box,
            object_type@ is Square ==> kind is Square,
            object_type@ is Cylinder ==> kind is Cylinder,
            unit_body(
                old(s).tokens@,
                s.pos as int,
                UnitV { material: opt_material_mirror(material), name: opt_chars(name) },
            ) == unit_out(old(s).tokens@, old(s).pos as int, *object_type),
        decreases s.tokens.len() - s.pos,
    {
        let sel: u32 = match s.peek() {
            None => {
                return Err(out_of_tokens_err());
            },
            Some(t) => match t {
                Token::RBrace => 0,
                Token::Material => 1,
                Token::Name => 2,
                Token::Ident(_) => 3,
                _ => 4,
            },
        };
        if sel == 0 {
            s.advance();
            let d = GeometryDecl { kind, node: node.duplicate(), material, name };
            proof {
                crate::scene::lemma_node_same_wf(d.node, *node);
            }
            return Ok(d);
        } else if sel == 1 {
            let m = match parse_material_assignment(s) {
                Ok(m) => m,
                Err(e) => { return Err(e); },
            };
            material = Some(m);
        } else if sel == 2 {
            let v = match parse_string_expression(s) {
                Ok(v) => v,
                Err(e) => { return Err(e); },
            };
            name = Some(v);
        } else if sel == 3 {
            return Err(unknown_field_err());
        } else {
            return Err(unexpected_token_err());
        }
    }
}

/// The mathematical value of a cone block: the four cone parameters and
/// the optional material and name.
pub ghost struct ConeV {
    pub capped: bool,
    pub height: Rat,
    pub bottom_radius: Rat,
    pub top_radius: Rat,
    pub material: Option<MaterialV>,
    pub name: Option<Seq<char>>,
}

/// The cone parameters before any field is parsed: capped, height one,
/// bottom radius one, top radius zero, no material, no name.
pub open spec fn cone_v_default() -> ConeV {
    (ConeV {
        capped: true,
        height: rone(),
        bottom_radius: rone(),
        top_radius: rzero(),
        material: None,
        name: None,
    })
}

/// Interpret the body of a `cone { ... }` block from position `p` (just
/// past the opening brace): fold the field assignments over `acc` until
/// the closing brace, whose end position is returned.
pub open spec fn cone_body(ts: Seq<Token>, p: int, acc: ConeV) -> BlockOut<ConeV>
    decreases ts.len() - p,
{
    if p < 0 || p >= ts.len() {
        BlockOut::Syn
    } else {
        match ts[p] {
            Token::RBrace => BlockOut::Done(acc, p + 1),
            Token::Capped => if bool_expr_at(ts, p) {
                cone_body(ts, p + 4, ConeV { capped: ts[p + 2]@ is Symtrue, ..acc })
            } else {
                BlockOut::Syn
            },
            Token::Height => if scalar_expr_at(ts, p) {
                cone_body(ts, p + 4, ConeV { height: tok_scalar(ts[p + 2]), ..acc })
            } else {
                BlockOut::Syn
            },
            Token::BottomRadius => if scalar_expr_at(ts, p) {
                cone_body(ts, p + 4, ConeV { bottom_radius: tok_scalar(ts[p + 2]), ..acc })
            } else {
                BlockOut::Syn
            },
            Token::TopRadius => if scalar_expr_at(ts, p) {
                cone_body(ts, p + 4, ConeV { top_radius: tok_scalar(ts[p + 2]), ..acc })
            } else {
                BlockOut::Syn
            },
            Token::Material => match material_assign_out(ts, p) {
                BlockOut::Done(mv, end) => if p < end <= ts.len() {
                    cone_body(ts, end, ConeV { material: Some(mv), ..acc })
                } else {
                    BlockOut::Syn
                },
                BlockOut::Sem => BlockOut::Sem,
                BlockOut::Syn => BlockOut::Syn,
            },
            Token::Name => if str_expr_at(ts, p) {
                cone_body(ts, p + 4, ConeV { name: Some(tok_chars(ts[p + 2])), ..acc })
            } else {
                BlockOut::Syn
            },
            Token::Ident(_) => BlockOut::Sem,
            _ => BlockOut::Syn,
        }
    }
}

/// Interpret a whole `cone { ... }` block standing at `p`, from the
/// defaults.
pub open spec fn cone_out(ts: Seq<Token>, p: int) -> BlockOut<ConeV> {
    if variant_at(ts, p, Token::Cone) && variant_at(ts, p + 1, Token::LBrace) {
        cone_body(ts, p + 2, cone_v_default())
    } else {
        BlockOut::Syn
    }
}

/// Parse a `cone { ... }` block: `capped`, `height`, `bottom_radius`,
/// `top_radius`, `material` and `name` assignments in any order, with the
/// defaults capped, height 1, bottom radius 1, top radius 0. Succeeds
/// exactly when the tokens at the cursor derive the block, yielding a cone
/// whose parameters are the interpreted field values — absent fields keep
/// their defaults — and consuming through the closing brace; an unknown
/// field name is a semantic error, any other fault a syntax error.
#[verifier::rlimit(100)]
pub fn parse_cone(s: &mut TokenStream, node: &TransformNode) -> (r: Result<
    GeometryDecl,
    TokenizationError,
>)
    requires
        old(s).wf(),
        node_wf(*node),
    ensures
        final(s).tokens == old(s).tokens,
        final(s).wf(),
        final(s).pos >= old(s).pos,
        r matches Ok(d) ==> decl_wf(d) && node_same(d.node, *node) && d.kind is Cone && final(s).pos
            > old(s).pos,
        r is Ok <==> cone_out(old(s).tokens@, old(s).pos as int) is Done,
        r matches Ok(d) ==> (cone_out(old(s).tokens@, old(s).pos as int) matches BlockOut::Done(
            cv,
            end,
        ) && (d.kind matches GeometryKind::Cone { capped, height, bottom_radius, top_radius }
            && capped == cv.capped && height == cv.height && bottom_radius == cv.bottom_radius
            && top_radius == cv.top_radius) && opt_material_mirror(d.material) == cv.material
            && opt_chars(d.name) == cv.name && final(s).pos == end),
        cone_out(old(s).tokens@, old(s).pos as int) is Sem ==> (r matches Err(e) && e.kind
            == ErrorKind::Semantic),
        cone_out(old(s).tokens@, old(s).pos as int) is Syn ==> (r matches Err(e) && e.kind
            == ErrorKind::Syntax),
        r matches Err(e) ==> e.kind == ErrorKind::Syntax || e.kind == ErrorKind::Semantic,
{
    match s.read(&Token::Cone) {
        Ok(_) => {},
        Err(e) => { return Err(e); },
    }
    match s.read(&Token::LBrace) {
        Ok(_) => {},
        Err(e) => { return Err(e); },
    }
    let mut capped = true;
    let mut height = Rat::one();
    let mut bottom_radius = Rat::one();
    let mut top_radius = Rat::zero();
    let mut material: Option<Material> = None;
    let mut name: Option<Vec<char>> = None;
    loop
        invariant
            s.wf(),
            s.tokens == old(s).tokens,
            s.pos > old(s).pos,
            node_wf(*node),
            rat_wf(height),
            rat_wf(bottom_radius),
            rat_wf(top_radius),
            material matches Some(m) ==> material_wf(m),
            cone_body(
                old(s).tokens@,
                s.pos as int,
                ConeV {
                    capped,
                    height,
                    bottom_radius,
                    top_radius,
                    material: opt_material_mirror(material),
                    name: opt_chars(name),
                },
            ) == cone_out(old(s).tokens@, old(s).pos as int),
        decreases s.tokens.len() - s.pos,
    {
        let sel: u32 = match s.peek() {
            None => {
                return Err(out_of_tokens_err());
            },
            Some(t) => match t {
                Token::RBrace => 0,
                Token::Capped => 1,
                Token::Height => 2,
                Token::BottomRadius => 3,
                Token::TopRadius => 4,
                Token::Material => 5,
                Token::Name => 6,
                Token::Ident(_) => 7,
                _ => 8,
            },
        };
        if sel == 0 {
            s.advance();
            let d = GeometryDecl {
                kind: GeometryKind::Cone { capped, height, bottom_radius, top_radius },
                node: node.duplicate(),
                material,
                name,
            };
            proof {
                crate::scene::lemma_node_same_wf(d.node, *node);
            }
            return Ok(d);
        } else if sel == 1 {
            let v = match parse_boolean_expression(s) {
                Ok(v) => v,
                Err(e) => { return Err(e); },
            };
            capped = v;
        } else if sel == 2 {
            let v = match parse_scalar_expression(s) {
                Ok(v) => v,
                Err(e) => { return Err(e); },
            };
            height = v;
        } else if sel == 3 {
            let v = match parse_scalar_expression(s) {
                Ok(v) => v,
                Err(e) => { return Err(e); },
            };
            bottom_radius = v;
        } else if sel == 4 {
            let v = match parse_scalar_expression(s) {
                Ok(v) => v,
                Err(e) => { return Err(e); },
            };
            top_radius = v;
        } else if sel == 5 {
            let m = match parse_material_assignment(s) {
                Ok(m) => m,
                Err(e) => { return Err(e); },
            };
            material = Some(m);
        } else if sel == 6 {
            let v = match parse_string_expression(s) {
                Ok(v) => v,
                Err(e) => { return Err(e); },
            };
            name = Some(v);
        } else if sel == 7 {
            return Err(unknown_field_err());
        } else {
            return Err(unexpected_token_err());
        }
    }
}

/// Interpret the rest of a vector list from a position just after a
/// vector: a comma continues with another vector, a closing parenthesis
/// ends the list, whose end position is returned.
pub open spec fn vec3_list_rest(ts: Seq<Token>, p: int, acc: Seq<Vec3>) -> BlockOut<Seq<Vec3>>
    decreases ts.len() - p,
{
    if variant_at(ts, p, Token::Comma) {
        if vec3_at(ts, p + 1) && p + 8 <= ts.len() {
            vec3_list_rest(ts, p + 8, acc.push(vec3_val(ts, p + 1)))
        } else {
            BlockOut::Syn
        }
    } else if variant_at(ts, p, Token::RParen) {
        BlockOut::Done(acc, p + 1)
    } else {
        BlockOut::Syn
    }
}

/// Interpret a whole `<field> = ( (x,y,z) , ... ) ;` list assignment
/// standing at `p`: the parenthesized, comma-separated, possibly empty
/// vector list, ending just past the semicolon.
pub open spec fn vec3_list_expr_out(ts: Seq<Token>, p: int) -> BlockOut<Seq<Vec3>> {
    if 0 <= p < ts.len() && variant_at(ts, p + 1, Token::Equals) && variant_at(
        ts,
        p + 2,
        Token::LParen,
    ) {
        if variant_at(ts, p + 3, Token::RParen) {
            if variant_at(ts, p + 4, Token::Semicolon) {
                BlockOut::Done(Seq::empty(), p + 5)
            } else {
                BlockOut::Syn
            }
        } else if vec3_at(ts, p + 3) {
            match vec3_list_rest(ts, p + 10, seq![vec3_val(ts, p + 3)]) {
                BlockOut::Done(vs, end) => if variant_at(ts, end, Token::Semicolon) {
                    BlockOut::Done(vs, end + 1)
                } else {
                    BlockOut::Syn
                },
                BlockOut::Sem => BlockOut::Sem,
                BlockOut::Syn => BlockOut::Syn,
            }
        } else {
            BlockOut::Syn
        }
    } else {
        BlockOut::Syn
    }
}

/// A vector-list interpretation is never the semantic fault: the list
/// grammar has no field names to miss.
proof fn lemma_vec3_list_rest_not_sem(ts: Seq<Token>, p: int, acc: Seq<Vec3>)
    ensures
        !(vec3_list_rest(ts, p, acc) is Sem),
    decreases ts.len() - p,
{
    if variant_at(ts, p, Token::Comma) && vec3_at(ts, p + 1) && p + 8 <= ts.len() {
        lemma_vec3_list_rest_not_sem(ts, p + 8, acc.push(vec3_val(ts, p + 1)));
    }
}

/// Read one `<field> = ( (x,y,z) , ... ) ;` list assignment, field keyword
/// included: a parenthesized, comma-separated, possibly empty list of
/// three-component vectors. Succeeds exactly when the tokens at the cursor
/// derive the list, returning its interpreted vectors and consuming through
/// the semicolon.
pub fn parse_vector3_list_expression(s: &mut TokenStream) -> (r: Result<
    Vec<Vec3>,
    TokenizationError,
>)
    requires
        old(s).wf(),
    ensures
        final(s).tokens == old(s).tokens,
        final(s).wf(),
        final(s).pos >= old(s).pos,
        r matches Ok(v) ==> (forall|i: int| 0 <= i < v.len() ==> vec3_wf(#[trigger] v@[i]))
            && final(s).pos > old(s).pos,
        r is Ok <==> vec3_list_expr_out(old(s).tokens@, old(s).pos as int) is Done,
        r matches Ok(v) ==> (vec3_list_expr_out(old(s).tokens@, old(s).pos as int)
            matches BlockOut::Done(vs, end) && v@ == vs && final(s).pos == end),
        !(vec3_list_expr_out(old(s).tokens@, old(s).pos as int) is Sem),
        r matches Err(e) ==> e.kind == ErrorKind::Syntax,
{
    proof {
        if 0 <= old(s).pos < old(s).tokens@.len() && vec3_at(old(s).tokens@, old(s).pos + 3) {
            lemma_vec3_list_rest_not_sem(
                old(s).tokens@,
                old(s).pos + 10,
                seq![vec3_val(old(s).tokens@, old(s).pos + 3)],
            );
        }
    }
    match s.peek() {
        Some(_) => {},
        None => {
            return Err(out_of_tokens_err());
        },
    }
    s.advance();
    match s.read(&Token::Equals) {
        Ok(_) => {},
        Err(e) => { return Err(e); },
    }
    match s.read(&Token::LParen) {
        Ok(_) => {},
        Err(e) => { return Err(e); },
    }
    let mut items: Vec<Vec3> = Vec::new();
    if !s.conditional_read(&Token::RParen) {
        let first = match parse_vector3(s) {
            Ok(v) => v,
            Err(e) => { return Err(e); },
        };
        items.push(first);
        loop
            invariant
                s.wf(),
                s.tokens == old(s).tokens,
                s.pos > old(s).pos,
                forall|i: int| 0 <= i < items.len() ==> vec3_wf(#[trigger] items@[i]),
                (match vec3_list_rest(old(s).tokens@, s.pos as int, items@) {
                    BlockOut::Done(vs, end) => if variant_at(old(s).tokens@, end, Token::Semicolon) {
                        BlockOut::Done(vs, end + 1)
                    } else {
                        BlockOut::Syn
                    },
                    BlockOut::Sem => BlockOut::Sem,
                    BlockOut::Syn => BlockOut::Syn,
                }) == vec3_list_expr_out(old(s).tokens@, old(s).pos as int),
            ensures
                s.wf(),
                s.tokens == old(s).tokens,
                s.pos > old(s).pos,
                forall|i: int| 0 <= i < items.len() ==> vec3_wf(#[trigger] items@[i]),
                (match vec3_list_rest(old(s).tokens@, s.pos as int, items@) {
                    BlockOut::Done(vs, end) => if variant_at(old(s).tokens@, end, Token::Semicolon) {
                        BlockOut::Done(vs, end + 1)
                    } else {
                        BlockOut::Syn
                    },
                    BlockOut::Sem => BlockOut::Sem,
                    BlockOut::Syn => BlockOut::Syn,
                }) == vec3_list_expr_out(old(s).tokens@, old(s).pos as int),
                !variant_at(old(s).tokens@, s.pos as int, Token::Comma),
            decreases s.tokens.len() - s.pos,
        {
            let ghost pos_h = s.pos as int;
            let ghost items_h = items@;
            if s.conditional_read(&Token::Comma) {
                let v = match parse_vector3(s) {
                    Ok(v) => v,
                    Err(e) => {
                        proof {
                            assert(variant_at(old(s).tokens@, pos_h, Token::Comma));
                            assert(!vec3_at(old(s).tokens@, pos_h + 1));
                            assert(vec3_list_rest(old(s).tokens@, pos_h, items_h)
                                == BlockOut::<Seq<Vec3>>::Syn);
                        }
                        return Err(e);
                    },
                };
                items.push(v);
                proof {
                    assert(vec3_list_rest(old(s).tokens@, pos_h, items_h) == vec3_list_rest(
                        old(s).tokens@,
                        pos_h + 8,
                        items_h.push(vec3_val(old(s).tokens@, pos_h + 1)),
                    ));
                    assert(items@ == items_h.push(vec3_val(old(s).tokens@, pos_h + 1)));
                }
            } else {
                break;
            }
        }
        let ghost pos_b = s.pos as int;
        match s.read(&Token::RParen) {
            Ok(_) => {},
            Err(e) => {
                proof {
                    assert(!variant_at(old(s).tokens@, pos_b, Token::Comma));
                    assert(!variant_at(old(s).tokens@, pos_b, Token::RParen));
                    assert(vec3_list_rest(old(s).tokens@, pos_b, items@)
                        == BlockOut::<Seq<Vec3>>::Syn);
                }
                return Err(e);
            },
        }
    }
    match s.read(&Token::Semicolon) {
        Ok(_) => {},
        Err(e) => { return Err(e); },
    }
    Ok(items)
}

/// The mathematical value of a trimesh block: the three vector lists, the
/// normal-generation flag, and the optional material and name.
pub ghost struct TrimeshV {
    pub points: Seq<Vec3>,
    pub normals: Seq<Vec3>,
    pub faces: Seq<Vec3>,
    pub gennormals: bool,
    pub material: Option<MaterialV>,
    pub name: Option<Seq<char>>,
}

/// Interpret the body of a `trimesh { ... }` block from position `p` (just
/// past the opening brace): fold the list assignments, the bare
/// `gennormals ;` flag, and the material and name assignments over `acc`
/// until the closing brace, whose end position is returned.
pub open spec fn trimesh_body(ts: Seq<Token>, p: int, acc: TrimeshV) -> BlockOut<TrimeshV>
    decreases ts.len() - p,
{
    if p < 0 || p >= ts.len() {
        BlockOut::Syn
    } else {
        match ts[p] {
            Token::RBrace => BlockOut::Done(acc, p + 1),
            Token::Polypoints => match vec3_list_expr_out(ts, p) {
                BlockOut::Done(vs, end) => if p < end <= ts.len() {
                    trimesh_body(ts, end, TrimeshV { points: vs, ..acc })
                } else {
                    BlockOut::Syn
                },
                BlockOut::Sem => BlockOut::Sem,
                BlockOut::Syn => BlockOut::Syn,
            },
            Token::Normals => match vec3_list_expr_out(ts, p) {
                BlockOut::Done(vs, end) => if p < end <= ts.len() {
                    trimesh_body(ts, end, TrimeshV { normals: vs, ..acc })
                } else {
                    BlockOut::Syn
                },
                BlockOut::Sem => BlockOut::Sem,
                BlockOut::Syn => BlockOut::Syn,
            },
            Token::Faces => match vec3_list_expr_out(ts, p) {
                BlockOut::Done(vs, end) => if p < end <= ts.len() {
                    trimesh_body(ts, end, TrimeshV { faces: vs, ..acc })
                } else {
                    BlockOut::Syn
                },
                BlockOut::Sem => BlockOut::Sem,
                BlockOut::Syn => BlockOut::Syn,
            },
            Token::Gennormals => if variant_at(ts, p + 1, Token::Semicolon) {
                trimesh_body(ts, p + 2, TrimeshV { gennormals: true, ..acc })
            } else {
                BlockOut::Syn
            },
            Token::Material => match material_assign_out(ts, p) {
                BlockOut::Done(mv, end) => if p < end <= ts.len() {
                    trimesh_body(ts, end, TrimeshV { material: Some(mv), ..acc })
                } else {
                    BlockOut::Syn
                },
                BlockOut::Sem => BlockOut::Sem,
                BlockOut::Syn => BlockOut::Syn,
            },
            Token::Name => if str_expr_at(ts, p) {
                trimesh_body(ts, p + 4, TrimeshV { name: Some(tok_chars(ts[p + 2])), ..acc })
            } else {
                BlockOut::Syn
            },
            Token::Ident(_) => BlockOut::Sem,
            _ => BlockOut::Syn,
        }
    }
}

/// Interpret a whole `trimesh { ... }` block standing at `p`, from the
/// empty defaults.
pub open spec fn trimesh_out(ts: Seq<Token>, p: int) -> BlockOut<TrimeshV> {
    if variant_at(ts, p, Token::Trimesh) && variant_at(ts, p + 1, Token::LBrace) {
        trimesh_body(
            ts,
            p + 2,
            TrimeshV {
                points: Seq::empty(),
                normals: Seq::empty(),
                faces: Seq::empty(),
                gennormals: false,
                material: None,
                name: None,
            },
        )
    } else {
        BlockOut::Syn
    }
}

/// Parse a `trimesh { ... }` block: `points`, `normals` and `faces` list
/// assignments, a bare `gennormals ;` flag, and `material` and `name`
/// assignments, in any order. Succeeds exactly when the tokens at the
/// cursor derive the block, yielding a trimesh with the interpreted lists
/// and flags and consuming through the closing brace; an unknown field
/// name is a semantic error, any other fault a syntax error.
#[verifier::rlimit(100)]
pub fn parse_trimesh(s: &mut TokenStream, node: &TransformNode) -> (r: Result<
    GeometryDecl,
    TokenizationError,
>)
    requires
        old(s).wf(),
        node_wf(*node),
    ensures
        final(s).tokens == old(s).tokens,
        final(s).wf(),
        final(s).pos >= old(s).pos,
        r matches Ok(d) ==> decl_wf(d) && node_same(d.node, *node) && d.kind is Trimesh && final(s).pos
            > old(s).pos,
        r is Ok <==> trimesh_out(old(s).tokens@, old(s).pos as int) is Done,
        r matches Ok(d) ==> (trimesh_out(old(s).tokens@, old(s).pos as int)
            matches BlockOut::Done(tv, end) && (d.kind matches GeometryKind::Trimesh {
            points,
            normals,
            faces,
            gennormals,
        } && points@ == tv.points && normals@ == tv.normals && faces@ == tv.faces && gennormals
            == tv.gennormals) && opt_material_mirror(d.material) == tv.material && opt_chars(
            d.name,
        ) == tv.name && final(s).pos == end),
        trimesh_out(old(s).tokens@, old(s).pos as int) is Sem ==> (r matches Err(e) && e.kind
            == ErrorKind::Semantic),
        trimesh_out(old(s).tokens@, old(s).pos as int) is Syn ==> (r matches Err(e) && e.kind
            == ErrorKind::Syntax),
        r matches Err(e) ==> e.kind == ErrorKind::Syntax || e.kind == ErrorKind::Semantic,
{
    match s.read(&Token::Trimesh) {
        Ok(_) => {},
        Err(e) => { return Err(e); },
    }
    match s.read(&Token::LBrace) {
        Ok(_) => {},
        Err(e) => { return Err(e); },
    }
    let mut points: Vec<Vec3> = Vec::new();
    let mut normals: Vec<Vec3> = Vec::new();
    let mut faces: Vec<Vec3> = Vec::new();
    let mut gennormals = false;
    let mut material: Option<Material> = None;
    let mut name: Option<Vec<char>> = None;
    loop
        invariant
            s.wf(),
            s.tokens == old(s).tokens,
            s.pos > old(s).pos,
            node_wf(*node),
            forall|i: int| 0 <= i < points.len() ==> vec3_wf(#[trigger] points@[i]),
            forall|i: int| 0 <= i < normals.len() ==> vec3_wf(#[trigger] normals@[i]),
            forall|i: int| 0 <= i < faces.len() ==> vec3_wf(#[trigger] faces@[i]),
            material matches Some(m) ==> material_wf(m),
            trimesh_body(
                old(s).tokens@,
                s.pos as int,
                TrimeshV {
                    points: points@,
                    normals: normals@,
                    faces: faces@,
                    gennormals,
                    material: opt_material_mirror(material),
                    name: opt_chars(name),
                },
            ) == trimesh_out(old(s).tokens@, old(s).pos as int),
        decreases s.tokens.len() - s.pos,
    {
        let sel: u32 = match s.peek() {
            None => {
                return Err(out_of_tokens_err());
            },
            Some(t) => match t {
                Token::RBrace => 0,
                Token::Polypoints => 1,
                Token::Normals => 2,
                Token::Faces => 3,
                Token::Gennormals => 4,
                Token::Material => 5,
                Token::Name => 6,
                Token::Ident(_) => 7,
                _ => 8,
            },
        };
        if sel == 0 {
            s.advance();
            let d = GeometryDecl {
                kind: GeometryKind::Trimesh { points, normals, faces, gennormals },
                node: node.duplicate(),
                material,
                name,
            };
            proof {
                crate::scene::lemma_node_same_wf(d.node, *node);
            }
            return Ok(d);
        } else if sel == 1 {
            let v = match parse_vector3_list_expression(s) {
                Ok(v) => v,
                Err(e) => { return Err(e); },
            };
            points = v;
        } else if sel == 2 {
            let v = match parse_vector3_list_expression(s) {
                Ok(v) => v,
                Err(e) => { return Err(e); },
            };
            normals = v;
        } else if sel == 3 {
            let v = match parse_vector3_list_expression(s) {
                Ok(v) => v,
                Err(e) => { return Err(e); },
            };
            faces = v;
        } else if sel == 4 {
            s.advance();
            match s.read(&Token::Semicolon) {
                Ok(_) => {},
                Err(e) => { return Err(e); },
            }
            gennormals = true;
        } else if sel == 5 {
            let m = match parse_material_assignment(s) {
                Ok(m) => m,
                Err(e) => { return Err(e); },
            };
            material = Some(m);
        } else if sel == 6 {
            let v = match parse_string_expression(s) {
                Ok(v) => v,
                Err(e) => { return Err(e); },
            };
            name = Some(v);
        } else if sel == 7 {
            return Err(unknown_field_err());
        } else {
            return Err(unexpected_token_err());
        }
    }
}

// ---------------------------------------------------------------------------
// Transform productions and the element grammar
// ---------------------------------------------------------------------------

/// The prefix `translate ( x , y , z ,` stands at position `p`.
pub open spec fn translate_prefix_at(ts: Seq<Token>, p: int) -> bool {
    &&& variant_at(ts, p, Token::Translate)
    &&& variant_at(ts, p + 1, Token::LParen)
    &&& scalar_at(ts, p + 2)
    &&& variant_at(ts, p + 3, Token::Comma)
    &&& scalar_at(ts, p + 4)
    &&& variant_at(ts, p + 5, Token::Comma)
    &&& scalar_at(ts, p + 6)
    &&& variant_at(ts, p + 7, Token::Comma)
}

/// The prefix `rotate ( x , y , z , angle ,` stands at position `p`.
pub open spec fn rotate_prefix_at(ts: Seq<Token>, p: int) -> bool {
    &&& variant_at(ts, p, Token::Rotate)
    &&& variant_at(ts, p + 1, Token::LParen)
    &&& scalar_at(ts, p + 2)
    &&& variant_at(ts, p + 3, Token::Comma)
    &&& scalar_at(ts, p + 4)
    &&& variant_at(ts, p + 5, Token::Comma)
    &&& scalar_at(ts, p + 6)
    &&& variant_at(ts, p + 7, Token::Comma)
    &&& scalar_at(ts, p + 8)
    &&& variant_at(ts, p + 9, Token::Comma)
}

/// The prefix `transform (` followed by four comma-terminated rows stands
/// at position `p`.
pub open spec fn transform_prefix_at(ts: Seq<Token>, p: int) -> bool {
    &&& variant_at(ts, p, Token::Transform)
    &&& variant_at(ts, p + 1, Token::LParen)
    &&& vec4_at(ts, p + 2)
    &&& variant_at(ts, p + 11, Token::Comma)
    &&& vec4_at(ts, p + 12)
    &&& variant_at(ts, p + 21, Token::Comma)
    &&& vec4_at(ts, p + 22)
    &&& variant_at(ts, p + 31, Token::Comma)
    &&& vec4_at(ts, p + 32)
    &&& variant_at(ts, p + 41, Token::Comma)
}

/// A token that begins a geometry production.
pub open spec fn geom_starter(t: TokenV) -> bool {
    ||| t is Sphere
    ||| t is Box
    ||| t is Square
    ||| t is Cylinder
    ||| t is Cone
    ||| t is Trimesh
    ||| t is Translate
    ||| t is Rotate
    ||| t is Scale
    ||| t is Transform
}

/// A token that begins a transformable element: a geometry starter or the
/// opening brace of a group.
pub open spec fn elem_starter(t: TokenV) -> bool {
    geom_starter(t) || t is LBrace
}

/// The dispatch mapping of the element grammar: which leading token yields
/// which shape of element.
pub open spec fn dispatch_ok(t0: TokenV, e: TransformableElement) -> bool {
    &&& t0 is Sphere ==> (e matches TransformableElement::Geometry(d) && d.kind is Sphere)
    &&& t0 is Box ==> (e matches TransformableElement::Geometry(d) && d.kind is Box)
    &&& t0 is Square ==> (e matches TransformableElement::Geometry(d) && d.kind is Square)
    &&& t0 is Cylinder ==> (e matches TransformableElement::Geometry(d) && d.kind is Cylinder)
    &&& t0 is Cone ==> (e matches TransformableElement::Geometry(d) && d.kind is Cone)
    &&& t0 is Trimesh ==> (e matches TransformableElement::Geometry(d) && d.kind is Trimesh)
    &&& (t0 is Translate || t0 is Rotate || t0 is Scale || t0 is Transform) ==> e is Transformed
    &&& (t0 is LBrace <==> e is Group)
}

/// Wrap a child node and a parsed sub-element into a transformed element,
/// after the closing `)` and an optional trailing `;`.
fn finish_transform(s: &mut TokenStream, local: Mat, child: TransformNode,
    sub: TransformableElement) -> (r: Result<TransformableElement, TokenizationError>)
    requires
        old(s).wf(),
    ensures
        final(s).tokens == old(s).tokens,
        final(s).wf(),
        final(s).pos >= old(s).pos,
        r matches Ok(e) ==> e == (TransformableElement::Transformed(TransformedElement {
            local: local,
            node: child,
            sub: Box::new(sub),
        })),
        r is Ok ==> variant_at(old(s).tokens@, old(s).pos as int, Token::RParen) && final(s).pos
            == (if variant_at(old(s).tokens@, old(s).pos + 1, Token::Semicolon) {
            old(s).pos + 2
        } else {
            old(s).pos + 1
        }),
        r is Err ==> !variant_at(old(s).tokens@, old(s).pos as int, Token::RParen),
        r matches Err(e) ==> e.kind == ErrorKind::Syntax,
{
    match s.read(&Token::RParen) {
        Ok(_) => {},
        Err(e) => { return Err(e); },
    }
    s.conditional_read(&Token::Semicolon);
    Ok(TransformableElement::Transformed(TransformedElement {
        local,
        node: child,
        sub: Box::new(sub),
    }))
}

/// Parse `translate(x, y, z, <element>)` with an optional trailing `;`.
/// On success the stored local matrix is exactly the translation matrix of
/// the three parsed scalars.
pub fn parse_translate(s: &mut TokenStream, node: &TransformNode) -> (r: Result<
    TransformableElement,
    TokenizationError,
>)
    requires
        old(s).wf(),
        node_wf(*node),
    ensures
        final(s).tokens == old(s).tokens,
        final(s).wf(),
        final(s).pos >= old(s).pos,
        r matches Ok(e) ==> elem_wf(e, *node) && final(s).pos > old(s).pos,
        r is Ok ==> translate_prefix_at(old(s).tokens@, old(s).pos as int),
        r matches Ok(e) ==> (e matches TransformableElement::Transformed(t) && t.local.n == 4
            && t.local.e@ == translation_entries(
            tok_scalar(old(s).tokens@[old(s).pos + 2]),
            tok_scalar(old(s).tokens@[old(s).pos + 4]),
            tok_scalar(old(s).tokens@[old(s).pos + 6]),
        )),
        r matches Ok(e) ==> (translate_out(old(s).tokens@, old(s).pos as int)
            matches BlockOut::Done(ev, end) && elem_matches(e, ev) && final(s).pos == end),
        translate_out(old(s).tokens@, old(s).pos as int) is Done ==> (r matches Err(err)
            ==> err.kind == ErrorKind::Semantic || err.kind == ErrorKind::NumericRange),
        translate_out(old(s).tokens@, old(s).pos as int) is Sem ==> (r matches Err(err2)
            ==> err2.kind == ErrorKind::Semantic || err2.kind == ErrorKind::NumericRange),
        r matches Err(e) ==> e.kind == ErrorKind::Syntax || e.kind == ErrorKind::Semantic
            || e.kind == ErrorKind::NumericRange,
    decreases s.tokens.len() - s.pos, 1int,
{
    match s.read(&Token::Translate) {
        Ok(_) => {},
        Err(e) => { return Err(e); },
    }
    match s.read(&Token::LParen) {
        Ok(_) => {},
        Err(e) => { return Err(e); },
    }
    let x = match parse_scalar(s) {
        Ok(v) => v,
        Err(e) => { return Err(e); },
    };
    match s.read(&Token::Comma) {
        Ok(_) => {},
        Err(e) => { return Err(e); },
    }
    let y = match parse_scalar(s) {
        Ok(v) => v,
        Err(e) => { return Err(e); },
    };
    match s.read(&Token::Comma) {
        Ok(_) => {},
        Err(e) => { return Err(e); },
    }
    let z = match parse_scalar(s) {
        Ok(v) => v,
        Err(e) => { return Err(e); },
    };
    match s.read(&Token::Comma) {
        Ok(_) => {},
        Err(e) => { return Err(e); },
    }
    let local = translation_matrix(x, y, z);
    let child = match node.create_child(&local) {
        Ok(n) => n,
        Err(e) => { return Err(e); },
    };
    let sub = match parse_transformable_element(s, &child) {
        Ok(e) => e,
        Err(e) => { return Err(e); },
    };
    finish_transform(s, local, child, sub)
}

/// Parse `rotate(axis_x, axis_y, axis_z, angle, <element>)` with an
/// optional trailing `;`. The local matrix is a rational approximation of
/// the rotation, so only its shape is stated; the exactly zero axis is
/// owed a semantic error (for the denominators any lexed scalar can have).
pub fn parse_rotate(s: &mut TokenStream, node: &TransformNode) -> (r: Result<
    TransformableElement,
    TokenizationError,
>)
    requires
        old(s).wf(),
        node_wf(*node),
    ensures
        final(s).tokens == old(s).tokens,
        final(s).wf(),
        final(s).pos >= old(s).pos,
        r matches Ok(e) ==> elem_wf(e, *node) && final(s).pos > old(s).pos,
        r is Ok ==> rotate_prefix_at(old(s).tokens@, old(s).pos as int),
        r matches Ok(e) ==> e is Transformed,
        (rotate_prefix_at(old(s).tokens@, old(s).pos as int) && tok_scalar(
            old(s).tokens@[old(s).pos + 2],
        ).num == 0 && tok_scalar(old(s).tokens@[old(s).pos + 4]).num == 0 && tok_scalar(
            old(s).tokens@[old(s).pos + 6],
        ).num == 0 && tok_scalar(old(s).tokens@[old(s).pos + 2]).den
            <= 1000000000000000000 && tok_scalar(old(s).tokens@[old(s).pos + 4]).den
            <= 1000000000000000000 && tok_scalar(old(s).tokens@[old(s).pos + 6]).den
            <= 1000000000000000000) ==> (r matches Err(e) && e.kind == ErrorKind::Semantic),
        r matches Ok(e) ==> (rotate_out(old(s).tokens@, old(s).pos as int)
            matches BlockOut::Done(ev, end) && elem_matches(e, ev) && final(s).pos == end),
        rotate_out(old(s).tokens@, old(s).pos as int) is Done ==> (r matches Err(err)
            ==> err.kind == ErrorKind::Semantic || err.kind == ErrorKind::NumericRange),
        rotate_out(old(s).tokens@, old(s).pos as int) is Sem ==> (r matches Err(err2)
            ==> err2.kind == ErrorKind::Semantic || err2.kind == ErrorKind::NumericRange),
        r matches Err(e) ==> e.kind == ErrorKind::Syntax || e.kind == ErrorKind::Semantic
            || e.kind == ErrorKind::NumericRange,
    decreases s.tokens.len() - s.pos, 1int,
{
    match s.read(&Token::Rotate) {
        Ok(_) => {},
        Err(e) => { return Err(e); },
    }
    match s.read(&Token::LParen) {
        Ok(_) => {},
        Err(e) => { return Err(e); },
    }
    let x = match parse_scalar(s) {
        Ok(v) => v,
        Err(e) => { return Err(e); },
    };
    match s.read(&Token::Comma) {
        Ok(_) => {},
        Err(e) => { return Err(e); },
    }
    let y = match parse_scalar(s) {
        Ok(v) => v,
        Err(e) => { return Err(e); },
    };
    match s.read(&Token::Comma) {
        Ok(_) => {},
        Err(e) => { return Err(e); },
    }
    let z = match parse_scalar(s) {
        Ok(v) => v,
        Err(e) => { return Err(e); },
    };
    match s.read(&Token::Comma) {
        Ok(_) => {},
        Err(e) => { return Err(e); },
    }
    let angle = match parse_scalar(s) {
        Ok(v) => v,
        Err(e) => { return Err(e); },
    };
    match s.read(&Token::Comma) {
        Ok(_) => {},
        Err(e) => { return Err(e); },
    }
    let local = match rotation_matrix(&x, &y, &z, &angle) {
        Ok(m) => m,
        Err(e) => { return Err(e); },
    };
    let child = match node.create_child(&local) {
        Ok(n) => n,
        Err(e) => { return Err(e); },
    };
    let sub = match parse_transformable_element(s, &child) {
        Ok(e) => e,
        Err(e) => { return Err(e); },
    };
    finish_transform(s, local, child, sub)
}

/// Parse `scale(s, <element>)` or `scale(x, y, z, <element>)` with an
/// optional trailing `;`; the one-scalar form scales uniformly. The
/// disambiguation peeks whether a second scalar follows the first argument.
pub fn parse_scale(s: &mut TokenStream, node: &TransformNode) -> (r: Result<
    TransformableElement,
    TokenizationError,
>)
    requires
        old(s).wf(),
        node_wf(*node),
    ensures
        final(s).tokens == old(s).tokens,
        final(s).wf(),
        final(s).pos >= old(s).pos,
        r matches Ok(e) ==> elem_wf(e, *node) && final(s).pos > old(s).pos,
        r is Ok ==> variant_at(old(s).tokens@, old(s).pos as int, Token::Scale) && variant_at(
            old(s).tokens@,
            old(s).pos + 1,
            Token::LParen,
        ) && scalar_at(old(s).tokens@, old(s).pos + 2) && variant_at(
            old(s).tokens@,
            old(s).pos + 3,
            Token::Comma,
        ),
        r matches Ok(e) ==> (e matches TransformableElement::Transformed(t) && t.local.n == 4 && (
        if scalar_variant_at(old(s).tokens@, old(s).pos + 4) {
            scalar_at(old(s).tokens@, old(s).pos + 4) && variant_at(
                old(s).tokens@,
                old(s).pos + 5,
                Token::Comma,
            ) && scalar_at(old(s).tokens@, old(s).pos + 6) && variant_at(
                old(s).tokens@,
                old(s).pos + 7,
                Token::Comma,
            ) && t.local.e@ == scale_entries(
                tok_scalar(old(s).tokens@[old(s).pos + 2]),
                tok_scalar(old(s).tokens@[old(s).pos + 4]),
                tok_scalar(old(s).tokens@[old(s).pos + 6]),
            )
        } else {
            t.local.e@ == scale_entries(
                tok_scalar(old(s).tokens@[old(s).pos + 2]),
                tok_scalar(old(s).tokens@[old(s).pos + 2]),
                tok_scalar(old(s).tokens@[old(s).pos + 2]),
            )
        })),
        r matches Ok(e) ==> (scale_out(old(s).tokens@, old(s).pos as int)
            matches BlockOut::Done(ev, end) && elem_matches(e, ev) && final(s).pos == end),
        scale_out(old(s).tokens@, old(s).pos as int) is Done ==> (r matches Err(err)
            ==> err.kind == ErrorKind::Semantic || err.kind == ErrorKind::NumericRange),
        scale_out(old(s).tokens@, old(s).pos as int) is Sem ==> (r matches Err(err2)
            ==> err2.kind == ErrorKind::Semantic || err2.kind == ErrorKind::NumericRange),
        r matches Err(e) ==> e.kind == ErrorKind::Syntax || e.kind == ErrorKind::Semantic
            || e.kind == ErrorKind::NumericRange,
    decreases s.tokens.len() - s.pos, 1int,
{
    match s.read(&Token::Scale) {
        Ok(_) => {},
        Err(e) => { return Err(e); },
    }
    match s.read(&Token::LParen) {
        Ok(_) => {},
        Err(e) => { return Err(e); },
    }
    let x = match parse_scalar(s) {
        Ok(v) => v,
        Err(e) => { return Err(e); },
    };
    match s.read(&Token::Comma) {
        Ok(_) => {},
        Err(e) => { return Err(e); },
    }
    let second_scalar: bool = match s.peek() {
        Some(t) => match t {
            Token::Scalar(_) => true,
            _ => false,
        },
        None => false,
    };
    let y: Rat;
    let z: Rat;
    if second_scalar {
        y = match parse_scalar(s) {
            Ok(v) => v,
            Err(e) => { return Err(e); },
        };
        match s.read(&Token::Comma) {
            Ok(_) => {},
            Err(e) => { return Err(e); },
        }
        z = match parse_scalar(s) {
            Ok(v) => v,
            Err(e) => { return Err(e); },
        };
        match s.read(&Token::Comma) {
            Ok(_) => {},
            Err(e) => { return Err(e); },
        }
    } else {
        y = x;
        z = x;
    }
    let local = scale_matrix(x, y, z);
    let child = match node.create_child(&local) {
        Ok(n) => n,
        Err(e) => { return Err(e); },
    };
    let sub = match parse_transformable_element(s, &child) {
        Ok(e) => e,
        Err(e) => { return Err(e); },
    };
    finish_transform(s, local, child, sub)
}

/// Parse `transform(row, row, row, row, <element>)` with an optional
/// trailing `;`: four 4-component rows forming the matrix directly,
/// row-major as written. On success the stored local matrix holds exactly
/// the four parsed rows.
pub fn parse_transform(s: &mut TokenStream, node: &TransformNode) -> (r: Result<
    TransformableElement,
    TokenizationError,
>)
    requires
        old(s).wf(),
        node_wf(*node),
    ensures
        final(s).tokens == old(s).tokens,
        final(s).wf(),
        final(s).pos >= old(s).pos,
        r matches Ok(e) ==> elem_wf(e, *node) && final(s).pos > old(s).pos,
        r is Ok ==> transform_prefix_at(old(s).tokens@, old(s).pos as int),
        r matches Ok(e) ==> (e matches TransformableElement::Transformed(t) && t.local.n == 4
            && t.local.e@ == rows_entries(
            vec4_val(old(s).tokens@, old(s).pos + 2),
            vec4_val(old(s).tokens@, old(s).pos + 12),
            vec4_val(old(s).tokens@, old(s).pos + 22),
            vec4_val(old(s).tokens@, old(s).pos + 32),
        )),
        r matches Ok(e) ==> (transform_out(old(s).tokens@, old(s).pos as int)
            matches BlockOut::Done(ev, end) && elem_matches(e, ev) && final(s).pos == end),
        transform_out(old(s).tokens@, old(s).pos as int) is Done ==> (r matches Err(err)
            ==> err.kind == ErrorKind::Semantic || err.kind == ErrorKind::NumericRange),
        transform_out(old(s).tokens@, old(s).pos as int) is Sem ==> (r matches Err(err2)
            ==> err2.kind == ErrorKind::Semantic || err2.kind == ErrorKind::NumericRange),
        r matches Err(e) ==> e.kind == ErrorKind::Syntax || e.kind == ErrorKind::Semantic
            || e.kind == ErrorKind::NumericRange,
    decreases s.tokens.len() - s.pos, 1int,
{
    match s.read(&Token::Transform) {
        Ok(_) => {},
        Err(e) => { return Err(e); },
    }
    match s.read(&Token::LParen) {
        Ok(_) => {},
        Err(e) => { return Err(e); },
    }
    let r1 = match parse_vector4(s) {
        Ok(v) => v,
        Err(e) => { return Err(e); },
    };
    match s.read(&Token::Comma) {
        Ok(_) => {},
        Err(e) => { return Err(e); },
    }
    let r2 = match parse_vector4(s) {
        Ok(v) => v,
        Err(e) => { return Err(e); },
    };
    match s.read(&Token::Comma) {
        Ok(_) => {},
        Err(e) => { return Err(e); },
    }
    let r3 = match parse_vector4(s) {
        Ok(v) => v,
        Err(e) => { return Err(e); },
    };
    match s.read(&Token::Comma) {
        Ok(_) => {},
        Err(e) => { return Err(e); },
    }
    let r4 = match parse_vector4(s) {
        Ok(v) => v,
        Err(e) => { return Err(e); },
    };
    match s.read(&Token::Comma) {
        Ok(_) => {},
        Err(e) => { return Err(e); },
    }
    let local = mat4_from_rows(r1, r2, r3, r4);
    let child = match node.create_child(&local) {
        Ok(n) => n,
        Err(e) => { return Err(e); },
    };
    let sub = match parse_transformable_element(s, &child) {
        Ok(e) => e,
        Err(e) => { return Err(e); },
    };
    finish_transform(s, local, child, sub)
}

/// Parse one geometry production: a unit object, a cone, a trimesh, or
/// one of the four transform constructors, pinned to the interpretation
/// `geom_out` exactly as `parse_transformable_element` is to `elem_out`.
pub fn parse_geometry(s: &mut TokenStream, node: &TransformNode) -> (r: Result<
    TransformableElement,
    TokenizationError,
>)
    requires
        old(s).wf(),
        node_wf(*node),
    ensures
        final(s).tokens == old(s).tokens,
        final(s).wf(),
        final(s).pos >= old(s).pos,
        r matches Ok(e) ==> elem_wf(e, *node) && final(s).pos > old(s).pos,
        r is Ok ==> old(s).pos < old(s).tokens.len() && geom_starter(old(s).tokens@[
            old(s).pos as int
        ]@),
        r matches Ok(e) ==> dispatch_ok(old(s).tokens@[old(s).pos as int]@, e),
        (old(s).pos < old(s).tokens.len() && unit_kw(old(s).tokens@[old(s).pos as int]@)) ==> (r
            is Ok <==> unit_out(old(s).tokens@, old(s).pos as int, old(s).tokens@[
            old(s).pos as int
        ]) is Done),
        (old(s).pos < old(s).tokens.len() && unit_kw(old(s).tokens@[old(s).pos as int]@) && r
            is Ok) ==> (unit_out(old(s).tokens@, old(s).pos as int, old(s).tokens@[
            old(s).pos as int
        ]) matches BlockOut::Done(uv, end) && final(s).pos == end),
        (old(s).pos < old(s).tokens.len() && old(s).tokens@[old(s).pos as int]@ is Cone) ==> (r
            is Ok <==> cone_out(old(s).tokens@, old(s).pos as int) is Done),
        (old(s).pos < old(s).tokens.len() && old(s).tokens@[old(s).pos as int]@ is Cone && r
            is Ok) ==> (cone_out(old(s).tokens@, old(s).pos as int) matches BlockOut::Done(cv, end)
            && final(s).pos == end),
        r matches Ok(e) ==> (geom_out(old(s).tokens@, old(s).pos as int) matches BlockOut::Done(
            ev,
            end,
        ) && elem_matches(e, ev) && final(s).pos == end),
        geom_out(old(s).tokens@, old(s).pos as int) matches BlockOut::Done(ev, end)
            && elem_v_pure(ev) ==> r is Ok,
        geom_out(old(s).tokens@, old(s).pos as int) is Done ==> (r matches Err(err) ==> err.kind
            == ErrorKind::Semantic || err.kind == ErrorKind::NumericRange),
        geom_out(old(s).tokens@, old(s).pos as int) is Sem ==> (r matches Err(err2)
            ==> err2.kind == ErrorKind::Semantic || err2.kind == ErrorKind::NumericRange),
        r matches Err(e) ==> e.kind == ErrorKind::Syntax || e.kind == ErrorKind::Semantic
            || e.kind == ErrorKind::NumericRange,
    decreases s.tokens.len() - s.pos, 2int,
{
    let sel: u32 = match s.peek() {
        None => {
            return Err(out_of_tokens_err());
        },
        Some(t) => match t {
            Token::Sphere => 1,
            Token::Box => 2,
            Token::Square => 3,
            Token::Cylinder => 4,
            Token::Cone => 5,
            Token::Trimesh => 6,
            Token::Translate => 7,
            Token::Rotate => 8,
            Token::Scale => 9,
            Token::Transform => 10,
            _ => 0,
        },
    };
    if sel == 1 {
        match parse_unit_object(s, &Token::Sphere, node) {
            Ok(d) => Ok(TransformableElement::Geometry(d)),
            Err(e) => Err(e),
        }
    } else if sel == 2 {
        match parse_unit_object(s, &Token::Box, node) {
            Ok(d) => Ok(TransformableElement::Geometry(d)),
            Err(e) => Err(e),
        }
    } else if sel == 3 {
        match parse_unit_object(s, &Token::Square, node) {
            Ok(d) => Ok(TransformableElement::Geometry(d)),
            Err(e) => Err(e),
        }
    } else if sel == 4 {
        match parse_unit_object(s, &Token::Cylinder, node) {
            Ok(d) => Ok(TransformableElement::Geometry(d)),
            Err(e) => Err(e),
        }
    } else if sel == 5 {
        match parse_cone(s, node) {
            Ok(d) => Ok(TransformableElement::Geometry(d)),
            Err(e) => Err(e),
        }
    } else if sel == 6 {
        match parse_trimesh(s, node) {
            Ok(d) => Ok(TransformableElement::Geometry(d)),
            Err(e) => Err(e),
        }
    } else if sel == 7 {
        parse_translate(s, node)
    } else if sel == 8 {
        parse_rotate(s, node)
    } else if sel == 9 {
        parse_scale(s, node)
    } else if sel == 10 {
        parse_transform(s, node)
    } else {
        Err(unexpected_token_err())
    }
}

/// Parse a bare `{ ... }` group: nested transformable elements until `}`.
/// Every member is well-formed under the same ambient node handed in — a
/// group introduces no transform of its own. On success the members match
/// the interpreted group values in source order and the cursor stands just
/// past the matching brace; a transform-free derivable group is owed
/// success, and on a derivable group no syntax error can come back.
pub fn parse_group(s: &mut TokenStream, node: &TransformNode) -> (r: Result<
    Vec<TransformableElement>,
    TokenizationError,
>)
    requires
        old(s).wf(),
        node_wf(*node),
    ensures
        final(s).tokens == old(s).tokens,
        final(s).wf(),
        final(s).pos >= old(s).pos,
        r matches Ok(es) ==> (forall|i: int| 0 <= i < es.len() ==> elem_wf(#[trigger] es@[i],
            *node)) && final(s).pos > old(s).pos,
        r is Ok ==> variant_at(old(s).tokens@, old(s).pos as int, Token::LBrace) && variant_at(
            old(s).tokens@,
            final(s).pos - 1,
            Token::RBrace,
        ),
        !variant_at(old(s).tokens@, old(s).pos as int, Token::LBrace) ==> (r matches Err(e)
            && e.kind == ErrorKind::Syntax && final(s).pos == old(s).pos),
        (variant_at(old(s).tokens@, old(s).pos as int, Token::LBrace) && variant_at(
            old(s).tokens@,
            old(s).pos + 1,
            Token::RBrace,
        )) ==> (r matches Ok(es) && es.len() == 0 && final(s).pos == old(s).pos + 2),
        r matches Ok(es) ==> (group_out(old(s).tokens@, old(s).pos as int) matches BlockOut::Done(
            evs,
            end,
        ) && es.len() == evs.len() && (forall|i: int|
            0 <= i < es.len() ==> elem_matches(#[trigger] es@[i], evs[i])) && final(s).pos == end),
        group_out(old(s).tokens@, old(s).pos as int) matches BlockOut::Done(evs, end) && (forall|
            i: int,
        | 0 <= i < evs.len() ==> elem_v_pure(#[trigger] evs[i])) ==> r is Ok,
        group_out(old(s).tokens@, old(s).pos as int) is Done ==> (r matches Err(e) ==> e.kind
            == ErrorKind::Semantic || e.kind == ErrorKind::NumericRange),
        group_out(old(s).tokens@, old(s).pos as int) is Sem ==> (r matches Err(err2)
            ==> err2.kind == ErrorKind::Semantic || err2.kind == ErrorKind::NumericRange),
        r matches Err(e) ==> e.kind == ErrorKind::Syntax || e.kind == ErrorKind::Semantic
            || e.kind == ErrorKind::NumericRange,
    decreases s.tokens.len() - s.pos, 1int,
{
    match s.read(&Token::LBrace) {
        Ok(_) => {},
        Err(e) => { return Err(e); },
    }
    let mut es: Vec<TransformableElement> = Vec::new();
    let ghost mut accv = Seq::<ElemV>::empty();
    loop
        invariant
            s.wf(),
            s.tokens == old(s).tokens,
            s.pos > old(s).pos,
            node_wf(*node),
            forall|i: int| 0 <= i < es.len() ==> elem_wf(#[trigger] es@[i], *node),
            variant_at(old(s).tokens@, old(s).pos as int, Token::LBrace),
            variant_at(old(s).tokens@, old(s).pos + 1, Token::RBrace) ==> s.pos == old(s).pos + 1
                && es.len() == 0,
            es.len() == accv.len(),
            forall|i: int| 0 <= i < es.len() ==> elem_matches(#[trigger] es@[i], accv[i]),
            group_items(old(s).tokens@, s.pos as int, accv) == group_out(
                old(s).tokens@,
                old(s).pos as int,
            ),
        decreases s.tokens.len() - s.pos,
    {
        let ghost pos_h = s.pos as int;
        let at_end: u32 = match s.peek() {
            None => {
                return Err(out_of_tokens_err());
            },
            Some(t) => match t {
                Token::RBrace => 1,
                _ => 0,
            },
        };
        if at_end == 1 {
            s.advance();
            return Ok(es);
        }
        let e = match parse_transformable_element(s, node) {
            Ok(e) => e,
            Err(e) => {
                proof {
                    let ts = old(s).tokens@;
                    let target = group_out(ts, old(s).pos as int);
                    if target is Done {
                        let eo = elem_out(ts, pos_h);
                        assert(eo is Done);
                        let ev2 = eo->Done_0;
                        let end2 = eo->Done_1;
                        let full = target->Done_0;
                        assert(pos_h < end2 <= ts.len());
                        lemma_group_items_prefix(ts, end2, accv.push(ev2));
                        assert(full.subrange(0, accv.len() as int + 1) == accv.push(ev2));
                        assert(full.subrange(0, accv.len() as int + 1)[accv.len() as int] == ev2);
                        assert(full[accv.len() as int] == ev2);
                    }
                }
                return Err(e);
            },
        };
        proof {
            let ts = old(s).tokens@;
            let eo = elem_out(ts, pos_h);
            accv = accv.push(eo->Done_0);
        }
        es.push(e);
    }
}

/// Parse one transformable element: a geometry production or a bare
/// group. On success the element matches the value `elem_out` derives and
/// the cursor stands just past the production; a derivable, transform-free
/// element is owed success, and on a derivable element any failure is a
/// semantic or numeric-range error, never a syntax error.
pub fn parse_transformable_element(s: &mut TokenStream, node: &TransformNode) -> (r: Result<
    TransformableElement,
    TokenizationError,
>)
    requires
        old(s).wf(),
        node_wf(*node),
    ensures
        final(s).tokens == old(s).tokens,
        final(s).wf(),
        final(s).pos >= old(s).pos,
        r matches Ok(e) ==> elem_wf(e, *node) && final(s).pos > old(s).pos,
        r is Ok ==> old(s).pos < old(s).tokens.len() && elem_starter(old(s).tokens@[
            old(s).pos as int
        ]@),
        r matches Ok(e) ==> dispatch_ok(old(s).tokens@[old(s).pos as int]@, e),
        (old(s).pos < old(s).tokens.len() && unit_kw(old(s).tokens@[old(s).pos as int]@)) ==> (r
            is Ok <==> unit_out(old(s).tokens@, old(s).pos as int, old(s).tokens@[
            old(s).pos as int
        ]) is Done),
        (old(s).pos < old(s).tokens.len() && old(s).tokens@[old(s).pos as int]@ is Cone) ==> (r
            is Ok <==> cone_out(old(s).tokens@, old(s).pos as int) is Done),
        !(old(s).pos < old(s).tokens.len() && elem_starter(old(s).tokens@[old(s).pos as int]@))
            ==> (r matches Err(e) && e.kind == ErrorKind::Syntax && final(s).pos == old(s).pos),
        r matches Ok(e) ==> (elem_out(old(s).tokens@, old(s).pos as int) matches BlockOut::Done(
            ev,
            end,
        ) && elem_matches(e, ev) && final(s).pos == end),
        elem_out(old(s).tokens@, old(s).pos as int) matches BlockOut::Done(ev, end)
            && elem_v_pure(ev) ==> r is Ok,
        elem_out(old(s).tokens@, old(s).pos as int) is Done ==> (r matches Err(err) ==> err.kind
            == ErrorKind::Semantic || err.kind == ErrorKind::NumericRange),
        elem_out(old(s).tokens@, old(s).pos as int) is Sem ==> (r matches Err(err2)
            ==> err2.kind == ErrorKind::Semantic || err2.kind == ErrorKind::NumericRange),
        r matches Err(e) ==> e.kind == ErrorKind::Syntax || e.kind == ErrorKind::Semantic
            || e.kind == ErrorKind::NumericRange,
    decreases s.tokens.len() - s.pos, 3int,
{
    let sel: u32 = match s.peek() {
        None => {
            return Err(out_of_tokens_err());
        },
        Some(t) => match t {
            Token::Sphere => 1,
            Token::Box => 1,
            Token::Square => 1,
            Token::Cylinder => 1,
            Token::Cone => 1,
            Token::Trimesh => 1,
            Token::Translate => 1,
            Token::Rotate => 1,
            Token::Scale => 1,
            Token::Transform => 1,
            Token::LBrace => 2,
            _ => 0,
        },
    };
    if sel == 1 {
        parse_geometry(s, node)
    } else if sel == 2 {
        match parse_group(s, node) {
            Ok(es) => {
                let e = TransformableElement::Group(es);
                Ok(e)
            },
            Err(e) => {
                proof {
                    let ts = old(s).tokens@;
                    let p = old(s).pos as int;
                    let eo = elem_out(ts, p);
                    if eo is Done && elem_v_pure(eo->Done_0) {
                        let go = group_out(ts, p);
                        assert(go is Done);
                        let evs = go->Done_0;
                        assert(eo->Done_0 == ElemV::Group(evs));
                        assert(forall|i: int|
                            0 <= i < evs.len() ==> elem_v_pure(#[trigger] evs[i]));
                    }
                }
                Err(e)
            },
        }
    } else {
        Err(unexpected_token_err())
    }
}


// ---------------------------------------------------------------------------
// The scene assembler
// ---------------------------------------------------------------------------

/// Whether a parsed version number exceeds 1.1, exactly: `10 n > 11 d`.
fn version_unsupported(v: &Rat) -> (r: bool)
    requires
        rat_wf(*v),
    ensures
        r == (10 * v.num > 11 * v.den),
{
    if v.num <= v.den {
        proof {
            assert(10 * v.num <= 10 * v.den) by (nonlinear_arith)
                requires
                    v.num <= v.den,
            ;
            assert(10 * v.den < 11 * v.den) by (nonlinear_arith)
                requires
                    v.den > 0,
            ;
        }
        false
    } else {
        let t = v.num - v.den;
        proof {
            assert(10 * v.num > 11 * v.den <==> 10 * t > v.den) by (nonlinear_arith)
                requires
                    t == v.num - v.den,
            ;
        }
        match t.checked_mul(10) {
            Some(t10) => t10 > v.den,
            None => {
                proof {
                    assert(10 * t > v.den) by (nonlinear_arith)
                        requires
                            t * 10 > i128::MAX,
                            v.den <= i128::MAX,
                    ;
                }
                true
            },
        }
    }
}

/// The builder that assembles a scene from a finalized token sequence: the
/// accumulated lights and element trees, the root transform node, and the
/// optional camera and ambient color.
pub struct RaySceneBuilder {
    pub lights: Vec<Light>,
    pub objects: Vec<TransformableElement>,
    pub root_transform: TransformNode,
    pub camera: Option<Camera>,
    pub ambient: Option<Vec3>,
}

/// Well-formedness of the builder: the root is the well-formed identity
/// node, every element tree is well-formed under it, and lights, camera
/// and ambient color are well-formed.
pub open spec fn builder_wf(b: RaySceneBuilder) -> bool {
    &&& node_wf(b.root_transform)
    &&& crate::scene::is_ident_entries(b.root_transform.xform.e@, 4)
    &&& forall|i: int| 0 <= i < b.objects.len() ==> elem_wf(#[trigger] b.objects@[i],
        b.root_transform)
    &&& forall|i: int| 0 <= i < b.lights.len() ==> light_wf(#[trigger] b.lights@[i])
    &&& b.camera matches Some(c) ==> camera_wf(c)
    &&& b.ambient matches Some(v) ==> vec3_wf(v)
}

impl RaySceneBuilder {
    /// Build the internal scene representation from a token sequence:
    /// validate the `SBT-raytracer` header and version, then accumulate
    /// top-level declarations until the end of the input. The result is
    /// pinned to the scene interpretation `scene_out`: on success the
    /// lights, camera, ambient color and element values are exactly what
    /// the tokens derive, in source order; a derivable token sequence
    /// whose elements are free of transform constructors is owed success,
    /// and on any derivable sequence no syntax error can come back.
    pub fn new(tokens: Vec<Token>) -> (r: Result<RaySceneBuilder, TokenizationError>)
        ensures
            r matches Ok(b) ==> builder_wf(b),
            r is Ok ==> variant_at(tokens@, 0, Token::SbtRaytracer) && scalar_at(tokens@, 1) && (
            tokens@[1]@ matches TokenV::Scalar(n, d) ==> 10 * n <= 11 * d),
            (variant_at(tokens@, 0, Token::SbtRaytracer) && scalar_at(tokens@, 1) && (tokens@[1]@
                matches TokenV::Scalar(n, d) && 10 * n > 11 * d)) ==> (r matches Err(e) && e.kind
                == ErrorKind::Semantic),
            (variant_at(tokens@, 0, Token::SbtRaytracer) && scalar_at(tokens@, 1) && (tokens@[1]@
                matches TokenV::Scalar(n, d) && 10 * n <= 11 * d) && tokens@.len() == 2) ==> (r
                matches Ok(b) && b.objects.len() == 0 && b.lights.len() == 0 && b.camera is None
                && b.ambient is None),
            r matches Ok(b) ==> (scene_out(tokens@) matches BlockOut::Done(sv, end) && end
                == tokens@.len() && b.lights@ == sv.lights && b.camera == sv.camera && b.ambient
                == sv.ambient && b.objects.len() == sv.objects.len() && (forall|i: int|
                0 <= i < sv.objects.len() ==> elem_matches(
                    #[trigger] b.objects@[i],
                    sv.objects[i],
                ))),
            (scene_out(tokens@) matches BlockOut::Done(sv, end) && (forall|i: int|
                0 <= i < sv.objects.len() ==> elem_v_pure(#[trigger] sv.objects[i]))) ==> r is Ok,
            scene_out(tokens@) is Done ==> (r matches Err(e) ==> e.kind == ErrorKind::Semantic
                || e.kind == ErrorKind::NumericRange),
            scene_out(tokens@) is Sem ==> (r matches Err(e) && (e.kind == ErrorKind::Semantic
                || e.kind == ErrorKind::NumericRange)),
            !(variant_at(tokens@, 0, Token::SbtRaytracer) && scalar_at(tokens@, 1)) ==> (r
                matches Err(e) && e.kind == ErrorKind::Syntax),
    {
        let mut stream = TokenStream::new(tokens);
        let builder = RaySceneBuilder {
            lights: Vec::new(),
            objects: Vec::new(),
            root_transform: TransformNode::root(),
            camera: None,
            ambient: None,
        };
        let r = builder.parse_scene(&mut stream);
        proof {
            if r is Ok {
                let b2 = r->Ok_0;
                let so = scene_out(tokens@);
                if so is Done {
                    let sv = so->Done_0;
                    assert(Seq::<Light>::empty() + sv.lights =~= sv.lights);
                    assert forall|i: int| 0 <= i < sv.objects.len() implies elem_matches(
                        #[trigger] b2.objects@[i],
                        sv.objects[i],
                    ) by {
                        assert(elem_matches(b2.objects@[0 + i], sv.objects[i]));
                    }
                }
            }
        }
        r
    }

    /// The top-level driver: header, version, then a dispatch loop over
    /// camera, light, ambient and element declarations until end of input.
    /// A second `camera` block is a semantic error; lights and geometry
    /// accumulate without limit, in source order, pinned to `scene_out_at`
    /// when the builder starts without a camera or ambient color.
    fn parse_scene(self, s: &mut TokenStream) -> (r: Result<RaySceneBuilder, TokenizationError>)
        requires
            old(s).wf(),
            builder_wf(self),
        ensures
            r matches Ok(b) ==> builder_wf(b),
            r is Ok ==> variant_at(old(s).tokens@, old(s).pos as int, Token::SbtRaytracer)
                && scalar_at(old(s).tokens@, old(s).pos + 1) && (old(s).tokens@[
                old(s).pos + 1
            ]@ matches TokenV::Scalar(n, d) ==> 10 * n <= 11 * d),
            (variant_at(old(s).tokens@, old(s).pos as int, Token::SbtRaytracer) && scalar_at(
                old(s).tokens@,
                old(s).pos + 1,
            ) && (old(s).tokens@[old(s).pos + 1]@ matches TokenV::Scalar(n, d) && 10 * n > 11 * d))
                ==> (r matches Err(e) && e.kind == ErrorKind::Semantic),
            (variant_at(old(s).tokens@, old(s).pos as int, Token::SbtRaytracer) && scalar_at(
                old(s).tokens@,
                old(s).pos + 1,
            ) && (old(s).tokens@[old(s).pos + 1]@ matches TokenV::Scalar(n, d) && 10 * n <= 11 * d)
                && old(s).tokens@.len() == old(s).pos + 2) ==> (r matches Ok(b) && b.objects@
                == self.objects@ && b.lights@ == self.lights@ && b.camera == self.camera
                && b.ambient == self.ambient),
            r matches Ok(b) ==> ((self.camera is None && self.ambient is None) ==> (scene_out_at(
                old(s).tokens@,
                old(s).pos as int,
            ) matches BlockOut::Done(sv, end) && end == old(s).tokens@.len() && b.lights@
                == self.lights@ + sv.lights && b.camera == sv.camera && b.ambient == sv.ambient
                && b.objects.len() == self.objects.len() + sv.objects.len() && (forall|i: int|
                0 <= i < sv.objects.len() ==> elem_matches(
                    #[trigger] b.objects@[self.objects.len() + i],
                    sv.objects[i],
                )))),
            (scene_out_at(old(s).tokens@, old(s).pos as int) matches BlockOut::Done(sv, end)
                && self.camera is None && self.ambient is None && (forall|i: int|
                0 <= i < sv.objects.len() ==> elem_v_pure(#[trigger] sv.objects[i]))) ==> r is Ok,
            (self.camera is None && self.ambient is None && scene_out_at(
                old(s).tokens@,
                old(s).pos as int,
            ) is Done) ==> (r matches Err(e) ==> e.kind == ErrorKind::Semantic || e.kind
                == ErrorKind::NumericRange),
            (self.camera is None && self.ambient is None && scene_out_at(
                old(s).tokens@,
                old(s).pos as int,
            ) is Sem) ==> (r matches Err(e) && (e.kind == ErrorKind::Semantic || e.kind
                == ErrorKind::NumericRange)),
            !(variant_at(old(s).tokens@, old(s).pos as int, Token::SbtRaytracer) && scalar_at(
                old(s).tokens@,
                old(s).pos + 1,
            )) ==> (r matches Err(e) && e.kind == ErrorKind::Syntax),
    {
        let mut b = self;
        match s.read(&Token::SbtRaytracer) {
            Ok(_) => {},
            Err(e) => { return Err(e); },
        }
        let version = match parse_scalar(s) {
            Ok(v) => v,
            Err(e) => { return Err(e); },
        };
        if version_unsupported(&version) {
            return Err(TokenizationError::of_kind(
                ErrorKind::Semantic,
                "Unsupported SbtRaytracer version",
            ));
        }
        let ghost mut sobj = Seq::<ElemV>::empty();
        let ghost mut slights = Seq::<Light>::empty();
        proof {
            assert(self.lights@ + Seq::<Light>::empty() =~= self.lights@);
        }
        loop
            invariant
                s.wf(),
                s.tokens == old(s).tokens,
                builder_wf(b),
                variant_at(old(s).tokens@, old(s).pos as int, Token::SbtRaytracer),
                scalar_at(old(s).tokens@, old(s).pos + 1),
                old(s).tokens@[old(s).pos + 1]@ matches TokenV::Scalar(n, d) ==> 10 * n <= 11 * d,
                old(s).tokens@.len() == old(s).pos + 2 ==> (s.pos == old(s).pos + 2 && b.objects@
                    == self.objects@ && b.lights@ == self.lights@ && b.camera == self.camera
                    && b.ambient == self.ambient),
                b.objects.len() == self.objects.len() + sobj.len(),
                forall|i: int| 0 <= i < sobj.len() ==> elem_matches(
                    #[trigger] b.objects@[self.objects.len() + i],
                    sobj[i],
                ),
                b.lights@ == self.lights@ + slights,
                (self.camera is None && self.ambient is None) ==> scene_items(
                    old(s).tokens@,
                    s.pos as int,
                    SceneV {
                        objects: sobj,
                        lights: slights,
                        camera: b.camera,
                        ambient: b.ambient,
                    },
                ) == scene_items(old(s).tokens@, old(s).pos + 2, scene_v_empty()),
            decreases s.tokens.len() - s.pos,
        {
            let ghost pos_h = s.pos as int;
            let sel: u32 = match s.peek() {
                None => {
                    return Ok(b);
                },
                Some(t) => match t {
                    Token::Camera => 1,
                    Token::PointLight => 2,
                    Token::DirectionalLight => 3,
                    Token::AmbientLight => 4,
                    Token::Sphere => 5,
                    Token::Box => 5,
                    Token::Square => 5,
                    Token::Cylinder => 5,
                    Token::Cone => 5,
                    Token::Trimesh => 5,
                    Token::Translate => 5,
                    Token::Rotate => 5,
                    Token::Scale => 5,
                    Token::Transform => 5,
                    Token::LBrace => 5,
                    _ => 0,
                },
            };
            if sel == 1 {
                if b.camera.is_some() {
                    return Err(TokenizationError::of_kind(
                        ErrorKind::Semantic,
                        "duplicate camera declaration",
                    ));
                }
                let c = match parse_camera_block(s) {
                    Ok(c) => c,
                    Err(e) => { return Err(e); },
                };
                b.camera = Some(c);
            } else if sel == 2 {
                let l = match parse_point_light_block(s) {
                    Ok(l) => l,
                    Err(e) => { return Err(e); },
                };
                b.lights.push(l);
                proof {
                    slights = slights.push(l);
                    assert(b.lights@ =~= self.lights@ + slights);
                }
            } else if sel == 3 {
                let l = match parse_directional_light_block(s) {
                    Ok(l) => l,
                    Err(e) => { return Err(e); },
                };
                b.lights.push(l);
                proof {
                    slights = slights.push(l);
                    assert(b.lights@ =~= self.lights@ + slights);
                }
            } else if sel == 4 {
                let a = match parse_ambient_light_block(s) {
                    Ok(a) => a,
                    Err(e) => { return Err(e); },
                };
                b.ambient = Some(a);
            } else if sel == 5 {
                let e = match parse_transformable_element(s, &b.root_transform) {
                    Ok(e) => e,
                    Err(e) => {
                        proof {
                            if self.camera is None && self.ambient is None {
                                let ts = old(s).tokens@;
                                let target = scene_items(ts, old(s).pos + 2, scene_v_empty());
                                if target is Done {
                                    let eo = elem_out(ts, pos_h);
                                    assert(eo is Done);
                                    let ev2 = eo->Done_0;
                                    let end2 = eo->Done_1;
                                    let sv = target->Done_0;
                                    assert(pos_h < end2 <= ts.len());
                                    lemma_scene_items_prefix(
                                        ts,
                                        end2,
                                        SceneV {
                                            objects: sobj.push(ev2),
                                            lights: slights,
                                            camera: b.camera,
                                            ambient: b.ambient,
                                        },
                                    );
                                    assert(sv.objects.subrange(0, sobj.len() as int + 1)
                                        == sobj.push(ev2));
                                    assert(sv.objects.subrange(0, sobj.len() as int + 1)[
                                        sobj.len() as int
                                    ] == ev2);
                                    assert(sv.objects[sobj.len() as int] == ev2);
                                }
                            }
                        }
                        return Err(e);
                    },
                };
                proof {
                    let ts = old(s).tokens@;
                    sobj = sobj.push(elem_out(ts, pos_h)->Done_0);
                }
                b.objects.push(e);
            } else {
                return Err(unexpected_token_err());
            }
        }
    }

    /// Render the internal representation into the generalized `Scene`:
    /// flatten the element trees into the ordered sequence of geometry
    /// declarations, each keeping the transform node in effect at its point
    /// of declaration.
    pub fn create_scene(self) -> (sc: Scene)
        requires
            builder_wf(self),
        ensures
            scene_wf(sc),
            sc.objects@ == flatten_list(self.objects, self.objects.len() as int),
            sc.lights == self.lights,
            sc.camera == self.camera,
            sc.ambient == self.ambient,
            node_same(sc.transform_root, self.root_transform),
    {
        let ghost b0 = self;
        let RaySceneBuilder { lights, mut objects, root_transform, camera, ambient } = self;
        let ghost v0 = objects;
        let mut out: Vec<GeometryDecl> = Vec::new();
        let mut k: usize = 0;
        proof {
            assert(out@ =~= Seq::<GeometryDecl>::empty() + flatten_list(v0, 0));
        }
        while objects.len() > 0
            invariant
                k + objects.len() == v0.len(),
                objects@ =~= v0@.subrange(k as int, v0.len() as int),
                out@ == flatten_list(v0, k as int),
                forall|i: int| 0 <= i < v0.len() ==> elem_wf(#[trigger] v0@[i],
                    b0.root_transform),
                root_transform == b0.root_transform,
                node_wf(root_transform),
                forall|i: int| 0 <= i < out.len() ==> decl_wf(#[trigger] out@[i]),
            decreases objects.len(),
        {
            let e = objects.remove(0);
            proof {
                assert(e == v0@[k as int]);
                assert(elem_wf(e, b0.root_transform));
                lemma_flatten_wf(e, b0.root_transform);
            }
            let ghost out_before = out@;
            flatten_into(e, &mut out);
            k += 1;
            proof {
                assert(flatten_list(v0, k as int) == flatten_list(v0, k as int - 1)
                    + flatten_elem(v0@[k as int - 1]));
                assert(out@ =~= flatten_list(v0, k as int));
                assert(objects@ =~= v0@.subrange(k as int, v0.len() as int));
                assert forall|i: int| 0 <= i < out.len() implies decl_wf(#[trigger] out@[i]) by {
                    if i >= out_before.len() {
                        assert(out@[i] == flatten_elem(e)[i - out_before.len()]);
                    }
                }
            }
        }
        proof {
            assert(k == v0.len());
        }
        Scene { transform_root: root_transform, objects: out, lights, camera, ambient }
    }
}

/// Append the geometry declarations of one element, in declaration order.
#[verifier::loop_isolation(false)]
fn flatten_into(e: TransformableElement, out: &mut Vec<GeometryDecl>)
    ensures
        final(out)@ == old(out)@ + flatten_elem(e),
    decreases crate::scene::elem_size(e),
{
    let ghost ge = e;
    match e {
        TransformableElement::Geometry(g) => {
            proof {
                assert(old(out)@.push(g) =~= old(out)@ + flatten_elem(ge));
            }
            out.push(g);
        },
        TransformableElement::Group(mut es) => {
            let ghost v0 = es;
            let mut k: usize = 0;
            proof {
                assert(out@ =~= old(out)@ + flatten_list(v0, 0));
            }
            while es.len() > 0
                invariant
                    k + es.len() == v0.len(),
                    es@ =~= v0@.subrange(k as int, v0.len() as int),
                    out@ == old(out)@ + flatten_list(v0, k as int),
                    ge == TransformableElement::Group(v0),
                decreases es.len(),
            {
                let e2 = es.remove(0);
                proof {
                    assert(e2 == v0@[k as int]);
                    assert(ge == TransformableElement::Group(v0));
                    crate::scene::lemma_member_size(v0, k as int);
                    assert(crate::scene::elem_size(e2) < crate::scene::elem_size(ge));
                }
                let ghost out_before = out@;
                flatten_into(e2, out);
                k += 1;
                proof {
                    assert(flatten_list(v0, k as int) == flatten_list(v0, k as int - 1)
                        + flatten_elem(v0@[k as int - 1]));
                    assert(out@ =~= old(out)@ + flatten_list(v0, k as int));
                    assert(es@ =~= v0@.subrange(k as int, v0.len() as int));
                }
            }
            proof {
                assert(k == v0.len());
                assert(flatten_elem(ge) == flatten_list(v0, v0.len() as int));
            }
        },
        TransformableElement::Transformed(t) => {
            let ghost gt = t;
            let sub = t.sub;
            proof {
                assert(ge == TransformableElement::Transformed(gt));
                assert(crate::scene::elem_size(*gt.sub) < crate::scene::elem_size(ge));
            }
            flatten_into(*sub, out);
        },
    }
}

/// Every declaration flattened out of a well-formed element is well-formed.
proof fn lemma_flatten_wf(e: TransformableElement, ambient: TransformNode)
    requires
        elem_wf(e, ambient),
    ensures
        forall|i: int| 0 <= i < flatten_elem(e).len() ==> decl_wf(#[trigger] flatten_elem(e)[i]),
    decreases e, 0int,
{
    match e {
        TransformableElement::Geometry(g) => {
            assert forall|i: int| 0 <= i < flatten_elem(e).len() implies decl_wf(
                #[trigger] flatten_elem(e)[i],
            ) by {
                assert(flatten_elem(e) =~= seq![g]);
                assert(flatten_elem(e)[i] == g);
                assert(decl_wf(g));
            }
        },
        TransformableElement::Group(es) => {
            lemma_flatten_list_wf(es, es.len() as int, ambient);
            assert(flatten_elem(e) == flatten_list(es, es.len() as int));
            assert forall|i: int| 0 <= i < flatten_elem(e).len() implies decl_wf(
                #[trigger] flatten_elem(e)[i],
            ) by {
                assert(flatten_elem(e)[i] == flatten_list(es, es.len() as int)[i]);
            }
        },
        TransformableElement::Transformed(t) => {
            lemma_flatten_wf(*t.sub, t.node);
            assert(flatten_elem(e) == flatten_elem(*t.sub));
            assert forall|i: int| 0 <= i < flatten_elem(e).len() implies decl_wf(
                #[trigger] flatten_elem(e)[i],
            ) by {
                assert(flatten_elem(e)[i] == flatten_elem(*t.sub)[i]);
            }
        },
    }
}

/// Every declaration flattened out of a prefix of well-formed elements is
/// well-formed.
proof fn lemma_flatten_list_wf(es: Vec<TransformableElement>, k: int, ambient: TransformNode)
    requires
        forall|i: int| 0 <= i < es.len() ==> elem_wf(#[trigger] es@[i], ambient),
    ensures
        forall|i: int| 0 <= i < flatten_list(es, k).len() ==> decl_wf(
            #[trigger] flatten_list(es, k)[i],
        ),
    decreases es, k,
{
    if k > 0 && k <= es.len() {
        lemma_flatten_list_wf(es, k - 1, ambient);
        lemma_flatten_wf(es@[k - 1], ambient);
        assert forall|i: int| 0 <= i < flatten_list(es, k).len() implies decl_wf(
            #[trigger] flatten_list(es, k)[i],
        ) by {
            if i >= flatten_list(es, k - 1).len() {
                assert(flatten_list(es, k)[i] == flatten_elem(es@[k - 1])[i - flatten_list(
                    es,
                    k - 1,
                ).len()]);
            }
        }
    }
}

/// The scene-file parser for `.ray` source text.
pub struct RayParser;

impl RayParser {
    /// Parse complete source text into a `Scene`: lex it whole (any lexical
    /// error is surfaced before parsing begins), build the internal
    /// representation, and render it. On success the scene is well-formed —
    /// its root is the identity node and every geometry declaration carries
    /// a transform node with certified inverse and normal matrices — and
    /// its lights, camera, ambient color and flattened geometry match the
    /// scene interpretation of a token sequence that lexes from the input.
    pub fn parse_scene(input: &str) -> (r: Result<Scene, TokenizationError>)
        ensures
            r matches Ok(sc) ==> scene_wf(sc),
            crate::lexer::lex_from(input@, 0) matches crate::lexer::LexOut::Fail(o) ==> (r
                matches Err(e) && e.kind == ErrorKind::Lexical && e.offset as int == o),
            (crate::lexer::lex_from(input@, 0) matches crate::lexer::LexOut::Toks(tvs)
                && tvs.len() == 2 && tvs[0] is SbtRaytracer && (tvs[1] matches TokenV::Scalar(n, d)
                && 0 < d && 10 * n <= 11 * d)) ==> (r matches Ok(sc) && sc.objects.len() == 0
                && sc.lights.len() == 0 && sc.camera is None && sc.ambient is None),
            (crate::lexer::lex_from(input@, 0) matches crate::lexer::LexOut::Toks(tvs)
                && tvs.len() >= 2 && tvs[0] is SbtRaytracer && (tvs[1] matches TokenV::Scalar(n, d)
                && 0 < d && 10 * n > 11 * d)) ==> (r matches Err(e) && e.kind
                == ErrorKind::Semantic),
            r matches Ok(sc) ==> (crate::lexer::lex_from(input@, 0)
                matches crate::lexer::LexOut::Toks(tvs) && (exists|toks: Seq<Token>|
                #[trigger] crate::lexer::views_of(toks) == tvs && (scene_out(toks)
                    matches BlockOut::Done(sv, end) && end == toks.len() && sc.lights@ == sv.lights
                    && sc.camera == sv.camera && sc.ambient == sv.ambient && sc.objects.len()
                    == flatten_list_v(sv.objects, sv.objects.len() as int).len() && (forall|
                    i: int,
                |
                    0 <= i < sc.objects.len() ==> decl_matches(
                        #[trigger] sc.objects@[i],
                        flatten_list_v(sv.objects, sv.objects.len() as int)[i],
                    ))))),
    {
        let mut tokenizer = RayTokenizer::new(input);
        let tokens = match tokenizer.tokenize() {
            Ok(ts) => ts,
            Err(e) => { return Err(e); },
        };
        proof {
            let tvs = crate::lexer::views_of(tokens@);
            assert(forall|i: int| 0 <= i < tokens@.len() ==> tvs[i] == #[trigger] tokens@[i]@);
        }
        let builder = match RaySceneBuilder::new(tokens) {
            Ok(b) => b,
            Err(e) => { return Err(e); },
        };
        let ghost gb = builder;
        let ghost gtoks = tokens@;
        let sc = builder.create_scene();
        proof {
            let so = scene_out(gtoks);
            if so is Done {
                let sv = so->Done_0;
                lemma_flatten_list_matches(gb.objects, sv.objects, gb.objects.len() as int);
                assert(sc.objects@ == crate::scene::flatten_list(
                    gb.objects,
                    gb.objects.len() as int,
                ));
            }
        }
        Ok(sc)
    }
}

} // verus!
