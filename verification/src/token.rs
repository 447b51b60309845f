//! The token alphabet of the scene language.
//!
//! Payload-bearing variants (`Ident`, `StrLit`, `Scalar`) match each other
//! by variant identity only during parsing; all other variants compare by
//! full identity, which for payload-free variants is the same thing. The
//! ghost mirror `TokenV` carries the payloads as mathematical values, and
//! is what the lexer specification speaks about.

use vstd::prelude::*;

use crate::rat::Rat;

verus! {

/// A lexical token. Literal payloads carry the matched text (string
/// literals keep their surrounding quotes) or the exact scalar value.
#[derive(Debug, PartialEq)]
pub enum Token {
    Ident(Vec<char>),
    StrLit(Vec<char>),
    Scalar(Rat),
    LParen,
    RParen,
    LBrace,
    RBrace,
    Comma,
    Minus,
    Equals,
    Semicolon,
    SbtRaytracer,
    Camera,
    PointLight,
    DirectionalLight,
    AmbientLight,
    Sphere,
    Box,
    Square,
    Cylinder,
    Cone,
    Trimesh,
    Translate,
    Rotate,
    Scale,
    Transform,
    Material,
    Symtrue,
    Symfalse,
    Position,
    Viewdir,
    Updir,
    Aspectratio,
    Fov,
    Color,
    Direction,
    Capped,
    Height,
    BottomRadius,
    TopRadius,
    ConstantAttenuationCoeff,
    LinearAttenuationCoeff,
    QuadraticAttenuationCoeff,
    Name,
    Emissive,
    Ambient,
    Specular,
    Reflective,
    Diffuse,
    Transmissive,
    Shininess,
    Index,
    Polypoints,
    Normals,
    Faces,
    Gennormals,
    Materials,
    MapKw,
}

/// The mathematical value of a token: payloads as sequences and unbounded
/// integers.
pub enum TokenV {
    Ident(Seq<char>),
    StrLit(Seq<char>),
    Scalar(int, int),
    LParen,
    RParen,
    LBrace,
    RBrace,
    Comma,
    Minus,
    Equals,
    Semicolon,
    SbtRaytracer,
    Camera,
    PointLight,
    DirectionalLight,
    AmbientLight,
    Sphere,
    Box,
    Square,
    Cylinder,
    Cone,
    Trimesh,
    Translate,
    Rotate,
    Scale,
    Transform,
    Material,
    Symtrue,
    Symfalse,
    Position,
    Viewdir,
    Updir,
    Aspectratio,
    Fov,
    Color,
    Direction,
    Capped,
    Height,
    BottomRadius,
    TopRadius,
    ConstantAttenuationCoeff,
    LinearAttenuationCoeff,
    QuadraticAttenuationCoeff,
    Name,
    Emissive,
    Ambient,
    Specular,
    Reflective,
    Diffuse,
    Transmissive,
    Shininess,
    Index,
    Polypoints,
    Normals,
    Faces,
    Gennormals,
    Materials,
    MapKw,
}

impl View for Token {
    type V = TokenV;

    open spec fn view(&self) -> TokenV {
        match self {
            Token::Ident(t) => TokenV::Ident(t@),
            Token::StrLit(t) => TokenV::StrLit(t@),
            Token::Scalar(r) => TokenV::Scalar(r.num as int, r.den as int),
            Token::LParen => TokenV::LParen,
            Token::RParen => TokenV::RParen,
            Token::LBrace => TokenV::LBrace,
            Token::RBrace => TokenV::RBrace,
            Token::Comma => TokenV::Comma,
            Token::Minus => TokenV::Minus,
            Token::Equals => TokenV::Equals,
            Token::Semicolon => TokenV::Semicolon,
            Token::SbtRaytracer => TokenV::SbtRaytracer,
            Token::Camera => TokenV::Camera,
            Token::PointLight => TokenV::PointLight,
            Token::DirectionalLight => TokenV::DirectionalLight,
            Token::AmbientLight => TokenV::AmbientLight,
            Token::Sphere => TokenV::Sphere,
            Token::Box => TokenV::Box,
            Token::Square => TokenV::Square,
            Token::Cylinder => TokenV::Cylinder,
            Token::Cone => TokenV::Cone,
            Token::Trimesh => TokenV::Trimesh,
            Token::Translate => TokenV::Translate,
            Token::Rotate => TokenV::Rotate,
            Token::Scale => TokenV::Scale,
            Token::Transform => TokenV::Transform,
            Token::Material => TokenV::Material,
            Token::Symtrue => TokenV::Symtrue,
            Token::Symfalse => TokenV::Symfalse,
            Token::Position => TokenV::Position,
            Token::Viewdir => TokenV::Viewdir,
            Token::Updir => TokenV::Updir,
            Token::Aspectratio => TokenV::Aspectratio,
            Token::Fov => TokenV::Fov,
            Token::Color => TokenV::Color,
            Token::Direction => TokenV::Direction,
            Token::Capped => TokenV::Capped,
            Token::Height => TokenV::Height,
            Token::BottomRadius => TokenV::BottomRadius,
            Token::TopRadius => TokenV::TopRadius,
            Token::ConstantAttenuationCoeff => TokenV::ConstantAttenuationCoeff,
            Token::LinearAttenuationCoeff => TokenV::LinearAttenuationCoeff,
            Token::QuadraticAttenuationCoeff => TokenV::QuadraticAttenuationCoeff,
            Token::Name => TokenV::Name,
            Token::Emissive => TokenV::Emissive,
            Token::Ambient => TokenV::Ambient,
            Token::Specular => TokenV::Specular,
            Token::Reflective => TokenV::Reflective,
            Token::Diffuse => TokenV::Diffuse,
            Token::Transmissive => TokenV::Transmissive,
            Token::Shininess => TokenV::Shininess,
            Token::Index => TokenV::Index,
            Token::Polypoints => TokenV::Polypoints,
            Token::Normals => TokenV::Normals,
            Token::Faces => TokenV::Faces,
            Token::Gennormals => TokenV::Gennormals,
            Token::Materials => TokenV::Materials,
            Token::MapKw => TokenV::MapKw,
        }
    }
}

/// A number distinguishing the variant of a token, payload ignored.
pub open spec fn token_tag(t: Token) -> int {
    match t {
        Token::Ident(_) => 0,
        Token::StrLit(_) => 1,
        Token::Scalar(_) => 2,
        Token::LParen => 3,
        Token::RParen => 4,
        Token::LBrace => 5,
        Token::RBrace => 6,
        Token::Comma => 7,
        Token::Minus => 8,
        Token::Equals => 9,
        Token::Semicolon => 10,
        Token::SbtRaytracer => 11,
        Token::Camera => 12,
        Token::PointLight => 13,
        Token::DirectionalLight => 14,
        Token::AmbientLight => 15,
        Token::Sphere => 16,
        Token::Box => 17,
        Token::Square => 18,
        Token::Cylinder => 19,
        Token::Cone => 20,
        Token::Trimesh => 21,
        Token::Translate => 22,
        Token::Rotate => 23,
        Token::Scale => 24,
        Token::Transform => 25,
        Token::Material => 26,
        Token::Symtrue => 27,
        Token::Symfalse => 28,
        Token::Position => 29,
        Token::Viewdir => 30,
        Token::Updir => 31,
        Token::Aspectratio => 32,
        Token::Fov => 33,
        Token::Color => 34,
        Token::Direction => 35,
        Token::Capped => 36,
        Token::Height => 37,
        Token::BottomRadius => 38,
        Token::TopRadius => 39,
        Token::ConstantAttenuationCoeff => 40,
        Token::LinearAttenuationCoeff => 41,
        Token::QuadraticAttenuationCoeff => 42,
        Token::Name => 43,
        Token::Emissive => 44,
        Token::Ambient => 45,
        Token::Specular => 46,
        Token::Reflective => 47,
        Token::Diffuse => 48,
        Token::Transmissive => 49,
        Token::Shininess => 50,
        Token::Index => 51,
        Token::Polypoints => 52,
        Token::Normals => 53,
        Token::Faces => 54,
        Token::Gennormals => 55,
        Token::Materials => 56,
        Token::MapKw => 57,
    }
}

/// Variant-identity equality: two tokens are of the same variant, payloads
/// ignored. For payload-free variants this coincides with full equality.
pub open spec fn token_variant_eq(a: Token, b: Token) -> bool {
    token_tag(a) == token_tag(b)
}

fn token_tag_exec(t: &Token) -> (r: u32)
    ensures
        r as int == token_tag(*t),
{
    match t {
        Token::Ident(_) => 0,
        Token::StrLit(_) => 1,
        Token::Scalar(_) => 2,
        Token::LParen => 3,
        Token::RParen => 4,
        Token::LBrace => 5,
        Token::RBrace => 6,
        Token::Comma => 7,
        Token::Minus => 8,
        Token::Equals => 9,
        Token::Semicolon => 10,
        Token::SbtRaytracer => 11,
        Token::Camera => 12,
        Token::PointLight => 13,
        Token::DirectionalLight => 14,
        Token::AmbientLight => 15,
        Token::Sphere => 16,
        Token::Box => 17,
        Token::Square => 18,
        Token::Cylinder => 19,
        Token::Cone => 20,
        Token::Trimesh => 21,
        Token::Translate => 22,
        Token::Rotate => 23,
        Token::Scale => 24,
        Token::Transform => 25,
        Token::Material => 26,
        Token::Symtrue => 27,
        Token::Symfalse => 28,
        Token::Position => 29,
        Token::Viewdir => 30,
        Token::Updir => 31,
        Token::Aspectratio => 32,
        Token::Fov => 33,
        Token::Color => 34,
        Token::Direction => 35,
        Token::Capped => 36,
        Token::Height => 37,
        Token::BottomRadius => 38,
        Token::TopRadius => 39,
        Token::ConstantAttenuationCoeff => 40,
        Token::LinearAttenuationCoeff => 41,
        Token::QuadraticAttenuationCoeff => 42,
        Token::Name => 43,
        Token::Emissive => 44,
        Token::Ambient => 45,
        Token::Specular => 46,
        Token::Reflective => 47,
        Token::Diffuse => 48,
        Token::Transmissive => 49,
        Token::Shininess => 50,
        Token::Index => 51,
        Token::Polypoints => 52,
        Token::Normals => 53,
        Token::Faces => 54,
        Token::Gennormals => 55,
        Token::Materials => 56,
        Token::MapKw => 57,
    }
}

/// Whether two tokens are of the same variant, payloads ignored.
pub fn token_discriminant_equal(lhs: &Token, rhs: &Token) -> (r: bool)
    ensures
        r == token_variant_eq(*lhs, *rhs),
{
    token_tag_exec(lhs) == token_tag_exec(rhs)
}

/// The keyword token for a bareword, if the bareword is a keyword.
pub open spec fn keyword_for(w: Seq<char>) -> Option<TokenV> {
    if w == "SBT-raytracer"@ {
        Some(TokenV::SbtRaytracer)
    } else if w == "camera"@ {
        Some(TokenV::Camera)
    } else if w == "point_light"@ {
        Some(TokenV::PointLight)
    } else if w == "directional_light"@ {
        Some(TokenV::DirectionalLight)
    } else if w == "ambient_light"@ {
        Some(TokenV::AmbientLight)
    } else if w == "sphere"@ {
        Some(TokenV::Sphere)
    } else if w == "box"@ {
        Some(TokenV::Box)
    } else if w == "square"@ {
        Some(TokenV::Square)
    } else if w == "cylinder"@ {
        Some(TokenV::Cylinder)
    } else if w == "cone"@ {
        Some(TokenV::Cone)
    } else if w == "trimesh"@ {
        Some(TokenV::Trimesh)
    } else if w == "translate"@ {
        Some(TokenV::Translate)
    } else if w == "rotate"@ {
        Some(TokenV::Rotate)
    } else if w == "scale"@ {
        Some(TokenV::Scale)
    } else if w == "transform"@ {
        Some(TokenV::Transform)
    } else if w == "material"@ {
        Some(TokenV::Material)
    } else if w == "true"@ {
        Some(TokenV::Symtrue)
    } else if w == "false"@ {
        Some(TokenV::Symfalse)
    } else if w == "position"@ {
        Some(TokenV::Position)
    } else if w == "viewdir"@ {
        Some(TokenV::Viewdir)
    } else if w == "updir"@ {
        Some(TokenV::Updir)
    } else if w == "aspectratio"@ {
        Some(TokenV::Aspectratio)
    } else if w == "fov"@ {
        Some(TokenV::Fov)
    } else if w == "color"@ {
        Some(TokenV::Color)
    } else if w == "direction"@ {
        Some(TokenV::Direction)
    } else if w == "capped"@ {
        Some(TokenV::Capped)
    } else if w == "height"@ {
        Some(TokenV::Height)
    } else if w == "bottom_radius"@ {
        Some(TokenV::BottomRadius)
    } else if w == "top_radius"@ {
        Some(TokenV::TopRadius)
    } else if w == "constant_attenuation_coeff"@ {
        Some(TokenV::ConstantAttenuationCoeff)
    } else if w == "linear_attenuation_coeff"@ {
        Some(TokenV::LinearAttenuationCoeff)
    } else if w == "quadratic_attenuation_coeff"@ {
        Some(TokenV::QuadraticAttenuationCoeff)
    } else if w == "name"@ {
        Some(TokenV::Name)
    } else if w == "emissive"@ {
        Some(TokenV::Emissive)
    } else if w == "ambient"@ {
        Some(TokenV::Ambient)
    } else if w == "specular"@ {
        Some(TokenV::Specular)
    } else if w == "reflective"@ {
        Some(TokenV::Reflective)
    } else if w == "diffuse"@ {
        Some(TokenV::Diffuse)
    } else if w == "transmissive"@ {
        Some(TokenV::Transmissive)
    } else if w == "shininess"@ {
        Some(TokenV::Shininess)
    } else if w == "index"@ {
        Some(TokenV::Index)
    } else if w == "points"@ {
        Some(TokenV::Polypoints)
    } else if w == "normals"@ {
        Some(TokenV::Normals)
    } else if w == "faces"@ {
        Some(TokenV::Faces)
    } else if w == "gennormals"@ {
        Some(TokenV::Gennormals)
    } else if w == "materials"@ {
        Some(TokenV::Materials)
    } else if w == "map"@ {
        Some(TokenV::MapKw)
    } else if w == "colour"@ {
        Some(TokenV::Color)
    } else {
        None
    }
}

/// What the lexer makes of a bareword: its keyword token, or an
/// identifier carrying the matched text.
pub open spec fn keyword_or_ident(w: Seq<char>) -> TokenV {
    match keyword_for(w) {
        Some(t) => t,
        None => TokenV::Ident(w),
    }
}

/// Element-for-element copy of a character vector.
pub fn copy_chars(w: &Vec<char>) -> (r: Vec<char>)
    ensures
        r@ == w@,
{
    let mut r: Vec<char> = Vec::new();
    let mut i: usize = 0;
    while i < w.len()
        invariant
            i <= w.len(),
            r.len() == i,
            forall|k: int| 0 <= k < i ==> #[trigger] r@[k] == w@[k],
        decreases w.len() - i,
    {
        r.push(w[i]);
        i += 1;
    }
    proof {
        assert(r@ =~= w@);
    }
    r
}

/// Whether a character vector holds exactly the characters of a string.
pub fn chars_eq_str(w: &Vec<char>, s: &str) -> (r: bool)
    ensures
        r == (w@ == s@),
{
    let n = s.unicode_len();
    if w.len() != n {
        return false;
    }
    let mut i: usize = 0;
    while i < n
        invariant
            n == s@.len(),
            w.len() == n,
            i <= n,
            forall|k: int| 0 <= k < i ==> #[trigger] w@[k] == s@[k],
        decreases n - i,
    {
        if w[i] != s.get_char(i) {
            return false;
        }
        i += 1;
    }
    proof {
        assert(w@ =~= s@);
    }
    true
}

/// Look a bareword up in the keyword table, falling back to an identifier
/// token carrying the text.
pub fn lookup_bareword(w: &Vec<char>) -> (t: Token)
    ensures
        t@ == keyword_or_ident(w@),
{
    if chars_eq_str(w, "SBT-raytracer") {
        Token::SbtRaytracer
    } else if chars_eq_str(w, "camera") {
        Token::Camera
    } else if chars_eq_str(w, "point_light") {
        Token::PointLight
    } else if chars_eq_str(w, "directional_light") {
        Token::DirectionalLight
    } else if chars_eq_str(w, "ambient_light") {
        Token::AmbientLight
    } else if chars_eq_str(w, "sphere") {
        Token::Sphere
    } else if chars_eq_str(w, "box") {
        Token::Box
    } else if chars_eq_str(w, "square") {
        Token::Square
    } else if chars_eq_str(w, "cylinder") {
        Token::Cylinder
    } else if chars_eq_str(w, "cone") {
        Token::Cone
    } else if chars_eq_str(w, "trimesh") {
        Token::Trimesh
    } else if chars_eq_str(w, "translate") {
        Token::Translate
    } else if chars_eq_str(w, "rotate") {
        Token::Rotate
    } else if chars_eq_str(w, "scale") {
        Token::Scale
    } else if chars_eq_str(w, "transform") {
        Token::Transform
    } else if chars_eq_str(w, "material") {
        Token::Material
    } else if chars_eq_str(w, "true") {
        Token::Symtrue
    } else if chars_eq_str(w, "false") {
        Token::Symfalse
    } else if chars_eq_str(w, "position") {
        Token::Position
    } else if chars_eq_str(w, "viewdir") {
        Token::Viewdir
    } else if chars_eq_str(w, "updir") {
        Token::Updir
    } else if chars_eq_str(w, "aspectratio") {
        Token::Aspectratio
    } else if chars_eq_str(w, "fov") {
        Token::Fov
    } else if chars_eq_str(w, "color") {
        Token::Color
    } else if chars_eq_str(w, "direction") {
        Token::Direction
    } else if chars_eq_str(w, "capped") {
        Token::Capped
    } else if chars_eq_str(w, "height") {
        Token::Height
    } else if chars_eq_str(w, "bottom_radius") {
        Token::BottomRadius
    } else if chars_eq_str(w, "top_radius") {
        Token::TopRadius
    } else if chars_eq_str(w, "constant_attenuation_coeff") {
        Token::ConstantAttenuationCoeff
    } else if chars_eq_str(w, "linear_attenuation_coeff") {
        Token::LinearAttenuationCoeff
    } else if chars_eq_str(w, "quadratic_attenuation_coeff") {
        Token::QuadraticAttenuationCoeff
    } else if chars_eq_str(w, "name") {
        Token::Name
    } else if chars_eq_str(w, "emissive") {
        Token::Emissive
    } else if chars_eq_str(w, "ambient") {
        Token::Ambient
    } else if chars_eq_str(w, "specular") {
        Token::Specular
    } else if chars_eq_str(w, "reflective") {
        Token::Reflective
    } else if chars_eq_str(w, "diffuse") {
        Token::Diffuse
    } else if chars_eq_str(w, "transmissive") {
        Token::Transmissive
    } else if chars_eq_str(w, "shininess") {
        Token::Shininess
    } else if chars_eq_str(w, "index") {
        Token::Index
    } else if chars_eq_str(w, "points") {
        Token::Polypoints
    } else if chars_eq_str(w, "normals") {
        Token::Normals
    } else if chars_eq_str(w, "faces") {
        Token::Faces
    } else if chars_eq_str(w, "gennormals") {
        Token::Gennormals
    } else if chars_eq_str(w, "materials") {
        Token::Materials
    } else if chars_eq_str(w, "map") {
        Token::MapKw
    } else if chars_eq_str(w, "colour") {
        Token::Color
    } else {
        Token::Ident(copy_chars(w))
    }
}

/// A copy of a token, equal to the original in variant and payload.
pub fn clone_token(t: &Token) -> (r: Token)
    ensures
        r@ == t@,
{
    match t {
        Token::Ident(w) => Token::Ident(copy_chars(w)),
        Token::StrLit(w) => Token::StrLit(copy_chars(w)),
        Token::Scalar(v) => Token::Scalar(*v),
        Token::SbtRaytracer => Token::SbtRaytracer,
        Token::Camera => Token::Camera,
        Token::PointLight => Token::PointLight,
        Token::DirectionalLight => Token::DirectionalLight,
        Token::AmbientLight => Token::AmbientLight,
        Token::Sphere => Token::Sphere,
        Token::Box => Token::Box,
        Token::Square => Token::Square,
        Token::Cylinder => Token::Cylinder,
        Token::Cone => Token::Cone,
        Token::Trimesh => Token::Trimesh,
        Token::Translate => Token::Translate,
        Token::Rotate => Token::Rotate,
        Token::Scale => Token::Scale,
        Token::Transform => Token::Transform,
        Token::Material => Token::Material,
        Token::Symtrue => Token::Symtrue,
        Token::Symfalse => Token::Symfalse,
        Token::Position => Token::Position,
        Token::Viewdir => Token::Viewdir,
        Token::Updir => Token::Updir,
        Token::Aspectratio => Token::Aspectratio,
        Token::Fov => Token::Fov,
        Token::Color => Token::Color,
        Token::Direction => Token::Direction,
        Token::Capped => Token::Capped,
        Token::Height => Token::Height,
        Token::BottomRadius => Token::BottomRadius,
        Token::TopRadius => Token::TopRadius,
        Token::ConstantAttenuationCoeff => Token::ConstantAttenuationCoeff,
        Token::LinearAttenuationCoeff => Token::LinearAttenuationCoeff,
        Token::QuadraticAttenuationCoeff => Token::QuadraticAttenuationCoeff,
        Token::Name => Token::Name,
        Token::Emissive => Token::Emissive,
        Token::Ambient => Token::Ambient,
        Token::Specular => Token::Specular,
        Token::Reflective => Token::Reflective,
        Token::Diffuse => Token::Diffuse,
        Token::Transmissive => Token::Transmissive,
        Token::Shininess => Token::Shininess,
        Token::Index => Token::Index,
        Token::Polypoints => Token::Polypoints,
        Token::Normals => Token::Normals,
        Token::Faces => Token::Faces,
        Token::Gennormals => Token::Gennormals,
        Token::Materials => Token::Materials,
        Token::MapKw => Token::MapKw,
        Token::LParen => Token::LParen,
        Token::RParen => Token::RParen,
        Token::LBrace => Token::LBrace,
        Token::RBrace => Token::RBrace,
        Token::Comma => Token::Comma,
        Token::Minus => Token::Minus,
        Token::Equals => Token::Equals,
        Token::Semicolon => Token::Semicolon,
    }
}

/// The canonical source text of a payload-free token: the keyword itself
/// for keyword tokens, the character for punctuation. Payload-bearing
/// variants have no single canonical text and yield `None`.
pub open spec fn fixed_token_text(t: TokenV) -> Option<Seq<char>> {
    match t {
        TokenV::Ident(_) => None,
        TokenV::StrLit(_) => None,
        TokenV::Scalar(_, _) => None,
        TokenV::LParen => Some("("@),
        TokenV::RParen => Some(")"@),
        TokenV::LBrace => Some("{"@),
        TokenV::RBrace => Some("}"@),
        TokenV::Comma => Some(","@),
        TokenV::Minus => Some("-"@),
        TokenV::Equals => Some("="@),
        TokenV::Semicolon => Some(";"@),
        TokenV::SbtRaytracer => Some("SBT-raytracer"@),
        TokenV::Camera => Some("camera"@),
        TokenV::PointLight => Some("point_light"@),
        TokenV::DirectionalLight => Some("directional_light"@),
        TokenV::AmbientLight => Some("ambient_light"@),
        TokenV::Sphere => Some("sphere"@),
        TokenV::Box => Some("box"@),
        TokenV::Square => Some("square"@),
        TokenV::Cylinder => Some("cylinder"@),
        TokenV::Cone => Some("cone"@),
        TokenV::Trimesh => Some("trimesh"@),
        TokenV::Translate => Some("translate"@),
        TokenV::Rotate => Some("rotate"@),
        TokenV::Scale => Some("scale"@),
        TokenV::Transform => Some("transform"@),
        TokenV::Material => Some("material"@),
        TokenV::Symtrue => Some("true"@),
        TokenV::Symfalse => Some("false"@),
        TokenV::Position => Some("position"@),
        TokenV::Viewdir => Some("viewdir"@),
        TokenV::Updir => Some("updir"@),
        TokenV::Aspectratio => Some("aspectratio"@),
        TokenV::Fov => Some("fov"@),
        TokenV::Color => Some("color"@),
        TokenV::Direction => Some("direction"@),
        TokenV::Capped => Some("capped"@),
        TokenV::Height => Some("height"@),
        TokenV::BottomRadius => Some("bottom_radius"@),
        TokenV::TopRadius => Some("top_radius"@),
        TokenV::ConstantAttenuationCoeff => Some("constant_attenuation_coeff"@),
        TokenV::LinearAttenuationCoeff => Some("linear_attenuation_coeff"@),
        TokenV::QuadraticAttenuationCoeff => Some("quadratic_attenuation_coeff"@),
        TokenV::Name => Some("name"@),
        TokenV::Emissive => Some("emissive"@),
        TokenV::Ambient => Some("ambient"@),
        TokenV::Specular => Some("specular"@),
        TokenV::Reflective => Some("reflective"@),
        TokenV::Diffuse => Some("diffuse"@),
        TokenV::Transmissive => Some("transmissive"@),
        TokenV::Shininess => Some("shininess"@),
        TokenV::Index => Some("index"@),
        TokenV::Polypoints => Some("points"@),
        TokenV::Normals => Some("normals"@),
        TokenV::Faces => Some("faces"@),
        TokenV::Gennormals => Some("gennormals"@),
        TokenV::Materials => Some("materials"@),
        TokenV::MapKw => Some("map"@),
    }
}

} // verus!
