//! The derivation specification of the element grammar.
//!
//! The recursive-descent productions of the builder are specified against
//! the interpreters here: `elem_out` says which token sequences derive a
//! transformable element, what value they derive (`ElemV`), and where the
//! production ends. `elem_matches` relates a parsed element to that value;
//! `elem_v_pure` marks the transform-free fragment, on which parsing
//! involves no matrix arithmetic and success depends on the tokens alone.

use vstd::prelude::*;

use crate::builder::{
    ambient_out, camera_out, cone_out, directional_light_out, elem_starter, geom_starter,
    opt_chars, opt_material_mirror, point_light_out, rotate_prefix_at, rows_entries, scalar_at,
    scalar_variant_at, scale_entries, tok_scalar, transform_prefix_at, translate_prefix_at,
    translation_entries, trimesh_out, unit_out, variant_at, vec4_val, BlockOut, MaterialV,
};
use crate::rat::Rat;
use crate::scene::{
    flatten_elem, flatten_list, Camera, GeometryDecl, GeometryKind, Light, TransformableElement,
    Vec3,
};
use crate::token::{Token, TokenV};

verus! {

/// The mathematical value of a geometry declaration's kind.
pub ghost enum KindV {
    Sphere,
    Box,
    Square,
    Cylinder,
    Cone { capped: bool, height: Rat, bottom_radius: Rat, top_radius: Rat },
    Trimesh { points: Seq<Vec3>, normals: Seq<Vec3>, faces: Seq<Vec3>, gennormals: bool },
}

/// The mathematical value of a geometry declaration: its kind with all
/// parameters, and the optional material and name.
pub ghost struct GeomV {
    pub kind: KindV,
    pub material: Option<MaterialV>,
    pub name: Option<Seq<char>>,
}

/// The mathematical value of a transformable element, as the grammar
/// derives it: a geometry, a group's members in source order, or a
/// transform around one nested element (`sub` holds exactly that one).
/// Where the language fixes the local matrix exactly — translate, scale
/// and raw-matrix transforms — its entries are pinned; a rotation's
/// entries are approximations and stay unpinned (`None`).
pub ghost enum ElemV {
    Geometry(GeomV),
    Group(Seq<ElemV>),
    Transformed { local: Option<Seq<Rat>>, sub: Seq<ElemV> },
}

/// The declared kind holds exactly the interpreted kind.
pub open spec fn kind_matches(k: GeometryKind, kv: KindV) -> bool {
    match kv {
        KindV::Sphere => k is Sphere,
        KindV::Box => k is Box,
        KindV::Square => k is Square,
        KindV::Cylinder => k is Cylinder,
        KindV::Cone { capped, height, bottom_radius, top_radius } => (k
            matches GeometryKind::Cone { capped: c2, height: h2, bottom_radius: b2, top_radius: t2 }
            && c2 == capped && h2 == height && b2 == bottom_radius && t2 == top_radius),
        KindV::Trimesh { points, normals, faces, gennormals } => (k
            matches GeometryKind::Trimesh { points: p2, normals: n2, faces: f2, gennormals: g2 }
            && p2@ == points && n2@ == normals && f2@ == faces && g2 == gennormals),
    }
}

/// The parsed element holds exactly the interpreted value: the kinds and
/// field values of its geometry, its group members in source order, and
/// the pinned local matrices of its transforms.
pub open spec fn elem_matches(e: TransformableElement, ev: ElemV) -> bool
    decreases e,
{
    match e {
        TransformableElement::Geometry(d) => (ev matches ElemV::Geometry(gv) && kind_matches(
            d.kind,
            gv.kind,
        ) && opt_material_mirror(d.material) == gv.material && opt_chars(d.name) == gv.name),
        TransformableElement::Group(es) => (ev matches ElemV::Group(evs) && es.len() == evs.len()
            && forall|i: int| 0 <= i < es.len() ==> elem_matches(#[trigger] es@[i], evs[i])),
        TransformableElement::Transformed(t) => (ev matches ElemV::Transformed { local, sub } && (
        local matches Some(le) ==> t.local.e@ == le) && sub.len() == 1 && elem_matches(
            *t.sub,
            sub[0],
        )),
    }
}

/// An element value free of transform constructors: parsing it involves no
/// matrix arithmetic, so its success depends on the tokens alone.
pub open spec fn elem_v_pure(ev: ElemV) -> bool
    decreases ev,
{
    match ev {
        ElemV::Geometry(_) => true,
        ElemV::Group(evs) => forall|i: int| 0 <= i < evs.len() ==> elem_v_pure(#[trigger] evs[i]),
        ElemV::Transformed { local, sub } => false,
    }
}

/// Wrap a unit-object interpretation into an element value of the given
/// kind.
pub open spec fn unit_arm(ts: Seq<Token>, p: int, kv: KindV) -> BlockOut<ElemV> {
    if 0 <= p < ts.len() {
        match unit_out(ts, p, ts[p]) {
            BlockOut::Done(uv, end) => BlockOut::Done(
                ElemV::Geometry(GeomV { kind: kv, material: uv.material, name: uv.name }),
                end,
            ),
            BlockOut::Sem => BlockOut::Sem,
            BlockOut::Syn => BlockOut::Syn,
        }
    } else {
        BlockOut::Syn
    }
}

/// The prefix `scale ( s ,` stands at position `p`.
pub open spec fn scale_prefix_at(ts: Seq<Token>, p: int) -> bool {
    &&& variant_at(ts, p, Token::Scale)
    &&& variant_at(ts, p + 1, Token::LParen)
    &&& scalar_at(ts, p + 2)
    &&& variant_at(ts, p + 3, Token::Comma)
}

/// Interpret a `translate(x, y, z, <element>)` production standing at `p`.
pub open spec fn translate_out(ts: Seq<Token>, p: int) -> BlockOut<ElemV>
    decreases ts.len() - p, 1int,
{
    if translate_prefix_at(ts, p) {
        tail_out(
            ts,
            p + 8,
            Some(
                translation_entries(
                    tok_scalar(ts[p + 2]),
                    tok_scalar(ts[p + 4]),
                    tok_scalar(ts[p + 6]),
                ),
            ),
        )
    } else {
        BlockOut::Syn
    }
}

/// Interpret a `rotate(x, y, z, angle, <element>)` production standing at
/// `p`; its approximate local matrix stays unpinned.
pub open spec fn rotate_out(ts: Seq<Token>, p: int) -> BlockOut<ElemV>
    decreases ts.len() - p, 1int,
{
    if rotate_prefix_at(ts, p) {
        tail_out(ts, p + 10, None)
    } else {
        BlockOut::Syn
    }
}

/// Interpret a `scale(...)` production standing at `p`: the one-scalar
/// form scales uniformly, disambiguated by whether a scalar follows the
/// first comma.
pub open spec fn scale_out(ts: Seq<Token>, p: int) -> BlockOut<ElemV>
    decreases ts.len() - p, 1int,
{
    if scale_prefix_at(ts, p) {
        if scalar_variant_at(ts, p + 4) {
            if scalar_at(ts, p + 4) && variant_at(ts, p + 5, Token::Comma) && scalar_at(ts, p + 6)
                && variant_at(ts, p + 7, Token::Comma) {
                tail_out(
                    ts,
                    p + 8,
                    Some(
                        scale_entries(
                            tok_scalar(ts[p + 2]),
                            tok_scalar(ts[p + 4]),
                            tok_scalar(ts[p + 6]),
                        ),
                    ),
                )
            } else {
                BlockOut::Syn
            }
        } else {
            tail_out(
                ts,
                p + 4,
                Some(
                    scale_entries(
                        tok_scalar(ts[p + 2]),
                        tok_scalar(ts[p + 2]),
                        tok_scalar(ts[p + 2]),
                    ),
                ),
            )
        }
    } else {
        BlockOut::Syn
    }
}

/// Interpret a `transform(row, row, row, row, <element>)` production
/// standing at `p`: the local matrix holds the four rows as written.
pub open spec fn transform_out(ts: Seq<Token>, p: int) -> BlockOut<ElemV>
    decreases ts.len() - p, 1int,
{
    if transform_prefix_at(ts, p) {
        tail_out(
            ts,
            p + 42,
            Some(
                rows_entries(
                    vec4_val(ts, p + 2),
                    vec4_val(ts, p + 12),
                    vec4_val(ts, p + 22),
                    vec4_val(ts, p + 32),
                ),
            ),
        )
    } else {
        BlockOut::Syn
    }
}

/// Interpret one geometry production standing at `p`: a unit object, a
/// cone, a trimesh, or one of the four transform constructors.
pub open spec fn geom_out(ts: Seq<Token>, p: int) -> BlockOut<ElemV>
    decreases ts.len() - p, 2int,
{
    if p < 0 || p >= ts.len() {
        BlockOut::Syn
    } else {
        match ts[p] {
            Token::Sphere => unit_arm(ts, p, KindV::Sphere),
            Token::Box => unit_arm(ts, p, KindV::Box),
            Token::Square => unit_arm(ts, p, KindV::Square),
            Token::Cylinder => unit_arm(ts, p, KindV::Cylinder),
            Token::Cone => match cone_out(ts, p) {
                BlockOut::Done(cv, end) => BlockOut::Done(
                    ElemV::Geometry(
                        GeomV {
                            kind: KindV::Cone {
                                capped: cv.capped,
                                height: cv.height,
                                bottom_radius: cv.bottom_radius,
                                top_radius: cv.top_radius,
                            },
                            material: cv.material,
                            name: cv.name,
                        },
                    ),
                    end,
                ),
                BlockOut::Sem => BlockOut::Sem,
                BlockOut::Syn => BlockOut::Syn,
            },
            Token::Trimesh => match trimesh_out(ts, p) {
                BlockOut::Done(tv, end) => BlockOut::Done(
                    ElemV::Geometry(
                        GeomV {
                            kind: KindV::Trimesh {
                                points: tv.points,
                                normals: tv.normals,
                                faces: tv.faces,
                                gennormals: tv.gennormals,
                            },
                            material: tv.material,
                            name: tv.name,
                        },
                    ),
                    end,
                ),
                BlockOut::Sem => BlockOut::Sem,
                BlockOut::Syn => BlockOut::Syn,
            },
            Token::Translate => translate_out(ts, p),
            Token::Rotate => rotate_out(ts, p),
            Token::Scale => scale_out(ts, p),
            Token::Transform => transform_out(ts, p),
            _ => BlockOut::Syn,
        }
    }
}

/// Interpret one transformable element standing at `p`: a geometry
/// production, or a bare group whose members share the ambient node.
pub open spec fn elem_out(ts: Seq<Token>, p: int) -> BlockOut<ElemV>
    decreases ts.len() - p, 3int,
{
    if p < 0 || p >= ts.len() {
        BlockOut::Syn
    } else if ts[p]@ is LBrace {
        match group_items(ts, p + 1, Seq::empty()) {
            BlockOut::Done(evs, end) => BlockOut::Done(ElemV::Group(evs), end),
            BlockOut::Sem => BlockOut::Sem,
            BlockOut::Syn => BlockOut::Syn,
        }
    } else if geom_starter(ts[p]@) {
        geom_out(ts, p)
    } else {
        BlockOut::Syn
    }
}

/// Interpret the tail of a transform production: the nested element at
/// `p`, the closing parenthesis, and an optional trailing semicolon.
pub open spec fn tail_out(ts: Seq<Token>, p: int, local: Option<Seq<Rat>>) -> BlockOut<ElemV>
    decreases ts.len() - p, 4int,
{
    match elem_out(ts, p) {
        BlockOut::Done(sv, send) => if variant_at(ts, send, Token::RParen) {
            BlockOut::Done(
                ElemV::Transformed { local, sub: seq![sv] },
                if variant_at(ts, send + 1, Token::Semicolon) {
                    send + 2
                } else {
                    send + 1
                },
            )
        } else {
            BlockOut::Syn
        },
        BlockOut::Sem => BlockOut::Sem,
        BlockOut::Syn => BlockOut::Syn,
    }
}

/// Interpret the members of a bare group from `p` until the closing brace,
/// whose end position is returned with the members in source order.
pub open spec fn group_items(ts: Seq<Token>, p: int, acc: Seq<ElemV>) -> BlockOut<Seq<ElemV>>
    decreases ts.len() - p, 5int,
{
    if p < 0 || p >= ts.len() {
        BlockOut::Syn
    } else if ts[p]@ is RBrace {
        BlockOut::Done(acc, p + 1)
    } else {
        match elem_out(ts, p) {
            BlockOut::Done(ev, end) => if p < end <= ts.len() {
                group_items(ts, end, acc.push(ev))
            } else {
                BlockOut::Syn
            },
            BlockOut::Sem => BlockOut::Sem,
            BlockOut::Syn => BlockOut::Syn,
        }
    }
}

/// Interpret a whole `{ ... }` group standing at `p`.
pub open spec fn group_out(ts: Seq<Token>, p: int) -> BlockOut<Seq<ElemV>> {
    if variant_at(ts, p, Token::LBrace) {
        group_items(ts, p + 1, Seq::empty())
    } else {
        BlockOut::Syn
    }
}

/// A finished group interpretation extends its accumulator: the members
/// already gathered stand unchanged at the front of the result.
pub proof fn lemma_group_items_prefix(ts: Seq<Token>, p: int, acc: Seq<ElemV>)
    ensures
        group_items(ts, p, acc) matches BlockOut::Done(full, end) ==> full.len() >= acc.len()
            && full.subrange(0, acc.len() as int) == acc,
    decreases ts.len() - p,
{
    if 0 <= p < ts.len() && !(ts[p]@ is RBrace) {
        match elem_out(ts, p) {
            BlockOut::Done(ev, end) => {
                if p < end <= ts.len() {
                    lemma_group_items_prefix(ts, end, acc.push(ev));
                    let out2 = group_items(ts, end, acc.push(ev));
                    if out2 is Done {
                        let full = out2->Done_0;
                        assert(full.subrange(0, acc.len() as int + 1) == acc.push(ev));
                        assert forall|i: int| 0 <= i < acc.len() implies full.subrange(
                            0,
                            acc.len() as int,
                        )[i] == acc[i] by {
                            assert(full.subrange(0, acc.len() as int + 1)[i] == acc.push(ev)[i]);
                        }
                        assert(full.subrange(0, acc.len() as int) =~= acc);
                    }
                }
            },
            _ => {},
        }
    } else if 0 <= p < ts.len() && ts[p]@ is RBrace {
        assert(acc.subrange(0, acc.len() as int) =~= acc);
    }
}


/// The mathematical value of a scene: the top-level element values in
/// source order, the lights in source order, and the optional camera and
/// ambient color.
pub ghost struct SceneV {
    pub objects: Seq<ElemV>,
    pub lights: Seq<Light>,
    pub camera: Option<Camera>,
    pub ambient: Option<Vec3>,
}

/// The scene before any declaration is parsed.
pub open spec fn scene_v_empty() -> SceneV {
    (SceneV { objects: Seq::empty(), lights: Seq::empty(), camera: None, ambient: None })
}

/// Interpret the top-level declarations from `p` to the end of the input:
/// camera, light and ambient blocks and transformable elements accumulate
/// in source order; a second camera block is the semantic fault; any other
/// token is the syntactic fault; the clean end of the input finishes the
/// scene.
pub open spec fn scene_items(ts: Seq<Token>, p: int, acc: SceneV) -> BlockOut<SceneV>
    decreases ts.len() - p, 6int,
{
    if p < 0 {
        BlockOut::Syn
    } else if p >= ts.len() {
        BlockOut::Done(acc, p)
    } else {
        match ts[p] {
            Token::Camera => if acc.camera is Some {
                BlockOut::Sem
            } else {
                match camera_out(ts, p) {
                    BlockOut::Done(c, end) => if p < end <= ts.len() {
                        scene_items(ts, end, SceneV { camera: Some(c), ..acc })
                    } else {
                        BlockOut::Syn
                    },
                    BlockOut::Sem => BlockOut::Sem,
                    BlockOut::Syn => BlockOut::Syn,
                }
            },
            Token::PointLight => match point_light_out(ts, p) {
                BlockOut::Done(l, end) => if p < end <= ts.len() {
                    scene_items(ts, end, SceneV { lights: acc.lights.push(l), ..acc })
                } else {
                    BlockOut::Syn
                },
                BlockOut::Sem => BlockOut::Sem,
                BlockOut::Syn => BlockOut::Syn,
            },
            Token::DirectionalLight => match directional_light_out(ts, p) {
                BlockOut::Done(l, end) => if p < end <= ts.len() {
                    scene_items(ts, end, SceneV { lights: acc.lights.push(l), ..acc })
                } else {
                    BlockOut::Syn
                },
                BlockOut::Sem => BlockOut::Sem,
                BlockOut::Syn => BlockOut::Syn,
            },
            Token::AmbientLight => match ambient_out(ts, p) {
                BlockOut::Done(v, end) => if p < end <= ts.len() {
                    scene_items(ts, end, SceneV { ambient: Some(v), ..acc })
                } else {
                    BlockOut::Syn
                },
                BlockOut::Sem => BlockOut::Sem,
                BlockOut::Syn => BlockOut::Syn,
            },
            _ => if elem_starter(ts[p]@) {
                match elem_out(ts, p) {
                    BlockOut::Done(ev, end) => if p < end <= ts.len() {
                        scene_items(ts, end, SceneV { objects: acc.objects.push(ev), ..acc })
                    } else {
                        BlockOut::Syn
                    },
                    BlockOut::Sem => BlockOut::Sem,
                    BlockOut::Syn => BlockOut::Syn,
                }
            } else {
                BlockOut::Syn
            },
        }
    }
}

/// Interpret a whole scene whose tokens begin at `p`: the `SBT-raytracer`
/// header, a version scalar of at most 1.1 — a larger version is the
/// semantic fault — then the top-level declarations to the end of the
/// input.
pub open spec fn scene_out_at(ts: Seq<Token>, p: int) -> BlockOut<SceneV> {
    if variant_at(ts, p, Token::SbtRaytracer) && scalar_at(ts, p + 1) {
        if ts[p + 1]@ matches TokenV::Scalar(n, d) && 10 * n <= 11 * d {
            scene_items(ts, p + 2, scene_v_empty())
        } else {
            BlockOut::Sem
        }
    } else {
        BlockOut::Syn
    }
}

/// Interpret a whole token sequence as a scene.
pub open spec fn scene_out(ts: Seq<Token>) -> BlockOut<SceneV> {
    scene_out_at(ts, 0)
}

/// A finished scene interpretation extends its accumulator: the objects
/// and lights already gathered stand unchanged at the front of the result,
/// and a camera already seen stays.
pub proof fn lemma_scene_items_prefix(ts: Seq<Token>, p: int, acc: SceneV)
    ensures
        scene_items(ts, p, acc) matches BlockOut::Done(sv, end) ==> sv.objects.len()
            >= acc.objects.len() && sv.objects.subrange(0, acc.objects.len() as int) == acc.objects
            && sv.lights.len() >= acc.lights.len() && sv.lights.subrange(
            0,
            acc.lights.len() as int,
        ) == acc.lights && (acc.camera is Some ==> sv.camera == acc.camera),
    decreases ts.len() - p,
{
    if 0 <= p < ts.len() {
        let step: Option<(SceneV, int)> = match ts[p] {
            Token::Camera => if acc.camera is Some {
                None
            } else {
                match camera_out(ts, p) {
                    BlockOut::Done(c, end) => Some((SceneV { camera: Some(c), ..acc }, end)),
                    _ => None,
                }
            },
            Token::PointLight => match point_light_out(ts, p) {
                BlockOut::Done(l, end) => Some((SceneV { lights: acc.lights.push(l), ..acc }, end)),
                _ => None,
            },
            Token::DirectionalLight => match directional_light_out(ts, p) {
                BlockOut::Done(l, end) => Some((SceneV { lights: acc.lights.push(l), ..acc }, end)),
                _ => None,
            },
            Token::AmbientLight => match ambient_out(ts, p) {
                BlockOut::Done(v, end) => Some((SceneV { ambient: Some(v), ..acc }, end)),
                _ => None,
            },
            _ => if elem_starter(ts[p]@) {
                match elem_out(ts, p) {
                    BlockOut::Done(ev, end) => Some(
                        (SceneV { objects: acc.objects.push(ev), ..acc }, end),
                    ),
                    _ => None,
                }
            } else {
                None
            },
        };
        if step is Some {
            let acc2 = step->Some_0.0;
            let end = step->Some_0.1;
            if p < end <= ts.len() {
                lemma_scene_items_prefix(ts, end, acc2);
                let out2 = scene_items(ts, end, acc2);
                if out2 is Done {
                    let sv = out2->Done_0;
                    assert(acc2.objects.len() >= acc.objects.len());
                assert(acc2.objects.subrange(0, acc.objects.len() as int) =~= acc.objects);
                assert(sv.objects.subrange(0, acc2.objects.len() as int) == acc2.objects);
                assert forall|i: int| 0 <= i < acc.objects.len() implies sv.objects.subrange(
                    0,
                    acc.objects.len() as int,
                )[i] == acc.objects[i] by {
                    assert(sv.objects.subrange(0, acc2.objects.len() as int)[i]
                        == acc2.objects[i]);
                    assert(acc2.objects.subrange(0, acc.objects.len() as int)[i]
                        == acc.objects[i]);
                }
                assert(sv.objects.subrange(0, acc.objects.len() as int) =~= acc.objects);
                assert(acc2.lights.subrange(0, acc.lights.len() as int) =~= acc.lights);
                assert forall|i: int| 0 <= i < acc.lights.len() implies sv.lights.subrange(
                    0,
                    acc.lights.len() as int,
                )[i] == acc.lights[i] by {
                    assert(sv.lights.subrange(0, acc2.lights.len() as int)[i] == acc2.lights[i]);
                    assert(acc2.lights.subrange(0, acc.lights.len() as int)[i] == acc.lights[i]);
                }
                    assert(sv.lights.subrange(0, acc.lights.len() as int) =~= acc.lights);
                }
            }
        }
    }
    if p >= ts.len() && p >= 0 {
        assert(acc.objects.subrange(0, acc.objects.len() as int) =~= acc.objects);
        assert(acc.lights.subrange(0, acc.lights.len() as int) =~= acc.lights);
    }
}

/// The declared geometry holds exactly the interpreted value.
pub open spec fn decl_matches(d: GeometryDecl, gv: GeomV) -> bool {
    &&& kind_matches(d.kind, gv.kind)
    &&& opt_material_mirror(d.material) == gv.material
    &&& opt_chars(d.name) == gv.name
}

/// The geometry values of an element value, in declaration order.
pub open spec fn flatten_elem_v(ev: ElemV) -> Seq<GeomV>
    decreases ev, 0int,
{
    match ev {
        ElemV::Geometry(g) => seq![g],
        ElemV::Group(evs) => flatten_list_v(evs, evs.len() as int),
        ElemV::Transformed { local, sub } => flatten_list_v(sub, sub.len() as int),
    }
}

/// The geometry values of the first `k` element values.
pub open spec fn flatten_list_v(evs: Seq<ElemV>, k: int) -> Seq<GeomV>
    decreases evs, k,
{
    if k <= 0 || k > evs.len() {
        Seq::empty()
    } else {
        flatten_list_v(evs, k - 1) + flatten_elem_v(evs[k - 1])
    }
}

/// Matching elements flatten to matching geometry declarations, in the
/// same order.
pub proof fn lemma_flatten_matches(e: TransformableElement, ev: ElemV)
    requires
        elem_matches(e, ev),
    ensures
        flatten_elem(e).len() == flatten_elem_v(ev).len(),
        forall|i: int| 0 <= i < flatten_elem(e).len() ==> decl_matches(
            #[trigger] flatten_elem(e)[i],
            flatten_elem_v(ev)[i],
        ),
    decreases e, 0int,
{
    match e {
        TransformableElement::Geometry(d) => {
            match ev {
                ElemV::Geometry(gv) => {
                    assert(flatten_elem(e) == seq![d]);
                    assert(flatten_elem_v(ev) == seq![gv]);
                    assert(flatten_elem(e)[0] == d);
                    assert(flatten_elem_v(ev)[0] == gv);
                },
                _ => {},
            }
        },
        TransformableElement::Group(es) => {
            match ev {
                ElemV::Group(evs) => {
                    lemma_flatten_list_matches(es, evs, es.len() as int);
                },
                _ => {},
            }
        },
        TransformableElement::Transformed(t) => {
            match ev {
                ElemV::Transformed { local, sub } => {
                    lemma_flatten_matches(*t.sub, sub[0]);
                    assert(flatten_elem(e) == flatten_elem(*t.sub));
                    assert(flatten_list_v(sub, 1) == flatten_list_v(sub, 0) + flatten_elem_v(
                        sub[0],
                    ));
                    assert(flatten_list_v(sub, 0) + flatten_elem_v(sub[0]) =~= flatten_elem_v(
                        sub[0],
                    ));
                    assert(flatten_elem_v(ev) == flatten_elem_v(sub[0]));
                },
                _ => {},
            }
        },
    }
}

/// Matching element prefixes flatten to matching geometry declarations.
pub proof fn lemma_flatten_list_matches(es: Vec<TransformableElement>, evs: Seq<ElemV>, k: int)
    requires
        es.len() == evs.len(),
        forall|i: int| 0 <= i < es.len() ==> elem_matches(#[trigger] es@[i], evs[i]),
        k <= es.len(),
    ensures
        flatten_list(es, k).len() == flatten_list_v(evs, k).len(),
        forall|i: int| 0 <= i < flatten_list(es, k).len() ==> decl_matches(
            #[trigger] flatten_list(es, k)[i],
            flatten_list_v(evs, k)[i],
        ),
    decreases es, k,
{
    if k > 0 {
        lemma_flatten_list_matches(es, evs, k - 1);
        lemma_flatten_matches(es@[k - 1], evs[k - 1]);
        assert(flatten_list(es, k) == flatten_list(es, k - 1) + flatten_elem(es@[k - 1]));
        assert(flatten_list_v(evs, k) == flatten_list_v(evs, k - 1) + flatten_elem_v(evs[k - 1]));
        assert forall|i: int| 0 <= i < flatten_list(es, k).len() implies decl_matches(
            #[trigger] flatten_list(es, k)[i],
            flatten_list_v(evs, k)[i],
        ) by {
            if i < flatten_list(es, k - 1).len() {
                assert(flatten_list(es, k)[i] == flatten_list(es, k - 1)[i]);
                assert(flatten_list_v(evs, k)[i] == flatten_list_v(evs, k - 1)[i]);
            } else {
                let j = i - flatten_list(es, k - 1).len();
                assert(flatten_list(es, k)[i] == flatten_elem(es@[k - 1])[j]);
                assert(flatten_list_v(evs, k)[i] == flatten_elem_v(evs[k - 1])[j]);
            }
        }
    }
}

} // verus!
