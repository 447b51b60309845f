//! The scene graph: immutable transform nodes and the declarations the
//! builder assembles.
//!
//! A `TransformNode` holds a composed 4x4 affine matrix, a certified
//! two-sided inverse of it, and the normal-transform matrix (the transpose
//! of a certified inverse of the upper-left 3x3 block). `node_wf` states all
//! of that; `create_child` establishes it together with the exact equation
//! `child = parent * local`.

use vstd::prelude::*;

use crate::error::{ErrorKind, TokenizationError};
use crate::matrix::{
    entv, ident_entry, lemma_rc_index, mat3_from_mat4, mat_wf, mul_entry, mul_ok,
    prod_is_identity, transpose_seq, upper3_seq, Mat,
};
use crate::rat::{padd, pmul, rat_wf, Rat};

verus! {

// ---------------------------------------------------------------------------
// Identity and transposition lemmas
// ---------------------------------------------------------------------------

/// Entry-wise: the sequence holds exactly the identity matrix.
pub open spec fn is_ident_entries(e: Seq<Rat>, n: int) -> bool {
    forall|i: int, j: int|
        0 <= i < n && 0 <= j < n ==> #[trigger] entv(e, n, i, j) == ident_entry(i, j)
}

/// A left-to-right partial dot product of two identity matrices is one on
/// the diagonal (once the diagonal term is included) and zero elsewhere.
proof fn lemma_dot_ident(a: Seq<Rat>, b: Seq<Rat>, n: int, i: int, j: int, k: nat)
    requires
        is_ident_entries(a, n),
        is_ident_entries(b, n),
        0 <= i < n,
        0 <= j < n,
        k < n,
    ensures
        crate::matrix::dotv(a, b, n, i, j, k).1 > 0,
        (i == j && i <= k) ==> crate::matrix::dotv(a, b, n, i, j, k).0 == crate::matrix::dotv(
            a,
            b,
            n,
            i,
            j,
            k,
        ).1,
        !(i == j && i <= k) ==> crate::matrix::dotv(a, b, n, i, j, k).0 == 0,
    decreases k,
{
    if k == 0 {
        let x = entv(a, n, i, 0);
        let y = entv(b, n, 0, j);
        assert(x == ident_entry(i, 0));
        assert(y == ident_entry(0, j));
        assert(x.0 == (if i == 0 { 1int } else { 0int }) && x.1 == 1);
        assert(y.0 == (if j == 0 { 1int } else { 0int }) && y.1 == 1);
        assert(crate::matrix::dotv(a, b, n, i, j, 0) == pmul(x, y));
        assert(pmul(x, y).0 == x.0 * y.0 && pmul(x, y).1 == x.1 * y.1);
        assert(x.1 * y.1 == 1) by (nonlinear_arith)
            requires
                x.1 == 1,
                y.1 == 1,
        ;
        if i == 0 && j == 0 {
            assert(x.0 * y.0 == 1) by (nonlinear_arith)
                requires
                    x.0 == 1,
                    y.0 == 1,
            ;
        } else {
            assert(x.0 * y.0 == 0) by (nonlinear_arith)
                requires
                    x.0 == 0 || y.0 == 0,
            ;
        }
    } else {
        lemma_dot_ident(a, b, n, i, j, (k - 1) as nat);
        let prev = crate::matrix::dotv(a, b, n, i, j, (k - 1) as nat);
        let x = entv(a, n, i, k as int);
        let y = entv(b, n, k as int, j);
        assert(x == ident_entry(i, k as int));
        assert(y == ident_entry(k as int, j));
        assert(x.0 == (if i == k { 1int } else { 0int }) && x.1 == 1);
        assert(y.0 == (if j == k { 1int } else { 0int }) && y.1 == 1);
        let term = pmul(x, y);
        assert(term.0 == x.0 * y.0 && term.1 == x.1 * y.1);
        assert(term.1 == 1) by (nonlinear_arith)
            requires
                term.1 == x.1 * y.1,
                x.1 == 1,
                y.1 == 1,
        ;
        if i == k && j == k {
            assert(term.0 == 1) by (nonlinear_arith)
                requires
                    term.0 == x.0 * y.0,
                    x.0 == 1,
                    y.0 == 1,
            ;
        } else {
            assert(term.0 == 0) by (nonlinear_arith)
                requires
                    term.0 == x.0 * y.0,
                    x.0 == 0 || y.0 == 0,
            ;
        }
        let cur = padd(prev, term);
        assert(crate::matrix::dotv(a, b, n, i, j, k) == cur);
        assert(cur.0 == prev.0 * term.1 + term.0 * prev.1 && cur.1 == prev.1 * term.1);
        assert(cur.0 == prev.0 + term.0 * prev.1 && cur.1 == prev.1) by (nonlinear_arith)
            requires
                cur.0 == prev.0 * term.1 + term.0 * prev.1,
                cur.1 == prev.1 * term.1,
                term.1 == 1,
        ;
        if i == k && j == k {
            assert(cur.0 == prev.0 + prev.1) by (nonlinear_arith)
                requires
                    cur.0 == prev.0 + term.0 * prev.1,
                    term.0 == 1,
            ;
        } else {
            assert(cur.0 == prev.0) by (nonlinear_arith)
                requires
                    cur.0 == prev.0 + term.0 * prev.1,
                    term.0 == 0,
            ;
        }
    }
}

/// The product of two identity matrices is the identity.
pub proof fn lemma_mul_idents(a: Seq<Rat>, b: Seq<Rat>, n: int)
    requires
        is_ident_entries(a, n),
        is_ident_entries(b, n),
        n > 0,
    ensures
        prod_is_identity(a, b, n),
{
    assert forall|i: int, j: int| 0 <= i < n && 0 <= j < n implies {
        if i == j {
            (#[trigger] mul_entry(a, b, n, i, j)).0 == mul_entry(a, b, n, i, j).1
        } else {
            mul_entry(a, b, n, i, j).0 == 0
        }
    } by {
        lemma_dot_ident(a, b, n, i, j, (n - 1) as nat);
    }
}

/// Entries of a transposed sequence.
pub proof fn lemma_transpose_entv(e: Seq<Rat>, n: int, i: int, j: int)
    requires
        n > 0,
        e.len() == n * n,
        0 <= i < n,
        0 <= j < n,
    ensures
        entv(transpose_seq(e, n), n, i, j) == entv(e, n, j, i),
{
    lemma_rc_index(n, i, j);
    lemma_rc_index(n, j, i);
}

/// Entries of the upper-left 3x3 block of a 4x4 sequence.
pub proof fn lemma_upper3_entv(e: Seq<Rat>, i: int, j: int)
    requires
        e.len() == 16,
        0 <= i < 3,
        0 <= j < 3,
    ensures
        entv(upper3_seq(e), 3, i, j) == entv(e, 4, i, j),
{
    lemma_rc_index(3, i, j);
    lemma_rc_index(4, i, j);
}

/// Transposing twice gives the original sequence back.
pub proof fn lemma_transpose_involutive(e: Seq<Rat>, n: int)
    requires
        n > 0,
        e.len() == n * n,
    ensures
        transpose_seq(transpose_seq(e, n), n) == e,
{
    let t = transpose_seq(e, n);
    let tt = transpose_seq(t, n);
    assert forall|k: int| 0 <= k < n * n implies tt[k] == e[k] by {
        let i = k / n;
        let j = k % n;
        vstd::arithmetic::div_mod::lemma_fundamental_div_mod(k, n);
        vstd::arithmetic::div_mod::lemma_mod_bound(k, n);
        assert(0 <= i < n) by (nonlinear_arith)
            requires
                k == n * i + j,
                0 <= k < n * n,
                0 <= j < n,
                n > 0,
        ;
        assert(k == i * n + j) by (nonlinear_arith)
            requires
                k == n * i + j,
        ;
        lemma_rc_index(n, i, j);
        lemma_rc_index(n, j, i);
        assert(tt[k] == t[j * n + i]);
        assert(t[j * n + i] == e[i * n + j]);
    }
    assert(tt =~= e);
}

// ---------------------------------------------------------------------------
// Transform nodes
// ---------------------------------------------------------------------------

/// An immutable node of the transform hierarchy: the affine matrix composed
/// from the root, its inverse, and the normal-transform matrix.
#[derive(Debug)]
pub struct TransformNode {
    pub xform: Mat,
    pub inverse: Mat,
    pub normi: Mat,
}

/// Well-formedness of a transform node: the matrices have their shapes,
/// `inverse` is a certified two-sided inverse of `xform`, and the transpose
/// of `normi` is a certified two-sided inverse of the upper-left 3x3 block
/// of `xform` — that is, `normi` is the inverse-transpose used to transform
/// surface normals.
pub open spec fn node_wf(n: TransformNode) -> bool {
    &&& mat_wf(n.xform) && n.xform.n == 4
    &&& mat_wf(n.inverse) && n.inverse.n == 4
    &&& mat_wf(n.normi) && n.normi.n == 3
    &&& prod_is_identity(n.xform.e@, n.inverse.e@, 4)
    &&& prod_is_identity(n.inverse.e@, n.xform.e@, 4)
    &&& prod_is_identity(upper3_seq(n.xform.e@), transpose_seq(n.normi.e@, 3), 3)
    &&& prod_is_identity(transpose_seq(n.normi.e@, 3), upper3_seq(n.xform.e@), 3)
}

/// Two nodes hold the same matrices.
pub open spec fn node_same(a: TransformNode, b: TransformNode) -> bool {
    &&& a.xform.n == b.xform.n && a.xform.e@ == b.xform.e@
    &&& a.inverse.n == b.inverse.n && a.inverse.e@ == b.inverse.e@
    &&& a.normi.n == b.normi.n && a.normi.e@ == b.normi.e@
}

impl TransformNode {
    /// The root node: the identity transform, with the identity as its own
    /// inverse and normal matrix.
    pub fn root() -> (r: TransformNode)
        ensures
            node_wf(r),
            is_ident_entries(r.xform.e@, 4),
            is_ident_entries(r.inverse.e@, 4),
            is_ident_entries(r.normi.e@, 3),
    {
        let xform = Mat::identity(4);
        let inverse = Mat::identity(4);
        let normi = Mat::identity(3);
        proof {
            lemma_mul_idents(xform.e@, inverse.e@, 4);
            lemma_mul_idents(inverse.e@, xform.e@, 4);
            assert forall|i: int, j: int| 0 <= i < 3 && 0 <= j < 3 implies #[trigger] entv(
                upper3_seq(xform.e@),
                3,
                i,
                j,
            ) == ident_entry(i, j) by {
                lemma_upper3_entv(xform.e@, i, j);
            }
            assert forall|i: int, j: int| 0 <= i < 3 && 0 <= j < 3 implies #[trigger] entv(
                transpose_seq(normi.e@, 3),
                3,
                i,
                j,
            ) == ident_entry(i, j) by {
                lemma_transpose_entv(normi.e@, 3, i, j);
                assert(entv(normi.e@, 3, j, i) == ident_entry(j, i));
            }
            lemma_mul_idents(upper3_seq(xform.e@), transpose_seq(normi.e@, 3), 3);
            lemma_mul_idents(transpose_seq(normi.e@, 3), upper3_seq(xform.e@), 3);
        }
        TransformNode { xform, inverse, normi }
    }

    /// Certify a composed matrix into a node: invert it and the upper-left
    /// 3x3 block, both checked by multiplying back.
    fn certify(xform: Mat) -> (r: Result<TransformNode, TokenizationError>)
        requires
            mat_wf(xform),
            xform.n == 4,
        ensures
            r matches Ok(node) ==> node_wf(node) && node.xform.n == 4 && node.xform.e@ == xform.e@,
            r matches Err(e) ==> e.kind == ErrorKind::Semantic || e.kind == ErrorKind::NumericRange,
            (exists|j: int| 0 <= j < 4 && crate::matrix::zero_col(xform.e@, 4, j)) ==> r is Err,
    {
        let inverse = match xform.try_invert() {
            Ok(m) => m,
            Err(e) => { return Err(e); },
        };
        let u3 = mat3_from_mat4(&xform);
        let inv3 = match u3.try_invert() {
            Ok(m) => m,
            Err(e) => { return Err(e); },
        };
        let normi = inv3.transpose();
        proof {
            lemma_transpose_involutive(inv3.e@, 3);
            assert(transpose_seq(normi.e@, 3) == inv3.e@);
            if exists|j: int| 0 <= j < 4 && crate::matrix::zero_col(xform.e@, 4, j) {
                let j = choose|j: int| 0 <= j < 4 && crate::matrix::zero_col(xform.e@, 4, j);
                crate::matrix::lemma_zero_col_not_invertible(xform.e@, inverse.e@, 4, j);
            }
        }
        Ok(TransformNode { xform, inverse, normi })
    }

    /// The node for a nested scope: this node's matrix composed with a
    /// local matrix, with freshly certified inverses. The returned node's
    /// matrix is exactly the product `self.xform * local`. A local matrix
    /// with a column of exact zeros — a degenerate transform such as a zero
    /// scale — cannot be certified and is owed an error.
    pub fn create_child(&self, local: &Mat) -> (r: Result<TransformNode, TokenizationError>)
        requires
            node_wf(*self),
            mat_wf(*local),
            local.n == 4,
        ensures
            r matches Ok(node) ==> node_wf(node) && node.xform.n == 4 && mul_ok(
                node.xform.e@,
                self.xform.e@,
                local.e@,
                4,
            ),
            r matches Err(e) ==> e.kind == ErrorKind::Semantic || e.kind == ErrorKind::NumericRange,
            (exists|j: int| 0 <= j < 4 && crate::matrix::zero_col(local.e@, 4, j)) ==> r is Err,
    {
        let composed = match self.xform.try_mul_mat(local) {
            Some(m) => m,
            None => {
                return Err(TokenizationError::of_kind(
                    ErrorKind::NumericRange,
                    "transform composition: value out of range",
                ));
            },
        };
        let res = TransformNode::certify(composed);
        proof {
            if (exists|j: int| 0 <= j < 4 && crate::matrix::zero_col(local.e@, 4, j))
                && res is Ok {
                let j = choose|j: int| 0 <= j < 4 && crate::matrix::zero_col(local.e@, 4, j);
                let node = res->Ok_0;
                crate::matrix::lemma_mul_zero_col(
                    node.xform.e@,
                    self.xform.e@,
                    local.e@,
                    4,
                    j,
                );
                crate::matrix::lemma_zero_col_not_invertible(
                    node.xform.e@,
                    node.inverse.e@,
                    4,
                    j,
                );
            }
        }
        res
    }

    /// The general constructor: compose with the parent when there is one,
    /// otherwise certify the local matrix itself.
    pub fn new(parent: Option<&TransformNode>, local: &Mat) -> (r: Result<
        TransformNode,
        TokenizationError,
    >)
        requires
            mat_wf(*local),
            local.n == 4,
            parent matches Some(p) ==> node_wf(*p),
        ensures
            parent matches Some(p) ==> (r matches Ok(node) ==> node_wf(node) && mul_ok(
                node.xform.e@,
                p.xform.e@,
                local.e@,
                4,
            )),
            parent is None ==> (r matches Ok(node) ==> node_wf(node) && node.xform.e@ == local.e@),
            r matches Err(e) ==> e.kind == ErrorKind::Semantic || e.kind == ErrorKind::NumericRange,
            (exists|j: int| 0 <= j < 4 && crate::matrix::zero_col(local.e@, 4, j)) ==> r is Err,
    {
        match parent {
            Some(p) => p.create_child(local),
            None => TransformNode::certify(local.duplicate()),
        }
    }

    /// A copy holding the same matrices.
    pub fn duplicate(&self) -> (r: TransformNode)
        ensures
            node_same(r, *self),
    {
        TransformNode {
            xform: self.xform.duplicate(),
            inverse: self.inverse.duplicate(),
            normi: self.normi.duplicate(),
        }
    }
}

/// Equal matrices make equally well-formed nodes.
pub proof fn lemma_node_same_wf(a: TransformNode, b: TransformNode)
    requires
        node_same(a, b),
        node_wf(b),
    ensures
        node_wf(a),
{
}

// ---------------------------------------------------------------------------
// Scene data
// ---------------------------------------------------------------------------

/// A three-component vector of exact rationals.
#[derive(Clone, Copy, Debug, PartialEq, Eq, Structural)]
pub struct Vec3 {
    pub x: Rat,
    pub y: Rat,
    pub z: Rat,
}

/// All components well-formed.
pub open spec fn vec3_wf(v: Vec3) -> bool {
    rat_wf(v.x) && rat_wf(v.y) && rat_wf(v.z)
}

impl Vec3 {
    /// The zero vector.
    pub fn zero() -> (r: Vec3)
        ensures
            vec3_wf(r),
            r == vec3_zero(),
            r.x.num == 0 && r.y.num == 0 && r.z.num == 0,
    {
        Vec3 { x: Rat::zero(), y: Rat::zero(), z: Rat::zero() }
    }
}

/// A texture reference of a material parameter: the quoted path text.
#[derive(Debug)]
pub struct TextureMap {
    pub path: Vec<char>,
}

/// A surface material: the fields of a `material = { ... }` block, each
/// optional.
#[derive(Debug)]
pub struct Material {
    pub emissive: Option<Vec3>,
    pub ambient: Option<Vec3>,
    pub specular: Option<Vec3>,
    pub reflective: Option<Vec3>,
    pub diffuse: Option<Vec3>,
    pub transmissive: Option<Vec3>,
    pub shininess: Option<Rat>,
    pub index: Option<Rat>,
    pub name: Option<Vec<char>>,
}

/// All present fields well-formed.
pub open spec fn material_wf(m: Material) -> bool {
    &&& m.emissive matches Some(v) ==> vec3_wf(v)
    &&& m.ambient matches Some(v) ==> vec3_wf(v)
    &&& m.specular matches Some(v) ==> vec3_wf(v)
    &&& m.reflective matches Some(v) ==> vec3_wf(v)
    &&& m.diffuse matches Some(v) ==> vec3_wf(v)
    &&& m.transmissive matches Some(v) ==> vec3_wf(v)
    &&& m.shininess matches Some(v) ==> rat_wf(v)
    &&& m.index matches Some(v) ==> rat_wf(v)
}

impl Material {
    /// A material with no field set.
    pub fn empty() -> (r: Material)
        ensures
            material_wf(r),
            r.emissive is None && r.ambient is None && r.specular is None && r.reflective is None
                && r.diffuse is None && r.transmissive is None && r.shininess is None && r.index
                is None && r.name is None,
    {
        Material {
            emissive: None,
            ambient: None,
            specular: None,
            reflective: None,
            diffuse: None,
            transmissive: None,
            shininess: None,
            index: None,
            name: None,
        }
    }
}

/// What a ray is cast for; used by the renderer that consumes the scene.
#[derive(Clone, Copy, Debug, PartialEq, Eq, Structural)]
pub enum RayType {
    Visibility,
    Reflection,
    Refraction,
    Shadow,
}

/// An axis-aligned bounding volume, derived by the renderer.
#[derive(Clone, Copy, Debug, PartialEq, Eq, Structural)]
pub struct BoundingBox {
    pub box_min: Vec3,
    pub box_max: Vec3,
}

/// A ray the renderer casts through the scene: origin, direction, the
/// accumulated attenuation, the recursion depth, and what it is cast for.
#[derive(Clone, Copy, Debug, PartialEq, Eq, Structural)]
pub struct Ray {
    pub p: Vec3,
    pub d: Vec3,
    pub atten: Vec3,
    pub ctr: u32,
    pub ray_type: RayType,
}

/// One ray-object intersection record the renderer fills in.
#[derive(Clone, Copy, Debug, PartialEq, Eq, Structural)]
pub struct Intersect {
    pub n: Vec3,
    pub bary_coords: Vec3,
    pub uv_u: Rat,
    pub uv_v: Rat,
    pub t: Rat,
}

/// One material parameter: a constant color or a texture reference.
#[derive(Debug)]
pub struct MaterialParameter {
    pub value: Vec3,
    pub texture_map: Option<TextureMap>,
}

/// The kinds of geometry the language declares.
#[derive(Debug)]
pub enum GeometryKind {
    Sphere,
    Box,
    Square,
    Cylinder,
    Cone { capped: bool, height: Rat, bottom_radius: Rat, top_radius: Rat },
    Trimesh { points: Vec<Vec3>, normals: Vec<Vec3>, faces: Vec<Vec3>, gennormals: bool },
}

/// Well-formedness of a geometry kind: its rationals are well-formed.
pub open spec fn kind_wf(k: GeometryKind) -> bool {
    match k {
        GeometryKind::Cone { capped, height, bottom_radius, top_radius } => {
            rat_wf(height) && rat_wf(bottom_radius) && rat_wf(top_radius)
        },
        GeometryKind::Trimesh { points, normals, faces, gennormals } => {
            &&& forall|i: int| 0 <= i < points.len() ==> vec3_wf(#[trigger] points@[i])
            &&& forall|i: int| 0 <= i < normals.len() ==> vec3_wf(#[trigger] normals@[i])
            &&& forall|i: int| 0 <= i < faces.len() ==> vec3_wf(#[trigger] faces@[i])
        },
        _ => true,
    }
}

/// One declared geometry, paired with the transform node in effect at its
/// point of declaration and its optional material and name.
#[derive(Debug)]
pub struct GeometryDecl {
    pub kind: GeometryKind,
    pub node: TransformNode,
    pub material: Option<Material>,
    pub name: Option<Vec<char>>,
}

/// Well-formedness of a declaration.
pub open spec fn decl_wf(d: GeometryDecl) -> bool {
    &&& kind_wf(d.kind)
    &&& node_wf(d.node)
    &&& d.material matches Some(m) ==> material_wf(m)
}

/// One transformed element: the local matrix the source declared, the node
/// built for it, and the nested element parsed under that node.
#[derive(Debug)]
pub struct TransformedElement {
    pub local: Mat,
    pub node: TransformNode,
    pub sub: Box<TransformableElement>,
}

/// A transformable element: a geometry declaration, a bare group, or a
/// transform applied to a nested element.
#[derive(Debug)]
pub enum TransformableElement {
    Geometry(GeometryDecl),
    Group(Vec<TransformableElement>),
    Transformed(TransformedElement),
}

/// Well-formedness of an element under the transform node of its enclosing
/// context. A geometry carries exactly the ambient node. Every member of a
/// bare group is well-formed under the *same* ambient node — a group never
/// introduces a transform. A transformed element's node is well-formed and
/// equals the ambient matrix times the declared local matrix, exactly, and
/// its nested element is well-formed under that child node.
pub open spec fn elem_wf(e: TransformableElement, ambient: TransformNode) -> bool
    decreases e,
{
    match e {
        TransformableElement::Geometry(g) => decl_wf(g) && node_same(g.node, ambient),
        TransformableElement::Group(es) => forall|i: int|
            0 <= i < es.len() ==> elem_wf(#[trigger] es@[i], ambient),
        TransformableElement::Transformed(t) => {
            &&& node_wf(t.node)
            &&& mat_wf(t.local) && t.local.n == 4
            &&& mul_ok(t.node.xform.e@, ambient.xform.e@, t.local.e@, 4)
            &&& elem_wf(*t.sub, t.node)
        },
    }
}

/// The geometry declarations of an element, in declaration order.
pub open spec fn flatten_elem(e: TransformableElement) -> Seq<GeometryDecl>
    decreases e, 0int,
{
    match e {
        TransformableElement::Geometry(g) => seq![g],
        TransformableElement::Group(es) => flatten_list(es, es.len() as int),
        TransformableElement::Transformed(t) => flatten_elem(*t.sub),
    }
}

/// The geometry declarations of the first `k` elements of a group.
pub open spec fn flatten_list(es: Vec<TransformableElement>, k: int) -> Seq<GeometryDecl>
    decreases es, k,
{
    if k <= 0 || k > es.len() {
        Seq::empty()
    } else {
        flatten_list(es, k - 1) + flatten_elem(es@[k - 1])
    }
}

/// The number of nodes of an element tree; a termination measure for
/// executable traversals.
pub open spec fn elem_size(e: TransformableElement) -> nat
    decreases e, 0int,
{
    match e {
        TransformableElement::Geometry(g) => 1,
        TransformableElement::Group(es) => 1 + list_size(es, es.len() as int),
        TransformableElement::Transformed(t) => 1 + elem_size(*t.sub),
    }
}

/// The total size of the first `k` elements of a group.
pub open spec fn list_size(es: Vec<TransformableElement>, k: int) -> nat
    decreases es, k,
{
    if k <= 0 || k > es.len() {
        0
    } else {
        list_size(es, k - 1) + elem_size(es@[k - 1])
    }
}

/// Prefix sizes grow with the prefix.
pub proof fn lemma_list_size_mono(es: Vec<TransformableElement>, k1: int, k2: int)
    requires
        k1 <= k2,
        k2 <= es.len(),
    ensures
        list_size(es, k1) <= list_size(es, k2),
    decreases es, k2,
{
    if k1 < k2 && k2 > 0 && k2 <= es.len() {
        lemma_list_size_mono(es, k1, k2 - 1);
    }
}

/// A member of a group is strictly smaller than the group.
pub proof fn lemma_member_size(es: Vec<TransformableElement>, k: int)
    requires
        0 <= k < es.len(),
    ensures
        elem_size(es@[k]) < 1 + list_size(es, es.len() as int),
{
    assert(list_size(es, k + 1) == list_size(es, k) + elem_size(es@[k]));
    lemma_list_size_mono(es, k + 1, es.len() as int);
}

/// A camera: its declared fields, captured exactly as parsed.
#[derive(Clone, Copy, Debug, PartialEq, Eq, Structural)]
pub struct Camera {
    pub position: Vec3,
    pub viewdir: Vec3,
    pub updir: Vec3,
    pub aspect_ratio: Rat,
    pub fov: Rat,
}

/// All camera fields well-formed.
pub open spec fn camera_wf(c: Camera) -> bool {
    vec3_wf(c.position) && vec3_wf(c.viewdir) && vec3_wf(c.updir) && rat_wf(c.aspect_ratio)
        && rat_wf(c.fov)
}

/// The zero rational.
pub open spec fn rat_zero() -> Rat {
    (Rat { num: 0, den: 1 })
}

/// The zero vector.
pub open spec fn vec3_zero() -> Vec3 {
    (Vec3 { x: rat_zero(), y: rat_zero(), z: rat_zero() })
}

/// The camera before any field is parsed: every field zero.
pub open spec fn camera_zero() -> Camera {
    (Camera {
        position: vec3_zero(),
        viewdir: vec3_zero(),
        updir: vec3_zero(),
        aspect_ratio: rat_zero(),
        fov: rat_zero(),
    })
}

impl Camera {
    /// A camera with every field zero, as before any field is parsed.
    pub fn new() -> (r: Camera)
        ensures
            camera_wf(r),
            r == camera_zero(),
            r.position.x.num == 0 && r.position.y.num == 0 && r.position.z.num == 0,
            r.viewdir.x.num == 0 && r.viewdir.y.num == 0 && r.viewdir.z.num == 0,
            r.updir.x.num == 0 && r.updir.y.num == 0 && r.updir.z.num == 0,
            r.aspect_ratio.num == 0,
            r.fov.num == 0,
    {
        Camera {
            position: Vec3::zero(),
            viewdir: Vec3::zero(),
            updir: Vec3::zero(),
            aspect_ratio: Rat::zero(),
            fov: Rat::zero(),
        }
    }
}

/// The variants of light the language declares.
#[derive(Clone, Copy, Debug, PartialEq, Eq, Structural)]
pub enum LightType {
    DirectionalLight { orientation: Vec3 },
    PointLight { pos: Vec3, a: Rat, b: Rat, c: Rat },
}

/// A light: its variant and its color.
#[derive(Clone, Copy, Debug, PartialEq, Eq, Structural)]
pub struct Light {
    pub light_type: LightType,
    pub color: Vec3,
}

/// Well-formedness of a light.
pub open spec fn light_wf(l: Light) -> bool {
    &&& vec3_wf(l.color)
    &&& match l.light_type {
        LightType::DirectionalLight { orientation } => vec3_wf(orientation),
        LightType::PointLight { pos, a, b, c } => vec3_wf(pos) && rat_wf(a) && rat_wf(b) && rat_wf(
            c,
        ),
    }
}

/// The assembled scene: the root transform node, the geometry declarations
/// in source order (each carrying its node), the lights, the optional
/// camera, and the optional ambient color.
#[derive(Debug)]
pub struct Scene {
    pub transform_root: TransformNode,
    pub objects: Vec<GeometryDecl>,
    pub lights: Vec<Light>,
    pub camera: Option<Camera>,
    pub ambient: Option<Vec3>,
}

/// Well-formedness of a scene: the root is the well-formed identity node
/// and every declaration and light is well-formed. In particular every
/// geometry's transform node carries a certified two-sided inverse and
/// normal matrix.
pub open spec fn scene_wf(s: Scene) -> bool {
    &&& node_wf(s.transform_root)
    &&& is_ident_entries(s.transform_root.xform.e@, 4)
    &&& forall|i: int| 0 <= i < s.objects.len() ==> decl_wf(#[trigger] s.objects@[i])
    &&& forall|i: int| 0 <= i < s.lights.len() ==> light_wf(#[trigger] s.lights@[i])
    &&& s.camera matches Some(c) ==> camera_wf(c)
    &&& s.ambient matches Some(v) ==> vec3_wf(v)
}

} // verus!
