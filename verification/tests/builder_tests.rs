use ray_rs::builder::{parse_camera_block, RayParser, RaySceneBuilder};
use ray_rs::error::ErrorKind;
use ray_rs::lexer::RayTokenizer;
use ray_rs::rat::Rat;
use ray_rs::scene::{GeometryKind, LightType, Scene};
use ray_rs::stream::TokenStream;

fn parse(input: &str) -> Result<Scene, ray_rs::error::TokenizationError> {
    RayParser::parse_scene(input)
}

fn rat(num: i128, den: i128) -> Rat {
    Rat { num, den }
}

/// The 16 entries of a 4x4 identity matrix, as the exact fractions the
/// library builds.
fn assert_identity4(m: &ray_rs::matrix::Mat) {
    assert_eq!(m.n, 4);
    for i in 0..4 {
        for j in 0..4 {
            let e = m.e[i * 4 + j];
            if i == j {
                assert_eq!(e.num, e.den);
            } else {
                assert_eq!(e.num, 0);
            }
            assert!(e.den > 0);
        }
    }
}

#[test]
fn sphere_scene_test() {
    // One geometry declaration, kind sphere, transform = root identity.
    let scene = parse("SBT-raytracer 1.0\nsphere { }").unwrap();
    assert_eq!(scene.objects.len(), 1);
    assert!(matches!(scene.objects[0].kind, GeometryKind::Sphere));
    assert_identity4(&scene.objects[0].node.xform);
    assert!(scene.camera.is_none());
    assert!(scene.lights.is_empty());
}

#[test]
fn translate_scene_test() {
    // The declaration's transform maps the origin to (1, 2, 3): its matrix
    // is the translation matrix, composed exactly with the identity root.
    let scene = parse("SBT-raytracer 1.0\ntranslate(1,2,3, sphere { });").unwrap();
    assert_eq!(scene.objects.len(), 1);
    let m = &scene.objects[0].node.xform;
    assert_eq!(m.e[3], rat(1, 1));
    assert_eq!(m.e[7], rat(2, 1));
    assert_eq!(m.e[11], rat(3, 1));
    assert_eq!(m.e[0], rat(1, 1));
    assert_eq!(m.e[5], rat(1, 1));
    assert_eq!(m.e[10], rat(1, 1));
    assert_eq!(m.e[15], rat(1, 1));
    assert_eq!(m.e[1], rat(0, 1));
}

#[test]
fn unsupported_version_test() {
    let err = parse("SBT-raytracer 2.0\nsphere{}").unwrap_err();
    assert_eq!(err.kind, ErrorKind::Semantic);
    // version 1.1 itself is supported
    assert!(parse("SBT-raytracer 1.1\nsphere{}").is_ok());
}

#[test]
fn camera_fields_test() {
    // Camera field values are captured exactly as parsed, with no error.
    let input = "camera { position = (4,0,0); viewdir = (-1,0,0); aspectratio = 1; updir = (0,1,0); }";
    let mut tokenizer = RayTokenizer::new(input);
    let tokens = tokenizer.tokenize().unwrap();
    let mut stream = TokenStream::new(tokens);
    let cam = parse_camera_block(&mut stream).unwrap();
    assert_eq!(cam.position.x, rat(4, 1));
    assert_eq!(cam.position.y, rat(0, 1));
    assert_eq!(cam.position.z, rat(0, 1));
    assert_eq!(cam.viewdir.x, rat(-1, 1));
    assert_eq!(cam.aspect_ratio, rat(1, 1));
    assert_eq!(cam.updir.y, rat(1, 1));
    assert_eq!(stream.remaining(), 0);
}

#[test]
fn camera_in_scene_test() {
    let scene = parse(
        "SBT-raytracer 1.0\ncamera { position = (4,0,0); viewdir = (-1,0,0); aspectratio = 1; updir = (0,1,0); }",
    )
    .unwrap();
    let cam = scene.camera.unwrap();
    assert_eq!(cam.position.x, rat(4, 1));
    assert_eq!(cam.viewdir.x, rat(-1, 1));
}

#[test]
fn cone_defaults_test() {
    // height as given; capped, bottom_radius, top_radius at their defaults.
    let scene = parse("SBT-raytracer 1.0\ncone { height = 2; }").unwrap();
    assert_eq!(scene.objects.len(), 1);
    match &scene.objects[0].kind {
        GeometryKind::Cone { capped, height, bottom_radius, top_radius } => {
            assert_eq!(*capped, true);
            assert_eq!(*height, rat(2, 1));
            assert_eq!(*bottom_radius, rat(1, 1));
            assert_eq!(*top_radius, rat(0, 1));
        },
        other => panic!("expected a cone, got {:?}", other),
    }
}

#[test]
fn unknown_field_test() {
    // Unknown field names inside a recognized block are a semantic error.
    let err = parse("SBT-raytracer 1.0\nsphere { unknownfield = 1; }").unwrap_err();
    assert_eq!(err.kind, ErrorKind::Semantic);
    // Without the required header the same text is already a syntax error.
    let err2 = parse("sphere { unknownfield = 1; }").unwrap_err();
    assert_eq!(err2.kind, ErrorKind::Syntax);
}

#[test]
fn duplicate_camera_test() {
    let err = parse(
        "SBT-raytracer 1.0\ncamera { fov = 1; }\ncamera { fov = 2; }",
    )
    .unwrap_err();
    assert_eq!(err.kind, ErrorKind::Semantic);
}

#[test]
fn group_transparency_test() {
    // Elements declared directly inside a bare group keep the enclosing
    // context's transform node: here, the identity root.
    let scene = parse("SBT-raytracer 1.0\n{ sphere { } box { } }").unwrap();
    assert_eq!(scene.objects.len(), 2);
    assert!(matches!(scene.objects[0].kind, GeometryKind::Sphere));
    assert!(matches!(scene.objects[1].kind, GeometryKind::Box));
    assert_identity4(&scene.objects[0].node.xform);
    assert_identity4(&scene.objects[1].node.xform);
}

#[test]
fn nested_translate_composition_test() {
    // Composition: the leaf's matrix is root * T(1,2,3) * T(4,5,6), whose
    // translation column is (5, 7, 9); the stored inverse multiplies back
    // to the identity.
    let scene = parse(
        "SBT-raytracer 1.0\ntranslate(1,2,3, translate(4,5,6, sphere { }));",
    )
    .unwrap();
    assert_eq!(scene.objects.len(), 1);
    let node = &scene.objects[0].node;
    assert_eq!(node.xform.e[3], rat(5, 1));
    assert_eq!(node.xform.e[7], rat(7, 1));
    assert_eq!(node.xform.e[11], rat(9, 1));
    let p = node.xform.try_mul_mat(&node.inverse).unwrap();
    assert!(p.entries_identity());
    let q = node.inverse.try_mul_mat(&node.xform).unwrap();
    assert!(q.entries_identity());
}

#[test]
fn scale_forms_test() {
    let uniform = parse("SBT-raytracer 1.0\nscale(2, sphere { });").unwrap();
    let m = &uniform.objects[0].node.xform;
    assert_eq!(m.e[0], rat(2, 1));
    assert_eq!(m.e[5], rat(2, 1));
    assert_eq!(m.e[10], rat(2, 1));
    assert_eq!(m.e[15], rat(1, 1));

    let nonuniform = parse("SBT-raytracer 1.0\nscale(2,3,4, sphere { });").unwrap();
    let m2 = &nonuniform.objects[0].node.xform;
    assert_eq!(m2.e[0], rat(2, 1));
    assert_eq!(m2.e[5], rat(3, 1));
    assert_eq!(m2.e[10], rat(4, 1));
}

#[test]
fn transform_rows_test() {
    // transform(...) takes four rows, row-major as written.
    let scene = parse(
        "SBT-raytracer 1.0\ntransform((1,0,0,7),(0,1,0,8),(0,0,1,9),(0,0,0,1), sphere { });",
    )
    .unwrap();
    let m = &scene.objects[0].node.xform;
    assert_eq!(m.e[3], rat(7, 1));
    assert_eq!(m.e[7], rat(8, 1));
    assert_eq!(m.e[11], rat(9, 1));
}

#[test]
fn rotate_scene_test() {
    // A rotation parses, composes, and carries a certified inverse.
    let scene = parse("SBT-raytracer 1.0\nrotate(0,0,1, 1.57, sphere { });").unwrap();
    assert_eq!(scene.objects.len(), 1);
    let node = &scene.objects[0].node;
    let p = node.xform.try_mul_mat(&node.inverse).unwrap();
    assert!(p.entries_identity());
    // cos(1.57) is about 0; the (0,0) entry must be small.
    let e00 = node.xform.e[0];
    assert!(e00.num.abs() * 100 < e00.den);
}

#[test]
fn degenerate_rotation_axis_test() {
    let err = parse("SBT-raytracer 1.0\nrotate(0,0,0, 1, sphere { });").unwrap_err();
    assert_eq!(err.kind, ErrorKind::Semantic);
}

#[test]
fn lights_test() {
    let scene = parse(
        "SBT-raytracer 1.0\npoint_light { position = (4, 4, 0); color = (.5, .5, .5); constant_attenuation_coeff = 0.25; linear_attenuation_coeff = 0.003372407; quadratic_attenuation_coeff = 0.000045492; }\ndirectional_light { direction = (0, -1, 0); colour = (1.0, 1.0, 1.0); }",
    )
    .unwrap();
    assert_eq!(scene.lights.len(), 2);
    match scene.lights[0].light_type {
        LightType::PointLight { pos, a, b, c } => {
            assert_eq!(pos.x, rat(4, 1));
            assert_eq!(a, rat(25, 100));
            assert_eq!(b, rat(3372407, 1000000000));
            assert_eq!(c, rat(45492, 1000000000));
        },
        _ => panic!("expected a point light"),
    }
    assert_eq!(scene.lights[0].color.x, rat(5, 10));
    match scene.lights[1].light_type {
        LightType::DirectionalLight { orientation } => {
            assert_eq!(orientation.y, rat(-1, 1));
        },
        _ => panic!("expected a directional light"),
    }
    assert_eq!(scene.lights[1].color.z, rat(10, 10));
}

#[test]
fn ambient_light_test() {
    let scene = parse("SBT-raytracer 1.0\nambient_light { color = (0.1, 0.2, 0.3); }").unwrap();
    let a = scene.ambient.unwrap();
    assert_eq!(a.x, rat(1, 10));
    assert_eq!(a.y, rat(2, 10));
    assert_eq!(a.z, rat(3, 10));
}

#[test]
fn material_block_test() {
    let scene = parse(
        "SBT-raytracer 1.0\nbox {\n    material = {\n        //diffuse = (0.7, 0, 1.0);\n        specular = (0.9,0.4,0.0);\n        shininess = 76.8;\n    };\n}",
    )
    .unwrap();
    let mat = scene.objects[0].material.as_ref().unwrap();
    let spec = mat.specular.unwrap();
    assert_eq!(spec.x, rat(9, 10));
    assert_eq!(spec.y, rat(4, 10));
    assert_eq!(spec.z, rat(0, 10));
    assert_eq!(mat.shininess.unwrap(), rat(768, 10));
    assert!(mat.diffuse.is_none());
}

#[test]
fn trimesh_test() {
    let scene = parse(
        "SBT-raytracer 1.0\ntrimesh { points = ((0,0,0),(1,0,0),(0,1,0)); faces = ((0,1,2)); gennormals; }",
    )
    .unwrap();
    match &scene.objects[0].kind {
        GeometryKind::Trimesh { points, normals, faces, gennormals } => {
            assert_eq!(points.len(), 3);
            assert_eq!(points[1].x, rat(1, 1));
            assert!(normals.is_empty());
            assert_eq!(faces.len(), 1);
            assert_eq!(faces[0].z, rat(2, 1));
            assert!(*gennormals);
        },
        other => panic!("expected a trimesh, got {:?}", other),
    }
}

#[test]
fn builder_and_scene_test() {
    // Going through the builder by hand gives the same scene.
    let mut tokenizer = RayTokenizer::new("SBT-raytracer 1.0\nsphere { } box { }");
    let tokens = tokenizer.tokenize().unwrap();
    let builder = RaySceneBuilder::new(tokens).unwrap();
    let scene = builder.create_scene();
    assert_eq!(scene.objects.len(), 2);
}

#[test]
fn out_of_tokens_error_test() {
    let err = parse("SBT-raytracer 1.0\nsphere {").unwrap_err();
    assert_eq!(err.kind, ErrorKind::Syntax);
}

#[test]
fn singular_transform_test() {
    // A zero scale makes the composed matrix non-invertible: a semantic
    // (degenerate transform) error.
    let err = parse("SBT-raytracer 1.0\nscale(0, sphere { });").unwrap_err();
    assert_eq!(err.kind, ErrorKind::Semantic);
}
