use ray_rs::matrix::{mat3_from_mat4, Mat};
use ray_rs::rat::Rat;
use ray_rs::scene::TransformNode;

fn rat(num: i128, den: i128) -> Rat {
    Rat { num, den }
}

fn mat4(entries: [i128; 16]) -> Mat {
    let e: Vec<Rat> = entries.iter().map(|&n| rat(n, 1)).collect();
    Mat { n: 4, e }
}

#[test]
fn rat_arithmetic_test() {
    let half = rat(1, 2);
    let third = rat(1, 3);
    let sum = half.try_add(&third).unwrap();
    assert_eq!(sum, rat(5, 6));
    let prod = half.try_mul(&third).unwrap();
    assert_eq!(prod, rat(1, 6));
    let neg = half.try_neg().unwrap();
    assert_eq!(neg, rat(-1, 2));
    let recip = rat(-2, 3).try_recip().unwrap();
    assert_eq!(recip, rat(-3, 2));
    assert_eq!(rat(6, 4).reduced(), rat(3, 2));
    assert_eq!(rat(0, 7).reduced(), rat(0, 1));
}

#[test]
fn rat_overflow_test() {
    let huge = rat(i128::MAX, 1);
    assert!(huge.try_add(&rat(1, 1)).is_none());
    assert!(huge.try_mul(&rat(2, 1)).is_none());
    assert!(rat(i128::MIN, 1).try_neg().is_none());
    assert!(rat(0, 1).try_recip().is_none());
}

#[test]
fn matrix_multiply_test() {
    let a = mat4([1, 0, 0, 1, 0, 1, 0, 2, 0, 0, 1, 3, 0, 0, 0, 1]);
    let b = mat4([1, 0, 0, 4, 0, 1, 0, 5, 0, 0, 1, 6, 0, 0, 0, 1]);
    let p = a.try_mul_mat(&b).unwrap();
    assert_eq!(p.e[3], rat(5, 1));
    assert_eq!(p.e[7], rat(7, 1));
    assert_eq!(p.e[11], rat(9, 1));
    assert_eq!(p.e[0], rat(1, 1));
}

#[test]
fn matrix_invert_test() {
    let m = mat4([2, 0, 0, 0, 0, 4, 0, 0, 0, 0, 5, 0, 0, 0, 0, 1]);
    let inv = m.try_invert().unwrap();
    let p = m.try_mul_mat(&inv).unwrap();
    assert!(p.entries_identity());
    let q = inv.try_mul_mat(&m).unwrap();
    assert!(q.entries_identity());
    assert_eq!(inv.e[0], rat(1, 2));
}

#[test]
fn singular_matrix_test() {
    let m = mat4([1, 0, 0, 0, 0, 0, 0, 0, 0, 0, 1, 0, 0, 0, 0, 1]);
    let err = m.try_invert().unwrap_err();
    assert_eq!(err.kind, ray_rs::error::ErrorKind::Semantic);
}

#[test]
fn transpose_and_upper3_test() {
    let m = mat4([1, 2, 3, 4, 5, 6, 7, 8, 9, 10, 11, 12, 13, 14, 15, 16]);
    let t = m.transpose();
    assert_eq!(t.e[1], rat(5, 1));
    assert_eq!(t.e[4], rat(2, 1));
    let u = mat3_from_mat4(&m);
    assert_eq!(u.n, 3);
    assert_eq!(u.e[0], rat(1, 1));
    assert_eq!(u.e[5], rat(7, 1));
}

#[test]
fn transform_node_test() {
    let root = TransformNode::root();
    assert_eq!(root.xform.e[0], rat(1, 1));
    let local = mat4([1, 0, 0, 9, 0, 1, 0, 0, 0, 0, 1, 0, 0, 0, 0, 1]);
    let child = root.create_child(&local).unwrap();
    assert_eq!(child.xform.e[3], rat(9, 1));
    assert_eq!(child.inverse.e[3], rat(-9, 1));
    // The normal matrix of a translation is the 3x3 identity.
    assert_eq!(child.normi.n, 3);
    assert_eq!(child.normi.e[0], rat(1, 1));
    assert_eq!(child.normi.e[1], rat(0, 1));
    // The general constructor without a parent certifies the local matrix.
    let bare = TransformNode::new(None, &local).unwrap();
    assert_eq!(bare.xform.e[3], rat(9, 1));
}
