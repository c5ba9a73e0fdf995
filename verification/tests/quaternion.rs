use luma::quaternion::Quaternion;

#[test]
fn test_mul_identity() {
    let identity = Quaternion::new(1, 0, 0, 0);
    let q = Quaternion::new(1, 2, 3, 4);

    assert_eq!(identity * q, q);
    assert_eq!(q * identity, q);
}

#[test]
fn test_mul_imaginary_units() {
    // The defining property of the quaternion imaginary units.
    let i = Quaternion::new(0, 1, 0, 0);
    let j = Quaternion::new(0, 0, 1, 0);
    let k = Quaternion::new(0, 0, 0, 1);
    let neg_one = Quaternion::new(-1, 0, 0, 0);

    assert_eq!(i * i, neg_one);
    assert_eq!(j * j, neg_one);
    assert_eq!(k * k, neg_one);

    // i * j = k, but j * i = -k: multiplication isn't commutative.
    assert_eq!(i * j, k);
    assert_eq!(j * i, Quaternion::new(0, 0, 0, -1));
}
