//! The operations that only make sense for real numbers, exercised through
//! `R`, a real number type of this test crate: `f64` with each real
//! operation computed by `libm`.
//!
//! The library's traits also declare the `spec_*` and `lemma_*` items that
//! its verified specifications speak of; a plain Rust implementation
//! defines them as the operation itself and an empty proof.

use core::f64::consts::FRAC_PI_2;
use core::ops::{Add, Div, Mul, Neg, Sub};

use luma::identity::{One, Zero};
use luma::matrix::{Axis, Mat2, Matrix};
use luma::order::MinMax;
use luma::quaternion::Quaternion;
use luma::reals::{Acos, Approx, Cos, Round, Sin, Sqrt};
use luma::vector::Vector;

#[derive(Debug, Clone, Copy, PartialEq)]
struct R(f64);

impl Add for R {
    type Output = R;
    fn add(self, rhs: R) -> R {
        R(self.0 + rhs.0)
    }
}

impl Sub for R {
    type Output = R;
    fn sub(self, rhs: R) -> R {
        R(self.0 - rhs.0)
    }
}

impl Mul for R {
    type Output = R;
    fn mul(self, rhs: R) -> R {
        R(self.0 * rhs.0)
    }
}

impl Div for R {
    type Output = R;
    fn div(self, rhs: R) -> R {
        R(self.0 / rhs.0)
    }
}

impl Neg for R {
    type Output = R;
    fn neg(self) -> R {
        R(-self.0)
    }
}

impl<const N: usize> Mul<Vector<R, N>> for R {
    type Output = Vector<R, N>;
    fn mul(self, rhs: Vector<R, N>) -> Vector<R, N> {
        rhs * self
    }
}

impl Zero for R {
    fn spec_zero() -> R {
        R(0.0)
    }

    fn zero() -> R {
        R(0.0)
    }

    fn lemma_add_zero(_x: R) {}
}

impl One for R {
    fn spec_one() -> R {
        R(1.0)
    }

    fn one() -> R {
        R(1.0)
    }

    fn lemma_mul_one(_x: R) {}
}

impl Sqrt for R {
    fn spec_sqrt(self) -> R {
        self.sqrt()
    }

    fn sqrt(self) -> R {
        R(libm::sqrt(self.0))
    }
}

impl Sin for R {
    fn spec_sin(self) -> R {
        self.sin()
    }

    fn sin(self) -> R {
        R(libm::sin(self.0))
    }
}

impl Cos for R {
    fn spec_cos(self) -> R {
        self.cos()
    }

    fn cos(self) -> R {
        R(libm::cos(self.0))
    }
}

impl Acos for R {
    fn spec_acos(self) -> R {
        self.acos()
    }

    fn acos(self) -> R {
        R(libm::acos(self.0))
    }
}

impl MinMax for R {
    fn spec_min(self, other: R) -> R {
        self.min(other)
    }

    fn spec_max(self, other: R) -> R {
        self.max(other)
    }

    fn min(self, other: R) -> R {
        R(f64::min(self.0, other.0))
    }

    fn max(self, other: R) -> R {
        R(f64::max(self.0, other.0))
    }
}

impl Round for R {
    fn spec_floor(self) -> R {
        self.floor()
    }

    fn spec_ceil(self) -> R {
        self.ceil()
    }

    fn spec_round(self) -> R {
        self.round()
    }

    fn floor(self) -> R {
        R(libm::floor(self.0))
    }

    fn ceil(self) -> R {
        R(libm::ceil(self.0))
    }

    fn round(self) -> R {
        R(libm::round(self.0))
    }
}

impl Approx for R {
    fn spec_default_epsilon() -> R {
        R::default_epsilon()
    }

    fn spec_is_close(self, other: R, epsilon: R) -> bool {
        self.is_close(other, epsilon)
    }

    fn default_epsilon() -> R {
        R(1e-10)
    }

    fn is_close(self, other: R, epsilon: R) -> bool {
        (self.0 - other.0).abs() <= epsilon.0
    }
}

fn v<const N: usize>(xs: [f64; N]) -> Vector<R, N> {
    Vector::new(xs.map(R))
}

#[test]
fn test_length() {
    let v = v([3.0, 4.0]);

    assert_eq!(v.length(), R(5.0));
}

#[test]
fn test_unit() {
    let v: Vector<R, 2> = v([3.0, 4.0]);
    let u = v.unit();

    // Exact float equality is unreliable after arithmetic, so check
    // within a tolerance rather than with assert_eq!.
    let close = |a: R, b: f64| (a.0 - b) < 1e-10 && (b - a.0) < 1e-10;

    assert!(close(u[0], 0.6));
    assert!(close(u[1], 0.8));
    assert!(close(u.length(), 1.0));
}

#[test]
fn test_project() {
    let a = v([3.0, 4.0]);
    let b = v([1.0, 0.0]);

    assert_eq!(a.project(b), v([3.0, 0.0]));
}

#[test]
fn test_min_max() {
    let a = v([1.0, 5.0, f64::NAN]);
    let b = v([3.0, 2.0, 7.0]);

    assert_eq!(a.min(b), v([1.0, 2.0, 7.0]));
    assert_eq!(a.max(b), v([3.0, 5.0, 7.0]));
}

#[test]
fn test_floor_ceil_round() {
    let v = v([1.2, -1.2, 1.5]);

    assert_eq!(v.floor(), self::v([1.0, -2.0, 1.0]));
    assert_eq!(v.ceil(), self::v([2.0, -1.0, 2.0]));
    assert_eq!(v.round(), self::v([1.0, -1.0, 2.0]));
}

#[test]
fn test_rotation_2d() {
    // sin(0)/cos(0) are exact in IEEE 754, so this can use assert_eq!
    // rather than a tolerance.
    assert_eq!(Matrix::<R, 2, 2>::rotation(R(0.0)), Matrix::id());

    // A 90-degree rotation should send X to Y.
    let close = |a: R, b: f64| (a.0 - b).abs() < 1e-10;
    let r = Mat2::<R>::rotation(R(FRAC_PI_2));
    let m = r * Matrix::from(v([1.0, 0.0]));

    assert!(close(m[0][0], 0.0));
    assert!(close(m[1][0], 1.0));
}

#[test]
fn test_rotation_zero_is_identity() {
    // sin(0)/cos(0) are exact in IEEE 754, so this can use assert_eq!
    // rather than a tolerance.
    assert_eq!(Matrix::<R, 3, 3>::rotation(Axis::X, R(0.0)), Matrix::id());
    assert_eq!(Matrix::<R, 3, 3>::rotation(Axis::Y, R(0.0)), Matrix::id());
    assert_eq!(Matrix::<R, 3, 3>::rotation(Axis::Z, R(0.0)), Matrix::id());
}

#[test]
fn test_rotation_spot_check() {
    // 90-degree rotations have exact expected results, which pins down
    // both the axis and the sign/direction of the rotation.
    let close = |a: R, b: R| (a.0 - b.0).abs() < 1e-10;
    let close_vec = |a: Vector<R, 3>, b: Vector<R, 3>| {
        close(a[0], b[0]) && close(a[1], b[1]) && close(a[2], b[2])
    };
    let rotate = |axis: Axis, v: Vector<R, 3>| {
        let r = Matrix::<R, 3, 3>::rotation(axis, R(FRAC_PI_2));
        let m = r * Matrix::from(v);
        Vector::new([m[0][0], m[1][0], m[2][0]])
    };

    let x = v([1.0, 0.0, 0.0]);
    let y = v([0.0, 1.0, 0.0]);
    let z = v([0.0, 0.0, 1.0]);

    assert!(close_vec(rotate(Axis::Z, x), y));
    assert!(close_vec(rotate(Axis::X, y), z));
    assert!(close_vec(rotate(Axis::Y, z), x));
}

#[test]
fn test_rotation_is_orthogonal() {
    // Property check: a rotation matrix's transpose should be its
    // inverse for any angle, not just the "nice" ones above.
    let close = |a: R, b: f64| (a.0 - b).abs() < 1e-10;

    for axis in [Axis::X, Axis::Y, Axis::Z] {
        let r = Matrix::<R, 3, 3>::rotation(axis, R(0.73));
        let product = r * r.transpose();

        for i in 0..3 {
            for j in 0..3 {
                let expected = if i == j { 1.0 } else { 0.0 };
                assert!(close(product[i][j], expected));
            }
        }
    }
}

#[test]
fn test_normalize() {
    let q = Quaternion::new(R(0.0), R(3.0), R(4.0), R(0.0));

    assert_eq!(q.normalize(), Quaternion::new(R(0.0), R(0.6), R(0.8), R(0.0)));
}

#[test]
fn distance_and_angle() {
    let a = v([1.0, 2.0]);
    let b = v([4.0, 6.0]);
    assert_eq!(a.distance(b), R(5.0));

    let x = v([1.0, 0.0, 0.0]);
    let y = v([0.0, 2.0, 0.0]);
    assert!(x.angle(y).is_close_default(R(FRAC_PI_2)));
    assert!(x.angle(x).is_close_default(R(0.0)));
}

#[test]
fn approx_uses_the_default_epsilon() {
    assert!(R(1.0).is_close_default(R(1.0 + 1e-11)));
    assert!(!R(1.0).is_close_default(R(1.0 + 1e-9)));
    assert!(R(1.0).is_close(R(1.5), R(0.5)));
}

#[test]
fn rotation_4d_and_translation_compose() {
    assert_eq!(Matrix::<R, 4, 4>::rotation(Axis::Y, R(0.0)), Matrix::id());

    let close = |a: R, b: f64| (a.0 - b).abs() < 1e-10;
    let t = Matrix::translation(R(1.0), R(2.0), R(3.0));
    let r = Matrix::<R, 4, 4>::rotation(Axis::Z, R(FRAC_PI_2));
    let p = t * r * Matrix::from(v([1.0, 0.0, 0.0, 1.0]));

    assert!(close(p[0][0], 1.0));
    assert!(close(p[1][0], 3.0));
    assert!(close(p[2][0], 3.0));
    assert!(close(p[3][0], 1.0));
}

#[test]
fn rotation_4_extends_rotation_3() {
    for axis in [Axis::X, Axis::Y, Axis::Z] {
        let r3 = Matrix::<R, 3, 3>::rotation(axis, R(0.73));
        let r4 = Matrix::<R, 4, 4>::rotation(axis, R(0.73));

        for i in 0..3 {
            for j in 0..3 {
                assert_eq!(r4[i][j], r3[i][j]);
            }
            assert_eq!(r4[i][3], R(0.0));
        }
        assert_eq!(r4[3], [R(0.0), R(0.0), R(0.0), R(1.0)]);
    }
}
