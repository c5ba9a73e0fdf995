//! Defines a Quaternion
//!
//! A `Quaternion<F>` extends complex numbers with three imaginary units
//! (`i`, `j`, `k`) instead of one, giving `w + xi + yj + zk`. Unit
//! quaternions represent 3D rotations: composing rotations by multiplying
//! quaternions can only drift away from unit length, corrected by a cheap
//! `normalize`, unlike composing rotation matrices which can drift away
//! from orthogonality and needs a full re-orthonormalization to fix.

use core::ops::{Add, Div, Mul, Sub};
use vstd::prelude::*;

use crate::field::{Field, integer_like, fadd, fadd_req, fdiv, fdiv_req, fmul, fmul_req, fsub, fsub_req, ops_obey};
use crate::reals::Sqrt;

verus! {

/// A quaternion `w + xi + yj + zk` over a `Field` `F`
#[derive(Debug, Clone, Copy, PartialEq)]
pub struct Quaternion<F>
where
    F: Field,
{
    w: F,
    x: F,
    y: F,
    z: F,
}

impl<F> View for Quaternion<F> where F: Field {
    type V = (F, F, F, F);

    /// The scalar part and the three imaginary parts, `(w, x, y, z)`.
    closed spec fn view(&self) -> (F, F, F, F) {
        (self.w, self.x, self.y, self.z)
    }
}

/// `w^2 + x^2 + y^2 + z^2`, summed from the left.
pub open spec fn norm_squared_of<F: Field>(q: (F, F, F, F)) -> F {
    fadd(fadd(fadd(fmul(q.0, q.0), fmul(q.1, q.1)), fmul(q.2, q.2)), fmul(q.3, q.3))
}

/// Every operation in `norm_squared_of(q)` is defined.
pub open spec fn norm_squared_req<F: Field>(q: (F, F, F, F)) -> bool {
    &&& fmul_req(q.0, q.0) &&& fmul_req(q.1, q.1) &&& fmul_req(q.2, q.2) &&& fmul_req(q.3, q.3)
    &&& fadd_req(fmul(q.0, q.0), fmul(q.1, q.1))
    &&& fadd_req(fadd(fmul(q.0, q.0), fmul(q.1, q.1)), fmul(q.2, q.2))
    &&& fadd_req(fadd(fadd(fmul(q.0, q.0), fmul(q.1, q.1)), fmul(q.2, q.2)), fmul(q.3, q.3))
}

/// `a0*b0 - a1*b1 - a2*b2 - a3*b3`, from the left: the shape of the scalar
/// part of the Hamilton product.
pub open spec fn msss<F: Field>(a0: F, b0: F, a1: F, b1: F, a2: F, b2: F, a3: F, b3: F) -> F {
    fsub(fsub(fsub(fmul(a0, b0), fmul(a1, b1)), fmul(a2, b2)), fmul(a3, b3))
}

/// `a0*b0 + a1*b1 + a2*b2 - a3*b3`, from the left.
pub open spec fn maas<F: Field>(a0: F, b0: F, a1: F, b1: F, a2: F, b2: F, a3: F, b3: F) -> F {
    fsub(fadd(fadd(fmul(a0, b0), fmul(a1, b1)), fmul(a2, b2)), fmul(a3, b3))
}

/// `a0*b0 - a1*b1 + a2*b2 + a3*b3`, from the left.
pub open spec fn msaa<F: Field>(a0: F, b0: F, a1: F, b1: F, a2: F, b2: F, a3: F, b3: F) -> F {
    fadd(fadd(fsub(fmul(a0, b0), fmul(a1, b1)), fmul(a2, b2)), fmul(a3, b3))
}

/// `a0*b0 + a1*b1 - a2*b2 + a3*b3`, from the left.
pub open spec fn masa<F: Field>(a0: F, b0: F, a1: F, b1: F, a2: F, b2: F, a3: F, b3: F) -> F {
    fadd(fsub(fadd(fmul(a0, b0), fmul(a1, b1)), fmul(a2, b2)), fmul(a3, b3))
}

/// The Hamilton product of `a` and `b`, each as `(w, x, y, z)`.
pub open spec fn hamilton<F: Field>(a: (F, F, F, F), b: (F, F, F, F)) -> (F, F, F, F) {
    (
        msss(a.0, b.0, a.1, b.1, a.2, b.2, a.3, b.3),
        maas(a.0, b.1, a.1, b.0, a.2, b.3, a.3, b.2),
        msaa(a.0, b.2, a.1, b.3, a.2, b.0, a.3, b.1),
        masa(a.0, b.3, a.1, b.2, a.2, b.1, a.3, b.0),
    )
}

/// Every operation in `hamilton(a, b)` is defined.
pub open spec fn hamilton_req<F: Field>(a: (F, F, F, F), b: (F, F, F, F)) -> bool {
    &&& fmul_req(a.0, b.0) &&& fmul_req(a.1, b.1) &&& fmul_req(a.2, b.2) &&& fmul_req(a.3, b.3)
    &&& fsub_req(fmul(a.0, b.0), fmul(a.1, b.1))
    &&& fsub_req(fsub(fmul(a.0, b.0), fmul(a.1, b.1)), fmul(a.2, b.2))
    &&& fsub_req(fsub(fsub(fmul(a.0, b.0), fmul(a.1, b.1)), fmul(a.2, b.2)), fmul(a.3, b.3))
    &&& fmul_req(a.0, b.1) &&& fmul_req(a.1, b.0) &&& fmul_req(a.2, b.3) &&& fmul_req(a.3, b.2)
    &&& fadd_req(fmul(a.0, b.1), fmul(a.1, b.0))
    &&& fadd_req(fadd(fmul(a.0, b.1), fmul(a.1, b.0)), fmul(a.2, b.3))
    &&& fsub_req(fadd(fadd(fmul(a.0, b.1), fmul(a.1, b.0)), fmul(a.2, b.3)), fmul(a.3, b.2))
    &&& fmul_req(a.0, b.2) &&& fmul_req(a.1, b.3) &&& fmul_req(a.2, b.0) &&& fmul_req(a.3, b.1)
    &&& fsub_req(fmul(a.0, b.2), fmul(a.1, b.3))
    &&& fadd_req(fsub(fmul(a.0, b.2), fmul(a.1, b.3)), fmul(a.2, b.0))
    &&& fadd_req(fadd(fsub(fmul(a.0, b.2), fmul(a.1, b.3)), fmul(a.2, b.0)), fmul(a.3, b.1))
    &&& fmul_req(a.0, b.3) &&& fmul_req(a.1, b.2) &&& fmul_req(a.2, b.1) &&& fmul_req(a.3, b.0)
    &&& fadd_req(fmul(a.0, b.3), fmul(a.1, b.2))
    &&& fsub_req(fadd(fmul(a.0, b.3), fmul(a.1, b.2)), fmul(a.2, b.1))
    &&& fadd_req(fsub(fadd(fmul(a.0, b.3), fmul(a.1, b.2)), fmul(a.2, b.1)), fmul(a.3, b.0))
}

impl<F> Quaternion<F>
where
    F: Field,
{
    /// The quaternion with parts `v`.
    pub closed spec fn from_view(v: (F, F, F, F)) -> Self {
        Quaternion { w: v.0, x: v.1, y: v.2, z: v.3 }
    }

    /// A quaternion is determined by its parts.
    pub proof fn lemma_from_view(self)
        ensures
            Self::from_view(self@) == self,
            forall|v: (F, F, F, F)| #[trigger] Self::from_view(v)@ == v,
    {
    }

    /// Create a new quaternion from its scalar part `w` and imaginary parts
    /// `x`, `y`, `z`
    pub fn new(w: F, x: F, y: F, z: F) -> (r: Self)
        ensures
            r@ == (w, x, y, z),
    {
        Self { w, x, y, z }
    }

    /// The squared norm `w^2 + x^2 + y^2 + z^2`, cheaper than the norm
    /// itself since it avoids a square root
    fn norm_squared(&self) -> (r: F)
        requires
            ops_obey::<F>(),
            norm_squared_req(self@),
        ensures
            r == norm_squared_of(self@),
    {
        self.w.mul(self.w).add(self.x.mul(self.x)).add(self.y.mul(self.y)).add(self.z.mul(self.z))
    }

    /// Returns a unit quaternion (norm 1) representing the same rotation as
    /// `self`, correcting for any drift accumulated from repeated
    /// multiplication
    pub fn normalize(&self) -> (r: Self)
        where
            F: Sqrt,
        requires
            ops_obey::<F>(),
            norm_squared_req(self@),
            fdiv_req(self@.0, norm_squared_of(self@).spec_sqrt()),
            fdiv_req(self@.1, norm_squared_of(self@).spec_sqrt()),
            fdiv_req(self@.2, norm_squared_of(self@).spec_sqrt()),
            fdiv_req(self@.3, norm_squared_of(self@).spec_sqrt()),
        ensures
            r@ == (
                fdiv(self@.0, norm_squared_of(self@).spec_sqrt()),
                fdiv(self@.1, norm_squared_of(self@).spec_sqrt()),
                fdiv(self@.2, norm_squared_of(self@).spec_sqrt()),
                fdiv(self@.3, norm_squared_of(self@).spec_sqrt()),
            ),
    {
        let len = self.norm_squared().sqrt();
        Self { w: self.w.div(len), x: self.x.div(len), y: self.y.div(len), z: self.z.div(len) }
    }
}

/// Hamilton product: composes two rotations (when both are unit
/// quaternions). Not commutative - `self * rhs` applies `rhs` first, then
/// `self`, matching the convention `Matrix::mul` uses for composing
/// transforms.
impl<F> vstd::std_specs::ops::MulSpecImpl for Quaternion<F>
where
    F: Field,
{
    open spec fn obeys_mul_spec() -> bool {
        ops_obey::<F>()
    }

    open spec fn mul_req(self, rhs: Self) -> bool {
        &&& ops_obey::<F>()
        &&& hamilton_req(self@, rhs@)
    }

    open spec fn mul_spec(self, rhs: Self) -> Self {
        Self::from_view(hamilton(self@, rhs@))
    }
}

impl<F> Mul for Quaternion<F>
where
    F: Field,
{
    type Output = Self;

    fn mul(self, rhs: Self) -> (r: Self)
        ensures
            r@ == hamilton(self@, rhs@),
            r@.0 == fsub(fsub(fsub(fmul(self@.0, rhs@.0), fmul(self@.1, rhs@.1)), fmul(self@.2, rhs@.2)), fmul(self@.3, rhs@.3)),
            r@.1 == fsub(fadd(fadd(fmul(self@.0, rhs@.1), fmul(self@.1, rhs@.0)), fmul(self@.2, rhs@.3)), fmul(self@.3, rhs@.2)),
            r@.2 == fadd(fadd(fsub(fmul(self@.0, rhs@.2), fmul(self@.1, rhs@.3)), fmul(self@.2, rhs@.0)), fmul(self@.3, rhs@.1)),
            r@.3 == fadd(fsub(fadd(fmul(self@.0, rhs@.3), fmul(self@.1, rhs@.2)), fmul(self@.2, rhs@.1)), fmul(self@.3, rhs@.0)),
    {
        Self {
            w: self.w.mul(rhs.w).sub(self.x.mul(rhs.x)).sub(self.y.mul(rhs.y)).sub(self.z.mul(rhs.z)),
            x: self.w.mul(rhs.x).add(self.x.mul(rhs.w)).add(self.y.mul(rhs.z)).sub(self.z.mul(rhs.y)),
            y: self.w.mul(rhs.y).sub(self.x.mul(rhs.z)).add(self.y.mul(rhs.w)).add(self.z.mul(rhs.x)),
            z: self.w.mul(rhs.z).add(self.x.mul(rhs.y)).sub(self.y.mul(rhs.x)).add(self.z.mul(rhs.w)),
        }
    }
}

impl<F> Quaternion<F>
where
    F: Field,
{
    /// The squared norm is `w*w + x*x + y*y + z*z`, summed from the left.
    pub proof fn lemma_norm_squared_entries(q: (F, F, F, F))
        ensures
            norm_squared_of(q) == fadd(fadd(fadd(fmul(q.0, q.0), fmul(q.1, q.1)), fmul(q.2, q.2)), fmul(q.3, q.3)),
    {
    }

    /// Where `F` computes like the integers (as every signed integer type
    /// does, `lemma_signed_integers_are_integer_like`), the quaternion `1`
    /// is neutral for the product on both sides: `1 * q` and `q * 1` are
    /// defined and are `q`.
    pub proof fn lemma_mul_one(q: Self, val: spec_fn(F) -> int, lo: int, hi: int)
        requires
            integer_like(val, lo, hi),
        ensures
            hamilton_req((F::spec_one(), F::spec_zero(), F::spec_zero(), F::spec_zero()), q@),
            hamilton((F::spec_one(), F::spec_zero(), F::spec_zero(), F::spec_zero()), q@) == q@,
            hamilton_req(q@, (F::spec_one(), F::spec_zero(), F::spec_zero(), F::spec_zero())),
            hamilton(q@, (F::spec_one(), F::spec_zero(), F::spec_zero(), F::spec_zero())) == q@,
    {
        let one = F::spec_one();
        let z = F::spec_zero();
        let (w, x, y, u) = q@;
        assert(lo <= val(w) <= hi);
        assert(lo <= val(x) <= hi);
        assert(lo <= val(y) <= hi);
        assert(lo <= val(u) <= hi);
        assert(lo <= val(z) <= hi);
        // Each product with one is the other factor, each with zero is zero.
        assert forall|v: F| #[trigger] fmul_req(one, v) && fmul_req(v, one) && fmul_req(z, v) && fmul_req(v, z)
            && fmul(one, v) == v && fmul(v, one) == v && fmul(z, v) == z && fmul(v, z) == z by {
            assert(lo <= val(v) <= hi);
            assert(val(fmul(one, v)) == val(v));
            assert(val(fmul(v, one)) == val(v));
            assert(val(fmul(z, v)) == val(z));
            assert(val(fmul(v, z)) == val(z));
        }
        // Adding or subtracting zero changes nothing.
        assert forall|v: F| #[trigger] fadd_req(v, z) && fsub_req(v, z) && fadd_req(z, v)
            && fadd(v, z) == v && fsub(v, z) == v && fadd(z, v) == v by {
            assert(lo <= val(v) <= hi);
            assert(val(fadd(v, z)) == val(v));
            assert(val(fsub(v, z)) == val(v));
            assert(val(fadd(z, v)) == val(v));
        }
        assert(fmul_req(one, w) && fmul(one, w) == w);
        assert(fmul_req(one, x) && fmul(one, x) == x);
        assert(fmul_req(one, y) && fmul(one, y) == y);
        assert(fmul_req(one, u) && fmul(one, u) == u);
        assert(fmul_req(z, w) && fmul(z, w) == z);
        assert(fmul_req(z, x) && fmul(z, x) == z);
        assert(fmul_req(z, y) && fmul(z, y) == z);
        assert(fmul_req(z, u) && fmul(z, u) == z);
        assert(fmul_req(w, one) && fmul(w, one) == w);
        assert(fmul_req(x, one) && fmul(x, one) == x);
        assert(fmul_req(y, one) && fmul(y, one) == y);
        assert(fmul_req(u, one) && fmul(u, one) == u);
        assert(fmul_req(w, z) && fmul(w, z) == z);
        assert(fmul_req(x, z) && fmul(x, z) == z);
        assert(fmul_req(y, z) && fmul(y, z) == z);
        assert(fmul_req(u, z) && fmul(u, z) == z);
        assert(fadd_req(z, z) && fadd(z, z) == z);
        assert(fsub_req(z, z) && fsub(z, z) == z);
        assert(fadd_req(w, z) && fadd(w, z) == w);
        assert(fsub_req(w, z) && fsub(w, z) == w);
        assert(fadd_req(x, z) && fadd(x, z) == x);
        assert(fsub_req(x, z) && fsub(x, z) == x);
        assert(fadd_req(y, z) && fadd(y, z) == y);
        assert(fsub_req(y, z) && fsub(y, z) == y);
        assert(fadd_req(u, z) && fadd(u, z) == u);
        assert(fsub_req(u, z) && fsub(u, z) == u);
        assert(fadd_req(z, w) && fadd(z, w) == w);
        assert(fadd_req(z, x) && fadd(z, x) == x);
        assert(fadd_req(z, y) && fadd(z, y) == y);
        assert(fadd_req(z, u) && fadd(z, u) == u);
    }

    /// Where `F` computes like the integers (as every signed integer type
    /// does, `lemma_signed_integers_are_integer_like`), the squared norm is
    /// multiplicative: the squared norm of `p * q` is the product of the
    /// squared norms of `p` and `q`, and that product is defined. So the
    /// product of two unit quaternions is a unit quaternion.
    pub proof fn lemma_norm_squared_multiplicative(p: Self, q: Self, val: spec_fn(F) -> int, lo: int, hi: int)
        requires
            integer_like(val, lo, hi),
            hamilton_req(p@, q@),
            norm_squared_req(p@),
            norm_squared_req(q@),
            norm_squared_req(hamilton(p@, q@)),
        ensures
            fmul_req(norm_squared_of(p@), norm_squared_of(q@)),
            norm_squared_of(hamilton(p@, q@)) == fmul(norm_squared_of(p@), norm_squared_of(q@)),
    {
        let (a, b, c, d) = (val(p@.0), val(p@.1), val(p@.2), val(p@.3));
        let (e, f, g, h) = (val(q@.0), val(q@.1), val(q@.2), val(q@.3));
        let r = hamilton(p@, q@);
        assert(val(r.0) == a * e - b * f - c * g - d * h);
        assert(val(r.1) == a * f + b * e + c * h - d * g);
        assert(val(r.2) == a * g - b * h + c * e + d * f);
        assert(val(r.3) == a * h + b * g - c * f + d * e);
        let np = norm_squared_of(p@);
        let nq = norm_squared_of(q@);
        let nr = norm_squared_of(r);
        assert(val(np) == a * a + b * b + c * c + d * d);
        assert(val(nq) == e * e + f * f + g * g + h * h);
        assert(val(nr) == val(r.0) * val(r.0) + val(r.1) * val(r.1) + val(r.2) * val(r.2) + val(r.3) * val(r.3));
        lemma_four_squares(a, b, c, d, e, f, g, h);
        assert(lo <= val(nr) <= hi);
        assert(fmul_req(np, nq));
        assert(val(fmul(np, nq)) == val(nr));
    }
}

/// The square of `p - q - r - s`, expanded.
proof fn lemma_square_of_four_mmm(p: int, q: int, r: int, s: int)
    ensures
        (p - q - r - s) * (p - q - r - s) == p * p + q * q + r * r + s * s - 2 * (p * q) - 2 * (p * r) - 2 * (p * s) + 2 * (q * r) + 2 * (q * s) + 2 * (r * s),
{
    assert((p - q - r - s) * (p - q - r - s) == p * p + q * q + r * r + s * s - 2 * (p * q) - 2 * (p * r) - 2 * (p * s) + 2 * (q * r) + 2 * (q * s) + 2 * (r * s)) by (nonlinear_arith);
}

/// The square of `p + q + r - s`, expanded.
proof fn lemma_square_of_four_ppm(p: int, q: int, r: int, s: int)
    ensures
        (p + q + r - s) * (p + q + r - s) == p * p + q * q + r * r + s * s + 2 * (p * q) + 2 * (p * r) - 2 * (p * s) + 2 * (q * r) - 2 * (q * s) - 2 * (r * s),
{
    assert((p + q + r - s) * (p + q + r - s) == p * p + q * q + r * r + s * s + 2 * (p * q) + 2 * (p * r) - 2 * (p * s) + 2 * (q * r) - 2 * (q * s) - 2 * (r * s)) by (nonlinear_arith);
}

/// The square of `p - q + r + s`, expanded.
proof fn lemma_square_of_four_mpp(p: int, q: int, r: int, s: int)
    ensures
        (p - q + r + s) * (p - q + r + s) == p * p + q * q + r * r + s * s - 2 * (p * q) + 2 * (p * r) + 2 * (p * s) - 2 * (q * r) - 2 * (q * s) + 2 * (r * s),
{
    assert((p - q + r + s) * (p - q + r + s) == p * p + q * q + r * r + s * s - 2 * (p * q) + 2 * (p * r) + 2 * (p * s) - 2 * (q * r) - 2 * (q * s) + 2 * (r * s)) by (nonlinear_arith);
}

/// The square of `p + q - r + s`, expanded.
proof fn lemma_square_of_four_pmp(p: int, q: int, r: int, s: int)
    ensures
        (p + q - r + s) * (p + q - r + s) == p * p + q * q + r * r + s * s + 2 * (p * q) - 2 * (p * r) + 2 * (p * s) - 2 * (q * r) + 2 * (q * s) - 2 * (r * s),
{
    assert((p + q - r + s) * (p + q - r + s) == p * p + q * q + r * r + s * s + 2 * (p * q) - 2 * (p * r) + 2 * (p * s) - 2 * (q * r) + 2 * (q * s) - 2 * (r * s)) by (nonlinear_arith);
}

/// The product of two sums of four terms, expanded.
proof fn lemma_product_of_sums(p: int, q: int, r: int, s: int, t: int, u: int, v: int, w: int)
    ensures
        (p + q + r + s) * (t + u + v + w) == p * t + p * u + p * v + p * w + q * t + q * u + q * v + q * w
            + r * t + r * u + r * v + r * w + s * t + s * u + s * v + s * w,
{
    let x = t + u + v + w;
    assert((p + q + r + s) * x == p * x + q * x + r * x + s * x) by (nonlinear_arith);
    assert(p * (t + u + v + w) == p * t + p * u + p * v + p * w) by (nonlinear_arith);
    assert(q * (t + u + v + w) == q * t + q * u + q * v + q * w) by (nonlinear_arith);
    assert(r * (t + u + v + w) == r * t + r * u + r * v + r * w) by (nonlinear_arith);
    assert(s * (t + u + v + w) == s * t + s * u + s * v + s * w) by (nonlinear_arith);
}

/// Euler's four-square identity: the squared norm of the Hamilton product
/// of two integer quaternions is the product of their squared norms.
pub proof fn lemma_four_squares(a: int, b: int, c: int, d: int, e: int, f: int, g: int, h: int)
    ensures
        (a * e - b * f - c * g - d * h) * (a * e - b * f - c * g - d * h)
            + (a * f + b * e + c * h - d * g) * (a * f + b * e + c * h - d * g)
            + (a * g - b * h + c * e + d * f) * (a * g - b * h + c * e + d * f)
            + (a * h + b * g - c * f + d * e) * (a * h + b * g - c * f + d * e)
            == (a * a + b * b + c * c + d * d) * (e * e + f * f + g * g + h * h),
{
    lemma_square_of_four_mmm(a * e, b * f, c * g, d * h);
    lemma_square_of_four_ppm(a * f, b * e, c * h, d * g);
    lemma_square_of_four_mpp(a * g, b * h, c * e, d * f);
    lemma_square_of_four_pmp(a * h, b * g, c * f, d * e);
    lemma_product_of_sums(a * a, b * b, c * c, d * d, e * e, f * f, g * g, h * h);
    assert((a * e) * (b * f) == (a * f) * (b * e)) by (nonlinear_arith);
    assert((a * e) * (c * g) == (a * g) * (c * e)) by (nonlinear_arith);
    assert((a * e) * (d * h) == (a * h) * (d * e)) by (nonlinear_arith);
    assert((b * f) * (c * g) == (b * g) * (c * f)) by (nonlinear_arith);
    assert((b * f) * (d * h) == (b * h) * (d * f)) by (nonlinear_arith);
    assert((c * g) * (d * h) == (c * h) * (d * g)) by (nonlinear_arith);
    assert((a * f) * (c * h) == (a * h) * (c * f)) by (nonlinear_arith);
    assert((a * f) * (d * g) == (a * g) * (d * f)) by (nonlinear_arith);
    assert((b * e) * (c * h) == (b * h) * (c * e)) by (nonlinear_arith);
    assert((b * e) * (d * g) == (b * g) * (d * e)) by (nonlinear_arith);
    assert((a * g) * (b * h) == (a * h) * (b * g)) by (nonlinear_arith);
    assert((c * e) * (d * f) == (c * f) * (d * e)) by (nonlinear_arith);
    assert((a * e) * (a * e) == (a * a) * (e * e)) by (nonlinear_arith);
    assert((a * f) * (a * f) == (a * a) * (f * f)) by (nonlinear_arith);
    assert((a * g) * (a * g) == (a * a) * (g * g)) by (nonlinear_arith);
    assert((a * h) * (a * h) == (a * a) * (h * h)) by (nonlinear_arith);
    assert((b * e) * (b * e) == (b * b) * (e * e)) by (nonlinear_arith);
    assert((b * f) * (b * f) == (b * b) * (f * f)) by (nonlinear_arith);
    assert((b * g) * (b * g) == (b * b) * (g * g)) by (nonlinear_arith);
    assert((b * h) * (b * h) == (b * b) * (h * h)) by (nonlinear_arith);
    assert((c * e) * (c * e) == (c * c) * (e * e)) by (nonlinear_arith);
    assert((c * f) * (c * f) == (c * c) * (f * f)) by (nonlinear_arith);
    assert((c * g) * (c * g) == (c * c) * (g * g)) by (nonlinear_arith);
    assert((c * h) * (c * h) == (c * c) * (h * h)) by (nonlinear_arith);
    assert((d * e) * (d * e) == (d * d) * (e * e)) by (nonlinear_arith);
    assert((d * f) * (d * f) == (d * d) * (f * f)) by (nonlinear_arith);
    assert((d * g) * (d * g) == (d * d) * (g * g)) by (nonlinear_arith);
    assert((d * h) * (d * h) == (d * d) * (h * h)) by (nonlinear_arith);
}

} // verus!
