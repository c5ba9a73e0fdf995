//! Defines a Vector

use core::ops::{Add, Div, Index, Mul, Neg, Sub};
use vstd::arithmetic::mul::lemma_mul_is_commutative;
use vstd::prelude::*;

use crate::array::zip_map;
use crate::field::{
    integer_like, lemma_val_fsum, val_sum,
    Field, add_elem, dot_req, dot_spec, fadd, fadd_req, fdiv, fdiv_req, fmul, fmul_req, fneg,
    fneg_req, fsub, fsub_req, fsum, lemma_fsum_take_step, ops_obey, products, sub_elem,
};
use crate::matrix::Matrix;
use crate::order::MinMax;
use crate::reals::{Acos, Round, Sqrt};

verus! {

/// A vector with `N` components.
#[derive(Debug, Clone, Copy, PartialEq)]
pub struct Vector<F, const N: usize>
where
    F: Field,
{
    data: [F; N],
}

/// A 2-component vector
pub type Vec2<F> = Vector<F, 2>;

/// A 3-component vector
pub type Vec3<F> = Vector<F, 3>;

/// A 4-component vector
pub type Vec4<F> = Vector<F, 4>;

impl<F, const N: usize> View for Vector<F, N> where F: Field {
    type V = Seq<F>;

    /// The components, in order.
    closed spec fn view(&self) -> Seq<F> {
        self.data@
    }
}

/// The componentwise differences `a - b`.
pub open spec fn differences<F: Field>(a: Seq<F>, b: Seq<F>) -> Seq<F> {
    Seq::new(a.len(), |i: int| fsub(a[i], b[i]))
}

/// Every componentwise difference `a - b` is defined.
pub open spec fn differences_req<F: Field>(a: Seq<F>, b: Seq<F>) -> bool {
    forall|i: int| 0 <= i < a.len() ==> fsub_req(#[trigger] a[i], b[i])
}

/// The length of `a` as the square root of its dot product with itself.
pub open spec fn length_of<F: Field + Sqrt>(a: Seq<F>) -> F {
    dot_spec(a, a).spec_sqrt()
}

impl<F, const N: usize> Vector<F, N>
where
    F: Field,
{
    /// The vector whose components are `s` (which has length `N`).
    pub closed spec fn from_view(s: Seq<F>) -> Self {
        choose|v: Self| v@ == s
    }

    /// A vector has `N` components, and is determined by them.
    pub proof fn lemma_view(self, other: Self)
        ensures
            self@.len() == N,
            self@ == other@ ==> self == other,
    {
        if self@ == other@ {
            assert(self.data =~= other.data);
        }
    }

    /// `from_view` gives back any vector from its components.
    pub proof fn lemma_from_view(self)
        ensures
            Self::from_view(self@) == self,
    {
        let v = Self::from_view(self@);
        v.lemma_view(self);
    }

    /// Create a new vector from its components
    pub fn new(data: [F; N]) -> (r: Self)
        ensures
            r@ == data@,
    {
        Self { data }
    }

    /// Returns the zero vector
    pub fn zero() -> (r: Self)
        ensures
            r@ == Seq::new(N as nat, |i: int| F::spec_zero()),
    {
        let r = Self { data: [F::zero(); N] };
        assert(r@ =~= Seq::new(N as nat, |i: int| F::spec_zero()));
        r
    }

    /// Returns this vector as a 1xN row matrix, so it can be multiplied
    /// against a matrix on the left (`vector.to_row_matrix() * matrix`).
    pub fn to_row_matrix(&self) -> (r: Matrix<F, 1, N>)
        ensures
            r@ == seq![self@],
    {
        let r = Matrix::new([self.data]);
        assert(r@ =~~= seq![self@]);
        r
    }

    /// Returns the negation of the vector. It negates each component of
    /// the vector so it faces in the opposite direction.
    pub fn negate(&self) -> (r: Self)
        requires
            forall|i: int| 0 <= i < N ==> fneg_req(#[trigger] self@[i]),
        ensures
            ops_obey::<F>() ==> r@ == Seq::new(N as nat, |i: int| fneg(self@[i])),
    {
        let mut data = self.data;
        let mut i: usize = 0;
        while i < N
            invariant
                0 <= i <= N,
                forall|k: int| 0 <= k < N ==> fneg_req(#[trigger] self@[k]),
                forall|k: int| 0 <= k < i ==> ops_obey::<F>() ==> data@[k] == fneg(#[trigger] self@[k]),
            decreases N - i,
        {
            let x = self.data[i];
            assert(fneg_req(self@[i as int]));
            data[i] = x.neg();
            i = i + 1;
        }
        let r = Self { data };
        assert(ops_obey::<F>() ==> r@ =~= Seq::new(N as nat, |i: int| fneg(self@[i])));
        r
    }

    /// Returns the dot product of two vectors
    pub fn dot(&self, rhs: Self) -> (r: F)
        requires
            ops_obey::<F>(),
            dot_req(self@, rhs@),
        ensures
            r == dot_spec(self@, rhs@),
    {
        let ghost p = products(self@, rhs@);
        let mut acc = F::zero();
        let mut i: usize = 0;
        assert(p.take(0) =~= Seq::<F>::empty());
        while i < N
            invariant
                0 <= i <= N,
                ops_obey::<F>(),
                dot_req(self@, rhs@),
                p == products(self@, rhs@),
                p.len() == N,
                acc == fsum(p.take(i as int)),
            decreases N - i,
        {
            proof {
                lemma_fsum_take_step(p, i as int);
            }
            assert(fmul_req(self@[i as int], rhs@[i as int]));
            let x = self.data[i].mul(rhs.data[i]);
            assert(fadd_req(fsum(p.take(i as int)), p[i as int]));
            acc = acc.add(x);
            i = i + 1;
        }
        assert(p.take(N as int) =~= p);
        acc
    }

    /// Computes the length of the vector as the square root of its inner
    /// product with itself, as it's defined for any inner product space
    pub fn length(&self) -> (r: F)
        where
            F: Sqrt,
        requires
            ops_obey::<F>(),
            dot_req(self@, self@),
        ensures
            r == length_of(self@),
            r == dot_spec(self@, self@).spec_sqrt(),
    {
        self.dot(*self).sqrt()
    }

    /// Returns a unit vector (length 1) pointing in the same direction
    pub fn unit(&self) -> (r: Self)
        where
            F: Mul<Self, Output = Self> + Sqrt,
        requires
            ops_obey::<F>(),
            dot_req(self@, self@),
            fdiv_req(F::spec_one(), length_of(self@)),
            <F as vstd::std_specs::ops::MulSpec<Self>>::mul_req(
                fdiv(F::spec_one(), length_of(self@)),
                *self,
            ),
        ensures
            <F as vstd::std_specs::ops::MulSpec<Self>>::obeys_mul_spec() ==> r == <F as vstd::std_specs::ops::MulSpec<Self>>::mul_spec(
                fdiv(F::spec_one(), length_of(self@)),
                *self,
            ),
            <F as vstd::std_specs::ops::MulSpec<Self>>::obeys_mul_spec() ==> r == <F as vstd::std_specs::ops::MulSpec<Self>>::mul_spec(
                fdiv(F::spec_one(), dot_spec(self@, self@).spec_sqrt()),
                *self,
            ),
    {
        let len = self.length();
        let s = F::one().div(len);
        s.mul(*self)
    }

    /// Returns the distance between two vectors
    pub fn distance(&self, other: Self) -> (r: F)
        where
            F: Sqrt,
        requires
            ops_obey::<F>(),
            differences_req(self@, other@),
            dot_req(differences(self@, other@), differences(self@, other@)),
        ensures
            r == length_of(differences(self@, other@)),
            r == dot_spec(
                Seq::new(N as nat, |i: int| fsub(self@[i], other@[i])),
                Seq::new(N as nat, |i: int| fsub(self@[i], other@[i])),
            ).spec_sqrt(),
    {
        let d = self.sub(other);
        assert(d@ =~= differences(self@, other@));
        assert(d@ =~= Seq::new(N as nat, |i: int| fsub(self@[i], other@[i])));
        d.length()
    }

    /// Linearly interpolates between two vectors
    pub fn lerp(&self, other: Self, t: F) -> (r: Self)
        requires
            ops_obey::<F>(),
            forall|i: int|
                0 <= i < N ==> {
                    &&& fsub_req(#[trigger] other@[i], self@[i])
                    &&& fmul_req(t, fsub(other@[i], self@[i]))
                    &&& fadd_req(self@[i], fmul(t, fsub(other@[i], self@[i])))
                },
        ensures
            r@ == Seq::new(N as nat, |i: int| fadd(self@[i], fmul(t, fsub(other@[i], self@[i])))),
    {
        let d = other.sub(*self);
        let s = d.mul(t);
        let r = self.add(s);
        assert(r@ =~= Seq::new(N as nat, |i: int| fadd(self@[i], fmul(t, fsub(other@[i], self@[i])))));
        r
    }

    /// Projects this vector onto `other`
    pub fn project(&self, other: Self) -> (r: Self)
        where
            F: Mul<Self, Output = Self>,
        requires
            ops_obey::<F>(),
            dot_req(self@, other@),
            dot_req(other@, other@),
            fdiv_req(dot_spec(self@, other@), dot_spec(other@, other@)),
            <F as vstd::std_specs::ops::MulSpec<Self>>::mul_req(
                fdiv(dot_spec(self@, other@), dot_spec(other@, other@)),
                other,
            ),
        ensures
            <F as vstd::std_specs::ops::MulSpec<Self>>::obeys_mul_spec() ==> r == <F as vstd::std_specs::ops::MulSpec<Self>>::mul_spec(
                fdiv(dot_spec(self@, other@), dot_spec(other@, other@)),
                other,
            ),
    {
        let a = self.dot(other);
        let b = other.dot(other);
        let s = a.div(b);
        s.mul(other)
    }

    /// Computes the angle between a vector and another vector
    ///
    /// Uses inverse cosine so can be expensive
    pub fn angle(&self, other: Self) -> (r: F)
        where
            F: Sqrt + Acos,
        requires
            ops_obey::<F>(),
            dot_req(self@, other@),
            dot_req(self@, self@),
            dot_req(other@, other@),
            fmul_req(length_of(self@), length_of(other@)),
            fdiv_req(dot_spec(self@, other@), fmul(length_of(self@), length_of(other@))),
        ensures
            r == fdiv(dot_spec(self@, other@), fmul(length_of(self@), length_of(other@))).spec_acos(),
            r == fdiv(
                dot_spec(self@, other@),
                fmul(dot_spec(self@, self@).spec_sqrt(), dot_spec(other@, other@).spec_sqrt()),
            ).spec_acos(),
    {
        let d = self.dot(other);
        let a = self.length();
        let b = other.length();
        let l = a.mul(b);
        d.div(l).acos()
    }

    /// Computes a new vector by taking the component-wise minimum
    /// of this vector and another vector
    pub fn min(&self, other: Self) -> (r: Self)
        where
            F: MinMax,
        ensures
            r@ == Seq::new(N as nat, |i: int| self@[i].spec_min(other@[i])),
    {
        let mut data = self.data;
        let mut i: usize = 0;
        while i < N
            invariant
                0 <= i <= N,
                forall|k: int| 0 <= k < i ==> data@[k] == (#[trigger] self@[k]).spec_min(other@[k]),
            decreases N - i,
        {
            data[i] = self.data[i].min(other.data[i]);
            i = i + 1;
        }
        let r = Self { data };
        assert(r@ =~= Seq::new(N as nat, |i: int| self@[i].spec_min(other@[i])));
        r
    }

    /// Computes a new vector by taking the component-wise maximum
    /// of this vector and another vector
    pub fn max(&self, other: Self) -> (r: Self)
        where
            F: MinMax,
        ensures
            r@ == Seq::new(N as nat, |i: int| self@[i].spec_max(other@[i])),
    {
        let mut data = self.data;
        let mut i: usize = 0;
        while i < N
            invariant
                0 <= i <= N,
                forall|k: int| 0 <= k < i ==> data@[k] == (#[trigger] self@[k]).spec_max(other@[k]),
            decreases N - i,
        {
            data[i] = self.data[i].max(other.data[i]);
            i = i + 1;
        }
        let r = Self { data };
        assert(r@ =~= Seq::new(N as nat, |i: int| self@[i].spec_max(other@[i])));
        r
    }

    /// Rounds each component down to the nearest whole number
    pub fn floor(&self) -> (r: Self)
        where
            F: Round,
        ensures
            r@ == Seq::new(N as nat, |i: int| self@[i].spec_floor()),
    {
        let mut data = self.data;
        let mut i: usize = 0;
        while i < N
            invariant
                0 <= i <= N,
                forall|k: int| 0 <= k < i ==> data@[k] == (#[trigger] self@[k]).spec_floor(),
            decreases N - i,
        {
            data[i] = self.data[i].floor();
            i = i + 1;
        }
        let r = Self { data };
        assert(r@ =~= Seq::new(N as nat, |i: int| self@[i].spec_floor()));
        r
    }

    /// Rounds each component up to the nearest whole number
    pub fn ceil(&self) -> (r: Self)
        where
            F: Round,
        ensures
            r@ == Seq::new(N as nat, |i: int| self@[i].spec_ceil()),
    {
        let mut data = self.data;
        let mut i: usize = 0;
        while i < N
            invariant
                0 <= i <= N,
                forall|k: int| 0 <= k < i ==> data@[k] == (#[trigger] self@[k]).spec_ceil(),
            decreases N - i,
        {
            data[i] = self.data[i].ceil();
            i = i + 1;
        }
        let r = Self { data };
        assert(r@ =~= Seq::new(N as nat, |i: int| self@[i].spec_ceil()));
        r
    }

    /// Rounds each component to the nearest whole number, away from zero on
    /// a tie
    pub fn round(&self) -> (r: Self)
        where
            F: Round,
        ensures
            r@ == Seq::new(N as nat, |i: int| self@[i].spec_round()),
    {
        let mut data = self.data;
        let mut i: usize = 0;
        while i < N
            invariant
                0 <= i <= N,
                forall|k: int| 0 <= k < i ==> data@[k] == (#[trigger] self@[k]).spec_round(),
            decreases N - i,
        {
            data[i] = self.data[i].round();
            i = i + 1;
        }
        let r = Self { data };
        assert(r@ =~= Seq::new(N as nat, |i: int| self@[i].spec_round()));
        r
    }
}

impl<F, const N: usize> Vector<F, N>
where
    F: Field,
{
    /// The zero vector is an additive identity: `v + Vector::zero()` is
    /// defined and is `v`, as `x + F::zero() == x` for each component.
    pub proof fn lemma_add_zero_vector(v: Self, z: Self)
        requires
            ops_obey::<F>(),
            z@ == Seq::new(N as nat, |i: int| F::spec_zero()),
        ensures
            <Self as vstd::std_specs::ops::AddSpec>::add_req(v, z),
            <Self as vstd::std_specs::ops::AddSpec>::add_spec(v, z) == v,
    {
        v.lemma_view(v);
        assert forall|i: int| 0 <= i < N implies fadd_req(#[trigger] v@[i], z@[i]) && fadd(v@[i], z@[i]) == v@[i] by {
            F::lemma_add_zero(v@[i]);
        }
        assert(Seq::new(N as nat, |i: int| fadd(v@[i], z@[i])) =~= v@);
        v.lemma_from_view();
    }
}

/// The cross product of two 3D vectors `a` and `b`.
pub open spec fn cross_of<F: Field>(a: Seq<F>, b: Seq<F>) -> Seq<F> {
    seq![
        fsub(fmul(a[1], b[2]), fmul(a[2], b[1])),
        fsub(fmul(a[2], b[0]), fmul(a[0], b[2])),
        fsub(fmul(a[0], b[1]), fmul(a[1], b[0])),
    ]
}

/// Every operation in `cross_of(a, b)` is defined.
pub open spec fn cross_req<F: Field>(a: Seq<F>, b: Seq<F>) -> bool {
    &&& fmul_req(a[1], b[2]) &&& fmul_req(a[2], b[1])
    &&& fsub_req(fmul(a[1], b[2]), fmul(a[2], b[1]))
    &&& fmul_req(a[2], b[0]) &&& fmul_req(a[0], b[2])
    &&& fsub_req(fmul(a[2], b[0]), fmul(a[0], b[2]))
    &&& fmul_req(a[0], b[1]) &&& fmul_req(a[1], b[0])
    &&& fsub_req(fmul(a[0], b[1]), fmul(a[1], b[0]))
}

impl<F> Vector<F, 3>
where
    F: Field,
{
    /// Returns the cross product of two 3D vectors
    pub fn cross(&self, rhs: &Self) -> (r: Self)
        requires
            ops_obey::<F>(),
            cross_req(self@, rhs@),
        ensures
            r@ == cross_of(self@, rhs@),
            r@ == seq![
                fsub(fmul(self@[1], rhs@[2]), fmul(self@[2], rhs@[1])),
                fsub(fmul(self@[2], rhs@[0]), fmul(self@[0], rhs@[2])),
                fsub(fmul(self@[0], rhs@[1]), fmul(self@[1], rhs@[0])),
            ],
    {
        let r = Self::new([
            self[1].mul(rhs[2]).sub(self[2].mul(rhs[1])),
            self[2].mul(rhs[0]).sub(self[0].mul(rhs[2])),
            self[0].mul(rhs[1]).sub(self[1].mul(rhs[0])),
        ]);
        assert(r@ =~= cross_of(self@, rhs@));
        r
    }
}

/// The length of `a` is the square root of the dot product of `a` with
/// itself, over all of its components.
pub proof fn lemma_length_of<F: Field + Sqrt>(a: Seq<F>)
    ensures
        length_of(a) == dot_spec(a, a).spec_sqrt(),
{
}

/// Component `i` of the differences `a - b` is `a[i] - b[i]`, and it is
/// defined for every `i` exactly when the differences are.
pub proof fn lemma_differences_entries<F: Field>(a: Seq<F>, b: Seq<F>)
    ensures
        differences(a, b).len() == a.len(),
        forall|i: int| 0 <= i < a.len() ==> #[trigger] differences(a, b)[i] == fsub(a[i], b[i]),
        differences_req(a, b) <==> forall|i: int| 0 <= i < a.len() ==> fsub_req(#[trigger] a[i], b[i]),
{
}

/// The cross product of integer vectors is orthogonal to both operands.
proof fn lemma_cross_orthogonal_ints(a0: int, a1: int, a2: int, b0: int, b1: int, b2: int)
    ensures
        (a1 * b2 - a2 * b1) * a0 + (a2 * b0 - a0 * b2) * a1 + (a0 * b1 - a1 * b0) * a2 == 0,
        (a1 * b2 - a2 * b1) * b0 + (a2 * b0 - a0 * b2) * b1 + (a0 * b1 - a1 * b0) * b2 == 0,
{
    assert((a1 * b2 - a2 * b1) * a0 + (a2 * b0 - a0 * b2) * a1 + (a0 * b1 - a1 * b0) * a2 == 0)
        by (nonlinear_arith);
    assert((a1 * b2 - a2 * b1) * b0 + (a2 * b0 - a0 * b2) * b1 + (a0 * b1 - a1 * b0) * b2 == 0)
        by (nonlinear_arith);
}

/// The sum of the three products read as integers.
proof fn lemma_dot3_val<F: Field>(u: Seq<F>, v: Seq<F>, val: spec_fn(F) -> int, lo: int, hi: int)
    requires
        integer_like(val, lo, hi),
        u.len() == 3,
        dot_req(u, v),
    ensures
        val(dot_spec(u, v)) == val(u[0]) * val(v[0]) + val(u[1]) * val(v[1]) + val(u[2]) * val(v[2]),
{
    let p = products(u, v);
    lemma_val_fsum(p, val, lo, hi);
    reveal_with_fuel(val_sum, 4);
    assert(p.drop_last().drop_last().drop_last() =~= Seq::<F>::empty());
    assert(fmul_req(u[0], v[0]));
    assert(fmul_req(u[1], v[1]));
    assert(fmul_req(u[2], v[2]));
}

impl<F> Vector<F, 3>
where
    F: Field,
{
    /// Where `F` computes like the integers (as every signed integer type
    /// does, `lemma_signed_integers_are_integer_like`), the cross product
    /// is anticommutative: each component of `a x b` is the negation of the
    /// same component of `b x a`.
    pub proof fn lemma_cross_anticommutative(a: Self, b: Self, val: spec_fn(F) -> int, lo: int, hi: int)
        requires
            integer_like(val, lo, hi),
            cross_req(a@, b@),
            cross_req(b@, a@),
        ensures
            forall|i: int| 0 <= i < 3 ==> fneg_req(#[trigger] cross_of(b@, a@)[i]) && cross_of(a@, b@)[i]
                == fneg(cross_of(b@, a@)[i]),
    {
        let c = cross_of(a@, b@);
        let d = cross_of(b@, a@);
        let (a0, a1, a2) = (val(a@[0]), val(a@[1]), val(a@[2]));
        let (b0, b1, b2) = (val(b@[0]), val(b@[1]), val(b@[2]));
        assert(val(c[0]) == a1 * b2 - a2 * b1);
        assert(val(c[1]) == a2 * b0 - a0 * b2);
        assert(val(c[2]) == a0 * b1 - a1 * b0);
        assert(val(d[0]) == b1 * a2 - b2 * a1);
        assert(val(d[1]) == b2 * a0 - b0 * a2);
        assert(val(d[2]) == b0 * a1 - b1 * a0);
        lemma_mul_is_commutative(a0, b1);
        lemma_mul_is_commutative(a0, b2);
        lemma_mul_is_commutative(a1, b0);
        lemma_mul_is_commutative(a1, b2);
        lemma_mul_is_commutative(a2, b0);
        lemma_mul_is_commutative(a2, b1);
        assert forall|i: int| 0 <= i < 3 implies fneg_req(#[trigger] d[i]) && c[i] == fneg(d[i]) by {
            assert(lo <= val(c[i]) <= hi);
            assert(fneg_req(d[i]));
            assert(val(fneg(d[i])) == val(c[i]));
        }
    }

    /// Where `F` computes like the integers, the cross product is
    /// orthogonal to both operands: its dot product with each is zero.
    pub proof fn lemma_cross_orthogonal(a: Self, b: Self, val: spec_fn(F) -> int, lo: int, hi: int)
        requires
            integer_like(val, lo, hi),
            cross_req(a@, b@),
            dot_req(cross_of(a@, b@), a@),
            dot_req(cross_of(a@, b@), b@),
        ensures
            dot_spec(cross_of(a@, b@), a@) == F::spec_zero(),
            dot_spec(cross_of(a@, b@), b@) == F::spec_zero(),
    {
        let c = cross_of(a@, b@);
        let (a0, a1, a2) = (val(a@[0]), val(a@[1]), val(a@[2]));
        let (b0, b1, b2) = (val(b@[0]), val(b@[1]), val(b@[2]));
        assert(val(c[0]) == a1 * b2 - a2 * b1);
        assert(val(c[1]) == a2 * b0 - a0 * b2);
        assert(val(c[2]) == a0 * b1 - a1 * b0);
        lemma_dot3_val(c, a@, val, lo, hi);
        lemma_dot3_val(c, b@, val, lo, hi);
        lemma_cross_orthogonal_ints(a0, a1, a2, b0, b1, b2);
        assert(val(dot_spec(c, a@)) == val(F::spec_zero()));
        assert(val(dot_spec(c, b@)) == val(F::spec_zero()));
    }
}

impl<F, const N: usize> vstd::std_specs::core::IndexSpecImpl<usize> for Vector<F, N>
where
    F: Field,
{
    open spec fn index_req(&self, index: &usize) -> bool {
        *index < N
    }
}

impl<F, const N: usize> Index<usize> for Vector<F, N>
where
    F: Field,
{
    type Output = F;

    /// Component `index`
    fn index(&self, index: usize) -> (r: &F)
        ensures
            *r == self@[index as int],
    {
        &self.data[index]
    }
}

/// Componentwise sum, when each sum is defined.
impl<F, const N: usize> vstd::std_specs::ops::AddSpecImpl for Vector<F, N>
where
    F: Field,
{
    open spec fn obeys_add_spec() -> bool {
        ops_obey::<F>()
    }

    open spec fn add_req(self, rhs: Self) -> bool {
        forall|i: int| 0 <= i < N ==> fadd_req(#[trigger] self@[i], rhs@[i])
    }

    open spec fn add_spec(self, rhs: Self) -> Self {
        Self::from_view(Seq::new(N as nat, |i: int| fadd(self@[i], rhs@[i])))
    }
}

impl<F, const N: usize> Add for Vector<F, N>
where
    F: Field,
{
    type Output = Self;

    fn add(self, rhs: Self) -> (r: Self)
        ensures
            ops_obey::<F>() ==> r@ == Seq::new(N as nat, |i: int| fadd(self@[i], rhs@[i])),
    {
        let r = Self { data: zip_map(self.data, rhs.data, add_elem) };
        proof {
            if ops_obey::<F>() {
                assert(r@ =~= Seq::new(N as nat, |i: int| fadd(self@[i], rhs@[i])));
                r.lemma_from_view();
            }
        }
        r
    }
}

/// Componentwise difference, when each difference is defined.
impl<F, const N: usize> vstd::std_specs::ops::SubSpecImpl for Vector<F, N>
where
    F: Field,
{
    open spec fn obeys_sub_spec() -> bool {
        ops_obey::<F>()
    }

    open spec fn sub_req(self, rhs: Self) -> bool {
        differences_req(self@, rhs@)
    }

    open spec fn sub_spec(self, rhs: Self) -> Self {
        Self::from_view(differences(self@, rhs@))
    }
}

impl<F, const N: usize> Sub for Vector<F, N>
where
    F: Field,
{
    type Output = Self;

    fn sub(self, rhs: Self) -> (r: Self)
        ensures
            ops_obey::<F>() ==> r@ == differences(self@, rhs@),
            r@.len() == N,
            ops_obey::<F>() ==> forall|i: int| 0 <= i < N ==> #[trigger] r@[i] == fsub(self@[i], rhs@[i]),
    {
        let r = Self { data: zip_map(self.data, rhs.data, sub_elem) };
        proof {
            if ops_obey::<F>() {
                assert(r@ =~= differences(self@, rhs@));
                r.lemma_from_view();
            }
        }
        r
    }
}

/// Scalar multiplication: each component `c` becomes `rhs * c`.
impl<F, const N: usize> vstd::std_specs::ops::MulSpecImpl<F> for Vector<F, N>
where
    F: Field,
{
    open spec fn obeys_mul_spec() -> bool {
        ops_obey::<F>()
    }

    open spec fn mul_req(self, rhs: F) -> bool {
        forall|i: int| 0 <= i < N ==> fmul_req(rhs, #[trigger] self@[i])
    }

    open spec fn mul_spec(self, rhs: F) -> Self {
        Self::from_view(Seq::new(N as nat, |i: int| fmul(rhs, self@[i])))
    }
}

impl<F, const N: usize> Mul<F> for Vector<F, N>
where
    F: Field,
{
    type Output = Self;

    fn mul(self, rhs: F) -> (r: Self)
        ensures
            ops_obey::<F>() ==> r@ == Seq::new(N as nat, |i: int| fmul(rhs, self@[i])),
    {
        let mut data = self.data;
        let mut i: usize = 0;
        while i < N
            invariant
                0 <= i <= N,
                forall|k: int| 0 <= k < N ==> fmul_req(rhs, #[trigger] self@[k]),
                forall|k: int| 0 <= k < i ==> ops_obey::<F>() ==> data@[k] == fmul(rhs, #[trigger] self@[k]),
            decreases N - i,
        {
            assert(fmul_req(rhs, self@[i as int]));
            data[i] = rhs.mul(self.data[i]);
            i = i + 1;
        }
        let r = Self { data };
        proof {
            if ops_obey::<F>() {
                assert(r@ =~= Seq::new(N as nat, |i: int| fmul(rhs, self@[i])));
                r.lemma_from_view();
            }
        }
        r
    }
}

/// Converts a vector into an Nx1 column matrix, so it can be multiplied
/// against a matrix on the right (`matrix * Matrix::from(vector)`).
impl<F, const N: usize> vstd::std_specs::convert::FromSpecImpl<Vector<F, N>> for Matrix<F, N, 1>
where
    F: Field,
{
    open spec fn obeys_from_spec() -> bool {
        true
    }

    open spec fn from_spec(v: Vector<F, N>) -> Self {
        Matrix::from_view(Seq::new(N as nat, |i: int| seq![v@[i]]))
    }
}

impl<F, const N: usize> From<Vector<F, N>> for Matrix<F, N, 1>
where
    F: Field,
{
    fn from(v: Vector<F, N>) -> (r: Self)
        ensures
            r@ == Seq::new(N as nat, |i: int| seq![v@[i]]),
    {
        let mut data = [[F::zero(); 1]; N];
        let mut i: usize = 0;
        while i < N
            invariant
                0 <= i <= N,
                forall|k: int| 0 <= k < i ==> (#[trigger] data@[k])@ == seq![v@[k]],
            decreases N - i,
        {
            data[i] = [v.data[i]];
            assert(data@[i as int]@ =~= seq![v@[i as int]]);
            i = i + 1;
        }
        let r = Matrix::new(data);
        assert(r@ =~~= Seq::new(N as nat, |i: int| seq![v@[i]]));
        proof {
            r.lemma_from_view();
        }
        r
    }
}

/// Converts a vector into its underlying `[F; N]` array of components.
impl<F, const N: usize> vstd::std_specs::convert::FromSpecImpl<Vector<F, N>> for [F; N]
where
    F: Field,
{
    open spec fn obeys_from_spec() -> bool {
        true
    }

    closed spec fn from_spec(v: Vector<F, N>) -> Self {
        v.data
    }
}

impl<F, const N: usize> From<Vector<F, N>> for [F; N]
where
    F: Field,
{
    fn from(v: Vector<F, N>) -> (r: Self)
        ensures
            r@ == v@,
    {
        v.data
    }
}

// `impl<F: Field, const N: usize> Mul<Vector<F, N>> for F` can't be written
// generically - F is an unconstrained/foreign type parameter here, so Rust's
// orphan rule rejects a blanket impl of the foreign `Mul` trait for it.
// Instead, it is implemented concretely per field type.

/// Scalar multiplication with the scalar on the left: `s * v` is `v * s`.
impl<const N: usize> vstd::std_specs::ops::MulSpecImpl<Vector<i8, N>> for i8 {
    open spec fn obeys_mul_spec() -> bool {
        true
    }

    open spec fn mul_req(self, rhs: Vector<i8, N>) -> bool {
        forall|i: int| 0 <= i < N ==> fmul_req(self, #[trigger] rhs@[i])
    }

    open spec fn mul_spec(self, rhs: Vector<i8, N>) -> Vector<i8, N> {
        Vector::from_view(Seq::new(N as nat, |i: int| fmul(self, rhs@[i])))
    }
}

impl<const N: usize> Mul<Vector<i8, N>> for i8 {
    type Output = Vector<i8, N>;

    fn mul(self, rhs: Vector<i8, N>) -> (r: Vector<i8, N>)
        ensures
            r@ == Seq::new(N as nat, |i: int| fmul(self, rhs@[i])),
    {
        rhs * self
    }
}

/// Scalar multiplication with the scalar on the left: `s * v` is `v * s`.
impl<const N: usize> vstd::std_specs::ops::MulSpecImpl<Vector<i16, N>> for i16 {
    open spec fn obeys_mul_spec() -> bool {
        true
    }

    open spec fn mul_req(self, rhs: Vector<i16, N>) -> bool {
        forall|i: int| 0 <= i < N ==> fmul_req(self, #[trigger] rhs@[i])
    }

    open spec fn mul_spec(self, rhs: Vector<i16, N>) -> Vector<i16, N> {
        Vector::from_view(Seq::new(N as nat, |i: int| fmul(self, rhs@[i])))
    }
}

impl<const N: usize> Mul<Vector<i16, N>> for i16 {
    type Output = Vector<i16, N>;

    fn mul(self, rhs: Vector<i16, N>) -> (r: Vector<i16, N>)
        ensures
            r@ == Seq::new(N as nat, |i: int| fmul(self, rhs@[i])),
    {
        rhs * self
    }
}

/// Scalar multiplication with the scalar on the left: `s * v` is `v * s`.
impl<const N: usize> vstd::std_specs::ops::MulSpecImpl<Vector<i32, N>> for i32 {
    open spec fn obeys_mul_spec() -> bool {
        true
    }

    open spec fn mul_req(self, rhs: Vector<i32, N>) -> bool {
        forall|i: int| 0 <= i < N ==> fmul_req(self, #[trigger] rhs@[i])
    }

    open spec fn mul_spec(self, rhs: Vector<i32, N>) -> Vector<i32, N> {
        Vector::from_view(Seq::new(N as nat, |i: int| fmul(self, rhs@[i])))
    }
}

impl<const N: usize> Mul<Vector<i32, N>> for i32 {
    type Output = Vector<i32, N>;

    fn mul(self, rhs: Vector<i32, N>) -> (r: Vector<i32, N>)
        ensures
            r@ == Seq::new(N as nat, |i: int| fmul(self, rhs@[i])),
    {
        rhs * self
    }
}

/// Scalar multiplication with the scalar on the left: `s * v` is `v * s`.
impl<const N: usize> vstd::std_specs::ops::MulSpecImpl<Vector<i64, N>> for i64 {
    open spec fn obeys_mul_spec() -> bool {
        true
    }

    open spec fn mul_req(self, rhs: Vector<i64, N>) -> bool {
        forall|i: int| 0 <= i < N ==> fmul_req(self, #[trigger] rhs@[i])
    }

    open spec fn mul_spec(self, rhs: Vector<i64, N>) -> Vector<i64, N> {
        Vector::from_view(Seq::new(N as nat, |i: int| fmul(self, rhs@[i])))
    }
}

impl<const N: usize> Mul<Vector<i64, N>> for i64 {
    type Output = Vector<i64, N>;

    fn mul(self, rhs: Vector<i64, N>) -> (r: Vector<i64, N>)
        ensures
            r@ == Seq::new(N as nat, |i: int| fmul(self, rhs@[i])),
    {
        rhs * self
    }
}

/// Scalar multiplication with the scalar on the left: `s * v` is `v * s`.
impl<const N: usize> vstd::std_specs::ops::MulSpecImpl<Vector<i128, N>> for i128 {
    open spec fn obeys_mul_spec() -> bool {
        true
    }

    open spec fn mul_req(self, rhs: Vector<i128, N>) -> bool {
        forall|i: int| 0 <= i < N ==> fmul_req(self, #[trigger] rhs@[i])
    }

    open spec fn mul_spec(self, rhs: Vector<i128, N>) -> Vector<i128, N> {
        Vector::from_view(Seq::new(N as nat, |i: int| fmul(self, rhs@[i])))
    }
}

impl<const N: usize> Mul<Vector<i128, N>> for i128 {
    type Output = Vector<i128, N>;

    fn mul(self, rhs: Vector<i128, N>) -> (r: Vector<i128, N>)
        ensures
            r@ == Seq::new(N as nat, |i: int| fmul(self, rhs@[i])),
    {
        rhs * self
    }
}

/// Scalar multiplication with the scalar on the left: `s * v` is `v * s`.
impl<const N: usize> vstd::std_specs::ops::MulSpecImpl<Vector<isize, N>> for isize {
    open spec fn obeys_mul_spec() -> bool {
        true
    }

    open spec fn mul_req(self, rhs: Vector<isize, N>) -> bool {
        forall|i: int| 0 <= i < N ==> fmul_req(self, #[trigger] rhs@[i])
    }

    open spec fn mul_spec(self, rhs: Vector<isize, N>) -> Vector<isize, N> {
        Vector::from_view(Seq::new(N as nat, |i: int| fmul(self, rhs@[i])))
    }
}

impl<const N: usize> Mul<Vector<isize, N>> for isize {
    type Output = Vector<isize, N>;

    fn mul(self, rhs: Vector<isize, N>) -> (r: Vector<isize, N>)
        ensures
            r@ == Seq::new(N as nat, |i: int| fmul(self, rhs@[i])),
    {
        rhs * self
    }
}

} // verus!
