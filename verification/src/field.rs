//! Defines a Field, and the vocabulary its specifications are written in
//!
//! `Field` bundles the arithmetic operators and the two identities. The
//! spec functions below name what each operator computes on `F` and when it
//! is defined, as the operator traits' own specifications state it; for the
//! primitive integer types an operation is defined when its exact result fits
//! in the type, and then it computes that exact result.

use core::ops::{Add, Div, Mul, Neg, Sub};
use vstd::prelude::*;

use vstd::std_specs::cmp::PartialEqSpec;

use crate::identity::{One, Zero};

verus! {

/// A field
pub trait Field:
    Sized
    + Copy
    + PartialEq
    + Add<Output = Self>
    + Sub<Output = Self>
    + Mul<Output = Self>
    + Div<Output = Self>
    + Neg<Output = Self>
    + Zero
    + One
{
}

impl<
    T: Sized
        + Copy
        + PartialEq
        + Add<Output = T>
        + Sub<Output = T>
        + Mul<Output = T>
        + Div<Output = T>
        + Neg<Output = T>
        + Zero
        + One,
> Field for T
{
}

/// The operators of `F` compute what their specifications say (true of
/// every primitive integer type).
pub open spec fn ops_obey<F: Field>() -> bool {
    &&& <F as vstd::std_specs::ops::AddSpec>::obeys_add_spec()
    &&& <F as vstd::std_specs::ops::SubSpec>::obeys_sub_spec()
    &&& <F as vstd::std_specs::ops::MulSpec>::obeys_mul_spec()
    &&& <F as vstd::std_specs::ops::DivSpec>::obeys_div_spec()
    &&& <F as vstd::std_specs::ops::NegSpec>::obeys_neg_spec()
}

/// Negation on `F` computes what its specification says.
pub open spec fn neg_obeys<F: Field>() -> bool {
    <F as vstd::std_specs::ops::NegSpec>::obeys_neg_spec()
}

/// `==` on `F` computes what its specification says.
pub open spec fn eq_obeys<F: Field>() -> bool {
    F::obeys_eq_spec()
}

/// What `a == b` computes.
pub open spec fn feq<F: Field>(a: F, b: F) -> bool {
    a.eq_spec(&b)
}

/// What `a + b` computes.
pub open spec fn fadd<F: Field>(a: F, b: F) -> F {
    <F as vstd::std_specs::ops::AddSpec>::add_spec(a, b)
}

/// `a + b` is defined (for integers: it does not overflow).
pub open spec fn fadd_req<F: Field>(a: F, b: F) -> bool {
    <F as vstd::std_specs::ops::AddSpec>::add_req(a, b)
}

/// What `a - b` computes.
pub open spec fn fsub<F: Field>(a: F, b: F) -> F {
    <F as vstd::std_specs::ops::SubSpec>::sub_spec(a, b)
}

/// `a - b` is defined.
pub open spec fn fsub_req<F: Field>(a: F, b: F) -> bool {
    <F as vstd::std_specs::ops::SubSpec>::sub_req(a, b)
}

/// What `a * b` computes.
pub open spec fn fmul<F: Field>(a: F, b: F) -> F {
    <F as vstd::std_specs::ops::MulSpec>::mul_spec(a, b)
}

/// `a * b` is defined.
pub open spec fn fmul_req<F: Field>(a: F, b: F) -> bool {
    <F as vstd::std_specs::ops::MulSpec>::mul_req(a, b)
}

/// What `a / b` computes.
pub open spec fn fdiv<F: Field>(a: F, b: F) -> F {
    <F as vstd::std_specs::ops::DivSpec>::div_spec(a, b)
}

/// `a / b` is defined (for integers: `b` is not zero and the quotient fits).
pub open spec fn fdiv_req<F: Field>(a: F, b: F) -> bool {
    <F as vstd::std_specs::ops::DivSpec>::div_req(a, b)
}

/// What `-a` computes.
pub open spec fn fneg<F: Field>(a: F) -> F {
    <F as vstd::std_specs::ops::NegSpec>::neg_spec(a)
}

/// `-a` is defined.
pub open spec fn fneg_req<F: Field>(a: F) -> bool {
    <F as vstd::std_specs::ops::NegSpec>::neg_req(a)
}

/// The sum of `s` as a left fold from zero: `((0 + s[0]) + s[1]) + ...`
pub open spec fn fsum<F: Field>(s: Seq<F>) -> F
    decreases s.len(),
{
    if s.len() == 0 {
        F::spec_zero()
    } else {
        fadd(fsum(s.drop_last()), s.last())
    }
}

/// Every addition in the fold `fsum(s)` is defined.
pub open spec fn fsum_req<F: Field>(s: Seq<F>) -> bool {
    forall|k: int| 0 <= k < s.len() ==> fadd_req(#[trigger] fsum(s.take(k)), s[k])
}

/// The elementwise products of `a` and `b`.
pub open spec fn products<F: Field>(a: Seq<F>, b: Seq<F>) -> Seq<F> {
    Seq::new(a.len(), |i: int| fmul(a[i], b[i]))
}

/// The dot product of `a` and `b`: the sum of their elementwise products.
pub open spec fn dot_spec<F: Field>(a: Seq<F>, b: Seq<F>) -> F {
    fsum(products(a, b))
}

/// Every operation in `dot_spec(a, b)` is defined.
pub open spec fn dot_req<F: Field>(a: Seq<F>, b: Seq<F>) -> bool {
    &&& forall|i: int| 0 <= i < a.len() ==> fmul_req(#[trigger] a[i], b[i])
    &&& fsum_req(products(a, b))
}

/// One step of the fold: the sum of the first `k + 1` elements adds `s[k]`
/// to the sum of the first `k`.
pub proof fn lemma_fsum_take_step<F: Field>(s: Seq<F>, k: int)
    requires
        0 <= k < s.len(),
    ensures
        fsum(s.take(k + 1)) == fadd(fsum(s.take(k)), s[k]),
{
    assert(s.take(k + 1).drop_last() =~= s.take(k));
}


/// `a + b`, as a function value.
pub(crate) fn add_elem<F: Field>(a: F, b: F) -> (c: F)
    requires
        fadd_req(a, b),
    ensures
        ops_obey::<F>() ==> c == fadd(a, b),
{
    a.add(b)
}


/// `a - b`, as a function value.
pub(crate) fn sub_elem<F: Field>(a: F, b: F) -> (c: F)
    requires
        fsub_req(a, b),
    ensures
        ops_obey::<F>() ==> c == fsub(a, b),
{
    a.sub(b)
}

/// `F` computes like the integers from `lo` to `hi`, read through `val`:
/// every value of `F` reads as an integer in that range, and distinct values
/// read differently; zero and one read as 0 and 1; and `+`, `-`, `*` and
/// unary `-` are defined exactly when the integer result lies in the range,
/// and then compute it.
pub open spec fn integer_like<F: Field>(val: spec_fn(F) -> int, lo: int, hi: int) -> bool {
    &&& forall|a: F| lo <= #[trigger] val(a) <= hi
    &&& forall|a: F, b: F| #[trigger] val(a) == #[trigger] val(b) ==> a == b
    &&& val(F::spec_zero()) == 0
    &&& val(F::spec_one()) == 1
    &&& forall|a: F, b: F| #[trigger] fadd_req(a, b) <==> lo <= val(a) + val(b) <= hi
    &&& forall|a: F, b: F| fadd_req(a, b) ==> #[trigger] val(fadd(a, b)) == val(a) + val(b)
    &&& forall|a: F, b: F| #[trigger] fsub_req(a, b) <==> lo <= val(a) - val(b) <= hi
    &&& forall|a: F, b: F| fsub_req(a, b) ==> #[trigger] val(fsub(a, b)) == val(a) - val(b)
    &&& forall|a: F, b: F| #[trigger] fmul_req(a, b) <==> lo <= val(a) * val(b) <= hi
    &&& forall|a: F, b: F| fmul_req(a, b) ==> #[trigger] val(fmul(a, b)) == val(a) * val(b)
    &&& forall|a: F| #[trigger] fneg_req(a) <==> lo <= -val(a) <= hi
    &&& forall|a: F| fneg_req(a) ==> #[trigger] val(fneg(a)) == -val(a)
}

/// Every signed primitive integer type computes like the integers between
/// its `MIN` and `MAX`.
pub proof fn lemma_signed_integers_are_integer_like()
    ensures
        integer_like::<i8>(|x: i8| x as int, i8::MIN as int, i8::MAX as int),
        integer_like::<i16>(|x: i16| x as int, i16::MIN as int, i16::MAX as int),
        integer_like::<i32>(|x: i32| x as int, i32::MIN as int, i32::MAX as int),
        integer_like::<i64>(|x: i64| x as int, i64::MIN as int, i64::MAX as int),
        integer_like::<i128>(|x: i128| x as int, i128::MIN as int, i128::MAX as int),
        integer_like::<isize>(|x: isize| x as int, isize::MIN as int, isize::MAX as int),
{
}

/// The integer sum of `s` read through `val`.
pub open spec fn val_sum<F>(val: spec_fn(F) -> int, s: Seq<F>) -> int
    decreases s.len(),
{
    if s.len() == 0 {
        0
    } else {
        val_sum(val, s.drop_last()) + val(s.last())
    }
}

/// Where `F` computes like the integers, a sum whose additions are all
/// defined reads as the integer sum of its terms.
pub proof fn lemma_val_fsum<F: Field>(s: Seq<F>, val: spec_fn(F) -> int, lo: int, hi: int)
    requires
        integer_like(val, lo, hi),
        fsum_req(s),
    ensures
        val(fsum(s)) == val_sum(val, s),
    decreases s.len(),
{
    if s.len() > 0 {
        let t = s.drop_last();
        assert forall|k: int| 0 <= k < t.len() implies fadd_req(#[trigger] fsum(t.take(k)), t[k]) by {
            assert(t.take(k) =~= s.take(k));
            assert(fadd_req(fsum(s.take(k)), s[k]));
        }
        lemma_val_fsum(t, val, lo, hi);
        assert(s.take(s.len() - 1) =~= t);
        assert(fadd_req(fsum(s.take(s.len() - 1)), s[s.len() - 1]));
    }
}

/// Where `F` computes like the integers, the prefix sums of a sequence whose
/// terms are all zero but the one at `j` are zero up to `j`, and that term
/// from there on.
proof fn lemma_fsum_single_prefix<F: Field>(
    s: Seq<F>,
    j: int,
    k: int,
    val: spec_fn(F) -> int,
    lo: int,
    hi: int,
)
    requires
        integer_like(val, lo, hi),
        0 <= j < s.len(),
        0 <= k <= s.len(),
        forall|l: int| 0 <= l < s.len() && l != j ==> #[trigger] s[l] == F::spec_zero(),
    ensures
        fsum(s.take(k)) == (if k > j { s[j] } else { F::spec_zero() }),
    decreases k,
{
    if k == 0 {
        assert(s.take(0) =~= Seq::<F>::empty());
    } else {
        lemma_fsum_single_prefix(s, j, k - 1, val, lo, hi);
        lemma_fsum_take_step(s, k - 1);
        let prev = fsum(s.take(k - 1));
        let t = s[k - 1];
        let expected = if k > j { s[j] } else { F::spec_zero() };
        assert(lo <= val(prev) <= hi);
        assert(lo <= val(t) <= hi);
        assert(fadd_req(prev, t));
        assert(val(fadd(prev, t)) == val(expected));
    }
}

/// Where `F` computes like the integers, a sum whose terms are all zero but
/// the one at `j` is that term, and every addition in it is defined.
pub proof fn lemma_fsum_single<F: Field>(s: Seq<F>, j: int, val: spec_fn(F) -> int, lo: int, hi: int)
    requires
        integer_like(val, lo, hi),
        0 <= j < s.len(),
        forall|l: int| 0 <= l < s.len() && l != j ==> #[trigger] s[l] == F::spec_zero(),
    ensures
        fsum_req(s),
        fsum(s) == s[j],
{
    assert forall|k: int| 0 <= k < s.len() implies fadd_req(#[trigger] fsum(s.take(k)), s[k]) by {
        lemma_fsum_single_prefix(s, j, k, val, lo, hi);
        let prev = fsum(s.take(k));
        assert(lo <= val(prev) <= hi);
        assert(lo <= val(s[k]) <= hi);
    }
    lemma_fsum_single_prefix(s, j, s.len() as int, val, lo, hi);
    assert(s.take(s.len() as int) =~= s);
}

/// Where `F` computes like the integers, the dot product of `a` with the
/// unit vector `e` along `j`, in either order, is defined and is `a[j]`.
pub proof fn lemma_dot_unit<F: Field>(a: Seq<F>, e: Seq<F>, j: int, val: spec_fn(F) -> int, lo: int, hi: int)
    requires
        integer_like(val, lo, hi),
        a.len() == e.len(),
        0 <= j < a.len(),
        forall|k: int| 0 <= k < e.len() ==> #[trigger] e[k] == if k == j { F::spec_one() } else { F::spec_zero() },
    ensures
        dot_req(a, e),
        dot_spec(a, e) == a[j],
        dot_req(e, a),
        dot_spec(e, a) == a[j],
{
    assert forall|k: int| 0 <= k < a.len() implies fmul_req(#[trigger] a[k], e[k]) && fmul_req(e[k], a[k])
        && fmul(a[k], e[k]) == (if k == j { a[k] } else { F::spec_zero() })
        && fmul(e[k], a[k]) == (if k == j { a[k] } else { F::spec_zero() }) by {
        assert(lo <= val(a[k]) <= hi);
        assert(val(e[k]) == if k == j { 1int } else { 0int });
        assert(val(fmul(a[k], e[k])) == val(if k == j { a[k] } else { F::spec_zero() }));
        assert(val(fmul(e[k], a[k])) == val(if k == j { a[k] } else { F::spec_zero() }));
    }
    let p = products(a, e);
    let q = products(e, a);
    assert forall|l: int| 0 <= l < p.len() && l != j implies #[trigger] p[l] == F::spec_zero() by {
        assert(fmul(a[l], e[l]) == F::spec_zero());
    }
    assert forall|l: int| 0 <= l < q.len() && l != j implies #[trigger] q[l] == F::spec_zero() by {
        assert(fmul(e[l], a[l]) == F::spec_zero());
    }
    lemma_fsum_single(p, j, val, lo, hi);
    lemma_fsum_single(q, j, val, lo, hi);
}

/// The sum folds each element in, last to last: the sum of no elements is
/// zero, and appending `x` adds `x` to the sum.
pub proof fn lemma_fsum_push<F: Field>(s: Seq<F>, x: F)
    ensures
        fsum(Seq::<F>::empty()) == F::spec_zero(),
        fsum(s.push(x)) == fadd(fsum(s), x),
{
    assert(s.push(x).drop_last() =~= s);
}

/// The dot product takes in every component: that of two empty sequences is
/// zero, and appending `x` to one and `y` to the other adds `x * y`.
pub proof fn lemma_dot_push<F: Field>(a: Seq<F>, b: Seq<F>, x: F, y: F)
    requires
        a.len() == b.len(),
    ensures
        dot_spec(Seq::<F>::empty(), Seq::<F>::empty()) == F::spec_zero(),
        dot_spec(a.push(x), b.push(y)) == fadd(dot_spec(a, b), fmul(x, y)),
        dot_req(a.push(x), b.push(y)) <==> dot_req(a, b) && fmul_req(x, y) && fadd_req(
            dot_spec(a, b),
            fmul(x, y),
        ),
{
    let p = products(a, b);
    let q = products(a.push(x), b.push(y));
    assert(q =~= p.push(fmul(x, y)));
    assert(products(Seq::<F>::empty(), Seq::<F>::empty()) =~= Seq::<F>::empty());
    lemma_fsum_push(p, fmul(x, y));
    assert forall|k: int| 0 <= k < p.len() implies #[trigger] q.take(k) == p.take(k) by {
        assert(q.take(k) =~= p.take(k));
    }
    assert(q.take(p.len() as int) =~= p);
    if dot_req(a.push(x), b.push(y)) {
        assert forall|i: int| 0 <= i < a.len() implies fmul_req(#[trigger] a[i], b[i]) by {
            assert(fmul_req(a.push(x)[i], b.push(y)[i]));
        }
        assert forall|k: int| 0 <= k < p.len() implies fadd_req(#[trigger] fsum(p.take(k)), p[k]) by {
            assert(fadd_req(fsum(q.take(k)), q[k]));
        }
        assert(fmul_req(a.push(x)[a.len() as int], b.push(y)[a.len() as int]));
        assert(fadd_req(fsum(q.take(p.len() as int)), q[p.len() as int]));
    }
    if dot_req(a, b) && fmul_req(x, y) && fadd_req(dot_spec(a, b), fmul(x, y)) {
        assert forall|i: int| 0 <= i < a.push(x).len() implies fmul_req(#[trigger] a.push(x)[i], b.push(y)[i]) by {
            if i < a.len() {
                assert(fmul_req(a[i], b[i]));
            }
        }
        assert forall|k: int| 0 <= k < q.len() implies fadd_req(#[trigger] fsum(q.take(k)), q[k]) by {
            if k < p.len() {
                assert(fadd_req(fsum(p.take(k)), p[k]));
            }
        }
    }
}

} // verus!
