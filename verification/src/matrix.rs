//! Defines a Matrix
//!
//! Storage is row-major (`data[row][column]`) and dimensions are compile-time
//! `const` generics, so the type system catches mismatched-dimension errors
//! (e.g. multiplying a 3x2 by a 4x2) instead of them surfacing as runtime
//! panics.

use core::ops::{Add, Index, Mul, Neg, Sub};
use vstd::prelude::*;

use crate::array::zip_map;
use crate::field::{
    integer_like, lemma_dot_unit,
    Field, add_elem, dot_req, dot_spec, eq_obeys, neg_obeys, fadd, fadd_req, feq, fmul, fmul_req, fneg, fneg_req, fsub, fsum, fsum_req, lemma_fsum_take_step, products,
    fsub_req, ops_obey, sub_elem,
};
use crate::reals::{Cos, Sin};
use crate::vector::Vector;

verus! {

/// An NxM matrix (N rows, M columns) over a `Field` `F`. Size must be known
/// at compile time.
#[derive(Debug, Clone, Copy, PartialEq)]
pub struct Matrix<F, const N: usize, const M: usize>
where
    F: Field,
{
    data: [[F; M]; N],
}

/// A 2x2 matrix
pub type Mat2<F> = Matrix<F, 2, 2>;

/// A 3x3 matrix
pub type Mat3<F> = Matrix<F, 3, 3>;

/// A 4x4 matrix
pub type Mat4<F> = Matrix<F, 4, 4>;

/// The entries of an `n` by `m` matrix whose entry at row `i`, column `j` is
/// `f(i, j)`.
pub open spec fn grid<F>(n: nat, m: nat, f: spec_fn(int, int) -> F) -> Seq<Seq<F>> {
    Seq::new(n, |i: int| Seq::new(m, |j: int| f(i, j)))
}

/// Column `j` of the rows `a`.
pub open spec fn column<F>(a: Seq<Seq<F>>, j: int) -> Seq<F> {
    Seq::new(a.len(), |k: int| a[k][j])
}

/// The transpose of the `n` by `m` matrix with rows `a`.
pub open spec fn transpose_of<F>(a: Seq<Seq<F>>, n: nat, m: nat) -> Seq<Seq<F>> {
    grid(m, n, |i: int, j: int| a[j][i])
}

/// The matrix product of `a` (`n` by `m`) and `b` (`m` by `p`): the entry at
/// row `i`, column `j` is the dot product of row `i` of `a` and column `j` of
/// `b`.
pub open spec fn product_of<F: Field>(a: Seq<Seq<F>>, b: Seq<Seq<F>>, n: nat, p: nat) -> Seq<Seq<F>> {
    grid(n, p, |i: int, j: int| dot_spec(a[i], column(b, j)))
}

/// Every operation in `product_of(a, b, n, p)` is defined.
pub open spec fn product_req<F: Field>(a: Seq<Seq<F>>, b: Seq<Seq<F>>, n: nat, p: nat) -> bool {
    forall|i: int, j: int| 0 <= i < n && 0 <= j < p ==> #[trigger] dot_req(a[i], column(b, j))
}

/// The `n` by `m` identity: one on the diagonal, zero elsewhere.
pub open spec fn identity_of<F: Field>(n: nat, m: nat) -> Seq<Seq<F>> {
    grid(n, m, |i: int, j: int| if i == j { F::spec_one() } else { F::spec_zero() })
}

impl<F, const N: usize, const M: usize> View for Matrix<F, N, M> where F: Field {
    type V = Seq<Seq<F>>;

    /// The rows, each as the sequence of its entries.
    closed spec fn view(&self) -> Seq<Seq<F>> {
        Seq::new(N as nat, |i: int| self.data[i]@)
    }
}

impl<F, const N: usize, const M: usize> Matrix<F, N, M>
where
    F: Field,
{
    /// The matrix whose rows are `s` (`N` rows of `M` entries each).
    pub closed spec fn from_view(s: Seq<Seq<F>>) -> Self {
        choose|m: Self| m@ == s
    }

    /// A matrix has `N` rows of `M` entries each, and is determined by them.
    pub proof fn lemma_view(self, other: Self)
        ensures
            self@.len() == N,
            forall|i: int| 0 <= i < N ==> (#[trigger] self@[i]).len() == M,
            self@ == other@ ==> self == other,
    {
        if self@ == other@ {
            assert forall|i: int| 0 <= i < N implies self.data[i] == other.data[i] by {
                assert(self@[i] == other@[i]);
                assert(self.data[i] =~= other.data[i]);
            }
            assert(self.data =~= other.data);
        }
    }

    /// `from_view` gives back any matrix from its rows.
    pub proof fn lemma_from_view(self)
        ensures
            Self::from_view(self@) == self,
    {
        let m = Self::from_view(self@);
        m.lemma_view(self);
    }

    /// Create a new matrix from its rows, e.g. `Matrix::new([[1, 2], [3,
    /// 4]])` is the matrix with first row `[1, 2]` and second row `[3, 4]`
    pub fn new(data: [[F; M]; N]) -> (r: Self)
        ensures
            r@ == grid(N as nat, M as nat, |i: int, j: int| data[i][j]),
    {
        let r = Self { data };
        assert(r@ =~~= grid(N as nat, M as nat, |i: int, j: int| data[i][j]));
        r
    }

    /// Create a new diagonal matrix from diagonal entries, with every
    /// off-diagonal entry set to zero
    pub fn diagonal(data: [F; N]) -> (r: Self)
        ensures
            r@ == grid(N as nat, M as nat, |i: int, j: int| if i == j { data[i] } else { F::spec_zero() }),
    {
        let mut out = [[F::zero(); M]; N];
        let mut i: usize = 0;
        while i < N
            invariant
                0 <= i <= N,
                forall|k: int, l: int| 0 <= k < i && 0 <= l < M ==> #[trigger] out[k][l] == (if k == l { data[k] } else { F::spec_zero() }),
            decreases N - i,
        {
            let mut row = [F::zero(); M];
            let mut j: usize = 0;
            while j < M
                invariant
                    0 <= i < N,
                    0 <= j <= M,
                    forall|l: int| 0 <= l < j ==> #[trigger] row[l] == (if i == l { data[i as int] } else { F::spec_zero() }),
                    forall|l: int| j <= l < M ==> #[trigger] row[l] == F::spec_zero(),
                decreases M - j,
            {
                if i == j {
                    row[j] = data[i];
                }
                j = j + 1;
            }
            out[i] = row;
            i = i + 1;
        }
        let r = Self { data: out };
        assert(r@ =~~= grid(N as nat, M as nat, |i: int, j: int| if i == j { data[i] } else { F::spec_zero() }));
        r
    }


    /// Constructs a matrix from an array of row vectors. Inverse of `rows`.
    pub fn from_rows(rows: [Vector<F, M>; N]) -> (r: Self)
        ensures
            r@ == Seq::new(N as nat, |i: int| rows[i]@),
    {
        let mut out = [[F::zero(); M]; N];
        let mut i: usize = 0;
        while i < N
            invariant
                0 <= i <= N,
                forall|k: int| 0 <= k < i ==> (#[trigger] out[k])@ == rows[k]@,
            decreases N - i,
        {
            let row: [F; M] = rows[i].into();
            out[i] = row;
            i = i + 1;
        }
        let r = Self { data: out };
        assert(r@ =~= Seq::new(N as nat, |i: int| rows[i]@));
        r
    }

    /// Constructs a matrix from an array of column vectors. Inverse of
    /// `columns`.
    pub fn from_columns(columns: [Vector<F, N>; M]) -> (r: Self)
        ensures
            r@ == grid(N as nat, M as nat, |i: int, j: int| columns[j]@[i]),
    {
        let mut out = [[F::zero(); M]; N];
        let mut i: usize = 0;
        while i < N
            invariant
                0 <= i <= N,
                forall|k: int, l: int| 0 <= k < i && 0 <= l < M ==> #[trigger] out[k][l] == columns[l]@[k],
            decreases N - i,
        {
            let mut row = [F::zero(); M];
            let mut j: usize = 0;
            while j < M
                invariant
                    0 <= i < N,
                    0 <= j <= M,
                    forall|l: int| 0 <= l < j ==> #[trigger] row[l] == columns[l]@[i as int],
                decreases M - j,
            {
                row[j] = columns[j][i];
                j = j + 1;
            }
            out[i] = row;
            i = i + 1;
        }
        let r = Self { data: out };
        assert(r@ =~~= grid(N as nat, M as nat, |i: int, j: int| columns[j]@[i]));
        r
    }

    /// Returns the zero matrix
    pub fn zero() -> (r: Self)
        ensures
            r@ == grid(N as nat, M as nat, |i: int, j: int| F::spec_zero()),
    {
        let r = Self { data: [[F::zero(); M]; N] };
        assert(r@ =~~= grid(N as nat, M as nat, |i: int, j: int| F::spec_zero()));
        r
    }

    /// Returns the identity matrix
    pub fn id() -> (r: Self)
        ensures
            r@ == identity_of::<F>(N as nat, M as nat),
            r@.len() == N,
            forall|i: int| 0 <= i < N ==> (#[trigger] r@[i]).len() == M,
            forall|i: int, j: int| 0 <= i < N && 0 <= j < M ==> #[trigger] r@[i][j]
                == if i == j { F::spec_one() } else { F::spec_zero() },
    {
        let mut out = [[F::zero(); M]; N];
        let mut i: usize = 0;
        while i < N
            invariant
                0 <= i <= N,
                forall|k: int, l: int| 0 <= k < i && 0 <= l < M ==> #[trigger] out[k][l] == (if k == l { F::spec_one() } else { F::spec_zero() }),
            decreases N - i,
        {
            let mut row = [F::zero(); M];
            let mut j: usize = 0;
            while j < M
                invariant
                    0 <= i < N,
                    0 <= j <= M,
                    forall|l: int| 0 <= l < j ==> #[trigger] row[l] == (if i == l { F::spec_one() } else { F::spec_zero() }),
                    forall|l: int| j <= l < M ==> #[trigger] row[l] == F::spec_zero(),
                decreases M - j,
            {
                if i == j {
                    row[j] = F::one();
                }
                j = j + 1;
            }
            out[i] = row;
            i = i + 1;
        }
        let r = Self { data: out };
        assert(r@ =~~= identity_of::<F>(N as nat, M as nat));
        r
    }

    /// Returns the transpose of the matrix
    pub fn transpose(&self) -> (r: Matrix<F, M, N>)
        ensures
            r@ == transpose_of(self@, N as nat, M as nat),
            r@.len() == M,
            forall|i: int| 0 <= i < M ==> (#[trigger] r@[i]).len() == N,
            forall|i: int, j: int| 0 <= i < M && 0 <= j < N ==> #[trigger] r@[i][j] == self@[j][i],
    {
        let mut out = [[F::zero(); N]; M];
        let mut i: usize = 0;
        while i < M
            invariant
                0 <= i <= M,
                forall|k: int, l: int| 0 <= k < i && 0 <= l < N ==> #[trigger] out[k][l] == self.data[l][k],
            decreases M - i,
        {
            let mut row = [F::zero(); N];
            let mut j: usize = 0;
            while j < N
                invariant
                    0 <= i < M,
                    0 <= j <= N,
                    forall|l: int| 0 <= l < j ==> #[trigger] row[l] == self.data[l][i as int],
                decreases N - j,
            {
                row[j] = self.data[j][i];
                j = j + 1;
            }
            out[i] = row;
            i = i + 1;
        }
        let r = Matrix::new(out);
        assert(r@ =~~= transpose_of(self@, N as nat, M as nat));
        r
    }

    /// Returns the rows of the matrix as an array of vectors. Inverse of
    /// `from_rows`.
    pub fn rows(&self) -> (r: [Vector<F, M>; N])
        ensures
            forall|i: int| 0 <= i < N ==> (#[trigger] r[i])@ == self@[i],
    {
        let mut out = [Vector::new([F::zero(); M]); N];
        let mut i: usize = 0;
        while i < N
            invariant
                0 <= i <= N,
                forall|k: int| 0 <= k < i ==> (#[trigger] out[k])@ == self@[k],
            decreases N - i,
        {
            out[i] = Vector::new(self.data[i]);
            i = i + 1;
        }
        out
    }

    /// Returns the columns of the matrix as an array of vectors. Inverse of
    /// `from_columns`.
    pub fn columns(&self) -> (r: [Vector<F, N>; M])
        ensures
            forall|j: int| 0 <= j < M ==> (#[trigger] r[j])@ == column(self@, j),
            forall|j: int, i: int| 0 <= j < M && 0 <= i < N ==> #[trigger] r[j]@[i] == self@[i][j],
    {
        let mut out = [Vector::new([F::zero(); N]); M];
        let mut j: usize = 0;
        while j < M
            invariant
                0 <= j <= M,
                forall|l: int| 0 <= l < j ==> (#[trigger] out[l])@ == column(self@, l),
            decreases M - j,
        {
            let mut col = [F::zero(); N];
            let mut i: usize = 0;
            while i < N
                invariant
                    0 <= j < M,
                    0 <= i <= N,
                    forall|k: int| 0 <= k < i ==> #[trigger] col[k] == self.data[k][j as int],
                decreases N - i,
            {
                col[i] = self.data[i][j];
                i = i + 1;
            }
            let v = Vector::new(col);
            assert(v@ =~= column(self@, j as int));
            out[j] = v;
            j = j + 1;
        }
        out
    }

    /// Sets the entry at row `i`, column `j` to `x`: what `matrix[i][j] = x`
    /// does with mutable indexing
    pub fn set(&mut self, i: usize, j: usize, x: F)
        requires
            i < N,
            j < M,
        ensures
            final(self)@ == old(self)@.update(i as int, old(self)@[i as int].update(j as int, x)),
    {
        let mut row = self.data[i];
        row[j] = x;
        self.data[i] = row;
        proof {
            old(self).lemma_view(*old(self));
        }
        assert(self@ =~~= old(self)@.update(i as int, old(self)@[i as int].update(j as int, x)));
    }

    /// Checks if the matrix is square
    pub fn is_square(&self) -> (r: bool)
        ensures
            r == (N == M),
    {
        N == M
    }

    /// Checks if the matrix is the identity matrix
    pub fn is_identity(&self) -> (r: bool)
        ensures
            eq_obeys::<F>() ==> (r <==> forall|i: int, j: int|
                0 <= i < N && 0 <= j < M ==> feq(#[trigger] self@[i][j], if i == j { F::spec_one() } else { F::spec_zero() })),
    {
        let id = Self::id();
        let mut i: usize = 0;
        while i < N
            invariant
                0 <= i <= N,
                id@ == identity_of::<F>(N as nat, M as nat),
                eq_obeys::<F>() ==> forall|k: int, l: int|
                    0 <= k < i && 0 <= l < M ==> feq(#[trigger] self@[k][l], if k == l { F::spec_one() } else { F::spec_zero() }),
            decreases N - i,
        {
            let mut j: usize = 0;
            while j < M
                invariant
                    0 <= i < N,
                    0 <= j <= M,
                    id@ == identity_of::<F>(N as nat, M as nat),
                    eq_obeys::<F>() ==> forall|k: int, l: int|
                        0 <= k < i && 0 <= l < M ==> feq(#[trigger] self@[k][l], if k == l { F::spec_one() } else { F::spec_zero() }),
                    eq_obeys::<F>() ==> forall|l: int|
                        0 <= l < j ==> feq(#[trigger] self@[i as int][l], if i == l { F::spec_one() } else { F::spec_zero() }),
                decreases M - j,
            {
                assert(id@[i as int][j as int] == id.data[i as int][j as int]);
                assert(self@[i as int][j as int] == self.data[i as int][j as int]);
                if !(self.data[i][j] == id.data[i][j]) {
                    return false;
                }
                j = j + 1;
            }
            i = i + 1;
        }
        true
    }

    /// Checks if all off-diagonal entries are zero
    pub fn is_diagonal(&self) -> (r: bool)
        ensures
            eq_obeys::<F>() ==> (r <==> forall|i: int, j: int|
                0 <= i < N && 0 <= j < M ==> i == j || feq(#[trigger] self@[i][j], F::spec_zero())),
    {
        let zero = F::zero();
        let mut i: usize = 0;
        while i < N
            invariant
                0 <= i <= N,
                zero == F::spec_zero(),
                eq_obeys::<F>() ==> forall|k: int, l: int|
                    0 <= k < i && 0 <= l < M ==> k == l || feq(#[trigger] self@[k][l], F::spec_zero()),
            decreases N - i,
        {
            let mut j: usize = 0;
            while j < M
                invariant
                    0 <= i < N,
                    0 <= j <= M,
                    zero == F::spec_zero(),
                    eq_obeys::<F>() ==> forall|k: int, l: int|
                        0 <= k < i && 0 <= l < M ==> k == l || feq(#[trigger] self@[k][l], F::spec_zero()),
                    eq_obeys::<F>() ==> forall|l: int|
                        0 <= l < j ==> i == l || feq(#[trigger] self@[i as int][l], F::spec_zero()),
                decreases M - j,
            {
                assert(self@[i as int][j as int] == self.data[i as int][j as int]);
                if !(i == j || self.data[i][j] == zero) {
                    return false;
                }
                j = j + 1;
            }
            i = i + 1;
        }
        true
    }
}

/// The entry at row `i`, column `j` of `a * b`: the dot product of row `i`
/// of `a` and column `j` of `b`.
fn product_entry<F, const N: usize, const M: usize, const P: usize>(
    a: &Matrix<F, N, M>,
    b: &Matrix<F, M, P>,
    i: usize,
    j: usize,
) -> (r: F) where F: Field
    requires
        i < N,
        j < P,
        ops_obey::<F>(),
        dot_req(a@[i as int], column(b@, j as int)),
    ensures
        r == dot_spec(a@[i as int], column(b@, j as int)),
{
    let ghost p = products(a@[i as int], column(b@, j as int));
    proof {
        a.lemma_view(*a);
        b.lemma_view(*b);
    }
    let mut acc = F::zero();
    let mut k: usize = 0;
    assert(p.take(0) =~= Seq::<F>::empty());
    while k < M
        invariant
            0 <= k <= M,
            i < N,
            j < P,
            ops_obey::<F>(),
            dot_req(a@[i as int], column(b@, j as int)),
            p == products(a@[i as int], column(b@, j as int)),
            p.len() == M,
            a@[i as int].len() == M,
            b@.len() == M,
            acc == fsum(p.take(k as int)),
        decreases M - k,
    {
        proof {
            lemma_fsum_take_step(p, k as int);
        }
        assert(a@[i as int][k as int] == a.data[i as int][k as int]);
        assert(column(b@, j as int)[k as int] == b.data[k as int][j as int]);
        assert(fmul_req(a@[i as int][k as int], column(b@, j as int)[k as int]));
        let x = a.data[i][k].mul(b.data[k][j]);
        assert(fadd_req(fsum(p.take(k as int)), p[k as int]));
        acc = acc.add(x);
        k = k + 1;
    }
    assert(p.take(M as int) =~= p);
    acc
}

impl<F, const N: usize> Matrix<F, N, N>
where
    F: Field,
{
    /// Checks if the matrix equals its own transpose
    pub fn is_symmetric(&self) -> (r: bool)
        ensures
            eq_obeys::<F>() ==> (r <==> forall|i: int, j: int|
                0 <= i < N && 0 <= j < N ==> feq(#[trigger] self@[j][i], self@[i][j])),
    {
        let t = self.transpose();
        let mut i: usize = 0;
        while i < N
            invariant
                0 <= i <= N,
                t@ == transpose_of(self@, N as nat, N as nat),
                eq_obeys::<F>() ==> forall|k: int, l: int|
                    0 <= k < i && 0 <= l < N ==> feq(#[trigger] self@[l][k], self@[k][l]),
            decreases N - i,
        {
            let mut j: usize = 0;
            while j < N
                invariant
                    0 <= i < N,
                    0 <= j <= N,
                    t@ == transpose_of(self@, N as nat, N as nat),
                    eq_obeys::<F>() ==> forall|k: int, l: int|
                        0 <= k < i && 0 <= l < N ==> feq(#[trigger] self@[l][k], self@[k][l]),
                    eq_obeys::<F>() ==> forall|l: int|
                        0 <= l < j ==> feq(#[trigger] self@[l][i as int], self@[i as int][l]),
                decreases N - j,
            {
                assert(t@[i as int][j as int] == t.data[i as int][j as int]);
                assert(self@[i as int][j as int] == self.data[i as int][j as int]);
                if !(t.data[i][j] == self.data[i][j]) {
                    return false;
                }
                j = j + 1;
            }
            i = i + 1;
        }
        true
    }

    /// Checks if the matrix's transpose is also its inverse
    /// (`self * self.transpose() == identity`)
    pub fn is_orthogonal(&self) -> (r: bool)
        requires
            ops_obey::<F>(),
            product_req(self@, transpose_of(self@, N as nat, N as nat), N as nat, N as nat),
        ensures
            eq_obeys::<F>() ==> (r <==> forall|i: int, j: int|
                0 <= i < N && 0 <= j < N ==> feq(
                    #[trigger] product_of(self@, transpose_of(self@, N as nat, N as nat), N as nat, N as nat)[i][j],
                    identity_of::<F>(N as nat, N as nat)[i][j],
                )),
    {
        let t = self.transpose();
        let p = self.mul(t);
        p.is_identity()
    }

    /// Returns the trace of the matrix (the sum of its diagonal entries)
    pub fn trace(&self) -> (r: F)
        requires
            ops_obey::<F>(),
            fsum_req(Seq::new(N as nat, |i: int| self@[i][i])),
        ensures
            r == fsum(Seq::new(N as nat, |i: int| self@[i][i])),
    {
        let ghost d = Seq::new(N as nat, |i: int| self@[i][i]);
        let mut acc = F::zero();
        let mut k: usize = 0;
        assert(d.take(0) =~= Seq::<F>::empty());
        while k < N
            invariant
                0 <= k <= N,
                ops_obey::<F>(),
                d == Seq::new(N as nat, |i: int| self@[i][i]),
                fsum_req(d),
                acc == fsum(d.take(k as int)),
            decreases N - k,
        {
            proof {
                lemma_fsum_take_step(d, k as int);
            }
            assert(d[k as int] == self.data[k as int][k as int]);
            assert(fadd_req(fsum(d.take(k as int)), d[k as int]));
            acc = acc.add(self.data[k][k]);
            k = k + 1;
        }
        assert(d.take(N as int) =~= d);
        acc
    }

    /// Constructs the matrix for a scale by `s` along each axis: a diagonal
    /// matrix with `s`'s components on the diagonal
    pub fn scale(s: Vector<F, N>) -> (r: Self)
        ensures
            r@ == grid(N as nat, N as nat, |i: int, j: int| if i == j { s@[i] } else { F::spec_zero() }),
    {
        let d: [F; N] = s.into();
        Self::diagonal(d)
    }
}

/// Indexes into a row, so `matrix[i][j]` reads the entry at row `i`, column
/// `j`
impl<F, const N: usize, const M: usize> vstd::std_specs::core::IndexSpecImpl<usize> for Matrix<F, N, M>
where
    F: Field,
{
    open spec fn index_req(&self, index: &usize) -> bool {
        *index < N
    }
}

impl<F, const N: usize, const M: usize> Index<usize> for Matrix<F, N, M>
where
    F: Field,
{
    type Output = [F; M];

    /// Row `index`
    fn index(&self, index: usize) -> (r: &[F; M])
        ensures
            r@ == self@[index as int],
    {
        &self.data[index]
    }
}

/// Elementwise matrix addition
impl<F, const N: usize, const M: usize> vstd::std_specs::ops::AddSpecImpl for Matrix<F, N, M>
where
    F: Field,
{
    open spec fn obeys_add_spec() -> bool {
        ops_obey::<F>()
    }

    open spec fn add_req(self, rhs: Self) -> bool {
        forall|i: int, j: int| 0 <= i < N && 0 <= j < M ==> fadd_req(#[trigger] self@[i][j], rhs@[i][j])
    }

    open spec fn add_spec(self, rhs: Self) -> Self {
        Self::from_view(grid(N as nat, M as nat, |i: int, j: int| fadd(self@[i][j], rhs@[i][j])))
    }
}

impl<F, const N: usize, const M: usize> Add for Matrix<F, N, M>
where
    F: Field,
{
    type Output = Matrix<F, N, M>;

    fn add(self, rhs: Self) -> (r: Self)
        ensures
            ops_obey::<F>() ==> r@ == grid(N as nat, M as nat, |i: int, j: int| fadd(self@[i][j], rhs@[i][j])),
    {
        let mut out = self.data;
        let mut i: usize = 0;
        while i < N
            invariant
                0 <= i <= N,
                forall|k: int, l: int| 0 <= k < N && 0 <= l < M ==> fadd_req(#[trigger] self@[k][l], rhs@[k][l]),
                forall|k: int, l: int| 0 <= k < i && 0 <= l < M ==> ops_obey::<F>() ==> #[trigger] out[k][l] == fadd(self@[k][l], rhs@[k][l]),
            decreases N - i,
        {
            assert forall|l: int| 0 <= l < M implies add_elem::<F>.requires((#[trigger] self.data[i as int]@[l], rhs.data[i as int]@[l])) by {
                assert(self@[i as int][l] == self.data[i as int][l]);
                assert(rhs@[i as int][l] == rhs.data[i as int][l]);
                assert(fadd_req(self@[i as int][l], rhs@[i as int][l]));
            }
            let row = zip_map(self.data[i], rhs.data[i], add_elem);
            assert forall|l: int| 0 <= l < M && ops_obey::<F>() implies #[trigger] row[l] == fadd(self@[i as int][l], rhs@[i as int][l]) by {
                assert(add_elem::<F>.ensures((self.data[i as int]@[l], rhs.data[i as int]@[l]), row@[l]));
            }
            out[i] = row;
            i = i + 1;
        }
        let r = Self { data: out };
        proof {
            if ops_obey::<F>() {
                assert(r@ =~~= grid(N as nat, M as nat, |i: int, j: int| fadd(self@[i][j], rhs@[i][j])));
                r.lemma_from_view();
            }
        }
        r
    }
}

/// Elementwise matrix subtraction
impl<F, const N: usize, const M: usize> vstd::std_specs::ops::SubSpecImpl for Matrix<F, N, M>
where
    F: Field,
{
    open spec fn obeys_sub_spec() -> bool {
        ops_obey::<F>()
    }

    open spec fn sub_req(self, rhs: Self) -> bool {
        forall|i: int, j: int| 0 <= i < N && 0 <= j < M ==> fsub_req(#[trigger] self@[i][j], rhs@[i][j])
    }

    open spec fn sub_spec(self, rhs: Self) -> Self {
        Self::from_view(grid(N as nat, M as nat, |i: int, j: int| fsub(self@[i][j], rhs@[i][j])))
    }
}

impl<F, const N: usize, const M: usize> Sub for Matrix<F, N, M>
where
    F: Field,
{
    type Output = Matrix<F, N, M>;

    fn sub(self, rhs: Self) -> (r: Self)
        ensures
            ops_obey::<F>() ==> r@ == grid(N as nat, M as nat, |i: int, j: int| fsub(self@[i][j], rhs@[i][j])),
    {
        let mut out = self.data;
        let mut i: usize = 0;
        while i < N
            invariant
                0 <= i <= N,
                forall|k: int, l: int| 0 <= k < N && 0 <= l < M ==> fsub_req(#[trigger] self@[k][l], rhs@[k][l]),
                forall|k: int, l: int| 0 <= k < i && 0 <= l < M ==> ops_obey::<F>() ==> #[trigger] out[k][l] == fsub(self@[k][l], rhs@[k][l]),
            decreases N - i,
        {
            assert forall|l: int| 0 <= l < M implies sub_elem::<F>.requires((#[trigger] self.data[i as int]@[l], rhs.data[i as int]@[l])) by {
                assert(self@[i as int][l] == self.data[i as int][l]);
                assert(rhs@[i as int][l] == rhs.data[i as int][l]);
                assert(fsub_req(self@[i as int][l], rhs@[i as int][l]));
            }
            let row = zip_map(self.data[i], rhs.data[i], sub_elem);
            assert forall|l: int| 0 <= l < M && ops_obey::<F>() implies #[trigger] row[l] == fsub(self@[i as int][l], rhs@[i as int][l]) by {
                assert(sub_elem::<F>.ensures((self.data[i as int]@[l], rhs.data[i as int]@[l]), row@[l]));
            }
            out[i] = row;
            i = i + 1;
        }
        let r = Self { data: out };
        proof {
            if ops_obey::<F>() {
                assert(r@ =~~= grid(N as nat, M as nat, |i: int, j: int| fsub(self@[i][j], rhs@[i][j])));
                r.lemma_from_view();
            }
        }
        r
    }
}

/// Scalar multiplication: multiplies every entry by `rhs`
impl<F, const N: usize, const M: usize> vstd::std_specs::ops::MulSpecImpl<F> for Matrix<F, N, M>
where
    F: Field,
{
    open spec fn obeys_mul_spec() -> bool {
        ops_obey::<F>()
    }

    open spec fn mul_req(self, rhs: F) -> bool {
        forall|i: int, j: int| 0 <= i < N && 0 <= j < M ==> fmul_req(rhs, #[trigger] self@[i][j])
    }

    open spec fn mul_spec(self, rhs: F) -> Self {
        Self::from_view(grid(N as nat, M as nat, |i: int, j: int| fmul(rhs, self@[i][j])))
    }
}

impl<F, const N: usize, const M: usize> Mul<F> for Matrix<F, N, M>
where
    F: Field,
{
    type Output = Matrix<F, N, M>;

    fn mul(self, rhs: F) -> (r: Self::Output)
        ensures
            ops_obey::<F>() ==> r@ == grid(N as nat, M as nat, |i: int, j: int| fmul(rhs, self@[i][j])),
    {
        let mut out = self.data;
        let mut i: usize = 0;
        while i < N
            invariant
                0 <= i <= N,
                forall|k: int, l: int| 0 <= k < N && 0 <= l < M ==> fmul_req(rhs, #[trigger] self@[k][l]),
                forall|k: int, l: int| 0 <= k < i && 0 <= l < M ==> ops_obey::<F>() ==> #[trigger] out[k][l] == fmul(rhs, self@[k][l]),
            decreases N - i,
        {
            let mut row = self.data[i];
            let mut j: usize = 0;
            while j < M
                invariant
                    0 <= i < N,
                    0 <= j <= M,
                    forall|k: int, l: int| 0 <= k < N && 0 <= l < M ==> fmul_req(rhs, #[trigger] self@[k][l]),
                    forall|l: int| 0 <= l < j ==> ops_obey::<F>() ==> #[trigger] row[l] == fmul(rhs, self@[i as int][l]),
                decreases M - j,
            {
                assert(self@[i as int][j as int] == self.data[i as int][j as int]);
                assert(fmul_req(rhs, self@[i as int][j as int]));
                row[j] = rhs.mul(self.data[i][j]);
                j = j + 1;
            }
            out[i] = row;
            i = i + 1;
        }
        let r = Self { data: out };
        proof {
            if ops_obey::<F>() {
                assert(r@ =~~= grid(N as nat, M as nat, |i: int, j: int| fmul(rhs, self@[i][j])));
                r.lemma_from_view();
            }
        }
        r
    }
}

/// Matrix multiplication: an NxM matrix times an MxP matrix gives an NxP
/// matrix - the shared dimension `M` is enforced at compile time
impl<F, const N: usize, const M: usize, const P: usize> vstd::std_specs::ops::MulSpecImpl<Matrix<F, M, P>> for Matrix<F, N, M>
where
    F: Field,
{
    open spec fn obeys_mul_spec() -> bool {
        ops_obey::<F>()
    }

    open spec fn mul_req(self, rhs: Matrix<F, M, P>) -> bool {
        &&& ops_obey::<F>()
        &&& product_req(self@, rhs@, N as nat, P as nat)
    }

    open spec fn mul_spec(self, rhs: Matrix<F, M, P>) -> Matrix<F, N, P> {
        Matrix::from_view(product_of(self@, rhs@, N as nat, P as nat))
    }
}

impl<F, const N: usize, const M: usize, const P: usize> Mul<Matrix<F, M, P>> for Matrix<F, N, M>
where
    F: Field,
{
    type Output = Matrix<F, N, P>;

    fn mul(self, rhs: Matrix<F, M, P>) -> (r: Self::Output)
        ensures
            r@ == product_of(self@, rhs@, N as nat, P as nat),
            r@.len() == N,
            forall|i: int| 0 <= i < N ==> (#[trigger] r@[i]).len() == P,
            forall|i: int, j: int| 0 <= i < N && 0 <= j < P ==> #[trigger] r@[i][j]
                == dot_spec(self@[i], Seq::new(M as nat, |k: int| rhs@[k][j])),
    {
        let mut out = [[F::zero(); P]; N];
        let mut i: usize = 0;
        while i < N
            invariant
                0 <= i <= N,
                ops_obey::<F>(),
                product_req(self@, rhs@, N as nat, P as nat),
                forall|k: int, l: int| 0 <= k < i && 0 <= l < P ==> #[trigger] out[k][l] == dot_spec(self@[k], column(rhs@, l)),
            decreases N - i,
        {
            let mut row = [F::zero(); P];
            let mut j: usize = 0;
            while j < P
                invariant
                    0 <= i < N,
                    0 <= j <= P,
                    ops_obey::<F>(),
                    product_req(self@, rhs@, N as nat, P as nat),
                    forall|l: int| 0 <= l < j ==> #[trigger] row[l] == dot_spec(self@[i as int], column(rhs@, l)),
                decreases P - j,
            {
                assert(dot_req(self@[i as int], column(rhs@, j as int)));
                row[j] = product_entry(&self, &rhs, i, j);
                j = j + 1;
            }
            out[i] = row;
            i = i + 1;
        }
        let r = Matrix { data: out };
        assert(r@ =~~= product_of(self@, rhs@, N as nat, P as nat));
        proof {
            r.lemma_from_view();
        }
        r
    }
}

impl<F> Matrix<F, 2, 2>
where
    F: Field + Sin + Cos,
{
    /// Constructs the matrix for a rotation by an angle in radians,
    /// counterclockwise (from the x-axis towards the y-axis)
    ///
    /// Unlike the 3x3/4x4 rotations, there's only one plane to rotate in, so
    /// this doesn't take an `Axis`.
    pub fn rotation(angle: F) -> (r: Self)
        requires
            fneg_req(angle.spec_sin()),
        ensures
            r@.len() == 2,
            r@[0].len() == 2,
            r@[1].len() == 2,
            r@[0][0] == angle.spec_cos(),
            r@[1][0] == angle.spec_sin(),
            r@[1][1] == angle.spec_cos(),
            neg_obeys::<F>() ==> r@[0][1] == fneg(angle.spec_sin()),
    {
        let s = angle.sin();
        let c = angle.cos();
        let r = Matrix::new([[c, s.neg()], [s, c]]);
        r
    }
}

impl<F> Matrix<F, 4, 4>
where
    F: Field,
{
    /// Constructs the matrix for a translation in three dimensions
    ///
    /// Assumes points are represented as column vectors and transformed by
    /// multiplying this matrix on the left (`translation * point`), which is
    /// why the offsets end up in the last column rather than the last row.
    pub fn translation(tx: F, ty: F, tz: F) -> (r: Self)
        ensures
            r@ == seq![
                seq![F::spec_one(), F::spec_zero(), F::spec_zero(), tx],
                seq![F::spec_zero(), F::spec_one(), F::spec_zero(), ty],
                seq![F::spec_zero(), F::spec_zero(), F::spec_one(), tz],
                seq![F::spec_zero(), F::spec_zero(), F::spec_zero(), F::spec_one()],
            ],
    {
        let one = F::one();
        let zero = F::zero();
        let t = Matrix::new([
            [one, zero, zero, tx],
            [zero, one, zero, ty],
            [zero, zero, one, tz],
            [zero, zero, zero, one],
        ]);
        assert(t@ =~~= seq![
            seq![F::spec_one(), F::spec_zero(), F::spec_zero(), tx],
            seq![F::spec_zero(), F::spec_one(), F::spec_zero(), ty],
            seq![F::spec_zero(), F::spec_zero(), F::spec_one(), tz],
            seq![F::spec_zero(), F::spec_zero(), F::spec_zero(), F::spec_one()],
        ]);
        t
    }
}

impl<F> Matrix<F, 4, 4>
where
    F: Field + Sin + Cos,
{
    /// Constructs the matrix for a rotation around an axis, by an angle in
    /// radians
    ///
    /// Follows the right-hand rule: looking from the positive end of `axis`
    /// towards the origin, a positive angle rotates counterclockwise (e.g.
    /// rotating around `Axis::Z` sends the x-axis towards the y-axis).
    pub fn rotation(axis: Axis, angle: F) -> (r: Self)
        requires
            fneg_req(angle.spec_sin()),
        ensures
            rotation_matches(r@, axis, angle.spec_sin(), angle.spec_cos(), 4),
            neg_obeys::<F>() ==> r@ == rotation_of(axis, angle.spec_sin(), angle.spec_cos(), 4),
    {
        let s = angle.sin();
        let c = angle.cos();
        let one = F::one();
        let zero = F::zero();
        let ns = s.neg();
        let r = match axis {
            Axis::X => Matrix::new([
                [one, zero, zero, zero],
                [zero, c, ns, zero],
                [zero, s, c, zero],
                [zero, zero, zero, one],
            ]),
            Axis::Y => Matrix::new([
                [c, zero, s, zero],
                [zero, one, zero, zero],
                [ns, zero, c, zero],
                [zero, zero, zero, one],
            ]),
            Axis::Z => Matrix::new([
                [c, ns, zero, zero],
                [s, c, zero, zero],
                [zero, zero, one, zero],
                [zero, zero, zero, one],
            ]),
        };
        proof {
            r.lemma_view(r);
            assert(neg_obeys::<F>() ==> r@ =~~= rotation_of(axis, angle.spec_sin(), angle.spec_cos(), 4));
        }
        r
    }
}

impl<F> Matrix<F, 3, 3>
where
    F: Field + Sin + Cos,
{
    /// Constructs the matrix for a rotation around an axis, by an angle in
    /// radians
    ///
    /// Follows the right-hand rule: looking from the positive end of `axis`
    /// towards the origin, a positive angle rotates counterclockwise (e.g.
    /// rotating around `Axis::Z` sends the x-axis towards the y-axis).
    pub fn rotation(axis: Axis, angle: F) -> (r: Self)
        requires
            fneg_req(angle.spec_sin()),
        ensures
            rotation_matches(r@, axis, angle.spec_sin(), angle.spec_cos(), 3),
            neg_obeys::<F>() ==> r@ == rotation_of(axis, angle.spec_sin(), angle.spec_cos(), 3),
    {
        let s = angle.sin();
        let c = angle.cos();
        let one = F::one();
        let zero = F::zero();
        let ns = s.neg();
        let r = match axis {
            Axis::X => Matrix::new([
                [one, zero, zero],
                [zero, c, ns],
                [zero, s, c],
            ]),
            Axis::Y => Matrix::new([
                [c, zero, s],
                [zero, one, zero],
                [ns, zero, c],
            ]),
            Axis::Z => Matrix::new([
                [c, ns, zero],
                [s, c, zero],
                [zero, zero, one],
            ]),
        };
        proof {
            r.lemma_view(r);
            assert(neg_obeys::<F>() ==> r@ =~~= rotation_of(axis, angle.spec_sin(), angle.spec_cos(), 3));
        }
        r
    }
}

/// A coordinate axis in three dimensions, used to pick which axis a 3x3 or
/// 4x4 rotation happens around
#[derive(Debug, Clone, Copy, PartialEq, Eq)]
pub enum Axis {
    /// The x-axis
    X,
    /// The y-axis
    Y,
    /// The z-axis
    Z,
}

/// The entry at row `i`, column `j` of the `n` by `n` rotation about `axis`
/// whose angle has sine `s` and cosine `c`: the identity, except for the
/// four entries of the plane that the rotation turns.
pub open spec fn rotation_entry<F: Field>(axis: Axis, s: F, c: F, i: int, j: int) -> F {
    match axis {
        Axis::X => {
            if i == 1 && j == 1 { c }
            else if i == 1 && j == 2 { fneg(s) }
            else if i == 2 && j == 1 { s }
            else if i == 2 && j == 2 { c }
            else if i == j { F::spec_one() }
            else { F::spec_zero() }
        },
        Axis::Y => {
            if i == 0 && j == 0 { c }
            else if i == 0 && j == 2 { s }
            else if i == 2 && j == 0 { fneg(s) }
            else if i == 2 && j == 2 { c }
            else if i == j { F::spec_one() }
            else { F::spec_zero() }
        },
        Axis::Z => {
            if i == 0 && j == 0 { c }
            else if i == 0 && j == 1 { fneg(s) }
            else if i == 1 && j == 0 { s }
            else if i == 1 && j == 1 { c }
            else if i == j { F::spec_one() }
            else { F::spec_zero() }
        },
    }
}

/// Whether row `i`, column `j` of a rotation about `axis` holds the negated
/// sine.
pub open spec fn holds_negated_sine(axis: Axis, i: int, j: int) -> bool {
    match axis {
        Axis::X => i == 1 && j == 2,
        Axis::Y => i == 2 && j == 0,
        Axis::Z => i == 0 && j == 1,
    }
}

/// The rows `r` are those of an `n` by `n` matrix that agrees with
/// `rotation_of(axis, s, c, n)` everywhere except, perhaps, at the entry
/// that holds the negated sine.
pub open spec fn rotation_matches<F: Field>(r: Seq<Seq<F>>, axis: Axis, s: F, c: F, n: nat) -> bool {
    &&& r.len() == n
    &&& forall|i: int| 0 <= i < n ==> (#[trigger] r[i]).len() == n
    &&& forall|i: int, j: int|
        0 <= i < n && 0 <= j < n && !holds_negated_sine(axis, i, j) ==> #[trigger] r[i][j]
            == rotation_entry(axis, s, c, i, j)
}

/// The `n` by `n` rotation about `axis` whose angle has sine `s` and
/// cosine `c`.
pub open spec fn rotation_of<F: Field>(axis: Axis, s: F, c: F, n: nat) -> Seq<Seq<F>> {
    grid(n, n, |i: int, j: int| rotation_entry(axis, s, c, i, j))
}

impl<F, const N: usize, const M: usize> Matrix<F, N, M>
where
    F: Field,
{
    /// `from_rows` is the inverse of `rows`: the matrix built from the rows
    /// of `m` is `m`.
    pub proof fn lemma_from_rows_of_rows(m: Self, rows: [Vector<F, M>; N], rebuilt: Self)
        requires
            forall|i: int| 0 <= i < N ==> (#[trigger] rows[i])@ == m@[i],
            rebuilt@ == Seq::new(N as nat, |i: int| rows[i]@),
        ensures
            rebuilt == m,
    {
        m.lemma_view(rebuilt);
        assert(rebuilt@ =~= m@);
        rebuilt.lemma_view(m);
    }

    /// `rows` is the inverse of `from_rows`: the rows of the matrix built
    /// from `rows` are `rows`.
    pub proof fn lemma_rows_of_from_rows(rows: [Vector<F, M>; N], m: Self, back: [Vector<F, M>; N])
        requires
            m@ == Seq::new(N as nat, |i: int| rows[i]@),
            forall|i: int| 0 <= i < N ==> (#[trigger] back[i])@ == m@[i],
        ensures
            back == rows,
    {
        assert forall|i: int| 0 <= i < N implies back[i] == rows[i] by {
            back[i].lemma_view(rows[i]);
        }
        assert(back =~= rows);
    }

    /// `from_columns` is the inverse of `columns`: the matrix built from the
    /// columns of `m` is `m`.
    pub proof fn lemma_from_columns_of_columns(m: Self, columns: [Vector<F, N>; M], rebuilt: Self)
        requires
            forall|j: int| 0 <= j < M ==> (#[trigger] columns[j])@ == column(m@, j),
            rebuilt@ == grid(N as nat, M as nat, |i: int, j: int| columns[j]@[i]),
        ensures
            rebuilt == m,
    {
        m.lemma_view(rebuilt);
        assert forall|i: int| 0 <= i < N implies rebuilt@[i] =~= m@[i] by {
            assert forall|j: int| 0 <= j < M implies rebuilt@[i][j] == m@[i][j] by {
                assert(columns[j]@ == column(m@, j));
            }
        }
        assert(rebuilt@ =~= m@);
        rebuilt.lemma_view(m);
    }

    /// `columns` is the inverse of `from_columns`: the columns of the matrix
    /// built from `columns` are `columns`.
    pub proof fn lemma_columns_of_from_columns(columns: [Vector<F, N>; M], m: Self, back: [Vector<F, N>; M])
        requires
            m@ == grid(N as nat, M as nat, |i: int, j: int| columns[j]@[i]),
            forall|j: int| 0 <= j < M ==> (#[trigger] back[j])@ == column(m@, j),
        ensures
            back == columns,
    {
        assert forall|j: int| 0 <= j < M implies back[j] == columns[j] by {
            columns[j].lemma_view(back[j]);
            back[j].lemma_view(columns[j]);
            assert forall|k: int| 0 <= k < N implies back[j]@[k] == columns[j]@[k] by {
                assert(m@[k][j] == columns[j]@[k]);
            }
            assert(back[j]@ =~= columns[j]@);
        }
        assert(back =~= columns);
    }

    /// The zero matrix is an additive identity: `m + Matrix::zero()` is
    /// defined and is `m`, as `x + F::zero() == x` for each entry.
    pub proof fn lemma_add_zero_matrix(m: Self, z: Self)
        requires
            ops_obey::<F>(),
            z@ == grid(N as nat, M as nat, |i: int, j: int| F::spec_zero()),
        ensures
            <Self as vstd::std_specs::ops::AddSpec>::add_req(m, z),
            <Self as vstd::std_specs::ops::AddSpec>::add_spec(m, z) == m,
    {
        m.lemma_view(m);
        assert forall|i: int, j: int| 0 <= i < N && 0 <= j < M implies fadd_req(#[trigger] m@[i][j], z@[i][j])
            && fadd(m@[i][j], z@[i][j]) == m@[i][j] by {
            F::lemma_add_zero(m@[i][j]);
        }
        assert(grid(N as nat, M as nat, |i: int, j: int| fadd(m@[i][j], z@[i][j])) =~~= m@);
        m.lemma_from_view();
    }

    /// Where `F` computes like the integers (as every signed integer type
    /// does, `lemma_signed_integers_are_integer_like`), the identity is
    /// neutral on the right of the product: `a * Matrix::id()` is defined and
    /// is `a`.
    pub proof fn lemma_mul_identity_right(a: Self, id: Matrix<F, M, M>, val: spec_fn(F) -> int, lo: int, hi: int)
        requires
            ops_obey::<F>(),
            integer_like(val, lo, hi),
            id@ == identity_of::<F>(M as nat, M as nat),
        ensures
            <Self as vstd::std_specs::ops::MulSpec<Matrix<F, M, M>>>::mul_req(a, id),
            <Self as vstd::std_specs::ops::MulSpec<Matrix<F, M, M>>>::mul_spec(a, id) == a,
    {
        a.lemma_view(a);
        assert forall|i: int, j: int|
            #![trigger dot_req(a@[i], column(id@, j))]
            #![trigger dot_spec(a@[i], column(id@, j))]
            0 <= i < N && 0 <= j < M implies dot_req(a@[i], column(id@, j))
            && dot_spec(a@[i], column(id@, j)) == a@[i][j] by {
            lemma_dot_unit(a@[i], column(id@, j), j, val, lo, hi);
        }
        assert(product_of(a@, id@, N as nat, M as nat) =~~= a@);
        a.lemma_from_view();
    }

    /// Where `F` computes like the integers, the identity is neutral on the
    /// left of the product: `Matrix::id() * a` is defined and is `a`.
    pub proof fn lemma_mul_identity_left(id: Matrix<F, N, N>, a: Self, val: spec_fn(F) -> int, lo: int, hi: int)
        requires
            ops_obey::<F>(),
            integer_like(val, lo, hi),
            id@ == identity_of::<F>(N as nat, N as nat),
        ensures
            <Matrix<F, N, N> as vstd::std_specs::ops::MulSpec<Self>>::mul_req(id, a),
            <Matrix<F, N, N> as vstd::std_specs::ops::MulSpec<Self>>::mul_spec(id, a) == a,
    {
        a.lemma_view(a);
        assert forall|i: int, j: int|
            #![trigger dot_req(id@[i], column(a@, j))]
            #![trigger dot_spec(id@[i], column(a@, j))]
            0 <= i < N && 0 <= j < M implies dot_req(id@[i], column(a@, j))
            && dot_spec(id@[i], column(a@, j)) == a@[i][j] by {
            lemma_dot_unit(column(a@, j), id@[i], i, val, lo, hi);
        }
        assert(product_of(id@, a@, N as nat, M as nat) =~~= a@);
        a.lemma_from_view();
    }

    /// Transposing twice gives back the matrix.
    pub proof fn lemma_transpose_twice(m: Self, t: Matrix<F, M, N>, tt: Self)
        requires
            t@ == transpose_of(m@, N as nat, M as nat),
            tt@ == transpose_of(t@, M as nat, N as nat),
        ensures
            tt == m,
    {
        m.lemma_view(tt);
        assert(tt@ =~~= m@);
        tt.lemma_view(m);
    }
}

/// The 4x4 rotation about `axis` by `angle` extends the 3x3 one: its upper
/// left 3x3 block is the 3x3 rotation, and its last row and column are those
/// of the identity. Every entry agrees whatever `-` computes on `F`, except
/// the one that holds the negated sine, which agrees when negation computes
/// what its specification says.
pub proof fn lemma_rotation_4_extends_3<F: Field + Sin + Cos>(
    axis: Axis,
    angle: F,
    r3: Matrix<F, 3, 3>,
    r4: Matrix<F, 4, 4>,
)
    requires
        rotation_matches(r3@, axis, angle.spec_sin(), angle.spec_cos(), 3),
        neg_obeys::<F>() ==> r3@ == rotation_of(axis, angle.spec_sin(), angle.spec_cos(), 3),
        rotation_matches(r4@, axis, angle.spec_sin(), angle.spec_cos(), 4),
        neg_obeys::<F>() ==> r4@ == rotation_of(axis, angle.spec_sin(), angle.spec_cos(), 4),
    ensures
        forall|i: int, j: int|
            0 <= i < 3 && 0 <= j < 3 && !holds_negated_sine(axis, i, j) ==> #[trigger] r4@[i][j]
                == r3@[i][j],
        neg_obeys::<F>() ==> forall|i: int, j: int|
            0 <= i < 3 && 0 <= j < 3 ==> #[trigger] r4@[i][j] == r3@[i][j],
        r4@[3] == seq![F::spec_zero(), F::spec_zero(), F::spec_zero(), F::spec_one()],
        forall|i: int| 0 <= i < 3 ==> #[trigger] r4@[i][3] == F::spec_zero(),
{
    assert forall|i: int, j: int|
        0 <= i < 3 && 0 <= j < 3 && !holds_negated_sine(axis, i, j) implies #[trigger] r4@[i][j]
            == r3@[i][j] by {
        assert(r4@[i][j] == rotation_entry(axis, angle.spec_sin(), angle.spec_cos(), i, j));
        assert(r3@[i][j] == rotation_entry(axis, angle.spec_sin(), angle.spec_cos(), i, j));
    }
    if neg_obeys::<F>() {
        assert forall|i: int, j: int| 0 <= i < 3 && 0 <= j < 3 implies #[trigger] r4@[i][j]
            == r3@[i][j] by {
            assert(r4@[i][j] == rotation_of(axis, angle.spec_sin(), angle.spec_cos(), 4)[i][j]);
            assert(r3@[i][j] == rotation_of(axis, angle.spec_sin(), angle.spec_cos(), 3)[i][j]);
        }
    }
    assert forall|i: int| 0 <= i < 3 implies #[trigger] r4@[i][3] == F::spec_zero() by {
        assert(r4@[i][3] == rotation_entry(axis, angle.spec_sin(), angle.spec_cos(), i, 3));
    }
    assert(r4@[3][0] == rotation_entry(axis, angle.spec_sin(), angle.spec_cos(), 3, 0));
    assert(r4@[3][1] == rotation_entry(axis, angle.spec_sin(), angle.spec_cos(), 3, 1));
    assert(r4@[3][2] == rotation_entry(axis, angle.spec_sin(), angle.spec_cos(), 3, 2));
    assert(r4@[3][3] == rotation_entry(axis, angle.spec_sin(), angle.spec_cos(), 3, 3));
    assert(r4@[3] =~= seq![F::spec_zero(), F::spec_zero(), F::spec_zero(), F::spec_one()]);
}

/// `grid(n, m, f)` has `n` rows of `m` entries, and `f(i, j)` at row `i`,
/// column `j`.
pub proof fn lemma_grid_entries<F>(n: nat, m: nat, f: spec_fn(int, int) -> F)
    ensures
        grid(n, m, f).len() == n,
        forall|i: int| 0 <= i < n ==> (#[trigger] grid(n, m, f)[i]).len() == m,
        forall|i: int, j: int| 0 <= i < n && 0 <= j < m ==> #[trigger] grid(n, m, f)[i][j] == f(i, j),
{
}

/// Column `j` holds entry `j` of each row, in row order.
pub proof fn lemma_column_entries<F>(a: Seq<Seq<F>>, j: int)
    ensures
        column(a, j).len() == a.len(),
        forall|k: int| 0 <= k < a.len() ==> #[trigger] column(a, j)[k] == a[k][j],
{
}

/// The transpose of an `n` by `m` matrix is `m` by `n`, and its entry at row
/// `i`, column `j` is the original's entry at row `j`, column `i`.
pub proof fn lemma_transpose_entries<F>(a: Seq<Seq<F>>, n: nat, m: nat)
    ensures
        transpose_of(a, n, m).len() == m,
        forall|i: int| 0 <= i < m ==> (#[trigger] transpose_of(a, n, m)[i]).len() == n,
        forall|i: int, j: int| 0 <= i < m && 0 <= j < n ==> #[trigger] transpose_of(a, n, m)[i][j] == a[j][i],
{
}

/// The `n` by `m` identity has one exactly where the row and the column are
/// equal, and zero everywhere else, whatever its shape.
pub proof fn lemma_identity_entries<F: Field>(n: nat, m: nat)
    ensures
        identity_of::<F>(n, m).len() == n,
        forall|i: int| 0 <= i < n ==> (#[trigger] identity_of::<F>(n, m)[i]).len() == m,
        forall|i: int, j: int| 0 <= i < n && 0 <= j < m && i == j ==> #[trigger] identity_of::<F>(n, m)[i][j]
            == F::spec_one(),
        forall|i: int, j: int| 0 <= i < n && 0 <= j < m && i != j ==> #[trigger] identity_of::<F>(n, m)[i][j]
            == F::spec_zero(),
{
}

/// The product of `a` and `b` is `n` by `p`, and its entry at row `i`,
/// column `j` is the dot product of row `i` of `a` and column `j` of `b`:
/// the sum over every `k` of `a[i][k] * b[k][j]`.
pub proof fn lemma_product_entries<F: Field>(a: Seq<Seq<F>>, b: Seq<Seq<F>>, n: nat, p: nat)
    ensures
        product_of(a, b, n, p).len() == n,
        forall|i: int| 0 <= i < n ==> (#[trigger] product_of(a, b, n, p)[i]).len() == p,
        forall|i: int, j: int| 0 <= i < n && 0 <= j < p ==> #[trigger] product_of(a, b, n, p)[i][j]
            == dot_spec(a[i], column(b, j)),
{
}

/// A rotation about an axis turns the plane of the other two axes: about
/// `X` it has `c, -s` in row 1 and `s, c` in row 2 at columns 1 and 2; about
/// `Y` it has `c, s` in row 0 and `-s, c` in row 2 at columns 0 and 2; about
/// `Z` it has `c, -s` in row 0 and `s, c` in row 1 at columns 0 and 1. Every
/// entry outside that plane is that of the identity, and the negated sine
/// stands exactly where these say.
pub proof fn lemma_rotation_entries<F: Field>(s: F, c: F)
    ensures
        rotation_entry(Axis::X, s, c, 1, 1) == c,
        rotation_entry(Axis::X, s, c, 1, 2) == fneg(s),
        rotation_entry(Axis::X, s, c, 2, 1) == s,
        rotation_entry(Axis::X, s, c, 2, 2) == c,
        rotation_entry(Axis::Y, s, c, 0, 0) == c,
        rotation_entry(Axis::Y, s, c, 0, 2) == s,
        rotation_entry(Axis::Y, s, c, 2, 0) == fneg(s),
        rotation_entry(Axis::Y, s, c, 2, 2) == c,
        rotation_entry(Axis::Z, s, c, 0, 0) == c,
        rotation_entry(Axis::Z, s, c, 0, 1) == fneg(s),
        rotation_entry(Axis::Z, s, c, 1, 0) == s,
        rotation_entry(Axis::Z, s, c, 1, 1) == c,
        forall|i: int, j: int|
            !((i == 1 || i == 2) && (j == 1 || j == 2)) ==> #[trigger] rotation_entry(Axis::X, s, c, i, j)
                == if i == j { F::spec_one() } else { F::spec_zero() },
        forall|i: int, j: int|
            !((i == 0 || i == 2) && (j == 0 || j == 2)) ==> #[trigger] rotation_entry(Axis::Y, s, c, i, j)
                == if i == j { F::spec_one() } else { F::spec_zero() },
        forall|i: int, j: int|
            !((i == 0 || i == 1) && (j == 0 || j == 1)) ==> #[trigger] rotation_entry(Axis::Z, s, c, i, j)
                == if i == j { F::spec_one() } else { F::spec_zero() },
        forall|i: int, j: int| #[trigger] holds_negated_sine(Axis::X, i, j) <==> i == 1 && j == 2,
        forall|i: int, j: int| #[trigger] holds_negated_sine(Axis::Y, i, j) <==> i == 2 && j == 0,
        forall|i: int, j: int| #[trigger] holds_negated_sine(Axis::Z, i, j) <==> i == 0 && j == 1,
{
}

} // verus!
