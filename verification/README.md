# luma

A linear algebra library — vectors, matrices and quaternions over any
`Field` — whose operations are verified with Verus.

## Layout

- `src/field.rs`: the `Field` trait, and the spec functions that name what
  each operator of a field type computes and when it is defined (`fadd`,
  `fadd_req`, …), together with the left-fold sum `fsum` and the dot
  product `dot_spec` that the contracts are written in.
- `src/identity.rs`: `Zero` and `One`, implemented for every primitive
  integer type, each with its identity law.
- `src/vector.rs`, `src/matrix.rs`, `src/quaternion.rs`: the three value
  types. A vector is viewed as the sequence of its components, a matrix as
  the sequence of its rows; every operation states its result over those
  views. `matrix.rs` also proves that `rows`/`from_rows` and
  `columns`/`from_columns` are inverse, that transposing twice gives the
  matrix back, that adding zero and multiplying by the identity give the
  matrix back, and that the 4x4 rotation extends the 3x3 one;
  `vector.rs` that the cross product is anticommutative and orthogonal to
  its operands; `quaternion.rs` that the squared norm is multiplicative.
  The laws that need it hold for every type that computes like the
  integers (`field::integer_like`), which every signed integer type does.
- A matrix has no `IndexMut` impl: Verus gives `index_mut` no precondition,
  so the bound on the row index cannot be proved. `Matrix::set(i, j, x)`
  does what `matrix[i][j] = x` would, and indexing for reading
  (`matrix[i][j]`) is there.
- `src/order.rs`: `MinMax`, implemented for the signed integer types.
- `src/reals.rs`: traits for the operations that only real numbers have
  (square root, trigonometry, rounding, approximate comparison). Each names
  the value it returns, so the operations built on them (`length`, `unit`,
  `angle`, rotations, `normalize`) have exact contracts.
- `app/lib.rs`: `Real32` and `Real64`, the floating-point types, with the
  real operations computed by `libm`.
- `tests/`: the test suite; `tests/real_numbers.rs` runs the real-number
  operations on `f64`.

Arithmetic on a field type may be partial (integer overflow, division by
zero): a function that performs it states, in its `requires`, that each
operation it performs is defined, and for the primitive integer types
promises the exact result.
