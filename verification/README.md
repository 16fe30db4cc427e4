# whippyalgebra

Unit-safe linear algebra, verified with Verus.

A `MixedUnitMatrix` carries a list of row units and a list of column units;
the unit of entry `(i, j)` is `row_i / col_j`, so every matrix is
dimensionally homogeneous. A `UniformUnitMatrix` carries one unit shared by
all entries. Every operation states, in its contract, the unit lists of its
result and, where the library itself moves entries (transpose, blocks,
concatenation, diagonals, row and column swaps), the entries too. The numeric
kernels (products, factorisations, solves, norms) are nalgebra's; the library
calls them through small trusted wrappers whose contracts state shapes and
when a result is optional.

Layout:

- `src/unit.rs`, `src/dims.rs` — units as exponent vectors and the
  unit-list algebra (maps, zips, slicing, uniformity, metric shapes).
- `src/raw.rs`, `src/matrix.rs`, `src/matrix_ops.rs`, `src/views.rs` —
  column-major storage and the mixed-unit matrix with its operations.
- `src/uniform*.rs` — the uniform-unit matrix, its operations,
  decompositions and reductions.
- `src/linalg.rs`, `src/decomp.rs`, `src/generalized.rs` — solves,
  inverses, determinants and the (generalised) decompositions.
- `src/display.rs` — the table layout of a printed matrix.
- `src/obligations.rs` — the attribute language of the matrix-declaration
  macros: tokens, shapes, predicates.
- `src/backend*.rs` — the trusted wrappers around nalgebra.
- `src/laws.rs` — properties that relate several operations.
- `app/` — conversions to and from nalgebra and whippyunits types,
  formatting, rescaling with floating-point factors, and the syn/quote glue
  of the macros.
