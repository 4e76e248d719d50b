use vstd::prelude::*;
use vstd::arithmetic::div_mod::{
    lemma_div_is_ordered,
    lemma_div_multiples_vanish_fancy,
    lemma_div_pos_is_pos,
    lemma_fundamental_div_mod,
    lemma_mod_bound,
    lemma_mod_multiples_vanish,
    lemma_small_mod,
};
use crate::approx::{ApproxEq, approx_units, approx_low_units};
use crate::scalar::{
    Scalar,
    LIMIT,
    SCALE,
    fits,
    fp_mul,
    fp_div,
    iabs,
    tdiv,
    lemma_fp_mul_comm,
    lemma_fp_mul_scale,
    lemma_fp_mul_value_bound,
    lemma_fp_mul_zero,
    lemma_tdiv_close,
};
use crate::tuple::Tuple;

verus! {

// ---------------------------------------------------------------------------
// The model: a square matrix is a row-major grid of unit counts.
// ---------------------------------------------------------------------------

/// Unit counts of a sequence of scalars.
pub open spec fn gv(v: Seq<Scalar>) -> Seq<int> {
    Seq::new(v.len(), |i: int| v[i]@)
}

/// Entry of a row-major `n` by `n` grid.
pub open spec fn ent(m: Seq<int>, n: int, r: int, c: int) -> int {
    m[r * n + c]
}

/// The identity grid: the units of 1.0 on the diagonal, 0 elsewhere.
pub open spec fn id_u(n: int) -> Seq<int> {
    Seq::new((n * n) as nat, |i: int| if i / n == i % n { SCALE as int } else { 0 })
}

/// The transposed grid: entry (r, c) holds entry (c, r) of `m`.
pub open spec fn transpose_u(m: Seq<int>, n: int) -> Seq<int> {
    Seq::new((n * n) as nat, |i: int| ent(m, n, i % n, i / n))
}

/// The grid left after deleting one row and one column, relative order kept.
pub open spec fn sub_u(m: Seq<int>, n: int, row: int, col: int) -> Seq<int> {
    Seq::new(((n - 1) * (n - 1)) as nat, |i: int| {
        let r = i / (n - 1);
        let c = i % (n - 1);
        ent(m, n, if r < row { r } else { r + 1 }, if c < col { c } else { c + 1 })
    })
}

/// Partial product-row-by-column sum of the first `k` terms.
pub open spec fn mmul_cell(a: Seq<int>, b: Seq<int>, n: int, r: int, c: int, k: int) -> int
    decreases k,
{
    if k <= 0 {
        0
    } else {
        mmul_cell(a, b, n, r, c, k - 1) + fp_mul(ent(a, n, r, k - 1), ent(b, n, k - 1, c))
    }
}

/// The product grid: entry (r, c) is row r of `a` dotted with column c of `b`.
pub open spec fn mmul_u(a: Seq<int>, b: Seq<int>, n: int) -> Seq<int> {
    Seq::new((n * n) as nat, |i: int| mmul_cell(a, b, n, i / n, i % n, n))
}

/// Every term and partial sum of the product grid stays in the scalar range.
pub open spec fn mmul_ok(a: Seq<int>, b: Seq<int>, n: int) -> bool {
    forall|r: int, c: int, k: int|
        0 <= r < n && 0 <= c < n && 0 <= k <= n ==> fits(#[trigger] mmul_cell(a, b, n, r, c, k))
            && (k < n ==> fits(fp_mul(ent(a, n, r, k), ent(b, n, k, c))))
}

/// Loose approximate equality over all cells of two grids.
pub open spec fn grid_approx_low(a: Seq<int>, b: Seq<int>) -> bool {
    forall|i: int| 0 <= i < a.len() ==> approx_low_units(#[trigger] a[i], b[i])
}

// ---------------------------------------------------------------------------
// Determinants by cofactor expansion along row 0.
// ---------------------------------------------------------------------------

/// Two-by-two determinant: the two-term cross formula.
pub open spec fn det2_u(m: Seq<int>) -> int {
    fp_mul(ent(m, 2, 0, 0), ent(m, 2, 1, 1)) - fp_mul(ent(m, 2, 0, 1), ent(m, 2, 1, 0))
}

/// The two-by-two determinant's terms stay in the scalar range.
pub open spec fn det2_ok(m: Seq<int>) -> bool {
    &&& fits(fp_mul(ent(m, 2, 0, 0), ent(m, 2, 1, 1)))
    &&& fits(fp_mul(ent(m, 2, 0, 1), ent(m, 2, 1, 0)))
    &&& fits(det2_u(m))
}

/// Minor of a three-by-three grid: determinant of the two-by-two submatrix.
pub open spec fn minor3_u(m: Seq<int>, r: int, c: int) -> int {
    det2_u(sub_u(m, 3, r, c))
}

/// Cofactor: the minor under the checkerboard sign rule.
pub open spec fn cof3_u(m: Seq<int>, r: int, c: int) -> int {
    if (r + c) % 2 == 0 {
        minor3_u(m, r, c)
    } else {
        -minor3_u(m, r, c)
    }
}

/// The three-by-three cofactor's terms stay in the scalar range.
pub open spec fn cof3_ok(m: Seq<int>, r: int, c: int) -> bool {
    det2_ok(sub_u(m, 3, r, c))
}

/// Three-by-three determinant: cofactor expansion along row 0.
pub open spec fn det3_u(m: Seq<int>) -> int {
    fp_mul(ent(m, 3, 0, 0), cof3_u(m, 0, 0)) + fp_mul(ent(m, 3, 0, 1), cof3_u(m, 0, 1)) + fp_mul(
        ent(m, 3, 0, 2),
        cof3_u(m, 0, 2),
    )
}

/// The three-by-three determinant's terms stay in the scalar range.
pub open spec fn det3_ok(m: Seq<int>) -> bool {
    &&& cof3_ok(m, 0, 0)
    &&& cof3_ok(m, 0, 1)
    &&& cof3_ok(m, 0, 2)
    &&& fits(fp_mul(ent(m, 3, 0, 0), cof3_u(m, 0, 0)))
    &&& fits(fp_mul(ent(m, 3, 0, 1), cof3_u(m, 0, 1)))
    &&& fits(fp_mul(ent(m, 3, 0, 2), cof3_u(m, 0, 2)))
    &&& fits(fp_mul(ent(m, 3, 0, 0), cof3_u(m, 0, 0)) + fp_mul(ent(m, 3, 0, 1), cof3_u(m, 0, 1)))
    &&& fits(det3_u(m))
}

/// Minor of a four-by-four grid: determinant of the three-by-three submatrix.
pub open spec fn minor4_u(m: Seq<int>, r: int, c: int) -> int {
    det3_u(sub_u(m, 4, r, c))
}

/// Cofactor: the minor under the checkerboard sign rule.
pub open spec fn cof4_u(m: Seq<int>, r: int, c: int) -> int {
    if (r + c) % 2 == 0 {
        minor4_u(m, r, c)
    } else {
        -minor4_u(m, r, c)
    }
}

/// The four-by-four cofactor's terms stay in the scalar range.
pub open spec fn cof4_ok(m: Seq<int>, r: int, c: int) -> bool {
    det3_ok(sub_u(m, 4, r, c))
}

/// Four-by-four determinant: cofactor expansion along row 0.
pub open spec fn det4_u(m: Seq<int>) -> int {
    fp_mul(ent(m, 4, 0, 0), cof4_u(m, 0, 0)) + fp_mul(ent(m, 4, 0, 1), cof4_u(m, 0, 1)) + fp_mul(
        ent(m, 4, 0, 2),
        cof4_u(m, 0, 2),
    ) + fp_mul(ent(m, 4, 0, 3), cof4_u(m, 0, 3))
}

/// The four-by-four determinant's terms stay in the scalar range.
pub open spec fn det4_ok(m: Seq<int>) -> bool {
    &&& cof4_ok(m, 0, 0)
    &&& cof4_ok(m, 0, 1)
    &&& cof4_ok(m, 0, 2)
    &&& cof4_ok(m, 0, 3)
    &&& fits(fp_mul(ent(m, 4, 0, 0), cof4_u(m, 0, 0)))
    &&& fits(fp_mul(ent(m, 4, 0, 1), cof4_u(m, 0, 1)))
    &&& fits(fp_mul(ent(m, 4, 0, 2), cof4_u(m, 0, 2)))
    &&& fits(fp_mul(ent(m, 4, 0, 3), cof4_u(m, 0, 3)))
    &&& fits(fp_mul(ent(m, 4, 0, 0), cof4_u(m, 0, 0)) + fp_mul(ent(m, 4, 0, 1), cof4_u(m, 0, 1)))
    &&& fits(
        fp_mul(ent(m, 4, 0, 0), cof4_u(m, 0, 0)) + fp_mul(ent(m, 4, 0, 1), cof4_u(m, 0, 1))
            + fp_mul(ent(m, 4, 0, 2), cof4_u(m, 0, 2)),
    )
    &&& fits(det4_u(m))
}

/// Invertible means the determinant is not tightly close to zero.
pub open spec fn invertible_u(m: Seq<int>) -> bool {
    !approx_units(det4_u(m), 0)
}

/// Entry (r, c) of the inverse: cofactor of (c, r) over the determinant —
/// the transposed adjugate over the determinant.
pub open spec fn inv_entry_u(m: Seq<int>, r: int, c: int) -> int {
    fp_div(cof4_u(m, c, r), det4_u(m))
}

/// The inverse grid.
pub open spec fn inv_u(m: Seq<int>) -> Seq<int> {
    Seq::new(16, |i: int| inv_entry_u(m, i / 4, i % 4))
}

/// Everything the inversion computes stays in the scalar range.
pub open spec fn invert_ok(m: Seq<int>) -> bool {
    &&& det4_ok(m)
    &&& forall|r: int, c: int| 0 <= r < 4 && 0 <= c < 4 ==> #[trigger] cof4_ok(m, r, c)
    &&& det4_u(m) != 0 ==> forall|r: int, c: int|
        0 <= r < 4 && 0 <= c < 4 ==> fits(#[trigger] inv_entry_u(m, r, c))
}

// ---------------------------------------------------------------------------
// Row-major index arithmetic.
// ---------------------------------------------------------------------------

/// A row and column within bounds give a flat index within the grid.
pub proof fn lemma_rc_index(n: int, r: int, c: int)
    requires
        0 <= r < n,
        0 <= c < n,
    ensures
        0 <= r * n + c < n * n,
{
    assert(0 <= r * n + c < n * n) by (nonlinear_arith)
        requires
            0 <= r < n,
            0 <= c < n,
    ;
}

/// A flat index within the grid splits into a row and column within bounds.
pub proof fn lemma_flat_decompose(n: int, i: int)
    requires
        n >= 1,
        0 <= i < n * n,
    ensures
        0 <= i / n < n,
        0 <= i % n < n,
        i == (i / n) * n + (i % n),
{
    lemma_mod_bound(i, n);
    lemma_fundamental_div_mod(i, n);
    lemma_div_pos_is_pos(i, n);
    lemma_div_is_ordered(i, n * n - 1, n);
    lemma_div_multiples_vanish_fancy(n - 1, n - 1, n);
    assert(n * (n - 1) + (n - 1) == n * n - 1) by (nonlinear_arith);
    assert(n * (i / n) == (i / n) * n) by (nonlinear_arith);
}

/// A flat index splits back into its row and column.
pub proof fn lemma_index_decompose(n: int, r: int, c: int)
    requires
        0 <= r < n,
        0 <= c < n,
    ensures
        (r * n + c) / n == r,
        (r * n + c) % n == c,
{
    lemma_div_multiples_vanish_fancy(r, c, n);
    lemma_mod_multiples_vanish(r, c, n);
    lemma_small_mod(c as nat, n as nat);
    assert(n * r + c == r * n + c) by (nonlinear_arith);
}

/// Two grids with equal entries are the same sequence.
pub proof fn lemma_grid_eq(a: Seq<int>, b: Seq<int>, n: int)
    requires
        n >= 1,
        a.len() == n * n,
        b.len() == n * n,
        forall|r: int, c: int|
            0 <= r < n && 0 <= c < n ==> #[trigger] ent(a, n, r, c) == ent(b, n, r, c),
    ensures
        a == b,
{
    assert forall|i: int| 0 <= i < a.len() implies a[i] == b[i] by {
        lemma_flat_decompose(n, i);
        let r = i / n;
        let c = i % n;
        assert(ent(a, n, r, c) == ent(b, n, r, c));
    }
    assert(a =~= b);
}

/// Entry of the identity grid.
pub proof fn lemma_id_ent(n: int, r: int, c: int)
    requires
        0 <= r < n,
        0 <= c < n,
    ensures
        ent(id_u(n), n, r, c) == if r == c {
            SCALE as int
        } else {
            0
        },
{
    lemma_rc_index(n, r, c);
    lemma_index_decompose(n, r, c);
}

/// Entry of the transposed grid.
pub proof fn lemma_transpose_ent(m: Seq<int>, n: int, r: int, c: int)
    requires
        0 <= r < n,
        0 <= c < n,
    ensures
        ent(transpose_u(m, n), n, r, c) == ent(m, n, c, r),
{
    lemma_rc_index(n, r, c);
    lemma_index_decompose(n, r, c);
}

/// Entry of the product grid.
pub proof fn lemma_mmul_ent(a: Seq<int>, b: Seq<int>, n: int, r: int, c: int)
    requires
        0 <= r < n,
        0 <= c < n,
    ensures
        ent(mmul_u(a, b, n), n, r, c) == mmul_cell(a, b, n, r, c, n),
{
    lemma_rc_index(n, r, c);
    lemma_index_decompose(n, r, c);
}

/// Entry of the submatrix grid: the source entry with the deleted row and
/// column skipped.
pub proof fn lemma_sub_ent(m: Seq<int>, n: int, row: int, col: int, r: int, c: int)
    requires
        n >= 2,
        0 <= r < n - 1,
        0 <= c < n - 1,
    ensures
        ent(sub_u(m, n, row, col), n - 1, r, c) == ent(
            m,
            n,
            if r < row {
                r
            } else {
                r + 1
            },
            if c < col {
                c
            } else {
                c + 1
            },
        ),
{
    lemma_rc_index(n - 1, r, c);
    lemma_index_decompose(n - 1, r, c);
}

/// Entry of the inverse grid.
pub proof fn lemma_inv_ent(m: Seq<int>, r: int, c: int)
    requires
        0 <= r < 4,
        0 <= c < 4,
    ensures
        ent(inv_u(m), 4, r, c) == inv_entry_u(m, r, c),
{
    lemma_rc_index(4, r, c);
    lemma_index_decompose(4, r, c);
}

// ---------------------------------------------------------------------------
// Cell builders shared by the three matrix sizes.
// ---------------------------------------------------------------------------

/// Appending a scalar appends its unit count to the grid.
proof fn lemma_gv_push(v: Seq<Scalar>, s: Scalar)
    ensures
        gv(v.push(s)).len() == v.len() + 1,
        forall|j: int| 0 <= j < v.len() ==> gv(v.push(s))[j] == gv(v)[j],
        gv(v.push(s))[v.len() as int] == s@,
{
    assert forall|j: int| 0 <= j < v.len() implies gv(v.push(s))[j] == gv(v)[j] by {
        assert(v.push(s)[j] == v[j]);
    }
    assert(v.push(s)[v.len() as int] == s);
}

/// Cells of the zero matrix.
fn build_zero(n: usize) -> (out: Vec<Scalar>)
    requires
        1 <= n <= 4,
    ensures
        out@.len() == n * n,
        forall|i: int| 0 <= i < n * n ==> gv(out@)[i] == 0,
{
    proof {
        assert(n * n <= 16) by (nonlinear_arith)
            requires
                n <= 4,
        ;
    }
    let total: usize = n * n;
    let mut cells: Vec<Scalar> = Vec::new();
    let mut i: usize = 0;
    while i < total
        invariant
            i <= total,
            cells@.len() == i,
            forall|j: int| 0 <= j < i ==> gv(cells@)[j] == 0,
        decreases total - i,
    {
        let v = Scalar::from_units(0);
        let ghost prev = cells@;
        cells.push(v);
        proof {
            lemma_gv_push(prev, v);
            assert forall|j: int| 0 <= j < i + 1 implies gv(cells@)[j] == 0 by {
                if j < i {
                    assert(gv(cells@)[j] == gv(prev)[j]);
                }
            }
        }
        i = i + 1;
    }
    cells
}

/// Cells of the identity matrix.
fn build_identity(n: usize) -> (out: Vec<Scalar>)
    requires
        1 <= n <= 4,
    ensures
        out@.len() == n * n,
        gv(out@) == id_u(n as int),
{
    proof {
        assert(n * n <= 16) by (nonlinear_arith)
            requires
                n <= 4,
        ;
    }
    let total: usize = n * n;
    let mut cells: Vec<Scalar> = Vec::new();
    let mut i: usize = 0;
    while i < total
        invariant
            1 <= n <= 4,
            total == n * n,
            i <= total,
            cells@.len() == i,
            forall|j: int| 0 <= j < i ==> gv(cells@)[j] == id_u(n as int)[j],
        decreases total - i,
    {
        proof {
            lemma_flat_decompose(n as int, i as int);
        }
        let r: usize = i / n;
        let c: usize = i % n;
        let v = if r == c {
            Scalar::from_units(SCALE)
        } else {
            Scalar::from_units(0)
        };
        let ghost prev = cells@;
        cells.push(v);
        proof {
            lemma_gv_push(prev, v);
            assert forall|j: int| 0 <= j < i + 1 implies gv(cells@)[j] == id_u(n as int)[j] by {
                if j < i {
                    assert(gv(cells@)[j] == gv(prev)[j]);
                } else {
                    assert(gv(cells@)[j] == v@);
                }
            }
        }
        i = i + 1;
    }
    proof {
        assert(gv(cells@) =~= id_u(n as int));
    }
    cells
}

/// Cells of the transposed matrix.
fn build_transpose(a: &Vec<Scalar>, n: usize) -> (out: Vec<Scalar>)
    requires
        1 <= n <= 4,
        a@.len() == n * n,
    ensures
        out@.len() == n * n,
        gv(out@) == transpose_u(gv(a@), n as int),
{
    proof {
        assert(n * n <= 16) by (nonlinear_arith)
            requires
                n <= 4,
        ;
    }
    let total: usize = n * n;
    let mut cells: Vec<Scalar> = Vec::new();
    let mut i: usize = 0;
    while i < total
        invariant
            1 <= n <= 4,
            total == n * n,
            n * n <= 16,
            a@.len() == n * n,
            i <= total,
            cells@.len() == i,
            forall|j: int| 0 <= j < i ==> gv(cells@)[j] == transpose_u(gv(a@), n as int)[j],
        decreases total - i,
    {
        proof {
            lemma_flat_decompose(n as int, i as int);
            lemma_rc_index(n as int, (i % n) as int, (i / n) as int);
        }
        let r: usize = i / n;
        let c: usize = i % n;
        let v = a[c * n + r];
        let ghost prev = cells@;
        cells.push(v);
        proof {
            lemma_gv_push(prev, v);
            assert forall|j: int| 0 <= j < i + 1 implies gv(cells@)[j] == transpose_u(
                gv(a@),
                n as int,
            )[j] by {
                if j < i {
                    assert(gv(cells@)[j] == gv(prev)[j]);
                } else {
                    assert(gv(cells@)[j] == v@);
                    assert(transpose_u(gv(a@), n as int)[j] == ent(
                        gv(a@),
                        n as int,
                        j % (n as int),
                        j / (n as int),
                    ));
                }
            }
        }
        i = i + 1;
    }
    proof {
        assert(gv(cells@) =~= transpose_u(gv(a@), n as int));
    }
    cells
}

/// Cells of the submatrix with one row and one column deleted.
fn build_sub(a: &Vec<Scalar>, n: usize, row: usize, col: usize) -> (out: Vec<Scalar>)
    requires
        2 <= n <= 4,
        row < n,
        col < n,
        a@.len() == n * n,
    ensures
        out@.len() == (n - 1) * (n - 1),
        gv(out@) == sub_u(gv(a@), n as int, row as int, col as int),
{
    proof {
        assert(n * n <= 16 && (n - 1) * (n - 1) <= 16) by (nonlinear_arith)
            requires
                2 <= n <= 4,
        ;
    }
    let small: usize = n - 1;
    let total: usize = small * small;
    let mut cells: Vec<Scalar> = Vec::new();
    let mut i: usize = 0;
    while i < total
        invariant
            2 <= n <= 4,
            small == n - 1,
            total == small * small,
            n * n <= 16,
            total <= 16,
            row < n,
            col < n,
            a@.len() == n * n,
            i <= total,
            cells@.len() == i,
            forall|j: int|
                0 <= j < i ==> gv(cells@)[j] == sub_u(
                    gv(a@),
                    n as int,
                    row as int,
                    col as int,
                )[j],
        decreases total - i,
    {
        proof {
            lemma_flat_decompose(small as int, i as int);
        }
        let r: usize = i / small;
        let c: usize = i % small;
        let rr: usize = if r < row {
            r
        } else {
            r + 1
        };
        let cc: usize = if c < col {
            c
        } else {
            c + 1
        };
        proof {
            lemma_rc_index(n as int, rr as int, cc as int);
        }
        let v = a[rr * n + cc];
        let ghost prev = cells@;
        cells.push(v);
        proof {
            lemma_gv_push(prev, v);
            assert forall|j: int| 0 <= j < i + 1 implies gv(cells@)[j] == sub_u(
                gv(a@),
                n as int,
                row as int,
                col as int,
            )[j] by {
                if j < i {
                    assert(gv(cells@)[j] == gv(prev)[j]);
                } else {
                    assert(gv(cells@)[j] == v@);
                    assert(sub_u(gv(a@), n as int, row as int, col as int)[j] == ent(
                        gv(a@),
                        n as int,
                        if j / (small as int) < row {
                            j / (small as int)
                        } else {
                            j / (small as int) + 1
                        },
                        if j % (small as int) < col {
                            j % (small as int)
                        } else {
                            j % (small as int) + 1
                        },
                    ));
                }
            }
        }
        i = i + 1;
    }
    proof {
        assert(gv(cells@) =~= sub_u(gv(a@), n as int, row as int, col as int));
    }
    cells
}

/// Cells of the matrix product.
fn build_mul(a: &Vec<Scalar>, b: &Vec<Scalar>, n: usize) -> (out: Vec<Scalar>)
    requires
        1 <= n <= 4,
        a@.len() == n * n,
        b@.len() == n * n,
        mmul_ok(gv(a@), gv(b@), n as int),
    ensures
        out@.len() == n * n,
        gv(out@) == mmul_u(gv(a@), gv(b@), n as int),
{
    proof {
        assert(n * n <= 16) by (nonlinear_arith)
            requires
                n <= 4,
        ;
    }
    let total: usize = n * n;
    let mut cells: Vec<Scalar> = Vec::new();
    let mut i: usize = 0;
    while i < total
        invariant
            1 <= n <= 4,
            total == n * n,
            n * n <= 16,
            a@.len() == n * n,
            b@.len() == n * n,
            mmul_ok(gv(a@), gv(b@), n as int),
            i <= total,
            cells@.len() == i,
            forall|j: int| 0 <= j < i ==> gv(cells@)[j] == mmul_u(gv(a@), gv(b@), n as int)[j],
        decreases total - i,
    {
        proof {
            lemma_flat_decompose(n as int, i as int);
        }
        let r: usize = i / n;
        let c: usize = i % n;
        let mut acc: Scalar = Scalar::from_units(0);
        let mut k: usize = 0;
        while k < n
            invariant
                1 <= n <= 4,
                n * n <= 16,
                r < n,
                c < n,
                a@.len() == n * n,
                b@.len() == n * n,
                mmul_ok(gv(a@), gv(b@), n as int),
                k <= n,
                acc@ == mmul_cell(gv(a@), gv(b@), n as int, r as int, c as int, k as int),
            decreases n - k,
        {
            proof {
                lemma_rc_index(n as int, r as int, k as int);
                lemma_rc_index(n as int, k as int, c as int);
                assert(fits(mmul_cell(gv(a@), gv(b@), n as int, r as int, c as int, k + 1)));
                assert(fits(
                    fp_mul(
                        ent(gv(a@), n as int, r as int, k as int),
                        ent(gv(b@), n as int, k as int, c as int),
                    ),
                ));
                assert(ent(gv(a@), n as int, r as int, k as int) == a@[r * n + k]@);
                assert(ent(gv(b@), n as int, k as int, c as int) == b@[k * n + c]@);
            }
            let term = a[r * n + k].mul(b[k * n + c]);
            acc = acc.add(term);
            k = k + 1;
        }
        let ghost prev = cells@;
        cells.push(acc);
        proof {
            lemma_gv_push(prev, acc);
            assert forall|j: int| 0 <= j < i + 1 implies gv(cells@)[j] == mmul_u(
                gv(a@),
                gv(b@),
                n as int,
            )[j] by {
                if j < i {
                    assert(gv(cells@)[j] == gv(prev)[j]);
                } else {
                    assert(gv(cells@)[j] == acc@);
                    assert(mmul_u(gv(a@), gv(b@), n as int)[j] == mmul_cell(
                        gv(a@),
                        gv(b@),
                        n as int,
                        j / (n as int),
                        j % (n as int),
                        n as int,
                    ));
                }
            }
        }
        i = i + 1;
    }
    proof {
        assert(gv(cells@) =~= mmul_u(gv(a@), gv(b@), n as int));
    }
    cells
}

/// Whether every pair of cells is loosely close.
fn grids_approx_low(a: &Vec<Scalar>, b: &Vec<Scalar>) -> (r: bool)
    requires
        a@.len() == b@.len(),
    ensures
        r == grid_approx_low(gv(a@), gv(b@)),
{
    let mut i: usize = 0;
    let total: usize = a.len();
    while i < total
        invariant
            total == a@.len(),
            a@.len() == b@.len(),
            i <= total,
            forall|j: int| 0 <= j < i ==> approx_low_units(#[trigger] gv(a@)[j], gv(b@)[j]),
        decreases total - i,
    {
        proof {
            assert(gv(a@)[i as int] == a@[i as int]@);
            assert(gv(b@)[i as int] == b@[i as int]@);
        }
        if !a[i].approx_eq_low_precision(b[i]) {
            return false;
        }
        i = i + 1;
    }
    true
}

/// Row-major cells collected from rows of scalars.
fn build_from_rows(rows: &Vec<Vec<Scalar>>, n: usize) -> (out: Vec<Scalar>)
    requires
        1 <= n <= 4,
        rows@.len() == n,
        forall|i: int| 0 <= i < n ==> #[trigger] rows@[i]@.len() == n,
    ensures
        out@.len() == n * n,
        forall|r: int, c: int|
            0 <= r < n && 0 <= c < n ==> ent(gv(out@), n as int, r, c) == rows@[r]@[c]@,
{
    proof {
        assert(n * n <= 16) by (nonlinear_arith)
            requires
                n <= 4,
        ;
    }
    let total: usize = n * n;
    let mut cells: Vec<Scalar> = Vec::new();
    let mut i: usize = 0;
    while i < total
        invariant
            1 <= n <= 4,
            total == n * n,
            rows@.len() == n,
            forall|t: int| 0 <= t < n ==> #[trigger] rows@[t]@.len() == n,
            i <= total,
            cells@.len() == i,
            forall|j: int|
                0 <= j < i ==> gv(cells@)[j] == rows@[j / (n as int)]@[j % (n as int)]@,
        decreases total - i,
    {
        proof {
            lemma_flat_decompose(n as int, i as int);
        }
        let r: usize = i / n;
        let c: usize = i % n;
        let v = rows[r][c];
        let ghost prev = cells@;
        cells.push(v);
        proof {
            lemma_gv_push(prev, v);
            assert forall|j: int| 0 <= j < i + 1 implies gv(cells@)[j] == rows@[j / (n as int)]@[j
                % (n as int)]@ by {
                if j < i {
                    assert(gv(cells@)[j] == gv(prev)[j]);
                } else {
                    assert(gv(cells@)[j] == v@);
                }
            }
        }
        i = i + 1;
    }
    proof {
        assert forall|r: int, c: int| 0 <= r < n && 0 <= c < n implies ent(
            gv(cells@),
            n as int,
            r,
            c,
        ) == rows@[r]@[c]@ by {
            lemma_rc_index(n as int, r, c);
            lemma_index_decompose(n as int, r, c);
        }
    }
    cells
}

// ---------------------------------------------------------------------------
// The two-by-two matrix.
// ---------------------------------------------------------------------------

/// Why a matrix could not be inverted.
#[derive(Clone, Copy, Debug, PartialEq, Eq, Structural)]
pub enum MatrixError {
    /// The determinant is approximately zero, so no inverse exists.
    NotInvertible,
}

/// A fresh vector holding the same scalars.
fn copy_cells(a: &Vec<Scalar>) -> (out: Vec<Scalar>)
    ensures
        out@ == a@,
{
    let mut cells: Vec<Scalar> = Vec::new();
    let mut i: usize = 0;
    while i < a.len()
        invariant
            i <= a@.len(),
            cells@.len() == i,
            forall|j: int| 0 <= j < i ==> cells@[j] == a@[j],
        decreases a@.len() - i,
    {
        cells.push(a[i]);
        i = i + 1;
    }
    proof {
        assert(cells@ =~= a@);
    }
    cells
}

/// A two-by-two matrix of scalars, row-major.
#[derive(Debug)]
pub struct Matrix2 {
    cells: Vec<Scalar>,
}

impl Clone for Matrix2 {
    /// The clone holds the same cells.
    fn clone(&self) -> (r: Self)
        ensures
            r@ == self@,
    {
        proof {
            use_type_invariant(&*self);
        }
        Matrix2 { cells: copy_cells(&self.cells) }
    }
}

impl View for Matrix2 {
    type V = Seq<int>;

    closed spec fn view(&self) -> Seq<int> {
        gv(self.cells@)
    }
}

impl Matrix2 {
    #[verifier::type_invariant]
    spec fn wf(self) -> bool {
        self.cells@.len() == 4
    }

    /// The zero matrix.
    pub fn new() -> (r: Self)
        ensures
            r@.len() == 4,
            forall|i: int| 0 <= i < 4 ==> r@[i] == 0,
    {
        Matrix2 { cells: build_zero(2) }
    }

    /// Matrix holding the given rows.
    pub fn from(rows: Vec<Vec<Scalar>>) -> (r: Self)
        requires
            rows@.len() == 2,
            forall|i: int| 0 <= i < 2 ==> #[trigger] rows@[i]@.len() == 2,
        ensures
            r@.len() == 4,
            forall|rr: int, cc: int|
                0 <= rr < 2 && 0 <= cc < 2 ==> ent(r@, 2, rr, cc) == rows@[rr]@[cc]@,
    {
        Matrix2 { cells: build_from_rows(&rows, 2) }
    }

    /// The identity matrix.
    pub fn identity() -> (r: Self)
        ensures
            r@ == id_u(2),
    {
        Matrix2 { cells: build_identity(2) }
    }

    /// Entry at the given row and column.
    pub fn at(&self, row: usize, col: usize) -> (r: Scalar)
        requires
            row < 2,
            col < 2,
        ensures
            r@ == ent(self@, 2, row as int, col as int),
    {
        proof {
            use_type_invariant(&*self);
        }
        self.cells[row * 2 + col]
    }

    /// Overwrite the entry at the given row and column.
    pub fn set(&mut self, row: usize, col: usize, value: Scalar)
        requires
            row < 2,
            col < 2,
        ensures
            final(self)@ == old(self)@.update(row * 2 + col, value@),
    {
        proof {
            use_type_invariant(&*self);
        }
        let i: usize = row * 2 + col;
        self.cells[i] = value;
        proof {
            assert(gv(self.cells@) =~= gv(old(self).cells@).update(i as int, value@));
        }
    }

    /// The transposed matrix.
    pub fn transpose(&self) -> (r: Self)
        ensures
            r@ == transpose_u(self@, 2),
    {
        proof {
            use_type_invariant(&*self);
        }
        Matrix2 { cells: build_transpose(&self.cells, 2) }
    }

    /// Matrix product.
    pub fn mul(&self, rhs: &Self) -> (r: Self)
        requires
            mmul_ok(self@, rhs@, 2),
        ensures
            r@ == mmul_u(self@, rhs@, 2),
    {
        proof {
            use_type_invariant(&*self);
            use_type_invariant(&*rhs);
        }
        Matrix2 { cells: build_mul(&self.cells, &rhs.cells, 2) }
    }

    /// Determinant: the two-term cross formula.
    pub fn determinant(&self) -> (r: Scalar)
        requires
            det2_ok(self@),
        ensures
            r@ == det2_u(self@),
    {
        let ad = self.at(0, 0).mul(self.at(1, 1));
        let bc = self.at(0, 1).mul(self.at(1, 0));
        ad.sub(bc)
    }
}

impl PartialEq for Matrix2 {
    /// Matrix equality is loose approximate equality on every cell.
    fn eq(&self, other: &Self) -> (r: bool) {
        proof {
            use_type_invariant(&*self);
            use_type_invariant(&*other);
        }
        grids_approx_low(&self.cells, &other.cells)
    }
}

impl vstd::std_specs::cmp::PartialEqSpecImpl for Matrix2 {
    open spec fn obeys_eq_spec() -> bool {
        true
    }

    open spec fn eq_spec(&self, other: &Matrix2) -> bool {
        grid_approx_low(self@, other@)
    }
}


// ---------------------------------------------------------------------------
// The three-by-three matrix.
// ---------------------------------------------------------------------------

/// A three-by-three matrix of scalars, row-major.
#[derive(Debug)]
pub struct Matrix3 {
    cells: Vec<Scalar>,
}

impl Clone for Matrix3 {
    /// The clone holds the same cells.
    fn clone(&self) -> (r: Self)
        ensures
            r@ == self@,
    {
        proof {
            use_type_invariant(&*self);
        }
        Matrix3 { cells: copy_cells(&self.cells) }
    }
}

impl View for Matrix3 {
    type V = Seq<int>;

    closed spec fn view(&self) -> Seq<int> {
        gv(self.cells@)
    }
}

impl Matrix3 {
    #[verifier::type_invariant]
    spec fn wf(self) -> bool {
        self.cells@.len() == 9
    }

    /// The zero matrix.
    pub fn new() -> (r: Self)
        ensures
            r@.len() == 9,
            forall|i: int| 0 <= i < 9 ==> r@[i] == 0,
    {
        Matrix3 { cells: build_zero(3) }
    }

    /// Matrix holding the given rows.
    pub fn from(rows: Vec<Vec<Scalar>>) -> (r: Self)
        requires
            rows@.len() == 3,
            forall|i: int| 0 <= i < 3 ==> #[trigger] rows@[i]@.len() == 3,
        ensures
            r@.len() == 9,
            forall|rr: int, cc: int|
                0 <= rr < 3 && 0 <= cc < 3 ==> ent(r@, 3, rr, cc) == rows@[rr]@[cc]@,
    {
        Matrix3 { cells: build_from_rows(&rows, 3) }
    }

    /// The identity matrix.
    pub fn identity() -> (r: Self)
        ensures
            r@ == id_u(3),
    {
        Matrix3 { cells: build_identity(3) }
    }

    /// Entry at the given row and column.
    pub fn at(&self, row: usize, col: usize) -> (r: Scalar)
        requires
            row < 3,
            col < 3,
        ensures
            r@ == ent(self@, 3, row as int, col as int),
    {
        proof {
            use_type_invariant(&*self);
        }
        self.cells[row * 3 + col]
    }

    /// Overwrite the entry at the given row and column.
    pub fn set(&mut self, row: usize, col: usize, value: Scalar)
        requires
            row < 3,
            col < 3,
        ensures
            final(self)@ == old(self)@.update(row * 3 + col, value@),
    {
        proof {
            use_type_invariant(&*self);
        }
        let i: usize = row * 3 + col;
        self.cells[i] = value;
        proof {
            assert(gv(self.cells@) =~= gv(old(self).cells@).update(i as int, value@));
        }
    }

    /// The transposed matrix.
    pub fn transpose(&self) -> (r: Self)
        ensures
            r@ == transpose_u(self@, 3),
    {
        proof {
            use_type_invariant(&*self);
        }
        Matrix3 { cells: build_transpose(&self.cells, 3) }
    }

    /// Matrix product.
    pub fn mul(&self, rhs: &Self) -> (r: Self)
        requires
            mmul_ok(self@, rhs@, 3),
        ensures
            r@ == mmul_u(self@, rhs@, 3),
    {
        proof {
            use_type_invariant(&*self);
            use_type_invariant(&*rhs);
        }
        Matrix3 { cells: build_mul(&self.cells, &rhs.cells, 3) }
    }

    /// The two-by-two matrix left after deleting one row and one column.
    pub fn submatrix(&self, row: usize, col: usize) -> (r: Matrix2)
        requires
            row < 3,
            col < 3,
        ensures
            r@ == sub_u(self@, 3, row as int, col as int),
    {
        proof {
            use_type_invariant(&*self);
        }
        Matrix2 { cells: build_sub(&self.cells, 3, row, col) }
    }

    /// Minor: determinant of the submatrix.
    pub fn minor(&self, row: usize, col: usize) -> (r: Scalar)
        requires
            row < 3,
            col < 3,
            cof3_ok(self@, row as int, col as int),
        ensures
            r@ == minor3_u(self@, row as int, col as int),
    {
        self.submatrix(row, col).determinant()
    }

    /// Cofactor: the minor under the checkerboard sign rule.
    pub fn cofactor(&self, row: usize, col: usize) -> (r: Scalar)
        requires
            row < 3,
            col < 3,
            cof3_ok(self@, row as int, col as int),
        ensures
            r@ == cof3_u(self@, row as int, col as int),
    {
        let m = self.minor(row, col);
        if (row + col) % 2 == 0 {
            m
        } else {
            m.neg()
        }
    }

    /// Determinant: cofactor expansion along row 0.
    pub fn determinant(&self) -> (r: Scalar)
        requires
            det3_ok(self@),
        ensures
            r@ == det3_u(self@),
    {
        let t0 = self.at(0, 0).mul(self.cofactor(0, 0));
        let t1 = self.at(0, 1).mul(self.cofactor(0, 1));
        let t2 = self.at(0, 2).mul(self.cofactor(0, 2));
        t0.add(t1).add(t2)
    }
}

impl PartialEq for Matrix3 {
    /// Matrix equality is loose approximate equality on every cell.
    fn eq(&self, other: &Self) -> (r: bool) {
        proof {
            use_type_invariant(&*self);
            use_type_invariant(&*other);
        }
        grids_approx_low(&self.cells, &other.cells)
    }
}

impl vstd::std_specs::cmp::PartialEqSpecImpl for Matrix3 {
    open spec fn obeys_eq_spec() -> bool {
        true
    }

    open spec fn eq_spec(&self, other: &Matrix3) -> bool {
        grid_approx_low(self@, other@)
    }
}

/// Unit count of one row of the homogeneous matrix-tuple product.
pub open spec fn trow_u(m: Seq<int>, r: int, x: int, y: int, z: int, w: int) -> int {
    fp_mul(ent(m, 4, r, 0), x) + fp_mul(ent(m, 4, r, 1), y) + fp_mul(ent(m, 4, r, 2), z) + fp_mul(
        ent(m, 4, r, 3),
        w,
    )
}

/// The row product's terms stay in the scalar range.
pub open spec fn trow_ok(m: Seq<int>, r: int, x: int, y: int, z: int, w: int) -> bool {
    &&& fits(fp_mul(ent(m, 4, r, 0), x))
    &&& fits(fp_mul(ent(m, 4, r, 1), y))
    &&& fits(fp_mul(ent(m, 4, r, 2), z))
    &&& fits(fp_mul(ent(m, 4, r, 3), w))
    &&& fits(fp_mul(ent(m, 4, r, 0), x) + fp_mul(ent(m, 4, r, 1), y))
    &&& fits(fp_mul(ent(m, 4, r, 0), x) + fp_mul(ent(m, 4, r, 1), y) + fp_mul(ent(m, 4, r, 2), z))
    &&& fits(trow_u(m, r, x, y, z, w))
}

// ---------------------------------------------------------------------------
// The four-by-four matrix.
// ---------------------------------------------------------------------------

/// A four-by-four matrix of scalars, row-major.
#[derive(Debug)]
pub struct Matrix4 {
    cells: Vec<Scalar>,
}

impl Clone for Matrix4 {
    /// The clone holds the same cells.
    fn clone(&self) -> (r: Self)
        ensures
            r@ == self@,
    {
        proof {
            use_type_invariant(&*self);
        }
        Matrix4 { cells: copy_cells(&self.cells) }
    }
}

impl View for Matrix4 {
    type V = Seq<int>;

    closed spec fn view(&self) -> Seq<int> {
        gv(self.cells@)
    }
}

impl Matrix4 {
    #[verifier::type_invariant]
    spec fn wf(self) -> bool {
        self.cells@.len() == 16
    }

    /// The zero matrix.
    pub fn new() -> (r: Self)
        ensures
            r@.len() == 16,
            forall|i: int| 0 <= i < 16 ==> r@[i] == 0,
    {
        Matrix4 { cells: build_zero(4) }
    }

    /// Matrix holding the given rows.
    pub fn from(rows: Vec<Vec<Scalar>>) -> (r: Self)
        requires
            rows@.len() == 4,
            forall|i: int| 0 <= i < 4 ==> #[trigger] rows@[i]@.len() == 4,
        ensures
            r@.len() == 16,
            forall|rr: int, cc: int|
                0 <= rr < 4 && 0 <= cc < 4 ==> ent(r@, 4, rr, cc) == rows@[rr]@[cc]@,
    {
        Matrix4 { cells: build_from_rows(&rows, 4) }
    }

    /// The identity matrix.
    pub fn identity() -> (r: Self)
        ensures
            r@ == id_u(4),
    {
        Matrix4 { cells: build_identity(4) }
    }

    /// Entry at the given row and column.
    pub fn at(&self, row: usize, col: usize) -> (r: Scalar)
        requires
            row < 4,
            col < 4,
        ensures
            r@ == ent(self@, 4, row as int, col as int),
    {
        proof {
            use_type_invariant(&*self);
        }
        self.cells[row * 4 + col]
    }

    /// Overwrite the entry at the given row and column.
    pub fn set(&mut self, row: usize, col: usize, value: Scalar)
        requires
            row < 4,
            col < 4,
        ensures
            final(self)@ == old(self)@.update(row * 4 + col, value@),
    {
        proof {
            use_type_invariant(&*self);
        }
        let i: usize = row * 4 + col;
        self.cells[i] = value;
        proof {
            assert(gv(self.cells@) =~= gv(old(self).cells@).update(i as int, value@));
        }
    }

    /// The transposed matrix.
    pub fn transpose(&self) -> (r: Self)
        ensures
            r@ == transpose_u(self@, 4),
    {
        proof {
            use_type_invariant(&*self);
        }
        Matrix4 { cells: build_transpose(&self.cells, 4) }
    }

    /// Matrix product.
    pub fn mul(&self, rhs: &Self) -> (r: Self)
        requires
            mmul_ok(self@, rhs@, 4),
        ensures
            r@ == mmul_u(self@, rhs@, 4),
    {
        proof {
            use_type_invariant(&*self);
            use_type_invariant(&*rhs);
        }
        Matrix4 { cells: build_mul(&self.cells, &rhs.cells, 4) }
    }

    /// The three-by-three matrix left after deleting one row and one column.
    pub fn submatrix(&self, row: usize, col: usize) -> (r: Matrix3)
        requires
            row < 4,
            col < 4,
        ensures
            r@ == sub_u(self@, 4, row as int, col as int),
    {
        proof {
            use_type_invariant(&*self);
        }
        Matrix3 { cells: build_sub(&self.cells, 4, row, col) }
    }

    /// Minor: determinant of the submatrix.
    pub fn minor(&self, row: usize, col: usize) -> (r: Scalar)
        requires
            row < 4,
            col < 4,
            cof4_ok(self@, row as int, col as int),
        ensures
            r@ == minor4_u(self@, row as int, col as int),
    {
        self.submatrix(row, col).determinant()
    }

    /// Cofactor: the minor under the checkerboard sign rule.
    pub fn cofactor(&self, row: usize, col: usize) -> (r: Scalar)
        requires
            row < 4,
            col < 4,
            cof4_ok(self@, row as int, col as int),
        ensures
            r@ == cof4_u(self@, row as int, col as int),
    {
        let m = self.minor(row, col);
        if (row + col) % 2 == 0 {
            m
        } else {
            m.neg()
        }
    }

    /// Determinant: cofactor expansion along row 0.
    pub fn determinant(&self) -> (r: Scalar)
        requires
            det4_ok(self@),
        ensures
            r@ == det4_u(self@),
    {
        let t0 = self.at(0, 0).mul(self.cofactor(0, 0));
        let t1 = self.at(0, 1).mul(self.cofactor(0, 1));
        let t2 = self.at(0, 2).mul(self.cofactor(0, 2));
        let t3 = self.at(0, 3).mul(self.cofactor(0, 3));
        t0.add(t1).add(t2).add(t3)
    }

    /// Whether the matrix has an inverse: the determinant is not tightly
    /// close to zero.
    pub fn is_invertible(&self) -> (r: bool)
        requires
            det4_ok(self@),
        ensures
            r == invertible_u(self@),
    {
        let det = self.determinant();
        !det.approx_eq(Scalar::from_units(0))
    }

    /// The inverse, by the transposed adjugate over the determinant; a
    /// matrix whose determinant is approximately zero has none, and the
    /// error result says so.
    pub fn invert(&self) -> (r: Result<Matrix4, MatrixError>)
        requires
            invert_ok(self@),
        ensures
            r is Ok <==> invertible_u(self@),
            r matches Ok(m2) ==> m2@ == inv_u(self@),
    {
        if !self.is_invertible() {
            return Err(MatrixError::NotInvertible);
        }
        let det = self.determinant();
        let mut cells: Vec<Scalar> = Vec::new();
        let mut i: usize = 0;
        while i < 16
            invariant
                invert_ok(self@),
                det@ == det4_u(self@),
                det@ != 0,
                i <= 16,
                cells@.len() == i,
                forall|j: int| 0 <= j < i ==> gv(cells@)[j] == inv_u(self@)[j],
            decreases 16 - i,
        {
            proof {
                lemma_flat_decompose(4, i as int);
                assert(cof4_ok(self@, (i % 4) as int, (i / 4) as int));
                assert(fits(inv_entry_u(self@, (i / 4) as int, (i % 4) as int)));
            }
            let rr: usize = i / 4;
            let cc: usize = i % 4;
            let v = self.cofactor(cc, rr).div(det);
            let ghost prev = cells@;
            cells.push(v);
            proof {
                lemma_gv_push(prev, v);
                assert forall|j: int| 0 <= j < i + 1 implies gv(cells@)[j] == inv_u(self@)[j] by {
                    if j < i {
                        assert(gv(cells@)[j] == gv(prev)[j]);
                    } else {
                        assert(gv(cells@)[j] == v@);
                        assert(inv_u(self@)[j] == inv_entry_u(self@, j / 4, j % 4));
                    }
                }
            }
            i = i + 1;
        }
        proof {
            assert(gv(cells@) =~= inv_u(self@));
        }
        Ok(Matrix4 { cells })
    }

    /// Homogeneous matrix-tuple product: the tuple is read as (x, y, z, w)
    /// with w fixed by its variant, and the first three coordinates of the
    /// product rebuild the same variant.
    pub fn mul_tuple<T: Tuple>(&self, rhs: &T) -> (r: T)
        requires
            trow_ok(self@, 0, rhs.ux(), rhs.uy(), rhs.uz(), rhs.uw()),
            trow_ok(self@, 1, rhs.ux(), rhs.uy(), rhs.uz(), rhs.uw()),
            trow_ok(self@, 2, rhs.ux(), rhs.uy(), rhs.uz(), rhs.uw()),
        ensures
            r.ux() == trow_u(self@, 0, rhs.ux(), rhs.uy(), rhs.uz(), rhs.uw()),
            r.uy() == trow_u(self@, 1, rhs.ux(), rhs.uy(), rhs.uz(), rhs.uw()),
            r.uz() == trow_u(self@, 2, rhs.ux(), rhs.uy(), rhs.uz(), rhs.uw()),
    {
        let x = rhs.x();
        let y = rhs.y();
        let z = rhs.z();
        let w = rhs.w();
        let rx = self.row_dot(0, x, y, z, w);
        let ry = self.row_dot(1, x, y, z, w);
        let rz = self.row_dot(2, x, y, z, w);
        T::new(rx, ry, rz)
    }

    /// One row of the matrix dotted with a homogeneous column.
    fn row_dot(&self, row: usize, x: Scalar, y: Scalar, z: Scalar, w: Scalar) -> (r: Scalar)
        requires
            row < 4,
            trow_ok(self@, row as int, x@, y@, z@, w@),
        ensures
            r@ == trow_u(self@, row as int, x@, y@, z@, w@),
    {
        let t0 = self.at(row, 0).mul(x);
        let t1 = self.at(row, 1).mul(y);
        let t2 = self.at(row, 2).mul(z);
        let t3 = self.at(row, 3).mul(w);
        t0.add(t1).add(t2).add(t3)
    }
}

impl PartialEq for Matrix4 {
    /// Matrix equality is loose approximate equality on every cell.
    fn eq(&self, other: &Self) -> (r: bool) {
        proof {
            use_type_invariant(&*self);
            use_type_invariant(&*other);
        }
        grids_approx_low(&self.cells, &other.cells)
    }
}

impl vstd::std_specs::cmp::PartialEqSpecImpl for Matrix4 {
    open spec fn obeys_eq_spec() -> bool {
        true
    }

    open spec fn eq_spec(&self, other: &Matrix4) -> bool {
        grid_approx_low(self@, other@)
    }
}

// ---------------------------------------------------------------------------
// Algebraic laws of the grid operations.
// ---------------------------------------------------------------------------

/// Partial sums against the identity keep exactly the entry passed when the
/// diagonal term goes by, and nothing else.
proof fn lemma_mmul_cell_identity(m: Seq<int>, n: int, r: int, c: int, k: int)
    requires
        0 <= r < n,
        0 <= c < n,
        0 <= k <= n,
    ensures
        mmul_cell(m, id_u(n), n, r, c, k) == if c < k {
            ent(m, n, r, c)
        } else {
            0
        },
    decreases k,
{
    if k > 0 {
        lemma_mmul_cell_identity(m, n, r, c, k - 1);
        lemma_id_ent(n, k - 1, c);
        lemma_fp_mul_scale(ent(m, n, r, k - 1));
        lemma_fp_mul_zero(ent(m, n, r, k - 1));
    }
}

/// Multiplying any square grid by the identity on the right leaves it
/// unchanged.
pub proof fn lemma_mul_identity(m: Seq<int>, n: int)
    requires
        n >= 1,
        m.len() == n * n,
    ensures
        mmul_u(m, id_u(n), n) == m,
{
    assert forall|r: int, c: int| 0 <= r < n && 0 <= c < n implies #[trigger] ent(
        mmul_u(m, id_u(n), n),
        n,
        r,
        c,
    ) == ent(m, n, r, c) by {
        lemma_mmul_ent(m, id_u(n), n, r, c);
        lemma_mmul_cell_identity(m, n, r, c, n);
    }
    lemma_grid_eq(mmul_u(m, id_u(n), n), m, n);
}

/// The identity matrix maps any homogeneous tuple to itself.
pub proof fn lemma_identity_mul_tuple(x: int, y: int, z: int, w: int)
    ensures
        trow_u(id_u(4), 0, x, y, z, w) == x,
        trow_u(id_u(4), 1, x, y, z, w) == y,
        trow_u(id_u(4), 2, x, y, z, w) == z,
{
    lemma_id_ent(4, 0, 0);
    lemma_id_ent(4, 0, 1);
    lemma_id_ent(4, 0, 2);
    lemma_id_ent(4, 0, 3);
    lemma_id_ent(4, 1, 0);
    lemma_id_ent(4, 1, 1);
    lemma_id_ent(4, 1, 2);
    lemma_id_ent(4, 1, 3);
    lemma_id_ent(4, 2, 0);
    lemma_id_ent(4, 2, 1);
    lemma_id_ent(4, 2, 2);
    lemma_id_ent(4, 2, 3);
    lemma_fp_mul_comm(SCALE as int, x);
    lemma_fp_mul_comm(SCALE as int, y);
    lemma_fp_mul_comm(SCALE as int, z);
    lemma_fp_mul_scale(x);
    lemma_fp_mul_scale(y);
    lemma_fp_mul_scale(z);
    lemma_fp_mul_zero(x);
    lemma_fp_mul_zero(y);
    lemma_fp_mul_zero(z);
    lemma_fp_mul_zero(w);
}

/// Transposing twice returns the original grid.
pub proof fn lemma_transpose_involution(m: Seq<int>, n: int)
    requires
        n >= 1,
        m.len() == n * n,
    ensures
        transpose_u(transpose_u(m, n), n) == m,
{
    assert forall|r: int, c: int| 0 <= r < n && 0 <= c < n implies #[trigger] ent(
        transpose_u(transpose_u(m, n), n),
        n,
        r,
        c,
    ) == ent(m, n, r, c) by {
        lemma_transpose_ent(transpose_u(m, n), n, r, c);
        lemma_transpose_ent(m, n, c, r);
    }
    lemma_grid_eq(transpose_u(transpose_u(m, n), n), m, n);
}

/// The identity is its own transpose.
pub proof fn lemma_transpose_identity(n: int)
    requires
        n >= 1,
    ensures
        transpose_u(id_u(n), n) == id_u(n),
{
    assert forall|r: int, c: int| 0 <= r < n && 0 <= c < n implies #[trigger] ent(
        transpose_u(id_u(n), n),
        n,
        r,
        c,
    ) == ent(id_u(n), n, r, c) by {
        lemma_transpose_ent(id_u(n), n, r, c);
        lemma_id_ent(n, r, c);
        lemma_id_ent(n, c, r);
    }
    lemma_grid_eq(transpose_u(id_u(n), n), id_u(n), n);
}

/// A two-by-two grid whose bottom row is all zero has determinant zero.
proof fn lemma_zero_last_row_det2(m: Seq<int>)
    requires
        ent(m, 2, 1, 0) == 0,
        ent(m, 2, 1, 1) == 0,
    ensures
        det2_u(m) == 0,
{
    lemma_fp_mul_zero(ent(m, 2, 0, 0));
    lemma_fp_mul_zero(ent(m, 2, 0, 1));
}

/// A three-by-three grid whose bottom row is all zero has determinant zero.
proof fn lemma_zero_last_row_det3(m: Seq<int>)
    requires
        ent(m, 3, 2, 0) == 0,
        ent(m, 3, 2, 1) == 0,
        ent(m, 3, 2, 2) == 0,
    ensures
        det3_u(m) == 0,
{
    lemma_sub_ent(m, 3, 0, 0, 1, 0);
    lemma_sub_ent(m, 3, 0, 0, 1, 1);
    lemma_zero_last_row_det2(sub_u(m, 3, 0, 0));
    lemma_sub_ent(m, 3, 0, 1, 1, 0);
    lemma_sub_ent(m, 3, 0, 1, 1, 1);
    lemma_zero_last_row_det2(sub_u(m, 3, 0, 1));
    lemma_sub_ent(m, 3, 0, 2, 1, 0);
    lemma_sub_ent(m, 3, 0, 2, 1, 1);
    lemma_zero_last_row_det2(sub_u(m, 3, 0, 2));
    lemma_fp_mul_zero(ent(m, 3, 0, 0));
    lemma_fp_mul_zero(ent(m, 3, 0, 1));
    lemma_fp_mul_zero(ent(m, 3, 0, 2));
}

/// A four-by-four grid whose bottom row is all zero has determinant zero,
/// so it is not invertible.
pub proof fn lemma_zero_last_row_not_invertible(m: Seq<int>)
    requires
        ent(m, 4, 3, 0) == 0,
        ent(m, 4, 3, 1) == 0,
        ent(m, 4, 3, 2) == 0,
        ent(m, 4, 3, 3) == 0,
    ensures
        det4_u(m) == 0,
        !invertible_u(m),
{
    lemma_sub_ent(m, 4, 0, 0, 2, 0);
    lemma_sub_ent(m, 4, 0, 0, 2, 1);
    lemma_sub_ent(m, 4, 0, 0, 2, 2);
    lemma_zero_last_row_det3(sub_u(m, 4, 0, 0));
    lemma_sub_ent(m, 4, 0, 1, 2, 0);
    lemma_sub_ent(m, 4, 0, 1, 2, 1);
    lemma_sub_ent(m, 4, 0, 1, 2, 2);
    lemma_zero_last_row_det3(sub_u(m, 4, 0, 1));
    lemma_sub_ent(m, 4, 0, 2, 2, 0);
    lemma_sub_ent(m, 4, 0, 2, 2, 1);
    lemma_sub_ent(m, 4, 0, 2, 2, 2);
    lemma_zero_last_row_det3(sub_u(m, 4, 0, 2));
    lemma_sub_ent(m, 4, 0, 3, 2, 0);
    lemma_sub_ent(m, 4, 0, 3, 2, 1);
    lemma_sub_ent(m, 4, 0, 3, 2, 2);
    lemma_zero_last_row_det3(sub_u(m, 4, 0, 3));
    lemma_fp_mul_zero(ent(m, 4, 0, 0));
    lemma_fp_mul_zero(ent(m, 4, 0, 1));
    lemma_fp_mul_zero(ent(m, 4, 0, 2));
    lemma_fp_mul_zero(ent(m, 4, 0, 3));
}

// ---------------------------------------------------------------------------
// Entry bounds that put a grid inside every operation's scalar range.
// ---------------------------------------------------------------------------

/// All entries at most `v` whole values in magnitude.
pub open spec fn entries_within(m: Seq<int>, v: int) -> bool {
    forall|i: int| 0 <= i < m.len() ==> iabs(#[trigger] m[i]) <= v * (SCALE as int)
}

/// Deleting a row and a column keeps the entry bound.
proof fn lemma_sub_within(m: Seq<int>, n: int, row: int, col: int, v: int)
    requires
        2 <= n,
        m.len() == n * n,
        0 <= row < n,
        0 <= col < n,
        entries_within(m, v),
    ensures
        entries_within(sub_u(m, n, row, col), v),
{
    let sub = sub_u(m, n, row, col);
    assert forall|i: int| 0 <= i < sub.len() implies iabs(sub[i]) <= v * (SCALE as int) by {
        lemma_flat_decompose(n - 1, i);
        let r = i / (n - 1);
        let c = i % (n - 1);
        let rr = if r < row {
            r
        } else {
            r + 1
        };
        let cc = if c < col {
            c
        } else {
            c + 1
        };
        lemma_rc_index(n, rr, cc);
        assert(sub[i] == m[rr * n + cc]);
        assert(iabs(m[rr * n + cc]) <= v * (SCALE as int));
    }
}

/// Entries of at most `v` keep the two-by-two determinant in range, with
/// magnitude at most twice the squared bound.
pub proof fn lemma_det2_within(m: Seq<int>, v: int)
    requires
        m.len() == 4,
        0 <= v,
        2 * (v * v) <= 500000000000,
        entries_within(m, v),
    ensures
        det2_ok(m),
        iabs(det2_u(m)) <= (2 * (v * v)) * (SCALE as int),
{
    let s = SCALE as int;
    assert(iabs(m[0]) <= v * s);
    assert(iabs(m[1]) <= v * s);
    assert(iabs(m[2]) <= v * s);
    assert(iabs(m[3]) <= v * s);
    lemma_fp_mul_value_bound(ent(m, 2, 0, 0), ent(m, 2, 1, 1), v, v);
    lemma_fp_mul_value_bound(ent(m, 2, 0, 1), ent(m, 2, 1, 0), v, v);
    assert(0 <= v * v && (v * v) * s + (v * v) * s == (2 * (v * v)) * s) by (nonlinear_arith)
        requires
            0 <= v,
    ;
    assert((2 * (v * v)) * s <= LIMIT as int) by (nonlinear_arith)
        requires
            0 <= 2 * (v * v) <= 500000000000,
            s == 10000000,
    ;
}

/// Entries of at most `v` keep a three-by-three cofactor in range.
pub proof fn lemma_cof3_within(m: Seq<int>, r: int, c: int, v: int)
    requires
        m.len() == 9,
        0 <= r < 3,
        0 <= c < 3,
        0 <= v,
        2 * (v * v) <= 500000000000,
        entries_within(m, v),
    ensures
        cof3_ok(m, r, c),
        iabs(cof3_u(m, r, c)) <= (2 * (v * v)) * (SCALE as int),
{
    lemma_sub_within(m, 3, r, c, v);
    lemma_det2_within(sub_u(m, 3, r, c), v);
}

/// Entries of at most `v` keep the three-by-three determinant in range,
/// with magnitude at most six times the cubed bound.
pub proof fn lemma_det3_within(m: Seq<int>, v: int)
    requires
        m.len() == 9,
        0 <= v,
        6 * ((v * v) * v) <= 500000000000,
        entries_within(m, v),
    ensures
        det3_ok(m),
        iabs(det3_u(m)) <= (6 * ((v * v) * v)) * (SCALE as int),
{
    let s = SCALE as int;
    assert(2 * (v * v) <= 500000000000 && 0 <= (v * v) * v) by (nonlinear_arith)
        requires
            0 <= v,
            6 * ((v * v) * v) <= 500000000000,
    ;
    lemma_cof3_within(m, 0, 0, v);
    lemma_cof3_within(m, 0, 1, v);
    lemma_cof3_within(m, 0, 2, v);
    assert(iabs(m[0]) <= v * s);
    assert(iabs(m[1]) <= v * s);
    assert(iabs(m[2]) <= v * s);
    lemma_fp_mul_value_bound(ent(m, 3, 0, 0), cof3_u(m, 0, 0), v, 2 * (v * v));
    lemma_fp_mul_value_bound(ent(m, 3, 0, 1), cof3_u(m, 0, 1), v, 2 * (v * v));
    lemma_fp_mul_value_bound(ent(m, 3, 0, 2), cof3_u(m, 0, 2), v, 2 * (v * v));
    assert((v * (2 * (v * v))) * s + (v * (2 * (v * v))) * s + (v * (2 * (v * v))) * s == (6 * ((v
        * v) * v)) * s) by (nonlinear_arith);
    assert(0 <= v * (2 * (v * v))) by (nonlinear_arith)
        requires
            0 <= v,
    ;
    assert((6 * ((v * v) * v)) * s <= LIMIT as int) by (nonlinear_arith)
        requires
            0 <= 6 * ((v * v) * v) <= 500000000000,
            s == 10000000,
    ;
}

/// Entries of at most `v` keep a four-by-four cofactor in range.
pub proof fn lemma_cof4_within(m: Seq<int>, r: int, c: int, v: int)
    requires
        m.len() == 16,
        0 <= r < 4,
        0 <= c < 4,
        0 <= v,
        6 * ((v * v) * v) <= 500000000000,
        entries_within(m, v),
    ensures
        cof4_ok(m, r, c),
        iabs(cof4_u(m, r, c)) <= (6 * ((v * v) * v)) * (SCALE as int),
{
    lemma_sub_within(m, 4, r, c, v);
    lemma_det3_within(sub_u(m, 4, r, c), v);
}

/// Entries of at most `v` keep the four-by-four determinant in range, with
/// magnitude at most twenty-four times the fourth power of the bound.
pub proof fn lemma_det4_within(m: Seq<int>, v: int)
    requires
        m.len() == 16,
        0 <= v,
        24 * (((v * v) * v) * v) <= 500000000000,
        entries_within(m, v),
    ensures
        det4_ok(m),
        iabs(det4_u(m)) <= (24 * (((v * v) * v) * v)) * (SCALE as int),
{
    let s = SCALE as int;
    assert(6 * ((v * v) * v) <= 500000000000 && 0 <= ((v * v) * v) * v) by (nonlinear_arith)
        requires
            0 <= v,
            24 * (((v * v) * v) * v) <= 500000000000,
    ;
    lemma_cof4_within(m, 0, 0, v);
    lemma_cof4_within(m, 0, 1, v);
    lemma_cof4_within(m, 0, 2, v);
    lemma_cof4_within(m, 0, 3, v);
    assert(iabs(m[0]) <= v * s);
    assert(iabs(m[1]) <= v * s);
    assert(iabs(m[2]) <= v * s);
    assert(iabs(m[3]) <= v * s);
    lemma_fp_mul_value_bound(ent(m, 4, 0, 0), cof4_u(m, 0, 0), v, 6 * ((v * v) * v));
    lemma_fp_mul_value_bound(ent(m, 4, 0, 1), cof4_u(m, 0, 1), v, 6 * ((v * v) * v));
    lemma_fp_mul_value_bound(ent(m, 4, 0, 2), cof4_u(m, 0, 2), v, 6 * ((v * v) * v));
    lemma_fp_mul_value_bound(ent(m, 4, 0, 3), cof4_u(m, 0, 3), v, 6 * ((v * v) * v));
    assert((v * (6 * ((v * v) * v))) * s + (v * (6 * ((v * v) * v))) * s + (v * (6 * ((v * v) * v)))
        * s + (v * (6 * ((v * v) * v))) * s == (24 * (((v * v) * v) * v)) * s) by (nonlinear_arith);
    assert(0 <= v * (6 * ((v * v) * v))) by (nonlinear_arith)
        requires
            0 <= v,
    ;
    assert((24 * (((v * v) * v) * v)) * s <= LIMIT as int) by (nonlinear_arith)
        requires
            0 <= 24 * (((v * v) * v) * v) <= 500000000000,
            s == 10000000,
    ;
}

/// Partial product sums grow by one squared bound per term.
proof fn lemma_mmul_cell_within(a: Seq<int>, b: Seq<int>, n: int, r: int, c: int, k: int, v: int)
    requires
        a.len() == n * n,
        b.len() == n * n,
        1 <= n <= 4,
        0 <= r < n,
        0 <= c < n,
        0 <= k <= n,
        0 <= v,
        entries_within(a, v),
        entries_within(b, v),
    ensures
        iabs(mmul_cell(a, b, n, r, c, k)) <= (k * (v * v)) * (SCALE as int),
    decreases k,
{
    let s = SCALE as int;
    if k > 0 {
        lemma_mmul_cell_within(a, b, n, r, c, k - 1, v);
        lemma_rc_index(n, r, k - 1);
        lemma_rc_index(n, k - 1, c);
        assert(iabs(a[r * n + (k - 1)]) <= v * s);
        assert(iabs(b[(k - 1) * n + c]) <= v * s);
        lemma_fp_mul_value_bound(ent(a, n, r, k - 1), ent(b, n, k - 1, c), v, v);
        assert(((k - 1) * (v * v)) * s + (v * v) * s == (k * (v * v)) * s) by (nonlinear_arith);
    }
}

/// Entries of at most `v` keep every term of the matrix product in range.
pub proof fn lemma_mmul_ok_within(a: Seq<int>, b: Seq<int>, n: int, v: int)
    requires
        a.len() == n * n,
        b.len() == n * n,
        1 <= n <= 4,
        0 <= v,
        4 * (v * v) <= 500000000000,
        entries_within(a, v),
        entries_within(b, v),
    ensures
        mmul_ok(a, b, n),
{
    let s = SCALE as int;
    assert((4 * (v * v)) * s <= LIMIT as int && 0 <= v * v) by (nonlinear_arith)
        requires
            0 <= v,
            4 * (v * v) <= 500000000000,
            s == 10000000,
    ;
    assert forall|r: int, c: int, k: int| 0 <= r < n && 0 <= c < n && 0 <= k <= n implies fits(
        #[trigger] mmul_cell(a, b, n, r, c, k),
    ) && (k < n ==> fits(fp_mul(ent(a, n, r, k), ent(b, n, k, c)))) by {
        lemma_mmul_cell_within(a, b, n, r, c, k, v);
        assert((k * (v * v)) * s <= (4 * (v * v)) * s) by (nonlinear_arith)
            requires
                0 <= k <= 4,
                0 <= v * v,
                s > 0,
        ;
        if k < n {
            lemma_rc_index(n, r, k);
            lemma_rc_index(n, k, c);
            assert(iabs(a[r * n + k]) <= v * s);
            assert(iabs(b[k * n + c]) <= v * s);
            lemma_fp_mul_value_bound(ent(a, n, r, k), ent(b, n, k, c), v, v);
            assert((v * v) * s <= (4 * (v * v)) * s) by (nonlinear_arith)
                requires
                    0 <= v * v,
                    s > 0,
            ;
        }
    }
}

/// Matrix entries of at most `v` and tuple components of at most `t` keep
/// every term of the homogeneous product in range.
pub proof fn lemma_trow_ok_within(m: Seq<int>, r: int, x: int, y: int, z: int, w: int, v: int, t: int)
    requires
        m.len() == 16,
        0 <= r < 4,
        0 <= v,
        1 <= t,
        4 * (v * t) <= 500000000000,
        entries_within(m, v),
        iabs(x) <= t * (SCALE as int),
        iabs(y) <= t * (SCALE as int),
        iabs(z) <= t * (SCALE as int),
        iabs(w) <= SCALE as int,
    ensures
        trow_ok(m, r, x, y, z, w),
{
    let s = SCALE as int;
    lemma_rc_index(4, r, 0);
    lemma_rc_index(4, r, 1);
    lemma_rc_index(4, r, 2);
    lemma_rc_index(4, r, 3);
    assert(iabs(m[r * 4 + 0]) <= v * s);
    assert(iabs(m[r * 4 + 1]) <= v * s);
    assert(iabs(m[r * 4 + 2]) <= v * s);
    assert(iabs(m[r * 4 + 3]) <= v * s);
    assert(iabs(w) <= t * s) by (nonlinear_arith)
        requires
            iabs(w) <= s,
            1 <= t,
            s > 0,
            iabs(w) >= 0,
    ;
    lemma_fp_mul_value_bound(ent(m, 4, r, 0), x, v, t);
    lemma_fp_mul_value_bound(ent(m, 4, r, 1), y, v, t);
    lemma_fp_mul_value_bound(ent(m, 4, r, 2), z, v, t);
    lemma_fp_mul_value_bound(ent(m, 4, r, 3), w, v, t);
    assert((v * t) * s + (v * t) * s + (v * t) * s + (v * t) * s == (4 * (v * t)) * s && 0 <= v * t)
        by (nonlinear_arith)
        requires
            0 <= v,
            1 <= t,
    ;
    assert((4 * (v * t)) * s <= LIMIT as int) by (nonlinear_arith)
        requires
            0 <= 4 * (v * t) <= 500000000000,
            s == 10000000,
    ;
}

/// Entries of at most `v` and a determinant of magnitude at least `d` keep
/// the whole inversion in range.
pub proof fn lemma_invert_ok_within(m: Seq<int>, v: int, d: int)
    requires
        m.len() == 16,
        0 <= v,
        24 * (((v * v) * v) * v) <= 500000000000,
        1 <= d,
        det4_u(m) != 0 ==> d <= iabs(det4_u(m)),
        ((6 * ((v * v) * v)) * (SCALE as int)) * (SCALE as int) <= d * (LIMIT as int),
        entries_within(m, v),
    ensures
        invert_ok(m),
{
    let s = SCALE as int;
    lemma_det4_within(m, v);
    assert(6 * ((v * v) * v) <= 500000000000) by (nonlinear_arith)
        requires
            0 <= v,
            24 * (((v * v) * v) * v) <= 500000000000,
    ;
    assert forall|r: int, c: int| 0 <= r < 4 && 0 <= c < 4 implies #[trigger] cof4_ok(m, r, c) by {
        lemma_cof4_within(m, r, c, v);
    }
    if det4_u(m) != 0 {
        let det = det4_u(m);
        let ad = iabs(det);
        assert forall|r: int, c: int| 0 <= r < 4 && 0 <= c < 4 implies fits(
            #[trigger] inv_entry_u(m, r, c),
        ) by {
            lemma_cof4_within(m, c, r, v);
            let cof = cof4_u(m, c, r);
            let q = tdiv(cof * s, det);
            assert(iabs(q) == iabs(tdiv(cof * s, ad)));
            lemma_tdiv_close(cof * s, ad);
            crate::scalar::lemma_iabs_mul(cof, s);
            assert(iabs(cof * s) <= ((6 * ((v * v) * v)) * s) * s) by (nonlinear_arith)
                requires
                    iabs(cof * s) == iabs(cof) * iabs(s as int),
                    iabs(s as int) == s,
                    0 <= iabs(cof) <= (6 * ((v * v) * v)) * s,
                    s > 0,
            ;
            assert(iabs(q) * ad <= ad * (LIMIT as int)) by (nonlinear_arith)
                requires
                    iabs(q) * ad <= iabs(cof * s),
                    iabs(cof * s) <= ((6 * ((v * v) * v)) * s) * s,
                    ((6 * ((v * v) * v)) * s) * s <= d * (LIMIT as int),
                    1 <= d <= ad,
                    0 <= LIMIT as int,
            ;
            assert(iabs(q) <= LIMIT as int) by (nonlinear_arith)
                requires
                    iabs(q) * ad <= ad * (LIMIT as int),
                    ad >= 1,
                    iabs(q) >= 0,
            ;
        }
    }
}

} // verus!
