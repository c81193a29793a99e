//! The algebraic laws of the matrix layer: the identity matrix is neutral
//! on either side, the zero matrix absorbs on the left, multiplication is
//! associative, and a rendered matrix can be read back entry by entry.

use vstd::prelude::*;
use crate::field::{F2Val, f2_add, f2_mul, f2_char};
use crate::matrix::{
    wf_grid, zero_grid, identity_grid, entry_prefix, product_entry, product_grid, row_chars,
    render_prefix, render_grid,
};

verus! {

proof fn lemma_identity_entry_right(a: Seq<Seq<F2Val>>, s: nat, i: int, j: int, n: int)
    requires
        wf_grid(a, s),
        0 <= i < s,
        0 <= j < s,
        0 <= n <= s,
    ensures
        entry_prefix(a, identity_grid(s), i, j, n) == (if j < n {
            a[i][j]
        } else {
            F2Val::Z
        }),
    decreases n,
{
    if n > 0 {
        lemma_identity_entry_right(a, s, i, j, n - 1);
    }
}

proof fn lemma_identity_entry_left(a: Seq<Seq<F2Val>>, s: nat, i: int, j: int, n: int)
    requires
        wf_grid(a, s),
        0 <= i < s,
        0 <= j < s,
        0 <= n <= s,
    ensures
        entry_prefix(identity_grid(s), a, i, j, n) == (if i < n {
            a[i][j]
        } else {
            F2Val::Z
        }),
    decreases n,
{
    if n > 0 {
        lemma_identity_entry_left(a, s, i, j, n - 1);
    }
}

/// Law: multiplying by the identity matrix on either side leaves every
/// matrix unchanged.
pub proof fn lemma_identity_product(a: Seq<Seq<F2Val>>, s: nat)
    requires
        wf_grid(a, s),
    ensures
        product_grid(a, identity_grid(s), s) == a,
        product_grid(identity_grid(s), a, s) == a,
{
    assert forall|i: int, j: int|
        0 <= i < s && 0 <= j < s implies product_entry(a, identity_grid(s), i, j, s as int)
        == a[i][j] && product_entry(identity_grid(s), a, i, j, s as int) == a[i][j] by {
        lemma_identity_entry_right(a, s, i, j, s as int);
        lemma_identity_entry_left(a, s, i, j, s as int);
    }
    assert(product_grid(a, identity_grid(s), s) =~~= a);
    assert(product_grid(identity_grid(s), a, s) =~~= a);
}

proof fn lemma_zero_entry(b: Seq<Seq<F2Val>>, s: nat, i: int, j: int, n: int)
    requires
        0 <= i < s,
        0 <= n <= s,
    ensures
        entry_prefix(zero_grid(s), b, i, j, n) == F2Val::Z,
    decreases n,
{
    if n > 0 {
        lemma_zero_entry(b, s, i, j, n - 1);
    }
}

/// Law: the zero matrix times any matrix is the zero matrix.
pub proof fn lemma_zero_product(b: Seq<Seq<F2Val>>, s: nat)
    requires
        wf_grid(b, s),
    ensures
        product_grid(zero_grid(s), b, s) == zero_grid(s),
{
    assert forall|i: int, j: int|
        0 <= i < s && 0 <= j < s implies product_entry(zero_grid(s), b, i, j, s as int)
        == F2Val::Z by {
        lemma_zero_entry(b, s, i, j, s as int);
    }
    assert(product_grid(zero_grid(s), b, s) =~~= zero_grid(s));
}

/// The GF(2) sum of g(i, 0), ..., g(i, m-1): one row of a rectangular
/// family of summands.
spec fn row_sum(g: spec_fn(int, int) -> F2Val, i: int, m: int) -> F2Val
    decreases m,
{
    if m <= 0 {
        F2Val::Z
    } else {
        f2_add(row_sum(g, i, m - 1), g(i, m - 1))
    }
}

/// The GF(2) sum of g(0, j), ..., g(n-1, j): one column of the family.
spec fn col_sum(g: spec_fn(int, int) -> F2Val, j: int, n: int) -> F2Val
    decreases n,
{
    if n <= 0 {
        F2Val::Z
    } else {
        f2_add(col_sum(g, j, n - 1), g(n - 1, j))
    }
}

/// The sum of the first n row sums, each of width m.
spec fn rows_total(g: spec_fn(int, int) -> F2Val, n: int, m: int) -> F2Val
    decreases n,
{
    if n <= 0 {
        F2Val::Z
    } else {
        f2_add(rows_total(g, n - 1, m), row_sum(g, n - 1, m))
    }
}

/// The sum of the first m column sums, each of height n.
spec fn cols_total(g: spec_fn(int, int) -> F2Val, n: int, m: int) -> F2Val
    decreases m,
{
    if m <= 0 {
        F2Val::Z
    } else {
        f2_add(cols_total(g, n, m - 1), col_sum(g, m - 1, n))
    }
}

/// Appending one more row to a column-wise total adds that row's sum.
proof fn lemma_cols_total_step(g: spec_fn(int, int) -> F2Val, n: int, m: int)
    requires
        1 <= n,
    ensures
        cols_total(g, n, m) == f2_add(cols_total(g, n - 1, m), row_sum(g, n - 1, m)),
    decreases m,
{
    if m > 0 {
        lemma_cols_total_step(g, n, m - 1);
    }
}

/// Summing a rectangular family row by row or column by column gives the
/// same total.
proof fn lemma_sum_swap(g: spec_fn(int, int) -> F2Val, n: int, m: int)
    ensures
        rows_total(g, n, m) == cols_total(g, n, m),
    decreases n,
{
    if n <= 0 {
        assert forall|j: int| 0 <= j < m implies #[trigger] col_sum(g, j, n) == F2Val::Z by {}
        lemma_cols_total_empty(g, n, m);
    } else {
        lemma_sum_swap(g, n - 1, m);
        lemma_cols_total_step(g, n, m);
    }
}

proof fn lemma_cols_total_empty(g: spec_fn(int, int) -> F2Val, n: int, m: int)
    requires
        n <= 0,
    ensures
        cols_total(g, n, m) == F2Val::Z,
    decreases m,
{
    if m > 0 {
        lemma_cols_total_empty(g, n, m - 1);
    }
}

/// One summand family g(k, l) = (a[i][k] * b[k][l]) * c[l][j], fixed at
/// row i and column j.
spec fn triple_family(
    a: Seq<Seq<F2Val>>,
    b: Seq<Seq<F2Val>>,
    c: Seq<Seq<F2Val>>,
    i: int,
    j: int,
) -> spec_fn(int, int) -> F2Val {
    |k: int, l: int| f2_mul(f2_mul(a[i][k], b[k][l]), c[l][j])
}

/// A column of the triple family sums to (the matching entry of a×b)
/// times c[l][j].
proof fn lemma_triple_col(
    a: Seq<Seq<F2Val>>,
    b: Seq<Seq<F2Val>>,
    c: Seq<Seq<F2Val>>,
    i: int,
    j: int,
    l: int,
    n: int,
)
    ensures
        col_sum(triple_family(a, b, c, i, j), l, n) == f2_mul(
            entry_prefix(a, b, i, l, n),
            c[l][j],
        ),
    decreases n,
{
    if n > 0 {
        lemma_triple_col(a, b, c, i, j, l, n - 1);
    }
}

/// A row of the triple family sums to a[i][k] times the matching entry
/// of b×c.
proof fn lemma_triple_row(
    a: Seq<Seq<F2Val>>,
    b: Seq<Seq<F2Val>>,
    c: Seq<Seq<F2Val>>,
    i: int,
    j: int,
    k: int,
    m: int,
)
    ensures
        row_sum(triple_family(a, b, c, i, j), k, m) == f2_mul(
            a[i][k],
            entry_prefix(b, c, k, j, m),
        ),
    decreases m,
{
    if m > 0 {
        lemma_triple_row(a, b, c, i, j, k, m - 1);
    }
}

/// Entry (i, j) of (a×b)×c is the column-wise total of the triple family.
proof fn lemma_triple_left(
    a: Seq<Seq<F2Val>>,
    b: Seq<Seq<F2Val>>,
    c: Seq<Seq<F2Val>>,
    s: nat,
    i: int,
    j: int,
    t: int,
)
    requires
        0 <= i < s,
        0 <= t <= s,
    ensures
        entry_prefix(product_grid(a, b, s), c, i, j, t) == cols_total(
            triple_family(a, b, c, i, j),
            s as int,
            t,
        ),
    decreases t,
{
    if t > 0 {
        lemma_triple_left(a, b, c, s, i, j, t - 1);
        assert(product_grid(a, b, s)[i][t - 1] == product_entry(a, b, i, t - 1, s as int));
        lemma_triple_col(a, b, c, i, j, t - 1, s as int);
    }
}

/// Entry (i, j) of a×(b×c) is the row-wise total of the triple family.
proof fn lemma_triple_right(
    a: Seq<Seq<F2Val>>,
    b: Seq<Seq<F2Val>>,
    c: Seq<Seq<F2Val>>,
    s: nat,
    i: int,
    j: int,
    t: int,
)
    requires
        0 <= j < s,
        0 <= t <= s,
    ensures
        entry_prefix(a, product_grid(b, c, s), i, j, t) == rows_total(
            triple_family(a, b, c, i, j),
            t,
            s as int,
        ),
    decreases t,
{
    if t > 0 {
        lemma_triple_right(a, b, c, s, i, j, t - 1);
        assert(product_grid(b, c, s)[t - 1][j] == product_entry(b, c, t - 1, j, s as int));
        lemma_triple_row(a, b, c, i, j, t - 1, s as int);
    }
}

/// Law: matrix multiplication is associative.
pub proof fn lemma_product_assoc(a: Seq<Seq<F2Val>>, b: Seq<Seq<F2Val>>, c: Seq<Seq<F2Val>>, s: nat)
    requires
        wf_grid(a, s),
        wf_grid(b, s),
        wf_grid(c, s),
    ensures
        product_grid(product_grid(a, b, s), c, s) == product_grid(a, product_grid(b, c, s), s),
{
    assert forall|i: int, j: int|
        0 <= i < s && 0 <= j < s implies product_entry(
        product_grid(a, b, s),
        c,
        i,
        j,
        s as int,
    ) == product_entry(a, product_grid(b, c, s), i, j, s as int) by {
        lemma_triple_left(a, b, c, s, i, j, s as int);
        lemma_triple_right(a, b, c, s, i, j, s as int);
        lemma_sum_swap(triple_family(a, b, c, i, j), s as int, s as int);
    }
    assert(product_grid(product_grid(a, b, s), c, s) =~~= product_grid(
        a,
        product_grid(b, c, s),
        s,
    ));
}

/// Reading a rendered s×s grid back from its text: each row occupies s
/// entry characters and one line break, so entry (i, j) is read from the
/// character at position i*(s+1) + j.
pub open spec fn parse_grid(cs: Seq<char>, s: nat) -> Seq<Seq<F2Val>> {
    Seq::new(
        s,
        |i: int| Seq::new(
            s,
            |j: int| if cs[i * (s + 1) + j] == '1' {
                F2Val::O
            } else {
                F2Val::Z
            },
        ),
    )
}

proof fn lemma_render_prefix_len(g: Seq<Seq<F2Val>>, s: nat, n: int)
    requires
        wf_grid(g, s),
        0 <= n <= s,
    ensures
        render_prefix(g, n).len() == n * (s + 1),
    decreases n,
{
    if n > 0 {
        lemma_render_prefix_len(g, s, n - 1);
        assert(row_chars(g[n - 1]).len() == s);
        assert(render_prefix(g, n).len() == (n - 1) * (s + 1) + s + 1);
        assert((n - 1) * (s + 1) + s + 1 == n * (s + 1)) by (nonlinear_arith);
        assert(render_prefix(g, n).len() == n * (s + 1));
    } else {
        assert(render_prefix(g, n).len() == 0);
        assert(n * (s + 1) == 0) by (nonlinear_arith)
            requires
                n == 0,
        ;
    }
}

proof fn lemma_render_char_at(g: Seq<Seq<F2Val>>, s: nat, n: int, i: int, p: int)
    requires
        wf_grid(g, s),
        0 <= i < n <= s,
        0 <= p <= s,
    ensures
        render_prefix(g, n)[i * (s + 1) + p] == (if p < s {
            f2_char(g[i][p])
        } else {
            '\n'
        }),
    decreases n,
{
    lemma_render_prefix_len(g, s, n - 1);
    if i < n - 1 {
        lemma_render_char_at(g, s, n - 1, i, p);
        assert(i * (s + 1) + p < (n - 1) * (s + 1)) by (nonlinear_arith)
            requires
                0 <= i <= n - 2,
                0 <= p <= s,
                0 <= s,
        ;
    } else {
        assert(i * (s + 1) + p - (n - 1) * (s + 1) == p) by (nonlinear_arith)
            requires
                i == n - 1,
        ;
        assert(row_chars(g[n - 1]).len() == s);
    }
}

/// Law: rendering a well-formed s×s grid yields exactly s lines of s
/// characters each (s*(s+1) characters in all), and reading that text
/// back entry by entry reproduces the original grid.
pub proof fn lemma_render_round_trip(g: Seq<Seq<F2Val>>, s: nat)
    requires
        wf_grid(g, s),
    ensures
        render_grid(g).len() == s * (s + 1),
        parse_grid(render_grid(g), s) == g,
{
    lemma_render_prefix_len(g, s, s as int);
    assert forall|i: int, j: int|
        0 <= i < s && 0 <= j < s implies #[trigger] parse_grid(render_grid(g), s)[i][j] == g[i][j] by {
        lemma_render_char_at(g, s, s as int, i, j);
    }
    assert(parse_grid(render_grid(g), s) =~~= g);
}

} // verus!
