//! The matrix layer: fixed-dimension S×S grids of GF(2) elements, with
//! construction, structural equality, multiplication, and rendering.
//! The dimension is a const parameter of the type, so matrices of
//! different sizes can never meet in a multiplication or a comparison.

use vstd::prelude::*;
use vstd::string::StringExecFns;
use crate::field::{F2Val, f2_add, f2_mul, f2_char};

verus! {

/// A well-formed s×s grid model: s rows of s entries each, never jagged.
pub open spec fn wf_grid(g: Seq<Seq<F2Val>>, s: nat) -> bool {
    &&& g.len() == s
    &&& forall|i: int| 0 <= i < s ==> (#[trigger] g[i]).len() == s
}

/// The s×s all-zero grid.
pub open spec fn zero_grid(s: nat) -> Seq<Seq<F2Val>> {
    Seq::new(s, |i: int| Seq::new(s, |j: int| F2Val::Z))
}

/// The s×s identity grid: ones on the diagonal, zeros elsewhere.
pub open spec fn identity_grid(s: nat) -> Seq<Seq<F2Val>> {
    Seq::new(
        s,
        |i: int| Seq::new(s, |j: int| if i == j { F2Val::O } else { F2Val::Z }),
    )
}

/// The partial inner product of row i of a with column j of b, over the
/// first n summands: a[i][0]*b[0][j] + ... + a[i][n-1]*b[n-1][j].
pub open spec fn entry_prefix(
    a: Seq<Seq<F2Val>>,
    b: Seq<Seq<F2Val>>,
    i: int,
    j: int,
    n: int,
) -> F2Val
    decreases n,
{
    if n <= 0 {
        F2Val::Z
    } else {
        f2_add(entry_prefix(a, b, i, j, n - 1), f2_mul(a[i][n - 1], b[n - 1][j]))
    }
}

/// Entry (i, j) of the s×s matrix product of a and b.
pub open spec fn product_entry(
    a: Seq<Seq<F2Val>>,
    b: Seq<Seq<F2Val>>,
    i: int,
    j: int,
    s: int,
) -> F2Val {
    entry_prefix(a, b, i, j, s)
}

/// The s×s matrix product of a and b.
pub open spec fn product_grid(a: Seq<Seq<F2Val>>, b: Seq<Seq<F2Val>>, s: nat) -> Seq<
    Seq<F2Val>,
> {
    Seq::new(s, |i: int| Seq::new(s, |j: int| product_entry(a, b, i, j, s as int)))
}

/// The error of matrix construction: the supplied grid was not a complete
/// S×S arrangement of entries.
#[derive(Clone, Copy, PartialEq, Eq, Structural, Debug)]
pub enum MatrixError {
    ShapeMismatch,
}

/// An S×S matrix over GF(2). S is fixed by the type, so multiplying or
/// comparing matrices of different dimensions does not type-check.
#[derive(Debug)]
pub struct F2Matrix<const S: usize> {
    rows: Vec<Vec<F2Val>>,
}

impl<const S: usize> View for F2Matrix<S> {
    type V = Seq<Seq<F2Val>>;

    closed spec fn view(&self) -> Seq<Seq<F2Val>> {
        Seq::new(self.rows@.len(), |i: int| self.rows@[i]@)
    }
}

impl<const S: usize> F2Matrix<S> {
    /// The matrix holds exactly S rows of exactly S entries each.
    pub open spec fn wf(&self) -> bool {
        wf_grid(self@, S as nat)
    }

    /// The all-zero S×S matrix.
    pub fn zero() -> (r: F2Matrix<S>)
        ensures
            r@ == zero_grid(S as nat),
            r.wf(),
    {
        let mut rows: Vec<Vec<F2Val>> = Vec::new();
        let mut i: usize = 0;
        while i < S
            invariant
                i <= S,
                rows@.len() == i,
                forall|p: int| 0 <= p < i ==> #[trigger] rows@[p]@ == zero_grid(S as nat)[p],
            decreases S - i,
        {
            let mut row: Vec<F2Val> = Vec::new();
            let mut j: usize = 0;
            while j < S
                invariant
                    j <= S,
                    row@.len() == j,
                    forall|q: int| 0 <= q < j ==> row@[q] == F2Val::Z,
                decreases S - j,
            {
                row.push(F2Val::Z);
                j += 1;
            }
            proof {
                assert(row@ =~= zero_grid(S as nat)[i as int]);
            }
            rows.push(row);
            i += 1;
        }
        let r = F2Matrix { rows };
        proof {
            assert(r@ =~= zero_grid(S as nat));
        }
        r
    }

    /// The S×S identity matrix: ones on the diagonal, zeros elsewhere.
    pub fn e() -> (r: F2Matrix<S>)
        ensures
            r@ == identity_grid(S as nat),
            r.wf(),
    {
        let mut rows: Vec<Vec<F2Val>> = Vec::new();
        let mut i: usize = 0;
        while i < S
            invariant
                i <= S,
                rows@.len() == i,
                forall|p: int| 0 <= p < i ==> #[trigger] rows@[p]@ == identity_grid(S as nat)[p],
            decreases S - i,
        {
            let mut row: Vec<F2Val> = Vec::new();
            let mut j: usize = 0;
            while j < S
                invariant
                    j <= S,
                    row@.len() == j,
                    forall|q: int| 0 <= q < j ==> row@[q] == (if i == q {
                        F2Val::O
                    } else {
                        F2Val::Z
                    }),
                decreases S - j,
            {
                if j == i {
                    row.push(F2Val::O);
                } else {
                    row.push(F2Val::Z);
                }
                j += 1;
            }
            proof {
                assert(row@ =~= identity_grid(S as nat)[i as int]);
            }
            rows.push(row);
            i += 1;
        }
        let r = F2Matrix { rows };
        proof {
            assert(r@ =~= identity_grid(S as nat));
        }
        r
    }

    /// Builds a matrix from an explicit grid of entries, supplied row by
    /// row, and stores it verbatim. Succeeds exactly when the grid is a
    /// complete S×S arrangement; any other shape is a shape mismatch.
    pub fn from_grid(grid: Vec<Vec<F2Val>>) -> (r: Result<F2Matrix<S>, MatrixError>)
        ensures
            r is Ok <==> (grid@.len() == S && forall|i: int|
                0 <= i < S ==> (#[trigger] grid@[i])@.len() == S),
            r is Ok ==> (r->Ok_0)@ == Seq::new(S as nat, |i: int| grid@[i]@),
            r is Ok ==> (r->Ok_0).wf(),
            r is Err ==> r->Err_0 == MatrixError::ShapeMismatch,
    {
        if grid.len() != S {
            return Err(MatrixError::ShapeMismatch);
        }
        let mut i: usize = 0;
        while i < S
            invariant
                i <= S,
                grid@.len() == S,
                forall|p: int| 0 <= p < i ==> (#[trigger] grid@[p])@.len() == S,
            decreases S - i,
        {
            if grid[i].len() != S {
                return Err(MatrixError::ShapeMismatch);
            }
            i += 1;
        }
        let r = F2Matrix { rows: grid };
        proof {
            assert(r@ =~= Seq::new(S as nat, |i: int| r.rows@[i]@));
        }
        Ok(r)
    }

    /// Entry (i, j) of the matrix.
    pub fn entry(&self, i: usize, j: usize) -> (r: F2Val)
        requires
            self.wf(),
            i < S,
            j < S,
        ensures
            r == self@[i as int][j as int],
    {
        self.rows[i][j]
    }

    /// The matrix product `self × other`: entry (i, j) of the result is
    /// the GF(2) sum over k of `self[i][k] * other[k][j]`, computed by the
    /// naive triple-nested accumulation.
    pub fn mul(&self, other: &F2Matrix<S>) -> (r: F2Matrix<S>)
        requires
            self.wf(),
            other.wf(),
        ensures
            r@ == product_grid(self@, other@, S as nat),
            r.wf(),
    {
        let mut rows: Vec<Vec<F2Val>> = Vec::new();
        let mut i: usize = 0;
        while i < S
            invariant
                i <= S,
                self.wf(),
                other.wf(),
                rows@.len() == i,
                forall|p: int|
                    0 <= p < i ==> #[trigger] rows@[p]@ == product_grid(
                        self@,
                        other@,
                        S as nat,
                    )[p],
            decreases S - i,
        {
            let mut row: Vec<F2Val> = Vec::new();
            let mut j: usize = 0;
            while j < S
                invariant
                    i < S,
                    j <= S,
                    self.wf(),
                    other.wf(),
                    row@.len() == j,
                    forall|q: int|
                        0 <= q < j ==> row@[q] == product_entry(
                            self@,
                            other@,
                            i as int,
                            q,
                            S as int,
                        ),
                decreases S - j,
            {
                let mut acc = F2Val::Z;
                let mut k: usize = 0;
                while k < S
                    invariant
                        i < S,
                        j < S,
                        k <= S,
                        self.wf(),
                        other.wf(),
                        acc == entry_prefix(self@, other@, i as int, j as int, k as int),
                    decreases S - k,
                {
                    proof {
                        assert(self@[i as int].len() == S);
                        assert(other@[k as int].len() == S);
                    }
                    acc = acc.add(self.rows[i][k].mul(other.rows[k][j]));
                    k += 1;
                }
                row.push(acc);
                j += 1;
            }
            proof {
                assert(row@ =~= product_grid(self@, other@, S as nat)[i as int]);
            }
            rows.push(row);
            i += 1;
        }
        let r = F2Matrix { rows };
        proof {
            assert(r@ =~= product_grid(self@, other@, S as nat));
        }
        r
    }

    /// In-place multiplication, defined as `*self = self × other`: the new
    /// matrix is fully computed before it replaces the old one.
    pub fn mul_assign(&mut self, other: &F2Matrix<S>)
        requires
            old(self).wf(),
            other.wf(),
        ensures
            final(self)@ == product_grid(old(self)@, other@, S as nat),
            final(self).wf(),
    {
        let p = self.mul(other);
        *self = p;
    }
}

impl<const S: usize> PartialEq for F2Matrix<S> {
    /// Structural equality: true exactly when every corresponding entry
    /// (and so the whole grid) is equal.
    fn eq(&self, other: &F2Matrix<S>) -> (r: bool) {
        if self.rows.len() != other.rows.len() {
            proof {
                assert(self@.len() != other@.len());
            }
            return false;
        }
        let mut i: usize = 0;
        while i < self.rows.len()
            invariant
                i <= self.rows@.len(),
                self.rows@.len() == other.rows@.len(),
                forall|p: int| 0 <= p < i ==> self@[p] == other@[p],
            decreases self.rows@.len() - i,
        {
            let a = &self.rows[i];
            let b = &other.rows[i];
            if a.len() != b.len() {
                proof {
                    assert(self@[i as int].len() != other@[i as int].len());
                }
                return false;
            }
            let mut j: usize = 0;
            while j < a.len()
                invariant
                    i < self.rows@.len(),
                    self.rows@.len() == other.rows@.len(),
                    j <= a@.len(),
                    a@ == self@[i as int],
                    b@ == other@[i as int],
                    a@.len() == b@.len(),
                    forall|q: int| 0 <= q < j ==> a@[q] == b@[q],
                decreases a@.len() - j,
            {
                if a[j] != b[j] {
                    proof {
                        assert(self@[i as int][j as int] != other@[i as int][j as int]);
                    }
                    return false;
                }
                j += 1;
            }
            proof {
                assert(self@[i as int] =~= other@[i as int]);
            }
            i += 1;
        }
        proof {
            assert(self@ =~~= other@);
        }
        true
    }
}

impl<const S: usize> vstd::std_specs::cmp::PartialEqSpecImpl for F2Matrix<S> {
    open spec fn obeys_eq_spec() -> bool {
        true
    }

    open spec fn eq_spec(&self, other: &F2Matrix<S>) -> bool {
        self@ == other@
    }
}

/// The characters of one rendered row: one character per entry.
pub open spec fn row_chars(r: Seq<F2Val>) -> Seq<char> {
    Seq::new(r.len(), |j: int| f2_char(r[j]))
}

/// The rendering of the first n rows of a grid: each row's characters
/// followed by a line break, rows concatenated in order.
pub open spec fn render_prefix(g: Seq<Seq<F2Val>>, n: int) -> Seq<char>
    decreases n,
{
    if n <= 0 {
        Seq::empty()
    } else {
        render_prefix(g, n - 1) + row_chars(g[n - 1]) + seq!['\n']
    }
}

/// The full rendering of a grid: row by row, each row the concatenation of
/// its entries' characters, a line break terminating each row, nothing else.
pub open spec fn render_grid(g: Seq<Seq<F2Val>>) -> Seq<char> {
    render_prefix(g, g.len() as int)
}

impl<const S: usize> F2Matrix<S> {
    /// Renders the matrix row by row: each row is the concatenation of its
    /// entries' single-character renderings, terminated by a line break;
    /// no separators, headers or spacing are added.
    pub fn render(&self) -> (r: String)
        ensures
            r@ == render_grid(self@),
    {
        let mut out = String::new();
        let mut i: usize = 0;
        while i < self.rows.len()
            invariant
                i <= self.rows@.len(),
                out@ == render_prefix(self@, i as int),
            decreases self.rows@.len() - i,
        {
            let row = &self.rows[i];
            let mut j: usize = 0;
            while j < row.len()
                invariant
                    i < self.rows@.len(),
                    j <= row@.len(),
                    row@ == self@[i as int],
                    out@ == render_prefix(self@, i as int) + row_chars(self@[i as int]).take(
                        j as int,
                    ),
                decreases row@.len() - j,
            {
                let c = row[j].render();
                out.append(c.as_str());
                proof {
                    assert(row_chars(self@[i as int]).take(j + 1 as int) =~= row_chars(
                        self@[i as int],
                    ).take(j as int) + seq![f2_char(self@[i as int][j as int])]);
                    assert(out@ =~= render_prefix(self@, i as int) + row_chars(
                        self@[i as int],
                    ).take(j + 1 as int));
                }
                j += 1;
            }
            out.append("\n");
            proof {
                reveal_strlit("\n");
                assert(row_chars(self@[i as int]).take(row@.len() as int) =~= row_chars(
                    self@[i as int],
                ));
                assert(out@ =~= render_prefix(self@, i + 1 as int));
            }
            i += 1;
        }
        out
    }
}

} // verus!
