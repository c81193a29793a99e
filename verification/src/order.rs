//! The order-finding layer: the smallest exponent k >= 2 at which the
//! accumulated power of a matrix equals the identity matrix.

use vstd::prelude::*;
use crate::field::F2Val;
use crate::matrix::{F2Matrix, identity_grid, product_grid, wf_grid};

verus! {

/// The k-th power of an s×s grid: the identity for k = 0, and otherwise
/// the previous power multiplied by the grid once more.
pub open spec fn power_grid(m: Seq<Seq<F2Val>>, k: nat, s: nat) -> Seq<Seq<F2Val>>
    decreases k,
{
    if k == 0 {
        identity_grid(s)
    } else {
        product_grid(power_grid(m, (k - 1) as nat, s), m, s)
    }
}

/// m has order k among the checked exponents: k is at least 2, the k-th
/// power of m is the identity, and no exponent from 2 up to k - 1 reaches
/// the identity. (Exponent 1 is never checked: a matrix that is itself
/// the identity is reported with order 2, not 1.)
pub open spec fn has_order(m: Seq<Seq<F2Val>>, k: int, s: nat) -> bool {
    &&& 2 <= k
    &&& power_grid(m, k as nat, s) == identity_grid(s)
    &&& forall|j: int| 2 <= j < k ==> #[trigger] power_grid(m, j as nat, s) != identity_grid(s)
}

/// The first power of a well-formed matrix is the matrix itself, so the
/// k-th power is the product of k factors of the matrix.
pub proof fn lemma_power_one(m: Seq<Seq<F2Val>>, s: nat)
    requires
        wf_grid(m, s),
    ensures
        power_grid(m, 1, s) == m,
{
    crate::laws::lemma_identity_product(m, s);
    assert(power_grid(m, 0, s) == identity_grid(s));
}

/// If some exponent n >= 2 brings m to the identity, a least such
/// exponent exists, and it is at most n.
pub proof fn lemma_least_order_exists(m: Seq<Seq<F2Val>>, s: nat, n: int)
    requires
        2 <= n,
        power_grid(m, n as nat, s) == identity_grid(s),
    ensures
        exists|k: int| #[trigger] has_order(m, k, s) && k <= n,
    decreases n,
{
    if forall|j: int| 2 <= j < n ==> #[trigger] power_grid(m, j as nat, s) != identity_grid(s) {
        assert(has_order(m, n, s));
    } else {
        let j = choose|j: int| 2 <= j < n && #[trigger] power_grid(m, j as nat, s) == identity_grid(s);
        lemma_least_order_exists(m, s, j);
        let k = choose|k: int| #[trigger] has_order(m, k, s) && k <= j;
        assert(has_order(m, k, s) && k <= n);
    }
}

/// The multiplicative order of m among the checked exponents: the smallest
/// k >= 2 with m^k equal to the identity. Starting from the square of m,
/// the accumulator is multiplied by m once per step and compared with the
/// identity; the loop is bounded only by the order itself, so the caller
/// must pass a matrix some power of which is the identity (every
/// invertible matrix over GF(2) is such).
pub fn order_of<const S: usize>(m: &F2Matrix<S>) -> (k: usize)
    requires
        m.wf(),
        exists|n: int|
            2 <= n <= usize::MAX && #[trigger] power_grid(m@, n as nat, S as nat) == identity_grid(
                S as nat,
            ),
    ensures
        has_order(m@, k as int, S as nat),
{
    let ghost n0: int = choose|n: int|
        2 <= n <= usize::MAX && #[trigger] power_grid(m@, n as nat, S as nat) == identity_grid(S as nat);
    proof {
        lemma_least_order_exists(m@, S as nat, n0);
    }
    let ghost k0: int = choose|k: int| #[trigger] has_order(m@, k, S as nat) && k <= n0;
    let id = F2Matrix::<S>::e();
    let mut acc = m.mul(m);
    proof {
        crate::laws::lemma_identity_product(m@, S as nat);
        assert(power_grid(m@, 0, S as nat) == identity_grid(S as nat));
        assert(power_grid(m@, 1, S as nat) == m@);
        assert(power_grid(m@, 2, S as nat) == product_grid(m@, m@, S as nat));
    }
    let mut i: usize = 2;
    loop
        invariant
            2 <= i <= k0,
            k0 <= n0 <= usize::MAX,
            m.wf(),
            acc.wf(),
            id@ == identity_grid(S as nat),
            has_order(m@, k0, S as nat),
            acc@ == power_grid(m@, i as nat, S as nat),
            forall|j: int|
                2 <= j < i ==> #[trigger] power_grid(m@, j as nat, S as nat) != identity_grid(S as nat),
        ensures
            has_order(m@, i as int, S as nat),
        decreases k0 - i,
    {
        if acc == id {
            proof {
                assert(power_grid(m@, i as nat, S as nat) == identity_grid(S as nat));
            }
            break;
        }
        proof {
            assert(i != k0);
        }
        acc = acc.mul(m);
        i += 1;
    }
    i
}

} // verus!
