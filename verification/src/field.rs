//! The scalar layer: elements of GF(2), the field with two elements,
//! with addition and multiplication taken modulo 2.

use vstd::prelude::*;
use vstd::string::StringExecFns;

verus! {

/// An element of GF(2): the bit 0 (`Z`) or the bit 1 (`O`).
#[derive(Clone, Copy, PartialEq, Eq, Structural, Debug)]
pub enum F2Val {
    Z,
    O,
}

/// Field addition on GF(2): addition modulo 2, i.e. exclusive or.
pub open spec fn f2_add(a: F2Val, b: F2Val) -> F2Val {
    match (a, b) {
        (F2Val::Z, F2Val::Z) => F2Val::Z,
        (F2Val::Z, F2Val::O) => F2Val::O,
        (F2Val::O, F2Val::Z) => F2Val::O,
        (F2Val::O, F2Val::O) => F2Val::Z,
    }
}

/// Field multiplication on GF(2): multiplication modulo 2, i.e. logical and.
pub open spec fn f2_mul(a: F2Val, b: F2Val) -> F2Val {
    match (a, b) {
        (F2Val::O, F2Val::O) => F2Val::O,
        _ => F2Val::Z,
    }
}

/// The single character that renders a field element: '0' or '1'.
pub open spec fn f2_char(a: F2Val) -> char {
    match a {
        F2Val::Z => '0',
        F2Val::O => '1',
    }
}

impl F2Val {
    /// Field addition: returns `self + other` modulo 2.
    pub fn add(self, other: F2Val) -> (r: F2Val)
        ensures
            r == f2_add(self, other),
    {
        match (self, other) {
            (F2Val::Z, F2Val::Z) => F2Val::Z,
            (F2Val::Z, _) => F2Val::O,
            (_, F2Val::Z) => F2Val::O,
            (_, _) => F2Val::Z,
        }
    }

    /// In-place addition, defined as `*self = (*self).add(other)`.
    pub fn add_assign(&mut self, other: F2Val)
        ensures
            *final(self) == f2_add(*old(self), other),
    {
        *self = (*self).add(other);
    }

    /// Field multiplication: returns `self * other` modulo 2.
    pub fn mul(self, other: F2Val) -> (r: F2Val)
        ensures
            r == f2_mul(self, other),
    {
        match (self, other) {
            (F2Val::O, F2Val::O) => F2Val::O,
            (_, _) => F2Val::Z,
        }
    }

    /// In-place multiplication, defined as `*self = (*self).mul(other)`.
    pub fn mul_assign(&mut self, other: F2Val)
        ensures
            *final(self) == f2_mul(*old(self), other),
    {
        *self = (*self).mul(other);
    }

    /// Renders the element as the single character "0" or "1", with no
    /// surrounding whitespace or separators.
    pub fn render(self) -> (r: String)
        ensures
            r@ == seq![f2_char(self)],
    {
        match self {
            F2Val::Z => {
                let s = String::from_str("0");
                proof {
                    reveal_strlit("0");
                    assert(s@ =~= seq![f2_char(self)]);
                }
                s
            },
            F2Val::O => {
                let s = String::from_str("1");
                proof {
                    reveal_strlit("1");
                    assert(s@ =~= seq![f2_char(self)]);
                }
                s
            },
        }
    }
}

/// Law: field addition and field multiplication are both commutative.
pub proof fn lemma_f2_commutative(a: F2Val, b: F2Val)
    ensures
        f2_add(a, b) == f2_add(b, a),
        f2_mul(a, b) == f2_mul(b, a),
{
}

/// Law: `Z` is the additive identity and `O` the multiplicative identity.
pub proof fn lemma_f2_identities(a: F2Val)
    ensures
        f2_add(a, F2Val::Z) == a,
        f2_mul(a, F2Val::O) == a,
{
}

/// Law: one plus one is zero, and zero absorbs every factor.
pub proof fn lemma_f2_one_one_and_absorb(a: F2Val)
    ensures
        f2_add(F2Val::O, F2Val::O) == F2Val::Z,
        f2_mul(F2Val::Z, a) == F2Val::Z,
{
}

/// Law: field addition is associative.
pub proof fn lemma_f2_add_assoc(a: F2Val, b: F2Val, c: F2Val)
    ensures
        f2_add(f2_add(a, b), c) == f2_add(a, f2_add(b, c)),
{
}

/// Law: field multiplication is associative.
pub proof fn lemma_f2_mul_assoc(a: F2Val, b: F2Val, c: F2Val)
    ensures
        f2_mul(f2_mul(a, b), c) == f2_mul(a, f2_mul(b, c)),
{
}

/// Law: field multiplication distributes over field addition.
pub proof fn lemma_f2_distributive(a: F2Val, b: F2Val, c: F2Val)
    ensures
        f2_mul(a, f2_add(b, c)) == f2_add(f2_mul(a, b), f2_mul(a, c)),
        f2_mul(f2_add(a, b), c) == f2_add(f2_mul(a, c), f2_mul(b, c)),
{
}

/// Law: the rendering characters of distinct elements differ, so the
/// element can be read back from its rendering.
pub proof fn lemma_f2_char_injective(a: F2Val, b: F2Val)
    ensures
        f2_char(a) == f2_char(b) ==> a == b,
{
}

} // verus!
