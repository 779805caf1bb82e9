//! Coordinates on a ring: the rows of the board form one, the columns
//! another, so that the board as a whole is a torus.

use vstd::prelude::*;

verus! {

/// The coordinate `i` brought back onto a ring of `n` positions, which are
/// numbered from zero: the remainder of `i` by `n`.
#[verifier::opaque]
pub open spec fn wrap(i: int, n: nat) -> int {
    i % (n as int)
}

/// A wrapped coordinate lies on the ring.
pub proof fn lemma_wrap_range(i: int, n: nat)
    requires
        n > 0,
    ensures
        0 <= wrap(i, n) < n,
{
    reveal(wrap);
    vstd::arithmetic::div_mod::lemma_mod_bound(i, n as int);
}

/// A coordinate on the ring is its own wrapping.
pub proof fn lemma_wrap_on_ring(i: int, n: nat)
    requires
        0 <= i < n,
    ensures
        wrap(i, n) == i,
{
    reveal(wrap);
    vstd::arithmetic::div_mod::lemma_small_mod(i as nat, n);
}

/// A coordinate less than one turn off the ring is brought back by adding
/// or taking away `n` once.  This is how the board finds the neighbours of
/// a cell at an edge: by a comparison, without a division.
pub proof fn lemma_wrap_once(i: int, n: nat)
    requires
        n > 0,
        -n <= i < 2 * n,
    ensures
        wrap(i, n) == if i < 0 {
            i + n
        } else if i >= n {
            i - n
        } else {
            i
        },
        0 <= wrap(i, n) < n,
{
    reveal(wrap);
    let m = n as int;
    if i < 0 {
        vstd::arithmetic::div_mod::lemma_fundamental_div_mod_converse(i, m, -1, i + m);
    } else if i >= m {
        vstd::arithmetic::div_mod::lemma_fundamental_div_mod_converse(i, m, 1, i - m);
    } else {
        vstd::arithmetic::div_mod::lemma_fundamental_div_mod_converse(i, m, 0, i);
    }
}

/// Going on from a wrapped coordinate and wrapping again is the same as
/// going the whole way and wrapping once.
pub proof fn lemma_wrap_add(i: int, j: int, n: nat)
    requires
        n > 0,
    ensures
        wrap(wrap(i, n) + j, n) == wrap(i + j, n),
{
    reveal(wrap);
    vstd::arithmetic::div_mod::lemma_add_mod_noop_right(j, i, n as int);
}

} // verus!
