//! Small arithmetic facts shared by the modules.
use vstd::prelude::*;
use vstd::arithmetic::div_mod::lemma_fundamental_div_mod_converse;

verus! {

/// Quotient and remainder of `d * q + r` by `d`, for `0 <= r < d`.
pub(crate) proof fn lemma_split(x: int, d: int, q: int, r: int)
    requires
        d > 0,
        0 <= r < d,
        x == d * q + r || x == q * d + r,
    ensures
        x / d == q,
        x % d == r,
{
    assert(x == q * d + r) by (nonlinear_arith)
        requires
            x == d * q + r || x == q * d + r,
    ;
    lemma_fundamental_div_mod_converse(x, d, q, r);
}

} // verus!
