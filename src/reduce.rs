//! Barrett reduction modulo q.
use vstd::prelude::*;

verus! {

/// The centred representatives modulo q: `-(q-1)/2 ..= (q-1)/2`.
pub open spec fn is_centred(r: int) -> bool {
    -1664 <= r <= 1664
}

/// The centred representative of `a` modulo q.
pub open spec fn centred_mod(a: int) -> int {
    let m = a % 3329;
    if m > 1664 {
        m - 3329
    } else {
        m
    }
}

proof fn lemma_barrett_step(a: i16, x: i32)
    by (bit_vector)
    requires
        x == 20159 * a + 33554432,
    ensures
        -10 <= x >> 26i32 <= 10,
        -1664 <= a - (x >> 26i32) * 3329 <= 1664,
{
}

/// A value congruent to `a` modulo q that lies in the centred range is the
/// centred representative.
pub proof fn lemma_centred_unique(a: int, r: int)
    requires
        is_centred(r),
        (r - a) % 3329 == 0,
    ensures
        r == centred_mod(a),
{
    let m = a % 3329;
    assert(a == 3329 * (a / 3329) + m);
    assert((r - m) % 3329 == 0) by {
        assert(r - m == (r - a) + 3329 * (a / 3329));
        vstd::arithmetic::div_mod::lemma_mod_multiples_vanish(a / 3329, r - a, 3329);
    }
    assert(0 <= m < 3329);
    vstd::arithmetic::div_mod::lemma_fundamental_div_mod(r - m, 3329);
    let k = (r - m) / 3329;
    assert(r - m == 3329 * k);
    assert(-2 < k < 1) by (nonlinear_arith)
        requires
            r - m == 3329 * k,
            -3329 - 1664 <= r - m <= 1664,
    ;
}

/// Barrett reduction: the centred representative of `a` modulo q.
pub fn barrett_reduce(a: i16) -> (r: i16)
    ensures
        r as int == centred_mod(a as int),
        is_centred(r as int),
{
    let v: i32 = 20159;
    assert(1i32 << 25 == 33554432i32) by (bit_vector);
    let mut t: i32 = v * (a as i32) + (1i32 << 25);
    proof {
        lemma_barrett_step(a, t);
    }
    t = t >> 26;
    let ghost quot = t;
    t = t * 3329;
    // the difference is formed at 32 bits: near the ends of the 16-bit range
    // the multiple of q may itself leave that range
    let r = ((a as i32) - t) as i16;
    proof {
        assert((r - a) as int == -3329 * quot);
        vstd::arithmetic::div_mod::lemma_mod_multiples_basic(-quot, 3329);
        lemma_centred_unique(a as int, r as int);
    }
    r
}


/// The centred representative is congruent to its argument.
pub proof fn lemma_centred_congruent(a: int)
    ensures
        (centred_mod(a) - a) % 3329 == 0,
        is_centred(centred_mod(a)),
{
    let m = a % 3329;
    vstd::arithmetic::div_mod::lemma_fundamental_div_mod(a, 3329);
    if m > 1664 {
        assert(centred_mod(a) - a == -3329 * (a / 3329) - 3329);
        vstd::arithmetic::div_mod::lemma_mod_multiples_basic(-(a / 3329) - 1, 3329);
    } else {
        assert(centred_mod(a) - a == -3329 * (a / 3329));
        vstd::arithmetic::div_mod::lemma_mod_multiples_basic(-(a / 3329), 3329);
    }
}

/// Congruent values have the same centred representative.
pub proof fn lemma_centred_mod_congruent(a: int, b: int)
    requires
        (a - b) % 3329 == 0,
    ensures
        centred_mod(a) == centred_mod(b),
{
    lemma_centred_congruent(a);
    vstd::arithmetic::div_mod::lemma_fundamental_div_mod(centred_mod(a) - a, 3329);
    vstd::arithmetic::div_mod::lemma_fundamental_div_mod(a - b, 3329);
    let k1 = (centred_mod(a) - a) / 3329;
    let k2 = (a - b) / 3329;
    assert(centred_mod(a) - b == 3329 * (k1 + k2)) by (nonlinear_arith)
        requires
            centred_mod(a) - a == 3329 * k1,
            a - b == 3329 * k2,
    ;
    vstd::arithmetic::div_mod::lemma_mod_multiples_basic(k1 + k2, 3329);
    lemma_centred_unique(b, centred_mod(a));
}

/// Moving the centred representative into `[0, q)` gives the standard one.
pub proof fn lemma_centred_lifted(a: int)
    ensures
        (if centred_mod(a) < 0 {
            centred_mod(a) + 3329
        } else {
            centred_mod(a)
        }) == a % 3329,
{
}

} // verus!
