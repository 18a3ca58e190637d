//! The mathematical model of round-robin rotation: which backend index the
//! k-th call selects, and the laws that make the discipline fair.

use vstd::prelude::*;
use vstd::arithmetic::div_mod::{
    lemma_add_mod_noop_right, lemma_fundamental_div_mod, lemma_mod_division_less_than_divisor,
    lemma_mod_multiples_vanish, lemma_mod_self_0, lemma_small_mod,
};

verus! {

/// The backend index selected by the k-th call (counting calls from 1) when
/// the cursor started at `c0` and the backend set has `len` entries. The
/// cursor advances by one before each read, wrapping modulo `len`, so after
/// k calls the cursor sits at `(c0 + k) % len`.
pub open spec fn rotation_index(c0: nat, k: nat, len: nat) -> nat
    recommends
        len > 0,
{
    (c0 + k) % len
}

/// Advance a cursor one step around a cycle of length `len`.
pub fn advance(cursor: usize, len: usize) -> (r: usize)
    requires
        0 < len,
        cursor < len,
    ensures
        r == rotation_index(cursor as nat, 1, len as nat),
        r < len,
{
    if cursor + 1 == len {
        proof {
            lemma_mod_self_0(len as int);
        }
        0
    } else {
        proof {
            lemma_small_mod((cursor + 1) as nat, len as nat);
        }
        cursor + 1
    }
}

/// Every call selects an index of the backend set: the rotation never steps
/// out of range.
pub proof fn lemma_index_in_range(c0: nat, k: nat, len: nat)
    requires
        len > 0,
    ensures
        rotation_index(c0, k, len) < len,
{
    lemma_mod_division_less_than_divisor((c0 + k) as int, len as int);
}

/// Law (no skip, no repeat out of turn): each call selects exactly the index
/// one past the previous call's, wrapping modulo the backend count. Together
/// with the exact per-call contract of `Distributor::next`, any global
/// ordering of exclusive `next` steps therefore reads like one sequential
/// round-robin run.
pub proof fn lemma_step(c0: nat, k: nat, len: nat)
    requires
        len > 0,
    ensures
        rotation_index(c0, k + 1, len) == (rotation_index(c0, k, len) + 1) % len,
{
    lemma_add_mod_noop_right(1, (c0 + k) as int, len as int);
}

/// Law (composition): running `k` further calls from the cursor reached after
/// `j` calls lands where `j + k` calls from the start would. A sequence of
/// calls split between callers in any way yields the same rotation as the
/// undivided sequence.
pub proof fn lemma_compose(c0: nat, j: nat, k: nat, len: nat)
    requires
        len > 0,
    ensures
        rotation_index(rotation_index(c0, j, len), k, len) == rotation_index(c0, j + k, len),
{
    lemma_add_mod_noop_right(k as int, (c0 + j) as int, len as int);
}

/// Law (periodicity): the rotation has period `len`. The call at offset
/// `j + cycles * len` selects the same index as the call at offset `j`, so
/// each window of `len` consecutive calls repeats the first one exactly.
pub proof fn lemma_periodic(c0: nat, j: nat, cycles: nat, len: nat)
    requires
        len > 0,
    ensures
        rotation_index(c0, j + cycles * len, len) == rotation_index(c0, j, len),
{
    lemma_mod_multiples_vanish(cycles as int, (c0 + j) as int, len as int);
    assert((c0 + (j + cycles * len)) as int == (len as int) * (cycles as int) + (c0 + j) as int)
        by (nonlinear_arith);
}

/// Some call in the window of `len` consecutive calls starting from cursor
/// `c0` selects index `i`.
pub open spec fn selected_in_cycle(c0: nat, i: nat, len: nat) -> bool {
    exists|k: nat| 1 <= k <= len && #[trigger] rotation_index(c0, k, len) == i
}

/// Helper for the coverage law: among the next `len` calls, some call
/// selects index `i`.
proof fn lemma_cycle_hits(c0: nat, len: nat, i: nat)
    requires
        len > 0,
        i < len,
    ensures
        selected_in_cycle(c0, i, len),
{
    let r = c0 % len;
    let q = c0 as int / len as int;
    lemma_mod_division_less_than_divisor(c0 as int, len as int);
    lemma_fundamental_div_mod(c0 as int, len as int);
    lemma_small_mod(i, len);
    if i > r {
        let k = (i - r) as nat;
        lemma_mod_multiples_vanish(q, i as int, len as int);
        assert(c0 + k == len as int * q + i);
        assert(rotation_index(c0, k, len) == i);
    } else {
        let k = (i + len - r) as nat;
        lemma_mod_multiples_vanish(q + 1, i as int, len as int);
        assert(len as int * (q + 1) == len as int * q + len) by (nonlinear_arith);
        assert(c0 + k == len as int * (q + 1) + i);
        assert(rotation_index(c0, k, len) == i);
    }
}

/// Helper for the coverage law: two calls less than a full cycle apart that
/// select the same index are the same call.
proof fn lemma_cycle_distinct_ordered(c0: nat, len: nat, k1: nat, k2: nat)
    requires
        len > 0,
        k1 <= k2,
        k2 - k1 < len,
        rotation_index(c0, k1, len) == rotation_index(c0, k2, len),
    ensures
        k1 == k2,
{
    let a = (c0 + k1) as int;
    let b = (c0 + k2) as int;
    let l = len as int;
    lemma_fundamental_div_mod(a, l);
    lemma_fundamental_div_mod(b, l);
    let qa = a / l;
    let qb = b / l;
    assert(b - a == l * qb - l * qa);
    assert(b - a == 0) by (nonlinear_arith)
        requires
            l > 0,
            0 <= b - a,
            b - a < l,
            b - a == l * qb - l * qa,
    ;
}

/// Two calls within one window of `len` consecutive calls that select the
/// same index are the same call.
pub proof fn lemma_cycle_distinct(c0: nat, len: nat, k1: nat, k2: nat)
    requires
        len > 0,
        1 <= k1 <= len,
        1 <= k2 <= len,
        rotation_index(c0, k1, len) == rotation_index(c0, k2, len),
    ensures
        k1 == k2,
{
    if k1 <= k2 {
        lemma_cycle_distinct_ordered(c0, len, k1, k2);
    } else {
        lemma_cycle_distinct_ordered(c0, len, k2, k1);
    }
}

/// Law (cyclic coverage): over any window of `len` consecutive calls, every
/// index below `len` is selected by exactly one call — each backend is used
/// exactly once per full cycle, in a fixed cyclic order determined by the
/// starting cursor.
pub proof fn lemma_cycle_covers(c0: nat, len: nat)
    requires
        len > 0,
    ensures
        forall|i: nat| i < len ==> #[trigger] selected_in_cycle(c0, i, len),
        forall|k1: nat, k2: nat|
            #![trigger rotation_index(c0, k1, len), rotation_index(c0, k2, len)]
            1 <= k1 <= len && 1 <= k2 <= len && rotation_index(c0, k1, len) == rotation_index(
                c0,
                k2,
                len,
            ) ==> k1 == k2,
{
    assert forall|i: nat| i < len implies #[trigger] selected_in_cycle(c0, i, len) by {
        lemma_cycle_hits(c0, len, i);
    }
    assert forall|k1: nat, k2: nat|
        #![trigger rotation_index(c0, k1, len), rotation_index(c0, k2, len)]
        1 <= k1 <= len && 1 <= k2 <= len && rotation_index(c0, k1, len) == rotation_index(
            c0,
            k2,
            len,
        ) implies k1 == k2 by {
        lemma_cycle_distinct(c0, len, k1, k2);
    }
}

/// Law (single backend): with one backend the rotation is constant — every
/// call selects index zero, and never fails.
pub proof fn lemma_single_backend(c0: nat, k: nat)
    ensures
        rotation_index(c0, k, 1) == 0,
{
    lemma_mod_division_less_than_divisor((c0 + k) as int, 1);
}

} // verus!
