//! Arithmetic of positions in a ring of `n` slots: the writer and every reader of the
//! log move forward one slot at a time and wrap back to slot 0 at the end.

use vstd::prelude::*;
use vstd::arithmetic::div_mod::{lemma_fundamental_div_mod, lemma_fundamental_div_mod_converse};
use vstd::arithmetic::mul::lemma_mul_is_distributive_add;

verus! {

/// The slot after `position` in a ring of `n` slots: one further on, or slot 0 once the
/// end of the ring is reached.
pub open spec fn next_slot(position: int, n: int) -> int {
    if position + 1 >= n {
        0
    } else {
        position + 1
    }
}

/// A new log's position is its last slot, so that its first line goes to slot 0.
pub proof fn lemma_first_line_goes_to_slot_zero(n: int)
    requires
        n > 0,
    ensures
        next_slot(n - 1, n) == 0,
{
}

/// The slot reached from `position` after `steps` moves along the ring.
pub open spec fn advance(position: int, steps: nat, n: int) -> int
    decreases steps,
{
    if steps == 0 {
        position
    } else {
        next_slot(advance(position, (steps - 1) as nat, n), n)
    }
}

/// How many moves along the ring lead from slot `from` to slot `to`.
pub open spec fn ring_distance(from: int, to: int, n: int) -> nat {
    if from <= to {
        (to - from) as nat
    } else {
        (n - from + to) as nat
    }
}

/// The slots met moving from `from` towards `to`, `to` itself left out.
pub open spec fn slots_between(from: int, to: int, n: int) -> Seq<int> {
    Seq::new(ring_distance(from, to, n), |i: int| advance(from, i as nat, n))
}

/// A reader standing where the writer stood `k` lines ago, with fewer than `n` lines
/// written since, has exactly those `k` lines ahead of it, in the order they were written.
pub proof fn lemma_reader_gets_every_new_line(position: int, k: nat, n: int)
    requires
        0 <= position < n,
        k < n,
    ensures
        ring_distance(position, advance(position, k, n), n) == k,
        slots_between(position, advance(position, k, n), n) == Seq::new(k, |i: int| advance(position, i as nat, n)),
{
    lemma_slot_value(position, k as int, n);
    assert(slots_between(position, advance(position, k, n), n) =~= Seq::new(k, |i: int| advance(position, i as nat, n)));
}

/// The slot after `position` in a ring of `n` slots. A position past the end of the
/// ring (and `usize::MAX`, whose successor wraps) is followed by slot 0.
pub fn successor(position: usize, n: usize) -> (r: usize)
    ensures
        r == next_slot(position as int, n as int),
{
    if n == 0 || position >= n - 1 {
        0
    } else {
        position + 1
    }
}

/// The slots a reader at `from` still has to visit before it reaches the writer at `to`,
/// in the order it visits them; `to` is not among them.
pub fn pending_slots(from: usize, to: usize, n: usize) -> (r: Vec<usize>)
    requires
        from < n,
        to < n,
    ensures
        r@.len() == ring_distance(from as int, to as int, n as int),
        forall|i: int| 0 <= i < r@.len() ==> r@[i] == slots_between(from as int, to as int, n as int)[i],
{
    let mut slots: Vec<usize> = Vec::new();
    let mut position: usize = from;
    let ghost total = ring_distance(from as int, to as int, n as int);
    proof {
        lemma_distance_reaches(from as int, to as int, n as int);
        lemma_advance_in_ring(from as int, 0, n as int);
    }
    while position != to
        invariant
            from < n,
            to < n,
            total == ring_distance(from as int, to as int, n as int),
            advance(from as int, total, n as int) == to,
            slots@.len() <= total,
            position == advance(from as int, slots@.len() as nat, n as int),
            forall|i: int| 0 <= i < slots@.len() ==> slots@[i] == advance(from as int, i as nat, n as int),
        decreases total - slots@.len(),
    {
        proof {
            lemma_pending_slots_differ_from_target(from as int, to as int, n as int);
            if slots@.len() == total {
                assert(false);
            }
        }
        slots.push(position);
        position = successor(position, n);
        proof {
            lemma_advance_in_ring(from as int, slots@.len() as nat, n as int);
        }
    }
    proof {
        lemma_pending_slots_differ_from_target(from as int, to as int, n as int);
        if slots@.len() < total {
            assert(slots_between(from as int, to as int, n as int)[slots@.len() as int] == position);
        }
    }
    slots
}

/// A move from any position of a non-empty ring lands on one of its slots.
pub proof fn lemma_next_slot_in_ring(position: int, n: int)
    requires
        n > 0,
        position >= 0,
    ensures
        0 <= next_slot(position, n) < n,
{
}

/// Moving `steps` times from a slot of the ring lands where modular arithmetic says:
/// on slot `(position + steps) % n`.
pub proof fn lemma_advance_is_modular(position: int, steps: nat, n: int)
    requires
        0 <= position < n,
    ensures
        advance(position, steps, n) == (position + steps) % n,
    decreases steps,
{
    if steps == 0 {
        lemma_fundamental_div_mod_converse(position, n, 0, position);
    } else {
        let k = (steps - 1) as nat;
        lemma_advance_is_modular(position, k, n);
        let r = (position + k) % n;
        let q = (position + k) / n;
        lemma_fundamental_div_mod(position + k, n);
        lemma_mul_is_distributive_add(n, q, 1);
        if r + 1 >= n {
            lemma_fundamental_div_mod_converse(position + steps, n, q + 1, 0);
        } else {
            lemma_fundamental_div_mod_converse(position + steps, n, q, r + 1);
        }
    }
}

/// Every slot reached from a slot of the ring lies in the ring.
pub proof fn lemma_advance_in_ring(position: int, steps: nat, n: int)
    requires
        0 <= position < n,
    ensures
        0 <= advance(position, steps, n) < n,
    decreases steps,
{
    if steps > 0 {
        lemma_advance_in_ring(position, (steps - 1) as nat, n);
    }
}

/// A reader that moves `ring_distance(from, to, n)` times from slot `from` stands on the
/// writer's slot `to`.
pub proof fn lemma_distance_reaches(from: int, to: int, n: int)
    requires
        0 <= from < n,
        0 <= to < n,
    ensures
        advance(from, ring_distance(from, to, n), n) == to,
        ring_distance(from, to, n) < n,
{
    let d = ring_distance(from, to, n);
    lemma_advance_is_modular(from, d, n);
    if from <= to {
        lemma_fundamental_div_mod_converse(from + d, n, 0, to);
    } else {
        lemma_fundamental_div_mod_converse(from + d, n, 1, to);
    }
}

/// On its way from `from` to `to` a reader meets every slot at most once and never the
/// writer's slot `to`: the slots it visits are in the ring, pairwise different, and
/// different from `to`.
pub proof fn lemma_pending_slots_differ_from_target(from: int, to: int, n: int)
    requires
        0 <= from < n,
        0 <= to < n,
    ensures
        forall|i: int|
            0 <= i < ring_distance(from, to, n) ==> 0 <= #[trigger] advance(from, i as nat, n) < n
                && advance(from, i as nat, n) != to,
        forall|i: int, j: int|
            0 <= i < j < ring_distance(from, to, n) ==> #[trigger] advance(from, i as nat, n)
                != #[trigger] advance(from, j as nat, n),
{
    assert forall|i: int| 0 <= i < ring_distance(from, to, n) implies 0 <= #[trigger] advance(
        from,
        i as nat,
        n,
    ) < n && advance(from, i as nat, n) != to by {
        lemma_slot_value(from, i, n);
    }
    assert forall|i: int, j: int| 0 <= i < j < ring_distance(from, to, n) implies #[trigger] advance(
        from,
        i as nat,
        n,
    ) != #[trigger] advance(from, j as nat, n) by {
        lemma_slot_value(from, i, n);
        lemma_slot_value(from, j, n);
        lemma_distance_reaches(from, to, n);
    }
}

/// The slot `steps` moves after `from`, for fewer moves than the ring has slots, written
/// without a modulus.
proof fn lemma_slot_value(from: int, steps: int, n: int)
    requires
        0 <= from < n,
        0 <= steps < n,
    ensures
        from + steps < n ==> advance(from, steps as nat, n) == from + steps,
        from + steps >= n ==> advance(from, steps as nat, n) == from + steps - n,
{
    lemma_advance_is_modular(from, steps as nat, n);
    if from + steps < n {
        lemma_fundamental_div_mod_converse(from + steps, n, 0, from + steps);
    } else {
        lemma_fundamental_div_mod_converse(from + steps, n, 1, from + steps - n);
    }
}

} // verus!
