//! The mathematical model of the iteration protocol.
//!
//! An adapter's abstract state is the pair of its stored counter value and the
//! sequence of elements its inner producer still holds. The functions here say
//! what one forward or backward step does to that state and what pair it
//! yields; the lemmas relate repeated single steps to the closed forms that
//! the adapter's bulk operations promise.

use vstd::prelude::*;

verus! {

/// The state after one forward step: an exhausted state is left unchanged;
/// otherwise the front element is removed and the counter advances by one.
pub open spec fn forward_step<T>(c: int, s: Seq<T>) -> (int, Seq<T>) {
    if s.len() == 0 {
        (c, s)
    } else {
        (c + 1, s.skip(1))
    }
}

/// The pair a forward step yields: the counter value before the step, paired
/// with the front element; exhaustion yields nothing.
pub open spec fn forward_yield<T>(c: int, s: Seq<T>) -> Option<(int, T)> {
    if s.len() == 0 {
        None
    } else {
        Some((c, s[0]))
    }
}

/// The state after `k` single forward steps.
pub open spec fn forward_steps<T>(c: int, s: Seq<T>, k: nat) -> (int, Seq<T>)
    decreases k,
{
    if k == 0 {
        (c, s)
    } else {
        let t = forward_step(c, s);
        forward_steps(t.0, t.1, (k - 1) as nat)
    }
}

/// The state after one backward step: the stored counter is untouched; only
/// the back element is removed.
pub open spec fn backward_step<T>(c: int, s: Seq<T>) -> (int, Seq<T>) {
    if s.len() == 0 {
        (c, s)
    } else {
        (c, s.drop_last())
    }
}

/// The pair a backward step yields: the stored counter plus the remaining
/// length after removing the back element — the element's true forward
/// position — paired with that element.
pub open spec fn backward_yield<T>(c: int, s: Seq<T>) -> Option<(int, T)> {
    if s.len() == 0 {
        None
    } else {
        Some((c + s.len() - 1, s.last()))
    }
}

/// The state after `k` single backward steps.
pub open spec fn backward_steps<T>(c: int, s: Seq<T>, k: nat) -> (int, Seq<T>)
    decreases k,
{
    if k == 0 {
        (c, s)
    } else {
        let t = backward_step(c, s);
        backward_steps(t.0, t.1, (k - 1) as nat)
    }
}

/// While elements remain, `k` forward steps advance the counter by exactly
/// `k` and remove exactly the first `k` elements.
pub proof fn lemma_forward_steps<T>(c: int, s: Seq<T>, k: nat)
    requires
        k <= s.len(),
    ensures
        forward_steps(c, s, k) == (c + k, s.skip(k as int)),
    decreases k,
{
    if k == 0 {
        assert(s.skip(0) =~= s);
    } else {
        lemma_forward_steps(c + 1, s.skip(1), (k - 1) as nat);
        assert(s.skip(1).skip(k - 1) =~= s.skip(k as int));
    }
}

/// Once a state is exhausted it can only have been reached by consuming the
/// whole sequence: `k >= len` forward steps leave the counter at `c + len`
/// and nothing remaining.
pub proof fn lemma_forward_steps_exhausted<T>(c: int, s: Seq<T>, k: nat)
    requires
        k >= s.len(),
    ensures
        forward_steps(c, s, k).0 == c + s.len(),
        forward_steps(c, s, k).1.len() == 0,
    decreases k,
{
    if k > 0 {
        if s.len() == 0 {
            lemma_forward_steps_exhausted(c, s, (k - 1) as nat);
        } else {
            lemma_forward_steps_exhausted(c + 1, s.skip(1), (k - 1) as nat);
        }
    }
}

/// Front-to-back consumption emits ascending, positionally-correct counters:
/// the element yielded by the forward step taken after `k` earlier forward
/// steps is `s[k]`, and it carries counter value `c + k` — with an initial
/// counter of `0`, the counters `0, 1, ..., len - 1` in order.
pub proof fn lemma_forward_counters<T>(c: int, s: Seq<T>, k: nat)
    requires
        k < s.len(),
    ensures
        forward_yield(forward_steps(c, s, k).0, forward_steps(c, s, k).1) == Some(
            (c + k, s[k as int]),
        ),
{
    lemma_forward_steps(c, s, k);
}

/// While elements remain, `k` backward steps leave the stored counter
/// untouched and remove exactly the last `k` elements.
pub proof fn lemma_backward_steps<T>(c: int, s: Seq<T>, k: nat)
    requires
        k <= s.len(),
    ensures
        backward_steps(c, s, k) == (c, s.take(s.len() - k)),
    decreases k,
{
    if k == 0 {
        assert(s.take(s.len() as int) =~= s);
    } else {
        lemma_backward_steps(c, s.drop_last(), (k - 1) as nat);
        assert(s.drop_last().take(s.len() - k) =~= s.take(s.len() - k));
    }
}

/// `k >= len` backward steps leave the counter at `c` — backward stepping
/// never moves the stored counter — and nothing remaining.
pub proof fn lemma_backward_steps_exhausted<T>(c: int, s: Seq<T>, k: nat)
    requires
        k >= s.len(),
    ensures
        backward_steps(c, s, k).0 == c,
        backward_steps(c, s, k).1.len() == 0,
    decreases k,
{
    if k > 0 {
        if s.len() == 0 {
            lemma_backward_steps_exhausted(c, s, (k - 1) as nat);
        } else {
            lemma_backward_steps_exhausted(c, s.drop_last(), (k - 1) as nat);
        }
    }
}

/// Back-to-front consumption emits descending, positionally-correct counters:
/// the element yielded by the backward step taken after `k` earlier backward
/// steps is `s[len - 1 - k]`, and it carries counter value `c + len - 1 - k`
/// — with an initial counter of `0`, the counters `len - 1, ..., 1, 0` in
/// order.
pub proof fn lemma_backward_counters<T>(c: int, s: Seq<T>, k: nat)
    requires
        k < s.len(),
    ensures
        backward_yield(backward_steps(c, s, k).0, backward_steps(c, s, k).1) == Some(
            (c + s.len() - 1 - k, s[s.len() - 1 - k]),
        ),
{
    lemma_backward_steps(c, s, k);
}

/// Mixed consumption: after `k` elements have been consumed from the front,
/// the element yielded by the backward step taken after `j` further backward
/// steps still carries its true forward position `c + len - 1 - j` — so the
/// back-consumed elements carry counters `c + len - 1` down to `c + k`, no
/// matter that the front was consumed first.
pub proof fn lemma_mixed_counters<T>(c: int, s: Seq<T>, k: nat, j: nat)
    requires
        k <= s.len(),
        j < s.len() - k,
    ensures
        ({
            let front = forward_steps(c, s, k);
            let back = backward_steps(front.0, front.1, j);
            backward_yield(back.0, back.1) == Some((c + s.len() - 1 - j, s[s.len() - 1 - j]))
        }),
{
    lemma_forward_steps(c, s, k);
    lemma_backward_counters(c + k, s.skip(k as int), j);
    assert(s.skip(k as int)[s.len() - k - 1 - j] == s[s.len() - 1 - j]);
}

/// The state after an arbitrary interleaving of forward and backward steps:
/// `true` is a forward step, `false` a backward step.
pub open spec fn step_moves<T>(c: int, s: Seq<T>, moves: Seq<bool>) -> (int, Seq<T>)
    decreases moves.len(),
{
    if moves.len() == 0 {
        (c, s)
    } else {
        let t = if moves[0] {
            forward_step(c, s)
        } else {
            backward_step(c, s)
        };
        step_moves(t.0, t.1, moves.skip(1))
    }
}

/// How many of the moves are forward steps.
pub open spec fn front_moves(moves: Seq<bool>) -> nat
    decreases moves.len(),
{
    if moves.len() == 0 {
        0
    } else {
        (if moves[0] {
            1nat
        } else {
            0
        }) + front_moves(moves.skip(1))
    }
}

/// No more moves are forward steps than there are moves.
pub proof fn lemma_front_moves_bound(moves: Seq<bool>)
    ensures
        front_moves(moves) <= moves.len(),
    decreases moves.len(),
{
    if moves.len() > 0 {
        lemma_front_moves_bound(moves.skip(1));
    }
}

/// The cross-direction invariant: after `k` elements consumed from the front
/// and `m` from the back, in whatever interleaving, the stored counter equals
/// the initial value plus `k` and exactly the elements `k` through
/// `len - m - 1` remain. Hence the next front element would carry counter
/// `c + k` and the next back element `c + len - m - 1` — each its true
/// forward position, independent of the order of consumption.
pub proof fn lemma_interleaving<T>(c: int, s: Seq<T>, moves: Seq<bool>)
    requires
        moves.len() <= s.len(),
    ensures
        ({
            let k = front_moves(moves);
            let m = moves.len() - front_moves(moves);
            step_moves(c, s, moves) == (c + k, s.subrange(k as int, s.len() - m))
        }),
    decreases moves.len(),
{
    lemma_front_moves_bound(moves);
    if moves.len() == 0 {
        assert(s.subrange(0, s.len() as int) =~= s);
    } else {
        let tail = moves.skip(1);
        let k = front_moves(moves);
        let m = moves.len() - k;
        let kt = front_moves(tail);
        let mt = tail.len() - kt;
        lemma_front_moves_bound(tail);
        if moves[0] {
            lemma_interleaving(c + 1, s.skip(1), tail);
            assert(s.skip(1).subrange(kt as int, s.len() - 1 - mt) =~= s.subrange(
                k as int,
                s.len() - m,
            ));
        } else {
            lemma_interleaving(c, s.drop_last(), tail);
            assert(s.drop_last().subrange(kt as int, s.len() - 1 - mt) =~= s.subrange(
                k as int,
                s.len() - m,
            ));
        }
    }
}

/// Bulk forward skipping is observationally equivalent to single stepping:
/// while elements remain, the pair yielded after skipping `n` elements — the
/// pair `(c + n, s[n])` that `Enumerate::nth` promises — is the pair of the
/// last of `n + 1` single forward steps, and the residual state after the
/// bulk skip is the state those `n + 1` single steps leave. (Past the end the
/// two report exhaustion alike but part ways on the residual counter:
/// `lemma_forward_steps_exhausted` shows single stepping parks the counter at
/// `c + len`, while a bulk skip that exhausts the producer leaves it at `c`.)
pub proof fn lemma_skip_forward_equivalence<T>(c: int, s: Seq<T>, n: nat)
    requires
        n < s.len(),
    ensures
        forward_yield(forward_steps(c, s, n).0, forward_steps(c, s, n).1) == Some(
            (c + n, s[n as int]),
        ),
        forward_steps(c, s, (n + 1) as nat) == (c + n + 1, s.skip(n + 1int)),
{
    lemma_forward_counters(c, s, n);
    lemma_forward_steps(c, s, (n + 1) as nat);
}

/// Bulk backward skipping is observationally equivalent to single stepping:
/// while elements remain, the pair yielded after skipping `n` elements from
/// the back — the pair `(c + len - 1 - n, s[len - 1 - n])` that
/// `Enumerate::nth_back` promises — is the pair of the last of `n + 1` single
/// backward steps, and the residual state after the bulk skip is the state
/// those `n + 1` single steps leave. (Past the end the two agree as well:
/// `lemma_backward_steps_exhausted` gives the state single stepping saturates
/// at, the same empty state with the counter untouched that `nth_back`
/// promises.)
pub proof fn lemma_skip_backward_equivalence<T>(c: int, s: Seq<T>, n: nat)
    requires
        n < s.len(),
    ensures
        backward_yield(backward_steps(c, s, n).0, backward_steps(c, s, n).1) == Some(
            (c + s.len() - 1 - n, s[s.len() - 1 - n]),
        ),
        backward_steps(c, s, (n + 1) as nat) == (c, s.take(s.len() - n - 1int)),
{
    lemma_backward_counters(c, s, n);
    lemma_backward_steps(c, s, (n + 1) as nat);
}

/// Exhaustion is fused: from an exhausted state, any number of forward or
/// backward steps yields nothing, leaves the state unchanged, and never moves
/// the counter.
pub proof fn lemma_fused<T>(c: int, s: Seq<T>, k: nat)
    requires
        s.len() == 0,
    ensures
        forward_steps(c, s, k) == (c, s),
        backward_steps(c, s, k) == (c, s),
        forward_yield(c, s) is None,
        backward_yield(c, s) is None,
    decreases k,
{
    if k > 0 {
        lemma_fused(c, s, (k - 1) as nat);
    }
}

} // verus!
