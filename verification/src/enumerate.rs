//! The enumerate adapter: wraps a sequence producer together with a counter
//! and drives the full iteration protocol, pairing every element with its
//! positionally-correct counter value.

use vstd::prelude::*;

use crate::counter::Counter;
use crate::model::backward_step;
use crate::model::backward_steps;
use crate::model::backward_yield;
use crate::model::forward_step;
use crate::model::forward_steps;
use crate::model::forward_yield;
use crate::model::lemma_backward_steps;
use crate::model::lemma_backward_steps_exhausted;
use crate::model::lemma_forward_steps;
use crate::producer::DoubleEndedProducer;
use crate::producer::ExactSizeProducer;
use crate::producer::Producer;

verus! {

/// A model-level yield, whose counter is a mathematical value, carried over
/// to a concrete counter type.
pub open spec fn lift_yield<C: Counter, T>(y: Option<(int, T)>) -> Option<(C, T)> {
    match y {
        None => None,
        Some(p) => Some((C::from_int(p.0), p.1)),
    }
}

/// What a forward fold guarantees of its result: `bs` is the chain of
/// accumulator values threaded through the callback — `bs[0]` is the initial
/// accumulator, and `bs[i + 1]` is a possible result of the callback applied
/// to `bs[i]` and the `i`-th element, which is handed over paired with
/// counter value `c + i`: ascending, positionally-correct counters.
pub open spec fn fold_trace<B, C: Counter, T, F: FnMut(B, (C, T)) -> B>(
    f: F,
    c: int,
    s: Seq<T>,
    init: B,
    bs: Seq<B>,
) -> bool {
    &&& bs.len() == s.len() + 1
    &&& bs[0] == init
    &&& forall|i: int|
        0 <= i < s.len() ==> call_ensures(f, (bs[i], (C::from_int(c + i), s[i])), bs[i + 1])
}

/// What a backward fold guarantees of its result: as [`fold_trace`], but the
/// elements are handed over back to front, each still paired with its true
/// forward position — strictly descending counters `c + len - 1` down to `c`.
pub open spec fn rfold_trace<B, C: Counter, T, F: FnMut(B, (C, T)) -> B>(
    f: F,
    c: int,
    s: Seq<T>,
    init: B,
    bs: Seq<B>,
) -> bool {
    &&& bs.len() == s.len() + 1
    &&& bs[0] == init
    &&& forall|i: int|
        0 <= i < s.len() ==> call_ensures(
            f,
            (#[trigger] bs[i], (C::from_int(c + s.len() - 1 - i), s[s.len() - 1 - i])),
            bs[i + 1],
        )
}

/// A sequence producer paired with a counter of a caller-chosen numeric type.
///
/// The stored counter always holds the position to be assigned to the next
/// front element: the initial value plus the number of elements already
/// consumed from the front. Backward operations never move it; they compute
/// each yielded counter from it and the remaining length.
#[derive(Debug, Clone)]
pub struct Enumerate<I: Producer, C: Counter> {
    iter: I,
    count: C,
}

impl<I: Producer, C: Counter> Enumerate<I, C> {
    /// The elements the inner producer still holds.
    pub closed spec fn inner(&self) -> Seq<I::Item> {
        self.iter.seq()
    }

    /// The mathematical value of the stored counter.
    pub closed spec fn counter(&self) -> int {
        self.count.value()
    }

    /// The size hint the inner producer currently reports.
    pub closed spec fn inner_size_hint(&self) -> (usize, Option<usize>) {
        self.iter.spec_size_hint()
    }

    /// The stored counter is always representable.
    pub proof fn lemma_counter_in_range(&self)
        ensures
            C::min_value() <= self.counter() <= C::max_value(),
    {
        self.count.lemma_in_range();
    }

    /// Step forward: capture the counter, advance it by one, and yield the
    /// captured counter paired with the front element — or report exhaustion,
    /// changing nothing.
    pub fn next(&mut self) -> (r: Option<(C, I::Item)>)
        requires
            old(self).inner().len() > 0 ==> old(self).counter() + 1 <= C::max_value(),
        ensures
            r == lift_yield::<C, I::Item>(forward_yield(old(self).counter(), old(self).inner())),
            (final(self).counter(), final(self).inner()) == forward_step(
                old(self).counter(),
                old(self).inner(),
            ),
            old(self).inner().len() == 0 ==> r is None && final(self).inner() == old(self).inner()
                && final(self).counter() == old(self).counter(),
            old(self).inner().len() > 0 ==> r == Some(
                (C::from_int(old(self).counter()), old(self).inner()[0]),
            ) && final(self).inner() == old(self).inner().skip(1) && final(self).counter() == old(
                self,
            ).counter() + 1,
    {
        match self.iter.next() {
            None => None,
            Some(a) => {
                let i = self.count;
                proof {
                    i.lemma_from_value();
                }
                self.count.inc();
                Some((i, a))
            },
        }
    }

    /// Report the inner producer's size hint, exactly as it stands: the
    /// counter never changes the reported cardinality.
    pub fn size_hint(&self) -> (r: (usize, Option<usize>))
        ensures
            r == self.inner_size_hint(),
    {
        self.iter.size_hint()
    }

    /// Skip forward past `n` elements in bulk and yield the pair for the
    /// element then at the front: the counter advances by `n + 1` in one
    /// move, exactly as `n + 1` single forward steps would have advanced it.
    /// If the producer exhausts during the skip, report exhaustion and leave
    /// the counter where it was.
    pub fn nth(&mut self, n: usize) -> (r: Option<(C, I::Item)>)
        requires
            old(self).inner().len() > n ==> old(self).counter() + n + 1 <= C::max_value(),
        ensures
            old(self).inner().len() <= n ==> r is None && final(self).inner().len() == 0
                && final(self).counter() == old(self).counter(),
            old(self).inner().len() > n ==> r == Some(
                (C::from_int(old(self).counter() + n), old(self).inner()[n as int]),
            ) && final(self).inner() == old(self).inner().skip(n + 1) && final(self).counter()
                == old(self).counter() + n + 1,
            old(self).inner().len() > n ==> (final(self).counter(), final(self).inner())
                == forward_steps(old(self).counter(), old(self).inner(), (n + 1) as nat),
    {
        let mut k: usize = 0;
        while k < n
            invariant
                k <= n,
                k <= old(self).inner().len(),
                self.count == old(self).count,
                self.iter.seq() == old(self).inner().skip(k as int),
                old(self).inner().len() > n ==> old(self).counter() + n + 1 <= C::max_value(),
            decreases n - k,
        {
            match self.iter.next() {
                None => {
                    return None;
                },
                Some(_) => {
                    k = k + 1;
                },
            }
            proof {
                assert(old(self).inner().skip(k - 1).skip(1) =~= old(self).inner().skip(k as int));
            }
        }
        match self.iter.next() {
            None => None,
            Some(a) => {
                self.count.inc_n(n);
                let i = self.count;
                proof {
                    i.lemma_from_value();
                }
                self.count.inc();
                proof {
                    lemma_forward_steps(old(self).counter(), old(self).inner(), (n + 1) as nat);
                    assert(old(self).inner().skip(n as int).skip(1) =~= old(self).inner().skip(
                        n + 1,
                    ));
                }
                Some((i, a))
            },
        }
    }

    /// Fold over the remaining elements front to back, handing the callback
    /// each element paired with its counter and advancing the counter by one
    /// per element.
    pub fn fold<B, F: FnMut(B, (C, I::Item)) -> B>(self, init: B, f: F) -> (r: B)
        requires
            self.counter() + self.inner().len() <= C::max_value(),
            forall|b: B, i: int|
                0 <= i < self.inner().len() ==> #[trigger] call_requires(
                    f,
                    (b, (C::from_int(self.counter() + i), self.inner()[i])),
                ),
        ensures
            exists|bs: Seq<B>|
                fold_trace(f, self.counter(), self.inner(), init, bs) && r == bs.last(),
    {
        let ghost c = self.counter();
        let ghost s = self.inner();
        let mut iter = self.iter;
        let mut count = self.count;
        let mut acc = init;
        let mut g = f;
        let ghost mut bs: Seq<B> = Seq::empty().push(init);
        loop
            invariant
                g == f,
                c == self.counter(),
                s == self.inner(),
                c + s.len() <= C::max_value(),
                forall|b: B, i: int|
                    0 <= i < s.len() ==> #[trigger] call_requires(
                        g,
                        (b, (C::from_int(c + i), s[i])),
                    ),
                1 <= bs.len() <= s.len() + 1,
                bs[0] == init,
                acc == bs.last(),
                count.value() == c + bs.len() - 1,
                iter.seq() == s.skip(bs.len() - 1),
                forall|i: int|
                    0 <= i < bs.len() - 1 ==> call_ensures(
                        g,
                        (bs[i], (C::from_int(c + i), s[i])),
                        bs[i + 1],
                    ),
            decreases iter.seq().len(),
        {
            match iter.next() {
                None => {
                    proof {
                        assert(fold_trace(f, c, s, init, bs) && acc == bs.last());
                    }
                    return acc;
                },
                Some(a) => {
                    let i = count;
                    proof {
                        i.lemma_from_value();
                    }
                    count.inc();
                    acc = g(acc, (i, a));
                    proof {
                        bs = bs.push(acc);
                        assert(s.skip(bs.len() - 2).skip(1) =~= s.skip(bs.len() - 1));
                    }
                },
            }
        }
    }

    /// Count the remaining elements by consuming them. This delegates
    /// entirely to the inner producer; the counter is irrelevant and is
    /// discarded.
    pub fn count(self) -> (n: usize)
        requires
            self.inner().len() <= usize::MAX,
        ensures
            n == self.inner().len(),
    {
        let mut iter = self.iter;
        let mut n: usize = 0;
        loop
            invariant
                n + iter.seq().len() == self.inner().len(),
                self.inner().len() <= usize::MAX,
            decreases iter.seq().len(),
        {
            match iter.next() {
                None => {
                    return n;
                },
                Some(_) => {
                    n = n + 1;
                },
            }
        }
    }
}

impl<I: DoubleEndedProducer + ExactSizeProducer, C: Counter> Enumerate<I, C> {
    /// Step backward: yield the back element paired with its true forward
    /// position — the stored counter plus the remaining length after removing
    /// the element — or report exhaustion. The stored counter never moves.
    pub fn next_back(&mut self) -> (r: Option<(C, I::Item)>)
        requires
            old(self).inner().len() > 0 ==> old(self).counter() + old(self).inner().len() - 1
                <= C::max_value(),
        ensures
            r == lift_yield::<C, I::Item>(backward_yield(old(self).counter(), old(self).inner())),
            (final(self).counter(), final(self).inner()) == backward_step(
                old(self).counter(),
                old(self).inner(),
            ),
            old(self).inner().len() == 0 ==> r is None && final(self).inner() == old(self).inner()
                && final(self).counter() == old(self).counter(),
            old(self).inner().len() > 0 ==> r == Some(
                (
                    C::from_int(old(self).counter() + old(self).inner().len() - 1),
                    old(self).inner().last(),
                ),
            ) && final(self).inner() == old(self).inner().drop_last() && final(self).counter()
                == old(self).counter(),
    {
        match self.iter.next_back() {
            None => None,
            Some(a) => {
                let len = self.iter.len();
                let mut count = self.count;
                count.inc_n(len);
                proof {
                    count.lemma_from_value();
                }
                Some((count, a))
            },
        }
    }

    /// Skip backward past `n` elements in bulk and yield the pair for the
    /// element `n` positions from the back, with its true forward position
    /// computed from the remaining length — exactly as `n + 1` single
    /// backward steps would have yielded it. The stored counter never moves.
    pub fn nth_back(&mut self, n: usize) -> (r: Option<(C, I::Item)>)
        requires
            old(self).inner().len() > n ==> old(self).counter() + old(self).inner().len() - n - 1
                <= C::max_value(),
        ensures
            (final(self).counter(), final(self).inner()) == backward_steps(
                old(self).counter(),
                old(self).inner(),
                (n + 1) as nat,
            ),
            old(self).inner().len() <= n ==> r is None && final(self).inner().len() == 0
                && final(self).counter() == old(self).counter(),
            old(self).inner().len() > n ==> r == Some(
                (
                    C::from_int(old(self).counter() + old(self).inner().len() - n - 1),
                    old(self).inner()[old(self).inner().len() - n - 1],
                ),
            ) && final(self).inner() == old(self).inner().take(
                old(self).inner().len() - n - 1,
            ) && final(self).counter() == old(self).counter(),
    {
        let ghost c = old(self).counter();
        let ghost s = old(self).inner();
        let mut k: usize = 0;
        while k < n
            invariant
                c == old(self).counter(),
                s == old(self).inner(),
                k <= n,
                k <= s.len(),
                self.count == old(self).count,
                self.iter.seq() == s.take(s.len() - k),
                s.len() > n ==> c + s.len() - n - 1 <= C::max_value(),
            decreases n - k,
        {
            match self.iter.next_back() {
                None => {
                    proof {
                        lemma_backward_steps_exhausted(c, s, (n + 1) as nat);
                        assert(self.iter.seq() =~= backward_steps(c, s, (n + 1) as nat).1);
                    }
                    return None;
                },
                Some(_) => {
                    k = k + 1;
                },
            }
            proof {
                assert(s.take(s.len() - (k - 1)).drop_last() =~= s.take(s.len() - k));
            }
        }
        match self.iter.next_back() {
            None => {
                proof {
                    lemma_backward_steps_exhausted(c, s, (n + 1) as nat);
                    assert(self.iter.seq() =~= backward_steps(c, s, (n + 1) as nat).1);
                }
                None
            },
            Some(a) => {
                let len = self.iter.len();
                let mut count = self.count;
                count.inc_n(len);
                proof {
                    count.lemma_from_value();
                    lemma_backward_steps(c, s, (n + 1) as nat);
                    assert(s.take(s.len() - n).drop_last() =~= s.take(s.len() - n - 1));
                }
                Some((count, a))
            },
        }
    }

    /// Fold over the remaining elements back to front, handing the callback
    /// each element paired with its true forward position. A local counter is
    /// initialized to the stored counter plus the full remaining length and
    /// decremented before each callback invocation, so the counters arrive
    /// strictly descending; the stored counter itself is never touched.
    pub fn rfold<B, F: FnMut(B, (C, I::Item)) -> B>(self, init: B, f: F) -> (r: B)
        requires
            self.counter() + self.inner().len() <= C::max_value(),
            forall|b: B, i: int|
                0 <= i < self.inner().len() ==> #[trigger] call_requires(
                    f,
                    (b, (C::from_int(self.counter() + i), self.inner()[i])),
                ),
        ensures
            exists|bs: Seq<B>|
                rfold_trace(f, self.counter(), self.inner(), init, bs) && r == bs.last(),
    {
        let ghost c = self.counter();
        let ghost s = self.inner();
        proof {
            self.count.lemma_in_range();
        }
        let mut iter = self.iter;
        let mut count = self.count;
        let len = iter.len();
        count.inc_n(len);
        let mut acc = init;
        let mut g = f;
        let ghost mut bs: Seq<B> = Seq::empty().push(init);
        loop
            invariant
                g == f,
                c == self.counter(),
                s == self.inner(),
                C::min_value() <= c,
                c + s.len() <= C::max_value(),
                forall|b: B, i: int|
                    0 <= i < s.len() ==> #[trigger] call_requires(
                        g,
                        (b, (C::from_int(c + i), s[i])),
                    ),
                1 <= bs.len() <= s.len() + 1,
                bs[0] == init,
                acc == bs.last(),
                iter.seq() == s.take(s.len() - (bs.len() - 1)),
                count.value() == c + s.len() - (bs.len() - 1),
                forall|i: int|
                    0 <= i < bs.len() - 1 ==> call_ensures(
                        g,
                        (#[trigger] bs[i], (C::from_int(c + s.len() - 1 - i), s[s.len() - 1 - i])),
                        bs[i + 1],
                    ),
            decreases iter.seq().len(),
        {
            match iter.next_back() {
                None => {
                    proof {
                        assert(rfold_trace(f, c, s, init, bs) && acc == bs.last());
                    }
                    return acc;
                },
                Some(a) => {
                    count.dec();
                    let i = count;
                    proof {
                        i.lemma_from_value();
                        let j = bs.len() - 1;
                        assert(i == C::from_int(c + (s.len() - 1 - j)));
                        assert(a == s[s.len() - 1 - j]);
                        assert(call_requires(
                            g,
                            (acc, (C::from_int(c + (s.len() - 1 - j)), s[s.len() - 1 - j])),
                        ));
                    }
                    acc = g(acc, (i, a));
                    proof {
                        bs = bs.push(acc);
                        assert(s.take(s.len() - (bs.len() - 2)).drop_last() =~= s.take(
                            s.len() - (bs.len() - 1),
                        ));
                    }
                },
            }
        }
    }
}

impl<I: ExactSizeProducer, C: Counter> Enumerate<I, C> {
    /// Report the exact remaining length: always the inner producer's own.
    pub fn len(&self) -> (n: usize)
        ensures
            n == self.inner().len(),
    {
        self.iter.len()
    }
}

/// The extension capability: lets any sequence producer be wrapped with a
/// counter of a caller-chosen numeric type, initialized to that type's
/// zero-equivalent value, through a generic call or per-type convenience
/// calls. Any producer may be wrapped; no validation is involved.
pub trait EnumerateNumber: Producer {
    /// Wrap this producer with a counter of the chosen type, initialized to
    /// that type's zero-equivalent value.
    fn enumerate_number<N: Counter>(self) -> (r: Enumerate<Self, N>)
        ensures
            r.inner() == self.seq(),
            r.counter() == 0,
    ;

    /// Like [`EnumerateNumber::enumerate_number`], with the counter type
    /// fixed to `i8`.
    fn enumerate_i8(self) -> (r: Enumerate<Self, i8>)
        ensures
            r.inner() == self.seq(),
            r.counter() == 0,
    ;
    /// Like [`EnumerateNumber::enumerate_number`], with the counter type
    /// fixed to `i16`.
    fn enumerate_i16(self) -> (r: Enumerate<Self, i16>)
        ensures
            r.inner() == self.seq(),
            r.counter() == 0,
    ;
    /// Like [`EnumerateNumber::enumerate_number`], with the counter type
    /// fixed to `i32`.
    fn enumerate_i32(self) -> (r: Enumerate<Self, i32>)
        ensures
            r.inner() == self.seq(),
            r.counter() == 0,
    ;
    /// Like [`EnumerateNumber::enumerate_number`], with the counter type
    /// fixed to `i64`.
    fn enumerate_i64(self) -> (r: Enumerate<Self, i64>)
        ensures
            r.inner() == self.seq(),
            r.counter() == 0,
    ;
    /// Like [`EnumerateNumber::enumerate_number`], with the counter type
    /// fixed to `i128`.
    fn enumerate_i128(self) -> (r: Enumerate<Self, i128>)
        ensures
            r.inner() == self.seq(),
            r.counter() == 0,
    ;
    /// Like [`EnumerateNumber::enumerate_number`], with the counter type
    /// fixed to `isize`.
    fn enumerate_isize(self) -> (r: Enumerate<Self, isize>)
        ensures
            r.inner() == self.seq(),
            r.counter() == 0,
    ;
    /// Like [`EnumerateNumber::enumerate_number`], with the counter type
    /// fixed to `u8`.
    fn enumerate_u8(self) -> (r: Enumerate<Self, u8>)
        ensures
            r.inner() == self.seq(),
            r.counter() == 0,
    ;
    /// Like [`EnumerateNumber::enumerate_number`], with the counter type
    /// fixed to `u16`.
    fn enumerate_u16(self) -> (r: Enumerate<Self, u16>)
        ensures
            r.inner() == self.seq(),
            r.counter() == 0,
    ;
    /// Like [`EnumerateNumber::enumerate_number`], with the counter type
    /// fixed to `u32`.
    fn enumerate_u32(self) -> (r: Enumerate<Self, u32>)
        ensures
            r.inner() == self.seq(),
            r.counter() == 0,
    ;
    /// Like [`EnumerateNumber::enumerate_number`], with the counter type
    /// fixed to `u64`.
    fn enumerate_u64(self) -> (r: Enumerate<Self, u64>)
        ensures
            r.inner() == self.seq(),
            r.counter() == 0,
    ;
    /// Like [`EnumerateNumber::enumerate_number`], with the counter type
    /// fixed to `u128`.
    fn enumerate_u128(self) -> (r: Enumerate<Self, u128>)
        ensures
            r.inner() == self.seq(),
            r.counter() == 0,
    ;
}

impl<I: Producer> EnumerateNumber for I {
    fn enumerate_number<N: Counter>(self) -> (r: Enumerate<Self, N>) {
        Enumerate { iter: self, count: N::default() }
    }

    fn enumerate_i8(self) -> (r: Enumerate<Self, i8>) {
        self.enumerate_number::<i8>()
    }
    fn enumerate_i16(self) -> (r: Enumerate<Self, i16>) {
        self.enumerate_number::<i16>()
    }
    fn enumerate_i32(self) -> (r: Enumerate<Self, i32>) {
        self.enumerate_number::<i32>()
    }
    fn enumerate_i64(self) -> (r: Enumerate<Self, i64>) {
        self.enumerate_number::<i64>()
    }
    fn enumerate_i128(self) -> (r: Enumerate<Self, i128>) {
        self.enumerate_number::<i128>()
    }
    fn enumerate_isize(self) -> (r: Enumerate<Self, isize>) {
        self.enumerate_number::<isize>()
    }
    fn enumerate_u8(self) -> (r: Enumerate<Self, u8>) {
        self.enumerate_number::<u8>()
    }
    fn enumerate_u16(self) -> (r: Enumerate<Self, u16>) {
        self.enumerate_number::<u16>()
    }
    fn enumerate_u32(self) -> (r: Enumerate<Self, u32>) {
        self.enumerate_number::<u32>()
    }
    fn enumerate_u64(self) -> (r: Enumerate<Self, u64>) {
        self.enumerate_number::<u64>()
    }
    fn enumerate_u128(self) -> (r: Enumerate<Self, u128>) {
        self.enumerate_number::<u128>()
    }
}

} // verus!
