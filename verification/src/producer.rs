//! The sequence-producer abstraction the adapter drives: forward production,
//! size reporting, and the optional capabilities of exact remaining length and
//! back-end production, together with two concrete producers.

use vstd::prelude::*;

verus! {

/// An ordered sequence producer. `seq` is the sequence of elements still to
/// be produced, front first; `next` hands out the front element or reports
/// exhaustion, and once exhaustion is reached the producer stays exhausted.
pub trait Producer: Sized {
    type Item;

    /// The remaining elements, front to back.
    spec fn seq(&self) -> Seq<Self::Item>;

    /// The size hint this producer currently reports.
    spec fn spec_size_hint(&self) -> (usize, Option<usize>);

    /// The size hint brackets the true remaining length.
    proof fn lemma_size_hint(&self)
        ensures
            self.spec_size_hint().0 <= self.seq().len(),
            self.spec_size_hint().1 is Some ==> self.seq().len() <= self.spec_size_hint().1.unwrap(),
    ;

    /// Produce the front element, or report exhaustion (leaving the producer
    /// exhausted for good).
    fn next(&mut self) -> (r: Option<Self::Item>)
        ensures
            old(self).seq().len() == 0 ==> r is None && final(self).seq() == old(self).seq(),
            old(self).seq().len() > 0 ==> r == Some(old(self).seq()[0]) && final(self).seq() == old(
                self,
            ).seq().skip(1),
    ;

    /// Report the size hint.
    fn size_hint(&self) -> (r: (usize, Option<usize>))
        ensures
            r == self.spec_size_hint(),
    ;
}

/// A producer that can report its exact remaining element count at any point.
pub trait ExactSizeProducer: Producer {
    /// The exact number of elements still to be produced.
    fn len(&self) -> (n: usize)
        ensures
            n == self.seq().len(),
    ;
}

/// A producer that can also produce elements from its back end, independently
/// of front-end production.
pub trait DoubleEndedProducer: Producer {
    /// Produce the back element, or report exhaustion.
    fn next_back(&mut self) -> (r: Option<Self::Item>)
        ensures
            old(self).seq().len() == 0 ==> r is None && final(self).seq() == old(self).seq(),
            old(self).seq().len() > 0 ==> r == Some(old(self).seq().last()) && final(self).seq()
                == old(self).seq().drop_last(),
    ;
}

/// A producer of the consecutive integers `start, start + 1, ..., end - 1`
/// (empty when `start >= end`).
#[derive(Debug, Clone)]
pub struct RangeProducer {
    start: usize,
    end: usize,
}

impl RangeProducer {
    /// Wrap the half-open range from `start` up to `end`.
    pub fn new(start: usize, end: usize) -> (r: RangeProducer)
        ensures
            r.seq().len() == if start <= end {
                end - start
            } else {
                0
            },
            forall|i: int| 0 <= i < r.seq().len() ==> r.seq()[i] == start + i,
    {
        RangeProducer { start, end }
    }
}

impl Producer for RangeProducer {
    type Item = usize;

    closed spec fn seq(&self) -> Seq<usize> {
        Seq::new(
            if self.start <= self.end {
                (self.end - self.start) as nat
            } else {
                0
            },
            |i: int| (self.start + i) as usize,
        )
    }

    closed spec fn spec_size_hint(&self) -> (usize, Option<usize>) {
        (
            (if self.start <= self.end {
                self.end - self.start
            } else {
                0
            }) as usize,
            Some(
                (if self.start <= self.end {
                    self.end - self.start
                } else {
                    0
                }) as usize,
            ),
        )
    }

    proof fn lemma_size_hint(&self) {
    }

    fn next(&mut self) -> (r: Option<usize>) {
        if self.start < self.end {
            let a = self.start;
            self.start = self.start + 1;
            proof {
                assert(self.seq() =~= old(self).seq().skip(1));
            }
            Some(a)
        } else {
            proof {
                assert(self.seq() =~= old(self).seq());
            }
            None
        }
    }

    fn size_hint(&self) -> (r: (usize, Option<usize>)) {
        let n = if self.start <= self.end {
            self.end - self.start
        } else {
            0
        };
        (n, Some(n))
    }
}

impl ExactSizeProducer for RangeProducer {
    fn len(&self) -> (n: usize) {
        if self.start <= self.end {
            self.end - self.start
        } else {
            0
        }
    }
}

impl DoubleEndedProducer for RangeProducer {
    fn next_back(&mut self) -> (r: Option<usize>) {
        if self.start < self.end {
            self.end = self.end - 1;
            proof {
                assert(self.seq() =~= old(self).seq().drop_last());
            }
            Some(self.end)
        } else {
            proof {
                assert(self.seq() =~= old(self).seq());
            }
            None
        }
    }
}

/// A producer that hands out the elements of a vector, front to back.
#[derive(Debug, Clone)]
pub struct VecProducer<T> {
    items: Vec<T>,
}

impl<T> VecProducer<T> {
    /// Wrap a vector; its elements are produced in order.
    pub fn new(items: Vec<T>) -> (r: VecProducer<T>)
        ensures
            r.seq() == items@,
    {
        VecProducer { items }
    }
}

impl<T> Producer for VecProducer<T> {
    type Item = T;

    closed spec fn seq(&self) -> Seq<T> {
        self.items@
    }

    closed spec fn spec_size_hint(&self) -> (usize, Option<usize>) {
        (self.items.len(), Some(self.items.len()))
    }

    proof fn lemma_size_hint(&self) {
    }

    fn next(&mut self) -> (r: Option<T>) {
        if self.items.len() > 0 {
            let a = self.items.remove(0);
            proof {
                assert(self.seq() =~= old(self).seq().skip(1));
            }
            Some(a)
        } else {
            None
        }
    }

    fn size_hint(&self) -> (r: (usize, Option<usize>)) {
        let n = self.items.len();
        (n, Some(n))
    }
}

impl<T> ExactSizeProducer for VecProducer<T> {
    fn len(&self) -> (n: usize) {
        self.items.len()
    }
}

impl<T> DoubleEndedProducer for VecProducer<T> {
    fn next_back(&mut self) -> (r: Option<T>) {
        self.items.pop()
    }
}

} // verus!
