//! Serving several callers from one cursor word that is advanced by atomic
//! compare-and-exchange.
//!
//! A caller observes the cursor word, decides from the observed word alone
//! where its request would go, and asks for the word to be exchanged for the
//! new cursor provided it still holds what was observed. When the exchange
//! fails the caller has thereby observed the current word and decides again.
//! The library decides; performing the atomic operations is left to the
//! caller's loop.

use vstd::prelude::*;
use vstd::arithmetic::power2::is_pow2;
use vstd::set_lib::{lemma_int_range, lemma_len_subset, set_int_range};
use crate::history::Request;
use crate::region::HeapRegion;

verus! {

/// What a caller does next.
#[derive(Clone, Copy, Debug, PartialEq, Eq)]
pub enum Step {
    /// Exchange the cursor word for `replacement` if it still holds
    /// `expected`.
    Exchange { expected: u64, replacement: u64 },
    /// The request is decided: `result` is returned to the caller.
    Done { result: Option<u64> },
}

/// Where a caller stands.
pub enum Caller {
    /// The caller has not looked at the cursor word yet.
    Idle,
    /// The caller observed `expected` and wants to put `replacement` in its
    /// place.
    Trying { expected: int, replacement: int },
    /// The caller has returned `result`.
    Done { result: Option<int> },
}

impl View for Step {
    type V = Caller;

    open spec fn view(&self) -> Caller {
        match *self {
            Step::Exchange { expected, replacement } => Caller::Trying {
                expected: expected as int,
                replacement: replacement as int,
            },
            Step::Done { result: Some(address) } => Caller::Done { result: Some(address as int) },
            Step::Done { result: None } => Caller::Done { result: None },
        }
    }
}

impl HeapRegion {
    /// Where a caller stands after it observed `word`: trying to commit the
    /// address its request is granted at, or done with nothing when the
    /// request is refused.
    pub open spec fn decide(self, word: int, request: Request) -> Caller {
        match self.grant(word, request) {
            Some(address) => Caller::Trying { expected: word, replacement: address },
            None => Caller::Done { result: None },
        }
    }

    /// Decides the next step of a caller that observed `word` in the cursor.
    pub fn observe(&self, word: u64, size: u64, align: u64) -> (step: Step)
        requires
            is_pow2(align as int),
        ensures
            step@ == self.decide(word as int, Request { size, align }),
    {
        match self.place(word, size, align) {
            Some(address) => Step::Exchange { expected: word, replacement: address },
            None => Step::Done { result: None },
        }
    }

    /// Decides the next step of a caller whose exchange of the cursor word
    /// for `replacement` was answered with `answer`. After a successful
    /// exchange the caller owns `replacement`; a failed exchange carries the
    /// word found instead, and the caller decides again from that word.
    pub fn settle(
        &self,
        answer: Result<u64, u64>,
        replacement: u64,
        size: u64,
        align: u64,
    ) -> (step: Step)
        requires
            is_pow2(align as int),
        ensures
            step@ == match answer {
                Ok(_) => Caller::Done { result: Some(replacement as int) },
                Err(found) => self.decide(found as int, Request { size, align }),
            },
    {
        match answer {
            Ok(_) => Step::Done { result: Some(replacement) },
            Err(found) => self.observe(found, size, align),
        }
    }
}

/// A cursor word shared by several callers, each with one request.
pub struct SharedHeap {
    /// The cursor word.
    pub word: int,
    /// Where each caller stands.
    pub callers: Seq<Caller>,
    /// The callers that are done, in the order in which they finished.
    pub finished: Seq<int>,
}

impl SharedHeap {
    /// The heap before any of `n` callers has moved.
    pub open spec fn initial(word: int, n: nat) -> SharedHeap {
        SharedHeap { word, callers: Seq::new(n, |t: int| Caller::Idle), finished: Seq::empty() }
    }

    /// Caller `t` has moved to `next`; it joins the finished callers when
    /// `next` is `Done`.
    pub open spec fn moved(self, t: int, next: Caller, word: int) -> SharedHeap {
        SharedHeap {
            word,
            callers: self.callers.update(t, next),
            finished: if next is Done {
                self.finished.push(t)
            } else {
                self.finished
            },
        }
    }

    /// One atomic move of caller `t`. A caller whose exchange finds the
    /// expected word commits its replacement and is done. Any other caller
    /// that is not done observes the word and decides from it.
    pub open spec fn advance(self, region: HeapRegion, requests: Seq<Request>, t: int) -> SharedHeap {
        if !(0 <= t < self.callers.len()) {
            self
        } else {
            match self.callers[t] {
                Caller::Done { .. } => self,
                Caller::Trying { expected, replacement } if expected == self.word => self.moved(
                    t,
                    Caller::Done { result: Some(replacement) },
                    replacement,
                ),
                _ => self.moved(t, region.decide(self.word, requests[t]), self.word),
            }
        }
    }

    /// The heap after the callers named in `schedule` have moved, one at a
    /// time and in that order.
    pub open spec fn run(self, region: HeapRegion, requests: Seq<Request>, schedule: Seq<int>) -> SharedHeap
        decreases schedule.len(),
    {
        if schedule.len() == 0 {
            self
        } else {
            self.run(region, requests, schedule.drop_last()).advance(
                region,
                requests,
                schedule.last(),
            )
        }
    }

    /// The requests of the finished callers, in the order in which they
    /// finished.
    pub open spec fn served(self, requests: Seq<Request>) -> Seq<Request> {
        Seq::new(self.finished.len(), |p: int| requests[self.finished[p]])
    }

    /// The finished callers hold what one caller would have got by issuing
    /// their requests alone, in the order in which they finished, starting
    /// from the cursor word `start`; and the cursor word is the one that this
    /// sequential run leaves behind.
    pub open spec fn sequential_from(self, region: HeapRegion, requests: Seq<Request>, start: int) -> bool {
        &&& self.callers.len() == requests.len()
        &&& self.finished.no_duplicates()
        &&& forall|t: int|
            0 <= t < self.callers.len() ==> ((#[trigger] self.callers[t]) is Done
                <==> self.finished.contains(t))
        &&& forall|p: int|
            0 <= p < self.finished.len() ==> {
                &&& 0 <= #[trigger] self.finished[p] < self.callers.len()
                &&& self.callers[self.finished[p]] == Caller::Done {
                    result: region.outcome(start, self.served(requests), p),
                }
            }
        &&& self.word == region.word_before(
            start,
            self.served(requests),
            self.finished.len() as int,
        )
    }

    /// No caller is trying to commit anything but what its request is
    /// granted at the word it observed.
    pub open spec fn attempts_are_decided(self, region: HeapRegion, requests: Seq<Request>) -> bool {
        forall|t: int|
            0 <= t < self.callers.len() ==> (#[trigger] self.callers[t] matches Caller::Trying {
                expected,
                replacement,
            } ==> region.grant(expected, requests[t]) == Some(replacement))
    }
}

/// What a sequence of requests does up to request `i` depends only on the
/// requests before `i`.
proof fn lemma_prefix_decides(
    region: HeapRegion,
    word: int,
    left: Seq<Request>,
    right: Seq<Request>,
    i: int,
)
    requires
        0 <= i <= left.len(),
        i <= right.len(),
        forall|p: int| 0 <= p < i ==> left[p] == right[p],
    ensures
        region.word_before(word, left, i) == region.word_before(word, right, i),
    decreases i,
{
    if i > 0 {
        lemma_prefix_decides(region, word, left, right, i - 1);
    }
}

/// One move of one caller keeps the finished callers in line with the
/// sequential run.
proof fn lemma_advance_keeps_order(
    heap: SharedHeap,
    region: HeapRegion,
    requests: Seq<Request>,
    start: int,
    t: int,
)
    requires
        heap.sequential_from(region, requests, start),
        heap.attempts_are_decided(region, requests),
    ensures
        heap.advance(region, requests, t).sequential_from(region, requests, start),
        heap.advance(region, requests, t).attempts_are_decided(region, requests),
{
    let next = heap.advance(region, requests, t);
    if next != heap && next.callers[t] is Done {
        let n = heap.finished.len() as int;
        assert(!heap.finished.contains(t));
        assert forall|p: int| 0 <= p <= n implies region.word_before(
            start,
            next.served(requests),
            p,
        ) == region.word_before(start, heap.served(requests), p) by {
            lemma_prefix_decides(region, start, next.served(requests), heap.served(requests), p);
        }
        assert forall|u: int| 0 <= u < next.callers.len() implies ((
        #[trigger] next.callers[u]) is Done <==> next.finished.contains(u)) by {
            if u == t {
                assert(next.finished[n] == t);
            } else if heap.finished.contains(u) {
                let p = choose|p: int| 0 <= p < n && heap.finished[p] == u;
                assert(next.finished[p] == u);
            }
        }
    }
}

/// However the moves of the callers interleave, the callers that are done
/// hold exactly what a single caller would have got by issuing their
/// requests one after another in the order in which they finished, and the
/// cursor word is the one that this sequential run leaves behind. No caller
/// finishes twice.
pub proof fn lemma_interleaving_is_sequential(
    region: HeapRegion,
    requests: Seq<Request>,
    start: int,
    schedule: Seq<int>,
)
    ensures
        SharedHeap::initial(start, requests.len()).run(region, requests, schedule).sequential_from(
            region,
            requests,
            start,
        ),
        SharedHeap::initial(start, requests.len()).run(
            region,
            requests,
            schedule,
        ).attempts_are_decided(region, requests),
    decreases schedule.len(),
{
    let first = SharedHeap::initial(start, requests.len());
    if schedule.len() > 0 {
        lemma_interleaving_is_sequential(region, requests, start, schedule.drop_last());
        lemma_advance_keeps_order(
            first.run(region, requests, schedule.drop_last()),
            region,
            requests,
            start,
            schedule.last(),
        );
    }
}

/// A sequence without repetitions whose items lie in `[0, n)` has at most
/// `n` items, and exactly `n` when it holds every number of that range.
proof fn lemma_count_distinct(order: Seq<int>, n: int)
    requires
        order.no_duplicates(),
        forall|p: int| 0 <= p < order.len() ==> 0 <= #[trigger] order[p] < n,
        0 <= n,
    ensures
        order.len() <= n,
        (forall|t: int| 0 <= t < n ==> order.contains(t)) ==> order.len() == n,
{
    order.unique_seq_to_set();
    lemma_int_range(0, n);
    assert(order.to_set().subset_of(set_int_range(0, n)));
    lemma_len_subset(order.to_set(), set_int_range(0, n));
    if forall|t: int| 0 <= t < n ==> order.contains(t) {
        assert(order.to_set() =~= set_int_range(0, n));
    }
}

/// The requests of `n` callers that all ask for the same.
pub open spec fn same_for_all(request: Request, n: nat) -> Seq<Request> {
    Seq::new(n, |t: int| request)
}

/// Callers that all issue the same request get, in the order in which they
/// finish, what as many requests issued one after another by a single caller
/// get: the first to finish holds the result of the first request, the
/// second that of the second, and so on. Once all callers are done, each
/// result of the sequential run is held by exactly one of them.
pub proof fn lemma_equal_requests_are_served_in_turn(
    region: HeapRegion,
    request: Request,
    n: nat,
    start: int,
    schedule: Seq<int>,
)
    ensures
        ({
            let requests = same_for_all(request, n);
            let end = SharedHeap::initial(start, n).run(region, requests, schedule);
            &&& end.callers.len() == n
            &&& end.finished.len() <= n
            &&& end.finished.no_duplicates()
            &&& forall|p: int|
                0 <= p < end.finished.len() ==> {
                    &&& 0 <= #[trigger] end.finished[p] < n
                    &&& end.callers[end.finished[p]] == Caller::Done {
                        result: region.outcome(start, requests, p),
                    }
                }
            &&& end.word == region.word_before(start, requests, end.finished.len() as int)
            &&& (forall|t: int| 0 <= t < n ==> (#[trigger] end.callers[t]) is Done)
                ==> end.finished.len() == n
        }),
{
    let requests = same_for_all(request, n);
    let end = SharedHeap::initial(start, n).run(region, requests, schedule);
    lemma_interleaving_is_sequential(region, requests, start, schedule);
    if forall|t: int| 0 <= t < n ==> (#[trigger] end.callers[t]) is Done {
        assert forall|t: int| 0 <= t < n implies end.finished.contains(t) by {
            assert(end.callers[t] is Done);
        }
    }
    lemma_count_distinct(end.finished, n as int);
    assert forall|p: int| 0 <= p <= end.finished.len() implies region.word_before(
        start,
        end.served(requests),
        p,
    ) == region.word_before(start, requests, p) by {
        lemma_prefix_decides(region, start, end.served(requests), requests, p);
    }
}

} // verus!
