//! Sequences of requests served one after another from the same cursor word,
//! and what holds of every such sequence.

use vstd::prelude::*;
use vstd::arithmetic::power2::is_pow2;
use crate::align::{align_down, lemma_align_down_bounds, lemma_pow2_positive};
use crate::constants::CURSOR_UNSET;
use crate::region::HeapRegion;

verus! {

/// One allocation request.
pub struct Request {
    pub size: u64,
    pub align: u64,
}

impl Request {
    /// The alignment is a power of two.
    pub open spec fn well_formed(self) -> bool {
        is_pow2(self.align as int)
    }
}

/// Every request of the sequence is well formed.
pub open spec fn all_well_formed(requests: Seq<Request>) -> bool {
    forall|i: int| 0 <= i < requests.len() ==> (#[trigger] requests[i]).well_formed()
}

impl HeapRegion {
    /// What a request returns when the stored cursor word is `word`.
    pub open spec fn grant(self, word: int, request: Request) -> Option<int> {
        if self.admits(word, request.size as int, request.align as int) {
            Some(self.placement(word, request.size as int, request.align as int))
        } else {
            None
        }
    }

    /// The cursor word that a request leaves behind: the granted address, or
    /// the old word when the request is refused.
    pub open spec fn word_after(self, word: int, request: Request) -> int {
        match self.grant(word, request) {
            Some(address) => address,
            None => word,
        }
    }

    /// The cursor word in front of request `i`, when the sequence starts
    /// from `word`.
    pub open spec fn word_before(self, word: int, requests: Seq<Request>, i: int) -> int
        decreases i,
    {
        if i <= 0 {
            word
        } else {
            self.word_after(self.word_before(word, requests, i - 1), requests[i - 1])
        }
    }

    /// What request `i` of the sequence returns.
    pub open spec fn outcome(self, word: int, requests: Seq<Request>, i: int) -> Option<int> {
        self.grant(self.word_before(word, requests, i), requests[i])
    }
}

/// Sum of the sizes of the first `k` requests.
pub open spec fn total_size(requests: Seq<Request>, k: int) -> int
    decreases k,
{
    if k <= 0 {
        0
    } else {
        total_size(requests, k - 1) + requests[k - 1].size
    }
}

/// Sum of the sizes of those among the first `k` requests that are granted.
pub open spec fn granted_size(region: HeapRegion, word: int, requests: Seq<Request>, k: int) -> int
    decreases k,
{
    if k <= 0 {
        0
    } else if region.outcome(word, requests, k - 1) is Some {
        granted_size(region, word, requests, k - 1) + requests[k - 1].size
    } else {
        granted_size(region, word, requests, k - 1)
    }
}

/// A single request never raises the cursor, and an address it grants is
/// aligned, inside the window, and leaves room for the request below the
/// old cursor.
pub proof fn lemma_one_request(region: HeapRegion, word: int, request: Request)
    requires
        region.usable(),
        request.well_formed(),
    ensures
        region.bottom() <= region.cursor(region.word_after(word, request)) <= region.cursor(word)
            <= region.top(),
        region.grant(word, request) matches Some(address) ==> {
            &&& region.cursor(region.word_after(word, request)) == address
            &&& address % (request.align as int) == 0
            &&& region.bottom() <= address
            &&& address + request.size <= region.cursor(word)
            &&& region.cursor(word) - request.size - request.align < address
        },
{
    lemma_pow2_positive(request.align as int);
    lemma_align_down_bounds(region.cursor(word) - request.size, request.align as int);
}

/// Over a sequence of requests the cursor never rises, and it stays inside
/// the window.
pub proof fn lemma_cursor_never_rises(
    region: HeapRegion,
    word: int,
    requests: Seq<Request>,
    i: int,
    j: int,
)
    requires
        region.usable(),
        all_well_formed(requests),
        0 <= i <= j <= requests.len(),
    ensures
        region.bottom() <= region.cursor(region.word_before(word, requests, j)) <= region.cursor(
            region.word_before(word, requests, i),
        ) <= region.top(),
    decreases j - i,
{
    if i < j {
        lemma_cursor_never_rises(region, word, requests, i, j - 1);
        lemma_one_request(region, region.word_before(word, requests, j - 1), requests[j - 1]);
    }
}

/// Addresses granted to two requests of one sequence do not overlap: the
/// later block ends at or below the start of the earlier one. Each granted
/// address is a multiple of the alignment asked for, and each block lies
/// inside the window.
pub proof fn lemma_grants_do_not_overlap(
    region: HeapRegion,
    word: int,
    requests: Seq<Request>,
    i: int,
    j: int,
)
    requires
        all_well_formed(requests),
        0 <= i < j < requests.len(),
        region.outcome(word, requests, i) is Some,
        region.outcome(word, requests, j) is Some,
    ensures
        region.outcome(word, requests, j)->0 + requests[j].size <= region.outcome(
            word,
            requests,
            i,
        )->0,
        region.outcome(word, requests, i)->0 % (requests[i].align as int) == 0,
        region.outcome(word, requests, j)->0 % (requests[j].align as int) == 0,
        region.bottom() <= region.outcome(word, requests, j)->0,
        region.outcome(word, requests, i)->0 + requests[i].size <= region.top(),
{
    lemma_one_request(region, region.word_before(word, requests, i), requests[i]);
    lemma_one_request(region, region.word_before(word, requests, j), requests[j]);
    lemma_cursor_never_rises(region, word, requests, i + 1, j);
}

/// The bytes in use cover at least what was granted: after the first `k`
/// requests, `used` has grown by no less than the sizes of the granted ones.
pub proof fn lemma_granted_bytes_are_used(
    region: HeapRegion,
    word: int,
    requests: Seq<Request>,
    k: int,
)
    requires
        region.usable(),
        all_well_formed(requests),
        0 <= k <= requests.len(),
    ensures
        region.used(word) + granted_size(region, word, requests, k) <= region.used(
            region.word_before(word, requests, k),
        ) <= region.capacity(),
    decreases k,
{
    if k > 0 {
        lemma_granted_bytes_are_used(region, word, requests, k - 1);
        lemma_one_request(region, region.word_before(word, requests, k - 1), requests[k - 1]);
    }
}

/// A request that would bring the granted bytes above the capacity is
/// refused.
pub proof fn lemma_over_capacity_is_refused(
    region: HeapRegion,
    word: int,
    requests: Seq<Request>,
    k: int,
)
    requires
        all_well_formed(requests),
        0 <= k < requests.len(),
        region.used(word) + granted_size(region, word, requests, k) + requests[k].size
            > region.capacity(),
    ensures
        region.outcome(word, requests, k) is None,
{
    if region.usable() {
        lemma_granted_bytes_are_used(region, word, requests, k);
        lemma_one_request(region, region.word_before(word, requests, k), requests[k]);
    }
}

/// While every request so far was granted, the granted bytes are the sum of
/// the sizes asked for.
proof fn lemma_all_granted_sizes(region: HeapRegion, word: int, requests: Seq<Request>, k: int)
    requires
        0 <= k <= requests.len(),
        forall|i: int| 0 <= i < k ==> region.outcome(word, requests, i) is Some,
    ensures
        granted_size(region, word, requests, k) == total_size(requests, k),
    decreases k,
{
    if k > 0 {
        lemma_all_granted_sizes(region, word, requests, k - 1);
    }
}

/// When all earlier requests were granted, a request whose cumulative size
/// exceeds the capacity is refused.
pub proof fn lemma_first_overflow_is_refused(
    region: HeapRegion,
    word: int,
    requests: Seq<Request>,
    k: int,
)
    requires
        all_well_formed(requests),
        0 <= k < requests.len(),
        forall|i: int| 0 <= i < k ==> region.outcome(word, requests, i) is Some,
        total_size(requests, k + 1) > region.capacity(),
    ensures
        region.outcome(word, requests, k) is None,
{
    lemma_all_granted_sizes(region, word, requests, k);
    lemma_over_capacity_is_refused(region, word, requests, k);
}

/// On a fresh heap, requests that need no padding are granted for as long as
/// their cumulative size fits the capacity, each directly below the one
/// before it.
pub proof fn lemma_fitting_requests_are_granted(
    region: HeapRegion,
    word: int,
    requests: Seq<Request>,
    k: int,
)
    requires
        region.usable(),
        region.cursor(word) == region.top(),
        all_well_formed(requests),
        0 <= k <= requests.len(),
        total_size(requests, k) <= region.capacity(),
        forall|i: int|
            0 <= i < k ==> (region.top() - total_size(requests, i + 1)) % (
            (#[trigger] requests[i]).align as int) == 0,
    ensures
        forall|i: int|
            0 <= i < k ==> #[trigger] region.outcome(word, requests, i) == Some(
                region.top() - total_size(requests, i + 1),
            ),
        region.cursor(region.word_before(word, requests, k)) == region.top() - total_size(
            requests,
            k,
        ),
    decreases k,
{
    if k > 0 {
        lemma_fitting_requests_are_granted(region, word, requests, k - 1);
    }
}

/// A cursor word that points outside the window is not believed: the next
/// request is served exactly as on a fresh heap, from the top of the window.
pub proof fn lemma_forged_cursor_is_reset(region: HeapRegion, forged: int, request: Request)
    requires
        region.usable(),
        request.well_formed(),
        forged < region.bottom() || forged > region.top(),
    ensures
        region.grant(forged, request) == region.grant(CURSOR_UNSET as int, request),
        region.grant(forged, request) matches Some(address) ==> {
            &&& address == align_down(region.top() - request.size, request.align as int)
            &&& region.bottom() <= address
            &&& address + request.size <= region.top()
        },
{
    lemma_one_request(region, forged, request);
}

} // verus!
