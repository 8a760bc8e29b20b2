//! The heap window: where it lies, how it is validated, and how a cursor
//! word found inside it is read.

use vstd::prelude::*;
use vstd::arithmetic::power2::is_pow2;
use crate::align::{align_down, lemma_align_down_bounds, lemma_pow2_positive, round_down};
use crate::constants::{
    CURSOR_UNSET, CURSOR_WORD_SIZE, DEFAULT_HEAP_SIZE, HEAP_START, MAX_HEAP_SIZE, MIN_HEAP_SIZE,
};

verus! {

/// A block of memory `[base, base + length)` whose first word holds the
/// allocation cursor. The empty region (`length == 0`) stands for a heap
/// that could not be resolved.
#[derive(Clone, Copy, Debug, PartialEq, Eq, Structural)]
pub struct HeapRegion {
    pub base: u64,
    pub length: u64,
}

impl HeapRegion {
    /// The region can be allocated from: it has a non-null base, a length
    /// within the configured bounds, and an end that is still an address.
    pub open spec fn usable(self) -> bool {
        &&& self.base > 0
        &&& MIN_HEAP_SIZE <= self.length <= MAX_HEAP_SIZE
        &&& self.base + self.length <= u64::MAX
    }

    /// The region that nothing can be allocated from.
    pub open spec fn none() -> HeapRegion {
        HeapRegion { base: 0, length: 0 }
    }

    /// The region `[base, base + length)` if it is usable, the empty region
    /// otherwise.
    pub open spec fn checked(base: u64, length: u64) -> HeapRegion {
        let region = HeapRegion { base, length };
        if region.usable() {
            region
        } else {
            HeapRegion::none()
        }
    }

    /// Lowest address that may be handed out: the first byte after the
    /// cursor word.
    pub open spec fn bottom(self) -> int {
        self.base + CURSOR_WORD_SIZE
    }

    /// One past the highest byte of the region; the cursor of a fresh heap.
    pub open spec fn top(self) -> int {
        self.base + self.length
    }

    /// Bytes available to allocations: the region without its cursor word,
    /// and nothing when the region is not usable.
    pub open spec fn capacity(self) -> int {
        if self.usable() {
            self.length - CURSOR_WORD_SIZE
        } else {
            0
        }
    }

    /// The cursor that a stored `word` stands for. A word that was never
    /// written, or that points outside `[bottom, top]`, stands for `top`.
    pub open spec fn cursor(self, word: int) -> int {
        if word == CURSOR_UNSET || word < self.bottom() || word > self.top() {
            self.top()
        } else {
            word
        }
    }

    /// Address at which a request of `size` bytes aligned to `align` is
    /// placed when the stored cursor word is `word`.
    pub open spec fn placement(self, word: int, size: int, align: int) -> int {
        align_down(self.cursor(word) - size, align)
    }

    /// The request can be granted: the region is usable and the placement
    /// does not fall below `bottom`.
    pub open spec fn admits(self, word: int, size: int, align: int) -> bool {
        self.usable() && self.placement(word, size, align) >= self.bottom()
    }

    /// Bytes between the cursor and `top`.
    pub open spec fn used(self, word: int) -> int {
        if self.usable() {
            self.top() - self.cursor(word)
        } else {
            0
        }
    }

    /// Bytes between `bottom` and the cursor.
    pub open spec fn remaining(self, word: int) -> int {
        if self.usable() {
            self.cursor(word) - self.bottom()
        } else {
            0
        }
    }

    /// The empty region.
    pub fn empty() -> (region: HeapRegion)
        ensures
            region == HeapRegion::none(),
            !region.usable(),
    {
        HeapRegion { base: 0, length: 0 }
    }

    /// The region at the fixed address the virtual machine maps the heap at,
    /// with the default length.
    pub fn fixed() -> (region: HeapRegion)
        ensures
            region == (HeapRegion { base: HEAP_START, length: DEFAULT_HEAP_SIZE }),
            region.usable(),
    {
        HeapRegion { base: HEAP_START, length: DEFAULT_HEAP_SIZE }
    }

    /// Tells whether the region passes validation.
    pub fn is_usable(&self) -> (ok: bool)
        ensures
            ok == self.usable(),
    {
        self.base > 0 && MIN_HEAP_SIZE <= self.length && self.length <= MAX_HEAP_SIZE
            && self.base <= u64::MAX - self.length
    }

    /// Validates a base address and a length; what fails validation becomes
    /// the empty region.
    pub fn new(base: u64, length: u64) -> (region: HeapRegion)
        ensures
            region == HeapRegion::checked(base, length),
    {
        let region = HeapRegion { base, length };
        if region.is_usable() {
            region
        } else {
            HeapRegion::empty()
        }
    }

    /// Turns the answer of a host query into a region. A query that did not
    /// succeed, or that reported a zero base, a zero length or a window that
    /// fails validation, yields the empty region.
    pub fn from_host(succeeded: bool, base: u64, length: u64) -> (region: HeapRegion)
        ensures
            region == if succeeded {
                HeapRegion::checked(base, length)
            } else {
                HeapRegion::none()
            },
            base == 0 || length == 0 ==> region == HeapRegion::none(),
    {
        if succeeded {
            HeapRegion::new(base, length)
        } else {
            HeapRegion::empty()
        }
    }

    /// Reads a stored cursor word: an unwritten or out-of-range word is
    /// replaced by `top`.
    pub fn load_cursor(&self, word: u64) -> (cursor: u64)
        requires
            self.usable(),
        ensures
            cursor == self.cursor(word as int),
            self.bottom() <= cursor <= self.top(),
    {
        let bottom: u64 = self.base + CURSOR_WORD_SIZE;
        let top: u64 = self.base + self.length;
        if word == CURSOR_UNSET || word < bottom || word > top {
            top
        } else {
            word
        }
    }

    /// Decides where a request of `size` bytes aligned to `align` goes when
    /// the stored cursor word is `word`: directly below the cursor that the
    /// word stands for, rounded down to `align`. Nothing is returned when
    /// the region is not usable, when the subtraction would wrap, or when the
    /// address would fall below `bottom`.
    pub fn place(&self, word: u64, size: u64, align: u64) -> (result: Option<u64>)
        requires
            is_pow2(align as int),
        ensures
            result is Some <==> self.admits(word as int, size as int, align as int),
            result matches Some(address) ==> {
                &&& address == self.placement(word as int, size as int, align as int)
                &&& address % align == 0
                &&& self.bottom() <= address
                &&& address + size <= self.cursor(word as int) <= self.top()
            },
    {
        if !self.is_usable() {
            return None;
        }
        let bottom: u64 = self.base + CURSOR_WORD_SIZE;
        let current: u64 = self.load_cursor(word);
        proof {
            lemma_pow2_positive(align as int);
            lemma_align_down_bounds(current - size, align as int);
        }
        match current.checked_sub(size) {
            None => None,
            Some(low) => {
                let address: u64 = round_down(low, align);
                if address < bottom {
                    None
                } else {
                    Some(address)
                }
            },
        }
    }
}

} // verus!
