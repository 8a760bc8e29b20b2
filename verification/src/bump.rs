//! The bump allocator: hands out addresses from the top of the heap window
//! downwards and never takes one back.

use vstd::prelude::*;
use vstd::arithmetic::power2::is_pow2;
use crate::constants::{CURSOR_WORD_SIZE, DEFAULT_HEAP_SIZE, HEAP_START};
use crate::region::HeapRegion;

verus! {

/// Allocator over the window `[start, start + len)`.
///
/// The allocator itself holds no mutable state. The cursor is a single word
/// that lives at `start`, inside memory the guest program can write to, so
/// every operation takes that word from its caller and checks it before
/// trusting it.
///
/// ```text
/// start            cursor word
/// start + 8        lowest address ever handed out
/// ...              allocations grow downwards from the top
/// start + len      cursor of a fresh heap
/// ```
pub struct BumpAllocator {
    pub start: u64,
    pub len: u64,
}

/// Name under which guest programs register the allocator.
pub type TosAllocator = BumpAllocator;

impl BumpAllocator {
    /// The window this allocator was configured with, before validation.
    pub open spec fn window(self) -> HeapRegion {
        HeapRegion { base: self.start, length: self.len }
    }

    /// The window this allocator serves: the configured one if it passes
    /// validation, the empty region otherwise.
    pub open spec fn region(self) -> HeapRegion {
        HeapRegion::checked(self.start, self.len)
    }

    /// An allocator over the default heap window.
    pub fn new() -> (allocator: Self)
        ensures
            allocator.start == HEAP_START,
            allocator.len == DEFAULT_HEAP_SIZE,
            allocator.region().usable(),
    {
        Self { start: HEAP_START, len: DEFAULT_HEAP_SIZE }
    }

    /// An allocator over `region`.
    pub fn with_region(region: HeapRegion) -> (allocator: Self)
        ensures
            allocator.window() == region,
    {
        Self { start: region.base, len: region.length }
    }

    /// Resolves the window to allocate from.
    pub fn resolve(&self) -> (region: HeapRegion)
        ensures
            region == self.region(),
    {
        HeapRegion::new(self.start, self.len)
    }

    /// Allocates `size` bytes aligned to `align`.
    ///
    /// `cursor` is the cursor word of the heap. The request is placed
    /// directly below the cursor that the word stands for, rounded down to
    /// `align`. If that address is still inside the window it becomes the new
    /// cursor word and is returned; otherwise nothing is returned and the
    /// word is left as it was.
    pub fn allocate(&self, cursor: &mut u64, size: u64, align: u64) -> (result: Option<u64>)
        requires
            is_pow2(align as int),
        ensures
            result is Some <==> self.region().admits(*old(cursor) as int, size as int, align as int),
            result matches Some(address) ==> {
                &&& address == self.region().placement(*old(cursor) as int, size as int, align as int)
                &&& *final(cursor) == address
                &&& address % align == 0
                &&& self.region().bottom() <= address
                &&& address + size <= self.region().cursor(*old(cursor) as int) <= self.region().top()
            },
            result is None ==> *final(cursor) == *old(cursor),
    {
        let region = self.resolve();
        match region.place(*cursor, size, align) {
            None => None,
            Some(address) => {
                *cursor = address;
                Some(address)
            },
        }
    }

    /// Gives memory back. A bump allocator reclaims nothing: the cursor word
    /// is left as it was, whatever `address` and `size` are.
    pub fn deallocate(&self, cursor: &mut u64, address: u64, size: u64)
        ensures
            *final(cursor) == *old(cursor),
    {
    }

    /// Reports `(used, remaining)` in bytes for the heap whose cursor word is
    /// `cursor`. The two always add up to the capacity of the window; an
    /// allocator without a usable window reports `(0, 0)`.
    pub fn usage(&self, cursor: u64) -> (snapshot: (u64, u64))
        ensures
            snapshot.0 == self.region().used(cursor as int),
            snapshot.1 == self.region().remaining(cursor as int),
            snapshot.0 + snapshot.1 == self.region().capacity(),
    {
        let region = self.resolve();
        if !region.is_usable() {
            return (0, 0);
        }
        let current: u64 = region.load_cursor(cursor);
        let top: u64 = region.base + region.length;
        let bottom: u64 = region.base + CURSOR_WORD_SIZE;
        (top - current, current - bottom)
    }
}

impl Default for BumpAllocator {
    fn default() -> (allocator: Self)
        ensures
            allocator.start == HEAP_START,
            allocator.len == DEFAULT_HEAP_SIZE,
    {
        Self::new()
    }
}

} // verus!
