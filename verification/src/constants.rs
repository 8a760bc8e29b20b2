//! Memory layout constants shared with the virtual machine that owns the heap.

use vstd::prelude::*;

verus! {

/// Address at which the virtual machine maps the heap window.
pub const HEAP_START: u64 = 0x300000000;

/// Length of the heap window when nothing else is configured (32 KiB).
pub const DEFAULT_HEAP_SIZE: u64 = 32 * 1024;

/// Largest heap window the virtual machine hands out (256 KiB).
pub const MAX_HEAP_SIZE: u64 = 256 * 1024;

/// Smallest heap window the virtual machine hands out (4 KiB).
pub const MIN_HEAP_SIZE: u64 = 4 * 1024;

/// Bytes at the start of the window that hold the cursor word.
pub const CURSOR_WORD_SIZE: u64 = 8;

/// Value of a cursor word that has never been written.
pub const CURSOR_UNSET: u64 = 0;

} // verus!
