//! A bump allocator for guest programs that run inside a sandboxed virtual
//! machine with a heap window of fixed address and size.
//!
//! The next free address is kept in a single cursor word stored in the first
//! word of the heap itself. Allocations move the cursor from the top of the
//! window towards its bottom; nothing is ever given back, because the host
//! discards the whole window when the guest program ends. The cursor word
//! lies in memory the guest can write to, so it is validated every time it
//! is read, and a word that points outside the window is treated as if the
//! heap had never been used.
//!
//! `bump` holds the allocator, `region` the heap window and the reading of
//! its cursor word, `align` the rounding of addresses. `history` states what
//! holds of every sequence of requests, and `shared` decides the steps of
//! callers that advance one cursor word by atomic compare-and-exchange.

pub mod align;
pub mod bump;
pub mod constants;
pub mod history;
pub mod region;
pub mod shared;

pub use bump::BumpAllocator;
pub use bump::TosAllocator;
pub use constants::{
    CURSOR_UNSET, CURSOR_WORD_SIZE, DEFAULT_HEAP_SIZE, HEAP_START, MAX_HEAP_SIZE, MIN_HEAP_SIZE,
};
pub use region::HeapRegion;
