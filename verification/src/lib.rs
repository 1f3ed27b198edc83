//! A reference-counted array block with a packed length/capacity header,
//! and a one-word tagged handle over blocks of two element types.
//!
//! The layers, from the leaves up:
//!
//! - [`refcnt`]: the counter of the references to a block.
//! - [`packed`]: the 16-bit header word that holds a block's length and
//!   capacity class.
//! - [`block`]: the block itself, with its slots and the operations on them.
//! - [`layout`]: the bytes that a block takes as one allocation.
//! - [`heap`]: the place where blocks live under an address.
//! - [`handle`]: the handle, which is zero, an address, or an address with
//!   its lowest bit set.
//! - [`laws`]: what holds of blocks and heaps whatever the calls.
//!
//! Nothing here copies a shared block before it is written to: whoever
//! writes through a handle decides whether the block's other handles may see
//! the change.

pub mod block;
pub mod handle;
pub mod heap;
pub mod laws;
pub mod layout;
pub mod packed;
pub mod refcnt;

pub use block::{BlockView, CoWecBlock};
pub use handle::CoWec;
pub use heap::Heap;
pub use layout::BlockLayout;
pub use refcnt::{RCell, RefCnt};
