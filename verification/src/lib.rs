//! A minimal process-wide allocator that answers every request with one OS
//! virtual-memory mapping, releases it by unmapping, and keeps a running
//! total of live allocated bytes for diagnostics.
//!
//! The library holds the allocator's decision and accounting logic: which
//! requests reach the OS, how the byte counter moves around each call, and
//! the laws the accounting obeys. The OS mapping calls themselves, and the
//! global-allocator hook that a host runtime installs, live outside it.

pub mod accounting;
pub mod allocator;
pub mod counter;

pub use allocator::Alloc;
pub use allocator::MapAction;
pub use allocator::UnmapAction;
pub use counter::ByteCounter;
