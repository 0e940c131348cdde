//! The mapping allocator: decides, for each allocate and deallocate request,
//! whether an OS mapping call is to be made, and moves the byte counter
//! around it. The OS call itself is carried out by the caller that installs
//! the allocator; this module owns every decision that precedes it.

use vstd::prelude::*;

use crate::counter::ByteCounter;
use crate::counter::counter_add;
use crate::counter::counter_sub;

verus! {

/// What an allocate request asks of the OS: nothing (the caller answers with
/// the sentinel address), or a fresh anonymous, private, read-write mapping
/// of `len` bytes at an OS-chosen base.
#[derive(Clone, Copy, Debug, PartialEq, Eq, Structural)]
pub enum MapAction {
    Skip,
    Request { len: usize },
}

/// What a deallocate request asks of the OS: nothing (the sentinel address
/// was released), or the unmapping of `len` bytes starting at `addr`.
#[derive(Clone, Copy, Debug, PartialEq, Eq, Structural)]
pub enum UnmapAction {
    Skip,
    Release { addr: usize, len: usize },
}

/// The counter total after an allocate request of `size` bytes: a zero-size
/// request leaves it alone; any other raises it by `size` before the OS is
/// asked, and nothing lowers it again if the OS declines.
pub open spec fn total_after_allocate(t: nat, size: nat) -> nat {
    if size == 0 {
        t
    } else {
        counter_add(t, size)
    }
}

/// The counter total after a deallocate request of `size` bytes at `addr`:
/// releasing the sentinel address is a no-op; any other release lowers the
/// total by `size` before the OS unmaps.
pub open spec fn total_after_deallocate(t: nat, addr: nat, size: nat) -> nat {
    if addr == 0 {
        t
    } else {
        counter_sub(t, size)
    }
}

/// The process-wide allocator state: nothing but the byte counter. No
/// registry of live regions is kept; the caller alone must present the
/// address and original size of a mapping when releasing it.
pub struct Alloc {
    total: ByteCounter,
}

impl View for Alloc {
    type V = nat;

    closed spec fn view(&self) -> nat {
        self.total@
    }
}

impl Alloc {
    /// A fresh allocator with no live bytes on its books.
    pub fn new() -> (a: Alloc)
        ensures
            a@ == 0,
    {
        Alloc { total: ByteCounter::new() }
    }

    /// The running total of live allocated bytes, as last accounted.
    pub fn check(&self) -> (r: usize)
        ensures
            r == self@,
    {
        self.total.read()
    }

    /// Serves an allocate request of `size` bytes with alignment `_align`.
    ///
    /// A zero-size request makes no mapping and leaves the counter alone;
    /// any other raises the counter by `size` first and then asks for a
    /// mapping of exactly `size` bytes. The counter is not taken back if the
    /// OS then declines the mapping. Alignment is met only to the page
    /// granularity the OS mapping naturally gives, so the requested
    /// alignment does not enter the decision.
    pub fn allocate(&mut self, size: usize, _align: usize) -> (act: MapAction)
        ensures
            final(self)@ == total_after_allocate(old(self)@, size as nat),
            size == 0 ==> act == MapAction::Skip,
            size != 0 ==> act == (MapAction::Request { len: size }),
    {
        if size == 0 {
            return MapAction::Skip;
        }
        self.total.add(size);
        MapAction::Request { len: size }
    }

    /// Serves a deallocate request for `size` bytes at `addr` with alignment
    /// `_align`.
    ///
    /// Releasing the sentinel address is a no-op and is admitted only with
    /// size zero; any other release lowers the counter by `size` first and
    /// then asks the OS to unmap. Nothing checks that the pair matches a
    /// live mapping: the caller is answerable for that, and a wrong size
    /// corrupts the accounting.
    pub fn deallocate(&mut self, addr: usize, size: usize, _align: usize) -> (act: UnmapAction)
        requires
            addr == 0 ==> size == 0,
        ensures
            final(self)@ == total_after_deallocate(old(self)@, addr as nat, size as nat),
            addr == 0 ==> act == UnmapAction::Skip,
            addr != 0 ==> act == (UnmapAction::Release { addr, len: size }),
    {
        if addr == 0 {
            return UnmapAction::Skip;
        }
        self.total.subtract(size);
        UnmapAction::Release { addr, len: size }
    }
}

} // verus!
