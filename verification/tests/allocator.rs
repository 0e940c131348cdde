use mapalloc::Alloc;
use mapalloc::MapAction;
use mapalloc::UnmapAction;

#[test]
fn new_starts_at_zero() {
    let a = Alloc::new();
    assert_eq!(a.check(), 0);
}

#[test]
fn zero_size_allocate_returns_no_mapping() {
    let mut a = Alloc::new();
    let act = a.allocate(0, 1);
    assert_eq!(act, MapAction::Skip);
    assert_eq!(a.check(), 0);
}

#[test]
fn zero_size_release_is_noop() {
    let mut a = Alloc::new();
    let act = a.deallocate(0, 0, 1);
    assert_eq!(act, UnmapAction::Skip);
    assert_eq!(a.check(), 0);
}

#[test]
fn allocate_raises_counter_by_size() {
    let mut a = Alloc::new();
    let act = a.allocate(4096, 8);
    assert_eq!(act, MapAction::Request { len: 4096 });
    assert_eq!(a.check(), 4096);
}

#[test]
fn alignment_does_not_enter_decision() {
    let mut a = Alloc::new();
    let act = a.allocate(64, 4096);
    assert_eq!(act, MapAction::Request { len: 64 });
    assert_eq!(a.check(), 64);
}

#[test]
fn matched_release_restores_counter() {
    let mut a = Alloc::new();
    let before = a.check();
    let act = a.allocate(300, 8);
    assert_eq!(act, MapAction::Request { len: 300 });
    let act = a.deallocate(0x7000, 300, 8);
    assert_eq!(act, UnmapAction::Release { addr: 0x7000, len: 300 });
    assert_eq!(a.check(), before);
}

#[test]
fn interleaved_cycles_net_zero() {
    let mut a = Alloc::new();
    let before = a.check();
    a.allocate(100, 8);
    a.allocate(200, 8);
    a.deallocate(0x2000, 200, 8);
    a.allocate(50, 8);
    a.deallocate(0x1000, 100, 8);
    a.deallocate(0x3000, 50, 8);
    assert_eq!(a.check(), before);
}

#[test]
fn refused_mapping_keeps_increment() {
    let mut a = Alloc::new();
    let act = a.allocate(1 << 20, 8);
    assert_eq!(act, MapAction::Request { len: 1 << 20 });
    // The OS declined the mapping: the caller got the sentinel back and
    // releases nothing, and the optimistic increment is not taken back.
    assert_eq!(a.check(), 1 << 20);
}

#[test]
fn large_allocation_scenario() {
    let mut a = Alloc::new();
    let baseline = a.check();
    let act = a.allocate(1 << 30, 8);
    assert_eq!(act, MapAction::Request { len: 1 << 30 });
    assert!(a.check() >= 1 << 30);
    let act = a.deallocate(0x10000, 1 << 30, 8);
    assert_eq!(act, UnmapAction::Release { addr: 0x10000, len: 1 << 30 });
    assert_eq!(a.check(), baseline);
}

#[test]
fn counter_wraps_at_word_limit() {
    let mut a = Alloc::new();
    a.allocate(usize::MAX, 1);
    assert_eq!(a.check(), usize::MAX);
    a.allocate(1, 1);
    assert_eq!(a.check(), 0);
}

#[test]
fn release_without_allocation_wraps_below_zero() {
    let mut a = Alloc::new();
    let act = a.deallocate(0x1000, 1, 1);
    assert_eq!(act, UnmapAction::Release { addr: 0x1000, len: 1 });
    assert_eq!(a.check(), usize::MAX);
}
