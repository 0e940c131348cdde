use mapalloc::ByteCounter;

#[test]
fn byte_counter_adds_and_reads() {
    let mut c = ByteCounter::new();
    assert_eq!(c.read(), 0);
    c.add(5);
    c.add(7);
    assert_eq!(c.read(), 12);
    c.subtract(12);
    assert_eq!(c.read(), 0);
}

#[test]
fn byte_counter_add_wraps() {
    let mut c = ByteCounter::new();
    c.add(usize::MAX);
    c.add(2);
    assert_eq!(c.read(), 1);
}

#[test]
fn byte_counter_subtract_wraps() {
    let mut c = ByteCounter::new();
    c.subtract(1);
    assert_eq!(c.read(), usize::MAX);
}
