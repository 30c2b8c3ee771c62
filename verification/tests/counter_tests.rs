use notes_store::counter::Counter;

#[test]
fn counter_starts_at_zero() {
    let c = Counter::new();
    assert_eq!(c.get(), 0);
}

#[test]
fn counter_from_keeps_value() {
    let c = Counter::from(41);
    assert_eq!(c.get(), 41);
}

#[test]
fn counter_inc_returns_new_value() {
    let mut c = Counter::new();
    assert_eq!(c.inc(), 1);
    assert_eq!(c.inc(), 2);
    assert_eq!(c.inc_and_get(), 3);
    assert_eq!(c.get(), 3);
}

#[test]
fn counter_returned_values_strictly_increase() {
    let mut c = Counter::from(7);
    let mut last = c.get();
    for _ in 0..100 {
        let next = c.inc();
        assert!(next > last);
        last = next;
    }
}

#[test]
fn counter_get_and_inc_returns_previous() {
    let mut c = Counter::from(5);
    assert_eq!(c.get_and_inc(), 5);
    assert_eq!(c.get(), 6);
}

#[test]
fn counter_add_returns_sum() {
    let mut c = Counter::from(10);
    assert_eq!(c.add(7), 17);
    assert_eq!(c.get(), 17);
}
