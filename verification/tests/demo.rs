use grove::demo::counter::Counter;
use grove::demo::retained::CounterService;
use grove::demo::status::Status;

#[test]
fn counter_increment_and_decrement_emit_new_value() {
    let mut counter = Counter::new();
    assert_eq!(counter.increment().new_value, 1);
    assert_eq!(counter.increment().new_value, 2);
    assert_eq!(counter.decrement().new_value, 1);
    assert_eq!(counter.value(), 1);
}

#[test]
fn counter_decrement_stops_at_zero() {
    let mut counter = Counter::new();
    assert_eq!(counter.decrement().new_value, 0);
    assert_eq!(counter.value(), 0);
}

#[test]
fn status_shows_counter_value() {
    let mut counter = Counter::new();
    let mut status = Status::new(String::new());
    for _ in 0..12 {
        let event = counter.increment();
        status.on_counter_incremented(event);
    }
    assert_eq!(status.message(), "Counter changed to 12");
    status.on_counter_incremented(counter.decrement());
    assert_eq!(status.message(), "Counter changed to 11");
}

#[test]
fn retained_counter_wraps_past_max() {
    let mut service = CounterService::new();
    assert_eq!(service.max_count(), 20);
    for _ in 0..20 {
        service.increment();
    }
    assert_eq!(service.count(), 20);
    service.increment();
    assert_eq!(service.count(), 0);
    service.increment();
    service.increment();
    service.reset();
    assert_eq!(service.count(), 0);
    assert_eq!(service.pending_renders(), 24);
    assert_eq!(service.take_pending_renders(), 24);
    assert_eq!(service.pending_renders(), 0);
}
