use stopwatch::stopwatch::StopWatch;

const MS: u128 = 1_000_000;

#[test]
fn new_stopwatch_is_empty() {
    let watch = StopWatch::new(true, false);
    assert!(watch.measurement_enabled());
    assert!(!watch.echo_enabled());
    assert_eq!(watch.start_mark(), 0);
    assert_eq!(watch.last_mark(), 0);
    assert_eq!(watch.total(), 0);
    assert!(watch.label_order().is_empty());
    assert_eq!(watch.accumulated("anything"), 0);
}

#[test]
fn tick_charges_time_since_last_mark() {
    let mut watch = StopWatch::new(true, false);
    watch.tick_at("load", 10 * MS);
    watch.tick_at("compute", 40 * MS);
    watch.tick_at("save", 45 * MS);
    assert_eq!(watch.accumulated("load"), 10 * MS);
    assert_eq!(watch.accumulated("compute"), 30 * MS);
    assert_eq!(watch.accumulated("save"), 5 * MS);
    assert_eq!(watch.last_mark(), 45 * MS);
}

#[test]
fn total_is_time_from_start_to_last_tick() {
    let mut watch = StopWatch::new(true, false);
    let times: [u128; 6] = [3, 3, 17, 100, 250, 1_000_000_007];
    let labels = ["a", "b", "a", "c", "b", "a"];
    let mut i: usize = 0;
    while i < times.len() {
        watch.tick_at(labels[i], times[i]);
        let sum: u128 =
            watch.accumulated("a") + watch.accumulated("b") + watch.accumulated("c");
        assert_eq!(sum, times[i] - watch.start_mark());
        assert_eq!(watch.total(), sum);
        assert_eq!(watch.last_mark(), times[i]);
        i += 1;
    }
}

#[test]
fn repeated_label_gets_disjoint_intervals() {
    let mut watch = StopWatch::new(true, false);
    watch.tick_at("a", 5);
    watch.tick_at("b", 12);
    watch.tick_at("a", 20);
    watch.tick_at("b", 21);
    watch.tick_at("a", 40);
    // a: (0..5) + (12..20) + (21..40), not the time since its first tick.
    assert_eq!(watch.accumulated("a"), 5 + 8 + 19);
    assert_eq!(watch.accumulated("b"), 7 + 1);
}

#[test]
fn label_order_is_first_seen() {
    let mut watch = StopWatch::new(true, false);
    watch.tick_at("b", 1);
    watch.tick_at("a", 2);
    watch.tick_at("b", 3);
    assert_eq!(watch.label_order(), vec!["b".to_string(), "a".to_string()]);
}

#[test]
fn tick_at_the_same_time_charges_nothing() {
    let mut watch = StopWatch::new(true, false);
    watch.tick_at("a", 7);
    watch.tick_at("b", 7);
    assert_eq!(watch.accumulated("a"), 7);
    assert_eq!(watch.accumulated("b"), 0);
    assert_eq!(watch.label_order(), vec!["a".to_string(), "b".to_string()]);
}

#[test]
fn tick_reports_echo_flag() {
    let mut loud = StopWatch::new(true, true);
    assert!(loud.tick_at("a", 1));
    assert!(loud.tick("b"));
    let mut quiet = StopWatch::new(true, false);
    assert!(!quiet.tick_at("a", 1));
    assert!(!quiet.tick("b"));
    let mut loud_but_off = StopWatch::new(false, true);
    assert!(loud_but_off.tick_at("a", 1));
    assert!(loud_but_off.tick("a"));
    assert!(loud_but_off.echo_enabled());
}

#[test]
fn reset_keeps_labels_and_clears_durations() {
    let mut watch = StopWatch::new(true, false);
    watch.tick_at("a", 10 * MS);
    watch.tick_at("b", 30 * MS);
    assert!(watch.has_duration("a"));
    assert!(watch.has_duration("b"));
    watch.reset_at(50 * MS);
    assert_eq!(watch.label_order(), vec!["a".to_string(), "b".to_string()]);
    assert!(!watch.has_duration("a"));
    assert!(!watch.has_duration("b"));
    assert_eq!(watch.accumulated("a"), 0);
    assert_eq!(watch.accumulated("b"), 0);
    assert_eq!(watch.total(), 0);
    assert_eq!(watch.start_mark(), 50 * MS);
    assert_eq!(watch.last_mark(), 50 * MS);
    assert!(watch.measurement_enabled());
    assert!(!watch.echo_enabled());
}

#[test]
fn tick_after_reset_does_not_repeat_a_label() {
    let mut watch = StopWatch::new(true, false);
    watch.tick_at("a", 10);
    watch.tick_at("b", 30);
    watch.reset_at(50);
    watch.tick_at("b", 80);
    assert!(watch.has_duration("b"));
    assert!(!watch.has_duration("a"));
    watch.tick_at("c", 81);
    watch.tick_at("a", 90);
    assert_eq!(watch.accumulated("b"), 30);
    assert_eq!(watch.accumulated("c"), 1);
    assert_eq!(watch.accumulated("a"), 9);
    assert_eq!(watch.total(), 40);
    assert_eq!(
        watch.label_order(),
        vec!["a".to_string(), "b".to_string(), "c".to_string()]
    );
}

#[test]
fn never_ticked_label_has_no_duration() {
    let mut watch = StopWatch::new(true, false);
    assert!(!watch.has_duration("a"));
    watch.tick_at("a", 0);
    assert!(watch.has_duration("a"));
    assert_eq!(watch.accumulated("a"), 0);
    assert!(!watch.has_duration("b"));
}

#[test]
fn disabled_stopwatch_is_never_changed() {
    let mut watch = StopWatch::new(false, false);
    watch.tick_at("a", 10);
    watch.tick("b");
    watch.reset_at(99);
    watch.reset();
    assert!(!watch.measurement_enabled());
    assert_eq!(watch.start_mark(), 0);
    assert_eq!(watch.last_mark(), 0);
    assert_eq!(watch.total(), 0);
    assert!(watch.label_order().is_empty());
    assert_eq!(watch.accumulated("a"), 0);
    assert_eq!(watch.breakdown(1, "request"), None);
}

#[test]
fn real_clock_ticks_keep_the_books() {
    let mut watch = StopWatch::new(true, false);
    watch.tick("a");
    let first: u128 = watch.last_mark();
    watch.tick("b");
    watch.tick("a");
    let last: u128 = watch.last_mark();
    assert!(first <= last);
    assert_eq!(watch.start_mark(), 0);
    assert_eq!(watch.accumulated("a") + watch.accumulated("b"), last);
    assert_eq!(watch.total(), last);
    assert_eq!(watch.label_order(), vec!["a".to_string(), "b".to_string()]);
    watch.reset();
    assert_eq!(watch.total(), 0);
    assert!(watch.start_mark() >= last);
    assert_eq!(watch.start_mark(), watch.last_mark());
    assert_eq!(watch.label_order(), vec!["a".to_string(), "b".to_string()]);
    assert!(!watch.has_duration("a"));
    assert!(!watch.has_duration("b"));
}
