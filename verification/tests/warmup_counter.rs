use lighter_mm_dryrun::warmup::WarmupCounter;

#[test]
fn warms_up_at_min_samples() {
    let mut c = WarmupCounter::new(3);
    assert!(!c.warmed_up());
    c.record_sample();
    c.record_sample();
    assert!(!c.warmed_up());
    assert_eq!(c.sample_count(), 2);
    c.record_sample();
    assert!(c.warmed_up());
    c.record_sample();
    assert!(c.warmed_up());
    assert_eq!(c.sample_count(), 4);
    assert_eq!(c.min_samples(), 3);
}

#[test]
fn reset_requires_a_new_warmup() {
    let mut c = WarmupCounter::new(2);
    c.record_sample();
    c.record_sample();
    assert!(c.warmed_up());
    c.reset();
    assert!(!c.warmed_up());
    assert_eq!(c.sample_count(), 0);
    c.record_sample();
    assert!(!c.warmed_up());
    c.record_sample();
    assert!(c.warmed_up());
}

#[test]
fn zero_min_samples_warms_on_first_sample() {
    let mut c = WarmupCounter::new(0);
    assert!(!c.warmed_up());
    c.record_sample();
    assert!(c.warmed_up());
}
