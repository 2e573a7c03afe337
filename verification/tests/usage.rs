use sandbox_egress::usage::{saturating_add, Counters, FinalUsage, Usage};

#[test]
fn cumulative_counters_saturate_instead_of_wrapping() {
    let mut counters = Counters::default();
    counters.usage.accepted_connections = u64::MAX;
    counters.usage.denied_connections = u64::MAX;
    counters.usage.completed_connections = u64::MAX;

    counters.count_admission();
    counters.deny();
    counters.finish(true);

    let usage = counters.snapshot();
    assert_eq!(usage.accepted_connections, u64::MAX);
    assert_eq!(usage.denied_connections, u64::MAX);
    assert_eq!(usage.completed_connections, u64::MAX);
    assert_eq!(usage.active_connections, 0);
}

#[test]
fn byte_counters_saturate_and_return_the_stored_total() {
    let mut counters = Counters::default();
    counters.usage.uploaded_bytes = u64::MAX - 2;
    counters.usage.downloaded_bytes = u64::MAX - 1;

    assert_eq!(counters.record_upload(4), u64::MAX);
    assert_eq!(counters.record_download(2), u64::MAX);
    assert_eq!(counters.snapshot().uploaded_bytes, u64::MAX);
    assert_eq!(counters.snapshot().downloaded_bytes, u64::MAX);
}

#[test]
fn each_counter_counts_its_own_work() {
    let mut counters = Counters::default();
    assert_eq!(counters.snapshot(), Usage::default());
    assert_eq!(FinalUsage::default().usage(), Usage::default());
    counters.count_admission();
    counters.count_admission();
    counters.count_admission();
    counters.finish(true);
    counters.finish(false);
    counters.deny();
    assert_eq!(counters.record_upload(5), 5);
    assert_eq!(counters.record_upload(7), 12);
    assert_eq!(counters.record_download(9), 9);

    let usage = counters.snapshot();
    assert_eq!(usage.accepted_connections, 3);
    assert_eq!(usage.active_connections, 1);
    assert_eq!(usage.completed_connections, 1);
    assert_eq!(usage.denied_connections, 1);
    assert_eq!(usage.uploaded_bytes, 12);
    assert_eq!(usage.downloaded_bytes, 9);
    assert_eq!(counters.final_snapshot(), FinalUsage(usage));
    assert_eq!(counters.final_snapshot().usage(), usage);
}

#[test]
fn a_saturating_addition_stores_what_it_returns() {
    let mut counter = 3;
    assert_eq!(saturating_add(&mut counter, 4), 7);
    assert_eq!(counter, 7);
    assert_eq!(saturating_add(&mut counter, u64::MAX), u64::MAX);
    assert_eq!(counter, u64::MAX);
}
