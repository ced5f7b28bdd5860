use dedup_numbers::printer::Printer;
use std::sync::atomic::{AtomicU32, AtomicU64, Ordering};
use std::sync::Arc;
use std::time::Duration;

#[test]
fn printer_outputs_data() {
    let unique_counter = Arc::new(AtomicU32::new(13));
    let duplicate_counter = Arc::new(AtomicU64::new(37));

    let mut p = Printer::new(Duration::from_millis(10), unique_counter, duplicate_counter);

    let actual = p.tick();
    assert_eq!(
        "Received 13 unique numbers, 37 duplicates. Unique total: 13",
        actual
    );
}

#[test]
fn printer_reports_deltas_between_ticks() {
    let unique_counter = Arc::new(AtomicU32::new(13));
    let duplicate_counter = Arc::new(AtomicU64::new(37));
    let mut p = Printer::new(
        Duration::from_secs(10),
        Arc::clone(&unique_counter),
        Arc::clone(&duplicate_counter),
    );
    assert_eq!(
        "Received 13 unique numbers, 37 duplicates. Unique total: 13",
        p.tick()
    );
    unique_counter.fetch_add(7, Ordering::SeqCst);
    duplicate_counter.fetch_add(3, Ordering::SeqCst);
    assert_eq!(
        "Received 7 unique numbers, 3 duplicates. Unique total: 20",
        p.tick()
    );
    assert_eq!(
        "Received 0 unique numbers, 0 duplicates. Unique total: 20",
        p.tick()
    );
}

#[test]
fn printer_report_takes_the_sample_as_given() {
    let mut p = Printer::new(
        Duration::from_secs(10),
        Arc::new(AtomicU32::new(0)),
        Arc::new(AtomicU64::new(0)),
    );
    assert_eq!(
        "Received 0 unique numbers, 0 duplicates. Unique total: 0",
        p.report(0, 0)
    );
    assert_eq!(
        "Received 1000 unique numbers, 250 duplicates. Unique total: 1000",
        p.report(1000, 250)
    );
    assert_eq!(
        "Received 999000 unique numbers, 18446744073709551365 duplicates. Unique total: 1000000",
        p.report(1000000, u64::MAX)
    );
}

#[test]
fn printer_deltas_survive_a_counter_that_wrapped() {
    let mut p = Printer::new(
        Duration::from_secs(10),
        Arc::new(AtomicU32::new(0)),
        Arc::new(AtomicU64::new(0)),
    );
    p.report(u32::MAX - 1, u64::MAX);
    assert_eq!(
        "Received 5 unique numbers, 2 duplicates. Unique total: 3",
        p.report(3, 1)
    );
}

#[test]
fn printer_keeps_its_interval() {
    let p = Printer::new(
        Duration::from_millis(10),
        Arc::new(AtomicU32::new(0)),
        Arc::new(AtomicU64::new(0)),
    );
    assert_eq!(Duration::from_millis(10), *p.interval());
}
