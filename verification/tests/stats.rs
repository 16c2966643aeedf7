use balance_ledger::build_ledger;
use balance_ledger::snapshot::RawEntry;
use balance_ledger::stats::compute_stats;

fn entry(date: &str, remaining: &str, used: Option<&str>) -> RawEntry {
    RawEntry {
        date: String::from(date),
        remaining_amount: Some(String::from(remaining)),
        used_amount: used.map(String::from),
        fetched_at: None,
    }
}

#[test]
fn single_record_counts_one_valid_day() {
    let entries = vec![entry("2024-01-01", "100.00", Some("2.50"))];
    let records = build_ledger(&entries).unwrap();
    let st = compute_stats(&records);
    assert_eq!(st.valid_days, 1);
    assert_eq!(st.total_cents, 250);
    assert_eq!(st.average_cents, 250);
    assert_eq!(st.estimated_days_remaining, 10000 / 250);
}

#[test]
fn stats_cover_only_the_current_spending_period() {
    // A recharge on the last day: only that day counts, and it spent 0.
    let entries = vec![
        entry("2024-01-01", "100.00", Some("0.00")),
        entry("2024-01-02", "80.00", None),
        entry("2024-01-03", "120.00", None),
    ];
    let records = build_ledger(&entries).unwrap();
    let st = compute_stats(&records);
    assert_eq!(st.total_cents, 0);
    assert_eq!(st.valid_days, 1);
    assert_eq!(st.average_cents, 0);
    assert_eq!(st.estimated_days_remaining, 0);
}

#[test]
fn stats_average_and_estimate_are_floored() {
    let entries = vec![
        entry("2024-01-01", "100.00", Some("0.00")),
        entry("2024-01-02", "80.00", None),
        entry("2024-01-03", "70.00", None),
    ];
    let records = build_ledger(&entries).unwrap();
    let st = compute_stats(&records);
    assert_eq!(st.total_cents, 3000);
    assert_eq!(st.valid_days, 3);
    assert_eq!(st.average_cents, 1000);
    assert_eq!(st.estimated_days_remaining, 7);
}

#[test]
fn stats_resume_after_a_recharge() {
    let entries = vec![
        entry("2024-01-01", "100.00", Some("0.00")),
        entry("2024-01-02", "120.00", None),
        entry("2024-01-03", "110.00", None),
        entry("2024-01-04", "100.00", None),
    ];
    let records = build_ledger(&entries).unwrap();
    let st = compute_stats(&records);
    // Window: the recharge day plus the two days after it.
    assert_eq!(st.valid_days, 3);
    assert_eq!(st.total_cents, 2000);
    assert_eq!(st.average_cents, 666);
    assert_eq!(st.estimated_days_remaining, 10000 / 666);
}

#[test]
fn empty_history_yields_all_zero_stats() {
    let entries: Vec<RawEntry> = Vec::new();
    let records = build_ledger(&entries).unwrap();
    let st = compute_stats(&records);
    assert_eq!(st.total_cents, 0);
    assert_eq!(st.valid_days, 0);
    assert_eq!(st.average_cents, 0);
    assert_eq!(st.estimated_days_remaining, 0);
}

#[test]
fn zero_average_never_divides() {
    let entries = vec![
        entry("2024-01-01", "50.00", Some("0.00")),
        entry("2024-01-02", "50.00", None),
    ];
    let records = build_ledger(&entries).unwrap();
    let st = compute_stats(&records);
    assert_eq!(st.average_cents, 0);
    assert_eq!(st.estimated_days_remaining, 0);
}
