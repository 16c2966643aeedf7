use balance_ledger::build_ledger;
use balance_ledger::date::Date;
use balance_ledger::snapshot::RawEntry;

fn entry(date: &str, remaining: &str) -> RawEntry {
    RawEntry {
        date: String::from(date),
        remaining_amount: Some(String::from(remaining)),
        used_amount: None,
        fetched_at: None,
    }
}

fn entry_used(date: &str, remaining: &str, used: &str) -> RawEntry {
    RawEntry {
        date: String::from(date),
        remaining_amount: Some(String::from(remaining)),
        used_amount: Some(String::from(used)),
        fetched_at: None,
    }
}

#[test]
fn recharge_example_resets_everything() {
    // Snapshots: 100 remaining, then 80, then a top-up back to 120.
    let entries = vec![
        entry_used("2024-01-01", "100.00", "0.00"),
        entry("2024-01-02", "80.00"),
        entry("2024-01-03", "120.00"),
    ];
    let records = build_ledger(&entries).unwrap();
    assert_eq!(records.len(), 3);

    assert_eq!(records[0].date, Date { year: 2024, month: 1, day: 1 });
    assert_eq!(records[0].daily_cents, 0);
    assert!(!records[0].is_recharge_day);
    assert_eq!(records[0].cumulative_cents, 0);

    assert_eq!(records[1].daily_cents, 2000);
    assert!(!records[1].is_recharge_day);
    assert_eq!(records[1].cumulative_cents, 2000);

    assert!(records[2].is_recharge_day);
    assert_eq!(records[2].daily_cents, 0);
    assert_eq!(records[2].cumulative_cents, 0);
}

#[test]
fn equal_balances_mean_no_spend_and_no_recharge() {
    let entries = vec![entry("2024-01-01", "50.00"), entry("2024-01-02", "50.00")];
    let records = build_ledger(&entries).unwrap();
    assert_eq!(records[1].daily_cents, 0);
    assert!(!records[1].is_recharge_day);
}

#[test]
fn any_balance_increase_is_flagged_as_recharge() {
    let entries = vec![
        entry("2024-01-01", "10.00"),
        entry("2024-01-02", "10.01"),
        entry("2024-01-03", "9.00"),
    ];
    let records = build_ledger(&entries).unwrap();
    assert!(records[1].is_recharge_day);
    assert_eq!(records[1].daily_cents, 0);
    assert!(!records[2].is_recharge_day);
    assert_eq!(records[2].daily_cents, 101);
}

#[test]
fn consumption_sums_to_balance_drop_within_period() {
    let entries = vec![
        entry_used("2024-01-01", "100.00", "0.00"),
        entry("2024-01-02", "90.00"),
        entry("2024-01-03", "70.00"),
        entry("2024-01-04", "65.00"),
    ];
    let records = build_ledger(&entries).unwrap();
    let sum: u64 = records[1..].iter().map(|r| r.daily_cents).sum();
    assert_eq!(sum, 10000 - 6500);
    assert_eq!(records[3].cumulative_cents, 3500);
}

#[test]
fn cumulative_never_decreases_within_a_period() {
    let entries = vec![
        entry_used("2024-01-01", "100.00", "1.00"),
        entry("2024-01-02", "90.00"),
        entry("2024-01-03", "90.00"),
        entry("2024-01-04", "65.00"),
    ];
    let records = build_ledger(&entries).unwrap();
    for i in 1..records.len() {
        assert!(records[i].cumulative_cents >= records[i - 1].cumulative_cents);
    }
}

#[test]
fn rebuilding_twice_is_bit_identical() {
    let entries = vec![
        entry_used("2024-01-01", "100.00", "3.50"),
        entry("2024-01-03", "80.00"),
        entry("2024-01-02", "90.00"),
        entry("2024-01-05", "200.00"),
        entry("2024-01-06", "150.00"),
    ];
    let first = build_ledger(&entries).unwrap();
    let second = build_ledger(&entries).unwrap();
    assert_eq!(first, second);
}

#[test]
fn gaps_count_as_since_last_observation() {
    let entries = vec![
        entry_used("2024-01-01", "100.00", "0.00"),
        entry("2024-01-09", "40.00"),
    ];
    let records = build_ledger(&entries).unwrap();
    assert_eq!(records[1].daily_cents, 6000);
    assert!(!records[1].is_recharge_day);
}

#[test]
fn first_day_reports_the_sources_used_figure() {
    let entries = vec![entry_used("2024-01-01", "100.00", "12.34")];
    let records = build_ledger(&entries).unwrap();
    assert_eq!(records[0].daily_cents, 1234);
    assert_eq!(records[0].cumulative_cents, 1234);
    assert!(!records[0].is_recharge_day);
}

#[test]
fn empty_history_builds_an_empty_ledger() {
    let entries: Vec<RawEntry> = Vec::new();
    let records = build_ledger(&entries).unwrap();
    assert!(records.is_empty());
}

#[test]
fn malformed_entry_fails_the_whole_build() {
    let entries = vec![entry("2024-01-01", "1.00"), entry("2024-99-01", "1.00")];
    assert!(build_ledger(&entries).is_err());
}
