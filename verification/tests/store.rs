use balance_ledger::date::Date;
use balance_ledger::snapshot::HistoryField;
use balance_ledger::snapshot::RawEntry;
use balance_ledger::snapshot::Snapshot;
use balance_ledger::snapshot::SnapshotStore;
use balance_ledger::snapshot::parse_history;

fn entry(date: &str, remaining: Option<&str>, used: Option<&str>) -> RawEntry {
    RawEntry {
        date: String::from(date),
        remaining_amount: remaining.map(String::from),
        used_amount: used.map(String::from),
        fetched_at: None,
    }
}

fn snap(y: u32, m: u32, d: u32, remaining: u64) -> Snapshot {
    Snapshot {
        date: Date { year: y, month: m, day: d },
        remaining_cents: remaining,
        used_cents: 0,
        fetched_at: None,
    }
}

#[test]
fn upsert_sorts_by_calendar_date() {
    let mut store = SnapshotStore::new();
    store.upsert(snap(2024, 1, 3, 300));
    store.upsert(snap(2024, 1, 1, 100));
    store.upsert(snap(2024, 1, 2, 200));
    assert_eq!(store.len(), 3);
    assert_eq!(store.get(0).remaining_cents, 100);
    assert_eq!(store.get(1).remaining_cents, 200);
    assert_eq!(store.get(2).remaining_cents, 300);
}

#[test]
fn upsert_overwrites_same_date() {
    let mut store = SnapshotStore::new();
    store.upsert(snap(2024, 1, 1, 100));
    store.upsert(snap(2024, 1, 1, 900));
    assert_eq!(store.len(), 1);
    assert_eq!(store.get(0).remaining_cents, 900);
}

#[test]
fn history_parses_in_any_order() {
    let entries = vec![
        entry("2024-01-02", Some("80.00"), None),
        entry("2024-01-01", Some("100.00"), Some("0.00")),
    ];
    let store = parse_history(&entries).unwrap();
    assert_eq!(store.len(), 2);
    assert_eq!(store.get(0).date, Date { year: 2024, month: 1, day: 1 });
    assert_eq!(store.get(0).remaining_cents, 10000);
    assert_eq!(store.get(1).remaining_cents, 8000);
}

#[test]
fn history_later_entry_wins_for_same_date() {
    let entries = vec![
        entry("2024-01-01", Some("100.00"), None),
        entry("2024-01-01", Some("42.00"), None),
    ];
    let store = parse_history(&entries).unwrap();
    assert_eq!(store.len(), 1);
    assert_eq!(store.get(0).remaining_cents, 4200);
}

#[test]
fn missing_amount_defaults_to_zero() {
    let entries = vec![entry("2024-01-01", None, None)];
    let store = parse_history(&entries).unwrap();
    assert_eq!(store.get(0).remaining_cents, 0);
    assert_eq!(store.get(0).used_cents, 0);
}

#[test]
fn bad_date_key_is_fatal_with_context() {
    let entries = vec![
        entry("2024-01-01", Some("1.00"), None),
        entry("not-a-date", Some("1.00"), None),
    ];
    let err = parse_history(&entries).unwrap_err();
    assert_eq!(err.key, "not-a-date");
    assert_eq!(err.field, HistoryField::DateKey);
}

#[test]
fn non_numeric_remaining_is_fatal_with_context() {
    let entries = vec![entry("2024-01-01", Some("lots"), None)];
    let err = parse_history(&entries).unwrap_err();
    assert_eq!(err.key, "2024-01-01");
    assert_eq!(err.field, HistoryField::RemainingAmount);
}

#[test]
fn non_numeric_used_is_fatal_with_context() {
    let entries = vec![entry("2024-01-01", Some("1.00"), Some("n/a"))];
    let err = parse_history(&entries).unwrap_err();
    assert_eq!(err.key, "2024-01-01");
    assert_eq!(err.field, HistoryField::UsedAmount);
}

#[test]
fn first_bad_entry_reports_first() {
    let entries = vec![
        entry("2024-01-01", Some("1.00"), None),
        entry("bad-one", None, None),
        entry("also-bad", None, None),
    ];
    let err = parse_history(&entries).unwrap_err();
    assert_eq!(err.key, "bad-one");
}
