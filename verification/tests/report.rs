use balance_ledger::build_ledger;
use balance_ledger::build_report;
use balance_ledger::chart::render_trend;
use balance_ledger::report::TableColumn;
use balance_ledger::report::TrendVisualizer;
use balance_ledger::report::render_report;
use balance_ledger::snapshot::RawEntry;

fn entry(date: &str, remaining: &str, used: Option<&str>) -> RawEntry {
    RawEntry {
        date: String::from(date),
        remaining_amount: Some(String::from(remaining)),
        used_amount: used.map(String::from),
        fetched_at: None,
    }
}

#[test]
fn single_record_report_renders_without_error() {
    let entries = vec![entry("2024-01-01", "100.00", Some("0.00"))];
    let report =
        build_report(&entries, TrendVisualizer::Ascii, TableColumn::CumulativeConsumption).unwrap();
    let lines: Vec<&str> = report.lines().collect();
    assert_eq!(lines[0], "# Balance usage report");
    assert_eq!(lines[2], "## Statistics");
    assert_eq!(lines[4], "- Total consumption: 0.00");
    assert_eq!(lines[5], "- Valid days: 1");
    assert_eq!(lines[6], "- Average daily consumption: 0.00");
    assert_eq!(lines[7], "- Estimated days remaining: 0");
    assert_eq!(lines[9], "## Trend");
    // Eight plot rows: a lone value sits mid-axis, mid-width.
    for r in 0..8 {
        let row = lines[11 + r];
        assert_eq!(row.chars().count(), 40);
        if r == 4 {
            assert_eq!(row.chars().nth(19), Some('*'));
            assert_eq!(row.trim(), "*");
        } else {
            assert_eq!(row.trim(), "");
        }
    }
    assert_eq!(lines[19], "-".repeat(40));
    assert_eq!(lines[20], "01-01");
    assert_eq!(lines[22], "## History");
    assert_eq!(lines[24], "|Date|Daily consumption|Cumulative consumption|");
    assert_eq!(lines[25], "|---|---|---|");
    assert_eq!(lines[26], "|2024-01-01|0.00|0.00|");
}

#[test]
fn chart_places_points_across_the_width() {
    let entries = vec![
        entry("2024-01-01", "100.00", Some("0.00")),
        entry("2024-01-02", "80.00", None),
    ];
    let records = build_ledger(&entries).unwrap();
    let chart = render_trend(&records);
    let lines: Vec<&str> = chart.lines().collect();
    // Daily values 0 and 2000 cents: the low point sits at the bottom
    // left, the high point near the top right.
    assert_eq!(lines.len(), 10);
    assert_eq!(lines[7].chars().nth(0), Some('*'));
    assert_eq!(lines[1].chars().nth(39), Some('*'));
    assert_eq!(lines[8], "-".repeat(40));
    let label = lines[9];
    assert!(label.starts_with("01-01"));
    assert!(label.ends_with("01-02"));
    assert_eq!(label.chars().count(), 40);
}

#[test]
fn flat_window_still_has_a_visible_band() {
    let entries = vec![
        entry("2024-01-01", "100.00", Some("5.00")),
        entry("2024-01-02", "95.00", None),
    ];
    let records = build_ledger(&entries).unwrap();
    let chart = render_trend(&records);
    // Both days consumed 5.00: both points plot on the same middle row.
    let lines: Vec<&str> = chart.lines().collect();
    let stars: usize = lines[..8].iter().map(|l| l.matches('*').count()).sum();
    assert_eq!(stars, 2);
    assert_eq!(lines[4].matches('*').count(), 2);
}

#[test]
fn disabled_visualizer_degrades_to_a_placeholder() {
    let entries = vec![entry("2024-01-01", "100.00", None)];
    let report =
        build_report(&entries, TrendVisualizer::Disabled, TableColumn::CumulativeConsumption)
            .unwrap();
    assert!(report.contains("(trend chart disabled)"));
    assert!(!report.contains('*'));
}

#[test]
fn empty_history_report_says_no_data() {
    let entries: Vec<RawEntry> = Vec::new();
    let report =
        build_report(&entries, TrendVisualizer::Ascii, TableColumn::CumulativeConsumption).unwrap();
    assert!(report.contains("(no data)"));
    assert!(report.contains("- Valid days: 0"));
    assert!(report.contains("- Estimated days remaining: 0"));
}

#[test]
fn table_lists_most_recent_first() {
    let entries = vec![
        entry("2024-01-01", "100.00", Some("0.00")),
        entry("2024-01-02", "80.00", None),
        entry("2024-01-03", "75.00", None),
    ];
    let records = build_ledger(&entries).unwrap();
    let report =
        render_report(&records, TrendVisualizer::Disabled, TableColumn::CumulativeConsumption);
    let rows: Vec<&str> = report.lines().filter(|l| l.starts_with("|2024")).collect();
    assert_eq!(
        rows,
        vec![
            "|2024-01-03|5.00|25.00|",
            "|2024-01-02|20.00|20.00|",
            "|2024-01-01|0.00|0.00|",
        ]
    );
}

#[test]
fn remaining_balance_mode_shows_the_balance_column() {
    let entries = vec![
        entry("2024-01-01", "100.00", Some("0.00")),
        entry("2024-01-02", "80.00", None),
    ];
    let records = build_ledger(&entries).unwrap();
    let report = render_report(&records, TrendVisualizer::Disabled, TableColumn::RemainingBalance);
    assert!(report.contains("|Date|Daily consumption|Remaining balance|"));
    assert!(report.contains("|2024-01-02|20.00|80.00|"));
    assert!(report.contains("|2024-01-01|0.00|100.00|"));
}

#[test]
fn report_is_identical_on_rebuild() {
    let entries = vec![
        entry("2024-01-01", "100.00", Some("1.00")),
        entry("2024-01-03", "70.00", None),
        entry("2024-01-02", "90.00", None),
    ];
    let a = build_report(&entries, TrendVisualizer::Ascii, TableColumn::CumulativeConsumption)
        .unwrap();
    let b = build_report(&entries, TrendVisualizer::Ascii, TableColumn::CumulativeConsumption)
        .unwrap();
    assert_eq!(a, b);
}

#[test]
fn trend_window_is_bounded_to_fourteen_records() {
    let mut entries = Vec::new();
    entries.push(entry("2024-01-01", "200.00", Some("0.00")));
    for d in 2..=20 {
        let date = format!("2024-01-{:02}", d);
        let remaining = format!("{}.00", 200 - d);
        entries.push(entry(&date, &remaining, None));
    }
    let records = build_ledger(&entries).unwrap();
    let chart = render_trend(&records);
    let label = chart.lines().last().unwrap();
    // The label shows the first date of the window, not of the history.
    assert!(label.starts_with("01-07"));
    assert!(label.ends_with("01-20"));
}
