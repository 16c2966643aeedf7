//! The report renderer: statistics, trend section, and history table.
//!
//! Consumes the derived day records only, and produces the whole report
//! as one text artifact. The trend section is pluggable: it holds the
//! ASCII chart, or a placeholder line when the visualizer is disabled
//! or there is no data, so a missing chart never aborts the report.
//! Amounts are shown with exactly two decimals; the internal cents are
//! exact, so this display rounding loses nothing.

use vstd::prelude::*;

use crate::amount::amount_rep;
use crate::amount::format_cents;
use crate::chart::chart_rep;
use crate::chart::render_trend;
use crate::chart::trend_window;
use crate::date::format_iso;
use crate::date::iso_rep;
use crate::ledger::DerivedDayRecord;
use crate::ledger::records_wf;
use crate::stats::Statistics;
use crate::stats::compute_stats;
use crate::stats::spec_stats;
use crate::text::dec_rep;
use crate::text::u64_to_string;

verus! {

/// Which trend visualization the report carries.
#[derive(Clone, Copy, PartialEq, Eq, Structural, Debug)]
pub enum TrendVisualizer {
    Disabled,
    Ascii,
}

/// Which value the table's third column shows.
#[derive(Clone, Copy, PartialEq, Eq, Structural, Debug)]
pub enum TableColumn {
    CumulativeConsumption,
    RemainingBalance,
}

/// The cents shown in the table's third column.
pub open spec fn third_cents(rec: DerivedDayRecord, mode: TableColumn) -> u64 {
    match mode {
        TableColumn::CumulativeConsumption => rec.cumulative_cents,
        TableColumn::RemainingBalance => rec.remaining_cents,
    }
}

/// One table row: date, daily consumption, and the configured column.
pub open spec fn table_line(rec: DerivedDayRecord, mode: TableColumn) -> Seq<char> {
    "|"@ + iso_rep(rec.date) + "|"@ + amount_rep(rec.daily_cents as nat) + "|"@ + amount_rep(
        third_cents(rec, mode) as nat,
    ) + "|\n"@
}

/// The rows for the `k` most recent records, most recent first.
pub open spec fn table_emitted(rs: Seq<DerivedDayRecord>, mode: TableColumn, k: int) -> Seq<char>
    decreases k,
{
    if k <= 0 {
        Seq::empty()
    } else {
        table_emitted(rs, mode, k - 1) + table_line(rs[rs.len() - k], mode)
    }
}

/// The table's header line for the configured column.
pub open spec fn table_header(mode: TableColumn) -> Seq<char> {
    match mode {
        TableColumn::CumulativeConsumption => {
            "|Date|Daily consumption|Cumulative consumption|\n|---|---|---|\n"@
        },
        TableColumn::RemainingBalance => {
            "|Date|Daily consumption|Remaining balance|\n|---|---|---|\n"@
        },
    }
}

/// The statistics section's text for given figures.
pub open spec fn stats_rep(st: Statistics) -> Seq<char> {
    "# Balance usage report\n\n## Statistics\n\n- Total consumption: "@ + amount_rep(
        st.total_cents as nat,
    ) + "\n- Valid days: "@ + dec_rep(st.valid_days as nat) + "\n- Average daily consumption: "@
        + amount_rep(st.average_cents as nat) + "\n- Estimated days remaining: "@ + dec_rep(
        st.estimated_days_remaining as nat,
    ) + "\n\n## Trend\n\n"@
}

/// The trend section: the chart, or a placeholder line when there is
/// nothing to plot or the visualizer is off.
pub open spec fn trend_section(rs: Seq<DerivedDayRecord>, viz: TrendVisualizer) -> Seq<char> {
    if rs.len() == 0 {
        "(no data)\n"@
    } else if viz is Ascii {
        chart_rep(trend_window(rs))
    } else {
        "(trend chart disabled)\n"@
    }
}

/// The whole report for a derived series.
pub open spec fn report_rep(
    rs: Seq<DerivedDayRecord>,
    viz: TrendVisualizer,
    mode: TableColumn,
) -> Seq<char> {
    stats_rep(spec_stats(rs)) + trend_section(rs, viz) + "\n## History\n\n"@ + table_header(mode)
        + table_emitted(rs, mode, rs.len() as int)
}

/// Renders one table row.
fn render_table_line(rec: &DerivedDayRecord, mode: TableColumn) -> (s: String)
    requires
        rec.date.valid(),
    ensures
        s@ == table_line(*rec, mode),
{
    let mut s = String::from_str("|");
    let d = format_iso(&rec.date);
    s.append(d.as_str());
    s.append("|");
    let daily = format_cents(rec.daily_cents);
    s.append(daily.as_str());
    s.append("|");
    let third = match mode {
        TableColumn::CumulativeConsumption => format_cents(rec.cumulative_cents),
        TableColumn::RemainingBalance => format_cents(rec.remaining_cents),
    };
    s.append(third.as_str());
    s.append("|\n");
    s
}

/// Renders the full history table, most recent record first.
fn render_table(records: &Vec<DerivedDayRecord>, mode: TableColumn) -> (s: String)
    requires
        records_wf(records@),
    ensures
        s@ == table_header(mode) + table_emitted(records@, mode, records@.len() as int),
{
    let ghost rs = records@;
    let mut s = match mode {
        TableColumn::CumulativeConsumption => {
            String::from_str("|Date|Daily consumption|Cumulative consumption|\n|---|---|---|\n")
        },
        TableColumn::RemainingBalance => {
            String::from_str("|Date|Daily consumption|Remaining balance|\n|---|---|---|\n")
        },
    };
    let n = records.len();
    let mut k: usize = 0;
    while k < n
        invariant
            0 <= k <= n,
            n == rs.len(),
            records@ == rs,
            records_wf(rs),
            s@ == table_header(mode) + table_emitted(rs, mode, k as int),
        decreases n - k,
    {
        proof {
            assert(rs[n - (k + 1)].date.valid());
        }
        let line = render_table_line(&records[n - 1 - k], mode);
        s.append(line.as_str());
        proof {
            assert(n - 1 - k == rs.len() - (k + 1));
            assert(s@ == table_header(mode) + table_emitted(rs, mode, k + 1));
        }
        k = k + 1;
    }
    s
}

/// Renders the whole report from the derived series.
pub fn render_report(
    records: &Vec<DerivedDayRecord>,
    viz: TrendVisualizer,
    mode: TableColumn,
) -> (s: String)
    requires
        records_wf(records@),
    ensures
        s@ == report_rep(records@, viz, mode),
{
    let st = compute_stats(records);
    let mut s = String::from_str("# Balance usage report\n\n## Statistics\n\n- Total consumption: ");
    let total = format_cents(st.total_cents);
    s.append(total.as_str());
    s.append("\n- Valid days: ");
    let days = u64_to_string(st.valid_days);
    s.append(days.as_str());
    s.append("\n- Average daily consumption: ");
    let avg = format_cents(st.average_cents);
    s.append(avg.as_str());
    s.append("\n- Estimated days remaining: ");
    let est = u64_to_string(st.estimated_days_remaining);
    s.append(est.as_str());
    s.append("\n\n## Trend\n\n");
    if records.len() == 0 {
        s.append("(no data)\n");
    } else {
        match viz {
            TrendVisualizer::Ascii => {
                let chart = render_trend(records);
                s.append(chart.as_str());
            },
            TrendVisualizer::Disabled => {
                s.append("(trend chart disabled)\n");
            },
        }
    }
    s.append("\n## History\n\n");
    let table = render_table(records, mode);
    proof {
        lemma_report_assemble(records@, viz, mode, st, s@, table@);
    }
    let mut out = s;
    out.append(table.as_str());
    out
}

/// The report is its sections joined in order; the table carries its
/// own header, so appending it finishes the text.
proof fn lemma_report_assemble(
    rs: Seq<DerivedDayRecord>,
    viz: TrendVisualizer,
    mode: TableColumn,
    st: Statistics,
    head: Seq<char>,
    table: Seq<char>,
)
    requires
        st == spec_stats(rs),
        head == stats_rep(st) + trend_section(rs, viz) + "\n## History\n\n"@,
        table == table_header(mode) + table_emitted(rs, mode, rs.len() as int),
    ensures
        head + table == report_rep(rs, viz, mode),
{
    assert(head + table =~= report_rep(rs, viz, mode));
}

} // verus!
