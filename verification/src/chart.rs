//! ASCII trend chart over a bounded recent window.
//!
//! The chart plots the daily consumption of the most recent
//! [`TREND_WINDOW`] records (fewer when the history is shorter; a
//! single record is a valid degenerate case). The vertical axis is
//! bounded to the window's `[min, max]` padded by 10%, with a synthetic
//! band when the window is flat, so the axis never has zero height.
//! Points are spread evenly across a fixed-width horizontal axis
//! regardless of actual date spacing: the chart is a rank-order trend
//! indicator, not a time-scaled plot. Only the month-day part of the
//! first and last dates is labeled, to keep the width bounded.

use vstd::prelude::*;

use crate::amount::MAX_CENTS;
use crate::date::format_month_day;
use crate::date::month_day_rep;
use crate::ledger::DerivedDayRecord;
use crate::ledger::records_wf;
use crate::text::repeat_seq;
use crate::text::repeat_str;
use vstd::arithmetic::div_mod::lemma_div_is_ordered;
use vstd::arithmetic::div_mod::lemma_div_multiples_vanish;
use vstd::arithmetic::div_mod::lemma_div_pos_is_pos;

verus! {

/// How many of the most recent records the chart shows.
pub const TREND_WINDOW: usize = 14;

/// Width of the plot area, in characters.
pub const CHART_WIDTH: usize = 40;

/// Height of the plot area, in rows.
pub const CHART_HEIGHT: usize = 8;

/// Smallest daily consumption among the first `n` window records.
pub open spec fn win_min(ws: Seq<DerivedDayRecord>, n: int) -> int
    decreases n,
{
    if n <= 1 {
        ws[0].daily_cents as int
    } else {
        let m = win_min(ws, n - 1);
        if ws[n - 1].daily_cents < m {
            ws[n - 1].daily_cents as int
        } else {
            m
        }
    }
}

/// Largest daily consumption among the first `n` window records.
pub open spec fn win_max(ws: Seq<DerivedDayRecord>, n: int) -> int
    decreases n,
{
    if n <= 1 {
        ws[0].daily_cents as int
    } else {
        let m = win_max(ws, n - 1);
        if ws[n - 1].daily_cents > m {
            ws[n - 1].daily_cents as int
        } else {
            m
        }
    }
}

/// Lower bound of the vertical axis: the window minimum padded down by
/// 10% of the span; a flat window gets a synthetic band of ±20% (at
/// least ±1 cent), or ±1 whole unit when the single value is 0.
pub open spec fn axis_lo(ws: Seq<DerivedDayRecord>) -> int {
    let mn = win_min(ws, ws.len() as int);
    let mx = win_max(ws, ws.len() as int);
    if mx == mn {
        if mn == 0 {
            -100
        } else if mn / 5 >= 1 {
            mn - mn / 5
        } else {
            mn - 1
        }
    } else {
        mn - (mx - mn) / 10
    }
}

/// Upper bound of the vertical axis, padded like [`axis_lo`].
pub open spec fn axis_hi(ws: Seq<DerivedDayRecord>) -> int {
    let mn = win_min(ws, ws.len() as int);
    let mx = win_max(ws, ws.len() as int);
    if mx == mn {
        if mn == 0 {
            100
        } else if mn / 5 >= 1 {
            mn + mn / 5
        } else {
            mn + 1
        }
    } else {
        mx + (mx - mn) / 10
    }
}

/// Chart row (0 is the top) where a value between `lo` and `hi` lands.
pub open spec fn row_in(x: int, lo: int, hi: int) -> int {
    CHART_HEIGHT - 1 - (x - lo) * (CHART_HEIGHT - 1) / (hi - lo)
}

/// Column of point `i` among `n` points spread evenly across the
/// width; a single point sits in the middle.
pub open spec fn col_of(n: int, i: int) -> int {
    if n <= 1 {
        (CHART_WIDTH - 1) / 2
    } else {
        i * (CHART_WIDTH - 1) / (n - 1)
    }
}

/// Cell `(r, c)` of the plot holds a point.
pub open spec fn plotted(ws: Seq<DerivedDayRecord>, r: int, c: int) -> bool {
    exists|i: int|
        0 <= i < ws.len() && col_of(ws.len() as int, i) == c && row_in(
            ws[i].daily_cents as int,
            axis_lo(ws),
            axis_hi(ws),
        ) == r
}

/// One plot row as characters.
pub open spec fn row_rep(ws: Seq<DerivedDayRecord>, r: int) -> Seq<char> {
    Seq::new(
        CHART_WIDTH as nat,
        |c: int|
            if plotted(ws, r, c) {
                '*'
            } else {
                ' '
            },
    )
}

/// The first `r` plot rows, each ended by a newline.
pub open spec fn rows_upto(ws: Seq<DerivedDayRecord>, r: int) -> Seq<char>
    decreases r,
{
    if r <= 0 {
        Seq::empty()
    } else {
        rows_upto(ws, r - 1) + row_rep(ws, r - 1) + seq!['\n']
    }
}

/// The horizontal axis labels: month-day of the first and last window
/// dates at the two ends, or the single date alone.
pub open spec fn label_rep(ws: Seq<DerivedDayRecord>) -> Seq<char> {
    if ws.len() == 1 {
        month_day_rep(ws[0].date)
    } else {
        month_day_rep(ws[0].date) + repeat_seq(seq![' '], (CHART_WIDTH - 10) as nat)
            + month_day_rep(ws[ws.len() - 1].date)
    }
}

/// The whole chart: plot rows, an axis line, and the date labels.
pub open spec fn chart_rep(ws: Seq<DerivedDayRecord>) -> Seq<char> {
    rows_upto(ws, CHART_HEIGHT as int) + repeat_seq(seq!['-'], CHART_WIDTH as nat) + seq!['\n']
        + label_rep(ws) + seq!['\n']
}

/// The records the chart covers: the most recent [`TREND_WINDOW`].
pub open spec fn trend_window(rs: Seq<DerivedDayRecord>) -> Seq<DerivedDayRecord> {
    if rs.len() <= TREND_WINDOW {
        rs
    } else {
        rs.subrange(rs.len() - TREND_WINDOW, rs.len() as int)
    }
}

/// The window extrema bound every window value.
proof fn lemma_win_minmax(ws: Seq<DerivedDayRecord>, n: int, i: int)
    requires
        0 <= i < n <= ws.len(),
    ensures
        win_min(ws, n) <= ws[i].daily_cents <= win_max(ws, n),
        win_min(ws, n) >= 0,
    decreases n,
{
    if n > 1 && i < n - 1 {
        lemma_win_minmax(ws, n - 1, i);
    }
    if n > 1 {
        lemma_win_minmax(ws, n - 1, 0);
    }
}

/// The axis band strictly contains no value outside it, is never
/// degenerate, and stays well inside the machine range.
proof fn lemma_axis_bounds(ws: Seq<DerivedDayRecord>)
    requires
        ws.len() >= 1,
        forall|j: int| 0 <= j < ws.len() ==> (#[trigger] ws[j]).daily_cents < MAX_CENTS,
    ensures
        axis_lo(ws) < axis_hi(ws),
        axis_lo(ws) <= win_min(ws, ws.len() as int),
        win_max(ws, ws.len() as int) <= axis_hi(ws),
        -2000000000000000 < axis_lo(ws),
        axis_hi(ws) < 2000000000000000,
{
    let n = ws.len() as int;
    let mn = win_min(ws, n);
    let mx = win_max(ws, n);
    lemma_win_minmax(ws, n, 0);
    assert(ws[0].daily_cents < MAX_CENTS);
    assert(mx < MAX_CENTS) by {
        lemma_win_max_bounded(ws, n);
    }
    if mx == mn {
        if mn > 0 {
            lemma_div_pos_is_pos(mn, 5);
            lemma_div_is_ordered(mn / 5 * 5, mn, 5);
            assert(mn / 5 <= mn) by {
                lemma_div_is_ordered(mn, mn * 5, 5);
                lemma_div_multiples_vanish(mn, 5);
            }
        }
    } else {
        lemma_div_pos_is_pos(mx - mn, 10);
        assert((mx - mn) / 10 <= mx - mn) by {
            lemma_div_is_ordered(mx - mn, (mx - mn) * 10, 10);
            lemma_div_multiples_vanish(mx - mn, 10);
        }
    }
}

/// Every window value is below the amount bound, so the maximum is.
proof fn lemma_win_max_bounded(ws: Seq<DerivedDayRecord>, n: int)
    requires
        1 <= n <= ws.len(),
        forall|j: int| 0 <= j < ws.len() ==> (#[trigger] ws[j]).daily_cents < MAX_CENTS,
    ensures
        win_max(ws, n) < MAX_CENTS,
    decreases n,
{
    if n > 1 {
        lemma_win_max_bounded(ws, n - 1);
    }
}

/// Maps a value to its chart row.
fn point_row(x: u64, lo: i64, hi: i64) -> (r: usize)
    requires
        -2000000000000000 < (lo as int) < (hi as int) < 2000000000000000,
        lo as int <= x as int <= hi as int,
    ensures
        r as int == row_in(x as int, lo as int, hi as int),
        r < CHART_HEIGHT,
{
    let diff = x as i64 - lo;
    let offset = diff as u64;
    let range = (hi - lo) as u64;
    let level = offset * (CHART_HEIGHT as u64 - 1) / range;
    proof {
        lemma_div_pos_is_pos(offset as int * (CHART_HEIGHT - 1), range as int);
        lemma_div_is_ordered(
            offset as int * (CHART_HEIGHT - 1),
            range as int * (CHART_HEIGHT - 1),
            range as int,
        );
        lemma_div_multiples_vanish(CHART_HEIGHT as int - 1, range as int);
    }
    CHART_HEIGHT - 1 - (level as usize)
}

/// Maps a point index to its chart column.
fn point_col(w: usize, i: usize) -> (c: usize)
    requires
        1 <= w <= TREND_WINDOW,
        i < w,
    ensures
        c as int == col_of(w as int, i as int),
        c < CHART_WIDTH,
{
    if w == 1 {
        (CHART_WIDTH - 1) / 2
    } else {
        let c = i * (CHART_WIDTH - 1) / (w - 1);
        proof {
            lemma_div_pos_is_pos(i as int * (CHART_WIDTH - 1), w as int - 1);
            lemma_div_is_ordered(
                i as int * (CHART_WIDTH - 1),
                (w as int - 1) * (CHART_WIDTH - 1),
                w as int - 1,
            );
            lemma_div_multiples_vanish(CHART_WIDTH as int - 1, w as int - 1);
        }
        c
    }
}

/// The context the row renderer works in: the window is a slice of the
/// records, its values lie inside a sound axis band, and the band is
/// well inside the machine range.
spec fn row_ctx(
    records: Seq<DerivedDayRecord>,
    ws: Seq<DerivedDayRecord>,
    start: int,
    w: int,
    lo: i64,
    hi: i64,
) -> bool {
    &&& 1 <= w <= TREND_WINDOW
    &&& w == ws.len()
    &&& start + w == records.len()
    &&& forall|j: int| 0 <= j < w ==> ws[j] == records[start + j]
    &&& forall|j: int| 0 <= j < ws.len() ==> (#[trigger] ws[j]).daily_cents < MAX_CENTS
    &&& lo as int == axis_lo(ws)
    &&& hi as int == axis_hi(ws)
    &&& -2000000000000000 < (lo as int) < (hi as int) < 2000000000000000
    &&& axis_lo(ws) <= win_min(ws, ws.len() as int)
    &&& win_max(ws, ws.len() as int) <= axis_hi(ws)
}

/// Renders one plot row.
fn render_row(
    records: &Vec<DerivedDayRecord>,
    start: usize,
    w: usize,
    lo: i64,
    hi: i64,
    r: usize,
    Ghost(ws): Ghost<Seq<DerivedDayRecord>>,
) -> (row: String)
    requires
        row_ctx(records@, ws, start as int, w as int, lo, hi),
    ensures
        row@ == row_rep(ws, r as int),
{
    proof {
        reveal_strlit("*");
        reveal_strlit(" ");
    }
    let n = records.len();
    proof {
        assert(start + w == n);
    }
    let ghost row_chars = row_rep(ws, r as int);
    let mut row = String::new();
    let mut c: usize = 0;
    while c < CHART_WIDTH
        invariant
            0 <= c <= CHART_WIDTH,
            start + w == n,
            n == records@.len(),
            row_ctx(records@, ws, start as int, w as int, lo, hi),
            row_chars == row_rep(ws, r as int),
            row@ == row_chars.subrange(0, c as int),
        decreases CHART_WIDTH - c,
    {
        let mut found = false;
        let mut k: usize = 0;
        while k < w
            invariant
                0 <= k <= w,
                start + w == n,
                n == records@.len(),
                row_ctx(records@, ws, start as int, w as int, lo, hi),
                found == exists|q: int|
                    0 <= q < k && col_of(ws.len() as int, q) == c as int && row_in(
                        ws[q].daily_cents as int,
                        axis_lo(ws),
                        axis_hi(ws),
                    ) == r as int,
            decreases w - k,
        {
            proof {
                assert(ws[k as int] == records@[start + k]);
                lemma_win_minmax(ws, ws.len() as int, k as int);
            }
            let cc = point_col(w, k);
            let rr = point_row(records[start + k].daily_cents, lo, hi);
            if cc == c && rr == r {
                found = true;
            }
            k = k + 1;
        }
        proof {
            assert(found == plotted(ws, r as int, c as int));
            assert(row_chars[c as int] == if found {
                '*'
            } else {
                ' '
            });
        }
        if found {
            row.append("*");
            proof {
                reveal_strlit("*");
                assert("*"@ =~= seq![row_chars[c as int]]);
                assert(row@ =~= row_chars.subrange(0, c + 1));
            }
        } else {
            row.append(" ");
            proof {
                reveal_strlit(" ");
                assert(" "@ =~= seq![row_chars[c as int]]);
                assert(row@ =~= row_chars.subrange(0, c + 1));
            }
        }
        c = c + 1;
    }
    proof {
        assert(row_chars.subrange(0, CHART_WIDTH as int) =~= row_chars);
    }
    row
}

/// Computes the vertical axis band of the window.
fn window_axis(
    records: &Vec<DerivedDayRecord>,
    start: usize,
    w: usize,
    Ghost(ws): Ghost<Seq<DerivedDayRecord>>,
) -> (band: (i64, i64))
    requires
        1 <= w <= TREND_WINDOW,
        w == ws.len(),
        start + w == records@.len(),
        forall|j: int| 0 <= j < w ==> ws[j] == records@[start + j],
        forall|j: int| 0 <= j < ws.len() ==> (#[trigger] ws[j]).daily_cents < MAX_CENTS,
    ensures
        row_ctx(records@, ws, start as int, w as int, band.0, band.1),
{
    proof {
        lemma_axis_bounds(ws);
    }
    let n = records.len();
    proof {
        assert(start + w == n);
    }
    let mut mn = records[start].daily_cents;
    let mut mx = mn;
    let mut i: usize = 1;
    while i < w
        invariant
            1 <= i <= w,
            w == ws.len(),
            start + w == n,
            n == records@.len(),
            forall|j: int| 0 <= j < w ==> ws[j] == records@[start + j],
            mn as int == win_min(ws, i as int),
            mx as int == win_max(ws, i as int),
        decreases w - i,
    {
        let v = records[start + i].daily_cents;
        proof {
            assert(ws[i as int] == records@[start + i]);
        }
        if v < mn {
            mn = v;
        }
        if v > mx {
            mx = v;
        }
        i = i + 1;
    }
    proof {
        lemma_win_minmax(ws, ws.len() as int, 0);
        lemma_win_max_bounded(ws, ws.len() as int);
    }
    let lo: i64;
    let hi: i64;
    if mx == mn {
        if mn == 0 {
            lo = -100;
            hi = 100;
        } else {
            let mut pad = mn / 5;
            if pad == 0 {
                pad = 1;
            }
            lo = (mn - pad) as i64;
            hi = (mn + pad) as i64;
        }
    } else {
        let pad = (mx - mn) / 10;
        lo = mn as i64 - pad as i64;
        hi = mx as i64 + pad as i64;
    }
    proof {
        assert(lo as int == axis_lo(ws));
        assert(hi as int == axis_hi(ws));
    }
    (lo, hi)
}

/// Renders the axis line and the date labels under the plot.
fn render_tail(
    records: &Vec<DerivedDayRecord>,
    start: usize,
    w: usize,
    Ghost(ws): Ghost<Seq<DerivedDayRecord>>,
) -> (t: String)
    requires
        1 <= w,
        w == ws.len(),
        start + w == records@.len(),
        forall|j: int| 0 <= j < w ==> ws[j] == records@[start + j],
        forall|j: int| 0 <= j < ws.len() ==> (#[trigger] ws[j]).date.valid(),
    ensures
        t@ == repeat_seq(seq!['-'], CHART_WIDTH as nat) + seq!['\n'] + label_rep(ws) + seq!['\n'],
{
    proof {
        reveal_strlit("-");
        reveal_strlit("\n");
        reveal_strlit(" ");
        assert("-"@ =~= seq!['-']);
        assert("\n"@ =~= seq!['\n']);
        assert(" "@ =~= seq![' ']);
    }
    let n = records.len();
    let mut t = repeat_str("-", CHART_WIDTH);
    t.append("\n");
    proof {
        assert(ws[0] == records@[start as int]);
        assert(records@[start as int].date.valid());
        assert(repeat_seq("-"@, CHART_WIDTH as nat) == repeat_seq(seq!['-'], CHART_WIDTH as nat));
    }
    let mut lbl = format_month_day(&records[start].date);
    if w > 1 {
        let gap = repeat_str(" ", CHART_WIDTH - 10);
        lbl.append(gap.as_str());
        proof {
            assert(ws[w - 1] == records@[n - 1]);
            assert(records@[n - 1].date.valid());
            assert(repeat_seq(" "@, (CHART_WIDTH - 10) as nat) == repeat_seq(
                seq![' '],
                (CHART_WIDTH - 10) as nat,
            ));
        }
        let last = format_month_day(&records[n - 1].date);
        lbl.append(last.as_str());
    }
    proof {
        assert(lbl@ == label_rep(ws));
    }
    t.append(lbl.as_str());
    t.append("\n");
    proof {
        assert(t@ =~= repeat_seq(seq!['-'], CHART_WIDTH as nat) + seq!['\n'] + label_rep(ws)
            + seq!['\n']);
    }
    t
}

/// Renders the trend chart of the most recent records.
pub fn render_trend(records: &Vec<DerivedDayRecord>) -> (s: String)
    requires
        records_wf(records@),
        records@.len() >= 1,
    ensures
        s@ == chart_rep(trend_window(records@)),
{
    let n = records.len();
    let w: usize = if n > TREND_WINDOW {
        TREND_WINDOW
    } else {
        n
    };
    let start = n - w;
    let ghost ws = trend_window(records@);
    proof {
        assert(ws =~= records@.subrange(start as int, n as int));
        assert(ws.len() == w);
        assert forall|j: int| 0 <= j < w implies (#[trigger] ws[j]).daily_cents < MAX_CENTS
            && (#[trigger] ws[j]).date.valid() by {
            assert(ws[j] == records@[start + j]);
        }
    }
    let (lo, hi) = window_axis(records, start, w, Ghost(ws));
    let mut s = String::new();
    let mut r: usize = 0;
    while r < CHART_HEIGHT
        invariant
            0 <= r <= CHART_HEIGHT,
            w == ws.len(),
            start + w == n,
            n == records@.len(),
            row_ctx(records@, ws, start as int, w as int, lo, hi),
            s@ == rows_upto(ws, r as int),
        decreases CHART_HEIGHT - r,
    {
        let row = render_row(records, start, w, lo, hi, r, Ghost(ws));
        s.append(row.as_str());
        s.append("\n");
        proof {
            reveal_strlit("\n");
            assert("\n"@ =~= seq!['\n']);
            assert(s@ == rows_upto(ws, r + 1));
        }
        r = r + 1;
    }
    let tail = render_tail(records, start, w, Ghost(ws));
    s.append(tail.as_str());
    proof {
        lemma_chart_assemble(ws, rows_upto(ws, CHART_HEIGHT as int), tail@);
    }
    s
}

/// Joining the plot rows and the tail piecewise builds the whole chart.
proof fn lemma_chart_assemble(ws: Seq<DerivedDayRecord>, rows: Seq<char>, t: Seq<char>)
    requires
        rows == rows_upto(ws, CHART_HEIGHT as int),
        t == repeat_seq(seq!['-'], CHART_WIDTH as nat) + seq!['\n'] + label_rep(ws) + seq!['\n'],
    ensures
        rows + t == chart_rep(ws),
{
    assert(rows + t =~= chart_rep(ws));
}

} // verus!
