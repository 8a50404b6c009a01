use vstd::prelude::*;

use super::listing::{in_range, in_range_exec, in_range_of, opt_text};
use super::schema::{SessionRowView, SessionStats, SessionView};
use super::laws::lemma_sum_permutation;
use super::scan::{
    in_scan_order, lemma_scan_order_unique, picked, prefix_overflows, rows_by_start,
    rows_in_log_order, scan_order, sums_stay_in_range,
};
use super::store::{row_views, SessionStore};
use crate::text::text_eq;

verus! {

/// A work session, as opposed to a break of either length.
pub open spec fn is_work(s: SessionRowView) -> bool {
    s.session_type == "work"@
}

/// A stored row whose flag is exactly 1: a completed session, as the
/// totals count it.
pub open spec fn counts_as_completed(s: SessionRowView) -> bool {
    s.completed == 1
}

/// The total of `weight` over the items.
pub open spec fn sum_of<A>(s: Seq<A>, weight: spec_fn(A) -> int) -> int
    decreases s.len(),
{
    if s.len() == 0 {
        0
    } else {
        sum_of(s.drop_last(), weight) + weight(s.last())
    }
}

/// One for a row with flag 1.
pub open spec fn completed_weight() -> spec_fn(SessionRowView) -> int {
    |x: SessionRowView| if counts_as_completed(x) { 1int } else { 0int }
}

/// The planned seconds of a work row with flag 1.
pub open spec fn work_weight() -> spec_fn(SessionRowView) -> int {
    |x: SessionRowView|
        if counts_as_completed(x) && is_work(x) {
            x.duration_in_secs as int
        } else {
            0int
        }
}

/// The planned seconds of a break row with flag 1.
pub open spec fn break_weight() -> spec_fn(SessionRowView) -> int {
    |x: SessionRowView|
        if counts_as_completed(x) && !is_work(x) {
            x.duration_in_secs as int
        } else {
            0int
        }
}

/// One for a listed session shown as completed.
pub open spec fn shown_completed_weight() -> spec_fn(SessionView) -> int {
    |x: SessionView| if x.completed { 1int } else { 0int }
}

/// The planned seconds of a listed work session shown as completed.
pub open spec fn shown_work_weight() -> spec_fn(SessionView) -> int {
    |x: SessionView|
        if x.completed && x.session_type == "work"@ {
            x.duration_in_secs as int
        } else {
            0int
        }
}

/// The planned seconds of a listed break shown as completed.
pub open spec fn shown_break_weight() -> spec_fn(SessionView) -> int {
    |x: SessionView|
        if x.completed && x.session_type != "work"@ {
            x.duration_in_secs as int
        } else {
            0int
        }
}

/// How many of the rows have flag 1.
pub open spec fn completed_count(s: Seq<SessionRowView>) -> int {
    sum_of(s, completed_weight())
}

/// The planned seconds of the work rows with flag 1.
pub open spec fn work_time(s: Seq<SessionRowView>) -> int {
    sum_of(s, work_weight())
}

/// The planned seconds of the break rows, short or long, with flag 1.
pub open spec fn break_time(s: Seq<SessionRowView>) -> int {
    sum_of(s, break_weight())
}

/// The value fits in an `i64`.
pub open spec fn fits_i64(x: int) -> bool {
    i64::MIN <= x <= i64::MAX
}

/// The database can total the rows within the bounds: their number fits
/// in an `i64`, and neither running total of work or of break seconds
/// leaves the `i64` range while the rows are read in scan order.
pub open spec fn totals_fit(
    rows: Seq<SessionRowView>,
    from: Option<Seq<char>>,
    to: Option<Seq<char>>,
) -> bool {
    &&& in_range_of(rows, from, to).len() <= i64::MAX
    &&& !prefix_overflows(scan_order(rows, from, to), work_weight())
    &&& !prefix_overflows(scan_order(rows, from, to), break_weight())
}

const TIME_BOUND: i128 = 0x8000_0000_0000_0000;

/// Totals over the sessions that started within the bounds (each optional,
/// both inclusive, compared as text): how many there were, how many are
/// completed, and the planned seconds of completed work and of completed
/// breaks. A session counts as completed only when its stored flag is
/// exactly 1; others count in neither time. Fails with the database's
/// "integer overflow" error when a running total leaves the `i64` range
/// while the rows are read in scan order (log order without bounds, start
/// time then id with a bound), even if the final total would fit.
pub fn get_stats(store: &SessionStore, from_date: Option<&str>, to_date: Option<&str>) -> (res:
    Result<SessionStats, String>)
    ensures
        ({
            let m = in_range_of(store@, opt_text(from_date), opt_text(to_date));
            &&& res is Ok <==> totals_fit(store@, opt_text(from_date), opt_text(to_date))
            &&& res matches Ok(stats) ==> {
                &&& stats.total_sessions == m.len()
                &&& stats.completed_sessions == completed_count(m)
                &&& stats.total_work_time_in_secs == work_time(m)
                &&& stats.total_break_time_in_secs == break_time(m)
            }
            &&& res matches Err(e) ==> e@ == "error returned from database: (code: 1) integer overflow"@
        }),
{
    let rows = store.rows();
    let ghost all = row_views(rows@);
    let ghost from = opt_text(from_date);
    let ghost to = opt_text(to_date);
    let mut total: i128 = 0;
    let mut completed: i128 = 0;
    let mut work: i128 = 0;
    let mut rest: i128 = 0;
    let mut i: usize = 0;
    assert(in_range_of(all.take(0), from, to) =~= Seq::<SessionRowView>::empty()) by {
        reveal(Seq::filter);
    }
    while i < rows.len()
        invariant
            i <= rows@.len(),
            all == row_views(rows@),
            all == store@,
            from == opt_text(from_date),
            to == opt_text(to_date),
            total == in_range_of(all.take(i as int), from, to).len(),
            completed == completed_count(in_range_of(all.take(i as int), from, to)),
            work == work_time(in_range_of(all.take(i as int), from, to)),
            rest == break_time(in_range_of(all.take(i as int), from, to)),
            0 <= completed <= total <= i,
            -(i as int) * TIME_BOUND <= work <= (i as int) * TIME_BOUND,
            -(i as int) * TIME_BOUND <= rest <= (i as int) * TIME_BOUND,
        decreases rows@.len() - i,
    {
        let row = &rows[i];
        let ghost m = in_range_of(all.take(i as int), from, to);
        proof {
            assert(all.take(i + 1) =~= all.take(i as int).push(all[i as int]));
            all.take(i as int).lemma_filter_push(
                all[i as int],
                |s: SessionRowView| in_range(s, from, to),
            );
            assert(all[i as int] == row@);
            assert(in_range_of(all.take(i + 1), from, to) == if in_range(row@, from, to) {
                m.push(row@)
            } else {
                m
            });
            assert(m.push(row@).drop_last() =~= m);
        }
        if in_range_exec(row, from_date, to_date) {
            total = total + 1;
            if row.completed == 1 {
                completed = completed + 1;
                let d = row.duration_in_secs as i128;
                if text_eq(row.session_type.as_str(), "work") {
                    work = work + d;
                } else {
                    rest = rest + d;
                }
            }
        }
        i = i + 1;
    }
    assert(all.take(rows@.len() as int) =~= all);
    let ghost m = in_range_of(all, from, to);
    let by_start = from_date.is_some() || to_date.is_some();
    let order = if by_start {
        rows_by_start(rows, from_date, to_date)
    } else {
        rows_in_log_order(rows, from_date, to_date)
    };
    proof {
        let s = picked(all, order@);
        if by_start {
            assert(in_scan_order(s) && s.to_multiset() == m.to_multiset());
            let c = scan_order(all, from, to);
            assert(in_scan_order(c) && c.to_multiset() == m.to_multiset());
            lemma_scan_order_unique(c, s);
        }
        assert(s == scan_order(all, from, to));
        assert(s.to_multiset() == m.to_multiset());
    }
    let max = i64::MAX as i128;
    if total > max || !sums_stay_in_range(rows, &order) {
        return Err("error returned from database: (code: 1) integer overflow".to_owned());
    }
    proof {
        let s = picked(all, order@);
        lemma_sum_permutation(s, m, work_weight());
        lemma_sum_permutation(s, m, break_weight());
        assert(s.take(s.len() as int) =~= s);
        if s.len() > 0 {
            assert(fits_i64(sum_of(s.take(s.len() as int), work_weight())));
            assert(fits_i64(sum_of(s.take(s.len() as int), break_weight())));
        }
    }
    Ok(
        SessionStats {
            total_sessions: total as i64,
            completed_sessions: completed as i64,
            total_work_time_in_secs: work as i64,
            total_break_time_in_secs: rest as i64,
        },
    )
}

} // verus!
