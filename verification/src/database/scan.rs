//! The order in which the database reads the rows it totals, and whether a
//! running total leaves the `i64` range along the way.
use vstd::prelude::*;

use super::listing::{in_range, in_range_exec, in_range_of, lemma_insert_to_multiset, opt_text};
use super::schema::{SessionRow, SessionRowView};
use super::stats::{break_weight, fits_i64, sum_of, work_weight};
use super::store::{ids_ascending_upto, row_views};
use crate::text::{lemma_text_le_total_order, text_eq, text_le, text_le_exec};

verus! {

/// `a` is read before `b` when reading by start time: the earlier start
/// first, and of two equal starts the smaller id.
pub open spec fn scans_before(a: SessionRowView, b: SessionRowView) -> bool {
    &&& text_le(a.started_at, b.started_at)
    &&& a.started_at == b.started_at ==> a.id < b.id
}

/// The rows come by start time, then by id.
pub open spec fn in_scan_order(s: Seq<SessionRowView>) -> bool {
    forall|i: int, j: int| 0 <= i < j < s.len() ==> scans_before(#[trigger] s[i], #[trigger] s[j])
}

/// The order in which the totals read the rows within the bounds: the log
/// (id) order when no bound is given, start time then id otherwise, the
/// order of the index on the start time.
pub open spec fn scan_order(
    rows: Seq<SessionRowView>,
    from: Option<Seq<char>>,
    to: Option<Seq<char>>,
) -> Seq<SessionRowView> {
    if from is None && to is None {
        in_range_of(rows, from, to)
    } else {
        choose|s: Seq<SessionRowView>|
            in_scan_order(s) && s.to_multiset() == in_range_of(rows, from, to).to_multiset()
    }
}

/// Some running total of `weight`, taken from the first item on, leaves
/// the `i64` range.
pub open spec fn prefix_overflows<A>(s: Seq<A>, weight: spec_fn(A) -> int) -> bool {
    exists|k: int| 0 < k <= s.len() && !fits_i64(#[trigger] sum_of(s.take(k), weight))
}

/// The rows at the given positions of the log.
pub open spec fn picked(all: Seq<SessionRowView>, order: Seq<usize>) -> Seq<SessionRowView> {
    order.map_values(|k: usize| all[k as int])
}

proof fn lemma_scans_before_asymmetric(a: SessionRowView, b: SessionRowView)
    ensures
        !(scans_before(a, b) && scans_before(b, a)),
{
    lemma_text_le_total_order(a.started_at, b.started_at, a.started_at);
}

/// Two sequences in scan order with the same rows are the same sequence.
pub proof fn lemma_scan_order_unique(s: Seq<SessionRowView>, t: Seq<SessionRowView>)
    requires
        in_scan_order(s),
        in_scan_order(t),
        s.to_multiset() == t.to_multiset(),
    ensures
        s == t,
    decreases s.len(),
{
    broadcast use vstd::seq_lib::group_to_multiset_ensures;

    assert(s.to_multiset().len() == t.to_multiset().len());
    if s.len() == 0 {
        assert(s =~= t);
    } else {
        assert(s.contains(s[0]));
        assert(t.to_multiset().count(s[0]) > 0);
        assert(t.contains(s[0]));
        assert(t.contains(t[0]));
        assert(s.to_multiset().count(t[0]) > 0);
        assert(s.contains(t[0]));
        let j = choose|j: int| 0 <= j < t.len() && t[j] == s[0];
        let i = choose|i: int| 0 <= i < s.len() && s[i] == t[0];
        if s[0] != t[0] {
            assert(scans_before(t[0], t[j]));
            assert(scans_before(s[0], s[i]));
            lemma_scans_before_asymmetric(s[0], t[0]);
        }
        assert(s.remove(0) =~= s.drop_first());
        assert(t.remove(0) =~= t.drop_first());
        lemma_scan_order_unique(s.drop_first(), t.drop_first());
        assert(s =~= seq![s[0]] + s.drop_first());
        assert(t =~= seq![t[0]] + t.drop_first());
    }
}

proof fn lemma_insert_keeps_scan_order(o: Seq<SessionRowView>, j: int, x: SessionRowView)
    requires
        in_scan_order(o),
        0 <= j <= o.len(),
        forall|k: int| 0 <= k < o.len() ==> (#[trigger] o[k]).id < x.id,
        forall|k: int| 0 <= k < j ==> text_le((#[trigger] o[k]).started_at, x.started_at),
        j < o.len() ==> !text_le(o[j].started_at, x.started_at),
    ensures
        in_scan_order(o.insert(j, x)),
{
    let w = o.insert(j, x);
    o.insert_ensures(j, x);
    assert forall|a: int, b: int| 0 <= a < b < w.len() implies scans_before(
        #[trigger] w[a],
        #[trigger] w[b],
    ) by {
        if b < j {
            assert(w[a] == o[a] && w[b] == o[b]);
        } else if b == j {
            assert(w[a] == o[a]);
        } else if a < j {
            assert(w[a] == o[a] && w[b] == o[b - 1]);
        } else if a == j {
            let y = o[j];
            let z = o[b - 1];
            assert(w[b] == z);
            lemma_text_le_total_order(x.started_at, y.started_at, z.started_at);
            lemma_text_le_total_order(y.started_at, x.started_at, x.started_at);
            lemma_text_le_total_order(y.started_at, z.started_at, x.started_at);
            if b - 1 > j {
                assert(scans_before(y, z));
            }
        } else {
            assert(w[a] == o[a - 1] && w[b] == o[b - 1]);
        }
    }
}

/// The positions of the rows within the bounds, in log order.
pub fn rows_in_log_order(rows: &Vec<SessionRow>, from_date: Option<&str>, to_date: Option<&str>) -> (order: Vec<usize>)
    ensures
        forall|k: int| 0 <= k < order@.len() ==> order@[k] < rows@.len(),
        picked(row_views(rows@), order@) == in_range_of(
            row_views(rows@),
            opt_text(from_date),
            opt_text(to_date),
        ),
{
    let ghost all = row_views(rows@);
    let ghost from = opt_text(from_date);
    let ghost to = opt_text(to_date);
    let mut order: Vec<usize> = Vec::new();
    let mut i: usize = 0;
    assert(in_range_of(all.take(0), from, to) =~= Seq::<SessionRowView>::empty()) by {
        reveal(Seq::filter);
    }
    assert(picked(all, order@) =~= Seq::<SessionRowView>::empty());
    while i < rows.len()
        invariant
            i <= rows@.len(),
            all == row_views(rows@),
            from == opt_text(from_date),
            to == opt_text(to_date),
            forall|k: int| 0 <= k < order@.len() ==> order@[k] < i,
            picked(all, order@) == in_range_of(all.take(i as int), from, to),
        decreases rows@.len() - i,
    {
        let ghost before = order@;
        proof {
            assert(all.take(i + 1) =~= all.take(i as int).push(all[i as int]));
            all.take(i as int).lemma_filter_push(
                all[i as int],
                |s: SessionRowView| in_range(s, from, to),
            );
        }
        if in_range_exec(&rows[i], from_date, to_date) {
            order.push(i);
            assert(picked(all, order@) =~= picked(all, before).push(all[i as int]));
        }
        i = i + 1;
    }
    assert(all.take(rows@.len() as int) =~= all);
    order
}

/// The positions of the rows within the bounds, by start time and then
/// by id.
pub fn rows_by_start(rows: &Vec<SessionRow>, from_date: Option<&str>, to_date: Option<&str>) -> (order: Vec<usize>)
    requires
        ids_ascending_upto(row_views(rows@), i64::MAX as int),
    ensures
        forall|k: int| 0 <= k < order@.len() ==> order@[k] < rows@.len(),
        in_scan_order(picked(row_views(rows@), order@)),
        picked(row_views(rows@), order@).to_multiset() == in_range_of(
            row_views(rows@),
            opt_text(from_date),
            opt_text(to_date),
        ).to_multiset(),
{
    let ghost all = row_views(rows@);
    let ghost from = opt_text(from_date);
    let ghost to = opt_text(to_date);
    let mut order: Vec<usize> = Vec::new();
    let mut i: usize = 0;
    assert(in_range_of(all.take(0), from, to) =~= Seq::<SessionRowView>::empty()) by {
        reveal(Seq::filter);
    }
    assert(picked(all, order@) =~= Seq::<SessionRowView>::empty());
    while i < rows.len()
        invariant
            i <= rows@.len(),
            all == row_views(rows@),
            ids_ascending_upto(all, i64::MAX as int),
            from == opt_text(from_date),
            to == opt_text(to_date),
            forall|k: int| 0 <= k < order@.len() ==> order@[k] < i,
            in_scan_order(picked(all, order@)),
            picked(all, order@).to_multiset() == in_range_of(all.take(i as int), from, to).to_multiset(),
        decreases rows@.len() - i,
    {
        let row = &rows[i];
        let ghost prev = in_range_of(all.take(i as int), from, to);
        proof {
            assert(all.take(i + 1) =~= all.take(i as int).push(all[i as int]));
            all.take(i as int).lemma_filter_push(
                all[i as int],
                |s: SessionRowView| in_range(s, from, to),
            );
            assert(all[i as int] == row@);
        }
        if in_range_exec(row, from_date, to_date) {
            let mut j: usize = 0;
            while j < order.len() && text_le_exec(
                rows[order[j]].started_at.as_str(),
                row.started_at.as_str(),
            )
                invariant
                    j <= order@.len(),
                    all == row_views(rows@),
                    i < rows@.len(),
                    row@ == all[i as int],
                    forall|k: int| 0 <= k < order@.len() ==> order@[k] < i,
                    forall|k: int|
                        0 <= k < j ==> text_le(
                            (#[trigger] picked(all, order@)[k]).started_at,
                            row@.started_at,
                        ),
                decreases order@.len() - j,
            {
                proof {
                    assert(picked(all, order@)[j as int] == all[order@[j as int] as int]);
                }
                j = j + 1;
            }
            let ghost before = order@;
            let ghost o = picked(all, before);
            proof {
                if j < order@.len() {
                    assert(o[j as int] == all[order@[j as int] as int]);
                }
                assert forall|k: int| 0 <= k < o.len() implies (#[trigger] o[k]).id < all[i as int].id by {
                    assert(o[k] == all[before[k] as int]);
                    assert(all[before[k] as int].id < all[i as int].id);
                }
                lemma_insert_keeps_scan_order(o, j as int, all[i as int]);
                lemma_insert_to_multiset(o, j as int, all[i as int]);
                prev.to_multiset_ensures();
            }
            order.insert(j, i);
            assert(picked(all, order@) =~= o.insert(j as int, all[i as int]));
        }
        i = i + 1;
    }
    assert(all.take(rows@.len() as int) =~= all);
    order
}

/// Whether the running totals of work and of break seconds, over the rows
/// at the given positions in that order, stay within the `i64` range.
pub fn sums_stay_in_range(rows: &Vec<SessionRow>, order: &Vec<usize>) -> (ok: bool)
    requires
        forall|k: int| 0 <= k < order@.len() ==> order@[k] < rows@.len(),
    ensures
        ok == (!prefix_overflows(picked(row_views(rows@), order@), work_weight())
            && !prefix_overflows(picked(row_views(rows@), order@), break_weight())),
{
    let ghost s = picked(row_views(rows@), order@);
    let mut work: i128 = 0;
    let mut rest: i128 = 0;
    let mut k: usize = 0;
    assert(s.take(0) =~= Seq::<SessionRowView>::empty());
    while k < order.len()
        invariant
            k <= order@.len(),
            s == picked(row_views(rows@), order@),
            forall|q: int| 0 <= q < order@.len() ==> order@[q] < rows@.len(),
            work == sum_of(s.take(k as int), work_weight()),
            rest == sum_of(s.take(k as int), break_weight()),
            fits_i64(work as int),
            fits_i64(rest as int),
            forall|q: int| 0 < q <= k ==> fits_i64(#[trigger] sum_of(s.take(q), work_weight())),
            forall|q: int| 0 < q <= k ==> fits_i64(#[trigger] sum_of(s.take(q), break_weight())),
        decreases order@.len() - k,
    {
        let row = &rows[order[k]];
        proof {
            assert(s.take(k + 1).drop_last() =~= s.take(k as int));
            assert(s.take(k + 1).last() == s[k as int]);
            assert(s[k as int] == row_views(rows@)[order@[k as int] as int]);
            assert(s[k as int] == row@);
        }
        if row.completed == 1 {
            let d = row.duration_in_secs as i128;
            if text_eq(row.session_type.as_str(), "work") {
                work = work + d;
            } else {
                rest = rest + d;
            }
        }
        let max = i64::MAX as i128;
        let min = i64::MIN as i128;
        if work > max || work < min || rest > max || rest < min {
            assert(!fits_i64(sum_of(s.take(k + 1), work_weight())) || !fits_i64(
                sum_of(s.take(k + 1), break_weight()),
            ));
            return false;
        }
        assert(fits_i64(sum_of(s.take(k + 1), work_weight())));
        assert(fits_i64(sum_of(s.take(k + 1), break_weight())));
        k = k + 1;
    }
    assert(s.take(order@.len() as int) =~= s);
    true
}

} // verus!
