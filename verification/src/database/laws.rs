use vstd::prelude::*;

use super::listing::{as_listed, in_range, in_range_of, listed};
use super::schema::{SessionRowView, SessionView};
use super::stats::{
    break_time, break_weight, completed_count, completed_weight, shown_break_weight,
    shown_completed_weight, shown_work_weight, sum_of, work_time, work_weight,
};
use super::store::{ids_ascending_upto, marked_complete, new_session, with_completed};

verus! {

/// Completing the session that was just recorded marks that session, and
/// only it: every earlier session is left as it was.
pub proof fn lemma_complete_marks_only_the_new_session(
    rows: Seq<SessionRowView>,
    last_id: int,
    session_type: Seq<char>,
    started_at: Seq<char>,
    duration_in_secs: i64,
    ended_at: Seq<char>,
)
    requires
        ids_ascending_upto(rows, last_id),
        last_id < i64::MAX,
    ensures
        ({
            let id = last_id + 1;
            let created = new_session(id, session_type, started_at, duration_in_secs);
            with_completed(rows.push(created), id as i64, ended_at) == rows.push(
                SessionRowView { ended_at: Some(ended_at), completed: 1, ..created },
            )
        }),
{
    let id = last_id + 1;
    let created = new_session(id, session_type, started_at, duration_in_secs);
    let done = SessionRowView { ended_at: Some(ended_at), completed: 1, ..created };
    let lhs = with_completed(rows.push(created), id as i64, ended_at);
    assert forall|k: int| 0 <= k < rows.len() implies marked_complete(
        #[trigger] rows[k],
        id as i64,
        ended_at,
    ) == rows[k] by {
        assert(rows[k].id <= last_id);
    }
    assert(lhs =~= rows.push(done));
}

/// A newly recorded row has the given id, kind, start and planned length,
/// no end time, and flag 0.
pub proof fn lemma_created_row_is_open(
    id: int,
    session_type: Seq<char>,
    started_at: Seq<char>,
    duration_in_secs: i64,
)
    requires
        0 < id <= i64::MAX,
    ensures
        ({
            let r = new_session(id, session_type, started_at, duration_in_secs);
            &&& r.id == id
            &&& r.session_type == session_type
            &&& r.started_at == started_at
            &&& r.ended_at is None
            &&& r.duration_in_secs == duration_in_secs
            &&& r.completed == 0
        }),
{
}

/// Completing the session with a given id, wherever it stands in the log,
/// gives it that end time and flag 1 and keeps its other fields; every
/// other row is left exactly as it was, and the log keeps its length.
pub proof fn lemma_complete_marks_exactly_that_id(
    rows: Seq<SessionRowView>,
    id: i64,
    ended_at: Seq<char>,
)
    ensures
        with_completed(rows, id, ended_at).len() == rows.len(),
        forall|k: int|
            0 <= k < rows.len() && (#[trigger] rows[k]).id == id ==> {
                let r = with_completed(rows, id, ended_at)[k];
                &&& r.ended_at == Some(ended_at)
                &&& r.completed == 1
                &&& r.id == rows[k].id
                &&& r.session_type == rows[k].session_type
                &&& r.started_at == rows[k].started_at
                &&& r.duration_in_secs == rows[k].duration_in_secs
            },
        forall|k: int|
            0 <= k < rows.len() && (#[trigger] rows[k]).id != id ==> with_completed(
                rows,
                id,
                ended_at,
            )[k] == rows[k],
{
}

/// Each listed session shows the stored row it comes from, in log order
/// before sorting, with every field unchanged except the flag, which shows
/// as completed exactly when it is non-zero.
pub proof fn lemma_listing_shows_rows_unchanged(
    rows: Seq<SessionRowView>,
    from: Option<Seq<char>>,
    to: Option<Seq<char>>,
)
    ensures
        listed(rows, from, to).len() == in_range_of(rows, from, to).len(),
        forall|k: int|
            0 <= k < listed(rows, from, to).len() ==> {
                let shown = #[trigger] listed(rows, from, to)[k];
                let row = in_range_of(rows, from, to)[k];
                &&& shown.id == row.id
                &&& shown.session_type == row.session_type
                &&& shown.started_at == row.started_at
                &&& shown.ended_at == row.ended_at
                &&& shown.duration_in_secs == row.duration_in_secs
                &&& shown.completed == (row.completed != 0)
            },
{
}

/// Recording a row changes each total by exactly that row's share: one
/// more completed session and its seconds added to work or to breaks when
/// its flag is 1, according to whether its kind is "work"; nothing when its
/// flag is anything else.
pub proof fn lemma_totals_add_up(s: Seq<SessionRowView>, x: SessionRowView)
    ensures
        completed_count(s.push(x)) == completed_count(s) + if x.completed == 1 {
            1int
        } else {
            0int
        },
        work_time(s.push(x)) == work_time(s) + if x.completed == 1 && x.session_type == "work"@ {
            x.duration_in_secs as int
        } else {
            0int
        },
        break_time(s.push(x)) == break_time(s) + if x.completed == 1 && x.session_type
            != "work"@ {
            x.duration_in_secs as int
        } else {
            0int
        },
{
    assert(s.push(x).drop_last() =~= s);
}

/// A stored row is in range exactly when it started at or after `from`
/// and at or before `to` (each only when given), in byte order.
pub proof fn lemma_range_keeps_exactly_rows_within_bounds(
    rows: Seq<SessionRowView>,
    from: Option<Seq<char>>,
    to: Option<Seq<char>>,
    row: SessionRowView,
)
    ensures
        in_range_of(rows, from, to).contains(row) <==> {
            &&& rows.contains(row)
            &&& from matches Some(f) ==> crate::text::text_le(f, row.started_at)
            &&& to matches Some(t) ==> crate::text::text_le(row.started_at, t)
        },
{
    let pred = |s: SessionRowView| in_range(s, from, to);
    let m = rows.filter(pred);
    if m.contains(row) {
        rows.lemma_filter_contains_rev(pred, row);
        let k = choose|k: int| 0 <= k < m.len() && m[k] == row;
        rows.lemma_filter_pred(pred, k);
    }
    if rows.contains(row) && in_range(row, from, to) {
        let k = choose|k: int| 0 <= k < rows.len() && rows[k] == row;
        rows.lemma_filter_contains(pred, k);
    }
}

/// Without bounds, every session is in range.
pub proof fn lemma_unbounded_range_is_everything(rows: Seq<SessionRowView>)
    ensures
        in_range_of(rows, None, None) == rows,
    decreases rows.len(),
{
    reveal(Seq::filter);
    if rows.len() > 0 {
        lemma_unbounded_range_is_everything(rows.drop_last());
        assert(rows =~= rows.drop_last().push(rows.last()));
    }
}

/// Bounding by both ends is bounding by the start and then by the end.
pub proof fn lemma_range_is_both_bounds(rows: Seq<SessionRowView>, from: Seq<char>, to: Seq<char>)
    ensures
        in_range_of(rows, Some(from), Some(to)) == in_range_of(
            in_range_of(rows, Some(from), None),
            None,
            Some(to),
        ),
    decreases rows.len(),
{
    reveal(Seq::filter);
    if rows.len() > 0 {
        let init = rows.drop_last();
        let x = rows.last();
        lemma_range_is_both_bounds(init, from, to);
        assert(rows =~= init.push(x));
        init.lemma_filter_push(x, |s: SessionRowView| in_range(s, Some(from), Some(to)));
        init.lemma_filter_push(x, |s: SessionRowView| in_range(s, Some(from), None));
        let a = in_range_of(init, Some(from), None);
        a.lemma_filter_push(x, |s: SessionRowView| in_range(s, None, Some(to)));
    }
}

proof fn lemma_sum_remove<A>(s: Seq<A>, weight: spec_fn(A) -> int, k: int)
    requires
        0 <= k < s.len(),
    ensures
        sum_of(s, weight) == sum_of(s.remove(k), weight) + weight(s[k]),
    decreases s.len(),
{
    if k == s.len() - 1 {
        assert(s.remove(k) =~= s.drop_last());
    } else {
        lemma_sum_remove(s.drop_last(), weight, k);
        assert(s.remove(k).drop_last() =~= s.drop_last().remove(k));
        assert(s.remove(k).last() == s.last());
    }
}

pub(crate) proof fn lemma_sum_permutation<A>(s: Seq<A>, t: Seq<A>, weight: spec_fn(A) -> int)
    requires
        s.to_multiset() == t.to_multiset(),
    ensures
        sum_of(s, weight) == sum_of(t, weight),
    decreases s.len(),
{
    broadcast use vstd::seq_lib::group_to_multiset_ensures;

    if s.len() == 0 {
        assert(s.to_multiset().len() == 0);
        assert(t.to_multiset().len() == t.len());
    } else {
        let n = s.len() - 1;
        let x = s[n];
        assert(s.contains(x));
        assert(t.to_multiset().count(x) > 0);
        assert(t.contains(x));
        let k = choose|k: int| 0 <= k < t.len() && t[k] == x;
        assert(s.remove(n) =~= s.drop_last());
        assert(s.drop_last().to_multiset() == t.remove(k).to_multiset());
        lemma_sum_permutation(s.drop_last(), t.remove(k), weight);
        lemma_sum_remove(t, weight, k);
    }
}

proof fn lemma_sum_map<A, B>(
    s: Seq<A>,
    f: spec_fn(A) -> B,
    weight: spec_fn(B) -> int,
    direct: spec_fn(A) -> int,
)
    requires
        forall|i: int| 0 <= i < s.len() ==> weight(f(#[trigger] s[i])) == direct(s[i]),
    ensures
        sum_of(s.map_values(f), weight) == sum_of(s, direct),
    decreases s.len(),
{
    if s.len() > 0 {
        assert(s.map_values(f).drop_last() =~= s.drop_last().map_values(f));
        lemma_sum_map(s.drop_last(), f, weight, direct);
        assert(s.map_values(f).last() == f(s.last()));
        assert(weight(f(s[s.len() - 1])) == direct(s[s.len() - 1]));
    }
}

/// No more sessions are completed than there are sessions.
pub proof fn lemma_completed_at_most_total(s: Seq<SessionRowView>)
    ensures
        0 <= completed_count(s) <= s.len(),
    decreases s.len(),
{
    if s.len() > 0 {
        lemma_completed_at_most_total(s.drop_last());
    }
}

/// When every stored flag within the bounds is 0 or 1 (the only flags
/// that `create_session` and `complete_session` write), the totals that
/// `get_stats` reports are the totals over the sessions that
/// `get_sessions` lists for the same bounds, whatever order those come in.
pub proof fn lemma_totals_follow_listing(
    shown: Seq<SessionView>,
    rows: Seq<SessionRowView>,
    from: Option<Seq<char>>,
    to: Option<Seq<char>>,
)
    requires
        shown.to_multiset() == listed(rows, from, to).to_multiset(),
        forall|i: int|
            0 <= i < in_range_of(rows, from, to).len() ==> (#[trigger] in_range_of(
                rows,
                from,
                to,
            )[i]).completed == 0 || in_range_of(rows, from, to)[i].completed == 1,
    ensures
        ({
            let m = in_range_of(rows, from, to);
            &&& shown.len() == m.len()
            &&& sum_of(shown, shown_completed_weight()) == completed_count(m)
            &&& sum_of(shown, shown_work_weight()) == work_time(m)
            &&& sum_of(shown, shown_break_weight()) == break_time(m)
        }),
{
    broadcast use vstd::seq_lib::group_to_multiset_ensures;

    let m = in_range_of(rows, from, to);
    let l = listed(rows, from, to);
    assert(shown.to_multiset().len() == l.to_multiset().len());
    lemma_sum_permutation(shown, l, shown_completed_weight());
    lemma_sum_permutation(shown, l, shown_work_weight());
    lemma_sum_permutation(shown, l, shown_break_weight());
    assert forall|i: int| 0 <= i < m.len() implies {
        &&& shown_completed_weight()(as_listed()(#[trigger] m[i])) == completed_weight()(m[i])
        &&& shown_work_weight()(as_listed()(m[i])) == work_weight()(m[i])
        &&& shown_break_weight()(as_listed()(m[i])) == break_weight()(m[i])
    } by {
        assert(m[i].completed == 0 || m[i].completed == 1);
    }
    lemma_sum_map(m, as_listed(), shown_completed_weight(), completed_weight());
    lemma_sum_map(m, as_listed(), shown_work_weight(), work_weight());
    lemma_sum_map(m, as_listed(), shown_break_weight(), break_weight());
}

} // verus!
