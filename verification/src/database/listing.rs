use vstd::prelude::*;

use super::schema::{session_of, session_of_row, Session, SessionRow, SessionRowView, SessionView};
use super::store::{row_views, SessionStore};
use crate::text::{lemma_text_le_total_order, text_le, text_le_exec};

verus! {

/// An optional piece of text as an optional sequence of characters.
pub open spec fn opt_text(o: Option<&str>) -> Option<Seq<char>> {
    match o {
        Some(s) => Some(s@),
        None => None,
    }
}

/// The sessions as values.
pub open spec fn views(sessions: Seq<Session>) -> Seq<SessionView> {
    sessions.map_values(|s: Session| s@)
}

/// How a stored row is shown.
pub open spec fn as_listed() -> spec_fn(SessionRowView) -> SessionView {
    |r: SessionRowView| session_of(r)
}

/// The session started at or after `from` and at or before `to`, each
/// bound compared as text and applying only when given.
pub open spec fn in_range(s: SessionRowView, from: Option<Seq<char>>, to: Option<Seq<char>>) -> bool {
    &&& from matches Some(f) ==> text_le(f, s.started_at)
    &&& to matches Some(t) ==> text_le(s.started_at, t)
}

/// The rows that started within the bounds, in log order.
pub open spec fn in_range_of(
    rows: Seq<SessionRowView>,
    from: Option<Seq<char>>,
    to: Option<Seq<char>>,
) -> Seq<SessionRowView> {
    rows.filter(|s: SessionRowView| in_range(s, from, to))
}

/// The sessions that the rows within the bounds show, in log order.
pub open spec fn listed(
    rows: Seq<SessionRowView>,
    from: Option<Seq<char>>,
    to: Option<Seq<char>>,
) -> Seq<SessionView> {
    in_range_of(rows, from, to).map_values(as_listed())
}

/// Each session started at or after every session that follows it.
pub open spec fn newest_first(s: Seq<SessionView>) -> bool {
    forall|i: int, j: int|
        0 <= i < j < s.len() ==> text_le(#[trigger] s[j].started_at, #[trigger] s[i].started_at)
}

pub(crate) proof fn lemma_insert_to_multiset<A>(s: Seq<A>, j: int, x: A)
    requires
        0 <= j <= s.len(),
    ensures
        s.insert(j, x).to_multiset() == s.to_multiset().insert(x),
{
    broadcast use vstd::seq_lib::group_to_multiset_ensures;
    broadcast use vstd::multiset::group_multiset_axioms;

    let w = s.insert(j, x);
    s.insert_ensures(j, x);
    assert(w.remove(j) =~= s);
    assert(w[j] == x);
    assert(w.to_multiset().count(x) > 0);
    assert(w.to_multiset() =~= s.to_multiset().insert(x));
}

proof fn lemma_insert_keeps_newest_first(o: Seq<SessionView>, j: int, x: SessionView)
    requires
        newest_first(o),
        0 <= j <= o.len(),
        forall|k: int| 0 <= k < j ==> text_le(x.started_at, #[trigger] o[k].started_at),
        j < o.len() ==> !text_le(x.started_at, o[j].started_at),
    ensures
        newest_first(o.insert(j, x)),
{
    let w = o.insert(j, x);
    o.insert_ensures(j, x);
    assert forall|a: int, b: int| 0 <= a < b < w.len() implies text_le(
        #[trigger] w[b].started_at,
        #[trigger] w[a].started_at,
    ) by {
        if b < j {
            assert(w[a] == o[a] && w[b] == o[b]);
        } else if b == j {
            assert(w[a] == o[a]);
        } else if a < j {
            assert(w[a] == o[a] && w[b] == o[b - 1]);
        } else if a == j {
            let y = o[j];
            let z = o[b - 1];
            assert(w[b] == z);
            lemma_text_le_total_order(x.started_at, y.started_at, z.started_at);
            lemma_text_le_total_order(z.started_at, y.started_at, x.started_at);
            if b - 1 > j {
                assert(text_le(z.started_at, y.started_at));
            }
        } else {
            assert(w[a] == o[a - 1] && w[b] == o[b - 1]);
        }
    }
}

/// Whether the row's session started within the bounds.
pub fn in_range_exec(s: &SessionRow, from: Option<&str>, to: Option<&str>) -> (within: bool)
    ensures
        within == in_range(s@, opt_text(from), opt_text(to)),
{
    let after_from = match from {
        Some(f) => text_le_exec(f, s.started_at.as_str()),
        None => true,
    };
    let before_to = match to {
        Some(t) => text_le_exec(s.started_at.as_str(), t),
        None => true,
    };
    after_from && before_to
}

/// The sessions that started within the bounds (each optional, both
/// inclusive, compared as text), newest first, each shown as completed
/// when its stored flag is non-zero. Sessions that started at the same
/// moment come in no promised order.
pub fn get_sessions(store: &SessionStore, from_date: Option<&str>, to_date: Option<&str>) -> (res:
    Result<Vec<Session>, String>)
    ensures
        res matches Ok(list) && {
            &&& views(list@).to_multiset() == listed(
                store@,
                opt_text(from_date),
                opt_text(to_date),
            ).to_multiset()
            &&& newest_first(views(list@))
        },
{
    let rows = store.rows();
    let ghost all = row_views(rows@);
    let ghost from = opt_text(from_date);
    let ghost to = opt_text(to_date);
    let mut out: Vec<Session> = Vec::new();
    let mut i: usize = 0;
    assert(all.take(0).filter(|s: SessionRowView| in_range(s, from, to)) =~= Seq::<
        SessionRowView,
    >::empty()) by {
        reveal(Seq::filter);
    }
    assert(listed(all.take(0), from, to) =~= Seq::<SessionView>::empty());
    assert(views(out@) =~= Seq::<SessionView>::empty());
    while i < rows.len()
        invariant
            i <= rows@.len(),
            all == row_views(rows@),
            all == store@,
            from == opt_text(from_date),
            to == opt_text(to_date),
            views(out@).to_multiset() == listed(all.take(i as int), from, to).to_multiset(),
            newest_first(views(out@)),
        decreases rows@.len() - i,
    {
        let row = &rows[i];
        let ghost prev = in_range_of(all.take(i as int), from, to);
        proof {
            assert(all.take(i + 1) =~= all.take(i as int).push(all[i as int]));
            all.take(i as int).lemma_filter_push(
                all[i as int],
                |s: SessionRowView| in_range(s, from, to),
            );
            assert(all[i as int] == row@);
            assert(in_range_of(all.take(i + 1), from, to) == if in_range(row@, from, to) {
                prev.push(row@)
            } else {
                prev
            });
            assert(prev.push(row@).map_values(as_listed()) =~= prev.map_values(as_listed()).push(
                session_of(row@),
            ));
        }
        if in_range_exec(row, from_date, to_date) {
            let shown = session_of_row(row);
            let mut j: usize = 0;
            while j < out.len() && text_le_exec(shown.started_at.as_str(), out[j].started_at.as_str())
                invariant
                    j <= out@.len(),
                    forall|k: int|
                        0 <= k < j ==> text_le(shown@.started_at, #[trigger] views(out@)[k].started_at),
                decreases out@.len() - j,
            {
                j = j + 1;
            }
            let ghost before = views(out@);
            let ghost x = shown@;
            out.insert(j, shown);
            proof {
                assert(views(out@) =~= before.insert(j as int, x));
                lemma_insert_to_multiset(before, j as int, x);
                lemma_insert_keeps_newest_first(before, j as int, x);
                listed(all.take(i as int), from, to).to_multiset_ensures();
            }
        }
        i = i + 1;
    }
    assert(all.take(rows@.len() as int) =~= all);
    Ok(out)
}

} // verus!
