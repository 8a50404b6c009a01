use vstd::prelude::*;

use super::schema::{SessionRow, SessionRowView};

verus! {

/// The stored rows as values.
pub open spec fn row_views(rows: Seq<SessionRow>) -> Seq<SessionRowView> {
    rows.map_values(|r: SessionRow| r@)
}

/// Session ids are positive, at most `last_id`, and ascend in the order
/// in which the sessions were recorded.
pub open spec fn ids_ascending_upto(rows: Seq<SessionRowView>, last_id: int) -> bool {
    &&& 0 <= last_id
    &&& forall|i: int| 0 <= i < rows.len() ==> 1 <= #[trigger] rows[i].id <= last_id
    &&& forall|i: int, j: int|
        0 <= i < j < rows.len() ==> #[trigger] rows[i].id < #[trigger] rows[j].id
}

/// A row as `create_session` records it: not yet ended, flag 0.
pub open spec fn new_session(
    id: int,
    session_type: Seq<char>,
    started_at: Seq<char>,
    duration_in_secs: i64,
) -> SessionRowView {
    SessionRowView {
        id: id as i64,
        session_type,
        started_at,
        ended_at: None,
        duration_in_secs,
        completed: 0,
    }
}

/// The log of stored session rows, in the order they were recorded. Each new session
/// gets the id after the largest one ever handed out, starting from 1.
pub struct SessionStore {
    rows: Vec<SessionRow>,
    last_id: i64,
}

impl View for SessionStore {
    type V = Seq<SessionRowView>;

    closed spec fn view(&self) -> Seq<SessionRowView> {
        row_views(self.rows@)
    }
}

impl SessionStore {
    #[verifier::type_invariant]
    spec fn ids_ascending(self) -> bool {
        ids_ascending_upto(row_views(self.rows@), self.last_id as int)
    }

    /// The largest id handed out so far (0 when none was).
    pub closed spec fn last_id(&self) -> int {
        self.last_id as int
    }

    /// The stored rows in log order.
    pub fn rows(&self) -> (rows: &Vec<SessionRow>)
        ensures
            row_views(rows@) == self@,
            ids_ascending_upto(self@, self.last_id()),
            self.last_id() <= i64::MAX,
    {
        proof {
            use_type_invariant(self);
        }
        &self.rows
    }

    /// An empty log.
    pub fn new() -> (store: Self)
        ensures
            store@ == Seq::<SessionRowView>::empty(),
            store.last_id() == 0,
            ids_ascending_upto(store@, store.last_id()),
    {
        let store = SessionStore { rows: Vec::new(), last_id: 0 };
        assert(row_views(store.rows@) =~= Seq::<SessionRowView>::empty());
        store
    }

    /// A log holding `rows`, in that order, that has handed out ids up to
    /// `last_id`; `None` unless the ids are positive, at most `last_id` and
    /// ascending.
    pub fn restore(rows: Vec<SessionRow>, last_id: i64) -> (store: Option<Self>)
        ensures
            store is Some <==> ids_ascending_upto(row_views(rows@), last_id as int),
            store matches Some(s) ==> s@ == row_views(rows@) && s.last_id() == last_id,
    {
        if last_id < 0 {
            return None;
        }
        let mut i: usize = 0;
        while i < rows.len()
            invariant
                0 <= last_id,
                i <= rows@.len(),
                ids_ascending_upto(row_views(rows@.take(i as int)), last_id as int),
            decreases rows@.len() - i,
        {
            let id = rows[i].id;
            if id < 1 || id > last_id {
                assert(row_views(rows@)[i as int].id == id);
                return None;
            }
            if i > 0 && rows[i - 1].id >= id {
                assert(row_views(rows@)[i - 1].id >= row_views(rows@)[i as int].id);
                return None;
            }
            proof {
                let prev = row_views(rows@.take(i as int));
                let next = row_views(rows@.take(i + 1));
                assert(next =~= prev.push(rows@[i as int]@));
                assert forall|a: int, b: int| 0 <= a < b < next.len() implies #[trigger] next[a].id
                    < #[trigger] next[b].id by {
                    if b < i {
                        assert(prev[a].id < prev[b].id);
                    } else if a < i - 1 {
                        assert(prev[a].id < prev[i - 1].id);
                    }
                }
            }
            i = i + 1;
        }
        assert(rows@.take(rows@.len() as int) =~= rows@);
        Some(SessionStore { rows, last_id })
    }
}

/// Records a new session that is not yet ended and returns its id, one
/// more than the largest id handed out so far. Fails, changing nothing,
/// when that largest id is already `i64::MAX`.
pub fn create_session(
    store: &mut SessionStore,
    session_type: &str,
    started_at: &str,
    duration_in_secs: i64,
) -> (res: Result<i64, String>)
    ensures
        res is Err <==> old(store).last_id() == i64::MAX,
        res matches Ok(id) ==> {
            &&& id == old(store).last_id() + 1
            &&& final(store).last_id() == id
            &&& final(store)@ == old(store)@.push(
                new_session(id as int, session_type@, started_at@, duration_in_secs),
            )
        },
        res matches Err(e) ==> {
            &&& final(store)@ == old(store)@
            &&& final(store).last_id() == old(store).last_id()
            &&& e@ == "error returned from database: (code: 13) database or disk is full"@
        },
        ids_ascending_upto(final(store)@, final(store).last_id()),
{
    proof {
        use_type_invariant(&*store);
    }
    if store.last_id == i64::MAX {
        return Err("error returned from database: (code: 13) database or disk is full".to_owned());
    }
    let id = store.last_id + 1;
    let session = SessionRow {
        id,
        session_type: session_type.to_owned(),
        started_at: started_at.to_owned(),
        ended_at: None,
        duration_in_secs,
        completed: 0,
    };
    let mut taken = SessionStore::new();
    std::mem::swap(&mut taken, store);
    let SessionStore { mut rows, last_id: _ } = taken;
    let ghost before = row_views(rows@);
    rows.push(session);
    proof {
        assert(row_views(rows@) =~= before.push(
            new_session(id as int, session_type@, started_at@, duration_in_secs),
        ));
    }
    *store = SessionStore { rows, last_id: id };
    Ok(id)
}

/// The row as `complete_session(id, ended_at)` leaves it: flag 1 and
/// that end time if it has that id, unchanged otherwise.
pub open spec fn marked_complete(s: SessionRowView, id: i64, ended_at: Seq<char>) -> SessionRowView {
    if s.id == id {
        SessionRowView { ended_at: Some(ended_at), completed: 1, ..s }
    } else {
        s
    }
}

/// The log after `complete_session(id, ended_at)`.
pub open spec fn with_completed(rows: Seq<SessionRowView>, id: i64, ended_at: Seq<char>) -> Seq<
    SessionRowView,
> {
    rows.map_values(|s: SessionRowView| marked_complete(s, id, ended_at))
}

/// Marks the session with the given id as completed (flag 1), ending at
/// `ended_at`; every other session is left as it was, and an id that no
/// session has changes nothing.
pub fn complete_session(store: &mut SessionStore, id: i64, ended_at: &str) -> (res: Result<
    (),
    String,
>)
    ensures
        res is Ok,
        final(store)@ == with_completed(old(store)@, id, ended_at@),
        final(store).last_id() == old(store).last_id(),
        ids_ascending_upto(final(store)@, final(store).last_id()),
{
    proof {
        use_type_invariant(&*store);
    }
    let mut taken = SessionStore::new();
    std::mem::swap(&mut taken, store);
    proof {
        use_type_invariant(&taken);
    }
    let SessionStore { mut rows, last_id } = taken;
    let ghost before = row_views(rows@);
    assert(ids_ascending_upto(before, last_id as int));
    let mut i: usize = 0;
    while i < rows.len()
        invariant
            i <= rows@.len(),
            row_views(rows@) == before,
            ids_ascending_upto(before, last_id as int),
            forall|k: int| 0 <= k < i ==> #[trigger] rows@[k].id != id,
        ensures
            i < rows@.len() ==> rows@[i as int].id == id,
        decreases rows@.len() - i,
    {
        if rows[i].id == id {
            break;
        }
        i = i + 1;
    }
    if i < rows.len() {
        let found = &rows[i];
        let updated = SessionRow {
            id: found.id,
            session_type: found.session_type.clone(),
            started_at: found.started_at.clone(),
            ended_at: Some(ended_at.to_owned()),
            duration_in_secs: found.duration_in_secs,
            completed: 1,
        };
        rows.set(i, updated);
        proof {
            assert forall|k: int| 0 <= k < before.len() && k != i implies before[k].id != id by {
                if k < i {
                } else {
                    assert(before[i as int].id < before[k].id);
                }
            }
            assert(row_views(rows@) =~= with_completed(before, id, ended_at@));
        }
    } else {
        assert(row_views(rows@) =~= with_completed(before, id, ended_at@));
    }
    *store = SessionStore { rows, last_id };
    Ok(())
}

} // verus!
