use vstd::prelude::*;

verus! {

/// A session as it is stored: `completed` is the stored flag, 0 while
/// the session is open and 1 once it is completed.
#[derive(Debug, Clone)]
pub struct SessionRow {
    pub id: i64,
    pub session_type: String,
    pub started_at: String,
    pub ended_at: Option<String>,
    pub duration_in_secs: i64,
    pub completed: i64,
}

/// One timed session: what kind it was, when it started and ended, how
/// long it was planned to last and whether it ran to its end.
#[derive(Debug, Clone)]
pub struct Session {
    pub id: i64,
    pub session_type: String,
    pub started_at: String,
    pub ended_at: Option<String>,
    pub duration_in_secs: i64,
    pub completed: bool,
}

/// A session as a value, its text as sequences of characters.
pub struct SessionView {
    pub id: i64,
    pub session_type: Seq<char>,
    pub started_at: Seq<char>,
    pub ended_at: Option<Seq<char>>,
    pub duration_in_secs: i64,
    pub completed: bool,
}

impl View for Session {
    type V = SessionView;

    open spec fn view(&self) -> SessionView {
        SessionView {
            id: self.id,
            session_type: self.session_type@,
            started_at: self.started_at@,
            ended_at: match self.ended_at {
                Some(e) => Some(e@),
                None => None,
            },
            duration_in_secs: self.duration_in_secs,
            completed: self.completed,
        }
    }
}

/// A stored row as a value, its text as sequences of characters.
pub struct SessionRowView {
    pub id: i64,
    pub session_type: Seq<char>,
    pub started_at: Seq<char>,
    pub ended_at: Option<Seq<char>>,
    pub duration_in_secs: i64,
    pub completed: i64,
}

impl View for SessionRow {
    type V = SessionRowView;

    open spec fn view(&self) -> SessionRowView {
        SessionRowView {
            id: self.id,
            session_type: self.session_type@,
            started_at: self.started_at@,
            ended_at: match self.ended_at {
                Some(e) => Some(e@),
                None => None,
            },
            duration_in_secs: self.duration_in_secs,
            completed: self.completed,
        }
    }
}

/// A stored row as the session it shows: any non-zero flag shows as
/// completed; every other field is kept.
pub open spec fn session_of(row: SessionRowView) -> SessionView {
    SessionView {
        id: row.id,
        session_type: row.session_type,
        started_at: row.started_at,
        ended_at: row.ended_at,
        duration_in_secs: row.duration_in_secs,
        completed: row.completed != 0,
    }
}

/// Totals over a set of sessions: how many there were, how many ran to
/// their end, and the seconds of completed work and of completed breaks.
#[derive(Debug, Clone, Copy, PartialEq, Eq, Structural)]
pub struct SessionStats {
    pub total_sessions: i64,
    pub completed_sessions: i64,
    pub total_work_time_in_secs: i64,
    pub total_break_time_in_secs: i64,
}

impl From<SessionRow> for Session {
    /// A stored row as a session: any non-zero `completed` flag means
    /// completed; every other field is kept.
    fn from(row: SessionRow) -> (session: Self) {
        Self {
            id: row.id,
            session_type: row.session_type,
            started_at: row.started_at,
            ended_at: row.ended_at,
            duration_in_secs: row.duration_in_secs,
            completed: row.completed != 0,
        }
    }
}

impl vstd::std_specs::convert::FromSpecImpl<SessionRow> for Session {
    open spec fn obeys_from_spec() -> bool {
        true
    }

    open spec fn from_spec(row: SessionRow) -> Session {
        Session {
            id: row.id,
            session_type: row.session_type,
            started_at: row.started_at,
            ended_at: row.ended_at,
            duration_in_secs: row.duration_in_secs,
            completed: row.completed != 0,
        }
    }
}

/// The session that a stored row shows, leaving the row in place.
pub fn session_of_row(row: &SessionRow) -> (session: Session)
    ensures
        session@ == session_of(row@),
{
    Session {
        id: row.id,
        session_type: row.session_type.clone(),
        started_at: row.started_at.clone(),
        ended_at: match &row.ended_at {
            Some(e) => Some(e.clone()),
            None => None,
        },
        duration_in_secs: row.duration_in_secs,
        completed: row.completed != 0,
    }
}

} // verus!
