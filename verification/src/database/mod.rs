mod laws;
mod listing;
mod scan;
mod schema;
mod stats;
mod store;

pub use laws::{
    lemma_complete_marks_exactly_that_id, lemma_created_row_is_open, lemma_complete_marks_only_the_new_session,
    lemma_listing_shows_rows_unchanged, lemma_totals_add_up, lemma_completed_at_most_total,
    lemma_range_is_both_bounds, lemma_range_keeps_exactly_rows_within_bounds, lemma_unbounded_range_is_everything,
    lemma_totals_follow_listing,
};
pub use listing::{
    as_listed, get_sessions, in_range, in_range_exec, in_range_of, listed, newest_first, opt_text,
    views,
};
pub use scan::{
    in_scan_order, lemma_scan_order_unique, picked, prefix_overflows, rows_by_start,
    rows_in_log_order, scan_order, scans_before, sums_stay_in_range,
};
pub use schema::{session_of, Session, SessionRow, SessionRowView, SessionStats, SessionView};
pub use stats::{
    break_time, break_weight, completed_count, completed_weight, counts_as_completed, fits_i64,
    get_stats, is_work, shown_break_weight, shown_completed_weight, shown_work_weight, sum_of,
    totals_fit, work_time, work_weight,
};
pub use store::{
    complete_session, create_session, ids_ascending_upto, marked_complete, new_session, row_views,
    with_completed, SessionStore,
};
