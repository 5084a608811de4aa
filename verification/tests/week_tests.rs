use timetrack::checkpoint::Checkpoint;
use timetrack::time::{Timestamp, MAX_SECS};
use timetrack::week::{all_wf, is_ascending, Week, Weekday};

fn at(hours: u64, minutes: u64) -> Checkpoint {
    Checkpoint::at_time(Timestamp { secs: hours * 3600 + minutes * 60 })
}

fn day(times: &[(u64, u64)]) -> Vec<Checkpoint> {
    times.iter().map(|&(h, m)| at(h, m)).collect()
}

#[test]
fn a_new_week_is_empty_and_points_at_monday() {
    let week = Week::new();
    assert!(week.mon.is_empty());
    assert!(week.tue.is_empty());
    assert!(week.wed.is_empty());
    assert!(week.thu.is_empty());
    assert!(week.fri.is_empty());
    assert!(week.unregistered_checkpoints.is_empty());
    assert_eq!(week.selected_weekday, Weekday::Mon);
    assert_eq!(week.selected_checkpoint_idx, 0);
    assert!(week.selected_checkpoint().is_none());
    assert!(week.next_checkpoint().is_none());
}

#[test]
fn the_default_week_is_the_new_week() {
    let week = Week::default();
    assert!(week.mon.is_empty() && week.fri.is_empty());
    assert_eq!(week.selected_weekday, Weekday::Mon);
    assert_eq!(week.selected_checkpoint_idx, 0);
}

#[test]
fn weekday_validation_rejects_the_weekend() {
    assert_eq!(Weekday::from_index(0), Some(Weekday::Mon));
    assert_eq!(Weekday::from_index(4), Some(Weekday::Fri));
    assert_eq!(Weekday::from_index(5), None);
    assert_eq!(Weekday::from_index(6), None);
    assert_eq!(Weekday::from_index(7), None);
}

#[test]
fn appending_lands_on_the_active_day() {
    let mut week = Week::new();
    week.select_next_day();
    assert_eq!(week.selected_weekday, Weekday::Tue);
    week.append_checkpoint(at(9, 0));
    week.append_checkpoint(at(10, 0));
    assert_eq!(week.tue.len(), 2);
    assert!(week.mon.is_empty());
    assert_eq!(week.active_day().len(), 2);
}

#[test]
fn the_cursor_never_selects_the_final_checkpoint() {
    let mut week = Week::new();
    for h in 9..12u64 {
        week.append_checkpoint(at(h, 0));
    }
    // Three checkpoints: the cursor may move from zero to one, and stops
    // there, leaving the open boundary unselected.
    week.select_next_checkpoint();
    assert_eq!(week.selected_checkpoint_idx, 1);
    week.select_next_checkpoint();
    assert_eq!(week.selected_checkpoint_idx, 1);
    week.select_prev_checkpoint();
    assert_eq!(week.selected_checkpoint_idx, 0);
    week.select_prev_checkpoint();
    assert_eq!(week.selected_checkpoint_idx, 0);
}

#[test]
fn cycling_from_friday_clamps_into_monday() {
    // From Friday the next day is Monday; Monday has two entries and the
    // stale index three clamps to the next-to-last position, zero.
    let mut week = Week::new();
    week.mon = day(&[(9, 0), (10, 0)]);
    week.selected_weekday = Weekday::Fri;
    week.fri = day(&[(8, 0), (9, 0), (10, 0), (11, 0), (12, 0)]);
    week.selected_checkpoint_idx = 3;
    week.select_next_day();
    assert_eq!(week.selected_weekday, Weekday::Mon);
    assert_eq!(week.selected_checkpoint_idx, 0);
}

#[test]
fn switching_to_an_empty_day_parks_the_cursor_at_zero() {
    let mut week = Week::new();
    week.mon = day(&[(9, 0), (10, 0), (11, 0)]);
    week.selected_checkpoint_idx = 1;
    week.select_next_day();
    assert_eq!(week.selected_weekday, Weekday::Tue);
    assert_eq!(week.selected_checkpoint_idx, 0);
    // Coming back, zero is a valid position in Monday's list and stays.
    week.select_prev_day();
    assert_eq!(week.selected_weekday, Weekday::Mon);
    assert_eq!(week.selected_checkpoint_idx, 0);
}

#[test]
fn deleting_the_sole_checkpoint_empties_the_day() {
    let mut week = Week::new();
    week.append_checkpoint(at(9, 0));
    let removed = week.delete_checkpoint().expect("the sole checkpoint is removed");
    assert_eq!(removed.time.secs, 9 * 3600);
    assert!(week.mon.is_empty());
    assert_eq!(week.selected_checkpoint_idx, 0);
    assert!(week.selected_checkpoint().is_none());
}

#[test]
fn deleting_removes_the_successor_of_the_selection() {
    let mut week = Week::new();
    for h in 9..12u64 {
        week.append_checkpoint(at(h, 0));
    }
    let removed = week.delete_checkpoint().expect("the successor is removed");
    assert_eq!(removed.time.secs, 10 * 3600);
    assert_eq!(week.mon.len(), 2);
    assert_eq!(week.mon[0].time.secs, 9 * 3600);
    assert_eq!(week.mon[1].time.secs, 11 * 3600);
}

#[test]
fn deleting_with_nothing_selected_changes_nothing() {
    let mut week = Week::new();
    assert!(week.delete_checkpoint().is_none());
    week.append_checkpoint(at(9, 0));
    week.append_checkpoint(at(10, 0));
    week.selected_checkpoint_idx = 1;
    assert!(week.delete_checkpoint().is_none());
    assert_eq!(week.mon.len(), 2);
}

#[test]
fn splitting_inserts_the_midpoint_in_order() {
    let mut week = Week::new();
    week.append_checkpoint(at(9, 0));
    week.append_checkpoint(at(9, 30));
    let inserted = week.split_checkpoint().expect("a positive interval splits");
    assert_eq!(inserted.time.secs, 9 * 3600 + 15 * 60);
    assert!(inserted.id.is_none());
    assert_eq!(week.mon.len(), 3);
    assert_eq!(week.mon[1].time.secs, inserted.time.secs);
    assert!(is_ascending(&week.mon));
}

#[test]
fn splitting_an_empty_interval_is_a_no_op() {
    let mut week = Week::new();
    week.append_checkpoint(at(9, 0));
    week.append_checkpoint(at(9, 0));
    assert!(week.split_checkpoint().is_none());
    assert_eq!(week.mon.len(), 2);
    let mut lone = Week::new();
    lone.append_checkpoint(at(9, 0));
    assert!(lone.split_checkpoint().is_none());
}

#[test]
fn shifting_moves_by_one_quantum() {
    let mut week = Week::new();
    week.append_checkpoint(at(9, 0));
    week.append_checkpoint(at(10, 0));
    let moved = week.shift_selected_later().expect("room to move later");
    assert_eq!(moved.time.secs, 9 * 3600 + 900);
    assert_eq!(week.mon[0].time.secs, 9 * 3600 + 900);
    let back = week.shift_selected_earlier().expect("room to move earlier");
    assert_eq!(back.time.secs, 9 * 3600);
    let next = week.shift_next_later().expect("the successor moves");
    assert_eq!(next.time.secs, 10 * 3600 + 900);
    assert_eq!(week.mon[1].time.secs, 10 * 3600 + 900);
}

#[test]
fn shifting_out_of_range_is_dropped() {
    let mut week = Week::new();
    week.append_checkpoint(Checkpoint::at_time(Timestamp { secs: 600 }));
    // Ten minutes past the epoch cannot move a quantum earlier.
    assert!(week.shift_selected_earlier().is_none());
    assert_eq!(week.mon[0].time.secs, 600);
    let mut late = Week::new();
    late.append_checkpoint(Checkpoint::at_time(Timestamp { secs: MAX_SECS }));
    assert!(late.shift_selected_later().is_none());
    assert_eq!(late.mon[0].time.secs, MAX_SECS);
    // No selection at all: both directions refuse.
    let mut empty = Week::new();
    assert!(empty.shift_selected_later().is_none());
    assert!(empty.shift_next_earlier().is_none());
}

#[test]
fn toggling_registered_flips_the_flag() {
    let mut week = Week::new();
    week.append_checkpoint(at(9, 0));
    assert!(!week.mon[0].registered);
    let updated = week.toggle_registered().expect("a selection exists");
    assert!(updated.registered);
    assert!(week.mon[0].registered);
    let again = week.toggle_registered().expect("a selection exists");
    assert!(!again.registered);
    assert!(!week.mon[0].registered);
}

#[test]
fn assigning_the_same_project_clears_it() {
    let mut week = Week::new();
    week.append_checkpoint(at(9, 0));
    let set = week.assign_project("alpha".to_string()).expect("a selection exists");
    assert_eq!(set.project.as_deref(), Some("alpha"));
    assert_eq!(week.mon[0].project.as_deref(), Some("alpha"));
    let swapped = week.assign_project("beta".to_string()).expect("a selection exists");
    assert_eq!(swapped.project.as_deref(), Some("beta"));
    let cleared = week.assign_project("beta".to_string()).expect("a selection exists");
    assert!(cleared.project.is_none());
    assert!(week.mon[0].project.is_none());
}

#[test]
fn annotating_sets_the_message() {
    let mut week = Week::new();
    week.append_checkpoint(at(9, 0));
    let updated = week.annotate("standup".to_string()).expect("a selection exists");
    assert_eq!(updated.message.as_deref(), Some("standup"));
    assert_eq!(week.mon[0].message.as_deref(), Some("standup"));
    let mut empty = Week::new();
    assert!(empty.annotate("ignored".to_string()).is_none());
}

#[test]
fn reload_rebuilds_the_unregistered_view_and_cursor() {
    let mut week = Week::new();
    week.selected_weekday = Weekday::Wed;
    week.selected_checkpoint_idx = 0;
    let mut mon = day(&[(9, 0), (10, 0), (11, 0)]);
    mon[1].registered = true;
    // The last checkpoint stays out of the view even though it is
    // unregistered: its interval is still open.
    let tue = day(&[(14, 0)]);
    week.reload(mon, tue, vec![], vec![], vec![]);
    assert_eq!(week.selected_weekday, Weekday::Mon);
    assert_eq!(week.selected_checkpoint_idx, 0);
    assert_eq!(week.unregistered_checkpoints.len(), 1);
    let entry = &week.unregistered_checkpoints[0];
    assert_eq!(entry.checkpoint.time.secs, 9 * 3600);
    assert_eq!(entry.minutes, 60);
}

#[test]
fn reload_with_everything_registered_leaves_the_view_empty() {
    let mut week = Week::new();
    let mut mon = day(&[(9, 0), (10, 0)]);
    mon[0].registered = true;
    week.reload(mon, vec![], vec![], vec![], vec![]);
    assert!(week.unregistered_checkpoints.is_empty());
}

#[test]
fn ascending_and_wellformedness_checks() {
    assert!(is_ascending(&day(&[(9, 0), (9, 0), (10, 0)])));
    assert!(!is_ascending(&day(&[(10, 0), (9, 0)])));
    assert!(is_ascending(&vec![]));
    assert!(all_wf(&day(&[(9, 0)])));
    assert!(!all_wf(&vec![Checkpoint::at_time(Timestamp { secs: MAX_SECS + 1 })]));
}

#[test]
fn selection_accessors_track_the_cursor() {
    let mut week = Week::new();
    week.append_checkpoint(at(9, 0));
    week.append_checkpoint(at(10, 0));
    let selected = week.selected_checkpoint().expect("position zero exists");
    assert_eq!(selected.time.secs, 9 * 3600);
    let next = week.next_checkpoint().expect("a successor exists");
    assert_eq!(next.time.secs, 10 * 3600);
    week.selected_checkpoint_idx = 1;
    assert!(week.next_checkpoint().is_none());
}
