use timetrack::checkpoint::Checkpoint;
use timetrack::time::{
    count_fifteen_minute_intervals, duration_minutes, format_u32, human_duration,
    round_to_nearest_fifteen_minutes, time_spans, TimeSpan, Timestamp, MAX_SECS, UNIT,
};

fn ts(secs: u64) -> Timestamp {
    Timestamp { secs }
}

fn at(hours: u64, minutes: u64) -> Timestamp {
    Timestamp { secs: hours * 3600 + minutes * 60 }
}

fn checkpoint_at(t: Timestamp) -> Checkpoint {
    Checkpoint::at_time(t)
}

#[test]
fn unit_is_fifteen_minutes() {
    assert_eq!(UNIT, 15);
    assert_eq!(TimeSpan::default().units, 0);
}

#[test]
fn human_duration_formats() {
    assert_eq!(human_duration(0), "0m");
    assert_eq!(human_duration(60), "1h");
    assert_eq!(human_duration(90), "1h30m");
    assert_eq!(human_duration(45), "45m");
    assert_eq!(human_duration(120), "2h");
    assert_eq!(human_duration(61), "1h1m");
    assert_eq!(human_duration(59), "59m");
    assert_eq!(human_duration(600), "10h");
}

#[test]
fn format_u32_writes_decimal() {
    assert_eq!(format_u32(0), "0");
    assert_eq!(format_u32(7), "7");
    assert_eq!(format_u32(10), "10");
    assert_eq!(format_u32(1234567890), "1234567890");
}

#[test]
fn rounding_follows_the_eight_minute_rule() {
    // 09:07 is seven minutes past the boundary: rounds down to 09:00.
    assert_eq!(round_to_nearest_fifteen_minutes(at(9, 7)).secs, at(9, 0).secs);
    // 09:08 reaches half the quantum: rounds up to 09:15.
    assert_eq!(round_to_nearest_fifteen_minutes(at(9, 8)).secs, at(9, 15).secs);
    // A boundary stays put, and seconds are zeroed.
    assert_eq!(round_to_nearest_fifteen_minutes(at(9, 0)).secs, at(9, 0).secs);
    assert_eq!(round_to_nearest_fifteen_minutes(ts(at(9, 0).secs + 59)).secs, at(9, 0).secs);
    // 09:53 rounds up across the hour to 10:00.
    assert_eq!(round_to_nearest_fifteen_minutes(at(9, 53)).secs, at(10, 0).secs);
}

#[test]
fn rounding_is_idempotent_on_samples() {
    for secs in [0u64, 59, 433, 32400, 32820, 33180, 34199, 35000, MAX_SECS] {
        let once = round_to_nearest_fifteen_minutes(ts(secs));
        let twice = round_to_nearest_fifteen_minutes(once);
        assert_eq!(once.secs, twice.secs);
    }
}

#[test]
fn counting_intervals_is_signed() {
    assert_eq!(count_fifteen_minute_intervals(at(9, 0), at(10, 0)), 4);
    assert_eq!(count_fifteen_minute_intervals(at(10, 0), at(9, 0)), -4);
    assert_eq!(count_fifteen_minute_intervals(at(9, 0), at(9, 0)), 0);
    assert_eq!(count_fifteen_minute_intervals(at(9, 0), at(9, 30)), 2);
}

#[test]
fn duration_clamps_negative_intervals_to_zero() {
    assert_eq!(duration_minutes(at(9, 0), at(9, 30)), 30);
    assert_eq!(duration_minutes(at(9, 30), at(9, 0)), 0);
    // Rounding happens before subtracting: 09:07 rounds onto 09:00.
    assert_eq!(duration_minutes(at(9, 0), at(9, 7)), 0);
    assert_eq!(duration_minutes(at(9, 7), at(9, 23)), 30);
}

#[test]
fn time_spans_of_the_sample_day() {
    // Day list 09:00, 09:07, 09:23 with the fifteen-minute quantum:
    // rounding yields 09:00, 09:00, 09:30, so the two intervals measure
    // zero and thirty minutes (zero and two units).
    let day = vec![
        checkpoint_at(at(9, 0)),
        checkpoint_at(at(9, 7)),
        checkpoint_at(at(9, 23)),
    ];
    let spans = time_spans(&day);
    assert_eq!(spans.len(), 2);
    assert_eq!(spans[0].units, 0);
    assert_eq!(spans[1].units, 2);
    assert_eq!(human_duration(spans[1].units as u32 * UNIT), "30m");
}

#[test]
fn time_spans_needs_two_checkpoints() {
    let empty: Vec<Checkpoint> = vec![];
    assert_eq!(time_spans(&empty).len(), 0);
    let single = vec![checkpoint_at(at(9, 0))];
    assert_eq!(time_spans(&single).len(), 0);
}

#[test]
fn time_spans_counts_one_less_than_the_list() {
    let day: Vec<Checkpoint> = (0..6u64).map(|i| checkpoint_at(at(9 + i, 0))).collect();
    assert_eq!(time_spans(&day).len(), 5);
}

#[test]
fn time_spans_clamps_backward_intervals() {
    let day = vec![checkpoint_at(at(10, 0)), checkpoint_at(at(9, 0))];
    let spans = time_spans(&day);
    assert_eq!(spans.len(), 1);
    assert_eq!(spans[0].units, 0);
}
