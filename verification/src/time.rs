//! Time arithmetic: timestamps, rounding to the fifteen-minute quantum, and
//! durations between checkpoints.

use vstd::prelude::*;
use crate::checkpoint::Checkpoint;

verus! {

/// Length of the bucketing quantum in minutes.
pub const UNIT: u32 = 15;

/// Upper bound on the seconds field of a [`Timestamp`]: enough for every date
/// a calendar library represents (about one hundred million days).
pub const MAX_SECS: u64 = 9_000_000_000_000;

/// A point in local time, counted in whole seconds since the local midnight
/// that opens day zero of the calendar (the first of January of year one).
#[derive(Clone, Copy, PartialEq, Eq, Structural, Debug)]
pub struct Timestamp {
    pub secs: u64,
}

impl Timestamp {
    /// A timestamp is well formed when it lies inside the supported range.
    pub open spec fn wf(self) -> bool {
        self.secs <= MAX_SECS
    }
}

/// Mathematical rounding rule: take the minute count, look at its remainder
/// modulo fifteen; a remainder of eight or more rounds up to the next quantum
/// boundary, a smaller one rounds down. Seconds are zeroed either way.
pub open spec fn round_secs_spec(s: int) -> int {
    let m = s / 60;
    let r = m % 15;
    if r >= 8 {
        (m + (15 - r)) * 60
    } else {
        (m - r) * 60
    }
}

/// Rounds a timestamp to the nearest fifteen-minute boundary: minutes with a
/// remainder of at least eight round up, the rest round down, and the seconds
/// within the minute are always dropped.
pub fn round_to_nearest_fifteen_minutes(t: Timestamp) -> (r: Timestamp)
    requires
        t.wf(),
    ensures
        r.secs == round_secs_spec(t.secs as int),
        r.wf(),
        r.secs % 900 == 0,
{
    let m: u64 = t.secs / 60;
    let rem: u64 = m % 15;
    proof {
        assert(m <= MAX_SECS / 60) by (nonlinear_arith)
            requires
                t.secs <= MAX_SECS,
                m == t.secs / 60,
        ;
        assert((m + (15 - rem)) * 60 <= (MAX_SECS / 60 + 15) * 60) by (nonlinear_arith)
            requires
                m <= MAX_SECS / 60,
                rem <= 15,
                rem == m % 15,
        ;
        assert((m - rem) * 60 <= (MAX_SECS / 60) * 60) by (nonlinear_arith)
            requires
                m <= MAX_SECS / 60,
                rem <= m,
        ;
    }
    let rounded: u64 = if rem >= 8 {
        (m + (15 - rem)) * 60
    } else {
        (m - rem) * 60
    };
    proof {
        lemma_round_form(t.secs as int);
    }
    Timestamp { secs: rounded }
}

/// The rounded value is always a whole number of quanta.
proof fn lemma_round_form(s: int)
    ensures
        round_secs_spec(s) % 900 == 0,
{
    let m = s / 60;
    let r = m % 15;
    let q = m / 15;
    assert(m == 15 * q + r);
    if r >= 8 {
        assert((m + (15 - r)) * 60 == 900 * (q + 1) && (900 * (q + 1)) % 900 == 0)
            by (nonlinear_arith)
            requires
                m == 15 * q + r,
        ;
    } else {
        assert((m - r) * 60 == 900 * q && (900 * q) % 900 == 0) by (nonlinear_arith)
            requires
                m == 15 * q + r,
        ;
    }
}

/// Signed number of whole fifteen-minute steps from `a` to `b`: the whole
/// minutes between the two, divided by fifteen, truncated toward zero and
/// negative when `b` lies before `a`.
pub open spec fn quarter_hours_between(a: int, b: int) -> int {
    if b >= a {
        ((b - a) / 60) / 15
    } else {
        -(((a - b) / 60) / 15)
    }
}

/// Counts the fifteen-minute intervals between two timestamps, positive when
/// `end` is after `start` and negative when it is before. Both ends are
/// expected to sit on quantum boundaries already; no rounding happens here.
pub fn count_fifteen_minute_intervals(start: Timestamp, end: Timestamp) -> (r: i64)
    requires
        start.wf(),
        end.wf(),
    ensures
        r == quarter_hours_between(start.secs as int, end.secs as int),
{
    if end.secs >= start.secs {
        let diff: u64 = end.secs - start.secs;
        ((diff / 60) / 15) as i64
    } else {
        let diff: u64 = start.secs - end.secs;
        -(((diff / 60) / 15) as i64)
    }
}

/// Clamped length of an interval in minutes: both endpoints are first rounded
/// to the quantum, and an interval that would come out negative counts as
/// zero.
pub open spec fn duration_minutes_spec(a: int, b: int) -> int {
    let ra = round_secs_spec(a);
    let rb = round_secs_spec(b);
    if rb >= ra {
        (rb - ra) / 60
    } else {
        0
    }
}

/// Minutes between two checkpoint times after rounding each to the quantum,
/// clamped to zero when the end precedes the start.
pub fn duration_minutes(start: Timestamp, end: Timestamp) -> (r: u64)
    requires
        start.wf(),
        end.wf(),
    ensures
        r == duration_minutes_spec(start.secs as int, end.secs as int),
{
    let ra = round_to_nearest_fifteen_minutes(start);
    let rb = round_to_nearest_fifteen_minutes(end);
    if rb.secs >= ra.secs {
        (rb.secs - ra.secs) / 60
    } else {
        0
    }
}

/// No derived duration is ever negative: an interval whose end precedes
/// its start counts as zero minutes and zero quanta.
pub proof fn lemma_duration_never_negative(a: int, b: int)
    ensures
        duration_minutes_spec(a, b) >= 0,
        span_units_spec(a, b) >= 0,
{
    let ra = round_secs_spec(a);
    let rb = round_secs_spec(b);
    if rb >= ra {
        assert((rb - ra) / 60 >= 0) by (nonlinear_arith)
            requires
                rb >= ra,
        ;
    }
}

/// Rounding to the quantum is idempotent: a value already on a quantum
/// boundary rounds to itself, so applying the rule twice changes nothing.
pub proof fn lemma_round_idempotent(s: int)
    ensures
        round_secs_spec(round_secs_spec(s)) == round_secs_spec(s),
{
    lemma_round_form(s);
    let rs = round_secs_spec(s);
    let q = rs / 900;
    assert(rs == 900 * q);
    assert(rs / 60 == 15 * q && (15 * q) % 15 == 0) by (nonlinear_arith)
        requires
            rs == 900 * q,
    ;
    assert((rs / 60 - 0) * 60 == rs) by (nonlinear_arith)
        requires
            rs / 60 == 15 * q,
            rs == 900 * q,
    ;
}

/// The width of one activity interval measured in fifteen-minute units.
#[derive(Clone, Copy, PartialEq, Eq, Structural, Debug)]
pub struct TimeSpan {
    pub units: u16,
}

impl Default for TimeSpan {
    /// An empty span.
    fn default() -> (r: TimeSpan)
        ensures
            r.units == 0,
    {
        TimeSpan { units: 0 }
    }
}

/// Units of one interval: both ends rounded to the quantum, the count of
/// quarter hours between them clamped below at zero and above at what a
/// sixteen-bit count can hold.
pub open spec fn span_units_spec(a: int, b: int) -> int {
    let q = quarter_hours_between(round_secs_spec(a), round_secs_spec(b));
    if q < 0 {
        0
    } else if q > 65535 {
        65535
    } else {
        q
    }
}

/// For every two consecutive checkpoints, the time span between them in
/// fifteen-minute units: a list of length N yields exactly N - 1 spans
/// (none when it has fewer than two entries), and no span is negative.
pub fn time_spans(checkpoints: &Vec<Checkpoint>) -> (r: Vec<TimeSpan>)
    requires
        forall|i: int| 0 <= i < checkpoints@.len() ==> (#[trigger] checkpoints@[i]).wf(),
    ensures
        r@.len() == if checkpoints@.len() < 2 { 0int } else { checkpoints@.len() - 1 },
        forall|i: int| 0 <= i < r@.len() ==> (#[trigger] r@[i]).units == span_units_spec(
            checkpoints@[i].time.secs as int,
            checkpoints@[i + 1].time.secs as int,
        ),
{
    let mut spans: Vec<TimeSpan> = Vec::new();
    if checkpoints.len() < 2 {
        return spans;
    }
    let mut i: usize = 0;
    while i < checkpoints.len() - 1
        invariant
            checkpoints@.len() >= 2,
            i <= checkpoints@.len() - 1,
            spans@.len() == i,
            forall|i: int| 0 <= i < checkpoints@.len() ==> (#[trigger] checkpoints@[i]).wf(),
            forall|j: int| 0 <= j < i ==> (#[trigger] spans@[j]).units == span_units_spec(
                checkpoints@[j].time.secs as int,
                checkpoints@[j + 1].time.secs as int,
            ),
        decreases checkpoints@.len() - i,
    {
        let rounded_start = round_to_nearest_fifteen_minutes(checkpoints[i].time);
        let rounded_end = round_to_nearest_fifteen_minutes(checkpoints[i + 1].time);
        let intervals = count_fifteen_minute_intervals(rounded_start, rounded_end);
        let units: u16 = if intervals < 0 {
            0
        } else if intervals > 65535 {
            65535
        } else {
            intervals as u16
        };
        spans.push(TimeSpan { units });
        i = i + 1;
    }
    spans
}

/// The character that writes a single decimal digit.
pub open spec fn digit_char(d: nat) -> char {
    if d == 0 {
        '0'
    } else if d == 1 {
        '1'
    } else if d == 2 {
        '2'
    } else if d == 3 {
        '3'
    } else if d == 4 {
        '4'
    } else if d == 5 {
        '5'
    } else if d == 6 {
        '6'
    } else if d == 7 {
        '7'
    } else if d == 8 {
        '8'
    } else {
        '9'
    }
}

/// Decimal notation of a number, most significant digit first, no leading
/// zeroes except for the number zero itself.
pub open spec fn dec_digits(n: nat) -> Seq<char>
    decreases n,
{
    if n < 10 {
        seq![digit_char(n)]
    } else {
        dec_digits(n / 10).push(digit_char(n % 10))
    }
}

fn digit_str(d: u32) -> (r: &'static str)
    requires
        d < 10,
    ensures
        r@ == seq![digit_char(d as nat)],
{
    proof {
        reveal_strlit("0");
        reveal_strlit("1");
        reveal_strlit("2");
        reveal_strlit("3");
        reveal_strlit("4");
        reveal_strlit("5");
        reveal_strlit("6");
        reveal_strlit("7");
        reveal_strlit("8");
        reveal_strlit("9");
    }
    let r = match d {
        0 => "0",
        1 => "1",
        2 => "2",
        3 => "3",
        4 => "4",
        5 => "5",
        6 => "6",
        7 => "7",
        8 => "8",
        _ => "9",
    };
    proof {
        assert(r@ =~= seq![digit_char(d as nat)]);
    }
    r
}

/// Writes a number in decimal notation.
pub fn format_u32(n: u32) -> (r: String)
    ensures
        r@ == dec_digits(n as nat),
    decreases n,
{
    if n < 10 {
        String::from_str(digit_str(n))
    } else {
        let mut s = format_u32(n / 10);
        s.append(digit_str(n % 10));
        proof {
            assert(s@ =~= dec_digits(n as nat));
        }
        s
    }
}

/// The text that presents a duration of `m` minutes: `"0m"` for zero, bare
/// hours as `"Nh"`, bare minutes as `"Nm"`, and a mixed duration as `"NhMm"`.
pub open spec fn human_duration_spec(m: nat) -> Seq<char> {
    if m == 0 {
        seq!['0', 'm']
    } else {
        let h = m / 60;
        let r = m % 60;
        if h == 0 {
            dec_digits(r).push('m')
        } else if r == 0 {
            dec_digits(h).push('h')
        } else {
            dec_digits(h).push('h') + dec_digits(r).push('m')
        }
    }
}

/// Converts minutes to the short human-readable form: `"0m"`, `"45m"`,
/// `"1h"`, `"1h30m"`.
pub fn human_duration(minutes: u32) -> (r: String)
    ensures
        r@ == human_duration_spec(minutes as nat),
{
    proof {
        reveal_strlit("0m");
        reveal_strlit("m");
        reveal_strlit("h");
    }
    if minutes == 0 {
        let s = String::from_str("0m");
        proof {
            assert(s@ =~= human_duration_spec(minutes as nat));
        }
        return s;
    }
    let hours = minutes / 60;
    let rem = minutes % 60;
    if hours == 0 {
        let mut s = format_u32(rem);
        s.append("m");
        proof {
            assert(s@ =~= human_duration_spec(minutes as nat));
        }
        s
    } else if rem == 0 {
        let mut s = format_u32(hours);
        s.append("h");
        proof {
            assert(s@ =~= human_duration_spec(minutes as nat));
        }
        s
    } else {
        let mut s = format_u32(hours);
        s.append("h");
        let tail = format_u32(rem);
        s.append(tail.as_str());
        s.append("m");
        proof {
            assert(s@ =~= human_duration_spec(minutes as nat));
        }
        s
    }
}

} // verus!
