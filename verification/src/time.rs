//! Calendar timestamps, event intervals, and the visible-window calculators.
//!
//! A timestamp is a day number in the proleptic Gregorian calendar paired
//! with a minute of the day, so every computation of the engine is plain
//! integer arithmetic.  The two calculators derive the visible window of a
//! schedule grid: [`compute_hour_window`] centers a whole-hour-aligned hour
//! span on the clock reading, and [`compute_date_window`] spans the days of
//! the current-or-future events.

use vstd::arithmetic::div_mod::{
    lemma_div_is_ordered, lemma_div_multiples_vanish, lemma_fundamental_div_mod,
    lemma_fundamental_div_mod_converse_div, lemma_fundamental_div_mod_converse_mod,
    lemma_mod_multiples_basic,
};
use vstd::prelude::*;

use crate::ScheduleError;

verus! {

/// The last supported day number (around year 8200), far inside the range
/// the calendar arithmetic of the `chrono` crate accepts.
pub const MAX_DAY: i32 = 3_000_000;

/// A wall-clock timestamp with minute resolution.
#[derive(Clone, Copy, Debug, PartialEq, Eq, Structural)]
pub struct DateTime {
    /// Day number in the proleptic Gregorian calendar; day 1 is
    /// January 1 of year 1.
    pub day: i32,
    /// Minute of the day, in `[0, 1440)`.
    pub minute: u32,
}

impl DateTime {
    /// A timestamp the engine accepts: a positive day number within the
    /// supported calendar range and a valid minute of the day.
    pub open spec fn wf(self) -> bool {
        &&& 1 <= self.day <= MAX_DAY
        &&& self.minute < 1440
    }

    /// The timestamp as a count of minutes since the calendar origin.
    pub open spec fn total(self) -> int {
        self.day * 1440 + self.minute
    }

    /// The hour of the day, in `[0, 24)` for a well-formed timestamp.
    pub open spec fn spec_hour(self) -> int {
        self.minute as int / 60
    }

    pub fn new(day: i32, minute: u32) -> (dt: DateTime)
        requires
            1 <= day <= MAX_DAY,
            minute < 1440,
        ensures
            dt == (DateTime { day, minute }),
            dt.wf(),
    {
        DateTime { day, minute }
    }

    /// The hour of the day.
    pub fn hour(&self) -> (h: u32)
        ensures
            h == self.spec_hour(),
    {
        self.minute / 60
    }

    /// The timestamp as a count of minutes since the calendar origin.
    pub fn total_minutes(&self) -> (t: u64)
        requires
            self.wf(),
        ensures
            t == self.total(),
    {
        (self.day as u64) * 1440 + (self.minute as u64)
    }

    /// Rebuilds the timestamp holding the given count of minutes since
    /// the calendar origin.
    pub fn from_total_minutes(tm: u64) -> (dt: DateTime)
        requires
            1440 <= tm <= MAX_DAY * 1440 + 1439,
        ensures
            dt.total() == tm,
            dt.day == tm as int / 1440,
            dt.minute == tm as int % 1440,
            dt.wf(),
    {
        let day = (tm / 1440) as i32;
        let minute = (tm % 1440) as u32;
        proof {
            lemma_fundamental_div_mod(tm as int, 1440);
            lemma_div_is_ordered(1440, tm as int, 1440);
            lemma_div_is_ordered(tm as int, MAX_DAY * 1440 + 1439, 1440);
            lemma_div_multiples_vanish(1, 1440);
            lemma_fundamental_div_mod_converse_div(MAX_DAY * 1440 + 1439, 1440, MAX_DAY as int, 1439);
        }
        DateTime { day, minute }
    }
}

/// A time-bounded event: a half-open interval of wall-clock time with a
/// display label.
#[derive(Clone, Debug)]
pub struct TimeInterval {
    pub start: DateTime,
    pub end: DateTime,
    pub label: String,
}

impl TimeInterval {
    /// The invariant of an event: both bounds are well-formed timestamps,
    /// the interval is non-empty, and the label is short enough for the
    /// layout arithmetic.
    pub open spec fn wf(self) -> bool {
        &&& self.start.wf()
        &&& self.end.wf()
        &&& self.start.total() < self.end.total()
        &&& self.label@.len() <= 1000
    }

    pub fn new(start: DateTime, end: DateTime, label: String) -> (iv: TimeInterval)
        requires
            start.wf(),
            end.wf(),
            start.total() < end.total(),
            label@.len() <= 1000,
        ensures
            iv.start == start,
            iv.end == end,
            iv.label == label,
            iv.wf(),
    {
        TimeInterval { start, end, label }
    }
}

/// An inclusive range of timestamps, walked with a fixed positive step.
#[derive(Clone, Copy, Debug, PartialEq, Eq, Structural)]
pub struct ChronoRange {
    pub start: DateTime,
    pub end: DateTime,
}

impl ChronoRange {
    pub open spec fn wf(self) -> bool {
        self.start.wf() && self.end.wf()
    }

    /// How many stops a walk of this range makes with the given step.
    pub open spec fn count_with_step(self, step: int) -> int {
        if self.start.total() <= self.end.total() {
            (self.end.total() - self.start.total()) / step + 1
        } else {
            0
        }
    }

    pub fn new(start: DateTime, end: DateTime) -> (r: ChronoRange)
        ensures
            r == (ChronoRange { start, end }),
    {
        ChronoRange { start, end }
    }

    /// The first timestamp of the range.
    pub fn start(&self) -> (s: DateTime)
        ensures
            s == self.start,
    {
        self.start
    }

    /// All timestamps from `start` to `end` inclusive, stepping the given
    /// number of minutes.  A zero step is rejected up front, so the walk
    /// always terminates.
    pub fn iter(&self, step_minutes: u32) -> (points: Vec<DateTime>)
        requires
            self.wf(),
            1 <= step_minutes,
        ensures
            points@.len() == self.count_with_step(step_minutes as int),
            forall|i: int|
                0 <= i < points@.len() ==> (#[trigger] points@[i]).total() == self.start.total()
                    + i * step_minutes,
            forall|i: int| 0 <= i < points@.len() ==> (#[trigger] points@[i]).wf(),
    {
        let step: u64 = step_minutes as u64;
        let end_total: u64 = self.end.total_minutes();
        let mut cur: u64 = self.start.total_minutes();
        let mut points: Vec<DateTime> = Vec::new();
        proof {
            assert(points@.len() * step == 0) by (nonlinear_arith)
                requires
                    points@.len() == 0,
            ;
        }
        while cur <= end_total
            invariant
                self.wf(),
                1 <= step <= u32::MAX,
                step == step_minutes,
                end_total == self.end.total(),
                cur == self.start.total() + points@.len() * step,
                points@.len() > 0 ==> cur <= end_total + step,
                points@.len() <= self.count_with_step(step as int),
                forall|i: int|
                    0 <= i < points@.len() ==> (#[trigger] points@[i]).total()
                        == self.start.total() + i * step,
                forall|i: int| 0 <= i < points@.len() ==> (#[trigger] points@[i]).wf(),
            decreases end_total + step - cur,
        {
            let ghost n = points@.len() as int;
            let ghost s = self.start.total();
            let ghost e = self.end.total();
            points.push(DateTime::from_total_minutes(cur));
            proof {
                assert((n + 1) * step == n * step + step) by (nonlinear_arith);
                // `cur` is still inside the range, so `n` full steps fit in
                // the span and the stop count is not yet exceeded.
                lemma_div_multiples_vanish(n, step as int);
                lemma_div_is_ordered(step as int * n, e - s, step as int);
            }
            cur = cur + step;
        }
        proof {
            let n = points@.len() as int;
            let s = self.start.total();
            let e = self.end.total();
            let st = step as int;
            if s <= e {
                let span = e - s;
                lemma_fundamental_div_mod(span, st);
                let q = span / st;
                // The loop exited, so `n` steps overshoot the span; hence
                // the quotient of the span is below `n` and the stop count
                // `q + 1` is at most `n`.  The invariant gives the converse.
                if q >= n {
                    assert(st * q >= st * n) by (nonlinear_arith)
                        requires
                            st > 0,
                            q >= n,
                    ;
                    assert(false);
                }
            }
        }
        points
    }

    /// All calendar days of the range.
    pub fn iter_days(&self) -> (points: Vec<DateTime>)
        requires
            self.wf(),
        ensures
            points@.len() == self.count_with_step(1440),
            forall|i: int|
                0 <= i < points@.len() ==> (#[trigger] points@[i]).total() == self.start.total()
                    + i * 1440,
            forall|i: int| 0 <= i < points@.len() ==> (#[trigger] points@[i]).wf(),
    {
        self.iter(1440)
    }

    /// All whole hours of the range.
    pub fn iter_hours(&self) -> (points: Vec<DateTime>)
        requires
            self.wf(),
        ensures
            points@.len() == self.count_with_step(60),
            forall|i: int|
                0 <= i < points@.len() ==> (#[trigger] points@[i]).total() == self.start.total()
                    + i * 60,
            forall|i: int| 0 <= i < points@.len() ==> (#[trigger] points@[i]).wf(),
    {
        self.iter(60)
    }
}

/// The window start before truncation: the lower half `h / 2` of the
/// span lies before `now`, clamped to midnight (the excess shifted onto
/// the end); when the end overshoots the end of the day, its excess is
/// shifted back onto the start here.
pub open spec fn win_start_raw(now: DateTime, h: int) -> int {
    let hr = now.spec_hour();
    let s0 = if hr < h / 2 {
        now.day * 1440
    } else {
        now.total() - (h / 2) * 60
    };
    let start_shift = if hr + (h - h / 2) > 24 {
        hr + (h - h / 2) - 24
    } else {
        0
    };
    s0 - start_shift * 60
}

/// The window end before truncation: the upper half `h - h / 2` of the
/// span lies after `now` — an odd count biases its extra hour onto the
/// future side — clamped to the following midnight; see
/// [`win_start_raw`].
pub open spec fn win_end_raw(now: DateTime, h: int) -> int {
    let hr = now.spec_hour();
    let e0 = if hr + (h - h / 2) > 24 {
        now.day * 1440 + 1440
    } else {
        now.total() + (h - h / 2) * 60
    };
    let end_shift = if hr < h / 2 {
        h / 2 - hr
    } else {
        0
    };
    e0 + end_shift * 60
}

/// The visible window start, truncated to the start of its hour.
pub open spec fn spec_hour_window_start(now: DateTime, h: int) -> int {
    (win_start_raw(now, h) / 60) * 60
}

/// The visible window end, truncated to the start of its hour.
pub open spec fn spec_hour_window_end(now: DateTime, h: int) -> int {
    (win_end_raw(now, h) / 60) * 60
}

/// Computes the visible hour span centered on `now`: the candidate
/// window puts `hours_to_show / 2` hours before `now` and the remaining
/// `hours_to_show - hours_to_show / 2` after it, so the span is always
/// `hours_to_show` hours and an odd count biases its extra hour onto
/// the future side — exact symmetric centering needs an even count;
/// the bias is accepted behavior, not an error.  A start before
/// midnight is clamped to midnight with the excess shifted onto the
/// end, an end past the end of the day is clamped to the following
/// midnight with the excess shifted onto the start, and both bounds are
/// then truncated to the start of their hour.
pub fn compute_hour_window(now: DateTime, hours_to_show: i32) -> (w: (DateTime, DateTime))
    requires
        now.wf(),
        now.day < MAX_DAY,
        1 <= hours_to_show <= 24,
    ensures
        w.0.wf(),
        w.1.wf(),
        w.0.total() == spec_hour_window_start(now, hours_to_show as int),
        w.1.total() == spec_hour_window_end(now, hours_to_show as int),
        w.0.day == now.day,
        w.0.total() <= now.total() < w.1.total(),
        w.1.total() - w.0.total() == hours_to_show * 60,
        w.0.minute % 60 == 0,
        w.1.minute % 60 == 0,
{
    let ghost h = hours_to_show as int;
    proof {
        lemma_fundamental_div_mod(now.minute as int, 60);
    }
    let base: u64 = (now.day as u64) * 1440;
    let total: u64 = now.total_minutes();
    let hr: u64 = (now.minute / 60) as u64;
    let half_low: u64 = (hours_to_show as u64) / 2;
    let half_high: u64 = (hours_to_show as u64) - half_low;

    let s0: u64 = if hr < half_low {
        base
    } else {
        total - half_low * 60
    };
    let end_shift: u64 = if hr < half_low {
        half_low - hr
    } else {
        0
    };
    let e0: u64 = if hr + half_high > 24 {
        base + 1440
    } else {
        total + half_high * 60
    };
    let start_shift: u64 = if hr + half_high > 24 {
        hr + half_high - 24
    } else {
        0
    };

    proof {
        lemma_window_raw_bounds(now, h);
        assert(s0 - start_shift * 60 == win_start_raw(now, h));
        assert(e0 + end_shift * 60 == win_end_raw(now, h));
    }
    let s1: u64 = s0 - start_shift * 60;
    let e1: u64 = e0 + end_shift * 60;
    let ws: u64 = (s1 / 60) * 60;
    let we: u64 = (e1 / 60) * 60;

    proof {
        lemma_hour_window_span(now, h);
        lemma_trunc60_stays_ordered(s1 as int, e1 as int);
        lemma_trunc60_in_day(s1 as int, now.day as int);
        lemma_mod_multiples_basic(s1 as int / 60, 60);
        lemma_mod_multiples_basic(e1 as int / 60, 60);
        lemma_whole_hour_minute(ws as int);
        lemma_whole_hour_minute(we as int);
        lemma_fundamental_div_mod_converse_div(
            ws as int,
            1440,
            now.day as int,
            ws - now.day * 1440,
        );
    }
    let start_dt = DateTime::from_total_minutes(ws);
    let end_dt = DateTime::from_total_minutes(we);
    (start_dt, end_dt)
}

/// The raw window bounds stay within the day of `now` on the left, reach
/// at most two minutes short of two days past its midnight on the right,
/// and are ordered.
proof fn lemma_window_raw_bounds(now: DateTime, h: int)
    requires
        now.wf(),
        now.day < MAX_DAY,
        1 <= h <= 24,
    ensures
        now.day * 1440 <= win_start_raw(now, h),
        win_start_raw(now, h) < now.day * 1440 + 1440,
        win_start_raw(now, h) <= win_end_raw(now, h),
        win_end_raw(now, h) <= now.day * 1440 + 2879,
{
    lemma_fundamental_div_mod(now.minute as int, 60);
    lemma_div_is_ordered(now.minute as int, 1439, 60);
}

/// Truncating two ordered values to whole hours preserves their order and
/// never increases either value.
proof fn lemma_trunc60_stays_ordered(x: int, y: int)
    requires
        0 <= x <= y,
    ensures
        (x / 60) * 60 <= (y / 60) * 60,
        0 <= (x / 60) * 60 <= x,
        (y / 60) * 60 <= y,
{
    lemma_fundamental_div_mod(x, 60);
    lemma_fundamental_div_mod(y, 60);
    lemma_div_is_ordered(x, y, 60);
    lemma_div_is_ordered(0, x, 60);
    assert((x / 60) * 60 <= (y / 60) * 60) by (nonlinear_arith)
        requires
            x / 60 <= y / 60,
    ;
    assert(0 <= (x / 60) * 60) by (nonlinear_arith)
        requires
            0 <= x / 60,
    ;
}

/// A value within the day of `q`, truncated to a whole hour, stays within
/// that day.
proof fn lemma_trunc60_in_day(x: int, q: int)
    requires
        q * 1440 <= x < q * 1440 + 1440,
    ensures
        q * 1440 <= (x / 60) * 60 < q * 1440 + 1440,
{
    lemma_fundamental_div_mod(x, 60);
    assert(q * 1440 <= (x / 60) * 60 < q * 1440 + 1440) by (nonlinear_arith)
        requires
            x == 60 * (x / 60) + x % 60,
            0 <= x % 60 < 60,
            q * 1440 <= x < q * 1440 + 1440,
    ;
}

/// A whole-hour count of minutes lands on a whole hour of its day: its
/// minute of the day is again a whole hour.
proof fn lemma_whole_hour_minute(x: int)
    requires
        x >= 0,
        x % 60 == 0,
    ensures
        (x % 1440) % 60 == 0,
{
    lemma_fundamental_div_mod(x, 1440);
    assert((x % 1440) % 60 == 0) by (nonlinear_arith)
        requires
            x == 1440 * (x / 1440) + x % 1440,
            0 <= x % 1440 < 1440,
            x % 60 == 0,
    ;
}

/// Helper: a value of the shape `60 * q + r` with `0 <= r < 60` truncates
/// to `60 * q`, which is `r` below the value itself.
proof fn lemma_trunc60_exact(x: int, q: int, r: int)
    requires
        0 <= r < 60,
        x == 60 * q + r,
    ensures
        x / 60 == q,
        x % 60 == r,
        (x / 60) * 60 == x - r,
{
    lemma_fundamental_div_mod_converse_div(x, 60, q, r);
    lemma_fundamental_div_mod_converse_mod(x, 60, q, r);
}

/// The visible hour span has whole-hour bounds, spans exactly `h` hours
/// for every count in `[1, 24]`, and contains the clock reading; an odd
/// count's extra hour lies on the future side.
pub proof fn lemma_hour_window_span(now: DateTime, h: int)
    requires
        now.wf(),
        now.day < MAX_DAY,
        1 <= h <= 24,
    ensures
        spec_hour_window_start(now, h) % 60 == 0,
        spec_hour_window_end(now, h) % 60 == 0,
        spec_hour_window_end(now, h) - spec_hour_window_start(now, h) == h * 60,
        spec_hour_window_start(now, h) <= now.total() < spec_hour_window_end(now, h),
{
    let day = now.day as int;
    let hr = now.spec_hour();
    let half_low = h / 2;
    let half_high = h - h / 2;
    lemma_fundamental_div_mod(now.minute as int, 60);
    let m = now.minute - 60 * hr;
    lemma_div_is_ordered(now.minute as int, 1439, 60);
    // the upper half holds at least one hour: h = 2*(h/2) + h%2
    lemma_fundamental_div_mod(h, 2);
    let s1 = win_start_raw(now, h);
    let e1 = win_end_raw(now, h);
    // Both raw bounds sit at offset `m` past a whole hour, except that a
    // clamped bound sits exactly on a whole hour.
    if hr < half_low {
        lemma_trunc60_exact(s1, 24 * day, 0);
        lemma_trunc60_exact(e1, 24 * day + h, m);
    } else if hr + half_high > 24 {
        lemma_trunc60_exact(s1, 24 * day + 24 - h, m);
        lemma_trunc60_exact(e1, 24 * day + 24, 0);
    } else {
        lemma_trunc60_exact(s1, 24 * day + hr - half_low, m);
        lemma_trunc60_exact(e1, 24 * day + hr + half_high, m);
    }
    lemma_mod_multiples_basic(s1 / 60, 60);
    lemma_mod_multiples_basic(e1 / 60, 60);
}

/// The visible hour window stays in the day of `now`: it starts between
/// that day's midnight and `now` itself, and ends no later than the
/// following day's midnight plus the shifted excess.
pub proof fn lemma_hour_window_in_day(now: DateTime, h: int)
    requires
        now.wf(),
        now.day < MAX_DAY,
        1 <= h <= 24,
    ensures
        now.day * 1440 <= spec_hour_window_start(now, h) <= now.total(),
        spec_hour_window_start(now, h) <= spec_hour_window_end(now, h),
        spec_hour_window_end(now, h) <= now.day * 1440 + 2879,
{
    lemma_window_raw_bounds(now, h);
    lemma_trunc60_stays_ordered(win_start_raw(now, h), win_end_raw(now, h));
    lemma_trunc60_in_day(win_start_raw(now, h), now.day as int);
}

/// A midnight-to-midnight range walks one stop per calendar day.
pub proof fn lemma_day_count(dates: ChronoRange)
    requires
        dates.start.minute == 0,
        dates.end.minute == 0,
        dates.start.day <= dates.end.day,
    ensures
        dates.count_with_step(1440) == dates.end.day - dates.start.day + 1,
{
    let span = dates.end.total() - dates.start.total();
    lemma_fundamental_div_mod_converse_div(span, 1440, dates.end.day - dates.start.day, 0);
}

/// True when the past-event filter keeps `ev`: it starts on or after the
/// day containing `now`.
pub open spec fn event_kept(ev: TimeInterval, now: DateTime) -> bool {
    ev.start.day >= now.day
}

/// True when at least one event survives the past-event filter.
pub open spec fn some_event_kept(events: Seq<TimeInterval>, now: DateTime) -> bool {
    exists|i: int| 0 <= i < events.len() && event_kept(events[i], now)
}

/// The characterization of the visible date span: `first` is the least
/// start day and `last` the greatest end day among the kept events.
pub open spec fn is_date_window(
    events: Seq<TimeInterval>,
    now: DateTime,
    first: int,
    last: int,
) -> bool {
    &&& exists|i: int|
        0 <= i < events.len() && event_kept(events[i], now) && events[i].start.day == first
    &&& forall|i: int|
        0 <= i < events.len() && event_kept(#[trigger] events[i], now) ==> events[i].start.day
            >= first
    &&& exists|i: int|
        0 <= i < events.len() && event_kept(events[i], now) && events[i].end.day == last
    &&& forall|i: int|
        0 <= i < events.len() && event_kept(#[trigger] events[i], now) ==> events[i].end.day
            <= last
}

/// Computes the visible date span: events whose start day lies strictly
/// before the day of `now` are filtered out; the span then runs from the
/// least start day to the greatest end day of the remaining events.  When
/// no event remains the caller must fall back to the single day of `now`;
/// this is reported as [`ScheduleError::NoVisibleEvents`].
pub fn compute_date_window(events: &Vec<TimeInterval>, now: DateTime) -> (r: Result<
    (i32, i32),
    ScheduleError,
>)
    ensures
        r is Ok <==> some_event_kept(events@, now),
        r is Err ==> r == Err::<(i32, i32), ScheduleError>(ScheduleError::NoVisibleEvents),
        r is Ok ==> is_date_window(events@, now, r->Ok_0.0 as int, r->Ok_0.1 as int),
{
    let mut found: bool = false;
    let mut first: i32 = 0;
    let mut last: i32 = 0;
    let mut idx: usize = 0;
    while idx < events.len()
        invariant
            idx <= events@.len(),
            found <==> some_event_kept(events@.take(idx as int), now),
            found ==> is_date_window(events@.take(idx as int), now, first as int, last as int),
        decreases events@.len() - idx,
    {
        let ev = &events[idx];
        proof {
            assert(events@.take(idx as int + 1)[idx as int] == events@[idx as int]);
            assert(forall|i: int|
                0 <= i < idx ==> events@.take(idx as int + 1)[i] == #[trigger] events@.take(
                    idx as int,
                )[i]);
        }
        if ev.start.day >= now.day {
            if !found {
                found = true;
                first = ev.start.day;
                last = ev.end.day;
            } else {
                if ev.start.day < first {
                    first = ev.start.day;
                }
                if ev.end.day > last {
                    last = ev.end.day;
                }
            }
        }
        idx = idx + 1;
    }
    proof {
        assert(events@.take(events@.len() as int) =~= events@);
    }
    if found {
        Ok((first, last))
    } else {
        Err(ScheduleError::NoVisibleEvents)
    }
}

/// Past events are excluded from the visible date span: the span starts
/// no earlier than the day containing `now`, so the start day of every
/// filtered-out event lies strictly before it.
pub proof fn lemma_date_window_excludes_past(
    events: Seq<TimeInterval>,
    now: DateTime,
    first: int,
    last: int,
)
    requires
        is_date_window(events, now, first, last),
        forall|i: int| 0 <= i < events.len() ==> (#[trigger] events[i]).wf(),
    ensures
        now.day <= first <= last,
        forall|i: int|
            0 <= i < events.len() && (#[trigger] events[i]).start.day < now.day
                ==> events[i].start.day < first,
{
    let w = choose|i: int|
        0 <= i < events.len() && event_kept(events[i], now) && events[i].start.day == first;
    // The witness of `first` is a non-empty event, so its end day is no
    // earlier than its start day, and `last` is at least that end day.
    assert(events[w].start.day <= events[w].end.day) by (nonlinear_arith)
        requires
            events[w].start.total() < events[w].end.total(),
            events[w].start.total() == events[w].start.day * 1440 + events[w].start.minute,
            events[w].end.total() == events[w].end.day * 1440 + events[w].end.minute,
            0 <= events[w].start.minute < 1440,
            0 <= events[w].end.minute < 1440,
    ;
}

} // verus!
