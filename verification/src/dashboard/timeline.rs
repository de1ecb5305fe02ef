//! The timeline: which agents have a row, and what each row shows.
//!
//! Times are milliseconds since the epoch.

use crate::text;
use vstd::prelude::*;

verus! {

// -- zoom and axis -----------------------------------------------------------

/// How many zoom levels there are.
pub const ZOOM_LEVELS: usize = 7;

/// The number of seconds that a zoom level shows.
pub open spec fn zoom_span(level: int) -> int {
    if level <= 0 {
        1200
    } else if level == 1 {
        2400
    } else if level == 2 {
        3600
    } else if level == 3 {
        7200
    } else if level == 4 {
        14400
    } else if level == 5 {
        28800
    } else {
        86400
    }
}

/// The number of seconds that a zoom level shows.
pub fn zoom_secs(level: usize) -> (r: i64)
    ensures
        r == zoom_span(level as int),
{
    if level == 0 {
        1200
    } else if level == 1 {
        2400
    } else if level == 2 {
        3600
    } else if level == 3 {
        7200
    } else if level == 4 {
        14400
    } else if level == 5 {
        28800
    } else {
        86400
    }
}

/// The next level that shows more, as far as there is one.
pub fn zoom_out(level: usize) -> (r: usize)
    ensures
        r == if level < ZOOM_LEVELS - 1 {
            level + 1
        } else {
            level as int
        },
{
    if level < ZOOM_LEVELS - 1 {
        level + 1
    } else {
        level
    }
}

/// The next level that shows less, as far as there is one.
pub fn zoom_in(level: usize) -> (r: usize)
    ensures
        r == if level > 0 {
            level - 1
        } else {
            0
        },
{
    if level > 0 {
        level - 1
    } else {
        0
    }
}

/// How a span is named: in minutes, in hours, or as a day.
pub open spec fn span_name(secs: int) -> Seq<char> {
    if secs < 3600 {
        text::decimal((secs / 60) as nat) + "m"@
    } else if secs < 86400 {
        text::decimal((secs / 3600) as nat) + "h"@
    } else {
        "24h"@
    }
}

/// How the span of a zoom level is named.
pub fn zoom_label(level: usize) -> (r: String)
    ensures
        r@ == span_name(zoom_span(level as int)),
{
    let secs = zoom_secs(level);
    if secs < 3600 {
        text::cat(text::to_decimal((secs / 60) as u64).as_str(), "m")
    } else if secs < 86400 {
        text::cat(text::to_decimal((secs / 3600) as u64).as_str(), "h")
    } else {
        "24h".to_string()
    }
}

/// The number of seconds between two ticks of the axis.
pub open spec fn tick_span(span: int) -> int {
    if span <= 1200 {
        120
    } else if span <= 2400 {
        300
    } else if span <= 3600 {
        600
    } else if span <= 7200 {
        900
    } else if span <= 14400 {
        1800
    } else if span <= 28800 {
        3600
    } else {
        10800
    }
}

fn tick_secs(span: i64) -> (r: i64)
    ensures
        r == tick_span(span as int),
{
    if span <= 1200 {
        120
    } else if span <= 2400 {
        300
    } else if span <= 3600 {
        600
    } else if span <= 7200 {
        900
    } else if span <= 14400 {
        1800
    } else if span <= 28800 {
        3600
    } else {
        10800
    }
}

/// A number with its sign, a plus for zero too.
pub open spec fn with_sign(n: int) -> Seq<char> {
    if n < 0 {
        "-"@ + text::decimal((-n) as nat)
    } else {
        "+"@ + text::decimal(n as nat)
    }
}

/// The whole units in a number of seconds, towards zero.
pub open spec fn whole(secs: int, unit: int) -> int {
    if secs < 0 {
        -((-secs) / unit)
    } else {
        secs / unit
    }
}

/// The label of the tick `offset` seconds from now.
pub open spec fn tick_label(offset: int, span: int) -> Seq<char> {
    if offset == 0 {
        "now"@
    } else if span <= 3600 {
        with_sign(whole(offset, 60)) + "m"@
    } else {
        with_sign(whole(offset, 3600)) + "h"@
    }
}

/// The tick `i`: three quarters of the span lie before now.
pub open spec fn tick(i: int, span: int) -> (int, Seq<char>) {
    let offset = i * tick_span(span) - span * 3 / 4;
    (offset, tick_label(offset, span))
}

/// A tick of the axis: how many seconds from now, and its label.
pub struct Tick {
    pub offset: i64,
    pub label: String,
}

pub open spec fn tick_views(v: Seq<Tick>) -> Seq<(int, Seq<char>)> {
    v.map_values(|t: Tick| (t.offset as int, t.label@))
}

fn signed(n: i64) -> (r: String)
    requires
        -10_000_000 < n < 10_000_000,
    ensures
        r@ == with_sign(n as int),
{
    if n < 0 {
        text::cat("-", text::to_decimal((0 - n) as u64).as_str())
    } else {
        text::cat("+", text::to_decimal(n as u64).as_str())
    }
}

fn whole_units(secs: i64, unit: i64) -> (r: i64)
    requires
        -10_000_000 < secs < 10_000_000,
        0 < unit,
    ensures
        r == whole(secs as int, unit as int),
        -10_000_000 < r < 10_000_000,
{
    if secs < 0 {
        let p = (0 - secs) / unit;
        assert(0 <= p <= -secs) by (nonlinear_arith)
            requires
                p == (-secs) / (unit as int),
                secs < 0,
                unit > 0,
        ;
        0 - p
    } else {
        let p = secs / unit;
        assert(0 <= p <= secs) by (nonlinear_arith)
            requires
                p == secs as int / unit as int,
                secs >= 0,
                unit > 0,
        ;
        p
    }
}

/// The ticks of the axis, from the start of the span to its end.
pub fn axis(level: usize) -> (r: Vec<Tick>)
    ensures
        ({
            let span = zoom_span(level as int);
            tick_views(r@) == Seq::new(
                (span / tick_span(span) + 1) as nat,
                |i: int| tick(i, span),
            )
        }),
{
    let span = zoom_secs(level);
    let step = tick_secs(span);
    let n = span / step;
    let ghost all = Seq::new((n + 1) as nat, |i: int| tick(i, span as int));
    let mut out: Vec<Tick> = Vec::new();
    let mut i: i64 = 0;
    assert(tick_views(out@) =~= all.take(0));
    while i <= n
        invariant
            0 <= i <= n + 1,
            n <= 100,
            span == zoom_span(level as int),
            step == tick_span(span as int),
            all == Seq::new((n + 1) as nat, |i: int| tick(i, span as int)),
            tick_views(out@) == all.take(i as int),
        decreases n + 1 - i,
    {
        assert(0 <= i * step <= 100 * 10800) by (nonlinear_arith)
            requires
                0 <= i <= 100,
                0 <= step <= 10800,
        ;
        let offset = i * step - span * 3 / 4;
        let label = if offset == 0 {
            "now".to_string()
        } else if span <= 3600 {
            text::cat(signed(whole_units(offset, 60)).as_str(), "m")
        } else {
            text::cat(signed(whole_units(offset, 3600)).as_str(), "h")
        };
        let ghost before = tick_views(out@);
        let ghost l = label@;
        out.push(Tick { offset, label });
        assert(tick_views(out@) =~= before.push((offset as int, l)));
        i += 1;
        assert(tick_views(out@) =~= all.take(i as int));
    }
    assert(tick_views(out@) =~= all);
    out
}

// -- bars --------------------------------------------------------------------

/// What a bar stands for.
#[derive(Clone, Copy, Debug, PartialEq, Eq, Structural)]
pub enum BarClass {
    Done,
    Error,
    Running,
    Future,
}

/// A bar from one time to another.
#[derive(Clone, Copy, Debug, PartialEq, Eq, Structural)]
pub struct Bar {
    pub start: i128,
    pub end: i128,
    pub class: BarClass,
}

/// The colour of a bar and how much of it shows.
pub fn bar_style(class: BarClass) -> (r: (&'static str, &'static str))
    ensures
        (r.0@, r.1@) == match class {
            BarClass::Done => ("var(--green)"@, "0.5"@),
            BarClass::Error => ("var(--red)"@, "0.7"@),
            BarClass::Running => ("var(--accent)"@, "0.7"@),
            BarClass::Future => ("var(--accent)"@, "0.15"@),
        },
{
    match class {
        BarClass::Done => ("var(--green)", "0.5"),
        BarClass::Error => ("var(--red)", "0.7"),
        BarClass::Running => ("var(--accent)", "0.7"),
        BarClass::Future => ("var(--accent)", "0.15"),
    }
}

/// The status of an agent, as far as the timeline tells it apart.
#[derive(Clone, Copy, Debug, PartialEq, Eq, Structural)]
pub enum Mood {
    /// Idle or done.
    Rested,
    Failed,
    /// Running or queued.
    Busy,
    Other,
}

pub open spec fn mood(status: Seq<char>) -> Mood {
    if status == "idle"@ || status == "done"@ {
        Mood::Rested
    } else if status == "error"@ {
        Mood::Failed
    } else if status == "running"@ || status == "queued"@ {
        Mood::Busy
    } else {
        Mood::Other
    }
}

/// The status of an agent, as far as the timeline tells it apart.
pub fn mood_of(status: &str) -> (r: Mood)
    ensures
        r == mood(status@),
{
    if text::same(status, "idle") || text::same(status, "done") {
        Mood::Rested
    } else if text::same(status, "error") {
        Mood::Failed
    } else if text::same(status, "running") || text::same(status, "queued") {
        Mood::Busy
    } else {
        Mood::Other
    }
}

/// What is known of an agent's times.
#[derive(Clone, Copy, Debug, PartialEq, Eq, Structural)]
pub struct Times {
    pub started: Option<i64>,
    pub cycle_started: Option<i64>,
    pub cycle_completed: Option<i64>,
}

/// The part of time that is shown.
#[derive(Clone, Copy, Debug, PartialEq, Eq, Structural)]
pub struct Window {
    pub now: i64,
    pub span_secs: i64,
}

pub open spec fn window_start(w: Window) -> int {
    w.now - w.span_secs * 1000 * 3 / 4
}

pub open spec fn window_end(w: Window) -> int {
    w.now + w.span_secs * 1000 / 4
}

/// A window of a zoom level at a time that a date can have.
pub open spec fn window_ok(w: Window) -> bool {
    0 <= w.now <= 8_640_000_000_000_000 && 0 < w.span_secs <= 86400
}

/// A time that a date can have.
pub open spec fn date_ok(t: Option<i64>) -> bool {
    t matches Some(v) ==> 0 < v <= 8_640_000_000_000_000
}

pub open spec fn lesser(a: int, b: int) -> int {
    if a < b {
        a
    } else {
        b
    }
}

pub open spec fn greater(a: int, b: int) -> int {
    if a > b {
        a
    } else {
        b
    }
}

/// A bar cut to the window.
pub open spec fn clipped(w: Window, start: int, end: int, class: BarClass) -> (int, int, BarClass) {
    (greater(start, window_start(w)), lesser(end, window_end(w)), class)
}

pub open spec fn bar_views(v: Seq<Bar>) -> Seq<(int, int, BarClass)> {
    v.map_values(|b: Bar| (b.start as int, b.end as int, b.class))
}

/// The bar of an agent that runs once: from its start to its end, or to now.
pub open spec fn manual_bar(w: Window, t: Times, m: Mood) -> Seq<(int, int, BarClass)> {
    match t.started {
        None => Seq::empty(),
        Some(s) => seq![
            clipped(
                w,
                s as int,
                match t.cycle_completed {
                    Some(c) => c as int,
                    None => w.now as int,
                },
                match m {
                    Mood::Failed => BarClass::Error,
                    Mood::Busy => BarClass::Running,
                    _ => BarClass::Done,
                },
            ),
        ],
    }
}

/// When a cycle ended that is over or failed: when it was completed, at its end at the latest.
pub open spec fn cycle_over(t: Times, end: int) -> int {
    match t.cycle_completed {
        Some(c) => lesser(c as int, end),
        None => end,
    }
}

/// The bar of the cycle `idx` intervals from the one that started at `cs`. Of the cycles
/// that are over only that one has a bar, and only if the agent rested or failed. The
/// current one has a bar if the agent is busy or it is that one. A coming one is shown by
/// a tenth of its length.
pub open spec fn cycle_bar(w: Window, t: Times, m: Mood, cs: int, interval: int, idx: int) -> Option<
    (int, int, BarClass),
> {
    let start = cs + idx * interval;
    let end = start + interval;
    let now = w.now as int;
    if t.started is Some && end < t.started->0 {
        None
    } else if end <= now {
        if idx != 0 {
            None
        } else {
            match m {
                Mood::Rested => Some(clipped(w, start, cycle_over(t, end), BarClass::Done)),
                Mood::Failed => Some(clipped(w, start, cycle_over(t, end), BarClass::Error)),
                _ => None,
            }
        }
    } else if start <= now {
        if m != Mood::Busy && !(start <= cs < end) {
            None
        } else {
            match m {
                Mood::Rested => Some(clipped(w, start, cycle_over(t, end), BarClass::Done)),
                Mood::Failed => Some(clipped(w, start, cycle_over(t, end), BarClass::Error)),
                _ => Some(clipped(w, start, now, BarClass::Running)),
            }
        }
    } else {
        Some(clipped(w, start, start + interval / 10, BarClass::Future))
    }
}

/// The bars of the cycles from `idx` to `last`.
pub open spec fn cycle_bars(
    w: Window,
    t: Times,
    m: Mood,
    cs: int,
    interval: int,
    idx: int,
    last: int,
) -> Seq<(int, int, BarClass)>
    decreases last + 1 - idx,
{
    if idx > last {
        Seq::empty()
    } else {
        let rest = cycle_bars(w, t, m, cs, interval, idx + 1, last);
        match cycle_bar(w, t, m, cs, interval, idx) {
            Some(b) => seq![b] + rest,
            None => rest,
        }
    }
}

/// The first cycle that starts in the window.
pub open spec fn first_cycle(w: Window, cs: int, interval: int) -> int {
    -((cs - window_start(w)) / interval)
}

/// The last cycle that starts in the window.
pub open spec fn last_cycle(w: Window, cs: int, interval: int) -> int {
    (window_end(w) - cs) / interval
}

/// A cycle that was completed before the current one.
#[derive(Clone, Copy, Debug, PartialEq, Eq, Structural)]
pub struct SavedCycle {
    pub start: Option<i64>,
    pub end: Option<i64>,
    pub failed: bool,
}

/// The bar of an earlier cycle, where its times are known and it touches the window.
pub open spec fn saved_bar(w: Window, interval: int, c: SavedCycle) -> Option<
    (int, int, BarClass),
> {
    match (c.start, c.end) {
        (Some(s), Some(e)) => {
            let end = lesser(e as int, s + interval);
            if end >= window_start(w) && s <= window_end(w) {
                Some(
                    clipped(
                        w,
                        s as int,
                        end,
                        if c.failed {
                            BarClass::Error
                        } else {
                            BarClass::Done
                        },
                    ),
                )
            } else {
                None
            }
        },
        _ => None,
    }
}

/// The bars of earlier cycles, in order.
pub open spec fn saved_bars(w: Window, interval: int, cs: Seq<SavedCycle>) -> Seq<
    (int, int, BarClass),
>
    decreases cs.len(),
{
    if cs.len() == 0 {
        Seq::empty()
    } else {
        let before = saved_bars(w, interval, cs.drop_last());
        match saved_bar(w, interval, cs.last()) {
            Some(b) => before.push(b),
            None => before,
        }
    }
}

/// The length of an interval.
pub open spec fn interval_ms(mins: nat) -> int {
    mins as int * 60_000
}

/// What a row shows.
pub enum RowBars {
    /// These bars.
    Bars(Vec<Bar>),
    /// A bar up to now: the agent is scheduled, and nothing is known of its cycle.
    Unknown,
}

/// What the row of an agent with an interval shows: without an interval the bar of its one
/// run; otherwise the bars of its cycles in the window, then those of earlier ones.
pub open spec fn row_bars(
    w: Window,
    t: Times,
    m: Mood,
    mins: nat,
    saved: Seq<SavedCycle>,
) -> Option<Seq<(int, int, BarClass)>> {
    if mins == 0 {
        Some(manual_bar(w, t, m))
    } else {
        match t.cycle_started {
            None => None,
            Some(cs) => {
                let interval = interval_ms(mins);
                Some(
                    cycle_bars(
                        w,
                        t,
                        m,
                        cs as int,
                        interval,
                        first_cycle(w, cs as int, interval),
                        last_cycle(w, cs as int, interval),
                    ) + saved_bars(w, interval, saved),
                )
            },
        }
    }
}

pub open spec fn row_view(r: RowBars) -> Option<Seq<(int, int, BarClass)>> {
    match r {
        RowBars::Bars(v) => Some(bar_views(v@)),
        RowBars::Unknown => None,
    }
}

fn start_of(w: Window) -> (r: i128)
    requires
        window_ok(w),
    ensures
        r == window_start(w),
{
    w.now as i128 - w.span_secs as i128 * 1000 * 3 / 4
}

fn end_of(w: Window) -> (r: i128)
    requires
        window_ok(w),
    ensures
        r == window_end(w),
{
    w.now as i128 + w.span_secs as i128 * 1000 / 4
}

fn clip(w: Window, start: i128, end: i128, class: BarClass) -> (r: Bar)
    requires
        window_ok(w),
    ensures
        (r.start as int, r.end as int, r.class) == clipped(w, start as int, end as int, class),
{
    let a = start_of(w);
    let b = end_of(w);
    Bar {
        start: if start > a {
            start
        } else {
            a
        },
        end: if end < b {
            end
        } else {
            b
        },
        class,
    }
}

fn floor_div(a: i128, b: i128) -> (r: i128)
    requires
        0 < b,
        -0x1000_0000_0000_0000_0000_0000 < a < 0x1000_0000_0000_0000_0000_0000,
        b < 0x1000_0000_0000_0000_0000_0000,
    ensures
        r == a as int / b as int,
        -0x1000_0000_0000_0000_0000_0000 <= r <= 0x1000_0000_0000_0000_0000_0000,
{
    if a >= 0 {
        let q = a / b;
        assert(0 <= q <= a) by (nonlinear_arith)
            requires
                q == a as int / b as int,
                a >= 0,
                b > 0,
        ;
        q
    } else {
        let q = (0 - a + (b - 1)) / b;
        assert(-q == a as int / b as int && 0 <= q <= -a) by (nonlinear_arith)
            requires
                q == (-a + (b - 1)) / (b as int),
                a < 0,
                b > 0,
        ;
        0 - q
    }
}

fn cycle_bar_of(w: Window, t: Times, m: Mood, cs: i64, interval: i128, idx: i128) -> (r: Option<Bar>)
    requires
        window_ok(w),
        date_ok(t.started),
        date_ok(t.cycle_completed),
        0 < cs <= 8_640_000_000_000_000,
        0 < interval <= 0x1_0000_0000_0000_0000_0000,
        -0x1000_0000_0000_0000_0000_0000 <= idx * interval
            <= 0x1000_0000_0000_0000_0000_0000,
    ensures
        cycle_bar(w, t, m, cs as int, interval as int, idx as int) == match r {
            Some(b) => Some((b.start as int, b.end as int, b.class)),
            None => None,
        },
{
    let start: i128 = cs as i128 + idx * interval;
    let end: i128 = start + interval;
    let now: i128 = w.now as i128;
    if let Some(s) = t.started {
        if end < s as i128 {
            return None;
        }
    }
    let over: i128 = match t.cycle_completed {
        Some(c) => if (c as i128) < end {
            c as i128
        } else {
            end
        },
        None => end,
    };
    if end <= now {
        if idx != 0 {
            return None;
        }
        match m {
            Mood::Rested => Some(clip(w, start, over, BarClass::Done)),
            Mood::Failed => Some(clip(w, start, over, BarClass::Error)),
            _ => None,
        }
    } else if start <= now {
        let here = start <= cs as i128 && (cs as i128) < end;
        if m != Mood::Busy && !here {
            return None;
        }
        match m {
            Mood::Rested => Some(clip(w, start, over, BarClass::Done)),
            Mood::Failed => Some(clip(w, start, over, BarClass::Error)),
            _ => Some(clip(w, start, now, BarClass::Running)),
        }
    } else {
        Some(clip(w, start, start + interval / 10, BarClass::Future))
    }
}

fn push_saved(out: &mut Vec<Bar>, w: Window, interval: i128, saved: &Vec<SavedCycle>)
    requires
        window_ok(w),
        0 < interval <= 0x1_0000_0000_0000_0000_0000,
    ensures
        bar_views(final(out)@) == bar_views(old(out)@) + saved_bars(w, interval as int, saved@),
{
    let ghost head = bar_views(out@);
    let mut i: usize = 0;
    assert(saved@.take(0) =~= Seq::<SavedCycle>::empty());
    assert(head + Seq::<(int, int, BarClass)>::empty() =~= head);
    while i < saved.len()
        invariant
            i <= saved.len(),
            window_ok(w),
            0 < interval <= 0x1_0000_0000_0000_0000_0000,
            bar_views(out@) == head + saved_bars(w, interval as int, saved@.take(i as int)),
        decreases saved.len() - i,
    {
        let ghost before = bar_views(out@);
        assert(saved@.take(i + 1).drop_last() =~= saved@.take(i as int));
        assert(saved@.take(i + 1).last() == saved[i as int]);
        let c = saved[i];
        if let Some(s) = c.start {
            if let Some(e) = c.end {
                let most: i128 = s as i128 + interval;
                let end: i128 = if (e as i128) < most {
                    e as i128
                } else {
                    most
                };
                if end >= start_of(w) && s as i128 <= end_of(w) {
                    let class = if c.failed {
                        BarClass::Error
                    } else {
                        BarClass::Done
                    };
                    let b = clip(w, s as i128, end, class);
                    out.push(b);
                    assert(bar_views(out@) =~= before.push(
                        (b.start as int, b.end as int, b.class),
                    ));
                }
            }
        }
        i += 1;
        assert(bar_views(out@) =~= head + saved_bars(w, interval as int, saved@.take(i as int)));
    }
    assert(saved@.take(i as int) =~= saved@);
}

proof fn lemma_cycle_range(idx: int, first: int, last: int, interval: int, bound: int)
    requires
        first <= idx <= last,
        0 < interval,
        -bound <= first * interval,
        last * interval <= bound,
    ensures
        -bound <= idx * interval <= bound,
{
    assert(first * interval <= idx * interval <= last * interval) by (nonlinear_arith)
        requires
            first <= idx <= last,
            0 < interval,
    ;
}

/// What the row of an agent shows.
pub fn bars(w: Window, t: Times, m: Mood, interval_mins: u64, saved: &Vec<SavedCycle>) -> (r:
    RowBars)
    requires
        window_ok(w),
        date_ok(t.started),
        date_ok(t.cycle_started),
        date_ok(t.cycle_completed),
    ensures
        row_view(r) == row_bars(w, t, m, interval_mins as nat, saved@),
{
    let mut out: Vec<Bar> = Vec::new();
    assert(bar_views(out@) =~= Seq::<(int, int, BarClass)>::empty());
    if interval_mins == 0 {
        if let Some(s) = t.started {
            let end: i128 = match t.cycle_completed {
                Some(c) => c as i128,
                None => w.now as i128,
            };
            let class = match m {
                Mood::Failed => BarClass::Error,
                Mood::Busy => BarClass::Running,
                _ => BarClass::Done,
            };
            out.push(clip(w, s as i128, end, class));
            assert(bar_views(out@) =~= manual_bar(w, t, m));
        }
        return RowBars::Bars(out);
    }
    let cs = match t.cycle_started {
        Some(cs) => cs,
        None => {
            return RowBars::Unknown;
        },
    };
    let interval: i128 = interval_mins as i128 * 60_000;
    let lo = start_of(w);
    let hi = end_of(w);
    let back = floor_div(cs as i128 - lo, interval);
    let first: i128 = 0 - back;
    let last: i128 = floor_div(hi - cs as i128, interval);
    let ghost all = cycle_bars(
        w,
        t,
        m,
        cs as int,
        interval as int,
        first as int,
        last as int,
    );
    proof {
        let a = cs as int - lo as int;
        assert(first * interval >= -a && first * interval >= -20_000_000_000_000_000) by (
        nonlinear_arith)
            requires
                first == -(a / (interval as int)),
                0 < interval,
                a <= 20_000_000_000_000_000,
        ;
        let b = hi as int - cs as int;
        assert(last * interval <= b) by (nonlinear_arith)
            requires
                last == b / (interval as int),
                0 < interval,
        ;
    }
    let mut idx: i128 = first;
    assert(bar_views(out@) + all =~= all);
    while idx <= last
        invariant
            first <= idx <= last + 1 || idx == first,
            -0x1000_0000_0000_0000_0000_0000 <= first,
            last <= 0x1000_0000_0000_0000_0000_0000,
            window_ok(w),
            date_ok(t.started),
            date_ok(t.cycle_completed),
            0 < cs <= 8_640_000_000_000_000,
            0 < interval <= 0x1_0000_0000_0000_0000_0000,
            first * interval >= -20_000_000_000_000_000,
            last * interval <= 20_000_000_000_000_000,
            all == cycle_bars(w, t, m, cs as int, interval as int, first as int, last as int),
            bar_views(out@) + cycle_bars(
                w,
                t,
                m,
                cs as int,
                interval as int,
                idx as int,
                last as int,
            ) == all,
        decreases last + 1 - idx,
    {
        let ghost before = bar_views(out@);
        proof {
            lemma_cycle_range(
                idx as int,
                first as int,
                last as int,
                interval as int,
                20_000_000_000_000_000,
            );
        }
        if let Some(b) = cycle_bar_of(w, t, m, cs, interval, idx) {
            out.push(b);
            proof {
                let v = (b.start as int, b.end as int, b.class);
                let rest = cycle_bars(
                    w,
                    t,
                    m,
                    cs as int,
                    interval as int,
                    idx + 1,
                    last as int,
                );
                assert(bar_views(out@) =~= before.push(v));
                assert(before + (seq![v] + rest) =~= bar_views(out@) + rest);
            }
        }
        idx += 1;
    }
    assert(bar_views(out@) + Seq::<(int, int, BarClass)>::empty() =~= bar_views(out@));
    push_saved(&mut out, w, interval, saved);
    RowBars::Bars(out)
}

/// Every bar of a cycle lies inside the window.
pub proof fn law_bars_stay_in_the_window(
    w: Window,
    t: Times,
    m: Mood,
    cs: int,
    interval: int,
    idx: int,
)
    ensures
        cycle_bar(w, t, m, cs, interval, idx) matches Some(b) ==> window_start(w) <= b.0 && b.1
            <= window_end(w),
{
}

/// A cycle that is over has no bar, unless it is the one that the agent ran last.
pub proof fn law_past_cycles_are_not_drawn(
    w: Window,
    t: Times,
    m: Mood,
    cs: int,
    interval: int,
    idx: int,
)
    requires
        idx != 0,
        cs + idx * interval + interval <= w.now,
    ensures
        cycle_bar(w, t, m, cs, interval, idx) is None,
{
}

/// The window lies round now: three quarters of it before, one quarter behind.
pub proof fn law_window(w: Window)
    requires
        window_ok(w),
        w.span_secs % 4 == 0,
    ensures
        window_end(w) - window_start(w) == w.span_secs * 1000,
        w.now - window_start(w) == 3 * (window_end(w) - w.now),
{
}

/// The first cycle that is drawn is the first that starts in the window, and the last one the
/// last.
pub proof fn law_cycles_in_the_window(w: Window, cs: int, interval: int)
    requires
        interval > 0,
    ensures
        ({
            let first = first_cycle(w, cs, interval);
            let last = last_cycle(w, cs, interval);
            &&& cs + (first - 1) * interval < window_start(w) <= cs + first * interval
            &&& cs + last * interval <= window_end(w) < cs + (last + 1) * interval
        }),
{
    let a = cs - window_start(w);
    let b = window_end(w) - cs;
    let first = first_cycle(w, cs, interval);
    let last = last_cycle(w, cs, interval);
    assert(first * interval == -((a / interval) * interval)) by (nonlinear_arith)
        requires
            first == -(a / interval),
    ;
    assert((first - 1) * interval == first * interval - interval) by (nonlinear_arith);
    assert((last + 1) * interval == last * interval + interval) by (nonlinear_arith);
    assert(a == interval * (a / interval) + a % interval && 0 <= a % interval < interval)
        by (nonlinear_arith)
        requires
            interval > 0,
    ;
    assert(b == interval * (b / interval) + b % interval && 0 <= b % interval < interval)
        by (nonlinear_arith)
        requires
            interval > 0,
    ;
    assert((a / interval) * interval == interval * (a / interval)) by (nonlinear_arith);
    assert(last * interval == interval * (b / interval)) by (nonlinear_arith)
        requires
            last == b / interval,
    ;
}

/// The bar of every cycle that has one is drawn.
pub proof fn law_every_cycle_is_drawn(
    w: Window,
    t: Times,
    m: Mood,
    cs: int,
    interval: int,
    idx: int,
    last: int,
    k: int,
)
    requires
        idx <= k <= last,
    ensures
        cycle_bar(w, t, m, cs, interval, k) matches Some(b) ==> cycle_bars(
            w,
            t,
            m,
            cs,
            interval,
            idx,
            last,
        ).contains(b),
    decreases last + 1 - idx,
{
    let rest = cycle_bars(w, t, m, cs, interval, idx + 1, last);
    let all = cycle_bars(w, t, m, cs, interval, idx, last);
    if let Some(b) = cycle_bar(w, t, m, cs, interval, k) {
        if k == idx {
            assert(all[0] == b);
        } else {
            law_every_cycle_is_drawn(w, t, m, cs, interval, idx + 1, last, k);
            let i = choose|i: int| 0 <= i < rest.len() && rest[i] == b;
            if cycle_bar(w, t, m, cs, interval, idx) is Some {
                assert(all[i + 1] == b);
            } else {
                assert(all[i] == b);
            }
        }
    }
}

/// The cycle that runs is drawn from its start up to now.
pub proof fn law_running_cycle(w: Window, t: Times, cs: int, interval: int, idx: int)
    requires
        interval > 0,
        cs + idx * interval <= w.now < cs + idx * interval + interval,
        t.started matches Some(s) ==> s <= w.now,
        window_start(w) <= cs + idx * interval,
        w.now <= window_end(w),
    ensures
        cycle_bar(w, t, Mood::Busy, cs, interval, idx) == Some(
            (cs + idx * interval, w.now as int, BarClass::Running),
        ),
{
}

/// A cycle that is to come is drawn from its start for a tenth of its length, whatever the agent
/// does now.
pub proof fn law_coming_cycle(w: Window, t: Times, m: Mood, cs: int, interval: int, idx: int)
    requires
        interval > 0,
        w.now < cs + idx * interval,
        t.started matches Some(s) ==> s <= w.now,
        window_start(w) <= cs + idx * interval,
        cs + idx * interval + interval / 10 <= window_end(w),
    ensures
        cycle_bar(w, t, m, cs, interval, idx) == Some(
            (cs + idx * interval, cs + idx * interval + interval / 10, BarClass::Future),
        ),
{
}

/// The last cycle of an agent that rests or failed is drawn from its start to its completion,
/// and never beyond its interval.
pub proof fn law_completed_cycle(w: Window, t: Times, cs: int, interval: int, done: i64)
    requires
        interval > 0,
        cs <= w.now,
        t.cycle_completed == Some(done),
        t.started matches Some(s) ==> s <= cs + interval,
        window_start(w) <= cs,
        done <= cs + interval && done <= window_end(w),
    ensures
        cycle_bar(w, t, Mood::Rested, cs, interval, 0) == Some((cs, done as int, BarClass::Done)),
        cycle_bar(w, t, Mood::Failed, cs, interval, 0) == Some((cs, done as int, BarClass::Error)),
{
}

/// The run of an agent without an interval is drawn from its start to its end, or to now while
/// it runs.
pub proof fn law_single_run(w: Window, t: Times, m: Mood, s: i64)
    requires
        t.started == Some(s),
        window_start(w) <= s,
        w.now <= window_end(w),
    ensures
        manual_bar(w, t, m).len() == 1,
        manual_bar(w, t, m)[0].0 == s,
        t.cycle_completed is None ==> manual_bar(w, t, m)[0].1 == w.now,
        t.cycle_completed matches Some(c) ==> (c <= window_end(w) ==> manual_bar(w, t, m)[0].1
            == c),
        manual_bar(w, t, Mood::Failed)[0].2 == BarClass::Error,
        manual_bar(w, t, Mood::Busy)[0].2 == BarClass::Running,
        manual_bar(w, t, Mood::Rested)[0].2 == BarClass::Done,
{
}

/// An earlier cycle in the window is drawn with its own times and as what it was, behind those
/// before it; one whose times are unknown or that lies outside is not.
pub proof fn law_earlier_cycles(
    w: Window,
    interval: int,
    before: Seq<SavedCycle>,
    s: i64,
    e: i64,
    failed: bool,
    c: SavedCycle,
)
    requires
        window_start(w) <= s <= e <= window_end(w),
        e <= s + interval,
    ensures
        saved_bars(
            w,
            interval,
            before.push(SavedCycle { start: Some(s), end: Some(e), failed }),
        ) == saved_bars(w, interval, before).push(
            (s as int, e as int, if failed { BarClass::Error } else { BarClass::Done }),
        ),
        c.start is None || c.end is None ==> saved_bars(w, interval, before.push(c)) == saved_bars(
            w,
            interval,
            before,
        ),
        c.start matches Some(x) ==> (x > window_end(w) ==> saved_bars(w, interval, before.push(c))
            == saved_bars(w, interval, before)),
        c.end matches Some(x) ==> (x < window_start(w) ==> saved_bars(w, interval, before.push(c))
            == saved_bars(w, interval, before)),
{
    let x = SavedCycle { start: Some(s), end: Some(e), failed };
    assert(before.push(x).drop_last() =~= before);
    assert(before.push(c).drop_last() =~= before);
}

/// The axis is labelled by the time from now: its ticks are evenly spaced, now is named, and
/// what is past is told from what is to come.
pub proof fn law_axis(i: int, span: int, n: nat)
    ensures
        tick(i + 1, span).0 - tick(i, span).0 == tick_span(span),
        tick(0, span).0 == -(span * 3 / 4),
        tick_label(0, span) == "now"@,
        n > 0 && span <= 3600 ==> tick_label(n as int * 60, span) == "+"@ + text::decimal(n) + "m"@
            && tick_label(-(n as int * 60), span) == "-"@ + text::decimal(n) + "m"@,
        n > 0 && span > 3600 ==> tick_label(n as int * 3600, span) == "+"@ + text::decimal(n)
            + "h"@ && tick_label(-(n as int * 3600), span) == "-"@ + text::decimal(n) + "h"@,
{
    let s = tick_span(span);
    assert((i + 1) * s == i * s + s) by (nonlinear_arith);
    assert(0 * s == 0);
    assert((n as int * 60) / 60 == n as int && (n as int * 3600) / 3600 == n as int);
}

/// Zooming out shows more, and each level is named by what it shows.
pub proof fn law_zoom(level: int, m: nat, h: nat)
    ensures
        0 <= level < 6 ==> zoom_span(level) < zoom_span(level + 1),
        level <= 0 ==> zoom_span(level) == 20 * 60,
        level >= 6 ==> zoom_span(level) == 24 * 3600,
        m < 60 ==> span_name(m as int * 60) == text::decimal(m) + "m"@,
        0 < h < 24 ==> span_name(h as int * 3600) == text::decimal(h) + "h"@,
{
}

/// The status of an agent decides what its bar says.
pub proof fn law_moods(status: Seq<char>)
    ensures
        mood("idle"@) == Mood::Rested && mood("done"@) == Mood::Rested,
        mood("error"@) == Mood::Failed,
        mood("running"@) == Mood::Busy && mood("queued"@) == Mood::Busy,
        status != "idle"@ && status != "done"@ && status != "error"@ && status != "running"@
            && status != "queued"@ ==> mood(status) == Mood::Other,
{
    reveal_strlit("idle");
    reveal_strlit("done");
    reveal_strlit("error");
    reveal_strlit("running");
    reveal_strlit("queued");
    assert("idle"@.len() == 4 && "done"@.len() == 4 && "error"@.len() == 5);
    assert("running"@.len() == 7 && "queued"@.len() == 6);
}

/// An interval of so many minutes lasts so many minutes.
pub proof fn law_interval(mins: nat)
    ensures
        interval_ms(mins + 1) == interval_ms(mins) + 60 * 1000,
        interval_ms(0) == 0,
{
}

/// A row without an interval shows its one run; one with an interval shows its cycles and then
/// the earlier ones; and one whose cycle is unknown is told from one that has nothing to show.
pub proof fn law_rows_show_their_bars(
    w: Window,
    t: Times,
    m: Mood,
    mins: nat,
    saved: Seq<SavedCycle>,
    i: int,
)
    ensures
        row_bars(w, t, m, 0, saved) == Some(manual_bar(w, t, m)),
        mins > 0 && t.cycle_started is None ==> row_bars(w, t, m, mins, saved) is None,
        mins > 0 && t.cycle_started is Some ==> (row_bars(w, t, m, mins, saved) matches Some(bars)
            && (0 <= i < saved.len() ==> (saved_bar(w, interval_ms(mins), saved[i]) matches Some(b)
            ==> bars.contains(b)))),
{
    if mins > 0 && t.cycle_started is Some && 0 <= i < saved.len() {
        let interval = interval_ms(mins);
        if let Some(b) = saved_bar(w, interval, saved[i]) {
            lemma_saved(w, interval, saved, i);
            let late = saved_bars(w, interval, saved);
            let bars = row_bars(w, t, m, mins, saved)->0;
            let k = choose|k: int| 0 <= k < late.len() && late[k] == b;
            assert(bars[bars.len() - late.len() + k] == b);
        }
    }
}

proof fn lemma_saved(w: Window, interval: int, saved: Seq<SavedCycle>, i: int)
    requires
        0 <= i < saved.len(),
        saved_bar(w, interval, saved[i]) is Some,
    ensures
        saved_bars(w, interval, saved).contains(saved_bar(w, interval, saved[i])->0),
    decreases saved.len(),
{
    let all = saved_bars(w, interval, saved);
    let b = saved_bar(w, interval, saved[i])->0;
    let before = saved_bars(w, interval, saved.drop_last());
    if i == saved.len() - 1 {
        assert(all[before.len() as int] == b);
    } else {
        assert(saved.drop_last()[i] == saved[i]);
        lemma_saved(w, interval, saved.drop_last(), i);
        let k = choose|k: int| 0 <= k < before.len() && before[k] == b;
        assert(all[k] == b);
    }
}

} // verus!
