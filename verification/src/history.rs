use vstd::prelude::*;

verus! {

/// Per-button bookkeeping: when the button was last accepted as a human
/// click, whether a freshly built queue may execute, and how many upcoming
/// events are synthetic echoes that must be ignored.
#[derive(Clone, Copy, Debug, PartialEq, Eq, Structural)]
pub struct ClickHistory {
    pub last_clicked: u128,
    pub queue_renew: bool,
    pub skip_clicks: i32,
}

impl ClickHistory {
    pub fn new() -> (h: Self)
        ensures
            h.last_clicked == 0,
            h.skip_clicks == 0,
            h.queue_renew,
    {
        ClickHistory { last_clicked: 0, skip_clicks: 0, queue_renew: true }
    }
}

/// What the rate limiter decides for one incoming event on a button.
#[derive(Clone, Copy, Debug, PartialEq, Eq, Structural)]
pub enum Decision {
    /// The event is a synthetic echo of an earlier burst; drop it.
    Ignore,
    /// The event is a fast repeat; amplify it with a burst.
    Amplify,
    /// The event is an ordinary slow click; let it stand alone.
    PassThrough,
}

/// The minimum gap in milliseconds below which a click counts as fast.
pub open spec fn threshold_ms(min_cps: i32) -> int
    recommends
        min_cps > 0,
{
    1000 as int / min_cps as int
}

/// The rate limiter's decision for one event: echoes are ignored while the
/// skip count is positive; otherwise a click is amplified exactly when it
/// comes sooner than the threshold after the last accepted click.
pub open spec fn decide(h: ClickHistory, time: u128, min_cps: i32) -> Decision {
    if h.skip_clicks > 0 {
        Decision::Ignore
    } else if (time as int - h.last_clicked as int) < threshold_ms(min_cps) {
        Decision::Amplify
    } else {
        Decision::PassThrough
    }
}

/// How one event changes a button's history. An ignored echo only drains
/// the skip count and keeps the timing baseline; an amplified click arms
/// the execution guard and charges the skip count with the burst size; a
/// slow click only moves the baseline.
pub open spec fn hist_step(h: ClickHistory, time: u128, min_cps: i32, extra_clicks: i32) -> ClickHistory {
    match decide(h, time, min_cps) {
        Decision::Ignore => ClickHistory {
            last_clicked: h.last_clicked,
            queue_renew: false,
            skip_clicks: (h.skip_clicks - 1) as i32,
        },
        Decision::Amplify => ClickHistory {
            last_clicked: time,
            queue_renew: true,
            skip_clicks: (h.skip_clicks + extra_clicks) as i32,
        },
        Decision::PassThrough => ClickHistory {
            last_clicked: time,
            queue_renew: false,
            skip_clicks: h.skip_clicks,
        },
    }
}

/// The history a button's state reaches after a sequence of events on that
/// button, given oldest first.
pub open spec fn run_times(h: ClickHistory, times: Seq<u128>, min_cps: i32, extra_clicks: i32) -> ClickHistory
    decreases times.len(),
{
    if times.len() == 0 {
        h
    } else {
        run_times(hist_step(h, times[0], min_cps, extra_clicks), times.skip(1), min_cps, extra_clicks)
    }
}

/// Whether the rate limiter reaches the same decision for every event of a
/// sequence, run in order from the given history.
pub open spec fn all_decisions_are(
    h: ClickHistory,
    times: Seq<u128>,
    min_cps: i32,
    extra_clicks: i32,
    d: Decision,
) -> bool
    decreases times.len(),
{
    times.len() == 0 || {
        &&& decide(h, times[0], min_cps) == d
        &&& all_decisions_are(hist_step(h, times[0], min_cps, extra_clicks), times.skip(1), min_cps, extra_clicks, d)
    }
}

/// The timestamp an event of a sequence is measured against: the previous
/// event's timestamp, or the history's baseline for the first event.
pub open spec fn baseline_before(h: ClickHistory, times: Seq<u128>, j: int) -> int {
    if j == 0 {
        h.last_clicked as int
    } else {
        times[j - 1] as int
    }
}

/// Law: a sequence of clicks on one button, each arriving at least the
/// threshold after the one before it, is passed through every time — no
/// event is ever amplified or ignored, and the skip count stays zero.
pub proof fn lemma_slow_sequence_passes_through(
    h: ClickHistory,
    times: Seq<u128>,
    min_cps: i32,
    extra_clicks: i32,
)
    requires
        min_cps > 0,
        h.skip_clicks == 0,
        forall|j: int|
            0 <= j < times.len() ==> times[j] as int >= #[trigger] baseline_before(h, times, j)
                + threshold_ms(min_cps),
    ensures
        all_decisions_are(h, times, min_cps, extra_clicks, Decision::PassThrough),
        run_times(h, times, min_cps, extra_clicks).skip_clicks == 0,
    decreases times.len(),
{
    if times.len() > 0 {
        assert(times[0] as int >= baseline_before(h, times, 0) + threshold_ms(min_cps));
        let h1 = hist_step(h, times[0], min_cps, extra_clicks);
        let rest = times.skip(1);
        assert forall|j: int|
            0 <= j < rest.len() implies rest[j] as int >= #[trigger] baseline_before(h1, rest, j)
                + threshold_ms(min_cps) by {
            assert(times[j + 1] as int >= baseline_before(h, times, j + 1) + threshold_ms(min_cps));
        }
        lemma_slow_sequence_passes_through(h1, rest, min_cps, extra_clicks);
    }
}

/// Law: while the skip count is at least the number of incoming events on a
/// button, every one of them is classified as an echo and ignored, whatever
/// its timing; the count drains by exactly one per event — monotonically and
/// never below zero — and the timing baseline is untouched.
pub proof fn lemma_skip_drains_monotonically(
    h: ClickHistory,
    times: Seq<u128>,
    min_cps: i32,
    extra_clicks: i32,
)
    requires
        times.len() <= h.skip_clicks,
    ensures
        all_decisions_are(h, times, min_cps, extra_clicks, Decision::Ignore),
        run_times(h, times, min_cps, extra_clicks).skip_clicks == h.skip_clicks - times.len(),
        run_times(h, times, min_cps, extra_clicks).last_clicked == h.last_clicked,
    decreases times.len(),
{
    if times.len() > 0 {
        let h1 = hist_step(h, times[0], min_cps, extra_clicks);
        lemma_skip_drains_monotonically(h1, times.skip(1), min_cps, extra_clicks);
    }
}

/// Law: from a drained history, a click arriving sooner than the threshold
/// is amplified, the skip count becomes exactly the burst size, and the
/// following events — up to that many, whatever their timing — are all
/// ignored while the count drains back down.
pub proof fn lemma_fast_click_amplifies_then_echoes_ignored(
    h: ClickHistory,
    t: u128,
    echoes: Seq<u128>,
    min_cps: i32,
    extra_clicks: i32,
)
    requires
        min_cps > 0,
        extra_clicks >= 0,
        h.skip_clicks == 0,
        (t as int - h.last_clicked as int) < threshold_ms(min_cps),
        echoes.len() <= extra_clicks,
    ensures
        decide(h, t, min_cps) == Decision::Amplify,
        hist_step(h, t, min_cps, extra_clicks).skip_clicks == extra_clicks,
        all_decisions_are(hist_step(h, t, min_cps, extra_clicks), echoes, min_cps, extra_clicks, Decision::Ignore),
        run_times(hist_step(h, t, min_cps, extra_clicks), echoes, min_cps, extra_clicks).skip_clicks
            == extra_clicks - echoes.len(),
{
    lemma_skip_drains_monotonically(hist_step(h, t, min_cps, extra_clicks), echoes, min_cps, extra_clicks);
}

} // verus!
