use vstd::prelude::*;

use crate::events::{Action, Button, Click};
use crate::history::{decide, hist_step, ClickHistory, Decision};

verus! {

/// The scale of the weighted-delay bias: a bias of `PPM_SCALE` parts per
/// million is certainty, so every delay is the configured minimum.
pub const PPM_SCALE: u32 = 1000000;

/// Relies on rand's `Rng::gen_range` over the half-open range `low..high`:
/// the result is uniformly sampled from that range, and the call panics only
/// when the range is empty, which the precondition rules out. The generator
/// is `rand::thread_rng`.
#[verifier::external_body]
fn rand_in_range(low: u32, high: u32) -> (r: u32)
    requires
        low < high,
    ensures
        low <= r < high,
{
    rand::Rng::gen_range(&mut rand::thread_rng(), low..high)
}

/// A generated delay is acceptable when it lies in the configured half-open
/// range or equals the minimum (the weighted branch); a bias of the whole
/// scale forces the minimum exactly.
pub open spec fn delay_ok(d: u32, min_delay_ns: u32, max_delay_ns: u32, bias_ppm: u32) -> bool {
    &&& (min_delay_ns <= d < max_delay_ns || d == min_delay_ns)
    &&& (bias_ppm >= PPM_SCALE ==> d == min_delay_ns)
}

/// The shape of a burst of `n` clicks: `2 * n` actions alternating click and
/// delay, starting with a click, every click on the given button and every
/// delay acceptable under the configuration.
pub open spec fn queue_shape(
    q: Seq<Action>,
    button: Button,
    n: int,
    min_delay_ns: u32,
    max_delay_ns: u32,
    bias_ppm: u32,
) -> bool {
    &&& q.len() == 2 * n
    &&& forall|j: int|
        0 <= j < q.len() && j % 2 == 0 ==> #[trigger] q[j] == Action::Click(button)
    &&& forall|j: int|
        0 <= j < q.len() && j % 2 == 1 ==> ((#[trigger] q[j]) matches Action::Delay(d)
            && delay_ok(d, min_delay_ns, max_delay_ns, bias_ppm))
}

/// Whether the guard flags allow an action: a delay always passes, a click
/// only while its button's queue is still current.
pub open spec fn action_permitted(a: Action, left_renew: bool, right_renew: bool) -> bool {
    match a {
        Action::Click(Button::Left) => left_renew,
        Action::Click(Button::Right) => right_renew,
        Action::Delay(_) => true,
    }
}

/// The subsequence of a queue that the guard flags allow, in order.
pub open spec fn permitted_actions(q: Seq<Action>, left_renew: bool, right_renew: bool) -> Seq<Action>
    decreases q.len(),
{
    if q.len() == 0 {
        Seq::empty()
    } else if action_permitted(q[0], left_renew, right_renew) {
        seq![q[0]] + permitted_actions(q.skip(1), left_renew, right_renew)
    } else {
        permitted_actions(q.skip(1), left_renew, right_renew)
    }
}

/// Peeling one element off the front of the suffix at `i` extends the
/// permitted subsequence by that element exactly when the guards allow it.
proof fn lemma_permitted_actions_step(q: Seq<Action>, i: int, left_renew: bool, right_renew: bool)
    requires
        0 <= i < q.len(),
    ensures
        permitted_actions(q.skip(i), left_renew, right_renew) == if action_permitted(
            q[i],
            left_renew,
            right_renew,
        ) {
            seq![q[i]] + permitted_actions(q.skip(i + 1), left_renew, right_renew)
        } else {
            permitted_actions(q.skip(i + 1), left_renew, right_renew)
        },
{
    assert(q.skip(i).skip(1) =~= q.skip(i + 1));
    assert(q.skip(i)[0] == q[i]);
}

/// The coordinator: the per-button rate-limiter state, the planned burst
/// queue, and the configuration it was started with.
pub struct Clicker {
    pub click_queue: Vec<Action>,
    pub min_cps: i32,
    pub extra_clicks: i32,
    pub min_delay_ns: u32,
    pub max_delay_ns: u32,
    pub weighted_rand_delay_ppm: u32,
    pub left_clicks: ClickHistory,
    pub right_clicks: ClickHistory,
}

impl Clicker {
    /// Well-formedness: a valid configuration (a positive rate floor, a
    /// non-negative burst size, an orderly delay range that is non-empty
    /// unless the bias forces the minimum) and skip counts within bounds.
    pub open spec fn wf(self) -> bool {
        &&& self.min_cps > 0
        &&& self.extra_clicks >= 0
        &&& self.min_delay_ns <= self.max_delay_ns
        &&& (self.min_delay_ns < self.max_delay_ns || self.weighted_rand_delay_ppm >= PPM_SCALE)
        &&& 0 <= self.left_clicks.skip_clicks <= self.extra_clicks
        &&& 0 <= self.right_clicks.skip_clicks <= self.extra_clicks
    }

    /// The history that tracks the given button.
    pub open spec fn history_of(self, b: Button) -> ClickHistory {
        match b {
            Button::Left => self.left_clicks,
            Button::Right => self.right_clicks,
        }
    }

    /// An event the engine can process: unless it is a pending synthetic
    /// echo, its timestamp must not precede its button's baseline
    /// (timestamps are monotonic milliseconds).
    pub open spec fn event_admissible(self, event: Click) -> bool {
        self.history_of(event.channel()).skip_clicks > 0 || event.time()
            >= self.history_of(event.channel()).last_clicked
    }

    pub fn new(
        min_cps: i32,
        extra_clicks: i32,
        min_delay_ns: u32,
        max_delay_ns: u32,
        weighted_rand_delay_ppm: u32,
    ) -> (c: Self)
        requires
            min_cps > 0,
            extra_clicks >= 0,
            min_delay_ns <= max_delay_ns,
            min_delay_ns < max_delay_ns || weighted_rand_delay_ppm >= PPM_SCALE,
        ensures
            c.wf(),
            c.min_cps == min_cps,
            c.extra_clicks == extra_clicks,
            c.min_delay_ns == min_delay_ns,
            c.max_delay_ns == max_delay_ns,
            c.weighted_rand_delay_ppm == weighted_rand_delay_ppm,
            c.click_queue@.len() == 0,
            c.left_clicks.last_clicked == 0 && c.left_clicks.skip_clicks == 0
                && c.left_clicks.queue_renew,
            c.right_clicks.last_clicked == 0 && c.right_clicks.skip_clicks == 0
                && c.right_clicks.queue_renew,
    {
        Clicker {
            click_queue: Vec::new(),
            min_cps,
            extra_clicks,
            min_delay_ns,
            max_delay_ns,
            weighted_rand_delay_ppm,
            left_clicks: ClickHistory::new(),
            right_clicks: ClickHistory::new(),
        }
    }

    /// Draw one inter-click delay in nanoseconds: with probability
    /// `weighted_rand_delay_ppm / PPM_SCALE` take the configured minimum,
    /// otherwise sample the full configured range.
    pub fn gen_delay(&self) -> (d: u32)
        requires
            self.min_delay_ns < self.max_delay_ns || self.weighted_rand_delay_ppm >= PPM_SCALE,
        ensures
            delay_ok(d, self.min_delay_ns, self.max_delay_ns, self.weighted_rand_delay_ppm),
    {
        let r: u32 = rand_in_range(0, PPM_SCALE);
        if r < self.weighted_rand_delay_ppm {
            self.min_delay_ns
        } else {
            rand_in_range(self.min_delay_ns, self.max_delay_ns)
        }
    }

    /// Append a burst of `amount` clicks to the queue: one click on the
    /// given button followed by one randomized delay, `amount` times. The
    /// existing queue and all other state are untouched.
    pub fn add_queue(&mut self, amount: i32, button: Button)
        requires
            amount >= 0,
            old(self).min_delay_ns < old(self).max_delay_ns
                || old(self).weighted_rand_delay_ppm >= PPM_SCALE,
        ensures
            final(self).click_queue@.len() == old(self).click_queue@.len() + 2 * amount,
            forall|j: int|
                0 <= j < old(self).click_queue@.len() ==> #[trigger] final(self).click_queue@[j]
                    == old(self).click_queue@[j],
            queue_shape(
                final(self).click_queue@.skip(old(self).click_queue@.len() as int),
                button,
                amount as int,
                old(self).min_delay_ns,
                old(self).max_delay_ns,
                old(self).weighted_rand_delay_ppm,
            ),
            final(self).min_cps == old(self).min_cps,
            final(self).extra_clicks == old(self).extra_clicks,
            final(self).min_delay_ns == old(self).min_delay_ns,
            final(self).max_delay_ns == old(self).max_delay_ns,
            final(self).weighted_rand_delay_ppm == old(self).weighted_rand_delay_ppm,
            final(self).left_clicks == old(self).left_clicks,
            final(self).right_clicks == old(self).right_clicks,
    {
        let mut i: i32 = 0;
        while i < amount
            invariant
                0 <= i <= amount,
                self.min_cps == old(self).min_cps,
                self.extra_clicks == old(self).extra_clicks,
                self.min_delay_ns == old(self).min_delay_ns,
                self.max_delay_ns == old(self).max_delay_ns,
                self.weighted_rand_delay_ppm == old(self).weighted_rand_delay_ppm,
                self.left_clicks == old(self).left_clicks,
                self.right_clicks == old(self).right_clicks,
                self.min_delay_ns < self.max_delay_ns || self.weighted_rand_delay_ppm >= PPM_SCALE,
                self.click_queue@.len() == old(self).click_queue@.len() + 2 * i,
                forall|j: int|
                    0 <= j < old(self).click_queue@.len() ==> #[trigger] self.click_queue@[j]
                        == old(self).click_queue@[j],
                queue_shape(
                    self.click_queue@.skip(old(self).click_queue@.len() as int),
                    button,
                    i as int,
                    self.min_delay_ns,
                    self.max_delay_ns,
                    self.weighted_rand_delay_ppm,
                ),
            decreases amount - i,
        {
            let ghost q0: Seq<Action> = self.click_queue@;
            self.click_queue.push(Action::Click(button));
            let d: u32 = self.gen_delay();
            self.click_queue.push(Action::Delay(d));
            proof {
                let m = old(self).click_queue@.len() as int;
                let s0 = q0.skip(m);
                let s1 = self.click_queue@.skip(m);
                assert(s1 =~= s0 + seq![Action::Click(button), Action::Delay(d)]);
                assert forall|j: int|
                    0 <= j < s1.len() && j % 2 == 0 implies #[trigger] s1[j] == Action::Click(
                    button,
                ) by {
                    if j < s0.len() {
                        assert(s1[j] == s0[j]);
                    } else {
                        assert(j == s0.len() || j == s0.len() + 1);
                        assert(s0.len() % 2 == 0);
                        assert(j == s0.len());
                    }
                }
                assert forall|j: int|
                    0 <= j < s1.len() && j % 2 == 1 implies ((#[trigger] s1[j]) matches Action::Delay(
                    dd,
                ) && delay_ok(dd, self.min_delay_ns, self.max_delay_ns, self.weighted_rand_delay_ppm)) by {
                    if j < s0.len() {
                        assert(s1[j] == s0[j]);
                    } else {
                        assert(j == s0.len() || j == s0.len() + 1);
                        assert(s0.len() % 2 == 0);
                        assert(j == s0.len() + 1);
                        assert(s1[j] == Action::Delay(d));
                    }
                }
            }
            i = i + 1;
        }
    }

    /// Plan a burst for the configured number of extra clicks on the button.
    pub fn enhance_click(&mut self, button: Button)
        requires
            old(self).extra_clicks >= 0,
            old(self).min_delay_ns < old(self).max_delay_ns
                || old(self).weighted_rand_delay_ppm >= PPM_SCALE,
        ensures
            final(self).click_queue@.len() == old(self).click_queue@.len() + 2 * old(self).extra_clicks,
            forall|j: int|
                0 <= j < old(self).click_queue@.len() ==> #[trigger] final(self).click_queue@[j]
                    == old(self).click_queue@[j],
            queue_shape(
                final(self).click_queue@.skip(old(self).click_queue@.len() as int),
                button,
                old(self).extra_clicks as int,
                old(self).min_delay_ns,
                old(self).max_delay_ns,
                old(self).weighted_rand_delay_ppm,
            ),
            final(self).min_cps == old(self).min_cps,
            final(self).extra_clicks == old(self).extra_clicks,
            final(self).min_delay_ns == old(self).min_delay_ns,
            final(self).max_delay_ns == old(self).max_delay_ns,
            final(self).weighted_rand_delay_ppm == old(self).weighted_rand_delay_ppm,
            final(self).left_clicks == old(self).left_clicks,
            final(self).right_clicks == old(self).right_clicks,
    {
        let n: i32 = self.extra_clicks;
        self.add_queue(n, button)
    }

    /// Plan one drain of the queue: every delay, and every click whose
    /// button's guard flag still allows it, in queue order. The caller
    /// performs the returned actions (inject the click, sleep the delay).
    pub fn execute_queue(&self) -> (out: Vec<Action>)
        ensures
            out@ == permitted_actions(
                self.click_queue@,
                self.left_clicks.queue_renew,
                self.right_clicks.queue_renew,
            ),
    {
        let mut out: Vec<Action> = Vec::new();
        let mut i: usize = 0;
        proof {
            assert(self.click_queue@.skip(0) =~= self.click_queue@);
            assert(out@ + permitted_actions(
                self.click_queue@,
                self.left_clicks.queue_renew,
                self.right_clicks.queue_renew,
            ) =~= permitted_actions(
                self.click_queue@,
                self.left_clicks.queue_renew,
                self.right_clicks.queue_renew,
            ));
        }
        while i < self.click_queue.len()
            invariant
                i <= self.click_queue.len(),
                out@ + permitted_actions(
                    self.click_queue@.skip(i as int),
                    self.left_clicks.queue_renew,
                    self.right_clicks.queue_renew,
                ) == permitted_actions(
                    self.click_queue@,
                    self.left_clicks.queue_renew,
                    self.right_clicks.queue_renew,
                ),
            decreases self.click_queue.len() - i,
        {
            let a: Action = self.click_queue[i];
            proof {
                lemma_permitted_actions_step(
                    self.click_queue@,
                    i as int,
                    self.left_clicks.queue_renew,
                    self.right_clicks.queue_renew,
                );
            }
            let ghost out_before: Seq<Action> = out@;
            match a {
                Action::Click(Button::Left) => {
                    if self.left_clicks.queue_renew {
                        out.push(a);
                    }
                },
                Action::Click(Button::Right) => {
                    if self.right_clicks.queue_renew {
                        out.push(a);
                    }
                },
                Action::Delay(_) => {
                    out.push(a);
                },
            }
            proof {
                if action_permitted(a, self.left_clicks.queue_renew, self.right_clicks.queue_renew) {
                    assert(out@ =~= out_before + seq![a]);
                    assert(out@ + permitted_actions(
                        self.click_queue@.skip(i as int + 1),
                        self.left_clicks.queue_renew,
                        self.right_clicks.queue_renew,
                    ) =~= out_before + permitted_actions(
                        self.click_queue@.skip(i as int),
                        self.left_clicks.queue_renew,
                        self.right_clicks.queue_renew,
                    ));
                } else {
                    assert(out@ == out_before);
                }
            }
            i = i + 1;
        }
        proof {
            assert(self.click_queue@.skip(i as int) =~= Seq::<Action>::empty());
            assert(out@ + Seq::<Action>::empty() =~= out@);
        }
        out
    }

    /// Process one received event: clear the stale queue, consult the rate
    /// limiter for the event's button, and on amplification plan a burst of
    /// `extra_clicks` synthetic clicks on the event's payload button. The
    /// other button's history is never touched, and the configuration never
    /// changes.
    pub fn next_tick(&mut self, event: Click)
        requires
            old(self).wf(),
            old(self).event_admissible(event),
        ensures
            final(self).wf(),
            final(self).min_cps == old(self).min_cps,
            final(self).extra_clicks == old(self).extra_clicks,
            final(self).min_delay_ns == old(self).min_delay_ns,
            final(self).max_delay_ns == old(self).max_delay_ns,
            final(self).weighted_rand_delay_ppm == old(self).weighted_rand_delay_ppm,
            final(self).history_of(event.channel()) == hist_step(
                old(self).history_of(event.channel()),
                event.time(),
                old(self).min_cps,
                old(self).extra_clicks,
            ),
            event.channel() == Button::Left ==> final(self).right_clicks == old(self).right_clicks,
            event.channel() == Button::Right ==> final(self).left_clicks == old(self).left_clicks,
            decide(old(self).history_of(event.channel()), event.time(), old(self).min_cps)
                == Decision::Amplify ==> queue_shape(
                final(self).click_queue@,
                event.payload(),
                old(self).extra_clicks as int,
                old(self).min_delay_ns,
                old(self).max_delay_ns,
                old(self).weighted_rand_delay_ppm,
            ),
            decide(old(self).history_of(event.channel()), event.time(), old(self).min_cps)
                != Decision::Amplify ==> final(self).click_queue@.len() == 0,
    {
        match event {
            Click::LeftClick(button, time) => {
                self.left_clicks.queue_renew = false;
                self.click_queue = Vec::new();

                if self.left_clicks.skip_clicks > 0 {
                    self.left_clicks.skip_clicks = self.left_clicks.skip_clicks - 1;
                    return;
                }

                if time - self.left_clicks.last_clicked < (1000 / self.min_cps) as u128 {
                    self.left_clicks.queue_renew = true;
                    self.left_clicks.skip_clicks = self.left_clicks.skip_clicks
                        + self.extra_clicks;
                    self.enhance_click(button);
                    proof {
                        assert(self.click_queue@.skip(0) =~= self.click_queue@);
                    }
                } else {
                    self.click_queue = Vec::new();
                }
                self.left_clicks.last_clicked = time;
            },
            Click::RightClick(button, time) => {
                self.right_clicks.queue_renew = false;
                self.click_queue = Vec::new();

                if self.right_clicks.skip_clicks > 0 {
                    self.right_clicks.skip_clicks = self.right_clicks.skip_clicks - 1;
                    return;
                }

                if time - self.right_clicks.last_clicked < (1000 / self.min_cps) as u128 {
                    self.right_clicks.queue_renew = true;
                    self.right_clicks.skip_clicks = self.right_clicks.skip_clicks
                        + self.extra_clicks;
                    self.enhance_click(button);
                    proof {
                        assert(self.click_queue@.skip(0) =~= self.click_queue@);
                    }
                } else {
                    self.click_queue = Vec::new();
                }
                self.right_clicks.last_clicked = time;
            },
        }
    }
}

} // verus!
