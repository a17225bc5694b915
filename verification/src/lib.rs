//! Rate-limited click amplification: a state machine that watches physical
//! mouse clicks, ignores its own synthetic echoes, and plans bursts of
//! additional clicks with randomized inter-click delays.

mod engine;
mod events;
mod history;

pub use engine::{
    action_permitted, delay_ok, permitted_actions, queue_shape, Clicker, PPM_SCALE,
};
pub use events::{Action, Button, Click};
pub use history::{
    all_decisions_are, baseline_before, decide, hist_step,
    lemma_fast_click_amplifies_then_echoes_ignored, lemma_skip_drains_monotonically,
    lemma_slow_sequence_passes_through, run_times, threshold_ms, ClickHistory, Decision,
};
