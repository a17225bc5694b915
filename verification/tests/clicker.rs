use autoclicker::{Action, Button, Click, ClickHistory, Clicker};

const MIN_NS: u32 = 10_000_000;
const MAX_NS: u32 = 50_000_000;
const FULL_BIAS: u32 = 1_000_000;

#[test]
fn history_new_defaults() {
    let h = ClickHistory::new();
    assert_eq!(h.last_clicked, 0);
    assert_eq!(h.skip_clicks, 0);
    assert!(h.queue_renew);
}

#[test]
fn clicker_new_defaults() {
    let c = Clicker::new(2, 3, MIN_NS, MAX_NS, 0);
    assert_eq!(c.min_cps, 2);
    assert_eq!(c.extra_clicks, 3);
    assert_eq!(c.min_delay_ns, MIN_NS);
    assert_eq!(c.max_delay_ns, MAX_NS);
    assert_eq!(c.weighted_rand_delay_ppm, 0);
    assert!(c.click_queue.is_empty());
    assert_eq!(c.left_clicks.skip_clicks, 0);
    assert_eq!(c.right_clicks.skip_clicks, 0);
}

#[test]
fn slow_clicks_pass_through() {
    // Threshold is 1000 / 2 = 500 ms; a 600 ms gap is slow.
    let mut c = Clicker::new(2, 3, MIN_NS, MAX_NS, 0);
    c.next_tick(Click::LeftClick(Button::Left, 1000));
    assert!(c.click_queue.is_empty());
    assert_eq!(c.left_clicks.skip_clicks, 0);
    assert_eq!(c.left_clicks.last_clicked, 1000);
    c.next_tick(Click::LeftClick(Button::Left, 1600));
    assert!(c.click_queue.is_empty());
    assert_eq!(c.left_clicks.skip_clicks, 0);
    assert_eq!(c.left_clicks.last_clicked, 1600);
}

#[test]
fn fast_click_amplifies_and_echoes_are_ignored() {
    // Threshold is 500 ms; a 200 ms gap triggers a burst of 3.
    let mut c = Clicker::new(2, 3, MIN_NS, MAX_NS, 0);
    c.next_tick(Click::LeftClick(Button::Left, 1000));
    assert!(c.click_queue.is_empty());
    c.next_tick(Click::LeftClick(Button::Left, 1200));
    assert_eq!(c.click_queue.len(), 6);
    for (j, action) in c.click_queue.iter().enumerate() {
        if j % 2 == 0 {
            assert_eq!(*action, Action::Click(Button::Left));
        } else {
            match *action {
                Action::Delay(d) => assert!(MIN_NS <= d && d < MAX_NS),
                Action::Click(_) => panic!("expected a delay at an odd position"),
            }
        }
    }
    assert_eq!(c.left_clicks.skip_clicks, 3);
    assert!(c.left_clicks.queue_renew);
    assert_eq!(c.left_clicks.last_clicked, 1200);

    // The next three events are ignored whatever their timing, the skip
    // count drains one per event, and the baseline does not move.
    let echo_times: [u128; 3] = [1300, 90_000, 500_000];
    let mut expected_skip: i32 = 3;
    for t in echo_times {
        c.next_tick(Click::LeftClick(Button::Left, t));
        expected_skip -= 1;
        assert_eq!(c.left_clicks.skip_clicks, expected_skip);
        assert!(c.click_queue.is_empty());
        assert!(!c.left_clicks.queue_renew);
        assert_eq!(c.left_clicks.last_clicked, 1200);
    }

    // With the count drained, a slow click passes through again.
    c.next_tick(Click::LeftClick(Button::Left, 500_000));
    assert!(c.click_queue.is_empty());
    assert_eq!(c.left_clicks.skip_clicks, 0);
    assert_eq!(c.left_clicks.last_clicked, 500_000);
}

#[test]
fn queue_alternates_click_delay() {
    let mut c = Clicker::new(2, 3, MIN_NS, MAX_NS, 0);
    c.add_queue(4, Button::Right);
    assert_eq!(c.click_queue.len(), 8);
    for (j, action) in c.click_queue.iter().enumerate() {
        if j % 2 == 0 {
            assert_eq!(*action, Action::Click(Button::Right));
        } else {
            assert!(matches!(*action, Action::Delay(_)));
        }
    }
}

#[test]
fn enhance_click_builds_configured_burst() {
    let mut c = Clicker::new(5, 7, MIN_NS, MAX_NS, 0);
    c.enhance_click(Button::Left);
    assert_eq!(c.click_queue.len(), 14);
    assert_eq!(c.click_queue[0], Action::Click(Button::Left));
}

#[test]
fn generated_delays_stay_in_range() {
    let c = Clicker::new(2, 3, 10, 50, 0);
    for _ in 0..200 {
        let d: u32 = c.gen_delay();
        assert!((10..50).contains(&d));
    }
}

#[test]
fn single_value_range_is_forced() {
    // With a zero bias and the range [10, 11), the only possible delay is 10.
    let c = Clicker::new(2, 3, 10, 11, 0);
    for _ in 0..50 {
        assert_eq!(c.gen_delay(), 10);
    }
}

#[test]
fn full_bias_forces_minimum_delay() {
    let c = Clicker::new(2, 3, MIN_NS, MAX_NS, FULL_BIAS);
    for _ in 0..200 {
        assert_eq!(c.gen_delay(), MIN_NS);
    }
    // Even an empty range is fine when the bias always takes the minimum.
    let same = Clicker::new(2, 3, 7, 7, FULL_BIAS);
    for _ in 0..50 {
        assert_eq!(same.gen_delay(), 7);
    }
    // And a whole burst carries only minimum delays.
    let mut burst = Clicker::new(2, 3, MIN_NS, MAX_NS, FULL_BIAS);
    burst.add_queue(5, Button::Left);
    for (j, action) in burst.click_queue.iter().enumerate() {
        if j % 2 == 1 {
            assert_eq!(*action, Action::Delay(MIN_NS));
        }
    }
}

#[test]
fn buttons_are_independent() {
    let mut c = Clicker::new(2, 3, MIN_NS, MAX_NS, 0);
    let left_before = c.left_clicks;
    c.next_tick(Click::RightClick(Button::Right, 1000));
    c.next_tick(Click::RightClick(Button::Right, 1100));
    assert_eq!(c.left_clicks, left_before);
    assert_eq!(c.right_clicks.skip_clicks, 3);
    assert_eq!(c.click_queue[0], Action::Click(Button::Right));
    let right_after = c.right_clicks;
    c.next_tick(Click::LeftClick(Button::Left, 2000));
    assert_eq!(c.right_clicks, right_after);
}

#[test]
fn execute_queue_guards_clicks_but_keeps_delays() {
    let mut c = Clicker::new(2, 3, MIN_NS, MAX_NS, 0);
    c.click_queue = vec![
        Action::Click(Button::Left),
        Action::Delay(5),
        Action::Click(Button::Right),
        Action::Delay(6),
    ];
    c.left_clicks.queue_renew = false;
    c.right_clicks.queue_renew = true;
    let out = c.execute_queue();
    assert_eq!(out, vec![Action::Delay(5), Action::Click(Button::Right), Action::Delay(6)]);

    c.left_clicks.queue_renew = true;
    let all = c.execute_queue();
    assert_eq!(all.len(), 4);
    assert_eq!(all, c.click_queue);

    c.left_clicks.queue_renew = false;
    c.right_clicks.queue_renew = false;
    let only_delays = c.execute_queue();
    assert_eq!(only_delays, vec![Action::Delay(5), Action::Delay(6)]);
}

#[test]
fn amplified_queue_survives_until_next_event() {
    let mut c = Clicker::new(2, 2, MIN_NS, MAX_NS, 0);
    c.next_tick(Click::LeftClick(Button::Left, 1000));
    c.next_tick(Click::LeftClick(Button::Left, 1100));
    assert_eq!(c.click_queue.len(), 4);
    let out = c.execute_queue();
    assert_eq!(out.len(), 4);
    // The first echo clears the queue again.
    c.next_tick(Click::LeftClick(Button::Left, 1150));
    assert!(c.click_queue.is_empty());
    assert!(c.execute_queue().is_empty());
}
