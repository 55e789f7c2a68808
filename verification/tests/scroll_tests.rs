use logview::scroll::{ScrollState, SCALE};

#[test]
fn mapping_endpoints() {
    let top = ScrollState { fractional_offset: 0, autoscroll: false };
    assert_eq!(top.start_line(1000, 50), 0);
    let bottom = ScrollState { fractional_offset: SCALE, autoscroll: false };
    assert_eq!(bottom.start_line(1000, 50), 950);
    let auto_low = ScrollState { fractional_offset: 0, autoscroll: true };
    assert_eq!(auto_low.start_line(1000, 50), 950);
    let auto_mid = ScrollState { fractional_offset: 123456, autoscroll: true };
    assert_eq!(auto_mid.start_line(1000, 50), 950);
}

#[test]
fn new_state_autoscrolls_at_bottom() {
    let s = ScrollState::new();
    assert!(s.autoscroll);
    assert_eq!(s.fractional_offset, SCALE);
}

#[test]
fn short_history_starts_at_zero() {
    let s = ScrollState::new();
    assert_eq!(s.start_line(10, 50), 0);
    let manual = ScrollState { fractional_offset: SCALE, autoscroll: false };
    assert_eq!(manual.start_line(10, 50), 0);
}

#[test]
fn window_range_spans_viewport() {
    let s = ScrollState { fractional_offset: 500000, autoscroll: false };
    assert_eq!(s.window_range(1000, 50), (475, 525));
    let auto = ScrollState::new();
    assert_eq!(auto.window_range(1000, 50), (950, 1000));
}

#[test]
fn zero_delta_changes_nothing() {
    let mut s = ScrollState::new();
    s.scroll_by(0, 1000, 50);
    assert!(s.autoscroll);
    assert_eq!(s.fractional_offset, SCALE);
}

#[test]
fn scrolling_disables_autoscroll_and_moves() {
    let mut s = ScrollState::new();
    // 95 lines over a 950-line range: a tenth of the scale
    s.scroll_by(95, 1000, 50);
    assert!(!s.autoscroll);
    assert_eq!(s.fractional_offset, SCALE - 100000);
    s.scroll_by(-95, 1000, 50);
    assert_eq!(s.fractional_offset, SCALE);
}

#[test]
fn scroll_clamps_at_both_ends() {
    let mut s = ScrollState::new();
    s.scroll_by(100000, 1000, 50);
    assert_eq!(s.fractional_offset, 0);
    s.scroll_by(-100000, 1000, 50);
    assert_eq!(s.fractional_offset, SCALE);
}

#[test]
fn jump_moves_by_amount() {
    let mut s = ScrollState { fractional_offset: 0, autoscroll: false };
    s.jump_by(100, 1000, 50);
    assert_eq!(s.fractional_offset, 100 * SCALE / 950);
    assert_eq!(s.start_line(1000, 50), 100);
    s.jump_by(-40, 1000, 50);
    assert_eq!(s.start_line(1000, 50), 60);
}

#[test]
fn jump_saturates_at_ends() {
    let mut s = ScrollState { fractional_offset: 0, autoscroll: false };
    s.jump_by(-100, 1000, 50);
    assert_eq!(s.fractional_offset, 0);
    s.jump_by(100000, 1000, 50);
    assert_eq!(s.fractional_offset, SCALE);
    assert!(!s.autoscroll);
}

#[test]
fn jump_keeps_autoscroll_flag() {
    let mut s = ScrollState::new();
    s.jump_by(-100, 1000, 50);
    assert!(s.autoscroll);
    let mut manual = ScrollState { fractional_offset: 0, autoscroll: false };
    manual.jump_by(10, 1000, 50);
    assert!(!manual.autoscroll);
}

#[test]
fn resume_autoscroll_restores_bottom() {
    let mut s = ScrollState { fractional_offset: 3, autoscroll: false };
    s.resume_autoscroll();
    assert!(s.autoscroll);
    assert_eq!(s.fractional_offset, SCALE);
}

#[test]
fn jump_to_line_targets_fraction() {
    let mut s = ScrollState::new();
    s.jump_to_line(500, 1000);
    assert!(!s.autoscroll);
    assert_eq!(s.fractional_offset, 500 * SCALE / 1000);
}
