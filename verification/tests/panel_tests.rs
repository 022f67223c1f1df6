use screensnap::panel::{PanelAnimator, DEFAULT_ANIMATION_MS, SIDEBAR_WIDTH};

#[test]
fn starts_closed_and_idle() {
    let p = PanelAnimator::new();
    assert!(!p.is_open);
    assert!(p.animation_start_time.is_none());
    assert_eq!(p.animation_duration_ms, DEFAULT_ANIMATION_MS);
}

#[test]
fn init_layout_pins_to_closed_edge() {
    let mut p = PanelAnimator::new();
    p.init_layout(1000);
    assert_eq!(p.current_x, 1000);
    assert_eq!(p.target_x, 1000);
    assert!(p.layout_initialized);
}

#[test]
fn toggle_aims_at_open_edge() {
    let mut p = PanelAnimator::new();
    p.init_layout(1000);
    p.toggle(5_000, 1000);
    assert!(p.is_open);
    assert_eq!(p.target_x, 1000 - SIDEBAR_WIDTH);
    assert_eq!(p.animation_start_x, 1000);
    assert_eq!(p.animation_start_time, Some(5_000));
}

#[test]
fn step_follows_cubic_ease_out() {
    let mut p = PanelAnimator::new();
    p.init_layout(1000);
    p.toggle(0, 1000);
    // Halfway through 300 ms: eased fraction is (300^3 - 150^3) / 300^3
    // = 7/8, so 350 of the 400 pixels are covered.
    let repaint = p.step(150);
    assert!(repaint);
    assert_eq!(p.current_x, 650);
    assert!(p.animation_start_time.is_some());
}

#[test]
fn completion_snaps_exactly_to_target() {
    let mut p = PanelAnimator::new();
    p.init_layout(1000);
    p.toggle(0, 1000);
    p.step(120);
    let repaint = p.step(300);
    assert!(repaint);
    assert_eq!(p.current_x, 600);
    assert!(p.animation_start_time.is_none());
    // A further frame while idle changes nothing and needs no repaint.
    assert!(!p.step(400));
    assert_eq!(p.current_x, 600);
}

#[test]
fn toggle_sequence_lands_on_final_requested_state() {
    let mut p = PanelAnimator::new();
    p.init_layout(1000);
    p.toggle(0, 1000);
    p.step(100);
    // Toggle back mid-slide: the panel returns from wherever it is.
    p.toggle(100, 1000);
    assert!(!p.is_open);
    assert_eq!(p.target_x, 1000);
    let _ = p.step(500);
    assert_eq!(p.current_x, 1000);
    assert!(p.animation_start_time.is_none());
}

#[test]
fn resize_while_idle_repositions_without_animating() {
    let mut p = PanelAnimator::new();
    p.init_layout(1000);
    p.toggle(0, 1000);
    let _ = p.step(300);
    assert_eq!(p.current_x, 600);
    // The window shrinks while the panel is idle and open.
    p.sync_idle(800);
    assert_eq!(p.current_x, 800 - SIDEBAR_WIDTH);
    assert_eq!(p.target_x, 800 - SIDEBAR_WIDTH);
    assert!(p.animation_start_time.is_none());
}

#[test]
fn resize_does_not_disturb_running_slide() {
    let mut p = PanelAnimator::new();
    p.init_layout(1000);
    p.toggle(0, 1000);
    let before = p.current_x;
    p.sync_idle(800);
    assert_eq!(p.current_x, before);
    assert_eq!(p.target_x, 600);
    assert_eq!(p.animation_start_time, Some(0));
}

#[test]
fn request_close_slides_out() {
    let mut p = PanelAnimator::new();
    p.init_layout(1000);
    p.toggle(0, 1000);
    let _ = p.step(300);
    p.request_close(1_000, 1000);
    assert!(!p.is_open);
    assert_eq!(p.target_x, 1000);
    let _ = p.step(1_300);
    assert_eq!(p.current_x, 1000);
}
