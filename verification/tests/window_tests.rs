use codex_quota::window::{
    can_anchor, can_clamp_position, capture_slot, clamp_position_to_work_area, normalize_mode,
    panel_anchor, preferred_position, show_panel_plan, window_label_for_mode, PanelSize, PanelState, SizeSlot,
    TrayClickAction, TrayRect, WindowPosition, WindowState, WorkArea, MAIN_WINDOW_LABEL,
    RING_WINDOW_LABEL,
};

#[test]
fn ring_mode_uses_the_dedicated_window() {
    assert_eq!(window_label_for_mode("ring"), RING_WINDOW_LABEL);
    assert_eq!(window_label_for_mode("large"), MAIN_WINDOW_LABEL);
}

#[test]
fn small_mode_and_unknown_modes_use_the_main_window() {
    assert_eq!(window_label_for_mode("small"), "main");
    assert_eq!(window_label_for_mode("Ring"), "main");
    assert_eq!(window_label_for_mode(""), "main");
}

#[test]
fn normalize_mode_keeps_large_and_ring_only() {
    assert_eq!(normalize_mode("large"), "large");
    assert_eq!(normalize_mode("ring"), "ring");
    assert_eq!(normalize_mode("small"), "small");
    assert_eq!(normalize_mode("LARGE"), "small");
    assert_eq!(normalize_mode("tiny"), "small");
    assert_eq!(normalize_mode(normalize_mode("ring")), "ring");
}

#[test]
fn default_window_state_is_hidden_small_and_on_top() {
    let s = WindowState::default();
    assert_eq!(s.mode, "small");
    assert!(s.always_on_top);
    assert!(!s.visible);
}

fn area(x: i32, y: i32, width: u32, height: u32) -> WorkArea {
    WorkArea { x, y, width, height }
}

#[test]
fn clamp_keeps_a_position_inside_the_margins() {
    let monitors = vec![area(0, 0, 1920, 1040)];
    let size = PanelSize { width: 210, height: 30 };
    let inside = WindowPosition { x: 500, y: 400 };
    assert!(can_clamp_position(inside, size, &monitors));
    assert_eq!(clamp_position_to_work_area(inside, size, &monitors), inside);
}

#[test]
fn clamp_pulls_a_position_back_from_the_edges() {
    let monitors = vec![area(0, 0, 1920, 1040)];
    let size = PanelSize { width: 210, height: 30 };
    let low_right = WindowPosition { x: 1900, y: 1030 };
    assert_eq!(
        clamp_position_to_work_area(low_right, size, &monitors),
        WindowPosition { x: 1920 - 210 - 8, y: 1040 - 30 - 8 }
    );
    let up_left = WindowPosition { x: 2, y: -5 };
    assert_eq!(
        clamp_position_to_work_area(up_left, size, &monitors),
        WindowPosition { x: 8, y: 8 }
    );
}

#[test]
fn clamp_uses_the_monitor_that_holds_the_position() {
    let monitors = vec![area(0, 0, 1920, 1040), area(1920, 0, 1280, 1000)];
    let size = PanelSize { width: 200, height: 50 };
    let p = WindowPosition { x: 3150, y: 990 };
    assert_eq!(
        clamp_position_to_work_area(p, size, &monitors),
        WindowPosition { x: 1920 + 1280 - 200 - 8, y: 1000 - 50 - 8 }
    );
}

#[test]
fn clamp_falls_back_to_the_first_monitor() {
    let monitors = vec![area(0, 0, 1920, 1040), area(1920, 0, 1280, 1000)];
    let size = PanelSize { width: 200, height: 50 };
    let p = WindowPosition { x: -500, y: 5000 };
    assert_eq!(
        clamp_position_to_work_area(p, size, &monitors),
        WindowPosition { x: 8, y: 1040 - 50 - 8 }
    );
}

#[test]
fn clamp_without_monitors_keeps_the_position() {
    let monitors: Vec<WorkArea> = Vec::new();
    let p = WindowPosition { x: -500, y: 5000 };
    assert_eq!(
        clamp_position_to_work_area(p, PanelSize { width: 200, height: 50 }, &monitors),
        p
    );
}

#[test]
fn clamp_refuses_a_work_area_smaller_than_the_panel() {
    let monitors = vec![area(0, 0, 100, 100)];
    let p = WindowPosition { x: 10, y: 10 };
    assert!(!can_clamp_position(p, PanelSize { width: 200, height: 50 }, &monitors));
}

#[test]
fn preferred_position_prefers_the_saved_position() {
    let monitors = vec![area(0, 0, 1920, 1040)];
    let size = PanelSize { width: 160, height: 30 };
    let saved = Some(WindowPosition { x: 100, y: 120 });
    let tray = Some(TrayRect { x: 1800, y: 1040, width: 24, height: 40 });
    assert!(can_anchor(saved, tray, None, size));
    assert_eq!(
        preferred_position(saved, tray, None, &monitors, size),
        WindowPosition { x: 100, y: 120 }
    );
}

#[test]
fn preferred_position_sits_above_the_tray_icon() {
    let monitors = vec![area(0, 0, 1920, 1040)];
    let size = PanelSize { width: 160, height: 30 };
    let tray = Some(TrayRect { x: 1700, y: 1030, width: 24, height: 35 });
    assert_eq!(
        preferred_position(None, tray, None, &monitors, size),
        WindowPosition { x: 1700 + 24 - 160, y: 1030 - 30 - 8 }
    );
    let low_tray = Some(TrayRect { x: 1700, y: 1045, width: 24, height: 35 });
    assert_eq!(
        preferred_position(None, low_tray, None, &monitors, size),
        WindowPosition { x: 1700 + 24 - 160, y: 1040 - 30 - 8 }
    );
}

#[test]
fn preferred_position_falls_back_to_the_primary_corner() {
    let monitors = vec![area(0, 0, 1920, 1040)];
    let size = PanelSize { width: 160, height: 30 };
    let primary = Some(area(0, 0, 1920, 1040));
    assert_eq!(
        preferred_position(None, None, primary, &monitors, size),
        WindowPosition { x: 1920 - 160 - 16, y: 1040 - 30 - 16 }
    );
    let nothing: Vec<WorkArea> = Vec::new();
    assert_eq!(
        preferred_position(None, None, None, &nothing, size),
        WindowPosition { x: 200, y: 200 }
    );
}

#[test]
fn tray_click_hides_raises_or_shows() {
    let mut st = PanelState::from_saved(None, None, None);
    assert_eq!(st.tray_click_action(), TrayClickAction::Show);
    st.mark_shown("large");
    assert_eq!(st.tray_click_action(), TrayClickAction::Hide);
    assert!(!st.toggle_topmost());
    assert_eq!(st.tray_click_action(), TrayClickAction::BringToFront);
    assert!(st.needs_temporary_topmost());
    st.mark_hidden();
    assert_eq!(st.tray_click_action(), TrayClickAction::Show);
    assert!(st.toggle_topmost());
}

#[test]
fn saved_state_is_normalized_at_start() {
    let st = PanelState::from_saved(Some("weird"), Some(false), Some(WindowPosition { x: 1, y: 2 }));
    assert_eq!(st.mode, "small");
    assert!(!st.always_on_top);
    assert!(!st.visible);
    assert_eq!(st.position, Some(WindowPosition { x: 1, y: 2 }));
    let st = PanelState::from_saved(Some("ring"), None, None);
    assert_eq!(st.mode, "ring");
    assert!(st.always_on_top);
    assert_eq!(st.active_window_label(), "ring");
    assert!(st.is_active_window("ring"));
    assert!(!st.is_active_window("main"));
    assert!(!st.resizes_small_actions());
}

#[test]
fn showing_another_mode_captures_the_previous_window() {
    let plan = show_panel_plan("small", "ring");
    assert_eq!(plan.mode, "ring");
    assert_eq!(plan.label, "ring");
    assert_eq!(plan.capture_label, Some("main"));
    assert_eq!(plan.hide_label, "main");
    assert!(plan.ring);
    let plan = show_panel_plan("large", "large");
    assert_eq!(plan.capture_label, None);
    assert_eq!(plan.label, "main");
    assert_eq!(plan.hide_label, "ring");
    assert!(!plan.ring);
    let plan = show_panel_plan("ring", "bogus");
    assert_eq!(plan.mode, "small");
    assert_eq!(plan.capture_label, Some("ring"));
}

#[test]
fn capture_updates_the_size_of_the_shown_mode_only() {
    assert_eq!(capture_slot("main", "large"), SizeSlot::Large);
    assert_eq!(capture_slot("ring", "ring"), SizeSlot::Ring);
    assert_eq!(capture_slot("main", "small"), SizeSlot::Neither);
    assert_eq!(capture_slot("ring", "large"), SizeSlot::Neither);
}

#[test]
fn persist_revisions_count_up_and_wrap() {
    let mut st = PanelState::from_saved(None, None, None);
    assert_eq!(st.next_persist_revision(), 1);
    assert!(st.is_latest_revision(1));
    assert!(!st.is_latest_revision(0));
    st.persist_revision = u64::MAX;
    assert_eq!(st.next_persist_revision(), 0);
}

#[test]
fn remembered_position_is_kept_when_none_is_captured() {
    let mut st = PanelState::from_saved(None, None, Some(WindowPosition { x: 5, y: 6 }));
    st.remember_position(None);
    assert_eq!(st.position, Some(WindowPosition { x: 5, y: 6 }));
    st.remember_position(Some(WindowPosition { x: 7, y: 8 }));
    assert_eq!(st.position, Some(WindowPosition { x: 7, y: 8 }));
    let ws = st.window_state();
    assert_eq!(ws.mode, "small");
}

#[test]
fn anchors_before_clamping() {
    let size = PanelSize { width: 160, height: 30 };
    let tray = Some(TrayRect { x: 1700, y: 1045, width: 24, height: 35 });
    assert_eq!(
        panel_anchor(None, tray, None, size),
        WindowPosition { x: 1564, y: 1007 }
    );
    assert_eq!(
        panel_anchor(Some(WindowPosition { x: -5, y: 9 }), tray, None, size),
        WindowPosition { x: -5, y: 9 }
    );
    assert_eq!(
        panel_anchor(None, None, Some(area(10, 20, 800, 600)), size),
        WindowPosition { x: 634, y: 574 }
    );
    assert_eq!(panel_anchor(None, None, None, size), WindowPosition { x: 200, y: 200 });
    let huge = PanelSize { width: u32::MAX, height: 30 };
    assert!(!can_anchor(None, tray, None, huge));
    let far = Some(TrayRect { x: i32::MIN, y: 0, width: 0, height: 0 });
    assert!(!can_anchor(None, far, None, size));
}
