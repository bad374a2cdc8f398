use mirage_host::config::Config;
use mirage_host::input::{
    map_button, select_pointer_device, validate_edge_threshold, DeviceCaps, InputEvent,
    InputManager, MouseButton, RawInputEvent, ScreenEdge, BTN_EXTRA, BTN_LEFT, BTN_MIDDLE,
    BTN_RIGHT, BTN_SIDE, REL_HWHEEL, REL_WHEEL, REL_X, REL_Y,
};

fn manager(threshold: u32) -> InputManager {
    let mut config = Config::default();
    config.host.display_edge_threshold = threshold;
    InputManager::new(&config, 1920, 1080)
}

#[test]
fn jump_across_left_threshold_emits_edge_crossed_left() {
    let mut im = manager(10);
    im.state.x = 15;
    let ev = im.process_event(RawInputEvent::RelAxis { axis: REL_X, value: -10 });
    assert_eq!(
        ev,
        Some(InputEvent::EdgeCrossed { edge: ScreenEdge::Left, position: (0, 0) })
    );
    assert_eq!(im.state.x, 5);
}

#[test]
fn jump_across_right_threshold_emits_edge_crossed_right() {
    let mut im = manager(10);
    im.state.x = 1905;
    let ev = im.process_event(RawInputEvent::RelAxis { axis: REL_X, value: 10 });
    assert_eq!(
        ev,
        Some(InputEvent::EdgeCrossed { edge: ScreenEdge::Right, position: (1920, 0) })
    );
    assert_eq!(im.state.x, 1915);
}

#[test]
fn top_and_bottom_edges() {
    let mut im = manager(10);
    im.state.y = 12;
    let ev = im.process_event(RawInputEvent::RelAxis { axis: REL_Y, value: -5 });
    assert_eq!(
        ev,
        Some(InputEvent::EdgeCrossed { edge: ScreenEdge::Top, position: (0, 0) })
    );
    im.state.y = 1069;
    let ev = im.process_event(RawInputEvent::RelAxis { axis: REL_Y, value: 4 });
    assert_eq!(
        ev,
        Some(InputEvent::EdgeCrossed { edge: ScreenEdge::Bottom, position: (0, 1080) })
    );
}

#[test]
fn plain_move_when_no_threshold_crossed() {
    let mut im = manager(10);
    im.state.x = 500;
    let ev = im.process_event(RawInputEvent::RelAxis { axis: REL_X, value: 25 });
    assert_eq!(ev, Some(InputEvent::MouseMove { delta_x: 25, delta_y: 0 }));
    assert_eq!(im.state.x, 525);
    let ev = im.process_event(RawInputEvent::RelAxis { axis: REL_Y, value: -3 });
    assert_eq!(ev, Some(InputEvent::MouseMove { delta_x: 0, delta_y: -3 }));
}

#[test]
fn position_stays_clamped_for_any_delta_sequence() {
    let mut im = manager(10);
    let deltas = [500_000, -1_000_000, 37, -2, 2_000_000_000, -2_000_000_000, 13];
    for d in deltas {
        im.process_event(RawInputEvent::RelAxis { axis: REL_X, value: d });
        im.process_event(RawInputEvent::RelAxis { axis: REL_Y, value: d });
        assert!(im.state.x <= 1920);
        assert!(im.state.y <= 1080);
    }
}

#[test]
fn exactly_one_event_per_axis_sample() {
    let mut im = manager(10);
    im.state.x = 15;
    // A crossing sample yields the edge event only, never a move as well.
    let ev = im.process_event(RawInputEvent::RelAxis { axis: REL_X, value: -10 });
    assert!(matches!(ev, Some(InputEvent::EdgeCrossed { .. })));
    // The following sample starts inside the threshold region: no crossing.
    let ev = im.process_event(RawInputEvent::RelAxis { axis: REL_X, value: -1 });
    assert!(matches!(ev, Some(InputEvent::MouseMove { .. })));
}

#[test]
fn wheel_samples_become_wheel_events() {
    let mut im = manager(10);
    let ev = im.process_event(RawInputEvent::RelAxis { axis: REL_WHEEL, value: -1 });
    assert_eq!(ev, Some(InputEvent::MouseWheel { delta: -1, horizontal: false }));
    let ev = im.process_event(RawInputEvent::RelAxis { axis: REL_HWHEEL, value: 2 });
    assert_eq!(ev, Some(InputEvent::MouseWheel { delta: 2, horizontal: true }));
}

#[test]
fn unknown_axis_is_ignored() {
    let mut im = manager(10);
    let before = im.get_mouse_state();
    let ev = im.process_event(RawInputEvent::RelAxis { axis: 2, value: 7 });
    assert_eq!(ev, None);
    assert_eq!(im.get_mouse_state(), before);
}

#[test]
fn button_mapping_table() {
    assert_eq!(map_button(BTN_LEFT), Some(MouseButton::Left));
    assert_eq!(map_button(BTN_RIGHT), Some(MouseButton::Right));
    assert_eq!(map_button(BTN_MIDDLE), Some(MouseButton::Middle));
    assert_eq!(map_button(BTN_SIDE), Some(MouseButton::Back));
    assert_eq!(map_button(BTN_EXTRA), Some(MouseButton::Forward));
    assert_eq!(map_button(1), None);
}

#[test]
fn button_press_updates_state_and_emits_event() {
    let mut im = manager(10);
    let ev = im.process_event(RawInputEvent::Key { code: BTN_LEFT, value: 1 });
    assert_eq!(
        ev,
        Some(InputEvent::MouseButton { button: MouseButton::Left, pressed: true })
    );
    assert!(im.state.buttons.left);
    let ev = im.process_event(RawInputEvent::Key { code: BTN_LEFT, value: 0 });
    assert_eq!(
        ev,
        Some(InputEvent::MouseButton { button: MouseButton::Left, pressed: false })
    );
    assert!(!im.state.buttons.left);
}

#[test]
fn back_button_is_forwarded_but_not_tracked() {
    let mut im = manager(10);
    let before = im.get_mouse_state().buttons;
    let ev = im.process_event(RawInputEvent::Key { code: BTN_SIDE, value: 1 });
    assert_eq!(
        ev,
        Some(InputEvent::MouseButton { button: MouseButton::Back, pressed: true })
    );
    assert_eq!(im.state.buttons, before);
}

#[test]
fn unknown_key_is_ignored() {
    let mut im = manager(10);
    let ev = im.process_event(RawInputEvent::Key { code: 30, value: 1 });
    assert_eq!(ev, None);
}

#[test]
fn threshold_validation_bound() {
    assert!(validate_edge_threshold(0, 1920, 1080));
    assert!(validate_edge_threshold(10, 1920, 1080));
    assert!(validate_edge_threshold(539, 1920, 1080));
    // At or above half the smaller dimension the opposing edge regions
    // overlap: unsupported.
    assert!(!validate_edge_threshold(540, 1920, 1080));
    assert!(!validate_edge_threshold(1000, 1920, 1080));
}

#[test]
fn device_selection_takes_first_qualifying() {
    let devices = vec![
        DeviceCaps { supports_relative: false, has_primary_button: true },
        DeviceCaps { supports_relative: true, has_primary_button: false },
        DeviceCaps { supports_relative: true, has_primary_button: true },
        DeviceCaps { supports_relative: true, has_primary_button: true },
    ];
    assert_eq!(select_pointer_device(&devices), Some(2));
}

#[test]
fn device_selection_none_disables_capture() {
    let devices = vec![DeviceCaps { supports_relative: false, has_primary_button: false }];
    assert_eq!(select_pointer_device(&devices), None);
    assert_eq!(select_pointer_device(&Vec::new()), None);
}
