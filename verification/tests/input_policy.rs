use quake_psx::button;
use quake_psx::input_policy::quake_horizontal_axis;
use quake_psx::input_policy::quake_look_pitch_axis;
use quake_psx::input_policy::AnalogRetry;
use quake_psx::input_policy::ButtonEdges;
use quake_psx::input_policy::EdgeTracker;
use quake_psx::input_policy::InputFrame;
use quake_psx::input_policy::ANALOG_RETRY_ATTEMPTS;
use quake_psx::input_policy::ANALOG_RETRY_POLLS;

fn frame(pressed: u16) -> InputFrame {
    InputFrame { pressed, ..InputFrame::default() }
}

#[test]
fn shipping_actions_match_half_life_for_equivalent_actions() {
    assert!(frame(button::R1).next_weapon_pressed());
    assert!(frame(button::L1).previous_weapon_pressed());
    assert!(!frame(button::TRIANGLE).next_weapon_pressed());
    assert!(!frame(button::CIRCLE).previous_weapon_pressed());
    assert!(frame(button::START).menu_pressed());
    assert!(frame(button::SELECT).menu_pressed());
    assert!(frame(button::SQUARE).use_pressed());
    assert!(frame(button::R2).fire_pressed());
    assert!(frame(button::CROSS).jump_pressed());
}

#[test]
fn triangle_dpad_maps_all_quake_impulses_clockwise() {
    let directions = [
        button::UP,
        button::UP | button::RIGHT,
        button::RIGHT,
        button::RIGHT | button::DOWN,
        button::DOWN,
        button::DOWN | button::LEFT,
        button::LEFT,
        button::LEFT | button::UP,
    ];
    for (index, direction) in directions.into_iter().enumerate() {
        let chord = InputFrame {
            held: button::TRIANGLE | direction,
            pressed: direction,
            ..InputFrame::default()
        };
        assert_eq!(chord.direct_weapon_impulse(), Some(index as u8 + 1));
        assert!(!chord.dpad_moves());

        let triangle_last = InputFrame { pressed: button::TRIANGLE, ..chord };
        assert_eq!(triangle_last.direct_weapon_impulse(), Some(index as u8 + 1));
    }
}

#[test]
fn direct_weapon_chord_is_edged_and_rejects_ambiguous_directions() {
    let held = InputFrame { held: button::TRIANGLE | button::UP, ..InputFrame::default() };
    assert_eq!(held.direct_weapon_impulse(), None);
    assert!(!held.dpad_moves());

    let contradictory = InputFrame {
        held: button::TRIANGLE | button::UP | button::DOWN,
        pressed: button::DOWN,
        ..InputFrame::default()
    };
    assert_eq!(contradictory.direct_weapon_impulse(), None);

    let ordinary_move = InputFrame {
        held: button::UP,
        pressed: button::UP,
        ..InputFrame::default()
    };
    assert_eq!(ordinary_move.direct_weapon_impulse(), None);
    assert!(ordinary_move.dpad_moves());
}

#[test]
fn both_gameplay_sticks_compensate_for_quake_handedness() {
    // A physical push to the right is positive in the DualShock report,
    // but negative is right in Quake's yaw and strafe conventions.
    assert_eq!(quake_horizontal_axis(127), -127);
    assert_eq!(quake_horizontal_axis(48), -48);
    assert_eq!(quake_horizontal_axis(-48), 48);
    assert_eq!(quake_horizontal_axis(-128), 127);
    assert_eq!(quake_horizontal_axis(0), 0);
}

#[test]
fn right_stick_vertical_matches_quake_pitch_handedness() {
    // DualShock up is negative and Quake's look-up pitch is negative.
    assert_eq!(quake_look_pitch_axis(-127), -127);
    assert_eq!(quake_look_pitch_axis(-48), -48);
    assert_eq!(quake_look_pitch_axis(48), 48);
    assert_eq!(quake_look_pitch_axis(127), 127);
    assert_eq!(quake_look_pitch_axis(-128), -127);
    assert_eq!(quake_look_pitch_axis(0), 0);
}

#[test]
fn analog_menu_directions_are_edges_and_rearm_after_recentering() {
    let mut tracker = EdgeTracker::new();
    assert_eq!(tracker.update(0, 0, -49).menu_pressed, button::UP);
    assert_eq!(tracker.update(0, 0, -127).menu_pressed, 0);
    assert_eq!(tracker.update(0, 0, -48).menu_pressed, 0);
    assert_eq!(tracker.update(0, 0, -49).menu_pressed, button::UP);
}

#[test]
fn physical_and_virtual_menu_edges_coexist_without_gameplay_edges() {
    let mut tracker = EdgeTracker::new();
    let first = tracker.update(button::CROSS, 49, 0);
    assert_eq!(first.pressed, button::CROSS);
    assert_eq!(first.menu_pressed, button::CROSS | button::RIGHT);

    let held = tracker.update(button::CROSS, 80, 0);
    assert_eq!(held, ButtonEdges::default());

    let left = tracker.update(0, -49, 0);
    assert_eq!(left.pressed, 0);
    assert_eq!(left.menu_pressed, button::LEFT);
}

#[test]
fn non_analog_pad_retries_immediately_then_every_fifteen_polls() {
    let mut retry = AnalogRetry::new();
    assert!(retry.poll(false, true));
    for _ in 1..ANALOG_RETRY_POLLS {
        assert!(!retry.poll(false, true));
    }
    assert!(retry.poll(false, true));

    assert!(!retry.poll(true, true));
    assert!(retry.poll(false, true));
}

#[test]
fn a_digital_pad_is_given_up_after_eight_exchanges() {
    let mut retry = AnalogRetry::new();
    let mut exchanges = 0;
    for _ in 0..1000 {
        if retry.poll(false, true) {
            exchanges += 1;
        }
    }
    assert_eq!(exchanges, ANALOG_RETRY_ATTEMPTS as i32);
    assert!(!retry.poll(false, false));
    assert!(retry.poll(false, true));
}

#[test]
fn a_held_button_is_pressed_once() {
    let mut tracker = EdgeTracker::new();
    assert_eq!(tracker.update(button::R2, 0, 0).pressed, button::R2);
    assert_eq!(tracker.update(button::R2, 0, 0).pressed, 0);
    assert_eq!(tracker.update(0, 0, 0).pressed, 0);
    assert_eq!(tracker.update(button::R2, 0, 0).pressed, button::R2);
}

#[test]
fn held_actions_read_the_held_buttons() {
    let held = InputFrame { held: button::R2 | button::CROSS, ..InputFrame::default() };
    assert!(held.fire_held());
    assert!(held.jump_held());
    assert!(!held.fire_pressed());
    assert!(!held.jump_pressed());
}
