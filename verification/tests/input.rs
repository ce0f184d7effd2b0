use quake_psx::button;
use quake_psx::input::look_axes;
use quake_psx::input::Input;
use quake_psx::input::PadMode;
use quake_psx::input::PadSample;

fn pad(mode: PadMode, buttons: u16) -> PadSample {
    PadSample {
        mode,
        connected: true,
        analog: mode == PadMode::Analog,
        buttons,
        left_x: 0,
        left_y: 0,
    }
}

#[test]
fn garbled_answers_keep_the_last_clean_sample() {
    let mut input = Input::new();
    let clean = pad(PadMode::Analog, button::CROSS);
    assert_eq!(input.poll_clean_pad(clean).pad, clean);
    let garbled = pad(PadMode::Unknown, button::START);
    assert_eq!(input.poll_clean_pad(garbled).pad, clean);
    assert_eq!(input.poll_clean_pad(garbled).pad, clean);
}

#[test]
fn a_pad_that_is_never_recognised_is_trusted_from_its_third_answer() {
    let mut input = Input::new();
    let odd = pad(PadMode::Unknown, button::START);
    assert_ne!(input.poll_clean_pad(odd).pad, odd);
    assert_ne!(input.poll_clean_pad(odd).pad, odd);
    assert_eq!(input.poll_clean_pad(odd).pad, odd);
    assert_eq!(input.poll_clean_pad(odd).pad, odd);
}

#[test]
fn an_unplugged_pad_is_not_trusted() {
    let mut input = Input::new();
    let gone = PadSample { connected: false, ..pad(PadMode::Unknown, 0xffff) };
    for _ in 0..10 {
        let clean = input.poll_clean_pad(gone);
        assert_eq!(clean.pad.buttons, 0);
        assert!(!clean.request_analog);
    }
}

#[test]
fn a_digital_pad_is_asked_for_analog_mode() {
    let mut input = Input::new();
    let digital = pad(PadMode::Digital, 0);
    let first = input.poll_clean_pad(digital);
    assert!(first.request_analog);
    let analog = pad(PadMode::Analog, button::L1);
    assert_eq!(input.verify_pad(first.pad, analog), analog);
    assert!(!input.poll_clean_pad(analog).request_analog);
}

#[test]
fn an_unrecognised_answer_after_the_exchange_is_dropped() {
    let mut input = Input::new();
    let digital = pad(PadMode::Digital, button::UP);
    let first = input.poll_clean_pad(digital);
    let odd = pad(PadMode::Unknown, button::DOWN);
    assert_eq!(input.verify_pad(first.pad, odd), digital);
}

#[test]
fn sticks_count_only_on_an_analog_pad() {
    let mut input = Input::new();
    let frame = input.poll(pad(PadMode::Digital, 0), Some((50, -60)), Some((7, 8)));
    assert_eq!(frame.movement, [0, 0]);
    assert_eq!(frame.look, [0, 0]);
    let frame = input.poll(pad(PadMode::Analog, 0), Some((50, -60)), Some((7, 8)));
    assert_eq!(frame.movement, [60, -50]);
    assert_eq!(frame.look, [7, 8]);
}

#[test]
fn directions_override_the_stick() {
    let mut input = Input::new();
    let frame = input.poll(pad(PadMode::Analog, button::UP), Some((50, 60)), None);
    assert_eq!(frame.movement, [127, -50]);
    let frame = input.poll(
        pad(PadMode::Analog, button::DOWN | button::LEFT),
        Some((50, 60)),
        None,
    );
    assert_eq!(frame.movement, [-127, 127]);
    let frame = input.poll(pad(PadMode::Digital, button::RIGHT), None, None);
    assert_eq!(frame.movement, [0, -127]);
}

#[test]
fn the_weapon_wheel_keeps_the_player_still() {
    let mut input = Input::new();
    let frame = input.poll(pad(PadMode::Digital, button::TRIANGLE | button::UP), None, None);
    assert_eq!(frame.movement, [0, 0]);
    assert_eq!(frame.direct_weapon_impulse(), Some(1));
}

#[test]
fn the_left_stick_moves_through_menus() {
    let mut input = Input::new();
    let pushed = PadSample { left_y: -100, ..pad(PadMode::Analog, 0) };
    assert_eq!(input.poll(pushed, None, None).menu_pressed, button::UP);
    assert_eq!(input.poll(pushed, None, None).menu_pressed, 0);
    let digital = PadSample { analog: false, ..pushed };
    assert_eq!(input.poll(digital, None, None).menu_pressed, 0);
}

#[test]
fn look_axes_follow_the_handedness_of_the_world() {
    assert_eq!(look_axes(30, 40), (-30, 40));
    assert_eq!(look_axes(-128, -128), (127, -127));
}
