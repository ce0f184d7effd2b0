//! Pure controller policy.

use vstd::prelude::*;

use crate::button;

verus! {

/// The four direction bits of the pad.
pub const DPAD: u16 = 0x00f0;

/// Left-stick deflection beyond which a menu direction counts as held.
pub const MENU_STICK_THRESHOLD: i16 = 48;

/// Poll cadence for reasserting locked DualShock analog mode.
pub const ANALOG_RETRY_POLLS: u8 = 15;

/// Analog-mode exchanges attempted on one connected pad before giving up on
/// it. A pad that stays digital through eight requests is either digital or
/// ignores the request. A disconnect and reconnect starts the budget over.
pub const ANALOG_RETRY_ATTEMPTS: u8 = 8;

/// Consecutive polls a connected pad may answer with an unrecognised ID
/// before its buttons are trusted anyway. One such frame is a garbled
/// exchange; a pad that answers this way every frame is a controller the
/// driver does not classify, and its digital buttons are still input.
pub const UNKNOWN_MODE_TRUST_POLLS: u8 = 3;

/// What `AnalogRetry` remembers between polls.
pub struct RetryState {
    /// Polls to let pass before the next exchange.
    pub remaining: int,
    /// Exchanges already spent on this connection.
    pub attempts: int,
}

/// State after one poll.
pub open spec fn retry_next(state: RetryState, is_analog: bool, connected: bool) -> RetryState {
    if is_analog || !connected {
        RetryState { remaining: 0, attempts: 0 }
    } else if state.attempts >= ANALOG_RETRY_ATTEMPTS {
        state
    } else if state.remaining == 0 {
        RetryState { remaining: ANALOG_RETRY_POLLS - 1, attempts: state.attempts + 1 }
    } else {
        RetryState { remaining: state.remaining - 1, attempts: state.attempts }
    }
}

/// Whether this poll asks for an analog-mode exchange.
pub open spec fn retry_fires(state: RetryState, is_analog: bool, connected: bool) -> bool {
    !is_analog && connected && state.attempts < ANALOG_RETRY_ATTEMPTS && state.remaining == 0
}

/// State after `polls` polls of a connected pad that never turns analog.
pub open spec fn retry_after(polls: nat) -> RetryState
    decreases polls,
{
    if polls == 0 {
        RetryState { remaining: 0, attempts: 0 }
    } else {
        retry_next(retry_after((polls - 1) as nat), false, true)
    }
}

/// Bounded reconnect policy for analog mode.
#[derive(Copy, Clone, Debug, PartialEq, Eq, Structural)]
pub struct AnalogRetry {
    remaining: u8,
    attempts: u8,
}

impl AnalogRetry {
    pub closed spec fn view(&self) -> RetryState {
        RetryState { remaining: self.remaining as int, attempts: self.attempts as int }
    }

    pub fn new() -> (retry: Self)
        ensures
            retry@ == (RetryState { remaining: 0, attempts: 0 }),
    {
        AnalogRetry { remaining: 0, attempts: 0 }
    }

    /// Return `true` when the caller should run the analog-mode exchange.
    /// `connected` false (nothing on the port) resets the attempt budget.
    pub fn poll(&mut self, is_analog: bool, connected: bool) -> (exchange: bool)
        ensures
            final(self)@ == retry_next(old(self)@, is_analog, connected),
            exchange == retry_fires(old(self)@, is_analog, connected),
    {
        if is_analog {
            self.remaining = 0;
            self.attempts = 0;
            return false;
        }
        if !connected {
            self.remaining = 0;
            self.attempts = 0;
            return false;
        }
        if self.attempts >= ANALOG_RETRY_ATTEMPTS {
            return false;
        }
        if self.remaining == 0 {
            self.remaining = ANALOG_RETRY_POLLS - 1;
            self.attempts += 1;
            return true;
        }
        self.remaining -= 1;
        false
    }
}

impl Default for AnalogRetry {
    fn default() -> (retry: Self)
        ensures
            retry@ == (RetryState { remaining: 0, attempts: 0 }),
    {
        AnalogRetry::new()
    }
}

/// A connected pad that stays digital is asked on its first poll and then on
/// every fifteenth, eight times in all.
pub proof fn retry_cadence(polls: nat)
    ensures
        retry_fires(retry_after(polls), false, true) <==> polls % 15 == 0 && polls / 15 < 8,
{
    retry_after_closed_form(polls);
}

/// An analog pad or an empty port rearms the policy: the next poll of a
/// connected digital pad asks at once.
pub proof fn retry_rearms(state: RetryState, is_analog: bool, connected: bool)
    requires
        is_analog || !connected,
    ensures
        !retry_fires(state, is_analog, connected),
        retry_fires(retry_next(state, is_analog, connected), false, true),
{
}

proof fn retry_after_closed_form(polls: nat)
    ensures
        polls < 106 ==> retry_after(polls).attempts == (polls + 14) / 15
            && retry_after(polls).remaining == (if polls == 0 { 0 } else { 14 - (polls - 1) % 15 }),
        polls >= 106 ==> retry_after(polls) == (RetryState { remaining: 14, attempts: 8 }),
    decreases polls,
{
    if polls > 0 {
        retry_after_closed_form((polls - 1) as nat);
    }
}

/// The pad axis `value` moved into `-127..=127`.
pub open spec fn pad_range(value: int) -> int {
    crate::fixed::clamp_int(value, -127, 127)
}

/// Convert the DualShock's right-positive horizontal convention into Quake's
/// left-positive yaw/strafe convention.
///
/// Menu navigation intentionally keeps the raw pad convention; this adapter is
/// only for gameplay movement and view commands.
pub fn quake_horizontal_axis(value: i16) -> (axis: i16)
    ensures
        axis == pad_range(-value),
{
    if value > 127 {
        -127
    } else if value < -127 {
        127
    } else {
        -value
    }
}

/// Preserve the DualShock's up-negative vertical convention for Quake pitch,
/// which is negative for looking up as well.
pub fn quake_look_pitch_axis(value: i16) -> (axis: i16)
    ensures
        axis == pad_range(value as int),
{
    if value < -127 {
        -127
    } else if value > 127 {
        127
    } else {
        value
    }
}

/// One frame of controller input.
#[derive(Copy, Clone, Debug, PartialEq, Eq)]
pub struct InputFrame {
    /// Forward/back and strafe intent in `-127..=127`.
    pub movement: [i16; 2],
    /// Yaw/pitch intent in `-127..=127` after the fine-aim curve.
    pub look: [i16; 2],
    pub held: u16,
    pub pressed: u16,
    /// Physical D-pad edges plus left-stick virtual D-pad edges for menus.
    pub menu_pressed: u16,
}

impl Default for InputFrame {
    fn default() -> (frame: Self)
        ensures
            frame.movement@ == seq![0i16, 0i16],
            frame.look@ == seq![0i16, 0i16],
            frame.held == 0,
            frame.pressed == 0,
            frame.menu_pressed == 0,
    {
        InputFrame { movement: [0, 0], look: [0, 0], held: 0, pressed: 0, menu_pressed: 0 }
    }
}

/// The impulse a set of D-pad bits stands for on the weapon wheel: clockwise
/// from Up, two neighbouring bits naming the direction between them.
pub open spec fn wheel_impulse(directions: u16) -> Option<u8> {
    if directions == 0x10 {
        Some(1u8)
    } else if directions == 0x30 {
        Some(2u8)
    } else if directions == 0x20 {
        Some(3u8)
    } else if directions == 0x60 {
        Some(4u8)
    } else if directions == 0x40 {
        Some(5u8)
    } else if directions == 0xc0 {
        Some(6u8)
    } else if directions == 0x80 {
        Some(7u8)
    } else if directions == 0x90 {
        Some(8u8)
    } else {
        None
    }
}

/// The weapon chord: Triangle and a direction are held, and either the
/// Triangle or a direction has only just gone down.
pub open spec fn weapon_chord(held: u16, pressed: u16) -> Option<u8> {
    if held & button::TRIANGLE != 0 && pressed & 0x10f0 != 0 {
        wheel_impulse(held & DPAD)
    } else {
        None
    }
}

impl InputFrame {
    pub fn fire_held(self) -> (down: bool)
        ensures
            down == (self.held & button::R2 != 0),
    {
        self.held & button::R2 != 0
    }

    pub fn fire_pressed(self) -> (down: bool)
        ensures
            down == (self.pressed & button::R2 != 0),
    {
        self.pressed & button::R2 != 0
    }

    pub fn jump_held(self) -> (down: bool)
        ensures
            down == (self.held & button::CROSS != 0),
    {
        self.held & button::CROSS != 0
    }

    pub fn jump_pressed(self) -> (down: bool)
        ensures
            down == (self.pressed & button::CROSS != 0),
    {
        self.pressed & button::CROSS != 0
    }

    pub fn use_pressed(self) -> (down: bool)
        ensures
            down == (self.pressed & button::SQUARE != 0),
    {
        self.pressed & button::SQUARE != 0
    }

    pub fn menu_pressed(self) -> (down: bool)
        ensures
            down == (self.pressed & (button::START | button::SELECT) != 0),
    {
        self.pressed & (button::START | button::SELECT) != 0
    }

    pub fn next_weapon_pressed(self) -> (down: bool)
        ensures
            down == (self.pressed & button::R1 != 0),
    {
        self.pressed & button::R1 != 0
    }

    pub fn previous_weapon_pressed(self) -> (down: bool)
        ensures
            down == (self.pressed & button::L1 != 0),
    {
        self.pressed & button::L1 != 0
    }

    /// Quake impulses 1 through 8 on a Triangle-held D-pad wheel.
    ///
    /// Starting at Up and walking clockwise selects Axe, Shotgun, Super
    /// Shotgun, Nailgun, Super Nailgun, Grenade Launcher, Rocket Launcher and
    /// Lightning. The edge may be either Triangle (direction already held) or
    /// a direction (Triangle already held), so the chord is order-independent
    /// and held input never repeats. Opposing or three-way directions are
    /// ignored instead of guessed.
    pub fn direct_weapon_impulse(self) -> (impulse: Option<u8>)
        ensures
            impulse == weapon_chord(self.held, self.pressed),
    {
        assert(button::TRIANGLE | DPAD == 0x10f0) by (bit_vector);
        if self.held & button::TRIANGLE == 0
            || self.held & DPAD == 0
            || self.pressed & (button::TRIANGLE | DPAD) == 0
        {
            return None;
        }
        let directions: u16 = self.held & DPAD;
        if directions == 0x10 {
            Some(1)
        } else if directions == 0x30 {
            Some(2)
        } else if directions == 0x20 {
            Some(3)
        } else if directions == 0x60 {
            Some(4)
        } else if directions == 0x40 {
            Some(5)
        } else if directions == 0xc0 {
            Some(6)
        } else if directions == 0x80 {
            Some(7)
        } else if directions == 0x90 {
            Some(8)
        } else {
            None
        }
    }

    /// Digital movement yields to the Triangle weapon chord. Analog movement
    /// remains live, and menu navigation reads `menu_pressed` independently.
    pub fn dpad_moves(self) -> (moves: bool)
        ensures
            moves == (self.held & button::TRIANGLE == 0),
    {
        self.held & button::TRIANGLE == 0
    }
}

/// Buttons that went down in one poll.
#[derive(Copy, Clone, Debug, PartialEq, Eq, Structural)]
pub struct ButtonEdges {
    pub pressed: u16,
    pub menu_pressed: u16,
}

impl Default for ButtonEdges {
    fn default() -> (edges: Self)
        ensures
            edges.pressed == 0 && edges.menu_pressed == 0,
    {
        ButtonEdges { pressed: 0, menu_pressed: 0 }
    }
}

/// The physical buttons together with the D-pad directions that the left
/// stick stands for.
pub open spec fn menu_buttons(held: u16, left_x: int, left_y: int) -> u16 {
    let up: u16 = if left_y < -48 { button::UP } else { 0 };
    let down: u16 = if left_y > 48 { button::DOWN } else { 0 };
    let left: u16 = if left_x < -48 { button::LEFT } else { 0 };
    let right: u16 = if left_x > 48 { button::RIGHT } else { 0 };
    held | up | down | left | right
}

/// Tracks gameplay and menu edges independently: the left stick acts as a
/// D-pad in menus without quantizing analog gameplay.
#[derive(Copy, Clone, Debug, PartialEq, Eq, Structural)]
pub struct EdgeTracker {
    previous_buttons: u16,
    previous_menu_buttons: u16,
}

impl EdgeTracker {
    /// Buttons held at the last poll.
    pub closed spec fn buttons(&self) -> u16 {
        self.previous_buttons
    }

    /// Menu buttons held at the last poll.
    pub closed spec fn menu(&self) -> u16 {
        self.previous_menu_buttons
    }

    pub fn new() -> (tracker: Self)
        ensures
            tracker.buttons() == 0,
            tracker.menu() == 0,
    {
        EdgeTracker { previous_buttons: 0, previous_menu_buttons: 0 }
    }

    pub fn update(&mut self, held: u16, left_x: i16, left_y: i16) -> (edges: ButtonEdges)
        ensures
            edges.pressed == held & !old(self).buttons(),
            edges.menu_pressed == menu_buttons(held, left_x as int, left_y as int)
                & !old(self).menu(),
            final(self).buttons() == held,
            final(self).menu() == menu_buttons(held, left_x as int, left_y as int),
    {
        let pressed: u16 = held & !self.previous_buttons;
        self.previous_buttons = held;

        let mut menu: u16 = held;
        assert(forall|bits: u16| #[trigger] (bits | 0) == bits) by (bit_vector);
        if left_y < -MENU_STICK_THRESHOLD {
            menu |= button::UP;
        }
        if left_y > MENU_STICK_THRESHOLD {
            menu |= button::DOWN;
        }
        if left_x < -MENU_STICK_THRESHOLD {
            menu |= button::LEFT;
        }
        if left_x > MENU_STICK_THRESHOLD {
            menu |= button::RIGHT;
        }
        let menu_pressed: u16 = menu & !self.previous_menu_buttons;
        self.previous_menu_buttons = menu;

        ButtonEdges { pressed, menu_pressed }
    }
}

impl Default for EdgeTracker {
    fn default() -> (tracker: Self)
        ensures
            tracker.buttons() == 0,
            tracker.menu() == 0,
    {
        EdgeTracker::new()
    }
}

/// A button reports exactly one press while it stays down, and reports again
/// only after it has been up: `before`, `during` and `after` are three polls
/// in a row.
pub proof fn edges_fire_once_and_rearm(before: u16, during: u16, after: u16)
    ensures
        (during & !before) & (after & !during) == 0,
        before == 0 ==> during & !before == during,
        during == before ==> during & !before == 0,
{
    assert((during & !before) & (after & !during) == 0) by (bit_vector);
    assert(before == 0 ==> during & !before == during) by (bit_vector);
    assert(during == before ==> during & !before == 0) by (bit_vector);
}

/// Whichever of Triangle and the direction goes down last, the chord names
/// the same weapon, and it never repeats while both stay held.
pub proof fn weapon_chord_is_order_independent(held: u16, direction: u16)
    requires
        held & button::TRIANGLE != 0,
        direction & DPAD != 0,
    ensures
        weapon_chord(held, button::TRIANGLE) == weapon_chord(held, direction),
        weapon_chord(held, button::TRIANGLE) == wheel_impulse(held & DPAD),
        weapon_chord(held, 0) is None,
{
    assert(0x1000u16 & 0x10f0 != 0) by (bit_vector);
    assert(0u16 & 0x10f0 == 0) by (bit_vector);
    assert(direction & 0x10f0 != 0) by (bit_vector)
        requires
            direction & 0x00f0 != 0,
    ;
}

/// Directions held on opposite sides never choose a weapon.
pub proof fn opposing_directions_choose_nothing(held: u16, pressed: u16)
    requires
        held & 0x50 == 0x50 || held & 0xa0 == 0xa0,
    ensures
        weapon_chord(held, pressed) is None,
{
    let directions: u16 = held & DPAD;
    assert(directions & 0x50 == 0x50 || directions & 0xa0 == 0xa0) by (bit_vector)
        requires
            held & 0x50 == 0x50 || held & 0xa0 == 0xa0,
            directions == held & 0x00f0,
    ;
    assert(directions != 0x10 && directions != 0x30 && directions != 0x20 && directions != 0x60
        && directions != 0x40 && directions != 0xc0 && directions != 0x80 && directions != 0x90)
        by (bit_vector)
        requires
            directions & 0x50 == 0x50 || directions & 0xa0 == 0xa0,
    ;
}

/// The wheel goes clockwise from straight up, one weapon every half of a right
/// angle.
pub proof fn the_wheel_goes_clockwise()
    ensures
        wheel_impulse(button::UP) == Some(1u8),
        wheel_impulse((button::UP + button::RIGHT) as u16) == Some(2u8),
        wheel_impulse(button::RIGHT) == Some(3u8),
        wheel_impulse((button::RIGHT + button::DOWN) as u16) == Some(4u8),
        wheel_impulse(button::DOWN) == Some(5u8),
        wheel_impulse((button::DOWN + button::LEFT) as u16) == Some(6u8),
        wheel_impulse(button::LEFT) == Some(7u8),
        wheel_impulse((button::LEFT + button::UP) as u16) == Some(8u8),
        wheel_impulse(0) is None,
        button::UP == 0x10 && button::RIGHT == 0x20 && button::DOWN == 0x40 && button::LEFT == 0x80,
{
}

/// A menu takes the stick for the direction that it is pushed in by more than 48,
/// beside the buttons that are held.
pub proof fn the_stick_stands_for_directions(held: u16, left_x: int, left_y: int)
    ensures
        ({
            let shown = menu_buttons(held, left_x, left_y);
            &&& shown & 0x10 != 0 <==> held & 0x10 != 0 || left_y < -48
            &&& shown & 0x40 != 0 <==> held & 0x40 != 0 || left_y > 48
            &&& shown & 0x80 != 0 <==> held & 0x80 != 0 || left_x < -48
            &&& shown & 0x20 != 0 <==> held & 0x20 != 0 || left_x > 48
            &&& shown & 0xff0f == held & 0xff0f
        }),
{
    let up: u16 = if left_y < -48 {
        0x10
    } else {
        0
    };
    let down: u16 = if left_y > 48 {
        0x40
    } else {
        0
    };
    let left: u16 = if left_x < -48 {
        0x80
    } else {
        0
    };
    let right: u16 = if left_x > 48 {
        0x20
    } else {
        0
    };
    let shown = held | up | down | left | right;
    assert({
        &&& shown & 0x10 != 0 <==> held & 0x10 != 0 || up != 0
        &&& shown & 0x40 != 0 <==> held & 0x40 != 0 || down != 0
        &&& shown & 0x80 != 0 <==> held & 0x80 != 0 || left != 0
        &&& shown & 0x20 != 0 <==> held & 0x20 != 0 || right != 0
        &&& shown & 0xff0f == held & 0xff0f
    }) by (bit_vector)
        requires
            shown == held | up | down | left | right,
            up == 0 || up == 0x10,
            down == 0 || down == 0x40,
            left == 0 || left == 0x80,
            right == 0 || right == 0x20,
    ;
}

} // verus!
