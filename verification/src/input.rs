//! Twin-stick input over the controller policy.

use vstd::prelude::*;

use crate::button;
use crate::input_policy::{
    menu_buttons, pad_range, quake_horizontal_axis, quake_look_pitch_axis, retry_fires, retry_next,
    AnalogRetry, ButtonEdges, EdgeTracker, InputFrame, UNKNOWN_MODE_TRUST_POLLS,
};

verus! {

/// How a pad reports.
#[derive(Copy, Clone, Debug, PartialEq, Eq, Structural)]
pub enum PadMode {
    Unknown,
    Digital,
    Analog,
    Config,
}

/// One answer of the controller.
#[derive(Copy, Clone, Debug, PartialEq, Eq, Structural)]
pub struct PadSample {
    pub mode: PadMode,
    pub connected: bool,
    /// The sticks are valid.
    pub analog: bool,
    pub buttons: u16,
    /// The left stick, measured from its centre.
    pub left_x: i16,
    pub left_y: i16,
}

/// Controller state between two frames.
pub struct Input {
    edges: EdgeTracker,
    last_pad: PadSample,
    analog_retry: AnalogRetry,
    /// Consecutive answers of a connected pad with an unrecognised ID.
    unknown_polls: u8,
}

/// The sample to go on with, and whether analog mode has to be requested.
#[derive(Copy, Clone, Debug, PartialEq, Eq, Structural)]
pub struct CleanPad {
    pub pad: PadSample,
    pub request_analog: bool,
}

/// Unrecognised answers in a row, this one counted.
pub open spec fn unknown_streak(before: u8, sampled: PadSample) -> u8 {
    if sampled.mode != PadMode::Unknown || !sampled.connected {
        0
    } else if before == u8::MAX {
        u8::MAX
    } else {
        (before + 1) as u8
    }
}

/// A recognised answer is used. An unrecognised one is used only when the pad
/// keeps answering that way; till then the last clean one stands.
pub open spec fn clean_sample(last: PadSample, streak: u8, sampled: PadSample) -> PadSample {
    if sampled.mode != PadMode::Unknown || streak >= UNKNOWN_MODE_TRUST_POLLS {
        sampled
    } else {
        last
    }
}

/// Movement from the left stick: forward and strafe.
pub open spec fn stick_movement(left: Option<(i16, i16)>) -> (int, int) {
    match left {
        Some((x, y)) => (-y, pad_range(-x)),
        None => (0, 0),
    }
}

/// A direction of the pad, while directions move the player.
pub open spec fn moves_by(held: u16, direction: u16) -> bool {
    held & button::TRIANGLE == 0 && held & direction != 0
}

/// Directions override the stick; of two opposing ones the later in the list
/// up, down, right, left wins.
pub open spec fn forward_intent(stick: int, held: u16) -> int {
    if moves_by(held, button::DOWN) {
        -127
    } else if moves_by(held, button::UP) {
        127
    } else {
        stick
    }
}

pub open spec fn strafe_intent(stick: int, held: u16) -> int {
    if moves_by(held, button::LEFT) {
        127
    } else if moves_by(held, button::RIGHT) {
        -127
    } else {
        stick
    }
}

/// The axes that the aim curve is applied to, of a right stick that is out of
/// its dead zone.
pub fn look_axes(x: i16, y: i16) -> (axes: (i16, i16))
    ensures
        axes.0 == pad_range(-x),
        axes.1 == pad_range(y as int),
{
    (quake_horizontal_axis(x), quake_look_pitch_axis(y))
}

impl Input {
    /// The last clean sample.
    pub closed spec fn last(&self) -> PadSample {
        self.last_pad
    }

    pub closed spec fn retry(&self) -> AnalogRetry {
        self.analog_retry
    }

    pub closed spec fn streak(&self) -> u8 {
        self.unknown_polls
    }

    pub closed spec fn tracker(&self) -> EdgeTracker {
        self.edges
    }

    /// No controller has answered yet.
    pub fn new() -> (input: Self)
        ensures
            input.last() == (PadSample {
                mode: PadMode::Unknown,
                connected: false,
                analog: false,
                buttons: 0,
                left_x: 0,
                left_y: 0,
            }),
            input.retry()@.remaining == 0,
            input.retry()@.attempts == 0,
            input.streak() == 0,
            input.tracker().buttons() == 0,
            input.tracker().menu() == 0,
    {
        Input {
            edges: EdgeTracker::new(),
            last_pad: PadSample {
                mode: PadMode::Unknown,
                connected: false,
                analog: false,
                buttons: 0,
                left_x: 0,
                left_y: 0,
            },
            analog_retry: AnalogRetry::new(),
            unknown_polls: 0,
        }
    }

    /// Take one answer of the controller. A garbled one is replaced by the last
    /// clean one; any pad that is not analog is asked to become so.
    pub fn poll_clean_pad(&mut self, sampled: PadSample) -> (clean: CleanPad)
        ensures
            ({
                let streak = unknown_streak(old(self).streak(), sampled);
                let pad = clean_sample(old(self).last(), streak, sampled);
                &&& clean.pad == pad
                &&& clean.request_analog == retry_fires(
                    old(self).retry()@,
                    pad.analog,
                    sampled.connected,
                )
                &&& final(self).streak() == streak
                &&& final(self).last() == pad
                &&& final(self).retry()@ == retry_next(
                    old(self).retry()@,
                    pad.analog,
                    sampled.connected,
                )
                &&& final(self).tracker() == old(self).tracker()
            }),
    {
        let unknown: bool = match sampled.mode {
            PadMode::Unknown => true,
            _ => false,
        };
        let pad: PadSample = if unknown {
            if sampled.connected {
                self.unknown_polls = self.unknown_polls.saturating_add(1);
            } else {
                self.unknown_polls = 0;
            }
            if self.unknown_polls >= UNKNOWN_MODE_TRUST_POLLS {
                self.last_pad = sampled;
                sampled
            } else {
                self.last_pad
            }
        } else {
            self.unknown_polls = 0;
            self.last_pad = sampled;
            sampled
        };
        let request_analog: bool = self.analog_retry.poll(pad.analog, sampled.connected);
        CleanPad { pad, request_analog }
    }

    /// The pad accepted analog mode and answered again. A recognised answer
    /// takes the place of the one before the exchange.
    pub fn verify_pad(&mut self, pad: PadSample, verified: PadSample) -> (result: PadSample)
        ensures
            result == if verified.mode != PadMode::Unknown {
                verified
            } else {
                pad
            },
            final(self).last() == if verified.mode != PadMode::Unknown {
                verified
            } else {
                old(self).last()
            },
            final(self).retry() == old(self).retry(),
            final(self).streak() == old(self).streak(),
            final(self).tracker() == old(self).tracker(),
    {
        match verified.mode {
            PadMode::Unknown => pad,
            _ => {
                self.last_pad = verified;
                verified
            },
        }
    }

    /// One frame of input. `left` is the left stick after its dead zone, and
    /// `look` is yaw and pitch after the aim curve; both count only on an
    /// analog pad.
    pub fn poll(&mut self, pad: PadSample, left: Option<(i16, i16)>, look: Option<(i16, i16)>) -> (frame:
        InputFrame)
        requires
            match left {
                Some((_, y)) => y != i16::MIN,
                None => true,
            },
        ensures
            ({
                let stick = if pad.analog {
                    stick_movement(left)
                } else {
                    (0, 0)
                };
                let menu_x = if pad.analog {
                    pad.left_x as int
                } else {
                    0
                };
                let menu_y = if pad.analog {
                    pad.left_y as int
                } else {
                    0
                };
                let menu = menu_buttons(pad.buttons, menu_x, menu_y);
                &&& frame.movement@[0] == forward_intent(stick.0, pad.buttons)
                &&& frame.movement@[1] == strafe_intent(stick.1, pad.buttons)
                &&& frame.look@ == match look {
                    Some((yaw, pitch)) if pad.analog => seq![yaw, pitch],
                    _ => seq![0i16, 0i16],
                }
                &&& frame.held == pad.buttons
                &&& frame.pressed == pad.buttons & !old(self).tracker().buttons()
                &&& frame.menu_pressed == menu & !old(self).tracker().menu()
                &&& final(self).tracker().buttons() == pad.buttons
                &&& final(self).tracker().menu() == menu
            }),
            final(self).last() == old(self).last(),
            final(self).retry() == old(self).retry(),
            final(self).streak() == old(self).streak(),
    {
        let held: u16 = pad.buttons;
        let mut forward: i16 = 0;
        let mut strafe: i16 = 0;
        let mut yaw: i16 = 0;
        let mut pitch: i16 = 0;
        let mut left_x: i16 = 0;
        let mut left_y: i16 = 0;
        if pad.analog {
            left_x = pad.left_x;
            left_y = pad.left_y;
            if let Some((x, y)) = left {
                strafe = quake_horizontal_axis(x);
                forward = -y;
            }
            if let Some((x, y)) = look {
                yaw = x;
                pitch = y;
            }
        }
        let dpad_moves: bool = held & button::TRIANGLE == 0;
        if dpad_moves && held & button::UP != 0 {
            forward = 127;
        }
        if dpad_moves && held & button::DOWN != 0 {
            forward = -127;
        }
        if dpad_moves && held & button::RIGHT != 0 {
            strafe = quake_horizontal_axis(127);
        }
        if dpad_moves && held & button::LEFT != 0 {
            strafe = quake_horizontal_axis(-127);
        }
        let edges: ButtonEdges = self.edges.update(held, left_x, left_y);
        let frame = InputFrame {
            movement: [forward, strafe],
            look: [yaw, pitch],
            held,
            pressed: edges.pressed,
            menu_pressed: edges.menu_pressed,
        };
        assert(frame.look@ =~= seq![yaw, pitch]);
        frame
    }
}

/// A single garbled answer never reaches the game, nor do two in a row: the
/// last clean one is used.
pub proof fn garbled_answers_are_ignored(last: PadSample, before: u8, sampled: PadSample)
    requires
        sampled.mode == PadMode::Unknown,
        before < UNKNOWN_MODE_TRUST_POLLS - 1,
    ensures
        clean_sample(last, unknown_streak(before, sampled), sampled) == last,
{
}

/// A connected pad that always answers with an unrecognised ID is used from
/// its third answer on.
pub proof fn unrecognised_pads_are_trusted(last: PadSample, before: u8, sampled: PadSample)
    requires
        sampled.mode == PadMode::Unknown,
        sampled.connected,
        before >= UNKNOWN_MODE_TRUST_POLLS - 1,
    ensures
        clean_sample(last, unknown_streak(before, sampled), sampled) == sampled,
        unknown_streak(before, sampled) >= UNKNOWN_MODE_TRUST_POLLS,
{
}

/// While the weapon wheel is held, directions do not move the player.
pub proof fn the_weapon_wheel_does_not_move(stick: int, held: u16)
    requires
        held & button::TRIANGLE != 0,
    ensures
        forward_intent(stick, held) == stick,
        strafe_intent(stick, held) == stick,
{
}

/// The stick moves along its own axes: up is forward, left is left, and neither
/// axis bears on the other.
pub proof fn the_stick_moves_along_its_axes(x: i16, y: i16, other: i16)
    requires
        -127 <= x <= 127,
    ensures
        stick_movement(Some((x, y))).0 + y == 0,
        stick_movement(Some((x, y))).1 + x == 0,
        stick_movement(Some((other, y))).0 == stick_movement(Some((x, y))).0,
        stick_movement(Some((x, other))).1 == stick_movement(Some((x, y))).1,
        stick_movement(None) == (0int, 0int),
{
}

/// A direction of the pad moves at full speed its own way, whatever the stick
/// says; backward and left win over their opposites, and without the pad the
/// stick has its say.
pub proof fn the_pad_moves_its_own_way(stick: int, held: u16)
    requires
        held & 0x1000 == 0,
    ensures
        held & 0x40 != 0 ==> forward_intent(stick, held) == -127,
        held & 0x40 == 0 && held & 0x10 != 0 ==> forward_intent(stick, held) == 127,
        held & 0x40 == 0 && held & 0x10 == 0 ==> forward_intent(stick, held) == stick,
        held & 0x80 != 0 ==> strafe_intent(stick, held) == 127,
        held & 0x80 == 0 && held & 0x20 != 0 ==> strafe_intent(stick, held) == -127,
        held & 0x80 == 0 && held & 0x20 == 0 ==> strafe_intent(stick, held) == stick,
{
}

} // verus!
