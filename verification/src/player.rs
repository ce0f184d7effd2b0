//! The player's view and body around the movement motor.

use vstd::prelude::*;

use crate::button;
use crate::episode::EpisodeMap;
use crate::fixed::{
    clamp_int, div_i32, div_toward_zero, sat_i16, sat_i32, sat_sum, saturating_add_i16,
    saturating_add_i32, saturating_mul_i32, saturating_sub_i32, saturating_sum,
};
use crate::input_policy::InputFrame;
use crate::pusher::Rider;
use crate::world::{Camera, Vec3I16, Vec3I32};

verus! {

/// Height of the eye over the origin.
pub const EYE_HEIGHT_Q12: i32 = 90112;

/// A corpse watches the room from the floor.
pub const DEAD_EYE_HEIGHT_Q12: i32 = -32768;

/// 89 degrees, of a turn of 4096.
pub const MAX_PITCH: i16 = 1012;

/// The spawn point of a player who comes back with a rune.
pub const CLASS_INFO_PLAYER_START2: u8 = 0x18;

pub open spec fn player_mins() -> Vec3I32 {
    Vec3I32 { x: (-65536) as i32, y: (-65536) as i32, z: (-98304) as i32 }
}

pub open spec fn player_maxs() -> Vec3I32 {
    Vec3I32 { x: 65536, y: 65536, z: 131072 }
}

/// What the motor did this frame.
#[derive(Copy, Clone, Debug, PartialEq, Eq, Structural)]
pub struct MovementEvents {
    pub jump: bool,
    pub swim: bool,
    pub hard_land: bool,
    pub land: bool,
    pub water_land: bool,
    pub enter_liquid: bool,
    pub leave_liquid: bool,
}

/// Collision queries that were assumed rather than answered.
#[derive(Copy, Clone, Debug, PartialEq, Eq, Structural)]
pub enum MovementStalls {
    /// As the motor reports them.
    Motor(u32),
    /// The map has no collision at all.
    NoCollision,
}

#[derive(Copy, Clone, Debug, PartialEq, Eq, Structural)]
pub struct PlayerFrame {
    pub listener_changed: bool,
    pub events: MovementEvents,
    pub water_level: u8,
    pub water_type: i16,
    /// The motor ran. It fails to run only when the map has no collision.
    pub motor_ran: bool,
    /// The motor ran and the origin changed.
    pub moved: bool,
    pub stalls: MovementStalls,
}

pub open spec fn no_events() -> MovementEvents {
    MovementEvents {
        jump: false,
        swim: false,
        hard_land: false,
        land: false,
        water_land: false,
        enter_liquid: false,
        leave_liquid: false,
    }
}

/// A frame in which nothing happened.
pub open spec fn still_frame() -> PlayerFrame {
    PlayerFrame {
        listener_changed: false,
        events: no_events(),
        water_level: 0,
        water_type: 0,
        motor_ran: false,
        moved: false,
        stalls: MovementStalls::Motor(0),
    }
}

impl Default for PlayerFrame {
    fn default() -> (frame: Self)
        ensures
            frame == still_frame(),
    {
        PlayerFrame {
            listener_changed: false,
            events: MovementEvents {
                jump: false,
                swim: false,
                hard_land: false,
                land: false,
                water_land: false,
                enter_liquid: false,
                leave_liquid: false,
            },
            water_level: 0,
            water_type: 0,
            motor_ran: false,
            moved: false,
            stalls: MovementStalls::Motor(0),
        }
    }
}

/// What the motor knows of the body.
#[derive(Copy, Clone, Debug, PartialEq, Eq, Structural)]
pub struct MotorState {
    pub origin: Vec3I32,
    pub velocity: Vec3I32,
    pub grounded: bool,
    pub water_level: u8,
}

/// A body put down at rest, with nothing left of what it did before.
pub open spec fn at_rest(origin: Vec3I32) -> MotorState {
    MotorState { origin, velocity: Vec3I32 { x: 0, y: 0, z: 0 }, grounded: false, water_level: 0 }
}

/// What the motor is asked to do.
#[derive(Copy, Clone, Debug, PartialEq, Eq, Structural)]
pub struct MotorInput {
    pub forward: i16,
    pub strafe: i16,
    pub yaw: u16,
    pub pitch: u16,
    pub jump: bool,
    pub gravity: i32,
}

/// What the motor answered.
#[derive(Copy, Clone, Debug, PartialEq, Eq, Structural)]
pub struct MotorFrame {
    pub state: MotorState,
    pub moved: bool,
    pub events: MovementEvents,
    pub water_type: i16,
    pub stalls: u32,
}

/// An entity as far as spawning goes.
#[derive(Copy, Clone, Debug, PartialEq, Eq, Structural)]
pub struct SpawnSpot {
    pub class_name: u8,
    pub origin: Vec3I32,
    pub angles: Vec3I16,
}

/// Where a teleporter leads.
#[derive(Copy, Clone, Debug, PartialEq, Eq, Structural)]
pub struct TeleportDestination {
    pub origin: Vec3I32,
    pub angles: Vec3I16,
    pub exit_velocity: Vec3I32,
    pub silent: bool,
}

/// Offsets of punch, kick, roll and bob.
#[derive(Copy, Clone, Debug, PartialEq, Eq, Structural)]
pub struct ViewOffsets {
    pub pitch: i16,
    pub roll: i16,
    pub bob: i32,
}

/// How far the view turned.
#[derive(Copy, Clone, Debug, PartialEq, Eq, Structural)]
pub struct LookDelta {
    pub yaw: i16,
    pub pitch: i16,
}

#[derive(Copy, Clone, Debug, PartialEq, Eq, Structural)]
pub struct Player {
    pub motor: MotorState,
    pub dead: bool,
    pub view_angles: Vec3I16,
}

/// Video ticks of one frame that count.
pub open spec fn counted_ticks(elapsed: u16) -> int {
    clamp_int(elapsed as int, 1, 4)
}

fn clamped_ticks(elapsed: u16) -> (ticks: i32)
    ensures
        ticks == counted_ticks(elapsed),
{
    if elapsed < 1 {
        1
    } else if elapsed > 4 {
        4
    } else {
        elapsed as i32
    }
}

/// The low 16 bits of a number, as a signed number.
pub open spec fn low_i16(value: int) -> int {
    (value + 32768) % 65536 - 32768
}

/// Turn of one axis: its speed at full deflection, over so many ticks.
pub open spec fn turn(deflection: int, speed: int, ticks: int) -> int {
    low_i16(div_toward_zero(deflection * speed, 127) * ticks)
}

fn turned(deflection: i16, speed: i32, ticks: i32) -> (delta: i16)
    requires
        speed == 24 || speed == 32,
        1 <= ticks <= 4,
    ensures
        delta == turn(deflection as int, speed as int, ticks as int),
{
    assert(-1_048_576 <= deflection * speed <= 1_048_576) by (nonlinear_arith)
        requires
            -32768 <= deflection <= 32767,
            speed == 24 || speed == 32,
    ;
    let step: i32 = div_i32(deflection as i32 * speed, 127);
    assert(-33_028 <= step * ticks <= 33_028) by (nonlinear_arith)
        requires
            -8257 <= step <= 8257,
            1 <= ticks <= 4,
    ;
    let whole: i32 = step * ticks;
    if whole > 32767 {
        (whole - 65536) as i16
    } else if whole < -32768 {
        (whole + 65536) as i16
    } else {
        whole as i16
    }
}

/// The view after a turn: yaw goes round, pitch stops short of straight up
/// and down.
pub open spec fn looked(angles: Vec3I16, delta: LookDelta) -> Vec3I16 {
    Vec3I16 {
        x: clamp_int(sat_i16(angles.x + delta.pitch), -MAX_PITCH, MAX_PITCH as int) as i16,
        y: angles.y.wrapping_add(delta.yaw),
        z: angles.z,
    }
}

/// An angle within one turn of 4096.
pub open spec fn within_turn(angle: i16) -> u16 {
    (angle as int % 4096) as u16
}

fn turn_angle(angle: i16) -> (wrapped: u16)
    ensures
        wrapped == within_turn(angle),
{
    ((angle as i32 + 65536) % 4096) as u16
}

/// Where the eye is.
pub open spec fn eye_camera(player: Player) -> Camera {
    Camera {
        origin: Vec3I32 {
            z: sat_i32(
                player.motor.origin.z + if player.dead {
                    DEAD_EYE_HEIGHT_Q12
                } else {
                    EYE_HEIGHT_Q12
                },
            ) as i32,
            ..player.motor.origin
        },
        angles: player.view_angles,
    }
}

/// One axis of free flight: at full deflection 320 units a second.
pub open spec fn flight_step(forward: int, right: int, ahead: int, aside: int, ticks: int) -> int {
    div_toward_zero(
        sat_i32(
            div_toward_zero(sat_i32(sat_i32(forward * ahead) + sat_i32(right * aside)), 127) * (16
                * ticks),
        ),
        3,
    )
}

fn flight(forward: i32, right: i32, ahead: i16, aside: i16, ticks: i32) -> (step: i32)
    requires
        1 <= ticks <= 4,
    ensures
        step == flight_step(forward as int, right as int, ahead as int, aside as int, ticks as int),
{
    let sum: i32 = saturating_add_i32(
        saturating_mul_i32(forward, ahead as i32),
        saturating_mul_i32(right, aside as i32),
    );
    div_i32(saturating_mul_i32(div_i32(sum, 127), 16 * ticks), 3)
}

/// The first spot of a class.
pub open spec fn first_of_class(spots: Seq<SpawnSpot>, class_name: u8, count: nat) -> Option<int>
    decreases count,
{
    if count == 0 {
        None
    } else {
        match first_of_class(spots, class_name, (count - 1) as nat) {
            Some(index) => Some(index),
            None => if spots[count - 1].class_name == class_name {
                Some(count - 1)
            } else {
                None
            },
        }
    }
}

/// Which entity the player starts at: with a rune in hand the second start, if
/// there is one, else the one that the table keeps at index one.
pub open spec fn start_spot(spots: Seq<SpawnSpot>, runes: u8) -> Option<SpawnSpot> {
    let second = first_of_class(spots, CLASS_INFO_PLAYER_START2, spots.len());
    if runes != 0 && second is Some {
        Some(spots[second->0])
    } else if spots.len() > 1 {
        Some(spots[1])
    } else {
        None
    }
}

fn find_class(spots: &Vec<SpawnSpot>, class_name: u8) -> (found: Option<usize>)
    ensures
        match (found, first_of_class(spots@, class_name, spots@.len())) {
            (Some(index), Some(first)) => index == first && index < spots@.len(),
            (None, None) => true,
            _ => false,
        },
{
    let mut index: usize = 0;
    while index < spots.len()
        invariant
            index <= spots@.len(),
            first_of_class(spots@, class_name, index as nat) is None,
        decreases spots@.len() - index,
    {
        if spots[index].class_name == class_name {
            proof {
                first_stays_first(spots@, class_name, (index + 1) as nat, spots@.len());
            }
            return Some(index);
        }
        index += 1;
    }
    None
}

proof fn first_stays_first(spots: Seq<SpawnSpot>, class_name: u8, low: nat, high: nat)
    requires
        low <= high,
        first_of_class(spots, class_name, low) is Some,
    ensures
        first_of_class(spots, class_name, high) == first_of_class(spots, class_name, low),
    decreases high,
{
    if low < high {
        first_stays_first(spots, class_name, low, (high - 1) as nat);
    }
}

impl Player {
    /// Choose the spawn point and put the player there, at rest.
    pub fn from_start(spots: &Vec<SpawnSpot>, runes: u8) -> (player: Option<Player>)
        ensures
            player == match start_spot(spots@, runes) {
                Some(spot) => Some(
                    Player {
                        motor: at_rest(spot.origin),
                        dead: false,
                        view_angles: spot.angles,
                    },
                ),
                None => None,
            },
    {
        if runes != 0 {
            if let Some(index) = find_class(spots, CLASS_INFO_PLAYER_START2) {
                return Some(Player::from_entity(spots[index]));
            }
        }
        if spots.len() > 1 {
            Some(Player::from_entity(spots[1]))
        } else {
            None
        }
    }

    fn from_entity(spot: SpawnSpot) -> (player: Player)
        ensures
            player == (Player {
                motor: at_rest(spot.origin),
                dead: false,
                view_angles: spot.angles,
            }),
    {
        Player {
            motor: MotorState {
                origin: spot.origin,
                velocity: Vec3I32 { x: 0, y: 0, z: 0 },
                grounded: false,
                water_level: 0,
            },
            dead: false,
            view_angles: spot.angles,
        }
    }

    /// Turn the view by this frame's input.
    pub fn update_look(&mut self, input: InputFrame, elapsed_ticks: u16) -> (delta: LookDelta)
        ensures
            delta.yaw == turn(input.look@[0] as int, 32, counted_ticks(elapsed_ticks)),
            delta.pitch == turn(input.look@[1] as int, 24, counted_ticks(elapsed_ticks)),
            *final(self) == (Player {
                view_angles: looked(old(self).view_angles, delta),
                ..*old(self)
            }),
    {
        let ticks: i32 = clamped_ticks(elapsed_ticks);
        let yaw: i16 = turned(input.look[0], 32, ticks);
        let pitch: i16 = turned(input.look[1], 24, ticks);
        self.view_angles.y = self.view_angles.y.wrapping_add(yaw);
        let tilted: i16 = saturating_add_i16(self.view_angles.x, pitch);
        self.view_angles.x = if tilted < -MAX_PITCH {
            -MAX_PITCH
        } else if tilted > MAX_PITCH {
            MAX_PITCH
        } else {
            tilted
        };
        LookDelta { yaw, pitch }
    }

    /// The corpse keeps its origin; only the eye drops.
    pub fn set_dead(&mut self, dead: bool)
        ensures
            *final(self) == (Player { dead, ..*old(self) }),
    {
        self.dead = dead;
    }

    /// The view that shots, aiming and the listener use.
    pub fn camera(&self) -> (camera: Camera)
        ensures
            camera == eye_camera(*self),
    {
        let eye: i32 = if self.dead {
            DEAD_EYE_HEIGHT_Q12
        } else {
            EYE_HEIGHT_Q12
        };
        Camera {
            origin: Vec3I32 {
                x: self.motor.origin.x,
                y: self.motor.origin.y,
                z: saturating_add_i32(self.motor.origin.z, eye),
            },
            angles: self.view_angles,
        }
    }

    /// The view that is drawn: the camera with this frame's offsets.
    pub fn render_camera(&self, offsets: ViewOffsets) -> (camera: Camera)
        ensures
            ({
                let eye = eye_camera(*self);
                camera == Camera {
                    origin: Vec3I32 { z: sat_i32(eye.origin.z + offsets.bob) as i32, ..eye.origin },
                    angles: Vec3I16 {
                        x: eye.angles.x.wrapping_add(offsets.pitch),
                        y: eye.angles.y,
                        z: eye.angles.z.wrapping_add(offsets.roll),
                    },
                }
            }),
    {
        let mut camera: Camera = self.camera();
        camera.origin.z = saturating_add_i32(camera.origin.z, offsets.bob);
        camera.angles.x = camera.angles.x.wrapping_add(offsets.pitch);
        camera.angles.z = camera.angles.z.wrapping_add(offsets.roll);
        camera
    }

    pub fn bounds(&self) -> (bounds: (Vec3I32, Vec3I32))
        ensures
            bounds.0 == sat_sum(self.motor.origin, player_mins()),
            bounds.1 == sat_sum(self.motor.origin, player_maxs()),
    {
        let mins = Vec3I32 { x: -65536, y: -65536, z: -98304 };
        let maxs = Vec3I32 { x: 65536, y: 65536, z: 131072 };
        (saturating_sum(self.motor.origin, mins), saturating_sum(self.motor.origin, maxs))
    }

    /// Lend the body to the movers.
    pub fn rider(&self) -> (rider: Rider)
        ensures
            rider == (Rider {
                origin: self.motor.origin,
                mins: sat_sum(self.motor.origin, player_mins()),
                maxs: sat_sum(self.motor.origin, player_maxs()),
                grounded: self.motor.grounded,
                carried: false,
            }),
    {
        let (mins, maxs) = self.bounds();
        Rider::new(self.motor.origin, mins, maxs, self.motor.grounded)
    }

    /// Take back the origin that a mover carried the body to. Velocity, water
    /// and ground stay: the rider never stopped standing on the lift.
    pub fn carry_to(&mut self, origin: Vec3I32)
        ensures
            *final(self) == (Player {
                motor: MotorState { origin, ..old(self).motor },
                ..*old(self)
            }),
    {
        self.motor.origin = origin;
    }

    /// Where blasts are aimed at.
    pub fn damage_origin(&self) -> (point: Vec3I32)
        ensures
            point == (Vec3I32 {
                z: sat_i32(self.motor.origin.z + 16384) as i32,
                ..self.motor.origin
            }),
    {
        Vec3I32 {
            x: self.motor.origin.x,
            y: self.motor.origin.y,
            z: saturating_add_i32(self.motor.origin.z, 16384),
        }
    }

    /// From dry, 0, to eyes under, 3.
    pub fn water_level(&self) -> (level: u8)
        ensures
            level == self.motor.water_level,
    {
        self.motor.water_level
    }

    pub fn origin(&self) -> (origin: Vec3I32)
        ensures
            origin == self.motor.origin,
    {
        self.motor.origin
    }

    pub fn velocity(&self) -> (velocity: Vec3I32)
        ensures
            velocity == self.motor.velocity,
    {
        self.motor.velocity
    }

    /// Put the body down at rest.
    pub fn teleport(&mut self, origin: Vec3I32)
        ensures
            *final(self) == (Player { motor: at_rest(origin), ..*old(self) }),
    {
        self.motor = MotorState {
            origin,
            velocity: Vec3I32 { x: 0, y: 0, z: 0 },
            grounded: false,
            water_level: 0,
        };
    }

    /// Go through a teleporter: nothing is left of the old motion, and the
    /// exit pushes the body out. The view turns with the exit.
    pub fn apply_teleport(&mut self, destination: TeleportDestination)
        ensures
            *final(self) == (Player {
                motor: MotorState {
                    velocity: destination.exit_velocity,
                    ..at_rest(destination.origin)
                },
                view_angles: destination.angles,
                ..*old(self)
            }),
    {
        self.teleport(destination.origin);
        self.motor.velocity = destination.exit_velocity;
        self.view_angles = destination.angles;
    }

    /// Put the eye somewhere.
    pub fn place_camera(&mut self, eye: Vec3I32, angles: Vec3I16)
        ensures
            *final(self) == (Player {
                motor: at_rest(Vec3I32 { z: sat_i32(eye.z - EYE_HEIGHT_Q12) as i32, ..eye }),
                view_angles: angles,
                ..*old(self)
            }),
    {
        self.teleport(
            Vec3I32 { x: eye.x, y: eye.y, z: saturating_sub_i32(eye.z, EYE_HEIGHT_Q12) },
        );
        self.view_angles = angles;
    }

    /// What to ask of the motor, once the view has turned. One map of the
    /// episode has low gravity.
    pub fn motor_input(&self, input: InputFrame, map: EpisodeMap, default_gravity: i32) -> (request:
        MotorInput)
        ensures
            request.forward == input.movement@[0],
            request.strafe == input.movement@[1],
            request.yaw == within_turn(self.view_angles.y),
            request.pitch == within_turn(self.view_angles.x),
            request.jump == (input.held & button::CROSS != 0),
            request.gravity == if map == EpisodeMap::E1M8 {
                100
            } else {
                default_gravity
            },
    {
        let gravity: i32 = match map {
            EpisodeMap::E1M8 => 100,
            _ => default_gravity,
        };
        MotorInput {
            forward: input.movement[0],
            strafe: input.movement[1],
            yaw: turn_angle(self.view_angles.y),
            pitch: turn_angle(self.view_angles.x),
            jump: input.jump_held(),
            gravity,
        }
    }

    /// Take over what the motor did; without collision it did not run.
    pub fn update(&mut self, look: LookDelta, motor: Option<MotorFrame>) -> (frame: PlayerFrame)
        ensures
            match motor {
                Some(ran) => {
                    &&& *final(self) == (Player { motor: ran.state, ..*old(self) })
                    &&& frame == PlayerFrame {
                        listener_changed: look.yaw != 0 || ran.moved,
                        events: ran.events,
                        water_level: ran.state.water_level,
                        water_type: ran.water_type,
                        motor_ran: true,
                        moved: ran.moved,
                        stalls: MovementStalls::Motor(ran.stalls),
                    }
                },
                None => {
                    &&& *final(self) == *old(self)
                    &&& frame == PlayerFrame {
                        listener_changed: look.yaw != 0,
                        stalls: MovementStalls::NoCollision,
                        ..still_frame()
                    }
                },
            },
    {
        match motor {
            Some(ran) => {
                self.motor = ran.state;
                PlayerFrame {
                    listener_changed: look.yaw != 0 || ran.moved,
                    events: ran.events,
                    water_level: ran.state.water_level,
                    water_type: ran.water_type,
                    motor_ran: true,
                    moved: ran.moved,
                    stalls: MovementStalls::Motor(ran.stalls),
                }
            },
            None => {
                let mut frame: PlayerFrame = PlayerFrame::default();
                frame.listener_changed = look.yaw != 0;
                frame.stalls = MovementStalls::NoCollision;
                frame
            },
        }
    }

    /// Fly along the view, through everything. `forward` and `right` are the
    /// view's directions after it has turned.
    pub fn update_noclip(
        &mut self,
        input: InputFrame,
        look: LookDelta,
        forward: Vec3I32,
        right: Vec3I32,
        elapsed_ticks: u16,
    ) -> (frame: PlayerFrame)
        ensures
            ({
                let ahead = input.movement@[0] as int;
                let aside = input.movement@[1] as int;
                let ticks = counted_ticks(elapsed_ticks);
                let from = old(self).motor.origin;
                let to = Vec3I32 {
                    x: sat_i32(
                        from.x + flight_step(forward.x as int, right.x as int, ahead, aside, ticks),
                    ) as i32,
                    y: sat_i32(
                        from.y + flight_step(forward.y as int, right.y as int, ahead, aside, ticks),
                    ) as i32,
                    z: sat_i32(
                        from.z + flight_step(forward.z as int, right.z as int, ahead, aside, ticks),
                    ) as i32,
                };
                &&& *final(self) == (Player { motor: at_rest(to), ..*old(self) })
                &&& frame == PlayerFrame {
                    listener_changed: look.yaw != 0 || look.pitch != 0 || to != from,
                    motor_ran: true,
                    moved: to != from,
                    ..still_frame()
                }
            }),
    {
        let ticks: i32 = clamped_ticks(elapsed_ticks);
        let ahead: i16 = input.movement[0];
        let aside: i16 = input.movement[1];
        let from: Vec3I32 = self.motor.origin;
        let to = Vec3I32 {
            x: saturating_add_i32(from.x, flight(forward.x, right.x, ahead, aside, ticks)),
            y: saturating_add_i32(from.y, flight(forward.y, right.y, ahead, aside, ticks)),
            z: saturating_add_i32(from.z, flight(forward.z, right.z, ahead, aside, ticks)),
        };
        let moved: bool = to != from;
        self.teleport(to);
        let mut frame: PlayerFrame = PlayerFrame::default();
        frame.listener_changed = look.yaw != 0 || look.pitch != 0 || moved;
        frame.motor_ran = true;
        frame.moved = moved;
        frame
    }
}

/// However the view is turned, it never goes over the top.
pub proof fn pitch_stays_in_range(angles: Vec3I16, delta: LookDelta)
    ensures
        -MAX_PITCH <= looked(angles, delta).x <= MAX_PITCH,
{
}

/// A centred stick turns nothing and moves nothing.
pub proof fn a_centred_stick_rests(forward: int, right: int, ticks: int)
    requires
        1 <= ticks <= 4,
    ensures
        turn(0, 32, ticks) == 0,
        turn(0, 24, ticks) == 0,
        flight_step(forward, right, 0, 0, ticks) == 0,
{
    assert(0 * ticks == 0) by (nonlinear_arith);
    assert(forward * 0 == 0) by (nonlinear_arith);
    assert(right * 0 == 0) by (nonlinear_arith);
    assert(0 * (16 * ticks) == 0) by (nonlinear_arith);
}

/// To put the eye somewhere and ask for the camera gives it back, as long as
/// the body does not leave the world.
pub proof fn a_placed_camera_is_there(eye: Vec3I32, angles: Vec3I16, player: Player)
    requires
        eye.z >= i32::MIN + EYE_HEIGHT_Q12,
        !player.dead,
        player.motor == at_rest(Vec3I32 { z: sat_i32(eye.z - EYE_HEIGHT_Q12) as i32, ..eye }),
        player.view_angles == angles,
    ensures
        eye_camera(player) == (Camera { origin: eye, angles }),
{
}

/// With a rune in hand the player starts at the second start, wherever it
/// stands in the table; without one never because of it.
pub proof fn runes_choose_the_second_start(spots: Seq<SpawnSpot>, index: int, runes: u8)
    requires
        0 <= index < spots.len(),
        spots[index].class_name == CLASS_INFO_PLAYER_START2,
        spots.len() > 1,
    ensures
        runes != 0 ==> start_spot(spots, runes)->0.class_name == CLASS_INFO_PLAYER_START2,
        runes == 0 ==> start_spot(spots, runes) == Some(spots[1]),
{
    assert(spots[index].class_name == CLASS_INFO_PLAYER_START2);
    first_is_found(spots, CLASS_INFO_PLAYER_START2, index, spots.len());
}

proof fn first_is_found(spots: Seq<SpawnSpot>, class_name: u8, index: int, count: nat)
    requires
        0 <= index < count <= spots.len(),
        spots[index].class_name == class_name,
    ensures
        first_of_class(spots, class_name, count) is Some,
        0 <= first_of_class(spots, class_name, count)->0 <= index,
        spots[first_of_class(spots, class_name, count)->0].class_name == class_name,
    decreases count,
{
    if index < count - 1 {
        first_is_found(spots, class_name, index, (count - 1) as nat);
    } else {
        none_before(spots, class_name, (count - 1) as nat);
    }
}

proof fn none_before(spots: Seq<SpawnSpot>, class_name: u8, count: nat)
    requires
        count <= spots.len(),
    ensures
        first_of_class(spots, class_name, count) is Some ==> {
            &&& 0 <= first_of_class(spots, class_name, count)->0 < count
            &&& spots[first_of_class(spots, class_name, count)->0].class_name == class_name
        },
    decreases count,
{
    if count > 0 {
        none_before(spots, class_name, (count - 1) as nat);
    }
}

/// Looking aside turns the yaw alone and looking up or down the pitch alone.
pub proof fn looks_turn_their_own_angle(angles: Vec3I16, yaw: i16, pitch: i16)
    ensures
        ({
            let aside = looked(angles, LookDelta { yaw, pitch: 0 });
            let upward = looked(angles, LookDelta { yaw: 0, pitch });
            let both = looked(angles, LookDelta { yaw, pitch });
            &&& aside.y == angles.y.wrapping_add(yaw)
            &&& -1012 <= angles.x <= 1012 ==> aside.x == angles.x
            &&& upward.y == angles.y
            &&& -1012 <= angles.x + pitch <= 1012 ==> upward.x == angles.x + pitch
            &&& angles.x + pitch > 1012 ==> upward.x == 1012
            &&& angles.x + pitch < -1012 ==> upward.x == -1012
            &&& both.x == upward.x && both.y == aside.y
            &&& both.z == angles.z && aside.z == angles.z && upward.z == angles.z
        }),
{
}

/// The eye is straight above the player's origin, by 22 units in life and eight
/// below it in death, and looks where the player looks.
pub proof fn the_eye_is_above_the_feet(player: Player)
    requires
        -0x7000_0000 <= player.motor.origin.z <= 0x7000_0000,
    ensures
        ({
            let camera = eye_camera(player);
            &&& camera.origin.x == player.motor.origin.x
            &&& camera.origin.y == player.motor.origin.y
            &&& camera.origin.z - player.motor.origin.z == (if player.dead {
                -(8int * 4096)
            } else {
                22int * 4096
            })
            &&& camera.angles == player.view_angles
        }),
{
}

/// The player's box reaches sixteen units to each side, 24 down and 32 up.
pub proof fn the_players_box_is_upright()
    ensures
        player_mins().x == -(16 * 4096) && player_mins().y == -(16 * 4096) && player_mins().z == -(24
            * 4096),
        player_maxs().x == 16 * 4096 && player_maxs().y == 16 * 4096 && player_maxs().z == 32
            * 4096,
{
}

/// A stick pushed all the way turns by the speed in every tick, pushed the other
/// way the other way, and at rest not at all.
pub proof fn full_deflection_turns_at_full_speed(speed: int, ticks: int)
    requires
        0 <= speed <= 4096,
        1 <= ticks <= 4,
    ensures
        turn(127, speed, ticks) == speed * ticks,
        turn(-127, speed, ticks) == -(speed * ticks),
        turn(0, speed, ticks) == 0,
{
    assert(127 * speed / 127 == speed);
    assert((-127) * speed == -(127 * speed)) by (nonlinear_arith);
    assert(0 * speed == 0) by (nonlinear_arith);
    assert(0 <= speed * ticks <= 16384) by (nonlinear_arith)
        requires
            0 <= speed <= 4096,
            1 <= ticks <= 4,
    ;
    assert((-speed) * ticks == -(speed * ticks)) by (nonlinear_arith);
    assert(0 * ticks == 0) by (nonlinear_arith);
    if speed > 0 {
        assert(div_toward_zero(-(127 * speed), 127) == -speed);
    }
}

/// A turn has 4096 steps, and an angle and the same angle a turn on are one.
pub proof fn angles_wrap_within_a_turn(angle: i16)
    ensures
        within_turn(angle) < 4096,
        (angle - within_turn(angle)) % 4096 == 0,
        angle <= 28671 ==> within_turn((angle + 4096) as i16) == within_turn(angle),
        0 <= angle < 4096 ==> within_turn(angle) == angle,
{
}

/// A frame counts as one to four ticks.
pub proof fn frames_count_one_to_four_ticks(elapsed: u16)
    ensures
        1 <= counted_ticks(elapsed) <= 4,
        1 <= elapsed <= 4 ==> counted_ticks(elapsed) == elapsed,
        elapsed > 4 ==> counted_ticks(elapsed) == 4,
{
}

/// Flying straight ahead goes by the forward direction alone and aside by the
/// right one alone, sixteen thirds of it a tick at full deflection; both ways of
/// deflection count alike.
pub proof fn flight_goes_both_ways(forward: int, right: int, ahead: int, aside: int, ticks: int)
    requires
        -4096 <= forward <= 4096,
        -4096 <= right <= 4096,
        -127 <= ahead <= 127,
        -127 <= aside <= 127,
        1 <= ticks <= 4,
    ensures
        flight_step(forward, right, ahead, 0, ticks) == flight_step(forward, 0, ahead, 0, ticks),
        flight_step(forward, right, 0, aside, ticks) == flight_step(0, right, 0, aside, ticks),
        flight_step(forward, right, ahead, aside, ticks) == flight_step(
            right,
            forward,
            aside,
            ahead,
            ticks,
        ),
        flight_step(forward, right, 127, 0, ticks) == div_toward_zero(forward * (16 * ticks), 3),
        flight_step(forward, right, 0, 127, ticks) == div_toward_zero(right * (16 * ticks), 3),
{
    assert(right * 0 == 0 && forward * 0 == 0 && 0 * ahead == 0 && 0 * aside == 0 && 0 * 0 == 0)
        by (nonlinear_arith);
    full_deflection_divides(forward, ticks);
    full_deflection_divides(right, ticks);
}

proof fn full_deflection_divides(direction: int, ticks: int)
    requires
        -4096 <= direction <= 4096,
        1 <= ticks <= 4,
    ensures
        div_toward_zero(sat_i32(sat_i32(direction * 127) + sat_i32(0)), 127) == direction,
        div_toward_zero(sat_i32(sat_i32(0) + sat_i32(direction * 127)), 127) == direction,
        sat_i32(direction * (16 * ticks)) == direction * (16 * ticks),
{
    assert(direction * 127 / 127 == direction);
    if direction < 0 {
        assert((-(direction * 127)) / 127 == -direction);
    }
    assert(-262_144 <= direction * (16 * ticks) <= 262_144) by (nonlinear_arith)
        requires
            -4096 <= direction <= 4096,
            1 <= ticks <= 4,
    ;
}

/// A frame without movement reports nothing.
pub proof fn still_frames_report_nothing()
    ensures
        ({
            let frame = still_frame();
            let events = frame.events;
            &&& !frame.listener_changed && !frame.motor_ran && !frame.moved
            &&& frame.water_level == 0 && frame.water_type == 0
            &&& frame.stalls == MovementStalls::Motor(0)
            &&& !events.jump && !events.swim && !events.hard_land && !events.land
                && !events.water_land && !events.enter_liquid && !events.leave_liquid
        }),
        forall|origin: Vec3I32|
            #![trigger at_rest(origin)]
            at_rest(origin).origin == origin && at_rest(origin).velocity.x == 0 && at_rest(
                origin,
            ).velocity.y == 0 && at_rest(origin).velocity.z == 0 && !at_rest(origin).grounded
                && at_rest(origin).water_level == 0,
{
}

} // verus!
