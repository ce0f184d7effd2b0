use quake_psx::button;
use quake_psx::episode::EpisodeMap;
use quake_psx::input_policy::InputFrame;
use quake_psx::player::LookDelta;
use quake_psx::player::MotorFrame;
use quake_psx::player::MotorState;
use quake_psx::player::MovementEvents;
use quake_psx::player::MovementStalls;
use quake_psx::player::Player;
use quake_psx::player::PlayerFrame;
use quake_psx::player::SpawnSpot;
use quake_psx::player::TeleportDestination;
use quake_psx::player::ViewOffsets;
use quake_psx::player::CLASS_INFO_PLAYER_START2;
use quake_psx::player::MAX_PITCH;
use quake_psx::pusher::push_pass;
use quake_psx::pusher::PushBlocker;
use quake_psx::pusher::PushCandidate;
use quake_psx::pusher::PushLedger;
use quake_psx::pusher::PushOutcome;
use quake_psx::pusher::Rider;
use quake_psx::pusher::MAX_CARRIED_BODIES;
use quake_psx::world::Vec3I16;
use quake_psx::world::Vec3I32;

fn point(x: i32, y: i32, z: i32) -> Vec3I32 {
    Vec3I32 { x, y, z }
}

fn spot(class_name: u8, x: i32) -> SpawnSpot {
    SpawnSpot { class_name, origin: point(x, 0, 0), angles: Vec3I16 { x: 1, y: 2, z: 3 } }
}

fn player() -> Player {
    match Player::from_start(&vec![spot(0, 0), spot(1, 4096)], 0) {
        Some(player) => player,
        None => panic!("the map has a start"),
    }
}

fn look(yaw: i16, pitch: i16) -> InputFrame {
    InputFrame { look: [yaw, pitch], ..InputFrame::default() }
}

#[test]
fn the_player_starts_at_the_second_entity() {
    let player = player();
    assert_eq!(player.origin(), point(4096, 0, 0));
    assert_eq!(player.velocity(), point(0, 0, 0));
    assert_eq!(player.view_angles, Vec3I16 { x: 1, y: 2, z: 3 });
    assert!(Player::from_start(&vec![spot(1, 0)], 0).is_none());
}

#[test]
fn a_rune_leads_to_the_other_start() {
    let spots = vec![spot(0, 0), spot(1, 4096), spot(CLASS_INFO_PLAYER_START2, 77)];
    assert_eq!(Player::from_start(&spots, 1).map(|p| p.origin().x), Some(77));
    assert_eq!(Player::from_start(&spots, 0).map(|p| p.origin().x), Some(4096));
    assert_eq!(Player::from_start(&spots[..2].to_vec(), 1).map(|p| p.origin().x), Some(4096));
}

#[test]
fn looking_turns_by_ticks() {
    let mut player = player();
    let delta = player.update_look(look(127, 127), 2);
    assert_eq!(delta, LookDelta { yaw: 64, pitch: 48 });
    assert_eq!(player.view_angles, Vec3I16 { x: 49, y: 66, z: 3 });
    assert_eq!(player.update_look(look(-64, -64), 0), LookDelta { yaw: -16, pitch: -12 });
    assert_eq!(player.update_look(look(127, 0), 100), LookDelta { yaw: 128, pitch: 0 });
}

#[test]
fn pitch_stops_short_of_straight_up() {
    let mut player = player();
    for _ in 0..100 {
        player.update_look(look(0, 127), 4);
    }
    assert_eq!(player.view_angles.x, MAX_PITCH);
    for _ in 0..100 {
        player.update_look(look(0, -127), 4);
    }
    assert_eq!(player.view_angles.x, -MAX_PITCH);
}

#[test]
fn the_eye_drops_with_the_player() {
    let mut player = player();
    assert_eq!(player.camera().origin, point(4096, 0, 22 << 12));
    player.set_dead(true);
    assert_eq!(player.camera().origin, point(4096, 0, -8 << 12));
}

#[test]
fn the_drawn_view_has_this_frames_offsets() {
    let player = player();
    let camera = player.render_camera(ViewOffsets { pitch: -4, roll: 9, bob: 100 });
    assert_eq!(camera.origin.z, (22 << 12) + 100);
    assert_eq!(camera.angles, Vec3I16 { x: -3, y: 2, z: 12 });
}

#[test]
fn the_body_is_lent_and_taken_back() {
    let mut player = player();
    player.motor.velocity = point(5, 6, 7);
    player.motor.grounded = true;
    let rider = player.rider();
    assert_eq!(rider.mins, point(4096 - (16 << 12), -16 << 12, -24 << 12));
    assert_eq!(rider.maxs, point(4096 + (16 << 12), 16 << 12, 32 << 12));
    assert!(rider.grounded && !rider.carried);
    player.carry_to(point(1, 2, 3));
    assert_eq!(player.origin(), point(1, 2, 3));
    assert_eq!(player.velocity(), point(5, 6, 7));
    assert_eq!(player.damage_origin(), point(1, 2, 3 + (4 << 12)));
}

#[test]
fn teleporters_push_the_player_out() {
    let mut player = player();
    player.motor.grounded = true;
    player.motor.water_level = 2;
    player.apply_teleport(TeleportDestination {
        origin: point(9, 8, 7),
        angles: Vec3I16 { x: 0, y: 1024, z: 0 },
        exit_velocity: point(300, 0, 0),
        silent: false,
    });
    assert_eq!(player.origin(), point(9, 8, 7));
    assert_eq!(player.velocity(), point(300, 0, 0));
    assert_eq!(player.view_angles.y, 1024);
    assert_eq!(player.water_level(), 0);
    assert!(!player.motor.grounded);
}

#[test]
fn a_placed_camera_sees_from_its_place() {
    let mut player = player();
    player.place_camera(point(10, 20, 30), Vec3I16 { x: 1, y: 1, z: 1 });
    assert_eq!(player.camera().origin, point(10, 20, 30));
}

#[test]
fn the_motor_is_asked_within_one_turn() {
    let mut player = player();
    player.view_angles = Vec3I16 { x: -1, y: 4097, z: 0 };
    let input = InputFrame { movement: [5, 6], held: button::CROSS, ..InputFrame::default() };
    let request = player.motor_input(input, EpisodeMap::E1M1, 800);
    assert_eq!((request.forward, request.strafe), (5, 6));
    assert_eq!((request.yaw, request.pitch), (1, 4095));
    assert!(request.jump);
    assert_eq!(request.gravity, 800);
    assert_eq!(player.motor_input(input, EpisodeMap::E1M8, 800).gravity, 100);
}

fn no_events() -> MovementEvents {
    PlayerFrame::default().events
}

#[test]
fn the_motor_moves_the_player() {
    let mut player = player();
    let state = MotorState {
        origin: point(7, 7, 7),
        velocity: point(1, 1, 1),
        grounded: true,
        water_level: 1,
    };
    let ran = MotorFrame {
        state,
        moved: true,
        events: MovementEvents { jump: true, ..no_events() },
        water_type: -3,
        stalls: 4,
    };
    let frame = player.update(LookDelta { yaw: 0, pitch: 0 }, Some(ran));
    assert!(frame.listener_changed && frame.moved && frame.motor_ran && frame.events.jump);
    assert_eq!((frame.water_level, frame.water_type), (1, -3));
    assert_eq!(frame.stalls, MovementStalls::Motor(4));
    assert_eq!(player.motor, state);
}

#[test]
fn without_collision_the_motor_does_not_run() {
    let mut player = player();
    let before = player;
    let frame = player.update(LookDelta { yaw: 3, pitch: 0 }, None);
    assert!(frame.listener_changed && !frame.motor_ran && !frame.moved);
    assert_eq!(frame.stalls, MovementStalls::NoCollision);
    assert_eq!(player, before);
}

#[test]
fn free_flight_goes_along_the_view() {
    let mut player = player();
    player.motor.velocity = point(9, 9, 9);
    let input = InputFrame { movement: [127, 0], ..InputFrame::default() };
    let still = LookDelta { yaw: 0, pitch: 0 };
    let frame = player.update_noclip(input, still, point(4096, 0, 0), point(0, 4096, 0), 1);
    // A sixtieth of 320 units.
    assert_eq!(player.origin(), point(4096 + 4096 * 16 / 3, 0, 0));
    assert_eq!(player.velocity(), point(0, 0, 0));
    assert!(frame.moved && frame.listener_changed && frame.motor_ran);
    let rest = player.update_noclip(InputFrame::default(), still, point(1, 1, 1), point(1, 1, 1), 1);
    assert!(!rest.moved && !rest.listener_changed);
}

fn outcome(carried: bool, blocked: bool) -> PushOutcome {
    PushOutcome { origin: point(1, 2, 3), carried, blocked, blocking_body: None }
}

fn body(index: u16, rests_on: bool, carried: bool, blocked: bool) -> PushCandidate {
    PushCandidate { index, rests_on, penetrates: false, outcome: outcome(carried, blocked) }
}

#[test]
fn a_rider_moves_as_one() {
    let mut rider = Rider::new(point(0, 0, 0), point(-1, -1, -1), point(1, 1, 1), true);
    assert_eq!(rider.body().origin, point(0, 0, 0));
    rider.translate(point(10, 0, i32::MAX));
    assert_eq!(rider.origin, point(10, 0, i32::MAX));
    assert_eq!(rider.mins, point(9, -1, i32::MAX - 1));
    assert_eq!(rider.maxs, point(11, 1, i32::MAX));
    assert!(rider.carried);
}

#[test]
fn a_free_step_moves_everyone() {
    let bodies = vec![
        body(4, true, true, false),
        body(5, false, true, true),
        body(6, true, false, false),
        PushCandidate { penetrates: true, ..body(7, false, true, false) },
    ];
    let ledger = push_pass(outcome(true, false), &bodies);
    assert!(!ledger.blocked());
    assert_eq!(ledger.player_move(), Some(point(1, 2, 3)));
    let moved: Vec<u16> = ledger.body_moves().iter().map(|entry| entry.0).collect();
    assert_eq!(moved, vec![4, 7]);
}

#[test]
fn a_blocked_step_moves_nobody() {
    let bodies = vec![body(4, true, true, false), body(5, true, true, true), body(6, true, false, true)];
    let ledger = push_pass(outcome(true, false), &bodies);
    assert_eq!(ledger.blocker(), Some(PushBlocker::Body(5)));
    assert_eq!(ledger.player_move(), None);
    assert!(ledger.body_moves().is_empty());
}

#[test]
fn the_one_in_the_way_is_named() {
    let player = push_pass(outcome(false, true), &Vec::new());
    assert_eq!(player.blocker(), Some(PushBlocker::Player));
    let other = PushOutcome { blocking_body: Some(9), ..outcome(false, true) };
    assert_eq!(push_pass(other, &Vec::new()).blocker(), Some(PushBlocker::Body(9)));
    let mut ledger = PushLedger::default();
    ledger.stage_body(3, other);
    assert_eq!(ledger.blocker(), Some(PushBlocker::Body(9)));
}

#[test]
fn a_full_ledger_blocks() {
    let mut bodies: Vec<PushCandidate> = Vec::new();
    for index in 0..MAX_CARRIED_BODIES as u16 {
        bodies.push(body(index, true, true, false));
    }
    assert!(!push_pass(outcome(false, false), &bodies).blocked());
    bodies.push(body(99, true, true, false));
    let ledger = push_pass(outcome(false, false), &bodies);
    assert_eq!(ledger.blocker(), Some(PushBlocker::Capacity));
    assert!(ledger.body_moves().is_empty());
}
