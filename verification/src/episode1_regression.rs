//! A scripted end of the episode.
//!
//! Pad input collects the sigil, wakes and kills the boss through the map's
//! own mechanism, reaches the exit and comes back to the entrance hall. The
//! record then holds evidence of every step.

use vstd::prelude::*;

use crate::episode::{map_bit, map_index, map_mask, map_number, EpisodeMap};
use crate::fixed::{
    clamp_int, div_i32, div_toward_zero, sat_i32, saturating_add_i32, saturating_mul_i32,
    saturating_sub_i32, whole_units,
};
use crate::input_policy::InputFrame;
use crate::probe::{
    as_bits, bits_of, blank_probe, failed, is_within_a_unit, non_negative, recorded_health,
    within_a_unit, Probe,
};
use crate::world::Vec3I32;

verus! {

pub const PROBE_VERSION: u32 = 13;

pub const PHASE_SIGIL: u32 = 1;

pub const PHASE_BOSS: u32 = 2;

pub const PHASE_ARENA: u32 = 3;

pub const PHASE_EXIT: u32 = 4;

pub const PHASE_START: u32 = 5;

/// On the lift, waiting to be carried to the ring.
pub const PHASE_LIFT: u32 = 6;

/// On the ring, walking onto the button.
pub const PHASE_RING: u32 = 7;

/// Off the ring, across the bridge, down the shaft.
pub const PHASE_DESCENT: u32 = 8;

pub const PHASE_COMPLETE: u32 = 0xe1;

pub const FAILURE_BAD_MAP: u32 = 1;

pub const FAILURE_TIMEOUT: u32 = 2;

pub const FAILURE_TARGET_GRAPH: u32 = 3;

pub const FAILURE_NO_SIGIL: u32 = 4;

pub const FAILURE_NO_BOSS: u32 = 5;

pub const FAILURE_NO_CHANGELEVEL: u32 = 6;

pub const FAILURE_EPISODE_STATE: u32 = 7;

pub const FAILURE_PLAYER_DEAD: u32 = 8;

/// Detail of a start away from the authored place.
pub const DETAIL_SPAWN: u32 = 0x5350_4157;

pub const MAX_STAGE_FRAMES: u32 = 2400;

pub const SIGIL_TAKEN: u32 = 0x0_0001;

pub const BOSS_AWAKE: u32 = 0x0_0002;

/// The boss is out of the lava.
pub const BOSS_RISEN: u32 = 0x0_0004;

pub const BOSS_THREW: u32 = 0x0_0008;

pub const ARENA_WALKED: u32 = 0x0_0010;

pub const CHANGELEVEL: u32 = 0x0_0020;

pub const EPISODE_PANEL: u32 = 0x0_0040;

pub const RUNE_PERSISTED: u32 = 0x0_0080;

pub const START2_SPAWN: u32 = 0x0_0100;

pub const EPISODE_GATE: u32 = 0x0_0200;

pub const BOSS_GATE: u32 = 0x0_0400;

pub const LIFT_RIDDEN: u32 = 0x0_0800;

pub const BOSS_SHOCKED: u32 = 0x0_1000;

pub const BOSS_DEAD: u32 = 0x0_2000;

pub const BRIDGE_WALKED: u32 = 0x0_4000;

pub const SHAFT_FALLEN: u32 = 0x0_8000;

pub const START_SPAWN: u32 = 0x1_0000;

pub const CHANGELEVEL_TARGETS: u32 = 0x2_0000;

/// All of the evidence.
pub const REQUIRED: u32 = 0x3_ffff;

/// The sigil was touched and has woken the boss.
pub const SIGIL_EVIDENCE: u32 = 0x3;

/// The boss is up and throws.
pub const FIGHT_EVIDENCE: u32 = 0xc;

/// The boss was shocked to death.
pub const SHOCK_EVIDENCE: u32 = 0x3000;

pub const CLASS_MONSTER_BOSS: u8 = 0x37;

pub const CLASS_CHANGELEVEL: u8 = 0x47;

pub const CLASS_PLAYER_START: u8 = 0x01;

/// How far the lift goes.
pub const LIFT_TRAVEL_UNITS: i32 = 176;

/// At or below this height the ring has been left.
pub const BRIDGE_DECK_UNITS: i32 = 40;

/// The exit chamber lies far below the arena.
pub const CHAMBER_FLOOR_UNITS: i32 = -900;

/// A point that may be reached at any height.
pub const ANY_HEIGHT: i32 = i32::MAX;

/// Frames without progress before another way is tried.
pub const STALL_LIMIT: u32 = 45;

/// A point of a route.
#[derive(Copy, Clone, Debug, PartialEq, Eq, Structural)]
pub struct Waypoint {
    pub x: i32,
    pub y: i32,
    pub radius: i32,
    /// The route is at this point only at or below this height. On the way
    /// down every point is passed in the air first.
    pub ceiling: i32,
    /// Evidence that must be in hand before the route leaves this point.
    pub require: u32,
}

pub open spec fn plain_waypoint(x: int, y: int) -> Waypoint {
    Waypoint { x: x as i32, y: y as i32, radius: 24, ceiling: ANY_HEIGHT, require: 0 }
}

pub fn waypoint(x: i32, y: i32) -> (point: Waypoint)
    ensures
        point == plain_waypoint(x as int, y as int),
{
    Waypoint { x, y, radius: 24, ceiling: ANY_HEIGHT, require: 0 }
}

pub open spec fn sigil_route() -> Seq<Waypoint> {
    seq![
        Waypoint { x: 8, y: 64, radius: 8, ceiling: ANY_HEIGHT, require: SIGIL_EVIDENCE },
    ]
}

pub open spec fn arena_route() -> Seq<Waypoint> {
    seq![
        plain_waypoint(-232, 112),
        plain_waypoint(-208, 352),
        plain_waypoint(-160, 400),
        plain_waypoint(920, 400),
        plain_waypoint(992, 328),
        plain_waypoint(1064, 112),
        plain_waypoint(1208, 88),
        Waypoint { x: 1216, y: 64, radius: 16, ceiling: ANY_HEIGHT, require: 0 },
    ]
}

pub open spec fn ring_route() -> Seq<Waypoint> {
    seq![
        Waypoint { x: 832, y: 64, radius: 16, ceiling: ANY_HEIGHT, require: SHOCK_EVIDENCE },
    ]
}

/// The middle of the exit.
pub open spec fn exit_point() -> Waypoint {
    Waypoint { x: 1016, y: 52, radius: 24, ceiling: CHAMBER_FLOOR_UNITS, require: 0 }
}

pub open spec fn descent_route() -> Seq<Waypoint> {
    seq![
        Waypoint { x: 696, y: 64, radius: 20, ceiling: BRIDGE_DECK_UNITS, require: 0 },
        Waypoint { x: 824, y: 64, radius: 12, ceiling: ANY_HEIGHT, require: 0 },
        Waypoint { x: 992, y: 24, radius: 12, ceiling: CHAMBER_FLOOR_UNITS, require: 0 },
        exit_point(),
    ]
}

/// The route of a part of the script in which the player walks.
pub open spec fn route_of(phase: u32) -> Seq<Waypoint> {
    if phase == PHASE_SIGIL {
        sigil_route()
    } else if phase == PHASE_ARENA {
        arena_route()
    } else if phase == PHASE_RING {
        ring_route()
    } else {
        descent_route()
    }
}

/// All points lie in the part of the world that the map fills.
pub open spec fn in_world(route: Seq<Waypoint>) -> bool {
    forall|i: int|
        #![trigger route[i]]
        0 <= i < route.len() ==> -4096 <= route[i].x <= 4096 && -4096 <= route[i].y <= 4096 && 0
            < route[i].radius <= 64
}

fn route_points(phase: u32) -> (route: Vec<Waypoint>)
    ensures
        route@ == route_of(phase),
        in_world(route@),
        route@.len() <= 8,
{
    let mut route: Vec<Waypoint> = Vec::new();
    if phase == PHASE_SIGIL {
        route.push(
            Waypoint { x: 8, y: 64, radius: 8, ceiling: ANY_HEIGHT, require: SIGIL_EVIDENCE },
        );
        assert(route@ =~= sigil_route());
    } else if phase == PHASE_ARENA {
        route.push(waypoint(-232, 112));
        route.push(waypoint(-208, 352));
        route.push(waypoint(-160, 400));
        route.push(waypoint(920, 400));
        route.push(waypoint(992, 328));
        route.push(waypoint(1064, 112));
        route.push(waypoint(1208, 88));
        route.push(Waypoint { x: 1216, y: 64, radius: 16, ceiling: ANY_HEIGHT, require: 0 });
        assert(route@ =~= arena_route());
    } else if phase == PHASE_RING {
        route.push(
            Waypoint { x: 832, y: 64, radius: 16, ceiling: ANY_HEIGHT, require: SHOCK_EVIDENCE },
        );
        assert(route@ =~= ring_route());
    } else {
        route.push(Waypoint { x: 696, y: 64, radius: 20, ceiling: BRIDGE_DECK_UNITS, require: 0 });
        route.push(Waypoint { x: 824, y: 64, radius: 12, ceiling: ANY_HEIGHT, require: 0 });
        route.push(
            Waypoint { x: 992, y: 24, radius: 12, ceiling: CHAMBER_FLOOR_UNITS, require: 0 },
        );
        route.push(
            Waypoint { x: 1016, y: 52, radius: 24, ceiling: CHAMBER_FLOOR_UNITS, require: 0 },
        );
        assert(route@ =~= descent_route());
    }
    route
}

/// Where the player is, in whole units.
#[derive(Copy, Clone, Debug, PartialEq, Eq, Structural)]
pub struct Place {
    pub x: i32,
    pub y: i32,
    pub z: i32,
}

pub open spec fn place_of(origin: Vec3I32) -> Place {
    Place {
        x: (origin.x as int / 4096) as i32,
        y: (origin.y as int / 4096) as i32,
        z: (origin.z as int / 4096) as i32,
    }
}

pub open spec fn magnitude(value: int) -> int {
    if value < 0 {
        -value
    } else {
        value
    }
}

pub open spec fn in_plan(point: Waypoint, place: Place) -> bool {
    magnitude(point.x - place.x) <= point.radius && magnitude(point.y - place.y) <= point.radius
}

/// The player is at the point, and not above it.
pub open spec fn at_point(point: Waypoint, place: Place) -> bool {
    in_plan(point, place) && place.z <= point.ceiling
}

/// The point lies behind the player.
pub open spec fn passed(point: Waypoint, place: Place, evidence: u32) -> bool {
    at_point(point, place) && evidence & point.require == point.require
}

/// The first point, from `from` on, that has not been passed.
pub open spec fn first_open(route: Seq<Waypoint>, from: int, place: Place, evidence: u32) -> int
    decreases route.len() - from,
{
    if from >= route.len() {
        from
    } else if passed(route[from], place, evidence) {
        first_open(route, from + 1, place, evidence)
    } else {
        from
    }
}

/// Grow a component that has shrunk below the radius, keeping its sign.
pub open spec fn extended(delta: int, radius: int) -> int {
    if delta > 0 && delta < radius {
        radius
    } else if delta < 0 && delta > -radius {
        -radius
    } else {
        delta
    }
}

pub fn extend(delta: i32, radius: i32) -> (grown: i32)
    requires
        delta < 0 ==> radius > i32::MIN,
    ensures
        grown == extended(delta as int, radius as int),
{
    if delta > 0 {
        if delta < radius {
            radius
        } else {
            delta
        }
    } else if delta < 0 {
        if delta > -radius {
            -radius
        } else {
            delta
        }
    } else {
        0
    }
}

/// What the pad does.
#[derive(Copy, Clone, Debug, PartialEq, Eq, Structural)]
pub enum ControlStep {
    /// Nothing is pressed.
    Idle,
    /// Go in this direction, turned by the detour.
    Steer { dx: i32, dy: i32, detour: usize },
}

#[derive(Copy, Clone, Debug, PartialEq, Eq, Structural)]
pub struct EpisodeRun {
    pub probe: Probe,
    pub route_index: usize,
    pub stall_frames: u32,
    pub detour: usize,
    pub best_distance: i32,
    pub boss_frames: u32,
    /// Lowest height on the way to the lift; `i32::MIN` before the first.
    pub lift_base_z: i32,
    /// Height in the last frame.
    pub last_z: i32,
}

pub open spec fn episode_failed(run: EpisodeRun, code: u32, map: u32, detail: u32) -> EpisodeRun {
    EpisodeRun { probe: failed(run.probe, code, map, detail), ..run }
}

/// No progress has been measured yet.
pub open spec fn fresh_progress(run: EpisodeRun) -> EpisodeRun {
    EpisodeRun { best_distance: i32::MAX, stall_frames: 0, detour: 0, ..run }
}

/// Progress towards a point, or one more frame without. To lose height is
/// progress too.
pub open spec fn progressed(run: EpisodeRun, distance: int, descending: bool) -> EpisodeRun {
    if distance < run.best_distance || descending {
        EpisodeRun {
            best_distance: if distance < run.best_distance {
                distance as i32
            } else {
                run.best_distance
            },
            stall_frames: 0,
            detour: 0,
            ..run
        }
    } else if run.stall_frames + 1 > STALL_LIMIT {
        EpisodeRun { stall_frames: 0, detour: ((run.detour + 1) % 8) as usize, ..run }
    } else {
        EpisodeRun { stall_frames: (run.stall_frames + 1) as u32, ..run }
    }
}

/// The run at the first open point of its route.
pub open spec fn moved_on(run: EpisodeRun, next: int) -> EpisodeRun {
    if next > run.route_index {
        fresh_progress(
            EpisodeRun {
                probe: Probe { route_index: next as u32, ..run.probe },
                route_index: next as usize,
                ..run
            },
        )
    } else {
        run
    }
}

/// One frame of walking a route; no step when its end has been reached.
pub open spec fn walked(run: EpisodeRun, route: Seq<Waypoint>, place: Place, evidence: u32) -> (
    EpisodeRun,
    Option<ControlStep>,
) {
    let descending = place.z < run.last_z;
    let next = first_open(route, run.route_index as int, place, evidence);
    let here = moved_on(EpisodeRun { last_z: place.z, ..run }, next);
    if next >= route.len() {
        (here, None)
    } else {
        let point = route[next];
        let dx = point.x - place.x;
        let dy = point.y - place.y;
        if !at_point(point, place) {
            let after = progressed(here, magnitude(dx) + magnitude(dy), descending);
            let inside = in_plan(point, place);
            (
                after,
                Some(
                    ControlStep::Steer {
                        dx: (if inside {
                            extended(dx, point.radius as int)
                        } else {
                            dx
                        }) as i32,
                        dy: (if inside {
                            extended(dy, point.radius as int)
                        } else {
                            dy
                        }) as i32,
                        detour: after.detour,
                    },
                ),
            )
        } else {
            (
                here,
                Some(
                    ControlStep::Steer {
                        dx: (if dx == 0 {
                            point.radius as int
                        } else {
                            dx
                        }) as i32,
                        dy: dy as i32,
                        detour: (run.probe.total_frames / 16 % 8) as usize,
                    },
                ),
            )
        }
    }
}

/// The next part of the script begins.
pub open spec fn phase_begun(run: EpisodeRun, phase: u32) -> EpisodeRun {
    EpisodeRun { probe: Probe { phase, stage_frames: 0, ..run.probe }, ..run }
}

pub open spec fn noted(run: EpisodeRun, evidence: u32) -> EpisodeRun {
    EpisodeRun { probe: Probe { player_state: evidence, ..run.probe }, ..run }
}

/// What comes after the end of a route.
pub open spec fn arrived(run: EpisodeRun, phase: u32, evidence: u32, boss_present: bool) -> EpisodeRun {
    if phase == PHASE_SIGIL {
        if evidence & SIGIL_EVIDENCE != SIGIL_EVIDENCE {
            episode_failed(run, FAILURE_NO_SIGIL, 7, evidence)
        } else if !boss_present {
            episode_failed(run, FAILURE_NO_BOSS, 7, 0)
        } else {
            EpisodeRun { route_index: 0, ..phase_begun(run, PHASE_BOSS) }
        }
    } else if phase == PHASE_ARENA {
        phase_begun(noted(run, evidence | ARENA_WALKED), PHASE_LIFT)
    } else if phase == PHASE_RING {
        fresh_progress(
            EpisodeRun { route_index: 0, last_z: i32::MAX, ..phase_begun(run, PHASE_DESCENT) },
        )
    } else if phase == PHASE_DESCENT {
        phase_begun(run, PHASE_EXIT)
    } else {
        run
    }
}

/// The frame and the place have been written down.
pub open spec fn located(run: EpisodeRun, place: Place) -> EpisodeRun {
    EpisodeRun {
        probe: Probe {
            state_ranges: as_bits(place.x as int),
            monster_state_bounds: as_bits(place.y as int),
            weapon_selected: as_bits(place.z as int),
            ..run.probe
        },
        ..run
    }
}

/// The lowest height on the way to the lift.
pub open spec fn lift_watched(run: EpisodeRun, phase: u32, z: i32) -> EpisodeRun {
    if (phase == PHASE_ARENA || phase == PHASE_LIFT) && (run.lift_base_z == i32::MIN || z
        < run.lift_base_z) {
        EpisodeRun { lift_base_z: z, ..run }
    } else {
        run
    }
}

/// On the way down the height is evidence by itself.
pub open spec fn descent_evidence(evidence: u32, phase: u32, z: i32) -> u32 {
    if phase == PHASE_DESCENT {
        evidence | (if z <= BRIDGE_DECK_UNITS {
            BRIDGE_WALKED
        } else {
            0
        }) | (if z <= CHAMBER_FLOOR_UNITS {
            SHAFT_FALLEN
        } else {
            0
        })
    } else {
        evidence
    }
}

/// The player walks in this part of the script.
pub open spec fn walking(phase: u32) -> bool {
    phase == PHASE_SIGIL || phase == PHASE_ARENA || phase == PHASE_RING || phase == PHASE_DESCENT
}

pub open spec fn lift_step(run: EpisodeRun, z: i32, evidence: u32) -> EpisodeRun {
    if z - run.lift_base_z >= LIFT_TRAVEL_UNITS {
        fresh_progress(
            EpisodeRun {
                route_index: 0,
                ..phase_begun(noted(run, evidence | LIFT_RIDDEN), PHASE_RING)
            },
        )
    } else {
        run
    }
}

pub open spec fn boss_step(run: EpisodeRun, evidence: u32) -> EpisodeRun {
    let waited = EpisodeRun { boss_frames: run.boss_frames.wrapping_add(1), ..run };
    if evidence & FIGHT_EVIDENCE == FIGHT_EVIDENCE {
        fresh_progress(phase_begun(waited, PHASE_ARENA))
    } else {
        waited
    }
}

/// The script in the map of the boss.
pub open spec fn scripted(run: EpisodeRun, place: Place, boss_present: bool, movers: Option<bool>) -> (
    EpisodeRun,
    ControlStep,
) {
    let phase = run.probe.phase;
    let evidence = descent_evidence(run.probe.player_state, phase, place.z);
    let here = noted(lift_watched(located(run, place), phase, place.z), evidence);
    if phase == PHASE_LIFT {
        (lift_step(here, place.z, evidence), ControlStep::Idle)
    } else if phase == PHASE_BOSS {
        (boss_step(here, evidence), ControlStep::Idle)
    } else if !walking(phase) {
        (here, ControlStep::Idle)
    } else if phase == PHASE_DESCENT && movers is None {
        (episode_failed(here, FAILURE_NO_CHANGELEVEL, 7, 1), ControlStep::Idle)
    } else if phase == PHASE_DESCENT && movers == Some(false) {
        (here, ControlStep::Idle)
    } else {
        let (after, step) = walked(here, route_of(phase), place, evidence);
        match step {
            Some(steering) => (after, steering),
            None => (arrived(after, phase, evidence, boss_present), ControlStep::Idle),
        }
    }
}

/// One frame of the script, and what the pad does.
pub open spec fn after_controls(
    run: EpisodeRun,
    map: EpisodeMap,
    place: Place,
    boss_present: bool,
    movers: Option<bool>,
) -> (EpisodeRun, ControlStep) {
    if run.probe.failure_code != 0 || run.probe.complete != 0 {
        (run, ControlStep::Idle)
    } else {
        let stage = run.probe.stage_frames.wrapping_add(1);
        let counted = EpisodeRun {
            probe: Probe {
                total_frames: run.probe.total_frames.wrapping_add(1),
                stage_frames: stage,
                ..run.probe
            },
            ..run
        };
        if stage > MAX_STAGE_FRAMES {
            (
                episode_failed(counted, FAILURE_TIMEOUT, map_number(map), run.probe.phase),
                ControlStep::Idle,
            )
        } else if map != EpisodeMap::E1M7 {
            (counted, ControlStep::Idle)
        } else {
            scripted(counted, place, boss_present, movers)
        }
    }
}

fn magnitude_of(value: i32) -> (absolute: i32)
    requires
        value > i32::MIN,
    ensures
        absolute == magnitude(value as int),
{
    if value < 0 {
        -value
    } else {
        value
    }
}

pub fn initial_map() -> (map: EpisodeMap)
    ensures
        map == EpisodeMap::E1M7,
{
    EpisodeMap::E1M7
}

impl EpisodeRun {
    pub open spec fn valid(&self) -> bool {
        &&& self.stall_frames <= STALL_LIMIT
        &&& self.detour < 8
        &&& self.route_index <= 8
        &&& self.lift_base_z == i32::MIN || -524288 <= self.lift_base_z < 524288
    }

    pub fn new() -> (run: Self)
        ensures
            run.valid(),
            run.probe == blank_probe(PROBE_VERSION, PHASE_SIGIL, 0),
            run.route_index == 0,
            run.stall_frames == 0,
            run.detour == 0,
            run.best_distance == i32::MAX,
            run.boss_frames == 0,
            run.lift_base_z == i32::MIN,
            run.last_z == i32::MAX,
    {
        EpisodeRun {
            probe: Probe::new(PROBE_VERSION, PHASE_SIGIL, 0),
            route_index: 0,
            stall_frames: 0,
            detour: 0,
            best_distance: i32::MAX,
            boss_frames: 0,
            lift_base_z: i32::MIN,
            last_z: i32::MAX,
        }
    }

    fn reset_progress(&mut self)
        ensures
            *final(self) == fresh_progress(*old(self)),
    {
        self.best_distance = i32::MAX;
        self.stall_frames = 0;
        self.detour = 0;
    }

    fn begin_phase(&mut self, phase: u32)
        ensures
            *final(self) == phase_begun(*old(self), phase),
    {
        self.probe.phase = phase;
        self.probe.stage_frames = 0;
    }

    fn progress(&mut self, distance: i32, descending: bool)
        requires
            old(self).valid(),
            distance >= 0,
        ensures
            final(self).valid(),
            *final(self) == progressed(*old(self), distance as int, descending),
    {
        if distance < self.best_distance || descending {
            if distance < self.best_distance {
                self.best_distance = distance;
            }
            self.stall_frames = 0;
            self.detour = 0;
        } else {
            self.stall_frames += 1;
            if self.stall_frames > STALL_LIMIT {
                self.stall_frames = 0;
                self.detour = (self.detour + 1) % 8;
            }
        }
    }

    fn walk(&mut self, route: &Vec<Waypoint>, place: Place, evidence: u32) -> (step: Option<
        ControlStep,
    >)
        requires
            old(self).valid(),
            in_world(route@),
            route@.len() <= 8,
            -524288 <= place.x < 524288,
            -524288 <= place.y < 524288,
            -524288 <= place.z < 524288,
        ensures
            final(self).valid(),
            (*final(self), step) == walked(*old(self), route@, place, evidence),
    {
        let descending: bool = place.z < self.last_z;
        self.last_z = place.z;
        let ghost start = *self;
        let ghost next = first_open(route@, start.route_index as int, place, evidence);
        assert(moved_on(start, start.route_index as int) == start);
        while self.route_index < route.len()
            invariant
                in_world(route@),
                route@.len() <= 8,
                self.valid(),
                self.route_index >= start.route_index,
                next == first_open(route@, self.route_index as int, place, evidence),
                *self == moved_on(start, self.route_index as int),
                start == (EpisodeRun { last_z: place.z, ..*old(self) }),
                next == first_open(route@, old(self).route_index as int, place, evidence),
                descending == (place.z < old(self).last_z),
                -524288 <= place.x < 524288,
                -524288 <= place.y < 524288,
                -524288 <= place.z < 524288,
            decreases route@.len() - self.route_index,
        {
            let point: Waypoint = route[self.route_index];
            assert(-4096 <= route@[self.route_index as int].x <= 4096);
            let dx: i32 = point.x - place.x;
            let dy: i32 = point.y - place.y;
            let inside: bool = magnitude_of(dx) <= point.radius && magnitude_of(dy) <= point.radius;
            if !inside || place.z > point.ceiling {
                assert(next == self.route_index);
                self.progress(magnitude_of(dx) + magnitude_of(dy), descending);
                let (sx, sy): (i32, i32) = if inside {
                    (extend(dx, point.radius), extend(dy, point.radius))
                } else {
                    (dx, dy)
                };
                return Some(ControlStep::Steer { dx: sx, dy: sy, detour: self.detour });
            }
            if evidence & point.require != point.require {
                assert(next == self.route_index);
                let sx: i32 = if dx == 0 {
                    point.radius
                } else {
                    dx
                };
                let detour: usize = (self.probe.total_frames / 16 % 8) as usize;
                return Some(ControlStep::Steer { dx: sx, dy, detour });
            }
            self.route_index += 1;
            self.probe.route_index = self.route_index as u32;
            self.reset_progress();
        }
        None
    }

    fn arrive(&mut self, phase: u32, evidence: u32, boss_present: bool)
        requires
            old(self).valid(),
        ensures
            final(self).valid(),
            *final(self) == arrived(*old(self), phase, evidence, boss_present),
    {
        if phase == PHASE_SIGIL {
            if evidence & SIGIL_EVIDENCE != SIGIL_EVIDENCE {
                self.probe.fail(FAILURE_NO_SIGIL, 7, evidence);
                return ;
            }
            if !boss_present {
                self.probe.fail(FAILURE_NO_BOSS, 7, 0);
                return ;
            }
            self.begin_phase(PHASE_BOSS);
            self.route_index = 0;
        } else if phase == PHASE_ARENA {
            self.probe.player_state = evidence | ARENA_WALKED;
            self.begin_phase(PHASE_LIFT);
        } else if phase == PHASE_RING {
            self.begin_phase(PHASE_DESCENT);
            self.route_index = 0;
            self.reset_progress();
            self.last_z = i32::MAX;
        } else if phase == PHASE_DESCENT {
            self.begin_phase(PHASE_EXIT);
        }
    }

    fn script(&mut self, place: Place, boss_present: bool, movers: Option<bool>) -> (step:
        ControlStep)
        requires
            old(self).valid(),
            -524288 <= place.x < 524288,
            -524288 <= place.y < 524288,
            -524288 <= place.z < 524288,
        ensures
            final(self).valid(),
            (*final(self), step) == scripted(*old(self), place, boss_present, movers),
    {
        let phase: u32 = self.probe.phase;
        let mut evidence: u32 = self.probe.player_state;
        self.probe.state_ranges = bits_of(place.x);
        self.probe.monster_state_bounds = bits_of(place.y);
        self.probe.weapon_selected = bits_of(place.z);
        if (phase == PHASE_ARENA || phase == PHASE_LIFT) && (self.lift_base_z == i32::MIN
            || place.z < self.lift_base_z) {
            self.lift_base_z = place.z;
        }
        if phase == PHASE_DESCENT {
            let bridge: u32 = if place.z <= BRIDGE_DECK_UNITS {
                BRIDGE_WALKED
            } else {
                0
            };
            let shaft: u32 = if place.z <= CHAMBER_FLOOR_UNITS {
                SHAFT_FALLEN
            } else {
                0
            };
            evidence = evidence | bridge | shaft;
            self.probe.player_state = evidence;
        }
        if phase == PHASE_LIFT {
            if place.z - self.lift_base_z >= LIFT_TRAVEL_UNITS {
                self.probe.player_state = evidence | LIFT_RIDDEN;
                self.begin_phase(PHASE_RING);
                self.route_index = 0;
                self.reset_progress();
            }
            return ControlStep::Idle;
        }
        if phase == PHASE_BOSS {
            self.boss_frames = self.boss_frames.wrapping_add(1);
            if evidence & FIGHT_EVIDENCE == FIGHT_EVIDENCE {
                self.begin_phase(PHASE_ARENA);
                self.reset_progress();
            }
            return ControlStep::Idle;
        }
        if phase == PHASE_DESCENT {
            match movers {
                None => {
                    self.probe.fail(FAILURE_NO_CHANGELEVEL, 7, 1);
                    return ControlStep::Idle;
                },
                Some(settled) => {
                    if !settled {
                        return ControlStep::Idle;
                    }
                },
            }
        } else if phase != PHASE_SIGIL && phase != PHASE_ARENA && phase != PHASE_RING {
            return ControlStep::Idle;
        }
        let route: Vec<Waypoint> = route_points(phase);
        match self.walk(&route, place, evidence) {
            Some(steering) => steering,
            None => {
                self.arrive(phase, evidence, boss_present);
                ControlStep::Idle
            },
        }
    }

    /// One frame of the script: the map, the eye's origin, whether the boss can
    /// be found, and whether the movers that its death drives have settled, if
    /// there are any.
    pub fn controls(
        &mut self,
        map: EpisodeMap,
        eye: Vec3I32,
        boss_present: bool,
        movers: Option<bool>,
    ) -> (step: ControlStep)
        requires
            old(self).valid(),
        ensures
            final(self).valid(),
            (*final(self), step) == after_controls(
                *old(self),
                map,
                place_of(eye),
                boss_present,
                movers,
            ),
    {
        if self.probe.failure_code != 0 || self.probe.complete != 0 {
            return ControlStep::Idle;
        }
        self.probe.total_frames = self.probe.total_frames.wrapping_add(1);
        self.probe.stage_frames = self.probe.stage_frames.wrapping_add(1);
        if self.probe.stage_frames > MAX_STAGE_FRAMES {
            let phase: u32 = self.probe.phase;
            self.probe.fail(FAILURE_TIMEOUT, map_index(map), phase);
            return ControlStep::Idle;
        }
        if map != EpisodeMap::E1M7 {
            return ControlStep::Idle;
        }
        let place = Place { x: whole_units(eye.x), y: whole_units(eye.y), z: whole_units(eye.z) };
        self.script(place, boss_present, movers)
    }
}

/// The start of the map, as it was authored.
#[derive(Copy, Clone, Debug, PartialEq, Eq, Structural)]
pub struct StartRecord {
    pub class_name: u8,
    pub origin: Vec3I32,
}

/// What the map of the boss holds when it has been loaded.
#[derive(Copy, Clone, Debug, PartialEq, Eq)]
pub struct BossMapFacts {
    pub start: Option<StartRecord>,
    pub sigil_present: bool,
    /// The exit to the entrance hall.
    pub exit: Option<Vec3I32>,
}

/// What the entrance hall holds when it has been loaded.
#[derive(Copy, Clone, Debug, PartialEq, Eq)]
pub struct HallFacts {
    pub runes: u8,
    /// The spawn point of a player with a rune.
    pub start2: Option<Vec3I32>,
    pub solid_episode_gate: bool,
    pub boss_gate: bool,
}

/// A place in the low halves of two words, as a failure's detail.
pub open spec fn packed_place(x: int, y: int) -> u32 {
    (x % 65536 * 65536 + y % 65536) as u32
}

fn low_half(value: i32) -> (half: u32)
    requires
        -524288 <= value < 524288,
    ensures
        half == value as int % 65536,
{
    ((value + 1048576) % 65536) as u32
}

/// The run has nothing left of the map before.
pub open spec fn route_reset(run: EpisodeRun) -> EpisodeRun {
    fresh_progress(
        EpisodeRun { route_index: 0, lift_base_z: i32::MIN, last_z: i32::MAX, ..run },
    )
}

/// The record of a load.
pub open spec fn load_recorded(run: EpisodeRun, map: EpisodeMap) -> EpisodeRun {
    route_reset(
        EpisodeRun {
            probe: Probe {
                maps_loaded: run.probe.maps_loaded | map_mask(map),
                current_map: map_number(map),
                map_loads: run.probe.map_loads.wrapping_add(1),
                stage_frames: 0,
                ..run.probe
            },
            ..run
        },
    )
}

pub open spec fn starts_as_authored(facts: BossMapFacts, player: Vec3I32) -> bool {
    match facts.start {
        Some(start) => start.class_name == CLASS_PLAYER_START && within_a_unit(
            player,
            start.origin,
        ),
        None => false,
    }
}

/// The exit lies where the route ends.
pub open spec fn exit_as_planned(exit: Vec3I32) -> bool {
    let place = place_of(exit);
    in_plan(exit_point(), place) && place.z <= exit_point().ceiling
}

pub open spec fn exit_checked(run: EpisodeRun, exit: Option<Vec3I32>) -> EpisodeRun {
    match exit {
        None => episode_failed(run, FAILURE_NO_CHANGELEVEL, 7, 0),
        Some(origin) => if exit_as_planned(origin) {
            run
        } else {
            episode_failed(
                run,
                FAILURE_NO_CHANGELEVEL,
                7,
                packed_place(origin.x as int / 4096, origin.y as int / 4096),
            )
        },
    }
}

/// The run after the map of the boss has been loaded.
pub open spec fn boss_map_checked(run: EpisodeRun, facts: BossMapFacts, player: Vec3I32) -> EpisodeRun {
    if !starts_as_authored(facts, player) {
        episode_failed(run, FAILURE_BAD_MAP, 7, DETAIL_SPAWN)
    } else {
        let started = noted(run, run.probe.player_state | START_SPAWN);
        exit_checked(
            if facts.sigil_present {
                started
            } else {
                episode_failed(started, FAILURE_NO_SIGIL, 7, 0)
            },
            facts.exit,
        )
    }
}

/// What the entrance hall adds to the evidence.
pub open spec fn hall_evidence(evidence: u32, facts: HallFacts, player: Vec3I32) -> u32 {
    let carried = if facts.runes % 2 == 1 {
        evidence | RUNE_PERSISTED
    } else {
        evidence
    };
    let spawned = match facts.start2 {
        Some(origin) if within_a_unit(player, origin) => carried | START2_SPAWN,
        _ => carried,
    };
    let gated = if facts.solid_episode_gate {
        spawned | EPISODE_GATE
    } else {
        spawned
    };
    if facts.boss_gate {
        gated | BOSS_GATE
    } else {
        gated
    }
}

/// The run after the entrance hall has been loaded: complete with all of the
/// evidence, failed without.
pub open spec fn hall_checked(run: EpisodeRun, facts: HallFacts, player: Vec3I32) -> EpisodeRun {
    let evidence = hall_evidence(run.probe.player_state, facts, player);
    let seen = EpisodeRun {
        probe: Probe {
            phase: PHASE_START,
            player_state: evidence,
            valid_state_ranges: evidence,
            ..run.probe
        },
        ..run
    };
    if evidence & REQUIRED != REQUIRED {
        episode_failed(seen, FAILURE_EPISODE_STATE, 0, evidence)
    } else {
        EpisodeRun { probe: Probe { phase: PHASE_COMPLETE, complete: 1, ..seen.probe }, ..seen }
    }
}

pub open spec fn after_load(
    run: EpisodeRun,
    map: EpisodeMap,
    player: Vec3I32,
    boss_map: BossMapFacts,
    hall: HallFacts,
) -> EpisodeRun {
    let loaded = load_recorded(run, map);
    if map == EpisodeMap::E1M7 {
        boss_map_checked(loaded, boss_map, player)
    } else if map == EpisodeMap::Start {
        hall_checked(loaded, hall, player)
    } else {
        episode_failed(loaded, FAILURE_BAD_MAP, map_number(map), 0)
    }
}

/// The boss in one frame.
#[derive(Copy, Clone, Debug, PartialEq, Eq, Structural)]
pub struct BossSnapshot {
    pub frame: u16,
    pub active: bool,
    pub visible: bool,
    pub dead: bool,
    pub throwing: bool,
}

/// What the game reported of one frame.
#[derive(Copy, Clone, Debug, PartialEq, Eq)]
pub struct GameplayFacts {
    /// A target that could not be followed, by a mechanism or by a pickup.
    pub target_error: Option<u32>,
    pub pickup_target_error: Option<u32>,
    pub fired_target_edges: u16,
    pub boss_awakened: bool,
    pub pickup_boss_awakened: bool,
    /// Movers that the player started.
    pub activations: u32,
    pub boss_shocks: u16,
    pub runes: u8,
    pub boss: Option<BossSnapshot>,
}

pub open spec fn sat_sum_u32(left: u32, right: u32) -> u32 {
    if left + right > u32::MAX {
        u32::MAX
    } else {
        (left + right) as u32
    }
}

/// What the sight of the boss adds to the record.
pub open spec fn boss_seen(run: EpisodeRun, boss: BossSnapshot, evidence: u32) -> (EpisodeRun, u32) {
    let risen = if boss.active && boss.visible && !boss.dead {
        evidence | BOSS_RISEN
    } else {
        evidence
    };
    let threw = if boss.active && boss.throwing {
        risen | BOSS_THREW
    } else {
        risen
    };
    (
        EpisodeRun {
            probe: Probe {
                boss: boss.frame as u32,
                monster_present: if boss.active {
                    1
                } else {
                    0
                },
                shock_count: if boss.active && boss.throwing {
                    sat_sum_u32(run.probe.shock_count, 1)
                } else {
                    run.probe.shock_count
                },
                ..run.probe
            },
            ..run
        },
        if boss.dead {
            threw | BOSS_DEAD
        } else {
            threw
        },
    )
}

/// The frame's evidence in the map of the boss.
pub open spec fn evidence_gathered(run: EpisodeRun, facts: GameplayFacts) -> EpisodeRun {
    let before = run.probe.player_state;
    let taken = if facts.runes % 2 == 1 {
        before | SIGIL_TAKEN
    } else {
        before
    };
    let woken = if facts.boss_awakened || facts.pickup_boss_awakened {
        taken | BOSS_AWAKE
    } else {
        taken
    };
    let (looked, seen) = match facts.boss {
        Some(boss) => boss_seen(run, boss, woken),
        None => (run, woken),
    };
    EpisodeRun {
        probe: Probe {
            weapon_fired: sat_sum_u32(looked.probe.weapon_fired, facts.activations),
            player_state: if facts.boss_shocks != 0 {
                seen | BOSS_SHOCKED
            } else {
                seen
            },
            ..looked.probe
        },
        ..looked
    }
}

/// The run after a frame of the game.
pub open spec fn after_gameplay(run: EpisodeRun, map: EpisodeMap, facts: GameplayFacts, health: i16) -> EpisodeRun {
    if run.probe.failure_code != 0 {
        run
    } else {
        let seen = EpisodeRun {
            probe: Probe { last_health: non_negative(health as int), ..run.probe },
            ..run
        };
        let error = match facts.target_error {
            Some(error) => Some(error),
            None => facts.pickup_target_error,
        };
        if error is Some {
            episode_failed(seen, FAILURE_TARGET_GRAPH, map_number(map), error->0)
        } else if health <= 0 {
            episode_failed(seen, FAILURE_PLAYER_DEAD, map_number(map), run.probe.phase)
        } else {
            let counted = EpisodeRun {
                probe: Probe {
                    target_edges: sat_sum_u32(
                        run.probe.target_edges,
                        facts.fired_target_edges as u32,
                    ),
                    ..seen.probe
                },
                ..seen
            };
            if map == EpisodeMap::E1M7 {
                evidence_gathered(counted, facts)
            } else {
                counted
            }
        }
    }
}

/// Counts of the panel in one word.
pub open spec fn panel_word(kills: u16, total_kills: u16, secrets: u16, total_secrets: u16) -> u32 {
    ((kills as u32) << 24u32) | ((total_kills as u32) << 16u32) | ((secrets as u32) << 8u32) | (
    total_secrets as u32)
}

/// An entity as far as targets go.
#[derive(Copy, Clone, Debug, PartialEq, Eq, Structural)]
pub struct TargetSource {
    pub class_name: u8,
    pub target: u16,
    pub target_name: u16,
}

/// The target of the first entity, from `from` on, that is of a class.
pub open spec fn target_of_class(sources: Seq<TargetSource>, class_name: u8, from: int) -> u16
    decreases sources.len() - from,
{
    if from >= sources.len() {
        0
    } else if sources[from].class_name == class_name {
        sources[from].target
    } else {
        target_of_class(sources, class_name, from + 1)
    }
}

/// The target of the first entity, from `from` on, that has a name and a
/// target.
pub open spec fn target_of_name(sources: Seq<TargetSource>, name: u16, from: int) -> u16
    decreases sources.len() - from,
{
    if from >= sources.len() {
        0
    } else if sources[from].target_name == name && sources[from].target != 0 {
        sources[from].target
    } else {
        target_of_name(sources, name, from + 1)
    }
}

/// What the death of the boss drives: the boss names a relay, and the relay
/// names the doors. 0 when either is missing.
pub fn boss_death_target(sources: &Vec<TargetSource>) -> (target: u16)
    ensures
        ({
            let relay = target_of_class(sources@, CLASS_MONSTER_BOSS, 0);
            target == if relay == 0 {
                0
            } else {
                target_of_name(sources@, relay, 0)
            }
        }),
{
    let mut index: usize = 0;
    let mut relay: u16 = 0;
    let ghost wanted = target_of_class(sources@, CLASS_MONSTER_BOSS, 0);
    while index < sources.len()
        invariant_except_break
            relay == 0,
            wanted == target_of_class(sources@, CLASS_MONSTER_BOSS, index as int),
        invariant
            index <= sources@.len(),
        ensures
            relay == wanted,
        decreases sources@.len() - index,
    {
        if sources[index].class_name == CLASS_MONSTER_BOSS {
            relay = sources[index].target;
            break;
        }
        index += 1;
    }
    if relay == 0 {
        return 0;
    }
    let mut next: usize = 0;
    while next < sources.len()
        invariant
            next <= sources@.len(),
            relay == wanted,
            wanted == target_of_class(sources@, CLASS_MONSTER_BOSS, 0),
            relay != 0,
            target_of_name(sources@, relay, 0) == target_of_name(sources@, relay, next as int),
        decreases sources@.len() - next,
    {
        if sources[next].target_name == relay && sources[next].target != 0 {
            return sources[next].target;
        }
        next += 1;
    }
    0
}

impl EpisodeRun {
    fn check_exit(&mut self, exit: Option<Vec3I32>)
        ensures
            *final(self) == exit_checked(*old(self), exit),
    {
        match exit {
            None => {
                self.probe.fail(FAILURE_NO_CHANGELEVEL, 7, 0);
            },
            Some(origin) => {
                let x: i32 = whole_units(origin.x);
                let y: i32 = whole_units(origin.y);
                let z: i32 = whole_units(origin.z);
                if magnitude_of(1016 - x) > 24 || magnitude_of(52 - y) > 24 || z
                    > CHAMBER_FLOOR_UNITS {
                    self.probe.fail(
                        FAILURE_NO_CHANGELEVEL,
                        7,
                        low_half(x) * 65536 + low_half(y),
                    );
                }
            },
        }
    }

    fn validate_episode_state(&mut self, facts: HallFacts, player: Vec3I32)
        ensures
            *final(self) == hall_checked(*old(self), facts, player),
    {
        self.probe.phase = PHASE_START;
        let mut evidence: u32 = self.probe.player_state;
        if facts.runes % 2 == 1 {
            evidence = evidence | RUNE_PERSISTED;
        }
        if let Some(origin) = facts.start2 {
            if is_within_a_unit(player, origin) {
                evidence = evidence | START2_SPAWN;
            }
        }
        if facts.solid_episode_gate {
            evidence = evidence | EPISODE_GATE;
        }
        if facts.boss_gate {
            evidence = evidence | BOSS_GATE;
        }
        self.probe.player_state = evidence;
        self.probe.valid_state_ranges = evidence;
        if evidence & REQUIRED != REQUIRED {
            self.probe.fail(FAILURE_EPISODE_STATE, 0, evidence);
            return ;
        }
        self.probe.phase = PHASE_COMPLETE;
        self.probe.complete = 1;
    }

    /// A map was loaded, with the player at `player`. The facts of the map that
    /// was loaded count.
    pub fn map_loaded(
        &mut self,
        map: EpisodeMap,
        player: Vec3I32,
        boss_map: BossMapFacts,
        hall: HallFacts,
    )
        requires
            old(self).valid(),
        ensures
            final(self).valid(),
            *final(self) == after_load(*old(self), map, player, boss_map, hall),
    {
        self.probe.maps_loaded = self.probe.maps_loaded | map_bit(map);
        self.probe.current_map = map_index(map);
        self.probe.map_loads = self.probe.map_loads.wrapping_add(1);
        self.probe.stage_frames = 0;
        self.route_index = 0;
        self.reset_progress();
        self.lift_base_z = i32::MIN;
        self.last_z = i32::MAX;
        if map == EpisodeMap::E1M7 {
            let authored: bool = match boss_map.start {
                Some(start) => start.class_name == CLASS_PLAYER_START && is_within_a_unit(
                    player,
                    start.origin,
                ),
                None => false,
            };
            if !authored {
                self.probe.fail(FAILURE_BAD_MAP, 7, DETAIL_SPAWN);
                return ;
            }
            self.probe.player_state = self.probe.player_state | START_SPAWN;
            if !boss_map.sigil_present {
                self.probe.fail(FAILURE_NO_SIGIL, 7, 0);
            }
            self.check_exit(boss_map.exit);
        } else if map == EpisodeMap::Start {
            self.validate_episode_state(hall, player);
        } else {
            self.probe.fail(FAILURE_BAD_MAP, map_index(map), 0);
        }
    }

    /// One frame of the game.
    pub fn observe(&mut self, map: EpisodeMap, facts: GameplayFacts, health: i16)
        requires
            old(self).valid(),
        ensures
            final(self).valid(),
            *final(self) == after_gameplay(*old(self), map, facts, health),
    {
        if self.probe.failure_code != 0 {
            return ;
        }
        self.probe.last_health = recorded_health(health);
        let error: Option<u32> = match facts.target_error {
            Some(error) => Some(error),
            None => facts.pickup_target_error,
        };
        if let Some(error) = error {
            self.probe.fail(FAILURE_TARGET_GRAPH, map_index(map), error);
            return ;
        }
        if health <= 0 {
            let phase: u32 = self.probe.phase;
            self.probe.fail(FAILURE_PLAYER_DEAD, map_index(map), phase);
            return ;
        }
        self.probe.target_edges = self.probe.target_edges.saturating_add(
            facts.fired_target_edges as u32,
        );
        if map != EpisodeMap::E1M7 {
            return ;
        }
        let mut evidence: u32 = self.probe.player_state;
        if facts.runes % 2 == 1 {
            evidence = evidence | SIGIL_TAKEN;
        }
        if facts.boss_awakened || facts.pickup_boss_awakened {
            evidence = evidence | BOSS_AWAKE;
        }
        if let Some(boss) = facts.boss {
            self.probe.boss = boss.frame as u32;
            self.probe.monster_present = if boss.active {
                1
            } else {
                0
            };
            if boss.active && boss.visible && !boss.dead {
                evidence = evidence | BOSS_RISEN;
            }
            if boss.active && boss.throwing {
                self.probe.shock_count = self.probe.shock_count.saturating_add(1);
                evidence = evidence | BOSS_THREW;
            }
            if boss.dead {
                evidence = evidence | BOSS_DEAD;
            }
        }
        self.probe.weapon_fired = self.probe.weapon_fired.saturating_add(facts.activations);
        if facts.boss_shocks != 0 {
            evidence = evidence | BOSS_SHOCKED;
        }
        self.probe.player_state = evidence;
    }

    /// The panel between the maps, and whether it says that the episode is
    /// finished.
    pub fn observe_intermission(
        &mut self,
        episode_finished: bool,
        kills: u16,
        total_kills: u16,
        secrets: u16,
        total_secrets: u16,
    )
        ensures
            *final(self) == (EpisodeRun {
                probe: Probe {
                    player_state: if episode_finished {
                        old(self).probe.player_state | CHANGELEVEL | EPISODE_PANEL
                    } else {
                        old(self).probe.player_state | CHANGELEVEL
                    },
                    intermission_state: panel_word(kills, total_kills, secrets, total_secrets),
                    transitions: old(self).probe.transitions.wrapping_add(1),
                    ..old(self).probe
                },
                ..*old(self)
            }),
    {
        let mut evidence: u32 = self.probe.player_state | CHANGELEVEL;
        if episode_finished {
            evidence = evidence | EPISODE_PANEL;
        }
        self.probe.player_state = evidence;
        self.probe.intermission_state = ((kills as u32) << 24u32) | ((total_kills as u32) << 16u32)
            | ((secrets as u32) << 8u32) | (total_secrets as u32);
        self.probe.transitions = self.probe.transitions.wrapping_add(1);
    }

    /// The exit has fired its own targets. Only an exit of the map of the boss
    /// with a target counts.
    pub fn observe_changelevel_targets(
        &mut self,
        map: EpisodeMap,
        source: Option<TargetSource>,
        edges: u16,
    )
        ensures
            *final(self) == match source {
                Some(exit) if map == EpisodeMap::E1M7 && edges != 0 && exit.class_name
                    == CLASS_CHANGELEVEL && exit.target != 0 => noted(
                    *old(self),
                    old(self).probe.player_state | CHANGELEVEL_TARGETS,
                ),
                _ => *old(self),
            },
    {
        if map != EpisodeMap::E1M7 || edges == 0 {
            return ;
        }
        if let Some(exit) = source {
            if exit.class_name == CLASS_CHANGELEVEL && exit.target != 0 {
                self.probe.player_state = self.probe.player_state | CHANGELEVEL_TARGETS;
            }
        }
    }
}

/// By how much a detour turns, of a turn of 4096.
pub open spec fn detour_turn(detour: int) -> int {
    if detour % 8 == 0 {
        0
    } else if detour % 8 == 1 {
        512
    } else if detour % 8 == 2 {
        3584
    } else if detour % 8 == 3 {
        1024
    } else if detour % 8 == 4 {
        3072
    } else if detour % 8 == 5 {
        1536
    } else if detour % 8 == 6 {
        2560
    } else {
        2048
    }
}

pub fn detour_offset(detour: usize) -> (offset: u16)
    ensures
        offset == detour_turn(detour as int),
{
    match detour % 8 {
        0 => 0,
        1 => 512,
        2 => 3584,
        3 => 1024,
        4 => 3072,
        5 => 1536,
        6 => 2560,
        _ => 2048,
    }
}

/// A direction times the cosine and the sine of a turn.
#[derive(Copy, Clone, Debug, PartialEq, Eq, Structural)]
pub struct TurnTerms {
    pub cos_dx: i32,
    pub cos_dy: i32,
    pub sin_dx: i32,
    pub sin_dy: i32,
}

/// The direction of a detour. Without a turn it stays as it is, whatever the
/// terms are.
pub fn detoured(dx: i32, dy: i32, detour: usize, terms: TurnTerms) -> (direction: (i32, i32))
    ensures
        direction.0 == if detour_turn(detour as int) == 0 {
            dx as int
        } else {
            sat_i32(terms.cos_dx - terms.sin_dy)
        },
        direction.1 == if detour_turn(detour as int) == 0 {
            dy as int
        } else {
            sat_i32(terms.sin_dx + terms.cos_dy)
        },
{
    if detour_offset(detour) == 0 {
        return (dx, dy);
    }
    (
        saturating_sub_i32(terms.cos_dx, terms.sin_dy),
        saturating_add_i32(terms.sin_dx, terms.cos_dy),
    )
}

pub open spec fn greater(left: int, right: int) -> int {
    if left < right {
        right
    } else {
        left
    }
}

/// Full deflection far away, less of it near the goal.
pub open spec fn steering_limit(dx: int, dy: int) -> int {
    clamp_int(sat_i32(greater(magnitude(dx), magnitude(dy)) * 6), 16, 127)
}

/// One axis of the stick: its part of the longer axis, times the limit.
pub open spec fn stick_axis(part: int, scale: int, limit: int) -> int {
    clamp_int(div_toward_zero(sat_i32(part * limit), scale), -127, 127)
}

fn longer(left: i32, right: i32) -> (longest: i32)
    requires
        left > i32::MIN,
        right > i32::MIN,
    ensures
        longest == greater(magnitude(left as int), magnitude(right as int)),
{
    let first: i32 = magnitude_of(left);
    let second: i32 = magnitude_of(right);
    if first < second {
        second
    } else {
        first
    }
}

fn deflection(part: i32, scale: i32, limit: i32) -> (axis: i16)
    requires
        scale > 0,
    ensures
        axis == stick_axis(part as int, scale as int, limit as int),
{
    let share: i32 = div_i32(saturating_mul_i32(part, limit), scale);
    if share < -127 {
        -127
    } else if share > 127 {
        127
    } else {
        share as i16
    }
}

/// Turn a direction in the world into the stick. `ahead` and `aside` are the
/// direction along the view and across it.
pub fn movement_input(dx: i32, dy: i32, ahead: i32, aside: i32) -> (frame: InputFrame)
    requires
        dx > i32::MIN,
        dy > i32::MIN,
        ahead > i32::MIN,
        aside > i32::MIN,
    ensures
        ({
            let scale = greater(greater(magnitude(ahead as int), magnitude(aside as int)), 1);
            let limit = steering_limit(dx as int, dy as int);
            &&& frame.movement@[0] == stick_axis(ahead as int, scale, limit)
            &&& frame.movement@[1] == stick_axis(aside as int, scale, limit)
        }),
        frame.look@ == seq![0i16, 0i16],
        frame.held == 0,
        frame.pressed == 0,
        frame.menu_pressed == 0,
{
    let longest: i32 = longer(ahead, aside);
    let scale: i32 = if longest < 1 {
        1
    } else {
        longest
    };
    let reach: i32 = saturating_mul_i32(longer(dx, dy), 6);
    let limit: i32 = if reach < 16 {
        16
    } else if reach > 127 {
        127
    } else {
        reach
    };
    let mut frame: InputFrame = InputFrame::default();
    frame.movement = [deflection(ahead, scale, limit), deflection(aside, scale, limit)];
    frame
}

/// The components of a direction along the view and across it.
pub fn view_components(terms: TurnTerms, negated_sin_dx: i32) -> (components: (i32, i32))
    ensures
        components.0 == sat_i32(terms.cos_dx + terms.sin_dy),
        components.1 == sat_i32(negated_sin_dx + terms.cos_dy),
{
    (
        saturating_add_i32(terms.cos_dx, terms.sin_dy),
        saturating_add_i32(negated_sin_dx, terms.cos_dy),
    )
}

proof fn more_is_kept(before: u32, more: u32)
    ensures
        before & (before | more) == before,
        before & before == before,
{
    assert(before & (before | more) == before && before & before == before) by (bit_vector);
}

proof fn twice_more_is_kept(before: u32, more: u32, again: u32)
    ensures
        before & ((before | more) | again) == before,
{
    assert(before & ((before | more) | again) == before) by (bit_vector);
}

/// No frame of the script takes evidence back.
pub proof fn the_script_keeps_evidence(
    run: EpisodeRun,
    map: EpisodeMap,
    place: Place,
    boss_present: bool,
    movers: Option<bool>,
)
    ensures
        ({
            let before = run.probe.player_state;
            let after = after_controls(run, map, place, boss_present, movers).0.probe.player_state;
            before & after == before
        }),
{
    let before = run.probe.player_state;
    let bridge = if place.z <= BRIDGE_DECK_UNITS {
        BRIDGE_WALKED
    } else {
        0
    };
    let shaft = if place.z <= CHAMBER_FLOOR_UNITS {
        SHAFT_FALLEN
    } else {
        0
    };
    more_is_kept(before, ARENA_WALKED);
    more_is_kept(before, LIFT_RIDDEN);
    twice_more_is_kept(before, bridge, shaft);
}

/// The script goes through its parts in one order.
pub proof fn parts_come_in_order(
    run: EpisodeRun,
    map: EpisodeMap,
    place: Place,
    boss_present: bool,
    movers: Option<bool>,
)
    ensures
        ({
            let before = run.probe.phase;
            let after = after_controls(run, map, place, boss_present, movers).0.probe;
            ||| after.phase == before
            ||| after.failure_code != 0
            ||| before == PHASE_SIGIL && after.phase == PHASE_BOSS
            ||| before == PHASE_BOSS && after.phase == PHASE_ARENA
            ||| before == PHASE_ARENA && after.phase == PHASE_LIFT
            ||| before == PHASE_LIFT && after.phase == PHASE_RING
            ||| before == PHASE_RING && after.phase == PHASE_DESCENT
            ||| before == PHASE_DESCENT && after.phase == PHASE_EXIT
        }),
{
}

/// Only the entrance hall completes the run, and only with all of the
/// evidence.
pub proof fn completion_needs_all_evidence(
    run: EpisodeRun,
    map: EpisodeMap,
    player: Vec3I32,
    boss_map: BossMapFacts,
    hall: HallFacts,
)
    requires
        run.probe.complete == 0,
        after_load(run, map, player, boss_map, hall).probe.complete != 0,
    ensures
        map == EpisodeMap::Start,
        after_load(run, map, player, boss_map, hall).probe.player_state & REQUIRED == REQUIRED,
{
}

/// The player is never steered beyond the range of a stick.
pub proof fn steering_stays_in_range(part: int, scale: int, dx: int, dy: int)
    ensures
        -127 <= stick_axis(part, scale, steering_limit(dx, dy)) <= 127,
        16 <= steering_limit(dx, dy) <= 127,
{
}

/// Eight detours in a row are eight different directions, the straight one
/// among them.
pub proof fn detours_try_every_direction(left: int, right: int)
    requires
        0 <= left < 8,
        0 <= right < 8,
        detour_turn(left) == detour_turn(right),
    ensures
        left == right,
        detour_turn(0) == 0,
{
}

/// A place is the whole units of an origin, axis by axis, and is noted so.
pub proof fn places_are_noted_on_every_axis(run: EpisodeRun, origin: Vec3I32)
    ensures
        ({
            let place = place_of(origin);
            let probe = located(run, place).probe;
            &&& 4096 * place.x <= origin.x < 4096 * place.x + 4096
            &&& 4096 * place.y <= origin.y < 4096 * place.y + 4096
            &&& 4096 * place.z <= origin.z < 4096 * place.z + 4096
            &&& probe.state_ranges == place.x as int % 0x1_0000_0000
            &&& probe.monster_state_bounds == place.y as int % 0x1_0000_0000
            &&& probe.weapon_selected == place.z as int % 0x1_0000_0000
            &&& located(run, place) == (EpisodeRun { probe, ..run })
        }),
{
}

/// A point is reached within its square, on both axes of the ground, and at its
/// ceiling or below.
pub proof fn points_are_squares_below_a_ceiling(point: Waypoint, place: Place)
    ensures
        in_plan(point, place) <==> {
            &&& point.x - point.radius <= place.x <= point.x + point.radius
            &&& point.y - point.radius <= place.y <= point.y + point.radius
        },
        at_point(point, place) <==> in_plan(point, place) && place.z <= point.ceiling,
{
}

/// Away from its next point the walk heads for it, on both axes of the ground.
pub proof fn the_walk_heads_for_its_point(
    run: EpisodeRun,
    route: Seq<Waypoint>,
    place: Place,
    evidence: u32,
)
    requires
        run.route_index < route.len(),
        !passed(route[run.route_index as int], place, evidence),
        !in_plan(route[run.route_index as int], place),
        -100_000 <= place.x <= 100_000,
        -100_000 <= place.y <= 100_000,
        in_world(route),
    ensures
        ({
            let point = route[run.route_index as int];
            let (after, step) = walked(run, route, place, evidence);
            &&& step matches Some(ControlStep::Steer { dx, dy, .. }) && place.x + dx == point.x
                && place.y + dy == point.y
            &&& after.route_index == run.route_index
            &&& after.last_z == place.z
        }),
{
}

/// Within the square of a point but above it the walk goes on over the point, at
/// least as far as the square reaches, the way it was going.
pub proof fn the_walk_goes_on_over_its_point(delta: int, radius: int)
    requires
        radius > 0,
    ensures
        delta > 0 ==> extended(delta, radius) == (if delta < radius {
            radius
        } else {
            delta
        }),
        extended(-delta, radius) == -extended(delta, radius),
        extended(0, radius) == 0,
{
}

/// Coming nearer starts the patience anew; standing still uses it up, and then
/// the next of eight detours is tried.
pub proof fn patience_ends_in_a_detour(run: EpisodeRun, distance: int)
    requires
        0 <= distance <= i32::MAX,
        run.detour < 8,
        run.stall_frames <= 45,
    ensures
        ({
            let after = progressed(run, distance, false);
            &&& distance < run.best_distance ==> after.best_distance == distance
                && after.stall_frames == 0 && after.detour == 0
            &&& distance >= run.best_distance ==> after.best_distance == run.best_distance
            &&& distance >= run.best_distance && run.stall_frames < 45 ==> after.stall_frames
                == run.stall_frames + 1 && after.detour == run.detour
            &&& distance >= run.best_distance && run.stall_frames == 45 ==> after.stall_frames == 0
                && after.detour == (if run.detour == 7 {
                0
            } else {
                run.detour + 1
            })
        }),
        progressed(run, distance, true).stall_frames == 0,
{
}

/// Both halves of a packed place read back.
pub proof fn packed_places_read_back(x: int, y: int)
    requires
        0 <= x < 65536,
        0 <= y < 65536,
    ensures
        packed_place(x, y) / 65536 == x,
        packed_place(x, y) % 65536 == y,
{
}

/// The counts of a level fill a word, a byte each: kills, all kills, secrets, all
/// secrets.
pub proof fn counts_fill_a_word(kills: u16, total_kills: u16, secrets: u16, total_secrets: u16)
    requires
        kills < 256,
        total_kills < 256,
        secrets < 256,
        total_secrets < 256,
    ensures
        ({
            let word = panel_word(kills, total_kills, secrets, total_secrets);
            &&& word >> 24u32 == kills
            &&& (word >> 16u32) & 0xff == total_kills
            &&& (word >> 8u32) & 0xff == secrets
            &&& word & 0xff == total_secrets
        }),
{
    let a = kills as u32;
    let b = total_kills as u32;
    let c = secrets as u32;
    let d = total_secrets as u32;
    let word = (a << 24u32) | (b << 16u32) | (c << 8u32) | d;
    assert(word >> 24u32 == a && (word >> 16u32) & 0xff == b && (word >> 8u32) & 0xff == c && word
        & 0xff == d) by (bit_vector)
        requires
            word == (a << 24u32) | (b << 16u32) | (c << 8u32) | d,
            a < 256,
            b < 256,
            c < 256,
            d < 256,
    ;
}

/// Each thing that the hall shows is its own evidence, and takes none away.
pub proof fn the_hall_shows_four_things(evidence: u32, facts: HallFacts, player: Vec3I32)
    requires
        evidence & 0x780 == 0,
    ensures
        ({
            let after = hall_evidence(evidence, facts, player);
            &&& after & 0x080 != 0 <==> facts.runes % 2 == 1
            &&& after & 0x100 != 0 <==> (facts.start2 matches Some(origin) && within_a_unit(
                player,
                origin,
            ))
            &&& after & 0x200 != 0 <==> facts.solid_episode_gate
            &&& after & 0x400 != 0 <==> facts.boss_gate
            &&& after & !0x780u32 == evidence
        }),
{
    let rune: u32 = if facts.runes % 2 == 1 {
        0x80
    } else {
        0
    };
    let spawn: u32 = match facts.start2 {
        Some(origin) if within_a_unit(player, origin) => 0x100,
        _ => 0,
    };
    let gate: u32 = if facts.solid_episode_gate {
        0x200
    } else {
        0
    };
    let boss: u32 = if facts.boss_gate {
        0x400
    } else {
        0
    };
    let after = evidence | rune | spawn | gate | boss;
    assert(forall|word: u32| #[trigger] (word | 0u32) == word) by (bit_vector);
    assert(evidence | rune == if facts.runes % 2 == 1 { evidence | 0x80 } else { evidence });
    assert(after == hall_evidence(evidence, facts, player));
    assert({
        &&& after & 0x080 != 0 <==> rune != 0
        &&& after & 0x100 != 0 <==> spawn != 0
        &&& after & 0x200 != 0 <==> gate != 0
        &&& after & 0x400 != 0 <==> boss != 0
        &&& after & !0x780u32 == evidence
    }) by (bit_vector)
        requires
            after == evidence | rune | spawn | gate | boss,
            evidence & 0x780 == 0,
            rune == 0 || rune == 0x80,
            spawn == 0 || spawn == 0x100,
            gate == 0 || gate == 0x200,
            boss == 0 || boss == 0x400,
    ;
}

/// The target that is found is that of the first source of the class, or of the
/// first of the name that has any; where there is none it is zero.
pub proof fn the_first_target_is_found(
    sources: Seq<TargetSource>,
    class_name: u8,
    name: u16,
    from: int,
    at: int,
)
    requires
        0 <= from <= at < sources.len(),
    ensures
        sources[at].class_name == class_name && (forall|i: int|
            from <= i < at ==> (#[trigger] sources[i]).class_name != class_name) ==> target_of_class(
            sources,
            class_name,
            from,
        ) == sources[at].target,
        sources[at].target_name == name && sources[at].target != 0 && (forall|i: int|
            from <= i < at ==> (#[trigger] sources[i]).target_name != name || sources[i].target == 0)
            ==> target_of_name(sources, name, from) == sources[at].target,
    decreases at - from,
{
    if from < at {
        the_first_target_is_found(sources, class_name, name, from + 1, at);
    }
}

/// The eight detours are the eight half right angles, straight ahead first and
/// then ever further to both sides.
pub proof fn detours_go_ever_further_aside()
    ensures
        detour_turn(0) == 0,
        detour_turn(1) == 512 && detour_turn(2) == 4096 - 512,
        detour_turn(3) == 1024 && detour_turn(4) == 4096 - 1024,
        detour_turn(5) == 1536 && detour_turn(6) == 4096 - 1536,
        detour_turn(7) == 2048,
{
}

/// The stick is pushed in proportion to the way along its axis, fully at a scale's
/// length, and the same both ways.
pub proof fn the_stick_is_pushed_in_proportion(scale: int, limit: int)
    requires
        0 < scale <= 0x10_0000,
        16 <= limit <= 127,
    ensures
        stick_axis(scale, scale, limit) == limit,
        stick_axis(-scale, scale, limit) == -limit,
        stick_axis(0, scale, limit) == 0,
{
    assert(0 < scale * limit <= 0x10_0000 * 127) by (nonlinear_arith)
        requires
            0 < scale <= 0x10_0000,
            16 <= limit <= 127,
    ;
    assert((-scale) * limit == -(scale * limit)) by (nonlinear_arith);
    assert(scale * limit / scale == limit) by (nonlinear_arith)
        requires
            0 < scale,
    ;
    assert(0 * limit == 0) by (nonlinear_arith);
    assert(0int / scale == 0) by (nonlinear_arith)
        requires
            0 < scale,
    ;
}

/// The walk slows down near its point: the longer axis counts, six steps a unit,
/// sixteen at least and 127 at most.
pub proof fn the_walk_slows_down_near_its_point(dx: int, dy: int)
    requires
        -0x10_0000 <= dx <= 0x10_0000,
        -0x10_0000 <= dy <= 0x10_0000,
    ensures
        16 <= steering_limit(dx, dy) <= 127,
        steering_limit(dx, dy) == steering_limit(dy, dx),
        steering_limit(-dx, dy) == steering_limit(dx, dy),
        3 <= dx <= 21 && magnitude(dy) <= dx ==> steering_limit(dx, dy) == 6 * dx,
        dx >= 22 ==> steering_limit(dx, dy) == 127,
{
}

/// What is seen of the boss is evidence of its own: that it rose, that it threw
/// and that it died. Its frame is noted, and each frame in which it throws.
pub proof fn the_boss_shows_three_things(run: EpisodeRun, boss: BossSnapshot, evidence: u32)
    requires
        evidence & 0x200c == 0,
        run.probe.shock_count < u32::MAX,
    ensures
        ({
            let (after, seen) = boss_seen(run, boss, evidence);
            &&& seen & 0x4 != 0 <==> boss.active && boss.visible && !boss.dead
            &&& seen & 0x8 != 0 <==> boss.active && boss.throwing
            &&& seen & 0x2000 != 0 <==> boss.dead
            &&& seen & !0x200cu32 == evidence
            &&& after.probe.boss == boss.frame
            &&& after.probe.monster_present == 1 <==> boss.active
            &&& after.probe.shock_count == (if boss.active && boss.throwing {
                run.probe.shock_count + 1
            } else {
                run.probe.shock_count as int
            })
        }),
{
    let up: u32 = if boss.active && boss.visible && !boss.dead {
        0x4
    } else {
        0
    };
    let threw: u32 = if boss.active && boss.throwing {
        0x8
    } else {
        0
    };
    let dead: u32 = if boss.dead {
        0x2000
    } else {
        0
    };
    let seen = evidence | up | threw | dead;
    assert(forall|word: u32| #[trigger] (word | 0u32) == word) by (bit_vector);
    assert(seen == boss_seen(run, boss, evidence).1);
    assert({
        &&& seen & 0x4 != 0 <==> up != 0
        &&& seen & 0x8 != 0 <==> threw != 0
        &&& seen & 0x2000 != 0 <==> dead != 0
        &&& seen & !0x200cu32 == evidence
    }) by (bit_vector)
        requires
            seen == evidence | up | threw | dead,
            evidence & 0x200c == 0,
            up == 0 || up == 0x4,
            threw == 0 || threw == 0x8,
            dead == 0 || dead == 0x2000,
    ;
}

/// Play without a boss in sight leaves evidence of the sigil, of the waking and of
/// a shock, each for its own cause, and counts the movers that were started.
pub proof fn play_leaves_its_evidence(run: EpisodeRun, facts: GameplayFacts)
    requires
        facts.boss is None,
        run.probe.player_state & 0x1003 == 0,
        run.probe.weapon_fired + facts.activations <= u32::MAX,
    ensures
        ({
            let after = evidence_gathered(run, facts);
            let seen = after.probe.player_state;
            &&& seen & 0x1 != 0 <==> facts.runes % 2 == 1
            &&& seen & 0x2 != 0 <==> facts.boss_awakened || facts.pickup_boss_awakened
            &&& seen & 0x1000 != 0 <==> facts.boss_shocks != 0
            &&& seen & !0x1003u32 == run.probe.player_state
            &&& after.probe.weapon_fired == run.probe.weapon_fired + facts.activations
        }),
{
    let before = run.probe.player_state;
    let taken: u32 = if facts.runes % 2 == 1 {
        0x1
    } else {
        0
    };
    let woken: u32 = if facts.boss_awakened || facts.pickup_boss_awakened {
        0x2
    } else {
        0
    };
    let shocked: u32 = if facts.boss_shocks != 0 {
        0x1000
    } else {
        0
    };
    let seen = before | taken | woken | shocked;
    assert(forall|word: u32| #[trigger] (word | 0u32) == word) by (bit_vector);
    assert(seen == evidence_gathered(run, facts).probe.player_state);
    assert({
        &&& seen & 0x1 != 0 <==> taken != 0
        &&& seen & 0x2 != 0 <==> woken != 0
        &&& seen & 0x1000 != 0 <==> shocked != 0
        &&& seen & !0x1003u32 == before
    }) by (bit_vector)
        requires
            seen == before | taken | woken | shocked,
            before & 0x1003 == 0,
            taken == 0 || taken == 0x1,
            woken == 0 || woken == 0x2,
            shocked == 0 || shocked == 0x1000,
    ;
}

/// A target that cannot be followed fails the run, and so does the player's
/// death; the health is noted either way, and the edges that were fired add up.
pub proof fn play_fails_for_cause(
    run: EpisodeRun,
    map: EpisodeMap,
    facts: GameplayFacts,
    health: i16,
)
    requires
        run.probe.failure_code == 0,
        run.probe.target_edges + facts.fired_target_edges <= u32::MAX,
    ensures
        ({
            let after = after_gameplay(run, map, facts, health).probe;
            let lost = facts.target_error is Some || facts.pickup_target_error is Some;
            &&& after.last_health == (if health < 0 {
                0
            } else {
                health as int
            })
            &&& lost ==> after.failure_code == FAILURE_TARGET_GRAPH && after.failure_map
                == map_number(map) && after.failure_detail == (match facts.target_error {
                Some(error) => error,
                None => facts.pickup_target_error->0,
            })
            &&& !lost && health <= 0 ==> after.failure_code == FAILURE_PLAYER_DEAD
                && after.failure_detail == run.probe.phase
            &&& !lost && health > 0 ==> after.failure_code == 0 && after.target_edges
                == run.probe.target_edges + facts.fired_target_edges
        }),
{
}

} // verus!
