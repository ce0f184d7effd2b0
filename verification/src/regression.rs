//! A scripted walk through every map of the episode.
//!
//! The script waits in every map until it is shown, then moves the player into
//! the exit. The map with two exits is visited twice; for the second visit it
//! is loaded directly, as no way leads back to it.

use vstd::prelude::*;

use crate::episode::{map_bit, map_index, map_mask, map_number, EpisodeMap};
use crate::probe::{as_bits, bits_of, blank_probe, failed, Probe};
use crate::world::Vec3I32;

verus! {

pub const PROBE_VERSION: u32 = 3;

/// Frames to wait in a map before leaving it.
pub const SETTLE_FRAMES: u32 = 8;

pub const PHASE_SETTLE: u32 = 1;

pub const PHASE_MAP_ROUTE_COMPLETE: u32 = 0x40;

pub const FAILURE_BAD_MAP: u32 = 1;

pub const FAILURE_TRANSITION: u32 = 2;

pub const FAILURE_CHANGE_LEVEL: u32 = 5;

/// Stops of the walk.
pub const ROUTE_STOPS: usize = 12;

/// The stop that is followed by a direct load.
pub const RELOAD_STOP: usize = 9;

/// The map of a stop.
pub open spec fn route_stop(index: int) -> EpisodeMap {
    if index == 0 || index == 9 {
        EpisodeMap::Start
    } else if index == 1 {
        EpisodeMap::E1M1
    } else if index == 2 {
        EpisodeMap::E1M2
    } else if index == 3 {
        EpisodeMap::E1M3
    } else if index == 4 || index == 10 {
        EpisodeMap::E1M4
    } else if index == 5 {
        EpisodeMap::E1M8
    } else if index == 6 || index == 11 {
        EpisodeMap::E1M5
    } else if index == 7 {
        EpisodeMap::E1M6
    } else {
        EpisodeMap::E1M7
    }
}

pub fn route_map(index: usize) -> (map: EpisodeMap)
    requires
        index < ROUTE_STOPS,
    ensures
        map == route_stop(index as int),
{
    match index {
        0 => EpisodeMap::Start,
        1 => EpisodeMap::E1M1,
        2 => EpisodeMap::E1M2,
        3 => EpisodeMap::E1M3,
        4 => EpisodeMap::E1M4,
        5 => EpisodeMap::E1M8,
        6 => EpisodeMap::E1M5,
        7 => EpisodeMap::E1M6,
        8 => EpisodeMap::E1M7,
        9 => EpisodeMap::Start,
        10 => EpisodeMap::E1M4,
        _ => EpisodeMap::E1M5,
    }
}

/// The bit of the exit that leads away from a stop; the direct load has none.
pub open spec fn exit_bit(route_index: int) -> u32 {
    if route_index == 0 {
        0x001
    } else if route_index == 1 {
        0x002
    } else if route_index == 2 {
        0x004
    } else if route_index == 3 {
        0x008
    } else if route_index == 4 {
        0x010
    } else if route_index == 5 {
        0x020
    } else if route_index == 6 {
        0x040
    } else if route_index == 7 {
        0x080
    } else if route_index == 8 {
        0x100
    } else if route_index == 10 {
        0x200
    } else {
        0
    }
}

pub fn transition_bit(route_index: usize) -> (bit: u32)
    ensures
        bit == exit_bit(route_index as int),
{
    match route_index {
        0 => 0x001,
        1 => 0x002,
        2 => 0x004,
        3 => 0x008,
        4 => 0x010,
        5 => 0x020,
        6 => 0x040,
        7 => 0x080,
        8 => 0x100,
        10 => 0x200,
        _ => 0,
    }
}

#[derive(Copy, Clone, Debug, PartialEq, Eq, Structural)]
pub struct RouteState {
    pub initialized: bool,
    pub route_index: usize,
    pub stage_frames: u32,
    pub pending_destination: EpisodeMap,
    pub pending_transition: u32,
    pub pending: bool,
    /// The last sum of the trains' positions; `u32::MAX` before the first.
    pub train_checksum: u32,
}

impl RouteState {
    pub fn new() -> (state: Self)
        ensures
            state == (RouteState {
                initialized: false,
                route_index: 0,
                stage_frames: 0,
                pending_destination: EpisodeMap::Start,
                pending_transition: 0,
                pending: false,
                train_checksum: u32::MAX,
            }),
    {
        RouteState {
            initialized: false,
            route_index: 0,
            stage_frames: 0,
            pending_destination: EpisodeMap::Start,
            pending_transition: 0,
            pending: false,
            train_checksum: u32::MAX,
        }
    }
}

/// One look at the trains: the longest leg in ticks, how many there are, the
/// sum of their positions, and the working of one leg.
#[derive(Copy, Clone, Debug, PartialEq, Eq)]
pub struct TrainSample {
    pub longest: u32,
    pub trains: u32,
    pub checksum: u32,
    pub leg: [i32; 13],
}

/// What the script does next.
#[derive(Copy, Clone, Debug, PartialEq, Eq, Structural)]
pub enum DriveStep {
    Wait,
    /// Load this map directly.
    Reload(EpisodeMap),
    /// Move the player into the exit to this map.
    Exit(EpisodeMap),
}

#[derive(Copy, Clone, Debug, PartialEq, Eq, Structural)]
pub struct RouteProbe {
    pub probe: Probe,
    pub state: RouteState,
}

pub open spec fn route_failed(run: RouteProbe, code: u32, map: u32, detail: u32) -> RouteProbe {
    RouteProbe { probe: failed(run.probe, code, map, detail), ..run }
}

/// The record of a map that was loaded as it should.
pub open spec fn load_recorded(probe: Probe, map: EpisodeMap, route_index: int) -> Probe {
    Probe {
        maps_loaded: probe.maps_loaded | map_mask(map),
        maps_validated: probe.maps_validated | map_mask(map),
        current_map: map_number(map),
        route_index: route_index as u32,
        map_loads: probe.map_loads.wrapping_add(1),
        stage_frames: 0,
        phase: PHASE_SETTLE,
        ..probe
    }
}

/// The run after a map has been loaded.
pub open spec fn after_load(run: RouteProbe, map: EpisodeMap) -> RouteProbe {
    let state = run.state;
    if state.pending {
        if map != state.pending_destination || state.route_index + 1 >= ROUTE_STOPS {
            route_failed(
                run,
                FAILURE_TRANSITION,
                map_number(map),
                map_number(state.pending_destination),
            )
        } else {
            let next = (state.route_index + 1) as usize;
            let moved = RouteProbe { state: RouteState { route_index: next, ..state }, ..run };
            if route_stop(next as int) != map {
                route_failed(moved, FAILURE_BAD_MAP, map_number(map), next as u32)
            } else {
                RouteProbe {
                    probe: load_recorded(
                        Probe {
                            transitions: if state.pending_transition != 0 {
                                run.probe.transitions | state.pending_transition
                            } else {
                                run.probe.transitions
                            },
                            ..run.probe
                        },
                        map,
                        next as int,
                    ),
                    state: RouteState {
                        pending: false,
                        pending_transition: 0,
                        stage_frames: 0,
                        ..moved.state
                    },
                }
            }
        }
    } else if state.initialized || map != route_stop(0) {
        route_failed(run, FAILURE_BAD_MAP, map_number(map), state.route_index as u32)
    } else {
        RouteProbe {
            probe: load_recorded(run.probe, map, state.route_index as int),
            state: RouteState { initialized: true, stage_frames: 0, ..state },
        }
    }
}

pub open spec fn larger(left: u32, right: u32) -> u32 {
    if left < right {
        right
    } else {
        left
    }
}

pub open spec fn distance(left: u32, right: u32) -> int {
    if left < right {
        right - left
    } else {
        left - right
    }
}

/// The run after a look at the trains.
pub open spec fn trains_seen(run: RouteProbe, sample: TrainSample) -> RouteProbe {
    let probe = Probe { state_ranges: larger(run.probe.state_ranges, sample.longest), ..run.probe };
    let state = RouteState { train_checksum: sample.checksum, ..run.state };
    if sample.trains == 0 {
        run
    } else if run.state.train_checksum == u32::MAX {
        RouteProbe { probe, state }
    } else {
        let total = probe.valid_state_ranges + distance(sample.checksum, run.state.train_checksum);
        RouteProbe {
            probe: Probe {
                valid_state_ranges: if total > u32::MAX {
                    u32::MAX
                } else {
                    total as u32
                },
                weapon_selected: as_bits(sample.leg@[0] as int),
                weapon_fired: as_bits(sample.leg@[1] as int),
                weapon_animated: as_bits(sample.leg@[2] as int),
                monster_present: as_bits(sample.leg@[3] as int),
                monster_animated: as_bits(sample.leg@[4] as int),
                monster_state_bounds: as_bits(sample.leg@[5] as int),
                monster_attack: as_bits(sample.leg@[6] as int),
                monster_pain: as_bits(sample.leg@[7] as int),
                monster_death: as_bits(sample.leg@[8] as int),
                boss: as_bits(sample.leg@[9] as int),
                last_health: as_bits(sample.leg@[10] as int),
                shock_count: as_bits(sample.leg@[11] as int),
                intermission_state: as_bits(sample.leg@[12] as int),
                ..probe
            },
            state,
        }
    }
}

/// A frame that only counts: nothing to do, or not any more.
pub open spec fn frame_counted(run: RouteProbe) -> RouteProbe {
    RouteProbe {
        probe: Probe { total_frames: run.probe.total_frames.wrapping_add(1), ..run.probe },
        ..run
    }
}

/// The run after a frame, and what the script does.
pub open spec fn after_drive(run: RouteProbe, map: EpisodeMap, sample: TrainSample) -> (
    RouteProbe,
    DriveStep,
) {
    let counted = frame_counted(run);
    let state = run.state;
    if !state.initialized || state.pending || run.probe.failure_code != 0 {
        (counted, DriveStep::Wait)
    } else if map != route_stop(state.route_index as int) {
        (
            route_failed(counted, FAILURE_BAD_MAP, map_number(map), state.route_index as u32),
            DriveStep::Wait,
        )
    } else if state.route_index + 1 == ROUTE_STOPS {
        (
            RouteProbe {
                probe: Probe { phase: PHASE_MAP_ROUTE_COMPLETE, ..counted.probe },
                ..counted
            },
            DriveStep::Wait,
        )
    } else {
        let seen = if map == EpisodeMap::E1M5 {
            trains_seen(counted, sample)
        } else {
            counted
        };
        let frames = state.stage_frames.wrapping_add(1);
        let staged = RouteProbe {
            probe: Probe { stage_frames: frames, ..seen.probe },
            state: RouteState { stage_frames: frames, ..seen.state },
        };
        if frames < SETTLE_FRAMES {
            (staged, DriveStep::Wait)
        } else {
            let destination = route_stop(state.route_index + 1);
            (
                RouteProbe {
                    state: RouteState {
                        pending_destination: destination,
                        pending_transition: exit_bit(state.route_index as int),
                        pending: true,
                        ..staged.state
                    },
                    ..staged
                },
                if state.route_index == RELOAD_STOP {
                    DriveStep::Reload(destination)
                } else {
                    DriveStep::Exit(destination)
                },
            )
        }
    }
}

impl RouteProbe {
    pub open spec fn valid(&self) -> bool {
        self.state.route_index < ROUTE_STOPS
    }

    pub fn new() -> (run: Self)
        ensures
            run.valid(),
            run.probe == blank_probe(PROBE_VERSION, 0, 0),
            !run.state.initialized,
            run.state.route_index == 0,
            !run.state.pending,
            run.state.train_checksum == u32::MAX,
    {
        RouteProbe { probe: Probe::new(PROBE_VERSION, 0, 0), state: RouteState::new() }
    }

    /// A map was loaded.
    pub fn map_loaded(&mut self, map: EpisodeMap)
        requires
            old(self).valid(),
        ensures
            final(self).valid(),
            *final(self) == after_load(*old(self), map),
    {
        if self.state.pending {
            if map != self.state.pending_destination || self.state.route_index + 1 >= ROUTE_STOPS {
                self.probe.fail(
                    FAILURE_TRANSITION,
                    map_index(map),
                    map_index(self.state.pending_destination),
                );
                return ;
            }
            self.state.route_index += 1;
            if route_map(self.state.route_index) != map {
                self.probe.fail(FAILURE_BAD_MAP, map_index(map), self.state.route_index as u32);
                return ;
            }
            if self.state.pending_transition != 0 {
                self.probe.transitions = self.probe.transitions | self.state.pending_transition;
            }
            self.state.pending = false;
            self.state.pending_transition = 0;
        } else if self.state.initialized || map != route_map(0) {
            self.probe.fail(FAILURE_BAD_MAP, map_index(map), self.state.route_index as u32);
            return ;
        } else {
            self.state.initialized = true;
        }
        self.state.stage_frames = 0;
        let bit: u32 = map_bit(map);
        self.probe.maps_loaded = self.probe.maps_loaded | bit;
        self.probe.maps_validated = self.probe.maps_validated | bit;
        self.probe.current_map = map_index(map);
        self.probe.route_index = self.state.route_index as u32;
        self.probe.map_loads = self.probe.map_loads.wrapping_add(1);
        self.probe.stage_frames = 0;
        self.probe.phase = PHASE_SETTLE;
    }

    fn observe_trains(&mut self, sample: TrainSample)
        ensures
            *final(self) == trains_seen(*old(self), sample),
    {
        if sample.trains == 0 {
            return ;
        }
        if self.probe.state_ranges < sample.longest {
            self.probe.state_ranges = sample.longest;
        }
        let last: u32 = self.state.train_checksum;
        self.state.train_checksum = sample.checksum;
        if last == u32::MAX {
            return ;
        }
        let travelled: u32 = if sample.checksum < last {
            last - sample.checksum
        } else {
            sample.checksum - last
        };
        self.probe.valid_state_ranges = self.probe.valid_state_ranges.saturating_add(travelled);
        self.probe.weapon_selected = bits_of(sample.leg[0]);
        self.probe.weapon_fired = bits_of(sample.leg[1]);
        self.probe.weapon_animated = bits_of(sample.leg[2]);
        self.probe.monster_present = bits_of(sample.leg[3]);
        self.probe.monster_animated = bits_of(sample.leg[4]);
        self.probe.monster_state_bounds = bits_of(sample.leg[5]);
        self.probe.monster_attack = bits_of(sample.leg[6]);
        self.probe.monster_pain = bits_of(sample.leg[7]);
        self.probe.monster_death = bits_of(sample.leg[8]);
        self.probe.boss = bits_of(sample.leg[9]);
        self.probe.last_health = bits_of(sample.leg[10]);
        self.probe.shock_count = bits_of(sample.leg[11]);
        self.probe.intermission_state = bits_of(sample.leg[12]);
    }

    /// One frame in `map`. The sample counts only in the map with the trains.
    pub fn drive(&mut self, map: EpisodeMap, sample: TrainSample) -> (step: DriveStep)
        requires
            old(self).valid(),
        ensures
            final(self).valid(),
            (*final(self), step) == after_drive(*old(self), map, sample),
    {
        self.probe.total_frames = self.probe.total_frames.wrapping_add(1);
        if !self.state.initialized || self.state.pending || self.probe.failure_code != 0 {
            return DriveStep::Wait;
        }
        if map != route_map(self.state.route_index) {
            self.probe.fail(FAILURE_BAD_MAP, map_index(map), self.state.route_index as u32);
            return DriveStep::Wait;
        }
        if self.state.route_index + 1 == ROUTE_STOPS {
            self.probe.phase = PHASE_MAP_ROUTE_COMPLETE;
            return DriveStep::Wait;
        }
        if map == EpisodeMap::E1M5 {
            self.observe_trains(sample);
        }
        self.state.stage_frames = self.state.stage_frames.wrapping_add(1);
        self.probe.stage_frames = self.state.stage_frames;
        if self.state.stage_frames < SETTLE_FRAMES {
            return DriveStep::Wait;
        }
        let destination: EpisodeMap = route_map(self.state.route_index + 1);
        self.state.pending_destination = destination;
        self.state.pending_transition = transition_bit(self.state.route_index);
        self.state.pending = true;
        if self.state.route_index == RELOAD_STOP {
            return DriveStep::Reload(destination);
        }
        DriveStep::Exit(destination)
    }

    /// Where the exit is, if the map has one to the destination.
    pub fn take_exit(&mut self, map: EpisodeMap, exit: Option<Vec3I32>) -> (place: Option<Vec3I32>)
        ensures
            place == exit,
            *final(self) == match exit {
                Some(_) => *old(self),
                None => route_failed(
                    RouteProbe {
                        state: RouteState { pending: false, ..old(self).state },
                        ..*old(self)
                    },
                    FAILURE_CHANGE_LEVEL,
                    map_number(map),
                    map_number(old(self).state.pending_destination),
                ),
            },
    {
        if exit.is_none() {
            self.state.pending = false;
            self.probe.fail(
                FAILURE_CHANGE_LEVEL,
                map_index(map),
                map_index(self.state.pending_destination),
            );
        }
        exit
    }

    /// Keep the most packet memory that a frame took, and count the frames
    /// that left packets out.
    pub fn observe_render(&mut self, arena_words: u32, overflow_avoided: bool)
        ensures
            *final(self) == (RouteProbe {
                probe: Probe {
                    weapon_pickups: larger(old(self).probe.weapon_pickups, arena_words),
                    target_edges: if overflow_avoided {
                        old(self).probe.target_edges.wrapping_add(1)
                    } else {
                        old(self).probe.target_edges
                    },
                    ..old(self).probe
                },
                ..*old(self)
            }),
    {
        if self.probe.weapon_pickups < arena_words {
            self.probe.weapon_pickups = arena_words;
        }
        if overflow_avoided {
            self.probe.target_edges = self.probe.target_edges.wrapping_add(1);
        }
    }
}

/// The exits that lead to a stop.
pub open spec fn exits_before(stop: nat) -> u32
    decreases stop,
{
    if stop == 0 {
        0
    } else {
        exits_before((stop - 1) as nat) | exit_bit(stop - 1)
    }
}

/// The maps up to a stop.
pub open spec fn maps_up_to(stop: nat) -> u32
    decreases stop,
{
    if stop == 0 {
        0 | map_mask(route_stop(0))
    } else {
        maps_up_to((stop - 1) as nat) | map_mask(route_stop(stop as int))
    }
}

/// The record says what the walk has done: the exits it took, the maps it
/// loaded, and what it is waiting for.
pub open spec fn on_route(run: RouteProbe) -> bool {
    let state = run.state;
    &&& state.route_index < ROUTE_STOPS
    &&& state.initialized
    &&& run.probe.transitions == exits_before(state.route_index as nat)
    &&& run.probe.maps_loaded == maps_up_to(state.route_index as nat)
    &&& state.pending ==> {
        &&& state.route_index + 1 < ROUTE_STOPS
        &&& state.pending_destination == route_stop(state.route_index + 1)
        &&& state.pending_transition == exit_bit(state.route_index as int)
    }
}

/// The walk begins with the first load.
pub proof fn the_walk_begins(run: RouteProbe)
    requires
        run.probe == blank_probe(PROBE_VERSION, 0, 0),
        !run.state.initialized,
        !run.state.pending,
        run.state.route_index == 0,
    ensures
        on_route(after_load(run, EpisodeMap::Start)),
        after_load(run, EpisodeMap::Start).probe.failure_code == 0,
{
}

/// As long as nothing fails, the record says what the walk has done.
pub proof fn the_record_follows_the_walk(run: RouteProbe, map: EpisodeMap, sample: TrainSample)
    requires
        on_route(run),
        run.probe.failure_code == 0,
    ensures
        after_load(run, map).probe.failure_code == 0 ==> on_route(after_load(run, map)),
        on_route(after_drive(run, map, sample).0),
{
    let state = run.state;
    assert(exits_before((state.route_index + 1) as nat) == exits_before(state.route_index as nat)
        | exit_bit(state.route_index as int));
    assert(maps_up_to((state.route_index + 1) as nat) == maps_up_to(state.route_index as nat)
        | map_mask(route_stop(state.route_index + 1)));
    let taken = run.probe.transitions;
    assert(taken | 0u32 == taken) by (bit_vector);
}

/// A walk that reaches its last stop has taken all ten exits and loaded all
/// nine maps.
pub proof fn a_complete_walk_saw_everything(run: RouteProbe)
    requires
        on_route(run),
        run.state.route_index == ROUTE_STOPS - 1,
    ensures
        run.probe.transitions == 0x3ff,
        run.probe.maps_loaded == 0x1ff,
{
    reveal_with_fuel(exits_before, 12);
    reveal_with_fuel(maps_up_to, 12);
    assert(0u32 | 0x001 | 0x002 | 0x004 | 0x008 | 0x010 | 0x020 | 0x040 | 0x080 | 0x100 | 0
        | 0x200 == 0x3ff) by (bit_vector);
    assert(0u32 | 0x001 | 0x002 | 0x004 | 0x008 | 0x010 | 0x100 | 0x020 | 0x040 | 0x080 | 0x001
        | 0x010 | 0x020 == 0x1ff) by (bit_vector);
}

/// Only a map that was loaded as planned moves the walk on, by one stop.
pub proof fn the_walk_goes_stop_by_stop(run: RouteProbe, map: EpisodeMap)
    requires
        run.state.route_index < ROUTE_STOPS,
    ensures
        after_load(run, map).state.route_index == run.state.route_index || (run.state.pending && map
            == run.state.pending_destination && after_load(run, map).state.route_index
            == run.state.route_index + 1),
{
}

/// Every exit of the walk has its own bit: the first nine by their number, and
/// the exit of the second visit to the fourth map the tenth.
pub proof fn exits_have_their_own_bits(route_index: int)
    ensures
        0 <= route_index <= 8 ==> exit_bit(route_index) == 1u32 << (route_index as u32),
        exit_bit(10) == 1u32 << 9u32,
        exit_bit(9) == 0,
        route_index > 10 ==> exit_bit(route_index) == 0,
{
    assert(1u32 << 0u32 == 1 && 1u32 << 1u32 == 2 && 1u32 << 2u32 == 4 && 1u32 << 3u32 == 8 && 1u32
        << 4u32 == 16 && 1u32 << 5u32 == 32 && 1u32 << 6u32 == 64 && 1u32 << 7u32 == 128 && 1u32
        << 8u32 == 256 && 1u32 << 9u32 == 512) by (bit_vector);
}

/// A load is noted under its map: its bit among those loaded and those found
/// valid, its number and its place on the walk.
pub proof fn loads_are_noted_under_their_map(probe: Probe, map: EpisodeMap, route_index: int)
    requires
        0 <= route_index <= 11,
        probe.map_loads < u32::MAX,
    ensures
        ({
            let after = load_recorded(probe, map, route_index);
            &&& after.maps_loaded == probe.maps_loaded | map_mask(map)
            &&& after.maps_validated == probe.maps_validated | map_mask(map)
            &&& after.current_map == map_number(map)
            &&& after.route_index == route_index
            &&& after.map_loads == probe.map_loads + 1
            &&& after.stage_frames == 0 && after.phase == PHASE_SETTLE
            &&& after.transitions == probe.transitions && after.total_frames == probe.total_frames
            &&& after.failure_code == probe.failure_code
        }),
{
}

/// How far the trains went is the same from either of two sums, and adds up until
/// the count is full.
pub proof fn trains_add_up_their_ways(run: RouteProbe, sample: TrainSample)
    requires
        sample.trains != 0,
        run.state.train_checksum != u32::MAX,
    ensures
        ({
            let after = trains_seen(run, sample);
            let way = if sample.checksum < run.state.train_checksum {
                run.state.train_checksum - sample.checksum
            } else {
                sample.checksum - run.state.train_checksum
            };
            &&& after.state.train_checksum == sample.checksum
            &&& run.probe.valid_state_ranges + way <= u32::MAX ==> after.probe.valid_state_ranges
                == run.probe.valid_state_ranges + way
            &&& after.probe.state_ranges >= sample.longest && after.probe.state_ranges
                >= run.probe.state_ranges
            &&& after.probe.state_ranges == sample.longest || after.probe.state_ranges
                == run.probe.state_ranges
            &&& after.state.route_index == run.state.route_index && after.state.pending
                == run.state.pending
        }),
        forall|left: u32, right: u32| #[trigger] distance(left, right) == distance(right, left),
{
}

/// A word holds the bits of a signed number.
pub open spec fn keeps_bits(word: u32, number: i32) -> bool {
    word == number || word == number + 0x1_0000_0000
}

/// The last leg of a train is reported number by number, in its order.
pub proof fn legs_are_reported_in_order(run: RouteProbe, sample: TrainSample)
    requires
        sample.trains != 0,
        run.state.train_checksum != u32::MAX,
    ensures
        ({
            let seen = trains_seen(run, sample).probe;
            let leg = sample.leg@;
            &&& keeps_bits(seen.weapon_selected, leg[0])
            &&& keeps_bits(seen.weapon_fired, leg[1])
            &&& keeps_bits(seen.weapon_animated, leg[2])
            &&& keeps_bits(seen.monster_present, leg[3])
            &&& keeps_bits(seen.monster_animated, leg[4])
            &&& keeps_bits(seen.monster_state_bounds, leg[5])
            &&& keeps_bits(seen.monster_attack, leg[6])
            &&& keeps_bits(seen.monster_pain, leg[7])
            &&& keeps_bits(seen.monster_death, leg[8])
            &&& keeps_bits(seen.boss, leg[9])
            &&& keeps_bits(seen.last_health, leg[10])
            &&& keeps_bits(seen.shock_count, leg[11])
            &&& keeps_bits(seen.intermission_state, leg[12])
        }),
{
}

} // verus!
