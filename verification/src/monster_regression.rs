//! A scripted encounter with monsters that stand in a map.
//!
//! First a dog has to bite, then a soldier has to kill, then three soldiers
//! are hurt to see pain, death and gibs.

use vstd::prelude::*;

use crate::episode::EpisodeMap;
use crate::fixed::whole_units;
use crate::probe::{as_bits, bits_of, blank_probe, failed_at, non_negative, recorded_health, Probe};
use crate::world::Vec3I32;

verus! {

pub const PROBE_VERSION: u32 = 6;

pub const PHASE_DOG: u32 = 0x71;

pub const PHASE_SOLDIER: u32 = 0x72;

pub const PHASE_DAMAGE_STATES: u32 = 0x73;

pub const PHASE_COMPLETE: u32 = 0x80;

pub const FAILURE_BAD_MAP: u32 = 1;

pub const FAILURE_BAD_SOURCE: u32 = 2;

pub const FAILURE_NO_CLEAR_POSITION: u32 = 3;

pub const FAILURE_DOG_TIMEOUT: u32 = 4;

pub const FAILURE_SOLDIER_TIMEOUT: u32 = 5;

pub const FAILURE_STATE_TIMEOUT: u32 = 6;

pub const SOLDIER_SOURCE: u16 = 21;

pub const DOG_SOURCE: u16 = 82;

pub const PAIN_SOURCE: u16 = 115;

pub const DEATH_SOURCE: u16 = 122;

pub const GIB_SOURCE: u16 = 124;

/// An entity of the map, as far as it is checked.
#[derive(Copy, Clone, Debug, PartialEq, Eq, Structural)]
pub struct SourceEntity {
    pub class_name: u8,
    pub spawn_flags: u16,
    pub origin: Vec3I32,
}

/// What a monster is doing, as far as the script tells it apart.
#[derive(Copy, Clone, Debug, PartialEq, Eq, Structural)]
pub enum MonsterAct {
    Pain,
    Death,
    Gib,
    Other,
}

/// A monster in one frame.
#[derive(Copy, Clone, Debug, PartialEq, Eq, Structural)]
pub struct MonsterSnapshot {
    pub active: bool,
    pub origin: Vec3I32,
    pub act: MonsterAct,
    /// It shows as a soldier's head.
    pub head_model: bool,
    pub corpse_finished: bool,
    pub frame: u16,
}

/// What the monsters did to the player in one frame.
#[derive(Copy, Clone, Debug, PartialEq, Eq, Structural)]
pub struct MonsterFrame {
    pub attacks: u16,
    pub player_damage: u16,
    pub player_killed: bool,
}

/// The monsters that the script watches.
#[derive(Copy, Clone, Debug, PartialEq, Eq)]
pub struct Sightings {
    pub dog: Option<MonsterSnapshot>,
    pub soldier: Option<MonsterSnapshot>,
    pub pain: Option<MonsterSnapshot>,
    pub death: Option<MonsterSnapshot>,
    pub gib: Option<MonsterSnapshot>,
}

#[derive(Copy, Clone, Debug, PartialEq, Eq, Structural)]
pub struct MonsterState {
    pub initialized: bool,
    pub phase: u32,
    pub phase_frames: u32,
    pub dog_eye: Vec3I32,
    pub soldier_eye: Vec3I32,
    pub dog_origin: Vec3I32,
    pub soldier_origin: Vec3I32,
    pub damage_applied: bool,
    pub pain_seen: bool,
    pub death_seen: bool,
    pub gib_seen: bool,
}

#[derive(Copy, Clone, Debug, PartialEq, Eq, Structural)]
pub struct MonsterProbe {
    pub probe: Probe,
    pub state: MonsterState,
}

/// What has to be done before a frame.
#[derive(Copy, Clone, Debug, PartialEq, Eq, Structural)]
pub enum Preparation {
    Nothing,
    /// Put the eye there and look at the monster, if it can be seen.
    Watch { source: u16, eye: Vec3I32 },
    /// Hurt the three soldiers, by `injuries`.
    Hurt,
}

/// How far from a monster the eye is put to watch it, in units.
pub const WATCH_UNITS: i32 = 80;

/// Points that one soldier is hurt by.
#[derive(Copy, Clone, Debug, PartialEq, Eq, Structural)]
pub struct Injury {
    pub source: u16,
    pub points: u16,
}

/// Who is hurt, and how much: one soldier is to feel pain, one to die and one
/// to burst.
pub fn injuries() -> (injuries: [Injury; 3])
    ensures
        injuries@ == seq![
            Injury { source: PAIN_SOURCE, points: 4 },
            Injury { source: DEATH_SOURCE, points: 30 },
            Injury { source: GIB_SOURCE, points: 70 },
        ],
{
    let injuries = [
        Injury { source: PAIN_SOURCE, points: 4 },
        Injury { source: DEATH_SOURCE, points: 30 },
        Injury { source: GIB_SOURCE, points: 70 },
    ];
    assert(injuries@ =~= seq![
        Injury { source: PAIN_SOURCE, points: 4 },
        Injury { source: DEATH_SOURCE, points: 30 },
        Injury { source: GIB_SOURCE, points: 70 },
    ]);
    injuries
}

pub open spec fn monster_failed(run: MonsterProbe, code: u32, entity: u16, detail: u32) -> MonsterProbe {
    MonsterProbe { probe: failed_at(run.probe, code, 1, entity, detail), ..run }
}

/// The entity is of the class, not left out of the easiest game, and stands
/// where it was authored.
pub open spec fn is_authored(entity: SourceEntity, class_name: u8, x: int, y: int, z: int) -> bool {
    &&& entity.class_name == class_name
    &&& entity.spawn_flags & 0x0100 == 0
    &&& entity.origin.x as int / 4096 == x
    &&& entity.origin.y as int / 4096 == y
    &&& entity.origin.z as int / 4096 == z
}

fn authored(entity: SourceEntity, class_name: u8, x: i32, y: i32, z: i32) -> (matches: bool)
    ensures
        matches == is_authored(entity, class_name, x as int, y as int, z as int),
{
    entity.class_name == class_name && entity.spawn_flags & 0x0100 == 0 && whole_units(
        entity.origin.x,
    ) == x && whole_units(entity.origin.y) == y && whole_units(entity.origin.z) == z
}

/// The first of the two sources that is not as authored, as entity and class.
pub open spec fn bad_source(
    soldier: Option<SourceEntity>,
    dog: Option<SourceEntity>,
    army_class: u8,
    dog_class: u8,
) -> Option<(u16, u32)> {
    match soldier {
        None => Some((SOLDIER_SOURCE, 0)),
        Some(first) => if !is_authored(first, army_class, 248, 2392, 40) {
            Some((SOLDIER_SOURCE, first.class_name as u32))
        } else {
            match dog {
                None => Some((DOG_SOURCE, 0)),
                Some(second) => if !is_authored(second, dog_class, 88, 1520, -200) {
                    Some((DOG_SOURCE, second.class_name as u32))
                } else {
                    None
                },
            }
        },
    }
}

/// The record of a script that begins.
pub open spec fn set_up(
    run: MonsterProbe,
    dog_eye: Vec3I32,
    soldier_eye: Vec3I32,
    dog_origin: Vec3I32,
    soldier_origin: Vec3I32,
) -> MonsterProbe {
    MonsterProbe {
        probe: Probe {
            phase: PHASE_DOG,
            maps_loaded: 2,
            maps_validated: 2,
            monster_present: 3,
            monster_state_bounds: 3,
            current_map: 1,
            map_loads: 1,
            failure_entity: DOG_SOURCE as u32,
            ..run.probe
        },
        state: MonsterState {
            initialized: true,
            phase: PHASE_DOG,
            dog_eye,
            soldier_eye,
            dog_origin,
            soldier_origin,
            ..run.state
        },
    }
}

/// What the run is after setting up.
pub open spec fn after_setup(
    run: MonsterProbe,
    map: EpisodeMap,
    bad: Option<(u16, u32)>,
    dog_eye: Option<Vec3I32>,
    soldier_eye: Option<Vec3I32>,
    dog: Option<Vec3I32>,
    soldier: Option<Vec3I32>,
) -> MonsterProbe {
    if map != EpisodeMap::E1M1 {
        monster_failed(run, FAILURE_BAD_MAP, 0, 0)
    } else if bad is Some {
        monster_failed(run, FAILURE_BAD_SOURCE, (bad->0).0, (bad->0).1)
    } else if dog_eye is None {
        monster_failed(run, FAILURE_NO_CLEAR_POSITION, DOG_SOURCE, 80)
    } else if soldier_eye is None {
        monster_failed(run, FAILURE_NO_CLEAR_POSITION, SOLDIER_SOURCE, 80)
    } else if dog is None {
        monster_failed(run, FAILURE_BAD_SOURCE, DOG_SOURCE, 1)
    } else if soldier is None {
        monster_failed(run, FAILURE_BAD_SOURCE, SOLDIER_SOURCE, 1)
    } else {
        set_up(run, dog_eye->0, soldier_eye->0, dog->0, soldier->0)
    }
}

/// The next part of the script begins.
pub open spec fn phase_begun(run: MonsterProbe, phase: u32, entity: u16) -> MonsterProbe {
    MonsterProbe {
        probe: Probe {
            phase,
            failure_entity: entity as u32,
            route_index: run.probe.route_index.wrapping_add(1),
            ..run.probe
        },
        state: MonsterState { phase, phase_frames: 0, ..run.state },
    }
}

/// What a watched monster adds to the record: it woke, it moved.
pub open spec fn watched(probe: Probe, seen: MonsterSnapshot, home: Vec3I32, bit: u32) -> Probe {
    Probe {
        target_edges: if seen.active {
            probe.target_edges | bit
        } else {
            probe.target_edges
        },
        monster_animated: if seen.origin != home {
            probe.monster_animated | bit
        } else {
            probe.monster_animated
        },
        ..probe
    }
}

pub open spec fn struck(frame: MonsterFrame) -> bool {
    frame.attacks != 0 && frame.player_damage != 0
}

pub open spec fn dog_phase(run: MonsterProbe, seen: Option<MonsterSnapshot>, health: i16, frame: MonsterFrame) -> MonsterProbe {
    match seen {
        None => monster_failed(run, FAILURE_BAD_SOURCE, DOG_SOURCE, 3),
        Some(dog) => {
            let probe = watched(run.probe, dog, run.state.dog_origin, 1);
            if struck(frame) {
                phase_begun(
                    MonsterProbe {
                        probe: Probe { monster_attack: probe.monster_attack | 1, ..probe },
                        ..run
                    },
                    PHASE_SOLDIER,
                    SOLDIER_SOURCE,
                )
            } else if run.state.phase_frames > 360 {
                monster_failed(
                    MonsterProbe { probe, ..run },
                    FAILURE_DOG_TIMEOUT,
                    DOG_SOURCE,
                    as_bits(health as int),
                )
            } else {
                MonsterProbe { probe, ..run }
            }
        },
    }
}

pub open spec fn soldier_phase(run: MonsterProbe, seen: Option<MonsterSnapshot>, health: i16, frame: MonsterFrame) -> MonsterProbe {
    match seen {
        None => monster_failed(run, FAILURE_BAD_SOURCE, SOLDIER_SOURCE, 3),
        Some(soldier) => {
            let looked = watched(run.probe, soldier, run.state.soldier_origin, 2);
            let probe = if struck(frame) {
                Probe { monster_attack: looked.monster_attack | 2, ..looked }
            } else {
                looked
            };
            if frame.player_killed && health <= 0 {
                phase_begun(
                    MonsterProbe { probe: Probe { player_state: 1, ..probe }, ..run },
                    PHASE_DAMAGE_STATES,
                    PAIN_SOURCE,
                )
            } else if run.state.phase_frames > 1800 {
                monster_failed(
                    MonsterProbe { probe, ..run },
                    FAILURE_SOLDIER_TIMEOUT,
                    SOLDIER_SOURCE,
                    non_negative(health as int),
                )
            } else {
                MonsterProbe { probe, ..run }
            }
        },
    }
}

pub open spec fn hurt_phase(run: MonsterProbe, seen: Sightings) -> MonsterProbe {
    if seen.pain is None {
        monster_failed(run, FAILURE_BAD_SOURCE, PAIN_SOURCE, 4)
    } else if seen.death is None {
        monster_failed(run, FAILURE_BAD_SOURCE, DEATH_SOURCE, 4)
    } else if seen.gib is None {
        monster_failed(run, FAILURE_BAD_SOURCE, GIB_SOURCE, 4)
    } else {
        let in_pain = seen.pain->0.act == MonsterAct::Pain;
        let pain_seen = run.state.pain_seen || in_pain;
        let death_seen = run.state.death_seen || seen.death->0.act == MonsterAct::Death;
        let gib_seen = run.state.gib_seen || seen.gib->0.act == MonsterAct::Gib
            && seen.gib->0.head_model;
        let state = MonsterState { pain_seen, death_seen, gib_seen, ..run.state };
        let probe = Probe {
            monster_pain: if pain_seen {
                1
            } else {
                run.probe.monster_pain
            },
            monster_death: if death_seen {
                1
            } else {
                run.probe.monster_death
            },
            boss: if gib_seen {
                1
            } else {
                run.probe.boss
            },
            ..run.probe
        };
        if pain_seen && !in_pain && seen.death->0.corpse_finished && gib_seen {
            MonsterProbe {
                probe: Probe {
                    state_ranges: 3,
                    valid_state_ranges: 3,
                    phase: PHASE_COMPLETE,
                    complete: 1,
                    ..probe
                },
                state,
            }
        } else if run.state.phase_frames > 240 {
            monster_failed(
                MonsterProbe { probe, state },
                FAILURE_STATE_TIMEOUT,
                DEATH_SOURCE,
                seen.death->0.frame as u32,
            )
        } else {
            MonsterProbe { probe, state }
        }
    }
}

/// The run after a frame.
pub open spec fn after_frame(run: MonsterProbe, seen: Sightings, health: i16, frame: MonsterFrame) -> MonsterProbe {
    if !run.state.initialized || run.probe.complete != 0 {
        run
    } else {
        let frames = run.state.phase_frames.wrapping_add(1);
        let counted = MonsterProbe {
            probe: Probe {
                total_frames: run.probe.total_frames.wrapping_add(1),
                stage_frames: frames,
                last_health: non_negative(health as int),
                ..run.probe
            },
            state: MonsterState { phase_frames: frames, ..run.state },
        };
        if run.state.phase == PHASE_DOG {
            dog_phase(counted, seen.dog, health, frame)
        } else if run.state.phase == PHASE_SOLDIER {
            soldier_phase(counted, seen.soldier, health, frame)
        } else if run.state.phase == PHASE_DAMAGE_STATES {
            hurt_phase(counted, seen)
        } else {
            counted
        }
    }
}

impl MonsterProbe {
    pub fn new() -> (run: Self)
        ensures
            run.probe == blank_probe(PROBE_VERSION, 0, 0),
            !run.state.initialized,
            run.state.phase == 0,
            run.state.phase_frames == 0,
            !run.state.damage_applied,
            !run.state.pain_seen,
            !run.state.death_seen,
            !run.state.gib_seen,
    {
        let origin = Vec3I32 { x: 0, y: 0, z: 0 };
        MonsterProbe {
            probe: Probe::new(PROBE_VERSION, 0, 0),
            state: MonsterState {
                initialized: false,
                phase: 0,
                phase_frames: 0,
                dog_eye: origin,
                soldier_eye: origin,
                dog_origin: origin,
                soldier_origin: origin,
                damage_applied: false,
                pain_seen: false,
                death_seen: false,
                gib_seen: false,
            },
        }
    }

    /// Check the map and begin with the dog. The two entities of the map, the
    /// places from which they can be seen, and where they are; whether the
    /// script has begun, with the eye at the dog's place.
    pub fn setup(
        &mut self,
        map: EpisodeMap,
        classes: (u8, u8),
        entities: (Option<SourceEntity>, Option<SourceEntity>),
        eyes: (Option<Vec3I32>, Option<Vec3I32>),
        origins: (Option<Vec3I32>, Option<Vec3I32>),
    ) -> (begun: bool)
        ensures
            *final(self) == after_setup(
                *old(self),
                map,
                bad_source(entities.0, entities.1, classes.0, classes.1),
                eyes.1,
                eyes.0,
                origins.1,
                origins.0,
            ),
            begun == (map == EpisodeMap::E1M1 && bad_source(
                entities.0,
                entities.1,
                classes.0,
                classes.1,
            ) is None && eyes.0 is Some && eyes.1 is Some && origins.0 is Some && origins.1
                is Some),
    {
        if map != EpisodeMap::E1M1 {
            self.probe.fail_at(FAILURE_BAD_MAP, 1, 0, 0);
            return false;
        }
        match entities.0 {
            None => {
                self.probe.fail_at(FAILURE_BAD_SOURCE, 1, SOLDIER_SOURCE, 0);
                return false;
            },
            Some(entity) => {
                if !authored(entity, classes.0, 248, 2392, 40) {
                    self.probe.fail_at(
                        FAILURE_BAD_SOURCE,
                        1,
                        SOLDIER_SOURCE,
                        entity.class_name as u32,
                    );
                    return false;
                }
            },
        }
        match entities.1 {
            None => {
                self.probe.fail_at(FAILURE_BAD_SOURCE, 1, DOG_SOURCE, 0);
                return false;
            },
            Some(entity) => {
                if !authored(entity, classes.1, 88, 1520, -200) {
                    self.probe.fail_at(
                        FAILURE_BAD_SOURCE,
                        1,
                        DOG_SOURCE,
                        entity.class_name as u32,
                    );
                    return false;
                }
            },
        }
        let dog_eye: Vec3I32 = match eyes.1 {
            Some(eye) => eye,
            None => {
                self.probe.fail_at(FAILURE_NO_CLEAR_POSITION, 1, DOG_SOURCE, 80);
                return false;
            },
        };
        let soldier_eye: Vec3I32 = match eyes.0 {
            Some(eye) => eye,
            None => {
                self.probe.fail_at(FAILURE_NO_CLEAR_POSITION, 1, SOLDIER_SOURCE, 80);
                return false;
            },
        };
        let dog: Vec3I32 = match origins.1 {
            Some(origin) => origin,
            None => {
                self.probe.fail_at(FAILURE_BAD_SOURCE, 1, DOG_SOURCE, 1);
                return false;
            },
        };
        let soldier: Vec3I32 = match origins.0 {
            Some(origin) => origin,
            None => {
                self.probe.fail_at(FAILURE_BAD_SOURCE, 1, SOLDIER_SOURCE, 1);
                return false;
            },
        };
        self.state.initialized = true;
        self.state.phase = PHASE_DOG;
        self.state.dog_eye = dog_eye;
        self.state.soldier_eye = soldier_eye;
        self.state.dog_origin = dog;
        self.state.soldier_origin = soldier;
        self.probe.phase = PHASE_DOG;
        self.probe.maps_loaded = 2;
        self.probe.maps_validated = 2;
        self.probe.monster_present = 3;
        self.probe.monster_state_bounds = 3;
        self.probe.current_map = 1;
        self.probe.map_loads = 1;
        self.probe.failure_entity = DOG_SOURCE as u32;
        true
    }

    /// What has to be done before the next frame.
    pub fn prepare(&self) -> (preparation: Preparation)
        ensures
            preparation == if !self.state.initialized {
                Preparation::Nothing
            } else if self.state.phase == PHASE_DOG {
                Preparation::Watch { source: DOG_SOURCE, eye: self.state.dog_eye }
            } else if self.state.phase == PHASE_SOLDIER {
                Preparation::Watch { source: SOLDIER_SOURCE, eye: self.state.soldier_eye }
            } else if self.state.phase == PHASE_DAMAGE_STATES && !self.state.damage_applied {
                Preparation::Hurt
            } else {
                Preparation::Nothing
            },
    {
        if !self.state.initialized {
            return Preparation::Nothing;
        }
        if self.state.phase == PHASE_DOG {
            return Preparation::Watch { source: DOG_SOURCE, eye: self.state.dog_eye };
        }
        if self.state.phase == PHASE_SOLDIER {
            return Preparation::Watch { source: SOLDIER_SOURCE, eye: self.state.soldier_eye };
        }
        if self.state.phase == PHASE_DAMAGE_STATES && !self.state.damage_applied {
            return Preparation::Hurt;
        }
        Preparation::Nothing
    }

    /// The three soldiers were hurt, or one of them could not be.
    pub fn hurt(&mut self, all_hit: bool)
        ensures
            *final(self) == if all_hit {
                MonsterProbe {
                    state: MonsterState { damage_applied: true, ..old(self).state },
                    ..*old(self)
                }
            } else {
                monster_failed(*old(self), FAILURE_BAD_SOURCE, PAIN_SOURCE, 2)
            },
    {
        if all_hit {
            self.state.damage_applied = true;
        } else {
            self.probe.fail_at(FAILURE_BAD_SOURCE, 1, PAIN_SOURCE, 2);
        }
    }

    fn transition(&mut self, phase: u32, entity: u16)
        ensures
            *final(self) == phase_begun(*old(self), phase, entity),
    {
        self.state.phase = phase;
        self.state.phase_frames = 0;
        self.probe.phase = phase;
        self.probe.failure_entity = entity as u32;
        self.probe.route_index = self.probe.route_index.wrapping_add(1);
    }

    fn watch(&mut self, seen: MonsterSnapshot, home: Vec3I32, bit: u32)
        ensures
            *final(self) == (MonsterProbe {
                probe: watched(old(self).probe, seen, home, bit),
                ..*old(self)
            }),
    {
        if seen.active {
            self.probe.target_edges = self.probe.target_edges | bit;
        }
        if seen.origin != home {
            self.probe.monster_animated = self.probe.monster_animated | bit;
        }
    }

    fn observe_dog(&mut self, seen: Option<MonsterSnapshot>, health: i16, frame: MonsterFrame)
        ensures
            *final(self) == dog_phase(*old(self), seen, health, frame),
    {
        let dog: MonsterSnapshot = match seen {
            Some(dog) => dog,
            None => {
                self.probe.fail_at(FAILURE_BAD_SOURCE, 1, DOG_SOURCE, 3);
                return ;
            },
        };
        self.watch(dog, self.state.dog_origin, 1);
        if frame.attacks != 0 && frame.player_damage != 0 {
            self.probe.monster_attack = self.probe.monster_attack | 1;
            self.transition(PHASE_SOLDIER, SOLDIER_SOURCE);
        } else if self.state.phase_frames > 360 {
            self.probe.fail_at(FAILURE_DOG_TIMEOUT, 1, DOG_SOURCE, bits_of(health as i32));
        }
    }

    fn observe_soldier(&mut self, seen: Option<MonsterSnapshot>, health: i16, frame: MonsterFrame)
        ensures
            *final(self) == soldier_phase(*old(self), seen, health, frame),
    {
        let soldier: MonsterSnapshot = match seen {
            Some(soldier) => soldier,
            None => {
                self.probe.fail_at(FAILURE_BAD_SOURCE, 1, SOLDIER_SOURCE, 3);
                return ;
            },
        };
        self.watch(soldier, self.state.soldier_origin, 2);
        if frame.attacks != 0 && frame.player_damage != 0 {
            self.probe.monster_attack = self.probe.monster_attack | 2;
        }
        if frame.player_killed && health <= 0 {
            self.probe.player_state = 1;
            self.transition(PHASE_DAMAGE_STATES, PAIN_SOURCE);
        } else if self.state.phase_frames > 1800 {
            self.probe.fail_at(
                FAILURE_SOLDIER_TIMEOUT,
                1,
                SOLDIER_SOURCE,
                recorded_health(health),
            );
        }
    }

    fn observe_hurt(&mut self, seen: Sightings)
        ensures
            *final(self) == hurt_phase(*old(self), seen),
    {
        let pain: MonsterSnapshot = match seen.pain {
            Some(pain) => pain,
            None => {
                self.probe.fail_at(FAILURE_BAD_SOURCE, 1, PAIN_SOURCE, 4);
                return ;
            },
        };
        let death: MonsterSnapshot = match seen.death {
            Some(death) => death,
            None => {
                self.probe.fail_at(FAILURE_BAD_SOURCE, 1, DEATH_SOURCE, 4);
                return ;
            },
        };
        let gib: MonsterSnapshot = match seen.gib {
            Some(gib) => gib,
            None => {
                self.probe.fail_at(FAILURE_BAD_SOURCE, 1, GIB_SOURCE, 4);
                return ;
            },
        };
        let in_pain: bool = pain.act == MonsterAct::Pain;
        if in_pain {
            self.state.pain_seen = true;
        }
        if death.act == MonsterAct::Death {
            self.state.death_seen = true;
        }
        if gib.act == MonsterAct::Gib && gib.head_model {
            self.state.gib_seen = true;
        }
        if self.state.pain_seen {
            self.probe.monster_pain = 1;
        }
        if self.state.death_seen {
            self.probe.monster_death = 1;
        }
        if self.state.gib_seen {
            self.probe.boss = 1;
        }
        if self.state.pain_seen && !in_pain && death.corpse_finished && self.state.gib_seen {
            self.probe.state_ranges = 3;
            self.probe.valid_state_ranges = 3;
            self.probe.phase = PHASE_COMPLETE;
            self.probe.complete = 1;
        } else if self.state.phase_frames > 240 {
            self.probe.fail_at(FAILURE_STATE_TIMEOUT, 1, DEATH_SOURCE, death.frame as u32);
        }
    }

    /// One frame of the script.
    pub fn observe(&mut self, seen: Sightings, health: i16, frame: MonsterFrame)
        ensures
            *final(self) == after_frame(*old(self), seen, health, frame),
    {
        if !self.state.initialized || self.probe.complete != 0 {
            return ;
        }
        self.state.phase_frames = self.state.phase_frames.wrapping_add(1);
        self.probe.total_frames = self.probe.total_frames.wrapping_add(1);
        self.probe.stage_frames = self.state.phase_frames;
        self.probe.last_health = recorded_health(health);
        if self.state.phase == PHASE_DOG {
            self.observe_dog(seen.dog, health, frame);
        } else if self.state.phase == PHASE_SOLDIER {
            self.observe_soldier(seen.soldier, health, frame);
        } else if self.state.phase == PHASE_DAMAGE_STATES {
            self.observe_hurt(seen);
        }
    }
}

/// The script goes forward only: dog, soldier, hurt.
pub proof fn phases_come_in_order(run: MonsterProbe, seen: Sightings, health: i16, frame: MonsterFrame)
    ensures
        ({
            let after = after_frame(run, seen, health, frame).state.phase;
            let before = run.state.phase;
            ||| after == before
            ||| before == PHASE_DOG && after == PHASE_SOLDIER
            ||| before == PHASE_SOLDIER && after == PHASE_DAMAGE_STATES
        }),
{
}

/// A script is complete only after pain, which has passed, and a gibbed head
/// have been seen.
pub proof fn completion_needs_the_sightings(run: MonsterProbe, seen: Sightings, health: i16, frame: MonsterFrame)
    requires
        run.probe.complete == 0,
        after_frame(run, seen, health, frame).probe.complete != 0,
    ensures
        after_frame(run, seen, health, frame).state.pain_seen,
        after_frame(run, seen, health, frame).state.gib_seen,
        run.state.phase == PHASE_DAMAGE_STATES,
{
}

/// A source is the authored one only with its class, without the flag that keeps
/// it out of easy games, and at its place on all three axes.
pub proof fn sources_are_checked_on_every_axis(
    entity: SourceEntity,
    class_name: u8,
    x: int,
    y: int,
    z: int,
)
    requires
        is_authored(entity, class_name, x, y, z),
    ensures
        entity.class_name == class_name,
        entity.spawn_flags & 0x0100 == 0,
        4096 * x <= entity.origin.x < 4096 * x + 4096,
        4096 * y <= entity.origin.y < 4096 * y + 4096,
        4096 * z <= entity.origin.z < 4096 * z + 4096,
{
}

/// The dog and the soldier are each watched from their own place, and each has a
/// home of its own.
pub proof fn the_two_monsters_are_kept_apart(
    run: MonsterProbe,
    dog_eye: Vec3I32,
    soldier_eye: Vec3I32,
    dog: Vec3I32,
    soldier: Vec3I32,
)
    ensures
        ({
            let after = after_setup(
                run,
                EpisodeMap::E1M1,
                None,
                Some(dog_eye),
                Some(soldier_eye),
                Some(dog),
                Some(soldier),
            );
            &&& after.state.dog_eye == dog_eye && after.state.soldier_eye == soldier_eye
            &&& after.state.dog_origin == dog && after.state.soldier_origin == soldier
            &&& after.state.initialized && after.state.phase == PHASE_DOG && after.probe.phase
                == PHASE_DOG
            &&& after.probe.failure_code == run.probe.failure_code
        }),
{
}

/// Whatever is missing in the setting up fails it, in the order of the checks.
pub proof fn setups_fail_for_cause(
    run: MonsterProbe,
    map: EpisodeMap,
    bad: Option<(u16, u32)>,
    dog_eye: Option<Vec3I32>,
    soldier_eye: Option<Vec3I32>,
    dog: Option<Vec3I32>,
    soldier: Option<Vec3I32>,
)
    requires
        run.probe.failure_code == 0,
        !run.state.initialized,
    ensures
        ({
            let after = after_setup(run, map, bad, dog_eye, soldier_eye, dog, soldier);
            let fine = map == EpisodeMap::E1M1 && bad is None && dog_eye is Some
                && soldier_eye is Some && dog is Some && soldier is Some;
            &&& after.state.initialized <==> fine
            &&& map != EpisodeMap::E1M1 ==> after.probe.failure_code == FAILURE_BAD_MAP
            &&& map == EpisodeMap::E1M1 && bad is Some ==> after.probe.failure_code
                == FAILURE_BAD_SOURCE && after.probe.failure_entity == (bad->0).0
                && after.probe.failure_detail == (bad->0).1
            &&& map == EpisodeMap::E1M1 && bad is None && dog_eye is None
                ==> after.probe.failure_code == FAILURE_NO_CLEAR_POSITION
                && after.probe.failure_entity == DOG_SOURCE
            &&& map == EpisodeMap::E1M1 && bad is None && dog_eye is Some && soldier_eye is None
                ==> after.probe.failure_code == FAILURE_NO_CLEAR_POSITION
                && after.probe.failure_entity == SOLDIER_SOURCE
        }),
{
}

/// Of a watched monster its waking and its moving are noted apart, under its own
/// bit, and nothing else.
pub proof fn waking_and_moving_are_noted_apart(
    probe: Probe,
    seen: MonsterSnapshot,
    home: Vec3I32,
    bit: u32,
)
    ensures
        ({
            let after = watched(probe, seen, home, bit);
            &&& seen.active ==> after.target_edges == probe.target_edges | bit
            &&& !seen.active ==> after.target_edges == probe.target_edges
            &&& seen.origin != home ==> after.monster_animated == probe.monster_animated | bit
            &&& seen.origin == home ==> after.monster_animated == probe.monster_animated
            &&& after == (Probe {
                target_edges: after.target_edges,
                monster_animated: after.monster_animated,
                ..probe
            })
        }),
{
}

/// Pain, death and gib are each seen on the soldier that was hurt for it, and
/// what was seen once stays seen.
pub proof fn each_soldier_shows_its_own_state(
    run: MonsterProbe,
    pain: MonsterSnapshot,
    death: MonsterSnapshot,
    gib: MonsterSnapshot,
    seen: Sightings,
)
    requires
        seen.pain == Some(pain),
        seen.death == Some(death),
        seen.gib == Some(gib),
    ensures
        ({
            let after = hurt_phase(run, seen).state;
            &&& after.pain_seen <==> run.state.pain_seen || pain.act is Pain
            &&& after.death_seen <==> run.state.death_seen || death.act is Death
            &&& after.gib_seen <==> run.state.gib_seen || (gib.act is Gib && gib.head_model)
        }),
{
}

/// The soldier is looked at before the dog, each at its own place; what is wrong
/// is named by its source, with the class that was found there.
pub proof fn wrong_sources_are_named(
    soldier: Option<SourceEntity>,
    dog: Option<SourceEntity>,
    army_class: u8,
    dog_class: u8,
)
    ensures
        ({
            let bad = bad_source(soldier, dog, army_class, dog_class);
            let first = soldier matches Some(entity) && is_authored(
                entity,
                army_class,
                248,
                2392,
                40,
            );
            let second = dog matches Some(entity) && is_authored(entity, dog_class, 88, 1520, -200);
            &&& bad is None <==> first && second
            &&& !first ==> (bad->0).0 == SOLDIER_SOURCE && (bad->0).1 == (match soldier {
                Some(entity) => entity.class_name as int,
                None => 0,
            })
            &&& first && !second ==> (bad->0).0 == DOG_SOURCE && (bad->0).1 == (match dog {
                Some(entity) => entity.class_name as int,
                None => 0,
            })
        }),
{
}

} // verus!
