//! A scripted look at a monster that a trigger makes jump.

use vstd::prelude::*;

use crate::episode::EpisodeMap;
use crate::fixed::{sat_i32, saturating_add_i32, saturating_sub_i32, whole_units};
use crate::input_policy::InputFrame;
use crate::probe::{as_bits, bits_of, blank_probe, failed_at, Probe};
use crate::world::Vec3I32;

verus! {

pub const PROBE_VERSION: u32 = 13;

pub const PHASE_FLIGHT: u32 = 0xb0;

pub const PHASE_COMPLETE: u32 = 0xb1;

pub const FAILURE_BAD_MAP: u32 = 1;

pub const FAILURE_BAD_SOURCE: u32 = 2;

pub const FAILURE_TIMEOUT: u32 = 4;

pub const MAX_FRAMES: u32 = 360;

/// All three things have been seen.
pub const REQUIRED: u32 = 7;

/// What has been seen of the jump.
#[derive(Copy, Clone, Debug, PartialEq, Eq, Structural)]
pub struct JumpEvidence {
    pub triggered: bool,
    pub rose: bool,
    pub landed: bool,
}

/// The evidence as bits of the record.
pub open spec fn evidence_bits(evidence: JumpEvidence) -> u32 {
    ((if evidence.triggered {
        1int
    } else {
        0
    }) + (if evidence.rose {
        2int
    } else {
        0
    }) + (if evidence.landed {
        4int
    } else {
        0
    })) as u32
}

fn bits_of_evidence(evidence: JumpEvidence) -> (bits: u32)
    ensures
        bits == evidence_bits(evidence),
{
    let triggered: u32 = if evidence.triggered {
        1
    } else {
        0
    };
    let rose: u32 = if evidence.rose {
        2
    } else {
        0
    };
    let landed: u32 = if evidence.landed {
        4
    } else {
        0
    };
    triggered + rose + landed
}

/// The monster in one frame.
#[derive(Copy, Clone, Debug, PartialEq, Eq, Structural)]
pub struct JumpSnapshot {
    pub origin: Vec3I32,
    pub leaping: bool,
    pub forced_jump: bool,
    pub frame: u16,
}

#[derive(Copy, Clone, Debug, PartialEq, Eq, Structural)]
pub struct JumpProbe {
    pub probe: Probe,
    pub source: u16,
    /// Where the monster stood before it was put in front of the trigger.
    pub original: Vec3I32,
    pub start_z: i32,
    pub evidence: JumpEvidence,
}

pub fn initial_map() -> (map: EpisodeMap)
    ensures
        map == EpisodeMap::E1M6,
{
    EpisodeMap::E1M6
}

/// The player stands still.
pub fn controls() -> (frame: InputFrame)
    ensures
        frame.movement@ == seq![0i16, 0i16],
        frame.look@ == seq![0i16, 0i16],
        frame.held == 0,
        frame.pressed == 0,
        frame.menu_pressed == 0,
{
    InputFrame::default()
}

/// What one more look adds.
pub open spec fn evidence_after(evidence: JumpEvidence, snapshot: JumpSnapshot, start_z: int) -> JumpEvidence {
    let triggered = evidence.triggered || snapshot.leaping && snapshot.forced_jump;
    let rose = evidence.rose || triggered && snapshot.origin.z > sat_i32(start_z + 8192);
    let landed = evidence.landed || rose && !snapshot.leaping && !snapshot.forced_jump;
    JumpEvidence { triggered, rose, landed }
}

pub open spec fn jump_failed(run: JumpProbe, code: u32, entity: u16, detail: u32) -> JumpProbe {
    JumpProbe { probe: failed_at(run.probe, code, 6, entity, detail), ..run }
}

/// The frame has been counted.
pub open spec fn frame_counted(run: JumpProbe) -> JumpProbe {
    let frames = run.probe.total_frames.wrapping_add(1);
    JumpProbe { probe: Probe { total_frames: frames, stage_frames: frames, ..run.probe }, ..run }
}

/// The first sight of the forced jump, at which the monster's place has to be
/// given back.
pub open spec fn first_sight(run: JumpProbe, snapshot: JumpSnapshot) -> bool {
    snapshot.leaping && snapshot.forced_jump && !run.evidence.triggered
}

/// The run after one look at the monster.
pub open spec fn after_look(run: JumpProbe, snapshot: Option<JumpSnapshot>, restored: bool) -> JumpProbe {
    if run.probe.failure_code != 0 || run.probe.complete != 0 {
        run
    } else {
        let counted = frame_counted(run);
        match snapshot {
            None => jump_failed(counted, FAILURE_BAD_SOURCE, run.source, 2),
            Some(seen) => if first_sight(run, seen) && !restored {
                jump_failed(counted, FAILURE_BAD_SOURCE, run.source, 3)
            } else {
                let evidence = evidence_after(run.evidence, seen, run.start_z as int);
                let bits = evidence_bits(evidence);
                let looked = JumpProbe {
                    probe: Probe {
                        monster_animated: bits,
                        monster_state_bounds: as_bits(seen.origin.z as int / 4096),
                        monster_attack: ((if seen.leaping {
                            1int
                        } else {
                            0
                        }) + (if seen.forced_jump {
                            2int
                        } else {
                            0
                        })) as u32,
                        monster_pain: as_bits(seen.origin.x as int / 4096),
                        monster_death: as_bits(seen.origin.y as int / 4096),
                        state_ranges: seen.frame as u32,
                        valid_state_ranges: REQUIRED,
                        ..counted.probe
                    },
                    evidence,
                    ..counted
                };
                if bits == REQUIRED {
                    JumpProbe {
                        probe: Probe {
                            player_state: bits,
                            phase: PHASE_COMPLETE,
                            complete: 1,
                            ..looked.probe
                        },
                        ..looked
                    }
                } else if counted.probe.total_frames > MAX_FRAMES {
                    jump_failed(looked, FAILURE_TIMEOUT, run.source, bits)
                } else {
                    looked
                }
            },
        }
    }
}

impl JumpProbe {
    pub fn new() -> (run: Self)
        ensures
            run.probe == blank_probe(PROBE_VERSION, PHASE_FLIGHT, u32::MAX),
            run.source == u16::MAX,
            run.start_z == 0,
            !run.evidence.triggered,
            !run.evidence.rose,
            !run.evidence.landed,
    {
        JumpProbe {
            probe: Probe::new(PROBE_VERSION, PHASE_FLIGHT, u32::MAX),
            source: u16::MAX,
            original: Vec3I32 { x: 0, y: 0, z: 0 },
            start_z: 0,
            evidence: JumpEvidence { triggered: false, rose: false, landed: false },
        }
    }

    /// Begin the look. `staged` is the monster that was put in front of the
    /// trigger and where it stood; `present` says that it can be seen. Where to
    /// put the eye, behind the monster, if all is well.
    pub fn setup(&mut self, map: EpisodeMap, staged: Option<(u16, Vec3I32)>, present: bool) -> (eye:
        Option<Vec3I32>)
        ensures
            ({
                let before = *old(self);
                match staged {
                    Some((source, original)) if map == EpisodeMap::E1M6 && present => {
                        &&& eye == Some(
                            Vec3I32 {
                                x: sat_i32(original.x - 393216) as i32,
                                y: original.y,
                                z: sat_i32(original.z + 102400) as i32,
                            },
                        )
                        &&& *final(self) == (JumpProbe {
                            probe: Probe {
                                maps_loaded: 0x40,
                                maps_validated: 0x40,
                                current_map: 6,
                                map_loads: 1,
                                route_index: source as u32,
                                monster_present: 1,
                                transitions: 192,
                                weapon_selected: as_bits(original.x as int / 4096),
                                weapon_fired: as_bits(original.y as int / 4096),
                                weapon_animated: as_bits(original.z as int / 4096),
                                ..before.probe
                            },
                            source,
                            original,
                            start_z: original.z,
                            evidence: JumpEvidence { triggered: false, rose: false, landed: false },
                        })
                    },
                    _ => {
                        &&& eye is None
                        &&& *final(self) == if map != EpisodeMap::E1M6 {
                            jump_failed(before, FAILURE_BAD_MAP, 0, 0)
                        } else {
                            match staged {
                                None => jump_failed(before, FAILURE_BAD_SOURCE, 0, 0),
                                Some((source, _)) => jump_failed(
                                    before,
                                    FAILURE_BAD_SOURCE,
                                    source,
                                    1,
                                ),
                            }
                        }
                    },
                }
            }),
    {
        if map != EpisodeMap::E1M6 {
            self.probe.fail_at(FAILURE_BAD_MAP, 6, 0, 0);
            return None;
        }
        let (source, original) = match staged {
            Some(found) => found,
            None => {
                self.probe.fail_at(FAILURE_BAD_SOURCE, 6, 0, 0);
                return None;
            },
        };
        if !present {
            self.probe.fail_at(FAILURE_BAD_SOURCE, 6, source, 1);
            return None;
        }
        self.source = source;
        self.original = original;
        self.start_z = original.z;
        self.evidence = JumpEvidence { triggered: false, rose: false, landed: false };
        self.probe.maps_loaded = 0x40;
        self.probe.maps_validated = 0x40;
        self.probe.current_map = 6;
        self.probe.map_loads = 1;
        self.probe.route_index = source as u32;
        self.probe.monster_present = 1;
        self.probe.transitions = 192;
        self.probe.weapon_selected = bits_of(whole_units(original.x));
        self.probe.weapon_fired = bits_of(whole_units(original.y));
        self.probe.weapon_animated = bits_of(whole_units(original.z));
        Some(
            Vec3I32 {
                x: saturating_sub_i32(original.x, 393216),
                y: original.y,
                z: saturating_add_i32(original.z, 102400),
            },
        )
    }

    /// Whether the monster's place has to be given back in this frame.
    pub fn restores(&self, snapshot: Option<JumpSnapshot>) -> (restore: bool)
        ensures
            restore == (self.probe.failure_code == 0 && self.probe.complete == 0 && match snapshot {
                Some(seen) => first_sight(*self, seen),
                None => false,
            }),
    {
        if self.probe.failure_code != 0 || self.probe.complete != 0 {
            return false;
        }
        match snapshot {
            Some(seen) => seen.leaping && seen.forced_jump && !self.evidence.triggered,
            None => false,
        }
    }

    /// One look at the monster. `restored` says that its place could be given
    /// back; it counts only where that was asked for.
    pub fn observe(&mut self, snapshot: Option<JumpSnapshot>, restored: bool)
        ensures
            *final(self) == after_look(*old(self), snapshot, restored),
    {
        if self.probe.failure_code != 0 || self.probe.complete != 0 {
            return ;
        }
        let frames: u32 = self.probe.total_frames.wrapping_add(1);
        self.probe.total_frames = frames;
        self.probe.stage_frames = frames;
        let seen: JumpSnapshot = match snapshot {
            Some(seen) => seen,
            None => {
                self.probe.fail_at(FAILURE_BAD_SOURCE, 6, self.source, 2);
                return ;
            },
        };
        if seen.leaping && seen.forced_jump {
            if !self.evidence.triggered && !restored {
                self.probe.fail_at(FAILURE_BAD_SOURCE, 6, self.source, 3);
                return ;
            }
            self.evidence.triggered = true;
        }
        if self.evidence.triggered && seen.origin.z > saturating_add_i32(self.start_z, 8192) {
            self.evidence.rose = true;
        }
        if self.evidence.rose && !seen.leaping && !seen.forced_jump {
            self.evidence.landed = true;
        }
        let bits: u32 = bits_of_evidence(self.evidence);
        let leaping: u32 = if seen.leaping {
            1
        } else {
            0
        };
        let forced: u32 = if seen.forced_jump {
            2
        } else {
            0
        };
        self.probe.monster_animated = bits;
        self.probe.monster_state_bounds = bits_of(whole_units(seen.origin.z));
        self.probe.monster_attack = leaping + forced;
        self.probe.monster_pain = bits_of(whole_units(seen.origin.x));
        self.probe.monster_death = bits_of(whole_units(seen.origin.y));
        self.probe.state_ranges = seen.frame as u32;
        self.probe.valid_state_ranges = REQUIRED;
        if bits == REQUIRED {
            self.probe.player_state = bits;
            self.probe.phase = PHASE_COMPLETE;
            self.probe.complete = 1;
        } else if frames > MAX_FRAMES {
            self.probe.fail_at(FAILURE_TIMEOUT, 6, self.source, bits);
        }
    }
}

/// The evidence comes in order: a landing is seen only after a rise, and a
/// rise only after the trigger.
pub open spec fn ordered(evidence: JumpEvidence) -> bool {
    &&& evidence.rose ==> evidence.triggered
    &&& evidence.landed ==> evidence.rose
}

/// No look takes evidence back, and the order is kept.
pub proof fn evidence_grows_in_order(evidence: JumpEvidence, snapshot: JumpSnapshot, start_z: int)
    requires
        ordered(evidence),
    ensures
        ({
            let after = evidence_after(evidence, snapshot, start_z);
            &&& ordered(after)
            &&& evidence.triggered ==> after.triggered
            &&& evidence.rose ==> after.rose
            &&& evidence.landed ==> after.landed
        }),
{
}

/// The run is complete only with all of the evidence, and a complete or failed
/// run changes no more.
pub proof fn completion_needs_all_evidence(run: JumpProbe, snapshot: Option<JumpSnapshot>, restored: bool)
    requires
        run.probe.complete == 0,
    ensures
        ({
            let after = after_look(run, snapshot, restored);
            &&& after.probe.complete != 0 ==> after.evidence.triggered && after.evidence.rose
                && after.evidence.landed
            &&& after.probe.complete != 0 || after.probe.failure_code != 0 ==> after_look(
                after,
                snapshot,
                restored,
            ) == after
        }),
{
}

/// A look is noted in full: the place on each axis in whole units, the frame, and
/// the two marks of a leap.
pub proof fn looks_are_noted_on_every_axis(run: JumpProbe, seen: JumpSnapshot)
    requires
        run.probe.failure_code == 0,
        run.probe.complete == 0,
    ensures
        ({
            let probe = after_look(run, Some(seen), true).probe;
            let x = seen.origin.x as int / 4096;
            let y = seen.origin.y as int / 4096;
            let z = seen.origin.z as int / 4096;
            &&& probe.monster_pain == x % 0x1_0000_0000
            &&& probe.monster_death == y % 0x1_0000_0000
            &&& probe.monster_state_bounds == z % 0x1_0000_0000
            &&& probe.state_ranges == seen.frame
            &&& probe.monster_attack % 2 == 1 <==> seen.leaping
            &&& probe.monster_attack / 2 == 1 <==> seen.forced_jump
        }),
{
}

/// The evidence is kept as three bits: triggered, risen, landed.
pub proof fn evidence_has_three_bits(evidence: JumpEvidence)
    ensures
        evidence_bits(evidence) < 8,
        evidence_bits(evidence) % 2 == 1 <==> evidence.triggered,
        evidence_bits(evidence) / 2 % 2 == 1 <==> evidence.rose,
        evidence_bits(evidence) / 4 == 1 <==> evidence.landed,
{
}

/// A jump begins with a forced leap, counts as risen more than two units above
/// its start, and as landed when the leap is over.
pub proof fn jumps_begin_rise_and_land(snapshot: JumpSnapshot, start_z: int)
    requires
        -0x4000_0000 <= start_z <= 0x4000_0000,
    ensures
        ({
            let none = JumpEvidence { triggered: false, rose: false, landed: false };
            let begun = JumpEvidence { triggered: true, rose: false, landed: false };
            let risen = JumpEvidence { triggered: true, rose: true, landed: false };
            &&& evidence_after(none, snapshot, start_z).triggered <==> snapshot.leaping
                && snapshot.forced_jump
            &&& evidence_after(begun, snapshot, start_z).rose <==> snapshot.origin.z - start_z > 2
                * 4096
            &&& evidence_after(risen, snapshot, start_z).landed <==> !snapshot.leaping
                && !snapshot.forced_jump
        }),
{
}

} // verus!
