//! A record of evidence that a scripted run leaves in memory.
//!
//! Its 34 words are read from outside the machine, so every script uses the
//! same ones, some of them for things of its own.

use vstd::prelude::*;

use crate::fixed::saturating_sub_i32;
use crate::fixed::{sat_i32, whole_units};
use crate::world::Vec3I32;

verus! {

/// Marks the record.
pub const PROBE_MAGIC: u32 = 0x5150_5358;

pub const PHASE_ERROR: u32 = 0xff;

#[derive(Copy, Clone, Debug, PartialEq, Eq, Structural)]
pub struct Probe {
    pub magic: u32,
    pub version: u32,
    pub complete: u32,
    pub phase: u32,
    pub failure_code: u32,
    pub failure_map: u32,
    pub failure_entity: u32,
    pub failure_detail: u32,
    pub total_frames: u32,
    pub maps_loaded: u32,
    pub maps_validated: u32,
    pub transitions: u32,
    pub weapon_selected: u32,
    pub weapon_fired: u32,
    pub weapon_animated: u32,
    pub monster_present: u32,
    pub monster_animated: u32,
    pub monster_state_bounds: u32,
    pub monster_attack: u32,
    pub monster_pain: u32,
    pub monster_death: u32,
    pub boss: u32,
    pub current_map: u32,
    pub route_index: u32,
    pub last_health: u32,
    pub state_ranges: u32,
    pub valid_state_ranges: u32,
    pub map_loads: u32,
    pub stage_frames: u32,
    pub shock_count: u32,
    pub intermission_state: u32,
    pub player_state: u32,
    pub weapon_pickups: u32,
    pub target_edges: u32,
}

/// A record before anything has happened: no map, and nothing seen.
pub open spec fn blank_probe(version: u32, phase: u32, failure_entity: u32) -> Probe {
    Probe {
        magic: PROBE_MAGIC,
        version,
        complete: 0,
        phase,
        failure_code: 0,
        failure_map: 0,
        failure_entity,
        failure_detail: 0,
        total_frames: 0,
        maps_loaded: 0,
        maps_validated: 0,
        transitions: 0,
        weapon_selected: 0,
        weapon_fired: 0,
        weapon_animated: 0,
        monster_present: 0,
        monster_animated: 0,
        monster_state_bounds: 0,
        monster_attack: 0,
        monster_pain: 0,
        monster_death: 0,
        boss: 0,
        current_map: u32::MAX,
        route_index: 0,
        last_health: 0,
        state_ranges: 0,
        valid_state_ranges: 0,
        map_loads: 0,
        stage_frames: 0,
        shock_count: 0,
        intermission_state: 0,
        player_state: 0,
        weapon_pickups: 0,
        target_edges: 0,
    }
}

/// The record with a failure. The first one stays.
pub open spec fn failed(probe: Probe, code: u32, map: u32, detail: u32) -> Probe {
    if probe.failure_code != 0 {
        probe
    } else {
        Probe {
            failure_code: code,
            failure_map: map,
            failure_detail: detail,
            phase: PHASE_ERROR,
            ..probe
        }
    }
}

/// A failure of a given entity.
pub open spec fn failed_at(probe: Probe, code: u32, map: u32, entity: u16, detail: u32) -> Probe {
    if probe.failure_code != 0 {
        probe
    } else {
        Probe { failure_entity: entity as u32, ..failed(probe, code, map, detail) }
    }
}

impl Probe {
    pub fn new(version: u32, phase: u32, failure_entity: u32) -> (probe: Self)
        ensures
            probe == blank_probe(version, phase, failure_entity),
    {
        Probe {
            magic: PROBE_MAGIC,
            version,
            complete: 0,
            phase,
            failure_code: 0,
            failure_map: 0,
            failure_entity,
            failure_detail: 0,
            total_frames: 0,
            maps_loaded: 0,
            maps_validated: 0,
            transitions: 0,
            weapon_selected: 0,
            weapon_fired: 0,
            weapon_animated: 0,
            monster_present: 0,
            monster_animated: 0,
            monster_state_bounds: 0,
            monster_attack: 0,
            monster_pain: 0,
            monster_death: 0,
            boss: 0,
            current_map: u32::MAX,
            route_index: 0,
            last_health: 0,
            state_ranges: 0,
            valid_state_ranges: 0,
            map_loads: 0,
            stage_frames: 0,
            shock_count: 0,
            intermission_state: 0,
            player_state: 0,
            weapon_pickups: 0,
            target_edges: 0,
        }
    }

    pub fn fail(&mut self, code: u32, map: u32, detail: u32)
        ensures
            *final(self) == failed(*old(self), code, map, detail),
    {
        if self.failure_code != 0 {
            return ;
        }
        self.failure_code = code;
        self.failure_map = map;
        self.failure_detail = detail;
        self.phase = PHASE_ERROR;
    }

    pub fn fail_at(&mut self, code: u32, map: u32, entity: u16, detail: u32)
        ensures
            *final(self) == failed_at(*old(self), code, map, entity, detail),
    {
        if self.failure_code != 0 {
            return ;
        }
        self.fail(code, map, detail);
        self.failure_entity = entity as u32;
    }
}

/// A later failure never hides the first.
pub proof fn the_first_failure_stays(
    probe: Probe,
    code: u32,
    map: u32,
    detail: u32,
    later_code: u32,
    later_map: u32,
    later_detail: u32,
)
    requires
        code != 0,
    ensures
        failed(failed(probe, code, map, detail), later_code, later_map, later_detail) == failed(
            probe,
            code,
            map,
            detail,
        ),
        failed(probe, code, map, detail).failure_code != 0,
{
}

/// A signed number as the 32 bits that hold it.
pub open spec fn as_bits(value: int) -> u32 {
    (value % 0x1_0000_0000) as u32
}

pub fn bits_of(value: i32) -> (bits: u32)
    ensures
        bits == as_bits(value as int),
{
    if value < 0 {
        (value as i64 + 0x1_0000_0000) as u32
    } else {
        value as u32
    }
}

pub open spec fn non_negative(value: int) -> u32 {
    if value < 0 {
        0
    } else {
        value as u32
    }
}

/// Health as it is recorded: never below zero.
pub fn recorded_health(health: i16) -> (recorded: u32)
    ensures
        recorded == non_negative(health as int),
{
    if health < 0 {
        0
    } else {
        health as u32
    }
}

/// The two points are less than a unit apart on every axis.
pub open spec fn within_a_unit(left: Vec3I32, right: Vec3I32) -> bool {
    &&& -4096 < left.x - right.x < 4096
    &&& -4096 < left.y - right.y < 4096
    &&& -4096 < left.z - right.z < 4096
}

fn close(left: i32, right: i32) -> (near: bool)
    ensures
        near == (-4096 < left - right < 4096),
{
    let difference: i64 = left as i64 - right as i64;
    -4096 < difference && difference < 4096
}

pub fn is_within_a_unit(left: Vec3I32, right: Vec3I32) -> (near: bool)
    ensures
        near == within_a_unit(left, right),
{
    close(left.x, right.x) && close(left.y, right.y) && close(left.z, right.z)
}

/// From an eye to a target, in whole units.
#[derive(Copy, Clone, Debug, PartialEq, Eq, Structural)]
pub struct AimDeltas {
    pub dx: i32,
    pub dy: i32,
    pub dz: i32,
}

pub fn aim_deltas(from: Vec3I32, to: Vec3I32) -> (deltas: AimDeltas)
    ensures
        deltas.dx == sat_i32(to.x - from.x) / 4096,
        deltas.dy == sat_i32(to.y - from.y) / 4096,
        deltas.dz == sat_i32(to.z - from.z) / 4096,
{
    AimDeltas {
        dx: whole_units(saturating_sub_i32(to.x, from.x)),
        dy: whole_units(saturating_sub_i32(to.y, from.y)),
        dz: whole_units(saturating_sub_i32(to.z, from.z)),
    }
}

/// A first failure is kept with its own code, map and detail, and with its entity
/// where one is named; everything else that was noted stays.
pub proof fn failures_are_noted_in_full(
    probe: Probe,
    code: u32,
    map: u32,
    entity: u16,
    detail: u32,
)
    requires
        probe.failure_code == 0,
    ensures
        ({
            let plainly = failed(probe, code, map, detail);
            let named = failed_at(probe, code, map, entity, detail);
            &&& plainly.failure_code == code && named.failure_code == code
            &&& plainly.failure_map == map && named.failure_map == map
            &&& plainly.failure_detail == detail && named.failure_detail == detail
            &&& plainly.failure_entity == probe.failure_entity && named.failure_entity == entity
            &&& plainly.phase == PHASE_ERROR && named.phase == PHASE_ERROR
            &&& plainly == (Probe {
                failure_code: code,
                failure_map: map,
                failure_detail: detail,
                phase: plainly.phase,
                ..probe
            })
            &&& named == (Probe { failure_entity: entity as u32, ..plainly })
        }),
{
}

/// A signed number is kept by its bits.
pub proof fn numbers_are_kept_by_their_bits(value: int)
    requires
        i32::MIN <= value <= i32::MAX,
    ensures
        value >= 0 ==> as_bits(value) == value && non_negative(value) == value,
        value < 0 ==> as_bits(value) == value + 0x1_0000_0000 && non_negative(value) == 0,
{
}

/// Being within a unit is mutual and asks it of every axis.
pub proof fn nearness_is_mutual(left: Vec3I32, right: Vec3I32)
    ensures
        within_a_unit(left, right) == within_a_unit(right, left),
        within_a_unit(left, left),
        left.x - right.x >= 4096 || left.y - right.y >= 4096 || left.z - right.z >= 4096
            ==> !within_a_unit(left, right),
{
}

} // verus!
