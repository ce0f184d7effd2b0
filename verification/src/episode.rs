//! The maps of the episode.

use vstd::prelude::*;

verus! {

#[derive(Copy, Clone, Debug, PartialEq, Eq, Structural)]
pub enum EpisodeMap {
    Start,
    E1M1,
    E1M2,
    E1M3,
    E1M4,
    E1M5,
    E1M6,
    E1M7,
    E1M8,
}

/// Place of a map in the episode; the entrance hall is the first.
pub open spec fn map_number(map: EpisodeMap) -> u32 {
    match map {
        EpisodeMap::Start => 0,
        EpisodeMap::E1M1 => 1,
        EpisodeMap::E1M2 => 2,
        EpisodeMap::E1M3 => 3,
        EpisodeMap::E1M4 => 4,
        EpisodeMap::E1M5 => 5,
        EpisodeMap::E1M6 => 6,
        EpisodeMap::E1M7 => 7,
        EpisodeMap::E1M8 => 8,
    }
}

pub fn map_index(map: EpisodeMap) -> (index: u32)
    ensures
        index == map_number(map),
        index < 9,
{
    match map {
        EpisodeMap::Start => 0,
        EpisodeMap::E1M1 => 1,
        EpisodeMap::E1M2 => 2,
        EpisodeMap::E1M3 => 3,
        EpisodeMap::E1M4 => 4,
        EpisodeMap::E1M5 => 5,
        EpisodeMap::E1M6 => 6,
        EpisodeMap::E1M7 => 7,
        EpisodeMap::E1M8 => 8,
    }
}

/// The map at a place; places beyond the last name the last.
pub fn map_at(index: u8) -> (map: EpisodeMap)
    ensures
        map_number(map) == if index < 8 {
            index as u32
        } else {
            8
        },
{
    match index {
        0 => EpisodeMap::Start,
        1 => EpisodeMap::E1M1,
        2 => EpisodeMap::E1M2,
        3 => EpisodeMap::E1M3,
        4 => EpisodeMap::E1M4,
        5 => EpisodeMap::E1M5,
        6 => EpisodeMap::E1M6,
        7 => EpisodeMap::E1M7,
        _ => EpisodeMap::E1M8,
    }
}

/// The bit that stands for a map in a set of maps.
pub open spec fn map_mask(map: EpisodeMap) -> u32 {
    match map {
        EpisodeMap::Start => 0x001,
        EpisodeMap::E1M1 => 0x002,
        EpisodeMap::E1M2 => 0x004,
        EpisodeMap::E1M3 => 0x008,
        EpisodeMap::E1M4 => 0x010,
        EpisodeMap::E1M5 => 0x020,
        EpisodeMap::E1M6 => 0x040,
        EpisodeMap::E1M7 => 0x080,
        EpisodeMap::E1M8 => 0x100,
    }
}

pub fn map_bit(map: EpisodeMap) -> (bit: u32)
    ensures
        bit == map_mask(map),
{
    match map {
        EpisodeMap::Start => 0x001,
        EpisodeMap::E1M1 => 0x002,
        EpisodeMap::E1M2 => 0x004,
        EpisodeMap::E1M3 => 0x008,
        EpisodeMap::E1M4 => 0x010,
        EpisodeMap::E1M5 => 0x020,
        EpisodeMap::E1M6 => 0x040,
        EpisodeMap::E1M7 => 0x080,
        EpisodeMap::E1M8 => 0x100,
    }
}

/// No two maps share a place, nor a bit.
pub proof fn maps_are_numbered_apart(left: EpisodeMap, right: EpisodeMap)
    ensures
        map_number(left) == map_number(right) ==> left == right,
        map_mask(left) == map_mask(right) ==> left == right,
{
}

/// A map's bit is the one with the map's number.
pub proof fn maps_have_the_bit_of_their_number(map: EpisodeMap)
    ensures
        map_mask(map) == 1u32 << map_number(map),
        map_number(map) <= 8,
{
    assert(1u32 << 0u32 == 1 && 1u32 << 1u32 == 2 && 1u32 << 2u32 == 4 && 1u32 << 3u32 == 8 && 1u32
        << 4u32 == 16 && 1u32 << 5u32 == 32 && 1u32 << 6u32 == 64 && 1u32 << 7u32 == 128 && 1u32
        << 8u32 == 256) by (bit_vector);
}

} // verus!
