//! Identity of a batch of faces, by which its packet plan is found again.

use vstd::prelude::*;

use crate::bits::{rotate_left, rotated_left};

verus! {

/// Batches whose plans are kept in each arena.
pub const MAX_TOPOLOGY_CACHE_BATCHES: usize = 64;

/// Two independent hashes over the faces of a batch.
#[derive(Copy, Clone, Debug, PartialEq, Eq, Structural)]
pub struct TopologyBatchIdentity {
    pub hash_a: u32,
    pub hash_b: u32,
}

pub open spec fn geometry_word(source_surface: u16, texture_page: u16) -> u32 {
    (source_surface as u32) | ((texture_page as u32) << 16u32)
}

pub open spec fn palette_word(clut: u16, stable: bool) -> u32 {
    (clut as u32) | (if stable { 0x8000_0000u32 } else { 0u32 })
}

/// The identity of an empty batch of one map.
pub open spec fn empty_identity(map_generation: u32) -> TopologyBatchIdentity {
    TopologyBatchIdentity {
        hash_a: 0x811c_9dc5u32 ^ map_generation,
        hash_b: 0x9e37_79b9u32 ^ rotated_left(map_generation, 16),
    }
}

/// The identity with one more face.
pub open spec fn mixed_identity(
    identity: TopologyBatchIdentity,
    geometry: u32,
    palette: u32,
) -> TopologyBatchIdentity {
    let first_a = (identity.hash_a ^ geometry).wrapping_mul(0x0100_0193);
    let first_b = rotated_left(identity.hash_b, 7).wrapping_add(
        geometry.wrapping_mul(0x85eb_ca6b),
    );
    TopologyBatchIdentity {
        hash_a: (first_a ^ palette).wrapping_mul(0x0100_0193),
        hash_b: rotated_left(first_b, 7).wrapping_add(palette.wrapping_mul(0xc2b2_ae35)),
    }
}

impl TopologyBatchIdentity {
    pub fn new(map_generation: u32) -> (identity: Self)
        ensures
            identity == empty_identity(map_generation),
    {
        TopologyBatchIdentity {
            hash_a: 0x811c_9dc5u32 ^ map_generation,
            hash_b: 0x9e37_79b9u32 ^ rotate_left(map_generation, 16),
        }
    }

    /// Take one face into the identity.
    pub fn mix(&mut self, source_surface: u16, texture_page: u16, clut: u16, stable: bool)
        ensures
            *final(self) == mixed_identity(
                *old(self),
                geometry_word(source_surface, texture_page),
                palette_word(clut, stable),
            ),
    {
        let geometry: u32 = (source_surface as u32) | ((texture_page as u32) << 16u32);
        let palette: u32 = (clut as u32) | (if stable { 0x8000_0000u32 } else { 0u32 });
        self.hash_a = (self.hash_a ^ geometry).wrapping_mul(0x0100_0193);
        self.hash_a = (self.hash_a ^ palette).wrapping_mul(0x0100_0193);
        self.hash_b = rotate_left(self.hash_b, 7).wrapping_add(geometry.wrapping_mul(0x85eb_ca6b));
        self.hash_b = rotate_left(self.hash_b, 7).wrapping_add(palette.wrapping_mul(0xc2b2_ae35));
    }
}

/// Where a kept plan came from.
#[derive(Copy, Clone, Debug, PartialEq, Eq, Structural)]
pub struct TopologyBatchCache {
    pub identity: TopologyBatchIdentity,
    pub output_word_offset: u32,
    pub valid: bool,
}

/// An entry without a plan.
pub open spec fn no_plan() -> TopologyBatchCache {
    TopologyBatchCache {
        identity: TopologyBatchIdentity { hash_a: 0, hash_b: 0 },
        output_word_offset: 0,
        valid: false,
    }
}

/// An arena's table before any plan is kept.
pub fn fresh_plans() -> (caches: Vec<TopologyBatchCache>)
    ensures
        caches@.len() == MAX_TOPOLOGY_CACHE_BATCHES,
        forall|i: int| #![trigger caches@[i]] 0 <= i < caches@.len() ==> caches@[i] == no_plan(),
{
    let empty = TopologyBatchCache {
        identity: TopologyBatchIdentity { hash_a: 0, hash_b: 0 },
        output_word_offset: 0,
        valid: false,
    };
    let mut caches: Vec<TopologyBatchCache> = Vec::new();
    while caches.len() < MAX_TOPOLOGY_CACHE_BATCHES
        invariant
            caches@.len() <= MAX_TOPOLOGY_CACHE_BATCHES,
            empty == no_plan(),
            forall|i: int| #![trigger caches@[i]] 0 <= i < caches@.len() ==> caches@[i] == no_plan(),
        decreases MAX_TOPOLOGY_CACHE_BATCHES - caches@.len(),
    {
        caches.push(empty);
    }
    caches
}

/// Whether the plan kept for batch `index` may be used: it must be of the same
/// faces and start at the same word of the arena.
pub fn plan_applies(
    caches: &Vec<TopologyBatchCache>,
    index: usize,
    identity: TopologyBatchIdentity,
    output_word_offset: u32,
) -> (applies: bool)
    ensures
        applies == (index < caches@.len() && caches@[index as int] == (TopologyBatchCache {
            identity,
            output_word_offset,
            valid: true,
        })),
{
    if index >= caches.len() {
        return false;
    }
    let cache: TopologyBatchCache = caches[index];
    cache.valid && cache.identity == identity && cache.output_word_offset == output_word_offset
}

/// Keep where a plan came from; batches past the table are not kept.
pub fn keep_plan(
    caches: &mut Vec<TopologyBatchCache>,
    index: usize,
    identity: TopologyBatchIdentity,
    output_word_offset: u32,
    valid: bool,
)
    ensures
        final(caches)@ == if index < old(caches)@.len() {
            old(caches)@.update(
                index as int,
                TopologyBatchCache { identity, output_word_offset, valid },
            )
        } else {
            old(caches)@
        },
{
    if index < caches.len() {
        caches.set(index, TopologyBatchCache { identity, output_word_offset, valid });
    }
}

/// Counters of the plan cache.
#[derive(Copy, Clone, Debug, PartialEq, Eq, Structural)]
pub struct TopologyCounters {
    pub hits: u32,
    pub misses: u32,
    pub invariant_hit_slots: u32,
    pub invariant_miss_slots: u32,
}

pub fn record_topology_cache_submit(counters: &mut TopologyCounters, hit: bool, hit_slots: u32, miss_slots: u32)
    ensures
        *final(counters) == (TopologyCounters {
            hits: old(counters).hits.wrapping_add(if hit { 1 } else { 0 }),
            misses: old(counters).misses.wrapping_add(if hit { 0 } else { 1 }),
            invariant_hit_slots: old(counters).invariant_hit_slots.wrapping_add(hit_slots),
            invariant_miss_slots: old(counters).invariant_miss_slots.wrapping_add(miss_slots),
        }),
{
    counters.hits = counters.hits.wrapping_add(if hit { 1 } else { 0 });
    counters.misses = counters.misses.wrapping_add(if hit { 0 } else { 1 });
    counters.invariant_hit_slots = counters.invariant_hit_slots.wrapping_add(hit_slots);
    counters.invariant_miss_slots = counters.invariant_miss_slots.wrapping_add(miss_slots);
}

/// A kept plan is found again by the same batch, and by no batch of another
/// identity or place.
pub proof fn kept_plan_is_found_again(
    before: Seq<TopologyBatchCache>,
    index: int,
    kept: TopologyBatchCache,
    identity: TopologyBatchIdentity,
    offset: u32,
)
    requires
        0 <= index < before.len(),
        kept.valid,
    ensures
        (before.update(index, kept)[index] == (TopologyBatchCache {
            identity,
            output_word_offset: offset,
            valid: true,
        })) == (kept.identity == identity && kept.output_word_offset == offset),
{
}

/// A face's word holds its number and its texture page apart, and its palette's
/// word the palette and whether it is stable.
pub proof fn words_hold_their_parts(source_surface: u16, texture_page: u16, clut: u16, stable: bool)
    ensures
        geometry_word(source_surface, texture_page) & 0xffff == source_surface,
        geometry_word(source_surface, texture_page) >> 16u32 == texture_page,
        palette_word(clut, stable) & 0xffff == clut,
        palette_word(clut, stable) & 0x8000_0000 != 0 <==> stable,
{
    let low = source_surface as u32;
    let high = texture_page as u32;
    let palette = clut as u32;
    let mark = if stable {
        0x8000_0000u32
    } else {
        0u32
    };
    assert((low | (high << 16u32)) & 0xffff == low && (low | (high << 16u32)) >> 16u32 == high && (
    palette | mark) & 0xffff == palette && ((palette | mark) & 0x8000_0000 != 0 <==> mark != 0))
        by (bit_vector)
        requires
            low <= 0xffff,
            high <= 0xffff,
            palette <= 0xffff,
            mark == 0 || mark == 0x8000_0000u32,
    ;
}

/// Batches of different maps begin with different identities.
pub proof fn maps_begin_apart(left: u32, right: u32)
    requires
        left != right,
    ensures
        empty_identity(left).hash_a != empty_identity(right).hash_a,
{
    assert(0x811c_9dc5u32 ^ left != 0x811c_9dc5u32 ^ right) by (bit_vector)
        requires
            left != right,
    ;
}

/// A face's two words are mixed in one after the other, into both halves of the
/// identity, the first by multiplying with the prime 16777619.
pub proof fn faces_are_mixed_in_word_by_word(
    identity: TopologyBatchIdentity,
    geometry: u32,
    palette: u32,
)
    ensures
        ({
            let after = mixed_identity(identity, geometry, palette);
            let first = (((identity.hash_a ^ geometry) * 16777619) % 0x1_0000_0000) as u32;
            let second = rotated_left(identity.hash_b, 7).wrapping_add(
                geometry.wrapping_mul(2246822507),
            );
            &&& after.hash_a == ((first ^ palette) * 16777619) % 0x1_0000_0000
            &&& after.hash_b == rotated_left(second, 7).wrapping_add(
                palette.wrapping_mul(3266489909),
            )
        }),
{
}

} // verus!
