//! The resident subdivision cache: packet slabs that stay in the arena across
//! frames, found through an open-addressed directory.

use vstd::prelude::*;

verus! {

/// Directory bucket that was never used.
pub const DIRECTORY_EMPTY: u16 = 0xffff;

/// Directory bucket whose slot was taken out.
pub const DIRECTORY_TOMBSTONE: u16 = 0xfffe;

/// Words of one first-level slab.
pub const LEVEL1_WORDS: usize = 63;

/// Words of one second-level slab.
pub const LEVEL2_WORDS: usize = 187;

/// Words of one undivided packet.
pub const BASE_PACKET_WORDS: usize = 13;

/// Slots per set of the undivided-packet cache.
pub const BASE_PACKET_WAYS: usize = 4;

/// Words of one double-buffered packet arena.
pub const GPU_ARENA_WORDS: usize = 32768;

/// What a slab holds: one root triangle of one face under one material.
#[derive(Copy, Clone, Debug, PartialEq, Eq, Structural)]
pub struct ResidentSubdivisionKey {
    pub material: u32,
    pub source_face: u16,
    pub root: u8,
    pub level: u8,
    pub underdraw: u8,
}

#[derive(Copy, Clone, Debug, PartialEq, Eq, Structural)]
pub struct ResidentSubdivisionSlot {
    pub key: ResidentSubdivisionKey,
    pub last_used_frame: u32,
    pub screen_z: u16,
    /// One bit for each arena that holds the slab's words.
    pub initialized_pools: u8,
    pub valid: bool,
}

/// A slab handed out.
#[derive(Copy, Clone, Debug, PartialEq, Eq, Structural)]
pub struct ResidentSubdivisionAcquire {
    pub class_offset_words: usize,
    /// The arena's words are already those of this key.
    pub resident: bool,
    pub logical_hit: bool,
    pub replaced: bool,
}

/// The value that spreads a key over a directory.
pub open spec fn key_hash(key: ResidentSubdivisionKey) -> u32 {
    let mixed = key.material ^ ((key.source_face as u32) << 8u32) ^ ((key.root as u32) << 24u32) ^ ((
    key.level as u32) << 4u32) ^ (key.underdraw as u32);
    let folded = mixed ^ (mixed >> 16u32);
    folded ^ (folded >> 7u32)
}

pub fn resident_subdivision_key_hash(key: ResidentSubdivisionKey) -> (hash: u32)
    ensures
        hash == key_hash(key),
{
    let mut hash: u32 = key.material ^ ((key.source_face as u32) << 8u32) ^ ((key.root as u32)
        << 24u32) ^ ((key.level as u32) << 4u32) ^ (key.underdraw as u32);
    hash ^= hash >> 16u32;
    hash ^= hash >> 7u32;
    hash
}

/// First bucket a key is looked for in.
pub open spec fn home_bucket(key: ResidentSubdivisionKey, buckets: int) -> int {
    key_hash(key) as int % buckets
}

/// The bucket `probe` steps after `home`, wrapping around.
pub open spec fn probed_bucket(home: int, probe: int, buckets: int) -> int {
    if home + probe < buckets {
        home + probe
    } else {
        home + probe - buckets
    }
}

/// Slot `slot` stands `probe` steps from its key's home, with no unused bucket
/// before it.
pub open spec fn placed_at(
    directory: Seq<u16>,
    slots: Seq<ResidentSubdivisionSlot>,
    slot: int,
    probe: int,
) -> bool {
    let home = home_bucket(slots[slot].key, directory.len() as int);
    &&& 0 <= probe < directory.len()
    &&& directory[probed_bucket(home, probe, directory.len() as int)] == slot
    &&& forall|p: int|
        #![trigger directory[probed_bucket(home, p, directory.len() as int)]]
        0 <= p < probe ==> directory[probed_bucket(home, p, directory.len() as int)]
            != DIRECTORY_EMPTY
}

/// The directory finds exactly the valid slots, other than `absent`, and no
/// two valid slots hold one key.
pub open spec fn directory_matches(
    directory: Seq<u16>,
    slots: Seq<ResidentSubdivisionSlot>,
    absent: int,
) -> bool {
    &&& slots.len() < directory.len() < DIRECTORY_TOMBSTONE
    &&& forall|b: int|
        #![trigger directory[b]]
        0 <= b < directory.len() && directory[b] < DIRECTORY_TOMBSTONE ==> {
            &&& directory[b] < slots.len()
            &&& directory[b] != absent
            &&& slots[directory[b] as int].valid
        }
    &&& forall|a: int, b: int|
        #![trigger directory[a], directory[b]]
        0 <= a < b < directory.len() && directory[a] < DIRECTORY_TOMBSTONE ==> directory[a]
            != directory[b]
    &&& forall|i: int|
        #![trigger slots[i]]
        0 <= i < slots.len() && i != absent && slots[i].valid ==> exists|probe: int|
            #[trigger] placed_at(directory, slots, i, probe)
    &&& forall|i: int, j: int|
        #![trigger slots[i], slots[j]]
        0 <= i < j < slots.len() && slots[i].valid && slots[j].valid ==> slots[i].key
            != slots[j].key
}

/// Some valid slot holds `key`.
pub open spec fn key_is_cached(slots: Seq<ResidentSubdivisionSlot>, key: ResidentSubdivisionKey) -> bool {
    exists|i: int| 0 <= i < slots.len() && (#[trigger] slots[i]).valid && slots[i].key == key
}

/// Every bucket is unused, taken out, or names a slot.
pub open spec fn names_slots(directory: Seq<u16>, slots: Seq<ResidentSubdivisionSlot>) -> bool {
    &&& directory.len() > 0
    &&& forall|b: int|
        #![trigger directory[b]]
        0 <= b < directory.len() && directory[b] < DIRECTORY_TOMBSTONE ==> directory[b]
            < slots.len()
}

/// A bucket names a valid slot of `key`.
pub open spec fn entry_holds(
    entry: u16,
    slots: Seq<ResidentSubdivisionSlot>,
    key: ResidentSubdivisionKey,
) -> bool {
    entry < DIRECTORY_TOMBSTONE && slots[entry as int].valid && slots[entry as int].key == key
}

/// The first bucket that names a valid slot of `key` is `probe` steps from the
/// key's home, with no unused bucket before it.
pub open spec fn found_at(
    directory: Seq<u16>,
    slots: Seq<ResidentSubdivisionSlot>,
    key: ResidentSubdivisionKey,
    probe: int,
) -> bool {
    let buckets = directory.len() as int;
    let home = home_bucket(key, buckets);
    &&& 0 <= probe < buckets
    &&& entry_holds(directory[probed_bucket(home, probe, buckets)], slots, key)
    &&& forall|p: int|
        #![trigger directory[probed_bucket(home, p, buckets)]]
        0 <= p < probe ==> directory[probed_bucket(home, p, buckets)] != DIRECTORY_EMPTY
            && !entry_holds(directory[probed_bucket(home, p, buckets)], slots, key)
}

/// The slot that looking for `key` comes upon.
pub open spec fn lookup(
    directory: Seq<u16>,
    slots: Seq<ResidentSubdivisionSlot>,
    key: ResidentSubdivisionKey,
) -> Option<usize> {
    let buckets = directory.len() as int;
    if exists|probe: int| #[trigger] found_at(directory, slots, key, probe) {
        let probe = choose|probe: int| #[trigger] found_at(directory, slots, key, probe);
        Some(directory[probed_bucket(home_bucket(key, buckets), probe, buckets)] as usize)
    } else {
        None
    }
}

proof fn lookup_is_found(
    directory: Seq<u16>,
    slots: Seq<ResidentSubdivisionSlot>,
    key: ResidentSubdivisionKey,
    probe: int,
)
    requires
        found_at(directory, slots, key, probe),
    ensures
        lookup(directory, slots, key) == Some(
            directory[probed_bucket(
                home_bucket(key, directory.len() as int),
                probe,
                directory.len() as int,
            )] as usize,
        ),
{
    let buckets = directory.len() as int;
    let home = home_bucket(key, buckets);
    let chosen = choose|probe: int| #[trigger] found_at(directory, slots, key, probe);
    if chosen < probe {
        assert(!entry_holds(directory[probed_bucket(home, chosen, buckets)], slots, key));
    } else if probe < chosen {
        assert(!entry_holds(directory[probed_bucket(home, probe, buckets)], slots, key));
    }
}

/// A valid slot of `key` that can be reached is come upon, or one before it.
proof fn some_probe_finds(
    directory: Seq<u16>,
    slots: Seq<ResidentSubdivisionSlot>,
    key: ResidentSubdivisionKey,
    probe: int,
)
    requires
        0 <= probe < directory.len(),
        entry_holds(
            directory[probed_bucket(
                home_bucket(key, directory.len() as int),
                probe,
                directory.len() as int,
            )],
            slots,
            key,
        ),
        forall|p: int|
            #![trigger directory[probed_bucket(home_bucket(key, directory.len() as int), p, directory.len() as int)]]
            0 <= p < probe ==> directory[probed_bucket(
                home_bucket(key, directory.len() as int),
                p,
                directory.len() as int,
            )] != DIRECTORY_EMPTY,
    ensures
        exists|q: int| q <= probe && #[trigger] found_at(directory, slots, key, q),
    decreases probe,
{
    let buckets = directory.len() as int;
    let home = home_bucket(key, buckets);
    if exists|p: int|
        #![trigger directory[probed_bucket(home, p, buckets)]]
        0 <= p < probe && entry_holds(directory[probed_bucket(home, p, buckets)], slots, key) {
        let p = choose|p: int|
            #![trigger directory[probed_bucket(home, p, buckets)]]
            0 <= p < probe && entry_holds(directory[probed_bucket(home, p, buckets)], slots, key);
        some_probe_finds(directory, slots, key, p);
    } else {
        assert(found_at(directory, slots, key, probe));
    }
}

/// A directory that matches its slots finds exactly the keys of the valid
/// slots, and of a slot that is absent from it nothing.
pub proof fn lookup_finds_cached_keys(
    directory: Seq<u16>,
    slots: Seq<ResidentSubdivisionSlot>,
    absent: int,
    key: ResidentSubdivisionKey,
)
    requires
        directory_matches(directory, slots, absent),
    ensures
        lookup(directory, slots, key) matches Some(index) ==> index < slots.len() && index
            != absent && slots[index as int].valid && slots[index as int].key == key,
        lookup(directory, slots, key) is None ==> forall|i: int|
            #![trigger slots[i]]
            0 <= i < slots.len() && i != absent && slots[i].valid ==> slots[i].key != key,
        absent == -1 ==> (lookup(directory, slots, key) is Some <==> key_is_cached(slots, key)),
{
    let buckets = directory.len() as int;
    let home = home_bucket(key, buckets);
    if lookup(directory, slots, key) is Some {
        let probe = choose|probe: int| #[trigger] found_at(directory, slots, key, probe);
        let bucket = probed_bucket(home, probe, buckets);
        assert(0 <= bucket < buckets);
        assert(directory[bucket] < slots.len());
    } else {
        assert forall|i: int|
            #![trigger slots[i]]
            0 <= i < slots.len() && i != absent && slots[i].valid implies slots[i].key != key by {
            if slots[i].key == key {
                let probe = choose|probe: int| #[trigger] placed_at(directory, slots, i, probe);
                assert(directory[probed_bucket(home, probe, buckets)] == i);
                some_probe_finds(directory, slots, key, probe);
            }
        }
    }
}

pub fn resident_subdivision_directory_find(
    directory: &Vec<u16>,
    slots: &Vec<ResidentSubdivisionSlot>,
    key: ResidentSubdivisionKey,
) -> (found: Option<usize>)
    requires
        names_slots(directory@, slots@),
    ensures
        found == lookup(directory@, slots@, key),
{
    let buckets: usize = directory.len();
    let home: usize = resident_subdivision_key_hash(key) as usize % buckets;
    let mut bucket: usize = home;
    let mut probes: usize = 0;
    assert(home == home_bucket(key, buckets as int));
    while probes < buckets
        invariant
            names_slots(directory@, slots@),
            buckets == directory@.len(),
            home == home_bucket(key, buckets as int),
            home < buckets,
            probes <= buckets,
            probes < buckets ==> bucket == probed_bucket(home as int, probes as int, buckets as int),
            forall|p: int|
                #![trigger directory@[probed_bucket(home as int, p, buckets as int)]]
                0 <= p < probes ==> {
                    let entry = directory@[probed_bucket(home as int, p, buckets as int)];
                    entry != DIRECTORY_EMPTY && !entry_holds(entry, slots@, key)
                },
        decreases buckets - probes,
    {
        let entry: u16 = directory[bucket];
        if entry == DIRECTORY_EMPTY {
            proof {
                assert forall|probe: int| !#[trigger] found_at(directory@, slots@, key, probe) by {
                    if found_at(directory@, slots@, key, probe) {
                        assert(entry_holds(
                            directory@[probed_bucket(home as int, probe, buckets as int)],
                            slots@,
                            key,
                        ));
                        assert(directory@[probed_bucket(
                            home as int,
                            probes as int,
                            buckets as int,
                        )] == DIRECTORY_EMPTY);
                    }
                }
            }
            return None;
        }
        if entry != DIRECTORY_TOMBSTONE {
            let index: usize = entry as usize;
            if slots[index].valid && slots[index].key == key {
                proof {
                    assert(found_at(directory@, slots@, key, probes as int));
                    lookup_is_found(directory@, slots@, key, probes as int);
                }
                return Some(index);
            }
        }
        bucket = if bucket + 1 == buckets {
            0
        } else {
            bucket + 1
        };
        probes += 1;
    }
    proof {
        assert forall|probe: int| !#[trigger] found_at(directory@, slots@, key, probe) by {
            if found_at(directory@, slots@, key, probe) {
                assert(entry_holds(
                    directory@[probed_bucket(home as int, probe, buckets as int)],
                    slots@,
                    key,
                ));
            }
        }
    }
    None
}

/// The first bucket that names `slot` is `probe` steps from the home of `key`,
/// with no unused bucket before it.
pub open spec fn named_at(
    directory: Seq<u16>,
    key: ResidentSubdivisionKey,
    slot: int,
    probe: int,
) -> bool {
    let buckets = directory.len() as int;
    let home = home_bucket(key, buckets);
    &&& slot < DIRECTORY_TOMBSTONE
    &&& 0 <= probe < buckets
    &&& directory[probed_bucket(home, probe, buckets)] == slot
    &&& forall|p: int|
        #![trigger directory[probed_bucket(home, p, buckets)]]
        0 <= p < probe ==> directory[probed_bucket(home, p, buckets)] != DIRECTORY_EMPTY
            && directory[probed_bucket(home, p, buckets)] != slot
}

/// Taking `slot` out: the bucket that names it becomes a tombstone and no
/// other bucket changes. A slot that is not found under its key stays.
pub open spec fn removed(
    before: Seq<u16>,
    after: Seq<u16>,
    slots: Seq<ResidentSubdivisionSlot>,
    key: ResidentSubdivisionKey,
    slot: int,
) -> bool {
    let buckets = before.len() as int;
    if slots[slot].key == key && exists|probe: int| #[trigger] named_at(before, key, slot, probe) {
        exists|probe: int| #[trigger]
            named_at(before, key, slot, probe) && after == before.update(
                probed_bucket(home_bucket(key, buckets), probe, buckets),
                DIRECTORY_TOMBSTONE,
            )
    } else {
        after == before
    }
}

/// Take a slot out of the directory; the bucket keeps a tombstone so that
/// later buckets stay reachable.
pub fn resident_subdivision_directory_remove(
    directory: &mut Vec<u16>,
    slots: &Vec<ResidentSubdivisionSlot>,
    key: ResidentSubdivisionKey,
    slot_index: usize,
)
    requires
        old(directory)@.len() > 0,
        slot_index < slots@.len(),
    ensures
        removed(old(directory)@, final(directory)@, slots@, key, slot_index as int),
{
    let buckets: usize = directory.len();
    let home: usize = resident_subdivision_key_hash(key) as usize % buckets;
    let mut bucket: usize = home;
    let mut probes: usize = 0;
    let ghost before: Seq<u16> = directory@;
    while probes < buckets
        invariant
            directory@ == before,
            before == old(directory)@,
            buckets == before.len(),
            home == home_bucket(key, buckets as int),
            home < buckets,
            slot_index < slots@.len(),
            probes <= buckets,
            probes < buckets ==> bucket == probed_bucket(home as int, probes as int, buckets as int),
            forall|p: int|
                #![trigger before[probed_bucket(home as int, p, buckets as int)]]
                0 <= p < probes ==> {
                    let entry = before[probed_bucket(home as int, p, buckets as int)];
                    &&& entry != DIRECTORY_EMPTY
                    &&& slots@[slot_index as int].key == key && slot_index < DIRECTORY_TOMBSTONE
                        ==> entry != slot_index
                },
        decreases buckets - probes,
    {
        let entry: u16 = directory[bucket];
        if entry == DIRECTORY_EMPTY {
            proof {
                if slots@[slot_index as int].key == key {
                    assert forall|probe: int|
                        !#[trigger] named_at(before, key, slot_index as int, probe) by {
                        if named_at(before, key, slot_index as int, probe) {
                            assert(before[probed_bucket(home as int, probe, buckets as int)]
                                == slot_index);
                            assert(before[probed_bucket(
                                home as int,
                                probes as int,
                                buckets as int,
                            )] == DIRECTORY_EMPTY);
                        }
                    }
                }
            }
            return;
        }
        if entry != DIRECTORY_TOMBSTONE && entry as usize == slot_index && slots[slot_index].key
            == key {
            directory.set(bucket, DIRECTORY_TOMBSTONE);
            assert(named_at(before, key, slot_index as int, probes as int));
            return;
        }
        bucket = if bucket + 1 == buckets {
            0
        } else {
            bucket + 1
        };
        probes += 1;
    }
    proof {
        if slots@[slot_index as int].key == key {
            assert forall|probe: int| !#[trigger]
                named_at(before, key, slot_index as int, probe) by {
                if named_at(before, key, slot_index as int, probe) {
                    assert(before[probed_bucket(home as int, probe, buckets as int)]
                        == slot_index);
                }
            }
        }
    }
}

/// After a slot that was found is taken out its key is not found, and every
/// other key is found as before. Exactly one bucket has changed, and it is a
/// tombstone.
pub proof fn a_removed_slot_is_not_found(
    before: Seq<u16>,
    after: Seq<u16>,
    slots: Seq<ResidentSubdivisionSlot>,
    key: ResidentSubdivisionKey,
    slot: int,
    other: ResidentSubdivisionKey,
)
    requires
        names_slots(before, slots),
        lookup(before, slots, key) == Some(slot as usize),
        0 <= slot < slots.len(),
        forall|a: int, b: int|
            #![trigger before[a], before[b]]
            0 <= a < b < before.len() && before[a] == slot ==> before[b] != slot,
        forall|i: int|
            #![trigger slots[i]]
            0 <= i < slots.len() && i != slot && slots[i].valid ==> slots[i].key != key,
        slots.len() <= usize::MAX,
        removed(before, after, slots, key, slot),
    ensures
        exists|b: int|
            #![trigger before[b]]
            0 <= b < before.len() && before[b] == slot && after == before.update(
                b,
                DIRECTORY_TOMBSTONE,
            ),
        lookup(after, slots, key) is None,
        other != key ==> lookup(after, slots, other) == lookup(before, slots, other),
{
    let buckets = before.len() as int;
    let home = home_bucket(key, buckets);
    let place = choose|probe: int| #[trigger] found_at(before, slots, key, probe);
    lookup_is_found(before, slots, key, place);
    assert(named_at(before, key, slot, place));
    let taken = choose|probe: int| #[trigger]
        named_at(before, key, slot, probe) && after == before.update(
            probed_bucket(home, probe, buckets),
            DIRECTORY_TOMBSTONE,
        );
    let bucket = probed_bucket(home, taken, buckets);
    assert(0 <= bucket < buckets);
    assert(before[bucket] == slot);
    assert forall|b: int| #![trigger after[b]] 0 <= b < buckets implies !entry_holds(
        after[b],
        slots,
        key,
    ) by {
        if b != bucket {
            assert(after[b] == before[b]);
            if before[b] < DIRECTORY_TOMBSTONE {
                assert(before[b] < slots.len());
                if b < bucket {
                    assert(before[b] != slot);
                } else {
                    assert(before[bucket] == slot);
                }
                assert(before[b] != slot);
            }
        }
    }
    assert forall|probe: int| !#[trigger] found_at(after, slots, key, probe) by {
        if found_at(after, slots, key, probe) {
            let at = probed_bucket(home, probe, buckets);
            assert(0 <= at < buckets);
            assert(entry_holds(after[at], slots, key));
        }
    }
    if other != key {
        let start = home_bucket(other, buckets);
        assert forall|p: int|
            #![trigger before[probed_bucket(start, p, buckets)]]
            #![trigger after[probed_bucket(start, p, buckets)]]
            0 <= p < buckets implies {
            let entry = before[probed_bucket(start, p, buckets)];
            let next = after[probed_bucket(start, p, buckets)];
            &&& (entry == DIRECTORY_EMPTY <==> next == DIRECTORY_EMPTY)
            &&& (entry_holds(entry, slots, other) <==> entry_holds(next, slots, other))
            &&& entry_holds(entry, slots, other) ==> entry == next
        } by {
            let at = probed_bucket(start, p, buckets);
            assert(0 <= at < buckets);
            if at != bucket {
                assert(after[at] == before[at]);
            }
        }
        if lookup(before, slots, other) is Some {
            let probe = choose|probe: int| #[trigger] found_at(before, slots, other, probe);
            lookup_is_found(before, slots, other, probe);
            assert(entry_holds(before[probed_bucket(start, probe, buckets)], slots, other));
            assert(found_at(after, slots, other, probe));
            lookup_is_found(after, slots, other, probe);
        } else if lookup(after, slots, other) is Some {
            let probe = choose|probe: int| #[trigger] found_at(after, slots, other, probe);
            assert(entry_holds(after[probed_bucket(start, probe, buckets)], slots, other));
            assert(found_at(before, slots, other, probe));
        }
    }
}

proof fn removing_keeps_matches(
    before: Seq<u16>,
    after: Seq<u16>,
    slots: Seq<ResidentSubdivisionSlot>,
    slot: int,
)
    requires
        directory_matches(before, slots, -1),
        0 <= slot < slots.len(),
        slots[slot].valid,
        removed(before, after, slots, slots[slot].key, slot),
    ensures
        directory_matches(after, slots, slot),
{
    let buckets = before.len() as int;
    let key = slots[slot].key;
    let start = home_bucket(key, buckets);
    let place = choose|probe: int| #[trigger] placed_at(before, slots, slot, probe);
    assert(placed_at(before, slots, slot, place));
    let bucket = probed_bucket(start, place, buckets);
    assert(before[bucket] == slot);
    assert forall|p: int|
        #![trigger before[probed_bucket(start, p, buckets)]]
        0 <= p < place implies before[probed_bucket(start, p, buckets)] != slot by {
        let at = probed_bucket(start, p, buckets);
        assert(at != bucket && 0 <= at < buckets && 0 <= bucket < buckets);
        if at < bucket {
            assert(before[at] != before[bucket] || before[at] >= DIRECTORY_TOMBSTONE);
        } else {
            assert(before[bucket] != before[at]);
        }
    }
    assert(named_at(before, key, slot, place));
    let taken = choose|probe: int| #[trigger]
        named_at(before, key, slot, probe) && after == before.update(
            probed_bucket(start, probe, buckets),
            DIRECTORY_TOMBSTONE,
        );
    if taken < place {
        assert(before[probed_bucket(start, taken, buckets)] == slot);
    } else if place < taken {
        assert(before[probed_bucket(start, place, buckets)] == slot);
    }
    assert(after == before.update(bucket, DIRECTORY_TOMBSTONE));
    assert forall|i: int|
        #![trigger slots[i]]
        0 <= i < slots.len() && i != slot && slots[i].valid implies exists|probe: int|
        #[trigger] placed_at(after, slots, i, probe) by {
        let home = home_bucket(slots[i].key, buckets);
        let probe = choose|probe: int| #[trigger] placed_at(before, slots, i, probe);
        assert(before[probed_bucket(home, probe, buckets)] == i);
        assert(probed_bucket(home, probe, buckets) != bucket);
        assert forall|p: int|
            #![trigger after[probed_bucket(home, p, buckets)]]
            0 <= p < probe implies after[probed_bucket(home, p, buckets)] != DIRECTORY_EMPTY by {
            assert(before[probed_bucket(home, p, buckets)] != DIRECTORY_EMPTY);
        }
        assert(placed_at(after, slots, i, probe));
    }
    assert forall|b: int|
        #![trigger after[b]]
        0 <= b < after.len() && after[b] < DIRECTORY_TOMBSTONE implies after[b] < slots.len()
        && after[b] != slot && slots[after[b] as int].valid by {
        assert(b != bucket);
        assert(after[b] == before[b]);
        if b < bucket {
            assert(before[b] != before[bucket]);
        } else {
            assert(before[bucket] != before[b]);
        }
    }
    assert forall|a: int, b: int|
        #![trigger after[a], after[b]]
        0 <= a < b < after.len() && after[a] < DIRECTORY_TOMBSTONE implies after[a] != after[b] by {
        assert(after[a] == before[a]);
        if b != bucket {
            assert(after[b] == before[b]);
        }
    }
}

/// A directory larger than the slots it names has a bucket to spare.
proof fn directory_has_room(directory: Seq<u16>, slots: Seq<ResidentSubdivisionSlot>, absent: int)
    requires
        directory_matches(directory, slots, absent),
    ensures
        exists|b: int| 0 <= b < directory.len() && #[trigger] directory[b] >= DIRECTORY_TOMBSTONE,
{
    if forall|b: int| 0 <= b < directory.len() ==> #[trigger] directory[b] < DIRECTORY_TOMBSTONE {
        let names = directory.map_values(|entry: u16| entry as int);
        assert(names.no_duplicates()) by {
            assert forall|a: int, b: int| 0 <= a < names.len() && 0 <= b < names.len() && a
                != b implies names[a] != names[b] by {
                if a < b {
                    assert(directory[a] != directory[b]);
                } else {
                    assert(directory[b] != directory[a]);
                }
            }
        }
        names.unique_seq_to_set();
        let range = vstd::set_lib::set_int_range(0, slots.len() as int);
        vstd::set_lib::lemma_int_range(0, slots.len() as int);
        assert(names.to_set().subset_of(range)) by {
            assert forall|value: int| names.to_set().contains(value) implies range.contains(
                value,
            ) by {
                let b = choose|b: int| 0 <= b < names.len() && names[b] == value;
                assert(directory[b] < slots.len());
            }
        }
        vstd::set_lib::lemma_len_subset(names.to_set(), range);
        assert(false);
    }
}

/// The first bucket of the probe sequence of `key` that holds no slot is
/// `probe` steps from the key's home.
pub open spec fn free_at(directory: Seq<u16>, key: ResidentSubdivisionKey, probe: int) -> bool {
    let buckets = directory.len() as int;
    let home = home_bucket(key, buckets);
    &&& 0 <= probe < buckets
    &&& directory[probed_bucket(home, probe, buckets)] >= DIRECTORY_TOMBSTONE
    &&& forall|p: int|
        #![trigger directory[probed_bucket(home, p, buckets)]]
        0 <= p < probe ==> directory[probed_bucket(home, p, buckets)] < DIRECTORY_TOMBSTONE
}

/// Entering `slot` under `key`: the first bucket of the probe sequence that
/// holds no slot now names it, and no other bucket changes.
pub open spec fn inserted(
    before: Seq<u16>,
    after: Seq<u16>,
    key: ResidentSubdivisionKey,
    slot: int,
) -> bool {
    let buckets = before.len() as int;
    exists|probe: int| #[trigger]
        free_at(before, key, probe) && after == before.update(
            probed_bucket(home_bucket(key, buckets), probe, buckets),
            slot as u16,
        )
}

/// Enter a slot into the directory, in the first bucket of its probe sequence
/// that holds no slot.
pub fn resident_subdivision_directory_insert(
    directory: &mut Vec<u16>,
    key: ResidentSubdivisionKey,
    slot_index: usize,
)
    requires
        exists|b: int|
            0 <= b < old(directory)@.len() && #[trigger] old(directory)@[b] >= DIRECTORY_TOMBSTONE,
        slot_index < DIRECTORY_TOMBSTONE,
    ensures
        inserted(old(directory)@, final(directory)@, key, slot_index as int),
{
    let buckets: usize = directory.len();
    let home: usize = resident_subdivision_key_hash(key) as usize % buckets;
    let mut bucket: usize = home;
    let mut tombstone: Option<usize> = None;
    let ghost mut tombstone_probe: int = 0;
    let mut probes: usize = 0;
    let ghost before: Seq<u16> = directory@;
    while probes < buckets
        invariant
            directory@ == before,
            before == old(directory)@,
            exists|b: int| 0 <= b < before.len() && #[trigger] before[b] >= DIRECTORY_TOMBSTONE,
            buckets == before.len(),
            home == home_bucket(key, buckets as int),
            home < buckets,
            slot_index < DIRECTORY_TOMBSTONE,
            probes <= buckets,
            probes < buckets ==> bucket == probed_bucket(home as int, probes as int, buckets as int),
            tombstone is None ==> forall|p: int|
                #![trigger before[probed_bucket(home as int, p, buckets as int)]]
                0 <= p < probes ==> before[probed_bucket(home as int, p, buckets as int)]
                    < DIRECTORY_TOMBSTONE,
            tombstone matches Some(at) ==> free_at(before, key, tombstone_probe) && at
                == probed_bucket(home as int, tombstone_probe, buckets as int),
        decreases buckets - probes,
    {
        let entry: u16 = directory[bucket];
        if entry == DIRECTORY_EMPTY {
            let at: usize = match tombstone {
                Some(earlier) => earlier,
                None => bucket,
            };
            assert(tombstone is None ==> free_at(before, key, probes as int));
            directory.set(at, slot_index as u16);
            return;
        }
        if entry == DIRECTORY_TOMBSTONE && tombstone.is_none() {
            tombstone = Some(bucket);
            proof {
                tombstone_probe = probes as int;
                assert(free_at(before, key, probes as int));
            }
        }
        bucket = if bucket + 1 == buckets {
            0
        } else {
            bucket + 1
        };
        probes += 1;
    }
    proof {
        let spare = choose|b: int|
            0 <= b < before.len() && #[trigger] before[b] >= DIRECTORY_TOMBSTONE;
        let p = if spare >= home {
            spare - home
        } else {
            spare - home + buckets
        };
        assert(probed_bucket(home as int, p, buckets as int) == spare);
        assert(tombstone is Some);
    }
    if let Some(at) = tombstone {
        directory.set(at, slot_index as u16);
    }
}

/// After a slot is entered under its key, the key is found in it. Exactly one
/// bucket has changed, and it held no slot.
pub proof fn an_inserted_slot_is_found(
    before: Seq<u16>,
    after: Seq<u16>,
    slots: Seq<ResidentSubdivisionSlot>,
    key: ResidentSubdivisionKey,
    slot: int,
)
    requires
        names_slots(before, slots),
        0 <= slot < slots.len(),
        slot < DIRECTORY_TOMBSTONE,
        slots[slot].valid,
        slots[slot].key == key,
        forall|i: int|
            #![trigger slots[i]]
            0 <= i < slots.len() && i != slot && slots[i].valid ==> slots[i].key != key,
        inserted(before, after, key, slot),
    ensures
        exists|b: int|
            #![trigger before[b]]
            0 <= b < before.len() && before[b] >= DIRECTORY_TOMBSTONE && after == before.update(
                b,
                slot as u16,
            ),
        names_slots(after, slots),
        lookup(after, slots, key) == Some(slot as usize),
{
    let buckets = before.len() as int;
    let home = home_bucket(key, buckets);
    let place = choose|probe: int| #[trigger]
        free_at(before, key, probe) && after == before.update(
            probed_bucket(home, probe, buckets),
            slot as u16,
        );
    let bucket = probed_bucket(home, place, buckets);
    assert(0 <= bucket < buckets);
    assert(before[bucket] >= DIRECTORY_TOMBSTONE);
    assert(after[bucket] == slot);
    assert forall|b: int|
        #![trigger after[b]]
        0 <= b < after.len() && after[b] < DIRECTORY_TOMBSTONE implies after[b] < slots.len() by {
        if b != bucket {
            assert(after[b] == before[b]);
        }
    }
    assert forall|p: int|
        #![trigger after[probed_bucket(home, p, buckets)]]
        0 <= p < place implies after[probed_bucket(home, p, buckets)] != DIRECTORY_EMPTY by {
        let at = probed_bucket(home, p, buckets);
        assert(before[at] < DIRECTORY_TOMBSTONE);
        assert(at != bucket);
    }
    some_probe_finds(after, slots, key, place);
    let probe = choose|q: int| q <= place && #[trigger] found_at(after, slots, key, q);
    lookup_is_found(after, slots, key, probe);
    let at = probed_bucket(home, probe, buckets);
    assert(0 <= at < buckets);
    assert(after[at] < slots.len());
}

proof fn inserting_keeps_matches(
    before: Seq<u16>,
    after: Seq<u16>,
    slots: Seq<ResidentSubdivisionSlot>,
    slot: int,
)
    requires
        directory_matches(before, slots, slot),
        0 <= slot < slots.len(),
        slots[slot].valid,
        inserted(before, after, slots[slot].key, slot),
    ensures
        directory_matches(after, slots, -1),
{
    let buckets = before.len() as int;
    let home = home_bucket(slots[slot].key, buckets);
    let probe = choose|probe: int| #[trigger]
        free_at(before, slots[slot].key, probe) && after == before.update(
            probed_bucket(home, probe, buckets),
            slot as u16,
        );
    let at = probed_bucket(home, probe, buckets);
    assert(0 <= at < buckets);
    placing_keeps_matches(before, after, slots, slot, at, probe);
}

proof fn placing_keeps_matches(
    before: Seq<u16>,
    after: Seq<u16>,
    slots: Seq<ResidentSubdivisionSlot>,
    slot: int,
    at: int,
    probe: int,
)
    requires
        directory_matches(before, slots, slot),
        0 <= slot < slots.len(),
        slots[slot].valid,
        0 <= at < before.len(),
        before[at] >= DIRECTORY_TOMBSTONE,
        after == before.update(at, slot as u16),
        0 <= probe < before.len(),
        at == probed_bucket(
            home_bucket(slots[slot].key, before.len() as int),
            probe,
            before.len() as int,
        ),
        forall|p: int|
            #![trigger before[probed_bucket(home_bucket(slots[slot].key, before.len() as int), p, before.len() as int)]]
            0 <= p < probe ==> before[probed_bucket(
                home_bucket(slots[slot].key, before.len() as int),
                p,
                before.len() as int,
            )] != DIRECTORY_EMPTY,
    ensures
        directory_matches(after, slots, -1),
{
    let buckets = before.len() as int;
    assert forall|i: int| #![trigger slots[i]] 0 <= i < slots.len() && slots[i].valid implies exists|
        q: int,
    |
        #[trigger] placed_at(after, slots, i, q) by {
        let home = home_bucket(slots[i].key, buckets);
        if i == slot {
            assert forall|p: int|
                #![trigger after[probed_bucket(home, p, buckets)]]
                0 <= p < probe implies after[probed_bucket(home, p, buckets)]
                != DIRECTORY_EMPTY by {
                assert(before[probed_bucket(home, p, buckets)] != DIRECTORY_EMPTY);
            }
            assert(placed_at(after, slots, i, probe));
        } else {
            let q = choose|q: int| #[trigger] placed_at(before, slots, i, q);
            assert(before[probed_bucket(home, q, buckets)] == i);
            assert forall|p: int|
                #![trigger after[probed_bucket(home, p, buckets)]]
                0 <= p < q implies after[probed_bucket(home, p, buckets)] != DIRECTORY_EMPTY by {
                assert(before[probed_bucket(home, p, buckets)] != DIRECTORY_EMPTY);
            }
            assert(placed_at(after, slots, i, q));
        }
    }
    assert forall|b: int|
        #![trigger after[b]]
        0 <= b < after.len() && after[b] < DIRECTORY_TOMBSTONE implies after[b] < slots.len()
        && after[b] != -1 && slots[after[b] as int].valid by {
        if b != at {
            assert(after[b] == before[b]);
        }
    }
    assert forall|a: int, b: int|
        #![trigger after[a], after[b]]
        0 <= a < b < after.len() && after[a] < DIRECTORY_TOMBSTONE implies after[a] != after[b] by {
        if a != at {
            assert(after[a] == before[a]);
        }
        if b != at {
            assert(after[b] == before[b]);
        }
    }
}

/// Frames since a slot was last used.
pub open spec fn slot_age(frame: u32, last_used_frame: u32) -> u32 {
    frame.wrapping_sub(last_used_frame)
}

/// How a slot stands in the choice of one to give up.
pub struct SlotUse {
    pub valid: bool,
    pub last_used_frame: u32,
    pub screen_z: u16,
}

/// A slot used in neither this frame nor the last one may be given up.
pub open spec fn may_replace(slot: SlotUse, frame: u32) -> bool {
    slot_age(frame, slot.last_used_frame) >= 2
}

/// The farther slot goes first, then the one unused for longer.
pub open spec fn goes_before(slot: SlotUse, other: SlotUse, frame: u32) -> bool {
    slot.screen_z > other.screen_z || (slot.screen_z == other.screen_z && slot_age(
        frame,
        slot.last_used_frame,
    ) > slot_age(frame, other.last_used_frame))
}

/// The slot to give up, if all are valid: of those that may be replaced the
/// one that goes before the others, and the first of equals.
pub open spec fn is_victim(slots: Seq<SlotUse>, frame: u32, victim: int) -> bool {
    &&& 0 <= victim < slots.len()
    &&& may_replace(slots[victim], frame)
    &&& forall|j: int|
        #![trigger slots[j]]
        0 <= j < slots.len() && may_replace(slots[j], frame) ==> (j < victim ==> goes_before(
            slots[victim],
            slots[j],
            frame,
        )) && (j > victim ==> !goes_before(slots[j], slots[victim], frame))
}

/// The slot that a new key takes: the first invalid one, else the victim.
pub open spec fn taken_slot(slots: Seq<SlotUse>, frame: u32, taken: Option<usize>) -> bool {
    match taken {
        Some(index) => {
            &&& index < slots.len()
            &&& !slots[index as int].valid ==> forall|j: int|
                #![trigger slots[j]]
                0 <= j < index ==> slots[j].valid
            &&& slots[index as int].valid ==> (forall|j: int|
                #![trigger slots[j]]
                0 <= j < slots.len() ==> slots[j].valid) && is_victim(slots, frame, index as int)
        },
        None => forall|j: int|
            #![trigger slots[j]]
            0 <= j < slots.len() ==> slots[j].valid && !may_replace(slots[j], frame),
    }
}

/// Slots seen as candidates.
pub open spec fn resident_uses(slots: Seq<ResidentSubdivisionSlot>) -> Seq<SlotUse> {
    slots.map_values(
        |slot: ResidentSubdivisionSlot|
            SlotUse {
                valid: slot.valid,
                last_used_frame: slot.last_used_frame,
                screen_z: slot.screen_z,
            },
    )
}

/// There is at most one slot for a new key to take.
pub proof fn taken_slot_is_unique(slots: Seq<SlotUse>, frame: u32, first: Option<usize>, second: Option<usize>)
    requires
        taken_slot(slots, frame, first),
        taken_slot(slots, frame, second),
    ensures
        first == second,
{
    if first is Some && second is Some {
        let a = first->0 as int;
        let b = second->0 as int;
        assert(slots[a].valid == slots[b].valid);
        if a < b {
            assert(slots[a].valid);
            assert(goes_before(slots[b], slots[a], frame));
        } else if b < a {
            assert(slots[b].valid);
            assert(goes_before(slots[a], slots[b], frame));
        }
    } else if first is Some {
        assert(slots[first->0 as int].valid);
    } else if second is Some {
        assert(slots[second->0 as int].valid);
    }
}

/// A slot drawn in this frame or the last is never given up: the ordering
/// table of a frame in flight may still reach its packets.
pub proof fn live_slots_are_kept(slots: Seq<SlotUse>, frame: u32, taken: usize)
    requires
        taken_slot(slots, frame, Some(taken)),
        slots[taken as int].valid,
    ensures
        slot_age(frame, slots[taken as int].last_used_frame) >= 2,
{
}

fn take_resident_slot(slots: &Vec<ResidentSubdivisionSlot>, frame: u32) -> (taken: Option<usize>)
    ensures
        taken_slot(resident_uses(slots@), frame, taken),
{
    let ghost uses = resident_uses(slots@);
    let mut index: usize = 0;
    while index < slots.len()
        invariant
            index <= slots@.len(),
            uses == resident_uses(slots@),
            forall|j: int| #![trigger uses[j]] 0 <= j < index ==> uses[j].valid,
        decreases slots@.len() - index,
    {
        if !slots[index].valid {
            assert(!uses[index as int].valid);
            return Some(index);
        }
        index += 1;
    }
    let mut victim: Option<usize> = None;
    let mut candidate: usize = 0;
    while candidate < slots.len()
        invariant
            candidate <= slots@.len(),
            uses == resident_uses(slots@),
            forall|j: int| #![trigger uses[j]] 0 <= j < slots@.len() ==> uses[j].valid,
            match victim {
                Some(best) => best < candidate && is_victim(
                    uses.take(candidate as int),
                    frame,
                    best as int,
                ),
                None => forall|j: int|
                    #![trigger uses[j]]
                    0 <= j < candidate ==> !may_replace(uses[j], frame),
            },
        decreases slots@.len() - candidate,
    {
        let slot: ResidentSubdivisionSlot = slots[candidate];
        let age: u32 = frame.wrapping_sub(slot.last_used_frame);
        let ghost next = uses.take(candidate + 1);
        assert(next[candidate as int] == uses[candidate as int]);
        assert(forall|j: int|
            #![trigger next[j]]
            0 <= j < candidate ==> next[j] == uses.take(candidate as int)[j]);
        if age >= 2 {
            match victim {
                Some(best) => {
                    let current: ResidentSubdivisionSlot = slots[best];
                    assert(next[best as int] == uses[best as int]);
                    if slot.screen_z > current.screen_z || (slot.screen_z == current.screen_z && age
                        > frame.wrapping_sub(current.last_used_frame)) {
                        victim = Some(candidate);
                        assert forall|j: int|
                            #![trigger next[j]]
                            0 <= j < next.len() && may_replace(next[j], frame) && j
                                < candidate implies goes_before(
                            next[candidate as int],
                            next[j],
                            frame,
                        ) by {
                            assert(uses.take(candidate as int)[j] == next[j]);
                        }
                    } else {
                        assert(is_victim(next, frame, best as int));
                    }
                },
                None => {
                    victim = Some(candidate);
                    assert forall|j: int| #![trigger next[j]] 0 <= j < candidate implies
                        !may_replace(next[j], frame) by {
                        assert(next[j] == uses[j]);
                    }
                },
            }
        } else {
            proof {
                if victim is Some {
                    assert(is_victim(next, frame, victim->0 as int));
                }
            }
        }
        candidate += 1;
    }
    assert(uses.take(candidate as int) =~= uses);
    victim
}

/// One class of slabs with the directory that finds them.
pub struct ResidentLevel {
    pub slots: Vec<ResidentSubdivisionSlot>,
    pub directory: Vec<u16>,
}

pub open spec fn unused_slot() -> ResidentSubdivisionSlot {
    ResidentSubdivisionSlot {
        key: ResidentSubdivisionKey { material: 0, source_face: 0, root: 0, level: 0, underdraw: 0 },
        last_used_frame: 0,
        screen_z: 0,
        initialized_pools: 0,
        valid: false,
    }
}

/// A slot that has just been given to `key`.
pub open spec fn fresh_slot(key: ResidentSubdivisionKey, frame: u32, screen_z: u16, pool_bit: u8) -> ResidentSubdivisionSlot {
    ResidentSubdivisionSlot {
        key,
        last_used_frame: frame,
        screen_z,
        initialized_pools: pool_bit,
        valid: true,
    }
}

/// A slot that has been used again.
pub open spec fn touched_slot(slot: ResidentSubdivisionSlot, frame: u32, screen_z: u16, pool_bit: u8) -> ResidentSubdivisionSlot {
    ResidentSubdivisionSlot {
        key: slot.key,
        last_used_frame: frame,
        screen_z,
        initialized_pools: slot.initialized_pools | pool_bit,
        valid: slot.valid,
    }
}

fn unused_slots(count: usize) -> (slots: Vec<ResidentSubdivisionSlot>)
    ensures
        slots@ == Seq::new(count as nat, |i: int| unused_slot()),
{
    let mut slots: Vec<ResidentSubdivisionSlot> = Vec::new();
    while slots.len() < count
        invariant
            slots@.len() <= count,
            slots@ == Seq::new(slots@.len(), |i: int| unused_slot()),
        decreases count - slots@.len(),
    {
        slots.push(
            ResidentSubdivisionSlot {
                key: ResidentSubdivisionKey {
                    material: 0,
                    source_face: 0,
                    root: 0,
                    level: 0,
                    underdraw: 0,
                },
                last_used_frame: 0,
                screen_z: 0,
                initialized_pools: 0,
                valid: false,
            },
        );
        assert(slots@ =~= Seq::new(slots@.len(), |i: int| unused_slot()));
    }
    slots
}

fn empty_directory(count: usize) -> (directory: Vec<u16>)
    ensures
        directory@ == Seq::new(count as nat, |i: int| DIRECTORY_EMPTY),
{
    let mut directory: Vec<u16> = Vec::new();
    while directory.len() < count
        invariant
            directory@.len() <= count,
            directory@ == Seq::new(directory@.len(), |i: int| DIRECTORY_EMPTY),
        decreases count - directory@.len(),
    {
        directory.push(DIRECTORY_EMPTY);
        assert(directory@ =~= Seq::new(directory@.len(), |i: int| DIRECTORY_EMPTY));
    }
    directory
}

/// `slot` marked unused, its words in no arena.
pub open spec fn forgotten_slot(slot: ResidentSubdivisionSlot) -> ResidentSubdivisionSlot {
    ResidentSubdivisionSlot {
        key: slot.key,
        last_used_frame: slot.last_used_frame,
        screen_z: slot.screen_z,
        initialized_pools: 0,
        valid: false,
    }
}

fn forget_slots(slots: &mut Vec<ResidentSubdivisionSlot>)
    ensures
        final(slots)@ == old(slots)@.map_values(|slot: ResidentSubdivisionSlot| forgotten_slot(slot)),
{
    let mut index: usize = 0;
    while index < slots.len()
        invariant
            index <= slots@.len(),
            slots@.len() == old(slots)@.len(),
            forall|i: int|
                #![trigger slots@[i]]
                0 <= i < slots@.len() ==> slots@[i] == if i < index {
                    forgotten_slot(old(slots)@[i])
                } else {
                    old(slots)@[i]
                },
        decreases slots@.len() - index,
    {
        let mut slot: ResidentSubdivisionSlot = slots[index];
        slot.valid = false;
        slot.initialized_pools = 0;
        slots.set(index, slot);
        index += 1;
    }
    assert(slots@ =~= old(slots)@.map_values(
        |slot: ResidentSubdivisionSlot| forgotten_slot(slot),
    ));
}

proof fn overwriting_keeps_matches(
    directory: Seq<u16>,
    before: Seq<ResidentSubdivisionSlot>,
    index: int,
    absent: int,
    slot: ResidentSubdivisionSlot,
)
    requires
        directory_matches(directory, before, absent),
        0 <= index < before.len(),
        absent == index || (absent == -1 && !before[index].valid),
        !key_is_cached(before, slot.key),
        slot.valid,
    ensures
        directory_matches(directory, before.update(index, slot), index),
{
    let after = before.update(index, slot);
    assert forall|b: int|
        #![trigger directory[b]]
        0 <= b < directory.len() && directory[b] < DIRECTORY_TOMBSTONE implies directory[b]
        < after.len() && directory[b] != index && after[directory[b] as int].valid by {
        assert(before[directory[b] as int].valid);
    }
    assert forall|i: int| #![trigger after[i]] 0 <= i < after.len() && i != index
        && after[i].valid implies exists|probe: int|
        #[trigger] placed_at(directory, after, i, probe) by {
        assert(before[i].valid);
        let probe = choose|probe: int| #[trigger] placed_at(directory, before, i, probe);
        assert(placed_at(directory, after, i, probe));
    }
    assert forall|i: int, j: int|
        #![trigger after[i], after[j]]
        0 <= i < j < after.len() && after[i].valid && after[j].valid implies after[i].key
        != after[j].key by {
        if i == index {
            assert(before[j].valid);
        } else if j == index {
            assert(before[i].valid);
        } else {
            assert(before[i].key != before[j].key);
        }
    }
}

proof fn touching_keeps_matches(
    directory: Seq<u16>,
    before: Seq<ResidentSubdivisionSlot>,
    index: int,
    slot: ResidentSubdivisionSlot,
)
    requires
        directory_matches(directory, before, -1),
        0 <= index < before.len(),
        slot.key == before[index].key,
        slot.valid == before[index].valid,
    ensures
        directory_matches(directory, before.update(index, slot), -1),
{
    let after = before.update(index, slot);
    assert forall|i: int| #![trigger after[i]] 0 <= i < after.len() && after[i].valid implies exists|
        probe: int,
    |
        #[trigger] placed_at(directory, after, i, probe) by {
        assert(before[i].valid && before[i].key == after[i].key);
        let probe = choose|probe: int| #[trigger] placed_at(directory, before, i, probe);
        assert(placed_at(directory, after, i, probe));
    }
    assert forall|i: int, j: int|
        #![trigger after[i], after[j]]
        0 <= i < j < after.len() && after[i].valid && after[j].valid implies after[i].key
        != after[j].key by {
        assert(before[i].key != before[j].key);
    }
    assert forall|b: int|
        #![trigger directory[b]]
        0 <= b < directory.len() && directory[b] < DIRECTORY_TOMBSTONE implies directory[b]
        < after.len() && directory[b] != -1 && after[directory[b] as int].valid by {
        assert(before[directory[b] as int].valid);
    }
}

/// Where a request for a slab ends up.
#[derive(Copy, Clone, Debug, PartialEq, Eq, Structural)]
pub struct SlotGrant {
    pub index: usize,
    pub resident: bool,
    pub logical_hit: bool,
    pub replaced: bool,
}

/// What a grant leaves of the directory: a slab that is found or refused
/// changes nothing; one that takes a slot is entered, after the slab it
/// replaces has been taken out.
pub open spec fn directory_granted(
    before: Seq<u16>,
    after: Seq<u16>,
    slots: Seq<ResidentSubdivisionSlot>,
    key: ResidentSubdivisionKey,
    grant: Option<SlotGrant>,
) -> bool {
    if grant is Some && !grant->0.logical_hit {
        let index = grant->0.index as int;
        exists|between: Seq<u16>|
            {
                &&& #[trigger] inserted(between, after, key, index)
                &&& grant->0.replaced ==> removed(before, between, slots, slots[index].key, index)
                &&& !grant->0.replaced ==> between == before
            }
    } else {
        after == before
    }
}

/// What asking `before` for `key` gives and leaves behind: a valid slot of
/// that key is used again; otherwise the key takes a slot, unless all are in
/// use, when nothing changes.
pub open spec fn granted(
    before: Seq<ResidentSubdivisionSlot>,
    after: Seq<ResidentSubdivisionSlot>,
    frame: u32,
    key: ResidentSubdivisionKey,
    screen_z: u16,
    pool_bit: u8,
    grant: Option<SlotGrant>,
) -> bool {
    if key_is_cached(before, key) {
        &&& grant is Some
        &&& grant->0.index < before.len()
        &&& before[grant->0.index as int].valid
        &&& before[grant->0.index as int].key == key
        &&& grant->0.logical_hit
        &&& !grant->0.replaced
        &&& grant->0.resident == (before[grant->0.index as int].initialized_pools & pool_bit != 0)
        &&& after == before.update(
            grant->0.index as int,
            touched_slot(before[grant->0.index as int], frame, screen_z, pool_bit),
        )
    } else {
        match grant {
            Some(slot) => {
                &&& taken_slot(resident_uses(before), frame, Some(slot.index))
                &&& !slot.resident
                &&& !slot.logical_hit
                &&& slot.replaced == before[slot.index as int].valid
                &&& after == before.update(
                    slot.index as int,
                    fresh_slot(key, frame, screen_z, pool_bit),
                )
            },
            None => taken_slot(resident_uses(before), frame, None) && after == before,
        }
    }
}

impl ResidentLevel {
    pub open spec fn valid(&self) -> bool {
        directory_matches(self.directory@, self.slots@, -1)
    }

    pub fn new(slot_count: usize, bucket_count: usize) -> (level: Self)
        requires
            slot_count < bucket_count < DIRECTORY_TOMBSTONE,
        ensures
            level.valid(),
            level.slots@ == Seq::new(slot_count as nat, |i: int| unused_slot()),
            level.directory@ == Seq::new(bucket_count as nat, |i: int| DIRECTORY_EMPTY),
    {
        ResidentLevel { slots: unused_slots(slot_count), directory: empty_directory(bucket_count) }
    }

    /// Forget every slab.
    pub fn clear(&mut self)
        requires
            old(self).valid(),
        ensures
            final(self).valid(),
            final(self).slots@ == old(self).slots@.map_values(
                |slot: ResidentSubdivisionSlot| forgotten_slot(slot),
            ),
            final(self).directory@ == Seq::new(
                old(self).directory@.len(),
                |i: int| DIRECTORY_EMPTY,
            ),
    {
        forget_slots(&mut self.slots);
        let buckets: usize = self.directory.len();
        self.directory = empty_directory(buckets);
    }

    /// Find the slab of `key`, or give it one.
    pub fn grant(
        &mut self,
        frame: u32,
        key: ResidentSubdivisionKey,
        screen_z: u16,
        pool_bit: u8,
    ) -> (grant: Option<SlotGrant>)
        requires
            old(self).valid(),
        ensures
            final(self).valid(),
            final(self).directory@.len() == old(self).directory@.len(),
            directory_granted(
                old(self).directory@,
                final(self).directory@,
                old(self).slots@,
                key,
                grant,
            ),
            granted(
                old(self).slots@,
                final(self).slots@,
                frame,
                key,
                screen_z,
                pool_bit,
                grant,
            ),
    {
        let ghost before = self.slots@;
        proof {
            lookup_finds_cached_keys(self.directory@, self.slots@, -1, key);
        }
        let found: Option<usize> = resident_subdivision_directory_find(
            &self.directory,
            &self.slots,
            key,
        );
        if let Some(index) = found {
            let mut slot: ResidentSubdivisionSlot = self.slots[index];
            let resident: bool = slot.initialized_pools & pool_bit != 0;
            slot.initialized_pools |= pool_bit;
            slot.last_used_frame = frame;
            slot.screen_z = screen_z;
            proof {
                touching_keeps_matches(self.directory@, before, index as int, slot);
            }
            self.slots.set(index, slot);
            return Some(SlotGrant { index, resident, logical_hit: true, replaced: false });
        }
        let index: usize = match take_resident_slot(&self.slots, frame) {
            Some(index) => index,
            None => {
                return None;
            },
        };
        let replaced: bool = self.slots[index].valid;
        if replaced {
            let old_key: ResidentSubdivisionKey = self.slots[index].key;
            resident_subdivision_directory_remove(
                &mut self.directory,
                &self.slots,
                old_key,
                index,
            );
            proof {
                removing_keeps_matches(
                    old(self).directory@,
                    self.directory@,
                    self.slots@,
                    index as int,
                );
            }
        }
        let slot: ResidentSubdivisionSlot = ResidentSubdivisionSlot {
            key,
            last_used_frame: frame,
            screen_z,
            initialized_pools: pool_bit,
            valid: true,
        };
        proof {
            let absent = if replaced {
                index as int
            } else {
                -1
            };
            overwriting_keeps_matches(self.directory@, before, index as int, absent, slot);
        }
        self.slots.set(index, slot);
        let ghost between = self.directory@;
        proof {
            directory_has_room(between, self.slots@, index as int);
        }
        resident_subdivision_directory_insert(&mut self.directory, key, index);
        proof {
            inserting_keeps_matches(between, self.directory@, self.slots@, index as int);
        }
        let grant: Option<SlotGrant> = Some(
            SlotGrant { index, resident: false, logical_hit: false, replaced },
        );
        assert(directory_granted(old(self).directory@, self.directory@, before, key, grant)) by {
            assert(inserted(between, self.directory@, key, index as int));
            assert(replaced ==> removed(
                old(self).directory@,
                between,
                before,
                before[index as int].key,
                index as int,
            ));
            assert(!replaced ==> between == old(self).directory@);
            assert(grant->0.index == index && grant->0.replaced == replaced);
        }
        grant
    }
}

/// How many slabs of each class a cache holds.
#[derive(Copy, Clone, Debug, PartialEq, Eq, Structural)]
pub struct CacheShape {
    pub level1_slots: usize,
    pub level1_buckets: usize,
    pub level2_slots: usize,
    pub level2_buckets: usize,
    /// Undivided packets; a multiple of the set size.
    pub base_slots: usize,
}

impl CacheShape {
    pub open spec fn valid(&self) -> bool {
        &&& self.level1_slots < self.level1_buckets <= 1024
        &&& self.level2_slots < self.level2_buckets <= 1024
        &&& self.base_slots <= 1024
        &&& self.base_slots % BASE_PACKET_WAYS == 0
    }

    /// Both subdivision levels, no undivided packets.
    pub fn subdivided() -> (shape: Self)
        ensures
            shape.valid(),
            shape == (CacheShape {
                level1_slots: 117,
                level1_buckets: 256,
                level2_slots: 26,
                level2_buckets: 64,
                base_slots: 0,
            }),
    {
        CacheShape {
            level1_slots: 117,
            level1_buckets: 256,
            level2_slots: 26,
            level2_buckets: 64,
            base_slots: 0,
        }
    }

    /// The second level and the undivided packets.
    pub fn with_base_packets() -> (shape: Self)
        ensures
            shape.valid(),
            shape == (CacheShape {
                level1_slots: 0,
                level1_buckets: 1,
                level2_slots: 26,
                level2_buckets: 64,
                base_slots: 512,
            }),
    {
        CacheShape {
            level1_slots: 0,
            level1_buckets: 1,
            level2_slots: 26,
            level2_buckets: 64,
            base_slots: 512,
        }
    }
}

/// Word offset of a first-level slab.
pub open spec fn level1_offset(index: int) -> int {
    index * LEVEL1_WORDS
}

/// Word offset of a second-level slab.
pub open spec fn level2_offset(level1_slots: int, index: int) -> int {
    level1_slots * LEVEL1_WORDS + index * LEVEL2_WORDS
}

/// Word offset of an undivided packet.
pub open spec fn base_offset(level1_slots: int, level2_slots: int, index: int) -> int {
    level1_slots * LEVEL1_WORDS + level2_slots * LEVEL2_WORDS + index * BASE_PACKET_WORDS
}

/// The slabs of one cache lie one after the other and never overlap.
pub proof fn slabs_do_not_overlap(
    level1_slots: int,
    level2_slots: int,
    first: int,
    second: int,
    third: int,
)
    requires
        0 <= first < level1_slots,
        0 <= second < level2_slots,
        0 <= third,
    ensures
        level1_offset(first) + LEVEL1_WORDS <= level1_offset(first + 1),
        level1_offset(first) + LEVEL1_WORDS <= level2_offset(level1_slots, second),
        level2_offset(level1_slots, second) + LEVEL2_WORDS <= level2_offset(
            level1_slots,
            second + 1,
        ),
        level2_offset(level1_slots, second) + LEVEL2_WORDS <= base_offset(
            level1_slots,
            level2_slots,
            third,
        ),
        base_offset(level1_slots, level2_slots, third) + BASE_PACKET_WORDS <= base_offset(
            level1_slots,
            level2_slots,
            third + 1,
        ),
{
}

/// All resident slabs of one map.
pub struct ResidentSubdivisionCache {
    pub level1: ResidentLevel,
    pub level2: ResidentLevel,
    pub base_packets: Vec<ResidentSubdivisionSlot>,
    pub map_generation: u32,
}

/// Set of undivided packets a key belongs to.
pub open spec fn base_set(key: ResidentSubdivisionKey, slots: int) -> int {
    (key_hash(key) as int % (slots / 4)) * 4
}

/// Of the first `ways` slots of a set, the one an undivided packet takes when
/// none holds its key: the first invalid one, else the one unused for longest
/// among those not used this frame.
pub open spec fn base_victim(
    slots: Seq<ResidentSubdivisionSlot>,
    first: int,
    ways: nat,
    frame: u32,
) -> Option<int>
    decreases ways,
{
    if ways == 0 {
        None
    } else {
        let index = first + ways - 1;
        let earlier = base_victim(slots, first, (ways - 1) as nat, frame);
        if earlier is Some && !slots[earlier->0].valid {
            earlier
        } else if !slots[index].valid {
            Some(index)
        } else if slots[index].last_used_frame != frame && (earlier is None || slot_age(
            frame,
            slots[index].last_used_frame,
        ) > slot_age(frame, slots[earlier->0].last_used_frame)) {
            Some(index)
        } else {
            earlier
        }
    }
}

/// The slot of a set that holds `key`.
pub open spec fn base_hit(
    slots: Seq<ResidentSubdivisionSlot>,
    first: int,
    ways: nat,
    key: ResidentSubdivisionKey,
) -> Option<int>
    decreases ways,
{
    if ways == 0 {
        None
    } else {
        let index = first + ways - 1;
        let earlier = base_hit(slots, first, (ways - 1) as nat, key);
        if earlier is Some {
            earlier
        } else if slots[index].valid && slots[index].key == key {
            Some(index)
        } else {
            None
        }
    }
}

proof fn base_hit_in_set(slots: Seq<ResidentSubdivisionSlot>, first: int, ways: nat, key: ResidentSubdivisionKey)
    ensures
        base_hit(slots, first, ways, key) matches Some(index) ==> first <= index < first + ways
            && slots[index].valid && slots[index].key == key,
    decreases ways,
{
    if ways > 0 {
        base_hit_in_set(slots, first, (ways - 1) as nat, key);
    }
}

/// An undivided packet linked in the frame being built is never given up.
pub proof fn base_victim_is_free(slots: Seq<ResidentSubdivisionSlot>, first: int, ways: nat, frame: u32)
    ensures
        base_victim(slots, first, ways, frame) matches Some(index) ==> first <= index < first
            + ways && (slots[index].valid ==> slots[index].last_used_frame != frame),
    decreases ways,
{
    if ways > 0 {
        base_victim_is_free(slots, first, (ways - 1) as nat, frame);
    }
}

/// Every slot and every directory bucket is as it was.
pub open spec fn same_slabs(
    before: ResidentSubdivisionCache,
    after: ResidentSubdivisionCache,
) -> bool {
    &&& after.level1.slots@ == before.level1.slots@
    &&& after.level1.directory@ == before.level1.directory@
    &&& after.level2.slots@ == before.level2.slots@
    &&& after.level2.directory@ == before.level2.directory@
    &&& after.base_packets@ == before.base_packets@
    &&& after.map_generation == before.map_generation
}

/// What asking a cache for the slab of a divided root gives and leaves behind.
/// A refusal leaves everything as it was.
pub open spec fn slab_acquired(
    before: ResidentSubdivisionCache,
    after: ResidentSubdivisionCache,
    active_pool: usize,
    frame: u32,
    key: ResidentSubdivisionKey,
    screen_z: u16,
    acquired: Option<ResidentSubdivisionAcquire>,
) -> bool {
    &&& after.map_generation == before.map_generation
    &&& after.base_packets@ == before.base_packets@
    &&& key.level == 1 ==> after.level2 == before.level2
    &&& key.level != 1 ==> after.level1 == before.level1
    &&& exists|grant: Option<SlotGrant>|
        #[trigger] granted(
            before.class_slots(key.level),
            after.class_slots(key.level),
            frame,
            key,
            screen_z,
            1u8 << active_pool,
            grant,
        ) && directory_granted(
            before.class_directory(key.level),
            after.class_directory(key.level),
            before.class_slots(key.level),
            key,
            grant,
        ) && acquired == before.slab_of(key.level, grant)
    &&& acquired is None ==> same_slabs(before, after)
}

/// What asking a cache for the slot of an undivided packet gives and leaves
/// behind. Its key decides on a set of four slots.
pub open spec fn base_acquired(
    before: ResidentSubdivisionCache,
    after: ResidentSubdivisionCache,
    active_pool: usize,
    frame: u32,
    key: ResidentSubdivisionKey,
    screen_z: u16,
    acquired: Option<ResidentSubdivisionAcquire>,
) -> bool {
    let slots = before.base_packets@;
    let first = base_set(key, slots.len() as int);
    let bit = 1u8 << active_pool;
    &&& after.map_generation == before.map_generation
    &&& after.level1 == before.level1
    &&& after.level2 == before.level2
    &&& match base_hit(slots, first, 4, key) {
        Some(index) => {
            &&& acquired == Some(
                ResidentSubdivisionAcquire {
                    class_offset_words: before.base_word(index),
                    resident: slots[index].initialized_pools & bit != 0,
                    logical_hit: true,
                    replaced: false,
                },
            )
            &&& after.base_packets@ == slots.update(
                index,
                touched_slot(slots[index], frame, screen_z, bit),
            )
        },
        None => match base_victim(slots, first, 4, frame) {
            Some(index) => {
                &&& acquired == Some(
                    ResidentSubdivisionAcquire {
                        class_offset_words: before.base_word(index),
                        resident: false,
                        logical_hit: false,
                        replaced: slots[index].valid,
                    },
                )
                &&& after.base_packets@ == slots.update(
                    index,
                    fresh_slot(key, frame, screen_z, bit),
                )
            },
            None => acquired is None && after.base_packets@ == slots,
        },
    }
}

impl ResidentSubdivisionCache {
    pub open spec fn valid(&self) -> bool {
        &&& self.level1.valid()
        &&& self.level2.valid()
        &&& self.level1.directory@.len() <= 1024
        &&& self.level2.directory@.len() <= 1024
        &&& self.base_packets@.len() <= 1024
        &&& self.base_packets@.len() % 4 == 0
    }

    /// Slots of the class that a subdivision level uses.
    pub open spec fn class_slots(&self, level: u8) -> Seq<ResidentSubdivisionSlot> {
        if level == 1 {
            self.level1.slots@
        } else {
            self.level2.slots@
        }
    }

    /// Directory of the class that a subdivision level uses.
    pub open spec fn class_directory(&self, level: u8) -> Seq<u16> {
        if level == 1 {
            self.level1.directory@
        } else {
            self.level2.directory@
        }
    }

    /// The slab that stands for a granted slot of a subdivision level.
    pub open spec fn slab_of(&self, level: u8, grant: Option<SlotGrant>) -> Option<
        ResidentSubdivisionAcquire,
    > {
        match grant {
            Some(slot) => Some(
                ResidentSubdivisionAcquire {
                    class_offset_words: (if level == 1 {
                        level1_offset(slot.index as int)
                    } else {
                        level2_offset(self.level1.slots@.len() as int, slot.index as int)
                    }) as usize,
                    resident: slot.resident,
                    logical_hit: slot.logical_hit,
                    replaced: slot.replaced,
                },
            ),
            None => None,
        }
    }

    /// Word offset of an undivided packet.
    pub open spec fn base_word(&self, index: int) -> usize {
        base_offset(
            self.level1.slots@.len() as int,
            self.level2.slots@.len() as int,
            index,
        ) as usize
    }

    pub fn new(shape: CacheShape) -> (cache: Self)
        requires
            shape.valid(),
        ensures
            cache.valid(),
            cache.map_generation == u32::MAX,
            cache.level1.slots@ == Seq::new(shape.level1_slots as nat, |i: int| unused_slot()),
            cache.level2.slots@ == Seq::new(shape.level2_slots as nat, |i: int| unused_slot()),
            cache.base_packets@ == Seq::new(shape.base_slots as nat, |i: int| unused_slot()),
            cache.level1.directory@ == Seq::new(
                shape.level1_buckets as nat,
                |i: int| DIRECTORY_EMPTY,
            ),
            cache.level2.directory@ == Seq::new(
                shape.level2_buckets as nat,
                |i: int| DIRECTORY_EMPTY,
            ),
    {
        ResidentSubdivisionCache {
            level1: ResidentLevel::new(shape.level1_slots, shape.level1_buckets),
            level2: ResidentLevel::new(shape.level2_slots, shape.level2_buckets),
            base_packets: unused_slots(shape.base_slots),
            map_generation: u32::MAX,
        }
    }

    /// Another map's slabs mean nothing: forget them all when the map changes.
    pub fn begin_map(&mut self, map_generation: u32)
        requires
            old(self).valid(),
        ensures
            final(self).valid(),
            final(self).map_generation == map_generation,
            old(self).map_generation == map_generation ==> *final(self) == *old(self),
            old(self).map_generation != map_generation ==> {
                &&& final(self).level1.slots@ == old(self).level1.slots@.map_values(
                    |slot: ResidentSubdivisionSlot| forgotten_slot(slot),
                )
                &&& final(self).level2.slots@ == old(self).level2.slots@.map_values(
                    |slot: ResidentSubdivisionSlot| forgotten_slot(slot),
                )
                &&& final(self).base_packets@ == old(self).base_packets@.map_values(
                    |slot: ResidentSubdivisionSlot| forgotten_slot(slot),
                )
                &&& final(self).level1.directory@ == Seq::new(
                    old(self).level1.directory@.len(),
                    |i: int| DIRECTORY_EMPTY,
                )
                &&& final(self).level2.directory@ == Seq::new(
                    old(self).level2.directory@.len(),
                    |i: int| DIRECTORY_EMPTY,
                )
            },
    {
        if self.map_generation != map_generation {
            self.level1.clear();
            self.level2.clear();
            forget_slots(&mut self.base_packets);
            self.map_generation = map_generation;
        }
    }

    /// Hand out the slab of a divided root. `None` when every slab of its
    /// class was used in this frame or the last.
    pub fn acquire(
        &mut self,
        active_pool: usize,
        frame: u32,
        key: ResidentSubdivisionKey,
        screen_z: u16,
    ) -> (acquired: Option<ResidentSubdivisionAcquire>)
        requires
            old(self).valid(),
            active_pool < 8,
        ensures
            final(self).valid(),
            slab_acquired(*old(self), *final(self), active_pool, frame, key, screen_z, acquired),
    {
        let pool_bit: u8 = 1u8 << active_pool;
        if key.level == 1 {
            let grant: Option<SlotGrant> = self.level1.grant(frame, key, screen_z, pool_bit);
            assert(granted(
                old(self).class_slots(key.level),
                self.class_slots(key.level),
                frame,
                key,
                screen_z,
                pool_bit,
                grant,
            ));
            match grant {
                Some(slot) => Some(
                    ResidentSubdivisionAcquire {
                        class_offset_words: slot.index * LEVEL1_WORDS,
                        resident: slot.resident,
                        logical_hit: slot.logical_hit,
                        replaced: slot.replaced,
                    },
                ),
                None => None,
            }
        } else {
            let base: usize = self.level1.slots.len() * LEVEL1_WORDS;
            let grant: Option<SlotGrant> = self.level2.grant(frame, key, screen_z, pool_bit);
            assert(granted(
                old(self).class_slots(key.level),
                self.class_slots(key.level),
                frame,
                key,
                screen_z,
                pool_bit,
                grant,
            ));
            match grant {
                Some(slot) => Some(
                    ResidentSubdivisionAcquire {
                        class_offset_words: base + slot.index * LEVEL2_WORDS,
                        resident: slot.resident,
                        logical_hit: slot.logical_hit,
                        replaced: slot.replaced,
                    },
                ),
                None => None,
            }
        }
    }

    /// Hand out the slot of an undivided packet. Every slot of its set may
    /// already be linked in the frame being built; then there is none, because
    /// replacing one would change a packet that the live ordering table reaches.
    pub fn acquire_base_packet(
        &mut self,
        active_pool: usize,
        frame: u32,
        key: ResidentSubdivisionKey,
        screen_z: u16,
    ) -> (acquired: Option<ResidentSubdivisionAcquire>)
        requires
            old(self).valid(),
            old(self).base_packets@.len() > 0,
            active_pool < 8,
        ensures
            final(self).valid(),
            base_acquired(*old(self), *final(self), active_pool, frame, key, screen_z, acquired),
    {
        let sets: usize = self.base_packets.len() / BASE_PACKET_WAYS;
        let hash: usize = resident_subdivision_key_hash(key) as usize;
        let first: usize = (hash % sets) * BASE_PACKET_WAYS;
        let pool_bit: u8 = 1u8 << active_pool;
        let base: usize = self.level1.slots.len() * LEVEL1_WORDS + self.level2.slots.len()
            * LEVEL2_WORDS;
        let ghost before = self.base_packets@;
        let mut hit: Option<usize> = None;
        let mut way: usize = 0;
        while way < BASE_PACKET_WAYS
            invariant
                way <= 4,
                self.base_packets@ == before,
                first + 4 <= before.len() <= 1024,
                match hit {
                    Some(index) => base_hit(before, first as int, way as nat, key) == Some(
                        index as int,
                    ),
                    None => base_hit(before, first as int, way as nat, key) is None,
                },
            decreases 4 - way,
        {
            let index: usize = first + way;
            if hit.is_none() && self.base_packets[index].valid && self.base_packets[index].key
                == key {
                hit = Some(index);
            }
            way += 1;
        }
        proof {
            base_hit_in_set(before, first as int, 4, key);
        }
        if let Some(index) = hit {
            let mut slot: ResidentSubdivisionSlot = self.base_packets[index];
            let resident: bool = slot.initialized_pools & pool_bit != 0;
            slot.initialized_pools |= pool_bit;
            slot.last_used_frame = frame;
            slot.screen_z = screen_z;
            self.base_packets.set(index, slot);
            return Some(
                ResidentSubdivisionAcquire {
                    class_offset_words: base + index * BASE_PACKET_WORDS,
                    resident,
                    logical_hit: true,
                    replaced: false,
                },
            );
        }
        let mut victim: Option<usize> = None;
        way = 0;
        while way < BASE_PACKET_WAYS
            invariant
                way <= 4,
                self.base_packets@ == before,
                first + 4 <= before.len() <= 1024,
                match victim {
                    Some(index) => base_victim(before, first as int, way as nat, frame) == Some(
                        index as int,
                    ) && index < before.len(),
                    None => base_victim(before, first as int, way as nat, frame) is None,
                },
            decreases 4 - way,
        {
            let index: usize = first + way;
            let slot: ResidentSubdivisionSlot = self.base_packets[index];
            let settled: bool = match victim {
                Some(current) => !self.base_packets[current].valid,
                None => false,
            };
            if !settled {
                if !slot.valid {
                    victim = Some(index);
                } else if slot.last_used_frame != frame {
                    let replace: bool = match victim {
                        Some(current) => frame.wrapping_sub(slot.last_used_frame)
                            > frame.wrapping_sub(self.base_packets[current].last_used_frame),
                        None => true,
                    };
                    if replace {
                        victim = Some(index);
                    }
                }
            }
            way += 1;
        }
        let index: usize = match victim {
            Some(index) => index,
            None => {
                return None;
            },
        };
        let replaced: bool = self.base_packets[index].valid;
        self.base_packets.set(
            index,
            ResidentSubdivisionSlot {
                key,
                last_used_frame: frame,
                screen_z,
                initialized_pools: pool_bit,
                valid: true,
            },
        );
        Some(
            ResidentSubdivisionAcquire {
                class_offset_words: base + index * BASE_PACKET_WORDS,
                resident: false,
                logical_hit: false,
                replaced,
            },
        )
    }
}

/// Asking again for a slab that was just handed out, in the same arena, finds
/// it with its words in place; nothing is allocated or replaced.
pub proof fn granted_slab_is_found_again(
    before: Seq<ResidentSubdivisionSlot>,
    between: Seq<ResidentSubdivisionSlot>,
    after: Seq<ResidentSubdivisionSlot>,
    frame: u32,
    later: u32,
    key: ResidentSubdivisionKey,
    screen_z: u16,
    pool_bit: u8,
    first: Option<SlotGrant>,
    second: Option<SlotGrant>,
)
    requires
        pool_bit != 0,
        forall|i: int, j: int|
            #![trigger before[i], before[j]]
            0 <= i < j < before.len() && before[i].valid && before[j].valid ==> before[i].key
                != before[j].key,
        granted(before, between, frame, key, screen_z, pool_bit, first),
        first is Some,
        granted(between, after, later, key, screen_z, pool_bit, second),
    ensures
        second is Some,
        second->0.index == first->0.index,
        second->0.logical_hit,
        second->0.resident,
        !second->0.replaced,
{
    let index = first->0.index as int;
    assert(between[index].valid && between[index].key == key);
    assert(key_is_cached(between, key));
    let other = second->0.index as int;
    if other != index {
        assert(before[other] == between[other]);
        if key_is_cached(before, key) {
            if other < index {
                assert(before[other].key != before[index].key);
            } else {
                assert(before[index].key != before[other].key);
            }
        } else {
            assert(!(before[other].valid && before[other].key == key));
        }
    }
    let pools = before[index].initialized_pools;
    assert((pools | pool_bit) & pool_bit != 0 && pool_bit & pool_bit != 0) by (bit_vector)
        requires
            pool_bit != 0,
    ;
}

/// What a frame's batches did with the cache.
#[derive(Copy, Clone, Debug, PartialEq, Eq, Structural)]
pub struct SubdivisionCounters {
    pub hits: u32,
    pub allocations: u32,
    pub replacements: u32,
    pub fallbacks: u32,
    pub initializations: u32,
    pub packets: u32,
}

/// Counters after one request.
pub open spec fn counted(
    counters: SubdivisionCounters,
    acquired: Option<ResidentSubdivisionAcquire>,
) -> SubdivisionCounters {
    match acquired {
        Some(slab) => SubdivisionCounters {
            hits: counters.hits.wrapping_add(if slab.logical_hit { 1 } else { 0 }),
            allocations: counters.allocations.wrapping_add(if slab.logical_hit { 0 } else { 1 }),
            replacements: counters.replacements.wrapping_add(if slab.replaced { 1 } else { 0 }),
            fallbacks: counters.fallbacks,
            initializations: counters.initializations.wrapping_add(
                if slab.resident { 0 } else { 1 },
            ),
            packets: counters.packets,
        },
        None => SubdivisionCounters { fallbacks: counters.fallbacks.wrapping_add(1), ..counters },
    }
}

impl SubdivisionCounters {
    pub fn new() -> (counters: Self)
        ensures
            counters == (SubdivisionCounters {
                hits: 0,
                allocations: 0,
                replacements: 0,
                fallbacks: 0,
                initializations: 0,
                packets: 0,
            }),
    {
        SubdivisionCounters {
            hits: 0,
            allocations: 0,
            replacements: 0,
            fallbacks: 0,
            initializations: 0,
            packets: 0,
        }
    }

    /// Note what a request for a slab came to.
    pub fn record(&mut self, acquired: Option<ResidentSubdivisionAcquire>)
        ensures
            *final(self) == counted(*old(self), acquired),
    {
        match acquired {
            Some(slab) => {
                self.hits = self.hits.wrapping_add(if slab.logical_hit { 1 } else { 0 });
                self.allocations = self.allocations.wrapping_add(
                    if slab.logical_hit { 0 } else { 1 },
                );
                self.replacements = self.replacements.wrapping_add(
                    if slab.replaced { 1 } else { 0 },
                );
                self.initializations = self.initializations.wrapping_add(
                    if slab.resident { 0 } else { 1 },
                );
            },
            None => {
                self.fallbacks = self.fallbacks.wrapping_add(1);
            },
        }
    }
}

/// Words at the end of each arena that a cache of this shape keeps.
pub open spec fn resident_pool_words(shape: CacheShape) -> int {
    base_offset(shape.level1_slots as int, shape.level2_slots as int, shape.base_slots as int)
}

/// Where in the two arenas a slab's words start.
pub fn arena_word(shape: CacheShape, active_pool: usize, acquired: ResidentSubdivisionAcquire) -> (word: usize)
    requires
        shape.valid(),
        resident_pool_words(shape) <= GPU_ARENA_WORDS,
        active_pool < 2,
        acquired.class_offset_words < resident_pool_words(shape),
    ensures
        word == slab_word(shape, active_pool as int, acquired.class_offset_words as int),
        active_pool * GPU_ARENA_WORDS <= word < (active_pool + 1) * GPU_ARENA_WORDS,
{
    let pool_words: usize = shape.level1_slots * LEVEL1_WORDS + shape.level2_slots * LEVEL2_WORDS
        + shape.base_slots * BASE_PACKET_WORDS;
    active_pool * GPU_ARENA_WORDS + (GPU_ARENA_WORDS - pool_words) + acquired.class_offset_words
}

/// Where in the two arenas a slab of a pool starts.
pub open spec fn slab_word(shape: CacheShape, active_pool: int, offset: int) -> int {
    active_pool * GPU_ARENA_WORDS + GPU_ARENA_WORDS - resident_pool_words(shape) + offset
}

/// A slab that a root's packets go to.
#[derive(Copy, Clone, Debug, PartialEq, Eq, Structural)]
pub struct RootSlot {
    pub word: usize,
    /// Its packets are there from an earlier frame.
    pub resident: bool,
}

pub open spec fn root_slot(
    shape: CacheShape,
    active_pool: int,
    acquired: Option<ResidentSubdivisionAcquire>,
) -> Option<RootSlot> {
    match acquired {
        Some(slab) => Some(
            RootSlot {
                word: slab_word(shape, active_pool, slab.class_offset_words as int) as usize,
                resident: slab.resident,
            },
        ),
        None => None,
    }
}

/// The key of a divided root.
pub open spec fn root_key(
    source_face: u16,
    root: u8,
    level: u8,
    underdraw: bool,
    material: u32,
) -> ResidentSubdivisionKey {
    ResidentSubdivisionKey {
        material,
        source_face,
        root,
        level,
        underdraw: if underdraw {
            1
        } else {
            0
        },
    }
}

/// The key of an undivided packet.
pub open spec fn base_key(source_face: u16, root: u8, quad: bool, material: u32) -> ResidentSubdivisionKey {
    ResidentSubdivisionKey {
        material,
        source_face,
        root,
        level: if quad {
            1
        } else {
            0
        },
        underdraw: 0,
    }
}

proof fn base_slots_exist(
    slots: Seq<ResidentSubdivisionSlot>,
    key: ResidentSubdivisionKey,
    frame: u32,
)
    requires
        slots.len() > 0,
        slots.len() % 4 == 0,
    ensures
        ({
            let first = base_set(key, slots.len() as int);
            &&& base_hit(slots, first, 4, key) matches Some(index) ==> 0 <= index < slots.len()
            &&& base_victim(slots, first, 4, frame) matches Some(index) ==> 0 <= index
                < slots.len()
        }),
{
    let first = base_set(key, slots.len() as int);
    let sets = slots.len() as int / 4;
    assert(0 <= key_hash(key) as int % sets < sets);
    base_hit_in_set(slots, first, 4, key);
    base_victim_is_free(slots, first, 4, frame);
}

/// The cache as one batch of a frame asks it.
pub struct ResidentSubdivisionSink {
    pub cache: ResidentSubdivisionCache,
    pub shape: CacheShape,
    pub active_pool: usize,
    pub frame: u32,
    pub counters: SubdivisionCounters,
}

impl ResidentSubdivisionSink {
    pub open spec fn valid(&self) -> bool {
        &&& self.cache.valid()
        &&& self.shape.valid()
        &&& self.active_pool < 2
        &&& resident_pool_words(self.shape) <= GPU_ARENA_WORDS
        &&& self.cache.level1.slots@.len() == self.shape.level1_slots
        &&& self.cache.level2.slots@.len() == self.shape.level2_slots
        &&& self.cache.base_packets@.len() == self.shape.base_slots
    }

    /// Hand out the slab of a divided root and count what it came to.
    pub fn acquire_root(
        &mut self,
        source_face: u16,
        root: u8,
        level: u8,
        underdraw: bool,
        material: u32,
        screen_z: u16,
    ) -> (slot: Option<RootSlot>)
        requires
            old(self).valid(),
        ensures
            final(self).valid(),
            final(self).shape == old(self).shape,
            final(self).active_pool == old(self).active_pool,
            final(self).frame == old(self).frame,
            exists|acquired: Option<ResidentSubdivisionAcquire>|
                #[trigger] slab_acquired(
                    old(self).cache,
                    final(self).cache,
                    old(self).active_pool,
                    old(self).frame,
                    root_key(source_face, root, level, underdraw, material),
                    screen_z,
                    acquired,
                ) && final(self).counters == counted(old(self).counters, acquired)
                    && slot == root_slot(old(self).shape, old(self).active_pool as int, acquired),
    {
        let key = ResidentSubdivisionKey {
            material,
            source_face,
            root,
            level,
            underdraw: if underdraw {
                1
            } else {
                0
            },
        };
        let acquired: Option<ResidentSubdivisionAcquire> = self.cache.acquire(
            self.active_pool,
            self.frame,
            key,
            screen_z,
        );
        assert(key == root_key(source_face, root, level, underdraw, material));
        self.counters.record(acquired);
        let slot: Option<RootSlot> = match acquired {
            Some(slab) => Some(
                RootSlot {
                    word: arena_word(self.shape, self.active_pool, slab),
                    resident: slab.resident,
                },
            ),
            None => None,
        };
        assert(slot == root_slot(old(self).shape, old(self).active_pool as int, acquired));
        assert(self.counters == counted(old(self).counters, acquired));
        assert(slab_acquired(
            old(self).cache,
            self.cache,
            old(self).active_pool,
            old(self).frame,
            root_key(source_face, root, level, underdraw, material),
            screen_z,
            acquired,
        ));
        slot
    }

    /// Hand out the slot of an undivided packet and count what it came to.
    pub fn acquire_base_packet(
        &mut self,
        source_face: u16,
        root: u8,
        quad: bool,
        material: u32,
        screen_z: u16,
    ) -> (slot: Option<RootSlot>)
        requires
            old(self).valid(),
            old(self).shape.base_slots > 0,
        ensures
            final(self).valid(),
            final(self).shape == old(self).shape,
            final(self).active_pool == old(self).active_pool,
            final(self).frame == old(self).frame,
            exists|acquired: Option<ResidentSubdivisionAcquire>|
                #[trigger] base_acquired(
                    old(self).cache,
                    final(self).cache,
                    old(self).active_pool,
                    old(self).frame,
                    base_key(source_face, root, quad, material),
                    screen_z,
                    acquired,
                ) && final(self).counters == counted(old(self).counters, acquired)
                    && slot == root_slot(old(self).shape, old(self).active_pool as int, acquired),
    {
        let key = ResidentSubdivisionKey {
            material,
            source_face,
            root,
            level: if quad {
                1
            } else {
                0
            },
            underdraw: 0,
        };
        let acquired: Option<ResidentSubdivisionAcquire> = self.cache.acquire_base_packet(
            self.active_pool,
            self.frame,
            key,
            screen_z,
        );
        assert(key == base_key(source_face, root, quad, material));
        proof {
            base_slots_exist(old(self).cache.base_packets@, key, self.frame);
        }
        self.counters.record(acquired);
        let slot: Option<RootSlot> = match acquired {
            Some(slab) => Some(
                RootSlot {
                    word: arena_word(self.shape, self.active_pool, slab),
                    resident: slab.resident,
                },
            ),
            None => None,
        };
        assert(slot == root_slot(old(self).shape, old(self).active_pool as int, acquired));
        assert(self.counters == counted(old(self).counters, acquired));
        assert(base_acquired(
            old(self).cache,
            self.cache,
            old(self).active_pool,
            old(self).frame,
            base_key(source_face, root, quad, material),
            screen_z,
            acquired,
        ));
        slot
    }

    /// A packet of a slab has been linked into the frame.
    pub fn insert_resident_packet(&mut self)
        requires
            old(self).valid(),
        ensures
            final(self).valid(),
            *final(self) == (ResidentSubdivisionSink {
                counters: SubdivisionCounters {
                    packets: old(self).counters.packets.wrapping_add(1),
                    ..old(self).counters
                },
                ..*old(self)
            }),
    {
        self.counters.packets = self.counters.packets.wrapping_add(1);
    }
}

/// Two roots share a slab just when they agree in face, root, level, underdraw
/// and material; two undivided packets likewise, with their shape for the level.
pub proof fn keys_tell_roots_apart(
    face: u16,
    other_face: u16,
    root: u8,
    other_root: u8,
    level: u8,
    other_level: u8,
    mark: bool,
    other_mark: bool,
    material: u32,
    other_material: u32,
)
    ensures
        root_key(face, root, level, mark, material) == root_key(
            other_face,
            other_root,
            other_level,
            other_mark,
            other_material,
        ) <==> face == other_face && root == other_root && level == other_level && mark
            == other_mark && material == other_material,
        base_key(face, root, mark, material) == base_key(
            other_face,
            other_root,
            other_mark,
            other_material,
        ) <==> face == other_face && root == other_root && mark == other_mark && material
            == other_material,
{
}

/// Every acquisition is counted as a hit, an allocation or a fallback, and a slab
/// whose words are not there as an initialization.
pub proof fn acquisitions_are_counted_once(
    counters: SubdivisionCounters,
    acquired: Option<ResidentSubdivisionAcquire>,
)
    requires
        counters.hits < u32::MAX,
        counters.allocations < u32::MAX,
        counters.replacements < u32::MAX,
        counters.fallbacks < u32::MAX,
        counters.initializations < u32::MAX,
    ensures
        ({
            let after = counted(counters, acquired);
            &&& (after.hits - counters.hits) + (after.allocations - counters.allocations) + (
            after.fallbacks - counters.fallbacks) == 1
            &&& after.fallbacks > counters.fallbacks <==> acquired is None
            &&& after.packets == counters.packets
            &&& acquired is None ==> after.replacements == counters.replacements
                && after.initializations == counters.initializations
            &&& acquired matches Some(slab) ==> {
                &&& after.hits > counters.hits <==> slab.logical_hit
                &&& after.replacements > counters.replacements <==> slab.replaced
                &&& after.initializations > counters.initializations <==> !slab.resident
            }
        }),
{
}

/// A slot that is taken holds its own key, frame, depth and arena; one that is
/// touched keeps its key and gains an arena; one that is forgotten holds nothing.
pub proof fn slots_hold_what_they_were_given(
    key: ResidentSubdivisionKey,
    slot: ResidentSubdivisionSlot,
    frame: u32,
    screen_z: u16,
    pool_bit: u8,
)
    ensures
        ({
            let fresh = fresh_slot(key, frame, screen_z, pool_bit);
            &&& fresh.key == key && fresh.last_used_frame == frame && fresh.screen_z == screen_z
            &&& fresh.initialized_pools == pool_bit && fresh.valid
        }),
        ({
            let touched = touched_slot(slot, frame, screen_z, pool_bit);
            &&& touched.key == slot.key && touched.last_used_frame == frame && touched.screen_z
                == screen_z
            &&& touched.initialized_pools == slot.initialized_pools | pool_bit && touched.valid
                == slot.valid
        }),
        !forgotten_slot(slot).valid && forgotten_slot(slot).initialized_pools == 0,
        forgotten_slot(slot).key == slot.key,
        !unused_slot().valid,
{
}

/// The uses by which a victim is chosen are those of the slots themselves.
pub proof fn uses_are_those_of_the_residents(slots: Seq<ResidentSubdivisionSlot>, index: int)
    requires
        0 <= index < slots.len(),
    ensures
        resident_uses(slots).len() == slots.len(),
        resident_uses(slots)[index].valid == slots[index].valid,
        resident_uses(slots)[index].last_used_frame == slots[index].last_used_frame,
        resident_uses(slots)[index].screen_z == slots[index].screen_z,
{
}

/// The slab that gives way lies farthest of those not used of late, and is the
/// oldest of the farthest.
pub proof fn the_farthest_gives_way(slots: Seq<SlotUse>, frame: u32, victim: int, other: int)
    requires
        is_victim(slots, frame, victim),
        0 <= other < slots.len(),
        may_replace(slots[other], frame),
    ensures
        slots[other].screen_z <= slots[victim].screen_z,
        slots[other].screen_z == slots[victim].screen_z ==> frame.wrapping_sub(
            slots[other].last_used_frame,
        ) <= frame.wrapping_sub(slots[victim].last_used_frame),
        frame.wrapping_sub(slots[victim].last_used_frame) >= 2,
{
    if other < victim {
        assert(goes_before(slots[victim], slots[other], frame));
    } else if other > victim {
        assert(!goes_before(slots[other], slots[victim], frame));
    }
}

/// Probing visits every bucket once, from the home bucket on.
pub proof fn probes_visit_every_bucket(home: int, first: int, second: int, buckets: int)
    requires
        0 <= home < buckets,
        0 <= first < buckets,
        0 <= second < buckets,
    ensures
        0 <= probed_bucket(home, first, buckets) < buckets,
        probed_bucket(home, first, buckets) == (home + first) % buckets,
        probed_bucket(home, 0, buckets) == home,
        first != second ==> probed_bucket(home, first, buckets) != probed_bucket(
            home,
            second,
            buckets,
        ),
{
    if home + first < buckets {
        assert((home + first) % buckets == home + first) by (nonlinear_arith)
            requires
                0 <= home + first < buckets,
        ;
    } else {
        assert((home + first) % buckets == home + first - buckets) by (nonlinear_arith)
            requires
                buckets <= home + first < 2 * buckets,
        ;
    }
}

/// An undivided packet is looked for in the four slots of one set.
pub proof fn base_sets_lie_within_the_slots(key: ResidentSubdivisionKey, slots: int)
    requires
        slots % 4 == 0,
        slots > 0,
    ensures
        0 <= base_set(key, slots),
        base_set(key, slots) + 4 <= slots,
        base_set(key, slots) % 4 == 0,
{
    let sets = slots / 4;
    let at = key_hash(key) as int % sets;
    assert(0 <= at < sets) by (nonlinear_arith)
        requires
            sets > 0,
            at == key_hash(key) as int % sets,
    ;
}

/// The packet that is found in a set is valid, has the key and is the first that
/// does; where none is found there is none.
pub proof fn base_hits_are_first(
    slots: Seq<ResidentSubdivisionSlot>,
    first: int,
    ways: nat,
    key: ResidentSubdivisionKey,
)
    ensures
        base_hit(slots, first, ways, key) matches Some(index) ==> {
            &&& first <= index < first + ways
            &&& slots[index].valid && slots[index].key == key
            &&& forall|i: int|
                #![trigger slots[i]]
                first <= i < index ==> !(slots[i].valid && slots[i].key == key)
        },
        base_hit(slots, first, ways, key) is None ==> forall|i: int|
            #![trigger slots[i]]
            first <= i < first + ways ==> !(slots[i].valid && slots[i].key == key),
    decreases ways,
{
    if ways > 0 {
        base_hits_are_first(slots, first, (ways - 1) as nat, key);
    }
}

/// The slabs lie at the end of their own arena, and those of the two arenas are a
/// whole arena apart.
pub proof fn slabs_lie_in_their_own_arena(shape: CacheShape, offset: int)
    requires
        0 <= offset < resident_pool_words(shape) <= GPU_ARENA_WORDS,
    ensures
        0 <= slab_word(shape, 0, offset) < GPU_ARENA_WORDS,
        slab_word(shape, 1, offset) - slab_word(shape, 0, offset) == GPU_ARENA_WORDS,
        GPU_ARENA_WORDS - slab_word(shape, 0, offset) == resident_pool_words(shape) - offset,
{
}

/// The three sorts of slabs lie one behind the other, each slab right behind the
/// one before it.
pub proof fn slabs_lie_one_behind_the_other(level1_slots: int, level2_slots: int, index: int)
    ensures
        level1_offset(0) == 0,
        level1_offset(index + 1) - level1_offset(index) == LEVEL1_WORDS,
        level2_offset(level1_slots, 0) == level1_offset(level1_slots),
        level2_offset(level1_slots, index + 1) - level2_offset(level1_slots, index)
            == LEVEL2_WORDS,
        base_offset(level1_slots, level2_slots, 0) == level2_offset(level1_slots, level2_slots),
        base_offset(level1_slots, level2_slots, index + 1) - base_offset(
            level1_slots,
            level2_slots,
            index,
        ) == BASE_PACKET_WORDS,
{
}

/// An undivided packet that is cached is given at its own slot, which keeps its
/// key; one that is not gets a slot of its set, or none and nothing changes. The
/// divided slabs are left alone.
pub proof fn undivided_packets_get_their_own_slot(
    before: ResidentSubdivisionCache,
    after: ResidentSubdivisionCache,
    active_pool: usize,
    frame: u32,
    key: ResidentSubdivisionKey,
    screen_z: u16,
    acquired: Option<ResidentSubdivisionAcquire>,
    index: int,
)
    requires
        base_acquired(before, after, active_pool, frame, key, screen_z, acquired),
        ({
            let first = base_set(key, before.base_packets@.len() as int);
            match base_hit(before.base_packets@, first, 4, key) {
                Some(found) => index == found,
                None => base_victim(before.base_packets@, first, 4, frame) == Some(index),
            }
        }),
        0 <= index < before.base_packets@.len(),
    ensures
        after.level1 == before.level1 && after.level2 == before.level2,
        after.map_generation == before.map_generation,
        acquired is Some,
        after.base_packets@.len() == before.base_packets@.len(),
        forall|i: int|
            #![trigger after.base_packets@[i]]
            0 <= i < after.base_packets@.len() && i != index ==> after.base_packets@[i]
                == before.base_packets@[i],
        after.base_packets@[index].key == key,
        after.base_packets@[index].last_used_frame == frame,
        after.base_packets@[index].screen_z == screen_z,
        after.base_packets@[index].valid,
        acquired->0.class_offset_words == before.base_word(index),
        acquired->0.logical_hit <==> base_hit(
            before.base_packets@,
            base_set(key, before.base_packets@.len() as int),
            4,
            key,
        ) is Some,
        acquired->0.resident ==> acquired->0.logical_hit,
        acquired->0.replaced ==> !acquired->0.logical_hit && before.base_packets@[index].valid,
{
    base_hits_are_first(
        before.base_packets@,
        base_set(key, before.base_packets@.len() as int),
        4,
        key,
    );
}

/// A slab of the first level leaves those of the second alone and the other way
/// round; the undivided packets are left alone by both.
pub proof fn slabs_leave_other_levels_alone(
    before: ResidentSubdivisionCache,
    after: ResidentSubdivisionCache,
    active_pool: usize,
    frame: u32,
    key: ResidentSubdivisionKey,
    screen_z: u16,
    acquired: Option<ResidentSubdivisionAcquire>,
)
    requires
        slab_acquired(before, after, active_pool, frame, key, screen_z, acquired),
    ensures
        after.base_packets@ == before.base_packets@,
        after.map_generation == before.map_generation,
        key.level == 1 ==> after.level2 == before.level2,
        key.level != 1 ==> after.level1 == before.level1,
        acquired is None ==> after.level1.slots@ == before.level1.slots@ && after.level2.slots@
            == before.level2.slots@ && after.level1.directory@ == before.level1.directory@
            && after.level2.directory@ == before.level2.directory@,
{
}

/// A slab's place goes by its level: those of the first level are counted from
/// the start, and those of the second from the end of these.
pub proof fn slabs_are_placed_by_level(cache: ResidentSubdivisionCache, grant: SlotGrant)
    requires
        cache.level1.slots@.len() <= 1024,
        grant.index <= 1024,
    ensures
        ({
            let first = cache.slab_of(1, Some(grant))->0;
            let second = cache.slab_of(2, Some(grant))->0;
            &&& first.class_offset_words == 63 * grant.index
            &&& second.class_offset_words == 63 * cache.level1.slots@.len() + 187 * grant.index
            &&& first.resident == grant.resident && first.logical_hit == grant.logical_hit
                && first.replaced == grant.replaced
            &&& second.resident == grant.resident && second.logical_hit == grant.logical_hit
                && second.replaced == grant.replaced
        }),
        cache.slab_of(1, None) is None && cache.slab_of(2, None) is None,
        cache.class_slots(1) == cache.level1.slots@ && cache.class_slots(2)
            == cache.level2.slots@,
        cache.class_directory(1) == cache.level1.directory@ && cache.class_directory(2)
            == cache.level2.directory@,
{
}

/// A root's word is that of its slab in the arena, and its packets are there just
/// when the slab's are.
pub proof fn roots_stand_at_their_slabs(
    shape: CacheShape,
    active_pool: int,
    slab: ResidentSubdivisionAcquire,
)
    requires
        0 <= active_pool < 2,
        slab.class_offset_words < resident_pool_words(shape) <= 32768,
    ensures
        root_slot(shape, active_pool, None) is None,
        root_slot(shape, active_pool, Some(slab)) matches Some(root) && root.resident
            == slab.resident && root.word == 32768 * (active_pool + 1) - resident_pool_words(shape)
            + slab.class_offset_words,
{
}

} // verus!
