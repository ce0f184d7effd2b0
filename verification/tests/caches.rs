use quake_psx::packet_stream::audit_scoped_window_packets;
use quake_psx::packet_stream::capture_static_world_tags;
use quake_psx::packet_stream::is_windowed_stream;
use quake_psx::packet_stream::mark_window_packets_translucent;
use quake_psx::packet_stream::restore_static_world_tags;
use quake_psx::packet_stream::WINDOW_NONE;
use quake_psx::slab_model::SubdivisionCacheFrame;
use quake_psx::slab_model::SubdivisionRequest;
use quake_psx::slab_model::SubdivisionSlabCacheModel;
use quake_psx::slab_model::CACHE_BUDGETS_KIB;
use quake_psx::slab_model::LEVEL1_SLOT_BYTES;
use quake_psx::slab_model::LEVEL2_SLOT_BYTES;
use quake_psx::subdivision::arena_word;
use quake_psx::subdivision::resident_subdivision_directory_find;
use quake_psx::subdivision::resident_subdivision_directory_insert;
use quake_psx::subdivision::resident_subdivision_directory_remove;
use quake_psx::subdivision::resident_subdivision_key_hash;
use quake_psx::subdivision::CacheShape;
use quake_psx::subdivision::ResidentLevel;
use quake_psx::subdivision::ResidentSubdivisionAcquire;
use quake_psx::subdivision::ResidentSubdivisionCache;
use quake_psx::subdivision::ResidentSubdivisionKey;
use quake_psx::subdivision::ResidentSubdivisionSink;
use quake_psx::subdivision::ResidentSubdivisionSlot;
use quake_psx::subdivision::SubdivisionCounters;
use quake_psx::subdivision::DIRECTORY_EMPTY;
use quake_psx::subdivision::DIRECTORY_TOMBSTONE;
use quake_psx::subdivision::LEVEL1_WORDS;
use quake_psx::topology::fresh_plans;
use quake_psx::topology::keep_plan;
use quake_psx::topology::plan_applies;
use quake_psx::topology::record_topology_cache_submit;
use quake_psx::topology::TopologyBatchCache;
use quake_psx::topology::TopologyBatchIdentity;
use quake_psx::topology::TopologyCounters;

fn key(source_face: u16, level: u8) -> ResidentSubdivisionKey {
    ResidentSubdivisionKey { material: 7, source_face, root: 1, level, underdraw: 0 }
}

const SMALL: CacheShape = CacheShape {
    level1_slots: 2,
    level1_buckets: 8,
    level2_slots: 1,
    level2_buckets: 4,
    base_slots: 4,
};

#[test]
fn a_slab_is_found_again() {
    let mut level = ResidentLevel::new(2, 8);
    let first = level.grant(1, key(5, 1), 100, 1);
    assert!(matches!(first, Some(slot) if !slot.logical_hit && !slot.resident && !slot.replaced));
    let again = level.grant(2, key(5, 1), 100, 1);
    assert!(matches!(again, Some(slot) if slot.logical_hit && slot.resident && !slot.replaced));
    let other_pool = level.grant(2, key(5, 1), 100, 2);
    assert!(matches!(other_pool, Some(slot) if slot.logical_hit && !slot.resident));
    assert_eq!(again.map(|slot| slot.index), first.map(|slot| slot.index));
}

#[test]
fn slabs_of_the_frame_are_never_given_up() {
    let mut level = ResidentLevel::new(2, 8);
    assert!(level.grant(9, key(1, 1), 100, 1).is_some());
    assert!(level.grant(9, key(2, 1), 100, 1).is_some());
    assert!(level.grant(9, key(3, 1), 100, 1).is_none());
    // The frame before may still be on its way to the screen.
    assert!(level.grant(10, key(3, 1), 100, 1).is_none());
    let replaced = level.grant(11, key(3, 1), 100, 1);
    assert!(matches!(replaced, Some(slot) if slot.replaced));
    level.clear();
    assert!(matches!(level.grant(11, key(3, 1), 100, 1), Some(slot) if !slot.logical_hit));
}

#[test]
fn a_new_map_empties_the_cache() {
    let mut cache = ResidentSubdivisionCache::new(SMALL);
    cache.begin_map(1);
    assert!(matches!(cache.acquire(0, 1, key(1, 1), 0), Some(slot) if !slot.logical_hit));
    assert!(matches!(cache.acquire(0, 2, key(1, 1), 0), Some(slot) if slot.logical_hit));
    cache.begin_map(1);
    assert!(matches!(cache.acquire(0, 3, key(1, 1), 0), Some(slot) if slot.logical_hit));
    cache.begin_map(2);
    assert!(matches!(cache.acquire(0, 4, key(1, 1), 0), Some(slot) if !slot.logical_hit));
}

#[test]
fn slabs_of_both_levels_lie_apart() {
    let mut cache = ResidentSubdivisionCache::new(SMALL);
    cache.begin_map(1);
    let mut starts: Vec<usize> = Vec::new();
    for source in 0..2 {
        if let Some(slot) = cache.acquire(0, 1, key(source, 1), 0) {
            starts.push(slot.class_offset_words);
        }
    }
    assert_eq!(starts.len(), 2);
    assert!(starts[0].abs_diff(starts[1]) >= LEVEL1_WORDS);
    let second = cache.acquire(0, 1, key(0, 2), 0);
    assert!(matches!(second, Some(slot) if slot.class_offset_words >= 2 * LEVEL1_WORDS));
    let slots = (cache.level1.slots.clone(), cache.level2.slots.clone());
    let directories = (cache.level1.directory.clone(), cache.level2.directory.clone());
    assert!(cache.acquire(0, 1, key(1, 2), 0).is_none());
    assert_eq!(slots, (cache.level1.slots, cache.level2.slots));
    assert_eq!(directories, (cache.level1.directory, cache.level2.directory));
}

#[test]
fn undivided_packets_are_kept_in_sets() {
    let mut cache = ResidentSubdivisionCache::new(SMALL);
    cache.begin_map(1);
    for source in 0..4 {
        let packet = cache.acquire_base_packet(0, 1, key(source, 0), 0);
        assert!(matches!(packet, Some(slot) if !slot.logical_hit));
    }
    assert!(cache.acquire_base_packet(0, 1, key(4, 0), 0).is_none());
    let hit = cache.acquire_base_packet(0, 1, key(2, 0), 0);
    assert!(matches!(hit, Some(slot) if slot.logical_hit && slot.resident));
    let taken = cache.acquire_base_packet(0, 2, key(4, 0), 0);
    assert!(matches!(taken, Some(slot) if slot.replaced));
}

#[test]
fn the_two_arenas_have_their_own_slabs() {
    let shape = CacheShape::subdivided();
    let slot = ResidentSubdivisionAcquire {
        class_offset_words: 10,
        resident: false,
        logical_hit: false,
        replaced: false,
    };
    let first = arena_word(shape, 0, slot);
    let second = arena_word(shape, 1, slot);
    assert_eq!(second - first, 32768);
    assert_ne!(resident_subdivision_key_hash(key(1, 1)), resident_subdivision_key_hash(key(2, 1)));
}

#[test]
fn cache_use_is_counted() {
    let mut counters = SubdivisionCounters::new();
    let hit = ResidentSubdivisionAcquire {
        class_offset_words: 0,
        resident: true,
        logical_hit: true,
        replaced: false,
    };
    counters.record(Some(hit));
    counters.record(Some(ResidentSubdivisionAcquire { resident: false, logical_hit: false, replaced: true, ..hit }));
    counters.record(None);
    assert_eq!((counters.hits, counters.allocations, counters.replacements), (1, 1, 1));
    assert_eq!((counters.fallbacks, counters.initializations), (1, 1));
}

fn cached(key: ResidentSubdivisionKey) -> ResidentSubdivisionSlot {
    ResidentSubdivisionSlot {
        key,
        last_used_frame: 0,
        screen_z: 0,
        initialized_pools: 1,
        valid: true,
    }
}

#[test]
fn the_directory_finds_what_was_entered() {
    let first = key(1, 1);
    let home = resident_subdivision_key_hash(first) as usize % 4;
    // Another key whose search begins in the same bucket.
    let other = (2..100)
        .map(|face| key(face, 1))
        .find(|other| resident_subdivision_key_hash(*other) as usize % 4 == home)
        .unwrap();
    let slots = vec![cached(first), cached(other)];
    let mut directory = vec![DIRECTORY_EMPTY; 4];
    resident_subdivision_directory_insert(&mut directory, first, 0);
    resident_subdivision_directory_insert(&mut directory, other, 1);
    assert_eq!((directory[home], directory[(home + 1) % 4]), (0, 1));
    assert_eq!(resident_subdivision_directory_find(&directory, &slots, other), Some(1));
    resident_subdivision_directory_remove(&mut directory, &slots, first, 0);
    assert_eq!((directory[home], directory[(home + 1) % 4]), (DIRECTORY_TOMBSTONE, 1));
    assert_eq!(resident_subdivision_directory_find(&directory, &slots, first), None);
    assert_eq!(resident_subdivision_directory_find(&directory, &slots, other), Some(1));
    // The tombstone is the first bucket that holds no slot.
    resident_subdivision_directory_insert(&mut directory, first, 0);
    assert_eq!(directory[home], 0);
    assert_eq!(directory.iter().filter(|entry| **entry == DIRECTORY_EMPTY).count(), 2);
}

#[test]
fn another_map_empties_the_directory() {
    let mut cache = ResidentSubdivisionCache::new(SMALL);
    cache.begin_map(1);
    assert!(cache.acquire(0, 10, key(1, 1), 5).is_some());
    assert!(cache.level1.directory.iter().any(|entry| *entry != DIRECTORY_EMPTY));
    cache.begin_map(2);
    assert!(cache.level1.directory.iter().all(|entry| *entry == DIRECTORY_EMPTY));
    assert!(cache.level2.directory.iter().all(|entry| *entry == DIRECTORY_EMPTY));
}

fn request(level: u8) -> SubdivisionRequest {
    SubdivisionRequest {
        material: 1,
        root: 0,
        level,
        underdraw: 0,
        otz: 5,
        packet_bytes: 200,
        invariant_bytes: 50,
    }
}

fn no_use() -> SubdivisionCacheFrame {
    SubdivisionCacheFrame {
        requests: 0,
        hits: 0,
        allocations: 0,
        replacements: 0,
        fallbacks: 0,
        resident: 0,
        requested_packet_bytes: 0,
        hit_packet_bytes: 0,
        hit_invariant_bytes: 0,
    }
}

#[test]
fn a_modelled_cache_fits_its_budget() {
    let model = SubdivisionSlabCacheModel::new(8192);
    let bytes = model.level1_slots.len() * LEVEL1_SLOT_BYTES
        + model.level2_slots.len() * LEVEL2_SLOT_BYTES;
    assert!(bytes <= 8192);
    assert!(bytes > 8192 - LEVEL2_SLOT_BYTES);
    for kib in CACHE_BUDGETS_KIB {
        let model = SubdivisionSlabCacheModel::new(kib * 1024);
        assert_eq!(model.level1_slots.len(), kib * 1024 * 3 / 5 / LEVEL1_SLOT_BYTES);
    }
}

#[test]
fn a_batch_is_answered_in_turn() {
    let mut model = SubdivisionSlabCacheModel::new(8192);
    model.begin_frame(3);
    let mut counters = no_use();
    model.request_all(1, &vec![(9, request(1)), (10, request(1)), (9, request(1))], &mut counters);
    assert_eq!((counters.requests, counters.hits, counters.allocations), (3, 1, 2));
    assert_eq!(counters.resident, 2);
}

#[test]
fn a_sink_counts_what_it_hands_out() {
    let mut sink = ResidentSubdivisionSink {
        cache: ResidentSubdivisionCache::new(SMALL),
        shape: SMALL,
        active_pool: 1,
        frame: 5,
        counters: SubdivisionCounters::new(),
    };
    let pool = 2 * 32768 - (2 * 63 + 187 + 4 * 13);
    let first = sink.acquire_root(3, 0, 1, false, 7, 100);
    assert_eq!(first.map(|slot| (slot.word, slot.resident)), Some((pool, false)));
    let second = sink.acquire_root(3, 0, 1, true, 7, 100);
    assert_eq!(second.map(|slot| slot.word), Some(pool + 63));
    let again = sink.acquire_root(3, 0, 1, false, 7, 100);
    assert_eq!(again.map(|slot| (slot.word, slot.resident)), Some((pool, true)));
    assert_eq!(sink.acquire_root(4, 0, 1, false, 7, 100), None);
    let packet = sink.acquire_base_packet(3, 0, true, 7, 100);
    assert_eq!(packet.map(|slot| (slot.word, slot.resident)), Some((pool + 2 * 63 + 187, false)));
    sink.insert_resident_packet();
    let counters = sink.counters;
    assert_eq!((counters.hits, counters.allocations, counters.fallbacks), (1, 3, 1));
    assert_eq!((counters.initializations, counters.packets), (3, 1));
    let with_packets = CacheShape::with_base_packets();
    assert_eq!((with_packets.level1_slots, with_packets.base_slots), (0, 512));
}

#[test]
fn a_modelled_cache_hits_in_the_next_frame() {
    let mut model = SubdivisionSlabCacheModel::new(8192);
    model.begin_frame(3);
    let mut first = no_use();
    model.request(1, 9, request(1), &mut first);
    assert_eq!((first.requests, first.hits, first.allocations, first.resident), (1, 0, 1, 1));
    let mut second = no_use();
    model.request(2, 9, request(1), &mut second);
    assert_eq!((second.hits, second.allocations), (1, 0));
    assert_eq!((second.hit_packet_bytes, second.hit_invariant_bytes), (200, 50));
    model.request(2, 9, request(2), &mut second);
    assert_eq!((second.allocations, model.resident_count()), (1, 2));
    model.begin_frame(4);
    assert_eq!(model.resident_count(), 0);
}

#[test]
fn a_kept_plan_needs_the_same_faces_and_place() {
    let mut identity = TopologyBatchIdentity::new(5);
    identity.mix(10, 20, 30, true);
    let mut other = TopologyBatchIdentity::new(5);
    other.mix(10, 20, 30, false);
    assert_ne!(identity, other);
    let empty = TopologyBatchCache { identity, output_word_offset: 0, valid: false };
    let mut caches = vec![empty, empty];
    assert!(!plan_applies(&caches, 0, identity, 0));
    keep_plan(&mut caches, 1, identity, 77, true);
    assert!(plan_applies(&caches, 1, identity, 77));
    assert!(!plan_applies(&caches, 1, identity, 78));
    assert!(!plan_applies(&caches, 1, other, 77));
    keep_plan(&mut caches, 2, identity, 77, true);
    assert!(!plan_applies(&caches, 2, identity, 77));
    let table = fresh_plans();
    assert_eq!(table.len(), 64);
    assert!(!plan_applies(&table, 63, table[63].identity, 0));
}

#[test]
fn identities_begin_with_the_generation() {
    let identity = TopologyBatchIdentity::new(0x0001_0002);
    assert_eq!(identity.hash_a, 0x811c_9dc5 ^ 0x0001_0002);
    assert_eq!(identity.hash_b, 0x9e37_79b9 ^ 0x0002_0001);
    let mut counters =
        TopologyCounters { hits: 0, misses: 0, invariant_hit_slots: 0, invariant_miss_slots: 0 };
    record_topology_cache_submit(&mut counters, true, 3, 4);
    record_topology_cache_submit(&mut counters, false, 5, 6);
    assert_eq!((counters.hits, counters.misses), (1, 1));
    assert_eq!((counters.invariant_hit_slots, counters.invariant_miss_slots), (8, 10));
}

#[test]
fn captured_tags_undo_linking() {
    let staged = vec![0x0200_0111, 1, 2, 0x0100_0222, 3];
    let mut slots = Vec::new();
    assert!(capture_static_world_tags(&staged, 5, &mut slots));
    assert_eq!(slots, vec![0x111, 0x222]);
    let mut linked = vec![0x0280_4567, 1, 2, 0x0189_abcd, 3];
    assert!(restore_static_world_tags(&mut linked, 5, &slots));
    assert_eq!(linked, staged);
}

#[test]
fn broken_streams_are_not_captured() {
    let mut slots = vec![1];
    assert!(!capture_static_world_tags(&vec![0x0000_0111, 1], 2, &mut slots));
    assert!(slots.is_empty());
    assert!(!capture_static_world_tags(&vec![0x0500_0111, 1], 2, &mut slots));
    assert!(capture_static_world_tags(&vec![0x0500_0111, 1], 0, &mut slots));
    let mut words = vec![0x0100_0111, 1, 0x0100_0111, 2];
    assert!(!restore_static_world_tags(&mut words, 4, &vec![1]));
}

#[test]
fn colour_commands_become_translucent() {
    let mut words = vec![0x0300_0000, 0xe200_0001, 0x3400_0000, 7, 0x0200_0000, 0xe200_0001, 0x3c00_0000];
    assert!(is_windowed_stream(&words, 0, 7));
    assert!(!is_windowed_stream(&words, 0, 6));
    mark_window_packets_translucent(&mut words, 0, 7);
    assert_eq!(words[2], 0x3600_0000);
    assert_eq!(words[6], 0x3e00_0000);
    assert_eq!(words[3], 7);
}

#[test]
fn texture_windows_are_audited() {
    let closed = vec![0x0300_0000, 0xe200_0001, 5, WINDOW_NONE];
    let audit = audit_scoped_window_packets(&closed, 0, 4);
    assert_eq!((audit.windowed, audit.restored, audit.failures), (1, 1, 0));
    let open = vec![0x0300_0000, 0xe200_0001, 5, 6];
    let audit = audit_scoped_window_packets(&open, 0, 4);
    assert_eq!((audit.windowed, audit.restored, audit.failures), (1, 0, 1));
    let layered = vec![0x0100_0000, WINDOW_NONE, 0x0100_0000, 0xe200_0001, 0x0100_0000, 0xe200_0002];
    let audit = audit_scoped_window_packets(&layered, 0, 6);
    assert_eq!((audit.windowed, audit.restored, audit.failures), (2, 2, 0));
    let lone = vec![0x0100_0000, WINDOW_NONE];
    assert_eq!(audit_scoped_window_packets(&lone, 0, 2).failures, 1);
    let cut = vec![0x0500_0000, 1];
    assert_eq!(audit_scoped_window_packets(&cut, 0, 2).failures, 1);
}
