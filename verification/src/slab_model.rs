//! A model of slab caches of several sizes, fed with the same requests as the
//! frame makes, to measure what a resident cache of each size would save.

use vstd::prelude::*;

use crate::subdivision::{is_victim, may_replace, taken_slot, SlotUse};

verus! {

/// Bytes of one first-level slab.
pub const LEVEL1_SLOT_BYTES: usize = 252;

/// Bytes of one second-level slab.
pub const LEVEL2_SLOT_BYTES: usize = 748;

/// Cache sizes that are modelled, in kibibytes.
pub const CACHE_BUDGETS_KIB: [usize; 4] = [16, 32, 48, 64];

/// Largest modelled size, in bytes.
pub const MAX_BUDGET_BYTES: usize = 65536;

/// One divided root triangle of a batch.
#[derive(Copy, Clone, Debug, PartialEq, Eq, Structural)]
pub struct SubdivisionRequest {
    pub material: u32,
    pub root: u8,
    pub level: u8,
    pub underdraw: u8,
    /// Depth the packets are sorted by.
    pub otz: u16,
    pub packet_bytes: u16,
    pub invariant_bytes: u16,
}

#[derive(Copy, Clone, Debug, PartialEq, Eq, Structural)]
pub struct SubdivisionCacheKey {
    pub map_generation: u32,
    pub material: u32,
    pub source_face: u16,
    pub root: u8,
    pub level: u8,
    pub underdraw: u8,
}

#[derive(Copy, Clone, Debug, PartialEq, Eq, Structural)]
pub struct SubdivisionCacheSlot {
    pub key: SubdivisionCacheKey,
    pub last_used_frame: u32,
    pub screen_z: u16,
    pub valid: bool,
}

/// What a frame's requests came to.
#[derive(Copy, Clone, Debug, PartialEq, Eq, Structural)]
pub struct SubdivisionCacheFrame {
    pub requests: u32,
    pub hits: u32,
    pub allocations: u32,
    pub replacements: u32,
    pub fallbacks: u32,
    pub resident: u32,
    pub requested_packet_bytes: u32,
    pub hit_packet_bytes: u32,
    pub hit_invariant_bytes: u32,
}

impl Default for SubdivisionCacheFrame {
    fn default() -> (frame: Self)
        ensures
            frame == (SubdivisionCacheFrame {
                requests: 0,
                hits: 0,
                allocations: 0,
                replacements: 0,
                fallbacks: 0,
                resident: 0,
                requested_packet_bytes: 0,
                hit_packet_bytes: 0,
                hit_invariant_bytes: 0,
            }),
    {
        SubdivisionCacheFrame {
            requests: 0,
            hits: 0,
            allocations: 0,
            replacements: 0,
            fallbacks: 0,
            resident: 0,
            requested_packet_bytes: 0,
            hit_packet_bytes: 0,
            hit_invariant_bytes: 0,
        }
    }
}

pub open spec fn slab_uses(slots: Seq<SubdivisionCacheSlot>) -> Seq<SlotUse> {
    slots.map_values(
        |slot: SubdivisionCacheSlot|
            SlotUse {
                valid: slot.valid,
                last_used_frame: slot.last_used_frame,
                screen_z: slot.screen_z,
            },
    )
}

/// The first valid slot from `from` on that holds `key`.
pub open spec fn first_slab(
    slots: Seq<SubdivisionCacheSlot>,
    key: SubdivisionCacheKey,
    from: int,
) -> Option<int>
    decreases slots.len() - from,
{
    if from >= slots.len() {
        None
    } else if slots[from].valid && slots[from].key == key {
        Some(from)
    } else {
        first_slab(slots, key, from + 1)
    }
}

/// Counters after any request, before it is answered.
pub open spec fn requested(
    counters: SubdivisionCacheFrame,
    request: SubdivisionRequest,
) -> SubdivisionCacheFrame {
    SubdivisionCacheFrame {
        requests: counters.requests.wrapping_add(1),
        requested_packet_bytes: counters.requested_packet_bytes.wrapping_add(
            request.packet_bytes as u32,
        ),
        ..counters
    }
}

/// How a request changes slots and counters.
pub open spec fn slot_requested(
    before: Seq<SubdivisionCacheSlot>,
    after: Seq<SubdivisionCacheSlot>,
    frame: u32,
    key: SubdivisionCacheKey,
    request: SubdivisionRequest,
    counters: SubdivisionCacheFrame,
    counted: SubdivisionCacheFrame,
) -> bool {
    let asked = requested(counters, request);
    match first_slab(before, key, 0) {
        Some(index) => {
            &&& after == before.update(
                index,
                SubdivisionCacheSlot {
                    last_used_frame: frame,
                    screen_z: request.otz,
                    ..before[index]
                },
            )
            &&& counted == (SubdivisionCacheFrame {
                hits: asked.hits.wrapping_add(1),
                hit_packet_bytes: asked.hit_packet_bytes.wrapping_add(request.packet_bytes as u32),
                hit_invariant_bytes: asked.hit_invariant_bytes.wrapping_add(
                    request.invariant_bytes as u32,
                ),
                ..asked
            })
        },
        None => {
            ||| taken_slot(slab_uses(before), frame, None) && after == before && counted == (
            SubdivisionCacheFrame { fallbacks: asked.fallbacks.wrapping_add(1), ..asked })
            ||| exists|index: usize|
                #[trigger] taken_slot(slab_uses(before), frame, Some(index)) && after
                    == before.update(
                    index as int,
                    SubdivisionCacheSlot {
                        key,
                        last_used_frame: frame,
                        screen_z: request.otz,
                        valid: true,
                    },
                ) && counted == (SubdivisionCacheFrame {
                    allocations: asked.allocations.wrapping_add(1),
                    replacements: asked.replacements.wrapping_add(
                        if before[index as int].valid { 1 } else { 0 },
                    ),
                    ..asked
                })
        },
    }
}

fn find_slab(slots: &Vec<SubdivisionCacheSlot>, key: SubdivisionCacheKey) -> (found: Option<usize>)
    ensures
        match found {
            Some(index) => first_slab(slots@, key, 0) == Some(index as int) && index < slots@.len(),
            None => first_slab(slots@, key, 0) is None,
        },
{
    let mut index: usize = 0;
    while index < slots.len()
        invariant
            index <= slots@.len(),
            first_slab(slots@, key, 0) == first_slab(slots@, key, index as int),
        decreases slots@.len() - index,
    {
        if slots[index].valid && slots[index].key == key {
            return Some(index);
        }
        index += 1;
    }
    None
}

fn take_slab(slots: &Vec<SubdivisionCacheSlot>, frame: u32) -> (taken: Option<usize>)
    ensures
        taken_slot(slab_uses(slots@), frame, taken),
{
    let ghost uses = slab_uses(slots@);
    let mut index: usize = 0;
    while index < slots.len()
        invariant
            index <= slots@.len(),
            uses == slab_uses(slots@),
            forall|j: int| #![trigger uses[j]] 0 <= j < index ==> uses[j].valid,
        decreases slots@.len() - index,
    {
        if !slots[index].valid {
            assert(!uses[index as int].valid);
            return Some(index);
        }
        index += 1;
    }
    let mut victim: Option<usize> = None;
    let mut candidate: usize = 0;
    while candidate < slots.len()
        invariant
            candidate <= slots@.len(),
            uses == slab_uses(slots@),
            forall|j: int| #![trigger uses[j]] 0 <= j < slots@.len() ==> uses[j].valid,
            match victim {
                Some(best) => best < candidate && is_victim(
                    uses.take(candidate as int),
                    frame,
                    best as int,
                ),
                None => forall|j: int|
                    #![trigger uses[j]]
                    0 <= j < candidate ==> !may_replace(uses[j], frame),
            },
        decreases slots@.len() - candidate,
    {
        let slot: SubdivisionCacheSlot = slots[candidate];
        let age: u32 = frame.wrapping_sub(slot.last_used_frame);
        let ghost next = uses.take(candidate + 1);
        assert(next[candidate as int] == uses[candidate as int]);
        assert(forall|j: int|
            #![trigger next[j]]
            0 <= j < candidate ==> next[j] == uses.take(candidate as int)[j]);
        if age >= 2 {
            match victim {
                Some(best) => {
                    let current: SubdivisionCacheSlot = slots[best];
                    assert(next[best as int] == uses[best as int]);
                    if slot.screen_z > current.screen_z || (slot.screen_z == current.screen_z && age
                        > frame.wrapping_sub(current.last_used_frame)) {
                        victim = Some(candidate);
                        assert forall|j: int|
                            #![trigger next[j]]
                            0 <= j < candidate && may_replace(
                                next[j],
                                frame,
                            ) implies crate::subdivision::goes_before(
                            next[candidate as int],
                            next[j],
                            frame,
                        ) by {
                            assert(uses.take(candidate as int)[j] == next[j]);
                        }
                    } else {
                        assert(is_victim(next, frame, best as int));
                    }
                },
                None => {
                    victim = Some(candidate);
                    assert forall|j: int| #![trigger next[j]] 0 <= j < candidate implies
                        !may_replace(next[j], frame) by {
                        assert(next[j] == uses[j]);
                    }
                },
            }
        } else {
            proof {
                if victim is Some {
                    assert(is_victim(next, frame, victim->0 as int));
                }
            }
        }
        candidate += 1;
    }
    assert(uses.take(candidate as int) =~= uses);
    victim
}

/// Answer one request from one class of slabs.
pub fn request_subdivision_slot(
    slots: &mut Vec<SubdivisionCacheSlot>,
    frame: u32,
    key: SubdivisionCacheKey,
    request: SubdivisionRequest,
    counters: &mut SubdivisionCacheFrame,
)
    ensures
        slot_requested(
            old(slots)@,
            final(slots)@,
            frame,
            key,
            request,
            *old(counters),
            *final(counters),
        ),
        final(slots)@.len() == old(slots)@.len(),
{
    counters.requests = counters.requests.wrapping_add(1);
    counters.requested_packet_bytes = counters.requested_packet_bytes.wrapping_add(
        request.packet_bytes as u32,
    );
    if let Some(index) = find_slab(slots, key) {
        let mut slot: SubdivisionCacheSlot = slots[index];
        slot.last_used_frame = frame;
        slot.screen_z = request.otz;
        slots.set(index, slot);
        counters.hits = counters.hits.wrapping_add(1);
        counters.hit_packet_bytes = counters.hit_packet_bytes.wrapping_add(
            request.packet_bytes as u32,
        );
        counters.hit_invariant_bytes = counters.hit_invariant_bytes.wrapping_add(
            request.invariant_bytes as u32,
        );
        return ;
    }
    let taken: Option<usize> = take_slab(slots, frame);
    let index: usize = match taken {
        Some(index) => index,
        None => {
            counters.fallbacks = counters.fallbacks.wrapping_add(1);
            return ;
        },
    };
    assert(taken_slot(slab_uses(old(slots)@), frame, Some(index)));
    let replacing: bool = slots[index].valid;
    slots.set(
        index,
        SubdivisionCacheSlot {
            key,
            last_used_frame: frame,
            screen_z: request.otz,
            valid: true,
        },
    );
    counters.allocations = counters.allocations.wrapping_add(1);
    counters.replacements = counters.replacements.wrapping_add(if replacing { 1 } else { 0 });
}

/// Valid slots among the first `count`.
pub open spec fn valid_slots(slots: Seq<SubdivisionCacheSlot>, count: nat) -> nat
    decreases count,
{
    if count == 0 {
        0
    } else {
        valid_slots(slots, (count - 1) as nat) + if slots[count - 1].valid {
            1nat
        } else {
            0
        }
    }
}

fn count_valid(slots: &Vec<SubdivisionCacheSlot>) -> (count: u32)
    requires
        slots@.len() <= MAX_BUDGET_BYTES,
    ensures
        count == valid_slots(slots@, slots@.len()),
        count <= slots@.len(),
{
    let mut count: u32 = 0;
    let mut index: usize = 0;
    while index < slots.len()
        invariant
            index <= slots@.len() <= MAX_BUDGET_BYTES,
            count == valid_slots(slots@, index as nat),
            count <= index,
        decreases slots@.len() - index,
    {
        if slots[index].valid {
            count += 1;
        }
        index += 1;
    }
    count
}

fn invalid_slots(count: usize) -> (slots: Vec<SubdivisionCacheSlot>)
    ensures
        slots@.len() == count,
        forall|i: int| 0 <= i < count ==> !(#[trigger] slots@[i]).valid,
{
    let mut slots: Vec<SubdivisionCacheSlot> = Vec::new();
    while slots.len() < count
        invariant
            slots@.len() <= count,
            forall|i: int| 0 <= i < slots@.len() ==> !(#[trigger] slots@[i]).valid,
        decreases count - slots@.len(),
    {
        slots.push(
            SubdivisionCacheSlot {
                key: SubdivisionCacheKey {
                    map_generation: 0,
                    material: 0,
                    source_face: 0,
                    root: 0,
                    level: 0,
                    underdraw: 0,
                },
                last_used_frame: 0,
                screen_z: 0,
                valid: false,
            },
        );
    }
    slots
}

fn invalidate_slots(slots: &mut Vec<SubdivisionCacheSlot>)
    ensures
        final(slots)@ == old(slots)@.map_values(
            |slot: SubdivisionCacheSlot| SubdivisionCacheSlot { valid: false, ..slot },
        ),
{
    let mut index: usize = 0;
    while index < slots.len()
        invariant
            index <= slots@.len(),
            slots@.len() == old(slots)@.len(),
            forall|i: int|
                #![trigger slots@[i]]
                0 <= i < slots@.len() ==> slots@[i] == if i < index {
                    SubdivisionCacheSlot { valid: false, ..old(slots)@[i] }
                } else {
                    old(slots)@[i]
                },
        decreases slots@.len() - index,
    {
        let mut slot: SubdivisionCacheSlot = slots[index];
        slot.valid = false;
        slots.set(index, slot);
        index += 1;
    }
    assert(slots@ =~= old(slots)@.map_values(
        |slot: SubdivisionCacheSlot| SubdivisionCacheSlot { valid: false, ..slot },
    ));
}

/// A slab cache of one size: three fifths of it for the first level, the rest
/// for the second.
pub struct SubdivisionSlabCacheModel {
    pub level1_slots: Vec<SubdivisionCacheSlot>,
    pub level2_slots: Vec<SubdivisionCacheSlot>,
    pub map_generation: u32,
}

pub open spec fn level1_capacity(budget_bytes: int) -> int {
    budget_bytes * 3 / 5 / LEVEL1_SLOT_BYTES as int
}

pub open spec fn level2_capacity(budget_bytes: int) -> int {
    (budget_bytes - level1_capacity(budget_bytes) * LEVEL1_SLOT_BYTES) / LEVEL2_SLOT_BYTES as int
}

/// The slabs of a modelled cache fit its budget.
pub proof fn modelled_slabs_fit_the_budget(budget_bytes: int)
    requires
        0 <= budget_bytes,
    ensures
        level1_capacity(budget_bytes) * LEVEL1_SLOT_BYTES + level2_capacity(budget_bytes)
            * LEVEL2_SLOT_BYTES <= budget_bytes,
{
}

/// Valid slots of both classes.
pub open spec fn resident_slots(
    level1: Seq<SubdivisionCacheSlot>,
    level2: Seq<SubdivisionCacheSlot>,
) -> nat {
    valid_slots(level1, level1.len()) + valid_slots(level2, level2.len())
}

/// Slots and counters at one moment.
pub struct ModelState {
    pub level1: Seq<SubdivisionCacheSlot>,
    pub level2: Seq<SubdivisionCacheSlot>,
    pub counters: SubdivisionCacheFrame,
}

/// How a request changes a model: it is answered from the slabs of its level,
/// and the slabs that are in use are counted afterwards.
pub open spec fn answered(
    before: ModelState,
    after: ModelState,
    frame: u32,
    key: SubdivisionCacheKey,
    request: SubdivisionRequest,
) -> bool {
    let counted = SubdivisionCacheFrame {
        resident: before.counters.resident,
        ..after.counters
    };
    &&& after.counters.resident == resident_slots(after.level1, after.level2)
    &&& if request.level == 1 {
        after.level2 == before.level2 && slot_requested(
            before.level1,
            after.level1,
            frame,
            key,
            request,
            before.counters,
            counted,
        )
    } else {
        after.level1 == before.level1 && slot_requested(
            before.level2,
            after.level2,
            frame,
            key,
            request,
            before.counters,
            counted,
        )
    }
}

/// The key of a request for a face of a map.
pub open spec fn request_key(
    map_generation: u32,
    source_face: u16,
    request: SubdivisionRequest,
) -> SubdivisionCacheKey {
    SubdivisionCacheKey {
        map_generation,
        material: request.material,
        source_face,
        root: request.root,
        level: request.level,
        underdraw: request.underdraw,
    }
}

/// `states` leads through the requests, one after the other.
pub open spec fn answered_in_turn(
    states: Seq<ModelState>,
    frame: u32,
    map_generation: u32,
    requests: Seq<(u16, SubdivisionRequest)>,
) -> bool {
    &&& states.len() == requests.len() + 1
    &&& forall|i: int|
        #![trigger requests[i]]
        0 <= i < requests.len() ==> answered(
            states[i],
            states[i + 1],
            frame,
            request_key(map_generation, requests[i].0, requests[i].1),
            requests[i].1,
        )
}

impl SubdivisionSlabCacheModel {
    pub open spec fn valid(&self) -> bool {
        self.level1_slots@.len() <= MAX_BUDGET_BYTES && self.level2_slots@.len()
            <= MAX_BUDGET_BYTES
    }

    /// Valid slots of both classes.
    pub open spec fn resident(&self) -> nat {
        resident_slots(self.level1_slots@, self.level2_slots@)
    }

    /// The slots together with the counters of a frame.
    pub open spec fn state(&self, counters: SubdivisionCacheFrame) -> ModelState {
        ModelState { level1: self.level1_slots@, level2: self.level2_slots@, counters }
    }

    pub open spec fn key(&self, source_face: u16, request: SubdivisionRequest) -> SubdivisionCacheKey {
        request_key(self.map_generation, source_face, request)
    }

    pub fn new(budget_bytes: usize) -> (model: Self)
        requires
            budget_bytes <= MAX_BUDGET_BYTES,
        ensures
            model.valid(),
            model.level1_slots@.len() == level1_capacity(budget_bytes as int),
            model.level2_slots@.len() == level2_capacity(budget_bytes as int),
            forall|i: int|
                0 <= i < model.level1_slots@.len() ==> !(#[trigger] model.level1_slots@[i]).valid,
            forall|i: int|
                0 <= i < model.level2_slots@.len() ==> !(#[trigger] model.level2_slots@[i]).valid,
            model.map_generation == u32::MAX,
    {
        let level1: usize = budget_bytes * 3 / 5 / LEVEL1_SLOT_BYTES;
        let level2: usize = (budget_bytes - level1 * LEVEL1_SLOT_BYTES) / LEVEL2_SLOT_BYTES;
        SubdivisionSlabCacheModel {
            level1_slots: invalid_slots(level1),
            level2_slots: invalid_slots(level2),
            map_generation: u32::MAX,
        }
    }

    /// Forget every slab when the map has changed.
    pub fn begin_frame(&mut self, map_generation: u32)
        ensures
            final(self).map_generation == map_generation,
            old(self).map_generation == map_generation ==> *final(self) == *old(self),
            old(self).map_generation != map_generation ==> {
                &&& final(self).level1_slots@ == old(self).level1_slots@.map_values(
                    |slot: SubdivisionCacheSlot| SubdivisionCacheSlot { valid: false, ..slot },
                )
                &&& final(self).level2_slots@ == old(self).level2_slots@.map_values(
                    |slot: SubdivisionCacheSlot| SubdivisionCacheSlot { valid: false, ..slot },
                )
            },
    {
        if self.map_generation != map_generation {
            invalidate_slots(&mut self.level1_slots);
            invalidate_slots(&mut self.level2_slots);
            self.map_generation = map_generation;
        }
    }

    /// Answer one request of the frame.
    pub fn request(
        &mut self,
        frame: u32,
        source_face: u16,
        request: SubdivisionRequest,
        counters: &mut SubdivisionCacheFrame,
    )
        requires
            old(self).valid(),
        ensures
            final(self).valid(),
            final(self).map_generation == old(self).map_generation,
            final(self).level1_slots@.len() == old(self).level1_slots@.len(),
            final(self).level2_slots@.len() == old(self).level2_slots@.len(),
            answered(
                old(self).state(*old(counters)),
                final(self).state(*final(counters)),
                frame,
                old(self).key(source_face, request),
                request,
            ),
    {
        let key: SubdivisionCacheKey = SubdivisionCacheKey {
            map_generation: self.map_generation,
            material: request.material,
            source_face,
            root: request.root,
            level: request.level,
            underdraw: request.underdraw,
        };
        if request.level == 1 {
            request_subdivision_slot(&mut self.level1_slots, frame, key, request, counters);
        } else {
            request_subdivision_slot(&mut self.level2_slots, frame, key, request, counters);
        }
        counters.resident = self.resident_count();
    }

    /// Answer the requests of a batch in turn.
    pub fn request_all(
        &mut self,
        frame: u32,
        requests: &Vec<(u16, SubdivisionRequest)>,
        counters: &mut SubdivisionCacheFrame,
    )
        requires
            old(self).valid(),
        ensures
            final(self).valid(),
            final(self).map_generation == old(self).map_generation,
            exists|states: Seq<ModelState>|
                #[trigger] answered_in_turn(states, frame, old(self).map_generation, requests@)
                    && states[0] == old(self).state(*old(counters))
                    && states.last() == final(self).state(*final(counters)),
    {
        let ghost mut states = seq![self.state(*counters)];
        let mut index: usize = 0;
        assert(requests@.take(0) =~= Seq::empty());
        while index < requests.len()
            invariant
                index <= requests@.len(),
                self.valid(),
                self.map_generation == old(self).map_generation,
                answered_in_turn(
                    states,
                    frame,
                    old(self).map_generation,
                    requests@.take(index as int),
                ),
                states[0] == old(self).state(*old(counters)),
                states.last() == self.state(*counters),
            decreases requests@.len() - index,
        {
            let ghost known = requests@.take(index as int);
            let ghost before = states;
            let (source_face, request) = requests[index];
            self.request(frame, source_face, request, counters);
            proof {
                states = before.push(self.state(*counters));
                let next = requests@.take(index + 1);
                assert forall|i: int| #![trigger next[i]] 0 <= i < next.len() implies answered(
                    states[i],
                    states[i + 1],
                    frame,
                    request_key(old(self).map_generation, next[i].0, next[i].1),
                    next[i].1,
                ) by {
                    if i < index {
                        assert(known[i] == next[i]);
                    }
                }
            }
            index += 1;
        }
        assert(requests@.take(index as int) =~= requests@);
    }

    pub fn resident_count(&self) -> (count: u32)
        requires
            self.valid(),
        ensures
            count == self.resident(),
    {
        count_valid(&self.level1_slots) + count_valid(&self.level2_slots)
    }
}

/// Two requests share a slab just when they agree in all that the slab's words
/// are made from.
pub proof fn keys_tell_requests_apart(
    generation: u32,
    other_generation: u32,
    face: u16,
    other_face: u16,
    request: SubdivisionRequest,
    other: SubdivisionRequest,
)
    ensures
        request_key(generation, face, request) == request_key(other_generation, other_face, other)
            <==> {
            &&& generation == other_generation
            &&& face == other_face
            &&& request.material == other.material
            &&& request.root == other.root
            &&& request.level == other.level
            &&& request.underdraw == other.underdraw
        },
{
}

/// The slab that is found is valid, has the key, and none before it does; where
/// none is found there is none.
pub proof fn the_first_slab_is_found(
    slots: Seq<SubdivisionCacheSlot>,
    key: SubdivisionCacheKey,
    from: int,
)
    requires
        0 <= from <= slots.len(),
    ensures
        first_slab(slots, key, from) matches Some(index) ==> {
            &&& from <= index < slots.len()
            &&& slots[index].valid && slots[index].key == key
            &&& forall|i: int|
                #![trigger slots[i]]
                from <= i < index ==> !(slots[i].valid && slots[i].key == key)
        },
        first_slab(slots, key, from) is None ==> forall|i: int|
            #![trigger slots[i]]
            from <= i < slots.len() ==> !(slots[i].valid && slots[i].key == key),
    decreases slots.len() - from,
{
    if from < slots.len() {
        the_first_slab_is_found(slots, key, from + 1);
    }
}

/// Every request is counted once, with its packet's bytes.
pub proof fn requests_are_counted(counters: SubdivisionCacheFrame, request: SubdivisionRequest)
    requires
        counters.requests < u32::MAX,
        counters.requested_packet_bytes + request.packet_bytes <= u32::MAX,
    ensures
        ({
            let after = requested(counters, request);
            &&& after.requests == counters.requests + 1
            &&& after.requested_packet_bytes == counters.requested_packet_bytes
                + request.packet_bytes
            &&& after == (SubdivisionCacheFrame {
                requests: after.requests,
                requested_packet_bytes: after.requested_packet_bytes,
                ..counters
            })
        }),
{
}

/// A slot's use is that slot's own frame and depth.
pub proof fn uses_are_those_of_the_slots(slots: Seq<SubdivisionCacheSlot>, index: int)
    requires
        0 <= index < slots.len(),
    ensures
        slab_uses(slots).len() == slots.len(),
        slab_uses(slots)[index].valid == slots[index].valid,
        slab_uses(slots)[index].last_used_frame == slots[index].last_used_frame,
        slab_uses(slots)[index].screen_z == slots[index].screen_z,
{
}

/// The slots that are counted are the valid ones.
pub proof fn valid_slots_are_counted(slots: Seq<SubdivisionCacheSlot>, count: nat)
    requires
        count < slots.len(),
    ensures
        valid_slots(slots, 0) == 0,
        valid_slots(slots, count + 1) == valid_slots(slots, count) + (if slots[count as int].valid {
            1nat
        } else {
            0
        }),
{
}

/// Three fifths of the budget go to the slabs of the first level and the rest to
/// those of the second, as many as fit.
pub proof fn budgets_are_split_three_to_two(budget_bytes: int)
    requires
        0 <= budget_bytes <= 0x100_0000,
    ensures
        ({
            let first = level1_capacity(budget_bytes) * LEVEL1_SLOT_BYTES;
            let second = level2_capacity(budget_bytes) * LEVEL2_SLOT_BYTES;
            &&& 5 * first <= 3 * budget_bytes < 5 * (first + LEVEL1_SLOT_BYTES) + 5
            &&& first + second <= budget_bytes < first + second + LEVEL2_SLOT_BYTES
        }),
{
}

/// A request that finds its slab is a hit, with its own bytes, and touches that
/// slab alone; the counts of the others stay.
pub proof fn hits_are_counted_with_their_bytes(
    before: Seq<SubdivisionCacheSlot>,
    after: Seq<SubdivisionCacheSlot>,
    frame: u32,
    key: SubdivisionCacheKey,
    request: SubdivisionRequest,
    counters: SubdivisionCacheFrame,
    counted: SubdivisionCacheFrame,
    index: int,
)
    requires
        slot_requested(before, after, frame, key, request, counters, counted),
        first_slab(before, key, 0) == Some(index),
    ensures
        counted.hits == counters.hits.wrapping_add(1),
        counted.hit_packet_bytes == counters.hit_packet_bytes.wrapping_add(
            request.packet_bytes as u32,
        ),
        counted.hit_invariant_bytes == counters.hit_invariant_bytes.wrapping_add(
            request.invariant_bytes as u32,
        ),
        counted.allocations == counters.allocations && counted.replacements
            == counters.replacements && counted.fallbacks == counters.fallbacks,
        after.len() == before.len(),
        after[index].last_used_frame == frame && after[index].screen_z == request.otz
            && after[index].key == key && after[index].valid,
        forall|i: int|
            #![trigger after[i]]
            0 <= i < after.len() && i != index ==> after[i] == before[i],
{
    the_first_slab_is_found(before, key, 0);
}

/// A request that finds no slab is an allocation or a fallback; a fallback
/// changes no slab, and neither is a hit.
pub proof fn misses_allocate_or_fall_back(
    before: Seq<SubdivisionCacheSlot>,
    after: Seq<SubdivisionCacheSlot>,
    frame: u32,
    key: SubdivisionCacheKey,
    request: SubdivisionRequest,
    counters: SubdivisionCacheFrame,
    counted: SubdivisionCacheFrame,
)
    requires
        slot_requested(before, after, frame, key, request, counters, counted),
        first_slab(before, key, 0) is None,
        counters.allocations < u32::MAX,
        counters.fallbacks < u32::MAX,
        counters.replacements < u32::MAX,
    ensures
        counted.hits == counters.hits && counted.hit_packet_bytes == counters.hit_packet_bytes
            && counted.hit_invariant_bytes == counters.hit_invariant_bytes,
        (counted.allocations - counters.allocations) + (counted.fallbacks - counters.fallbacks)
            == 1,
        counted.fallbacks > counters.fallbacks ==> after == before && counted.replacements
            == counters.replacements,
        counted.replacements <= counters.replacements + (counted.allocations
            - counters.allocations),
        counted.requests == counters.requests.wrapping_add(1),
{
}

/// A request goes to the slabs of its own level, and those of the other stay as
/// they are.
pub proof fn requests_go_to_their_level(
    before: ModelState,
    after: ModelState,
    frame: u32,
    key: SubdivisionCacheKey,
    request: SubdivisionRequest,
)
    requires
        answered(before, after, frame, key, request),
    ensures
        request.level == 1 ==> after.level2 == before.level2,
        request.level != 1 ==> after.level1 == before.level1,
        after.counters.resident == valid_slots(after.level1, after.level1.len()) + valid_slots(
            after.level2,
            after.level2.len(),
        ),
        after.counters.requests == before.counters.requests.wrapping_add(1),
{
}

} // verus!
