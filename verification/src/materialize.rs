//! Filling a batch with the corners of its faces.

use vstd::prelude::*;

use crate::light::{light_corner, lit_corner, DynamicLight, LitVertex};
use crate::world::{FaceFlags, Vec3I16};
use crate::world_pass::BatchSurface;

verus! {

/// A stored corner: which position it uses, its place in the texture atlas and
/// its colour.
#[derive(Copy, Clone, Debug, PartialEq, Eq, Structural)]
pub struct SurfaceCorner {
    pub position_index: u16,
    pub uv: u16,
    pub color: u32,
}

/// A corner in a batch.
#[derive(Copy, Clone, Debug, PartialEq, Eq, Structural)]
pub struct BatchVertex {
    pub position: Vec3I16,
    pub uv: u16,
    pub color: u32,
}

/// The corner with its position in place of the index.
pub open spec fn baked_vertex(corner: SurfaceCorner, positions: Seq<Vec3I16>) -> BatchVertex {
    BatchVertex {
        position: positions[corner.position_index as int],
        uv: corner.uv,
        color: corner.color,
    }
}

/// Fill in the corners of a face whose atlas place and light are stored with
/// it.
pub fn materialize_quake_baked(
    corners: &Vec<SurfaceCorner>,
    positions: &Vec<Vec3I16>,
    first: usize,
    count: usize,
) -> (vertices: Vec<BatchVertex>)
    requires
        first + count <= corners@.len(),
        forall|i: int|
            #![trigger corners@[i]]
            first <= i < first + count ==> corners@[i].position_index < positions@.len(),
    ensures
        vertices@ == Seq::new(
            count as nat,
            |i: int| baked_vertex(corners@[first + i], positions@),
        ),
{
    let mut vertices: Vec<BatchVertex> = Vec::new();
    let total: usize = corners.len();
    let mut index: usize = 0;
    while index < count
        invariant
            index <= count,
            first + count <= total,
            total == corners@.len(),
            forall|i: int|
                #![trigger corners@[i]]
                first <= i < first + count ==> corners@[i].position_index < positions@.len(),
            vertices@.len() == index,
            forall|i: int|
                #![trigger vertices@[i]]
                0 <= i < index ==> vertices@[i] == baked_vertex(corners@[first + i], positions@),
        decreases count - index,
    {
        let corner: SurfaceCorner = corners[first + index];
        assert(corner == corners@[first + index]);
        vertices.push(
            BatchVertex {
                position: positions[corner.position_index as usize],
                uv: corner.uv,
                color: corner.color,
            },
        );
        index += 1;
    }
    assert(vertices@ =~= Seq::new(
        count as nat,
        |i: int| baked_vertex(corners@[first + i], positions@),
    ));
    vertices
}

/// How the corners of a face are filled in.
#[derive(Copy, Clone, Debug, PartialEq, Eq, Structural)]
pub enum Materialization {
    /// As they are stored.
    Baked,
    /// Lit by two styles, with the atlas place added where it is not stored.
    Styled { style_0: u16, style_1: u16, baked_uv: bool, baked_light: bool },
}

/// Both the atlas place and the light have to be stored for a face to be
/// filled in as it is; otherwise the face's two styles are looked up.
pub fn materialize_surface(flags: FaceFlags, style_0: u8, style_1: u8, styles: &Vec<u16>) -> (plan:
    Materialization)
    requires
        style_0 < styles@.len(),
        style_1 < styles@.len(),
    ensures
        plan == if flags.baked_uv && flags.baked_light {
            Materialization::Baked
        } else {
            Materialization::Styled {
                style_0: styles@[style_0 as int],
                style_1: styles@[style_1 as int],
                baked_uv: flags.baked_uv,
                baked_light: flags.baked_light,
            }
        },
{
    if flags.baked_uv && flags.baked_light {
        Materialization::Baked
    } else {
        Materialization::Styled {
            style_0: styles[style_0 as usize],
            style_1: styles[style_1 as usize],
            baked_uv: flags.baked_uv,
            baked_light: flags.baked_light,
        }
    }
}

/// The box around a face of a batch.
#[derive(Copy, Clone, Debug, PartialEq, Eq, Structural)]
pub struct FaceBox {
    pub mins: Vec3I16,
    pub maxs: Vec3I16,
}

/// The faces of a batch lie one after the other among its vertices.
pub open spec fn laid_out(surfaces: Seq<BatchSurface>, vertex_count: int) -> bool {
    &&& forall|k: int|
        #![trigger surfaces[k]]
        0 <= k < surfaces.len() ==> surfaces[k].first_vertex + surfaces[k].vertex_count
            <= vertex_count
    &&& forall|j: int, k: int|
        #![trigger surfaces[j], surfaces[k]]
        0 <= j < k < surfaces.len() ==> surfaces[j].first_vertex + surfaces[j].vertex_count
            <= surfaces[k].first_vertex
}

/// A vertex belongs to a face.
pub open spec fn belongs(surface: BatchSurface, vertex: int) -> bool {
    surface.first_vertex <= vertex < surface.first_vertex + surface.vertex_count
}

/// A vertex after the first `count` faces of a batch have been lit: every light
/// that reaches the box of its face has been added to it.
pub open spec fn lit_in_batch(
    lights: Seq<DynamicLight>,
    surfaces: Seq<BatchSurface>,
    boxes: Seq<FaceBox>,
    count: int,
    index: int,
    vertex: LitVertex,
    lit: LitVertex,
) -> bool {
    &&& forall|k: int|
        #![trigger surfaces[k]]
        0 <= k < count && belongs(surfaces[k], index) ==> lit == lit_corner(
            lights,
            boxes[k].mins,
            boxes[k].maxs,
            vertex,
        )
    &&& (forall|k: int| #![trigger surfaces[k]] 0 <= k < count ==> !belongs(surfaces[k], index))
        ==> lit == vertex
}

/// Add every live light to the faces of a batch, to each vertex once.
pub fn light_batch(
    lights: &Vec<DynamicLight>,
    surfaces: &Vec<BatchSurface>,
    boxes: &Vec<FaceBox>,
    vertices: &mut Vec<LitVertex>,
)
    requires
        laid_out(surfaces@, old(vertices)@.len() as int),
        boxes@.len() == surfaces@.len(),
    ensures
        final(vertices)@.len() == old(vertices)@.len(),
        forall|v: int|
            #![trigger final(vertices)@[v]]
            0 <= v < old(vertices)@.len() ==> lit_in_batch(
                lights@,
                surfaces@,
                boxes@,
                surfaces@.len() as int,
                v,
                old(vertices)@[v],
                final(vertices)@[v],
            ),
{
    let mut index: usize = 0;
    while index < surfaces.len()
        invariant
            index <= surfaces@.len(),
            boxes@.len() == surfaces@.len(),
            laid_out(surfaces@, old(vertices)@.len() as int),
            vertices@.len() == old(vertices)@.len(),
            forall|v: int|
                #![trigger vertices@[v]]
                0 <= v < vertices@.len() ==> lit_in_batch(
                    lights@,
                    surfaces@,
                    boxes@,
                    index as int,
                    v,
                    old(vertices)@[v],
                    vertices@[v],
                ),
        decreases surfaces@.len() - index,
    {
        let surface: BatchSurface = surfaces[index];
        let ghost before = vertices@;
        light_range(lights, surface, boxes[index], vertices);
        assert forall|v: int| #![trigger vertices@[v]] 0 <= v < vertices@.len() implies lit_in_batch(
            lights@,
            surfaces@,
            boxes@,
            index + 1,
            v,
            old(vertices)@[v],
            vertices@[v],
        ) by {
            let start = old(vertices)@[v];
            assert(lit_in_batch(lights@, surfaces@, boxes@, index as int, v, start, before[v]));
            assert(surfaces@[index as int] == surface);
            if belongs(surface, v) {
                assert forall|k: int| #![trigger surfaces@[k]] 0 <= k < index implies !belongs(
                    surfaces@[k],
                    v,
                ) by {
                    assert(surfaces@[k].first_vertex + surfaces@[k].vertex_count
                        <= surfaces@[index as int].first_vertex);
                }
                assert(before[v] == start);
            }
        }
        index += 1;
    }
}

fn light_range(
    lights: &Vec<DynamicLight>,
    surface: BatchSurface,
    around: FaceBox,
    vertices: &mut Vec<LitVertex>,
)
    requires
        surface.first_vertex + surface.vertex_count <= old(vertices)@.len(),
    ensures
        final(vertices)@.len() == old(vertices)@.len(),
        forall|v: int|
            #![trigger final(vertices)@[v]]
            0 <= v < old(vertices)@.len() ==> final(vertices)@[v] == if belongs(surface, v) {
                lit_corner(lights@, around.mins, around.maxs, old(vertices)@[v])
            } else {
                old(vertices)@[v]
            },
{
    let end: usize = surface.first_vertex as usize + surface.vertex_count as usize;
    let mut index: usize = surface.first_vertex as usize;
    while index < end
        invariant
            surface.first_vertex <= index <= end,
            end == surface.first_vertex + surface.vertex_count,
            end <= vertices@.len(),
            vertices@.len() == old(vertices)@.len(),
            forall|v: int|
                #![trigger vertices@[v]]
                0 <= v < vertices@.len() ==> vertices@[v] == if surface.first_vertex <= v < index {
                    lit_corner(lights@, around.mins, around.maxs, old(vertices)@[v])
                } else {
                    old(vertices)@[v]
                },
        decreases end - index,
    {
        let vertex: LitVertex = vertices[index];
        vertices.set(index, light_corner(lights, around.mins, around.maxs, vertex));
        index += 1;
    }
}

/// A projected position.
#[derive(Copy, Clone, Debug, PartialEq, Eq, Structural)]
pub struct ProjectedPosition {
    pub screen: u32,
    pub depth: u16,
}

/// No slot.
pub const NO_SLOT: u8 = 0xff;

/// Projecting every position of a batch once, however many corners share it.
pub struct IndexedProjection {
    pub generation: u32,
    /// The slot of every position of the map, or `NO_SLOT`.
    pub position_slots: Vec<u8>,
    /// The positions that have a slot, by slot.
    pub unique_positions: Vec<u16>,
    /// The slot of every corner of the batch.
    pub corner_slots: Vec<u8>,
}

impl IndexedProjection {
    /// Exactly the listed positions have a slot, and every corner has one of
    /// theirs.
    pub open spec fn valid(&self) -> bool {
        &&& self.unique_positions@.len() < NO_SLOT
        &&& forall|s: int|
            #![trigger self.unique_positions@[s]]
            0 <= s < self.unique_positions@.len() ==> self.unique_positions@[s]
                < self.position_slots@.len()
                && self.position_slots@[self.unique_positions@[s] as int] == s
        &&& forall|p: int|
            #![trigger self.position_slots@[p]]
            0 <= p < self.position_slots@.len() && self.position_slots@[p] != NO_SLOT
                ==> self.position_slots@[p] < self.unique_positions@.len()
                && self.unique_positions@[self.position_slots@[p] as int] == p
        &&& forall|c: int|
            #![trigger self.corner_slots@[c]]
            0 <= c < self.corner_slots@.len() ==> self.corner_slots@[c]
                < self.unique_positions@.len()
    }

    /// The position of a corner of the batch.
    pub open spec fn corner_position(&self, corner: int) -> u16 {
        self.unique_positions@[self.corner_slots@[corner] as int]
    }

    /// No batch is open.
    pub open spec fn clean(&self) -> bool {
        &&& self.unique_positions@.len() == 0
        &&& self.corner_slots@.len() == 0
        &&& forall|p: int|
            #![trigger self.position_slots@[p]]
            0 <= p < self.position_slots@.len() ==> self.position_slots@[p] == NO_SLOT
    }

    /// No batch is open, and no map has been prepared for.
    pub fn new() -> (projection: Self)
        ensures
            projection.valid(),
            projection.clean(),
            projection.generation == u32::MAX,
            projection.position_slots@ == Seq::<u8>::empty(),
            projection.unique_positions@ == Seq::<u16>::empty(),
            projection.corner_slots@ == Seq::<u8>::empty(),
    {
        IndexedProjection {
            generation: u32::MAX,
            position_slots: Vec::new(),
            unique_positions: Vec::new(),
            corner_slots: Vec::new(),
        }
    }

    /// Have a slot for every position of the map. Another map, or another
    /// number of positions, starts over.
    pub fn prepare_indexed_world_projection(&mut self, generation: u32, position_count: usize)
        requires
            old(self).valid(),
            old(self).clean(),
        ensures
            final(self).valid(),
            final(self).clean(),
            final(self).generation == generation,
            final(self).position_slots@.len() == position_count,
    {
        if self.generation != generation || self.position_slots.len() != position_count {
            let mut slots: Vec<u8> = Vec::new();
            let mut index: usize = 0;
            while index < position_count
                invariant
                    index <= position_count,
                    slots@.len() == index,
                    forall|p: int| #![trigger slots@[p]] 0 <= p < index ==> slots@[p] == NO_SLOT,
                decreases position_count - index,
            {
                slots.push(NO_SLOT);
                index += 1;
            }
            self.position_slots = slots;
            self.generation = generation;
        }
    }

    /// Hand every corner the projection of its position.
    pub fn scatter(&self, projected: &Vec<ProjectedPosition>) -> (corners: Vec<ProjectedPosition>)
        requires
            forall|c: int|
                #![trigger self.corner_slots@[c]]
                0 <= c < self.corner_slots@.len() ==> self.corner_slots@[c] < projected@.len(),
        ensures
            corners@.len() == self.corner_slots@.len(),
            forall|c: int|
                #![trigger corners@[c]]
                0 <= c < corners@.len() ==> corners@[c]
                    == projected@[self.corner_slots@[c] as int],
    {
        let mut corners: Vec<ProjectedPosition> = Vec::new();
        let mut index: usize = 0;
        while index < self.corner_slots.len()
            invariant
                index <= self.corner_slots@.len(),
                forall|c: int|
                    #![trigger self.corner_slots@[c]]
                    0 <= c < self.corner_slots@.len() ==> self.corner_slots@[c] < projected@.len(),
                corners@.len() == index,
                forall|c: int|
                    #![trigger corners@[c]]
                    0 <= c < index ==> corners@[c] == projected@[self.corner_slots@[c] as int],
            decreases self.corner_slots@.len() - index,
        {
            let slot: u8 = self.corner_slots[index];
            assert(slot == self.corner_slots@[index as int]);
            corners.push(projected[slot as usize]);
            index += 1;
        }
        corners
    }

    /// A position is among the first `count` that have a slot.
    pub open spec fn has_slot(&self, position: int, count: int) -> bool {
        exists|s: int|
            #![trigger self.unique_positions@[s]]
            0 <= s < count && self.unique_positions@[s] == position
    }

    /// The batch has been submitted: give the slots back. How many corners and
    /// positions it had.
    pub fn finish_batch(&mut self) -> (counts: (usize, usize))
        ensures
            counts.0 == old(self).corner_slots@.len(),
            counts.1 == old(self).unique_positions@.len(),
            final(self).generation == old(self).generation,
            final(self).unique_positions@.len() == 0,
            final(self).corner_slots@.len() == 0,
            final(self).position_slots@.len() == old(self).position_slots@.len(),
            forall|p: int|
                #![trigger final(self).position_slots@[p]]
                0 <= p < old(self).position_slots@.len() ==> final(self).position_slots@[p]
                    == if old(self).has_slot(p, old(self).unique_positions@.len() as int) {
                    NO_SLOT
                } else {
                    old(self).position_slots@[p]
                },
            old(self).valid() ==> final(self).clean() && final(self).valid(),
    {
        let corners: usize = self.corner_slots.len();
        let unique: usize = self.unique_positions.len();
        let mut index: usize = 0;
        while index < unique
            invariant
                index <= unique,
                unique == self.unique_positions@.len(),
                self.unique_positions@ == old(self).unique_positions@,
                self.corner_slots@ == old(self).corner_slots@,
                self.generation == old(self).generation,
                self.position_slots@.len() == old(self).position_slots@.len(),
                forall|p: int|
                    #![trigger self.position_slots@[p]]
                    0 <= p < self.position_slots@.len() ==> self.position_slots@[p] == if old(
                        self,
                    ).has_slot(p, index as int) {
                        NO_SLOT
                    } else {
                        old(self).position_slots@[p]
                    },
            decreases unique - index,
        {
            let position: u16 = self.unique_positions[index];
            assert(old(self).unique_positions@[index as int] == position);
            if (position as usize) < self.position_slots.len() {
                self.position_slots.set(position as usize, NO_SLOT);
            }
            assert forall|p: int| 0 <= p < self.position_slots@.len() implies #[trigger] old(
                self,
            ).has_slot(p, index + 1) == (old(self).has_slot(p, index as int) || p == position) by {
                if old(self).has_slot(p, index + 1) {
                    let s = choose|s: int|
                        #![trigger old(self).unique_positions@[s]]
                        0 <= s < index + 1 && old(self).unique_positions@[s] == p;
                    if s < index {
                        assert(old(self).has_slot(p, index as int));
                    }
                }
                if p == position {
                    assert(old(self).unique_positions@[index as int] == p);
                }
            }
            index += 1;
        }
        self.unique_positions.clear();
        self.corner_slots.clear();
        assert(old(self).valid() ==> self.clean()) by {
            if old(self).valid() {
                assert forall|p: int| 0 <= p < self.position_slots@.len() implies
                    #[trigger] self.position_slots@[p] == NO_SLOT by {
                    if old(self).position_slots@[p] != NO_SLOT {
                        let s = old(self).position_slots@[p] as int;
                        assert(old(self).unique_positions@[s] == p);
                        assert(old(self).has_slot(p, unique as int));
                    }
                }
            }
        }
        (corners, unique)
    }
}

/// Two corners of a batch share a slot exactly when they share a position.
pub proof fn slots_stand_for_positions(projection: IndexedProjection, left: int, right: int)
    requires
        projection.valid(),
        0 <= left < projection.corner_slots@.len(),
        0 <= right < projection.corner_slots@.len(),
    ensures
        projection.corner_slots@[left] == projection.corner_slots@[right]
            <==> projection.corner_position(left) == projection.corner_position(right),
{
    let left_slot = projection.corner_slots@[left] as int;
    let right_slot = projection.corner_slots@[right] as int;
    assert(projection.position_slots@[projection.unique_positions@[left_slot] as int]
        == left_slot);
    assert(projection.position_slots@[projection.unique_positions@[right_slot] as int]
        == right_slot);
}

/// A corner that is drawn as it is stored keeps its own place, texture place and
/// colour.
pub proof fn baked_corners_are_their_own(corner: SurfaceCorner, positions: Seq<Vec3I16>)
    ensures
        baked_vertex(corner, positions).position == positions[corner.position_index as int],
        baked_vertex(corner, positions).uv == corner.uv,
        baked_vertex(corner, positions).color == corner.color,
{
}

/// A corner belongs to one face of a batch at most.
pub proof fn corners_belong_to_one_face(
    surfaces: Seq<BatchSurface>,
    vertex_count: int,
    vertex: int,
    left: int,
    right: int,
)
    requires
        laid_out(surfaces, vertex_count),
        0 <= left < surfaces.len(),
        0 <= right < surfaces.len(),
        belongs(surfaces[left], vertex),
        belongs(surfaces[right], vertex),
    ensures
        left == right,
        surfaces[left].first_vertex <= vertex < vertex_count,
{
}

/// A corner of a batch is lit by the lights that reach the box of its own face.
pub proof fn corners_are_lit_by_their_own_face(
    lights: Seq<DynamicLight>,
    surfaces: Seq<BatchSurface>,
    boxes: Seq<FaceBox>,
    count: int,
    index: int,
    vertex: LitVertex,
    lit: LitVertex,
    face: int,
)
    requires
        lit_in_batch(lights, surfaces, boxes, count, index, vertex, lit),
        0 <= face < count,
        surfaces[face].first_vertex <= index < surfaces[face].first_vertex
            + surfaces[face].vertex_count,
    ensures
        lit == lit_corner(lights, boxes[face].mins, boxes[face].maxs, vertex),
{
    assert(belongs(surfaces[face], index));
}

} // verus!
