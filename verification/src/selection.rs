//! Per-frame face selection: which visible faces face the camera and touch
//! the view frustum, and which of them reach behind the near plane.

use vstd::prelude::*;

use crate::fixed::{clamp_to_i16, sat_i16, sat_i32, saturating_add_i16, saturating_add_i32,
    saturating_sub_i16, whole_units};
use crate::world::{component, greatest, greatest_of, least, least_of, normal_sign_bits, sign_bits_of,
    sign_bits_tell_the_signs,
    CompactPlane, Plane, TextureInfo, Vec3I16, Vec3I32, VisibleFace};

verus! {

/// A selected face whose box reaches behind the near plane carries this bit.
pub const NEAR_FACE_BIT: u16 = 0x8000;

/// A selected liquid face drawn translucent carries this bit.
pub const WATER_BLEND_FACE_BIT: u16 = 0x4000;

/// The part of a selected entry that indexes the visible list.
pub const FRAME_FACE_INDEX_MASK: u16 = 0x3fff;

/// Distance of the near plane from the eye, in world units.
pub const NEAR_PLANE_UNITS: i32 = 8;

/// Faces per block of the block test.
pub const VISIBLE_FACE_BLOCK_SIZE: usize = 16;

/// Blocks per group of the two-level block test.
pub const VISIBLE_FACE_SUPER_BLOCK_SIZE: usize = 4;

/// Signed Q20.12 distance of `point` from a plane. `terms` are the Q12
/// products of `point` and the plane's normal, one per axis; axial planes do
/// not need them.
pub open spec fn signed_distance(kind: u8, distance: i32, point: Vec3I32, terms: Vec3I32) -> i32 {
    let dot = if kind == 0 {
        point.x
    } else if kind == 1 {
        point.y
    } else if kind == 2 {
        point.z
    } else {
        terms.x.wrapping_add(terms.y).wrapping_add(terms.z)
    };
    dot.wrapping_sub(distance)
}

pub fn plane_distance(plane: Plane, point: Vec3I32, terms: Vec3I32) -> (distance: i32)
    ensures
        distance == signed_distance(plane.kind, plane.distance, point, terms),
{
    let dot: i32 = match plane.kind {
        0 => point.x,
        1 => point.y,
        2 => point.z,
        _ => terms.x.wrapping_add(terms.y).wrapping_add(terms.z),
    };
    dot.wrapping_sub(plane.distance)
}

pub fn compact_plane_distance(plane: CompactPlane, point: Vec3I32, terms: Vec3I32) -> (distance: i32)
    ensures
        distance == signed_distance(plane.kind, plane.distance, point, terms),
{
    let dot: i32 = match plane.kind {
        0 => point.x,
        1 => point.y,
        2 => point.z,
        _ => terms.x.wrapping_add(terms.y).wrapping_add(terms.z),
    };
    dot.wrapping_sub(plane.distance)
}

/// A face looks at `point` when the point is on the face's side of its plane.
pub fn front_facing_plane(plane: Plane, backside: bool, point: Vec3I32, terms: Vec3I32) -> (facing: bool)
    ensures
        facing == ((signed_distance(plane.kind, plane.distance, point, terms) < 0) == backside),
{
    let behind: bool = plane_distance(plane, point, terms) < 0;
    behind == backside
}

pub fn front_facing_compact_plane(
    plane: CompactPlane,
    backside: bool,
    point: Vec3I32,
    terms: Vec3I32,
) -> (facing: bool)
    ensures
        facing == ((signed_distance(plane.kind, plane.distance, point, terms) < 0) == backside),
{
    let behind: bool = compact_plane_distance(plane, point, terms) < 0;
    behind == backside
}

/// What the hardware tells of one visible face for the current camera.
#[derive(Copy, Clone, Debug, PartialEq, Eq, Structural)]
pub struct FaceSample {
    /// Q12 products of the camera origin and the face's plane normal.
    pub terms: Vec3I32,
    /// The face's box lies outside the view frustum.
    pub outside: bool,
}

/// Everything one selection pass reads.
pub struct FrameView {
    pub visible_faces: Vec<VisibleFace>,
    pub active_textures: Vec<TextureInfo>,
    pub samples: Vec<FaceSample>,
    pub origin: Vec3I32,
    /// Plane of the water surface drawn translucent, or -1.
    pub water_plane: i16,
}

impl FrameView {
    pub open spec fn valid(&self) -> bool {
        &&& self.visible_faces@.len() <= FRAME_FACE_INDEX_MASK
        &&& self.samples@.len() == self.visible_faces@.len()
        &&& forall|i: int|
            #![trigger self.visible_faces@[i]]
            0 <= i < self.visible_faces@.len() ==> self.visible_faces@[i].face.material
                < self.active_textures@.len()
    }

    pub open spec fn texture(&self, i: int) -> TextureInfo {
        self.active_textures@[self.visible_faces@[i].face.material as int]
    }

    /// The texture is one that is drawn at all.
    pub open spec fn drawable(&self, i: int) -> bool {
        !self.texture(i).flags.invisible && !self.texture(i).flags.null
    }

    /// The face lies on the translucent water surface.
    pub open spec fn water_blend(&self, i: int) -> bool {
        self.texture(i).flags.liquid && self.visible_faces@[i].face.plane as i16
            == self.water_plane
    }

    /// The camera is behind the face's plane.
    pub open spec fn behind(&self, i: int) -> bool {
        let plane = self.visible_faces@[i].plane;
        signed_distance(plane.kind, plane.distance, self.origin, self.samples@[i].terms) < 0
    }

    pub open spec fn facing(&self, i: int) -> bool {
        self.behind(i) == self.visible_faces@[i].face.flags.backside
    }

    /// The face survives everything but the frustum test.
    pub open spec fn reaches_frustum(&self, i: int) -> bool {
        self.drawable(i) && (self.water_blend(i) || self.facing(i))
    }

    pub open spec fn selects(&self, i: int) -> bool {
        self.reaches_frustum(i) && !self.samples@[i].outside
    }

    /// The entry that stands for face `i` in a selected list.
    pub open spec fn entry(&self, i: int) -> u16 {
        if self.water_blend(i) {
            (i + WATER_BLEND_FACE_BIT) as u16
        } else {
            i as u16
        }
    }

    /// Entries of the selected faces below `end`, ascending, leaving out those
    /// that `skipped` holds.
    pub open spec fn selected_below(&self, skipped: spec_fn(int) -> bool, end: nat) -> Seq<u16>
        decreases end,
    {
        if end == 0 {
            Seq::empty()
        } else {
            let before = self.selected_below(skipped, (end - 1) as nat);
            if !skipped(end - 1) && self.selects(end - 1) {
                before.push(self.entry(end - 1))
            } else {
                before
            }
        }
    }

    /// The selected list of the whole view.
    pub open spec fn selected(&self) -> Seq<u16> {
        self.selected_below(|i: int| false, self.visible_faces@.len())
    }

    /// Faces on one plane see the camera on the same side.
    pub open spec fn planes_agree(&self) -> bool {
        forall|i: int, j: int|
            #![trigger self.visible_faces@[i], self.visible_faces@[j]]
            0 <= i < self.visible_faces@.len() && 0 <= j < self.visible_faces@.len()
                && self.visible_faces@[i].face.plane == self.visible_faces@[j].face.plane
                ==> self.behind(i) == self.behind(j)
    }

    pub fn blends(&self, index: usize) -> (blend: bool)
        requires
            self.valid(),
            index < self.visible_faces@.len(),
        ensures
            blend == self.water_blend(index as int),
    {
        let face: VisibleFace = self.visible_faces[index];
        self.active_textures[face.face.material as usize].flags.liquid && face.face.plane as i16
            == self.water_plane
    }

    pub fn draws(&self, index: usize) -> (draw: bool)
        requires
            self.valid(),
            index < self.visible_faces@.len(),
        ensures
            draw == self.drawable(index as int),
    {
        let face: VisibleFace = self.visible_faces[index];
        let texture: TextureInfo = self.active_textures[face.face.material as usize];
        !texture.flags.invisible && !texture.flags.null
    }

    pub fn faces_camera(&self, index: usize) -> (facing: bool)
        requires
            self.valid(),
            index < self.visible_faces@.len(),
        ensures
            facing == self.facing(index as int),
    {
        let face: VisibleFace = self.visible_faces[index];
        front_facing_compact_plane(
            face.plane,
            face.face.flags.backside,
            self.origin,
            self.samples[index].terms,
        )
    }

    pub fn entry_for(&self, index: usize, blend: bool) -> (entry: u16)
        requires
            index < FRAME_FACE_INDEX_MASK,
            blend == self.water_blend(index as int),
        ensures
            entry == self.entry(index as int),
    {
        if blend {
            index as u16 + WATER_BLEND_FACE_BIT
        } else {
            index as u16
        }
    }
}

/// The per-frame selection: every visible face in ascending order, kept when
/// its texture draws, it faces the camera and its box touches the frustum.
pub fn select_frame_faces(view: &FrameView) -> (output: Vec<u16>)
    requires
        view.valid(),
    ensures
        output@ == view.selected(),
{
    let mut output: Vec<u16> = Vec::new();
    let mut index: usize = 0;
    while index < view.visible_faces.len()
        invariant
            view.valid(),
            index <= view.visible_faces@.len(),
            output@ == view.selected_below(|i: int| false, index as nat),
        decreases view.visible_faces@.len() - index,
    {
        let blend: bool = view.blends(index);
        if view.draws(index) && (blend || view.faces_camera(index)) && !view.samples[index].outside {
            output.push(view.entry_for(index, blend));
        }
        index += 1;
    }
    output
}

/// Faces of the blocks that were found outside the frustum.
pub open spec fn in_outside_block(block_outside: Seq<bool>) -> spec_fn(int) -> bool {
    |i: int| block_outside[i / VISIBLE_FACE_BLOCK_SIZE as int]
}

/// Faces of the blocks, or of the groups of blocks, that were found outside.
pub open spec fn in_outside_group(
    super_outside: Seq<bool>,
    block_outside: Seq<bool>,
) -> spec_fn(int) -> bool {
    |i: int|
        super_outside[i / (VISIBLE_FACE_BLOCK_SIZE * VISIBLE_FACE_SUPER_BLOCK_SIZE)]
            || block_outside[i / VISIBLE_FACE_BLOCK_SIZE as int]
}

/// Number of groups of `size` that `count` items fill, the last one partly.
pub open spec fn groups_of(count: int, size: int) -> int {
    (count + size - 1) / size
}

/// Selection with one test of a block's box before its sixteen faces.
/// `block_outside` tells which blocks lie outside the frustum.
pub fn select_frame_faces_blocked(view: &FrameView, block_outside: &Vec<bool>) -> (output: Vec<u16>)
    requires
        view.valid(),
        block_outside@.len() == groups_of(
            view.visible_faces@.len() as int,
            VISIBLE_FACE_BLOCK_SIZE as int,
        ),
    ensures
        output@ == view.selected_below(
            in_outside_block(block_outside@),
            view.visible_faces@.len(),
        ),
{
    let mut output: Vec<u16> = Vec::new();
    let mut block: usize = 0;
    let mut first: usize = 0;
    let ghost skipped = in_outside_block(block_outside@);
    while first < view.visible_faces.len()
        invariant
            view.valid(),
            skipped == in_outside_block(block_outside@),
            block_outside@.len() == groups_of(
                view.visible_faces@.len() as int,
                VISIBLE_FACE_BLOCK_SIZE as int,
            ),
            first <= view.visible_faces@.len(),
            first < view.visible_faces@.len() ==> first == block * 16,
            output@ == view.selected_below(skipped, first as nat),
        decreases view.visible_faces@.len() - first,
    {
        let remaining: usize = view.visible_faces.len() - first;
        let end: usize = first + if remaining < VISIBLE_FACE_BLOCK_SIZE {
            remaining
        } else {
            VISIBLE_FACE_BLOCK_SIZE
        };
        let outside: bool = block_outside[block];
        let mut index: usize = first;
        while index < end
            invariant
                view.valid(),
                skipped == in_outside_block(block_outside@),
                first <= index <= end <= view.visible_faces@.len(),
                first == block * 16,
                end <= first + 16,
                outside == block_outside@[block as int],
                output@ == view.selected_below(skipped, index as nat),
            decreases end - index,
        {
            assert(skipped(index as int) == outside);
            if !outside {
                let blend: bool = view.blends(index);
                if view.draws(index) && (blend || view.faces_camera(index))
                    && !view.samples[index].outside {
                    output.push(view.entry_for(index, blend));
                }
            }
            index += 1;
        }
        first = end;
        block += 1;
    }
    output
}

/// Selection with two levels of box tests: four blocks together, then each
/// block.
pub fn select_frame_faces_hierarchical(
    view: &FrameView,
    super_outside: &Vec<bool>,
    block_outside: &Vec<bool>,
) -> (output: Vec<u16>)
    requires
        view.valid(),
        block_outside@.len() == groups_of(
            view.visible_faces@.len() as int,
            VISIBLE_FACE_BLOCK_SIZE as int,
        ),
        super_outside@.len() == groups_of(
            block_outside@.len() as int,
            VISIBLE_FACE_SUPER_BLOCK_SIZE as int,
        ),
    ensures
        output@ == view.selected_below(
            in_outside_group(super_outside@, block_outside@),
            view.visible_faces@.len(),
        ),
{
    let mut output: Vec<u16> = Vec::new();
    let mut block: usize = 0;
    let mut first: usize = 0;
    let ghost skipped = in_outside_group(super_outside@, block_outside@);
    while block < block_outside.len()
        invariant
            view.valid(),
            skipped == in_outside_group(super_outside@, block_outside@),
            block_outside@.len() == groups_of(
                view.visible_faces@.len() as int,
                VISIBLE_FACE_BLOCK_SIZE as int,
            ),
            super_outside@.len() == groups_of(
                block_outside@.len() as int,
                VISIBLE_FACE_SUPER_BLOCK_SIZE as int,
            ),
            block <= block_outside@.len(),
            first <= view.visible_faces@.len(),
            first == if block * 16 < view.visible_faces@.len() {
                block * 16
            } else {
                view.visible_faces@.len() as int
            },
            output@ == view.selected_below(skipped, first as nat),
        decreases block_outside@.len() - block,
    {
        let remaining: usize = view.visible_faces.len() - first;
        let end: usize = first + if remaining < VISIBLE_FACE_BLOCK_SIZE {
            remaining
        } else {
            VISIBLE_FACE_BLOCK_SIZE
        };
        let outside: bool = super_outside[block / VISIBLE_FACE_SUPER_BLOCK_SIZE]
            || block_outside[block];
        let mut index: usize = first;
        while index < end
            invariant
                view.valid(),
                skipped == in_outside_group(super_outside@, block_outside@),
                first <= index <= end <= view.visible_faces@.len(),
                first == block * 16,
                end <= first + 16,
                outside == (super_outside@[block as int / 4] || block_outside@[block as int]),
                output@ == view.selected_below(skipped, index as nat),
            decreases end - index,
        {
            assert(index as int / 16 == block);
            assert(index as int / 64 == block as int / 4);
            assert(skipped(index as int) == outside);
            if !outside {
                let blend: bool = view.blends(index);
                if view.draws(index) && (blend || view.faces_camera(index))
                    && !view.samples[index].outside {
                    output.push(view.entry_for(index, blend));
                }
            }
            index += 1;
        }
        first = end;
        block += 1;
    }
    output
}

/// Skipping faces whose own box is outside changes nothing: a block test whose
/// box holds its members selects exactly what the plain selection does.
pub proof fn block_selection_is_exact(view: FrameView, skipped: spec_fn(int) -> bool, end: nat)
    requires
        forall|i: int|
            #![trigger skipped(i)]
            0 <= i < end && skipped(i) ==> view.samples@[i].outside,
    ensures
        view.selected_below(skipped, end) == view.selected_below(|i: int| false, end),
    decreases end,
{
    if end > 0 {
        block_selection_is_exact(view, skipped, (end - 1) as nat);
        assert(skipped(end - 1) ==> view.samples@[end - 1].outside);
    }
}

/// A selected list is ascending and indexes the visible list.
pub proof fn selected_entries_ascend(view: FrameView, skipped: spec_fn(int) -> bool, end: nat)
    requires
        end <= view.visible_faces@.len() <= FRAME_FACE_INDEX_MASK,
    ensures
        view.selected_below(skipped, end).len() <= end,
        forall|k: int|
            #![trigger view.selected_below(skipped, end)[k]]
            0 <= k < view.selected_below(skipped, end).len() ==> view.selected_below(
                skipped,
                end,
            )[k] as int % 0x4000 < end && view.selected_below(skipped, end)[k] < 0x8000,
        forall|k: int, l: int|
            #![trigger view.selected_below(skipped, end)[k], view.selected_below(skipped, end)[l]]
            0 <= k < l < view.selected_below(skipped, end).len() ==> view.selected_below(
                skipped,
                end,
            )[k] as int % 0x4000 < view.selected_below(skipped, end)[l] as int % 0x4000,
    decreases end,
{
    if end > 0 {
        selected_entries_ascend(view, skipped, (end - 1) as nat);
        let before = view.selected_below(skipped, (end - 1) as nat);
        let here = view.selected_below(skipped, end);
        assert(view.entry(end - 1) as int % 0x4000 == end - 1);
        assert forall|k: int| #![trigger here[k]] 0 <= k < here.len() implies here[k] as int % 0x4000
            < end && here[k] < 0x8000 by {
            if k < before.len() {
                assert(here[k] == before[k]);
            }
        }
        assert forall|k: int, l: int| #![trigger here[k], here[l]] 0 <= k < l < here.len() implies
            here[k] as int % 0x4000 < here[l] as int % 0x4000 by {
            assert(here[k] == before[k]);
            if l < before.len() {
                assert(here[l] == before[l]);
            }
        }
    }
}

/// One-entry memo for the side of the plane the camera is on. The camera is
/// fixed for a whole pass, so faces that share plane and side share the answer.
#[derive(Copy, Clone, Debug, PartialEq, Eq, Structural)]
pub struct FrontFacingCache {
    pub key: u32,
    pub value: bool,
}

/// Key of a face's plane and side.
pub open spec fn facing_key(face: VisibleFace) -> u32 {
    if face.face.flags.backside {
        (face.face.plane + 0x1_0000) as u32
    } else {
        face.face.plane as u32
    }
}

impl FrontFacingCache {
    /// A memo that no face matches.
    pub fn empty() -> (cache: Self)
        ensures
            cache.key == u32::MAX,
            !cache.value,
    {
        FrontFacingCache { key: u32::MAX, value: false }
    }

    pub fn test(&mut self, visible: VisibleFace, point: Vec3I32, terms: Vec3I32) -> (facing: bool)
        ensures
            facing == if old(self).key == facing_key(visible) {
                old(self).value
            } else {
                (signed_distance(visible.plane.kind, visible.plane.distance, point, terms) < 0)
                    == visible.face.flags.backside
            },
            final(self).key == facing_key(visible),
            final(self).value == facing,
    {
        let key: u32 = if visible.face.flags.backside {
            visible.face.plane as u32 + 0x1_0000
        } else {
            visible.face.plane as u32
        };
        if self.key != key {
            self.key = key;
            self.value = front_facing_compact_plane(
                visible.plane,
                visible.face.flags.backside,
                point,
                terms,
            );
        }
        self.value
    }
}

/// Selection that asks the one-entry memo for the facing test.
pub fn select_frame_faces_run_cached(view: &FrameView) -> (output: Vec<u16>)
    requires
        view.valid(),
        view.planes_agree(),
    ensures
        output@ == view.selected(),
{
    let mut output: Vec<u16> = Vec::new();
    let mut cache: FrontFacingCache = FrontFacingCache::empty();
    let ghost mut source: int = -1;
    let mut index: usize = 0;
    while index < view.visible_faces.len()
        invariant
            view.valid(),
            view.planes_agree(),
            index <= view.visible_faces@.len(),
            output@ == view.selected_below(|i: int| false, index as nat),
            source < index,
            source >= 0 ==> cache.key == facing_key(view.visible_faces@[source]) && cache.value
                == view.facing(source),
            source < 0 ==> cache.key == u32::MAX,
        decreases view.visible_faces@.len() - index,
    {
        let blend: bool = view.blends(index);
        if view.draws(index) {
            let face: VisibleFace = view.visible_faces[index];
            let mut keep: bool = blend;
            if !blend {
                keep = cache.test(face, view.origin, view.samples[index].terms);
                proof {
                    if source >= 0 {
                        assert(view.visible_faces@[source].face.plane == face.face.plane
                            ==> view.behind(source) == view.behind(index as int));
                    }
                    assert(keep == view.facing(index as int));
                    source = index as int;
                }
            }
            if keep && !view.samples[index].outside {
                output.push(view.entry_for(index, blend));
            }
        }
        index += 1;
    }
    output
}

/// Memo of the camera side of every plane touched this frame, stamped with
/// the frame's epoch.
pub struct PlaneFacingCache {
    pub generation: u32,
    pub epoch: u16,
    pub stamps: Vec<u16>,
    pub behind: Vec<bool>,
}

impl PlaneFacingCache {
    /// No stamp is from a later epoch.
    pub open spec fn valid(&self) -> bool {
        &&& self.behind@.len() == self.stamps@.len()
        &&& forall|p: int| 0 <= p < self.stamps@.len() ==> #[trigger] self.stamps@[p] <= self.epoch
    }

    /// No plane has been answered in the current epoch.
    pub open spec fn fresh(&self) -> bool {
        forall|p: int| 0 <= p < self.stamps@.len() ==> #[trigger] self.stamps@[p] != self.epoch
    }

    pub fn new() -> (cache: Self)
        ensures
            cache.valid(),
            cache.generation == u32::MAX,
            cache.epoch == 0,
            cache.stamps@.len() == 0,
    {
        PlaneFacingCache { generation: u32::MAX, epoch: 0, stamps: Vec::new(), behind: Vec::new() }
    }

    /// Start a frame: every earlier answer becomes stale.
    pub fn prepare(&mut self, generation: u32, plane_count: usize)
        requires
            old(self).valid(),
        ensures
            final(self).valid(),
            final(self).fresh(),
            final(self).generation == generation,
            final(self).stamps@.len() == plane_count,
            final(self).epoch == if old(self).generation != generation || old(self).stamps@.len()
                != plane_count || old(self).epoch == u16::MAX {
                1
            } else {
                old(self).epoch + 1
            },
    {
        if self.generation != generation || self.stamps.len() != plane_count {
            self.clear_stamps(plane_count);
            self.generation = generation;
            self.epoch = 0;
        }
        if self.epoch == u16::MAX {
            self.clear_stamps(plane_count);
            self.epoch = 1;
        } else {
            self.epoch += 1;
        }
    }

    fn clear_stamps(&mut self, plane_count: usize)
        ensures
            final(self).generation == old(self).generation,
            final(self).epoch == old(self).epoch,
            final(self).stamps@.len() == plane_count,
            final(self).behind@.len() == plane_count,
            forall|p: int| 0 <= p < plane_count ==> #[trigger] final(self).stamps@[p] == 0,
    {
        let mut stamps: Vec<u16> = Vec::new();
        let mut behind: Vec<bool> = Vec::new();
        while stamps.len() < plane_count
            invariant
                stamps@.len() == behind@.len(),
                stamps@.len() <= plane_count,
                forall|p: int| 0 <= p < stamps@.len() ==> #[trigger] stamps@[p] == 0,
            decreases plane_count - stamps@.len(),
        {
            stamps.push(0);
            behind.push(false);
        }
        self.stamps = stamps;
        self.behind = behind;
    }
}

/// Selection with the block test and with the plane memo: each plane's side is
/// worked out once per frame, for the first face that needs it.
pub fn select_frame_faces_blocked_plane_indexed(
    view: &FrameView,
    block_outside: &Vec<bool>,
    planes: &mut PlaneFacingCache,
) -> (output: Vec<u16>)
    requires
        view.valid(),
        view.planes_agree(),
        block_outside@.len() == groups_of(
            view.visible_faces@.len() as int,
            VISIBLE_FACE_BLOCK_SIZE as int,
        ),
        old(planes).valid(),
        old(planes).fresh(),
        forall|i: int|
            #![trigger view.visible_faces@[i]]
            0 <= i < view.visible_faces@.len() ==> view.visible_faces@[i].face.plane
                < old(planes).stamps@.len(),
    ensures
        output@ == view.selected_below(
            in_outside_block(block_outside@),
            view.visible_faces@.len(),
        ),
        final(planes).valid(),
        final(planes).epoch == old(planes).epoch,
        final(planes).generation == old(planes).generation,
        final(planes).stamps@.len() == old(planes).stamps@.len(),
{
    let ghost epoch = planes.epoch;
    let mut output: Vec<u16> = Vec::new();
    let mut index: usize = 0;
    let ghost skipped = in_outside_block(block_outside@);
    while index < view.visible_faces.len()
        invariant
            view.valid(),
            view.planes_agree(),
            skipped == in_outside_block(block_outside@),
            block_outside@.len() == groups_of(
                view.visible_faces@.len() as int,
                VISIBLE_FACE_BLOCK_SIZE as int,
            ),
            index <= view.visible_faces@.len(),
            output@ == view.selected_below(skipped, index as nat),
            planes.valid(),
            planes.epoch == old(planes).epoch,
            planes.generation == old(planes).generation,
            planes.stamps@.len() == old(planes).stamps@.len(),
            forall|i: int|
                #![trigger view.visible_faces@[i]]
                0 <= i < view.visible_faces@.len() ==> view.visible_faces@[i].face.plane
                    < planes.stamps@.len(),
            forall|i: int|
                #![trigger view.visible_faces@[i]]
                0 <= i < view.visible_faces@.len()
                    && planes.stamps@[view.visible_faces@[i].face.plane as int] == planes.epoch
                    ==> planes.behind@[view.visible_faces@[i].face.plane as int] == view.behind(i),
        decreases view.visible_faces@.len() - index,
    {
        let outside: bool = block_outside[index / VISIBLE_FACE_BLOCK_SIZE];
        assert(skipped(index as int) == outside);
        if !outside {
            let face: VisibleFace = view.visible_faces[index];
            let blend: bool = view.blends(index);
            let plane: usize = face.face.plane as usize;
            let mut facing: bool = true;
            if !blend {
                if planes.stamps[plane] != planes.epoch {
                    let behind: bool = compact_plane_distance(
                        face.plane,
                        view.origin,
                        view.samples[index].terms,
                    ) < 0;
                    planes.stamps.set(plane, planes.epoch);
                    planes.behind.set(plane, behind);
                }
                facing = planes.behind[plane] == face.face.flags.backside;
            }
            if view.draws(index) && facing && !view.samples[index].outside {
                output.push(view.entry_for(index, blend));
            }
        }
        index += 1;
    }
    output
}

/// The box around a run of visible faces.
#[derive(Copy, Clone, Debug, PartialEq, Eq, Structural)]
pub struct VisibleFaceBlock {
    pub mins: Vec3I16,
    pub maxs: Vec3I16,
}

/// The box around the `count` faces from `first` on.
pub open spec fn faces_box(faces: Seq<VisibleFace>, first: int, count: nat) -> VisibleFaceBlock
    decreases count,
{
    if count <= 1 {
        VisibleFaceBlock { mins: faces[first].bounds.mins, maxs: faces[first].bounds.maxs }
    } else {
        let before = faces_box(faces, first, (count - 1) as nat);
        let last = faces[first + count - 1].bounds;
        VisibleFaceBlock {
            mins: least(before.mins, last.mins),
            maxs: greatest(before.maxs, last.maxs),
        }
    }
}

/// The box around the `count` blocks from `first` on.
pub open spec fn blocks_box(blocks: Seq<VisibleFaceBlock>, first: int, count: nat) -> VisibleFaceBlock
    decreases count,
{
    if count <= 1 {
        blocks[first]
    } else {
        let before = blocks_box(blocks, first, (count - 1) as nat);
        let last = blocks[first + count - 1];
        VisibleFaceBlock {
            mins: least(before.mins, last.mins),
            maxs: greatest(before.maxs, last.maxs),
        }
    }
}

/// How many of `count` items fall into the group of `size` that starts at
/// `first`.
pub open spec fn group_size(count: int, first: int, size: int) -> nat {
    if count - first < size {
        (count - first) as nat
    } else {
        size as nat
    }
}

/// Rebuild the box around every sixteen consecutive faces.
pub fn rebuild_visible_face_blocks(faces: &Vec<VisibleFace>) -> (blocks: Vec<VisibleFaceBlock>)
    requires
        faces@.len() <= FRAME_FACE_INDEX_MASK,
    ensures
        blocks@.len() == groups_of(faces@.len() as int, VISIBLE_FACE_BLOCK_SIZE as int),
        forall|b: int|
            #![trigger blocks@[b]]
            0 <= b < blocks@.len() ==> blocks@[b] == faces_box(
                faces@,
                b * 16,
                group_size(faces@.len() as int, b * 16, 16),
            ),
{
    let mut blocks: Vec<VisibleFaceBlock> = Vec::new();
    let mut first: usize = 0;
    while first < faces.len()
        invariant
            first <= faces@.len() <= FRAME_FACE_INDEX_MASK,
            first < faces@.len() ==> first == blocks@.len() * 16,
            first == faces@.len() ==> blocks@.len() == groups_of(first as int, 16),
            forall|b: int|
                #![trigger blocks@[b]]
                0 <= b < blocks@.len() ==> blocks@[b] == faces_box(
                    faces@,
                    b * 16,
                    group_size(faces@.len() as int, b * 16, 16),
                ),
        decreases faces@.len() - first,
    {
        let remaining: usize = faces.len() - first;
        let end: usize = first + if remaining < VISIBLE_FACE_BLOCK_SIZE {
            remaining
        } else {
            VISIBLE_FACE_BLOCK_SIZE
        };
        let mut mins: Vec3I16 = faces[first].bounds.mins;
        let mut maxs: Vec3I16 = faces[first].bounds.maxs;
        let mut index: usize = first + 1;
        while index < end
            invariant
                first < index <= end <= faces@.len(),
                mins == faces_box(faces@, first as int, (index - first) as nat).mins,
                maxs == faces_box(faces@, first as int, (index - first) as nat).maxs,
            decreases end - index,
        {
            mins = least_of(mins, faces[index].bounds.mins);
            maxs = greatest_of(maxs, faces[index].bounds.maxs);
            index += 1;
        }
        blocks.push(VisibleFaceBlock { mins, maxs });
        first = end;
    }
    blocks
}

/// Rebuild the box around every four consecutive blocks.
pub fn rebuild_visible_face_super_blocks(blocks: &Vec<VisibleFaceBlock>) -> (groups: Vec<VisibleFaceBlock>)
    requires
        blocks@.len() <= FRAME_FACE_INDEX_MASK,
    ensures
        groups@.len() == groups_of(blocks@.len() as int, VISIBLE_FACE_SUPER_BLOCK_SIZE as int),
        forall|g: int|
            #![trigger groups@[g]]
            0 <= g < groups@.len() ==> groups@[g] == blocks_box(
                blocks@,
                g * 4,
                group_size(blocks@.len() as int, g * 4, 4),
            ),
{
    let mut groups: Vec<VisibleFaceBlock> = Vec::new();
    let mut first: usize = 0;
    while first < blocks.len()
        invariant
            first <= blocks@.len() <= FRAME_FACE_INDEX_MASK,
            first < blocks@.len() ==> first == groups@.len() * 4,
            first == blocks@.len() ==> groups@.len() == groups_of(first as int, 4),
            forall|g: int|
                #![trigger groups@[g]]
                0 <= g < groups@.len() ==> groups@[g] == blocks_box(
                    blocks@,
                    g * 4,
                    group_size(blocks@.len() as int, g * 4, 4),
                ),
        decreases blocks@.len() - first,
    {
        let remaining: usize = blocks.len() - first;
        let end: usize = first + if remaining < VISIBLE_FACE_SUPER_BLOCK_SIZE {
            remaining
        } else {
            VISIBLE_FACE_SUPER_BLOCK_SIZE
        };
        let mut mins: Vec3I16 = blocks[first].mins;
        let mut maxs: Vec3I16 = blocks[first].maxs;
        let mut index: usize = first + 1;
        while index < end
            invariant
                first < index <= end <= blocks@.len(),
                mins == blocks_box(blocks@, first as int, (index - first) as nat).mins,
                maxs == blocks_box(blocks@, first as int, (index - first) as nat).maxs,
            decreases end - index,
        {
            mins = least_of(mins, blocks[index].mins);
            maxs = greatest_of(maxs, blocks[index].maxs);
            index += 1;
        }
        groups.push(VisibleFaceBlock { mins, maxs });
        first = end;
    }
    groups
}

/// Whether `outer` holds the box from `mins` to `maxs`.
pub open spec fn box_holds(outer: VisibleFaceBlock, mins: Vec3I16, maxs: Vec3I16) -> bool {
    &&& outer.mins.x <= mins.x && maxs.x <= outer.maxs.x
    &&& outer.mins.y <= mins.y && maxs.y <= outer.maxs.y
    &&& outer.mins.z <= mins.z && maxs.z <= outer.maxs.z
}

/// A block's box holds the box of each of its faces.
pub proof fn block_holds_its_faces(faces: Seq<VisibleFace>, first: int, count: nat, member: int)
    requires
        first <= member < first + count,
    ensures
        box_holds(
            faces_box(faces, first, count),
            faces[member].bounds.mins,
            faces[member].bounds.maxs,
        ),
    decreases count,
{
    if count > 1 && member < first + count - 1 {
        block_holds_its_faces(faces, first, (count - 1) as nat, member);
    }
}

/// The box around a group of blocks holds the box of each block.
pub proof fn group_holds_its_blocks(blocks: Seq<VisibleFaceBlock>, first: int, count: nat, member: int)
    requires
        first <= member < first + count,
    ensures
        box_holds(blocks_box(blocks, first, count), blocks[member].mins, blocks[member].maxs),
    decreases count,
{
    if count > 1 && member < first + count - 1 {
        group_holds_its_blocks(blocks, first, (count - 1) as nat, member);
    }
}

/// A box test that finds a box outside only together with every box in it, as
/// a test against planes does.
pub open spec fn rejects_whole_boxes(outside: spec_fn(Vec3I16, Vec3I16) -> bool) -> bool {
    forall|outer: VisibleFaceBlock, mins: Vec3I16, maxs: Vec3I16|
        #![trigger box_holds(outer, mins, maxs)]
        box_holds(outer, mins, maxs) && outside(outer.mins, outer.maxs) ==> outside(mins, maxs)
}

/// The blocks hold the boxes of their faces, and one test has answered for the
/// faces and for the blocks.
pub open spec fn blocks_answered(
    view: FrameView,
    blocks: Seq<VisibleFaceBlock>,
    block_outside: Seq<bool>,
    outside: spec_fn(Vec3I16, Vec3I16) -> bool,
) -> bool {
    &&& forall|i: int|
        #![trigger view.visible_faces@[i]]
        0 <= i < view.visible_faces@.len() ==> {
            &&& box_holds(
                blocks[i / VISIBLE_FACE_BLOCK_SIZE as int],
                view.visible_faces@[i].bounds.mins,
                view.visible_faces@[i].bounds.maxs,
            )
            &&& view.samples@[i].outside == outside(
                view.visible_faces@[i].bounds.mins,
                view.visible_faces@[i].bounds.maxs,
            )
        }
    &&& block_outside.len() == blocks.len()
    &&& blocks.len() == groups_of(
        view.visible_faces@.len() as int,
        VISIBLE_FACE_BLOCK_SIZE as int,
    )
    &&& forall|b: int|
        #![trigger block_outside[b]]
        0 <= b < blocks.len() ==> block_outside[b] == outside(blocks[b].mins, blocks[b].maxs)
}

/// Testing blocks first selects exactly the faces that testing each face
/// selects: a rejected block holds no selected face.
pub proof fn blocked_selection_is_the_plain_one(
    view: FrameView,
    blocks: Seq<VisibleFaceBlock>,
    block_outside: Seq<bool>,
    outside: spec_fn(Vec3I16, Vec3I16) -> bool,
)
    requires
        view.valid(),
        rejects_whole_boxes(outside),
        blocks_answered(view, blocks, block_outside, outside),
    ensures
        view.selected_below(in_outside_block(block_outside), view.visible_faces@.len())
            == view.selected(),
{
    let skipped = in_outside_block(block_outside);
    let count = view.visible_faces@.len();
    assert forall|i: int| #![trigger skipped(i)] 0 <= i < count && skipped(i) implies
        view.samples@[i].outside by {
        let b = i / VISIBLE_FACE_BLOCK_SIZE as int;
        let face = view.visible_faces@[i];
        assert(0 <= b < blocks.len());
        assert(block_outside[b] == outside(blocks[b].mins, blocks[b].maxs));
        assert(box_holds(blocks[b], face.bounds.mins, face.bounds.maxs));
    }
    block_selection_is_exact(view, skipped, count);
}

/// Nor does testing groups of blocks before the blocks change what is
/// selected.
pub proof fn grouped_selection_is_the_plain_one(
    view: FrameView,
    blocks: Seq<VisibleFaceBlock>,
    block_outside: Seq<bool>,
    groups: Seq<VisibleFaceBlock>,
    super_outside: Seq<bool>,
    outside: spec_fn(Vec3I16, Vec3I16) -> bool,
)
    requires
        view.valid(),
        rejects_whole_boxes(outside),
        blocks_answered(view, blocks, block_outside, outside),
        super_outside.len() == groups.len(),
        groups.len() == groups_of(blocks.len() as int, VISIBLE_FACE_SUPER_BLOCK_SIZE as int),
        forall|b: int|
            #![trigger blocks[b]]
            0 <= b < blocks.len() ==> box_holds(
                groups[b / VISIBLE_FACE_SUPER_BLOCK_SIZE as int],
                blocks[b].mins,
                blocks[b].maxs,
            ),
        forall|g: int|
            #![trigger super_outside[g]]
            0 <= g < groups.len() ==> super_outside[g] == outside(groups[g].mins, groups[g].maxs),
    ensures
        view.selected_below(
            in_outside_group(super_outside, block_outside),
            view.visible_faces@.len(),
        ) == view.selected(),
{
    let skipped = in_outside_group(super_outside, block_outside);
    let count = view.visible_faces@.len();
    assert forall|i: int| #![trigger skipped(i)] 0 <= i < count && skipped(i) implies
        view.samples@[i].outside by {
        let b = i / VISIBLE_FACE_BLOCK_SIZE as int;
        let g = i / (VISIBLE_FACE_BLOCK_SIZE * VISIBLE_FACE_SUPER_BLOCK_SIZE);
        let face = view.visible_faces@[i];
        assert(0 <= b < blocks.len());
        assert(g == b / 4);
        assert(0 <= g < groups.len());
        assert(block_outside[b] == outside(blocks[b].mins, blocks[b].maxs));
        assert(super_outside[g] == outside(groups[g].mins, groups[g].maxs));
        assert(box_holds(groups[g], blocks[b].mins, blocks[b].maxs));
        assert(box_holds(blocks[b], face.bounds.mins, face.bounds.maxs));
    }
    block_selection_is_exact(view, skipped, count);
}

/// A face stands in the selected list exactly when its texture is drawn, it
/// faces the camera or is blended water, and its box is not outside; its entry
/// is marked exactly when it is blended water.
pub proof fn faces_are_selected_exactly(view: FrameView, end: nat, face: int)
    requires
        view.valid(),
        0 <= face < view.visible_faces@.len(),
        end <= view.visible_faces@.len(),
    ensures
        view.selected_below(|i: int| false, end).contains(view.entry(face)) <==> face < end
            && view.selects(face),
        view.entry(face) as int / 0x4000 == (if view.water_blend(face) {
            1int
        } else {
            0
        }),
    decreases end,
{
    assert(view.entry(face) as int % 0x4000 == face);
    if end > 0 {
        let last = end - 1;
        faces_are_selected_exactly(view, last as nat, face);
        assert(view.entry(last) as int % 0x4000 == last);
        let before = view.selected_below(|i: int| false, last as nat);
        let here = view.selected_below(|i: int| false, end);
        if view.selects(last) {
            assert(here == before.push(view.entry(last)));
            assert(here[here.len() - 1] == view.entry(last));
            if before.contains(view.entry(face)) {
                let k = choose|k: int| 0 <= k < before.len() && before[k] == view.entry(face);
                assert(here[k] == view.entry(face));
            }
            if here.contains(view.entry(face)) && face != last {
                let k = choose|k: int| 0 <= k < here.len() && here[k] == view.entry(face);
                assert(k < before.len());
                assert(before[k] == view.entry(face));
            }
        } else {
            assert(here == before);
        }
    }
}

/// The near plane in world space: `forward . p >= threshold` keeps `p`.
#[derive(Copy, Clone, Debug, PartialEq, Eq, Structural)]
pub struct NearPlane {
    /// Q12 view direction.
    pub forward: Vec3I32,
    /// `forward . eye` plus the near distance, in Q12 world units.
    pub threshold: i32,
}

/// Dot product in wrapping 32-bit arithmetic.
pub open spec fn wrapping_dot(left: Vec3I32, right: Vec3I32) -> i32 {
    left.x.wrapping_mul(right.x).wrapping_add(left.y.wrapping_mul(right.y)).wrapping_add(
        left.z.wrapping_mul(right.z),
    )
}

fn dot_i32(left: Vec3I32, right: Vec3I32) -> (dot: i32)
    ensures
        dot == wrapping_dot(left, right),
{
    left.x.wrapping_mul(right.x).wrapping_add(left.y.wrapping_mul(right.y)).wrapping_add(
        left.z.wrapping_mul(right.z),
    )
}

/// The corner of a box that lies farthest back along `forward`.
pub open spec fn rear_corner(forward: Vec3I32, mins: Vec3I16, maxs: Vec3I16) -> Vec3I32 {
    Vec3I32 {
        x: (if forward.x > 0 { mins.x } else { maxs.x }) as i32,
        y: (if forward.y > 0 { mins.y } else { maxs.y }) as i32,
        z: (if forward.z > 0 { mins.z } else { maxs.z }) as i32,
    }
}

/// The eye in whole units.
pub open spec fn eye_units(origin: Vec3I32) -> Vec3I32 {
    Vec3I32 {
        x: (origin.x as int / 4096) as i32,
        y: (origin.y as int / 4096) as i32,
        z: (origin.z as int / 4096) as i32,
    }
}

impl NearPlane {
    /// The plane eight units in front of an eye that looks along `forward`.
    /// The eye rounds down to whole units, which moves the plane by less than
    /// a unit.
    pub fn new(forward: Vec3I32, origin: Vec3I32) -> (plane: Self)
        ensures
            plane.forward == forward,
            plane.threshold == wrapping_dot(forward, eye_units(origin)).wrapping_add(32768),
            plane == near_plane_of(forward, origin),
    {
        let eye: Vec3I32 = Vec3I32 {
            x: whole_units(origin.x),
            y: whole_units(origin.y),
            z: whole_units(origin.z),
        };
        NearPlane { forward, threshold: dot_i32(forward, eye).wrapping_add(NEAR_PLANE_UNITS * 4096) }
    }

    /// True when some corner of the box lies behind the plane.
    pub fn reaches_behind(&self, mins: Vec3I16, maxs: Vec3I16) -> (behind: bool)
        ensures
            behind == (wrapping_dot(self.forward, rear_corner(self.forward, mins, maxs))
                < self.threshold),
    {
        let corner: Vec3I32 = Vec3I32 {
            x: (if self.forward.x > 0 { mins.x } else { maxs.x }) as i32,
            y: (if self.forward.y > 0 { mins.y } else { maxs.y }) as i32,
            z: (if self.forward.z > 0 { mins.z } else { maxs.z }) as i32,
        };
        dot_i32(self.forward, corner) < self.threshold
    }

    /// The same plane in the form of a clip plane.
    pub fn as_aabb_clip_plane(self) -> (plane: AabbClipPlane)
        ensures
            plane.normal == (Vec3I16 {
                x: self.forward.x as i16,
                y: self.forward.y as i16,
                z: self.forward.z as i16,
            }),
            plane.kind == 3,
            plane.signbits == normal_sign_bits(plane.normal),
            plane.distance == self.threshold,
    {
        let normal: Vec3I16 = Vec3I16 {
            x: self.forward.x as i16,
            y: self.forward.y as i16,
            z: self.forward.z as i16,
        };
        AabbClipPlane {
            normal,
            kind: 3,
            signbits: sign_bits_of(normal),
            distance: self.threshold,
        }
    }
}

/// Exact dot product.
pub open spec fn exact_dot(left: Vec3I32, right: Vec3I32) -> int {
    left.x * right.x + left.y * right.y + left.z * right.z
}

pub open spec fn point_of(x: i16, y: i16, z: i16) -> Vec3I32 {
    Vec3I32 { x: x as i32, y: y as i32, z: z as i32 }
}

proof fn product_fits(a: i32, b: i32)
    requires
        -4096 <= a <= 4096,
        -32768 <= b <= 32767,
    ensures
        -134217728 <= a * b <= 134217728,
        a.wrapping_mul(b) == a * b,
{
    assert(-134217728 <= a * b <= 134217728) by (nonlinear_arith)
        requires
            -4096 <= a <= 4096,
            -32768 <= b <= 32767,
    ;
}

/// With a unit view direction the near test is exact: it is true for a box
/// exactly when some point of the box lies behind the plane.
pub proof fn near_test_is_exact(plane: NearPlane, mins: Vec3I16, maxs: Vec3I16, point: Vec3I16)
    requires
        -4096 <= plane.forward.x <= 4096,
        -4096 <= plane.forward.y <= 4096,
        -4096 <= plane.forward.z <= 4096,
        mins.x <= point.x <= maxs.x,
        mins.y <= point.y <= maxs.y,
        mins.z <= point.z <= maxs.z,
    ensures
        wrapping_dot(plane.forward, rear_corner(plane.forward, mins, maxs)) == exact_dot(
            plane.forward,
            rear_corner(plane.forward, mins, maxs),
        ),
        exact_dot(plane.forward, rear_corner(plane.forward, mins, maxs)) <= exact_dot(
            plane.forward,
            point_of(point.x, point.y, point.z),
        ),
{
    let forward = plane.forward;
    let corner = rear_corner(forward, mins, maxs);
    product_fits(forward.x, corner.x);
    product_fits(forward.y, corner.y);
    product_fits(forward.z, corner.z);
    rear_axis(forward.x as int, mins.x as int, maxs.x as int, point.x as int);
    rear_axis(forward.y as int, mins.y as int, maxs.y as int, point.y as int);
    rear_axis(forward.z as int, mins.z as int, maxs.z as int, point.z as int);
}

proof fn rear_axis(direction: int, low: int, high: int, value: int)
    requires
        low <= value <= high,
    ensures
        direction > 0 ==> direction * low <= direction * value,
        direction <= 0 ==> direction * high <= direction * value,
{
    assert(direction > 0 ==> direction * low <= direction * value) by (nonlinear_arith)
        requires
            low <= value,
    ;
    assert(direction <= 0 ==> direction * high <= direction * value) by (nonlinear_arith)
        requires
            value <= high,
    ;
}

/// A plane that boxes are clipped against.
#[derive(Copy, Clone, Debug, PartialEq, Eq, Structural)]
pub struct AabbClipPlane {
    pub normal: Vec3I16,
    pub kind: u8,
    pub signbits: u8,
    pub distance: i32,
}

/// The corner of a box that lies farthest back along a clip plane's normal.
pub open spec fn inner_corner(plane: AabbClipPlane, mins: Vec3I16, maxs: Vec3I16) -> Vec3I32 {
    Vec3I32 {
        x: (if plane.signbits & 1 != 0 { maxs.x } else { mins.x }) as i32,
        y: (if plane.signbits & 2 != 0 { maxs.y } else { mins.y }) as i32,
        z: (if plane.signbits & 4 != 0 { maxs.z } else { mins.z }) as i32,
    }
}

/// Some corner of the box lies behind the plane.
pub open spec fn box_is_near(near: AabbClipPlane, mins: Vec3I16, maxs: Vec3I16) -> bool {
    wrapping_dot(
        point_of(near.normal.x, near.normal.y, near.normal.z),
        inner_corner(near, mins, maxs),
    ) < near.distance
}

/// The near test on a plane held as a clip plane.
pub fn aabb_reaches_behind_near_gte(mins: Vec3I16, maxs: Vec3I16, near: AabbClipPlane) -> (behind: bool)
    ensures
        behind == box_is_near(near, mins, maxs),
{
    let inner: Vec3I32 = Vec3I32 {
        x: (if near.signbits & 1 != 0 { maxs.x } else { mins.x }) as i32,
        y: (if near.signbits & 2 != 0 { maxs.y } else { mins.y }) as i32,
        z: (if near.signbits & 4 != 0 { maxs.z } else { mins.z }) as i32,
    };
    let normal: Vec3I32 = Vec3I32 {
        x: near.normal.x as i32,
        y: near.normal.y as i32,
        z: near.normal.z as i32,
    };
    dot_i32(normal, inner) < near.distance
}

/// Whether an entry of a selected list needs a near clip.
pub open spec fn entry_reaches_behind(faces: Seq<VisibleFace>, entry: u16, near: NearPlane) -> bool {
    let bounds = faces[(entry & FRAME_FACE_INDEX_MASK) as int].bounds;
    wrapping_dot(near.forward, rear_corner(near.forward, bounds.mins, bounds.maxs))
        < near.threshold
}

/// Set the near bit on every selected face whose box reaches behind the near
/// plane.
pub fn flag_near_faces(faces: &Vec<VisibleFace>, selected: &mut Vec<u16>, near: NearPlane)
    requires
        forall|k: int|
            #![trigger old(selected)@[k]]
            0 <= k < old(selected)@.len() ==> old(selected)@[k] & FRAME_FACE_INDEX_MASK
                < faces@.len(),
    ensures
        final(selected)@ == old(selected)@.map_values(
            |entry: u16|
                if entry_reaches_behind(faces@, entry, near) {
                    entry | NEAR_FACE_BIT
                } else {
                    entry
                },
        ),
{
    let mut index: usize = 0;
    while index < selected.len()
        invariant
            index <= selected@.len(),
            selected@.len() == old(selected)@.len(),
            forall|k: int|
                #![trigger old(selected)@[k]]
                0 <= k < old(selected)@.len() ==> old(selected)@[k] & FRAME_FACE_INDEX_MASK
                    < faces@.len(),
            forall|k: int|
                #![trigger selected@[k]]
                0 <= k < selected@.len() ==> selected@[k] == if k < index && entry_reaches_behind(
                    faces@,
                    old(selected)@[k],
                    near,
                ) {
                    old(selected)@[k] | NEAR_FACE_BIT
                } else {
                    old(selected)@[k]
                },
        decreases selected@.len() - index,
    {
        let entry: u16 = selected[index];
        assert(entry == old(selected)@[index as int]);
        let face: VisibleFace = faces[(entry & FRAME_FACE_INDEX_MASK) as usize];
        if near.reaches_behind(face.bounds.mins, face.bounds.maxs) {
            selected.set(index, entry | NEAR_FACE_BIT);
        }
        index += 1;
    }
    assert(selected@ =~= old(selected)@.map_values(
        |entry: u16|
            if entry_reaches_behind(faces@, entry, near) {
                entry | NEAR_FACE_BIT
            } else {
                entry
            },
    ));
}

/// Whether an entry reaches behind the near plane, by the clip plane's test.
pub open spec fn entry_is_near(faces: Seq<VisibleFace>, entry: u16, near: AabbClipPlane) -> bool {
    let bounds = faces[(entry & FRAME_FACE_INDEX_MASK) as int].bounds;
    box_is_near(near, bounds.mins, bounds.maxs)
}

/// Set the near bit on every selected face whose box reaches behind the near
/// plane, by the clip plane's test.
pub fn flag_near_faces_gte(faces: &Vec<VisibleFace>, selected: &mut Vec<u16>, near: AabbClipPlane)
    requires
        forall|k: int|
            #![trigger old(selected)@[k]]
            0 <= k < old(selected)@.len() ==> old(selected)@[k] & FRAME_FACE_INDEX_MASK
                < faces@.len(),
    ensures
        final(selected)@ == old(selected)@.map_values(
            |entry: u16|
                if entry_is_near(faces@, entry, near) {
                    entry | NEAR_FACE_BIT
                } else {
                    entry
                },
        ),
{
    let mut index: usize = 0;
    while index < selected.len()
        invariant
            index <= selected@.len(),
            selected@.len() == old(selected)@.len(),
            forall|k: int|
                #![trigger old(selected)@[k]]
                0 <= k < old(selected)@.len() ==> old(selected)@[k] & FRAME_FACE_INDEX_MASK
                    < faces@.len(),
            forall|k: int|
                #![trigger selected@[k]]
                0 <= k < selected@.len() ==> selected@[k] == if k < index && entry_is_near(
                    faces@,
                    old(selected)@[k],
                    near,
                ) {
                    old(selected)@[k] | NEAR_FACE_BIT
                } else {
                    old(selected)@[k]
                },
        decreases selected@.len() - index,
    {
        let entry: u16 = selected[index];
        assert(entry == old(selected)@[index as int]);
        let face: VisibleFace = faces[(entry & FRAME_FACE_INDEX_MASK) as usize];
        if aabb_reaches_behind_near_gte(face.bounds.mins, face.bounds.maxs, near) {
            selected.set(index, entry | NEAR_FACE_BIT);
        }
        index += 1;
    }
    assert(selected@ =~= old(selected)@.map_values(
        |entry: u16|
            if entry_is_near(faces@, entry, near) {
                entry | NEAR_FACE_BIT
            } else {
                entry
            },
    ));
}

/// The three parts of a selected entry do not disturb each other.
pub proof fn entry_parts_are_independent(index: u16)
    requires
        index <= FRAME_FACE_INDEX_MASK,
    ensures
        (index | NEAR_FACE_BIT) & FRAME_FACE_INDEX_MASK == index,
        ((index + WATER_BLEND_FACE_BIT) as u16) & FRAME_FACE_INDEX_MASK == index,
        ((index + WATER_BLEND_FACE_BIT) as u16 | NEAR_FACE_BIT) & FRAME_FACE_INDEX_MASK == index,
        ((index + WATER_BLEND_FACE_BIT) as u16) & WATER_BLEND_FACE_BIT != 0,
        index & WATER_BLEND_FACE_BIT == 0,
        index & NEAR_FACE_BIT == 0,
{
    assert((index | 0x8000) & 0x3fff == index && ((index + 0x4000) as u16) & 0x3fff == index && ((
    index + 0x4000) as u16 | 0x8000) & 0x3fff == index && ((index + 0x4000) as u16) & 0x4000 != 0
        && index & 0x4000 == 0 && index & 0x8000 == 0) by (bit_vector)
        requires
            index <= 0x3fff,
    ;
}

/// Componentwise saturating sum.
pub open spec fn normal_sum(left: Vec3I16, right: Vec3I16) -> Vec3I16 {
    Vec3I16 {
        x: sat_i16(left.x + right.x) as i16,
        y: sat_i16(left.y + right.y) as i16,
        z: sat_i16(left.z + right.z) as i16,
    }
}

/// Componentwise saturating difference.
pub open spec fn normal_difference(left: Vec3I16, right: Vec3I16) -> Vec3I16 {
    Vec3I16 {
        x: sat_i16(left.x - right.x) as i16,
        y: sat_i16(left.y - right.y) as i16,
        z: sat_i16(left.z - right.z) as i16,
    }
}

pub fn add_normal(left: Vec3I16, right: Vec3I16) -> (sum: Vec3I16)
    ensures
        sum == normal_sum(left, right),
{
    Vec3I16 {
        x: saturating_add_i16(left.x, right.x),
        y: saturating_add_i16(left.y, right.y),
        z: saturating_add_i16(left.z, right.z),
    }
}

pub fn subtract_normal(left: Vec3I16, right: Vec3I16) -> (difference: Vec3I16)
    ensures
        difference == normal_difference(left, right),
{
    Vec3I16 {
        x: saturating_sub_i16(left.x, right.x),
        y: saturating_sub_i16(left.y, right.y),
        z: saturating_sub_i16(left.z, right.z),
    }
}

/// A direction with each component brought into 16 bits.
pub open spec fn clamped_direction(direction: Vec3I32) -> Vec3I16 {
    Vec3I16 {
        x: sat_i16(direction.x as int) as i16,
        y: sat_i16(direction.y as int) as i16,
        z: sat_i16(direction.z as int) as i16,
    }
}

fn clamp_direction(direction: Vec3I32) -> (clamped: Vec3I16)
    ensures
        clamped == clamped_direction(direction),
{
    Vec3I16 {
        x: clamp_to_i16(direction.x),
        y: clamp_to_i16(direction.y),
        z: clamp_to_i16(direction.z),
    }
}

/// Normals of the four side planes of a ninety-degree frustum, from the Q12
/// axes of the view.
pub fn frustum_normals(forward: Vec3I32, right: Vec3I32, up: Vec3I32) -> (normals: [Vec3I16; 4])
    ensures
        normals@ == seq![
            normal_sum(clamped_direction(forward), clamped_direction(right)),
            normal_difference(clamped_direction(forward), clamped_direction(right)),
            normal_sum(clamped_direction(forward), clamped_direction(up)),
            normal_difference(clamped_direction(forward), clamped_direction(up)),
        ],
        normals@ == side_normals(forward, right, up),
{
    let ahead: Vec3I16 = clamp_direction(forward);
    let side: Vec3I16 = clamp_direction(right);
    let above: Vec3I16 = clamp_direction(up);
    [
        add_normal(ahead, side),
        subtract_normal(ahead, side),
        add_normal(ahead, above),
        subtract_normal(ahead, above),
    ]
}

/// One side plane of the frustum through the eye. `terms` are the Q12
/// products of the eye and `normal`, one per axis.
pub fn frustum_plane(normal: Vec3I16, terms: Vec3I32) -> (plane: AabbClipPlane)
    ensures
        plane.normal == normal,
        plane.kind == 3,
        plane.signbits == normal_sign_bits(normal),
        plane.distance == sat_i32(sat_i32(terms.x + terms.y) + terms.z),
{
    AabbClipPlane {
        normal,
        kind: 3,
        signbits: sign_bits_of(normal),
        distance: saturating_add_i32(saturating_add_i32(terms.x, terms.y), terms.z),
    }
}

/// The four side planes of the frustum.
pub open spec fn side_normals(forward: Vec3I32, right: Vec3I32, up: Vec3I32) -> Seq<Vec3I16> {
    seq![
        normal_sum(clamped_direction(forward), clamped_direction(right)),
        normal_difference(clamped_direction(forward), clamped_direction(right)),
        normal_sum(clamped_direction(forward), clamped_direction(up)),
        normal_difference(clamped_direction(forward), clamped_direction(up)),
    ]
}

/// The direction's components are 16-bit numbers.
pub open spec fn fits_i16(direction: Vec3I32) -> bool {
    &&& -0x8000 <= direction.x <= 0x7fff
    &&& -0x8000 <= direction.y <= 0x7fff
    &&& -0x8000 <= direction.z <= 0x7fff
}

/// A Q12 view axis has no component beyond one.
pub open spec fn is_view_axis(direction: Vec3I32) -> bool {
    &&& -4096 <= direction.x <= 4096
    &&& -4096 <= direction.y <= 4096
    &&& -4096 <= direction.z <= 4096
}

/// A direction of 16-bit components stays as it is, axis by axis.
pub proof fn short_directions_stay(direction: Vec3I32)
    requires
        fits_i16(direction),
    ensures
        clamped_direction(direction).x == direction.x,
        clamped_direction(direction).y == direction.y,
        clamped_direction(direction).z == direction.z,
{
}

/// The side planes lean out from the view direction by the two other axes:
/// ahead and aside, ahead and to the other side, ahead and up, ahead and down,
/// each in every component.
pub proof fn side_planes_lean_by_the_view_axes(forward: Vec3I32, right: Vec3I32, up: Vec3I32)
    requires
        is_view_axis(forward),
        is_view_axis(right),
        is_view_axis(up),
    ensures
        ({
            let normals = side_normals(forward, right, up);
            &&& normals.len() == 4
            &&& normals[0].x == forward.x + right.x
            &&& normals[0].y == forward.y + right.y
            &&& normals[0].z == forward.z + right.z
            &&& normals[1].x == forward.x - right.x
            &&& normals[1].y == forward.y - right.y
            &&& normals[1].z == forward.z - right.z
            &&& normals[2].x == forward.x + up.x
            &&& normals[2].y == forward.y + up.y
            &&& normals[2].z == forward.z + up.z
            &&& normals[3].x == forward.x - up.x
            &&& normals[3].y == forward.y - up.y
            &&& normals[3].z == forward.z - up.z
        }),
{
}

/// The near plane of an eye that looks along `forward`.
pub open spec fn near_plane_of(forward: Vec3I32, origin: Vec3I32) -> NearPlane {
    NearPlane {
        forward,
        threshold: wrapping_dot(forward, eye_units(origin)).wrapping_add(32768),
    }
}

/// The near plane lies eight units ahead of the eye's whole units: along the
/// view direction, a point is behind it exactly when it is less than eight
/// units ahead.
pub proof fn the_near_plane_lies_ahead(forward: Vec3I32, eye: Vec3I16, x: int, y: int, z: int)
    requires
        is_view_axis(forward),
        0 <= x < 4096,
        0 <= y < 4096,
        0 <= z < 4096,
    ensures
        ({
            let origin = Vec3I32 {
                x: (4096 * eye.x + x) as i32,
                y: (4096 * eye.y + y) as i32,
                z: (4096 * eye.z + z) as i32,
            };
            let plane = near_plane_of(forward, origin);
            &&& plane.forward == forward
            &&& plane.threshold == forward.x * eye.x + forward.y * eye.y + forward.z * eye.z + 8
                * 4096
        }),
{
    product_fits(forward.x, eye.x as i32);
    product_fits(forward.y, eye.y as i32);
    product_fits(forward.z, eye.z as i32);
}

/// A face is selected exactly when its texture is neither invisible nor null,
/// it is liquid on the water plane or turned to the camera, and its box is not
/// outside.
pub proof fn selection_goes_by_texture_side_and_box(view: FrameView, i: int)
    requires
        view.valid(),
        0 <= i < view.visible_faces@.len(),
    ensures
        ({
            let face = view.visible_faces@[i];
            let texture = view.active_textures@[face.face.material as int];
            let sample = view.samples@[i];
            let water = texture.flags.liquid && face.face.plane as i16 == view.water_plane;
            let dot = if face.plane.kind == 0 {
                view.origin.x as int
            } else if face.plane.kind == 1 {
                view.origin.y as int
            } else if face.plane.kind == 2 {
                view.origin.z as int
            } else {
                sample.terms.x + sample.terms.y + sample.terms.z
            };
            let distance = dot - face.plane.distance;
            i32::MIN <= distance <= i32::MAX ==> (view.selects(i) <==> {
                &&& !texture.flags.invisible
                &&& !texture.flags.null
                &&& water || (distance < 0 <==> face.face.flags.backside)
                &&& !sample.outside
            })
        }),
{
}

/// A block's box touches one of its faces' boxes on each side.
pub proof fn blocks_are_tight(faces: Seq<VisibleFace>, first: int, count: nat, axis: int)
    requires
        count > 0,
        0 <= axis < 3,
    ensures
        exists|f: int|
            first <= f < first + count && component(faces_box(faces, first, count).mins, axis)
                == component((#[trigger] faces[f]).bounds.mins, axis),
        exists|f: int|
            first <= f < first + count && component(faces_box(faces, first, count).maxs, axis)
                == component((#[trigger] faces[f]).bounds.maxs, axis),
    decreases count,
{
    let before = (count - 1) as nat;
    let last = first + before;
    if before > 0 {
        blocks_are_tight(faces, first, before, axis);
        let inner = faces_box(faces, first, before);
        let low = component(inner.mins, axis);
        let high = component(inner.maxs, axis);
        let c = choose|c: int|
            first <= c < last && low == component((#[trigger] faces[c]).bounds.mins, axis);
        let d = choose|d: int|
            first <= d < last && high == component((#[trigger] faces[d]).bounds.maxs, axis);
        let e = if low <= component(faces[last].bounds.mins, axis) {
            c
        } else {
            last
        };
        let g = if high >= component(faces[last].bounds.maxs, axis) {
            d
        } else {
            last
        };
        assert(component(faces_box(faces, first, count).mins, axis) == component(
            faces[e].bounds.mins,
            axis,
        ));
        assert(component(faces_box(faces, first, count).maxs, axis) == component(
            faces[g].bounds.maxs,
            axis,
        ));
    } else {
        assert(component(faces_box(faces, first, count).mins, axis) == component(
            faces[last].bounds.mins,
            axis,
        ));
    }
}

/// The clip form of a near plane finds the same boxes near as the plane itself.
pub proof fn both_near_tests_agree(plane: NearPlane, clip: AabbClipPlane, mins: Vec3I16, maxs: Vec3I16)
    requires
        is_view_axis(plane.forward),
        clip.normal.x == plane.forward.x,
        clip.normal.y == plane.forward.y,
        clip.normal.z == plane.forward.z,
        clip.signbits == normal_sign_bits(clip.normal),
        clip.distance == plane.threshold,
    ensures
        box_is_near(clip, mins, maxs) == (wrapping_dot(
            plane.forward,
            rear_corner(plane.forward, mins, maxs),
        ) < plane.threshold),
{
    sign_bits_tell_the_signs(clip.normal);
    product_fits(plane.forward.x, mins.x as i32);
    product_fits(plane.forward.y, mins.y as i32);
    product_fits(plane.forward.z, mins.z as i32);
    product_fits(plane.forward.x, maxs.x as i32);
    product_fits(plane.forward.y, maxs.y as i32);
    product_fits(plane.forward.z, maxs.z as i32);
    assert(0 * mins.x == 0 && 0 * mins.y == 0 && 0 * mins.z == 0);
    assert(0 * maxs.x == 0 && 0 * maxs.y == 0 && 0 * maxs.z == 0);
}

/// A face's key tells its plane and its side.
pub proof fn facing_keys_tell_plane_and_side(left: VisibleFace, right: VisibleFace)
    ensures
        facing_key(left) == facing_key(right) <==> left.face.plane == right.face.plane
            && left.face.flags.backside == right.face.flags.backside,
        facing_key(left) % 0x1_0000 == left.face.plane,
        facing_key(left) >= 0x1_0000 <==> left.face.flags.backside,
{
}

/// The groups of a list are of one size, but for the last, which holds the rest.
pub proof fn groups_share_out_the_list(count: int, group: int, size: int)
    requires
        size > 0,
        0 <= group,
        group * size < count,
    ensures
        group_size(count, group * size, size) <= size,
        group_size(count, group * size, size) > 0,
        (group + 1) * size <= count ==> group_size(count, group * size, size) == size,
        (group + 1) * size > count ==> group * size + group_size(count, group * size, size)
            == count,
{
    assert((group + 1) * size == group * size + size) by (nonlinear_arith);
}

/// The tests of an entry look at the box of the entry's own face.
pub proof fn entries_are_tested_by_their_own_boxes(
    faces: Seq<VisibleFace>,
    entry: u16,
    near: AabbClipPlane,
    plane: NearPlane,
)
    ensures
        ({
            let bounds = faces[(entry & 0x3fff) as int].bounds;
            &&& entry_is_near(faces, entry, near) == box_is_near(near, bounds.mins, bounds.maxs)
            &&& entry_reaches_behind(faces, entry, plane) == (wrapping_dot(
                plane.forward,
                rear_corner(plane.forward, bounds.mins, bounds.maxs),
            ) < plane.threshold)
        }),
{
}

} // verus!
