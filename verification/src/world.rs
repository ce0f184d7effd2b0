//! Plain-value model of the resident map that the renderer reads.

use vstd::prelude::*;

verus! {

/// A point or displacement in Q20.12 world units.
#[derive(Copy, Clone, Debug, PartialEq, Eq, Structural)]
pub struct Vec3I32 {
    pub x: i32,
    pub y: i32,
    pub z: i32,
}

/// A point or direction in whole units, or a Q12 normal.
#[derive(Copy, Clone, Debug, PartialEq, Eq, Structural)]
pub struct Vec3I16 {
    pub x: i16,
    pub y: i16,
    pub z: i16,
}

/// Where the player looks from.
#[derive(Copy, Clone, Debug, PartialEq, Eq, Structural)]
pub struct Camera {
    pub origin: Vec3I32,
    /// Pitch, yaw and roll.
    pub angles: Vec3I16,
}

/// What fills a BSP leaf, as far as the renderer tells contents apart.
#[derive(Copy, Clone, Debug, PartialEq, Eq, Structural)]
pub enum Contents {
    Empty,
    Water,
    Other,
}

/// One BSP leaf.
#[derive(Copy, Clone, Debug, PartialEq, Eq, Structural)]
pub struct Leaf {
    pub contents: Contents,
    /// Offset of the leaf's compressed visibility row, or negative for none.
    pub visibility_offset: i32,
    pub first_mark_surface: u32,
    pub mark_surface_count: u32,
}

/// How a face is turned and lit.
#[derive(Copy, Clone, Debug, PartialEq, Eq, Structural)]
pub struct FaceFlags {
    /// The face looks out of the back of its plane.
    pub backside: bool,
    pub baked_uv: bool,
    pub baked_light: bool,
}

/// One face as stored in the map.
#[derive(Copy, Clone, Debug, PartialEq, Eq, Structural)]
pub struct Face {
    pub plane: u16,
    pub first_vertex: u16,
    pub texture: u16,
    pub vertex_count: u8,
    pub flags: FaceFlags,
    pub light_style_0: u8,
    pub light_style_1: u8,
}

/// One BSP plane. `kind` 0, 1 and 2 are the axial planes.
#[derive(Copy, Clone, Debug, PartialEq, Eq, Structural)]
pub struct Plane {
    pub normal: Vec3I16,
    pub kind: u8,
    pub distance: i32,
}

/// What a texture asks of the renderer.
#[derive(Copy, Clone, Debug, PartialEq, Eq, Structural)]
pub struct TextureFlags {
    pub sky: bool,
    pub layered_sky: bool,
    pub liquid: bool,
    pub invisible: bool,
    pub null: bool,
}

/// One resident texture.
#[derive(Copy, Clone, Debug, PartialEq, Eq, Structural)]
pub struct TextureInfo {
    pub width: i16,
    pub height: i16,
    pub atlas_x: u8,
    pub atlas_y: u8,
    pub texture_page: u16,
    pub flags: TextureFlags,
}

/// The part of a face that drawing reads.
#[derive(Copy, Clone, Debug, PartialEq, Eq, Structural)]
pub struct CookedDrawSurface {
    pub plane: u16,
    pub first_corner: u16,
    pub material: u16,
    pub corner_count: u8,
    pub flags: FaceFlags,
    pub light_style_0: u8,
    pub light_style_1: u8,
}

/// A plane together with the sign bits of its normal.
#[derive(Copy, Clone, Debug, PartialEq, Eq, Structural)]
pub struct CompactPlane {
    pub normal: Vec3I16,
    pub kind: u8,
    pub sign_bits: u8,
    pub distance: i32,
}

/// The box around a face, under the face's index.
#[derive(Copy, Clone, Debug, PartialEq, Eq, Structural)]
pub struct RetainedSurfaceBounds {
    pub surface_index: u16,
    pub mins: Vec3I16,
    pub maxs: Vec3I16,
}

/// One face of the potentially visible set, decoded for drawing.
#[derive(Copy, Clone, Debug, PartialEq, Eq, Structural)]
pub struct VisibleFace {
    pub face: CookedDrawSurface,
    pub plane: CompactPlane,
    pub bounds: RetainedSurfaceBounds,
}

/// The resident map, as far as visibility and face selection read it.
pub struct WorldMap {
    /// Changes whenever another map becomes resident.
    pub generation: u32,
    pub leaves: Vec<Leaf>,
    pub mark_surfaces: Vec<u16>,
    /// Run-length encoded visibility rows.
    pub visibility: Vec<u8>,
    /// Leaves of the world model that visibility rows cover.
    pub visible_leaves: i32,
    pub faces: Vec<Face>,
    pub planes: Vec<Plane>,
    /// Position index of every face corner.
    pub corners: Vec<u16>,
    pub positions: Vec<Vec3I16>,
}

impl WorldMap {
    /// What loading a map establishes: every index stays inside its table.
    pub open spec fn valid(&self) -> bool {
        &&& forall|l: int|
            #![trigger self.leaves@[l]]
            0 <= l < self.leaves@.len() ==> self.leaves@[l].first_mark_surface
                + self.leaves@[l].mark_surface_count <= self.mark_surfaces@.len()
        &&& forall|m: int|
            #![trigger self.mark_surfaces@[m]]
            0 <= m < self.mark_surfaces@.len() ==> self.mark_surfaces@[m] < self.faces@.len()
        &&& forall|f: int|
            #![trigger self.faces@[f]]
            0 <= f < self.faces@.len() ==> self.face_valid(self.faces@[f])
        &&& forall|c: int|
            #![trigger self.corners@[c]]
            0 <= c < self.corners@.len() ==> self.corners@[c] < self.positions@.len()
    }

    /// Check every index of the map.
    pub fn is_valid(&self) -> (valid: bool)
        ensures
            valid == self.valid(),
    {
        let mut leaf: usize = 0;
        while leaf < self.leaves.len()
            invariant
                leaf <= self.leaves@.len(),
                forall|l: int|
                    #![trigger self.leaves@[l]]
                    0 <= l < leaf ==> self.leaves@[l].first_mark_surface
                        + self.leaves@[l].mark_surface_count <= self.mark_surfaces@.len(),
            decreases self.leaves@.len() - leaf,
        {
            let entry: Leaf = self.leaves[leaf];
            let last: u64 = entry.first_mark_surface as u64 + entry.mark_surface_count as u64;
            if last > self.mark_surfaces.len() as u64 {
                assert(self.leaves@[leaf as int] == entry);
                return false;
            }
            leaf += 1;
        }
        let mut mark: usize = 0;
        while mark < self.mark_surfaces.len()
            invariant
                mark <= self.mark_surfaces@.len(),
                forall|m: int|
                    #![trigger self.mark_surfaces@[m]]
                    0 <= m < mark ==> self.mark_surfaces@[m] < self.faces@.len(),
            decreases self.mark_surfaces@.len() - mark,
        {
            if self.mark_surfaces[mark] as usize >= self.faces.len() {
                return false;
            }
            mark += 1;
        }
        let mut index: usize = 0;
        while index < self.faces.len()
            invariant
                index <= self.faces@.len(),
                forall|f: int|
                    #![trigger self.faces@[f]]
                    0 <= f < index ==> self.face_valid(self.faces@[f]),
            decreases self.faces@.len() - index,
        {
            let face: Face = self.faces[index];
            let last: usize = face.first_vertex as usize + face.vertex_count as usize;
            if face.plane as usize >= self.planes.len() || face.vertex_count < 3 || last
                > self.corners.len() {
                assert(!self.face_valid(self.faces@[index as int]));
                return false;
            }
            index += 1;
        }
        let mut corner: usize = 0;
        while corner < self.corners.len()
            invariant
                corner <= self.corners@.len(),
                forall|c: int|
                    #![trigger self.corners@[c]]
                    0 <= c < corner ==> self.corners@[c] < self.positions@.len(),
            decreases self.corners@.len() - corner,
        {
            if self.corners[corner] as usize >= self.positions.len() {
                return false;
            }
            corner += 1;
        }
        true
    }

    pub open spec fn face_valid(&self, face: Face) -> bool {
        &&& face.plane < self.planes@.len()
        &&& face.vertex_count >= 3
        &&& face.first_vertex + face.vertex_count <= self.corners@.len()
    }

    /// Position of corner `corner`.
    pub open spec fn corner_position(&self, corner: int) -> Vec3I16 {
        self.positions@[self.corners@[corner] as int]
    }

    /// Smallest coordinates of the first `count` corners from `first` on.
    pub open spec fn corners_min(&self, first: int, count: nat) -> Vec3I16
        decreases count,
    {
        if count == 0 {
            Vec3I16 { x: i16::MAX, y: i16::MAX, z: i16::MAX }
        } else {
            least(
                self.corners_min(first, (count - 1) as nat),
                self.corner_position(first + count - 1),
            )
        }
    }

    /// Largest coordinates of the first `count` corners from `first` on.
    pub open spec fn corners_max(&self, first: int, count: nat) -> Vec3I16
        decreases count,
    {
        if count == 0 {
            Vec3I16 { x: i16::MIN, y: i16::MIN, z: i16::MIN }
        } else {
            greatest(
                self.corners_max(first, (count - 1) as nat),
                self.corner_position(first + count - 1),
            )
        }
    }

    /// Face `index` as the visible list holds it.
    pub open spec fn decoded_face(&self, index: u16) -> VisibleFace {
        let face = self.faces@[index as int];
        let plane = self.planes@[face.plane as int];
        VisibleFace {
            face: CookedDrawSurface {
                plane: face.plane,
                first_corner: face.first_vertex,
                material: face.texture,
                corner_count: face.vertex_count,
                flags: face.flags,
                light_style_0: face.light_style_0,
                light_style_1: face.light_style_1,
            },
            plane: CompactPlane {
                normal: plane.normal,
                kind: plane.kind,
                sign_bits: normal_sign_bits(plane.normal),
                distance: plane.distance,
            },
            bounds: RetainedSurfaceBounds {
                surface_index: index,
                mins: self.corners_min(face.first_vertex as int, face.vertex_count as nat),
                maxs: self.corners_max(face.first_vertex as int, face.vertex_count as nat),
            },
        }
    }
}

pub open spec fn least(left: Vec3I16, right: Vec3I16) -> Vec3I16 {
    Vec3I16 {
        x: if left.x <= right.x { left.x } else { right.x },
        y: if left.y <= right.y { left.y } else { right.y },
        z: if left.z <= right.z { left.z } else { right.z },
    }
}

pub open spec fn greatest(left: Vec3I16, right: Vec3I16) -> Vec3I16 {
    Vec3I16 {
        x: if left.x >= right.x { left.x } else { right.x },
        y: if left.y >= right.y { left.y } else { right.y },
        z: if left.z >= right.z { left.z } else { right.z },
    }
}

/// Bits 0, 1 and 2 tell whether the x, y and z components are negative.
pub open spec fn normal_sign_bits(normal: Vec3I16) -> u8 {
    let x: int = if normal.x < 0 { 1 } else { 0 };
    let y: int = if normal.y < 0 { 2 } else { 0 };
    let z: int = if normal.z < 0 { 4 } else { 0 };
    (x + y + z) as u8
}

pub fn least_of(left: Vec3I16, right: Vec3I16) -> (result: Vec3I16)
    ensures
        result == least(left, right),
{
    Vec3I16 {
        x: if left.x <= right.x { left.x } else { right.x },
        y: if left.y <= right.y { left.y } else { right.y },
        z: if left.z <= right.z { left.z } else { right.z },
    }
}

pub fn greatest_of(left: Vec3I16, right: Vec3I16) -> (result: Vec3I16)
    ensures
        result == greatest(left, right),
{
    Vec3I16 {
        x: if left.x >= right.x { left.x } else { right.x },
        y: if left.y >= right.y { left.y } else { right.y },
        z: if left.z >= right.z { left.z } else { right.z },
    }
}

pub fn sign_bits_of(normal: Vec3I16) -> (bits: u8)
    ensures
        bits == normal_sign_bits(normal),
{
    let mut bits: u8 = 0;
    if normal.x < 0 {
        bits += 1;
    }
    if normal.y < 0 {
        bits += 2;
    }
    if normal.z < 0 {
        bits += 4;
    }
    bits
}

/// The box around a face's corners: least and greatest coordinates.
pub fn face_bounds(map: &WorldMap, face: Face) -> (bounds: (Vec3I16, Vec3I16))
    requires
        map.valid(),
        map.face_valid(face),
    ensures
        bounds.0 == map.corners_min(face.first_vertex as int, face.vertex_count as nat),
        bounds.1 == map.corners_max(face.first_vertex as int, face.vertex_count as nat),
{
    let first: usize = face.first_vertex as usize;
    let count: usize = face.vertex_count as usize;
    let mut mins: Vec3I16 = Vec3I16 { x: i16::MAX, y: i16::MAX, z: i16::MAX };
    let mut maxs: Vec3I16 = Vec3I16 { x: i16::MIN, y: i16::MIN, z: i16::MIN };
    let mut index: usize = 0;
    while index < count
        invariant
            index <= count,
            first == face.first_vertex,
            count == face.vertex_count,
            map.valid(),
            map.face_valid(face),
            mins == map.corners_min(first as int, index as nat),
            maxs == map.corners_max(first as int, index as nat),
        decreases count - index,
    {
        let position: Vec3I16 = map.positions[map.corners[first + index] as usize];
        mins = least_of(mins, position);
        maxs = greatest_of(maxs, position);
        index += 1;
    }
    (mins, maxs)
}

/// Decode one face for the visible list.
pub fn decode_face(map: &WorldMap, index: u16) -> (entry: VisibleFace)
    requires
        map.valid(),
        index < map.faces@.len(),
    ensures
        entry == map.decoded_face(index),
{
    let face: Face = map.faces[index as usize];
    let plane: Plane = map.planes[face.plane as usize];
    let (mins, maxs) = face_bounds(map, face);
    VisibleFace {
        face: CookedDrawSurface {
            plane: face.plane,
            first_corner: face.first_vertex,
            material: face.texture,
            corner_count: face.vertex_count,
            flags: face.flags,
            light_style_0: face.light_style_0,
            light_style_1: face.light_style_1,
        },
        plane: CompactPlane {
            normal: plane.normal,
            kind: plane.kind,
            sign_bits: sign_bits_of(plane.normal),
            distance: plane.distance,
        },
        bounds: RetainedSurfaceBounds { surface_index: index, mins, maxs },
    }
}

/// A face's box holds each of its corners.
pub proof fn face_bounds_hold_every_corner(map: WorldMap, first: int, count: nat, corner: int)
    requires
        first <= corner < first + count,
    ensures
        map.corners_min(first, count).x <= map.corner_position(corner).x
            <= map.corners_max(first, count).x,
        map.corners_min(first, count).y <= map.corner_position(corner).y
            <= map.corners_max(first, count).y,
        map.corners_min(first, count).z <= map.corner_position(corner).z
            <= map.corners_max(first, count).z,
    decreases count,
{
    if corner < first + count - 1 {
        face_bounds_hold_every_corner(map, first, (count - 1) as nat, corner);
    }
}

/// One component of a point: x, y or z.
pub open spec fn component(point: Vec3I16, axis: int) -> i16 {
    if axis == 0 {
        point.x
    } else if axis == 1 {
        point.y
    } else {
        point.z
    }
}

/// Each side of a face's box touches one of the face's corners.
pub proof fn face_bounds_are_tight(map: WorldMap, first: int, count: nat, axis: int)
    requires
        count > 0,
        0 <= axis < 3,
    ensures
        exists|c: int|
            first <= c < first + count && component(map.corners_min(first, count), axis)
                == component(#[trigger] map.corner_position(c), axis),
        exists|c: int|
            first <= c < first + count && component(map.corners_max(first, count), axis)
                == component(#[trigger] map.corner_position(c), axis),
    decreases count,
{
    let before = (count - 1) as nat;
    let last = first + before;
    let here = component(map.corner_position(last), axis);
    let low = component(map.corners_min(first, before), axis);
    let high = component(map.corners_max(first, before), axis);
    if before > 0 {
        face_bounds_are_tight(map, first, before, axis);
        let c = choose|c: int|
            first <= c < last && low == component(#[trigger] map.corner_position(c), axis);
        let d = choose|d: int|
            first <= d < last && high == component(#[trigger] map.corner_position(d), axis);
        assert(component(map.corners_min(first, count), axis) == component(
            map.corner_position(if low <= here { c } else { last }),
            axis,
        ));
        assert(component(map.corners_max(first, count), axis) == component(
            map.corner_position(if high >= here { d } else { last }),
            axis,
        ));
    } else {
        reveal_with_fuel(WorldMap::corners_min, 2);
        reveal_with_fuel(WorldMap::corners_max, 2);
        assert(component(map.corners_min(first, count), axis) == here);
        assert(component(map.corners_max(first, count), axis) == here);
    }
}

/// The sign bits of a normal tell its three signs apart.
pub proof fn sign_bits_tell_the_signs(normal: Vec3I16)
    ensures
        normal_sign_bits(normal) & 1 != 0 <==> normal.x < 0,
        normal_sign_bits(normal) & 2 != 0 <==> normal.y < 0,
        normal_sign_bits(normal) & 4 != 0 <==> normal.z < 0,
        normal_sign_bits(normal) < 8,
{
    assert(forall|b: u8|
        b < 8 ==> ((#[trigger] (b & 1) != 0) == (b % 2 == 1)) && ((b & 2 != 0) == (b / 2 % 2 == 1))
            && ((b & 4 != 0) == (b / 4 == 1))) by (bit_vector);
    let b = normal_sign_bits(normal);
    assert(b & 1 != 0 <==> b % 2 == 1);
}

/// A listed face is the map's face of that number: its plane, corners and
/// texture, and the box of its own corners.
pub proof fn decoded_faces_are_the_maps_own(map: WorldMap, index: u16)
    requires
        map.valid(),
        index < map.faces@.len(),
    ensures
        ({
            let entry = map.decoded_face(index);
            let stored = map.faces@[index as int];
            &&& entry.bounds.surface_index == index
            &&& entry.face.plane == stored.plane
            &&& entry.face.first_corner == stored.first_vertex
            &&& entry.face.corner_count == stored.vertex_count
            &&& entry.face.material == stored.texture
            &&& entry.face.flags == stored.flags
            &&& entry.face.light_style_0 == stored.light_style_0
            &&& entry.face.light_style_1 == stored.light_style_1
            &&& entry.plane.normal == map.planes@[stored.plane as int].normal
            &&& entry.plane.kind == map.planes@[stored.plane as int].kind
            &&& entry.plane.distance == map.planes@[stored.plane as int].distance
            &&& forall|c: int|
                #![trigger map.corners@[c]]
                stored.first_vertex <= c < stored.first_vertex + stored.vertex_count ==> {
                    let corner = map.positions@[map.corners@[c] as int];
                    &&& entry.bounds.mins.x <= corner.x <= entry.bounds.maxs.x
                    &&& entry.bounds.mins.y <= corner.y <= entry.bounds.maxs.y
                    &&& entry.bounds.mins.z <= corner.z <= entry.bounds.maxs.z
                }
        }),
{
    let stored = map.faces@[index as int];
    let first = stored.first_vertex as int;
    let count = stored.vertex_count as nat;
    assert forall|c: int|
        #![trigger map.corners@[c]]
        first <= c < first + count implies {
        let corner = map.positions@[map.corners@[c] as int];
        let entry = map.decoded_face(index);
        &&& entry.bounds.mins.x <= corner.x <= entry.bounds.maxs.x
        &&& entry.bounds.mins.y <= corner.y <= entry.bounds.maxs.y
        &&& entry.bounds.mins.z <= corner.z <= entry.bounds.maxs.z
    } by {
        face_bounds_hold_every_corner(map, first, count, c);
    }
}

} // verus!
