//! Compiling a camera leaf's face list: faces whose side cannot change while
//! the camera stays in the leaf are settled once.

use vstd::prelude::*;

use crate::selection::{signed_distance, VisibleFaceBlock};
use crate::world::{
    CompactPlane, RetainedSurfaceBounds, TextureInfo, Vec3I16, Vec3I32, VisibleFace,
};

verus! {

/// A listed face that is seen from the front anywhere in the leaf.
pub const VISIBLE_INVARIANT_FRONT_BIT: u16 = 0x8000;

/// A listed liquid face.
pub const VISIBLE_LIQUID_BIT: u16 = 0x4000;

/// Least product of `normal` with a coordinate between `low` and `high`.
pub open spec fn axis_least(normal: int, low: int, high: int) -> int {
    if normal < 0 {
        high * normal
    } else {
        low * normal
    }
}

/// Greatest product of `normal` with a coordinate between `low` and `high`.
pub open spec fn axis_greatest(normal: int, low: int, high: int) -> int {
    if normal < 0 {
        low * normal
    } else {
        high * normal
    }
}

/// Least value of `normal . p` over a box.
pub open spec fn box_least(normal: Vec3I16, bounds: VisibleFaceBlock) -> int {
    axis_least(normal.x as int, bounds.mins.x as int, bounds.maxs.x as int) + axis_least(
        normal.y as int,
        bounds.mins.y as int,
        bounds.maxs.y as int,
    ) + axis_least(normal.z as int, bounds.mins.z as int, bounds.maxs.z as int)
}

/// Greatest value of `normal . p` over a box.
pub open spec fn box_greatest(normal: Vec3I16, bounds: VisibleFaceBlock) -> int {
    axis_greatest(normal.x as int, bounds.mins.x as int, bounds.maxs.x as int) + axis_greatest(
        normal.y as int,
        bounds.mins.y as int,
        bounds.maxs.y as int,
    ) + axis_greatest(normal.z as int, bounds.mins.z as int, bounds.maxs.z as int)
}

/// The side a face is seen from, if it is the same from all of the box.
pub open spec fn invariant_facing(plane: CompactPlane, backside: bool, bounds: VisibleFaceBlock) -> Option<bool> {
    if box_greatest(plane.normal, bounds) < plane.distance {
        Some(backside)
    } else if box_least(plane.normal, bounds) >= plane.distance {
        Some(!backside)
    } else {
        None
    }
}

fn product(left: i16, right: i16) -> (value: i64)
    ensures
        value == left * right,
        -1073741824 <= value <= 1073741824,
{
    assert(-1073741824 <= left * right <= 1073741824) by (nonlinear_arith)
        requires
            -32768 <= left <= 32767,
            -32768 <= right <= 32767,
    ;
    left as i64 * right as i64
}

fn axis_range(normal: i16, low: i16, high: i16) -> (range: (i64, i64))
    ensures
        range.0 == axis_least(normal as int, low as int, high as int),
        range.1 == axis_greatest(normal as int, low as int, high as int),
        -1073741824 <= range.0 <= 1073741824,
        -1073741824 <= range.1 <= 1073741824,
{
    if normal < 0 {
        (product(high, normal), product(low, normal))
    } else {
        (product(low, normal), product(high, normal))
    }
}

/// The exact facing result when a plane cannot cross the leaf's box.
pub fn leaf_invariant_facing(plane: CompactPlane, backside: bool, bounds: VisibleFaceBlock) -> (facing: Option<bool>)
    ensures
        facing == invariant_facing(plane, backside, bounds),
{
    let x: (i64, i64) = axis_range(plane.normal.x, bounds.mins.x, bounds.maxs.x);
    let y: (i64, i64) = axis_range(plane.normal.y, bounds.mins.y, bounds.maxs.y);
    let z: (i64, i64) = axis_range(plane.normal.z, bounds.mins.z, bounds.maxs.z);
    let least: i64 = x.0 + y.0 + z.0;
    let greatest: i64 = x.1 + y.1 + z.1;
    if greatest < plane.distance as i64 {
        Some(backside)
    } else if least >= plane.distance as i64 {
        Some(!backside)
    } else {
        None
    }
}

/// `normal . p` for a point in whole units.
pub open spec fn point_dot(normal: Vec3I16, point: Vec3I16) -> int {
    normal.x * point.x + normal.y * point.y + normal.z * point.z
}

proof fn axis_in_range(normal: int, low: int, high: int, value: int)
    requires
        low <= value <= high,
    ensures
        axis_least(normal, low, high) <= normal * value <= axis_greatest(normal, low, high),
{
    assert(normal >= 0 ==> low * normal <= normal * value <= high * normal) by (nonlinear_arith)
        requires
            low <= value <= high,
    ;
    assert(normal < 0 ==> high * normal <= normal * value <= low * normal) by (nonlinear_arith)
        requires
            low <= value <= high,
    ;
}

/// A settled face is settled rightly: from every point of the leaf's box the
/// face is seen from the side that was settled on.
pub proof fn settled_faces_face_rightly(plane: CompactPlane, backside: bool, bounds: VisibleFaceBlock, point: Vec3I16)
    requires
        bounds.mins.x <= point.x <= bounds.maxs.x,
        bounds.mins.y <= point.y <= bounds.maxs.y,
        bounds.mins.z <= point.z <= bounds.maxs.z,
    ensures
        invariant_facing(plane, backside, bounds) matches Some(facing) ==> facing == ((point_dot(
            plane.normal,
            point,
        ) < plane.distance) == backside),
{
    axis_in_range(
        plane.normal.x as int,
        bounds.mins.x as int,
        bounds.maxs.x as int,
        point.x as int,
    );
    axis_in_range(
        plane.normal.y as int,
        bounds.mins.y as int,
        bounds.maxs.y as int,
        point.y as int,
    );
    axis_in_range(
        plane.normal.z as int,
        bounds.mins.z as int,
        bounds.maxs.z as int,
        point.z as int,
    );
}

/// The point lies in the box.
pub open spec fn in_box(bounds: VisibleFaceBlock, point: Vec3I16) -> bool {
    &&& bounds.mins.x <= point.x <= bounds.maxs.x
    &&& bounds.mins.y <= point.y <= bounds.maxs.y
    &&& bounds.mins.z <= point.z <= bounds.maxs.z
}

/// The point is a corner of the box.
pub open spec fn is_corner(bounds: VisibleFaceBlock, point: Vec3I16) -> bool {
    &&& point.x == bounds.mins.x || point.x == bounds.maxs.x
    &&& point.y == bounds.mins.y || point.y == bounds.maxs.y
    &&& point.z == bounds.mins.z || point.z == bounds.maxs.z
}

/// A point in whole units as the camera's place, in Q20.12.
pub open spec fn q12_point(point: Vec3I16) -> Vec3I32 {
    Vec3I32 {
        x: (4096 * point.x) as i32,
        y: (4096 * point.y) as i32,
        z: (4096 * point.z) as i32,
    }
}

/// The Q12 products of a normal with a point in whole units, which are exact.
pub open spec fn unit_terms(normal: Vec3I16, point: Vec3I16) -> Vec3I32 {
    Vec3I32 {
        x: (normal.x * point.x) as i32,
        y: (normal.y * point.y) as i32,
        z: (normal.z * point.z) as i32,
    }
}

/// The distance of a point in whole units that the facing test goes by.
pub open spec fn tested_distance(plane: CompactPlane, point: Vec3I16) -> i32 {
    signed_distance(
        plane.kind,
        plane.distance,
        q12_point(point),
        unit_terms(plane.normal, point),
    )
}

/// The normal of a plane across an axis is that axis.
pub open spec fn normal_fits_kind(plane: CompactPlane) -> bool {
    &&& plane.kind == 0 ==> plane.normal == (Vec3I16 { x: 4096, y: 0, z: 0 })
    &&& plane.kind == 1 ==> plane.normal == (Vec3I16 { x: 0, y: 4096, z: 0 })
    &&& plane.kind == 2 ==> plane.normal == (Vec3I16 { x: 0, y: 0, z: 4096 })
}

/// The distance of a point from a plane is a 32-bit number.
pub open spec fn distance_fits(plane: CompactPlane, point: Vec3I16) -> bool {
    i32::MIN <= point_dot(plane.normal, point) - plane.distance <= i32::MAX
}

proof fn axis_product_fits(normal: i16, value: i16)
    ensures
        -0x4000_0000 <= normal * value <= 0x4000_0000,
{
    assert(-0x4000_0000 <= normal * value <= 0x4000_0000) by (nonlinear_arith)
        requires
            -32768 <= normal <= 32767,
            -32768 <= value <= 32767,
    ;
}

proof fn tested_distance_is_exact(plane: CompactPlane, point: Vec3I16)
    requires
        normal_fits_kind(plane),
        distance_fits(plane, point),
    ensures
        tested_distance(plane, point) == point_dot(plane.normal, point) - plane.distance,
{
    axis_product_fits(plane.normal.x, point.x);
    axis_product_fits(plane.normal.y, point.y);
    axis_product_fits(plane.normal.z, point.z);
    let x = point.x as int;
    let y = point.y as int;
    let z = point.z as int;
    assert(0 * x == 0 && 0 * y == 0 && 0 * z == 0);
}

/// A face that is settled for a leaf is settled as the facing test would have
/// it, from every point in whole units of the leaf's box.
pub proof fn settled_faces_pass_the_test(
    plane: CompactPlane,
    backside: bool,
    bounds: VisibleFaceBlock,
    point: Vec3I16,
)
    requires
        normal_fits_kind(plane),
        in_box(bounds, point),
        distance_fits(plane, point),
    ensures
        invariant_facing(plane, backside, bounds) matches Some(facing) ==> facing == ((
        tested_distance(plane, point) < 0) == backside),
{
    settled_faces_face_rightly(plane, backside, bounds, point);
    tested_distance_is_exact(plane, point);
}

/// The corner of a box at which `normal . p` is least, or with `greatest` the
/// one at which it is greatest.
pub open spec fn extreme_corner(normal: Vec3I16, bounds: VisibleFaceBlock, greatest: bool) -> Vec3I16 {
    Vec3I16 {
        x: if (normal.x < 0) == greatest {
            bounds.mins.x
        } else {
            bounds.maxs.x
        },
        y: if (normal.y < 0) == greatest {
            bounds.mins.y
        } else {
            bounds.maxs.y
        },
        z: if (normal.z < 0) == greatest {
            bounds.mins.z
        } else {
            bounds.maxs.z
        },
    }
}

proof fn extremes_are_at_corners(normal: Vec3I16, bounds: VisibleFaceBlock)
    ensures
        point_dot(normal, extreme_corner(normal, bounds, false)) == box_least(normal, bounds),
        point_dot(normal, extreme_corner(normal, bounds, true)) == box_greatest(normal, bounds),
{
    assert forall|n: int, v: int| #[trigger] (n * v) == v * n by {
        assert(n * v == v * n) by (nonlinear_arith);
    }
}

/// A face stays unsettled exactly when its plane parts the corners of the
/// leaf's box: the facing test finds one of them behind it and another not.
pub proof fn unsettled_planes_part_the_corners(
    plane: CompactPlane,
    backside: bool,
    bounds: VisibleFaceBlock,
)
    requires
        normal_fits_kind(plane),
        bounds.mins.x <= bounds.maxs.x,
        bounds.mins.y <= bounds.maxs.y,
        bounds.mins.z <= bounds.maxs.z,
        forall|point: Vec3I16| is_corner(bounds, point) ==> #[trigger] distance_fits(plane, point),
    ensures
        invariant_facing(plane, backside, bounds) is None <==> exists|near: Vec3I16, far: Vec3I16|
            is_corner(bounds, near) && is_corner(bounds, far) && #[trigger] tested_distance(
                plane,
                near,
            ) < 0 && #[trigger] tested_distance(plane, far) >= 0,
{
    let least = extreme_corner(plane.normal, bounds, false);
    let greatest = extreme_corner(plane.normal, bounds, true);
    extremes_are_at_corners(plane.normal, bounds);
    assert(distance_fits(plane, least) && distance_fits(plane, greatest));
    tested_distance_is_exact(plane, least);
    tested_distance_is_exact(plane, greatest);
    if exists|near: Vec3I16, far: Vec3I16|
        is_corner(bounds, near) && is_corner(bounds, far) && #[trigger] tested_distance(plane, near)
            < 0 && #[trigger] tested_distance(plane, far) >= 0 {
        let (near, far) = choose|near: Vec3I16, far: Vec3I16|
            is_corner(bounds, near) && is_corner(bounds, far) && #[trigger] tested_distance(
                plane,
                near,
            ) < 0 && #[trigger] tested_distance(plane, far) >= 0;
        assert(distance_fits(plane, near) && distance_fits(plane, far));
        settled_faces_pass_the_test(plane, backside, bounds, near);
        settled_faces_pass_the_test(plane, backside, bounds, far);
    }
}

/// Bits of an entry that hold its face index.
pub open spec fn index_mask(mark_liquids: bool) -> u16 {
    if mark_liquids {
        0x3fff
    } else {
        0x7fff
    }
}

pub open spec fn with_index(entry: VisibleFace, surface_index: u16) -> VisibleFace {
    VisibleFace { bounds: RetainedSurfaceBounds { surface_index, ..entry.bounds }, ..entry }
}

/// What becomes of one listed face: dropped when it is never drawn or never
/// faces the camera, else kept with its settled bits.
pub open spec fn retained_entry(
    entry: VisibleFace,
    texture: TextureInfo,
    bounds: VisibleFaceBlock,
    mark_liquids: bool,
) -> Option<VisibleFace> {
    let index = entry.bounds.surface_index & index_mask(mark_liquids);
    if texture.flags.invisible || texture.flags.null {
        None
    } else if texture.flags.liquid {
        Some(with_index(entry, if mark_liquids { index | VISIBLE_LIQUID_BIT } else { index }))
    } else {
        match invariant_facing(entry.plane, entry.face.flags.backside, bounds) {
            Some(true) => Some(with_index(entry, index | VISIBLE_INVARIANT_FRONT_BIT)),
            Some(false) => None,
            None => Some(with_index(entry, index)),
        }
    }
}

/// What becomes of the first `count` listed faces.
pub open spec fn retained_faces(
    entries: Seq<VisibleFace>,
    textures: Seq<TextureInfo>,
    bounds: VisibleFaceBlock,
    mark_liquids: bool,
    count: nat,
) -> Seq<VisibleFace>
    decreases count,
{
    if count == 0 {
        Seq::empty()
    } else {
        let before = retained_faces(entries, textures, bounds, mark_liquids, (count - 1) as nat);
        let entry = entries[count - 1];
        match retained_entry(entry, textures[entry.face.material as int], bounds, mark_liquids) {
            Some(kept) => before.push(kept),
            None => before,
        }
    }
}

/// Compile a fresh list for the camera's leaf, in place. Liquids stay open so
/// that the water surface can be shown from both sides. Without a box for the
/// leaf the list stays as it is.
pub fn retain_cell_faces(
    entries: &mut Vec<VisibleFace>,
    textures: &Vec<TextureInfo>,
    bounds: Option<VisibleFaceBlock>,
    mark_liquids: bool,
)
    requires
        forall|i: int|
            #![trigger old(entries)@[i]]
            0 <= i < old(entries)@.len() ==> old(entries)@[i].face.material < textures@.len(),
    ensures
        final(entries)@ == match bounds {
            Some(found) => retained_faces(
                old(entries)@,
                textures@,
                found,
                mark_liquids,
                old(entries)@.len(),
            ),
            None => old(entries)@,
        },
{
    let cell: VisibleFaceBlock = match bounds {
        Some(found) => found,
        None => {
            return ;
        },
    };
    let ghost before = entries@;
    let mask: u16 = if mark_liquids {
        0x3fff
    } else {
        0x7fff
    };
    let mut write: usize = 0;
    let mut read: usize = 0;
    while read < entries.len()
        invariant
            write <= read <= entries@.len(),
            entries@.len() == before.len(),
            mask == index_mask(mark_liquids),
            forall|i: int|
                #![trigger before[i]]
                0 <= i < before.len() ==> before[i].face.material < textures@.len(),
            forall|i: int| read <= i < before.len() ==> entries@[i] == before[i],
            entries@.take(write as int) == retained_faces(
                before,
                textures@,
                cell,
                mark_liquids,
                read as nat,
            ),
        decreases entries@.len() - read,
    {
        let mut entry: VisibleFace = entries[read];
        assert(entry == before[read as int]);
        let ghost original = entry;
        let texture: TextureInfo = textures[entry.face.material as usize];
        let index: u16 = entry.bounds.surface_index & mask;
        let mut keep: bool = !texture.flags.invisible && !texture.flags.null;
        if keep {
            if texture.flags.liquid {
                entry.bounds.surface_index = if mark_liquids {
                    index | VISIBLE_LIQUID_BIT
                } else {
                    index
                };
            } else {
                match leaf_invariant_facing(entry.plane, entry.face.flags.backside, cell) {
                    Some(true) => {
                        entry.bounds.surface_index = index | VISIBLE_INVARIANT_FRONT_BIT;
                    },
                    Some(false) => {
                        keep = false;
                    },
                    None => {
                        entry.bounds.surface_index = index;
                    },
                }
            }
        }
        let ghost kept = entries@.take(write as int);
        if keep {
            assert(retained_entry(original, texture, cell, mark_liquids) == Some(entry));
            entries.set(write, entry);
            write += 1;
            assert(entries@.take(write as int) =~= kept.push(entry));
        }
        read += 1;
    }
    entries.truncate(write);
    assert(entries@ =~= retained_faces(before, textures@, cell, mark_liquids, before.len()));
}

/// A kept face is the same face, but for the marks on its number: settled to the
/// front, or liquid where liquids are marked.
pub proof fn kept_faces_are_marked(
    entry: VisibleFace,
    texture: TextureInfo,
    bounds: VisibleFaceBlock,
    mark_liquids: bool,
)
    ensures
        ({
            let kept = retained_entry(entry, texture, bounds, mark_liquids);
            let hidden = texture.flags.invisible || texture.flags.null;
            let index = entry.bounds.surface_index & (if mark_liquids {
                0x3fffu16
            } else {
                0x7fffu16
            });
            let facing = invariant_facing(entry.plane, entry.face.flags.backside, bounds);
            &&& kept is None <==> hidden || (!texture.flags.liquid && facing == Some(false))
            &&& kept matches Some(face) ==> {
                &&& face.face == entry.face && face.plane == entry.plane
                &&& face.bounds == (RetainedSurfaceBounds {
                    surface_index: face.bounds.surface_index,
                    ..entry.bounds
                })
                &&& texture.flags.liquid && mark_liquids ==> face.bounds.surface_index == index
                    | VISIBLE_LIQUID_BIT
                &&& texture.flags.liquid && !mark_liquids ==> face.bounds.surface_index == index
                &&& !texture.flags.liquid && facing == Some(true) ==> face.bounds.surface_index
                    == index | VISIBLE_INVARIANT_FRONT_BIT
                &&& !texture.flags.liquid && facing is None ==> face.bounds.surface_index == index
            }
        }),
{
}

/// The faces that are kept come in their order, each with its own texture.
pub proof fn kept_faces_come_in_order(
    entries: Seq<VisibleFace>,
    textures: Seq<TextureInfo>,
    bounds: VisibleFaceBlock,
    mark_liquids: bool,
    count: nat,
)
    requires
        count < entries.len(),
    ensures
        ({
            let entry = entries[count as int];
            let texture = textures[entry.face.material as int];
            let before = retained_faces(entries, textures, bounds, mark_liquids, count);
            let after = retained_faces(entries, textures, bounds, mark_liquids, count + 1);
            &&& retained_entry(entry, texture, bounds, mark_liquids) is None ==> after == before
            &&& retained_entry(entry, texture, bounds, mark_liquids) matches Some(kept) ==> after
                == before.push(kept)
        }),
        retained_faces(entries, textures, bounds, mark_liquids, 0).len() == 0,
{
}

} // verus!
