//! Clipping against the near plane in view space.

use vstd::prelude::*;

use crate::world::Vec3I16;

verus! {

/// Depth of the near plane in view units.
pub const NEAR_PLANE_VIEW: i32 = 24;

/// How a face lies to the near plane.
#[derive(Copy, Clone, Debug, PartialEq, Eq, Structural)]
pub enum NearClip {
    /// All of it is in front.
    Whole,
    /// None of it is in front.
    Nothing,
    /// It has to be cut.
    Cut,
}

/// Corners in front of the plane among the first `count`.
pub open spec fn inside_count(depths: Seq<i32>, count: nat) -> nat
    decreases count,
{
    if count == 0 {
        0
    } else {
        inside_count(depths, (count - 1) as nat) + if depths[count - 1] >= NEAR_PLANE_VIEW {
            1nat
        } else {
            0
        }
    }
}

/// Tell from its corners' depths whether a face has to be cut.
pub fn near_clip(depths: &Vec<i32>) -> (clip: NearClip)
    ensures
        clip is Whole <==> inside_count(depths@, depths@.len()) == depths@.len(),
        clip is Nothing <==> inside_count(depths@, depths@.len()) == 0 && depths@.len() > 0,
{
    let mut inside: usize = 0;
    let mut index: usize = 0;
    while index < depths.len()
        invariant
            index <= depths@.len(),
            inside == inside_count(depths@, index as nat),
            inside <= index,
        decreases depths@.len() - index,
    {
        if depths[index] >= NEAR_PLANE_VIEW {
            inside += 1;
        }
        index += 1;
    }
    if inside == depths.len() {
        NearClip::Whole
    } else if inside == 0 {
        NearClip::Nothing
    } else {
        NearClip::Cut
    }
}

proof fn inside_count_bounds(depths: Seq<i32>, count: nat)
    requires
        count <= depths.len(),
    ensures
        inside_count(depths, count) <= count,
        inside_count(depths, count) == count <==> forall|i: int|
            0 <= i < count ==> #[trigger] depths[i] >= NEAR_PLANE_VIEW,
        inside_count(depths, count) == 0 <==> forall|i: int|
            0 <= i < count ==> #[trigger] depths[i] < NEAR_PLANE_VIEW,
    decreases count,
{
    if count > 0 {
        inside_count_bounds(depths, (count - 1) as nat);
    }
}

/// A face is drawn whole exactly when every corner is in front, and not at all
/// exactly when none is.
pub proof fn near_clip_is_exact(depths: Seq<i32>)
    ensures
        inside_count(depths, depths.len()) == depths.len() <==> forall|i: int|
            0 <= i < depths.len() ==> #[trigger] depths[i] >= NEAR_PLANE_VIEW,
        inside_count(depths, depths.len()) == 0 <==> forall|i: int|
            0 <= i < depths.len() ==> #[trigger] depths[i] < NEAR_PLANE_VIEW,
{
    inside_count_bounds(depths, depths.len());
}

/// Two corners on different sides of the plane.
pub open spec fn straddle(first: int, second: int) -> bool {
    (first >= NEAR_PLANE_VIEW) != (second >= NEAR_PLANE_VIEW)
}

/// Going `fraction` 4096ths of the way from the first depth to the second ends
/// on the plane or less than one such step before it.
pub open spec fn meets_plane(first: int, second: int, fraction: int) -> bool {
    let reached = 4096 * first + fraction * (second - first);
    let next = 4096 * first + (fraction + 1) * (second - first);
    if first < second {
        reached <= 4096 * 24 < next
    } else {
        next < 4096 * 24 <= reached
    }
}

/// The quotient of the way to the plane by the way to the second depth meets the
/// plane, from either side.
pub proof fn crossings_meet_the_plane(first: int, second: int)
    requires
        straddle(first, second),
    ensures
        first < 24 ==> meets_plane(first, second, (24 - first) * 4096 / (second - first)),
        first >= 24 ==> meets_plane(first, second, (first - 24) * 4096 / (first - second)),
{
    if first < 24 {
        let rise = 24 - first;
        let span = second - first;
        let f = rise * 4096 / span;
        assert(f * span <= rise * 4096 < (f + 1) * span) by (nonlinear_arith)
            requires
                span > 0,
                f == rise * 4096 / span,
        ;
    } else {
        let fall = first - 24;
        let span = first - second;
        let f = fall * 4096 / span;
        assert(f * span <= fall * 4096 < (f + 1) * span) by (nonlinear_arith)
            requires
                span > 0,
                f == fall * 4096 / span,
        ;
        assert(f * (second - first) == -(f * span)) by (nonlinear_arith)
            requires
                span == first - second,
        ;
        assert((f + 1) * (second - first) == -((f + 1) * span)) by (nonlinear_arith)
            requires
                span == first - second,
        ;
    }
}

/// Where the edge between two depths meets the plane, as a Q12 fraction from
/// the first to the second.
pub fn crossing_fraction(first: i32, second: i32) -> (fraction: i32)
    requires
        straddle(first as int, second as int),
    ensures
        0 <= fraction <= 4096,
        first < NEAR_PLANE_VIEW ==> fraction == (NEAR_PLANE_VIEW - first) * 4096 / (second - first),
        first >= NEAR_PLANE_VIEW ==> fraction == (first - NEAR_PLANE_VIEW) * 4096 / (first
            - second),
        meets_plane(first as int, second as int, fraction as int),
{
    proof {
        crossings_meet_the_plane(first as int, second as int);
    }
    if first < NEAR_PLANE_VIEW {
        let rise: i64 = NEAR_PLANE_VIEW as i64 - first as i64;
        let span: i64 = second as i64 - first as i64;
        assert(0 <= rise * 4096 / (span as int) <= 4096) by (nonlinear_arith)
            requires
                0 <= rise <= span,
                0 < span,
        ;
        (rise * 4096 / span) as i32
    } else {
        let fall: i64 = first as i64 - NEAR_PLANE_VIEW as i64;
        let span: i64 = first as i64 - second as i64;
        assert(0 <= fall * 4096 / (span as int) <= 4096) by (nonlinear_arith)
            requires
                0 <= fall <= span,
                0 < span,
        ;
        (fall * 4096 / span) as i32
    }
}

/// A corner made by a cut.
#[derive(Copy, Clone, Debug, PartialEq, Eq, Structural)]
pub struct CutVertex {
    pub position: Vec3I16,
    pub u: u8,
    pub v: u8,
    pub color: u32,
}

/// Pack an interpolated corner: the three colour channels share one word.
pub fn cut_vertex(position: Vec3I16, u: u8, v: u8, red: u8, green: u8, blue: u8) -> (vertex: CutVertex)
    ensures
        vertex.position == position,
        vertex.u == u,
        vertex.v == v,
        vertex.color == red + green * 0x100 + blue * 0x1_0000,
        vertex.color % 0x100 == red,
        vertex.color / 0x100 % 0x100 == green,
        vertex.color / 0x1_0000 == blue,
{
    CutVertex {
        position,
        u,
        v,
        color: red as u32 + green as u32 * 0x100 + blue as u32 * 0x1_0000,
    }
}

} // verus!
