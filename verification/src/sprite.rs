//! Sprites: decoding their frames, turning them to the camera and placing
//! their corners.

use vstd::prelude::*;

use crate::entities::last_of;
use crate::fixed::{div_i32, div_toward_zero, sat_difference, sat_i32, sat_multiple, sat_sum,
    saturating_add_i32, saturating_difference, saturating_mul_i32, saturating_multiple,
    saturating_sum, to_unit_point, unit_point, whole_units};
use crate::world::{Vec3I16, Vec3I32};

verus! {

/// Words of a sprite's packet with its tag.
pub const SPRITE_PACKET_WORDS: usize = 10;

/// One sprite frame: place in its texture page, size, placement around the
/// entity's origin and orientation mode.
#[derive(Copy, Clone, Debug, PartialEq, Eq, Structural)]
pub struct SpriteFrame {
    pub u: u8,
    pub v: u8,
    pub width: u8,
    pub height: u8,
    pub left: i16,
    pub up: i16,
    pub beam_length: i16,
    pub kind: u8,
}

/// A signed 16-bit number from its two bytes, low byte first.
pub open spec fn le_i16(low: u8, high: u8) -> i16 {
    let value = low + 256 * high;
    (if value >= 0x8000 { value - 0x1_0000 } else { value }) as i16
}

fn read_i16(low: u8, high: u8) -> (value: i16)
    ensures
        value == le_i16(low, high),
{
    let wide: i32 = low as i32 + 256 * high as i32;
    if wide >= 0x8000 {
        (wide - 0x1_0000) as i16
    } else {
        wide as i16
    }
}

/// The frame that twelve bytes stand for, unless it is empty or of an unknown
/// orientation mode.
pub open spec fn decoded_frame(bytes: Seq<u8>) -> Option<SpriteFrame> {
    if bytes.len() != 12 || bytes[2] == 0 || bytes[3] == 0 || bytes[10] > 4 {
        None
    } else {
        Some(
            SpriteFrame {
                u: bytes[0],
                v: bytes[1],
                width: bytes[2],
                height: bytes[3],
                left: le_i16(bytes[4], bytes[5]),
                up: le_i16(bytes[6], bytes[7]),
                beam_length: le_i16(bytes[8], bytes[9]),
                kind: bytes[10],
            },
        )
    }
}

impl SpriteFrame {
    pub fn decode(bytes: &Vec<u8>) -> (frame: Option<SpriteFrame>)
        ensures
            frame == decoded_frame(bytes@),
    {
        if bytes.len() != 12 || bytes[2] == 0 || bytes[3] == 0 || bytes[10] > 4 {
            return None;
        }
        Some(
            SpriteFrame {
                u: bytes[0],
                v: bytes[1],
                width: bytes[2],
                height: bytes[3],
                left: read_i16(bytes[4], bytes[5]),
                up: read_i16(bytes[6], bytes[7]),
                beam_length: read_i16(bytes[8], bytes[9]),
                kind: bytes[10],
            },
        )
    }
}

/// The frame of a sprite that is shown: the one asked for, or the last where
/// there is no such frame.
pub fn sprite_frame_index(wanted: u16, frames: u16) -> (index: u16)
    requires
        frames > 0,
    ensures
        index == last_of(wanted as int, frames as int),
        index < frames,
{
    if wanted < frames - 1 {
        wanted
    } else {
        frames - 1
    }
}

/// Three Q12 directions.
#[derive(Copy, Clone, Debug, PartialEq, Eq, Structural)]
pub struct Axes {
    pub forward: Vec3I32,
    pub right: Vec3I32,
    pub up: Vec3I32,
}

/// The upright direction of the world.
pub open spec fn world_up() -> Vec3I32 {
    Vec3I32 { x: 0, y: 0, z: 4096 }
}

/// Direction to the right of the sprite in the ground plane, before it is
/// brought to unit length: across the view for mode 0, across the line to the
/// sprite for mode 1.
pub fn sprite_heading(kind: u8, camera_forward: Vec3I32, origin: Vec3I32, camera: Vec3I32) -> (heading: Option<(i32, i32)>)
    requires
        camera_forward.x > i32::MIN,
    ensures
        kind == 0 ==> heading == Some((camera_forward.y, (-camera_forward.x) as i32)),
        kind == 1 ==> heading == Some(
            (
                (sat_i32(origin.y - camera.y) / 4096) as i32,
                (-(sat_i32(origin.x - camera.x) / 4096)) as i32,
            ),
        ),
        kind > 1 ==> heading is None,
{
    if kind == 0 {
        Some((camera_forward.y, -camera_forward.x))
    } else if kind == 1 {
        let toward: Vec3I32 = saturating_difference(origin, camera);
        Some((whole_units(toward.y), -whole_units(toward.x)))
    } else {
        None
    }
}

/// A ground-plane direction brought to Q12 unit length.
pub open spec fn unit_heading(x: int, y: int, length: int) -> Vec3I32 {
    Vec3I32 {
        x: div_toward_zero(sat_i32(x * 4096), length) as i32,
        y: div_toward_zero(sat_i32(y * 4096), length) as i32,
        z: 0,
    }
}

/// `length` is the length of the direction; a direction of no length has no
/// unit, and then the sprite is not drawn.
pub fn horizontal_unit(x: i32, y: i32, length: i32) -> (unit: Option<Vec3I32>)
    requires
        length >= 0,
    ensures
        length == 0 ==> unit is None,
        length > 0 ==> unit == Some(unit_heading(x as int, y as int, length as int)),
{
    if length == 0 {
        return None;
    }
    Some(
        Vec3I32 {
            x: div_i32(saturating_mul_i32(x, 4096), length),
            y: div_i32(saturating_mul_i32(y, 4096), length),
            z: 0,
        },
    )
}

/// What the orientation modes choose from.
#[derive(Copy, Clone, Debug, PartialEq, Eq, Structural)]
pub struct SpriteBasis {
    pub camera: Axes,
    /// The sprite's own angles.
    pub own: Axes,
    /// The unit heading of modes 0 and 1.
    pub heading: Option<Vec3I32>,
    /// Q12 products of the camera's right and up with the cosine and sine of
    /// the sprite's roll.
    pub right_cos: Vec3I32,
    pub right_neg_sin: Vec3I32,
    pub up_sin: Vec3I32,
    pub up_cos: Vec3I32,
}

/// Axes of a sprite that stands upright facing across `right`.
pub open spec fn upright_axes(right: Vec3I32) -> Axes {
    Axes {
        forward: Vec3I32 { x: (-right.y) as i32, y: right.x, z: 0 },
        right,
        up: world_up(),
    }
}

/// Axes of a sprite in each of the five orientation modes.
pub open spec fn oriented_axes(kind: u8, basis: SpriteBasis) -> Option<Axes> {
    if kind <= 1 {
        match basis.heading {
            Some(right) => Some(upright_axes(right)),
            None => None,
        }
    } else if kind == 2 {
        Some(basis.camera)
    } else if kind == 3 {
        Some(basis.own)
    } else if kind == 4 {
        Some(
            Axes {
                forward: basis.camera.forward,
                right: sat_sum(basis.right_cos, basis.up_sin),
                up: sat_sum(basis.right_neg_sin, basis.up_cos),
            },
        )
    } else {
        None
    }
}

pub fn sprite_axes(kind: u8, basis: SpriteBasis) -> (axes: Option<Axes>)
    requires
        basis.heading matches Some(right) ==> right.y > i32::MIN,
    ensures
        axes == oriented_axes(kind, basis),
{
    match kind {
        0 | 1 => match basis.heading {
            Some(right) => Some(
                Axes {
                    forward: Vec3I32 { x: -right.y, y: right.x, z: 0 },
                    right,
                    up: Vec3I32 { x: 0, y: 0, z: 4096 },
                },
            ),
            None => None,
        },
        2 => Some(basis.camera),
        3 => Some(basis.own),
        4 => Some(
            Axes {
                forward: basis.camera.forward,
                right: saturating_sum(basis.right_cos, basis.up_sin),
                up: saturating_sum(basis.right_neg_sin, basis.up_cos),
            },
        ),
        _ => None,
    }
}

/// Saturating `forward . toward`, with `toward` in whole units.
pub open spec fn facing_dot(forward: Vec3I32, camera: Vec3I32, origin: Vec3I32) -> int {
    let toward = sat_difference(camera, origin);
    sat_i32(
        sat_i32(
            sat_i32(forward.x * (toward.x as int / 4096)) + sat_i32(
                forward.y * (toward.y as int / 4096),
            ),
        ) + sat_i32(forward.z * (toward.z as int / 4096)),
    )
}

/// One corner of a sprite.
pub open spec fn sprite_corner(center: Vec3I32, axes: Axes, horizontal: int, vertical: int) -> Vec3I16 {
    unit_point(
        sat_sum(
            sat_sum(center, sat_multiple(axes.right, horizontal)),
            sat_multiple(axes.up, vertical),
        ),
    )
}

/// The centre of a sprite, moved back by its beam length.
pub open spec fn sprite_center(frame: SpriteFrame, axes: Axes, origin: Vec3I32) -> Vec3I32 {
    sat_difference(origin, sat_multiple(axes.forward, frame.beam_length as int))
}

/// What to do with a sprite.
#[derive(Copy, Clone, Debug, PartialEq, Eq)]
pub enum SpriteStep {
    /// Nothing of it is seen.
    Hidden,
    /// Its packet might not fit the arena.
    Overflow,
    /// Project these corners: top left, top right, bottom left, bottom right.
    Project([Vec3I16; 4]),
}

fn corner_of(center: Vec3I32, axes: Axes, horizontal: i32, vertical: i32) -> (corner: Vec3I16)
    ensures
        corner == sprite_corner(center, axes, horizontal as int, vertical as int),
{
    to_unit_point(
        saturating_sum(
            saturating_sum(center, saturating_multiple(axes.right, horizontal)),
            saturating_multiple(axes.up, vertical),
        ),
    )
}

/// What is decided on a sprite. A frame that does not decode, a mode without
/// axes and a sprite seen from behind are hidden.
pub open spec fn sprite_decision(
    frame: Option<SpriteFrame>,
    axes: Option<Axes>,
    origin: Vec3I32,
    camera: Vec3I32,
    next: int,
    end: int,
    step: SpriteStep,
) -> bool {
    match (frame, axes) {
        (Some(shown), Some(turned)) => if facing_dot(turned.forward, camera, origin) >= 0 {
            step is Hidden
        } else if next + SPRITE_PACKET_WORDS > end {
            step is Overflow
        } else {
            let center = sprite_center(shown, turned, origin);
            let right = shown.left + shown.width;
            let down = shown.up - shown.height;
            step is Project && step->0@ == seq![
                sprite_corner(center, turned, shown.left as int, shown.up as int),
                sprite_corner(center, turned, right, shown.up as int),
                sprite_corner(center, turned, shown.left as int, down),
                sprite_corner(center, turned, right, down),
            ]
        },
        _ => step is Hidden,
    }
}

/// Decide on a sprite.
pub fn sprite_step(
    frame: Option<SpriteFrame>,
    axes: Option<Axes>,
    origin: Vec3I32,
    camera: Vec3I32,
    next: usize,
    end: usize,
) -> (step: SpriteStep)
    ensures
        sprite_decision(frame, axes, origin, camera, next as int, end as int, step),
{
    let shown: SpriteFrame = match frame {
        Some(shown) => shown,
        None => {
            return SpriteStep::Hidden;
        },
    };
    let turned: Axes = match axes {
        Some(turned) => turned,
        None => {
            return SpriteStep::Hidden;
        },
    };
    let toward: Vec3I32 = saturating_difference(camera, origin);
    let facing: i32 = saturating_add_i32(
        saturating_add_i32(
            saturating_mul_i32(turned.forward.x, whole_units(toward.x)),
            saturating_mul_i32(turned.forward.y, whole_units(toward.y)),
        ),
        saturating_mul_i32(turned.forward.z, whole_units(toward.z)),
    );
    if facing >= 0 {
        return SpriteStep::Hidden;
    }
    if next > end || SPRITE_PACKET_WORDS > end - next {
        return SpriteStep::Overflow;
    }
    let center: Vec3I32 = saturating_difference(
        origin,
        saturating_multiple(turned.forward, shown.beam_length as i32),
    );
    let right: i32 = shown.left as i32 + shown.width as i32;
    let down: i32 = shown.up as i32 - shown.height as i32;
    SpriteStep::Project(
        [
            corner_of(center, turned, shown.left as i32, shown.up as i32),
            corner_of(center, turned, right, shown.up as i32),
            corner_of(center, turned, shown.left as i32, down),
            corner_of(center, turned, right, down),
        ],
    )
}

/// A projected corner; depth zero means that it cannot be shown.
#[derive(Copy, Clone, Debug, PartialEq, Eq, Structural)]
pub struct Projected {
    pub sx: i16,
    pub sy: i16,
    pub sz: u16,
}

/// A sprite's quad: its corners and the texture rectangle they span.
#[derive(Copy, Clone, Debug, PartialEq, Eq)]
pub struct SpriteQuad {
    pub corners: [Projected; 4],
    pub u0: u8,
    pub v0: u8,
    pub u1: u8,
    pub v1: u8,
}

/// A corner is not to be seen.
pub open spec fn corner_hidden(corners: Seq<Projected>) -> bool {
    exists|i: int| 0 <= i < 4 && (#[trigger] corners[i]).sz == 0
}

/// The quad of a projected sprite, unless one of its corners is not to be seen.
pub fn sprite_quad(frame: SpriteFrame, corners: [Projected; 4]) -> (quad: Option<SpriteQuad>)
    requires
        frame.width > 0,
        frame.height > 0,
    ensures
        quad is None <==> corner_hidden(corners@),
        quad matches Some(shown) ==> shown.corners == corners && shown.u0 == frame.u && shown.v0
            == frame.v && shown.u1 == frame.u.wrapping_add((frame.width - 1) as u8) && shown.v1
            == frame.v.wrapping_add((frame.height - 1) as u8),
{
    if corners[0].sz == 0 || corners[1].sz == 0 || corners[2].sz == 0 || corners[3].sz == 0 {
        assert(corners@[0].sz == 0 || corners@[1].sz == 0 || corners@[2].sz == 0 || corners@[3].sz
            == 0);
        return None;
    }
    Some(
        SpriteQuad {
            corners,
            u0: frame.u,
            v0: frame.v,
            u1: frame.u.wrapping_add(frame.width - 1),
            v1: frame.v.wrapping_add(frame.height - 1),
        },
    )
}

/// What became of a sprite: where the next packet goes, and whether its own
/// was written or did not fit.
#[derive(Copy, Clone, Debug, PartialEq, Eq, Structural)]
pub struct SpriteSubmit {
    pub next: usize,
    pub drawn: bool,
    pub overflow: bool,
}

/// What becomes of a sprite on which `step` was decided. `seen` tells whether
/// all corners of a projected sprite are to be seen.
pub open spec fn sprite_outcome(step: SpriteStep, seen: bool, next: int) -> SpriteSubmit {
    match step {
        SpriteStep::Hidden => SpriteSubmit { next: next as usize, drawn: false, overflow: false },
        SpriteStep::Overflow => SpriteSubmit { next: next as usize, drawn: false, overflow: true },
        SpriteStep::Project(_) => SpriteSubmit {
            next: (if seen {
                next + SPRITE_PACKET_WORDS
            } else {
                next
            }) as usize,
            drawn: seen,
            overflow: false,
        },
    }
}

/// Account for a sprite. `quad` is its quad once it has been projected.
pub fn sprite_submit(step: SpriteStep, quad: Option<SpriteQuad>, next: usize) -> (submit:
    SpriteSubmit)
    requires
        step is Project ==> next + SPRITE_PACKET_WORDS <= usize::MAX,
    ensures
        submit == sprite_outcome(step, quad is Some, next as int),
{
    match step {
        SpriteStep::Hidden => SpriteSubmit { next, drawn: false, overflow: false },
        SpriteStep::Overflow => SpriteSubmit { next, drawn: false, overflow: true },
        SpriteStep::Project(_) => match quad {
            Some(_) => SpriteSubmit {
                next: next + SPRITE_PACKET_WORDS,
                drawn: true,
                overflow: false,
            },
            None => SpriteSubmit { next, drawn: false, overflow: false },
        },
    }
}

/// A drawn sprite takes exactly its packet's words and any other none. A
/// sprite is drawn only when it faces the camera and its words were left, and
/// overflows only when they were not; it never does both.
pub proof fn sprites_keep_to_the_arena(
    frame: Option<SpriteFrame>,
    axes: Option<Axes>,
    origin: Vec3I32,
    camera: Vec3I32,
    next: usize,
    end: usize,
    step: SpriteStep,
    seen: bool,
)
    requires
        next <= end,
        sprite_decision(frame, axes, origin, camera, next as int, end as int, step),
    ensures
        ({
            let submit = sprite_outcome(step, seen, next as int);
            &&& submit.next == next + if submit.drawn {
                SPRITE_PACKET_WORDS as int
            } else {
                0
            }
            &&& submit.next <= end
            &&& !(submit.drawn && submit.overflow)
            &&& submit.overflow ==> end - next < SPRITE_PACKET_WORDS
            &&& submit.drawn ==> {
                &&& end - next >= SPRITE_PACKET_WORDS
                &&& frame is Some && axes is Some
                &&& facing_dot(axes->0.forward, camera, origin) < 0
            }
        }),
{
}

/// Every index past the end shows what the last frame shows.
pub proof fn late_frames_show_the_last(wanted: int, frames: int)
    requires
        0 < frames <= wanted,
    ensures
        last_of(wanted, frames) == last_of(frames - 1, frames),
{
}

/// A signed number stands for its two bytes, the low one first.
pub proof fn bytes_make_signed_numbers(low: u8, high: u8)
    ensures
        (le_i16(low, high) as int) % 0x1_0000 == low + 256 * high,
        le_i16(low, high) < 0 <==> high >= 128,
{
}

/// Every field of a frame is read from its own bytes.
pub proof fn frames_read_their_own_bytes(bytes: Seq<u8>)
    ensures
        decoded_frame(bytes) is Some <==> bytes.len() == 12 && bytes[2] > 0 && bytes[3] > 0
            && bytes[10] <= 4,
        decoded_frame(bytes) matches Some(frame) ==> {
            &&& frame.u == bytes[0] && frame.v == bytes[1]
            &&& frame.width == bytes[2] && frame.height == bytes[3]
            &&& (frame.left as int) % 0x1_0000 == bytes[4] + 256 * bytes[5]
            &&& (frame.up as int) % 0x1_0000 == bytes[6] + 256 * bytes[7]
            &&& (frame.beam_length as int) % 0x1_0000 == bytes[8] + 256 * bytes[9]
            &&& frame.kind == bytes[10]
        },
{
}

/// Products of a Q12 direction of at most unit length and a length fit.
proof fn direction_products_fit(a: int, factor: int)
    requires
        -4096 <= a <= 4096,
        -33_100 <= factor <= 33_100,
    ensures
        -135_577_600 <= a * factor <= 135_577_600,
{
    assert(-135_577_600 <= a * factor <= 135_577_600) by (nonlinear_arith)
        requires
            -4096 <= a <= 4096,
            -33_100 <= factor <= 33_100,
    ;
}

/// A direction whose components are at most one.
pub open spec fn is_short(direction: Vec3I32) -> bool {
    -4096 <= direction.x <= 4096 && -4096 <= direction.y <= 4096 && -4096 <= direction.z <= 4096
}

/// A point within the range of maps.
pub open spec fn in_map(point: Vec3I32) -> bool {
    &&& -0x800_0000 <= point.x < 0x800_0000
    &&& -0x800_0000 <= point.y < 0x800_0000
    &&& -0x800_0000 <= point.z < 0x800_0000
}

/// Within a map a sprite's corner lies `horizontal` units along the sprite's
/// right and `vertical` units along its up from the centre, on every axis.
pub proof fn corners_lie_along_both_axes(
    center: Vec3I32,
    axes: Axes,
    horizontal: int,
    vertical: int,
)
    requires
        in_map(center),
        is_short(axes.right),
        is_short(axes.up),
        -33_100 <= horizontal <= 33_100,
        -33_100 <= vertical <= 33_100,
    ensures
        ({
            let corner = sprite_corner(center, axes, horizontal, vertical);
            let x = (center.x + axes.right.x * horizontal + axes.up.x * vertical) / 4096;
            let y = (center.y + axes.right.y * horizontal + axes.up.y * vertical) / 4096;
            let z = (center.z + axes.right.z * horizontal + axes.up.z * vertical) / 4096;
            &&& i16::MIN <= x <= i16::MAX ==> corner.x == x
            &&& i16::MIN <= y <= i16::MAX ==> corner.y == y
            &&& i16::MIN <= z <= i16::MAX ==> corner.z == z
        }),
{
    direction_products_fit(axes.right.x as int, horizontal);
    direction_products_fit(axes.right.y as int, horizontal);
    direction_products_fit(axes.right.z as int, horizontal);
    direction_products_fit(axes.up.x as int, vertical);
    direction_products_fit(axes.up.y as int, vertical);
    direction_products_fit(axes.up.z as int, vertical);
}

/// The beam moves a sprite's centre straight back, on every axis.
pub proof fn beams_move_sprites_back(frame: SpriteFrame, axes: Axes, origin: Vec3I32)
    requires
        in_map(origin),
        is_short(axes.forward),
    ensures
        ({
            let center = sprite_center(frame, axes, origin);
            &&& center.x == origin.x - axes.forward.x * frame.beam_length
            &&& center.y == origin.y - axes.forward.y * frame.beam_length
            &&& center.z == origin.z - axes.forward.z * frame.beam_length
        }),
        frame.beam_length == 0 ==> sprite_center(frame, axes, origin) == origin,
{
    direction_products_fit(axes.forward.x as int, frame.beam_length as int);
    direction_products_fit(axes.forward.y as int, frame.beam_length as int);
    direction_products_fit(axes.forward.z as int, frame.beam_length as int);
}

/// A projected sprite has its corners in the order top left, top right, bottom
/// left, bottom right: the frame's width apart along the right and its height
/// apart along the up.
pub proof fn projected_corners_are_ordered(
    frame: SpriteFrame,
    axes: Axes,
    origin: Vec3I32,
    camera: Vec3I32,
    next: int,
    end: int,
    step: SpriteStep,
)
    requires
        sprite_decision(Some(frame), Some(axes), origin, camera, next, end, step),
        step is Project,
    ensures
        ({
            let corners = step->0@;
            let center = sprite_center(frame, axes, origin);
            let left = frame.left as int;
            let top = frame.up as int;
            let right = left + frame.width;
            let bottom = top - frame.height;
            &&& corners[0] == sprite_corner(center, axes, left, top)
            &&& corners[1] == sprite_corner(center, axes, right, top)
            &&& corners[2] == sprite_corner(center, axes, left, bottom)
            &&& corners[3] == sprite_corner(center, axes, right, bottom)
        }),
        next + 10 <= end,
{
}

/// Within a map a sprite faces the camera by the product of its forward with the
/// whole units to the camera, over all three axes.
pub proof fn facing_goes_by_all_axes(forward: Vec3I32, camera: Vec3I32, origin: Vec3I32)
    requires
        in_map(camera),
        in_map(origin),
        is_short(forward),
    ensures
        facing_dot(forward, camera, origin) == forward.x * ((camera.x - origin.x) / 4096)
            + forward.y * ((camera.y - origin.y) / 4096) + forward.z * ((camera.z - origin.z)
            / 4096),
{
    facing_products_fit(forward.x as int, (camera.x - origin.x) / 4096);
    facing_products_fit(forward.y as int, (camera.y - origin.y) / 4096);
    facing_products_fit(forward.z as int, (camera.z - origin.z) / 4096);
}

proof fn facing_products_fit(a: int, units: int)
    requires
        -4096 <= a <= 4096,
        -65_536 <= units <= 65_536,
    ensures
        -268_435_456 <= a * units <= 268_435_456,
{
    assert(-268_435_456 <= a * units <= 268_435_456) by (nonlinear_arith)
        requires
            -4096 <= a <= 4096,
            -65_536 <= units <= 65_536,
    ;
}

/// An upright sprite stands: its up is the world's, its right is the heading, and
/// its forward is the heading turned by a quarter.
pub proof fn upright_sprites_stand(kind: u8, basis: SpriteBasis)
    requires
        kind <= 1,
        basis.heading matches Some(right) ==> right.z == 0 && right.y > i32::MIN,
    ensures
        oriented_axes(kind, basis) is Some <==> basis.heading is Some,
        oriented_axes(kind, basis) matches Some(axes) ==> {
            &&& axes.up.x == 0 && axes.up.y == 0 && axes.up.z == 4096
            &&& axes.right == basis.heading->0
            &&& axes.forward.z == 0
            &&& axes.forward.x * axes.right.x + axes.forward.y * axes.right.y == 0
            &&& axes.forward.y * axes.right.x - axes.forward.x * axes.right.y == axes.right.x
                * axes.right.x + axes.right.y * axes.right.y
        },
{
    if let Some(right) = basis.heading {
        let x = right.x as int;
        let y = right.y as int;
        assert((-y) * x + x * y == 0) by (nonlinear_arith);
        assert(x * x - (-y) * y == x * x + y * y) by (nonlinear_arith);
    }
}

/// The other modes take the camera's axes, the sprite's own, or the camera's
/// turned by the sprite's roll.
pub proof fn modes_choose_their_axes(basis: SpriteBasis)
    ensures
        oriented_axes(2, basis) == Some(basis.camera),
        oriented_axes(3, basis) == Some(basis.own),
        oriented_axes(5, basis) is None,
        is_short(basis.right_cos) && is_short(basis.right_neg_sin) && is_short(basis.up_sin)
            && is_short(basis.up_cos) ==> ({
            let axes = oriented_axes(4, basis)->0;
            &&& oriented_axes(4, basis) is Some
            &&& axes.forward == basis.camera.forward
            &&& axes.right.x == basis.right_cos.x + basis.up_sin.x
            &&& axes.right.y == basis.right_cos.y + basis.up_sin.y
            &&& axes.right.z == basis.right_cos.z + basis.up_sin.z
            &&& axes.up.x == basis.right_neg_sin.x + basis.up_cos.x
            &&& axes.up.y == basis.right_neg_sin.y + basis.up_cos.y
            &&& axes.up.z == basis.right_neg_sin.z + basis.up_cos.z
        }),
{
}

/// A heading of unit length keeps its direction on both axes of the ground.
pub proof fn unit_headings_keep_their_direction(x: int, y: int, length: int)
    requires
        0 < length,
        -0x7_ffff <= x <= 0x7_ffff,
        -0x7_ffff <= y <= 0x7_ffff,
    ensures
        ({
            let unit = unit_heading(x, y, length);
            &&& unit.z == 0
            &&& unit.x == div_toward_zero(x * 4096, length)
            &&& unit.y == div_toward_zero(y * 4096, length)
            &&& unit_heading(y, x, length) == (Vec3I32 { x: unit.y, y: unit.x, z: 0 })
            &&& x == length ==> unit.x == 4096
            &&& y == length ==> unit.y == 4096
            &&& x == 0 ==> unit.x == 0
            &&& y == 0 ==> unit.y == 0
        }),
{
    quotients_shrink(x * 4096, length);
    quotients_shrink(y * 4096, length);
    assert(length * 4096 / length == 4096) by (nonlinear_arith)
        requires
            length > 0,
    ;
    assert(0int / length == 0) by (nonlinear_arith)
        requires
            length > 0,
    ;
}

proof fn quotients_shrink(value: int, divisor: int)
    requires
        0 < divisor,
    ensures
        value >= 0 ==> 0 <= div_toward_zero(value, divisor) <= value,
        value < 0 ==> value <= div_toward_zero(value, divisor) <= 0,
{
    if value >= 0 {
        assert(0 <= value / divisor <= value) by (nonlinear_arith)
            requires
                value >= 0,
                divisor > 0,
        ;
    } else {
        let positive = -value;
        assert(0 <= positive / divisor <= positive) by (nonlinear_arith)
            requires
                positive >= 0,
                divisor > 0,
        ;
    }
}

/// A sprite is hidden as soon as one of its four corners has no depth.
pub proof fn any_corner_hides_a_sprite(corners: Seq<Projected>)
    ensures
        corner_hidden(corners) <==> corners[0].sz == 0 || corners[1].sz == 0 || corners[2].sz == 0
            || corners[3].sz == 0,
{
    if corners[0].sz == 0 || corners[1].sz == 0 || corners[2].sz == 0 || corners[3].sz == 0 {
        let i: int = if corners[0].sz == 0 {
            0
        } else if corners[1].sz == 0 {
            1
        } else if corners[2].sz == 0 {
            2
        } else {
            3
        };
        assert(corners[i].sz == 0);
    }
}

} // verus!
