//! Dynamic lights on faces and models.

use vstd::prelude::*;

use crate::fixed::whole_units;
use crate::world::{Vec3I16, Vec3I32};

verus! {

/// One live light.
#[derive(Copy, Clone, Debug, PartialEq, Eq, Structural)]
pub struct DynamicLight {
    pub origin: Vec3I16,
    /// Reach, in world units.
    pub radius: u16,
}

pub open spec fn abs_int(value: int) -> int {
    if value < 0 {
        -value
    } else {
        value
    }
}

pub open spec fn max3(a: int, b: int, c: int) -> int {
    if a >= b && a >= c {
        a
    } else if b >= c {
        b
    } else {
        c
    }
}

/// The octagonal distance: the longest axis and a third of the other two.
pub open spec fn octagonal_distance(dx: int, dy: int, dz: int) -> int {
    let longest = max3(abs_int(dx), abs_int(dy), abs_int(dz));
    longest + (abs_int(dx) + abs_int(dy) + abs_int(dz) - longest) / 3
}

/// What a light adds at a point: its radius less the distance, in light bytes.
pub open spec fn light_term(light: DynamicLight, x: int, y: int, z: int) -> int {
    light.radius - octagonal_distance(
        x - light.origin.x,
        y - light.origin.y,
        z - light.origin.z,
    )
}

fn distance_on_axis(value: i32, origin: i16) -> (distance: i32)
    requires
        -524288 <= value <= 524288,
    ensures
        distance == abs_int(value - origin),
        distance <= 557056,
{
    let difference: i32 = value - origin as i32;
    if difference < 0 {
        -difference
    } else {
        difference
    }
}

/// The light term at a point in world units, negative out of reach.
pub fn dynamic_light_add(light: DynamicLight, x: i32, y: i32, z: i32) -> (add: i32)
    requires
        -524288 <= x <= 524288,
        -524288 <= y <= 524288,
        -524288 <= z <= 524288,
    ensures
        add == light_term(light, x as int, y as int, z as int),
        add <= light.radius,
{
    let dx: i32 = distance_on_axis(x, light.origin.x);
    let dy: i32 = distance_on_axis(y, light.origin.y);
    let dz: i32 = distance_on_axis(z, light.origin.z);
    let longest: i32 = if dx >= dy && dx >= dz {
        dx
    } else if dy >= dz {
        dy
    } else {
        dz
    };
    light.radius as i32 - (longest + (dx + dy + dz - longest) / 3)
}

/// An axis on which the box lies beyond the light's reach.
pub open spec fn axis_out_of_reach(light: int, radius: int, low: int, high: int) -> bool {
    low - light > radius || light - high > radius
}

/// A light cannot reach a box that is too far away on some axis.
pub open spec fn light_misses(light: DynamicLight, mins: Vec3I16, maxs: Vec3I16) -> bool {
    ||| axis_out_of_reach(light.origin.x as int, light.radius as int, mins.x as int, maxs.x as int)
    ||| axis_out_of_reach(light.origin.y as int, light.radius as int, mins.y as int, maxs.y as int)
    ||| axis_out_of_reach(light.origin.z as int, light.radius as int, mins.z as int, maxs.z as int)
}

pub fn dynamic_light_misses(light: DynamicLight, mins: Vec3I16, maxs: Vec3I16) -> (misses: bool)
    ensures
        misses == light_misses(light, mins, maxs),
{
    let radius: i32 = light.radius as i32;
    let x: i32 = light.origin.x as i32;
    let y: i32 = light.origin.y as i32;
    let z: i32 = light.origin.z as i32;
    mins.x as i32 - x > radius || x - maxs.x as i32 > radius || mins.y as i32 - y > radius || y
        - maxs.y as i32 > radius || mins.z as i32 - z > radius || z - maxs.z as i32 > radius
}

/// A light that misses a face's box would brighten no point of the face, so
/// leaving the face alone is exact.
pub proof fn missed_faces_stay_as_they_are(light: DynamicLight, mins: Vec3I16, maxs: Vec3I16, point: Vec3I16)
    requires
        light_misses(light, mins, maxs),
        mins.x <= point.x <= maxs.x,
        mins.y <= point.y <= maxs.y,
        mins.z <= point.z <= maxs.z,
    ensures
        light_term(light, point.x as int, point.y as int, point.z as int) < 0,
{
}

/// A materialized corner: where it is and its packed colour.
#[derive(Copy, Clone, Debug, PartialEq, Eq, Structural)]
pub struct LitVertex {
    pub position: Vec3I16,
    pub color: u32,
}

/// The grey with `level` in each of its three channels.
pub open spec fn grey(level: int) -> u32 {
    (level * 0x1_0101) as u32
}

/// Colour of a corner with the light added. One grey level stands in all
/// three channels, so one channel is the light there was.
pub open spec fn lit_color(light: DynamicLight, vertex: LitVertex) -> u32 {
    let term = light_term(
        light,
        vertex.position.x as int,
        vertex.position.y as int,
        vertex.position.z as int,
    );
    let level = vertex.color as int % 256 + if term > 0 {
        term
    } else {
        0
    };
    grey(if level > 255 { 255 } else { level })
}

/// Add a light to one corner.
pub fn light_vertex(light: DynamicLight, vertex: LitVertex) -> (color: u32)
    ensures
        color == lit_color(light, vertex),
{
    let add: i32 = dynamic_light_add(
        light,
        vertex.position.x as i32,
        vertex.position.y as i32,
        vertex.position.z as i32,
    );
    let raised: i32 = (vertex.color % 256) as i32 + if add > 0 {
        add
    } else {
        0
    };
    let level: u32 = if raised > 255 {
        255
    } else {
        raised as u32
    };
    level * 0x1_0101
}

/// Some light reaches the box.
pub open spec fn lights_reach(lights: Seq<DynamicLight>, mins: Vec3I16, maxs: Vec3I16) -> bool {
    exists|k: int|
        #![trigger lights[k]]
        0 <= k < lights.len() && !light_misses(lights[k], mins, maxs)
}

/// Whether no light reaches a box.
pub fn dynamic_lights_miss(lights: &Vec<DynamicLight>, mins: Vec3I16, maxs: Vec3I16) -> (miss: bool)
    ensures
        miss == !lights_reach(lights@, mins, maxs),
{
    let mut index: usize = 0;
    while index < lights.len()
        invariant
            index <= lights@.len(),
            forall|k: int|
                #![trigger lights@[k]]
                0 <= k < index ==> light_misses(lights@[k], mins, maxs),
        decreases lights@.len() - index,
    {
        if !dynamic_light_misses(lights[index], mins, maxs) {
            assert(!light_misses(lights@[index as int], mins, maxs));
            return false;
        }
        index += 1;
    }
    true
}

/// What a light adds at a point that it may not reach.
pub open spec fn light_gain(light: DynamicLight, x: int, y: int, z: int) -> int {
    let term = light_term(light, x, y, z);
    if term > 0 {
        term
    } else {
        0
    }
}

/// What the lights that reach a face's box add, together, to one of its
/// corners.
pub open spec fn corner_gain(
    lights: Seq<DynamicLight>,
    mins: Vec3I16,
    maxs: Vec3I16,
    corner: Vec3I16,
) -> int
    decreases lights.len(),
{
    if lights.len() == 0 {
        0
    } else {
        let earlier = corner_gain(lights.drop_last(), mins, maxs, corner);
        if light_misses(lights.last(), mins, maxs) {
            earlier
        } else {
            earlier + light_gain(
                lights.last(),
                corner.x as int,
                corner.y as int,
                corner.z as int,
            )
        }
    }
}

/// A corner of a face with every light of the frame added to it. A face that
/// no light reaches stays as it is.
pub open spec fn lit_corner(
    lights: Seq<DynamicLight>,
    mins: Vec3I16,
    maxs: Vec3I16,
    vertex: LitVertex,
) -> LitVertex {
    if lights_reach(lights, mins, maxs) {
        let level = vertex.color as int % 256 + corner_gain(lights, mins, maxs, vertex.position);
        LitVertex {
            position: vertex.position,
            color: grey(
                if level > 255 {
                    255
                } else {
                    level
                },
            ),
        }
    } else {
        vertex
    }
}

proof fn corner_gain_is_positive(
    lights: Seq<DynamicLight>,
    mins: Vec3I16,
    maxs: Vec3I16,
    corner: Vec3I16,
)
    ensures
        corner_gain(lights, mins, maxs, corner) >= 0,
        !lights_reach(lights, mins, maxs) ==> corner_gain(lights, mins, maxs, corner) == 0,
    decreases lights.len(),
{
    if lights.len() > 0 {
        let earlier = lights.drop_last();
        corner_gain_is_positive(earlier, mins, maxs, corner);
        if !lights_reach(lights, mins, maxs) {
            assert(light_misses(lights[lights.len() - 1], mins, maxs));
            assert forall|k: int| #![trigger earlier[k]] 0 <= k < earlier.len() implies
                light_misses(earlier[k], mins, maxs) by {
                assert(earlier[k] == lights[k]);
            }
        }
    }
}

/// Adding one more light to a corner, after those before it, is adding them
/// all at once: the level is cut off at full once or each time alike.
proof fn one_more_light(
    lights: Seq<DynamicLight>,
    count: int,
    mins: Vec3I16,
    maxs: Vec3I16,
    vertex: LitVertex,
)
    requires
        0 <= count < lights.len(),
    ensures
        ({
            let before = lit_corner(lights.take(count), mins, maxs, vertex);
            lit_corner(lights.take(count + 1), mins, maxs, vertex) == if light_misses(
                lights[count],
                mins,
                maxs,
            ) {
                before
            } else {
                LitVertex { position: vertex.position, color: lit_color(lights[count], before) }
            }
        }),
{
    let fewer = lights.take(count);
    let more = lights.take(count + 1);
    assert(more.drop_last() =~= fewer);
    assert(more.last() == lights[count]);
    assert(more[count] == lights[count]);
    corner_gain_is_positive(fewer, mins, maxs, vertex.position);
    if lights_reach(fewer, mins, maxs) {
        let k = choose|k: int|
            #![trigger fewer[k]]
            0 <= k < fewer.len() && !light_misses(fewer[k], mins, maxs);
        assert(more[k] == fewer[k]);
        let sum = vertex.color as int % 256 + corner_gain(fewer, mins, maxs, vertex.position);
        let level = if sum > 255 {
            255
        } else {
            sum
        };
        assert(0 <= level <= 255);
        assert((level * 0x1_0101) % 256 == level);
        assert(grey(level) as int % 256 == level);
    }
    if lights_reach(more, mins, maxs) {
        let k = choose|k: int|
            #![trigger more[k]]
            0 <= k < more.len() && !light_misses(more[k], mins, maxs);
        if k < count {
            assert(fewer[k] == more[k]);
        }
    }
}

/// Add every live light to one corner of a face.
pub fn light_corner(
    lights: &Vec<DynamicLight>,
    mins: Vec3I16,
    maxs: Vec3I16,
    vertex: LitVertex,
) -> (lit: LitVertex)
    ensures
        lit == lit_corner(lights@, mins, maxs, vertex),
{
    let mut lit: LitVertex = vertex;
    let mut index: usize = 0;
    while index < lights.len()
        invariant
            index <= lights@.len(),
            lit == lit_corner(lights@.take(index as int), mins, maxs, vertex),
        decreases lights@.len() - index,
    {
        let light: DynamicLight = lights[index];
        if !dynamic_light_misses(light, mins, maxs) {
            lit.color = light_vertex(light, lit);
        }
        proof {
            one_more_light(lights@, index as int, mins, maxs, vertex);
        }
        index += 1;
    }
    assert(lights@.take(index as int) =~= lights@);
    lit
}

/// Add every live light to the corners of one face.
pub fn light_face(
    lights: &Vec<DynamicLight>,
    mins: Vec3I16,
    maxs: Vec3I16,
    vertices: &mut Vec<LitVertex>,
)
    ensures
        final(vertices)@ == old(vertices)@.map_values(
            |vertex: LitVertex| lit_corner(lights@, mins, maxs, vertex),
        ),
{
    let mut index: usize = 0;
    while index < vertices.len()
        invariant
            index <= vertices@.len(),
            vertices@.len() == old(vertices)@.len(),
            forall|i: int|
                #![trigger vertices@[i]]
                0 <= i < vertices@.len() ==> vertices@[i] == if i < index {
                    lit_corner(lights@, mins, maxs, old(vertices)@[i])
                } else {
                    old(vertices)@[i]
                },
        decreases vertices@.len() - index,
    {
        let vertex: LitVertex = vertices[index];
        vertices.set(index, light_corner(lights, mins, maxs, vertex));
        index += 1;
    }
    assert(vertices@ =~= old(vertices)@.map_values(
        |vertex: LitVertex| lit_corner(lights@, mins, maxs, vertex),
    ));
}

/// What one light adds to a model standing at `origin`.
pub open spec fn light_at(light: DynamicLight, origin: Vec3I32) -> int {
    light_gain(
        light,
        origin.x as int / 4096,
        origin.y as int / 4096,
        origin.z as int / 4096,
    )
}

/// What all lights together add to a model standing at `origin`.
pub open spec fn lights_at(lights: Seq<DynamicLight>, origin: Vec3I32) -> int
    decreases lights.len(),
{
    if lights.len() == 0 {
        0
    } else {
        lights_at(lights.drop_last(), origin) + light_at(lights.last(), origin)
    }
}

/// Lights whose sum is sure to fit.
pub const MAX_SUMMED_LIGHTS: usize = 32767;

/// Every live light adds its radius less its distance.
pub fn dynamic_light_at(lights: &Vec<DynamicLight>, origin: Vec3I32) -> (add: i32)
    requires
        lights@.len() <= MAX_SUMMED_LIGHTS,
    ensures
        add == lights_at(lights@, origin),
        0 <= add <= 0xffff * lights@.len(),
{
    let x: i32 = whole_units(origin.x);
    let y: i32 = whole_units(origin.y);
    let z: i32 = whole_units(origin.z);
    let mut sum: i32 = 0;
    let mut index: usize = 0;
    while index < lights.len()
        invariant
            index <= lights@.len() <= MAX_SUMMED_LIGHTS,
            x == origin.x as int / 4096,
            y == origin.y as int / 4096,
            z == origin.z as int / 4096,
            -524288 <= x <= 524288,
            -524288 <= y <= 524288,
            -524288 <= z <= 524288,
            sum == lights_at(lights@.take(index as int), origin),
            0 <= sum <= 0xffff * index,
        decreases lights@.len() - index,
    {
        let add: i32 = dynamic_light_add(lights[index], x, y, z);
        proof {
            let more = lights@.take(index + 1);
            assert(more.drop_last() =~= lights@.take(index as int));
            assert(more.last() == lights@[index as int]);
        }
        sum += if add > 0 {
            add
        } else {
            0
        };
        index += 1;
    }
    assert(lights@.take(index as int) =~= lights@);
    sum
}

/// The grey that tints a model: its own light and the frame's, at most full.
pub fn model_tint(base: u8, lights: &Vec<DynamicLight>, origin: Vec3I32) -> (tint: u32)
    requires
        lights@.len() <= MAX_SUMMED_LIGHTS,
    ensures
        ({
            let level = base + lights_at(lights@, origin);
            tint == grey(
                if level > 255 {
                    255
                } else {
                    level
                },
            )
        }),
{
    let sum: i32 = base as i32 + dynamic_light_at(lights, origin);
    let level: u32 = if sum > 255 {
        255
    } else {
        sum as u32
    };
    level * 0x1_0101
}

/// A model and a corner of a face at the same point in whole units gain the
/// same from a light.
pub proof fn models_gain_what_faces_gain(light: DynamicLight, point: Vec3I16, x: int, y: int, z: int)
    requires
        0 <= x < 4096,
        0 <= y < 4096,
        0 <= z < 4096,
    ensures
        light_at(
            light,
            Vec3I32 {
                x: (4096 * point.x + x) as i32,
                y: (4096 * point.y + y) as i32,
                z: (4096 * point.z + z) as i32,
            },
        ) == light_gain(light, point.x as int, point.y as int, point.z as int),
{
}

/// A light at a point adds its whole radius there, and along an axis one less
/// for each unit, until nothing is left.
pub proof fn lights_fade_along_each_axis(light: DynamicLight, distance: int)
    ensures
        ({
            let at = light.origin;
            let x = at.x as int;
            let y = at.y as int;
            let z = at.z as int;
            let left = light.radius - (if distance < 0 {
                -distance
            } else {
                distance
            });
            let gain = if left > 0 {
                left
            } else {
                0
            };
            &&& light_gain(light, x, y, z) == light.radius
            &&& light_gain(light, x + distance, y, z) == gain
            &&& light_gain(light, x, y + distance, z) == gain
            &&& light_gain(light, x, y, z + distance) == gain
        }),
{
}

/// A light standing at a model adds its whole radius to it.
pub proof fn a_light_at_a_model_adds_its_radius(light: DynamicLight, origin: Vec3I32)
    requires
        origin.x as int / 4096 == light.origin.x,
        origin.y as int / 4096 == light.origin.y,
        origin.z as int / 4096 == light.origin.z,
    ensures
        light_at(light, origin) == light.radius,
        lights_at(seq![light], origin) == light.radius,
{
    assert(seq![light].drop_last() =~= Seq::<DynamicLight>::empty());
    reveal_with_fuel(lights_at, 2);
}

/// The distance is the same whichever axis is which and whichever way one goes,
/// and moving light and point together changes nothing.
pub proof fn light_distances_are_symmetric(dx: int, dy: int, dz: int)
    ensures
        octagonal_distance(dx, dy, dz) == octagonal_distance(dy, dx, dz),
        octagonal_distance(dx, dy, dz) == octagonal_distance(dx, dz, dy),
        octagonal_distance(dx, dy, dz) == octagonal_distance(-dx, dy, dz),
        octagonal_distance(dx, dy, dz) == octagonal_distance(dx, dy, -dz),
        octagonal_distance(dx, dy, dz) == octagonal_distance(dx, -dy, dz),
        dx >= dy >= 0 && dx >= dz >= 0 ==> octagonal_distance(dx, dy, dz) == dx + (dy + dz) / 3,
{
}

/// A light and a point that are moved together stay as far apart.
pub proof fn light_terms_move_with_the_light(
    light: DynamicLight,
    moved: DynamicLight,
    x: int,
    y: int,
    z: int,
)
    requires
        moved.radius == light.radius,
    ensures
        light_term(
            moved,
            x + moved.origin.x - light.origin.x,
            y + moved.origin.y - light.origin.y,
            z + moved.origin.z - light.origin.z,
        ) == light_term(light, x, y, z),
{
}

/// A box is reached exactly when it comes within the radius on every axis.
pub proof fn lights_reach_boxes_within_their_radius(
    light: DynamicLight,
    mins: Vec3I16,
    maxs: Vec3I16,
)
    ensures
        !light_misses(light, mins, maxs) <==> {
            &&& mins.x - light.radius <= light.origin.x <= maxs.x + light.radius
            &&& mins.y - light.radius <= light.origin.y <= maxs.y + light.radius
            &&& mins.z - light.radius <= light.origin.z <= maxs.z + light.radius
        },
{
}

/// A grey has its level in each of its three channels and nothing above them.
pub proof fn greys_are_grey(level: int)
    requires
        0 <= level <= 255,
    ensures
        grey(level) as int % 256 == level,
        grey(level) as int / 256 % 256 == level,
        grey(level) as int / 65536 == level,
{
}

/// Lights add up whatever their order, each by what it would add alone.
pub proof fn lights_add_up(lights: Seq<DynamicLight>, more: Seq<DynamicLight>, origin: Vec3I32)
    ensures
        lights_at(lights + more, origin) == lights_at(lights, origin) + lights_at(more, origin),
        lights_at(lights, origin) >= 0,
    decreases lights.len() + more.len(),
{
    if more.len() == 0 {
        assert(lights + more =~= lights);
        if lights.len() > 0 {
            lights_add_up(lights.drop_last(), more, origin);
        }
    } else {
        lights_add_up(lights, more.drop_last(), origin);
        assert((lights + more).drop_last() =~= lights + more.drop_last());
        assert((lights + more).last() == more.last());
    }
}

/// A corner that one light reaches is brighter by that light's gain, up to full,
/// in every channel.
pub proof fn a_lit_corner_is_brighter_by_the_gain(
    light: DynamicLight,
    mins: Vec3I16,
    maxs: Vec3I16,
    vertex: LitVertex,
)
    requires
        !light_misses(light, mins, maxs),
    ensures
        ({
            let lit = lit_corner(seq![light], mins, maxs, vertex);
            let level = vertex.color as int % 256 + light_gain(
                light,
                vertex.position.x as int,
                vertex.position.y as int,
                vertex.position.z as int,
            );
            &&& lit.position == vertex.position
            &&& lit.color as int % 256 == if level < 255 {
                level
            } else {
                255
            }
            &&& lit.color as int / 256 % 256 == lit.color as int % 256
            &&& lit.color as int / 65536 == lit.color as int % 256
        }),
{
    let lights = seq![light];
    assert(lights[0] == light);
    assert(lights.drop_last() =~= Seq::<DynamicLight>::empty());
    reveal_with_fuel(corner_gain, 2);
    let level = vertex.color as int % 256 + light_gain(
        light,
        vertex.position.x as int,
        vertex.position.y as int,
        vertex.position.z as int,
    );
    greys_are_grey(if level < 255 { level } else { 255 });
}

/// A light adds to a corner's grey what it gives at the corner's place, up to
/// full white, and never takes any away.
pub proof fn a_light_brightens_a_corner(light: DynamicLight, vertex: LitVertex)
    ensures
        ({
            let color = lit_color(light, vertex) as int;
            let gain = light_gain(
                light,
                vertex.position.x as int,
                vertex.position.y as int,
                vertex.position.z as int,
            );
            let level = vertex.color as int % 256 + gain;
            &&& color % 256 == (if level < 255 {
                level
            } else {
                255
            })
            &&& color % 256 >= vertex.color as int % 256
            &&& color / 256 % 256 == color % 256
            &&& color / 65536 == color % 256
        }),
{
}

} // verus!
