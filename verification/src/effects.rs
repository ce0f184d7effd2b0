//! Explosions, impact particles and lightning.

use vstd::prelude::*;

use crate::fixed::{div_i32, div_toward_zero, sat_difference, sat_i16, sat_i32, sat_multiple,
    sat_sum, saturating_add_i32, saturating_difference, saturating_mul_i32, saturating_multiple,
    saturating_sub_i16, saturating_sum, whole_units};
use crate::sprite::Projected;
use crate::world::Vec3I32;
use crate::world_pass::{packet_capacity, RenderStats, Submitted};

verus! {

/// Length of one copy of the lightning model.
pub const SEGMENT_UNITS: i32 = 30;

/// A flat line on the screen.
#[derive(Copy, Clone, Debug, PartialEq, Eq, Structural)]
pub struct ScreenLine {
    pub x0: i16,
    pub y0: i16,
    pub x1: i16,
    pub y1: i16,
    pub red: u8,
    pub green: u8,
    pub blue: u8,
}

/// Unit direction of one of the six rays of an explosion: both ways along each
/// axis.
pub open spec fn ray_direction(ray: int) -> (int, int, int) {
    if ray == 0 {
        (1, 0, 0)
    } else if ray == 1 {
        (-1, 0, 0)
    } else if ray == 2 {
        (0, 1, 0)
    } else if ray == 3 {
        (0, -1, 0)
    } else if ray == 4 {
        (0, 0, 1)
    } else {
        (0, 0, -1)
    }
}

/// Where a ray of an explosion ends.
pub open spec fn ray_end(origin: Vec3I32, radius_units: int, ray: int) -> Vec3I32 {
    let radius = sat_i32(radius_units * 4096);
    let direction = ray_direction(ray);
    Vec3I32 {
        x: sat_i32(origin.x + sat_i32(radius * direction.0)) as i32,
        y: sat_i32(origin.y + sat_i32(radius * direction.1)) as i32,
        z: sat_i32(origin.z + sat_i32(radius * direction.2)) as i32,
    }
}

pub fn explosion_ray_end(origin: Vec3I32, radius_units: i32, ray: usize) -> (end: Vec3I32)
    requires
        ray < 6,
    ensures
        end == ray_end(origin, radius_units as int, ray as int),
{
    let radius: i32 = saturating_mul_i32(radius_units, 4096);
    let (x, y, z): (i32, i32, i32) = if ray == 0 {
        (1, 0, 0)
    } else if ray == 1 {
        (-1, 0, 0)
    } else if ray == 2 {
        (0, 1, 0)
    } else if ray == 3 {
        (0, -1, 0)
    } else if ray == 4 {
        (0, 0, 1)
    } else {
        (0, 0, -1)
    };
    Vec3I32 {
        x: saturating_add_i32(origin.x, saturating_mul_i32(radius, x)),
        y: saturating_add_i32(origin.y, saturating_mul_i32(radius, y)),
        z: saturating_add_i32(origin.z, saturating_mul_i32(radius, z)),
    }
}

/// One explosion, projected.
#[derive(Copy, Clone, Debug, PartialEq, Eq)]
pub struct ProjectedExplosion {
    pub center: Projected,
    pub ends: [Projected; 6],
    pub red: u8,
    pub green: u8,
    pub blue: u8,
}

pub open spec fn ray_line(effect: ProjectedExplosion, ray: int) -> ScreenLine {
    ScreenLine {
        x0: effect.center.sx,
        y0: effect.center.sy,
        x1: effect.ends@[ray].sx,
        y1: effect.ends@[ray].sy,
        red: effect.red,
        green: effect.green,
        blue: effect.blue,
    }
}

/// Lines drawn so far, and whether the arena ran out of room.
pub struct LineRun {
    pub lines: Seq<ScreenLine>,
    pub full: bool,
}

/// The first `rays` rays of an explosion. Each ray needs room for its packet
/// before it is looked at; one that cannot be projected takes none.
pub open spec fn explosion_rays(
    effect: ProjectedExplosion,
    before: LineRun,
    room: int,
    words: int,
    rays: nat,
) -> LineRun
    decreases rays,
{
    if rays == 0 || effect.center.sz == 0 {
        before
    } else {
        let earlier = explosion_rays(effect, before, room, words, (rays - 1) as nat);
        if earlier.full || (earlier.lines.len() + 1) * words > room {
            LineRun { full: true, ..earlier }
        } else if effect.ends@[rays - 1].sz == 0 {
            earlier
        } else {
            LineRun { lines: earlier.lines.push(ray_line(effect, rays - 1)), full: false }
        }
    }
}

/// All rays of the first `count` explosions.
pub open spec fn explosion_lines(effects: Seq<ProjectedExplosion>, room: int, words: int, count: nat) -> LineRun
    decreases count,
{
    if count == 0 {
        LineRun { lines: Seq::empty(), full: false }
    } else {
        let before = explosion_lines(effects, room, words, (count - 1) as nat);
        if before.full {
            before
        } else {
            explosion_rays(effects[count - 1], before, room, words, 6)
        }
    }
}

/// Draw explosions as rays, until the arena might be full. `words` is the size
/// of one line packet.
pub fn draw_explosion_effects(
    effects: &Vec<ProjectedExplosion>,
    next: usize,
    end: usize,
    words: usize,
    stats: &mut RenderStats,
) -> (lines: Vec<ScreenLine>)
    requires
        next <= end <= u32::MAX,
        words > 0,
    ensures
        ({
            let run = explosion_lines(effects@, end - next, words as int, effects@.len());
            &&& lines@ == run.lines
            &&& lines@.len() * words <= end - next
            &&& *final(stats) == (RenderStats {
                packet_overflow_avoided: old(stats).packet_overflow_avoided || run.full,
                explosion_effect_packets: old(stats).explosion_effect_packets.saturating_add(
                    run.lines.len() as u32,
                ),
                packets: old(stats).packets.saturating_add(run.lines.len() as u32),
                ..*old(stats)
            })
        }),
{
    let room: usize = end - next;
    let mut lines: Vec<ScreenLine> = Vec::new();
    let mut full: bool = false;
    let mut index: usize = 0;
    assert(lines@ =~= Seq::empty());
    while index < effects.len() && !full
        invariant
            index <= effects@.len(),
            room == end - next,
            next <= end <= u32::MAX,
            words > 0,
            lines@.len() * words <= room,
            lines@ == explosion_lines(effects@, room as int, words as int, index as nat).lines,
            full == explosion_lines(effects@, room as int, words as int, index as nat).full,
        decreases effects@.len() - index,
    {
        let effect: ProjectedExplosion = effects[index];
        let ghost before = explosion_lines(effects@, room as int, words as int, index as nat);
        if effect.center.sz != 0 {
            let mut ray: usize = 0;
            while ray < 6
                invariant
                    ray <= 6,
                    effect.center.sz != 0,
                    room <= u32::MAX,
                    words > 0,
                    lines@.len() * words <= room,
                    !before.full,
                    lines@ == explosion_rays(
                        effect,
                        before,
                        room as int,
                        words as int,
                        ray as nat,
                    ).lines,
                    full == explosion_rays(
                        effect,
                        before,
                        room as int,
                        words as int,
                        ray as nat,
                    ).full,
                decreases 6 - ray,
            {
                assert(lines@.len() <= room) by (nonlinear_arith)
                    requires
                        lines@.len() * words <= room,
                        words > 0,
                ;
                assert((lines@.len() + 1) * words == lines@.len() * words + words)
                    by (nonlinear_arith);
                let used: usize = lines.len() * words;
                if full || words > room - used {
                    full = true;
                } else if effect.ends[ray].sz != 0 {
                    lines.push(
                        ScreenLine {
                            x0: effect.center.sx,
                            y0: effect.center.sy,
                            x1: effect.ends[ray].sx,
                            y1: effect.ends[ray].sy,
                            red: effect.red,
                            green: effect.green,
                            blue: effect.blue,
                        },
                    );
                }
                ray += 1;
            }
        }
        index += 1;
    }
    proof {
        explosion_lines_stop(effects@, room as int, words as int, index as nat, effects@.len());
        assert(lines@.len() <= room) by (nonlinear_arith)
            requires
                lines@.len() * words <= room,
                words > 0,
        ;
    }
    if full {
        stats.packet_overflow_avoided = true;
    }
    let count: u32 = lines.len() as u32;
    stats.explosion_effect_packets = stats.explosion_effect_packets.saturating_add(count);
    stats.packets = stats.packets.saturating_add(count);
    lines
}

proof fn explosion_lines_stop(effects: Seq<ProjectedExplosion>, room: int, words: int, done: nat, count: nat)
    requires
        done <= count,
        done == count || explosion_lines(effects, room, words, done).full,
    ensures
        explosion_lines(effects, room, words, count) == explosion_lines(
            effects,
            room,
            words,
            done,
        ),
    decreases count,
{
    if done < count {
        explosion_lines_stop(effects, room, words, done, (count - 1) as nat);
    }
}

/// A flat square on the screen.
#[derive(Copy, Clone, Debug, PartialEq, Eq, Structural)]
pub struct ParticleRect {
    pub x: i16,
    pub y: i16,
    pub size: u16,
}

/// The square of a particle, centred on its projection; none when it cannot be
/// projected.
pub fn particle_rect(projected: Projected, size: i16) -> (rect: Option<ParticleRect>)
    requires
        size >= 0,
    ensures
        rect == if projected.sz == 0 {
            None
        } else {
            Some(
                ParticleRect {
                    x: sat_i16(projected.sx - size as int / 2) as i16,
                    y: sat_i16(projected.sy - size as int / 2) as i16,
                    size: size as u16,
                },
            )
        },
{
    if projected.sz == 0 {
        return None;
    }
    Some(
        ParticleRect {
            x: saturating_sub_i16(projected.sx, size / 2),
            y: saturating_sub_i16(projected.sy, size / 2),
            size: size as u16,
        },
    )
}

/// What to do with one particle.
#[derive(Copy, Clone, Debug, PartialEq, Eq, Structural)]
pub enum ParticleStep {
    /// Draw it as a sprite of the bubble model.
    Bubble,
    /// Project it and draw a square.
    Square,
    /// The arena might be full: stop.
    Stop,
}

/// Bubbles are sprites where the bubble model is resident; everything else is
/// a square, if its packet is sure to fit.
pub fn particle_step(is_bubble: bool, bubble_model: bool, next: usize, end: usize, words: usize) -> (step: ParticleStep)
    ensures
        step == if is_bubble && bubble_model {
            ParticleStep::Bubble
        } else if next + words <= end {
            ParticleStep::Square
        } else {
            ParticleStep::Stop
        },
{
    if is_bubble && bubble_model {
        ParticleStep::Bubble
    } else if packet_capacity(next, end, words) {
        ParticleStep::Square
    } else {
        ParticleStep::Stop
    }
}

/// A bubble has been drawn.
pub fn count_bubble(stats: &mut RenderStats)
    ensures
        *final(stats) == (RenderStats {
            sprite_packets: old(stats).sprite_packets.saturating_add(1),
            impact_particle_packets: old(stats).impact_particle_packets.saturating_add(1),
            packets: old(stats).packets.saturating_add(1),
            hardware_triangles: old(stats).hardware_triangles.saturating_add(2),
            ..*old(stats)
        }),
{
    stats.sprite_packets = stats.sprite_packets.saturating_add(1);
    stats.impact_particle_packets = stats.impact_particle_packets.saturating_add(1);
    stats.packets = stats.packets.saturating_add(1);
    stats.hardware_triangles = stats.hardware_triangles.saturating_add(2);
}

/// A square has been drawn.
pub fn count_square(stats: &mut RenderStats)
    ensures
        *final(stats) == (RenderStats {
            impact_particle_packets: old(stats).impact_particle_packets.saturating_add(1),
            packets: old(stats).packets.saturating_add(1),
            ..*old(stats)
        }),
{
    stats.impact_particle_packets = stats.impact_particle_packets.saturating_add(1);
    stats.packets = stats.packets.saturating_add(1);
}

/// The straight line of a lightning beam, in whole units.
pub fn beam_span(start: Vec3I32, end: Vec3I32) -> (span: Vec3I32)
    ensures
        span.x == sat_difference(end, start).x as int / 4096,
        span.y == sat_difference(end, start).y as int / 4096,
        span.z == sat_difference(end, start).z as int / 4096,
        -524288 <= span.x < 524288,
        -524288 <= span.y < 524288,
        -524288 <= span.z < 524288,
{
    let difference: Vec3I32 = saturating_difference(end, start);
    Vec3I32 {
        x: whole_units(difference.x),
        y: whole_units(difference.y),
        z: whole_units(difference.z),
    }
}

/// Step from one copy of the lightning model to the next, along `span` whose
/// length is `length`.
pub open spec fn beam_step(span: Vec3I32, length: int) -> Vec3I32 {
    sat_multiple(
        Vec3I32 {
            x: div_toward_zero(sat_i32(span.x * 4096), length) as i32,
            y: div_toward_zero(sat_i32(span.y * 4096), length) as i32,
            z: div_toward_zero(sat_i32(span.z * 4096), length) as i32,
        },
        SEGMENT_UNITS as int,
    )
}

/// One copy of the lightning model.
#[derive(Copy, Clone, Debug, PartialEq, Eq, Structural)]
pub struct BoltSegment {
    pub origin: Vec3I32,
    pub roll: u16,
}

/// Roll of a copy: a fixed mix of frame and position, so that the beam never
/// rests and yet every replay is the same.
pub open spec fn bolt_roll(frame: u32, segment: u32) -> int {
    frame.wrapping_mul(73).wrapping_add(segment.wrapping_mul(151)) as int % 256
}

/// Origin of copy `segment`.
pub open spec fn bolt_origin(start: Vec3I32, step: Vec3I32, segment: nat) -> Vec3I32
    decreases segment,
{
    if segment == 0 {
        start
    } else {
        sat_sum(bolt_origin(start, step, (segment - 1) as nat), step)
    }
}

/// Copies that a beam of `length` units takes.
pub open spec fn bolt_count(length: int) -> int {
    (length + SEGMENT_UNITS - 1) / SEGMENT_UNITS as int
}

/// Lay copies of the lightning model end to end along a beam. A beam of no
/// length has none.
pub fn lightning_segments(start: Vec3I32, span: Vec3I32, length: i32, frame: u32) -> (segments: Vec<
    BoltSegment,
>)
    requires
        0 <= length,
    ensures
        segments@.len() == bolt_count(length as int),
        forall|i: int|
            #![trigger segments@[i]]
            0 <= i < segments@.len() ==> segments@[i] == (BoltSegment {
                origin: bolt_origin(start, beam_step(span, length as int), i as nat),
                roll: bolt_roll(frame, i as u32) as u16,
            }),
{
    let mut segments: Vec<BoltSegment> = Vec::new();
    if length == 0 {
        return segments;
    }
    let direction: Vec3I32 = Vec3I32 {
        x: div_i32(saturating_mul_i32(span.x, 4096), length),
        y: div_i32(saturating_mul_i32(span.y, 4096), length),
        z: div_i32(saturating_mul_i32(span.z, 4096), length),
    };
    let step: Vec3I32 = saturating_multiple(direction, SEGMENT_UNITS);
    let mut origin: Vec3I32 = start;
    let mut remaining: i32 = length;
    while remaining > 0
        invariant
            0 < length,
            -30 < remaining <= length,
            remaining == length - 30 * segments@.len(),
            step == beam_step(span, length as int),
            origin == bolt_origin(start, step, segments@.len()),
            forall|i: int|
                #![trigger segments@[i]]
                0 <= i < segments@.len() ==> segments@[i] == (BoltSegment {
                    origin: bolt_origin(start, step, i as nat),
                    roll: bolt_roll(frame, i as u32) as u16,
                }),
        decreases remaining + 30,
    {
        let segment: u32 = segments.len() as u32;
        let roll: u16 = (frame.wrapping_mul(73).wrapping_add(segment.wrapping_mul(151)) % 256) as u16;
        segments.push(BoltSegment { origin, roll });
        origin = saturating_sum(origin, step);
        remaining -= SEGMENT_UNITS;
    }
    segments
}

/// A copy of the lightning model has been drawn.
pub fn count_bolt(stats: &mut RenderStats, submitted: Submitted)
    ensures
        *final(stats) == (RenderStats {
            lightning_beam_packets: old(stats).lightning_beam_packets.saturating_add(
                submitted.packets,
            ),
            packets: old(stats).packets.saturating_add(submitted.packets),
            hardware_triangles: old(stats).hardware_triangles.saturating_add(
                submitted.hardware_triangles,
            ),
            ..*old(stats)
        }),
{
    stats.lightning_beam_packets = stats.lightning_beam_packets.saturating_add(submitted.packets);
    stats.packets = stats.packets.saturating_add(submitted.packets);
    stats.hardware_triangles = stats.hardware_triangles.saturating_add(
        submitted.hardware_triangles,
    );
}

/// The copies of a beam cover it: they reach its end, and the last one starts
/// before it.
pub proof fn bolts_cover_the_beam(length: int)
    requires
        length > 0,
    ensures
        30 * bolt_count(length) >= length,
        30 * (bolt_count(length) - 1) < length,
{
}

/// The six rays of an explosion reach equally far both ways along each axis, and
/// stay in place on the other two.
pub proof fn rays_reach_both_ways(origin: Vec3I32, radius_units: int)
    requires
        -0x800_0000 <= origin.x < 0x800_0000,
        -0x800_0000 <= origin.y < 0x800_0000,
        -0x800_0000 <= origin.z < 0x800_0000,
        -0x7_0000 <= radius_units <= 0x7_0000,
    ensures
        ({
            let reach = 4096 * radius_units;
            &&& ray_end(origin, radius_units, 0) == (Vec3I32 { x: (origin.x + reach) as i32, ..origin })
            &&& ray_end(origin, radius_units, 1) == (Vec3I32 { x: (origin.x - reach) as i32, ..origin })
            &&& ray_end(origin, radius_units, 2) == (Vec3I32 { y: (origin.y + reach) as i32, ..origin })
            &&& ray_end(origin, radius_units, 3) == (Vec3I32 { y: (origin.y - reach) as i32, ..origin })
            &&& ray_end(origin, radius_units, 4) == (Vec3I32 { z: (origin.z + reach) as i32, ..origin })
            &&& ray_end(origin, radius_units, 5) == (Vec3I32 { z: (origin.z - reach) as i32, ..origin })
        }),
{
}

/// An explosion that is all in view, with room for its lines, is drawn as six
/// lines of its own colour from its centre to the ends of its rays, in order.
pub proof fn explosions_shine_from_their_centre(
    effect: ProjectedExplosion,
    before: LineRun,
    room: int,
    words: int,
    rays: nat,
)
    requires
        rays <= 6,
        0 < words,
        !before.full,
        (before.lines.len() + 6) * words <= room,
        effect.center.sz != 0,
        forall|i: int| 0 <= i < 6 ==> (#[trigger] effect.ends@[i]).sz != 0,
    ensures
        ({
            let run = explosion_rays(effect, before, room, words, rays);
            let n = before.lines.len() as int;
            &&& !run.full
            &&& run.lines.len() == n + rays
            &&& forall|i: int| #![trigger run.lines[i]] 0 <= i < n ==> run.lines[i] == before.lines[i]
            &&& forall|i: int|
                #![trigger run.lines[i]]
                n <= i < n + rays ==> {
                    let line = run.lines[i];
                    let end = effect.ends@[i - n];
                    &&& line.x0 == effect.center.sx && line.y0 == effect.center.sy
                    &&& line.x1 == end.sx && line.y1 == end.sy
                    &&& line.red == effect.red && line.green == effect.green && line.blue
                        == effect.blue
                }
        }),
    decreases rays,
{
    if rays > 0 {
        explosions_shine_from_their_centre(effect, before, room, words, (rays - 1) as nat);
        let earlier = explosion_rays(effect, before, room, words, (rays - 1) as nat);
        let run = explosion_rays(effect, before, room, words, rays);
        let n = before.lines.len() as int;
        assert((earlier.lines.len() + 1) * words <= (n + 6) * words) by (nonlinear_arith)
            requires
                earlier.lines.len() + 1 <= n + 6,
                0 < words,
        ;
        assert(run.lines == earlier.lines.push(ray_line(effect, rays - 1)));
        assert forall|i: int| #![trigger run.lines[i]] 0 <= i < n implies run.lines[i]
            == before.lines[i] by {
            assert(run.lines[i] == earlier.lines[i]);
        }
        assert forall|i: int| #![trigger run.lines[i]] n <= i < n + rays implies {
            let line = run.lines[i];
            let end = effect.ends@[i - n];
            &&& line.x0 == effect.center.sx && line.y0 == effect.center.sy
            &&& line.x1 == end.sx && line.y1 == end.sy
            &&& line.red == effect.red && line.green == effect.green && line.blue == effect.blue
        } by {
            if i < n + rays - 1 {
                assert(run.lines[i] == earlier.lines[i]);
            }
        }
    }
}

/// A beam along one axis steps by the length of a segment along that axis, and
/// not along the others.
pub proof fn beams_step_along_their_axis(length: int)
    requires
        0 < length <= 0x7_0000,
    ensures
        ({
            let far = length as i32;
            &&& beam_step(Vec3I32 { x: far, y: 0, z: 0 }, length) == (Vec3I32 {
                x: 122880,
                y: 0,
                z: 0,
            })
            &&& beam_step(Vec3I32 { x: 0, y: far, z: 0 }, length) == (Vec3I32 {
                x: 0,
                y: 122880,
                z: 0,
            })
            &&& beam_step(Vec3I32 { x: 0, y: 0, z: far }, length) == (Vec3I32 {
                x: 0,
                y: 0,
                z: 122880,
            })
        }),
{
    assert(length * 4096 / length == 4096) by (nonlinear_arith)
        requires
            length > 0,
    ;
    assert(0int / length == 0) by (nonlinear_arith)
        requires
            length > 0,
    ;
}

/// The segments of a beam are evenly spaced from its start on, along every axis.
pub proof fn segments_are_evenly_spaced(start: Vec3I32, step: Vec3I32, segment: nat)
    requires
        -0x800_0000 <= start.x < 0x800_0000,
        -0x800_0000 <= start.y < 0x800_0000,
        -0x800_0000 <= start.z < 0x800_0000,
        -122_880 <= step.x <= 122_880,
        -122_880 <= step.y <= 122_880,
        -122_880 <= step.z <= 122_880,
        segment <= 10_000,
    ensures
        bolt_origin(start, step, segment).x == start.x + segment * step.x,
        bolt_origin(start, step, segment).y == start.y + segment * step.y,
        bolt_origin(start, step, segment).z == start.z + segment * step.z,
    decreases segment,
{
    if segment == 0 {
        assert(segment * step.x == 0 && segment * step.y == 0 && segment * step.z == 0)
            by (nonlinear_arith)
            requires
                segment == 0,
        ;
    } else {
        segments_are_evenly_spaced(start, step, (segment - 1) as nat);
        steps_add_up(segment as int, step.x as int);
        steps_add_up(segment as int, step.y as int);
        steps_add_up(segment as int, step.z as int);
    }
}

proof fn steps_add_up(segment: int, step: int)
    requires
        1 <= segment <= 10_000,
        -122_880 <= step <= 122_880,
    ensures
        segment * step == (segment - 1) * step + step,
        -1_228_800_000 <= segment * step <= 1_228_800_000,
{
    assert(segment * step == (segment - 1) * step + step) by (nonlinear_arith);
    assert(-1_228_800_000 <= segment * step <= 1_228_800_000) by (nonlinear_arith)
        requires
            1 <= segment <= 10_000,
            -122_880 <= step <= 122_880,
    ;
}

/// A beam has just as many segments of thirty units as cover its length.
pub proof fn segments_cover_the_beam(length: int)
    requires
        0 < length,
    ensures
        30 * (bolt_count(length) - 1) < length <= 30 * bolt_count(length),
{
}

/// A bolt's segment rolls by 151 steps from the one before it and by 73 from
/// frame to frame, of 256 a turn, however the counters run over.
pub proof fn bolts_roll_from_segment_to_segment(frame: u32, segment: u32)
    ensures
        bolt_roll(frame, segment) == (73 * frame + 151 * segment) % 256,
{
    let a = 73 * frame as int;
    let b = 151 * segment as int;
    let low_a = frame.wrapping_mul(73) as int;
    let low_b = segment.wrapping_mul(151) as int;
    let low = frame.wrapping_mul(73).wrapping_add(segment.wrapping_mul(151)) as int;
    let over_a = a / 0x1_0000_0000;
    let over_b = b / 0x1_0000_0000;
    assert(low_a == a - 0x1_0000_0000 * over_a);
    assert(low_b == b - 0x1_0000_0000 * over_b);
    let over = if low_a + low_b < 0x1_0000_0000 {
        0int
    } else {
        1
    };
    assert(low == low_a + low_b - 0x1_0000_0000 * over);
    let turns = 0x100_0000 * (over_a + over_b + over);
    assert(a + b == low + 256 * turns);
    whole_turns_drop_out(low, turns);
}

proof fn whole_turns_drop_out(value: int, turns: int)
    ensures
        (value + 256 * turns) % 256 == value % 256,
{
}

/// Explosions are drawn one after the other until one of them ran out of room.
pub proof fn explosions_are_drawn_in_order(
    effects: Seq<ProjectedExplosion>,
    room: int,
    words: int,
    count: nat,
)
    requires
        count < effects.len(),
    ensures
        ({
            let before = explosion_lines(effects, room, words, count);
            let after = explosion_lines(effects, room, words, count + 1);
            &&& before.full ==> after == before
            &&& !before.full ==> after == explosion_rays(
                effects[count as int],
                before,
                room,
                words,
                6,
            )
        }),
        explosion_lines(effects, room, words, 0).lines.len() == 0,
{
}

} // verus!
