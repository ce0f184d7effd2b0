//! The world pass: collecting selected faces into batches that fit the vertex
//! scratch and the packet arena, and the counters of a frame.

use vstd::prelude::*;

use crate::fixed::{sat_i32, saturating_sub_i32};
use crate::light::{dynamic_lights_miss, lights_reach, DynamicLight};
use crate::selection::{
    front_facing_plane, signed_distance, FRAME_FACE_INDEX_MASK, NEAR_FACE_BIT, WATER_BLEND_FACE_BIT,
};
use crate::world::{Face, FaceFlags, Plane, TextureInfo, Vec3I16, Vec3I32, VisibleFace, WorldMap};

verus! {

/// Vertices that one batch may hold.
pub const BATCH_MAX_VERTICES: usize = 39;

/// Faces that one batch may hold.
pub const BATCH_MAX_SURFACES: usize = 13;

/// Most packet words one triangle can come to: two levels of subdivision emit
/// at most nineteen packets, each of at most thirteen words.
pub const WORST_WORDS_PER_TRIANGLE: usize = 247;

/// The same with a texture-window selector and reset around each packet.
pub const WORST_WINDOWED_WORDS_PER_TRIANGLE: usize = 285;

/// First palette row of the opaque textures.
pub const TEXTURE_CLUT_BASE_ROW: u16 = 240;

/// First palette row of the translucent liquids.
pub const LIQUID_CLUT_BASE_ROW: u16 = 246;

/// Palette rows, one for each brightness.
pub const BRIGHTNESS_LEVELS: u8 = 6;

/// Face index that stands for "may not be reused".
pub const NO_SOURCE: u16 = 0xffff;

/// What one frame drew.
#[derive(Copy, Clone, Debug, PartialEq, Eq, Structural)]
pub struct RenderStats {
    pub visible_faces: u16,
    pub visible_entities: u16,
    pub alias_packets: u32,
    pub sprite_packets: u32,
    pub projectile_entities: u16,
    pub pvs_projectile_entities: u16,
    pub visible_projectile_entities: u16,
    pub projectile_packets: u32,
    pub nail_projectile_packets: u32,
    pub grenade_projectile_packets: u32,
    pub rocket_projectile_packets: u32,
    pub lightning_beam_packets: u32,
    pub explosion_effect_packets: u32,
    pub impact_particle_packets: u32,
    pub view_model_packets: u32,
    pub hud_packets: u32,
    pub packets: u32,
    pub hardware_triangles: u32,
    /// Something was left out because its packets might not have fitted.
    pub packet_overflow_avoided: bool,
}

pub open spec fn no_stats() -> RenderStats {
    RenderStats {
        visible_faces: 0,
        visible_entities: 0,
        alias_packets: 0,
        sprite_packets: 0,
        projectile_entities: 0,
        pvs_projectile_entities: 0,
        visible_projectile_entities: 0,
        projectile_packets: 0,
        nail_projectile_packets: 0,
        grenade_projectile_packets: 0,
        rocket_projectile_packets: 0,
        lightning_beam_packets: 0,
        explosion_effect_packets: 0,
        impact_particle_packets: 0,
        view_model_packets: 0,
        hud_packets: 0,
        packets: 0,
        hardware_triangles: 0,
        packet_overflow_avoided: false,
    }
}

impl Default for RenderStats {
    fn default() -> (stats: Self)
        ensures
            stats == no_stats(),
    {
        RenderStats {
            visible_faces: 0,
            visible_entities: 0,
            alias_packets: 0,
            sprite_packets: 0,
            projectile_entities: 0,
            pvs_projectile_entities: 0,
            visible_projectile_entities: 0,
            projectile_packets: 0,
            nail_projectile_packets: 0,
            grenade_projectile_packets: 0,
            rocket_projectile_packets: 0,
            lightning_beam_packets: 0,
            explosion_effect_packets: 0,
            impact_particle_packets: 0,
            view_model_packets: 0,
            hud_packets: 0,
            packets: 0,
            hardware_triangles: 0,
            packet_overflow_avoided: false,
        }
    }
}

/// Whether `needed` more words fit between `next` and `end`.
pub fn packet_capacity(next: usize, end: usize, needed: usize) -> (fits: bool)
    ensures
        fits == (next + needed <= end),
{
    next <= end && needed <= end - next
}

/// Palette row of the untouched brightness and of each step above it.
pub open spec fn gamma_row(level: u8) -> int {
    if level < BRIGHTNESS_LEVELS {
        level as int
    } else {
        BRIGHTNESS_LEVELS - 1
    }
}

/// The brightness that a menu level selects; the last level is the limit.
pub fn set_brightness_level(level: u8) -> (gamma: u16)
    ensures
        gamma == gamma_row(level),
{
    if level < BRIGHTNESS_LEVELS {
        level as u16
    } else {
        BRIGHTNESS_LEVELS as u16 - 1
    }
}

/// Palette word of opaque textures at a brightness.
pub fn clut_texture(gamma: u16) -> (clut: u16)
    requires
        gamma < BRIGHTNESS_LEVELS,
    ensures
        clut == (TEXTURE_CLUT_BASE_ROW + gamma) * 64,
{
    (TEXTURE_CLUT_BASE_ROW + gamma) * 64
}

/// Palette word of translucent liquids at a brightness.
pub fn clut_liquid(gamma: u16) -> (clut: u16)
    requires
        gamma < BRIGHTNESS_LEVELS,
    ensures
        clut == (LIQUID_CLUT_BASE_ROW + gamma) * 64,
{
    (LIQUID_CLUT_BASE_ROW + gamma) * 64
}

/// Texture page and palette of a windowed face. The translucent water surface
/// adds a quarter of itself to what is behind it.
pub fn window_material(texture: TextureInfo, water_blend: bool, gamma: u16) -> (material: (u16, u16))
    requires
        gamma < BRIGHTNESS_LEVELS,
    ensures
        material == if water_blend {
            (texture.texture_page | 0x60, ((LIQUID_CLUT_BASE_ROW + gamma) * 64) as u16)
        } else {
            (texture.texture_page, ((TEXTURE_CLUT_BASE_ROW + gamma) * 64) as u16)
        },
{
    if water_blend {
        (texture.texture_page | 0x60, clut_liquid(gamma))
    } else {
        (texture.texture_page, clut_texture(gamma))
    }
}

/// What the submission of some geometry came to.
#[derive(Copy, Clone, Debug, PartialEq, Eq, Structural)]
pub struct Submitted {
    pub words: usize,
    pub packets: u32,
    pub hardware_triangles: u32,
}

/// One face of a batch.
#[derive(Copy, Clone, Debug, PartialEq, Eq, Structural)]
pub struct BatchSurface {
    pub first_vertex: u16,
    pub vertex_count: u16,
    pub tpage: u16,
    pub clut: u16,
    /// Face index under which its packets may be kept, or `NO_SOURCE`.
    pub source_surface: u16,
}

/// A face that the pass is to draw.
#[derive(Copy, Clone, Debug, PartialEq, Eq, Structural)]
pub struct FaceOffer {
    pub corner_count: u8,
    /// The face reaches behind the near plane.
    pub near: bool,
    /// The face is drawn by itself, inside a texture window.
    pub windowed: bool,
    /// The face is drawn by itself though it has no window: its clipped corners
    /// are none of the map's.
    pub alone: bool,
    /// The face only selects the sky that is drawn behind everything.
    pub layered_sky: bool,
    pub texture: TextureInfo,
    pub source_surface: u16,
}

impl FaceOffer {
    pub open spec fn valid(&self) -> bool {
        3 <= self.corner_count <= BATCH_MAX_VERTICES
    }

    /// The face cannot join a batch.
    pub open spec fn single(&self) -> bool {
        self.windowed || self.alone
    }

    /// The face is clipped against the near plane; that needs a free vertex.
    pub open spec fn clips(&self) -> bool {
        self.near && self.corner_count < BATCH_MAX_VERTICES
    }

    /// Vertices set aside for the face.
    pub open spec fn reserved(&self) -> int {
        if self.clips() {
            self.corner_count + 1
        } else {
            self.corner_count as int
        }
    }

    /// Packet words that so many vertices of the face can come to.
    pub open spec fn words_for(&self, vertices: int) -> int {
        if self.windowed {
            (vertices - 2) * WORST_WINDOWED_WORDS_PER_TRIANGLE
        } else {
            (vertices - 2) * WORST_WORDS_PER_TRIANGLE
        }
    }

    /// Packet words set aside for the face.
    pub open spec fn worst_words(&self) -> int {
        self.words_for(self.reserved())
    }

    /// Whether drawing the face can have left `count` vertices of it.
    pub open spec fn may_leave(&self, count: int) -> bool {
        if self.clips() {
            0 <= count <= self.corner_count + 1
        } else {
            count == self.corner_count
        }
    }

    pub fn reserved_vertices(&self) -> (count: usize)
        requires
            self.valid(),
        ensures
            count == self.reserved(),
    {
        if self.near && (self.corner_count as usize) < BATCH_MAX_VERTICES {
            self.corner_count as usize + 1
        } else {
            self.corner_count as usize
        }
    }
}

/// What to do with an offered face.
#[derive(Copy, Clone, Debug, PartialEq, Eq, Structural)]
pub enum FaceStep {
    /// Done: the face only selected the sky.
    Skip,
    /// Submit the batch, report it, then offer the face again.
    Flush,
    /// Materialize the face from vertex `first` on and report what is left.
    Draw { first: usize },
    /// The arena may be too full: the pass ends here.
    Stop,
}

/// The world pass between two faces.
pub struct WorldPass {
    /// Arena words used so far, and the end of the arena.
    pub next: usize,
    pub end: usize,
    pub surfaces: Vec<BatchSurface>,
    pub batch_vertices: usize,
    pub batch_worst_words: usize,
    pub stats: RenderStats,
    pub layered_sky_texture: Option<TextureInfo>,
    /// Nothing animated was drawn, so the stream may be reused.
    pub static_eligible: bool,
}

/// Vertices of the first `count` faces of a batch.
pub open spec fn vertices_of(surfaces: Seq<BatchSurface>, count: nat) -> int
    decreases count,
{
    if count == 0 {
        0
    } else {
        vertices_of(surfaces, (count - 1) as nat) + surfaces[count - 1].vertex_count
    }
}

impl WorldPass {
    /// What every step keeps: the batch fits the scratch, its faces lie one
    /// after the other in it, and whatever it comes to fits the arena.
    pub open spec fn valid(&self) -> bool {
        &&& self.end <= 0x7fff_ffff
        &&& self.surfaces@.len() <= BATCH_MAX_SURFACES
        &&& self.batch_vertices <= BATCH_MAX_VERTICES
        &&& self.batch_vertices == vertices_of(self.surfaces@, self.surfaces@.len())
        &&& forall|k: int|
            #![trigger self.surfaces@[k]]
            0 <= k < self.surfaces@.len() ==> self.surfaces@[k].first_vertex == vertices_of(
                self.surfaces@,
                k as nat,
            ) && self.surfaces@[k].vertex_count >= 3
        &&& self.batch_vertices >= 3 * self.surfaces@.len()
        &&& self.batch_worst_words == (self.batch_vertices - 2 * self.surfaces@.len())
            * WORST_WORDS_PER_TRIANGLE
        &&& self.next + self.batch_worst_words <= self.end
    }

    /// The face can join the batch as it stands.
    pub open spec fn joins(&self, face: FaceOffer) -> bool {
        &&& !face.single()
        &&& self.batch_vertices + face.reserved() <= BATCH_MAX_VERTICES
        &&& self.surfaces@.len() < BATCH_MAX_SURFACES
        &&& self.next + self.batch_worst_words + face.worst_words() <= self.end
    }

    /// The face can be drawn now.
    pub open spec fn accepts(&self, face: FaceOffer) -> bool {
        if face.single() {
            self.surfaces@.len() == 0 && self.next + face.worst_words() <= self.end
        } else {
            self.joins(face)
        }
    }

    pub fn new(end: usize) -> (pass: Self)
        requires
            end <= 0x7fff_ffff,
        ensures
            pass.valid(),
            pass.next == 0,
            pass.end == end,
            pass.surfaces@.len() == 0,
            pass.stats == no_stats(),
            pass.layered_sky_texture is None,
            pass.static_eligible,
    {
        WorldPass {
            next: 0,
            end,
            surfaces: Vec::new(),
            batch_vertices: 0,
            batch_worst_words: 0,
            stats: RenderStats::default(),
            layered_sky_texture: None,
            static_eligible: true,
        }
    }

    /// Offer the next selected face.
    pub fn offer(&mut self, face: FaceOffer) -> (step: FaceStep)
        requires
            old(self).valid(),
            face.valid(),
        ensures
            final(self).valid(),
            final(self).next == old(self).next,
            final(self).end == old(self).end,
            final(self).surfaces@ == old(self).surfaces@,
            final(self).batch_vertices == old(self).batch_vertices,
            final(self).batch_worst_words == old(self).batch_worst_words,
            face.layered_sky ==> {
                &&& step is Skip
                &&& final(self).layered_sky_texture == if old(self).layered_sky_texture is Some {
                    old(self).layered_sky_texture
                } else {
                    Some(face.texture)
                }
                &&& final(self).stats == (RenderStats {
                    visible_faces: old(self).stats.visible_faces.saturating_add(1),
                    ..old(self).stats
                })
                &&& final(self).static_eligible == old(self).static_eligible
            },
            !face.layered_sky ==> {
                &&& final(self).layered_sky_texture == old(self).layered_sky_texture
                &&& final(self).static_eligible == (old(self).static_eligible && !face.windowed)
                &&& (step is Flush <==> old(self).surfaces@.len() > 0 && !old(self).joins(face))
                &&& (step is Stop <==> old(self).surfaces@.len() == 0 && !old(self).accepts(face))
                &&& (step is Draw <==> old(self).accepts(face))
                &&& (step is Draw ==> step->first == if face.single() {
                    0
                } else {
                    old(self).batch_vertices
                })
                &&& final(self).stats == (RenderStats {
                    packet_overflow_avoided: old(self).stats.packet_overflow_avoided
                        || step is Stop,
                    ..old(self).stats
                })
            },
    {
        if face.layered_sky {
            if self.layered_sky_texture.is_none() {
                self.layered_sky_texture = Some(face.texture);
            }
            self.stats.visible_faces = self.stats.visible_faces.saturating_add(1);
            return FaceStep::Skip;
        }
        if face.windowed {
            self.static_eligible = false;
        }
        let reserve: usize = face.reserved_vertices();
        let worst: usize = (reserve - 2) * if face.windowed {
            WORST_WINDOWED_WORDS_PER_TRIANGLE
        } else {
            WORST_WORDS_PER_TRIANGLE
        };
        let single: bool = face.windowed || face.alone;
        let full: bool = single || self.batch_vertices + reserve > BATCH_MAX_VERTICES
            || self.surfaces.len() == BATCH_MAX_SURFACES || !packet_capacity(
            self.next,
            self.end,
            self.batch_worst_words + worst,
        );
        if full && self.surfaces.len() > 0 {
            return FaceStep::Flush;
        }
        if !packet_capacity(self.next, self.end, worst) {
            self.stats.packet_overflow_avoided = true;
            return FaceStep::Stop;
        }
        FaceStep::Draw { first: if single { 0 } else { self.batch_vertices } }
    }

    /// The batch has been submitted.
    pub fn flushed(&mut self, submitted: Submitted)
        requires
            old(self).valid(),
            submitted.words <= old(self).batch_worst_words,
        ensures
            final(self).valid(),
            final(self).next == old(self).next + submitted.words,
            final(self).end == old(self).end,
            final(self).surfaces@.len() == 0,
            final(self).stats == with_submitted(old(self).stats, submitted),
            final(self).layered_sky_texture == old(self).layered_sky_texture,
            final(self).static_eligible == old(self).static_eligible,
    {
        self.next += submitted.words;
        count_submitted(&mut self.stats, submitted);
        self.surfaces.clear();
        self.batch_vertices = 0;
        self.batch_worst_words = 0;
    }

    /// An ordinary face has been materialized and clipped to `left` vertices.
    /// With fewer than three nothing of it is to be seen.
    pub fn placed(&mut self, face: FaceOffer, left: usize, clut: u16)
        requires
            old(self).valid(),
            face.valid(),
            !face.single(),
            old(self).accepts(face),
            face.may_leave(left as int),
        ensures
            final(self).valid(),
            final(self).next == old(self).next,
            final(self).end == old(self).end,
            final(self).layered_sky_texture == old(self).layered_sky_texture,
            final(self).static_eligible == old(self).static_eligible,
            left < 3 ==> final(self).surfaces@ == old(self).surfaces@ && final(self).stats
                == old(self).stats,
            left >= 3 ==> final(self).surfaces@ == old(self).surfaces@.push(
                BatchSurface {
                    first_vertex: old(self).batch_vertices as u16,
                    vertex_count: left as u16,
                    tpage: face.texture.texture_page,
                    clut,
                    source_surface: if face.clips() { NO_SOURCE } else { face.source_surface },
                },
            ) && final(self).stats == (RenderStats {
                visible_faces: old(self).stats.visible_faces.saturating_add(1),
                ..old(self).stats
            }),
    {
        if left < 3 {
            return ;
        }
        let ghost before = self.surfaces@;
        let clips: bool = face.near && (face.corner_count as usize) < BATCH_MAX_VERTICES;
        self.surfaces.push(
            BatchSurface {
                first_vertex: self.batch_vertices as u16,
                vertex_count: left as u16,
                tpage: face.texture.texture_page,
                clut,
                source_surface: if clips {
                    NO_SOURCE
                } else {
                    face.source_surface
                },
            },
        );
        self.batch_vertices += left;
        self.batch_worst_words += (left - 2) * WORST_WORDS_PER_TRIANGLE;
        self.stats.visible_faces = self.stats.visible_faces.saturating_add(1);
        proof {
            let after = self.surfaces@;
            vertices_of_prefix(before, after, before.len());
            assert forall|k: int| #![trigger after[k]] 0 <= k < after.len() implies
                after[k].first_vertex == vertices_of(after, k as nat) && after[k].vertex_count
                >= 3 by {
                vertices_of_prefix(before, after, k as nat);
                if k < before.len() {
                    assert(after[k] == before[k]);
                }
            }
        }
    }

    /// A face that is drawn by itself has been materialized, clipped to `left`
    /// vertices and, unless nothing was left, submitted.
    pub fn placed_alone(&mut self, face: FaceOffer, left: usize, submitted: Submitted)
        requires
            old(self).valid(),
            face.valid(),
            face.single(),
            old(self).accepts(face),
            face.may_leave(left as int),
            left >= 3 ==> submitted.words <= face.words_for(left as int),
        ensures
            final(self).valid(),
            final(self).end == old(self).end,
            final(self).surfaces@ == old(self).surfaces@,
            final(self).layered_sky_texture == old(self).layered_sky_texture,
            final(self).static_eligible == old(self).static_eligible,
            left < 3 ==> final(self).next == old(self).next && final(self).stats
                == old(self).stats,
            left >= 3 ==> final(self).next == old(self).next + submitted.words
                && final(self).stats == (RenderStats {
                visible_faces: old(self).stats.visible_faces.saturating_add(1),
                ..with_submitted(old(self).stats, submitted)
            }),
    {
        if left < 3 {
            return ;
        }
        self.next += submitted.words;
        count_submitted(&mut self.stats, submitted);
        self.stats.visible_faces = self.stats.visible_faces.saturating_add(1);
    }
}

proof fn vertices_of_prefix(before: Seq<BatchSurface>, after: Seq<BatchSurface>, count: nat)
    requires
        count <= before.len() < after.len(),
        forall|k: int| #![trigger after[k]] 0 <= k < before.len() ==> after[k] == before[k],
    ensures
        vertices_of(after, count) == vertices_of(before, count),
    decreases count,
{
    if count > 0 {
        vertices_of_prefix(before, after, (count - 1) as nat);
    }
}

/// Counters after one submission.
pub open spec fn with_submitted(stats: RenderStats, submitted: Submitted) -> RenderStats {
    RenderStats {
        packets: stats.packets.wrapping_add(submitted.packets),
        hardware_triangles: stats.hardware_triangles.wrapping_add(submitted.hardware_triangles),
        ..stats
    }
}

pub fn count_submitted(stats: &mut RenderStats, submitted: Submitted)
    ensures
        *final(stats) == with_submitted(*old(stats), submitted),
{
    stats.packets = stats.packets.wrapping_add(submitted.packets);
    stats.hardware_triangles = stats.hardware_triangles.wrapping_add(submitted.hardware_triangles);
}

/// After a flush the same face is drawn or the pass stops: no face asks for a
/// second flush.
pub proof fn one_flush_is_enough(before: WorldPass, after: WorldPass, face: FaceOffer)
    requires
        before.valid(),
        after.valid(),
        face.valid(),
        !face.layered_sky,
        before.surfaces@.len() > 0,
        !before.joins(face),
        after.surfaces@.len() == 0,
    ensures
        !(after.surfaces@.len() > 0 && !after.joins(face)),
        after.accepts(face) || !after.accepts(face) && after.next + face.worst_words() > after.end,
{
}

/// The faces of a batch never overlap in the vertex scratch, and end inside it.
pub proof fn batch_faces_do_not_overlap(pass: WorldPass, first: int, second: int)
    requires
        pass.valid(),
        0 <= first < second < pass.surfaces@.len(),
    ensures
        pass.surfaces@[first].first_vertex + pass.surfaces@[first].vertex_count
            <= pass.surfaces@[second].first_vertex,
        pass.surfaces@[second].first_vertex + pass.surfaces@[second].vertex_count
            <= BATCH_MAX_VERTICES,
{
    vertices_of_grows(pass.surfaces@, (first + 1) as nat, second as nat);
    vertices_of_grows(pass.surfaces@, (second + 1) as nat, pass.surfaces@.len());
}

proof fn vertices_of_grows(surfaces: Seq<BatchSurface>, low: nat, high: nat)
    requires
        low <= high <= surfaces.len(),
    ensures
        vertices_of(surfaces, low) <= vertices_of(surfaces, high),
    decreases high,
{
    if low < high {
        vertices_of_grows(surfaces, low, (high - 1) as nat);
    }
}

/// Packets of a face may be kept when its corners are baked and no light of
/// the frame reaches it.
pub open spec fn reusable(
    flags: FaceFlags,
    lights: Seq<DynamicLight>,
    mins: Vec3I16,
    maxs: Vec3I16,
) -> bool {
    flags.baked_uv && flags.baked_light && !lights_reach(lights, mins, maxs)
}

/// Face index under which a face's packets may be kept.
pub fn source_surface(
    flags: FaceFlags,
    lights: &Vec<DynamicLight>,
    mins: Vec3I16,
    maxs: Vec3I16,
    surface_index: u16,
) -> (source: u16)
    ensures
        source == if reusable(flags, lights@, mins, maxs) {
            surface_index
        } else {
            NO_SOURCE
        },
{
    if flags.baked_uv && flags.baked_light && dynamic_lights_miss(lights, mins, maxs) {
        surface_index
    } else {
        NO_SOURCE
    }
}

/// The camera as a brush entity sees it from its own origin.
pub fn model_camera(camera: Vec3I32, entity: Vec3I32) -> (point: Vec3I32)
    ensures
        point.x == sat_i32(camera.x - entity.x),
        point.y == sat_i32(camera.y - entity.y),
        point.z == sat_i32(camera.z - entity.z),
{
    Vec3I32 {
        x: saturating_sub_i32(camera.x, entity.x),
        y: saturating_sub_i32(camera.y, entity.y),
        z: saturating_sub_i32(camera.z, entity.z),
    }
}

/// What to do with one face of a brush entity.
#[derive(Copy, Clone, Debug, PartialEq, Eq, Structural)]
pub enum BrushFace {
    /// The map holds no such face, or no such texture: the model ends here.
    Missing,
    /// Not drawn, or turned away.
    Skip,
    Offer(FaceOffer),
}

/// Decide on one face of a brush entity. `point` is the camera as the entity
/// sees it, `terms` its Q12 products with the face's plane normal; `near` holds
/// for the whole model.
pub fn brush_face(
    map: &WorldMap,
    textures: &Vec<TextureInfo>,
    index: usize,
    near: bool,
    point: Vec3I32,
    terms: Vec3I32,
) -> (decision: BrushFace)
    requires
        map.valid(),
    ensures
        decision == if index >= map.faces@.len() || map.faces@[index as int].texture
            >= textures@.len() {
            BrushFace::Missing
        } else {
            let face = map.faces@[index as int];
            let texture = textures@[face.texture as int];
            let plane = map.planes@[face.plane as int];
            let facing = (signed_distance(plane.kind, plane.distance, point, terms) < 0)
                == face.flags.backside;
            if texture.flags.invisible || texture.flags.null || texture.flags.sky || !facing {
                BrushFace::Skip
            } else {
                BrushFace::Offer(
                    FaceOffer {
                        corner_count: face.vertex_count,
                        near,
                        windowed: texture.flags.liquid,
                        alone: false,
                        layered_sky: false,
                        texture,
                        source_surface: NO_SOURCE,
                    },
                )
            }
        },
{
    if index >= map.faces.len() {
        return BrushFace::Missing;
    }
    let face: Face = map.faces[index];
    if face.texture as usize >= textures.len() {
        return BrushFace::Missing;
    }
    let texture: TextureInfo = textures[face.texture as usize];
    let plane: Plane = map.planes[face.plane as usize];
    if texture.flags.invisible || texture.flags.null || texture.flags.sky || !front_facing_plane(
        plane,
        face.flags.backside,
        point,
        terms,
    ) {
        return BrushFace::Skip;
    }
    BrushFace::Offer(
        FaceOffer {
            corner_count: face.vertex_count,
            near,
            windowed: texture.flags.liquid,
            alone: false,
            layered_sky: false,
            texture,
            source_surface: NO_SOURCE,
        },
    )
}

/// A face of the frame's selected list.
#[derive(Copy, Clone, Debug, PartialEq, Eq, Structural)]
pub struct SelectedFace {
    pub visible_index: usize,
    pub water_blend: bool,
    pub offer: FaceOffer,
}

/// Take an entry of the selected list apart: which face it stands for, how it
/// is drawn, and whether its packets may be kept. With `near_alone` a face that
/// is clipped is drawn by itself.
pub fn selected_face(
    entry: u16,
    faces: &Vec<VisibleFace>,
    textures: &Vec<TextureInfo>,
    lights: &Vec<DynamicLight>,
    near_alone: bool,
) -> (selected: SelectedFace)
    requires
        (entry & FRAME_FACE_INDEX_MASK) < faces@.len(),
        faces@[(entry & FRAME_FACE_INDEX_MASK) as int].face.material < textures@.len(),
    ensures
        ({
            let visible = faces@[(entry & FRAME_FACE_INDEX_MASK) as int];
            let texture = textures@[visible.face.material as int];
            selected == SelectedFace {
                visible_index: (entry & FRAME_FACE_INDEX_MASK) as usize,
                water_blend: entry & WATER_BLEND_FACE_BIT != 0,
                offer: FaceOffer {
                    corner_count: visible.face.corner_count,
                    near: entry & NEAR_FACE_BIT != 0,
                    windowed: texture.flags.liquid || texture.flags.sky,
                    alone: near_alone && entry & NEAR_FACE_BIT != 0
                        && visible.face.corner_count < BATCH_MAX_VERTICES,
                    layered_sky: texture.flags.layered_sky,
                    texture,
                    source_surface: if reusable(
                        visible.face.flags,
                        lights@,
                        visible.bounds.mins,
                        visible.bounds.maxs,
                    ) {
                        visible.bounds.surface_index
                    } else {
                        NO_SOURCE
                    },
                },
            }
        }),
{
    let visible_index: usize = (entry & FRAME_FACE_INDEX_MASK) as usize;
    let visible: VisibleFace = faces[visible_index];
    let texture: TextureInfo = textures[visible.face.material as usize];
    SelectedFace {
        visible_index,
        water_blend: entry & WATER_BLEND_FACE_BIT != 0,
        offer: FaceOffer {
            corner_count: visible.face.corner_count,
            near: entry & NEAR_FACE_BIT != 0,
            windowed: texture.flags.liquid || texture.flags.sky,
            alone: near_alone && entry & NEAR_FACE_BIT != 0 && (visible.face.corner_count as usize)
                < BATCH_MAX_VERTICES,
            layered_sky: texture.flags.layered_sky,
            texture,
            source_surface: source_surface(
                visible.face.flags,
                lights,
                visible.bounds.mins,
                visible.bounds.maxs,
                visible.bounds.surface_index,
            ),
        },
    }
}

/// Packets and triangles that were submitted are added to their own counts, and
/// no other count changes.
pub proof fn submissions_are_counted(stats: RenderStats, submitted: Submitted)
    requires
        stats.packets + submitted.packets <= u32::MAX,
        stats.hardware_triangles + submitted.hardware_triangles <= u32::MAX,
    ensures
        ({
            let after = with_submitted(stats, submitted);
            &&& after.packets == stats.packets + submitted.packets
            &&& after.hardware_triangles == stats.hardware_triangles + submitted.hardware_triangles
            &&& after == (RenderStats {
                packets: after.packets,
                hardware_triangles: after.hardware_triangles,
                ..stats
            })
        }),
{
}

/// A face is given room for the triangles of a fan over its corners, and for one
/// more where the near plane may cut it; inside a window a triangle takes more
/// words.
pub proof fn faces_are_given_room_for_their_triangles(face: FaceOffer)
    requires
        face.valid(),
    ensures
        ({
            let triangles = face.corner_count - 2 + (if face.near && face.corner_count < 39 {
                1int
            } else {
                0
            });
            &&& face.windowed ==> face.worst_words() == 285 * triangles
            &&& !face.windowed ==> face.worst_words() == 247 * triangles
            &&& face.reserved() == triangles + 2
        }),
        face.clips() <==> face.near && face.corner_count < 39,
        face.single() <==> face.windowed || face.alone,
{
}

/// A brightness that there is has its own palette, and any beyond has the last.
pub proof fn brightness_levels_have_their_rows(level: u8)
    ensures
        level < 6 ==> gamma_row(level) == level,
        level >= 6 ==> gamma_row(level) == 5,
{
}

/// The corners of a batch's faces follow one another: each begins where those
/// before it end.
pub proof fn batches_are_laid_out_in_a_row(surfaces: Seq<BatchSurface>, count: nat)
    requires
        count < surfaces.len(),
    ensures
        vertices_of(surfaces, 0) == 0,
        vertices_of(surfaces, count + 1) - vertices_of(surfaces, count)
            == surfaces[count as int].vertex_count,
{
}

/// Packets of a face can be kept just where nothing about them changes: the
/// texture place and the light are stored and no light reaches the box.
pub proof fn kept_packets_do_not_change(
    flags: FaceFlags,
    lights: Seq<DynamicLight>,
    mins: Vec3I16,
    maxs: Vec3I16,
)
    ensures
        reusable(flags, lights, mins, maxs) <==> flags.baked_uv && flags.baked_light
            && !lights_reach(lights, mins, maxs),
{
}

/// A face keeps its corners unless the near plane cuts it, which leaves none, or
/// some, or one more.
pub proof fn cuts_leave_one_corner_more_at_most(face: FaceOffer, count: int)
    ensures
        !face.near ==> (face.may_leave(count) <==> count == face.corner_count),
        face.near && face.corner_count < 39 ==> (face.may_leave(count) <==> 0 <= count
            <= face.corner_count + 1),
{
}

} // verus!
