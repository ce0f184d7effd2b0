//! What a frame keeps from the last one, and the order its layers go in.

use vstd::prelude::*;

use crate::hud::HudMode;
use crate::menu::{banner_shown, MenuPage};
use crate::present::{configure_quake_projection, configure_underwater_projection, Projection};
use crate::screen::GraphicsPicture;
use crate::selection::{AabbClipPlane, NEAR_FACE_BIT};
use crate::sky::{SKY_BACKGROUND_WORDS, SKY_PACKETS, SKY_TRIANGLES};
use crate::visibility::VisibilityKey;
use crate::world::{Camera, TextureInfo, Vec3I16};
use crate::world_pass::{
    no_stats, packet_capacity, set_brightness_level, RenderStats, BRIGHTNESS_LEVELS,
};

verus! {

/// Which of the two arenas is being filled, and the running frame number.
#[derive(Copy, Clone, Debug, PartialEq, Eq, Structural)]
pub struct FrameClock {
    pub arena: usize,
    pub frame: u32,
}

impl FrameClock {
    pub open spec fn valid(&self) -> bool {
        self.arena < 2
    }

    pub fn new() -> (clock: Self)
        ensures
            clock.valid(),
            clock.arena == 0,
            clock.frame == 0,
    {
        FrameClock { arena: 0, frame: 0 }
    }

    /// The clock of the frame after this one.
    pub open spec fn next(self) -> FrameClock {
        FrameClock { arena: (1 - self.arena) as usize, frame: self.frame.wrapping_add(1) }
    }

    /// The frame is handed over; the other arena is filled next.
    pub fn advance(&mut self)
        requires
            old(self).valid(),
        ensures
            final(self).valid(),
            *final(self) == old(self).next(),
    {
        self.arena = 1 - self.arena;
        self.frame = self.frame.wrapping_add(1);
    }

    /// A loading page changes the arena but is no frame of play.
    pub fn advance_loading(&mut self)
        requires
            old(self).valid(),
        ensures
            final(self).valid(),
            final(self).arena == 1 - old(self).arena,
            final(self).frame == old(self).frame,
    {
        self.arena = 1 - self.arena;
    }
}

/// An arena is never filled in two frames running, and is filled again in the
/// frame after that.
pub proof fn arenas_alternate(clock: FrameClock)
    requires
        clock.valid(),
    ensures
        clock.next().arena != clock.arena,
        clock.next().next().arena == clock.arena,
{
}

/// The frustum of the last camera.
#[derive(Copy, Clone, Debug, PartialEq, Eq)]
pub struct FrustumCache {
    pub cached: Option<(Camera, [AabbClipPlane; 4])>,
}

impl FrustumCache {
    /// The planes for this camera, if they were the last to be worked out.
    pub fn lookup(&self, camera: Camera) -> (planes: Option<[AabbClipPlane; 4]>)
        ensures
            planes == match self.cached {
                Some((known, planes)) => if known == camera {
                    Some(planes)
                } else {
                    None
                },
                None => None,
            },
    {
        match self.cached {
            Some((known, planes)) => if known == camera {
                Some(planes)
            } else {
                None
            },
            None => None,
        }
    }

    pub fn store(&mut self, camera: Camera, planes: [AabbClipPlane; 4])
        ensures
            final(self).cached == Some((camera, planes)),
    {
        self.cached = Some((camera, planes));
    }
}

/// Everything that a selection or a static world stream depends on.
#[derive(Copy, Clone, Debug, PartialEq, Eq, Structural)]
pub struct StaticWorldKey {
    pub camera: Camera,
    pub visibility: Option<VisibilityKey>,
    pub water_plane: i16,
}

fn same_visibility(left: Option<VisibilityKey>, right: Option<VisibilityKey>) -> (same: bool)
    ensures
        same == (left == right),
{
    match (left, right) {
        (Some(a), Some(b)) => a == b,
        (None, None) => true,
        _ => false,
    }
}

fn same_key(left: StaticWorldKey, right: StaticWorldKey) -> (same: bool)
    ensures
        same == (left == right),
{
    left.camera == right.camera && same_visibility(left.visibility, right.visibility)
        && left.water_plane == right.water_plane
}

/// The selection of the last frame may be used again: the set is valid and
/// nothing it depends on has changed.
pub fn selection_cached(visible: bool, last: Option<StaticWorldKey>, key: StaticWorldKey) -> (cached: bool)
    ensures
        cached == (visible && last == Some(key)),
{
    match last {
        Some(known) => visible && same_key(known, key),
        None => false,
    }
}

/// A world stream that may be submitted again from the same arena.
pub struct StaticWorldCache {
    pub key: Option<StaticWorldKey>,
    pub world_words: u16,
    pub packets: u32,
    pub hardware_triangles: u32,
    pub visible_faces: u16,
    pub layered_sky_texture: Option<TextureInfo>,
    pub tag_slots: Vec<u16>,
}

impl StaticWorldCache {
    /// Nothing is kept yet.
    pub fn new() -> (cache: Self)
        ensures
            cache.key is None,
            cache.world_words == 0,
            cache.packets == 0,
            cache.hardware_triangles == 0,
            cache.visible_faces == 0,
            cache.layered_sky_texture is None,
            cache.tag_slots@ == Seq::<u16>::empty(),
    {
        StaticWorldCache {
            key: None,
            world_words: 0,
            packets: 0,
            hardware_triangles: 0,
            visible_faces: 0,
            layered_sky_texture: None,
            tag_slots: Vec::new(),
        }
    }

    pub fn invalidate(&mut self)
        ensures
            final(self).key is None,
            final(self).tag_slots@.len() == 0,
            final(self).world_words == old(self).world_words,
            final(self).packets == old(self).packets,
            final(self).hardware_triangles == old(self).hardware_triangles,
            final(self).visible_faces == old(self).visible_faces,
            final(self).layered_sky_texture == old(self).layered_sky_texture,
    {
        self.key = None;
        self.tag_slots.clear();
    }

    /// The stream was built for the same view, and no light changes it.
    pub open spec fn answers(&self, visible: bool, lit: bool, key: StaticWorldKey) -> bool {
        visible && !lit && self.key == Some(key)
    }

    /// Counters with those of the stream in place.
    pub open spec fn reused(&self, stats: RenderStats) -> RenderStats {
        RenderStats {
            visible_faces: self.visible_faces,
            packets: self.packets,
            hardware_triangles: self.hardware_triangles,
            ..stats
        }
    }

    /// A stream of so many words is kept, with what it counted.
    pub open spec fn kept(
        &self,
        key: StaticWorldKey,
        world_words: int,
        slots: Seq<u16>,
        stats: RenderStats,
        sky: Option<TextureInfo>,
    ) -> bool {
        &&& self.key == Some(key)
        &&& self.world_words == world_words
        &&& self.packets == stats.packets
        &&& self.hardware_triangles == stats.hardware_triangles
        &&& self.visible_faces == stats.visible_faces
        &&& self.layered_sky_texture == sky
        &&& self.tag_slots@ == slots
    }

    /// Whether the stream of this arena can be submitted again.
    pub fn matches(&self, visible: bool, lit: bool, key: StaticWorldKey) -> (hit: bool)
        ensures
            hit == self.answers(visible, lit, key),
    {
        match self.key {
            Some(known) => visible && !lit && same_key(known, key),
            None => false,
        }
    }

    /// Counters of the stream that is submitted again.
    pub fn reuse(&self, stats: &mut RenderStats)
        ensures
            *final(stats) == self.reused(*old(stats)),
    {
        stats.visible_faces = self.visible_faces;
        stats.packets = self.packets;
        stats.hardware_triangles = self.hardware_triangles;
    }

    /// After building a stream, keep it or forget it. `captured` holds the
    /// slots of its tags, if they could be captured.
    pub fn keep(
        &mut self,
        eligible: bool,
        world_words: usize,
        captured: Option<Vec<u16>>,
        key: StaticWorldKey,
        stats: RenderStats,
        sky: Option<TextureInfo>,
    )
        ensures
            eligible && !stats.packet_overflow_avoided && world_words <= 0xffff && captured is Some
                ==> final(self).kept(key, world_words as int, captured->0@, stats, sky),
            !(eligible && !stats.packet_overflow_avoided && world_words <= 0xffff
                && captured is Some) ==> final(self).key is None && final(self).tag_slots@.len()
                == 0,
    {
        if eligible && !stats.packet_overflow_avoided && world_words <= 0xffff {
            if let Some(slots) = captured {
                self.key = Some(key);
                self.world_words = world_words as u16;
                self.packets = stats.packets;
                self.hardware_triangles = stats.hardware_triangles;
                self.visible_faces = stats.visible_faces;
                self.layered_sky_texture = sky;
                self.tag_slots = slots;
                return ;
            }
        }
        self.invalidate();
    }
}

/// Only the world's own counters have moved.
pub open spec fn counts_the_world(stats: RenderStats) -> bool {
    stats == RenderStats {
        visible_faces: stats.visible_faces,
        packets: stats.packets,
        hardware_triangles: stats.hardware_triangles,
        ..no_stats()
    }
}

/// A kept world comes back for the view it was built for, and the frame that
/// submits it again counts what the frame that built it counted.
pub proof fn a_kept_world_comes_back(
    cache: StaticWorldCache,
    key: StaticWorldKey,
    world_words: int,
    slots: Seq<u16>,
    stats: RenderStats,
    sky: Option<TextureInfo>,
)
    requires
        cache.kept(key, world_words, slots, stats, sky),
        counts_the_world(stats),
    ensures
        cache.answers(true, false, key),
        cache.reused(no_stats()) == stats,
{
}

/// A layer that goes over the world.
#[derive(Copy, Clone, Debug, PartialEq, Eq, Structural)]
pub enum Layer {
    ViewModel,
    Hud,
    Tints,
    Centerprint,
    Menu,
    Intermission,
    Banner,
    Fade,
}

/// What the frame has to show over the world.
#[derive(Copy, Clone, Debug, PartialEq, Eq, Structural)]
pub struct Overlays {
    pub view_model: bool,
    pub hud: bool,
    pub centerprint: bool,
    pub menu: Option<MenuPage>,
    pub intermission: bool,
    pub now_playing: bool,
}

pub open spec fn layer_if(condition: bool, layer: Layer) -> Seq<Layer> {
    if condition {
        seq![layer]
    } else {
        Seq::empty()
    }
}

/// The banner is up, and nothing forbids it.
pub open spec fn banner_up(overlays: Overlays) -> bool {
    overlays.now_playing && !overlays.intermission && overlays.menu != Some(MenuPage::Options)
}

/// The order of the layers. Tints lie over the world and the display; the
/// transition comes last and takes everything down with it.
pub open spec fn layer_order(overlays: Overlays) -> Seq<Layer> {
    layer_if(overlays.view_model, Layer::ViewModel) + layer_if(overlays.hud, Layer::Hud) + seq![
        Layer::Tints,
    ] + layer_if(overlays.centerprint, Layer::Centerprint) + layer_if(
        overlays.menu is Some,
        Layer::Menu,
    ) + layer_if(overlays.intermission, Layer::Intermission) + layer_if(
        banner_up(overlays),
        Layer::Banner,
    ) + seq![Layer::Fade]
}

fn push_if(layers: &mut Vec<Layer>, condition: bool, layer: Layer)
    ensures
        final(layers)@ == old(layers)@ + layer_if(condition, layer),
{
    if condition {
        layers.push(layer);
    }
    assert(layers@ =~= old(layers)@ + layer_if(condition, layer));
}

pub fn overlay_layers(overlays: Overlays) -> (layers: Vec<Layer>)
    ensures
        layers@ == layer_order(overlays),
{
    let mut layers: Vec<Layer> = Vec::new();
    push_if(&mut layers, overlays.view_model, Layer::ViewModel);
    assert(layers@ =~= layer_if(overlays.view_model, Layer::ViewModel));
    push_if(&mut layers, overlays.hud, Layer::Hud);
    push_if(&mut layers, true, Layer::Tints);
    push_if(&mut layers, overlays.centerprint, Layer::Centerprint);
    push_if(&mut layers, overlays.menu.is_some(), Layer::Menu);
    push_if(&mut layers, overlays.intermission, Layer::Intermission);
    let banner: bool = overlays.now_playing && banner_shown(overlays.intermission, overlays.menu);
    push_if(&mut layers, banner, Layer::Banner);
    push_if(&mut layers, true, Layer::Fade);
    layers
}

/// The transition is the last thing drawn, whatever else is up.
pub proof fn transition_covers_everything(overlays: Overlays)
    ensures
        layer_order(overlays).last() == Layer::Fade,
        overlays.intermission ==> !banner_up(overlays),
{
}

/// Whether the sky can be drawn, and the counters after it.
pub fn place_sky(next: usize, end: usize, stats: &mut RenderStats) -> (fits: bool)
    ensures
        fits == (next + SKY_BACKGROUND_WORDS <= end),
        *final(stats) == if fits {
            RenderStats {
                packets: old(stats).packets.wrapping_add(SKY_PACKETS),
                hardware_triangles: old(stats).hardware_triangles.wrapping_add(SKY_TRIANGLES),
                ..*old(stats)
            }
        } else {
            RenderStats { packet_overflow_avoided: true, ..*old(stats) }
        },
{
    if packet_capacity(next, end, SKY_BACKGROUND_WORDS) {
        stats.packets = stats.packets.wrapping_add(SKY_PACKETS);
        stats.hardware_triangles = stats.hardware_triangles.wrapping_add(SKY_TRIANGLES);
        true
    } else {
        stats.packet_overflow_avoided = true;
        false
    }
}

/// Triangles of the display: two for each quad, none for the crosshair.
pub open spec fn hud_triangles(generated: int, crosshair: int) -> int {
    let quads = if generated > crosshair {
        generated - crosshair
    } else {
        0
    };
    if 2 * quads > u32::MAX {
        u32::MAX as int
    } else {
        2 * quads
    }
}

/// The display has been laid out.
pub fn count_hud(stats: &mut RenderStats, generated: u32, crosshair_registered: u32)
    ensures
        *final(stats) == (RenderStats {
            hud_packets: generated,
            packets: old(stats).packets.wrapping_add(generated),
            hardware_triangles: old(stats).hardware_triangles.wrapping_add(
                hud_triangles(generated as int, crosshair_registered as int) as u32,
            ),
            ..*old(stats)
        }),
{
    let quads: u32 = generated.saturating_sub(crosshair_registered);
    let triangles: u32 = if quads > 0x7fff_ffff {
        u32::MAX
    } else {
        2 * quads
    };
    stats.hud_packets = generated;
    stats.packets = stats.packets.wrapping_add(generated);
    stats.hardware_triangles = stats.hardware_triangles.wrapping_add(triangles);
}

/// A rectangle of video memory, in 16-bit texels.
#[derive(Copy, Clone, Debug, PartialEq, Eq, Structural)]
pub struct VramRect {
    pub x: u16,
    pub y: u16,
    pub width: u16,
    pub height: u16,
}

/// Where an 8-bit picture lies in video memory. Its width has to be even, as
/// two of its texels share one of the memory's.
pub open spec fn picture_rect(picture: GraphicsPicture) -> Option<VramRect> {
    if picture.width == 0 || picture.height == 0 || picture.width % 2 != 0 {
        None
    } else {
        Some(
            VramRect {
                x: (picture.tpage % 16 * 64 + picture.u / 2) as u16,
                y: (picture.tpage / 16 % 2 * 256 + picture.v) as u16,
                width: (picture.width / 2) as u16,
                height: picture.height as u16,
            },
        )
    }
}

pub fn picture_upload_rect(picture: GraphicsPicture) -> (rect: Option<VramRect>)
    ensures
        rect == picture_rect(picture),
{
    if picture.width == 0 || picture.height == 0 || picture.width % 2 != 0 {
        return None;
    }
    Some(
        VramRect {
            x: picture.tpage % 16 * 64 + (picture.u / 2) as u16,
            y: picture.tpage / 16 % 2 * 256 + picture.v as u16,
            width: (picture.width / 2) as u16,
            height: picture.height as u16,
        },
    )
}

/// One weapon icon to write.
#[derive(Copy, Clone, Debug, PartialEq, Eq, Structural)]
pub struct IconUpload {
    pub rect: VramRect,
    pub start: usize,
    pub len: usize,
}

/// The upload of one slot: the selected weapon has its own pixels, behind all
/// the others.
pub open spec fn icon_upload(
    slot: int,
    desired: Option<usize>,
    icons: Seq<Option<GraphicsPicture>>,
    offsets: Seq<usize>,
    variant_bytes: int,
) -> Option<IconUpload> {
    match icons[slot] {
        Some(picture) => match picture_rect(picture) {
            Some(rect) => Some(
                IconUpload {
                    rect,
                    start: ((if desired == Some(slot as usize) { variant_bytes } else { 0 })
                        + offsets[slot]) as usize,
                    len: (offsets[slot + 1] - offsets[slot]) as usize,
                },
            ),
            None => None,
        },
        None => None,
    }
}

/// Uploads of the changed slots among the first `count`; none at all when one
/// of them is missing.
pub open spec fn icon_uploads(
    selected: Option<usize>,
    desired: Option<usize>,
    icons: Seq<Option<GraphicsPicture>>,
    offsets: Seq<usize>,
    variant_bytes: int,
    count: nat,
) -> Option<Seq<IconUpload>>
    decreases count,
{
    if count == 0 {
        Some(Seq::empty())
    } else {
        let before = icon_uploads(
            selected,
            desired,
            icons,
            offsets,
            variant_bytes,
            (count - 1) as nat,
        );
        let slot = (count - 1) as usize;
        if before is None || (selected == Some(slot)) == (desired == Some(slot)) {
            before
        } else {
            match icon_upload(count - 1, desired, icons, offsets, variant_bytes) {
                Some(upload) => Some(before->0.push(upload)),
                None => None,
            }
        }
    }
}

fn is_slot(choice: Option<usize>, slot: usize) -> (chosen: bool)
    ensures
        chosen == (choice == Some(slot)),
{
    match choice {
        Some(value) => value == slot,
        None => false,
    }
}

/// Plan what has to be written so that the icon of the selected weapon, and no
/// other, shows as selected. A switch touches only the old and the new slot.
pub fn stage_weapon_icons(
    selected: Option<usize>,
    desired: Option<usize>,
    icons: &Vec<Option<GraphicsPicture>>,
    offsets: &Vec<usize>,
    variant_bytes: usize,
) -> (uploads: Option<Vec<IconUpload>>)
    requires
        icons@.len() == 7,
        offsets@.len() == 8,
        variant_bytes + offsets@[7] <= usize::MAX,
        forall|i: int, j: int|
            #![trigger offsets@[i], offsets@[j]]
            0 <= i <= j < 8 ==> offsets@[i] <= offsets@[j],
    ensures
        match icon_uploads(selected, desired, icons@, offsets@, variant_bytes as int, 7) {
            Some(plan) => uploads is Some && uploads->0@ == plan,
            None => uploads is None,
        },
{
    let mut uploads: Vec<IconUpload> = Vec::new();
    let mut slot: usize = 0;
    assert(uploads@ =~= Seq::empty());
    while slot < 7
        invariant
            slot <= 7,
            icons@.len() == 7,
            offsets@.len() == 8,
            variant_bytes + offsets@[7] <= usize::MAX,
            forall|i: int, j: int|
                #![trigger offsets@[i], offsets@[j]]
                0 <= i <= j < 8 ==> offsets@[i] <= offsets@[j],
            icon_uploads(
                selected,
                desired,
                icons@,
                offsets@,
                variant_bytes as int,
                slot as nat,
            ) == Some(uploads@),
        decreases 7 - slot,
    {
        let wanted: bool = is_slot(desired, slot);
        if is_slot(selected, slot) != wanted {
            let rect: Option<VramRect> = match icons[slot] {
                Some(picture) => picture_upload_rect(picture),
                None => None,
            };
            match rect {
                Some(place) => {
                    assert(offsets@[slot as int] <= offsets@[slot + 1] <= offsets@[7]);
                    let start: usize = if wanted {
                        variant_bytes + offsets[slot]
                    } else {
                        offsets[slot]
                    };
                    uploads.push(
                        IconUpload { rect: place, start, len: offsets[slot + 1] - offsets[slot] },
                    );
                },
                None => {
                    proof {
                        icon_uploads_stay_missing(
                            selected,
                            desired,
                            icons@,
                            offsets@,
                            variant_bytes as int,
                            (slot + 1) as nat,
                            7,
                        );
                    }
                    return None;
                },
            }
        }
        slot += 1;
    }
    Some(uploads)
}

proof fn icon_uploads_stay_missing(
    selected: Option<usize>,
    desired: Option<usize>,
    icons: Seq<Option<GraphicsPicture>>,
    offsets: Seq<usize>,
    variant_bytes: int,
    low: nat,
    high: nat,
)
    requires
        low <= high,
        icon_uploads(selected, desired, icons, offsets, variant_bytes, low) is None,
    ensures
        icon_uploads(selected, desired, icons, offsets, variant_bytes, high) is None,
    decreases high,
{
    if low < high {
        icon_uploads_stay_missing(
            selected,
            desired,
            icons,
            offsets,
            variant_bytes,
            low,
            (high - 1) as nat,
        );
    }
}

/// What the options page sets for the renderer.
#[derive(Copy, Clone, Debug, PartialEq, Eq, Structural)]
pub struct RenderSettings {
    /// Row of the palettes: 0 is the untouched one.
    pub gamma: u16,
    pub crosshair: bool,
    pub hud_mode: HudMode,
}

impl RenderSettings {
    pub fn new(hud_mode: HudMode) -> (settings: Self)
        ensures
            settings == (RenderSettings { gamma: 0, crosshair: true, hud_mode }),
    {
        RenderSettings { gamma: 0, crosshair: true, hud_mode }
    }

    pub fn set_brightness(&mut self, level: u8)
        ensures
            *final(self) == (RenderSettings {
                gamma: if level < BRIGHTNESS_LEVELS {
                    level as u16
                } else {
                    (BRIGHTNESS_LEVELS - 1) as u16
                },
                ..*old(self)
            }),
    {
        self.gamma = set_brightness_level(level);
    }

    pub fn set_crosshair(&mut self, on: bool)
        ensures
            *final(self) == (RenderSettings { crosshair: on, ..*old(self) }),
    {
        self.crosshair = on;
    }

    pub fn set_hud_mode(&mut self, mode: HudMode)
        ensures
            *final(self) == (RenderSettings { hud_mode: mode, ..*old(self) }),
    {
        self.hud_mode = mode;
    }

    /// Whether the weapon icons are brought up to date: only the display that
    /// shows them needs them.
    pub fn stages_icons(&self, hud: bool) -> (stages: bool)
        ensures
            stages == (hud && self.hud_mode == HudMode::Classic),
    {
        match self.hud_mode {
            HudMode::Classic => hud,
            _ => false,
        }
    }
}

/// The wobble under water, for one frame.
#[derive(Copy, Clone, Debug, PartialEq, Eq, Structural)]
pub struct WaterWarp {
    pub roll: i16,
    pub offset_x: i16,
    pub offset_y: i16,
    pub projection_plane: u16,
}

/// The camera and the projection of a frame.
pub fn frame_view(camera: Camera, warp: Option<WaterWarp>) -> (view: (Camera, Projection))
    ensures
        match warp {
            Some(wobble) => {
                &&& view.0 == (Camera {
                    angles: Vec3I16 {
                        z: camera.angles.z.wrapping_add(wobble.roll),
                        ..camera.angles
                    },
                    ..camera
                })
                &&& view.1.offset_x == ((160 + wobble.offset_x) as i32).wrapping_mul(65536)
                &&& view.1.offset_y == ((120 + wobble.offset_y) as i32).wrapping_mul(65536)
                &&& view.1.plane == wobble.projection_plane
            },
            None => {
                &&& view.0 == camera
                &&& view.1.offset_x == 160 * 65536
                &&& view.1.offset_y == 120 * 65536
                &&& view.1.plane == 160
            },
        },
{
    match warp {
        Some(wobble) => {
            let mut rolled: Camera = camera;
            rolled.angles.z = rolled.angles.z.wrapping_add(wobble.roll);
            (
                rolled,
                configure_underwater_projection(
                    wobble.offset_x,
                    wobble.offset_y,
                    wobble.projection_plane,
                ),
            )
        },
        None => (camera, configure_quake_projection()),
    }
}

/// How the world gets into a frame.
#[derive(Copy, Clone, Debug, PartialEq, Eq, Structural)]
pub enum WorldStep {
    /// The visible set is not valid: no world, and no entities.
    Skip,
    /// The arena still holds the stream of this view.
    Reuse,
    Draw,
}

/// The stream is used again only when its tags could be given back.
pub fn world_step(visible: bool, matches: bool, restored: bool) -> (step: WorldStep)
    ensures
        step == if !visible {
            WorldStep::Skip
        } else if matches && restored {
            WorldStep::Reuse
        } else {
            WorldStep::Draw
        },
{
    if !visible {
        WorldStep::Skip
    } else if matches && restored {
        WorldStep::Reuse
    } else {
        WorldStep::Draw
    }
}

/// What is drawn into the world once its faces are.
#[derive(Copy, Clone, Debug, PartialEq, Eq, Structural)]
pub enum ScenePass {
    Entities,
    Explosions,
    Particles,
    Beam,
    Sky,
}

pub open spec fn pass_if(condition: bool, pass: ScenePass) -> Seq<ScenePass> {
    if condition {
        seq![pass]
    } else {
        Seq::empty()
    }
}

/// The order of the passes. Entities are drawn only into a world that fitted.
/// The sky goes to the farthest slot, where what is submitted last is drawn
/// first.
pub open spec fn scene_order(visible: bool, overflow: bool, beam: bool, sky: bool) -> Seq<ScenePass> {
    pass_if(visible && !overflow, ScenePass::Entities) + seq![
        ScenePass::Explosions,
        ScenePass::Particles,
    ] + pass_if(beam, ScenePass::Beam) + pass_if(sky, ScenePass::Sky)
}

pub fn scene_passes(visible: bool, stats: RenderStats, beam: bool, sky: bool) -> (passes: Vec<
    ScenePass,
>)
    ensures
        passes@ == scene_order(visible, stats.packet_overflow_avoided, beam, sky),
{
    let mut passes: Vec<ScenePass> = Vec::new();
    if visible && !stats.packet_overflow_avoided {
        passes.push(ScenePass::Entities);
    }
    passes.push(ScenePass::Explosions);
    passes.push(ScenePass::Particles);
    if beam {
        passes.push(ScenePass::Beam);
    }
    if sky {
        passes.push(ScenePass::Sky);
    }
    assert(passes@ =~= scene_order(visible, stats.packet_overflow_avoided, beam, sky));
    passes
}

/// Nothing of the world is submitted after the sky, and no entity into a world
/// that nobody sees.
pub proof fn the_sky_is_submitted_last(visible: bool, overflow: bool, beam: bool, sky: bool)
    ensures
        sky ==> scene_order(visible, overflow, beam, sky).last() == ScenePass::Sky,
        !sky ==> !scene_order(visible, overflow, beam, sky).contains(ScenePass::Sky),
        !visible || overflow ==> !scene_order(visible, overflow, beam, sky).contains(
            ScenePass::Entities,
        ),
{
}

/// What a frame does once the faces of the world are drawn: what goes into
/// its arena, in which order, what goes over it, and the clock it leaves.
pub struct FramePlan {
    /// The one arena that the frame's packets go to.
    pub arena: usize,
    pub frame: u32,
    pub passes: Vec<ScenePass>,
    pub layers: Vec<Layer>,
    pub next: FrameClock,
}

#[verifier::ext_equal]
pub struct FramePlanView {
    pub arena: usize,
    pub frame: u32,
    pub passes: Seq<ScenePass>,
    pub layers: Seq<Layer>,
    pub next: FrameClock,
}

impl View for FramePlan {
    type V = FramePlanView;

    open spec fn view(&self) -> FramePlanView {
        FramePlanView {
            arena: self.arena,
            frame: self.frame,
            passes: self.passes@,
            layers: self.layers@,
            next: self.next,
        }
    }
}

pub open spec fn planned(
    clock: FrameClock,
    visible: bool,
    overflow: bool,
    beam: bool,
    sky: bool,
    overlays: Overlays,
) -> FramePlanView {
    FramePlanView {
        arena: clock.arena,
        frame: clock.frame,
        passes: scene_order(visible, overflow, beam, sky),
        layers: layer_order(overlays),
        next: clock.next(),
    }
}

/// Plan the rest of a frame. `stats` tells whether the world fitted.
pub fn plan_frame(
    clock: FrameClock,
    visible: bool,
    stats: RenderStats,
    beam: bool,
    sky: bool,
    overlays: Overlays,
) -> (plan: FramePlan)
    requires
        clock.valid(),
    ensures
        plan@ == planned(
            clock,
            visible,
            stats.packet_overflow_avoided,
            beam,
            sky,
            overlays,
        ),
        plan.next.valid(),
{
    let mut next: FrameClock = clock;
    next.advance();
    FramePlan {
        arena: clock.arena,
        frame: clock.frame,
        passes: scene_passes(visible, stats, beam, sky),
        layers: overlay_layers(overlays),
        next,
    }
}

/// Every frame fills the arena it began with, leaves the other one for the
/// next frame and counts on by one, whether or not anything was visible and
/// whether or not it fitted. Under the end-of-level panel and on the options
/// page a track that is announced changes nothing of the frame.
pub proof fn frames_take_turns(
    clock: FrameClock,
    visible: bool,
    overflow: bool,
    beam: bool,
    sky: bool,
    overlays: Overlays,
)
    requires
        clock.valid(),
    ensures
        ({
            let plan = planned(clock, visible, overflow, beam, sky, overlays);
            let silent = planned(
                clock,
                visible,
                overflow,
                beam,
                sky,
                Overlays { now_playing: false, ..overlays },
            );
            &&& plan.arena == clock.arena
            &&& plan.next.valid()
            &&& plan.next.arena == clock.arena ^ 1
            &&& plan.next.frame == clock.frame.wrapping_add(1)
            &&& overlays.intermission || overlays.menu == Some(MenuPage::Options) ==> plan
                == silent
        }),
{
    let arena = clock.arena;
    assert(arena < 2 ==> arena ^ 1 == 1 - arena) by (bit_vector);
}

/// Entries, among the first `count`, that need a near clip.
pub open spec fn near_entries(entries: Seq<u16>, count: nat) -> nat
    decreases count,
{
    if count == 0 {
        0
    } else {
        near_entries(entries, (count - 1) as nat) + if entries[count - 1] & NEAR_FACE_BIT != 0 {
            1nat
        } else {
            0
        }
    }
}

pub fn count_near_faces(entries: &Vec<u16>) -> (near: usize)
    ensures
        near == near_entries(entries@, entries@.len()),
        near <= entries@.len(),
{
    let mut near: usize = 0;
    let mut index: usize = 0;
    while index < entries.len()
        invariant
            index <= entries@.len(),
            near <= index,
            near == near_entries(entries@, index as nat),
        decreases entries@.len() - index,
    {
        if entries[index] & NEAR_FACE_BIT != 0 {
            near += 1;
        }
        index += 1;
    }
    near
}

/// A layer is drawn just when it is asked for; the tints and the fade always are.
pub proof fn layers_are_drawn_when_asked_for(overlays: Overlays, layer: Layer)
    ensures
        layer_order(overlays).contains(layer) <==> (match layer {
            Layer::ViewModel => overlays.view_model,
            Layer::Hud => overlays.hud,
            Layer::Tints => true,
            Layer::Centerprint => overlays.centerprint,
            Layer::Menu => overlays.menu is Some,
            Layer::Intermission => overlays.intermission,
            Layer::Banner => overlays.now_playing && !overlays.intermission && overlays.menu != Some(
                MenuPage::Options,
            ),
            Layer::Fade => true,
        }),
{
    let a = layer_if(overlays.view_model, Layer::ViewModel);
    let b = layer_if(overlays.hud, Layer::Hud);
    let c = seq![Layer::Tints];
    let d = layer_if(overlays.centerprint, Layer::Centerprint);
    let e = layer_if(overlays.menu is Some, Layer::Menu);
    let f = layer_if(overlays.intermission, Layer::Intermission);
    let g = layer_if(banner_up(overlays), Layer::Banner);
    let h = seq![Layer::Fade];
    assert(c[0] == Layer::Tints && h[0] == Layer::Fade);
    a_layer_or_none(overlays.view_model, Layer::ViewModel);
    a_layer_or_none(overlays.hud, Layer::Hud);
    a_layer_or_none(overlays.centerprint, Layer::Centerprint);
    a_layer_or_none(overlays.menu is Some, Layer::Menu);
    a_layer_or_none(overlays.intermission, Layer::Intermission);
    a_layer_or_none(banner_up(overlays), Layer::Banner);
    layers_of_both(a, b, layer);
    layers_of_both(a + b, c, layer);
    layers_of_both(a + b + c, d, layer);
    layers_of_both(a + b + c + d, e, layer);
    layers_of_both(a + b + c + d + e, f, layer);
    layers_of_both(a + b + c + d + e + f, g, layer);
    layers_of_both(a + b + c + d + e + f + g, h, layer);
}

proof fn a_layer_or_none(condition: bool, one: Layer)
    ensures
        forall|layer: Layer| #[trigger]
            layer_if(condition, one).contains(layer) <==> condition && layer == one,
{
    if condition {
        assert(layer_if(condition, one)[0] == one);
    }
}

proof fn layers_of_both(first: Seq<Layer>, second: Seq<Layer>, layer: Layer)
    ensures
        (first + second).contains(layer) <==> first.contains(layer) || second.contains(layer),
{
    if first.contains(layer) {
        let i = choose|i: int| 0 <= i < first.len() && first[i] == layer;
        assert((first + second)[i] == layer);
    }
    if second.contains(layer) {
        let i = choose|i: int| 0 <= i < second.len() && second[i] == layer;
        assert((first + second)[first.len() + i] == layer);
    }
}

/// The place of a layer among all layers, the hindmost first.
pub open spec fn layer_rank(layer: Layer) -> int {
    match layer {
        Layer::ViewModel => 0,
        Layer::Hud => 1,
        Layer::Tints => 2,
        Layer::Centerprint => 3,
        Layer::Menu => 4,
        Layer::Intermission => 5,
        Layer::Banner => 6,
        Layer::Fade => 7,
    }
}

/// The layers come from the hindmost to the foremost.
pub proof fn layers_come_back_to_front(overlays: Overlays, i: int, j: int)
    requires
        0 <= i < j < layer_order(overlays).len(),
    ensures
        layer_rank(layer_order(overlays)[i]) < layer_rank(layer_order(overlays)[j]),
{
}

/// A pass over the scene runs just when there is something for it to draw;
/// entities only in a world that was drawn without running out of room.
pub proof fn passes_run_when_there_is_something(visible: bool, overflow: bool, beam: bool, sky: bool)
    ensures
        ({
            let order = scene_order(visible, overflow, beam, sky);
            &&& order.contains(ScenePass::Entities) <==> visible && !overflow
            &&& order.contains(ScenePass::Explosions)
            &&& order.contains(ScenePass::Particles)
            &&& order.contains(ScenePass::Beam) <==> beam
            &&& order.contains(ScenePass::Sky) <==> sky
        }),
{
    let order = scene_order(visible, overflow, beam, sky);
    let first: int = if visible && !overflow {
        1
    } else {
        0
    };
    let beams: int = if beam {
        1
    } else {
        0
    };
    if visible && !overflow {
        assert(order[0] == ScenePass::Entities);
    }
    assert(order[first] == ScenePass::Explosions);
    assert(order[first + 1] == ScenePass::Particles);
    if beam {
        assert(order[first + 2] == ScenePass::Beam);
    }
    if sky {
        assert(order[first + 2 + beams] == ScenePass::Sky);
    }
}

/// Where a picture lies in video memory: its page is one of sixteen columns of 64
/// halfwords in one of two rows of 256 lines, and two of its texels share a
/// halfword.
pub proof fn pictures_lie_in_their_pages(picture: GraphicsPicture, column: int, row: int)
    requires
        0 <= column < 16,
        0 <= row < 2,
        picture.tpage % 32 == 16 * row + column,
        picture.width > 0,
        picture.height > 0,
        picture.width % 2 == 0,
    ensures
        picture_rect(picture) matches Some(rect) && {
            &&& rect.x == 64 * column + picture.u / 2
            &&& rect.y == 256 * row + picture.v
            &&& 2 * rect.width == picture.width
            &&& rect.height == picture.height
        },
{
    assert(picture.tpage % 16 == column);
    assert(picture.tpage / 16 % 2 == row);
}

/// Every quad of the display but those of the crosshair is two triangles.
pub proof fn display_quads_are_two_triangles(generated: int, crosshair: int)
    requires
        0 <= crosshair,
        0 <= generated <= 0x7fff_ffff,
    ensures
        crosshair <= generated ==> hud_triangles(generated, crosshair) == 2 * generated - 2
            * crosshair,
        crosshair > generated ==> hud_triangles(generated, crosshair) == 0,
{
}

/// The pixels of an icon are read from its own place, of the bright icons where
/// it is the wanted one and of the plain ones otherwise, and end where those of
/// the next icon begin.
pub proof fn icons_are_read_from_their_own_place(
    slot: int,
    desired: Option<usize>,
    icons: Seq<Option<GraphicsPicture>>,
    offsets: Seq<usize>,
    variant_bytes: int,
)
    requires
        0 <= slot <= 1000,
        0 <= variant_bytes <= 0xffff,
        offsets[slot] <= offsets[slot + 1] <= 0xffff,
    ensures
        icon_upload(slot, desired, icons, offsets, variant_bytes) matches Some(upload) ==> {
            &&& icons[slot] is Some && picture_rect(icons[slot]->0) == Some(upload.rect)
            &&& desired == Some(slot as usize) ==> upload.start == variant_bytes + offsets[slot]
                && upload.start + upload.len == variant_bytes + offsets[slot + 1]
            &&& desired != Some(slot as usize) ==> upload.start == offsets[slot] && upload.start
                + upload.len == offsets[slot + 1]
        },
{
}

/// Only icons that change between plain and bright are uploaded: the one that was
/// wanted and the one that is, and none where these are the same.
pub proof fn only_changed_icons_are_uploaded(
    selected: Option<usize>,
    desired: Option<usize>,
    icons: Seq<Option<GraphicsPicture>>,
    offsets: Seq<usize>,
    variant_bytes: int,
    slot: usize,
)
    ensures
        ({
            let before = icon_uploads(
                selected,
                desired,
                icons,
                offsets,
                variant_bytes,
                slot as nat,
            );
            let after = icon_uploads(
                selected,
                desired,
                icons,
                offsets,
                variant_bytes,
                (slot + 1) as nat,
            );
            let changes = selected != desired && (selected == Some(slot) || desired == Some(slot));
            let upload = icon_upload(slot as int, desired, icons, offsets, variant_bytes);
            &&& before is None || !changes ==> after == before
            &&& before is Some && changes && upload is Some ==> after == Some(
                before->0.push(upload->0),
            )
            &&& before is Some && changes && upload is None ==> after is None
        }),
{
}

/// Entries are counted as near by their highest bit.
pub proof fn near_entries_are_counted(entries: Seq<u16>, count: nat)
    requires
        count < entries.len(),
    ensures
        near_entries(entries, 0) == 0,
        entries[count as int] >= 0x8000 ==> near_entries(entries, count + 1) == near_entries(
            entries,
            count,
        ) + 1,
        entries[count as int] < 0x8000 ==> near_entries(entries, count + 1) == near_entries(
            entries,
            count,
        ),
{
    let entry = entries[count as int];
    assert(entry & 0x8000 != 0 <==> entry >= 0x8000) by (bit_vector);
}

} // verus!
