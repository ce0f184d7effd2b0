use quake_psx::clip::crossing_fraction;
use quake_psx::clip::cut_vertex;
use quake_psx::clip::near_clip;
use quake_psx::clip::NearClip;
use quake_psx::effects::beam_span;
use quake_psx::effects::count_bolt;
use quake_psx::effects::count_bubble;
use quake_psx::effects::count_square;
use quake_psx::effects::draw_explosion_effects;
use quake_psx::effects::explosion_ray_end;
use quake_psx::effects::lightning_segments;
use quake_psx::effects::particle_rect;
use quake_psx::effects::particle_step;
use quake_psx::effects::ParticleRect;
use quake_psx::effects::ParticleStep;
use quake_psx::effects::ProjectedExplosion;
use quake_psx::effects::ScreenLine;
use quake_psx::entities::count_alias;
use quake_psx::entities::count_sprite;
use quake_psx::entities::count_view_model;
use quake_psx::entities::cull_entities;
use quake_psx::entities::entity_step;
use quake_psx::entities::view_model_frame;
use quake_psx::entities::EntityCull;
use quake_psx::entities::EntityModel;
use quake_psx::entities::EntityStep;
use quake_psx::entities::Projectile;
use quake_psx::frame::count_hud;
use quake_psx::frame::frame_view;
use quake_psx::frame::overlay_layers;
use quake_psx::frame::picture_upload_rect;
use quake_psx::frame::place_sky;
use quake_psx::frame::plan_frame;
use quake_psx::frame::scene_passes;
use quake_psx::frame::selection_cached;
use quake_psx::frame::stage_weapon_icons;
use quake_psx::frame::world_step;
use quake_psx::frame::FrameClock;
use quake_psx::frame::FrustumCache;
use quake_psx::frame::IconUpload;
use quake_psx::frame::Layer;
use quake_psx::frame::Overlays;
use quake_psx::frame::RenderSettings;
use quake_psx::frame::ScenePass;
use quake_psx::frame::StaticWorldCache;
use quake_psx::frame::StaticWorldKey;
use quake_psx::frame::VramRect;
use quake_psx::frame::WaterWarp;
use quake_psx::frame::WorldStep;
use quake_psx::hud::HudMode;
use quake_psx::light::dynamic_light_add;
use quake_psx::light::dynamic_light_at;
use quake_psx::light::dynamic_light_misses;
use quake_psx::light::dynamic_lights_miss;
use quake_psx::light::light_corner;
use quake_psx::light::light_face;
use quake_psx::light::light_vertex;
use quake_psx::light::model_tint;
use quake_psx::light::DynamicLight;
use quake_psx::light::LitVertex;
use quake_psx::liquid::visible_liquids;
use quake_psx::liquid::LiquidState;
use quake_psx::liquid::LiquidTexture;
use quake_psx::materialize::light_batch;
use quake_psx::materialize::materialize_quake_baked;
use quake_psx::materialize::materialize_surface;
use quake_psx::materialize::FaceBox;
use quake_psx::materialize::IndexedProjection;
use quake_psx::materialize::Materialization;
use quake_psx::materialize::ProjectedPosition;
use quake_psx::materialize::SurfaceCorner;
use quake_psx::materialize::NO_SLOT;
use quake_psx::menu::MenuPage;
use quake_psx::render_section::cell_window;
use quake_psx::render_section::gather_cell;
use quake_psx::render_section::load_render_cell;
use quake_psx::render_section::load_render_dictionary;
use quake_psx::render_section::packet_pool_bytes;
use quake_psx::render_section::CellCommand;
use quake_psx::render_section::CellWindow;
use quake_psx::render_section::DictionaryFace;
use quake_psx::render_section::DictionaryObject;
use quake_psx::render_section::GatheredRenderSection;
use quake_psx::render_section::RecordSizes;
use quake_psx::render_section::RenderCellHeader;
use quake_psx::render_section::SectionError;
use quake_psx::screen::GraphicsPicture;
use quake_psx::selection::AabbClipPlane;
use quake_psx::sky::animate_special_surface;
use quake_psx::sky::cell_samples;
use quake_psx::sky::sky_lattice;
use quake_psx::sky::sky_layer_size;
use quake_psx::sky::sky_mappings;
use quake_psx::sky::sky_point;
use quake_psx::sky::sky_ray;
use quake_psx::sky::sky_scroll;
use quake_psx::sky::sky_tiles;
use quake_psx::sky::special_texture_window;
use quake_psx::sky::submit_view_ray_sky_background;
use quake_psx::sky::texture_window_mask;
use quake_psx::sky::CellUv;
use quake_psx::sky::SkyPacket;
use quake_psx::sky::SkyWindowPacket;
use quake_psx::sky::WindowFields;
use quake_psx::sky::SKY_BACKGROUND_CYCLE_SECONDS;
use quake_psx::sky::SKY_BACKGROUND_WORDS;
use quake_psx::sky::SKY_CELLS;
use quake_psx::sky::SKY_FOREGROUND_CYCLE_SECONDS;
use quake_psx::sprite::horizontal_unit;
use quake_psx::sprite::sprite_axes;
use quake_psx::sprite::sprite_heading;
use quake_psx::sprite::sprite_quad;
use quake_psx::sprite::sprite_frame_index;
use quake_psx::sprite::sprite_step;
use quake_psx::sprite::sprite_submit;
use quake_psx::sprite::Axes;
use quake_psx::sprite::Projected;
use quake_psx::sprite::SpriteBasis;
use quake_psx::sprite::SpriteFrame;
use quake_psx::sprite::SpriteStep;
use quake_psx::visibility::VisibleSet;
use quake_psx::world::Camera;
use quake_psx::world::FaceFlags;
use quake_psx::world::TextureFlags;
use quake_psx::world::TextureInfo;
use quake_psx::world::Vec3I16;
use quake_psx::world::Vec3I32;
use quake_psx::world_pass::BatchSurface;
use quake_psx::world_pass::RenderStats;
use quake_psx::world_pass::Submitted;

fn units(x: i16, y: i16, z: i16) -> Vec3I16 {
    Vec3I16 { x, y, z }
}

fn point(x: i32, y: i32, z: i32) -> Vec3I32 {
    Vec3I32 { x, y, z }
}

fn texture(atlas_x: u8, liquid: bool, sky: bool) -> TextureInfo {
    TextureInfo {
        width: 64,
        height: 32,
        atlas_x,
        atlas_y: 16,
        texture_page: 3,
        flags: TextureFlags { sky, layered_sky: false, liquid, invisible: false, null: false },
    }
}

fn at(sx: i16, sy: i16, sz: u16) -> Projected {
    Projected { sx, sy, sz }
}

const SENT: Submitted = Submitted { words: 10, packets: 2, hardware_triangles: 3 };

#[test]
fn the_sky_scrolls_once_in_a_cycle() {
    assert_eq!(sky_scroll(0, 64, 8), 0);
    assert_eq!(sky_scroll(120, 64, 8), 32);
    assert_eq!(sky_scroll(240, 64, SKY_FOREGROUND_CYCLE_SECONDS), 64);
    assert_eq!(sky_scroll(240, 128, SKY_BACKGROUND_CYCLE_SECONDS), 64);
    assert_eq!(sky_layer_size(64), 64);
    assert_eq!(sky_point(0, 0), (0, 0));
    assert_eq!(sky_point(12, 10), (320, 240));
}

#[test]
fn sky_cells_meet() {
    let uv = CellUv { u: [1, 2, 3, 4], v: [5, 6, 7, 8] };
    let layer = vec![uv; SKY_CELLS];
    let packets = submit_view_ray_sky_background(1, 2, 3, &layer, &layer);
    assert_eq!(packets.len(), 243);
    let commands: Vec<u32> = packets
        .iter()
        .filter_map(|packet| match packet {
            SkyPacket::Window(window) => Some(window.command),
            SkyPacket::Cell { .. } => None,
        })
        .collect();
    let mut sorted = commands.clone();
    sorted.sort();
    assert_eq!(sorted, vec![1, 2, 3]);
    assert_eq!(SkyWindowPacket::new(9).tag, 0x0100_07ff);
    assert!(matches!(packets[0], SkyPacket::Window(window) if window.command == 1));
    assert!(matches!(packets[242], SkyPacket::Window(window) if window.command == 3));
    let mut words = 0;
    for packet in &packets {
        let tag = match packet {
            SkyPacket::Window(window) => window.tag,
            SkyPacket::Cell { tag, .. } => *tag,
        };
        assert_eq!(tag & 0xff_ffff, 2047);
        words += (tag >> 24) as usize + 1;
    }
    assert_eq!(words, SKY_BACKGROUND_WORDS);
    let area: i32 = packets
        .iter()
        .filter_map(|packet| match packet {
            SkyPacket::Cell { left, top, right, bottom, .. } => {
                Some((*right as i32 - *left as i32) * (*bottom as i32 - *top as i32))
            },
            SkyPacket::Window(_) => None,
        })
        .sum();
    assert_eq!(area, 2 * 320 * 240);
}

#[test]
fn the_sky_is_sampled_on_a_lattice() {
    let points = sky_lattice();
    assert_eq!(points.len(), 143);
    assert_eq!((points[0], points[10], points[11], points[142]), ((0, 0), (320, 0), (0, 20), (320, 240)));
    let ray = sky_ray(points[12]);
    assert_eq!((ray.point, ray.center, ray.distance), ((32, 20), (160, 120), 160));
    let samples: Vec<(i32, i32)> = (0..143).map(|index| (index, 1000 + index)).collect();
    assert_eq!(cell_samples(&samples, 0), [(0, 1000), (1, 1001), (11, 1011), (12, 1012)]);
    assert_eq!(cell_samples(&samples, 119), [(130, 1130), (131, 1131), (141, 1141), (142, 1142)]);
}

#[test]
fn sky_layers_stand_side_by_side() {
    let sky = texture(128, false, true);
    let width = sky_layer_size(sky.width);
    let (front, back) = sky_tiles(sky);
    assert_eq!((front.u, front.v, front.width), (128, sky.atlas_y, width));
    assert_eq!((back.u, back.v), (128u8.wrapping_add(width), sky.atlas_y));
    assert_eq!((back.width, back.height), (front.width, front.height));
    let samples: Vec<(i32, i32)> = (0..143).map(|index| (index, 1000 + index)).collect();
    let (near, far) = sky_mappings(sky, 240, &samples);
    assert_eq!((near.len(), far.len()), (SKY_CELLS, SKY_CELLS));
    assert_eq!(near[10].samples, cell_samples(&samples, 10));
    assert_eq!((near[10].tile, far[10].tile), (front, back));
    assert_eq!((near[3].scroll, far[3].scroll), ([width; 2], [width / 2; 2]));
}

#[test]
fn windows_repeat_a_texture() {
    assert_eq!(texture_window_mask(64), 24);
    assert_eq!(texture_window_mask(128), 16);
    assert_eq!(
        special_texture_window(texture(8, true, false)),
        WindowFields { mask_x: 16, mask_y: 28, offset_x: 1, offset_y: 2 }
    );
    assert_eq!(
        special_texture_window(texture(8, false, true)),
        WindowFields { mask_x: 16, mask_y: 0, offset_x: 1, offset_y: 0 }
    );
    let mut u = vec![0, 250];
    animate_special_surface(&mut u, texture(0, false, true), 75);
    assert_eq!(u, vec![10, 4]);
    animate_special_surface(&mut u, texture(0, true, false), 75);
    assert_eq!(u, vec![10, 4]);
}

const RECORD: [u8; 12] = [1, 2, 8, 16, 0xfc, 0xff, 8, 0, 3, 0, 2, 0];

#[test]
fn sprite_records_are_decoded() {
    let frame = SpriteFrame::decode(&RECORD.to_vec());
    assert_eq!(
        frame,
        Some(SpriteFrame {
            u: 1,
            v: 2,
            width: 8,
            height: 16,
            left: -4,
            up: 8,
            beam_length: 3,
            kind: 2,
        })
    );
    assert_eq!(SpriteFrame::decode(&RECORD[..11].to_vec()), None);
    for (at, value) in [(2, 0), (3, 0), (10, 5)] {
        let mut bad = RECORD.to_vec();
        bad[at] = value;
        assert_eq!(SpriteFrame::decode(&bad), None);
    }
}

const LOOKING: Axes = Axes {
    forward: Vec3I32 { x: 4096, y: 0, z: 0 },
    right: Vec3I32 { x: 0, y: -4096, z: 0 },
    up: Vec3I32 { x: 0, y: 0, z: 4096 },
};

#[test]
fn sprites_turn_by_their_kind() {
    let basis = SpriteBasis {
        camera: LOOKING,
        own: Axes { forward: point(0, 4096, 0), ..LOOKING },
        heading: Some(point(0, -4096, 0)),
        right_cos: point(1, 2, 3),
        right_neg_sin: point(4, 5, 6),
        up_sin: point(10, 20, 30),
        up_cos: point(40, 50, i32::MAX),
    };
    assert_eq!(sprite_axes(0, basis), Some(LOOKING));
    assert_eq!(sprite_axes(1, SpriteBasis { heading: None, ..basis }), None);
    assert_eq!(sprite_axes(2, basis), Some(LOOKING));
    assert_eq!(sprite_axes(3, basis), Some(basis.own));
    let rolled = sprite_axes(4, basis);
    assert_eq!(
        rolled,
        Some(Axes {
            forward: LOOKING.forward,
            right: point(11, 22, 33),
            up: point(44, 55, i32::MAX),
        })
    );
    assert_eq!(sprite_axes(5, basis), None);
    let ahead = sprite_heading(0, LOOKING.forward, point(0, 0, 0), point(0, 0, 0));
    assert_eq!(ahead, Some((0, -4096)));
    let toward = sprite_heading(1, LOOKING.forward, point(8192, 12288, 0), point(0, 0, 0));
    assert_eq!(toward, Some((3, -2)));
    assert_eq!(sprite_heading(2, LOOKING.forward, point(0, 0, 0), point(0, 0, 0)), None);
    assert_eq!(horizontal_unit(3, -4, 5), Some(point(2457, -3276, 0)));
    assert_eq!(horizontal_unit(0, 0, 0), None);
}

#[test]
fn sprites_are_projected_from_their_corners() {
    let frame = SpriteFrame::decode(&RECORD.to_vec());
    let origin = point(100 * 4096, 0, 0);
    let eye = point(0, 0, 0);
    let step = sprite_step(frame, Some(LOOKING), origin, eye, 0, 10);
    assert_eq!(
        step,
        SpriteStep::Project([
            units(97, 4, 8),
            units(97, -4, 8),
            units(97, 4, -8),
            units(97, -4, -8),
        ])
    );
    assert_eq!(sprite_step(frame, Some(LOOKING), origin, eye, 1, 10), SpriteStep::Overflow);
    let behind = point(200 * 4096, 0, 0);
    assert_eq!(sprite_step(frame, Some(LOOKING), origin, behind, 0, 10), SpriteStep::Hidden);
    assert_eq!(sprite_step(None, Some(LOOKING), origin, eye, 0, 10), SpriteStep::Hidden);
    assert_eq!(sprite_step(frame, None, origin, eye, 0, 10), SpriteStep::Hidden);
}

#[test]
fn sprites_take_their_words_or_none() {
    assert_eq!(sprite_frame_index(2, 5), 2);
    assert_eq!(sprite_frame_index(4, 5), 4);
    assert_eq!(sprite_frame_index(900, 5), 4);
    assert_eq!(sprite_frame_index(1, 1), 0);
    let frame = SpriteFrame::decode(&RECORD.to_vec());
    let shown = Projected { sx: 1, sy: 2, sz: 3 };
    let quad = frame.and_then(|frame| sprite_quad(frame, [shown; 4]));
    let step = sprite_step(frame, Some(LOOKING), point(100 * 4096, 0, 0), point(0, 0, 0), 7, 17);
    let drawn = sprite_submit(step, quad, 7);
    assert_eq!((drawn.next, drawn.drawn, drawn.overflow), (17, true, false));
    let unseen = sprite_submit(step, None, 7);
    assert_eq!((unseen.next, unseen.drawn, unseen.overflow), (7, false, false));
    let full = sprite_submit(SpriteStep::Overflow, None, 7);
    assert_eq!((full.next, full.drawn, full.overflow), (7, false, true));
    let hidden = sprite_submit(SpriteStep::Hidden, None, 7);
    assert_eq!((hidden.next, hidden.drawn, hidden.overflow), (7, false, false));
}

#[test]
fn sprites_behind_the_eye_are_left_out() {
    let frame = SpriteFrame {
        u: 250,
        v: 2,
        width: 8,
        height: 16,
        left: 0,
        up: 0,
        beam_length: 0,
        kind: 0,
    };
    let shown = sprite_quad(frame, [at(0, 0, 1), at(1, 0, 1), at(0, 1, 1), at(1, 1, 1)]);
    assert!(matches!(shown, Some(quad) if (quad.u0, quad.v0, quad.u1, quad.v1) == (250, 2, 1, 17)));
    assert!(sprite_quad(frame, [at(0, 0, 1), at(1, 0, 0), at(0, 1, 1), at(1, 1, 1)]).is_none());
}

#[test]
fn explosions_have_six_rays() {
    let origin = point(4096, 0, i32::MAX);
    assert_eq!(explosion_ray_end(origin, 2, 0), point(3 * 4096, 0, i32::MAX));
    assert_eq!(explosion_ray_end(origin, 2, 3), point(4096, -8192, i32::MAX));
    assert_eq!(explosion_ray_end(origin, 2, 4), origin);

    let mut ends = [at(5, 6, 1); 6];
    ends[2] = at(5, 6, 0);
    let blast =
        ProjectedExplosion { center: at(1, 2, 9), ends, red: 7, green: 8, blue: 9 };
    let hidden = ProjectedExplosion { center: at(1, 2, 0), ..blast };
    let mut stats = RenderStats::default();
    let lines = draw_explosion_effects(&vec![hidden, blast], 0, 1000, 4, &mut stats);
    assert_eq!(lines.len(), 5);
    assert_eq!(
        lines[0],
        ScreenLine { x0: 1, y0: 2, x1: 5, y1: 6, red: 7, green: 8, blue: 9 }
    );
    assert_eq!((stats.explosion_effect_packets, stats.packets), (5, 5));
    let mut short = RenderStats::default();
    assert_eq!(draw_explosion_effects(&vec![blast], 0, 9, 4, &mut short).len(), 2);
}

#[test]
fn particles_are_squares_or_bubbles() {
    assert_eq!(particle_step(true, true, 9, 0, 4), ParticleStep::Bubble);
    assert_eq!(particle_step(true, false, 0, 4, 4), ParticleStep::Square);
    assert_eq!(particle_step(false, true, 1, 4, 4), ParticleStep::Stop);
    assert_eq!(particle_rect(at(10, 20, 5), 3), Some(ParticleRect { x: 9, y: 19, size: 3 }));
    assert_eq!(particle_rect(at(10, 20, 0), 3), None);
    let mut stats = RenderStats::default();
    count_square(&mut stats);
    count_bubble(&mut stats);
    count_bolt(&mut stats, SENT);
    assert_eq!(
        (stats.impact_particle_packets, stats.sprite_packets, stats.packets),
        (2, 1, 4)
    );
    assert_eq!((stats.hardware_triangles, stats.lightning_beam_packets), (5, 2));
}

#[test]
fn bolts_reach_the_end_of_the_beam() {
    let span = beam_span(point(0, 0, 0), point(100 * 4096, 0, 0));
    assert_eq!(span, point(100, 0, 0));
    let bolts = lightning_segments(point(0, 0, 0), span, 100, 2);
    let starts: Vec<i32> = bolts.iter().map(|bolt| bolt.origin.x / 4096).collect();
    assert_eq!(starts, vec![0, 30, 60, 90]);
    assert_eq!(bolts[1].roll, (2 * 73 + 151) % 256);
    assert!(lightning_segments(point(0, 0, 0), point(0, 0, 0), 0, 2).is_empty());
}

#[test]
fn liquids_flip_between_two_tiles() {
    let liquid = LiquidTexture {
        texture_index: 1,
        primary: texture(0, true, false),
        alternate: texture(64, true, false),
    };
    let textures = vec![texture(200, false, false), texture(0, true, false)];
    let mut active = vec![];
    let mut state = LiquidState::new();
    state.begin_map(7, &textures, &mut active);
    assert_eq!(active, textures);

    assert!(state.plan_uploads(&vec![liquid], &vec![false], 0).is_empty());
    let uploads = state.plan_uploads(&vec![liquid], &vec![true], 0);
    assert_eq!(uploads.len(), 1);
    assert_eq!(uploads[0].destination, liquid.alternate);
    state.commit(&vec![liquid], &vec![true], &mut active);
    assert_eq!(active[1], liquid.alternate);
    // In the same phase there is nothing left to upload.
    assert!(state.plan_uploads(&vec![liquid], &vec![true], 0).is_empty());
    let again = state.plan_uploads(&vec![liquid], &vec![true], 1);
    assert_eq!(again[0].destination, liquid.primary);
    assert_eq!(visible_liquids(&vec![liquid], &vec![], &vec![]), vec![false]);
}

#[test]
fn hidden_entities_are_not_drawn() {
    let mut set = VisibleSet::new();
    set.visible_leaf_count = 8;
    set.visibility[0] = 0b0000_0001;
    let seen = EntityCull { visible: true, projectile: true, leaf_index: 1, outside: false };
    let entities = vec![
        EntityCull { visible: false, ..seen },
        EntityCull { leaf_index: 2, ..seen },
        EntityCull { outside: true, ..seen },
        seen,
    ];
    let mut stats = RenderStats::default();
    assert_eq!(cull_entities(&set, &entities, &mut stats), vec![3]);
    assert_eq!(stats.pvs_projectile_entities, 2);
    assert_eq!(stats.visible_projectile_entities, 1);
}

#[test]
fn models_are_drawn_by_their_kind() {
    let model = EntityModel::Alias { triangles: 10, frames: 4, skins: 1, rotates: true };
    let drawn = entity_step(model, 9, 3, 5, 77, 0, 100, 10);
    assert_eq!(drawn, EntityStep::Alias { frame: 3, skin: 0, yaw: 77 });
    assert_eq!(entity_step(model, 9, 3, 5, 77, 1, 100, 10), EntityStep::Stop);
    assert_eq!(entity_step(EntityModel::Brush, 0, 0, 0, 0, 9, 0, 10), EntityStep::Brush);
    assert_eq!(entity_step(EntityModel::Sprite, 0, 0, 0, 0, 9, 0, 10), EntityStep::Sprite);
    assert_eq!(entity_step(EntityModel::Missing, 0, 0, 0, 0, 9, 0, 10), EntityStep::Skip);
    let mut stats = RenderStats::default();
    count_alias(&mut stats, Projectile::Nail, SENT);
    assert_eq!((stats.visible_entities, stats.alias_packets), (1, 2));
    assert_eq!((stats.projectile_packets, stats.nail_projectile_packets), (2, 2));
    assert_eq!(stats.rocket_projectile_packets, 0);
    assert_eq!(view_model_frame(Some((4, 3)), 9, 0, 1000, 10, &mut stats), Some(2));
    assert_eq!(view_model_frame(None, 9, 0, 1000, 10, &mut stats), None);
    let mut drawn = RenderStats::default();
    count_sprite(&mut drawn, true);
    count_sprite(&mut drawn, false);
    assert_eq!((drawn.visible_entities, drawn.sprite_packets, drawn.packets), (2, 1, 1));
    count_view_model(&mut drawn, SENT);
    assert_eq!((drawn.view_model_packets, drawn.alias_packets, drawn.packets), (2, 2, 3));
}

const LAMP: DynamicLight = DynamicLight { origin: Vec3I16 { x: 0, y: 0, z: 0 }, radius: 100 };

#[test]
fn lights_fade_with_distance() {
    assert_eq!(dynamic_light_add(LAMP, 0, 0, 0), 100);
    assert_eq!(dynamic_light_add(LAMP, 30, -9, 6), 65);
    assert_eq!(dynamic_light_add(LAMP, 0, 0, 150), -50);
    assert_eq!(dynamic_light_at(&vec![LAMP], point(4096 * 30, 0, 0)), 70);
    assert_eq!(dynamic_light_at(&vec![LAMP], point(4096 * 300, 0, 0)), 0);
    assert_eq!(dynamic_light_at(&vec![], point(0, 0, 0)), 0);
    assert_eq!(model_tint(20, &vec![LAMP], point(4096 * 30, 0, 0)), 0x5a_5a5a);
    assert_eq!(model_tint(200, &vec![LAMP], point(0, 0, 0)), 0xff_ffff);
    let dim = LitVertex { position: units(30, 0, 0), color: 0x20_2020 };
    assert_eq!(light_vertex(LAMP, dim), (0x20 + 70) * 0x01_0101);
}

#[test]
fn lights_leave_faces_out_of_reach_alone() {
    assert!(dynamic_light_misses(LAMP, units(101, 0, 0), units(200, 9, 9)));
    assert!(!dynamic_light_misses(LAMP, units(100, 0, 0), units(200, 9, 9)));
    let far = LitVertex { position: units(150, 0, 0), color: 0x20_2020 };
    let near = LitVertex { position: units(10, 0, 0), ..far };
    let mut missed = vec![far];
    light_face(&vec![LAMP], units(120, 0, 0), units(200, 9, 9), &mut missed);
    assert_eq!(missed, vec![far]);
    let mut reached = vec![far, near];
    light_face(&vec![LAMP], units(0, 0, 0), units(200, 9, 9), &mut reached);
    assert_eq!(reached, vec![far, LitVertex { color: 0x7a_7a7a, ..near }]);
    light_face(&vec![], units(0, 0, 0), units(200, 9, 9), &mut reached);
    assert_eq!(reached[1].color, 0x7a_7a7a);
}

#[test]
fn every_live_light_adds() {
    let beside = DynamicLight { origin: units(60, 0, 0), radius: 50 };
    let distant = DynamicLight { origin: units(5000, 0, 0), radius: 50 };
    let lights = vec![LAMP, beside, distant];
    assert_eq!(dynamic_light_at(&lights, point(4096 * 30, 0, 0)), 70 + 20);
    assert_eq!(model_tint(20, &lights, point(4096 * 30, 0, 0)), 110 * 0x01_0101);
    let corner = LitVertex { position: units(30, 0, 0), color: 0x20_2020 };
    let mut face = vec![corner];
    light_face(&lights, units(0, 0, 0), units(40, 9, 9), &mut face);
    assert_eq!(face[0].color, (0x20 + 90) * 0x01_0101);
    let bright = LitVertex { color: 0xc8_c8c8, ..corner };
    assert_eq!(light_corner(&lights, units(0, 0, 0), units(40, 9, 9), bright).color, 0xff_ffff);
    assert!(dynamic_lights_miss(&lights, units(200, 0, 0), units(300, 9, 9)));
    assert!(!dynamic_lights_miss(&lights, units(105, 0, 0), units(300, 9, 9)));
}

fn surface(first_vertex: u16, vertex_count: u16) -> BatchSurface {
    BatchSurface { first_vertex, vertex_count, tpage: 0, clut: 0, source_surface: 0 }
}

#[test]
fn a_batch_is_lit_face_by_face() {
    let vertex = LitVertex { position: units(0, 0, 0), color: 0x10_1010 };
    let mut vertices = vec![vertex; 6];
    let here = FaceBox { mins: units(0, 0, 0), maxs: units(0, 0, 0) };
    let far = FaceBox { mins: units(500, 0, 0), maxs: units(500, 0, 0) };
    light_batch(&vec![LAMP], &vec![surface(0, 3), surface(3, 3)], &vec![far, here], &mut vertices);
    assert_eq!(vertices[2].color, 0x10_1010);
    assert_eq!(vertices[3].color, 0x74_7474);
}

#[test]
fn faces_are_cut_at_the_near_plane() {
    assert_eq!(near_clip(&vec![24, 100, 30]), NearClip::Whole);
    assert_eq!(near_clip(&vec![23, -5, 0]), NearClip::Nothing);
    assert_eq!(near_clip(&vec![23, 24, 25]), NearClip::Cut);
    assert_eq!(crossing_fraction(20, 28), 2048);
    assert_eq!(crossing_fraction(32, 20), 2730);
    assert_eq!(crossing_fraction(23, 24), 4096);
    assert_eq!(cut_vertex(units(1, 2, 3), 4, 5, 6, 7, 8).color, 0x08_0706);
}

#[test]
fn corners_become_vertices() {
    let positions = vec![units(1, 2, 3), units(4, 5, 6)];
    let corners = vec![
        SurfaceCorner { position_index: 0, uv: 1, color: 2 },
        SurfaceCorner { position_index: 1, uv: 3, color: 4 },
    ];
    let vertices = materialize_quake_baked(&corners, &positions, 1, 1);
    assert_eq!(vertices.len(), 1);
    assert_eq!(vertices[0].position, units(4, 5, 6));
    assert_eq!((vertices[0].uv, vertices[0].color), (3, 4));
    let baked = FaceFlags { backside: false, baked_uv: true, baked_light: true };
    let styles = vec![256, 128];
    assert_eq!(materialize_surface(baked, 0, 1, &styles), Materialization::Baked);
    let styled = FaceFlags { baked_light: false, ..baked };
    assert_eq!(
        materialize_surface(styled, 0, 1, &styles),
        Materialization::Styled { style_0: 256, style_1: 128, baked_uv: true, baked_light: false }
    );
}

#[test]
fn positions_are_projected_once() {
    let mut projection = IndexedProjection::new();
    assert_eq!(projection.generation, u32::MAX);
    assert!(projection.position_slots.is_empty());
    projection.prepare_indexed_world_projection(3, 4);
    assert_eq!(projection.position_slots, vec![NO_SLOT; 4]);
    projection.position_slots[2] = 0;
    projection.position_slots[0] = 1;
    projection.unique_positions = vec![2, 0];
    projection.corner_slots = vec![0, 1, 0];
    let first = ProjectedPosition { screen: 10, depth: 1 };
    let second = ProjectedPosition { screen: 20, depth: 2 };
    assert_eq!(projection.scatter(&vec![first, second]), vec![first, second, first]);
    assert_eq!(projection.finish_batch(), (3, 2));
    assert_eq!(projection.position_slots, vec![NO_SLOT; 4]);
}

#[test]
fn arenas_take_turns() {
    let mut clock = FrameClock::new();
    clock.advance();
    assert_eq!((clock.arena, clock.frame), (1, 1));
    clock.advance_loading();
    assert_eq!((clock.arena, clock.frame), (0, 1));
}

#[test]
fn frames_fill_one_arena_each() {
    let clock = FrameClock { arena: 1, frame: u32::MAX };
    let overlays = Overlays {
        view_model: false,
        hud: false,
        centerprint: false,
        menu: Some(MenuPage::Options),
        intermission: false,
        now_playing: true,
    };
    let mut stats = RenderStats::default();
    stats.packet_overflow_avoided = true;
    let plan = plan_frame(clock, false, stats, false, true, overlays);
    assert_eq!((plan.arena, plan.frame), (1, u32::MAX));
    assert_eq!(plan.next, FrameClock { arena: 0, frame: 0 });
    assert_eq!(plan.passes, scene_passes(false, stats, false, true));
    let silent = Overlays { now_playing: false, ..overlays };
    assert_eq!(plan.layers, plan_frame(clock, false, stats, false, true, silent).layers);
    let main = Overlays { menu: Some(MenuPage::Main), ..overlays };
    assert!(plan_frame(clock, false, stats, false, true, main).layers.contains(&Layer::Banner));
}

fn camera(x: i32) -> Camera {
    Camera { origin: point(x, 0, 0), angles: units(1, 2, 3) }
}

#[test]
fn caches_answer_for_their_camera() {
    let plane = AabbClipPlane { normal: units(0, 0, 1), kind: 3, signbits: 0, distance: 5 };
    let mut frustum = FrustumCache { cached: None };
    assert_eq!(frustum.lookup(camera(1)), None);
    frustum.store(camera(1), [plane; 4]);
    assert_eq!(frustum.lookup(camera(1)), Some([plane; 4]));
    assert_eq!(frustum.lookup(camera(2)), None);

    let key = StaticWorldKey { camera: camera(1), visibility: None, water_plane: -1 };
    let moved = StaticWorldKey { camera: camera(2), ..key };
    assert!(selection_cached(true, Some(key), key));
    assert!(!selection_cached(true, Some(key), moved));
    assert!(!selection_cached(false, Some(key), key));

    let mut cache = StaticWorldCache::new();
    assert_eq!((cache.world_words, cache.packets, cache.hardware_triangles), (0, 0, 0));
    assert_eq!(cache.visible_faces, 0);
    assert!(cache.key.is_none() && cache.layered_sky_texture.is_none());
    let mut stats = RenderStats::default();
    stats.packets = 9;
    cache.keep(true, 500, Some(vec![1, 2]), key, stats, None);
    assert!(cache.matches(true, false, key));
    assert!(!cache.matches(true, true, key));
    assert!(!cache.matches(true, false, moved));
    let mut reused = RenderStats::default();
    cache.reuse(&mut reused);
    assert_eq!(reused.packets, 9);
    stats.packet_overflow_avoided = true;
    cache.keep(true, 500, Some(vec![1, 2]), key, stats, None);
    assert!(!cache.matches(true, false, key));
    assert!(cache.tag_slots.is_empty());
}

#[test]
fn worlds_are_drawn_or_reused() {
    assert_eq!(world_step(false, true, true), WorldStep::Skip);
    assert_eq!(world_step(true, true, true), WorldStep::Reuse);
    assert_eq!(world_step(true, true, false), WorldStep::Draw);
    assert_eq!(world_step(true, false, false), WorldStep::Draw);
    let mut stats = RenderStats::default();
    assert!(place_sky(0, SKY_BACKGROUND_WORDS, &mut stats));
    assert_eq!((stats.packets, stats.hardware_triangles), (243, 480));
    assert!(!place_sky(1, SKY_BACKGROUND_WORDS, &mut stats));
    assert_eq!(
        scene_passes(true, stats, false, false),
        vec![ScenePass::Explosions, ScenePass::Particles]
    );
    let fitted = RenderStats::default();
    assert_eq!(
        scene_passes(true, fitted, true, true),
        vec![
            ScenePass::Entities,
            ScenePass::Explosions,
            ScenePass::Particles,
            ScenePass::Beam,
            ScenePass::Sky,
        ]
    );
    assert_eq!(
        scene_passes(false, fitted, false, true),
        vec![ScenePass::Explosions, ScenePass::Particles, ScenePass::Sky]
    );
    let mut hud = RenderStats::default();
    count_hud(&mut hud, 10, 4);
    assert_eq!((hud.hud_packets, hud.packets, hud.hardware_triangles), (10, 10, 12));
}

#[test]
fn the_fade_lies_on_top() {
    let all = Overlays {
        view_model: true,
        hud: true,
        centerprint: true,
        menu: None,
        intermission: false,
        now_playing: true,
    };
    assert_eq!(
        overlay_layers(all),
        vec![
            Layer::ViewModel,
            Layer::Hud,
            Layer::Tints,
            Layer::Centerprint,
            Layer::Banner,
            Layer::Fade,
        ]
    );
    let options = Overlays { menu: Some(MenuPage::Options), ..all };
    assert!(!overlay_layers(options).contains(&Layer::Banner));
    assert!(overlay_layers(options).contains(&Layer::Menu));
    let panel = Overlays { intermission: true, view_model: false, hud: false, ..all };
    assert_eq!(
        overlay_layers(panel),
        vec![Layer::Tints, Layer::Centerprint, Layer::Intermission, Layer::Fade]
    );
}

const ICON: GraphicsPicture = GraphicsPicture { u: 10, v: 20, width: 24, height: 16, tpage: 0x15 };

#[test]
fn pictures_have_a_place_in_memory() {
    assert_eq!(
        picture_upload_rect(ICON),
        Some(VramRect { x: 5 * 64 + 5, y: 256 + 20, width: 12, height: 16 })
    );
    assert_eq!(picture_upload_rect(GraphicsPicture { width: 0, ..ICON }), None);
    assert_eq!(picture_upload_rect(GraphicsPicture { height: 0, ..ICON }), None);
    assert_eq!(picture_upload_rect(GraphicsPicture { width: 7, ..ICON }), None);
}

#[test]
fn a_switch_touches_two_icons() {
    let icons = vec![Some(ICON); 7];
    let offsets: Vec<usize> = (0..8).map(|index| index * 192).collect();
    let rect = VramRect { x: 325, y: 276, width: 12, height: 16 };
    assert_eq!(
        stage_weapon_icons(Some(1), Some(4), &icons, &offsets, 2000),
        Some(vec![
            IconUpload { rect, start: 192, len: 192 },
            IconUpload { rect, start: 2000 + 4 * 192, len: 192 },
        ])
    );
    assert_eq!(stage_weapon_icons(Some(1), Some(1), &icons, &offsets, 2000), Some(vec![]));
    let mut missing = icons.clone();
    missing[4] = None;
    assert_eq!(stage_weapon_icons(Some(1), Some(4), &missing, &offsets, 2000), None);
}

#[test]
fn settings_reach_the_renderer() {
    let mut settings = RenderSettings::new(HudMode::Minimal);
    assert!(settings.crosshair);
    settings.set_crosshair(false);
    assert!(!settings.stages_icons(true));
    settings.set_hud_mode(HudMode::Classic);
    assert!(settings.stages_icons(true) && !settings.stages_icons(false));
    settings.set_brightness(0);
    assert_eq!((settings.gamma, settings.crosshair), (0, false));
    settings.set_brightness(3);
    assert!(settings.gamma > 0);
}

#[test]
fn water_bends_the_view() {
    let (straight, plain) = frame_view(camera(0), None);
    assert_eq!(straight, camera(0));
    assert_eq!((plain.offset_x, plain.offset_y, plain.plane), (160 << 16, 120 << 16, 160));
    let warp = WaterWarp { roll: 5, offset_x: -2, offset_y: 3, projection_plane: 150 };
    let (bent, wobbling) = frame_view(camera(0), Some(warp));
    assert_eq!(bent.angles.z, 8);
    assert_eq!((wobbling.offset_x, wobbling.offset_y, wobbling.plane), (158 << 16, 123 << 16, 150));
}

const HEADER: RenderCellHeader = RenderCellHeader {
    dictionary_bytes: 4,
    max_cell_bytes: 16,
    max_section_bytes: 64,
    visibility_row_bytes: 1,
    packet_pool_budget_bytes: 100,
    max_packet_pool_bytes: 80,
};

const SIZES: RecordSizes = RecordSizes { cell: 4, command: 2, packet: 10 };

#[test]
fn cells_are_looked_up_in_their_section() {
    let window = CellWindow {
        section: 2,
        cell_offset: 3,
        source_offset: 1000,
        section_bytes: 20,
        cache_start: 20,
        total_bytes: 40,
        read: true,
    };
    let location = Some((2, 3));
    assert_eq!(cell_window(HEADER, location, Some((1000, 20)), None), Ok(window));
    assert_eq!(
        cell_window(HEADER, location, Some((1000, 20)), Some(2)),
        Ok(CellWindow { read: false, ..window })
    );
    assert_eq!(
        cell_window(HEADER, location, Some((1000, 65)), None),
        Err(SectionError::TooLarge)
    );
    assert_eq!(cell_window(HEADER, None, Some((0, 20)), None), Err(SectionError::Format));
    assert_eq!(cell_window(HEADER, location, None, None), Err(SectionError::Format));

    let mut tail: Vec<u8> = (0..40).collect();
    tail[23] = 7;
    tail[24] = 0;
    tail[25] = 2;
    tail[26] = 0;
    let before = tail.clone();
    assert_eq!(gather_cell(&mut tail, window, HEADER, SIZES, 8), Err(SectionError::Format));
    assert_eq!(tail, before);
    // Four bytes, two rows of one byte and two commands of two bytes.
    assert_eq!(gather_cell(&mut tail, window, HEADER, SIZES, 7), Ok(14));
    assert_eq!(tail[..4], before[..4]);
    assert_eq!(tail[4..14], before[23..33]);
    assert_eq!(tail[20..], before[20..]);
    let huge = RenderCellHeader { visibility_row_bytes: usize::MAX, ..HEADER };
    assert_eq!(gather_cell(&mut tail, window, huge, SIZES, 7), Err(SectionError::Format));
    let wide = RecordSizes { command: usize::MAX, ..SIZES };
    assert_eq!(gather_cell(&mut tail, window, HEADER, wide, 7), Err(SectionError::Format));
}

#[test]
fn cells_ask_for_packet_memory() {
    let faces = vec![
        DictionaryFace { plane: 0, material: 0, quad_count: 2 },
        DictionaryFace { plane: 1, material: 0, quad_count: 3 },
    ];
    assert_eq!(load_render_dictionary(0, 0, &faces, 2, 1), Ok(()));
    assert_eq!(load_render_dictionary(1, 0, &faces, 2, 1), Err(SectionError::Format));
    assert_eq!(load_render_dictionary(0, 1, &faces, 2, 1), Err(SectionError::Format));
    assert_eq!(load_render_dictionary(0, 0, &faces, 1, 1), Err(SectionError::Format));
    assert_eq!(load_render_dictionary(0, 0, &faces, 2, 0), Err(SectionError::Format));

    let objects = vec![DictionaryObject { first_face: 0, face_count: 2 }];
    let both = CellCommand { object: 0, template_faces: 0b11 };
    let second = CellCommand { object: 0, template_faces: 0b10 };
    assert_eq!(packet_pool_bytes(HEADER, SIZES, &vec![both, second], &objects, &faces), Ok(80));
    assert_eq!(
        packet_pool_bytes(HEADER, SIZES, &vec![both, both], &objects, &faces),
        Err(SectionError::TooLarge)
    );
    let wide = RecordSizes { packet: usize::MAX, ..SIZES };
    assert_eq!(
        packet_pool_bytes(HEADER, wide, &vec![both], &objects, &faces),
        Err(SectionError::TooLarge)
    );
    let unknown = CellCommand { object: 1, template_faces: 0 };
    assert_eq!(
        packet_pool_bytes(HEADER, SIZES, &vec![unknown], &objects, &faces),
        Err(SectionError::Format)
    );
    let loaded = |decoded: u16| {
        let window = CellWindow {
            section: 2,
            cell_offset: 3,
            source_offset: 0,
            section_bytes: 20,
            cache_start: 20,
            total_bytes: 40,
            read: true,
        };
        load_render_cell(window, HEADER, SIZES, 7, 14, decoded, &vec![both], &objects, &faces)
    };
    let section = GatheredRenderSection { section: 2, leaf: 7, payload_bytes: 14 };
    assert_eq!(loaded(7), Ok((section, 50)));
    assert_eq!(loaded(8), Err(SectionError::Format));
}
