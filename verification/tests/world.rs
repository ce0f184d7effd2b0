use quake_psx::cell::leaf_invariant_facing;
use quake_psx::cell::retain_cell_faces;
use quake_psx::cell::VISIBLE_INVARIANT_FRONT_BIT;
use quake_psx::cell::VISIBLE_LIQUID_BIT;
use quake_psx::census::census_face_blocks;
use quake_psx::census::census_face_blocks_for;
use quake_psx::census::census_projection_batches;
use quake_psx::census::census_world_batch;
use quake_psx::census::emit_renderer_census;
use quake_psx::census::select_frame_faces_census;
use quake_psx::census::selected_fingerprints;
use quake_psx::census::BatchRequest;
use quake_psx::census::BlockCensus;
use quake_psx::census::CensusLine;
use quake_psx::census::ProjectionCensus;
use quake_psx::census::RendererCensus;
use quake_psx::census::SelectionCensus;
use quake_psx::census::TopologyCensus;
use quake_psx::frame::count_near_faces;
use quake_psx::selection::aabb_reaches_behind_near_gte;
use quake_psx::selection::add_normal;
use quake_psx::selection::flag_near_faces;
use quake_psx::selection::flag_near_faces_gte;
use quake_psx::selection::frustum_normals;
use quake_psx::selection::frustum_plane;
use quake_psx::selection::rebuild_visible_face_blocks;
use quake_psx::selection::rebuild_visible_face_super_blocks;
use quake_psx::selection::select_frame_faces;
use quake_psx::selection::select_frame_faces_blocked;
use quake_psx::selection::select_frame_faces_blocked_plane_indexed;
use quake_psx::selection::select_frame_faces_hierarchical;
use quake_psx::selection::select_frame_faces_run_cached;
use quake_psx::selection::subtract_normal;
use quake_psx::selection::FaceSample;
use quake_psx::selection::FrameView;
use quake_psx::selection::NearPlane;
use quake_psx::selection::PlaneFacingCache;
use quake_psx::selection::VisibleFaceBlock;
use quake_psx::selection::NEAR_FACE_BIT;
use quake_psx::selection::WATER_BLEND_FACE_BIT;
use quake_psx::slab_model::SubdivisionCacheFrame;
use quake_psx::slab_model::SubdivisionRequest;
use quake_psx::visibility::decompress_visibility;
use quake_psx::visibility::merge_visibility;
use quake_psx::visibility::water_face_sample;
use quake_psx::visibility::water_portal;
use quake_psx::visibility::water_sample_points;
use quake_psx::visibility::VisibilityStep;
use quake_psx::visibility::VisibleSet;
use quake_psx::visibility::WaterPortal;
use quake_psx::visibility::WaterSides;
use quake_psx::world::decode_face;
use quake_psx::world::face_bounds;
use quake_psx::world::sign_bits_of;
use quake_psx::world::Contents;
use quake_psx::world::Face;
use quake_psx::world::FaceFlags;
use quake_psx::world::Leaf;
use quake_psx::world::Plane;
use quake_psx::world::TextureFlags;
use quake_psx::world::TextureInfo;
use quake_psx::world::Vec3I16;
use quake_psx::world::Vec3I32;
use quake_psx::world::VisibleFace;
use quake_psx::world::WorldMap;
use quake_psx::world_pass::brush_face;
use quake_psx::world_pass::clut_liquid;
use quake_psx::world_pass::clut_texture;
use quake_psx::world_pass::model_camera;
use quake_psx::world_pass::packet_capacity;
use quake_psx::world_pass::selected_face;
use quake_psx::world_pass::set_brightness_level;
use quake_psx::world_pass::window_material;
use quake_psx::world_pass::BrushFace;
use quake_psx::world_pass::FaceOffer;
use quake_psx::world_pass::FaceStep;
use quake_psx::world_pass::Submitted;
use quake_psx::world_pass::WorldPass;
use quake_psx::world_pass::BATCH_MAX_VERTICES;
use quake_psx::world_pass::NO_SOURCE;

fn units(x: i16, y: i16, z: i16) -> Vec3I16 {
    Vec3I16 { x, y, z }
}

fn point(x: i32, y: i32, z: i32) -> Vec3I32 {
    Vec3I32 { x, y, z }
}

const BAKED: FaceFlags = FaceFlags { backside: false, baked_uv: true, baked_light: true };

const SOLID: TextureFlags =
    TextureFlags { sky: false, layered_sky: false, liquid: false, invisible: false, null: false };

fn texture(flags: TextureFlags) -> TextureInfo {
    TextureInfo { width: 64, height: 64, atlas_x: 8, atlas_y: 16, texture_page: 3, flags }
}

fn face(plane: u16, first_vertex: u16, texture: u16) -> Face {
    Face {
        plane,
        first_vertex,
        texture,
        vertex_count: 3,
        flags: BAKED,
        light_style_0: 0,
        light_style_1: 0,
    }
}

fn leaf(contents: Contents, offset: i32, first: u32, count: u32) -> Leaf {
    Leaf {
        contents,
        visibility_offset: offset,
        first_mark_surface: first,
        mark_surface_count: count,
    }
}

/// Four leaves, the first of which is outside of everything. The two rows of
/// visibility see leaves 1 and 2, and leaf 3.
fn map() -> WorldMap {
    WorldMap {
        generation: 1,
        leaves: vec![
            leaf(Contents::Other, -1, 0, 0),
            leaf(Contents::Empty, 0, 0, 2),
            leaf(Contents::Empty, 0, 1, 2),
            leaf(Contents::Water, 1, 3, 1),
        ],
        mark_surfaces: vec![2, 0, 1, 3],
        visibility: vec![0b0000_0011, 0b0000_0100],
        visible_leaves: 3,
        faces: vec![face(0, 0, 0), face(1, 3, 0), face(0, 6, 0), face(1, 0, 1)],
        planes: vec![
            Plane { normal: units(0, 0, 4096), kind: 2, distance: 0 },
            Plane { normal: units(-4096, 0, 0), kind: 3, distance: 0 },
        ],
        corners: vec![0, 1, 2, 2, 3, 4, 0, 2, 4],
        positions: vec![
            units(0, 0, 0),
            units(10, 0, 0),
            units(0, 20, 5),
            units(-30, 0, 0),
            units(0, 0, -40),
        ],
    }
}

#[test]
fn rows_of_visibility_are_unpacked() {
    let mut row = vec![9; 4];
    assert!(decompress_visibility(&vec![1, 0, 2, 7], 0, &mut row));
    assert_eq!(row, vec![1, 0, 0, 7]);
    assert!(!decompress_visibility(&vec![1, 0], 0, &mut vec![0; 4]));
    assert!(decompress_visibility(&vec![5, 1, 2], 1, &mut vec![0; 2]));
}

#[test]
fn two_rows_are_united() {
    let mut row = vec![0b01, 0, 0b100, 0];
    assert!(merge_visibility(&vec![0b10, 0, 2, 0b1], 0, &mut row));
    assert_eq!(row, vec![0b11, 0, 0b100, 0b1]);
}

#[test]
fn every_index_of_a_map_is_checked() {
    assert!(map().is_valid());
    let broken = |breaks: fn(&mut WorldMap)| {
        let mut broken = map();
        breaks(&mut broken);
        !broken.is_valid()
    };
    assert!(broken(|map| map.leaves[2].mark_surface_count = 9));
    assert!(broken(|map| map.leaves[2].first_mark_surface = u32::MAX));
    assert!(broken(|map| map.mark_surfaces[1] = 4));
    assert!(broken(|map| map.faces[1].plane = 2));
    assert!(broken(|map| map.faces[1].vertex_count = 2));
    assert!(broken(|map| map.faces[1].first_vertex = 7));
    assert!(broken(|map| map.corners[8] = 5));
}

#[test]
fn a_box_holds_every_corner() {
    let map = map();
    assert_eq!(face_bounds(&map, map.faces[0]), (units(0, 0, 0), units(10, 20, 5)));
    assert_eq!(face_bounds(&map, map.faces[1]), (units(-30, 0, -40), units(0, 20, 5)));
    let decoded = decode_face(&map, 1);
    assert_eq!(decoded.bounds.surface_index, 1);
    assert_eq!(decoded.plane.sign_bits, 1);
    assert_eq!(sign_bits_of(units(-1, 0, -1)), 5);
}

#[test]
fn visible_faces_ascend() {
    let map = map();
    let mut set = VisibleSet::new();
    assert!(set.mark_visible_faces(&map, Some(1), None));
    let listed: Vec<u16> =
        set.visible_faces.iter().map(|entry| entry.bounds.surface_index).collect();
    assert_eq!(listed, vec![0, 1, 2]);
    assert!(set.point_visible(1));
    assert!(set.point_visible(2));
    assert!(!set.point_visible(3));
    assert!(set.mark_visible_faces(&map, Some(1), Some(3)));
    assert_eq!(set.visible_faces.len(), 4);
    assert!(set.point_visible(3));
}

#[test]
fn a_camera_outside_sees_nothing() {
    let map = map();
    let mut set = VisibleSet::new();
    assert!(!set.mark_visible_faces(&map, None, None));
    assert!(!set.mark_visible_faces(&map, Some(0), None));
}

#[test]
fn rows_that_make_no_sense_are_refused() {
    let whole = map();
    let mut set = VisibleSet::new();
    assert!(set.mark_visible_faces(&whole, Some(1), None));
    // A row that sees more leaves than there are.
    let mut short = map();
    short.generation = 2;
    short.visible_leaves = 6;
    short.visibility = vec![0b0010_0001, 0b0000_0100];
    let kept = set.cached_visibility;
    assert!(kept.is_some());
    assert!(!set.mark_visible_faces(&short, Some(1), None));
    // The list is gone, and the key of the leaf before it still stands.
    assert_eq!((set.cached_visibility, set.visible_faces.len()), (kept, 0));
    assert!(set.mark_visible_faces(&whole, Some(1), None));
    assert!(set.visible_faces.is_empty());
    assert!(set.mark_visible_faces(&whole, Some(2), None));
    assert_eq!(set.visible_faces.len(), 3);
    // A row that ends too soon, a leaf without a row, and a portal to nowhere.
    let mut cut = map();
    cut.leaves[1].visibility_offset = 2;
    assert!(!VisibleSet::new().mark_visible_faces(&cut, Some(1), None));
    cut.leaves[1].visibility_offset = -1;
    assert!(!VisibleSet::new().mark_visible_faces(&cut, Some(1), None));
    assert!(!VisibleSet::new().mark_visible_faces(&whole, Some(1), Some(9)));
}

#[test]
fn water_is_seen_through_when_asked_for() {
    let map = map();
    let mut set = VisibleSet::new();
    assert!(matches!(set.begin_visibility(&map, Some(1), true), VisibilityStep::FindPortal));
    assert!(set.finish_visibility(&map, Some(1), Some(WaterPortal { plane: 1, leaf: 3 })));
    assert_eq!(set.active_water_plane, 1);
    assert!(set.point_visible(3));
    assert!(matches!(set.begin_visibility(&map, Some(1), false), VisibilityStep::Opaque));
    let mut lost = VisibleSet::new();
    assert!(matches!(lost.begin_visibility(&map, None, true), VisibilityStep::Refused));
}

#[test]
fn a_failed_union_is_rebuilt_opaque() {
    // The row behind the portal sees a leaf that is not there.
    let mut torn = map();
    torn.visible_leaves = 6;
    torn.visibility.push(0b0010_0001);
    torn.leaves[3].visibility_offset = 2;
    let mut opaque = VisibleSet::new();
    assert!(opaque.finish_visibility(&torn, Some(1), None));
    for leaf in [3, 9, u16::MAX - 1] {
        let mut set = VisibleSet::new();
        assert!(matches!(set.begin_visibility(&torn, Some(1), true), VisibilityStep::FindPortal));
        assert!(set.finish_visibility(&torn, Some(1), Some(WaterPortal { plane: 1, leaf })));
        assert_eq!(set.active_water_plane, -1);
        assert_eq!(set.visible_faces, opaque.visible_faces);
        assert_eq!(set.cached_visibility, opaque.cached_visibility);
    }
    assert_eq!(opaque.visible_faces.len(), 3);
}

#[test]
fn the_portal_leads_to_the_other_side() {
    let map = map();
    let textures = vec![texture(SOLID), texture(TextureFlags { liquid: true, ..SOLID })];
    let entries: Vec<VisibleFace> = (0..4).map(|index| decode_face(&map, index)).collect();
    let nowhere = WaterSides { positive: None, negative: None };
    let mut sides = vec![nowhere, nowhere, nowhere, nowhere];
    sides[3] = WaterSides { positive: Some(1), negative: Some(3) };
    let portal = water_portal(&map, &textures, &entries, &sides, Some(1));
    assert_eq!(portal.map(|found| (found.plane, found.leaf)), Some((1, 3)));
    let below = water_portal(&map, &textures, &entries, &sides, Some(3));
    assert_eq!(below.map(|found| found.leaf), Some(1));
    assert!(water_portal(&map, &textures, &entries, &sides, None).is_none());
}

#[test]
fn a_sample_lies_in_the_face() {
    let sample = water_face_sample(&map(), 0);
    // A third of the sum of the corners.
    assert_eq!(sample, point(10 * 1365, 20 * 1365, 5 * 1365));
    let (above, below) = water_sample_points(&map(), decode_face(&map(), 0));
    assert_eq!(above, point(sample.x, sample.y, sample.z + 8 * 4096));
    assert_eq!(below, point(sample.x, sample.y, sample.z - 8 * 4096));
}

fn view(count: u16, outside: fn(usize) -> bool) -> FrameView {
    let map = map();
    let faces: Vec<VisibleFace> = (0..count)
        .map(|index| {
            let mut entry = decode_face(&map, 0);
            entry.face.plane = index % 3;
            entry.face.flags.backside = index % 4 == 3;
            entry.face.material = index % 2;
            entry.bounds.surface_index = index;
            entry
        })
        .collect();
    FrameView {
        samples: (0..count as usize)
            .map(|index| FaceSample { terms: point(0, 0, 0), outside: outside(index) })
            .collect(),
        visible_faces: faces,
        active_textures: vec![texture(SOLID), texture(TextureFlags { liquid: true, ..SOLID })],
        origin: point(0, 0, 4096),
        water_plane: 2,
    }
}

#[test]
fn faces_are_selected_by_texture_side_and_frustum() {
    let view = view(12, |index| index == 4);
    // Face 4 is out of view. Faces 3, 7 and 11 look away; 11 is on the water.
    let water = WATER_BLEND_FACE_BIT;
    assert_eq!(
        select_frame_faces(&view),
        vec![0, 1, 2, 5 | water, 6, 8, 9, 10, 11 | water]
    );
    let mut hidden = view;
    hidden.active_textures[0].flags.null = true;
    assert_eq!(select_frame_faces(&hidden), vec![1, 5 | water, 9, 11 | water]);
}

#[test]
fn every_selection_finds_the_same_faces() {
    let view = view(70, |index| (16..32).contains(&index) || index % 9 == 0);
    let expected = select_frame_faces(&view);
    let blocks = vec![false, true, false, false, false];
    assert_eq!(select_frame_faces_blocked(&view, &blocks), expected);
    assert_eq!(select_frame_faces_hierarchical(&view, &vec![false, false], &blocks), expected);
    assert_eq!(select_frame_faces_run_cached(&view), expected);
    let mut planes = PlaneFacingCache::new();
    planes.prepare(1, 3);
    assert_eq!(select_frame_faces_blocked_plane_indexed(&view, &blocks, &mut planes), expected);
    let (counted, census) = select_frame_faces_census(&view);
    assert_eq!(counted, expected);
    assert_eq!(census.pvs_faces, 70);
    assert_eq!(census.selected_faces as usize, expected.len());
    assert_eq!(
        census.policy_rejects + census.backface_rejects + census.frustum_rejects
            + census.selected_faces,
        70
    );
}

#[test]
fn blocks_hold_their_faces() {
    let view = view(40, |_| false);
    let blocks = rebuild_visible_face_blocks(&view.visible_faces);
    assert_eq!(blocks.len(), 3);
    assert_eq!((blocks[2].mins, blocks[2].maxs), (units(0, 0, 0), units(10, 20, 5)));
    assert_eq!(rebuild_visible_face_super_blocks(&blocks).len(), 1);
    let census = census_face_blocks_for(&view, 16, &vec![true, false, true]);
    assert_eq!((census.groups, census.rejected_groups, census.rejected_faces), (3, 2, 24));
    let sizes = census_face_blocks(
        &view,
        &vec![false; 10],
        &vec![true; 5],
        &vec![true, false, true],
    );
    assert_eq!([sizes[0].groups, sizes[1].groups, sizes[2].groups], [10, 5, 3]);
    assert_eq!([sizes[0].rejected_groups, sizes[1].rejected_groups], [0, 5]);
    assert_eq!(sizes[2], census);
}

#[test]
fn faces_behind_the_near_plane_are_flagged() {
    let map = map();
    let faces: Vec<VisibleFace> = (0..2).map(|index| decode_face(&map, index)).collect();
    // Looking along x from the origin: eight units ahead is the plane.
    let near = NearPlane::new(point(4096, 0, 0), point(-20 * 4096, 0, 0));
    let mut selected = vec![0, 1 | WATER_BLEND_FACE_BIT];
    flag_near_faces(&faces, &mut selected, near);
    assert_eq!(selected, vec![0, 1 | WATER_BLEND_FACE_BIT | NEAR_FACE_BIT]);
    assert_eq!(count_near_faces(&selected), 1);
    let mut again = vec![0, 1];
    flag_near_faces_gte(&faces, &mut again, near.as_aabb_clip_plane());
    assert_eq!(again, vec![0, 1 | NEAR_FACE_BIT]);
    assert!(aabb_reaches_behind_near_gte(
        units(-30, 0, 0),
        units(0, 0, 0),
        near.as_aabb_clip_plane()
    ));
}

#[test]
fn normals_saturate() {
    assert_eq!(add_normal(units(1, 2, i16::MAX), units(1, 1, 1)), units(2, 3, i16::MAX));
    assert_eq!(subtract_normal(units(1, 2, i16::MIN), units(1, 1, 1)), units(0, 1, i16::MIN));
    let normals = frustum_normals(point(4096, 0, 0), point(0, -4096, 0), point(0, 0, 4096));
    assert_eq!(normals.len(), 4);
    let plane = frustum_plane(units(-5, 6, 0), point(1, 2, 3));
    assert_eq!(plane.signbits, 1);
}

#[test]
fn settled_faces_are_kept_or_dropped() {
    let map = map();
    let up = decode_face(&map, 0);
    let above = VisibleFaceBlock { mins: units(0, 0, 10), maxs: units(9, 9, 90) };
    let below = VisibleFaceBlock { mins: units(0, 0, -90), maxs: units(9, 9, -10) };
    let across = VisibleFaceBlock { mins: units(0, 0, -90), maxs: units(9, 9, 10) };
    assert_eq!(leaf_invariant_facing(up.plane, false, above), Some(true));
    assert_eq!(leaf_invariant_facing(up.plane, true, above), Some(false));
    assert_eq!(leaf_invariant_facing(up.plane, false, below), Some(false));
    assert_eq!(leaf_invariant_facing(up.plane, false, across), None);

    let textures = vec![
        texture(SOLID),
        texture(TextureFlags { liquid: true, ..SOLID }),
        texture(TextureFlags { invisible: true, ..SOLID }),
    ];
    let mut water = up;
    water.face.material = 1;
    let mut unseen = up;
    unseen.face.material = 2;
    let mut away = up;
    away.face.flags.backside = true;
    let mut entries = vec![up, water, unseen, away];
    retain_cell_faces(&mut entries, &textures, None, true);
    assert_eq!(entries.len(), 4);
    retain_cell_faces(&mut entries, &textures, Some(above), true);
    let kept: Vec<u16> = entries.iter().map(|entry| entry.bounds.surface_index).collect();
    assert_eq!(kept, vec![VISIBLE_INVARIANT_FRONT_BIT, VISIBLE_LIQUID_BIT]);
}

#[test]
fn fingerprints_depend_on_order() {
    let forwards = selected_fingerprints(&vec![1, 2, 3]);
    let backwards = selected_fingerprints(&vec![3, 2, 1]);
    assert_ne!(forwards.0, backwards.0);
    assert_ne!(forwards.1, backwards.1);
    assert_eq!(forwards, selected_fingerprints(&vec![1, 2, 3]));
}

#[test]
fn census_lines_are_text() {
    let mut line = CensusLine::new();
    line.push_ascii("census");
    line.push_field(0);
    line.push_field(4096);
    let text: String = line.bytes.iter().map(|byte| *byte as char).collect();
    assert_eq!(text.to_uppercase(), "CENSUS,0,1000");
}

const NO_BLOCKS: BlockCensus =
    BlockCensus { groups: 0, rejected_groups: 0, rejected_faces: 0, aabb_tests_saved: 0 };

const NO_TOPOLOGY: TopologyCensus = TopologyCensus {
    surfaces: 0,
    root_triangles: 0,
    surface_clip_rejects: 0,
    depth_rejects: 0,
    level0_root_triangles: 0,
    level1_root_triangles: 0,
    level2_root_triangles: 0,
    paired_level0_packets: 0,
    level1_underdraw_roots: 0,
    level2_underdraw_roots: 0,
    theoretical_packets: 0,
    theoretical_hardware_triangles: 0,
    theoretical_packet_bytes: 0,
    topology_hash_a: 0,
    topology_hash_b: 0,
};

fn blank_census() -> RendererCensus {
    RendererCensus {
        selection: SelectionCensus::default(),
        near_faces: 0,
        blocks: [NO_BLOCKS; 3],
        projection: ProjectionCensus::default(),
        visibility_rebuilt: 0,
        leaf: 0,
        portal_leaf: 0,
        selected_hash_a: 0,
        selected_hash_b: 0,
        ordinary_output_packet_bytes: 0,
        ordinary_output_packets: 0,
        ordinary_output_hardware_triangles: 0,
        topology: NO_TOPOLOGY,
        subdivision_slab_caches: [SubdivisionCacheFrame::default(); 4],
        packet_arena_words: 0,
        emitted_packets: 0,
        hardware_triangles: 0,
        packet_overflow_avoided: 0,
    }
}

#[test]
fn a_census_is_one_line() {
    let mut census = blank_census();
    census.leaf = 31;
    census.selected_hash_b = 0xdead_beef;
    let line = emit_renderer_census(2, &census);
    let text: String = line.iter().map(|byte| *byte as char).collect();
    assert!(text.starts_with("QRC5,2,1"));
    assert!(text.to_uppercase().starts_with("QRC5,2,1F,0,0"));
    assert!(text.to_uppercase().ends_with(",0,DEADBEEF"));
}

#[test]
fn clipped_faces_are_not_cached() {
    let request = SubdivisionRequest {
        material: 1,
        root: 0,
        level: 1,
        underdraw: 0,
        otz: 5,
        packet_bytes: 40,
        invariant_bytes: 10,
    };
    let requests = vec![
        BatchRequest { batch_surface: 0, request },
        BatchRequest { batch_surface: 1, request },
    ];
    let mut census = blank_census();
    let cacheable =
        census_world_batch(&mut census, &requests, &vec![NO_SOURCE, 77], 25, SENT);
    assert_eq!(cacheable, vec![(77, request)]);
    assert_eq!(census.ordinary_output_packet_bytes, 100);
    assert_eq!((census.ordinary_output_packets, census.ordinary_output_hardware_triangles), (2, 3));
}

#[test]
fn shared_corners_are_projected_once() {
    let map = map();
    let faces: Vec<VisibleFace> = (0..3).map(|index| decode_face(&map, index)).collect();
    let textures = vec![texture(SOLID), texture(SOLID)];
    let census = census_projection_batches(&map, &faces, &textures, &vec![0, 1, 2], &vec![]);
    assert_eq!((census.candidate_corners, census.unique_positions, census.batches), (9, 5, 1));
}

fn offer(corner_count: u8) -> FaceOffer {
    FaceOffer {
        corner_count,
        near: false,
        windowed: false,
        alone: false,
        layered_sky: false,
        texture: texture(SOLID),
        source_surface: 7,
    }
}

const SENT: Submitted = Submitted { words: 10, packets: 2, hardware_triangles: 3 };

#[test]
fn faces_join_a_batch_until_it_is_full() {
    let mut pass = WorldPass::new(100_000);
    let mut placed = 0;
    loop {
        match pass.offer(offer(4)) {
            FaceStep::Draw { first } => {
                assert_eq!(first, placed * 4);
                pass.placed(offer(4), 4, 9);
                placed += 1;
            },
            FaceStep::Flush => break,
            other => panic!("{:?}", other),
        }
    }
    assert_eq!(placed, BATCH_MAX_VERTICES / 4);
    pass.flushed(SENT);
    assert_eq!((pass.next, pass.stats.packets, pass.surfaces.len()), (10, 2, 0));
    assert_eq!(pass.stats.visible_faces as usize, placed);
    assert!(matches!(pass.offer(offer(4)), FaceStep::Draw { first: 0 }));
}

#[test]
fn a_full_arena_stops_the_pass() {
    let mut pass = WorldPass::new(400);
    assert!(matches!(pass.offer(offer(3)), FaceStep::Draw { .. }));
    pass.placed(offer(3), 3, 9);
    assert_eq!(pass.offer(offer(3)), FaceStep::Flush);
    pass.flushed(Submitted { words: 200, ..SENT });
    assert_eq!(pass.offer(offer(3)), FaceStep::Stop);
    assert!(pass.stats.packet_overflow_avoided);
}

#[test]
fn windows_and_sky_are_drawn_apart() {
    let mut pass = WorldPass::new(100_000);
    pass.placed(offer(3), 3, 9);
    let sky = FaceOffer { layered_sky: true, ..offer(4) };
    assert_eq!(pass.offer(sky), FaceStep::Skip);
    assert_eq!(pass.layered_sky_texture, Some(sky.texture));
    assert!(pass.static_eligible);
    let water = FaceOffer { windowed: true, ..offer(4) };
    assert_eq!(pass.offer(water), FaceStep::Flush);
    assert!(!pass.static_eligible);
    pass.flushed(SENT);
    assert_eq!(pass.offer(water), FaceStep::Draw { first: 0 });
    pass.placed_alone(water, 4, SENT);
    assert_eq!((pass.next, pass.stats.packets, pass.stats.visible_faces), (20, 4, 3));
    let near = FaceOffer { near: true, alone: true, ..offer(4) };
    assert_eq!(pass.offer(near), FaceStep::Draw { first: 0 });
    pass.placed_alone(near, 2, SENT);
    assert_eq!((pass.next, pass.stats.visible_faces), (20, 3));
}

#[test]
fn clipped_faces_have_no_source() {
    let mut pass = WorldPass::new(100_000);
    let near = FaceOffer { near: true, ..offer(3) };
    pass.placed(near, 4, 9);
    pass.placed(offer(3), 3, 9);
    let sources: Vec<u16> = pass.surfaces.iter().map(|surface| surface.source_surface).collect();
    assert_eq!(sources, vec![NO_SOURCE, 7]);
    assert_eq!(pass.surfaces[1].first_vertex, 4);
}

#[test]
fn entries_are_taken_apart() {
    let map = map();
    let faces: Vec<VisibleFace> = (0..4).map(|index| decode_face(&map, index)).collect();
    let textures = vec![texture(SOLID), texture(TextureFlags { liquid: true, ..SOLID })];
    let near = selected_face(2 | NEAR_FACE_BIT, &faces, &textures, &vec![], true);
    assert!(near.offer.near && near.offer.alone && !near.offer.windowed && !near.water_blend);
    assert_eq!((near.visible_index, near.offer.source_surface), (2, 2));
    let water = selected_face(3 | WATER_BLEND_FACE_BIT, &faces, &textures, &vec![], true);
    assert!(water.offer.windowed && water.water_blend && !water.offer.alone);
    assert!(!selected_face(2 | NEAR_FACE_BIT, &faces, &textures, &vec![], false).offer.alone);
}

#[test]
fn brush_faces_are_drawn_from_their_front() {
    let map = map();
    let textures = vec![texture(SOLID), texture(TextureFlags { sky: true, ..SOLID })];
    let above = point(0, 0, 4096);
    let rest = point(0, 0, 0);
    assert!(matches!(brush_face(&map, &textures, 0, true, above, rest), BrushFace::Offer(face) if face.near));
    assert_eq!(brush_face(&map, &textures, 0, true, point(0, 0, -4096), rest), BrushFace::Skip);
    assert_eq!(brush_face(&map, &textures, 3, true, above, rest), BrushFace::Skip);
    assert_eq!(brush_face(&map, &textures, 9, true, above, rest), BrushFace::Missing);
    assert_eq!(brush_face(&map, &vec![], 0, true, above, rest), BrushFace::Missing);
    assert_eq!(model_camera(point(i32::MIN, 5, 5), point(1, 2, 3)), point(i32::MIN, 3, 2));
}

#[test]
fn brightness_selects_the_palette() {
    assert_eq!(set_brightness_level(0), 0);
    assert_eq!(set_brightness_level(5), 5);
    assert_eq!(set_brightness_level(200), 5);
    assert_eq!(clut_texture(1) - clut_texture(0), 64);
    assert_eq!(clut_liquid(2) - clut_liquid(0), 128);
    assert_eq!(window_material(texture(SOLID), false, 1), (3, clut_texture(1)));
    assert_eq!(window_material(texture(SOLID), true, 1), (0x63, clut_liquid(1)));
    assert!(packet_capacity(10, 20, 10));
    assert!(!packet_capacity(10, 20, 11));
    assert!(!packet_capacity(30, 20, 0));
}
