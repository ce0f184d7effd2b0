//! Diagnostic counts of a frame's structure, and the line they are logged as.

use vstd::prelude::*;
use vstd::string::*;

use crate::bits::{rotate_left, rotated_left};
use crate::light::{dynamic_lights_miss, lights_reach, DynamicLight};
use crate::selection::{groups_of, FrameView, FRAME_FACE_INDEX_MASK, NEAR_FACE_BIT};
use crate::slab_model::{SubdivisionCacheFrame, SubdivisionRequest};
use crate::world::{TextureInfo, VisibleFace, WorldMap};
use crate::world_pass::{Submitted, BATCH_MAX_SURFACES, BATCH_MAX_VERTICES, NO_SOURCE};

verus! {

/// Counts of one selection pass.
#[derive(Copy, Clone, Debug, PartialEq, Eq, Structural)]
pub struct SelectionCensus {
    pub pvs_faces: u32,
    pub policy_rejects: u32,
    pub backface_rejects: u32,
    pub frustum_rejects: u32,
    pub selected_faces: u32,
    pub water_blend_faces: u32,
    pub plane_tests: u32,
    pub plane_run_tests: u32,
    pub plane_tests_saved: u32,
    pub max_plane_run: u32,
}

impl Default for SelectionCensus {
    fn default() -> (census: Self)
        ensures
            census == (SelectionCensus {
                pvs_faces: 0,
                policy_rejects: 0,
                backface_rejects: 0,
                frustum_rejects: 0,
                selected_faces: 0,
                water_blend_faces: 0,
                plane_tests: 0,
                plane_run_tests: 0,
                plane_tests_saved: 0,
                max_plane_run: 0,
            }),
    {
        SelectionCensus {
            pvs_faces: 0,
            policy_rejects: 0,
            backface_rejects: 0,
            frustum_rejects: 0,
            selected_faces: 0,
            water_blend_faces: 0,
            plane_tests: 0,
            plane_run_tests: 0,
            plane_tests_saved: 0,
            max_plane_run: 0,
        }
    }
}

/// Close a run of faces on one plane that asked for `calls` facing tests.
pub fn finish_plane_run(census: &mut SelectionCensus, calls: u32)
    ensures
        *final(census) == if calls == 0 {
            *old(census)
        } else {
            SelectionCensus {
                plane_run_tests: old(census).plane_run_tests.wrapping_add(1),
                plane_tests_saved: old(census).plane_tests_saved.wrapping_add(
                    (calls - 1) as u32,
                ),
                max_plane_run: if old(census).max_plane_run >= calls {
                    old(census).max_plane_run
                } else {
                    calls
                },
                ..*old(census)
            }
        },
{
    if calls == 0 {
        return ;
    }
    census.plane_run_tests = census.plane_run_tests.wrapping_add(1);
    census.plane_tests_saved = census.plane_tests_saved.wrapping_add(calls - 1);
    if census.max_plane_run < calls {
        census.max_plane_run = calls;
    }
}

/// How many indices below `end` satisfy `holds`.
pub open spec fn count_below(holds: spec_fn(int) -> bool, end: nat) -> nat
    decreases end,
{
    if end == 0 {
        0
    } else {
        count_below(holds, (end - 1) as nat) + if holds(end - 1) {
            1nat
        } else {
            0
        }
    }
}

/// Facing tests of the faces on one plane, seen as runs.
pub struct PlaneRuns {
    /// Plane and side of the open run.
    pub key: Option<(u16, bool)>,
    /// Tests asked for in the open run.
    pub calls: int,
    /// Closed runs with a test, tests they would have saved, longest of them.
    pub tests: int,
    pub saved: int,
    pub longest: int,
}

pub open spec fn closed_run(runs: PlaneRuns) -> PlaneRuns {
    if runs.calls == 0 {
        runs
    } else {
        PlaneRuns {
            tests: runs.tests + 1,
            saved: runs.saved + runs.calls - 1,
            longest: if runs.longest >= runs.calls { runs.longest } else { runs.calls },
            ..runs
        }
    }
}

impl FrameView {
    /// The face is put to the facing test.
    pub open spec fn plane_tested(&self, i: int) -> bool {
        self.drawable(i) && !self.water_blend(i)
    }

    pub open spec fn plane_key(&self, i: int) -> (u16, bool) {
        (self.visible_faces@[i].face.plane, self.visible_faces@[i].face.flags.backside)
    }

    /// Runs after the first `end` faces.
    pub open spec fn plane_runs(&self, end: nat) -> PlaneRuns
        decreases end,
    {
        if end == 0 {
            PlaneRuns { key: None, calls: 0, tests: 0, saved: 0, longest: 0 }
        } else {
            let before = self.plane_runs((end - 1) as nat);
            let key = Some(self.plane_key(end - 1));
            let opened = if before.key == key {
                before
            } else {
                PlaneRuns { key, calls: 0, ..closed_run(before) }
            };
            if self.plane_tested(end - 1) {
                PlaneRuns { calls: opened.calls + 1, ..opened }
            } else {
                opened
            }
        }
    }

    pub open spec fn policy_rejects(&self, end: nat) -> nat {
        count_below(|i: int| !self.drawable(i), end)
    }

    pub open spec fn backface_rejects(&self, end: nat) -> nat {
        count_below(|i: int| self.plane_tested(i) && !self.facing(i), end)
    }

    pub open spec fn frustum_rejects(&self, end: nat) -> nat {
        count_below(|i: int| self.reaches_frustum(i) && self.samples@[i].outside, end)
    }

    pub open spec fn selected_count(&self, end: nat) -> nat {
        count_below(|i: int| self.selects(i), end)
    }

    pub open spec fn water_selected(&self, end: nat) -> nat {
        count_below(|i: int| self.selects(i) && self.water_blend(i), end)
    }

    pub open spec fn plane_tests(&self, end: nat) -> nat {
        count_below(|i: int| self.plane_tested(i), end)
    }
}

/// What the census of a whole selection holds.
pub open spec fn selection_census(view: FrameView) -> SelectionCensus {
    let end = view.visible_faces@.len();
    let runs = closed_run(view.plane_runs(end));
    SelectionCensus {
        pvs_faces: end as u32,
        policy_rejects: view.policy_rejects(end) as u32,
        backface_rejects: view.backface_rejects(end) as u32,
        frustum_rejects: view.frustum_rejects(end) as u32,
        selected_faces: view.selected_count(end) as u32,
        water_blend_faces: view.water_selected(end) as u32,
        plane_tests: view.plane_tests(end) as u32,
        plane_run_tests: runs.tests as u32,
        plane_tests_saved: runs.saved as u32,
        max_plane_run: runs.longest as u32,
    }
}

/// Every visible face is counted exactly once: rejected for one of three
/// reasons or selected.
pub proof fn census_accounts_for_every_face(view: FrameView, end: nat)
    ensures
        view.policy_rejects(end) + view.backface_rejects(end) + view.frustum_rejects(end)
            + view.selected_count(end) == end,
        view.water_selected(end) <= view.selected_count(end),
    decreases end,
{
    if end > 0 {
        census_accounts_for_every_face(view, (end - 1) as nat);
    }
}

proof fn runs_are_bounded(view: FrameView, end: nat)
    ensures
        0 <= view.plane_runs(end).calls,
        0 <= view.plane_runs(end).tests,
        0 <= view.plane_runs(end).saved,
        0 <= view.plane_runs(end).longest <= end,
        view.plane_runs(end).calls + view.plane_runs(end).tests + view.plane_runs(end).saved
            <= end,
    decreases end,
{
    if end > 0 {
        runs_are_bounded(view, (end - 1) as nat);
    }
}

proof fn counts_are_bounded(holds: spec_fn(int) -> bool, end: nat)
    ensures
        count_below(holds, end) <= end,
    decreases end,
{
    if end > 0 {
        counts_are_bounded(holds, (end - 1) as nat);
    }
}

/// The plain selection with every rejection and every facing test counted.
#[verifier::rlimit(40)]
pub fn select_frame_faces_census(view: &FrameView) -> (result: (Vec<u16>, SelectionCensus))
    requires
        view.valid(),
    ensures
        result.0@ == view.selected(),
        result.1 == selection_census(*view),
{
    let mut output: Vec<u16> = Vec::new();
    let mut census: SelectionCensus = SelectionCensus::default();
    census.pvs_faces = view.visible_faces.len() as u32;
    let mut run_key: Option<(u16, bool)> = None;
    let mut run_calls: u32 = 0;
    let mut index: usize = 0;
    while index < view.visible_faces.len()
        invariant
            view.valid(),
            index <= view.visible_faces@.len() <= FRAME_FACE_INDEX_MASK,
            output@ == view.selected_below(|i: int| false, index as nat),
            census.pvs_faces == view.visible_faces@.len(),
            census.policy_rejects == view.policy_rejects(index as nat),
            census.backface_rejects == view.backface_rejects(index as nat),
            census.frustum_rejects == view.frustum_rejects(index as nat),
            census.selected_faces == view.selected_count(index as nat),
            census.water_blend_faces == view.water_selected(index as nat),
            census.plane_tests == view.plane_tests(index as nat),
            run_key == view.plane_runs(index as nat).key,
            run_calls == view.plane_runs(index as nat).calls,
            census.plane_run_tests == view.plane_runs(index as nat).tests,
            census.plane_tests_saved == view.plane_runs(index as nat).saved,
            census.max_plane_run == view.plane_runs(index as nat).longest,
        decreases view.visible_faces@.len() - index,
    {
        proof {
            runs_are_bounded(*view, index as nat);
            counts_are_bounded(|i: int| !view.drawable(i), index as nat);
            counts_are_bounded(|i: int| view.plane_tested(i) && !view.facing(i), index as nat);
            counts_are_bounded(
                |i: int| view.reaches_frustum(i) && view.samples@[i].outside,
                index as nat,
            );
            counts_are_bounded(|i: int| view.selects(i), index as nat);
            counts_are_bounded(|i: int| view.selects(i) && view.water_blend(i), index as nat);
            counts_are_bounded(|i: int| view.plane_tested(i), index as nat);
        }
        let face: VisibleFace = view.visible_faces[index];
        let same_run: bool = match run_key {
            Some((plane, backside)) => plane == face.face.plane && backside
                == face.face.flags.backside,
            None => false,
        };
        if !same_run {
            finish_plane_run(&mut census, run_calls);
            run_key = Some((face.face.plane, face.face.flags.backside));
            run_calls = 0;
        }
        if !view.draws(index) {
            census.policy_rejects += 1;
            index += 1;
            continue;
        }
        let blend: bool = view.blends(index);
        let mut facing: bool = true;
        if !blend {
            census.plane_tests += 1;
            run_calls += 1;
            facing = view.faces_camera(index);
        }
        if !facing {
            census.backface_rejects += 1;
        } else if view.samples[index].outside {
            census.frustum_rejects += 1;
        } else {
            output.push(view.entry_for(index, blend));
            census.selected_faces += 1;
            if blend {
                census.water_blend_faces += 1;
            }
        }
        index += 1;
    }
    proof {
        runs_are_bounded(*view, index as nat);
    }
    finish_plane_run(&mut census, run_calls);
    (output, census)
}

/// What testing whole groups of faces would save.
#[derive(Copy, Clone, Debug, PartialEq, Eq, Structural)]
pub struct BlockCensus {
    pub groups: u32,
    pub rejected_groups: u32,
    pub rejected_faces: u32,
    pub aabb_tests_saved: u32,
}

pub open spec fn block_census(view: FrameView, size: int, outside: Seq<bool>) -> BlockCensus {
    let end = view.visible_faces@.len();
    BlockCensus {
        groups: groups_of(end as int, size) as u32,
        rejected_groups: count_below(|g: int| outside[g], outside.len()) as u32,
        rejected_faces: count_below(|i: int| outside[i / size], end) as u32,
        aabb_tests_saved: count_below(
            |i: int| outside[i / size] && view.reaches_frustum(i),
            end,
        ) as u32,
    }
}

/// Measure a test of the box around each `size` consecutive faces. A rejected
/// box skips all its faces; only those that would have been tested themselves
/// count as saved. `outside` tells which boxes lie outside the frustum.
pub fn census_face_blocks_for(view: &FrameView, size: usize, outside: &Vec<bool>) -> (census: BlockCensus)
    requires
        view.valid(),
        0 < size <= 16,
        outside@.len() == groups_of(view.visible_faces@.len() as int, size as int),
    ensures
        census == block_census(*view, size as int, outside@),
{
    let ghost n = view.visible_faces@.len() as int;
    assert(outside@.len() <= n) by (nonlinear_arith)
        requires
            outside@.len() == (n + size - 1) / (size as int),
            0 < size,
            0 <= n,
    ;
    let mut rejected_groups: u32 = 0;
    let mut group: usize = 0;
    while group < outside.len()
        invariant
            group <= outside@.len() <= FRAME_FACE_INDEX_MASK,
            rejected_groups == count_below(|g: int| outside@[g], group as nat),
            rejected_groups <= group,
        decreases outside@.len() - group,
    {
        if outside[group] {
            rejected_groups += 1;
        }
        group += 1;
    }
    let mut rejected_faces: u32 = 0;
    let mut saved: u32 = 0;
    let mut index: usize = 0;
    while index < view.visible_faces.len()
        invariant
            view.valid(),
            0 < size,
            outside@.len() == groups_of(view.visible_faces@.len() as int, size as int),
            index <= view.visible_faces@.len() <= FRAME_FACE_INDEX_MASK,
            rejected_faces == count_below(
                |i: int| outside@[i / size as int],
                index as nat,
            ),
            saved == count_below(
                |i: int| outside@[i / size as int] && view.reaches_frustum(i),
                index as nat,
            ),
            rejected_faces <= index,
            saved <= index,
        decreases view.visible_faces@.len() - index,
    {
        assert((index as int) / (size as int) < outside@.len()) by (nonlinear_arith)
            requires
                0 <= index < view.visible_faces@.len(),
                0 < size,
                outside@.len() == (view.visible_faces@.len() + size - 1) / (size as int),
        ;
        if outside[index / size] {
            rejected_faces += 1;
            if view.draws(index) && (view.blends(index) || view.faces_camera(index)) {
                saved += 1;
            }
        }
        index += 1;
    }
    BlockCensus {
        groups: outside.len() as u32,
        rejected_groups,
        rejected_faces,
        aabb_tests_saved: saved,
    }
}

/// The measurement for groups of four, eight and sixteen.
pub fn census_face_blocks(
    view: &FrameView,
    fours: &Vec<bool>,
    eights: &Vec<bool>,
    sixteens: &Vec<bool>,
) -> (census: [BlockCensus; 3])
    requires
        view.valid(),
        fours@.len() == groups_of(view.visible_faces@.len() as int, 4),
        eights@.len() == groups_of(view.visible_faces@.len() as int, 8),
        sixteens@.len() == groups_of(view.visible_faces@.len() as int, 16),
    ensures
        census@ == seq![
            block_census(*view, 4, fours@),
            block_census(*view, 8, eights@),
            block_census(*view, 16, sixteens@),
        ],
{
    [
        census_face_blocks_for(view, 4, fours),
        census_face_blocks_for(view, 8, eights),
        census_face_blocks_for(view, 16, sixteens),
    ]
}

/// Fingerprints of a selected list so far.
pub struct Fingerprints {
    pub fnv: u32,
    pub mixed: u32,
}

pub open spec fn fnv_step(hash: u32, byte: u32) -> u32 {
    (hash ^ byte).wrapping_mul(0x0100_0193)
}

/// Fingerprints after the first `count` entries.
pub open spec fn fingerprints(selected: Seq<u16>, count: nat) -> Fingerprints
    decreases count,
{
    if count == 0 {
        Fingerprints { fnv: 0x811c_9dc5, mixed: 0x9e37_79b9u32 ^ (selected.len() as u32) }
    } else {
        let before = fingerprints(selected, (count - 1) as nat);
        let entry = selected[count - 1];
        let index = (count - 1) as u32;
        let turned = rotated_left(
            (entry as u32).wrapping_add(index.wrapping_mul(0x85eb_ca6b)),
            index % 32,
        );
        Fingerprints {
            fnv: fnv_step(fnv_step(before.fnv, (entry % 256) as u32), (entry / 256) as u32),
            mixed: rotated_left(before.mixed ^ turned, 13).wrapping_mul(5).wrapping_add(
                0xe654_6b64,
            ),
        }
    }
}

/// Two independent fingerprints of a selected list.
pub fn selected_fingerprints(selected: &Vec<u16>) -> (hashes: (u32, u32))
    requires
        selected@.len() <= 0xffff,
    ensures
        hashes.0 == fingerprints(selected@, selected@.len()).fnv,
        hashes.1 == fingerprints(selected@, selected@.len()).mixed,
{
    let mut fnv: u32 = 0x811c_9dc5;
    let mut mixed: u32 = 0x9e37_79b9u32 ^ (selected.len() as u32);
    let mut index: usize = 0;
    while index < selected.len()
        invariant
            index <= selected@.len() <= 0xffff,
            fnv == fingerprints(selected@, index as nat).fnv,
            mixed == fingerprints(selected@, index as nat).mixed,
        decreases selected@.len() - index,
    {
        let entry: u16 = selected[index];
        let place: u32 = index as u32;
        fnv = (fnv ^ (entry % 256) as u32).wrapping_mul(0x0100_0193);
        fnv = (fnv ^ (entry / 256) as u32).wrapping_mul(0x0100_0193);
        mixed ^= rotate_left(
            (entry as u32).wrapping_add(place.wrapping_mul(0x85eb_ca6b)),
            place % 32,
        );
        mixed = rotate_left(mixed, 13).wrapping_mul(5).wrapping_add(0xe654_6b64);
        index += 1;
    }
    (fnv, mixed)
}

/// How often a bounded projector would project one position twice.
#[derive(Copy, Clone, Debug, PartialEq, Eq, Structural)]
pub struct ProjectionCensus {
    pub candidate_corners: u32,
    pub unique_positions: u32,
    pub batches: u32,
    pub previous_face_reuses: u32,
    pub previous_two_face_reuses: u32,
    pub near_corners: u32,
    pub special_corners: u32,
    pub layered_sky_corners: u32,
    pub oversized_corners: u32,
    pub ordinary_base_packet_bytes: u32,
    pub resident_template_faces: u32,
    pub resident_template_packet_bytes: u32,
    pub dynamic_light_template_reject_bytes: u32,
}

pub open spec fn no_projections() -> ProjectionCensus {
    ProjectionCensus {
        candidate_corners: 0,
        unique_positions: 0,
        batches: 0,
        previous_face_reuses: 0,
        previous_two_face_reuses: 0,
        near_corners: 0,
        special_corners: 0,
        layered_sky_corners: 0,
        oversized_corners: 0,
        ordinary_base_packet_bytes: 0,
        resident_template_faces: 0,
        resident_template_packet_bytes: 0,
        dynamic_light_template_reject_bytes: 0,
    }
}

impl Default for ProjectionCensus {
    fn default() -> (census: Self)
        ensures
            census == no_projections(),
    {
        ProjectionCensus {
            candidate_corners: 0,
            unique_positions: 0,
            batches: 0,
            previous_face_reuses: 0,
            previous_two_face_reuses: 0,
            near_corners: 0,
            special_corners: 0,
            layered_sky_corners: 0,
            oversized_corners: 0,
            ordinary_base_packet_bytes: 0,
            resident_template_faces: 0,
            resident_template_packet_bytes: 0,
            dynamic_light_template_reject_bytes: 0,
        }
    }
}

/// Count a batch that holds corners and start an empty one.
pub fn finish_projection_batch(
    census: &mut ProjectionCensus,
    batch_corners: &mut usize,
    batch_surfaces: &mut usize,
    unique_count: &mut usize,
)
    ensures
        *final(batch_corners) == 0,
        *final(batch_surfaces) == 0,
        *final(unique_count) == 0,
        *final(census) == closed_batch(
            *old(census),
            *old(batch_corners) as int,
            *old(unique_count) as int,
        ),
{
    if *batch_corners != 0 {
        census.batches = census.batches.wrapping_add(1);
        census.unique_positions = census.unique_positions.wrapping_add(*unique_count as u32);
    }
    *batch_corners = 0;
    *batch_surfaces = 0;
    *unique_count = 0;
}

pub open spec fn closed_batch(census: ProjectionCensus, corners: int, unique: int) -> ProjectionCensus {
    if corners != 0 {
        ProjectionCensus {
            batches: census.batches.wrapping_add(1),
            unique_positions: census.unique_positions.wrapping_add(unique as u32),
            ..census
        }
    } else {
        census
    }
}

/// Where the projection count stands between two faces.
pub struct ProjectionState {
    pub census: ProjectionCensus,
    pub corners: int,
    pub surfaces: int,
    /// Positions of the open batch, each once.
    pub unique: Seq<u16>,
    /// Corners of the last face and of the one before it.
    pub previous: Seq<u16>,
    pub second: Seq<u16>,
}

pub open spec fn fresh_batch(state: ProjectionState) -> ProjectionState {
    ProjectionState {
        census: closed_batch(state.census, state.corners, state.unique.len() as int),
        corners: 0,
        surfaces: 0,
        unique: Seq::empty(),
        previous: Seq::empty(),
        second: Seq::empty(),
    }
}

pub open spec fn bump(value: u32, condition: bool) -> u32 {
    value.wrapping_add(if condition { 1 } else { 0 })
}

/// State after the first `count` corners of a face.
pub open spec fn after_corners(state: ProjectionState, positions: Seq<u16>, count: nat) -> ProjectionState
    decreases count,
{
    if count == 0 {
        state
    } else {
        let before = after_corners(state, positions, (count - 1) as nat);
        let position = positions[count - 1];
        let reused = before.previous.contains(position);
        let reused_earlier = before.second.contains(position);
        ProjectionState {
            census: ProjectionCensus {
                previous_face_reuses: bump(before.census.previous_face_reuses, reused),
                previous_two_face_reuses: bump(
                    before.census.previous_two_face_reuses,
                    reused || reused_earlier,
                ),
                ..before.census
            },
            unique: if before.unique.contains(position) {
                before.unique
            } else {
                before.unique.push(position)
            },
            ..before
        }
    }
}

/// Bytes of a face's undivided packets: triangles go in pairs.
pub open spec fn base_packet_bytes(corner_count: int) -> int {
    let triangles = if corner_count > 2 {
        corner_count - 2
    } else {
        0
    };
    triangles / 2 * 52 + triangles % 2 * 40
}

/// The count of a face that the projector would leave to another path.
pub open spec fn fallback_census(
    census: ProjectionCensus,
    visible: VisibleFace,
    texture: TextureInfo,
    near: bool,
) -> Option<ProjectionCensus> {
    let corners = visible.face.corner_count as u32;
    if texture.flags.layered_sky {
        Some(
            ProjectionCensus {
                layered_sky_corners: census.layered_sky_corners.wrapping_add(corners),
                ..census
            },
        )
    } else if texture.flags.liquid || texture.flags.sky {
        Some(
            ProjectionCensus {
                special_corners: census.special_corners.wrapping_add(corners),
                ..census
            },
        )
    } else if near {
        Some(
            ProjectionCensus { near_corners: census.near_corners.wrapping_add(corners), ..census },
        )
    } else if corners > BATCH_MAX_VERTICES {
        Some(
            ProjectionCensus {
                oversized_corners: census.oversized_corners.wrapping_add(corners),
                ..census
            },
        )
    } else {
        None
    }
}

/// The count of an ordinary face's packets, and of those that could be kept.
pub open spec fn template_census(
    census: ProjectionCensus,
    visible: VisibleFace,
    lights: Seq<DynamicLight>,
) -> ProjectionCensus {
    let bytes = base_packet_bytes(visible.face.corner_count as int) as u32;
    let counted = ProjectionCensus {
        ordinary_base_packet_bytes: census.ordinary_base_packet_bytes.wrapping_add(bytes),
        ..census
    };
    let lit = lights_reach(lights, visible.bounds.mins, visible.bounds.maxs);
    if !(visible.face.flags.baked_uv && visible.face.flags.baked_light) {
        counted
    } else if lit {
        ProjectionCensus {
            dynamic_light_template_reject_bytes:
                counted.dynamic_light_template_reject_bytes.wrapping_add(bytes),
            ..counted
        }
    } else {
        ProjectionCensus {
            resident_template_faces: counted.resident_template_faces.wrapping_add(1),
            resident_template_packet_bytes: counted.resident_template_packet_bytes.wrapping_add(
                bytes,
            ),
            ..counted
        }
    }
}

/// Position indices of a face's corners.
pub open spec fn face_positions(map: WorldMap, visible: VisibleFace) -> Seq<u16> {
    map.corners@.subrange(
        visible.face.first_corner as int,
        visible.face.first_corner + visible.face.corner_count,
    )
}

/// State after one selected face.
pub open spec fn projection_step(
    map: WorldMap,
    visible: VisibleFace,
    texture: TextureInfo,
    near: bool,
    lights: Seq<DynamicLight>,
    state: ProjectionState,
) -> ProjectionState {
    match fallback_census(state.census, visible, texture, near) {
        Some(census) => fresh_batch(ProjectionState { census, ..state }),
        None => {
            let corners = visible.face.corner_count as int;
            let counted = ProjectionState {
                census: template_census(state.census, visible, lights),
                ..state
            };
            let open = if counted.corners + corners > BATCH_MAX_VERTICES || counted.surfaces
                == BATCH_MAX_SURFACES {
                fresh_batch(counted)
            } else {
                counted
            };
            let positions = face_positions(map, visible);
            let walked = after_corners(open, positions, corners as nat);
            ProjectionState {
                census: ProjectionCensus {
                    candidate_corners: walked.census.candidate_corners.wrapping_add(
                        corners as u32,
                    ),
                    ..walked.census
                },
                corners: walked.corners + corners,
                surfaces: walked.surfaces + 1,
                unique: walked.unique,
                previous: positions,
                second: walked.previous,
            }
        },
    }
}

/// State after the first `count` selected faces.
pub open spec fn projection_state(
    map: WorldMap,
    faces: Seq<VisibleFace>,
    textures: Seq<TextureInfo>,
    selected: Seq<u16>,
    lights: Seq<DynamicLight>,
    count: nat,
) -> ProjectionState
    decreases count,
{
    if count == 0 {
        ProjectionState {
            census: no_projections(),
            corners: 0,
            surfaces: 0,
            unique: Seq::empty(),
            previous: Seq::empty(),
            second: Seq::empty(),
        }
    } else {
        let entry = selected[count - 1];
        let visible = faces[(entry & FRAME_FACE_INDEX_MASK) as int];
        projection_step(
            map,
            visible,
            textures[visible.face.material as int],
            entry & NEAR_FACE_BIT != 0,
            lights,
            projection_state(map, faces, textures, selected, lights, (count - 1) as nat),
        )
    }
}

fn holds_position(list: &Vec<u16>, position: u16) -> (held: bool)
    ensures
        held == list@.contains(position),
{
    let mut index: usize = 0;
    while index < list.len()
        invariant
            index <= list@.len(),
            forall|i: int| 0 <= i < index ==> #[trigger] list@[i] != position,
        decreases list@.len() - index,
    {
        if list[index] == position {
            assert(list@.contains(list@[index as int]));
            return true;
        }
        index += 1;
    }
    false
}

proof fn corners_add_at_most_themselves(state: ProjectionState, positions: Seq<u16>, count: nat)
    ensures
        after_corners(state, positions, count).unique.len() <= state.unique.len() + count,
        after_corners(state, positions, count).corners == state.corners,
        after_corners(state, positions, count).surfaces == state.surfaces,
        after_corners(state, positions, count).previous == state.previous,
        after_corners(state, positions, count).second == state.second,
    decreases count,
{
    if count > 0 {
        corners_add_at_most_themselves(state, positions, (count - 1) as nat);
    }
}

/// Faces that an exec loop may index.
pub open spec fn faces_in_map(map: WorldMap, faces: Seq<VisibleFace>, textures: Seq<TextureInfo>) -> bool {
    forall|i: int|
        #![trigger faces[i]]
        0 <= i < faces.len() ==> faces[i].face.material < textures.len()
            && faces[i].face.first_corner + faces[i].face.corner_count <= map.corners@.len()
}

/// Estimate how many positions a projector bounded by one batch would see
/// again. Faces it would leave to another path close the batch.
#[verifier::rlimit(60)]
pub fn census_projection_batches(
    map: &WorldMap,
    faces: &Vec<VisibleFace>,
    textures: &Vec<TextureInfo>,
    selected: &Vec<u16>,
    lights: &Vec<DynamicLight>,
) -> (census: ProjectionCensus)
    requires
        faces_in_map(*map, faces@, textures@),
        forall|k: int|
            #![trigger selected@[k]]
            0 <= k < selected@.len() ==> selected@[k] & FRAME_FACE_INDEX_MASK < faces@.len(),
    ensures
        census == fresh_batch(
            projection_state(*map, faces@, textures@, selected@, lights@, selected@.len()),
        ).census,
{
    let mut census: ProjectionCensus = ProjectionCensus::default();
    let mut corners: usize = 0;
    let mut surfaces: usize = 0;
    let mut unique: Vec<u16> = Vec::new();
    let mut previous: Vec<u16> = Vec::new();
    let mut second: Vec<u16> = Vec::new();
    let mut next: usize = 0;
    assert(unique@ =~= Seq::empty() && previous@ =~= Seq::empty() && second@ =~= Seq::empty());
    while next < selected.len()
        invariant
            faces_in_map(*map, faces@, textures@),
            forall|k: int|
                #![trigger selected@[k]]
                0 <= k < selected@.len() ==> selected@[k] & FRAME_FACE_INDEX_MASK < faces@.len(),
            next <= selected@.len(),
            unique@.len() <= corners <= BATCH_MAX_VERTICES,
            surfaces <= BATCH_MAX_SURFACES,
            (ProjectionState {
                census,
                corners: corners as int,
                surfaces: surfaces as int,
                unique: unique@,
                previous: previous@,
                second: second@,
            }) == projection_state(*map, faces@, textures@, selected@, lights@, next as nat),
        decreases selected@.len() - next,
    {
        let ghost start = projection_state(*map, faces@, textures@, selected@, lights@, next as nat);
        let entry: u16 = selected[next];
        let visible: VisibleFace = faces[(entry & FRAME_FACE_INDEX_MASK) as usize];
        let texture: TextureInfo = textures[visible.face.material as usize];
        let near: bool = entry & NEAR_FACE_BIT != 0;
        let count: usize = visible.face.corner_count as usize;
        let wide: u32 = visible.face.corner_count as u32;
        let mut fallback: bool = true;
        if texture.flags.layered_sky {
            census.layered_sky_corners = census.layered_sky_corners.wrapping_add(wide);
        } else if texture.flags.liquid || texture.flags.sky {
            census.special_corners = census.special_corners.wrapping_add(wide);
        } else if near {
            census.near_corners = census.near_corners.wrapping_add(wide);
        } else if count > BATCH_MAX_VERTICES {
            census.oversized_corners = census.oversized_corners.wrapping_add(wide);
        } else {
            fallback = false;
        }
        next += 1;
        if fallback {
            let mut unique_count: usize = unique.len();
            finish_projection_batch(&mut census, &mut corners, &mut surfaces, &mut unique_count);
            unique.clear();
            previous.clear();
            second.clear();
            assert(unique@ =~= Seq::empty() && previous@ =~= Seq::empty() && second@
                =~= Seq::empty());
            continue;
        }
        let triangles: u32 = if wide > 2 {
            wide - 2
        } else {
            0
        };
        let bytes: u32 = triangles / 2 * 52 + triangles % 2 * 40;
        census.ordinary_base_packet_bytes = census.ordinary_base_packet_bytes.wrapping_add(bytes);
        if visible.face.flags.baked_uv && visible.face.flags.baked_light {
            let lit: bool = !dynamic_lights_miss(
                lights,
                visible.bounds.mins,
                visible.bounds.maxs,
            );
            if lit {
                census.dynamic_light_template_reject_bytes =
                census.dynamic_light_template_reject_bytes.wrapping_add(bytes);
            } else {
                census.resident_template_faces = census.resident_template_faces.wrapping_add(1);
                census.resident_template_packet_bytes =
                census.resident_template_packet_bytes.wrapping_add(bytes);
            }
        }
        assert(census == template_census(start.census, visible, lights@));
        if corners + count > BATCH_MAX_VERTICES || surfaces == BATCH_MAX_SURFACES {
            let mut unique_count: usize = unique.len();
            finish_projection_batch(&mut census, &mut corners, &mut surfaces, &mut unique_count);
            unique.clear();
            previous.clear();
            second.clear();
            assert(unique@ =~= Seq::empty() && previous@ =~= Seq::empty() && second@
                =~= Seq::empty());
        }
        let ghost open = ProjectionState {
            census,
            corners: corners as int,
            surfaces: surfaces as int,
            unique: unique@,
            previous: previous@,
            second: second@,
        };
        let ghost positions = face_positions(*map, visible);
        let first: usize = visible.face.first_corner as usize;
        let mut here: Vec<u16> = Vec::new();
        let mut corner: usize = 0;
        while corner < count
            invariant
                corner <= count <= BATCH_MAX_VERTICES,
                first == visible.face.first_corner,
                count == visible.face.corner_count,
                first + count <= map.corners@.len(),
                positions == face_positions(*map, visible),
                here@ == positions.take(corner as int),
                open.corners == corners,
                open.surfaces == surfaces,
                (ProjectionState {
                    census,
                    corners: corners as int,
                    surfaces: surfaces as int,
                    unique: unique@,
                    previous: previous@,
                    second: second@,
                }) == after_corners(open, positions, corner as nat),
            decreases count - corner,
        {
            let position: u16 = map.corners[first + corner];
            assert(position == positions[corner as int]);
            let reused: bool = holds_position(&previous, position);
            let reused_earlier: bool = holds_position(&second, position);
            census.previous_face_reuses = census.previous_face_reuses.wrapping_add(
                if reused { 1 } else { 0 },
            );
            census.previous_two_face_reuses = census.previous_two_face_reuses.wrapping_add(
                if reused || reused_earlier { 1 } else { 0 },
            );
            if !holds_position(&unique, position) {
                unique.push(position);
            }
            here.push(position);
            corner += 1;
            assert(here@ =~= positions.take(corner as int));
        }
        proof {
            corners_add_at_most_themselves(open, positions, count as nat);
            assert(positions.take(count as int) =~= positions);
        }
        second = previous;
        previous = here;
        corners += count;
        surfaces += 1;
        census.candidate_corners = census.candidate_corners.wrapping_add(wide);
    }
    let mut unique_count: usize = unique.len();
    finish_projection_batch(&mut census, &mut corners, &mut surfaces, &mut unique_count);
    census
}

/// Bytes that a logged line may hold.
pub const CENSUS_LINE_BYTES: usize = 1280;

/// A line under construction; what would run over its end is left out.
pub struct CensusLine {
    pub bytes: Vec<u8>,
}

/// The line with one more piece, if the piece fits.
pub open spec fn with_piece(line: Seq<u8>, piece: Seq<u8>) -> Seq<u8> {
    if line.len() + piece.len() <= CENSUS_LINE_BYTES {
        line + piece
    } else {
        line
    }
}

/// The line with the first `count` bytes added one by one.
pub open spec fn with_bytes(line: Seq<u8>, bytes: Seq<u8>, count: nat) -> Seq<u8>
    decreases count,
{
    if count == 0 {
        line
    } else {
        with_piece(with_bytes(line, bytes, (count - 1) as nat), seq![bytes[count - 1]])
    }
}

/// A lower-case hexadecimal digit.
pub open spec fn hex_digit(nibble: int) -> u8 {
    if nibble < 10 {
        (48 + nibble) as u8
    } else {
        (87 + nibble) as u8
    }
}

/// A number in hexadecimal, without leading zeros.
pub open spec fn hex_bytes(value: nat) -> Seq<u8>
    decreases value,
{
    if value < 16 {
        seq![hex_digit(value as int)]
    } else {
        hex_bytes(value / 16).push(hex_digit((value % 16) as int))
    }
}

/// The line with a comma and a number.
pub open spec fn with_field(line: Seq<u8>, value: u32) -> Seq<u8> {
    with_bytes(
        with_piece(line, ",".spec_bytes()),
        hex_bytes(value as nat),
        hex_bytes(value as nat).len(),
    )
}

/// The line with the first `count` of several numbers.
pub open spec fn with_fields(line: Seq<u8>, values: Seq<u32>, count: nat) -> Seq<u8>
    decreases count,
{
    if count == 0 {
        line
    } else {
        with_field(with_fields(line, values, (count - 1) as nat), values[count - 1])
    }
}

fn hex_of(value: u32) -> (digits: Vec<u8>)
    ensures
        digits@ == hex_bytes(value as nat),
    decreases value,
{
    let low: u8 = (value % 16) as u8;
    let digit: u8 = if low < 10 {
        48 + low
    } else {
        87 + low
    };
    if value < 16 {
        let mut digits: Vec<u8> = Vec::new();
        digits.push(digit);
        assert(digits@ =~= hex_bytes(value as nat));
        digits
    } else {
        let mut digits: Vec<u8> = hex_of(value / 16);
        digits.push(digit);
        digits
    }
}

impl CensusLine {
    pub fn new() -> (line: Self)
        ensures
            line.bytes@ == Seq::<u8>::empty(),
    {
        CensusLine { bytes: Vec::new() }
    }

    /// Add a piece of text, whole or not at all.
    pub fn push_ascii(&mut self, text: &str)
        requires
            old(self).bytes@.len() <= CENSUS_LINE_BYTES,
        ensures
            final(self).bytes@ == with_piece(old(self).bytes@, text.spec_bytes()),
    {
        let piece: &[u8] = text.as_bytes();
        if piece.len() > CENSUS_LINE_BYTES - self.bytes.len() {
            return ;
        }
        let ghost before = self.bytes@;
        let mut index: usize = 0;
        assert(before + piece@.take(0) =~= before);
        while index < piece.len()
            invariant
                index <= piece@.len(),
                self.bytes@ == before + piece@.take(index as int),
            decreases piece@.len() - index,
        {
            self.bytes.push(piece[index]);
            index += 1;
            assert(self.bytes@ =~= before + piece@.take(index as int));
        }
        assert(piece@.take(index as int) =~= piece@);
    }

    fn push_byte(&mut self, byte: u8)
        requires
            old(self).bytes@.len() <= CENSUS_LINE_BYTES,
        ensures
            final(self).bytes@ == with_piece(old(self).bytes@, seq![byte]),
    {
        let ghost before = self.bytes@;
        if self.bytes.len() < CENSUS_LINE_BYTES {
            self.bytes.push(byte);
            assert(self.bytes@ =~= before + seq![byte]);
        }
    }

    /// Add a comma and a number in hexadecimal.
    pub fn push_field(&mut self, value: u32)
        requires
            old(self).bytes@.len() <= CENSUS_LINE_BYTES,
        ensures
            final(self).bytes@ == with_field(old(self).bytes@, value),
            final(self).bytes@.len() <= CENSUS_LINE_BYTES,
    {
        self.push_ascii(",");
        let ghost base = self.bytes@;
        let digits: Vec<u8> = hex_of(value);
        let mut index: usize = 0;
        while index < digits.len()
            invariant
                index <= digits@.len(),
                self.bytes@ == with_bytes(base, digits@, index as nat),
                self.bytes@.len() <= CENSUS_LINE_BYTES,
            decreases digits@.len() - index,
        {
            self.push_byte(digits[index]);
            index += 1;
        }
    }
}

/// How the batches of a frame divide.
#[derive(Copy, Clone, Debug, PartialEq, Eq, Structural)]
pub struct TopologyCensus {
    pub surfaces: u32,
    pub root_triangles: u32,
    pub surface_clip_rejects: u32,
    pub depth_rejects: u32,
    pub level0_root_triangles: u32,
    pub level1_root_triangles: u32,
    pub level2_root_triangles: u32,
    pub paired_level0_packets: u32,
    pub level1_underdraw_roots: u32,
    pub level2_underdraw_roots: u32,
    pub theoretical_packets: u32,
    pub theoretical_hardware_triangles: u32,
    pub theoretical_packet_bytes: u32,
    pub topology_hash_a: u32,
    pub topology_hash_b: u32,
}

/// Everything that is logged of a frame.
pub struct RendererCensus {
    pub selection: SelectionCensus,
    pub near_faces: u32,
    pub blocks: [BlockCensus; 3],
    pub projection: ProjectionCensus,
    pub visibility_rebuilt: u32,
    pub leaf: u32,
    pub portal_leaf: u32,
    pub selected_hash_a: u32,
    pub selected_hash_b: u32,
    pub ordinary_output_packet_bytes: u32,
    pub ordinary_output_packets: u32,
    pub ordinary_output_hardware_triangles: u32,
    pub topology: TopologyCensus,
    pub subdivision_slab_caches: [SubdivisionCacheFrame; 4],
    pub packet_arena_words: u32,
    pub emitted_packets: u32,
    pub hardware_triangles: u32,
    pub packet_overflow_avoided: u32,
}

pub open spec fn block_fields(block: BlockCensus) -> Seq<u32> {
    seq![block.groups, block.rejected_groups, block.rejected_faces, block.aabb_tests_saved]
}

pub open spec fn slab_fields(cache: SubdivisionCacheFrame) -> Seq<u32> {
    seq![
        cache.requests,
        cache.hits,
        cache.allocations,
        cache.replacements,
        cache.fallbacks,
        cache.resident,
        cache.requested_packet_bytes,
        cache.hit_packet_bytes,
        cache.hit_invariant_bytes,
    ]
}

/// The logged numbers, in their fixed order.
pub open spec fn census_fields(frame: u32, census: RendererCensus) -> Seq<u32> {
    seq![
        frame,
        census.leaf,
        census.portal_leaf,
        census.visibility_rebuilt,
        census.selection.pvs_faces,
        census.selection.policy_rejects,
        census.selection.backface_rejects,
        census.selection.frustum_rejects,
        census.selection.selected_faces,
        census.near_faces,
        census.selection.water_blend_faces,
        census.selection.plane_tests,
        census.selection.plane_run_tests,
        census.selection.plane_tests_saved,
        census.selection.max_plane_run,
        census.selection.frustum_rejects.wrapping_add(census.selection.selected_faces),
    ] + block_fields(census.blocks@[0]) + block_fields(census.blocks@[1]) + block_fields(
        census.blocks@[2],
    ) + seq![
        census.projection.candidate_corners,
        census.projection.unique_positions,
        census.projection.batches,
        census.projection.previous_face_reuses,
        census.projection.previous_two_face_reuses,
        census.projection.near_corners,
        census.projection.special_corners,
        census.projection.layered_sky_corners,
        census.projection.oversized_corners,
        census.projection.ordinary_base_packet_bytes,
        census.projection.resident_template_faces,
        census.projection.resident_template_packet_bytes,
        census.projection.dynamic_light_template_reject_bytes,
        census.ordinary_output_packet_bytes,
        census.ordinary_output_packets,
        census.ordinary_output_hardware_triangles,
        census.topology.surfaces,
        census.topology.root_triangles,
        census.topology.surface_clip_rejects,
        census.topology.depth_rejects,
        census.topology.level0_root_triangles,
        census.topology.level1_root_triangles,
        census.topology.level2_root_triangles,
        census.topology.paired_level0_packets,
        census.topology.level1_underdraw_roots,
        census.topology.level2_underdraw_roots,
        census.topology.theoretical_packets,
        census.topology.theoretical_hardware_triangles,
        census.topology.theoretical_packet_bytes,
        census.topology.topology_hash_a,
        census.topology.topology_hash_b,
    ] + slab_fields(census.subdivision_slab_caches@[0]) + slab_fields(
        census.subdivision_slab_caches@[1],
    ) + slab_fields(census.subdivision_slab_caches@[2]) + slab_fields(
        census.subdivision_slab_caches@[3],
    ) + seq![
        census.packet_arena_words,
        census.emitted_packets,
        census.hardware_triangles,
        census.packet_overflow_avoided,
        census.selected_hash_a,
        census.selected_hash_b,
    ]
}

fn push_block(fields: &mut Vec<u32>, block: BlockCensus)
    ensures
        final(fields)@ == old(fields)@ + block_fields(block),
{
    fields.push(block.groups);
    fields.push(block.rejected_groups);
    fields.push(block.rejected_faces);
    fields.push(block.aabb_tests_saved);
    assert(fields@ =~= old(fields)@ + block_fields(block));
}

fn push_slab(fields: &mut Vec<u32>, cache: SubdivisionCacheFrame)
    ensures
        final(fields)@ == old(fields)@ + slab_fields(cache),
{
    fields.push(cache.requests);
    fields.push(cache.hits);
    fields.push(cache.allocations);
    fields.push(cache.replacements);
    fields.push(cache.fallbacks);
    fields.push(cache.resident);
    fields.push(cache.requested_packet_bytes);
    fields.push(cache.hit_packet_bytes);
    fields.push(cache.hit_invariant_bytes);
    assert(fields@ =~= old(fields)@ + slab_fields(cache));
}

fn fields_of(frame: u32, census: &RendererCensus) -> (fields: Vec<u32>)
    ensures
        fields@ == census_fields(frame, *census),
{
    let mut fields: Vec<u32> = vec![
        frame,
        census.leaf,
        census.portal_leaf,
        census.visibility_rebuilt,
        census.selection.pvs_faces,
        census.selection.policy_rejects,
        census.selection.backface_rejects,
        census.selection.frustum_rejects,
        census.selection.selected_faces,
        census.near_faces,
        census.selection.water_blend_faces,
        census.selection.plane_tests,
        census.selection.plane_run_tests,
        census.selection.plane_tests_saved,
        census.selection.max_plane_run,
        census.selection.frustum_rejects.wrapping_add(census.selection.selected_faces),
    ];
    let ghost head = fields@;
    push_block(&mut fields, census.blocks[0]);
    push_block(&mut fields, census.blocks[1]);
    push_block(&mut fields, census.blocks[2]);
    let ghost before = fields@;
    let mut middle: Vec<u32> = vec![
        census.projection.candidate_corners,
        census.projection.unique_positions,
        census.projection.batches,
        census.projection.previous_face_reuses,
        census.projection.previous_two_face_reuses,
        census.projection.near_corners,
        census.projection.special_corners,
        census.projection.layered_sky_corners,
        census.projection.oversized_corners,
        census.projection.ordinary_base_packet_bytes,
        census.projection.resident_template_faces,
        census.projection.resident_template_packet_bytes,
        census.projection.dynamic_light_template_reject_bytes,
        census.ordinary_output_packet_bytes,
        census.ordinary_output_packets,
        census.ordinary_output_hardware_triangles,
        census.topology.surfaces,
        census.topology.root_triangles,
        census.topology.surface_clip_rejects,
        census.topology.depth_rejects,
        census.topology.level0_root_triangles,
        census.topology.level1_root_triangles,
        census.topology.level2_root_triangles,
        census.topology.paired_level0_packets,
        census.topology.level1_underdraw_roots,
        census.topology.level2_underdraw_roots,
        census.topology.theoretical_packets,
        census.topology.theoretical_hardware_triangles,
        census.topology.theoretical_packet_bytes,
        census.topology.topology_hash_a,
        census.topology.topology_hash_b,
    ];
    let ghost body = middle@;
    fields.append(&mut middle);
    push_slab(&mut fields, census.subdivision_slab_caches[0]);
    push_slab(&mut fields, census.subdivision_slab_caches[1]);
    push_slab(&mut fields, census.subdivision_slab_caches[2]);
    push_slab(&mut fields, census.subdivision_slab_caches[3]);
    let mut last: Vec<u32> = vec![
        census.packet_arena_words,
        census.emitted_packets,
        census.hardware_triangles,
        census.packet_overflow_avoided,
        census.selected_hash_a,
        census.selected_hash_b,
    ];
    let ghost tail = last@;
    fields.append(&mut last);
    fields
}

/// The line that is logged for a frame: its tag, then every count in
/// hexadecimal, in a fixed order.
pub fn emit_renderer_census(frame: u32, census: &RendererCensus) -> (line: Vec<u8>)
    ensures
        line@ == with_fields(
            with_piece(Seq::empty(), "QRC5".spec_bytes()),
            census_fields(frame, *census),
            census_fields(frame, *census).len(),
        ),
{
    let fields: Vec<u32> = fields_of(frame, census);
    let mut line: CensusLine = CensusLine::new();
    line.push_ascii("QRC5");
    let ghost base = line.bytes@;
    let mut index: usize = 0;
    while index < fields.len()
        invariant
            index <= fields@.len(),
            line.bytes@ == with_fields(base, fields@, index as nat),
            line.bytes@.len() <= CENSUS_LINE_BYTES,
        decreases fields@.len() - index,
    {
        line.push_field(fields[index]);
        index += 1;
    }
    line.bytes
}

/// A request of a batch: which of its faces it comes from, and what it wants.
#[derive(Copy, Clone, Debug, PartialEq, Eq, Structural)]
pub struct BatchRequest {
    pub batch_surface: u16,
    pub request: SubdivisionRequest,
}

/// The requests, among the first `count`, of faces that were not clipped, with
/// the face that each comes from. A clip makes vertices that depend on the
/// camera, so it is never served from a cache.
pub open spec fn cacheable_requests(
    requests: Seq<BatchRequest>,
    sources: Seq<u16>,
    count: nat,
) -> Seq<(u16, SubdivisionRequest)>
    decreases count,
{
    if count == 0 {
        Seq::empty()
    } else {
        let before = cacheable_requests(requests, sources, (count - 1) as nat);
        let source = sources[requests[count - 1].batch_surface as int];
        if source == NO_SOURCE {
            before
        } else {
            before.push((source, requests[count - 1].request))
        }
    }
}

/// What one submitted batch adds to the census, and the requests that the
/// modelled caches answer, in order. `words` is the length of its packets.
pub fn census_world_batch(
    census: &mut RendererCensus,
    requests: &Vec<BatchRequest>,
    sources: &Vec<u16>,
    words: u32,
    submitted: Submitted,
) -> (cacheable: Vec<(u16, SubdivisionRequest)>)
    requires
        forall|i: int|
            #![trigger requests@[i]]
            0 <= i < requests@.len() ==> requests@[i].batch_surface < sources@.len(),
    ensures
        cacheable@ == cacheable_requests(requests@, sources@, requests@.len()),
        *final(census) == (RendererCensus {
            ordinary_output_packet_bytes: old(census).ordinary_output_packet_bytes.wrapping_add(
                words.wrapping_mul(4),
            ),
            ordinary_output_packets: old(census).ordinary_output_packets.wrapping_add(
                submitted.packets,
            ),
            ordinary_output_hardware_triangles: old(
                census,
            ).ordinary_output_hardware_triangles.wrapping_add(submitted.hardware_triangles),
            ..*old(census)
        }),
{
    let mut cacheable: Vec<(u16, SubdivisionRequest)> = Vec::new();
    let mut index: usize = 0;
    assert(cacheable@ =~= cacheable_requests(requests@, sources@, 0));
    while index < requests.len()
        invariant
            index <= requests@.len(),
            forall|i: int|
                #![trigger requests@[i]]
                0 <= i < requests@.len() ==> requests@[i].batch_surface < sources@.len(),
            cacheable@ == cacheable_requests(requests@, sources@, index as nat),
        decreases requests@.len() - index,
    {
        let wanted: BatchRequest = requests[index];
        let source: u16 = sources[wanted.batch_surface as usize];
        if source != NO_SOURCE {
            cacheable.push((source, wanted.request));
        }
        index += 1;
    }
    census.ordinary_output_packet_bytes = census.ordinary_output_packet_bytes.wrapping_add(
        words.wrapping_mul(4),
    );
    census.ordinary_output_packets = census.ordinary_output_packets.wrapping_add(
        submitted.packets,
    );
    census.ordinary_output_hardware_triangles =
    census.ordinary_output_hardware_triangles.wrapping_add(submitted.hardware_triangles);
    cacheable
}

/// A face that cannot be batched is counted by its corners under its own reason,
/// layered sky before special textures, these before the near plane and this
/// before size; any other face is counted under none.
pub proof fn unbatched_faces_have_their_reasons(
    census: ProjectionCensus,
    visible: VisibleFace,
    texture: TextureInfo,
    near: bool,
)
    ensures
        ({
            let after = fallback_census(census, visible, texture, near);
            let corners = visible.face.corner_count as u32;
            let layered = texture.flags.layered_sky;
            let special = !layered && (texture.flags.liquid || texture.flags.sky);
            let cut = !layered && !special && near;
            let large = !layered && !special && !cut && corners > 39;
            &&& after is Some <==> layered || special || cut || large
            &&& after matches Some(counted) ==> {
                &&& counted.layered_sky_corners == (if layered {
                    census.layered_sky_corners.wrapping_add(corners)
                } else {
                    census.layered_sky_corners
                })
                &&& counted.special_corners == (if special {
                    census.special_corners.wrapping_add(corners)
                } else {
                    census.special_corners
                })
                &&& counted.near_corners == (if cut {
                    census.near_corners.wrapping_add(corners)
                } else {
                    census.near_corners
                })
                &&& counted.oversized_corners == (if large {
                    census.oversized_corners.wrapping_add(corners)
                } else {
                    census.oversized_corners
                })
                &&& counted.candidate_corners == census.candidate_corners
                &&& counted.batches == census.batches && counted.unique_positions
                    == census.unique_positions
            }
        }),
{
}

/// Two triangles share a quad of 52 bytes and one left over takes 40.
pub proof fn packets_pair_their_triangles(corner_count: int)
    requires
        corner_count >= 3,
    ensures
        base_packet_bytes(3) == 40,
        base_packet_bytes(4) == 52,
        base_packet_bytes(corner_count + 2) == base_packet_bytes(corner_count) + 52,
        base_packet_bytes(2) == 0,
{
}

/// Every batched face adds to the bytes of ordinary packets; of those that are
/// stored whole it adds to the kept ones, or to the refused ones where a light
/// reaches it.
pub proof fn stored_faces_are_kept_or_refused(
    census: ProjectionCensus,
    visible: VisibleFace,
    lights: Seq<DynamicLight>,
)
    requires
        census.resident_template_faces < u32::MAX,
    ensures
        ({
            let after = template_census(census, visible, lights);
            let bytes = base_packet_bytes(visible.face.corner_count as int) as u32;
            let stored = visible.face.flags.baked_uv && visible.face.flags.baked_light;
            let lit = lights_reach(lights, visible.bounds.mins, visible.bounds.maxs);
            &&& after.ordinary_base_packet_bytes == census.ordinary_base_packet_bytes.wrapping_add(
                bytes,
            )
            &&& after.resident_template_faces == (if stored && !lit {
                census.resident_template_faces + 1
            } else {
                census.resident_template_faces as int
            })
            &&& after.resident_template_packet_bytes == (if stored && !lit {
                census.resident_template_packet_bytes.wrapping_add(bytes)
            } else {
                census.resident_template_packet_bytes
            })
            &&& after.dynamic_light_template_reject_bytes == (if stored && lit {
                census.dynamic_light_template_reject_bytes.wrapping_add(bytes)
            } else {
                census.dynamic_light_template_reject_bytes
            })
        }),
{
}

/// The positions of a batch are those of its corners, each once; a corner counts
/// as reused where the last face has it, and as reused of late where either of
/// the last two has it.
pub proof fn positions_are_gathered_once(
    state: ProjectionState,
    positions: Seq<u16>,
    count: nat,
)
    requires
        count < positions.len(),
    ensures
        ({
            let before = after_corners(state, positions, count);
            let after = after_corners(state, positions, count + 1);
            let position = positions[count as int];
            let last = state.previous.contains(position);
            let either = last || state.second.contains(position);
            &&& after.unique.contains(position)
            &&& before.unique.contains(position) ==> after.unique == before.unique
            &&& !before.unique.contains(position) ==> after.unique == before.unique.push(position)
            &&& after.previous == state.previous && after.second == state.second
            &&& after.census.previous_face_reuses == (if last {
                before.census.previous_face_reuses.wrapping_add(1)
            } else {
                before.census.previous_face_reuses
            })
            &&& after.census.previous_two_face_reuses == (if either {
                before.census.previous_two_face_reuses.wrapping_add(1)
            } else {
                before.census.previous_two_face_reuses
            })
        }),
{
    corners_keep_the_last_faces(state, positions, count);
    let before = after_corners(state, positions, count);
    let after = after_corners(state, positions, count + 1);
    if !before.unique.contains(positions[count as int]) {
        assert(after.unique[before.unique.len() as int] == positions[count as int]);
    }
}

proof fn corners_keep_the_last_faces(state: ProjectionState, positions: Seq<u16>, count: nat)
    ensures
        after_corners(state, positions, count).previous == state.previous,
        after_corners(state, positions, count).second == state.second,
    decreases count,
{
    if count > 0 {
        corners_keep_the_last_faces(state, positions, (count - 1) as nat);
    }
}

/// A batch with corners is counted when it closes, with its positions; one
/// without is not.
pub proof fn closed_batches_are_counted(census: ProjectionCensus, corners: int, unique: int)
    requires
        0 <= unique <= 0xffff,
        census.batches < u32::MAX,
        census.unique_positions + unique <= u32::MAX,
    ensures
        corners == 0 ==> closed_batch(census, corners, unique) == census,
        corners != 0 ==> closed_batch(census, corners, unique) == (ProjectionCensus {
            batches: (census.batches + 1) as u32,
            unique_positions: (census.unique_positions + unique) as u32,
            ..census
        }),
{
}

/// The faces of a frame are told apart by why they were not selected, and the
/// counts of a census are the numbers of faces of each sort.
pub proof fn the_census_counts_each_sort(view: FrameView)
    requires
        view.visible_faces@.len() <= 0xffff,
    ensures
        ({
            let census = selection_census(view);
            let end = view.visible_faces@.len();
            &&& census.pvs_faces == end
            &&& census.policy_rejects == count_below(|i: int| !view.drawable(i), end)
            &&& census.backface_rejects == count_below(
                |i: int| view.drawable(i) && !view.water_blend(i) && !view.facing(i),
                end,
            )
            &&& census.policy_rejects + census.backface_rejects + census.frustum_rejects
                + census.selected_faces == census.pvs_faces
            &&& census.water_blend_faces <= census.selected_faces
        }),
{
    let end = view.visible_faces@.len();
    census_accounts_for_every_face(view, end);
    same_counts(
        |i: int| view.plane_tested(i) && !view.facing(i),
        |i: int| view.drawable(i) && !view.water_blend(i) && !view.facing(i),
        end,
    );
    same_counts(|i: int| !view.drawable(i), |i: int| !view.drawable(i), end);
}

proof fn same_counts(first: spec_fn(int) -> bool, second: spec_fn(int) -> bool, end: nat)
    requires
        forall|i: int| #[trigger] first(i) == second(i),
    ensures
        count_below(first, end) == count_below(second, end),
    decreases end,
{
    if end > 0 {
        same_counts(first, second, (end - 1) as nat);
        assert(first(end - 1) == second(end - 1));
    }
}

/// A count goes up by one with each index that holds, and by nothing with another.
pub proof fn counts_go_up_by_one(holds: spec_fn(int) -> bool, end: nat)
    ensures
        count_below(holds, 0) == 0,
        holds(end as int) ==> count_below(holds, end + 1) == count_below(holds, end) + 1,
        !holds(end as int) ==> count_below(holds, end + 1) == count_below(holds, end),
{
}

/// A run of faces that asked for tests is one test, saves all the others, and is
/// kept where it is the longest.
pub proof fn runs_save_all_but_one_test(runs: PlaneRuns)
    requires
        runs.calls > 0,
    ensures
        ({
            let after = closed_run(runs);
            &&& after.tests == runs.tests + 1
            &&& (after.tests + after.saved) - (runs.tests + runs.saved) == runs.calls
            &&& after.longest >= runs.calls && after.longest >= runs.longest
            &&& after.longest == runs.calls || after.longest == runs.longest
        }),
        closed_run(PlaneRuns { calls: 0, ..runs }) == (PlaneRuns { calls: 0, ..runs }),
{
}

/// The number that a row of hexadecimal digits stands for.
pub open spec fn hex_read(digits: Seq<u8>) -> int
    decreases digits.len(),
{
    if digits.len() == 0 {
        0
    } else {
        let digit = digits.last();
        16 * hex_read(digits.drop_last()) + (if digit < 97 {
            digit - 48
        } else {
            digit - 97 + 10
        })
    }
}

/// The digits of a field read as its number, in lower case and without zeros in
/// front.
pub proof fn fields_read_back(value: nat)
    ensures
        hex_read(hex_bytes(value)) == value,
        hex_bytes(value).len() >= 1,
        hex_bytes(value).len() > 1 ==> hex_bytes(value)[0] != 48,
        forall|i: int|
            #![trigger hex_bytes(value)[i]]
            0 <= i < hex_bytes(value).len() ==> 48 <= hex_bytes(value)[i] <= 57 || 97
                <= hex_bytes(value)[i] <= 102,
        value < 16 <==> hex_bytes(value).len() == 1,
    decreases value,
{
    reveal_with_fuel(hex_read, 2);
    if value >= 16 {
        fields_read_back(value / 16);
        let before = hex_bytes(value / 16);
        assert(hex_bytes(value).drop_last() =~= before);
        assert(hex_bytes(value).last() == hex_digit((value % 16) as int));
        if before.len() == 1 {
            assert(before[0] == hex_digit((value / 16) as int));
        }
    } else {
        assert(hex_bytes(value).drop_last() =~= Seq::empty());
    }
}

/// The first columns of a line tell of the frame, its leaf and the faces selected.
pub proof fn selection_has_its_columns(frame: u32, census: RendererCensus)
    ensures
        ({
            let fields = census_fields(frame, census);
            &&& fields.len() == 101
            &&& fields[0] == frame
            &&& fields[1] == census.leaf
            &&& fields[2] == census.portal_leaf
            &&& fields[3] == census.visibility_rebuilt
            &&& fields[4] == census.selection.pvs_faces
            &&& fields[5] == census.selection.policy_rejects
            &&& fields[6] == census.selection.backface_rejects
            &&& fields[7] == census.selection.frustum_rejects
            &&& fields[8] == census.selection.selected_faces
            &&& fields[9] == census.near_faces
            &&& fields[10] == census.selection.water_blend_faces
            &&& fields[11] == census.selection.plane_tests
            &&& fields[12] == census.selection.plane_run_tests
            &&& fields[13] == census.selection.plane_tests_saved
            &&& fields[14] == census.selection.max_plane_run
            &&& fields[15] == census.selection.frustum_rejects.wrapping_add(census.selection.selected_faces)
        }),
{
}

/// Behind them come the three sizes of blocks, four columns each.
pub proof fn blocks_have_their_columns(frame: u32, census: RendererCensus)
    ensures
        ({
            let fields = census_fields(frame, census);
            &&& fields.len() == 101
            &&& fields[16] == census.blocks@[0].groups
            &&& fields[17] == census.blocks@[0].rejected_groups
            &&& fields[18] == census.blocks@[0].rejected_faces
            &&& fields[19] == census.blocks@[0].aabb_tests_saved
            &&& fields[20] == census.blocks@[1].groups
            &&& fields[21] == census.blocks@[1].rejected_groups
            &&& fields[22] == census.blocks@[1].rejected_faces
            &&& fields[23] == census.blocks@[1].aabb_tests_saved
            &&& fields[24] == census.blocks@[2].groups
            &&& fields[25] == census.blocks@[2].rejected_groups
            &&& fields[26] == census.blocks@[2].rejected_faces
            &&& fields[27] == census.blocks@[2].aabb_tests_saved
        }),
{
}

/// Then come the columns of the projection, of the packets put out and of the
/// topology.
pub proof fn projection_and_output_have_their_columns(frame: u32, census: RendererCensus)
    ensures
        ({
            let fields = census_fields(frame, census);
            &&& fields.len() == 101
            &&& fields[28] == census.projection.candidate_corners
            &&& fields[29] == census.projection.unique_positions
            &&& fields[30] == census.projection.batches
            &&& fields[31] == census.projection.previous_face_reuses
            &&& fields[32] == census.projection.previous_two_face_reuses
            &&& fields[33] == census.projection.near_corners
            &&& fields[34] == census.projection.special_corners
            &&& fields[35] == census.projection.layered_sky_corners
            &&& fields[36] == census.projection.oversized_corners
            &&& fields[37] == census.projection.ordinary_base_packet_bytes
            &&& fields[38] == census.projection.resident_template_faces
            &&& fields[39] == census.projection.resident_template_packet_bytes
            &&& fields[40] == census.projection.dynamic_light_template_reject_bytes
            &&& fields[41] == census.ordinary_output_packet_bytes
            &&& fields[42] == census.ordinary_output_packets
            &&& fields[43] == census.ordinary_output_hardware_triangles
            &&& fields[44] == census.topology.surfaces
            &&& fields[45] == census.topology.root_triangles
            &&& fields[46] == census.topology.surface_clip_rejects
            &&& fields[47] == census.topology.depth_rejects
            &&& fields[48] == census.topology.level0_root_triangles
            &&& fields[49] == census.topology.level1_root_triangles
            &&& fields[50] == census.topology.level2_root_triangles
            &&& fields[51] == census.topology.paired_level0_packets
            &&& fields[52] == census.topology.level1_underdraw_roots
            &&& fields[53] == census.topology.level2_underdraw_roots
            &&& fields[54] == census.topology.theoretical_packets
            &&& fields[55] == census.topology.theoretical_hardware_triangles
            &&& fields[56] == census.topology.theoretical_packet_bytes
            &&& fields[57] == census.topology.topology_hash_a
            &&& fields[58] == census.topology.topology_hash_b
        }),
{
}

/// The four caches of slabs have nine columns each.
pub proof fn slab_caches_have_their_columns(frame: u32, census: RendererCensus)
    ensures
        ({
            let fields = census_fields(frame, census);
            &&& fields.len() == 101
            &&& fields[59] == census.subdivision_slab_caches@[0].requests
            &&& fields[60] == census.subdivision_slab_caches@[0].hits
            &&& fields[61] == census.subdivision_slab_caches@[0].allocations
            &&& fields[62] == census.subdivision_slab_caches@[0].replacements
            &&& fields[63] == census.subdivision_slab_caches@[0].fallbacks
            &&& fields[64] == census.subdivision_slab_caches@[0].resident
            &&& fields[65] == census.subdivision_slab_caches@[0].requested_packet_bytes
            &&& fields[66] == census.subdivision_slab_caches@[0].hit_packet_bytes
            &&& fields[67] == census.subdivision_slab_caches@[0].hit_invariant_bytes
            &&& fields[68] == census.subdivision_slab_caches@[1].requests
            &&& fields[69] == census.subdivision_slab_caches@[1].hits
            &&& fields[70] == census.subdivision_slab_caches@[1].allocations
            &&& fields[71] == census.subdivision_slab_caches@[1].replacements
            &&& fields[72] == census.subdivision_slab_caches@[1].fallbacks
            &&& fields[73] == census.subdivision_slab_caches@[1].resident
            &&& fields[74] == census.subdivision_slab_caches@[1].requested_packet_bytes
            &&& fields[75] == census.subdivision_slab_caches@[1].hit_packet_bytes
            &&& fields[76] == census.subdivision_slab_caches@[1].hit_invariant_bytes
            &&& fields[77] == census.subdivision_slab_caches@[2].requests
            &&& fields[78] == census.subdivision_slab_caches@[2].hits
            &&& fields[79] == census.subdivision_slab_caches@[2].allocations
            &&& fields[80] == census.subdivision_slab_caches@[2].replacements
            &&& fields[81] == census.subdivision_slab_caches@[2].fallbacks
            &&& fields[82] == census.subdivision_slab_caches@[2].resident
            &&& fields[83] == census.subdivision_slab_caches@[2].requested_packet_bytes
            &&& fields[84] == census.subdivision_slab_caches@[2].hit_packet_bytes
            &&& fields[85] == census.subdivision_slab_caches@[2].hit_invariant_bytes
            &&& fields[86] == census.subdivision_slab_caches@[3].requests
            &&& fields[87] == census.subdivision_slab_caches@[3].hits
            &&& fields[88] == census.subdivision_slab_caches@[3].allocations
            &&& fields[89] == census.subdivision_slab_caches@[3].replacements
            &&& fields[90] == census.subdivision_slab_caches@[3].fallbacks
            &&& fields[91] == census.subdivision_slab_caches@[3].resident
            &&& fields[92] == census.subdivision_slab_caches@[3].requested_packet_bytes
            &&& fields[93] == census.subdivision_slab_caches@[3].hit_packet_bytes
            &&& fields[94] == census.subdivision_slab_caches@[3].hit_invariant_bytes
        }),
{
}

/// The last columns are the totals of the frame and the marks of its selection.
pub proof fn totals_have_the_last_columns(frame: u32, census: RendererCensus)
    ensures
        ({
            let fields = census_fields(frame, census);
            &&& fields.len() == 101
            &&& fields[95] == census.packet_arena_words
            &&& fields[96] == census.emitted_packets
            &&& fields[97] == census.hardware_triangles
            &&& fields[98] == census.packet_overflow_avoided
            &&& fields[99] == census.selected_hash_a
            &&& fields[100] == census.selected_hash_b
        }),
{
}

/// The block in which a face is counted is the one that holds it, and the blocks
/// cover all faces with none to spare.
pub proof fn blocks_cover_all_faces(view: FrameView, size: int, outside: Seq<bool>)
    requires
        size > 0,
        view.visible_faces@.len() <= 0xffff,
    ensures
        ({
            let census = block_census(view, size, outside);
            let end = view.visible_faces@.len();
            &&& end > 0 ==> (groups_of(end as int, size) - 1) * size < end <= groups_of(
                end as int,
                size,
            ) * size
            &&& census.aabb_tests_saved <= census.rejected_faces <= end
            &&& census.rejected_faces == count_below(|i: int| outside[i / size], end)
        }),
{
    let end = view.visible_faces@.len();
    let count = end as int;
    if end > 0 {
        assert(((count + size - 1) / size - 1) * size < count <= ((count + size - 1) / size) * size)
            by (nonlinear_arith)
            requires
                size > 0,
                count > 0,
        ;
    }
    let all = |i: int| outside[i / size];
    let some = |i: int| outside[i / size] && view.reaches_frustum(i);
    counts_are_bounded(all, end);
    fewer_are_counted(some, all, end);
}

proof fn fewer_are_counted(some: spec_fn(int) -> bool, all: spec_fn(int) -> bool, end: nat)
    requires
        forall|i: int| #[trigger] some(i) ==> all(i),
    ensures
        count_below(some, end) <= count_below(all, end),
    decreases end,
{
    if end > 0 {
        fewer_are_counted(some, all, (end - 1) as nat);
        assert(some(end - 1) ==> all(end - 1));
    }
}

/// A face that cannot be batched closes the batch and leaves nothing open; any
/// other joins it with all its corners, and becomes the last face.
pub proof fn faces_join_or_close_the_batch(
    map: WorldMap,
    visible: VisibleFace,
    texture: TextureInfo,
    near: bool,
    lights: Seq<DynamicLight>,
    state: ProjectionState,
)
    ensures
        ({
            let after = projection_step(map, visible, texture, near, lights, state);
            let corners = visible.face.corner_count as int;
            let alone = fallback_census(state.census, visible, texture, near) is Some;
            let full = state.corners + corners > 39 || state.surfaces == 13;
            &&& alone ==> after.corners == 0 && after.surfaces == 0 && after.unique.len() == 0
                && after.previous.len() == 0 && after.second.len() == 0
            &&& !alone && !full ==> after.corners == state.corners + corners && after.surfaces
                == state.surfaces + 1 && after.second == state.previous
            &&& !alone && full ==> after.corners == corners && after.surfaces == 1
                && after.second.len() == 0
            &&& !alone ==> after.previous == map.corners@.subrange(
                visible.face.first_corner as int,
                visible.face.first_corner + corners,
            )
        }),
{
    let corners = visible.face.corner_count as int;
    let counted = ProjectionState {
        census: template_census(state.census, visible, lights),
        ..state
    };
    let positions = face_positions(map, visible);
    corners_leave_the_batch_open(counted, positions, corners as nat);
    corners_leave_the_batch_open(fresh_batch(counted), positions, corners as nat);
}

proof fn corners_leave_the_batch_open(state: ProjectionState, positions: Seq<u16>, count: nat)
    ensures
        after_corners(state, positions, count).corners == state.corners,
        after_corners(state, positions, count).surfaces == state.surfaces,
        after_corners(state, positions, count).previous == state.previous,
    decreases count,
{
    if count > 0 {
        corners_leave_the_batch_open(state, positions, (count - 1) as nat);
    }
}

/// A selection is gone through entry by entry, each entry with its own face, that
/// face's texture and its own mark of the near plane.
pub proof fn entries_are_gone_through_in_order(
    map: WorldMap,
    faces: Seq<VisibleFace>,
    textures: Seq<TextureInfo>,
    selected: Seq<u16>,
    lights: Seq<DynamicLight>,
    count: nat,
)
    requires
        count < selected.len(),
    ensures
        ({
            let entry = selected[count as int];
            let face = faces[(entry & 0x3fff) as int];
            projection_state(map, faces, textures, selected, lights, count + 1) == projection_step(
                map,
                face,
                textures[face.face.material as int],
                entry & 0x8000 != 0,
                lights,
                projection_state(map, faces, textures, selected, lights, count),
            )
        }),
        projection_state(map, faces, textures, selected, lights, 0).corners == 0,
{
}

/// Requests of clipped faces are left out; any other is kept, under its own face
/// and in its order.
pub proof fn requests_are_kept_under_their_faces(
    requests: Seq<BatchRequest>,
    sources: Seq<u16>,
    count: nat,
)
    requires
        count < requests.len(),
    ensures
        ({
            let before = cacheable_requests(requests, sources, count);
            let after = cacheable_requests(requests, sources, count + 1);
            let source = sources[requests[count as int].batch_surface as int];
            &&& source == 0xffff ==> after == before
            &&& source != 0xffff ==> after == before.push((source, requests[count as int].request))
        }),
        cacheable_requests(requests, sources, 0).len() == 0,
{
}

/// A step of the first fingerprint mixes one byte in and multiplies by the prime
/// 16777619, within 32 bits; different bytes leave different marks.
pub proof fn bytes_leave_their_marks(hash: u32, byte: u32, other: u32)
    requires
        byte != other,
    ensures
        fnv_step(hash, byte) == ((hash ^ byte) * 16777619) % 0x1_0000_0000,
        fnv_step(hash, byte) != fnv_step(hash, other),
{
    assert(hash ^ byte != hash ^ other) by (bit_vector)
        requires
            byte != other,
    ;
    odd_products_differ((hash ^ byte) as int, (hash ^ other) as int);
}

proof fn odd_products_differ(left: int, right: int)
    requires
        0 <= left < 0x1_0000_0000,
        0 <= right < 0x1_0000_0000,
        left != right,
    ensures
        (left * 16777619) % 0x1_0000_0000 != (right * 16777619) % 0x1_0000_0000,
{
    if (left * 16777619) % 0x1_0000_0000 == (right * 16777619) % 0x1_0000_0000 {
        let k = (left * 16777619) / 0x1_0000_0000 - (right * 16777619) / 0x1_0000_0000;
        let d = left - right;
        assert(d * 16777619 == k * 0x1_0000_0000);
        assert(16777619 * 899433627 == 0x1_0000_0000 * 3513497 + 1) by (nonlinear_arith);
        assert(d == 0x1_0000_0000 * (k * 899433627 - d * 3513497));
        assert(false);
    }
}

/// A piece goes onto a line whole or not at all; a field is a comma and the
/// number's digits.
pub proof fn pieces_go_on_whole(line: Seq<u8>, piece: Seq<u8>, value: u32)
    ensures
        line.len() + piece.len() <= 1280 ==> with_piece(line, piece) == line + piece,
        line.len() + piece.len() > 1280 ==> with_piece(line, piece) == line,
        line.len() + 9 <= 1280 ==> with_field(line, value) == line + seq![44u8] + hex_bytes(
            value as nat,
        ),
{
    if line.len() + 9 <= 1280 {
        comma_byte();
        reveal_with_fuel(power16, 9);
        field_length(value as nat, 8);
        let digits = hex_bytes(value as nat);
        let start = line + seq![44u8];
        bytes_go_on(start, digits, digits.len());
        assert(digits.take(digits.len() as int) =~= digits);
    }
}

proof fn comma_byte()
    ensures
        ",".spec_bytes() == seq![44u8],
{
    reveal_strlit(",");
    is_ascii_spec_bytes(",");
    assert(",".spec_bytes() =~= seq![44u8]);
}

proof fn field_length(value: nat, digits: nat)
    requires
        digits > 0,
        value < power16(digits),
    ensures
        hex_bytes(value).len() <= digits,
    decreases digits,
{
    reveal_with_fuel(power16, 2);
    if value >= 16 {
        assert(digits > 1);
        field_length(value / 16, (digits - 1) as nat);
    }
}

/// Powers of sixteen.
pub open spec fn power16(exponent: nat) -> nat
    decreases exponent,
{
    if exponent == 0 {
        1
    } else {
        16 * power16((exponent - 1) as nat)
    }
}

proof fn bytes_go_on(line: Seq<u8>, bytes: Seq<u8>, count: nat)
    requires
        count <= bytes.len(),
        line.len() + count <= 1280,
    ensures
        with_bytes(line, bytes, count) == line + bytes.take(count as int),
    decreases count,
{
    if count == 0 {
        assert(line + bytes.take(0) =~= line);
    } else {
        bytes_go_on(line, bytes, (count - 1) as nat);
        assert(line + bytes.take(count - 1) + seq![bytes[count - 1]] =~= line + bytes.take(
            count as int,
        ));
    }
}

/// The fields of a line come in their order.
pub proof fn fields_come_in_order(line: Seq<u8>, values: Seq<u32>, count: nat)
    requires
        count < values.len(),
    ensures
        with_fields(line, values, 0) == line,
        with_fields(line, values, count + 1) == with_field(
            with_fields(line, values, count),
            values[count as int],
        ),
{
}

/// A census of projections begins with nothing counted.
pub proof fn the_census_begins_empty()
    ensures
        ({
            let census = no_projections();
            &&& census.candidate_corners == 0 && census.unique_positions == 0 && census.batches == 0
            &&& census.previous_face_reuses == 0 && census.previous_two_face_reuses == 0
            &&& census.near_corners == 0 && census.special_corners == 0
                && census.layered_sky_corners == 0 && census.oversized_corners == 0
            &&& census.ordinary_base_packet_bytes == 0 && census.resident_template_faces == 0
            &&& census.resident_template_packet_bytes == 0
                && census.dynamic_light_template_reject_bytes == 0
        }),
{
}

} // verus!
