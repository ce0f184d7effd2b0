//! Handing finished frames to the display.
//!
//! A frame is a chain of packets. The finished chain goes into a slot; the
//! vertical-blank handler shows the frame before it and starts the queued one,
//! on the first blank at which the graphics processor has drawn everything.

use vstd::prelude::*;

use crate::fixed::{clamp_int, whole_units};
use crate::world::{Vec3I16, Vec3I32};

verus! {

pub const WIDTH: u16 = 320;

pub const HEIGHT: u16 = 240;

pub const BACK_BUFFER_Y: u16 = 256;

/// Glyphs of menus and of the display share one list of late commands.
pub const MAX_SCREEN_COMMANDS: usize = 384;

/// Blanks that a queued frame may wait before the chain ahead of it is taken
/// for stalled.
pub const STALL_VBLANKS: u32 = 8;

/// The slot between the program and the blank handler.
#[derive(Copy, Clone, Debug, PartialEq, Eq, Structural)]
pub struct PresentQueue {
    /// Chain that the handler starts next; 0 is an empty slot.
    pub head: u32,
    /// Display command to give just before; 0 is none.
    pub display: u32,
    /// Blanks at which a queued frame had to wait.
    pub skipped: u32,
    /// Frames that the handler has started.
    pub kicks: u32,
    /// Times a stalled chain was given up.
    pub recoveries: u32,
}

/// What the handler does at a blank.
#[derive(Copy, Clone, Debug, PartialEq, Eq, Structural)]
pub enum BlankAction {
    /// Nothing is queued.
    Idle,
    /// Something is queued, but the frame before it is not finished.
    Wait,
    /// Show the finished frame, acknowledge the flag, start the chain.
    Kick { head: u32, display: Option<u32> },
}

/// What to do about a slot that has been full for too long.
#[derive(Copy, Clone, Debug, PartialEq, Eq, Structural)]
pub struct StallRelease {
    /// Stop the chain that still runs.
    pub stop_chain: bool,
    /// Raise the flag that the chain never raised.
    pub raise_flag: bool,
}

/// One turn of a wait.
#[derive(Copy, Clone, Debug, PartialEq, Eq, Structural)]
pub enum WaitStep {
    Ready,
    Spin,
    Release,
}

/// Blanks from `start` to `now` reach the limit.
pub open spec fn stalled(start: u32, now: u32) -> bool {
    now.wrapping_sub(start) >= STALL_VBLANKS
}

pub open spec fn wait_step(waiting: bool, start: u32, now: u32) -> WaitStep {
    if !waiting {
        WaitStep::Ready
    } else if stalled(start, now) {
        WaitStep::Release
    } else {
        WaitStep::Spin
    }
}

impl PresentQueue {
    pub fn new() -> (queue: Self)
        ensures
            queue == (PresentQueue { head: 0, display: 0, skipped: 0, kicks: 0, recoveries: 0 }),
    {
        PresentQueue { head: 0, display: 0, skipped: 0, kicks: 0, recoveries: 0 }
    }

    pub open spec fn full(self) -> bool {
        self.head != 0
    }

    pub fn slot_full(&self) -> (full: bool)
        ensures
            full == self.full(),
    {
        self.head != 0
    }

    /// Hand one chain, and the command that shows the frame before it, to the
    /// handler.
    pub fn publish(&mut self, head: u32, display: u32)
        requires
            !old(self).full(),
        ensures
            *final(self) == (PresentQueue { head, display, ..*old(self) }),
    {
        self.display = display;
        self.head = head;
    }

    /// A vertical blank.
    pub fn on_vblank(&mut self, draw_done: bool, channel_busy: bool) -> (action: BlankAction)
        ensures
            ({
                let ready = draw_done && !channel_busy;
                &&& action == if !old(self).full() {
                    BlankAction::Idle
                } else if !ready {
                    BlankAction::Wait
                } else {
                    BlankAction::Kick {
                        head: old(self).head,
                        display: if old(self).display != 0 {
                            Some(old(self).display)
                        } else {
                            None
                        },
                    }
                }
                &&& *final(self) == after_vblank(*old(self), draw_done, channel_busy)
            }),
    {
        if self.head == 0 {
            return BlankAction::Idle;
        }
        if !draw_done || channel_busy {
            self.skipped = self.skipped.wrapping_add(1);
            return BlankAction::Wait;
        }
        let head: u32 = self.head;
        let display: Option<u32> = if self.display != 0 {
            Some(self.display)
        } else {
            None
        };
        self.head = 0;
        self.kicks = self.kicks.wrapping_add(1);
        BlankAction::Kick { head, display }
    }

    /// Wait until the handler has started the queued frame.
    pub fn wait_slot_empty(&self, start: u32, now: u32) -> (step: WaitStep)
        ensures
            step == wait_step(self.full(), start, now),
    {
        if self.head == 0 {
            WaitStep::Ready
        } else if now.wrapping_sub(start) >= STALL_VBLANKS {
            WaitStep::Release
        } else {
            WaitStep::Spin
        }
    }

    /// Wait until the arena that is rebuilt next is no longer read: nothing is
    /// queued, or no chain is running.
    pub fn wait_arena_free(&self, channel_busy: bool, start: u32, now: u32) -> (step: WaitStep)
        ensures
            step == wait_step(self.full() && channel_busy, start, now),
    {
        if self.head == 0 || !channel_busy {
            WaitStep::Ready
        } else if now.wrapping_sub(start) >= STALL_VBLANKS {
            WaitStep::Release
        } else {
            WaitStep::Spin
        }
    }

    /// Give up the chain ahead of a queued frame, unless it has finished after
    /// all. The frame stays queued; the next blank starts it.
    pub fn release_stalled_slot(&mut self, draw_done: bool, channel_busy: bool) -> (release:
        StallRelease)
        ensures
            ({
                let stuck = old(self).full() && !draw_done;
                &&& release == StallRelease { stop_chain: stuck && channel_busy, raise_flag: stuck }
                &&& *final(self) == if stuck {
                    PresentQueue { recoveries: old(self).recoveries.wrapping_add(1), ..*old(self) }
                } else {
                    *old(self)
                }
            }),
    {
        if self.head != 0 && !draw_done {
            self.recoveries = self.recoveries.wrapping_add(1);
            return StallRelease { stop_chain: channel_busy, raise_flag: true };
        }
        StallRelease { stop_chain: false, raise_flag: false }
    }
}

/// The queue after a blank.
pub open spec fn after_vblank(queue: PresentQueue, draw_done: bool, channel_busy: bool) -> PresentQueue {
    if !queue.full() {
        queue
    } else if !draw_done || channel_busy {
        PresentQueue { skipped: queue.skipped.wrapping_add(1), ..queue }
    } else {
        PresentQueue { head: 0, kicks: queue.kicks.wrapping_add(1), ..queue }
    }
}

/// A queued frame is started exactly once: it stays while the frame before it
/// is unfinished, leaves at the first blank after that, and no later blank
/// starts it again.
pub proof fn a_frame_is_started_once(
    queue: PresentQueue,
    draw_done: bool,
    channel_busy: bool,
    later_done: bool,
    later_busy: bool,
)
    requires
        queue.full(),
    ensures
        ({
            let ready = draw_done && !channel_busy;
            let next = after_vblank(queue, draw_done, channel_busy);
            &&& next.full() == !ready
            &&& !ready ==> next.head == queue.head && next.kicks == queue.kicks
            &&& ready ==> after_vblank(next, later_done, later_busy) == next
            &&& ready ==> next.kicks == queue.kicks.wrapping_add(1)
        }),
{
}

/// Once a stalled slot has been released, the flag is up and no chain runs, so
/// the next blank starts the queued frame.
pub proof fn a_released_slot_is_started(queue: PresentQueue)
    requires
        queue.full(),
    ensures
        !after_vblank(
            PresentQueue { recoveries: queue.recoveries.wrapping_add(1), ..queue },
            true,
            false,
        ).full(),
{
}

/// A late command: where its packet lies, and how many words it has.
#[derive(Copy, Clone, Debug, PartialEq, Eq, Structural)]
pub struct ScreenCommand {
    pub packet: usize,
    pub words: u8,
}

/// The two arenas and what is under way.
pub struct GpuFrames {
    /// The arena that is being filled.
    pub build: usize,
    /// A frame was submitted and has not been shown.
    pub pending: bool,
    pub commands: Vec<ScreenCommand>,
}

/// The command of the packet at `index` in a run of equal packets.
pub open spec fn run_command(start: int, words: u8, index: int) -> ScreenCommand {
    ScreenCommand { packet: (start + index * (4 * (words + 1))) as usize, words }
}

/// How many of `count` packets fit behind `used` commands.
pub open spec fn commands_that_fit(used: int, count: int) -> int {
    let free = MAX_SCREEN_COMMANDS - used;
    if count < free {
        count
    } else {
        free
    }
}

impl GpuFrames {
    pub open spec fn valid(&self) -> bool {
        &&& self.build < 2
        &&& self.commands@.len() <= MAX_SCREEN_COMMANDS
    }

    pub fn new() -> (frames: Self)
        ensures
            frames.valid(),
            frames.build == 0,
            !frames.pending,
            frames.commands@.len() == 0,
    {
        GpuFrames { build: 0, pending: false, commands: Vec::new() }
    }

    /// Start building the next frame in the other arena.
    pub fn gpu_begin_frame(&mut self)
        requires
            old(self).valid(),
        ensures
            final(self).valid(),
            final(self).build == 1 - old(self).build,
            final(self).pending == old(self).pending,
            final(self).commands@.len() == 0,
    {
        self.build = 1 - self.build;
        self.commands.clear();
    }

    /// Register equal packets, one behind the other in memory, to be drawn in
    /// order over the world. Those beyond the list's capacity are left out.
    pub fn register_screen_packets(&mut self, packet_start: usize, packet_count: usize, words: u8) -> (registered:
        usize)
        requires
            old(self).valid(),
            packet_start + packet_count * 64 <= usize::MAX,
        ensures
            final(self).valid(),
            final(self).build == old(self).build,
            final(self).pending == old(self).pending,
            registered == if packet_start == 0 || words > 15 {
                0
            } else {
                commands_that_fit(old(self).commands@.len() as int, packet_count as int)
            },
            final(self).commands@ == old(self).commands@ + Seq::new(
                registered as nat,
                |i: int| run_command(packet_start as int, words, i),
            ),
    {
        let ghost before = self.commands@;
        if packet_start == 0 || words > 15 {
            assert(self.commands@ =~= before + Seq::new(
                0,
                |i: int| run_command(packet_start as int, words, i),
            ));
            return 0;
        }
        let stride: usize = 4 * (words as usize + 1);
        let mut packet: usize = 0;
        let mut address: usize = packet_start;
        assert(self.commands@ =~= before + Seq::new(
            0,
            |i: int| run_command(packet_start as int, words, i),
        ));
        assert(0 * stride == 0);
        while packet < packet_count && self.commands.len() < MAX_SCREEN_COMMANDS
            invariant
                words <= 15,
                stride == 4 * (words + 1),
                packet_start + packet_count * 64 <= usize::MAX,
                packet <= packet_count,
                self.commands@.len() <= MAX_SCREEN_COMMANDS,
                self.commands@.len() == before.len() + packet,
                address == packet_start + packet * stride,
                self.build == old(self).build,
                self.pending == old(self).pending,
                self.commands@ == before + Seq::new(
                    packet as nat,
                    |i: int| run_command(packet_start as int, words, i),
                ),
            decreases packet_count - packet,
        {
            let ghost held = self.commands@;
            assert(run_command(packet_start as int, words, packet as int).packet == address);
            self.commands.push(ScreenCommand { packet: address, words });
            assert((packet + 1) * stride == packet * stride + stride) by (nonlinear_arith);
            assert((packet + 1) * stride <= packet_count * 64) by (nonlinear_arith)
                requires
                    packet + 1 <= packet_count,
                    stride <= 64,
            ;
            packet += 1;
            address += stride;
            assert(self.commands@ =~= before + Seq::new(
                packet as nat,
                |i: int| run_command(packet_start as int, words, i),
            ));
        }
        packet
    }

    pub fn registered_screen_packet_count(&self) -> (count: usize)
        ensures
            count == self.commands@.len(),
    {
        self.commands.len()
    }

    /// The frame was handed over.
    pub fn gpu_end_frame(&mut self)
        requires
            old(self).valid(),
        ensures
            final(self).valid(),
            final(self).pending,
            final(self).build == old(self).build,
            final(self).commands == old(self).commands,
    {
        self.pending = true;
    }

    /// Whether a submitted frame has to be waited for and shown now; after
    /// that none is pending.
    pub fn gpu_present_pending_frame(&mut self) -> (show: bool)
        requires
            old(self).valid(),
        ensures
            final(self).valid(),
            show == old(self).pending,
            !final(self).pending,
            final(self).build == old(self).build,
            final(self).commands == old(self).commands,
    {
        let show: bool = self.pending;
        self.pending = false;
        show
    }
}

/// The drawing environment of a new back buffer, as the first two packets of
/// its chain.
#[derive(Copy, Clone, Debug, PartialEq, Eq, Structural)]
pub struct Preamble {
    pub target_tag: u32,
    pub draw_area_top_left: u32,
    pub draw_area_bottom_right: u32,
    pub draw_offset: u32,
    pub clear_tag: u32,
    pub draw_mode: u32,
    pub texture_window: u32,
    pub fill: u32,
    pub fill_xy: u32,
    pub fill_wh: u32,
}

/// A tag: the number of words, and the low 24 bits of the next packet's
/// address.
pub open spec fn tag_word(words: int, next: int) -> int {
    words * 0x100_0000 + next % 0x100_0000
}

pub open spec fn preamble_for(
    target_y: u16,
    list_head: u32,
    clear_tag_address: u32,
    draw_mode: u32,
    texture_window: u32,
) -> Preamble {
    Preamble {
        target_tag: tag_word(3, clear_tag_address as int) as u32,
        draw_area_top_left: (0xe300_0000 + target_y * 1024) as u32,
        draw_area_bottom_right: (0xe400_0000 + (WIDTH - 1) + (target_y + HEIGHT - 1) * 1024) as u32,
        draw_offset: (0xe500_0000 + target_y * 2048) as u32,
        clear_tag: tag_word(5, list_head as int) as u32,
        draw_mode,
        texture_window,
        fill: 0x0200_0000,
        fill_xy: (target_y * 65536) as u32,
        fill_wh: (HEIGHT * 65536 + WIDTH) as u32,
    }
}

/// Fill in the drawing environment for a buffer whose first line is
/// `target_y`.
pub fn frame_preamble(
    target_y: u16,
    list_head: u32,
    clear_tag_address: u32,
    draw_mode: u32,
    texture_window: u32,
) -> (preamble: Preamble)
    requires
        target_y <= BACK_BUFFER_Y,
    ensures
        preamble == preamble_for(
            target_y,
            list_head,
            clear_tag_address,
            draw_mode,
            texture_window,
        ),
{
    let y: u32 = target_y as u32;
    Preamble {
        target_tag: 3 * 0x100_0000 + clear_tag_address % 0x100_0000,
        draw_area_top_left: 0xe300_0000 + y * 1024,
        draw_area_bottom_right: 0xe400_0000 + (WIDTH as u32 - 1) + (y + HEIGHT as u32 - 1) * 1024,
        draw_offset: 0xe500_0000 + y * 2048,
        clear_tag: 5 * 0x100_0000 + list_head % 0x100_0000,
        draw_mode,
        texture_window,
        fill: 0x0200_0000,
        fill_xy: y * 65536,
        fill_wh: HEIGHT as u32 * 65536 + WIDTH as u32,
    }
}

/// How a finished frame is queued.
#[derive(Copy, Clone, Debug, PartialEq, Eq, Structural)]
pub struct QueuePlan {
    /// Command that shows the frame before; 0 when there is none.
    pub display: u32,
    /// Which buffer this frame draws into.
    pub drawing: usize,
    pub target_y: u16,
    /// Wait for the graphics processor and move the draw target by hand, so
    /// that staged transfers go between the two frames.
    pub target_by_hand: bool,
    /// The chain begins with the draw target rather than with the clear.
    pub target_in_chain: bool,
}

/// First line of a buffer.
pub open spec fn buffer_line(buffer: int) -> u16 {
    if buffer == 0 {
        0
    } else {
        BACK_BUFFER_Y
    }
}

pub fn buffer_y(buffer: usize) -> (line: u16)
    ensures
        line == buffer_line(buffer as int),
{
    if buffer == 0 {
        0
    } else {
        BACK_BUFFER_Y
    }
}

pub open spec fn queue_plan(pending: bool, drawing: usize, transfers: bool) -> QueuePlan {
    let target = if pending {
        (1 - drawing) as usize
    } else {
        drawing
    };
    QueuePlan {
        display: if pending {
            (0x0500_0000 + buffer_line(drawing as int) * 1024) as u32
        } else {
            0
        },
        drawing: target,
        target_y: buffer_line(target as int),
        target_by_hand: pending && transfers,
        target_in_chain: pending && !transfers,
    }
}

/// Decide how a finished frame is queued. A frame before it that has not been
/// shown is in the current draw target; it is shown, and this frame draws into
/// the other buffer.
pub fn queue_frame(pending: bool, drawing: usize, transfers: bool) -> (plan: QueuePlan)
    requires
        drawing < 2,
    ensures
        plan == queue_plan(pending, drawing, transfers),
{
    let (display, target): (u32, usize) = if pending {
        (0x0500_0000 + buffer_y(drawing) as u32 * 1024, 1 - drawing)
    } else {
        (0, drawing)
    };
    QueuePlan {
        display,
        drawing: target,
        target_y: buffer_y(target),
        target_by_hand: pending && transfers,
        target_in_chain: pending && !transfers,
    }
}

/// A frame never draws into the buffer that its display command shows, and
/// the draw target moves exactly when there is something to show.
pub proof fn shown_and_drawn_differ(pending: bool, drawing: usize, transfers: bool)
    requires
        drawing < 2,
    ensures
        ({
            let plan = queue_plan(pending, drawing, transfers);
            &&& pending ==> plan.display != 0x0500_0000 + plan.target_y * 1024
            &&& (plan.display != 0) == pending
            &&& (plan.target_by_hand || plan.target_in_chain) == pending
            &&& !(plan.target_by_hand && plan.target_in_chain)
        }),
{
}

/// Centre of the projection, in 1/65536 of a pixel, and its distance.
#[derive(Copy, Clone, Debug, PartialEq, Eq, Structural)]
pub struct Projection {
    pub offset_x: i32,
    pub offset_y: i32,
    pub plane: u16,
}

/// Weights of the averaged depth of triangles and quads.
pub const DEPTH_WEIGHT_TRIANGLE: u16 = 0x155;

pub const DEPTH_WEIGHT_QUAD: u16 = 0x100;

pub fn configure_quake_projection() -> (projection: Projection)
    ensures
        projection.offset_x == 160 * 65536,
        projection.offset_y == 120 * 65536,
        projection.plane == 160,
{
    Projection { offset_x: 160 * 65536, offset_y: 120 * 65536, plane: 160 }
}

/// The projection with its centre moved by whole pixels.
pub open spec fn wobbling(offset_x: i16, offset_y: i16, plane: u16) -> Projection {
    Projection {
        offset_x: ((160 + offset_x) as i32).wrapping_mul(65536),
        offset_y: ((120 + offset_y) as i32).wrapping_mul(65536),
        plane,
    }
}

/// The underwater wobble of one frame: the centre is moved by whole pixels.
pub fn configure_underwater_projection(offset_x: i16, offset_y: i16, plane: u16) -> (projection:
    Projection)
    ensures
        projection == wobbling(offset_x, offset_y, plane),
{
    Projection {
        offset_x: (160 + offset_x as i32).wrapping_mul(65536),
        offset_y: (120 + offset_y as i32).wrapping_mul(65536),
        plane,
    }
}

/// Without a wobble the projection is the usual one.
pub proof fn still_water_projects_as_usual()
    ensures
        wobbling(0, 0, 160).offset_x == 160 * 65536,
        wobbling(0, 0, 160).offset_y == 120 * 65536,
        wobbling(0, 0, 160).plane == 160,
{
}

/// Rows of a rotation, in 1/4096.
#[derive(Copy, Clone, Debug, PartialEq, Eq, Structural)]
pub struct Rotation {
    pub x: Vec3I16,
    pub y: Vec3I16,
    pub z: Vec3I16,
}

/// From the world's axes, where z is up, to the view's, where y is down and z
/// is forward, three times as large. View models use it as it is, so that they
/// stay with the camera.
pub open spec fn coordinate_rotation() -> Rotation {
    Rotation {
        x: Vec3I16 { x: 0, y: (-0x3000) as i16, z: 0 },
        y: Vec3I16 { x: 0, y: 0, z: (-0x3000) as i16 },
        z: Vec3I16 { x: 0x3000, y: 0, z: 0 },
    }
}

pub fn quake_coordinate_rotation() -> (rotation: Rotation)
    ensures
        rotation == coordinate_rotation(),
{
    Rotation {
        x: Vec3I16 { x: 0, y: -0x3000, z: 0 },
        y: Vec3I16 { x: 0, y: 0, z: -0x3000 },
        z: Vec3I16 { x: 0x3000, y: 0, z: 0 },
    }
}

/// An angle as the rotation routine takes it: 16 bits scaled to 12.
pub open spec fn rotation_step(angle: i16) -> u16 {
    (if angle < 0 {
        (angle + 65536) / 16
    } else {
        angle as int / 16
    }) as u16
}

fn angle_step(angle: i16) -> (step: u16)
    ensures
        step == rotation_step(angle),
{
    if angle < 0 {
        ((angle as i32 + 65536) / 16) as u16
    } else {
        (angle / 16) as u16
    }
}

/// What the camera hands to the rotation routine: its angles, and the negated
/// origin in whole units.
#[derive(Copy, Clone, Debug, PartialEq, Eq, Structural)]
pub struct ViewInputs {
    pub pitch: u16,
    pub yaw: u16,
    pub roll: u16,
    pub translation: Vec3I16,
}

pub open spec fn negated_units(value: int) -> int {
    clamp_int((-value) / 4096, i16::MIN as int, i16::MAX as int)
}

fn negate_units(value: i32) -> (units: i16)
    requires
        value != i32::MIN,
    ensures
        units == negated_units(value as int),
{
    let whole: i32 = whole_units(-value);
    if whole < i16::MIN as i32 {
        i16::MIN
    } else if whole > i16::MAX as i32 {
        i16::MAX
    } else {
        whole as i16
    }
}

pub fn load_quake_camera(origin: Vec3I32, angles: Vec3I16) -> (view: ViewInputs)
    requires
        origin.x != i32::MIN,
        origin.y != i32::MIN,
        origin.z != i32::MIN,
    ensures
        view.pitch == rotation_step(angles.x),
        view.yaw == rotation_step(angles.y),
        view.roll == rotation_step(angles.z),
        view.translation.x == negated_units(origin.x as int),
        view.translation.y == negated_units(origin.y as int),
        view.translation.z == negated_units(origin.z as int),
{
    ViewInputs {
        pitch: angle_step(angles.x),
        yaw: angle_step(angles.y),
        roll: angle_step(angles.z),
        translation: Vec3I16 {
            x: negate_units(origin.x),
            y: negate_units(origin.y),
            z: negate_units(origin.z),
        },
    }
}

/// A tag holds the number of words that follow it and the address of the next
/// packet.
pub proof fn tags_hold_words_and_address(words: int, next: int)
    requires
        0 <= words < 256,
        0 <= next < 0x100_0000,
    ensures
        0 <= tag_word(words, next) < 0x1_0000_0000,
        tag_word(words, next) / 0x100_0000 == words,
        tag_word(words, next) % 0x100_0000 == next,
{
}

/// The preamble draws into the screen's rectangle that begins at the target's
/// line and clears just that rectangle. It leads on to the clear and from there
/// to the list.
pub proof fn preambles_cover_their_buffer(
    target_y: u16,
    list_head: u32,
    clear_tag_address: u32,
    draw_mode: u32,
    texture_window: u32,
)
    requires
        target_y <= 256,
    ensures
        ({
            let p = preamble_for(
                target_y,
                list_head,
                clear_tag_address,
                draw_mode,
                texture_window,
            );
            let corner = p.draw_area_top_left - 0xe300_0000;
            let far = p.draw_area_bottom_right - 0xe400_0000;
            let offset = p.draw_offset - 0xe500_0000;
            &&& corner % 1024 == 0 && corner / 1024 == target_y
            &&& far % 1024 == 319 && far / 1024 == target_y + 239
            &&& offset % 2048 == 0 && offset / 2048 == target_y
            &&& p.fill_xy % 65536 == 0 && p.fill_xy / 65536 == target_y
            &&& p.fill_wh % 65536 == 320 && p.fill_wh / 65536 == 240
            &&& p.target_tag / 0x100_0000 == 3 && p.clear_tag / 0x100_0000 == 5
            &&& p.target_tag % 0x100_0000 == clear_tag_address % 0x100_0000
            &&& p.clear_tag % 0x100_0000 == list_head % 0x100_0000
            &&& p.draw_mode == draw_mode && p.texture_window == texture_window
            &&& p.fill == 0x0200_0000
        }),
{
}

/// With a frame pending that frame's buffer is shown and the other one drawn;
/// without one nothing is shown and the buffer stays.
pub proof fn buffers_take_turns(pending: bool, drawing: usize, transfers: bool)
    requires
        drawing < 2,
    ensures
        ({
            let plan = queue_plan(pending, drawing, transfers);
            &&& pending ==> plan.drawing == 1 - drawing && plan.display - 0x0500_0000 == 1024 * (
            if drawing == 0 {
                0int
            } else {
                256
            })
            &&& !pending ==> plan.drawing == drawing && plan.display == 0
            &&& plan.target_y == (if plan.drawing == 0 {
                0int
            } else {
                256
            })
            &&& plan.target_by_hand <==> pending && transfers
            &&& plan.target_in_chain <==> pending && !transfers
        }),
{
}

/// At a blank a queued frame is either started or counted as waiting, and nothing
/// else changes.
pub proof fn blanks_start_or_count(queue: PresentQueue, draw_done: bool, channel_busy: bool)
    ensures
        ({
            let after = after_vblank(queue, draw_done, channel_busy);
            &&& after.display == queue.display && after.recoveries == queue.recoveries
            &&& queue.head == 0 ==> after == queue
            &&& queue.head != 0 && draw_done && !channel_busy ==> after.head == 0 && after.kicks
                == queue.kicks.wrapping_add(1) && after.skipped == queue.skipped
            &&& queue.head != 0 && (!draw_done || channel_busy) ==> after.head == queue.head
                && after.kicks == queue.kicks && after.skipped == queue.skipped.wrapping_add(1)
        }),
{
}

/// A wait ends in a release once the limit of blanks has gone by, however the
/// counter of blanks runs over.
pub proof fn waits_end_at_their_limit(start: u32, blanks: u32)
    ensures
        ({
            let now = start.wrapping_add(blanks);
            &&& wait_step(false, start, now) is Ready
            &&& blanks < 8 ==> wait_step(true, start, now) is Spin
            &&& blanks >= 8 ==> wait_step(true, start, now) is Release
        }),
{
}

/// The commands of a run follow one another without a gap.
pub proof fn commands_follow_one_another(start: int, words: u8, index: int)
    requires
        0 <= start <= 0x1000_0000,
        0 <= index <= 1000,
    ensures
        run_command(start, words, 0).packet == start,
        run_command(start, words, index + 1).packet - run_command(start, words, index).packet == 4
            * words + 4,
        run_command(start, words, index).words == words,
{
    let size = 4 * (words + 1);
    assert(0 <= index * size <= 1_024_000) by (nonlinear_arith)
        requires
            0 <= index <= 1000,
            0 <= size <= 1024,
    ;
    assert((index + 1) * size == index * size + size) by (nonlinear_arith);
    assert(0 * size == 0) by (nonlinear_arith);
}

/// The wobble moves the centre of the projection by its own offsets, in pixels.
pub proof fn wobbles_move_the_centre(offset_x: i16, offset_y: i16, plane: u16)
    requires
        -320 <= offset_x <= 320,
        -240 <= offset_y <= 240,
    ensures
        ({
            let p = wobbling(offset_x, offset_y, plane);
            &&& p.offset_x == 65536 * (160 + offset_x)
            &&& p.offset_y == 65536 * (120 + offset_y)
            &&& p.plane == plane
        }),
{
}

/// The rotation into view coordinates takes the world's forward to the depth, its
/// left against the screen's x and its up against the screen's y, each times
/// three.
pub proof fn world_axes_become_view_axes(x: int, y: int, z: int)
    ensures
        ({
            let r = coordinate_rotation();
            &&& r.x.x * x + r.x.y * y + r.x.z * z == -(3 * 4096 * y)
            &&& r.y.x * x + r.y.y * y + r.y.z * z == -(3 * 4096 * z)
            &&& r.z.x * x + r.z.y * y + r.z.z * z == 3 * 4096 * x
        }),
{
    let r = coordinate_rotation();
    assert(r.x.x * x == 0 && r.x.z * z == 0 && r.y.x * x == 0 && r.y.y * y == 0 && r.z.y * y == 0
        && r.z.z * z == 0) by (nonlinear_arith)
        requires
            r.x.x == 0,
            r.x.z == 0,
            r.y.x == 0,
            r.y.y == 0,
            r.z.y == 0,
            r.z.z == 0,
    ;
    assert(r.x.y * y == -(12288 * y)) by (nonlinear_arith)
        requires
            r.x.y == -12288,
    ;
    assert(r.y.z * z == -(12288 * z)) by (nonlinear_arith)
        requires
            r.y.z == -12288,
    ;
    assert(r.z.x * x == 12288 * x) by (nonlinear_arith)
        requires
            r.z.x == 12288,
    ;
}

/// A turn is cut into 4096 steps of sixteen, and an angle below zero is the same
/// turn from the other side.
pub proof fn angles_become_steps(angle: i16)
    ensures
        rotation_step(angle) < 4096,
        angle >= 0 ==> 16 * rotation_step(angle) <= angle < 16 * rotation_step(angle) + 16,
        angle < 0 ==> 16 * (rotation_step(angle) - 4096) <= angle < 16 * (rotation_step(angle)
            - 4096) + 16,
{
}

/// A whole number of units is turned round exactly.
pub proof fn whole_units_are_negated(units: int)
    requires
        -32767 <= units <= 32768,
    ensures
        negated_units(4096 * units) == -units,
{
    assert((-(4096 * units)) / 4096 == -units);
}

/// As many commands are taken as there is room for, of 384.
pub proof fn commands_are_taken_while_they_fit(used: int, count: int)
    requires
        0 <= used <= 384,
        0 <= count,
    ensures
        used + count <= 384 ==> commands_that_fit(used, count) == count,
        used + count > 384 ==> used + commands_that_fit(used, count) == 384,
{
}

} // verus!
