use quake_psx::performance::HardwarePerformance;
use quake_psx::performance::PresentInterval;
use quake_psx::performance::PresentMeter;
use quake_psx::performance::HARDWARE_PERF_SAMPLE_FRAMES;
use quake_psx::present::buffer_y;
use quake_psx::present::configure_quake_projection;
use quake_psx::present::configure_underwater_projection;
use quake_psx::present::frame_preamble;
use quake_psx::present::load_quake_camera;
use quake_psx::present::quake_coordinate_rotation;
use quake_psx::present::queue_frame;
use quake_psx::present::BlankAction;
use quake_psx::present::GpuFrames;
use quake_psx::present::PresentQueue;
use quake_psx::present::WaitStep;
use quake_psx::present::MAX_SCREEN_COMMANDS;
use quake_psx::world::Vec3I16;
use quake_psx::world::Vec3I32;

#[test]
fn an_empty_slot_is_idle() {
    let mut queue = PresentQueue::new();
    assert_eq!(queue.on_vblank(true, false), BlankAction::Idle);
    assert_eq!(queue, PresentQueue::new());
}

#[test]
fn a_queued_frame_waits_for_the_one_before_it() {
    let mut queue = PresentQueue::new();
    queue.publish(0x1234, 0x0500_0000);
    assert!(queue.slot_full());
    assert_eq!(queue.on_vblank(false, false), BlankAction::Wait);
    assert_eq!(queue.on_vblank(true, true), BlankAction::Wait);
    assert_eq!(
        queue.on_vblank(true, false),
        BlankAction::Kick { head: 0x1234, display: Some(0x0500_0000) }
    );
    assert_eq!(queue.on_vblank(true, false), BlankAction::Idle);
    assert_eq!((queue.skipped, queue.kicks), (2, 1));
}

#[test]
fn the_first_frame_shows_nothing() {
    let mut queue = PresentQueue::new();
    queue.publish(8, 0);
    assert_eq!(queue.on_vblank(true, false), BlankAction::Kick { head: 8, display: None });
}

#[test]
fn waits_are_bounded() {
    let mut queue = PresentQueue::new();
    assert_eq!(queue.wait_slot_empty(10, 100), WaitStep::Ready);
    queue.publish(8, 0);
    assert_eq!(queue.wait_slot_empty(10, 17), WaitStep::Spin);
    assert_eq!(queue.wait_slot_empty(10, 18), WaitStep::Release);
    assert_eq!(queue.wait_slot_empty(u32::MAX, 6), WaitStep::Spin);
    assert_eq!(queue.wait_slot_empty(u32::MAX, 7), WaitStep::Release);
    assert_eq!(queue.wait_arena_free(false, 10, 100), WaitStep::Ready);
    assert_eq!(queue.wait_arena_free(true, 10, 17), WaitStep::Spin);
    assert_eq!(queue.wait_arena_free(true, 10, 18), WaitStep::Release);
}

#[test]
fn a_stalled_chain_is_given_up() {
    let mut queue = PresentQueue::new();
    queue.publish(8, 0);
    let finished = queue.release_stalled_slot(true, true);
    assert!(!finished.raise_flag && !finished.stop_chain);
    let stuck = queue.release_stalled_slot(false, true);
    assert!(stuck.raise_flag && stuck.stop_chain);
    let lost = queue.release_stalled_slot(false, false);
    assert!(lost.raise_flag && !lost.stop_chain);
    assert_eq!(queue.recoveries, 2);
    assert_eq!(queue.on_vblank(true, false), BlankAction::Kick { head: 8, display: None });
}

#[test]
fn late_commands_are_registered_in_order() {
    let mut frames = GpuFrames::new();
    assert_eq!(frames.register_screen_packets(0, 3, 4), 0);
    assert_eq!(frames.register_screen_packets(1000, 3, 16), 0);
    assert_eq!(frames.register_screen_packets(1000, 2, 9), 2);
    assert_eq!(frames.commands[0].packet, 1000);
    assert_eq!(frames.commands[1].packet, 1040);
    assert_eq!(frames.commands[1].words, 9);
    assert_eq!(frames.register_screen_packets(5000, 1000, 0), MAX_SCREEN_COMMANDS - 2);
    assert_eq!(frames.registered_screen_packet_count(), MAX_SCREEN_COMMANDS);
    frames.gpu_begin_frame();
    assert_eq!(frames.build, 1);
    assert_eq!(frames.registered_screen_packet_count(), 0);
}

#[test]
fn a_pending_frame_is_shown_once() {
    let mut frames = GpuFrames::new();
    assert!(!frames.gpu_present_pending_frame());
    frames.gpu_end_frame();
    assert!(frames.gpu_present_pending_frame());
    assert!(!frames.gpu_present_pending_frame());
}

#[test]
fn frames_draw_into_the_buffer_that_is_not_shown() {
    let first = queue_frame(false, 0, false);
    assert_eq!((first.display, first.drawing, first.target_y), (0, 0, 0));
    assert!(!first.target_in_chain && !first.target_by_hand);
    let second = queue_frame(true, 0, false);
    assert_eq!((second.display, second.drawing, second.target_y), (0x0500_0000, 1, 256));
    assert!(second.target_in_chain);
    let third = queue_frame(true, 1, true);
    assert_eq!((third.display, third.drawing, third.target_y), (0x0504_0000, 0, 0));
    assert!(third.target_by_hand && !third.target_in_chain);
    assert_eq!(buffer_y(1), 256);
}

#[test]
fn the_preamble_sets_up_the_back_buffer() {
    let preamble = frame_preamble(256, 0x8012_3456, 0x8065_4321, 0xe100_0200, 0xe200_0000);
    assert_eq!(preamble.draw_area_top_left, 0xe300_0000 | (256 << 10));
    assert_eq!(preamble.draw_area_bottom_right, 0xe400_0000 | 319 | (495 << 10));
    assert_eq!(preamble.draw_offset, 0xe500_0000 | (256 << 11));
    assert_eq!(preamble.fill, 0x0200_0000);
    assert_eq!(preamble.fill_xy, 256 << 16);
    assert_eq!(preamble.fill_wh, (240 << 16) | 320);
    assert_eq!(preamble.clear_tag, 0x0512_3456);
    assert_eq!(preamble.target_tag, 0x0365_4321);
    assert_eq!(preamble.draw_mode, 0xe100_0200);
    assert_eq!(preamble.texture_window, 0xe200_0000);
}

#[test]
fn the_projection_is_centred_and_wobbles() {
    let usual = configure_quake_projection();
    assert_eq!((usual.offset_x, usual.offset_y, usual.plane), (160 << 16, 120 << 16, 160));
    assert_eq!(configure_underwater_projection(0, 0, 160), usual);
    let moved = configure_underwater_projection(-3, 5, 150);
    assert_eq!((moved.offset_x, moved.offset_y, moved.plane), (157 << 16, 125 << 16, 150));
    assert_eq!(configure_underwater_projection(i16::MAX, 0, 1).offset_x, (160 + 32767) << 16);
}

#[test]
fn the_camera_is_scaled_for_the_rotation() {
    let view = load_quake_camera(
        Vec3I32 { x: 4096 * 10 + 1, y: -4096, z: 0 },
        Vec3I16 { x: 16, y: -16, z: 0 },
    );
    assert_eq!((view.pitch, view.yaw, view.roll), (1, 4095, 0));
    assert_eq!(view.translation, Vec3I16 { x: -11, y: 1, z: 0 });
    let far = load_quake_camera(
        Vec3I32 { x: i32::MAX, y: i32::MIN + 1, z: 0 },
        Vec3I16 { x: 0, y: 0, z: 0 },
    );
    assert_eq!(far.translation, Vec3I16 { x: i16::MIN, y: i16::MAX, z: 0 });
    let axes = quake_coordinate_rotation();
    assert_eq!((axes.x.y, axes.y.z, axes.z.x), (-0x3000, -0x3000, 0x3000));
}

#[test]
fn intervals_are_counted_by_length() {
    let mut meter = PresentMeter::hardware_perf_reset();
    assert_eq!(meter.hardware_performance(), HardwarePerformance::new());
    assert_eq!(meter.hardware_perf_record_present(100, true), None);
    assert_eq!(
        meter.hardware_perf_record_present(101, true),
        Some(PresentInterval { elapsed: 1, lateness: 0 })
    );
    meter.hardware_perf_record_present(103, true);
    assert_eq!(
        meter.hardware_perf_record_present(108, true),
        Some(PresentInterval { elapsed: 5, lateness: 3 })
    );
    assert_eq!(meter.hardware_perf_record_present(108, true), None);
    let snapshot = meter.hardware_performance();
    assert_eq!((snapshot.samples, snapshot.total_vblanks, snapshot.max_vblanks), (3, 8, 5));
    assert_eq!(
        (snapshot.one_vblank, snapshot.two_vblank, snapshot.three_plus_vblank),
        (1, 1, 1)
    );
    assert_eq!((snapshot.magic, snapshot.version), (0x5057_4851, 2));
}

#[test]
fn waits_for_the_processor_are_counted_between_frames() {
    let mut meter = PresentMeter::hardware_perf_reset();
    meter.hardware_perf_record_gpu_wait(1, 5);
    assert_eq!(meter.hardware_performance().gpu_wait_events, 0);
    meter.hardware_perf_record_present(10, true);
    meter.hardware_perf_record_gpu_wait(10, 10);
    meter.hardware_perf_record_gpu_wait(10, 13);
    meter.hardware_perf_record_gpu_wait(20, 21);
    let snapshot = meter.hardware_performance();
    assert_eq!(
        (snapshot.gpu_wait_events, snapshot.gpu_wait_vblanks, snapshot.gpu_wait_max_vblanks),
        (2, 4, 3)
    );
}

#[test]
fn a_limited_measurement_ends_by_itself() {
    let mut meter = PresentMeter::hardware_perf_reset();
    for frame in 0..2000 {
        meter.hardware_perf_record_present(frame * 2, true);
    }
    let snapshot = meter.hardware_performance();
    assert_eq!(snapshot.samples, HARDWARE_PERF_SAMPLE_FRAMES);
    assert!(snapshot.complete && !snapshot.active);
    meter.hardware_performance_resume();
    assert_eq!(meter.hardware_performance(), snapshot);
}

#[test]
fn an_unlimited_measurement_is_finished_by_hand() {
    let mut meter = PresentMeter::hardware_perf_reset();
    for frame in 0..1000 {
        meter.hardware_perf_record_present(frame, false);
    }
    assert_eq!(meter.hardware_performance().samples, 999);
    meter.hardware_performance_pause();
    meter.hardware_perf_record_present(5000, false);
    meter.hardware_performance_resume();
    meter.hardware_perf_record_present(6000, false);
    meter.hardware_perf_record_present(6001, false);
    assert_eq!(meter.hardware_performance().samples, 1000);
    assert_eq!(meter.hardware_performance().max_vblanks, 1);
    meter.hardware_performance_finish();
    assert!(meter.hardware_performance().complete);
}
