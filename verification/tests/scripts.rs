use quake_psx::episode::map_at;
use quake_psx::episode::EpisodeMap;
use quake_psx::episode1_regression::boss_death_target;
use quake_psx::episode1_regression::detour_offset;
use quake_psx::episode1_regression::detoured;
use quake_psx::episode1_regression::extend;
use quake_psx::episode1_regression::movement_input;
use quake_psx::episode1_regression::view_components;
use quake_psx::episode1_regression::waypoint;
use quake_psx::episode1_regression::BossMapFacts;
use quake_psx::episode1_regression::BossSnapshot;
use quake_psx::episode1_regression::ControlStep;
use quake_psx::episode1_regression::EpisodeRun;
use quake_psx::episode1_regression::GameplayFacts;
use quake_psx::episode1_regression::HallFacts;
use quake_psx::episode1_regression::StartRecord;
use quake_psx::episode1_regression::TargetSource;
use quake_psx::episode1_regression::TurnTerms;
use quake_psx::monster_regression::injuries;
use quake_psx::monster_regression::MonsterAct;
use quake_psx::monster_regression::MonsterFrame;
use quake_psx::monster_regression::MonsterProbe;
use quake_psx::monster_regression::MonsterSnapshot;
use quake_psx::monster_regression::Preparation;
use quake_psx::monster_regression::Sightings;
use quake_psx::monster_regression::SourceEntity;
use quake_psx::monsterjump_regression::controls;
use quake_psx::monsterjump_regression::initial_map;
use quake_psx::monsterjump_regression::JumpProbe;
use quake_psx::monsterjump_regression::JumpSnapshot;
use quake_psx::probe::aim_deltas;
use quake_psx::probe::bits_of;
use quake_psx::probe::is_within_a_unit;
use quake_psx::probe::recorded_health;
use quake_psx::probe::Probe;
use quake_psx::regression::route_map;
use quake_psx::regression::transition_bit;
use quake_psx::regression::DriveStep;
use quake_psx::regression::RouteProbe;
use quake_psx::regression::RouteState;
use quake_psx::regression::TrainSample;
use quake_psx::world::Vec3I32;

fn point(x: i32, y: i32, z: i32) -> Vec3I32 {
    Vec3I32 { x, y, z }
}

fn units(x: i32, y: i32, z: i32) -> Vec3I32 {
    point(x * 4096, y * 4096, z * 4096)
}

#[test]
fn the_first_failure_is_kept() {
    let mut probe = Probe::new(3, 1, 0);
    assert_eq!((probe.magic, probe.version, probe.phase), (0x5150_5358, 3, 1));
    assert_eq!(probe.current_map, u32::MAX);
    probe.fail(5, 6, 7);
    probe.fail_at(8, 9, 10, 11);
    assert_eq!((probe.failure_code, probe.failure_map, probe.failure_detail), (5, 6, 7));
    assert_eq!((probe.failure_entity, probe.phase), (0, 0xff));
    let mut other = Probe::new(3, 1, 0);
    other.fail_at(8, 9, 10, 11);
    assert_eq!((other.failure_code, other.failure_entity), (8, 10));
}

#[test]
fn numbers_are_recorded_as_bits() {
    assert_eq!(bits_of(-1), u32::MAX);
    assert_eq!(bits_of(7), 7);
    assert_eq!(recorded_health(-3), 0);
    assert_eq!(recorded_health(99), 99);
    assert!(is_within_a_unit(point(4095, 0, 0), point(0, 0, 0)));
    assert!(!is_within_a_unit(point(0, -4096, 0), point(0, 0, 0)));
    let deltas = aim_deltas(units(1, 2, 3), units(4, 1, 3));
    assert_eq!((deltas.dx, deltas.dy, deltas.dz), (3, -1, 0));
}

fn still_trains() -> TrainSample {
    TrainSample { longest: 0, trains: 0, checksum: 0, leg: [0; 13] }
}

#[test]
fn a_walk_visits_every_map_and_takes_every_exit() {
    let mut run = RouteProbe::new();
    let mut map = EpisodeMap::Start;
    run.map_loaded(map);
    let mut loads = 1;
    while loads < 12 {
        match run.drive(map, still_trains()) {
            DriveStep::Wait => {},
            DriveStep::Reload(next) => {
                assert_eq!(loads, 10);
                map = next;
                run.map_loaded(map);
                loads += 1;
            },
            DriveStep::Exit(next) => {
                assert_eq!(run.take_exit(map, Some(units(1, 2, 3))), Some(units(1, 2, 3)));
                map = next;
                run.map_loaded(map);
                loads += 1;
            },
        }
    }
    assert_eq!(run.drive(map, still_trains()), DriveStep::Wait);
    assert_eq!(run.probe.phase, 0x40);
    assert_eq!(run.probe.transitions, 0x3ff);
    assert_eq!(run.probe.maps_loaded, 0x1ff);
    assert_eq!(run.probe.failure_code, 0);
    assert_eq!(run.probe.map_loads, 12);
    // Eight frames in each of the eleven maps that are left, and one more.
    assert_eq!(run.probe.total_frames, 89);
}

#[test]
fn a_wrong_map_fails_the_walk() {
    let mut run = RouteProbe::new();
    run.map_loaded(EpisodeMap::E1M1);
    assert_eq!((run.probe.failure_code, run.probe.failure_map), (1, 1));

    let mut run = RouteProbe::new();
    run.map_loaded(EpisodeMap::Start);
    run.map_loaded(EpisodeMap::Start);
    assert_eq!(run.probe.failure_code, 1);

    let mut run = RouteProbe::new();
    run.map_loaded(EpisodeMap::Start);
    for _ in 0..8 {
        run.drive(EpisodeMap::Start, still_trains());
    }
    run.map_loaded(EpisodeMap::E1M5);
    assert_eq!(
        (run.probe.failure_code, run.probe.failure_map, run.probe.failure_detail),
        (2, 5, 1)
    );

    let mut run = RouteProbe::new();
    run.map_loaded(EpisodeMap::Start);
    run.drive(EpisodeMap::E1M2, still_trains());
    assert_eq!((run.probe.failure_code, run.probe.failure_map), (1, 2));
}

#[test]
fn a_missing_exit_fails_the_walk() {
    let mut run = RouteProbe::new();
    run.map_loaded(EpisodeMap::Start);
    for _ in 0..7 {
        assert_eq!(run.drive(EpisodeMap::Start, still_trains()), DriveStep::Wait);
    }
    assert_eq!(run.drive(EpisodeMap::Start, still_trains()), DriveStep::Exit(EpisodeMap::E1M1));
    assert_eq!(run.take_exit(EpisodeMap::Start, None), None);
    assert_eq!((run.probe.failure_code, run.probe.failure_detail), (5, 1));
    assert!(!run.state.pending);
}

#[test]
fn trains_are_watched_in_their_map() {
    let mut run = RouteProbe::new();
    run.state = RouteState { initialized: true, route_index: 6, ..RouteState::new() };
    let mut leg = [0; 13];
    leg[0] = -1;
    leg[12] = 5;
    run.drive(EpisodeMap::E1M5, TrainSample { longest: 40, trains: 4, checksum: 100, leg });
    assert_eq!((run.probe.state_ranges, run.probe.valid_state_ranges), (40, 0));
    run.drive(EpisodeMap::E1M5, TrainSample { longest: 30, trains: 4, checksum: 90, leg });
    assert_eq!((run.probe.state_ranges, run.probe.valid_state_ranges), (40, 10));
    assert_eq!((run.probe.weapon_selected, run.probe.intermission_state), (u32::MAX, 5));
}

#[test]
fn packet_memory_is_watched() {
    let mut run = RouteProbe::new();
    run.observe_render(100, false);
    run.observe_render(50, true);
    assert_eq!((run.probe.weapon_pickups, run.probe.target_edges), (100, 1));
}

#[test]
fn stops_and_exits_of_the_walk() {
    let stops: Vec<EpisodeMap> = (0..12).map(route_map).collect();
    assert_eq!(stops[5], EpisodeMap::E1M8);
    assert_eq!(stops[9], EpisodeMap::Start);
    assert_eq!(stops[10], EpisodeMap::E1M4);
    assert_eq!(transition_bit(8), 1 << 8);
    assert_eq!(transition_bit(9), 0);
    assert_eq!(transition_bit(10), 1 << 9);
    assert_eq!(transition_bit(11), 0);
    assert!((0..9).all(|index| stops.contains(&map_at(index))));
}

fn jumper(z: i32, leaping: bool, forced_jump: bool) -> Option<JumpSnapshot> {
    Some(JumpSnapshot { origin: units(3, 4, z), leaping, forced_jump, frame: 9 })
}

fn jump_run() -> JumpProbe {
    let mut run = JumpProbe::new();
    let eye = run.setup(EpisodeMap::E1M6, Some((33, units(100, 20, 10))), true);
    assert_eq!(eye, Some(units(4, 20, 35)));
    run
}

#[test]
fn a_jump_is_seen_from_trigger_to_landing() {
    assert_eq!(initial_map(), EpisodeMap::E1M6);
    assert_eq!(controls().movement, [0, 0]);
    let mut run = jump_run();
    assert_eq!((run.probe.route_index, run.probe.weapon_selected), (33, 100));
    run.observe(jumper(10, false, false), false);
    assert_eq!(run.probe.monster_animated, 0);
    let up = jumper(10, true, true);
    assert!(run.restores(up));
    run.observe(up, true);
    assert!(!run.restores(up));
    assert_eq!(run.probe.monster_animated, 1);
    run.observe(jumper(12, true, true), false);
    assert_eq!(run.probe.monster_animated, 1);
    run.observe(jumper(13, true, true), false);
    assert_eq!(run.probe.monster_animated, 3);
    assert_eq!(run.probe.monster_attack, 3);
    run.observe(jumper(10, false, false), false);
    assert_eq!((run.probe.complete, run.probe.phase, run.probe.player_state), (1, 0xb1, 7));
    assert_eq!(run.probe.total_frames, 5);
    let done = run;
    run.observe(None, false);
    assert_eq!(run, done);
}

#[test]
fn a_jump_that_cannot_be_staged_fails() {
    let mut run = JumpProbe::new();
    assert_eq!(run.setup(EpisodeMap::E1M5, None, false), None);
    assert_eq!((run.probe.failure_code, run.probe.failure_map), (1, 6));
    let mut run = JumpProbe::new();
    assert_eq!(run.setup(EpisodeMap::E1M6, None, true), None);
    assert_eq!((run.probe.failure_code, run.probe.failure_detail), (2, 0));
    let mut run = JumpProbe::new();
    assert_eq!(run.setup(EpisodeMap::E1M6, Some((33, units(0, 0, 0))), false), None);
    assert_eq!((run.probe.failure_entity, run.probe.failure_detail), (33, 1));
}

#[test]
fn a_jump_that_is_lost_fails() {
    let mut run = jump_run();
    run.observe(None, false);
    assert_eq!((run.probe.failure_code, run.probe.failure_detail), (2, 2));
    let mut run = jump_run();
    run.observe(jumper(10, true, true), false);
    assert_eq!((run.probe.failure_code, run.probe.failure_detail), (2, 3));
    let mut run = jump_run();
    for _ in 0..361 {
        run.observe(jumper(10, false, false), false);
    }
    assert_eq!((run.probe.failure_code, run.probe.total_frames), (4, 361));
}

fn source(class_name: u8, x: i32, y: i32, z: i32) -> Option<SourceEntity> {
    Some(SourceEntity { class_name, spawn_flags: 0, origin: units(x, y, z) })
}

fn monster_run() -> MonsterProbe {
    let mut run = MonsterProbe::new();
    assert!(run.setup(
        EpisodeMap::E1M1,
        (50, 51),
        (source(50, 248, 2392, 40), source(51, 88, 1520, -200)),
        (Some(units(1, 1, 1)), Some(units(2, 2, 2))),
        (Some(units(248, 2392, 40)), Some(units(88, 1520, -200))),
    ));
    run
}

fn snapshot(act: MonsterAct) -> Option<MonsterSnapshot> {
    Some(MonsterSnapshot {
        active: true,
        origin: units(0, 0, 0),
        act,
        head_model: true,
        corpse_finished: true,
        frame: 12,
    })
}

fn sightings(act: MonsterAct) -> Sightings {
    Sightings {
        dog: snapshot(act),
        soldier: snapshot(act),
        pain: snapshot(act),
        death: snapshot(MonsterAct::Death),
        gib: snapshot(MonsterAct::Gib),
    }
}

const QUIET: MonsterFrame = MonsterFrame { attacks: 0, player_damage: 0, player_killed: false };

const BITE: MonsterFrame = MonsterFrame { attacks: 1, player_damage: 5, player_killed: false };

const KILL: MonsterFrame = MonsterFrame { attacks: 1, player_damage: 5, player_killed: true };

#[test]
fn monsters_bite_kill_and_suffer() {
    let mut run = monster_run();
    assert_eq!(run.prepare(), Preparation::Watch { source: 82, eye: units(2, 2, 2) });
    run.observe(sightings(MonsterAct::Other), 100, QUIET);
    assert_eq!((run.probe.target_edges, run.probe.monster_animated), (1, 1));
    run.observe(sightings(MonsterAct::Other), 95, BITE);
    assert_eq!((run.probe.monster_attack, run.probe.phase), (1, 0x72));
    assert_eq!(run.prepare(), Preparation::Watch { source: 21, eye: units(1, 1, 1) });
    run.observe(sightings(MonsterAct::Other), -5, KILL);
    assert_eq!((run.probe.monster_attack, run.probe.player_state, run.probe.phase), (3, 1, 0x73));
    assert_eq!(run.prepare(), Preparation::Hurt);
    let pairs = injuries().map(|injury| (injury.source, injury.points));
    assert_eq!(pairs, [(115, 4), (122, 30), (124, 70)]);
    run.hurt(true);
    assert_eq!(run.prepare(), Preparation::Nothing);
    run.observe(sightings(MonsterAct::Pain), 0, QUIET);
    assert_eq!((run.probe.complete, run.probe.monster_pain), (0, 1));
    run.observe(sightings(MonsterAct::Other), 0, QUIET);
    assert_eq!((run.probe.complete, run.probe.phase), (1, 0x80));
    assert_eq!((run.probe.monster_death, run.probe.boss, run.probe.route_index), (1, 1, 2));
}

#[test]
fn monsters_must_stand_where_they_were_put() {
    let setup = |map, soldier, dog, eyes, origins| {
        let mut run = MonsterProbe::new();
        assert!(!run.setup(map, (50, 51), (soldier, dog), eyes, origins));
        (run.probe.failure_code, run.probe.failure_entity, run.probe.failure_detail)
    };
    let army = source(50, 248, 2392, 40);
    let dog = source(51, 88, 1520, -200);
    let eyes = (Some(units(1, 1, 1)), Some(units(2, 2, 2)));
    let maps = (EpisodeMap::E1M1, EpisodeMap::E1M2);
    assert_eq!(setup(maps.1, army, dog, eyes, eyes), (1, 0, 0));
    assert_eq!(setup(maps.0, None, dog, eyes, eyes), (2, 21, 0));
    assert_eq!(setup(maps.0, source(50, 0, 0, 0), dog, eyes, eyes), (2, 21, 50));
    assert_eq!(setup(maps.0, army, None, eyes, eyes), (2, 82, 0));
    let hard = dog.map(|entity| SourceEntity { spawn_flags: 0x100, ..entity });
    assert_eq!(setup(maps.0, army, hard, eyes, eyes), (2, 82, 51));
    assert_eq!(setup(maps.0, army, dog, (eyes.0, None), eyes), (3, 82, 80));
    assert_eq!(setup(maps.0, army, dog, (None, eyes.1), eyes), (3, 21, 80));
    assert_eq!(setup(maps.0, army, dog, eyes, (eyes.0, None)), (2, 82, 1));
    assert_eq!(setup(maps.0, army, dog, eyes, (None, eyes.1)), (2, 21, 1));
}

#[test]
fn monsters_that_do_nothing_time_out() {
    let mut run = monster_run();
    for _ in 0..361 {
        run.observe(sightings(MonsterAct::Other), -1, QUIET);
    }
    assert_eq!((run.probe.failure_code, run.probe.failure_detail), (4, u32::MAX));

    let mut run = monster_run();
    run.observe(sightings(MonsterAct::Other), 10, BITE);
    for _ in 0..1801 {
        run.observe(sightings(MonsterAct::Other), 10, QUIET);
    }
    assert_eq!((run.probe.failure_code, run.probe.failure_detail), (5, 10));

    let mut run = monster_run();
    run.observe(sightings(MonsterAct::Other), 10, BITE);
    run.observe(sightings(MonsterAct::Other), 0, KILL);
    for _ in 0..241 {
        run.observe(sightings(MonsterAct::Other), 0, QUIET);
    }
    assert_eq!((run.probe.failure_code, run.probe.failure_detail), (6, 12));

    let mut run = monster_run();
    run.hurt(false);
    assert_eq!((run.probe.failure_code, run.probe.failure_entity), (2, 115));
}

#[test]
fn monsters_that_vanish_fail() {
    let gone = Sightings { dog: None, soldier: None, pain: None, death: None, gib: None };
    let mut run = monster_run();
    run.observe(gone, 10, BITE);
    assert_eq!((run.probe.failure_code, run.probe.failure_entity), (2, 82));
    let mut run = monster_run();
    run.observe(sightings(MonsterAct::Other), 10, BITE);
    run.observe(gone, 10, BITE);
    assert_eq!((run.probe.failure_entity, run.probe.failure_detail), (21, 3));
    let mut run = monster_run();
    run.observe(sightings(MonsterAct::Other), 10, BITE);
    run.observe(sightings(MonsterAct::Other), 0, KILL);
    run.observe(Sightings { death: None, ..sightings(MonsterAct::Other) }, 10, QUIET);
    assert_eq!((run.probe.failure_entity, run.probe.failure_detail), (122, 4));
}

fn boss_map() -> BossMapFacts {
    BossMapFacts {
        start: Some(StartRecord { class_name: 1, origin: units(0, 0, 0) }),
        sigil_present: true,
        exit: Some(units(1016, 52, -1000)),
    }
}

fn hall() -> HallFacts {
    HallFacts {
        runes: 1,
        start2: Some(units(7, 7, 7)),
        solid_episode_gate: true,
        boss_gate: true,
    }
}

fn facts() -> GameplayFacts {
    GameplayFacts {
        target_error: None,
        pickup_target_error: None,
        fired_target_edges: 0,
        boss_awakened: false,
        pickup_boss_awakened: false,
        activations: 0,
        boss_shocks: 0,
        runes: 0,
        boss: None,
    }
}

fn boss(throwing: bool, dead: bool) -> Option<BossSnapshot> {
    Some(BossSnapshot { frame: 4, active: true, visible: true, dead, throwing })
}

fn started() -> EpisodeRun {
    let mut run = EpisodeRun::new();
    run.map_loaded(EpisodeMap::E1M7, units(0, 0, 0), boss_map(), hall());
    run
}

/// Stand at every place in turn, and say what the pad does at each.
fn visit(run: &mut EpisodeRun, places: &[(i32, i32, i32)]) -> Vec<ControlStep> {
    places
        .iter()
        .map(|&(x, y, z)| run.controls(EpisodeMap::E1M7, units(x, y, z), true, Some(true)))
        .collect()
}

#[test]
fn the_whole_script_runs_to_its_end() {
    let mut run = started();
    assert_eq!(run.probe.failure_code, 0);
    let sigil = GameplayFacts { runes: 1, pickup_boss_awakened: true, ..facts() };
    run.observe(EpisodeMap::E1M7, sigil, 100);
    visit(&mut run, &[(8, 64, 0)]);
    assert_eq!(run.probe.phase, 2);
    let fight = GameplayFacts { boss: boss(true, false), ..facts() };
    run.observe(EpisodeMap::E1M7, fight, 100);
    visit(&mut run, &[(8, 64, 0)]);
    assert_eq!(run.probe.phase, 3);
    visit(
        &mut run,
        &[
            (-232, 112, 0),
            (-208, 352, 0),
            (-160, 400, 0),
            (920, 400, 0),
            (992, 328, 0),
            (1064, 112, 0),
            (1208, 88, 0),
            (1216, 64, 0),
        ],
    );
    assert_eq!(run.probe.phase, 6);
    visit(&mut run, &[(1216, 64, 0), (1216, 64, 175)]);
    assert_eq!(run.probe.phase, 6);
    visit(&mut run, &[(1216, 64, 176)]);
    assert_eq!(run.probe.phase, 7);
    let shock = GameplayFacts { boss: boss(false, true), boss_shocks: 1, ..facts() };
    run.observe(EpisodeMap::E1M7, shock, 100);
    visit(&mut run, &[(832, 64, 176)]);
    assert_eq!(run.probe.phase, 8);
    visit(&mut run, &[(696, 64, 30), (824, 64, 30), (992, 24, -950), (1016, 52, -950)]);
    assert_eq!(run.probe.phase, 4);
    let exit = TargetSource { class_name: 0x47, target: 3, target_name: 0 };
    run.observe_changelevel_targets(EpisodeMap::E1M7, Some(exit), 1);
    run.observe_intermission(true, 1, 2, 3, 4);
    assert_eq!(run.probe.intermission_state, 0x0102_0304);
    run.map_loaded(EpisodeMap::Start, units(7, 7, 7), boss_map(), hall());
    assert_eq!((run.probe.complete, run.probe.phase), (1, 0xe1));
    assert_eq!(run.probe.player_state, 0x3_ffff);
    assert_eq!(run.probe.maps_loaded, 0x81);
}

#[test]
fn the_script_steers_towards_its_points() {
    let mut run = started();
    assert_eq!(
        visit(&mut run, &[(108, 164, 0)]),
        vec![ControlStep::Steer { dx: -100, dy: -100, detour: 0 }]
    );
    // At the sigil, but it was not touched yet: nudged across it.
    assert_eq!(
        visit(&mut run, &[(8, 60, 0)]),
        vec![ControlStep::Steer { dx: 8, dy: 4, detour: 0 }]
    );
}

#[test]
fn a_stalled_walk_tries_another_way() {
    let mut run = started();
    let steps = visit(&mut run, &[(108, 164, 0); 48]);
    let detours: Vec<usize> = steps
        .iter()
        .map(|step| match step {
            ControlStep::Steer { detour, .. } => *detour,
            ControlStep::Idle => panic!("the player walks"),
        })
        .collect();
    assert_eq!(&detours[..46], &[0; 46]);
    assert_eq!(&detours[46..], &[1, 1]);
    let closer = visit(&mut run, &[(107, 164, 0)]);
    assert_eq!(closer, vec![ControlStep::Steer { dx: -99, dy: -100, detour: 0 }]);
}

#[test]
fn a_ledge_over_the_goal_is_walked_off() {
    let mut run = started();
    run.probe.phase = 8;
    assert_eq!(
        visit(&mut run, &[(700, 64, 100)]),
        vec![ControlStep::Steer { dx: -20, dy: 0, detour: 0 }]
    );
}

#[test]
fn the_descent_waits_for_the_bridge() {
    let mut run = started();
    run.probe.phase = 8;
    let place = units(832, 64, 176);
    assert_eq!(run.controls(EpisodeMap::E1M7, place, true, Some(false)), ControlStep::Idle);
    assert_eq!(run.probe.failure_code, 0);
    run.controls(EpisodeMap::E1M7, place, true, None);
    assert_eq!((run.probe.failure_code, run.probe.failure_detail), (6, 1));
}

#[test]
fn the_script_fails_where_it_should() {
    let failure = |start: EpisodeRun, map: EpisodeMap, boss_map: BossMapFacts, place: Vec3I32| {
        let mut run = start;
        run.map_loaded(map, place, boss_map, hall());
        (run.probe.failure_code, run.probe.failure_map, run.probe.failure_detail)
    };
    let home = units(0, 0, 0);
    let new = EpisodeRun::new();
    assert_eq!(failure(new, EpisodeMap::E1M2, boss_map(), home), (1, 2, 0));
    assert_eq!(failure(new, EpisodeMap::E1M7, boss_map(), units(1, 0, 0)), (1, 7, 0x5350_4157));
    let other = BossMapFacts { start: None, ..boss_map() };
    assert_eq!(failure(new, EpisodeMap::E1M7, other, home), (1, 7, 0x5350_4157));
    let bare = BossMapFacts { sigil_present: false, ..boss_map() };
    assert_eq!(failure(new, EpisodeMap::E1M7, bare, home), (4, 7, 0));
    let closed = BossMapFacts { exit: None, ..boss_map() };
    assert_eq!(failure(new, EpisodeMap::E1M7, closed, home), (6, 7, 0));
    let moved = BossMapFacts { exit: Some(units(-1, 2, -1000)), ..boss_map() };
    assert_eq!(failure(new, EpisodeMap::E1M7, moved, home), (6, 7, 0xffff_0002));
    // The hall adds four pieces of evidence; the rest is missing.
    assert_eq!(failure(new, EpisodeMap::Start, boss_map(), units(7, 7, 7)), (7, 0, 0x780));

    let mut run = started();
    run.observe(EpisodeMap::E1M7, GameplayFacts { pickup_target_error: Some(9), ..facts() }, 10);
    assert_eq!((run.probe.failure_code, run.probe.failure_detail), (3, 9));
    let mut run = started();
    run.observe(EpisodeMap::E1M7, facts(), 0);
    assert_eq!((run.probe.failure_code, run.probe.failure_detail), (8, 1));
    let mut run = started();
    for _ in 0..2401 {
        run.controls(EpisodeMap::E1M7, units(500, 500, 0), true, None);
    }
    assert_eq!((run.probe.failure_code, run.probe.failure_detail), (2, 1));
    let mut run = started();
    run.observe(EpisodeMap::E1M7, GameplayFacts { runes: 1, boss_awakened: true, ..facts() }, 9);
    run.controls(EpisodeMap::E1M7, units(8, 64, 0), false, None);
    assert_eq!(run.probe.failure_code, 5);
}

#[test]
fn the_bosss_death_is_followed_through_the_relay() {
    let entity = |class_name, target, target_name| TargetSource { class_name, target, target_name };
    let sources = vec![
        entity(1, 0, 5),
        entity(0x37, 5, 0),
        entity(2, 0, 5),
        entity(3, 8, 5),
        entity(3, 9, 5),
    ];
    assert_eq!(boss_death_target(&sources), 8);
    assert_eq!(boss_death_target(&sources[..3].to_vec()), 0);
    assert_eq!(boss_death_target(&vec![entity(0x37, 0, 0), entity(0x37, 5, 0)]), 0);
    assert_eq!(boss_death_target(&Vec::new()), 0);
}

#[test]
fn steering_turns_into_the_stick() {
    assert_eq!(waypoint(3, 4).radius, 24);
    assert_eq!((extend(5, -9), extend(-5, -9), extend(7, i32::MIN)), (5, -5, 7));
    assert_eq!((extend(5, 12), extend(-5, 12), extend(0, 12), extend(40, 12)), (12, -12, 0, 40));
    let offsets: Vec<u16> = (0..8).map(detour_offset).collect();
    assert_eq!(offsets, vec![0, 512, 3584, 1024, 3072, 1536, 2560, 2048]);
    let terms = TurnTerms { cos_dx: 7, cos_dy: 5, sin_dx: 3, sin_dy: 2 };
    assert_eq!(detoured(10, 20, 0, terms), (10, 20));
    assert_eq!(detoured(10, 20, 1, terms), (5, 8));
    assert_eq!(view_components(terms, -3), (9, 2));
    assert_eq!(movement_input(100, 0, 100, 50).movement, [127, 63]);
    assert_eq!(movement_input(1, 0, -1, 0).movement, [-16, 0]);
    assert_eq!(movement_input(0, 0, 0, 0).movement, [0, 0]);
}
