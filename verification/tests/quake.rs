use quake_psx::button;
use quake_psx::episode::map_at;
use quake_psx::episode::map_bit;
use quake_psx::episode::map_index;
use quake_psx::episode::EpisodeMap;
use quake_psx::input_policy::InputFrame;
use quake_psx::intro::glyph_colours;
use quake_psx::intro::glyph_starts;
use quake_psx::intro::intro_level;
use quake_psx::intro::intro_over;
use quake_psx::intro::Colour;
use quake_psx::music::disc_has_menu_tracks;
use quake_psx::music::Music;
use quake_psx::music::MusicTick;
use quake_psx::player::MovementEvents;
use quake_psx::player::PlayerFrame;
use quake_psx::quake::backpack_text;
use quake_psx::quake::begin_intermission;
use quake_psx::quake::damage_impulse;
use quake_psx::quake::damage_taken;
use quake_psx::quake::initial_map;
use quake_psx::quake::inventory_damage;
use quake_psx::quake::knockback;
use quake_psx::quake::load_level;
use quake_psx::quake::map_load_error;
use quake_psx::quake::map_message;
use quake_psx::quake::menu_input;
use quake_psx::quake::menu_sound_id;
use quake_psx::quake::menu_turn;
use quake_psx::quake::player_motion;
use quake_psx::quake::pull_trigger;
use quake_psx::quake::raises_panel;
use quake_psx::quake::respawns;
use quake_psx::quake::started_level;
use quake_psx::quake::survival_input;
use quake_psx::quake::tinting_contents;
use quake_psx::quake::view_wobbles;
use quake_psx::quake::weapon_choice;
use quake_psx::quake::weapon_model_frames;
use quake_psx::quake::Build;
use quake_psx::quake::Condition;
use quake_psx::quake::EpisodePages;
use quake_psx::quake::FrameMode;
use quake_psx::quake::GameClock;
use quake_psx::quake::Intermission;
use quake_psx::quake::LevelCounts;
use quake_psx::quake::LevelLoad;
use quake_psx::quake::MapLoadError;
use quake_psx::quake::MapMessage;
use quake_psx::quake::MenuAction;
use quake_psx::quake::MenuSound;
use quake_psx::quake::MessageSource;
use quake_psx::quake::ModelFrames;
use quake_psx::quake::Motion;
use quake_psx::quake::Pace;
use quake_psx::quake::PanelOutcome;
use quake_psx::quake::Session;
use quake_psx::quake::ViewKick;
use quake_psx::quake::WeaponChoice;
use quake_psx::sound::nail_sound;
use quake_psx::sound::play_movement_audio;
use quake_psx::sound::play_preferred_sound;
use quake_psx::sound::play_response_sound;
use quake_psx::sound::play_sound_event;
use quake_psx::sound::teleport_sound;
use quake_psx::sound::LiquidTypes;
use quake_psx::sound::SoundEvent;
use quake_psx::world::Camera;
use quake_psx::world::Vec3I16;
use quake_psx::world::Vec3I32;

fn point(x: i32, y: i32, z: i32) -> Vec3I32 {
    Vec3I32 { x, y, z }
}

fn camera(x: i32) -> Camera {
    Camera { origin: point(x, 0, 0), angles: Vec3I16 { x: 0, y: 0, z: 0 } }
}

const PAGES: EpisodePages = EpisodePages { not_finished: 0, panel: 1, last: 3 };

const COUNTS: LevelCounts =
    LevelCounts { kills: 1, total_kills: 2, secrets: 3, total_secrets: 4, seconds: 5 };

fn panel(next: EpisodeMap, runes: u8) -> Intermission {
    begin_intermission(EpisodeMap::E1M7, next, COUNTS, runes, None, camera(5), PAGES)
}

#[test]
fn maps_are_numbered_from_the_entrance_hall() {
    assert_eq!(map_index(EpisodeMap::Start), 0);
    assert_eq!(map_index(EpisodeMap::E1M8), 8);
    assert_eq!(map_bit(EpisodeMap::E1M5), 1 << 5);
    for index in 0..9 {
        assert_eq!(map_index(map_at(index)), index as u32);
        assert_eq!(map_bit(map_at(index)), 1 << index);
    }
    assert_eq!(map_at(200), EpisodeMap::E1M8);
}

#[test]
fn the_clock_counts_one_to_four_ticks() {
    let mut clock = GameClock::new(Pace::Measured, 100);
    let times: Vec<(u32, u16)> = [100, 102, 110, 113]
        .into_iter()
        .map(|vblanks| {
            let time = clock.begin_frame(vblanks);
            (time.tick, time.elapsed)
        })
        .collect();
    assert_eq!(times, vec![(100, 1), (102, 2), (110, 4), (113, 3)]);
    clock.level_loaded(5000);
    assert_eq!(clock.begin_frame(5000).elapsed, 1);
}

#[test]
fn fixed_paces_do_not_follow_the_blank() {
    let mut three = GameClock::new(Pace::ThreeTicks, 100);
    assert_eq!(three.begin_frame(500).tick, 3);
    assert_eq!(three.begin_frame(500).tick, 6);
    assert_eq!(three.begin_frame(500).elapsed, 3);
    let mut two = GameClock::new(Pace::TwoTicks, 100);
    let time = two.begin_frame(500);
    assert_eq!((time.tick, time.elapsed), (2, 2));
    let mut one = GameClock::new(Pace::OneTick, 100);
    let time = one.begin_frame(500);
    assert_eq!((time.tick, time.elapsed), (500, 1));
    assert_eq!(one.light_tick(time), 0);
    assert_eq!(two.light_tick(time), 500);
}

#[test]
fn an_episode_ends_with_the_way_back_from_the_boss() {
    assert_eq!(panel(EpisodeMap::Start, 1).episode, PAGES.panel);
    assert_eq!(panel(EpisodeMap::Start, 0).episode, PAGES.not_finished);
    assert_eq!(panel(EpisodeMap::E1M8, 1).episode, PAGES.not_finished);
    assert_eq!(panel(EpisodeMap::Start, 1).camera, camera(5));
    let seen = begin_intermission(
        EpisodeMap::E1M1,
        EpisodeMap::E1M2,
        COUNTS,
        0,
        Some(camera(9)),
        camera(5),
        PAGES,
    );
    assert_eq!(seen.camera, camera(9));
    assert_eq!((seen.remaining, seen.elapsed), (150, 0));
}

#[test]
fn a_panel_ends_without_a_press() {
    let mut shown = panel(EpisodeMap::E1M8, 0);
    let mut frames = 0;
    let loaded = loop {
        frames += 1;
        match shown.step(1, 0, PAGES, 20).outcome {
            PanelOutcome::Hold => {},
            PanelOutcome::NextPage => panic!("no text follows"),
            PanelOutcome::Load(map) => break map,
        }
    };
    assert_eq!(frames, 150);
    assert_eq!(loaded, EpisodeMap::E1M8);
}

#[test]
fn a_press_skips_the_panel_after_half_a_second() {
    let mut shown = panel(EpisodeMap::E1M8, 0);
    assert_eq!(shown.step(29, button::CROSS, PAGES, 20).outcome, PanelOutcome::Hold);
    assert_eq!(shown.step(1, button::R2, PAGES, 20).outcome, PanelOutcome::Hold);
    assert_eq!(
        shown.step(1, button::CIRCLE, PAGES, 20).outcome,
        PanelOutcome::Load(EpisodeMap::E1M8)
    );
}

#[test]
fn closing_pages_follow_the_last_panel() {
    let mut shown = panel(EpisodeMap::Start, 1);
    let mut pages = 0;
    loop {
        match shown.step(4, 0, PAGES, 20).outcome {
            PanelOutcome::Hold => {},
            PanelOutcome::NextPage => pages += 1,
            PanelOutcome::Load(map) => {
                assert_eq!(map, EpisodeMap::Start);
                break;
            },
        }
    }
    assert_eq!(pages, 2);
    assert_eq!(shown.episode, PAGES.last);
}

#[test]
fn the_screen_darkens_at_the_end_of_a_panel() {
    let mut shown = panel(EpisodeMap::E1M8, 0);
    assert!(!shown.step(129, 0, PAGES, 20).fade_out);
    assert!(shown.step(1, 0, PAGES, 20).fade_out);
}

#[test]
fn the_panel_goes_before_the_menu() {
    let mut session = Session::new(Pace::Measured, 0);
    assert_eq!(session.mode(false), FrameMode::Play);
    assert_eq!(session.mode(true), FrameMode::Menu);
    let time = session.clock.begin_frame(200);
    assert!(session.panel_frame(time, 0, PAGES, 20).is_none());
    session.raise_panel(panel(EpisodeMap::E1M8, 0));
    assert_eq!(session.mode(true), FrameMode::Panel);
    let mut frames = 0;
    while session.mode(false) == FrameMode::Panel {
        let time = session.clock.begin_frame(300 + frames * 4);
        assert!(session.panel_frame(time, 0, PAGES, 20).is_some());
        frames += 1;
    }
    assert_eq!(frames, 38);
    session.level_loaded(900);
    assert_eq!(session.clock.movement_tick, 900);
}

#[test]
fn builds_begin_in_their_own_maps() {
    assert_eq!(initial_map(Build::Shipping), EpisodeMap::Start);
    assert_eq!(initial_map(Build::Arsenal), EpisodeMap::E1M1);
    assert_eq!(initial_map(Build::Combat), EpisodeMap::E1M1);
    assert_eq!(initial_map(Build::Monster), EpisodeMap::E1M1);
    assert_eq!(initial_map(Build::MonsterJump), EpisodeMap::E1M6);
    assert_eq!(initial_map(Build::E1M1Chain), EpisodeMap::E1M1);
    assert_eq!(initial_map(Build::E1M2E1M3Route), EpisodeMap::E1M2);
    assert_eq!(initial_map(Build::Survival), EpisodeMap::E1M1);
    assert_eq!(initial_map(Build::Episode1Route), EpisodeMap::E1M7);
    assert_eq!(initial_map(Build::VisualParity), EpisodeMap::E1M1);
    assert_eq!(initial_map(Build::Systems(EpisodeMap::E1M3)), EpisodeMap::E1M3);
    assert_eq!(initial_map(Build::Bestiary(EpisodeMap::E1M4)), EpisodeMap::E1M4);
}

#[test]
fn the_menu_reads_its_own_edges() {
    let input = InputFrame {
        menu_pressed: button::UP | button::SELECT,
        pressed: button::CROSS,
        ..InputFrame::default()
    };
    let menu = menu_input(input);
    assert!(menu.up && menu.back);
    assert!(!menu.down && !menu.left && !menu.right && !menu.accept);
    let accept = menu_input(InputFrame { menu_pressed: button::CROSS, ..InputFrame::default() });
    assert!(accept.accept && !accept.back);
}

#[test]
fn the_press_that_opens_the_menu_is_not_handed_to_it() {
    let start = InputFrame { pressed: button::START, ..InputFrame::default() };
    let opened = menu_turn(false, start);
    assert!(opened.opens && !opened.gets_input);
    let inside = menu_turn(true, start);
    assert!(!inside.opens && inside.gets_input);
    let idle = menu_turn(false, InputFrame::default());
    assert!(!idle.opens && !idle.gets_input);
}

#[test]
fn the_menu_starts_levels() {
    assert_eq!(started_level(MenuAction::NewGame), Some(EpisodeMap::Start));
    assert_eq!(started_level(MenuAction::StartLevel(4)), Some(EpisodeMap::E1M4));
    assert_eq!(started_level(MenuAction::StartLevel(99)), Some(EpisodeMap::E1M8));
    assert_eq!(started_level(MenuAction::Impulse9), None);
    assert_eq!(started_level(MenuAction::Resume), None);
    assert_eq!(menu_sound_id(MenuSound::Move), 0x6e);
    assert_eq!(menu_sound_id(MenuSound::Enter), 0x6f);
    assert_eq!(menu_sound_id(MenuSound::Adjust), 0x70);
}

#[test]
fn only_the_living_move() {
    assert_eq!(player_motion(false, 1, false), Motion::Walk);
    assert_eq!(player_motion(false, 1, true), Motion::Fly);
    assert_eq!(player_motion(false, 0, true), Motion::Still);
    assert_eq!(player_motion(true, 100, true), Motion::Still);
}

#[test]
fn the_dead_start_over_on_a_press() {
    let press = |pressed| InputFrame { pressed, ..InputFrame::default() };
    assert!(respawns(0, press(button::R2)));
    assert!(respawns(-40, press(button::CROSS)));
    assert!(respawns(0, press(button::SQUARE)));
    assert!(!respawns(0, press(button::START)));
    assert!(!respawns(1, press(button::R2)));
}

#[test]
fn survival_reads_the_frame() {
    let frame = PlayerFrame {
        water_level: 2,
        water_type: -4,
        events: MovementEvents { hard_land: true, ..PlayerFrame::default().events },
        ..PlayerFrame::default()
    };
    let input = survival_input(frame, 3);
    assert_eq!((input.elapsed_ticks, input.water_level, input.water_type), (3, 2, -4));
    assert!(input.hard_land);
    assert_eq!(tinting_contents(frame), -4);
    assert_eq!(tinting_contents(PlayerFrame { water_level: 0, ..frame }), 0);
    assert!(view_wobbles(true, 3) && !view_wobbles(true, 2) && !view_wobbles(false, 3));
}

#[test]
fn the_maps_own_text_wins() {
    let text = MessageSource { string: 7, class_name: 0x50 };
    let secret = MessageSource { string: 0, class_name: 0x50 };
    let mute = MessageSource { string: 0, class_name: 1 };
    assert_eq!(map_message(Some(1), true, Some(text)), Some(MapMessage::Cooked(7)));
    assert_eq!(map_message(Some(1), true, Some(secret)), Some(MapMessage::Secret));
    assert_eq!(map_message(Some(1), true, Some(mute)), Some(MapMessage::Countdown));
    assert_eq!(map_message(Some(1), false, None), Some(MapMessage::NeedsKey(1)));
    assert_eq!(map_message(None, false, Some(mute)), None);
}

#[test]
fn an_exit_may_go_on_at_once() {
    assert!(raises_panel(false, false));
    assert!(!raises_panel(true, false));
    assert!(!raises_panel(false, true));
}

#[test]
fn a_chord_goes_before_the_shoulder_buttons() {
    let chord = InputFrame {
        held: button::TRIANGLE | button::UP,
        pressed: button::UP | button::R1,
        ..InputFrame::default()
    };
    assert_eq!(weapon_choice(true, chord, true), WeaponChoice::Direct(1));
    assert_eq!(weapon_choice(true, chord, false), WeaponChoice::Next);
    assert_eq!(weapon_choice(false, chord, true), WeaponChoice::Keep);
    let back = InputFrame { pressed: button::L1, ..InputFrame::default() };
    assert_eq!(weapon_choice(true, back, true), WeaponChoice::Previous);
    assert_eq!(weapon_choice(true, InputFrame::default(), true), WeaponChoice::Keep);
}

#[test]
fn only_a_shot_that_leaves_is_aimed() {
    let held = InputFrame { held: button::R2, ..InputFrame::default() };
    let shot = pull_trigger(true, held, false, true, true);
    assert!(shot.held && shot.aims);
    assert!(!pull_trigger(true, held, false, false, true).aims);
    assert!(!pull_trigger(true, held, false, true, false).aims);
    assert!(!pull_trigger(false, held, false, true, true).held);
    assert!(pull_trigger(false, held, true, true, true).aims);
}

#[test]
fn pushes_add_up() {
    assert_eq!(
        damage_impulse(point(1, 0, 0), point(2, 0, 0), point(0, 3, 0), point(0, 0, 4)),
        point(3, 3, 4)
    );
    assert_eq!(knockback(&vec![point(i32::MAX, 1, 1), point(1, 1, 1)]), point(i32::MAX, 2, 2));
    assert_eq!(knockback(&Vec::new()), point(0, 0, 0));
    assert_eq!(inventory_damage(40), 40);
    assert_eq!(inventory_damage(40_000), i16::MAX);
}

#[test]
fn damage_kicks_the_view_away_from_the_push() {
    let before = Condition { health: 100, armor: 50 };
    let hurt = damage_taken(before, Condition { health: 80, armor: 45 }, point(7, i32::MIN, 0));
    assert_eq!((hurt.blood, hurt.armor), (20, 5));
    assert_eq!(hurt.kick, Some(ViewKick { count: 12, from: point(-7, i32::MAX, 0) }));
    let healed = damage_taken(before, Condition { health: 120, armor: 50 }, point(7, 7, 7));
    assert_eq!((healed.blood, healed.armor, healed.kick), (0, 0, None));
    let dead = damage_taken(Condition { health: 10, armor: 0 }, Condition { health: -50, armor: 0 }, point(0, 0, 0));
    assert_eq!(dead.blood, 10);
}

#[test]
fn lines_and_frames_are_looked_up() {
    assert_eq!(backpack_text(5), "You get 5 shells");
    assert_eq!(backpack_text(0), "You get 2 rockets");
    let models = vec![
        ModelFrames { id: 3, frame_count: 9 },
        ModelFrames { id: 4, frame_count: 7 },
        ModelFrames { id: 3, frame_count: 1 },
    ];
    assert_eq!(weapon_model_frames(&models, 3), 9);
    assert_eq!(weapon_model_frames(&models, 4), 7);
    assert_eq!(weapon_model_frames(&models, 5), 1);
}

#[test]
fn a_resident_map_is_not_read_again() {
    assert_eq!(load_level(true, false), LevelLoad::Reset);
    assert_eq!(load_level(false, true), LevelLoad::Read);
    assert_eq!(load_level(false, false), LevelLoad::Refused);
}

#[test]
fn load_errors_have_their_words() {
    assert_eq!(map_load_error(MapLoadError::Storage), "storage");
    assert_eq!(map_load_error(MapLoadError::Format), "format");
    assert_eq!(map_load_error(MapLoadError::TooLarge), "too-large");
    assert_eq!(map_load_error(MapLoadError::BadTextureData), "texture");
    assert_eq!(map_load_error(MapLoadError::BadVertexData), "vertex");
    assert_eq!(map_load_error(MapLoadError::BadAliasModels), "alias");
    assert_eq!(map_load_error(MapLoadError::VramUpload), "vram");
    assert_eq!(map_load_error(MapLoadError::BadFace), "face");
    assert_eq!(map_load_error(MapLoadError::BadMarkSurface), "marksurface");
    assert_eq!(map_load_error(MapLoadError::BadLeaf), "leaf");
    assert_eq!(map_load_error(MapLoadError::BadNode), "node");
    assert_eq!(map_load_error(MapLoadError::BadClipNode), "clipnode");
    assert_eq!(map_load_error(MapLoadError::BadBrushModel), "brushmodel");
    assert_eq!(map_load_error(MapLoadError::BadEntity), "entity");
    assert_eq!(map_load_error(MapLoadError::MissingEntities), "entities");
}

const LIQUIDS: LiquidTypes = LiquidTypes { lava: -5, slime: -4 };

fn moved(events: MovementEvents, water_type: i16) -> PlayerFrame {
    PlayerFrame { events, water_type, ..PlayerFrame::default() }
}

#[test]
fn movement_makes_sounds_in_order() {
    let none = PlayerFrame::default().events;
    let all = MovementEvents {
        jump: true,
        swim: true,
        hard_land: true,
        land: true,
        water_land: true,
        enter_liquid: true,
        leave_liquid: true,
    };
    let bank = vec![0x99, 0xa7];
    assert_eq!(
        play_movement_audio(moved(all, -4), 7, LIQUIDS, &bank),
        vec![0xa6, 0x7e, 0x9d, 0x99, 0xa7, 0x72]
    );
    assert_eq!(
        play_movement_audio(moved(all, -5), 8, LIQUIDS, &Vec::new()),
        vec![0xa6, 0x7d, 0x9d, 0x9c, 0x9e, 0x72]
    );
    assert_eq!(
        play_movement_audio(moved(MovementEvents { land: true, ..none }, 0), 0, LIQUIDS, &bank),
        vec![0x9c]
    );
    assert_eq!(
        play_movement_audio(
            moved(MovementEvents { enter_liquid: true, ..none }, -3),
            0,
            LIQUIDS,
            &bank
        ),
        vec![0x9a]
    );
    assert!(play_movement_audio(moved(none, 0), 0, LIQUIDS, &bank).is_empty());
}

#[test]
fn missing_sounds_are_replaced_or_dropped() {
    let bank = vec![1, 2];
    let event = SoundEvent { id: 2, place: None, key: 9 };
    let missing = SoundEvent { id: 3, ..event };
    assert_eq!(play_preferred_sound(&bank, 2, 7), 2);
    assert_eq!(play_preferred_sound(&bank, 3, 7), 7);
    assert_eq!(play_sound_event(&bank, event), Some(event));
    assert_eq!(play_sound_event(&bank, missing), None);
    assert_eq!(play_response_sound(&bank, Some(event)), Some(event));
    assert_eq!(play_response_sound(&bank, Some(missing)), None);
    assert_eq!(play_response_sound(&bank, None), None);
}

#[test]
fn teleporters_flash_by_the_tick() {
    let all = vec![0x74, 0x75, 0x76, 0x77, 0x78];
    assert_eq!(teleport_sound(true, 1, &all), None);
    for tick in [0u32, 1, 2, 12345] {
        let flash = 0x74 + ((tick.wrapping_mul(0x9e37_79b9) >> 16) % 5) as i16;
        assert_eq!(teleport_sound(false, tick, &all), Some(flash));
        assert_eq!(teleport_sound(false, tick, &Vec::new()), Some(0x76));
    }
}

#[test]
fn one_nail_in_five_ricochets() {
    let ricochets = [10, 11, 12];
    let bank = vec![10, 11, 12, 20];
    assert_eq!(nail_sound(5, ricochets, 20, &bank), 11);
    assert_eq!(nail_sound(10, ricochets, 20, &bank), 12);
    assert_eq!(nail_sound(15, ricochets, 20, &bank), 10);
    assert_eq!(nail_sound(16, ricochets, 20, &bank), 20);
    assert_eq!(nail_sound(15, ricochets, 20, &vec![20]), 20);
}

fn playing() -> Music {
    let mut music = Music::new(7);
    assert_eq!(music.update(89), MusicTick::Nothing);
    assert_eq!(music.update(90), MusicTick::Probe);
    assert!(music.probed(true, 90));
    music
}

#[test]
fn the_disc_needs_five_tracks() {
    assert!(disc_has_menu_tracks(Some(3), 5));
    assert!(!disc_has_menu_tracks(Some(3), 4));
    assert!(!disc_has_menu_tracks(Some(2), 5));
    assert!(!disc_has_menu_tracks(None, 5));
}

#[test]
fn a_song_is_announced_for_four_seconds() {
    let music = playing();
    assert!(music.available() && music.enabled());
    assert_eq!(music.update(91), MusicTick::Drive { track: 2 });
    assert_eq!(music.now_playing(90), Some((0, 0)));
    assert_eq!(music.now_playing(330), Some((0, 240)));
    assert_eq!(music.now_playing(331), None);
}

#[test]
fn songs_follow_each_other_round() {
    let mut music = playing();
    assert!(!music.poll_due(119, true));
    assert!(!music.poll_due(120, false));
    assert!(music.poll_due(120, true));
    assert!(!music.poll_due(121, true));
    for expected in [1, 2, 3, 0] {
        music.song_ended(200);
        assert_eq!(music.track(), expected);
    }
    assert_eq!(music.now_playing(200), Some((0, 0)));
}

#[test]
fn loads_take_the_drive() {
    let mut music = playing();
    assert!(music.suspend_for_load());
    assert_eq!(music.now_playing(91), None);
    assert!(music.resume_after_load(500));
    assert_eq!(music.track(), 1);
    assert_eq!(music.now_playing(500), Some((1, 0)));
    let mut silent = Music::new(7);
    assert!(!silent.suspend_for_load());
    assert!(!silent.resume_after_load(500));
}

#[test]
fn the_options_page_drives_the_music() {
    let mut music = playing();
    let same = music.apply_menu(true, 0, 7, 100);
    assert_eq!((same.volume, same.begin, same.pause), (None, false, false));
    let louder = music.apply_menu(true, 0, 200, 100);
    assert_eq!((louder.volume, louder.begin, louder.pause), (Some(10), false, false));
    let other = music.apply_menu(true, 3, 10, 100);
    assert_eq!((other.begin, other.pause, music.track()), (true, false, 3));
    let bad = music.apply_menu(true, 4, 10, 100);
    assert_eq!((bad.begin, music.track()), (false, 3));
    let off = music.apply_menu(false, 3, 10, 100);
    assert_eq!((off.begin, off.pause), (false, true));
    assert_eq!(music.now_playing(100), None);
    assert_eq!(music.update(101), MusicTick::Nothing);
    let quiet = music.apply_menu(false, 2, 10, 100);
    assert_eq!((quiet.begin, quiet.pause, music.track()), (false, false, 2));
    let on = music.apply_menu(true, 2, 10, 300);
    assert_eq!((on.begin, on.pause), (true, false));
    assert_eq!(music.now_playing(300), Some((2, 0)));
    let mut absent = Music::new(7);
    let orders = absent.apply_menu(false, 3, 7, 0);
    assert_eq!((orders.begin, orders.pause, absent.track(), absent.enabled()), (false, false, 0, false));
}

#[test]
fn the_intro_fades_in_and_out() {
    assert_eq!(intro_level(0), 0);
    assert_eq!(intro_level(16), 64);
    assert_eq!(intro_level(32), 128);
    assert_eq!(intro_level(105), 128);
    assert_eq!(intro_level(106), 128);
    assert_eq!(intro_level(128), 64);
    assert_eq!(intro_level(149), 2);
}

#[test]
fn a_fresh_press_skips_the_intro() {
    assert!(!intro_over(8, button::CROSS, 0));
    assert!(intro_over(9, button::CROSS, 0));
    assert!(intro_over(9, button::START, button::UP));
    assert!(!intro_over(9, button::CROSS, button::CIRCLE));
    assert!(!intro_over(9, button::UP, 0));
    assert!(intro_over(150, 0, 0));
}

#[test]
fn the_sheen_sweeps_over_the_line() {
    let (top, bottom) = glyph_colours(60, 0, 128);
    assert_eq!(top, Colour { red: 0x68, green: 0x80, blue: 0x80 });
    assert_eq!(bottom, Colour { red: 0x38, green: 0x58, blue: 0x80 });
    let (top, _) = glyph_colours(10, 5, 128);
    assert_eq!(top, Colour { red: 128, green: 128, blue: 128 });
    let (top, _) = glyph_colours(10, 6, 64);
    assert_eq!(top.red, 52 + (64 - 52) * 12 / 18);
}

#[test]
fn the_line_is_centred() {
    assert_eq!(glyph_starts(30, &vec![8, 10, 12]), vec![145, 153, 163]);
    assert!(glyph_starts(30, &Vec::new()).is_empty());
}
