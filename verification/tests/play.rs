use quake_psx::effects_of_play::attack_effects;
use quake_psx::effects_of_play::explosion_effects;
use quake_psx::effects_of_play::fireball_effects;
use quake_psx::effects_of_play::grenade_effects;
use quake_psx::effects_of_play::mechanism_effects;
use quake_psx::effects_of_play::monster_effects;
use quake_psx::effects_of_play::nail_effects;
use quake_psx::effects_of_play::pickup_effects;
use quake_psx::effects_of_play::rocket_effects;
use quake_psx::effects_of_play::survival_effects;
use quake_psx::effects_of_play::teleport_effects;
use quake_psx::effects_of_play::AttackOutcome;
use quake_psx::effects_of_play::Channel;
use quake_psx::effects_of_play::Effect;
use quake_psx::effects_of_play::GrenadeOutcome;
use quake_psx::effects_of_play::Hit;
use quake_psx::effects_of_play::MechanismOutcome;
use quake_psx::effects_of_play::Message;
use quake_psx::effects_of_play::MonsterOutcome;
use quake_psx::effects_of_play::NailOutcome;
use quake_psx::effects_of_play::NailSounds;
use quake_psx::effects_of_play::RingKind;
use quake_psx::effects_of_play::RocketOutcome;
use quake_psx::effects_of_play::Strike;
use quake_psx::effects_of_play::SurvivalOutcome;
use quake_psx::frame::overlay_layers;
use quake_psx::frame::Layer;
use quake_psx::menu::MenuPage;
use quake_psx::quake::present_frame;
use quake_psx::quake::FrameMode;
use quake_psx::quake::MapMessage;
use quake_psx::quake::MessageSource;
use quake_psx::quake::ViewOptions;
use quake_psx::sound::SoundEvent;
use quake_psx::world::Vec3I32;

const HERE: Vec3I32 = Vec3I32 { x: 1, y: 2, z: 3 };
const THERE: Vec3I32 = Vec3I32 { x: 4, y: 5, z: 6 };

fn event(id: i16) -> SoundEvent {
    SoundEvent { id, place: None, key: 9 }
}

fn nothing_moved() -> MechanismOutcome {
    MechanismOutcome {
        crush_damage: 0,
        needs_key: None,
        countdown: false,
        message_source: None,
        message_sound: None,
        mover_sounds: vec![],
        train_sound: None,
        boss_shock_sound: None,
        boss_death: None,
    }
}

#[test]
fn dying_has_effects() {
    let outcome = SurvivalOutcome {
        sounds: vec![1, 2, 3],
        bonus_flash: true,
        death_bubbles: true,
        gibbed: true,
    };
    assert_eq!(
        survival_effects(&outcome, &vec![3, 1]),
        vec![
            Effect::PlayerSound { id: 1, channel: Channel::Voice },
            Effect::PlayerSound { id: 3, channel: Channel::Voice },
            Effect::PickupFlash,
            Effect::Bubbles,
            Effect::Gib,
        ]
    );
    let quiet = SurvivalOutcome {
        sounds: vec![],
        bonus_flash: false,
        death_bubbles: false,
        gibbed: false,
    };
    assert!(survival_effects(&quiet, &vec![3, 1]).is_empty());
}

#[test]
fn an_arrival_is_seen_and_heard() {
    let ring = Effect::Ring { origin: HERE, kind: RingKind::Spark, units: 16 };
    assert_eq!(
        teleport_effects(HERE, false, 0, &vec![0x76]),
        vec![
            Effect::MoveListener,
            ring,
            Effect::WorldSound { id: 0x76, place: Some(HERE) },
        ]
    );
    assert_eq!(teleport_effects(HERE, true, 0, &vec![0x76]), vec![Effect::MoveListener, ring]);
    assert_eq!(teleport_effects(HERE, false, 0, &vec![]), vec![Effect::MoveListener, ring]);
}

#[test]
fn mechanisms_act_in_order() {
    let outcome = MechanismOutcome {
        crush_damage: 40_000,
        needs_key: Some(2),
        countdown: true,
        message_source: Some(MessageSource { string: 77, class_name: 0x50 }),
        message_sound: Some(event(1)),
        mover_sounds: vec![event(2), event(99), event(3)],
        train_sound: Some(event(4)),
        boss_shock_sound: Some(event(5)),
        boss_death: Some(HERE),
    };
    let bank = vec![1, 2, 3, 4, 5, 0x39];
    assert_eq!(
        mechanism_effects(&outcome, &bank),
        vec![
            Effect::Damage(i16::MAX),
            Effect::OneShot(0x39),
            Effect::Message(Message::OfMap(MapMessage::Cooked(77))),
            Effect::Sound(event(1)),
            Effect::Sound(event(2)),
            Effect::Sound(event(3)),
            Effect::AgeMessages,
            Effect::Sound(event(4)),
            Effect::Sound(event(5)),
            Effect::Ring { origin: HERE, kind: RingKind::Fire, units: 32 },
        ]
    );
    assert_eq!(mechanism_effects(&nothing_moved(), &bank), vec![Effect::AgeMessages]);
}

#[test]
fn one_message_is_shown() {
    let say = |outcome: MechanismOutcome| {
        let effects = mechanism_effects(&outcome, &vec![]);
        assert_eq!(effects.len(), 2);
        effects[0]
    };
    let locked = MechanismOutcome { needs_key: Some(1), ..nothing_moved() };
    assert_eq!(say(locked), Effect::Message(Message::OfMap(MapMessage::NeedsKey(1))));
    let counting = MechanismOutcome { needs_key: Some(1), countdown: true, ..nothing_moved() };
    assert_eq!(say(counting), Effect::Message(Message::OfMap(MapMessage::Countdown)));
    let secret = MechanismOutcome {
        countdown: true,
        message_source: Some(MessageSource { string: 0, class_name: 0x50 }),
        ..nothing_moved()
    };
    assert_eq!(say(secret), Effect::Message(Message::OfMap(MapMessage::Secret)));
}

#[test]
fn pickups_flash_and_sound() {
    assert_eq!(
        pickup_effects(1, Some(6), true, &vec![6]),
        vec![
            Effect::PickupFlash,
            Effect::PlayerSound { id: 6, channel: Channel::Item },
            Effect::Message(Message::Pickup),
        ]
    );
    assert_eq!(pickup_effects(1, Some(6), false, &vec![]), vec![Effect::PickupFlash]);
    assert!(pickup_effects(0, None, false, &vec![6]).is_empty());
}

#[test]
fn attacks_answer_by_their_kind() {
    let hit = Hit { response: Some(event(2)), impact: Some(HERE) };
    let attack = AttackOutcome {
        recoil: -4,
        muzzle_flash: true,
        strike: Strike::Direct(Some(hit)),
        sound: Some(7),
    };
    let bank = vec![2, 7];
    let shot = Effect::PlayerSound { id: 7, channel: Channel::Weapon };
    assert_eq!(
        attack_effects(attack, &bank),
        vec![
            Effect::Punch(-4),
            Effect::MuzzleFlash,
            Effect::Sound(event(2)),
            Effect::Blood(HERE),
            shot,
        ]
    );
    let quiet = AttackOutcome { recoil: 0, muzzle_flash: false, ..attack };
    let discharge = AttackOutcome { strike: Strike::Discharge(Some(hit)), ..quiet };
    assert_eq!(attack_effects(discharge, &bank), vec![Effect::Sound(event(2)), shot]);
    let launch = AttackOutcome { strike: Strike::Launch, ..quiet };
    assert_eq!(attack_effects(launch, &bank), vec![shot]);
    let miss = AttackOutcome { strike: Strike::Direct(None), ..quiet };
    assert!(attack_effects(miss, &vec![]).is_empty());
}

#[test]
fn rockets_are_heard_where_they_hit() {
    let rocket =
        RocketOutcome { impacts: 1, last_impact: Some(HERE), response: Some(event(2)) };
    assert_eq!(
        rocket_effects(Some(rocket), &vec![0xc8, 2]),
        vec![Effect::WorldSound { id: 0xc8, place: Some(HERE) }, Effect::Sound(event(2))]
    );
    assert!(rocket_effects(Some(RocketOutcome { impacts: 0, ..rocket }), &vec![0xc8, 2]).is_empty());
    assert!(rocket_effects(None, &vec![0xc8, 2]).is_empty());
}

const NAILS: NailSounds = NailSounds { ricochets: [10, 11, 12], tink: 20 };

#[test]
fn nails_hurt_and_ring() {
    let nail = NailOutcome {
        player_damage: 9,
        response: Some(event(2)),
        last_impact: Some(HERE),
        world_impacts: 1,
        last_world_impact: Some(THERE),
    };
    let bank = vec![2, 10, 11, 12, 20];
    assert_eq!(
        nail_effects(Some(nail), 5, NAILS, &bank),
        vec![
            Effect::Damage(9),
            Effect::Sound(event(2)),
            Effect::Blood(HERE),
            Effect::WorldSound { id: 11, place: Some(THERE) },
        ]
    );
    let flesh = NailOutcome { player_damage: 0, world_impacts: 0, ..nail };
    assert_eq!(
        nail_effects(Some(flesh), 5, NAILS, &bank),
        vec![Effect::Sound(event(2)), Effect::Blood(HERE)]
    );
    assert!(nail_effects(None, 5, NAILS, &bank).is_empty());
    assert_eq!(fireball_effects(Some(20)), vec![Effect::Damage(20)]);
    assert!(fireball_effects(Some(0)).is_empty());
    assert!(fireball_effects(None).is_empty());
}

#[test]
fn grenades_bounce_and_explode() {
    let grenade = GrenadeOutcome {
        bounces: 1,
        last_bounce: Some(THERE),
        explosions: 1,
        last_impact: Some(HERE),
        response: Some(event(2)),
    };
    let bank = vec![0xc1, 0xc8, 2];
    assert_eq!(
        grenade_effects(Some(grenade), &bank),
        vec![
            Effect::WorldSound { id: 0xc1, place: Some(THERE) },
            Effect::WorldSound { id: 0xc8, place: Some(HERE) },
            Effect::Sound(event(2)),
        ]
    );
    let rolling = GrenadeOutcome { bounces: 0, explosions: 0, response: None, ..grenade };
    assert!(grenade_effects(Some(rolling), &bank).is_empty());
    assert_eq!(
        explosion_effects(None, Some(HERE), 48),
        vec![
            Effect::ExplosionLight(HERE),
            Effect::Explosion(HERE),
            Effect::Ring { origin: HERE, kind: RingKind::Fire, units: 48 },
        ]
    );
}

#[test]
fn monsters_leave_their_marks() {
    let outcome = MonsterOutcome {
        sounds: vec![event(1), event(2)],
        last_explosion: Some(HERE),
        last_gib: Some(THERE),
        fogs: vec![HERE, THERE],
        backpack: Some(5),
    };
    assert_eq!(
        monster_effects(&outcome, 48, &vec![2]),
        vec![
            Effect::Sound(event(2)),
            Effect::ExplosionLight(HERE),
            Effect::Explosion(HERE),
            Effect::Ring { origin: HERE, kind: RingKind::Fire, units: 48 },
            Effect::Blood(THERE),
            Effect::Ring { origin: HERE, kind: RingKind::Spark, units: 16 },
            Effect::Ring { origin: THERE, kind: RingKind::Spark, units: 16 },
            Effect::PickupFlash,
            Effect::Message(Message::Backpack(5)),
        ]
    );
}

#[test]
fn frames_are_presented_by_their_kind() {
    let options = ViewOptions { water_warp: true, water_alpha: true };
    let shown = |mode| present_frame(mode, options, 3, MenuPage::Main, true, true, false);
    let panel = shown(FrameMode::Panel);
    assert!(!panel.water_warp && !panel.water_alpha && !panel.beam);
    assert_eq!(
        overlay_layers(panel.overlays),
        vec![Layer::Tints, Layer::Intermission, Layer::Fade]
    );
    let menu = shown(FrameMode::Menu);
    assert!(menu.water_warp && menu.water_alpha && !menu.beam);
    assert_eq!(overlay_layers(menu.overlays), vec![Layer::Tints, Layer::Menu, Layer::Fade]);
    let play = shown(FrameMode::Play);
    assert!(play.water_warp && play.beam);
    assert_eq!(
        overlay_layers(play.overlays),
        vec![Layer::ViewModel, Layer::Hud, Layer::Tints, Layer::Centerprint, Layer::Fade]
    );
    assert!(!present_frame(FrameMode::Play, options, 2, MenuPage::Main, true, true, false).water_warp);
}
