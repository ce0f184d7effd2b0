//! What the events of a frame lead to: sounds, messages, damage, particles and
//! lights, in the order in which they happen.

use vstd::prelude::*;

use crate::quake::{inventory_damage, map_message, source_message, MapMessage, MessageSource};
use crate::sound::{
    bank_contains, in_bank, nail_sound, nail_sound_id, preferred_sound, teleport_flash,
    teleport_sound, SoundEvent,
};
use crate::world::Vec3I32;

verus! {

/// The sound of a locked door.
pub const LOCKED_SOUND: i16 = 0x39;

pub const EXPLOSION_SOUND: i16 = 0xc8;

pub const BOUNCE_SOUND: i16 = 0xc1;

/// Radius of the burst around a teleporter.
pub const FOG_UNITS: i32 = 16;

/// Radius of the splash that the boss sinks with.
pub const SPLASH_UNITS: i32 = 32;

/// Channels of the player's own sounds.
#[derive(Copy, Clone, Debug, PartialEq, Eq, Structural)]
pub enum Channel {
    Voice,
    Weapon,
    Item,
}

#[derive(Copy, Clone, Debug, PartialEq, Eq, Structural)]
pub enum RingKind {
    Spark,
    Fire,
}

/// A line of text for the player.
#[derive(Copy, Clone, Debug, PartialEq, Eq, Structural)]
pub enum Message {
    OfMap(MapMessage),
    /// The name of what was picked up.
    Pickup,
    /// A backpack with so many shells, or with rockets.
    Backpack(u16),
}

/// One thing that happens.
#[derive(Copy, Clone, Debug, PartialEq, Eq)]
pub enum Effect {
    Sound(SoundEvent),
    /// A sound at a place, or at the listener where no place is known.
    WorldSound { id: i16, place: Option<Vec3I32> },
    PlayerSound { id: i16, channel: Channel },
    OneShot(i16),
    Message(Message),
    Damage(i16),
    /// The listener is somewhere else.
    MoveListener,
    /// The message and the clock of the level grow older by the frame.
    AgeMessages,
    /// The screen flashes as for a pickup.
    PickupFlash,
    Bubbles,
    Gib,
    /// The view is thrown up by a shot.
    Punch(i16),
    /// A shot lights up what is around the eye, and the weapon in view.
    MuzzleFlash,
    Blood(Vec3I32),
    Ring { origin: Vec3I32, kind: RingKind, units: i32 },
    ExplosionLight(Vec3I32),
    Explosion(Vec3I32),
}

/// The sound of an effect is in the bank, if it has one.
pub open spec fn is_playable(effect: Effect, bank: Seq<i16>) -> bool {
    match effect {
        Effect::Sound(sound) => in_bank(bank, sound.id),
        Effect::WorldSound { id, .. } => in_bank(bank, id),
        Effect::PlayerSound { id, .. } => in_bank(bank, id),
        Effect::OneShot(id) => in_bank(bank, id),
        _ => true,
    }
}

/// Every sound among the effects is in the bank.
pub open spec fn playable(effects: Seq<Effect>, bank: Seq<i16>) -> bool {
    forall|i: int| 0 <= i < effects.len() ==> is_playable(#[trigger] effects[i], bank)
}

pub open spec fn effect_if(condition: bool, effect: Effect) -> Seq<Effect> {
    if condition {
        seq![effect]
    } else {
        Seq::empty()
    }
}

/// A sound that something made, if the bank has it.
pub open spec fn heard(sound: Option<SoundEvent>, bank: Seq<i16>) -> Seq<Effect> {
    match sound {
        Some(event) => effect_if(in_bank(bank, event.id), Effect::Sound(event)),
        None => Seq::empty(),
    }
}

/// A sound at a place, if the bank has it.
pub open spec fn heard_at(id: i16, origin: Option<Vec3I32>, bank: Seq<i16>) -> Seq<Effect> {
    effect_if(in_bank(bank, id), Effect::WorldSound { id, place: origin })
}

/// A sound of the player's own, if there is one and the bank has it.
pub open spec fn heard_from_player(id: Option<i16>, channel: Channel, bank: Seq<i16>) -> Seq<Effect> {
    match id {
        Some(sound) => effect_if(
            in_bank(bank, sound),
            Effect::PlayerSound { id: sound, channel },
        ),
        None => Seq::empty(),
    }
}

pub open spec fn blood_at(origin: Option<Vec3I32>) -> Seq<Effect> {
    match origin {
        Some(place) => seq![Effect::Blood(place)],
        None => Seq::empty(),
    }
}

/// The light, the star and the ring of fire of an explosion.
pub open spec fn blast_at(origin: Option<Vec3I32>, units: i32) -> Seq<Effect> {
    match origin {
        Some(place) => seq![
            Effect::ExplosionLight(place),
            Effect::Explosion(place),
            Effect::Ring { origin: place, kind: RingKind::Fire, units },
        ],
        None => Seq::empty(),
    }
}

/// The damage that the player takes, if any.
pub open spec fn hurt_by(damage: u16) -> Seq<Effect> {
    effect_if(
        damage != 0,
        Effect::Damage(
            if damage > i16::MAX {
                i16::MAX
            } else {
                damage as i16
            },
        ),
    )
}

fn push_if(effects: &mut Vec<Effect>, condition: bool, effect: Effect, bank: Ghost<Seq<i16>>)
    ensures
        final(effects)@ == old(effects)@ + effect_if(condition, effect),
        playable(old(effects)@, bank@) && (condition ==> is_playable(effect, bank@)) ==> playable(
            final(effects)@,
            bank@,
        ),
{
    if condition {
        effects.push(effect);
    }
    assert(effects@ =~= old(effects)@ + effect_if(condition, effect));
}

fn push_heard(effects: &mut Vec<Effect>, sound: Option<SoundEvent>, bank: &Vec<i16>)
    ensures
        final(effects)@ == old(effects)@ + heard(sound, bank@),
        playable(old(effects)@, bank@) ==> playable(final(effects)@, bank@),
{
    match sound {
        Some(event) => {
            let present: bool = bank_contains(bank, event.id);
            push_if(effects, present, Effect::Sound(event), Ghost(bank@));
        },
        None => {},
    }
    assert(effects@ =~= old(effects)@ + heard(sound, bank@));
}

fn push_heard_at(effects: &mut Vec<Effect>, id: i16, origin: Option<Vec3I32>, bank: &Vec<i16>)
    ensures
        final(effects)@ == old(effects)@ + heard_at(id, origin, bank@),
        playable(old(effects)@, bank@) ==> playable(final(effects)@, bank@),
{
    let present: bool = bank_contains(bank, id);
    push_if(effects, present, Effect::WorldSound { id, place: origin }, Ghost(bank@));
}

fn push_from_player(effects: &mut Vec<Effect>, id: Option<i16>, channel: Channel, bank: &Vec<i16>)
    ensures
        final(effects)@ == old(effects)@ + heard_from_player(id, channel, bank@),
        playable(old(effects)@, bank@) ==> playable(final(effects)@, bank@),
{
    match id {
        Some(sound) => {
            let present: bool = bank_contains(bank, sound);
            push_if(effects, present, Effect::PlayerSound { id: sound, channel }, Ghost(bank@));
        },
        None => {},
    }
    assert(effects@ =~= old(effects)@ + heard_from_player(id, channel, bank@));
}

fn push_blood(effects: &mut Vec<Effect>, origin: Option<Vec3I32>, bank: Ghost<Seq<i16>>)
    ensures
        final(effects)@ == old(effects)@ + blood_at(origin),
        playable(old(effects)@, bank@) ==> playable(final(effects)@, bank@),
{
    if let Some(place) = origin {
        effects.push(Effect::Blood(place));
    }
    assert(effects@ =~= old(effects)@ + blood_at(origin));
}

fn push_blast(effects: &mut Vec<Effect>, origin: Option<Vec3I32>, units: i32, bank: Ghost<Seq<i16>>)
    ensures
        final(effects)@ == old(effects)@ + blast_at(origin, units),
        playable(old(effects)@, bank@) ==> playable(final(effects)@, bank@),
{
    if let Some(place) = origin {
        effects.push(Effect::ExplosionLight(place));
        effects.push(Effect::Explosion(place));
        effects.push(Effect::Ring { origin: place, kind: RingKind::Fire, units });
    }
    assert(effects@ =~= old(effects)@ + blast_at(origin, units));
}

fn push_hurt(effects: &mut Vec<Effect>, damage: u16, bank: Ghost<Seq<i16>>)
    ensures
        final(effects)@ == old(effects)@ + hurt_by(damage),
        playable(old(effects)@, bank@) ==> playable(final(effects)@, bank@),
{
    push_if(effects, damage != 0, Effect::Damage(inventory_damage(damage)), bank);
}

/// The first `count` of several sounds, without those that the bank lacks.
pub open spec fn all_heard(sounds: Seq<SoundEvent>, bank: Seq<i16>, count: nat) -> Seq<Effect>
    decreases count,
{
    if count == 0 {
        Seq::empty()
    } else {
        all_heard(sounds, bank, (count - 1) as nat) + heard(Some(sounds[count - 1]), bank)
    }
}

fn push_all_heard(effects: &mut Vec<Effect>, sounds: &Vec<SoundEvent>, bank: &Vec<i16>)
    ensures
        final(effects)@ == old(effects)@ + all_heard(sounds@, bank@, sounds@.len()),
        playable(old(effects)@, bank@) ==> playable(final(effects)@, bank@),
{
    let mut index: usize = 0;
    assert(effects@ =~= old(effects)@ + all_heard(sounds@, bank@, 0));
    while index < sounds.len()
        invariant
            index <= sounds@.len(),
            effects@ == old(effects)@ + all_heard(sounds@, bank@, index as nat),
            playable(old(effects)@, bank@) ==> playable(effects@, bank@),
        decreases sounds@.len() - index,
    {
        push_heard(effects, Some(sounds[index]), bank);
        index += 1;
        assert(effects@ =~= old(effects)@ + all_heard(sounds@, bank@, index as nat));
    }
}

/// What the rules of survival found.
pub struct SurvivalOutcome {
    pub sounds: Vec<i16>,
    /// A powerup is about to run out.
    pub bonus_flash: bool,
    pub death_bubbles: bool,
    pub gibbed: bool,
}

/// The first `count` sounds of the player's voice.
pub open spec fn voices(sounds: Seq<i16>, bank: Seq<i16>, count: nat) -> Seq<Effect>
    decreases count,
{
    if count == 0 {
        Seq::empty()
    } else {
        voices(sounds, bank, (count - 1) as nat) + heard_from_player(
            Some(sounds[count - 1]),
            Channel::Voice,
            bank,
        )
    }
}

pub fn survival_effects(outcome: &SurvivalOutcome, bank: &Vec<i16>) -> (effects: Vec<Effect>)
    ensures
        effects@ == voices(outcome.sounds@, bank@, outcome.sounds@.len()) + effect_if(
            outcome.bonus_flash,
            Effect::PickupFlash,
        ) + effect_if(outcome.death_bubbles, Effect::Bubbles) + effect_if(
            outcome.gibbed,
            Effect::Gib,
        ),
        playable(effects@, bank@),
{
    let mut effects: Vec<Effect> = Vec::new();
    let mut index: usize = 0;
    while index < outcome.sounds.len()
        invariant
            index <= outcome.sounds@.len(),
            effects@ == voices(outcome.sounds@, bank@, index as nat),
            playable(effects@, bank@),
        decreases outcome.sounds@.len() - index,
    {
        push_from_player(&mut effects, Some(outcome.sounds[index]), Channel::Voice, bank);
        index += 1;
    }
    push_if(&mut effects, outcome.bonus_flash, Effect::PickupFlash, Ghost(bank@));
    push_if(&mut effects, outcome.death_bubbles, Effect::Bubbles, Ghost(bank@));
    push_if(&mut effects, outcome.gibbed, Effect::Gib, Ghost(bank@));
    effects
}

/// The player came out of a teleporter at `origin`. The flash is heard there,
/// unless the teleporter is a silent one.
pub open spec fn arrival(origin: Vec3I32, silent: bool, tick: u32, bank: Seq<i16>) -> Seq<Effect> {
    seq![
        Effect::MoveListener,
        Effect::Ring { origin, kind: RingKind::Spark, units: FOG_UNITS },
    ] + if silent {
        Seq::empty()
    } else {
        heard_at(preferred_sound(bank, teleport_flash(tick), 0x76), Some(origin), bank)
    }
}

pub fn teleport_effects(origin: Vec3I32, silent: bool, tick: u32, bank: &Vec<i16>) -> (effects: Vec<
    Effect,
>)
    ensures
        effects@ == arrival(origin, silent, tick, bank@),
        playable(effects@, bank@),
{
    let mut effects: Vec<Effect> = Vec::new();
    effects.push(Effect::MoveListener);
    effects.push(Effect::Ring { origin, kind: RingKind::Spark, units: FOG_UNITS });
    assert(effects@ =~= seq![
        Effect::MoveListener,
        Effect::Ring { origin, kind: RingKind::Spark, units: FOG_UNITS },
    ]);
    match teleport_sound(silent, tick, bank) {
        Some(flash) => {
            push_heard_at(&mut effects, flash, Some(origin), bank);
        },
        None => {},
    }
    assert(effects@ =~= arrival(origin, silent, tick, bank@));
    effects
}

/// What doors, trains, counters and the like did in a frame.
pub struct MechanismOutcome {
    pub crush_damage: u16,
    /// A door wants this key.
    pub needs_key: Option<u8>,
    pub countdown: bool,
    pub message_source: Option<MessageSource>,
    pub message_sound: Option<SoundEvent>,
    pub mover_sounds: Vec<SoundEvent>,
    pub train_sound: Option<SoundEvent>,
    pub boss_shock_sound: Option<SoundEvent>,
    /// Where the boss went down.
    pub boss_death: Option<Vec3I32>,
}

/// What the map says, as one effect at most: its own text before a countdown,
/// and a countdown before the lock of a door.
pub open spec fn said(needs_key: Option<u8>, countdown: bool, source: Option<MessageSource>) -> Seq<
    Effect,
> {
    match source {
        Some(entity) if source_message(entity) is Some => seq![
            Effect::Message(Message::OfMap(source_message(entity)->0)),
        ],
        _ => if countdown {
            seq![Effect::Message(Message::OfMap(MapMessage::Countdown))]
        } else {
            match needs_key {
                Some(bit) => seq![Effect::Message(Message::OfMap(MapMessage::NeedsKey(bit)))],
                None => Seq::empty(),
            }
        },
    }
}

/// The splash where the boss goes down.
pub open spec fn splash_at(origin: Option<Vec3I32>) -> Seq<Effect> {
    match origin {
        Some(place) => seq![
            Effect::Ring { origin: place, kind: RingKind::Fire, units: SPLASH_UNITS },
        ],
        None => Seq::empty(),
    }
}

pub open spec fn mechanism_list(outcome: MechanismOutcome, bank: Seq<i16>) -> Seq<Effect> {
    hurt_by(outcome.crush_damage) + effect_if(
        outcome.needs_key is Some && in_bank(bank, LOCKED_SOUND),
        Effect::OneShot(LOCKED_SOUND),
    ) + said(outcome.needs_key, outcome.countdown, outcome.message_source) + heard(
        outcome.message_sound,
        bank,
    ) + all_heard(outcome.mover_sounds@, bank, outcome.mover_sounds@.len()) + seq![
        Effect::AgeMessages,
    ] + heard(outcome.train_sound, bank) + heard(outcome.boss_shock_sound, bank) + splash_at(
        outcome.boss_death,
    )
}

pub fn mechanism_effects(outcome: &MechanismOutcome, bank: &Vec<i16>) -> (effects: Vec<Effect>)
    ensures
        effects@ == mechanism_list(*outcome, bank@),
        playable(effects@, bank@),
{
    let mut effects: Vec<Effect> = Vec::new();
    push_hurt(&mut effects, outcome.crush_damage, Ghost(bank@));
    assert(effects@ =~= hurt_by(outcome.crush_damage));
    let locked: bool = outcome.needs_key.is_some() && bank_contains(bank, LOCKED_SOUND);
    push_if(&mut effects, locked, Effect::OneShot(LOCKED_SOUND), Ghost(bank@));
    let ghost before = effects@;
    match map_message(outcome.needs_key, outcome.countdown, outcome.message_source) {
        Some(message) => {
            effects.push(Effect::Message(Message::OfMap(message)));
        },
        None => {},
    }
    assert(effects@ =~= before + said(
        outcome.needs_key,
        outcome.countdown,
        outcome.message_source,
    ));
    push_heard(&mut effects, outcome.message_sound, bank);
    push_all_heard(&mut effects, &outcome.mover_sounds, bank);
    let ghost before = effects@;
    effects.push(Effect::AgeMessages);
    assert(effects@ =~= before + seq![Effect::AgeMessages]);
    push_heard(&mut effects, outcome.train_sound, bank);
    push_heard(&mut effects, outcome.boss_shock_sound, bank);
    let ghost before = effects@;
    if let Some(place) = outcome.boss_death {
        effects.push(Effect::Ring { origin: place, kind: RingKind::Fire, units: SPLASH_UNITS });
    }
    assert(effects@ =~= before + splash_at(outcome.boss_death));
    effects
}

/// What the player picked up.
pub open spec fn pickup_list(consumed: bool, sound: Option<i16>, named: bool, bank: Seq<i16>) -> Seq<
    Effect,
> {
    effect_if(consumed, Effect::PickupFlash) + heard_from_player(sound, Channel::Item, bank)
        + effect_if(named, Effect::Message(Message::Pickup))
}

pub fn pickup_effects(consumed: u16, sound: Option<i16>, named: bool, bank: &Vec<i16>) -> (effects: Vec<
    Effect,
>)
    ensures
        effects@ == pickup_list(consumed != 0, sound, named, bank@),
        playable(effects@, bank@),
{
    let mut effects: Vec<Effect> = Vec::new();
    push_if(&mut effects, consumed != 0, Effect::PickupFlash, Ghost(bank@));
    assert(effects@ =~= effect_if(consumed != 0, Effect::PickupFlash));
    push_from_player(&mut effects, sound, Channel::Item, bank);
    push_if(&mut effects, named, Effect::Message(Message::Pickup), Ghost(bank@));
    effects
}

/// What an attack hit.
#[derive(Copy, Clone, Debug, PartialEq, Eq)]
pub struct Hit {
    pub response: Option<SoundEvent>,
    pub impact: Option<Vec3I32>,
}

/// What kind of an attack it was.
#[derive(Copy, Clone, Debug, PartialEq, Eq)]
pub enum Strike {
    /// At once and at one place: an axe, shot or lightning.
    Direct(Option<Hit>),
    /// Lightning that goes off under water.
    Discharge(Option<Hit>),
    /// A nail, grenade or rocket is on its way.
    Launch,
}

/// An attack that the player made.
#[derive(Copy, Clone, Debug, PartialEq, Eq)]
pub struct AttackOutcome {
    pub recoil: i16,
    pub muzzle_flash: bool,
    pub strike: Strike,
    pub sound: Option<i16>,
}

/// What the target does about it. Only a direct hit draws blood.
pub open spec fn strike_list(strike: Strike, bank: Seq<i16>) -> Seq<Effect> {
    match strike {
        Strike::Direct(Some(hit)) => heard(hit.response, bank) + blood_at(hit.impact),
        Strike::Discharge(Some(hit)) => heard(hit.response, bank),
        _ => Seq::empty(),
    }
}

pub open spec fn attack_list(attack: AttackOutcome, bank: Seq<i16>) -> Seq<Effect> {
    effect_if(attack.recoil != 0, Effect::Punch(attack.recoil)) + effect_if(
        attack.muzzle_flash,
        Effect::MuzzleFlash,
    ) + strike_list(attack.strike, bank) + heard_from_player(attack.sound, Channel::Weapon, bank)
}

pub fn attack_effects(attack: AttackOutcome, bank: &Vec<i16>) -> (effects: Vec<Effect>)
    ensures
        effects@ == attack_list(attack, bank@),
        playable(effects@, bank@),
{
    let mut effects: Vec<Effect> = Vec::new();
    push_if(&mut effects, attack.recoil != 0, Effect::Punch(attack.recoil), Ghost(bank@));
    assert(effects@ =~= effect_if(attack.recoil != 0, Effect::Punch(attack.recoil)));
    push_if(&mut effects, attack.muzzle_flash, Effect::MuzzleFlash, Ghost(bank@));
    let ghost before = effects@;
    match attack.strike {
        Strike::Direct(Some(hit)) => {
            push_heard(&mut effects, hit.response, bank);
            push_blood(&mut effects, hit.impact, Ghost(bank@));
        },
        Strike::Discharge(Some(hit)) => {
            push_heard(&mut effects, hit.response, bank);
        },
        _ => {},
    }
    assert(effects@ =~= before + strike_list(attack.strike, bank@));
    push_from_player(&mut effects, attack.sound, Channel::Weapon, bank);
    effects
}

#[derive(Copy, Clone, Debug, PartialEq, Eq)]
pub struct RocketOutcome {
    pub impacts: u16,
    pub last_impact: Option<Vec3I32>,
    pub response: Option<SoundEvent>,
}

#[derive(Copy, Clone, Debug, PartialEq, Eq)]
pub struct NailOutcome {
    pub player_damage: u16,
    pub response: Option<SoundEvent>,
    pub last_impact: Option<Vec3I32>,
    /// Nails that struck a wall.
    pub world_impacts: u16,
    pub last_world_impact: Option<Vec3I32>,
}

#[derive(Copy, Clone, Debug, PartialEq, Eq)]
pub struct GrenadeOutcome {
    pub bounces: u16,
    pub last_bounce: Option<Vec3I32>,
    pub explosions: u16,
    pub last_impact: Option<Vec3I32>,
    pub response: Option<SoundEvent>,
}

/// Sounds of nails on walls.
#[derive(Copy, Clone, Debug, PartialEq, Eq)]
pub struct NailSounds {
    pub ricochets: [i16; 3],
    pub tink: i16,
}

pub open spec fn rocket_list(rocket: Option<RocketOutcome>, bank: Seq<i16>) -> Seq<Effect> {
    match rocket {
        Some(outcome) if outcome.impacts != 0 => heard_at(
            EXPLOSION_SOUND,
            outcome.last_impact,
            bank,
        ) + heard(outcome.response, bank),
        _ => Seq::empty(),
    }
}

pub fn rocket_effects(rocket: Option<RocketOutcome>, bank: &Vec<i16>) -> (effects: Vec<Effect>)
    ensures
        effects@ == rocket_list(rocket, bank@),
        playable(effects@, bank@),
{
    let mut effects: Vec<Effect> = Vec::new();
    if let Some(outcome) = rocket {
        if outcome.impacts != 0 {
            push_heard_at(&mut effects, EXPLOSION_SOUND, outcome.last_impact, bank);
            push_heard(&mut effects, outcome.response, bank);
        }
    }
    assert(effects@ =~= rocket_list(rocket, bank@));
    effects
}

pub open spec fn nail_list(nail: Option<NailOutcome>, tick: u32, sounds: NailSounds, bank: Seq<i16>) -> Seq<
    Effect,
> {
    match nail {
        Some(outcome) => hurt_by(outcome.player_damage) + heard(outcome.response, bank) + blood_at(
            outcome.last_impact,
        ) + if outcome.world_impacts != 0 {
            heard_at(
                nail_sound_id(tick, sounds.ricochets@, sounds.tink, bank),
                outcome.last_world_impact,
                bank,
            )
        } else {
            Seq::empty()
        },
        None => Seq::empty(),
    }
}

pub fn nail_effects(nail: Option<NailOutcome>, tick: u32, sounds: NailSounds, bank: &Vec<i16>) -> (effects: Vec<
    Effect,
>)
    ensures
        effects@ == nail_list(nail, tick, sounds, bank@),
        playable(effects@, bank@),
{
    let mut effects: Vec<Effect> = Vec::new();
    if let Some(outcome) = nail {
        push_hurt(&mut effects, outcome.player_damage, Ghost(bank@));
        push_heard(&mut effects, outcome.response, bank);
        push_blood(&mut effects, outcome.last_impact, Ghost(bank@));
        if outcome.world_impacts != 0 {
            let id: i16 = nail_sound(tick, sounds.ricochets, sounds.tink, bank);
            push_heard_at(&mut effects, id, outcome.last_world_impact, bank);
        }
    }
    assert(effects@ =~= nail_list(nail, tick, sounds, bank@));
    effects
}

/// A ball of lava makes no sound; it only hurts.
pub fn fireball_effects(player_damage: Option<u16>) -> (effects: Vec<Effect>)
    ensures
        effects@ == match player_damage {
            Some(damage) => hurt_by(damage),
            None => Seq::empty(),
        },
{
    let mut effects: Vec<Effect> = Vec::new();
    if let Some(damage) = player_damage {
        push_hurt(&mut effects, damage, Ghost(Seq::empty()));
        assert(effects@ =~= hurt_by(damage));
    }
    effects
}

pub open spec fn grenade_list(grenade: Option<GrenadeOutcome>, bank: Seq<i16>) -> Seq<Effect> {
    match grenade {
        Some(outcome) => (if outcome.bounces != 0 {
            heard_at(BOUNCE_SOUND, outcome.last_bounce, bank)
        } else {
            Seq::empty()
        }) + (if outcome.explosions != 0 {
            heard_at(EXPLOSION_SOUND, outcome.last_impact, bank)
        } else {
            Seq::empty()
        }) + heard(outcome.response, bank),
        None => Seq::empty(),
    }
}

pub fn grenade_effects(grenade: Option<GrenadeOutcome>, bank: &Vec<i16>) -> (effects: Vec<Effect>)
    ensures
        effects@ == grenade_list(grenade, bank@),
        playable(effects@, bank@),
{
    let mut effects: Vec<Effect> = Vec::new();
    if let Some(outcome) = grenade {
        if outcome.bounces != 0 {
            push_heard_at(&mut effects, BOUNCE_SOUND, outcome.last_bounce, bank);
        }
        if outcome.explosions != 0 {
            push_heard_at(&mut effects, EXPLOSION_SOUND, outcome.last_impact, bank);
        }
        push_heard(&mut effects, outcome.response, bank);
    }
    assert(effects@ =~= grenade_list(grenade, bank@));
    effects
}

/// What monsters, or their missiles, or barrels did in a frame.
pub struct MonsterOutcome {
    pub sounds: Vec<SoundEvent>,
    pub last_explosion: Option<Vec3I32>,
    pub last_gib: Option<Vec3I32>,
    /// Where monsters came out of teleporters.
    pub fogs: Vec<Vec3I32>,
    /// Shells in a backpack that the player took.
    pub backpack: Option<u16>,
}

/// The first `count` bursts of teleporters.
pub open spec fn fog_rings(fogs: Seq<Vec3I32>, count: nat) -> Seq<Effect> {
    Seq::new(
        count,
        |i: int| Effect::Ring { origin: fogs[i], kind: RingKind::Spark, units: FOG_UNITS },
    )
}

pub open spec fn backpack_list(backpack: Option<u16>) -> Seq<Effect> {
    match backpack {
        Some(shells) => seq![
            Effect::PickupFlash,
            Effect::Message(Message::Backpack(shells)),
        ],
        None => Seq::empty(),
    }
}

pub open spec fn monster_list(outcome: MonsterOutcome, explosion_units: i32, bank: Seq<i16>) -> Seq<
    Effect,
> {
    all_heard(outcome.sounds@, bank, outcome.sounds@.len()) + blast_at(
        outcome.last_explosion,
        explosion_units,
    ) + blood_at(outcome.last_gib) + fog_rings(outcome.fogs@, outcome.fogs@.len()) + backpack_list(
        outcome.backpack,
    )
}

pub fn monster_effects(outcome: &MonsterOutcome, explosion_units: i32, bank: &Vec<i16>) -> (effects: Vec<
    Effect,
>)
    ensures
        effects@ == monster_list(*outcome, explosion_units, bank@),
        playable(effects@, bank@),
{
    let mut effects: Vec<Effect> = Vec::new();
    push_all_heard(&mut effects, &outcome.sounds, bank);
    assert(effects@ =~= all_heard(outcome.sounds@, bank@, outcome.sounds@.len()));
    push_blast(&mut effects, outcome.last_explosion, explosion_units, Ghost(bank@));
    push_blood(&mut effects, outcome.last_gib, Ghost(bank@));
    let ghost before = effects@;
    let mut index: usize = 0;
    assert(effects@ =~= before + fog_rings(outcome.fogs@, 0));
    while index < outcome.fogs.len()
        invariant
            index <= outcome.fogs@.len(),
            effects@ == before + fog_rings(outcome.fogs@, index as nat),
            playable(effects@, bank@),
        decreases outcome.fogs@.len() - index,
    {
        effects.push(
            Effect::Ring { origin: outcome.fogs[index], kind: RingKind::Spark, units: FOG_UNITS },
        );
        index += 1;
        assert(effects@ =~= before + fog_rings(outcome.fogs@, index as nat));
    }
    let ghost before = effects@;
    if let Some(shells) = outcome.backpack {
        effects.push(Effect::PickupFlash);
        effects.push(Effect::Message(Message::Backpack(shells)));
    }
    assert(effects@ =~= before + backpack_list(outcome.backpack));
    effects
}

/// Explosions of the player's own rockets and grenades.
pub fn explosion_effects(rocket: Option<Vec3I32>, grenade: Option<Vec3I32>, units: i32) -> (effects: Vec<
    Effect,
>)
    ensures
        effects@ == blast_at(rocket, units) + blast_at(grenade, units),
{
    let mut effects: Vec<Effect> = Vec::new();
    push_blast(&mut effects, rocket, units, Ghost(Seq::empty()));
    assert(effects@ =~= blast_at(rocket, units));
    push_blast(&mut effects, grenade, units, Ghost(Seq::empty()));
    effects
}

/// What two lists tell together is what either tells.
proof fn told_by_either(first: Seq<Effect>, second: Seq<Effect>)
    ensures
        forall|effect: Effect| #[trigger]
            (first + second).contains(effect) <==> first.contains(effect) || second.contains(
                effect,
            ),
{
    assert forall|effect: Effect| #[trigger] (first + second).contains(effect) <==> first.contains(
        effect,
    ) || second.contains(effect) by {
        if first.contains(effect) {
            let i = choose|i: int| 0 <= i < first.len() && first[i] == effect;
            assert((first + second)[i] == effect);
        }
        if second.contains(effect) {
            let i = choose|i: int| 0 <= i < second.len() && second[i] == effect;
            assert((first + second)[first.len() + i] == effect);
        }
    }
}

proof fn told_if(condition: bool, one: Effect)
    ensures
        forall|effect: Effect| #[trigger]
            effect_if(condition, one).contains(effect) <==> condition && effect == one,
{
    if condition {
        assert(effect_if(condition, one)[0] == one);
    }
}

proof fn told_by_sound(sound: Option<SoundEvent>, bank: Seq<i16>)
    ensures
        forall|effect: Effect| #[trigger]
            heard(sound, bank).contains(effect) <==> (sound matches Some(event) && in_bank(
                bank,
                event.id,
            ) && effect == Effect::Sound(event)),
{
    if let Some(event) = sound {
        told_if(in_bank(bank, event.id), Effect::Sound(event));
    }
}

proof fn told_by_sounds(sounds: Seq<SoundEvent>, bank: Seq<i16>, count: nat)
    requires
        count <= sounds.len(),
    ensures
        forall|effect: Effect| #[trigger]
            all_heard(sounds, bank, count).contains(effect) <==> (effect matches Effect::Sound(
                event,
            ) && in_bank(bank, event.id) && sounds.take(count as int).contains(event)),
    decreases count,
{
    if count == 0 {
    } else {
        let last = sounds[count - 1];
        let before = all_heard(sounds, bank, (count - 1) as nat);
        told_by_sounds(sounds, bank, (count - 1) as nat);
        told_by_sound(Some(last), bank);
        told_by_either(before, heard(Some(last), bank));
        let shorter = sounds.take(count - 1);
        let longer = sounds.take(count as int);
        assert forall|event: SoundEvent| #[trigger]
            longer.contains(event) <==> shorter.contains(event) || event == last by {
            if shorter.contains(event) {
                let i = choose|i: int| 0 <= i < shorter.len() && shorter[i] == event;
                assert(longer[i] == event);
            }
            if event == last {
                assert(longer[count - 1] == event);
            }
            if longer.contains(event) && event != last {
                let i = choose|i: int| 0 <= i < longer.len() && longer[i] == event;
                assert(shorter[i] == event);
            }
        }
    }
}

/// What a pickup tells of: a flash where something was taken, its sound on the
/// channel of items and its name.
pub proof fn pickups_tell_of_themselves(
    consumed: bool,
    sound: Option<i16>,
    named: bool,
    bank: Seq<i16>,
    effect: Effect,
)
    ensures
        pickup_list(consumed, sound, named, bank).contains(effect) <==> (match effect {
            Effect::PickupFlash => consumed,
            Effect::PlayerSound { id, channel } => sound == Some(id) && channel is Item && in_bank(
                bank,
                id,
            ),
            Effect::Message(message) => named && message is Pickup,
            _ => false,
        }),
{
    let a = effect_if(consumed, Effect::PickupFlash);
    let b = heard_from_player(sound, Channel::Item, bank);
    let c = effect_if(named, Effect::Message(Message::Pickup));
    told_if(consumed, Effect::PickupFlash);
    told_if(named, Effect::Message(Message::Pickup));
    if let Some(id) = sound {
        told_if(in_bank(bank, id), Effect::PlayerSound { id, channel: Channel::Item });
    }
    told_by_either(a, b);
    told_by_either(a + b, c);
}

/// What an attack tells of: its own recoil, its flash, the answer and the blood
/// of what it struck at once, and its own sound on the channel of weapons. A
/// discharge draws no blood, and what is still on its way tells of nothing.
pub proof fn attacks_tell_of_themselves(attack: AttackOutcome, bank: Seq<i16>, effect: Effect)
    ensures
        attack_list(attack, bank).contains(effect) <==> (match effect {
            Effect::Punch(recoil) => recoil != 0 && recoil == attack.recoil,
            Effect::MuzzleFlash => attack.muzzle_flash,
            Effect::Sound(event) => in_bank(bank, event.id) && (match attack.strike {
                Strike::Direct(Some(hit)) => hit.response == Some(event),
                Strike::Discharge(Some(hit)) => hit.response == Some(event),
                _ => false,
            }),
            Effect::Blood(place) => match attack.strike {
                Strike::Direct(Some(hit)) => hit.impact == Some(place),
                _ => false,
            },
            Effect::PlayerSound { id, channel } => attack.sound == Some(id) && channel is Weapon
                && in_bank(bank, id),
            _ => false,
        }),
{
    let a = effect_if(attack.recoil != 0, Effect::Punch(attack.recoil));
    let b = effect_if(attack.muzzle_flash, Effect::MuzzleFlash);
    let c = strike_list(attack.strike, bank);
    let d = heard_from_player(attack.sound, Channel::Weapon, bank);
    told_if(attack.recoil != 0, Effect::Punch(attack.recoil));
    told_if(attack.muzzle_flash, Effect::MuzzleFlash);
    if let Some(id) = attack.sound {
        told_if(in_bank(bank, id), Effect::PlayerSound { id, channel: Channel::Weapon });
    }
    match attack.strike {
        Strike::Direct(Some(hit)) => {
            told_by_sound(hit.response, bank);
            told_of_blood(hit.impact);
            told_by_either(heard(hit.response, bank), blood_at(hit.impact));
        },
        Strike::Discharge(Some(hit)) => {
            told_by_sound(hit.response, bank);
        },
        _ => {},
    }
    told_by_either(a, b);
    told_by_either(a + b, c);
    told_by_either(a + b + c, d);
}

proof fn told_of_blood(origin: Option<Vec3I32>)
    ensures
        forall|effect: Effect| #[trigger]
            blood_at(origin).contains(effect) <==> (effect matches Effect::Blood(place) && origin
                == Some(place)),
{
    if let Some(place) = origin {
        assert(blood_at(origin)[0] == Effect::Blood(place));
    }
}

/// A rocket that struck tells of its blast where it last struck and of the
/// answer.
pub proof fn rockets_tell_of_their_impact(outcome: RocketOutcome, bank: Seq<i16>, effect: Effect)
    ensures
        rocket_list(Some(outcome), bank).contains(effect) <==> outcome.impacts != 0 && (
        match effect {
            Effect::WorldSound { id, place } => id == 0xc8 && place
                == outcome.last_impact && in_bank(bank, id),
            Effect::Sound(event) => outcome.response == Some(event) && in_bank(bank, event.id),
            _ => false,
        }),
{
    let boom = Effect::WorldSound { id: EXPLOSION_SOUND, place: outcome.last_impact };
    told_if(in_bank(bank, EXPLOSION_SOUND), boom);
    told_by_sound(outcome.response, bank);
    told_by_either(
        heard_at(EXPLOSION_SOUND, outcome.last_impact, bank),
        heard(outcome.response, bank),
    );
}

/// A grenade tells of its bounces where it last bounced and of its blast where it
/// last struck, each with its own sound.
pub proof fn grenades_tell_of_bounces_and_blasts(
    outcome: GrenadeOutcome,
    bank: Seq<i16>,
    effect: Effect,
)
    ensures
        grenade_list(Some(outcome), bank).contains(effect) <==> (match effect {
            Effect::WorldSound { id, place } => in_bank(bank, id) && ((outcome.bounces != 0 && id
                == 0xc1 && place == outcome.last_bounce) || (outcome.explosions != 0 && id
                == 0xc8 && place == outcome.last_impact)),
            Effect::Sound(event) => outcome.response == Some(event) && in_bank(bank, event.id),
            _ => false,
        }),
{
    let a = if outcome.bounces != 0 {
        heard_at(BOUNCE_SOUND, outcome.last_bounce, bank)
    } else {
        Seq::empty()
    };
    let b = if outcome.explosions != 0 {
        heard_at(EXPLOSION_SOUND, outcome.last_impact, bank)
    } else {
        Seq::empty()
    };
    let c = heard(outcome.response, bank);
    let bounce = Effect::WorldSound { id: BOUNCE_SOUND, place: outcome.last_bounce };
    let boom = Effect::WorldSound { id: EXPLOSION_SOUND, place: outcome.last_impact };
    told_if(in_bank(bank, BOUNCE_SOUND), bounce);
    told_if(in_bank(bank, EXPLOSION_SOUND), boom);
    told_by_sound(outcome.response, bank);
    told_by_either(a, b);
    told_by_either(a + b, c);
}

/// The damage told of is the damage done, as far as it can be told.
pub proof fn damage_is_told_in_full(damage: u16, effect: Effect)
    ensures
        hurt_by(damage).contains(effect) <==> damage != 0 && (effect matches Effect::Damage(told)
            && told == (if damage > 0x7fff {
            0x7fff
        } else {
            damage as int
        })),
{
    told_if(
        damage != 0,
        Effect::Damage(
            if damage > i16::MAX {
                i16::MAX
            } else {
                damage as i16
            },
        ),
    );
}

/// Nails tell of what they did to the player, of the answer and the blood where
/// they last struck flesh, and of a sound where they last struck a wall.
pub proof fn nails_tell_of_flesh_and_walls(
    outcome: NailOutcome,
    tick: u32,
    sounds: NailSounds,
    bank: Seq<i16>,
    effect: Effect,
)
    ensures
        nail_list(Some(outcome), tick, sounds, bank).contains(effect) <==> (match effect {
            Effect::Damage(_) => hurt_by(outcome.player_damage).contains(effect),
            Effect::Sound(event) => outcome.response == Some(event) && in_bank(bank, event.id),
            Effect::Blood(place) => outcome.last_impact == Some(place),
            Effect::WorldSound { id, place } => outcome.world_impacts != 0 && place
                == outcome.last_world_impact && id == nail_sound_id(
                tick,
                sounds.ricochets@,
                sounds.tink,
                bank,
            ) && in_bank(bank, id),
            _ => false,
        }),
{
    let a = hurt_by(outcome.player_damage);
    let b = heard(outcome.response, bank);
    let c = blood_at(outcome.last_impact);
    let id = nail_sound_id(tick, sounds.ricochets@, sounds.tink, bank);
    let d = if outcome.world_impacts != 0 {
        heard_at(id, outcome.last_world_impact, bank)
    } else {
        Seq::empty()
    };
    damage_is_told_in_full(outcome.player_damage, effect);
    told_by_sound(outcome.response, bank);
    told_of_blood(outcome.last_impact);
    told_if(in_bank(bank, id), Effect::WorldSound { id, place: outcome.last_world_impact });
    told_by_either(a, b);
    told_by_either(a + b, c);
    told_by_either(a + b + c, d);
}

/// Monsters tell of their sounds, of the last explosion with its light and its
/// ring of fire, of the last gib, of a ring of sparks for everyone that came out
/// of a teleporter, and of the backpack with its own shells.
pub proof fn monsters_tell_of_what_they_did(
    outcome: MonsterOutcome,
    explosion_units: i32,
    bank: Seq<i16>,
    effect: Effect,
)
    ensures
        monster_list(outcome, explosion_units, bank).contains(effect) <==> (match effect {
            Effect::Sound(event) => in_bank(bank, event.id) && outcome.sounds@.contains(event),
            Effect::ExplosionLight(place) => outcome.last_explosion == Some(place),
            Effect::Explosion(place) => outcome.last_explosion == Some(place),
            Effect::Ring { origin, kind, units } => (kind is Fire && units == explosion_units
                && outcome.last_explosion == Some(origin)) || (kind is Spark && units == 16
                && outcome.fogs@.contains(origin)),
            Effect::Blood(place) => outcome.last_gib == Some(place),
            Effect::PickupFlash => outcome.backpack is Some,
            Effect::Message(message) => outcome.backpack matches Some(shells) && message
                == Message::Backpack(shells),
            _ => false,
        }),
{
    let a = all_heard(outcome.sounds@, bank, outcome.sounds@.len());
    let b = blast_at(outcome.last_explosion, explosion_units);
    let c = blood_at(outcome.last_gib);
    let d = fog_rings(outcome.fogs@, outcome.fogs@.len());
    let e = backpack_list(outcome.backpack);
    assert(outcome.sounds@.take(outcome.sounds@.len() as int) =~= outcome.sounds@);
    told_by_sounds(outcome.sounds@, bank, outcome.sounds@.len());
    if let Some(place) = outcome.last_explosion {
        assert(b[0] == Effect::ExplosionLight(place));
        assert(b[1] == Effect::Explosion(place));
        assert(b[2] == Effect::Ring { origin: place, kind: RingKind::Fire, units: explosion_units });
    }
    told_of_blood(outcome.last_gib);
    if let Effect::Ring { origin, kind, units } = effect {
        if outcome.fogs@.contains(origin) && kind is Spark && units == FOG_UNITS {
            let i = choose|i: int| 0 <= i < outcome.fogs@.len() && outcome.fogs@[i] == origin;
            assert(d[i] == effect);
        }
        if d.contains(effect) {
            let i = choose|i: int| 0 <= i < d.len() && d[i] == effect;
            assert(outcome.fogs@[i] == origin);
        }
    }
    if let Some(shells) = outcome.backpack {
        assert(e[0] == Effect::PickupFlash);
        assert(e[1] == Effect::Message(Message::Backpack(shells)));
    }
    told_by_either(a, b);
    told_by_either(a + b, c);
    told_by_either(a + b + c, d);
    told_by_either(a + b + c + d, e);
}

/// The mechanisms of a map tell of the crushing they did, of a lock that wants a
/// key, of every sound that was made, of one message, and of the splash where the
/// boss went down.
pub proof fn mechanisms_tell_of_what_they_did(
    outcome: MechanismOutcome,
    bank: Seq<i16>,
    effect: Effect,
)
    ensures
        mechanism_list(outcome, bank).contains(effect) <==> (match effect {
            Effect::Damage(_) => hurt_by(outcome.crush_damage).contains(effect),
            Effect::OneShot(id) => outcome.needs_key is Some && id == 0x39 && in_bank(bank, id),
            Effect::Message(_) => said(
                outcome.needs_key,
                outcome.countdown,
                outcome.message_source,
            ).contains(effect),
            Effect::Sound(event) => in_bank(bank, event.id) && (outcome.message_sound == Some(event)
                || outcome.mover_sounds@.contains(event) || outcome.train_sound == Some(event)
                || outcome.boss_shock_sound == Some(event)),
            Effect::AgeMessages => true,
            Effect::Ring { origin, kind, units } => kind is Fire && units == 32
                && outcome.boss_death == Some(origin),
            _ => false,
        }),
{
    let a = hurt_by(outcome.crush_damage);
    let b = effect_if(
        outcome.needs_key is Some && in_bank(bank, LOCKED_SOUND),
        Effect::OneShot(LOCKED_SOUND),
    );
    let c = said(outcome.needs_key, outcome.countdown, outcome.message_source);
    let d = heard(outcome.message_sound, bank);
    let e = all_heard(outcome.mover_sounds@, bank, outcome.mover_sounds@.len());
    let f = seq![Effect::AgeMessages];
    let g = heard(outcome.train_sound, bank);
    let h = heard(outcome.boss_shock_sound, bank);
    let i = splash_at(outcome.boss_death);
    assert(outcome.mover_sounds@.take(outcome.mover_sounds@.len() as int)
        =~= outcome.mover_sounds@);
    damage_is_told_in_full(outcome.crush_damage, effect);
    told_if(
        outcome.needs_key is Some && in_bank(bank, LOCKED_SOUND),
        Effect::OneShot(LOCKED_SOUND),
    );
    told_by_sound(outcome.message_sound, bank);
    told_by_sounds(outcome.mover_sounds@, bank, outcome.mover_sounds@.len());
    assert(f[0] == Effect::AgeMessages);
    told_by_sound(outcome.train_sound, bank);
    told_by_sound(outcome.boss_shock_sound, bank);
    if let Some(place) = outcome.boss_death {
        assert(i[0] == Effect::Ring { origin: place, kind: RingKind::Fire, units: SPLASH_UNITS });
    }
    told_by_either(a, b);
    told_by_either(a + b, c);
    told_by_either(a + b + c, d);
    told_by_either(a + b + c + d, e);
    told_by_either(a + b + c + d + e, f);
    told_by_either(a + b + c + d + e + f, g);
    told_by_either(a + b + c + d + e + f + g, h);
    told_by_either(a + b + c + d + e + f + g + h, i);
}

/// One message at most is told: that of what was touched, where it has one,
/// otherwise a countdown, otherwise the key that is wanted.
pub proof fn the_nearest_message_is_told(
    needs_key: Option<u8>,
    countdown: bool,
    source: Option<MessageSource>,
)
    ensures
        ({
            let own = source matches Some(entity) && source_message(entity) is Some;
            let told = said(needs_key, countdown, source);
            &&& told.len() <= 1
            &&& own ==> told == seq![Effect::Message(Message::OfMap(source_message(source->0)->0))]
            &&& !own && countdown ==> told == seq![
                Effect::Message(Message::OfMap(MapMessage::Countdown)),
            ]
            &&& !own && !countdown ==> (needs_key matches Some(bit) ==> told == seq![
                Effect::Message(Message::OfMap(MapMessage::NeedsKey(bit))),
            ])
            &&& !own && !countdown && needs_key is None ==> told.len() == 0
        }),
{
}

/// Who arrives is heard at the place of arrival, unless silently, and there are
/// sparks around that place.
pub proof fn arrivals_are_seen_and_heard(
    origin: Vec3I32,
    silent: bool,
    tick: u32,
    bank: Seq<i16>,
    effect: Effect,
)
    ensures
        arrival(origin, silent, tick, bank).contains(effect) <==> (match effect {
            Effect::MoveListener => true,
            Effect::Ring { origin: place, kind, units } => place == origin && kind is Spark && units
                == 16,
            Effect::WorldSound { id, place } => !silent && place == Some(origin) && in_bank(bank, id)
                && id == preferred_sound(bank, teleport_flash(tick), 0x76),
            _ => false,
        }),
{
    let a = seq![
        Effect::MoveListener,
        Effect::Ring { origin, kind: RingKind::Spark, units: FOG_UNITS },
    ];
    let id = preferred_sound(bank, teleport_flash(tick), 0x76);
    let b = if silent {
        Seq::empty()
    } else {
        heard_at(id, Some(origin), bank)
    };
    assert(a[0] == Effect::MoveListener);
    assert(a[1] == Effect::Ring { origin, kind: RingKind::Spark, units: FOG_UNITS });
    told_if(in_bank(bank, id), Effect::WorldSound { id, place: Some(origin) });
    told_by_either(a, b);
}

/// Of the survival sounds each that the bank holds is heard on the channel of the
/// voice, in its order.
pub proof fn voices_are_heard_in_order(sounds: Seq<i16>, bank: Seq<i16>, count: nat)
    requires
        count < sounds.len(),
    ensures
        ({
            let before = voices(sounds, bank, count);
            let after = voices(sounds, bank, count + 1);
            let id = sounds[count as int];
            &&& bank.contains(id) ==> after == before.push(
                Effect::PlayerSound { id, channel: Channel::Voice },
            )
            &&& !bank.contains(id) ==> after == before
        }),
        voices(sounds, bank, 0).len() == 0,
{
    let before = voices(sounds, bank, count);
    let after = voices(sounds, bank, count + 1);
    let id = sounds[count as int];
    if bank.contains(id) {
        assert(after =~= before.push(Effect::PlayerSound { id, channel: Channel::Voice }));
    } else {
        assert(after =~= before);
    }
}

} // verus!
