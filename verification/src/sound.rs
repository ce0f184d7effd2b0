//! Which sounds a frame plays.

use vstd::prelude::*;

use crate::player::PlayerFrame;
use crate::world::Vec3I32;

verus! {

/// A sound that something in the world makes.
#[derive(Copy, Clone, Debug, PartialEq, Eq)]
pub struct SoundEvent {
    pub id: i16,
    /// Where it comes from, and how fast it fades with distance; nothing for a
    /// sound at the listener.
    pub place: Option<(Vec3I32, u8)>,
    /// Who makes it, on which channel. A new sound cuts the last one there.
    pub key: u16,
}

/// Ids of the two liquids that hurt.
#[derive(Copy, Clone, Debug, PartialEq, Eq, Structural)]
pub struct LiquidTypes {
    pub lava: i16,
    pub slime: i16,
}

/// The bank has the sound.
pub open spec fn in_bank(bank: Seq<i16>, id: i16) -> bool {
    exists|i: int| 0 <= i < bank.len() && bank[i] == id
}

pub fn bank_contains(bank: &Vec<i16>, id: i16) -> (found: bool)
    ensures
        found == in_bank(bank@, id),
{
    let mut index: usize = 0;
    while index < bank.len()
        invariant
            index <= bank@.len(),
            forall|i: int| 0 <= i < index ==> bank@[i] != id,
        decreases bank@.len() - index,
    {
        if bank[index] == id {
            return true;
        }
        index += 1;
    }
    false
}

pub open spec fn preferred_sound(bank: Seq<i16>, preferred: i16, fallback: i16) -> i16 {
    if in_bank(bank, preferred) {
        preferred
    } else {
        fallback
    }
}

/// The preferred sound, where the bank has it.
pub fn play_preferred_sound(bank: &Vec<i16>, preferred: i16, fallback: i16) -> (id: i16)
    ensures
        id == preferred_sound(bank@, preferred, fallback),
{
    if bank_contains(bank, preferred) {
        preferred
    } else {
        fallback
    }
}

/// The sound to play, if the bank has it.
pub fn play_sound_event(bank: &Vec<i16>, sound: SoundEvent) -> (played: Option<SoundEvent>)
    ensures
        played == if in_bank(bank@, sound.id) {
            Some(sound)
        } else {
            None
        },
{
    if bank_contains(bank, sound.id) {
        Some(sound)
    } else {
        None
    }
}

/// The sound of a response, if there is one and the bank has it.
pub fn play_response_sound(bank: &Vec<i16>, sound: Option<SoundEvent>) -> (played: Option<SoundEvent>)
    ensures
        played == match sound {
            Some(event) if in_bank(bank@, event.id) => Some(event),
            _ => None,
        },
{
    match sound {
        Some(event) => play_sound_event(bank, event),
        None => None,
    }
}

pub open spec fn sound_if(condition: bool, id: i16) -> Seq<i16> {
    if condition {
        seq![id]
    } else {
        Seq::empty()
    }
}

/// The splash of a liquid.
pub open spec fn splash_sound(water_type: i16, types: LiquidTypes, bank: Seq<i16>) -> i16 {
    if water_type == types.lava {
        preferred_sound(bank, 0x9b, 0x9e)
    } else if water_type == types.slime {
        preferred_sound(bank, 0xa7, 0x9a)
    } else {
        0x9a
    }
}

/// Sounds of the player's body, in the order they are started: jump, stroke,
/// landing, splash in, splash out.
pub open spec fn movement_sound_ids(
    frame: PlayerFrame,
    tick: u32,
    types: LiquidTypes,
    bank: Seq<i16>,
) -> Seq<i16> {
    let events = frame.events;
    sound_if(events.jump, 0xa6) + sound_if(
        events.swim,
        if tick % 2 == 0 {
            0x7d
        } else {
            0x7e
        },
    ) + sound_if(
        events.hard_land || events.land,
        if events.hard_land {
            0x9d
        } else {
            0x9c
        },
    ) + sound_if(events.water_land, preferred_sound(bank, 0x99, 0x9c)) + sound_if(
        events.enter_liquid,
        splash_sound(frame.water_type, types, bank),
    ) + sound_if(events.leave_liquid, 0x72)
}

fn push_if(sounds: &mut Vec<i16>, condition: bool, id: i16)
    ensures
        final(sounds)@ == old(sounds)@ + sound_if(condition, id),
{
    if condition {
        sounds.push(id);
    }
    assert(sounds@ =~= old(sounds)@ + sound_if(condition, id));
}

pub fn play_movement_audio(frame: PlayerFrame, tick: u32, types: LiquidTypes, bank: &Vec<i16>) -> (sounds:
    Vec<i16>)
    ensures
        sounds@ == movement_sound_ids(frame, tick, types, bank@),
{
    let mut sounds: Vec<i16> = Vec::new();
    let events = frame.events;
    push_if(&mut sounds, events.jump, 0xa6);
    assert(sounds@ =~= sound_if(events.jump, 0xa6));
    let stroke: i16 = if tick % 2 == 0 {
        0x7d
    } else {
        0x7e
    };
    push_if(&mut sounds, events.swim, stroke);
    let landing: i16 = if events.hard_land {
        0x9d
    } else {
        0x9c
    };
    push_if(&mut sounds, events.hard_land || events.land, landing);
    let shallow: i16 = play_preferred_sound(bank, 0x99, 0x9c);
    push_if(&mut sounds, events.water_land, shallow);
    let splash: i16 = if frame.water_type == types.lava {
        play_preferred_sound(bank, 0x9b, 0x9e)
    } else if frame.water_type == types.slime {
        play_preferred_sound(bank, 0xa7, 0x9a)
    } else {
        0x9a
    };
    push_if(&mut sounds, events.enter_liquid, splash);
    push_if(&mut sounds, events.leave_liquid, 0x72);
    sounds
}

/// The flash of a teleporter: one of five, by the tick.
pub open spec fn teleport_flash(tick: u32) -> i16 {
    (0x74 + tick.wrapping_mul(0x9e37_79b9) as int / 65536 % 5) as i16
}

/// The sound of a teleporter that is not silent; the third flash stands in for
/// those that the bank lacks.
pub fn teleport_sound(silent: bool, tick: u32, bank: &Vec<i16>) -> (sound: Option<i16>)
    ensures
        sound == if silent {
            None
        } else {
            Some(preferred_sound(bank@, teleport_flash(tick), 0x76))
        },
{
    if silent {
        return None;
    }
    let hash: u32 = tick.wrapping_mul(0x9e37_79b9);
    let flash: i16 = 0x74 + (hash / 65536 % 5) as i16;
    Some(play_preferred_sound(bank, flash, 0x76))
}

/// The flash is one of the five.
pub proof fn flashes_are_in_range(tick: u32)
    ensures
        0x74 <= teleport_flash(tick) <= 0x78,
{
}

/// The sound of a nail on a wall: one time in five a ricochet, otherwise, and
/// where the bank lacks the ricochet, a tink.
pub open spec fn nail_sound_id(tick: u32, ricochets: Seq<i16>, tink: i16, bank: Seq<i16>) -> i16 {
    if tick % 5 == 0 {
        preferred_sound(bank, ricochets[tick as int / 5 % 3], tink)
    } else {
        tink
    }
}

pub fn nail_sound(tick: u32, ricochets: [i16; 3], tink: i16, bank: &Vec<i16>) -> (id: i16)
    ensures
        id == nail_sound_id(tick, ricochets@, tink, bank@),
{
    if tick % 5 == 0 {
        let choice: usize = (tick / 5 % 3) as usize;
        play_preferred_sound(bank, ricochets[choice], tink)
    } else {
        tink
    }
}

proof fn sounds_of_both(first: Seq<i16>, second: Seq<i16>, id: i16)
    ensures
        (first + second).contains(id) <==> first.contains(id) || second.contains(id),
{
    if first.contains(id) {
        let i = choose|i: int| 0 <= i < first.len() && first[i] == id;
        assert((first + second)[i] == id);
    }
    if second.contains(id) {
        let i = choose|i: int| 0 <= i < second.len() && second[i] == id;
        assert((first + second)[first.len() + i] == id);
    }
}

proof fn a_sound_or_none(condition: bool, one: i16, id: i16)
    ensures
        sound_if(condition, one).contains(id) <==> condition && id == one,
{
    if condition {
        assert(sound_if(condition, one)[0] == one);
    }
}

/// Each thing that the motor reports has its own sound, and nothing else is
/// heard.
pub proof fn movements_have_their_own_sounds(
    frame: PlayerFrame,
    tick: u32,
    types: LiquidTypes,
    bank: Seq<i16>,
    id: i16,
)
    ensures
        movement_sound_ids(frame, tick, types, bank).contains(id) <==> {
            ||| frame.events.jump && id == 0xa6
            ||| frame.events.swim && tick % 2 == 0 && id == 0x7d
            ||| frame.events.swim && tick % 2 == 1 && id == 0x7e
            ||| frame.events.hard_land && id == 0x9d
            ||| frame.events.land && !frame.events.hard_land && id == 0x9c
            ||| frame.events.water_land && id == preferred_sound(bank, 0x99, 0x9c)
            ||| frame.events.enter_liquid && id == splash_sound(frame.water_type, types, bank)
            ||| frame.events.leave_liquid && id == 0x72
        },
{
    let events = frame.events;
    let stroke: i16 = if tick % 2 == 0 {
        0x7d
    } else {
        0x7e
    };
    let thud: i16 = if events.hard_land {
        0x9d
    } else {
        0x9c
    };
    let a = sound_if(events.jump, 0xa6);
    let b = sound_if(events.swim, stroke);
    let c = sound_if(events.hard_land || events.land, thud);
    let d = sound_if(events.water_land, preferred_sound(bank, 0x99, 0x9c));
    let splash = splash_sound(frame.water_type, types, bank);
    let e = sound_if(events.enter_liquid, splash);
    let f = sound_if(events.leave_liquid, 0x72);
    a_sound_or_none(events.jump, 0xa6, id);
    a_sound_or_none(events.swim, stroke, id);
    a_sound_or_none(events.hard_land || events.land, thud, id);
    a_sound_or_none(events.water_land, preferred_sound(bank, 0x99, 0x9c), id);
    a_sound_or_none(events.enter_liquid, splash, id);
    a_sound_or_none(events.leave_liquid, 0x72, id);
    sounds_of_both(a, b, id);
    sounds_of_both(a + b, c, id);
    sounds_of_both(a + b + c, d, id);
    sounds_of_both(a + b + c + d, e, id);
    sounds_of_both(a + b + c + d + e, f, id);
}

/// Each liquid has its own splash, as far as the bank holds it.
pub proof fn liquids_have_their_own_splashes(types: LiquidTypes, water_type: i16, bank: Seq<i16>)
    requires
        types.lava != types.slime,
    ensures
        in_bank(bank, 0x9b) ==> splash_sound(types.lava, types, bank) == 0x9b,
        !in_bank(bank, 0x9b) ==> splash_sound(types.lava, types, bank) == 0x9e,
        in_bank(bank, 0xa7) ==> splash_sound(types.slime, types, bank) == 0xa7,
        !in_bank(bank, 0xa7) ==> splash_sound(types.slime, types, bank) == 0x9a,
        water_type != types.lava && water_type != types.slime ==> splash_sound(
            water_type,
            types,
            bank,
        ) == 0x9a,
{
}

/// A sound that the bank holds is preferred to the one that stands in for it.
pub proof fn sounds_at_hand_are_preferred(bank: Seq<i16>, preferred: i16, fallback: i16)
    ensures
        bank.contains(preferred) ==> preferred_sound(bank, preferred, fallback) == preferred,
        !bank.contains(preferred) ==> preferred_sound(bank, preferred, fallback) == fallback,
{
}

/// One nail in five rings off the wall, and the three ways to ring take turns.
pub proof fn one_nail_in_five_rings(tick: u32, ricochets: Seq<i16>, tink: i16, bank: Seq<i16>)
    requires
        ricochets.len() == 3,
        bank.contains(ricochets[0]) && bank.contains(ricochets[1]) && bank.contains(ricochets[2]),
    ensures
        tick % 5 != 0 ==> nail_sound_id(tick, ricochets, tink, bank) == tink,
        tick % 15 == 0 ==> nail_sound_id(tick, ricochets, tink, bank) == ricochets[0],
        tick % 15 == 5 ==> nail_sound_id(tick, ricochets, tink, bank) == ricochets[1],
        tick % 15 == 10 ==> nail_sound_id(tick, ricochets, tink, bank) == ricochets[2],
{
}

} // verus!
