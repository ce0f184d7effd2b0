//! Optional menu music of the demo disc.
//!
//! The disc of the game alone has no audio tracks. On the demo disc the songs
//! of the launcher are tracks 2 to 5. Map loads take the drive for a while
//! through [`Music::suspend_for_load`] and [`Music::resume_after_load`].

use vstd::prelude::*;

verus! {

/// Track 1 is the data track.
pub const FIRST_TRACK: u8 = 2;

/// Songs on the demo disc.
pub const TRACK_COUNT: u8 = 4;

/// Tracks that the disc must have for the songs to be there.
pub const TRACKS_NEEDED: u8 = 5;

/// Steps of the volume slider.
pub const VOLUME_STEPS: u8 = 10;

/// How long a song that starts is announced.
pub const BANNER_TICKS: u32 = 240;

/// Ticks between two questions to the drive.
pub const POLL_TICKS: u32 = 30;

/// The drive is left alone until it has settled after the boot loads.
pub const PROBE_TICK: u32 = 90;

#[derive(Copy, Clone, Debug, PartialEq, Eq)]
pub struct Music {
    /// The disc carries the songs.
    pub available: bool,
    /// The player has not turned them off.
    pub enabled: bool,
    /// Which of the songs is current.
    pub index: u8,
    /// Step of the volume slider.
    pub volume: u8,
    /// The drive has been asked what is on the disc.
    pub probed: bool,
    /// When the current song was started.
    pub announced_at: Option<u32>,
    pub next_poll: u32,
}

/// What the drive has to do, in this order.
#[derive(Copy, Clone, Debug, PartialEq, Eq)]
pub struct MusicOrders {
    /// Set the gain of the disc to this step.
    pub volume: Option<u8>,
    /// Arm the start of the current song.
    pub begin: bool,
    /// Pause, and forget the start.
    pub pause: bool,
}

/// What a tick asks for.
#[derive(Copy, Clone, Debug, PartialEq, Eq, Structural)]
pub enum MusicTick {
    Nothing,
    /// Ask the drive how many tracks the disc has.
    Probe,
    /// Drive the start of this track of the disc.
    Drive { track: u8 },
}

/// The current song starts at `tick`.
pub open spec fn begun(music: Music, tick: u32) -> Music {
    Music { next_poll: tick.wrapping_add(POLL_TICKS), announced_at: Some(tick), ..music }
}

/// The song after this one.
pub open spec fn next_song(index: u8) -> u8 {
    ((index + 1) % 4) as u8
}

/// The song that is announced, and for how long it has been.
pub open spec fn announcement_at(music: Music, tick: u32) -> Option<(u8, u32)> {
    match music.announced_at {
        Some(at) => if music.plays() && tick.wrapping_sub(at) <= BANNER_TICKS {
            Some((music.index, tick.wrapping_sub(at)))
        } else {
            None
        },
        None => None,
    }
}

/// The disc is probed once, not before the drive has settled; after that the
/// current song is driven as long as there is music.
pub open spec fn asked_at(music: Music, tick: u32) -> MusicTick {
    if !music.probed {
        if tick < PROBE_TICK {
            MusicTick::Nothing
        } else {
            MusicTick::Probe
        }
    } else if music.plays() {
        MusicTick::Drive { track: (FIRST_TRACK + music.index) as u8 }
    } else {
        MusicTick::Nothing
    }
}

impl Music {
    pub open spec fn valid(&self) -> bool {
        self.index < TRACK_COUNT && self.volume <= VOLUME_STEPS
    }

    pub open spec fn plays(&self) -> bool {
        self.available && self.enabled
    }

    pub fn new(volume: u8) -> (music: Self)
        requires
            volume <= VOLUME_STEPS,
        ensures
            music.valid(),
            music == (Music {
                available: false,
                enabled: true,
                index: 0,
                volume,
                probed: false,
                announced_at: None,
                next_poll: 0,
            }),
    {
        Music {
            available: false,
            enabled: true,
            index: 0,
            volume,
            probed: false,
            announced_at: None,
            next_poll: 0,
        }
    }

    pub fn available(&self) -> (available: bool)
        ensures
            available == self.available,
    {
        self.available
    }

    pub fn enabled(&self) -> (enabled: bool)
        ensures
            enabled == self.enabled,
    {
        self.enabled
    }

    pub fn track(&self) -> (track: u8)
        ensures
            track == self.index,
    {
        self.index
    }

    /// The song to announce, and how long it has been announced.
    pub fn now_playing(&self, tick: u32) -> (announcement: Option<(u8, u32)>)
        ensures
            announcement == announcement_at(*self, tick),
    {
        match self.announced_at {
            Some(at) => {
                if !self.available || !self.enabled {
                    return None;
                }
                let elapsed: u32 = tick.wrapping_sub(at);
                if elapsed > BANNER_TICKS {
                    return None;
                }
                Some((self.index, elapsed))
            },
            None => None,
        }
    }

    fn begin_track(&mut self, tick: u32)
        ensures
            *final(self) == begun(*old(self), tick),
    {
        self.next_poll = tick.wrapping_add(POLL_TICKS);
        self.announced_at = Some(tick);
    }

    /// Adopt the rows of the options page. The page is refreshed from here
    /// every frame, so a difference is something that the player changed.
    pub fn apply_menu(&mut self, on: bool, track: u8, volume: u8, tick: u32) -> (orders: MusicOrders)
        requires
            old(self).valid(),
        ensures
            final(self).valid(),
            ({
                let level = if volume < VOLUME_STEPS {
                    volume
                } else {
                    VOLUME_STEPS
                };
                let before = Music { volume: level, ..*old(self) };
                let other = before.available && track != before.index && track < TRACK_COUNT;
                let chosen = if other {
                    Music { index: track, ..before }
                } else {
                    before
                };
                let switched = before.available && on != before.enabled;
                let begin = other && before.enabled || switched && on;
                &&& orders.volume == if level != old(self).volume {
                    Some(level)
                } else {
                    None
                }
                &&& orders.begin == begin
                &&& orders.pause == (switched && !on)
                &&& *final(self) == if begin {
                    begun(Music { enabled: on, ..chosen }, tick)
                } else {
                    Music { enabled: on, ..chosen }
                }
            }),
    {
        let level: u8 = if volume < VOLUME_STEPS {
            volume
        } else {
            VOLUME_STEPS
        };
        let mut orders = MusicOrders { volume: None, begin: false, pause: false };
        if level != self.volume {
            self.volume = level;
            orders.volume = Some(level);
        }
        if !self.available {
            self.enabled = on;
            return orders;
        }
        if track != self.index && track < TRACK_COUNT {
            self.index = track;
            if self.enabled {
                self.begin_track(tick);
                orders.begin = true;
            }
        }
        if on != self.enabled {
            self.enabled = on;
            if on {
                self.begin_track(tick);
                orders.begin = true;
            } else {
                orders.pause = true;
            }
        }
        orders
    }

    /// Hand the drive over before a load; whether it has to be paused.
    pub fn suspend_for_load(&mut self) -> (pause: bool)
        ensures
            pause == old(self).plays(),
            *final(self) == if old(self).plays() {
                Music { announced_at: None, ..*old(self) }
            } else {
                *old(self)
            },
    {
        if !self.available || !self.enabled {
            return false;
        }
        self.announced_at = None;
        true
    }

    /// Take the drive back after a load, one song further; whether a start has
    /// to be armed.
    pub fn resume_after_load(&mut self, tick: u32) -> (begin: bool)
        requires
            old(self).valid(),
        ensures
            final(self).valid(),
            begin == old(self).plays(),
            *final(self) == if old(self).plays() {
                begun(Music { index: next_song(old(self).index), ..*old(self) }, tick)
            } else {
                *old(self)
            },
    {
        if !self.available || !self.enabled {
            return false;
        }
        self.index = (self.index + 1) % 4;
        self.begin_track(tick);
        true
    }

    /// One tick.
    pub fn update(&self, tick: u32) -> (asked: MusicTick)
        requires
            self.valid(),
        ensures
            asked == asked_at(*self, tick),
    {
        if !self.probed {
            if tick < PROBE_TICK {
                return MusicTick::Nothing;
            }
            return MusicTick::Probe;
        }
        if !self.available || !self.enabled {
            return MusicTick::Nothing;
        }
        MusicTick::Drive { track: FIRST_TRACK + self.index }
    }

    /// The drive has answered what is on the disc; whether a start has to be
    /// armed.
    pub fn probed(&mut self, has_songs: bool, tick: u32) -> (begin: bool)
        ensures
            ({
                let known = Music { probed: true, available: has_songs, ..*old(self) };
                &&& begin == (has_songs && old(self).enabled)
                &&& *final(self) == if begin {
                    begun(known, tick)
                } else {
                    known
                }
            }),
    {
        self.probed = true;
        self.available = has_songs;
        if has_songs && self.enabled {
            self.begin_track(tick);
            return true;
        }
        false
    }

    /// Whether the drive is asked now if the song is over. It is asked at most
    /// once every so many ticks.
    pub fn poll_due(&mut self, tick: u32, started: bool) -> (due: bool)
        ensures
            due == (started && tick.wrapping_sub(old(self).next_poll) < u32::MAX / 2),
            *final(self) == if due {
                Music { next_poll: tick.wrapping_add(POLL_TICKS), ..*old(self) }
            } else {
                *old(self)
            },
    {
        if started && tick.wrapping_sub(self.next_poll) < u32::MAX / 2 {
            self.next_poll = tick.wrapping_add(POLL_TICKS);
            return true;
        }
        false
    }

    /// The song is over: the next one starts.
    pub fn song_ended(&mut self, tick: u32)
        requires
            old(self).valid(),
        ensures
            final(self).valid(),
            *final(self) == begun(Music { index: next_song(old(self).index), ..*old(self) }, tick),
    {
        self.index = (self.index + 1) % 4;
        self.begin_track(tick);
    }
}

/// Whether the songs can be on the disc. The answer of the drive has a status,
/// the first track and the last track; `last_track` is the last one, decoded.
pub fn disc_has_menu_tracks(answer_len: Option<usize>, last_track: u8) -> (present: bool)
    ensures
        present == match answer_len {
            Some(len) => len >= 3 && last_track >= TRACKS_NEEDED,
            None => false,
        },
{
    match answer_len {
        Some(len) => len >= 3 && last_track >= TRACKS_NEEDED,
        None => false,
    }
}

/// The songs go round: after four of them the first one plays again.
pub proof fn songs_go_round(index: u8)
    requires
        index < TRACK_COUNT,
    ensures
        next_song(next_song(next_song(next_song(index)))) == index,
        next_song(index) != index,
{
}

/// After asking the drive it is not asked again for half a second, whatever
/// the tick counter does.
pub proof fn polls_are_paced(tick: u32, later: u32)
    requires
        later < POLL_TICKS,
    ensures
        !(tick.wrapping_add(later).wrapping_sub(tick.wrapping_add(POLL_TICKS)) < u32::MAX / 2),
        tick.wrapping_add(POLL_TICKS).wrapping_sub(tick.wrapping_add(POLL_TICKS)) < u32::MAX / 2,
{
}

/// While the songs are switched off, nothing is announced and the drive is
/// left alone.
pub proof fn silence_is_complete(music: Music, tick: u32)
    requires
        music.probed,
        !music.enabled,
    ensures
        announcement_at(music, tick) is None,
        asked_at(music, tick) == MusicTick::Nothing,
{
}

/// The four songs are the tracks two to five of the disc, in their order, and
/// only a disc that was asked is played.
pub proof fn songs_have_their_own_tracks(music: Music, tick: u32)
    requires
        music.index < 4,
    ensures
        music.probed && music.available && music.enabled ==> (asked_at(music, tick)
            matches MusicTick::Drive { track } && track == 2 + music.index),
        music.probed && !(music.available && music.enabled) ==> asked_at(music, tick) is Nothing,
        !music.probed ==> (asked_at(music, tick) is Probe <==> tick >= 90),
        !music.probed ==> !(asked_at(music, tick) is Drive),
        next_song(music.index) == (if music.index == 3 {
            0
        } else {
            music.index + 1
        }),
{
}

/// A song that was begun is announced by its own name for 240 ticks from then on,
/// and the drive is first asked thirty ticks later.
pub proof fn songs_are_announced(music: Music, tick: u32, later: u32)
    requires
        music.available,
        music.enabled,
    ensures
        ({
            let playing = begun(music, tick);
            let now = tick.wrapping_add(later);
            &&& later <= 240 ==> announcement_at(playing, now) == Some((music.index, later))
            &&& later > 240 ==> announcement_at(playing, now) is None
            &&& playing.next_poll == tick.wrapping_add(30)
            &&& playing.index == music.index && playing.volume == music.volume
            &&& playing.enabled && playing.available && playing.probed == music.probed
        }),
{
}

} // verus!
