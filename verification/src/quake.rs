//! The decisions of the game loop.
//!
//! A frame takes its time from the vertical blank, shows the panel between two
//! levels, or the menu, or plays. What the frame does to the world is done
//! outside; what it decides is here.

use vstd::prelude::*;

use crate::button;
use crate::episode::EpisodeMap;
use crate::fixed::{clamp_int, sat_i32, sat_sum, saturating_sub_i32, saturating_sum};
use crate::frame::{layer_order, Layer, Overlays};
use crate::input_policy::{weapon_chord, InputFrame};
use crate::menu::MenuPage;
use crate::player::PlayerFrame;
use crate::world::{Camera, Vec3I32};

verus! {

/// How long a message stays up: two seconds.
pub const CENTERPRINT_TICKS: u16 = 120;

/// How long the panel between two levels holds by itself.
pub const INTERMISSION_TICKS: u16 = 150;

/// Earliest tick at which a press may skip the panel.
pub const INTERMISSION_SKIP_TICKS: u16 = 30;

/// How the loop takes its time.
#[derive(Copy, Clone, Debug, PartialEq, Eq, Structural)]
pub enum Pace {
    /// As many ticks as have passed, four at most.
    Measured,
    /// The clock runs, but every frame is one tick of the game.
    OneTick,
    /// Every frame is three ticks, of the clock as well.
    ThreeTicks,
    /// Every frame is two ticks, of the clock as well.
    TwoTicks,
}

/// The time of one frame.
#[derive(Copy, Clone, Debug, PartialEq, Eq, Structural)]
pub struct FrameTime {
    pub tick: u32,
    pub elapsed: u16,
}

#[derive(Copy, Clone, Debug, PartialEq, Eq, Structural)]
pub struct GameClock {
    pub pace: Pace,
    pub fixed_tick: u32,
    pub movement_tick: u32,
}

/// The tick of a frame.
pub open spec fn frame_tick(clock: GameClock, vblanks: u32) -> u32 {
    match clock.pace {
        Pace::Measured | Pace::OneTick => vblanks,
        Pace::ThreeTicks => clock.fixed_tick.wrapping_add(3),
        Pace::TwoTicks => clock.fixed_tick.wrapping_add(2),
    }
}

/// The ticks that a frame advances the game by.
pub open spec fn frame_elapsed(clock: GameClock, tick: u32) -> int {
    match clock.pace {
        Pace::Measured => clamp_int(tick.wrapping_sub(clock.movement_tick) as int, 1, 4),
        Pace::OneTick => 1,
        Pace::ThreeTicks => 3,
        Pace::TwoTicks => 2,
    }
}

impl GameClock {
    pub fn new(pace: Pace, vblanks: u32) -> (clock: Self)
        ensures
            clock == (GameClock { pace, fixed_tick: 0, movement_tick: vblanks }),
    {
        GameClock { pace, fixed_tick: 0, movement_tick: vblanks }
    }

    pub fn begin_frame(&mut self, vblanks: u32) -> (time: FrameTime)
        ensures
            time.tick == frame_tick(*old(self), vblanks),
            time.elapsed == frame_elapsed(*old(self), time.tick),
            1 <= time.elapsed <= 4,
            final(self).pace == old(self).pace,
            final(self).movement_tick == time.tick,
            final(self).fixed_tick == match old(self).pace {
                Pace::Measured | Pace::OneTick => old(self).fixed_tick,
                _ => time.tick,
            },
    {
        match self.pace {
            Pace::Measured => {
                let passed: u32 = vblanks.wrapping_sub(self.movement_tick);
                let elapsed: u16 = if passed < 1 {
                    1
                } else if passed > 4 {
                    4
                } else {
                    passed as u16
                };
                self.movement_tick = vblanks;
                FrameTime { tick: vblanks, elapsed }
            },
            Pace::OneTick => {
                self.movement_tick = vblanks;
                FrameTime { tick: vblanks, elapsed: 1 }
            },
            Pace::ThreeTicks => {
                self.fixed_tick = self.fixed_tick.wrapping_add(3);
                self.movement_tick = self.fixed_tick;
                FrameTime { tick: self.fixed_tick, elapsed: 3 }
            },
            Pace::TwoTicks => {
                self.fixed_tick = self.fixed_tick.wrapping_add(2);
                self.movement_tick = self.fixed_tick;
                FrameTime { tick: self.fixed_tick, elapsed: 2 }
            },
        }
    }

    /// A level has been loaded; the time it took is no time of the game.
    pub fn level_loaded(&mut self, vblanks: u32)
        ensures
            *final(self) == after_load(*old(self), vblanks),
    {
        self.movement_tick = vblanks;
    }

    /// The tick that lights are animated by. A frame that is to be compared
    /// with another keeps them still.
    pub fn light_tick(&self, time: FrameTime) -> (tick: u32)
        ensures
            tick == if self.pace == Pace::OneTick {
                0
            } else {
                time.tick
            },
    {
        match self.pace {
            Pace::OneTick => 0,
            _ => time.tick,
        }
    }
}

/// The clock after a load that ended at `vblanks`.
pub open spec fn after_load(clock: GameClock, vblanks: u32) -> GameClock {
    GameClock { movement_tick: vblanks, ..clock }
}

/// The time of a load is no time of the game: however long it took, the frame
/// after it advances by what has passed since.
pub proof fn loads_take_no_time(clock: GameClock, loaded: u32, next: u32)
    requires
        clock.pace == Pace::Measured,
    ensures
        frame_elapsed(after_load(clock, loaded), next) == clamp_int(
            next.wrapping_sub(loaded) as int,
            1,
            4,
        ),
        frame_elapsed(after_load(clock, loaded), loaded) == 1,
{
}

/// Pages of the end of an episode.
#[derive(Copy, Clone, Debug, PartialEq, Eq, Structural)]
pub struct EpisodePages {
    /// The level is not the end of an episode.
    pub not_finished: u8,
    /// The panel of the last level.
    pub panel: u8,
    /// The last page of the closing text.
    pub last: u8,
}

/// What the panel counts.
#[derive(Copy, Clone, Debug, PartialEq, Eq, Structural)]
pub struct LevelCounts {
    pub kills: u16,
    pub total_kills: u16,
    pub secrets: u16,
    pub total_secrets: u16,
    pub seconds: u16,
}

/// The panel between two levels.
#[derive(Copy, Clone, Debug, PartialEq, Eq, Structural)]
pub struct Intermission {
    pub finished: EpisodeMap,
    pub next: EpisodeMap,
    pub counts: LevelCounts,
    pub episode: u8,
    pub camera: Camera,
    pub remaining: u16,
    pub elapsed: u16,
}

/// Build the panel of a level that was finished. It is seen from the map's own
/// spot, or from the player's eye where there is none. An episode ends only
/// with the way back from the boss, with a rune in hand.
pub fn begin_intermission(
    finished: EpisodeMap,
    next: EpisodeMap,
    counts: LevelCounts,
    runes: u8,
    spot: Option<Camera>,
    eye: Camera,
    pages: EpisodePages,
) -> (panel: Intermission)
    ensures
        panel == (Intermission {
            finished,
            next,
            counts,
            episode: if finished == EpisodeMap::E1M7 && next == EpisodeMap::Start && runes != 0 {
                pages.panel
            } else {
                pages.not_finished
            },
            camera: match spot {
                Some(camera) => camera,
                None => eye,
            },
            remaining: INTERMISSION_TICKS,
            elapsed: 0,
        }),
{
    let camera: Camera = match spot {
        Some(camera) => camera,
        None => eye,
    };
    let episode: u8 = if finished == EpisodeMap::E1M7 && next == EpisodeMap::Start && runes != 0 {
        pages.panel
    } else {
        pages.not_finished
    };
    Intermission {
        finished,
        next,
        counts,
        episode,
        camera,
        remaining: INTERMISSION_TICKS,
        elapsed: 0,
    }
}

/// A button that skips the panel went down.
pub open spec fn skip_pressed(pressed: u16) -> bool {
    pressed & button::CROSS != 0 || pressed & button::START != 0 || pressed & button::SQUARE != 0
        || pressed & button::CIRCLE != 0
}

#[derive(Copy, Clone, Debug, PartialEq, Eq, Structural)]
pub enum PanelOutcome {
    /// The panel stays up.
    Hold,
    /// The next page of the closing text is up.
    NextPage,
    Load(EpisodeMap),
}

#[derive(Copy, Clone, Debug, PartialEq, Eq, Structural)]
pub struct PanelStep {
    /// The screen begins to darken.
    pub fade_out: bool,
    pub outcome: PanelOutcome,
}

pub open spec fn less_by(value: u16, amount: u16) -> u16 {
    if value < amount {
        0
    } else {
        (value - amount) as u16
    }
}

pub open spec fn more_by(value: u16, amount: u16) -> u16 {
    if value + amount > u16::MAX {
        u16::MAX
    } else {
        (value + amount) as u16
    }
}

/// The panel with the time of a frame gone.
pub open spec fn panel_aged(panel: Intermission, elapsed: u16) -> Intermission {
    Intermission {
        remaining: less_by(panel.remaining, elapsed),
        elapsed: more_by(panel.elapsed, elapsed),
        ..panel
    }
}

/// The panel, or the page, is over.
pub open spec fn panel_over(panel: Intermission, pressed: u16) -> bool {
    panel.remaining == 0 || panel.elapsed >= INTERMISSION_SKIP_TICKS && skip_pressed(pressed)
}

/// A page of the closing text follows.
pub open spec fn page_follows(panel: Intermission, pages: EpisodePages) -> bool {
    panel.episode != pages.not_finished && panel.episode < pages.last
}

/// The panel after a frame, and what comes of it.
pub open spec fn panel_after(
    panel: Intermission,
    elapsed: u16,
    pressed: u16,
    pages: EpisodePages,
) -> (Intermission, PanelOutcome) {
    let aged = panel_aged(panel, elapsed);
    if !panel_over(aged, pressed) {
        (aged, PanelOutcome::Hold)
    } else if page_follows(aged, pages) {
        (
            Intermission {
                episode: (aged.episode + 1) as u8,
                remaining: INTERMISSION_TICKS,
                elapsed: 0,
                ..aged
            },
            PanelOutcome::NextPage,
        )
    } else {
        (aged, PanelOutcome::Load(aged.next))
    }
}

impl Intermission {
    /// One frame of the panel. The screen darkens in the last ticks.
    pub fn step(&mut self, elapsed: u16, pressed: u16, pages: EpisodePages, transition_ticks: u16) -> (step:
        PanelStep)
        ensures
            (*final(self), step.outcome) == panel_after(*old(self), elapsed, pressed, pages),
            step.fade_out == (panel_aged(*old(self), elapsed).remaining <= transition_ticks),
    {
        self.elapsed = self.elapsed.saturating_add(elapsed);
        self.remaining = self.remaining.saturating_sub(elapsed);
        let fade_out: bool = self.remaining <= transition_ticks;
        let skipped: bool = self.elapsed >= INTERMISSION_SKIP_TICKS && (pressed & button::CROSS != 0
            || pressed & button::START != 0 || pressed & button::SQUARE != 0 || pressed
            & button::CIRCLE != 0);
        let over: bool = self.remaining == 0 || skipped;
        if over && self.episode != pages.not_finished && self.episode < pages.last {
            self.episode += 1;
            self.remaining = INTERMISSION_TICKS;
            self.elapsed = 0;
            return PanelStep { fade_out, outcome: PanelOutcome::NextPage };
        }
        if over {
            return PanelStep { fade_out, outcome: PanelOutcome::Load(self.next) };
        }
        PanelStep { fade_out, outcome: PanelOutcome::Hold }
    }
}

/// How much of a panel and its pages is left.
pub open spec fn panel_left(panel: Intermission, pages: EpisodePages) -> int {
    (if page_follows(panel, pages) {
        (pages.last - panel.episode) * 1000
    } else {
        0
    }) + panel.remaining
}

/// A panel ends without anyone pressing anything: every frame that does not
/// load the next level leaves less of it.
pub proof fn panels_end_by_themselves(panel: Intermission, elapsed: u16, pressed: u16, pages: EpisodePages)
    requires
        elapsed >= 1,
        panel.remaining <= INTERMISSION_TICKS,
    ensures
        ({
            let (after, outcome) = panel_after(panel, elapsed, pressed, pages);
            &&& after.remaining <= INTERMISSION_TICKS
            &&& panel_left(panel, pages) >= 0
            &&& outcome is Load || panel_left(after, pages) < panel_left(panel, pages)
        }),
{
}

/// No press skips a panel before it can have been read.
pub proof fn panels_are_not_skipped_at_once(panel: Intermission, elapsed: u16, pressed: u16, pages: EpisodePages)
    requires
        panel.elapsed + elapsed < INTERMISSION_SKIP_TICKS,
        panel.remaining > elapsed,
    ensures
        panel_after(panel, elapsed, pressed, pages).1 == PanelOutcome::Hold,
{
}

/// The panel leads to the level that it was raised for.
pub proof fn panels_lead_on(panel: Intermission, elapsed: u16, pressed: u16, pages: EpisodePages)
    ensures
        match panel_after(panel, elapsed, pressed, pages).1 {
            PanelOutcome::Load(map) => map == panel.next,
            _ => true,
        },
        panel_after(panel, elapsed, pressed, pages).0.next == panel.next,
{
}

/// What a frame is about.
#[derive(Copy, Clone, Debug, PartialEq, Eq, Structural)]
pub enum FrameMode {
    Panel,
    Menu,
    Play,
}

/// The state of the loop.
pub struct Session {
    pub clock: GameClock,
    pub intermission: Option<Intermission>,
}

impl Session {
    pub fn new(pace: Pace, vblanks: u32) -> (session: Self)
        ensures
            session.clock == (GameClock { pace, fixed_tick: 0, movement_tick: vblanks }),
            session.intermission is None,
    {
        Session { clock: GameClock::new(pace, vblanks), intermission: None }
    }

    /// The panel goes before the menu, and the menu before the game.
    pub fn mode(&self, menu_active: bool) -> (mode: FrameMode)
        ensures
            mode == if self.intermission is Some {
                FrameMode::Panel
            } else if menu_active {
                FrameMode::Menu
            } else {
                FrameMode::Play
            },
    {
        if self.intermission.is_some() {
            FrameMode::Panel
        } else if menu_active {
            FrameMode::Menu
        } else {
            FrameMode::Play
        }
    }

    pub fn raise_panel(&mut self, panel: Intermission)
        ensures
            final(self).intermission == Some(panel),
            final(self).clock == old(self).clock,
    {
        self.intermission = Some(panel);
    }

    /// One frame of the panel; it goes down with the load of the next level.
    pub fn panel_frame(
        &mut self,
        time: FrameTime,
        pressed: u16,
        pages: EpisodePages,
        transition_ticks: u16,
    ) -> (step: Option<PanelStep>)
        ensures
            final(self).clock == old(self).clock,
            match old(self).intermission {
                None => step is None && final(self).intermission is None,
                Some(panel) => {
                    let (after, outcome) = panel_after(panel, time.elapsed, pressed, pages);
                    &&& step is Some
                    &&& (step->0).outcome == outcome
                    &&& (step->0).fade_out == (panel_aged(panel, time.elapsed).remaining
                        <= transition_ticks)
                    &&& final(self).intermission == if outcome is Load {
                        None
                    } else {
                        Some(after)
                    }
                },
            },
    {
        match self.intermission {
            None => None,
            Some(active) => {
                let mut panel: Intermission = active;
                let step: PanelStep = panel.step(time.elapsed, pressed, pages, transition_ticks);
                self.intermission = match step.outcome {
                    PanelOutcome::Load(_) => None,
                    _ => Some(panel),
                };
                Some(step)
            },
        }
    }

    /// A level has been loaded.
    pub fn level_loaded(&mut self, vblanks: u32)
        ensures
            final(self).clock == after_load(old(self).clock, vblanks),
            final(self).intermission == old(self).intermission,
    {
        self.clock.level_loaded(vblanks);
    }
}

/// What this build of the game begins with.
#[derive(Copy, Clone, Debug, PartialEq, Eq, Structural)]
pub enum Build {
    Shipping,
    Arsenal,
    Combat,
    Monster,
    MonsterJump,
    E1M1Chain,
    /// A script that brings its own first map.
    Bestiary(EpisodeMap),
    E1M2E1M3Route,
    Survival,
    Systems(EpisodeMap),
    Episode1Route,
    VisualParity,
}

pub open spec fn first_map(build: Build) -> EpisodeMap {
    match build {
        Build::Shipping => EpisodeMap::Start,
        Build::MonsterJump => EpisodeMap::E1M6,
        Build::Bestiary(map) => map,
        Build::E1M2E1M3Route => EpisodeMap::E1M2,
        Build::Systems(map) => map,
        Build::Episode1Route => EpisodeMap::E1M7,
        _ => EpisodeMap::E1M1,
    }
}

pub fn initial_map(build: Build) -> (map: EpisodeMap)
    ensures
        map == first_map(build),
{
    match build {
        Build::Shipping => EpisodeMap::Start,
        Build::MonsterJump => crate::monsterjump_regression::initial_map(),
        Build::Bestiary(map) => map,
        Build::E1M2E1M3Route => EpisodeMap::E1M2,
        Build::Systems(map) => map,
        Build::Episode1Route => crate::episode1_regression::initial_map(),
        _ => EpisodeMap::E1M1,
    }
}

/// What the menu asked for.
#[derive(Copy, Clone, Debug, PartialEq, Eq, Structural)]
pub enum MenuAction {
    NewGame,
    StartLevel(u8),
    Impulse9,
    Resume,
}

#[derive(Copy, Clone, Debug, PartialEq, Eq, Structural)]
pub enum MenuSound {
    Move,
    Enter,
    Adjust,
}

/// What the menu reads of the pad.
#[derive(Copy, Clone, Debug, PartialEq, Eq, Structural)]
pub struct MenuInput {
    pub up: bool,
    pub down: bool,
    pub left: bool,
    pub right: bool,
    pub accept: bool,
    pub back: bool,
}

pub fn menu_input(input: InputFrame) -> (menu: MenuInput)
    ensures
        menu.up == (input.menu_pressed & button::UP != 0),
        menu.down == (input.menu_pressed & button::DOWN != 0),
        menu.left == (input.menu_pressed & button::LEFT != 0),
        menu.right == (input.menu_pressed & button::RIGHT != 0),
        menu.accept == (input.menu_pressed & button::CROSS != 0),
        menu.back == (input.menu_pressed & button::CIRCLE != 0 || input.menu_pressed & button::START
            != 0 || input.menu_pressed & button::SELECT != 0),
{
    let pressed: u16 = input.menu_pressed;
    MenuInput {
        up: pressed & button::UP != 0,
        down: pressed & button::DOWN != 0,
        left: pressed & button::LEFT != 0,
        right: pressed & button::RIGHT != 0,
        accept: pressed & button::CROSS != 0,
        back: pressed & button::CIRCLE != 0 || pressed & button::START != 0 || pressed
            & button::SELECT != 0,
    }
}

/// How the menu takes a frame: whether it opens, and whether it gets the
/// input. The press that opens it is not handed to it as well.
#[derive(Copy, Clone, Debug, PartialEq, Eq, Structural)]
pub struct MenuTurn {
    pub opens: bool,
    pub gets_input: bool,
}

pub fn menu_turn(active: bool, controls: InputFrame) -> (turn: MenuTurn)
    ensures
        turn.opens == (!active && controls.pressed & (button::START | button::SELECT) != 0),
        turn.gets_input == active,
        !(turn.opens && turn.gets_input),
{
    MenuTurn { opens: !active && controls.menu_pressed(), gets_input: active }
}

/// The level that an action of the menu starts.
pub fn started_level(action: MenuAction) -> (level: Option<EpisodeMap>)
    ensures
        match action {
            MenuAction::NewGame => level == Some(EpisodeMap::Start),
            MenuAction::StartLevel(index) => level is Some && crate::episode::map_number(level->0)
                == if index < 8 {
                index as u32
            } else {
                8
            },
            _ => level is None,
        },
{
    match action {
        MenuAction::NewGame => Some(EpisodeMap::Start),
        MenuAction::StartLevel(index) => Some(crate::episode::map_at(index)),
        _ => None,
    }
}

pub fn menu_sound_id(sound: MenuSound) -> (id: i16)
    ensures
        id == match sound {
            MenuSound::Move => 0x6ei16,
            MenuSound::Enter => 0x6f,
            MenuSound::Adjust => 0x70,
        },
{
    match sound {
        MenuSound::Move => 0x6e,
        MenuSound::Enter => 0x6f,
        MenuSound::Adjust => 0x70,
    }
}

/// How the player moves in a frame.
#[derive(Copy, Clone, Debug, PartialEq, Eq, Structural)]
pub enum Motion {
    /// Not at all.
    Still,
    Fly,
    Walk,
}

/// A corpse does not move, and a player that a script has parked does not
/// either.
pub fn player_motion(parked: bool, health: i16, noclip: bool) -> (motion: Motion)
    ensures
        motion == if parked || health <= 0 {
            Motion::Still
        } else if noclip {
            Motion::Fly
        } else {
            Motion::Walk
        },
{
    if parked || health <= 0 {
        Motion::Still
    } else if noclip {
        Motion::Fly
    } else {
        Motion::Walk
    }
}

/// What the survival rules read of a frame.
#[derive(Copy, Clone, Debug, PartialEq, Eq, Structural)]
pub struct SurvivalInput {
    pub elapsed_ticks: u16,
    pub water_level: u8,
    pub water_type: i16,
    pub hard_land: bool,
}

pub fn survival_input(frame: PlayerFrame, elapsed_ticks: u16) -> (input: SurvivalInput)
    ensures
        input == (SurvivalInput {
            elapsed_ticks,
            water_level: frame.water_level,
            water_type: frame.water_type,
            hard_land: frame.events.hard_land,
        }),
{
    SurvivalInput {
        elapsed_ticks,
        water_level: frame.water_level,
        water_type: frame.water_type,
        hard_land: frame.events.hard_land,
    }
}

/// Whether a dead player starts the level over: on a fresh press of attack,
/// jump or use.
pub fn respawns(health: i16, controls: InputFrame) -> (respawn: bool)
    ensures
        respawn == (health <= 0 && (controls.pressed & button::R2 != 0 || controls.pressed
            & button::CROSS != 0 || controls.pressed & button::SQUARE != 0)),
{
    health <= 0 && (controls.fire_pressed() || controls.jump_pressed() || controls.use_pressed())
}

/// Damage as the inventory takes it.
pub fn inventory_damage(damage: u16) -> (taken: i16)
    ensures
        taken == if damage > i16::MAX {
            i16::MAX as int
        } else {
            damage as int
        },
{
    if damage > 32767 {
        i16::MAX
    } else {
        damage as i16
    }
}

/// A message of the map.
#[derive(Copy, Clone, Debug, PartialEq, Eq, Structural)]
pub enum MapMessage {
    NeedsKey(u8),
    Countdown,
    /// The text at this place of the map's strings.
    Cooked(u16),
    /// A secret without a text of its own.
    Secret,
}

/// The class of a secret.
pub const CLASS_TRIGGER_SECRET: u8 = 0x50;

/// An entity as far as messages go.
#[derive(Copy, Clone, Debug, PartialEq, Eq, Structural)]
pub struct MessageSource {
    pub string: u16,
    pub class_name: u8,
}

/// The message of an entity: its own text, or the one that secrets have.
pub open spec fn source_message(source: MessageSource) -> Option<MapMessage> {
    if source.string != 0 {
        Some(MapMessage::Cooked(source.string))
    } else if source.class_name == CLASS_TRIGGER_SECRET {
        Some(MapMessage::Secret)
    } else {
        None
    }
}

/// What the map says in a frame. Its own text wins over a countdown, and a
/// countdown over the lock of a door.
pub fn map_message(needs_key: Option<u8>, countdown: bool, source: Option<MessageSource>) -> (message:
    Option<MapMessage>)
    ensures
        message == match source {
            Some(entity) if source_message(entity) is Some => source_message(entity),
            _ => if countdown {
                Some(MapMessage::Countdown)
            } else {
                match needs_key {
                    Some(bit) => Some(MapMessage::NeedsKey(bit)),
                    None => None,
                }
            },
        },
{
    if let Some(entity) = source {
        if entity.string != 0 {
            return Some(MapMessage::Cooked(entity.string));
        }
        if entity.class_name == CLASS_TRIGGER_SECRET {
            return Some(MapMessage::Secret);
        }
    }
    if countdown {
        return Some(MapMessage::Countdown);
    }
    match needs_key {
        Some(bit) => Some(MapMessage::NeedsKey(bit)),
        None => None,
    }
}

/// Whether a change of level raises the panel. An exit may go on at once, and
/// a script that walks through levels by hand wants none.
pub fn raises_panel(no_intermission: bool, scripted: bool) -> (panel: bool)
    ensures
        panel == (!no_intermission && !scripted),
{
    !no_intermission && !scripted
}

/// What the player does about weapons.
#[derive(Copy, Clone, Debug, PartialEq, Eq, Structural)]
pub enum WeaponChoice {
    Keep,
    Direct(u8),
    Next,
    Previous,
}

/// A chord that names a weapon goes before the shoulder buttons. `named` says
/// that the impulse of the chord is a weapon's. A corpse keeps what it has.
pub fn weapon_choice(alive: bool, controls: InputFrame, named: bool) -> (choice: WeaponChoice)
    ensures
        choice == if !alive {
            WeaponChoice::Keep
        } else {
            match weapon_chord(controls.held, controls.pressed) {
                Some(impulse) if named => WeaponChoice::Direct(impulse),
                _ => if controls.pressed & button::R1 != 0 {
                    WeaponChoice::Next
                } else if controls.pressed & button::L1 != 0 {
                    WeaponChoice::Previous
                } else {
                    WeaponChoice::Keep
                },
            }
        },
{
    if !alive {
        return WeaponChoice::Keep;
    }
    if let Some(impulse) = controls.direct_weapon_impulse() {
        if named {
            return WeaponChoice::Direct(impulse);
        }
    }
    if controls.next_weapon_pressed() {
        WeaponChoice::Next
    } else if controls.previous_weapon_pressed() {
        WeaponChoice::Previous
    } else {
        WeaponChoice::Keep
    }
}

/// What happens to the trigger in a frame.
#[derive(Copy, Clone, Debug, PartialEq, Eq, Structural)]
pub struct Trigger {
    pub held: bool,
    /// The world has to be asked for a target. That is costly, so it is done
    /// only for a shot that leaves in this frame along the aim.
    pub aims: bool,
}

pub fn pull_trigger(alive: bool, controls: InputFrame, scripted: bool, ready: bool, auto_aims: bool) -> (trigger:
    Trigger)
    ensures
        trigger.held == (alive && controls.held & button::R2 != 0 || scripted),
        trigger.aims == (trigger.held && ready && auto_aims),
{
    let held: bool = controls.fire_held() && alive || scripted;
    Trigger { held, aims: held && ready && auto_aims }
}

/// Add up what pushed the player.
pub fn damage_impulse(rocket: Vec3I32, grenade: Vec3I32, nail: Vec3I32, fireball: Vec3I32) -> (impulse:
    Vec3I32)
    ensures
        impulse == sat_sum(sat_sum(rocket, grenade), sat_sum(nail, fireball)),
{
    saturating_sum(saturating_sum(rocket, grenade), saturating_sum(nail, fireball))
}

/// The sum of the first `count` pushes.
pub open spec fn summed(pushes: Seq<Vec3I32>, count: nat) -> Vec3I32
    decreases count,
{
    if count == 0 {
        Vec3I32 { x: 0, y: 0, z: 0 }
    } else {
        sat_sum(summed(pushes, (count - 1) as nat), pushes[count - 1])
    }
}

pub fn knockback(pushes: &Vec<Vec3I32>) -> (sum: Vec3I32)
    ensures
        sum == summed(pushes@, pushes@.len()),
{
    let mut sum = Vec3I32 { x: 0, y: 0, z: 0 };
    let mut index: usize = 0;
    while index < pushes.len()
        invariant
            index <= pushes@.len(),
            sum == summed(pushes@, index as nat),
        decreases pushes@.len() - index,
    {
        sum = saturating_sum(sum, pushes[index]);
        index += 1;
    }
    sum
}

/// Health and armor at one moment.
#[derive(Copy, Clone, Debug, PartialEq, Eq, Structural)]
pub struct Condition {
    pub health: i16,
    pub armor: i16,
}

/// What a frame cost the player.
#[derive(Copy, Clone, Debug, PartialEq, Eq, Structural)]
pub struct DamageTaken {
    pub blood: u16,
    pub armor: u16,
    /// How hard the view is kicked, and from where; nothing without damage.
    pub kick: Option<ViewKick>,
}

#[derive(Copy, Clone, Debug, PartialEq, Eq, Structural)]
pub struct ViewKick {
    pub count: i32,
    pub from: Vec3I32,
}

/// What was lost; a gain is no loss, and nothing counts below zero.
pub open spec fn lost(before: int, after: int) -> int {
    let high = if before > 0 {
        before
    } else {
        0
    };
    let low = if after > 0 {
        after
    } else {
        0
    };
    if high > low {
        high - low
    } else {
        0
    }
}

fn loss(before: i16, after: i16) -> (points: u16)
    ensures
        points == lost(before as int, after as int),
        points <= 32767,
{
    let high: i16 = if before > 0 {
        before
    } else {
        0
    };
    let low: i16 = if after > 0 {
        after
    } else {
        0
    };
    if high > low {
        (high - low) as u16
    } else {
        0
    }
}

/// The negation of a direction.
pub open spec fn opposite(direction: Vec3I32) -> Vec3I32 {
    Vec3I32 {
        x: sat_i32(-direction.x) as i32,
        y: sat_i32(-direction.y) as i32,
        z: sat_i32(-direction.z) as i32,
    }
}

/// Compare the player's condition before and after all that a frame can do.
/// What hurt sits opposite the push that it gave.
pub fn damage_taken(before: Condition, after: Condition, impulse: Vec3I32) -> (damage: DamageTaken)
    ensures
        damage.blood == lost(before.health as int, after.health as int),
        damage.armor == lost(before.armor as int, after.armor as int),
        damage.kick == if damage.blood != 0 || damage.armor != 0 {
            Some(
                ViewKick {
                    count: ((damage.blood + damage.armor) / 2) as i32,
                    from: opposite(impulse),
                },
            )
        } else {
            None
        },
{
    let blood: u16 = loss(before.health, after.health);
    let armor: u16 = loss(before.armor, after.armor);
    let kick: Option<ViewKick> = if blood != 0 || armor != 0 {
        Some(
            ViewKick {
                count: (blood as i32 + armor as i32) / 2,
                from: Vec3I32 {
                    x: saturating_sub_i32(0, impulse.x),
                    y: saturating_sub_i32(0, impulse.y),
                    z: saturating_sub_i32(0, impulse.z),
                },
            },
        )
    } else {
        None
    };
    DamageTaken { blood, armor, kick }
}

/// To be healed is never to be hurt: without a loss the view is not kicked.
pub proof fn healing_does_not_kick(before: Condition, after: Condition)
    requires
        after.health >= before.health,
        after.armor >= before.armor,
    ensures
        lost(before.health as int, after.health as int) == 0,
        lost(before.armor as int, after.armor as int) == 0,
{
}

/// The liquid that tints the screen: the one around the player, if any.
pub fn tinting_contents(frame: PlayerFrame) -> (contents: i16)
    ensures
        contents == if frame.water_level > 0 {
            frame.water_type
        } else {
            0
        },
{
    if frame.water_level > 0 {
        frame.water_type
    } else {
        0
    }
}

/// Whether the view wobbles: only with the eyes under water.
pub fn view_wobbles(option: bool, water_level: u8) -> (wobbles: bool)
    ensures
        wobbles == (option && water_level == 3),
{
    option && water_level == 3
}

/// The menu's say in how a frame is drawn.
#[derive(Copy, Clone, Debug, PartialEq, Eq, Structural)]
pub struct ViewOptions {
    pub water_warp: bool,
    pub water_alpha: bool,
}

/// How a frame is drawn.
#[derive(Copy, Clone, Debug, PartialEq, Eq, Structural)]
pub struct Presentation {
    pub water_warp: bool,
    pub water_alpha: bool,
    pub beam: bool,
    pub overlays: Overlays,
}

/// How a frame of each kind is drawn. The panel is seen without any of the
/// player's things; the menu goes over the world alone.
pub open spec fn presented(
    mode: FrameMode,
    options: ViewOptions,
    water_level: u8,
    page: MenuPage,
    beam: bool,
    message: bool,
    now_playing: bool,
) -> Presentation {
    let play = mode is Play;
    Presentation {
        water_warp: !(mode is Panel) && options.water_warp && water_level == 3,
        water_alpha: !(mode is Panel) && options.water_alpha,
        beam: play && beam,
        overlays: Overlays {
            view_model: play,
            hud: play,
            centerprint: play && message,
            menu: if mode is Menu {
                Some(page)
            } else {
                None
            },
            intermission: mode is Panel,
            now_playing,
        },
    }
}

pub fn present_frame(
    mode: FrameMode,
    options: ViewOptions,
    water_level: u8,
    page: MenuPage,
    beam: bool,
    message: bool,
    now_playing: bool,
) -> (presentation: Presentation)
    ensures
        presentation == presented(mode, options, water_level, page, beam, message, now_playing),
{
    let (play, panel, menu): (bool, bool, Option<MenuPage>) = match mode {
        FrameMode::Play => (true, false, None),
        FrameMode::Panel => (false, true, None),
        FrameMode::Menu => (false, false, Some(page)),
    };
    Presentation {
        water_warp: !panel && view_wobbles(options.water_warp, water_level),
        water_alpha: !panel && options.water_alpha,
        beam: play && beam,
        overlays: Overlays {
            view_model: play,
            hud: play,
            centerprint: play && message,
            menu,
            intermission: panel,
            now_playing,
        },
    }
}

/// The panel shows nothing of the game but the world, and no banner either.
pub proof fn the_panel_is_plain(
    options: ViewOptions,
    water_level: u8,
    page: MenuPage,
    beam: bool,
    message: bool,
    now_playing: bool,
)
    ensures
        ({
            let shown = presented(
                FrameMode::Panel,
                options,
                water_level,
                page,
                beam,
                message,
                now_playing,
            );
            &&& !shown.water_warp
            &&& !shown.beam
            &&& layer_order(shown.overlays) == seq![Layer::Tints, Layer::Intermission, Layer::Fade]
        }),
{
}

/// The line for a backpack. The two monsters that drop one fill it by hand.
pub fn backpack_text(shells: u16) -> (text: &'static str)
    ensures
        text@ == if shells != 0 {
            "You get 5 shells"@
        } else {
            "You get 2 rockets"@
        },
{
    if shells != 0 {
        "You get 5 shells"
    } else {
        "You get 2 rockets"
    }
}

/// A model as far as its frames go.
#[derive(Copy, Clone, Debug, PartialEq, Eq, Structural)]
pub struct ModelFrames {
    pub id: i16,
    pub frame_count: u16,
}

/// Frames of the first model, from `from` on, with an id; one without.
pub open spec fn frames_of(models: Seq<ModelFrames>, id: i16, from: int) -> u16
    decreases models.len() - from,
{
    if from >= models.len() {
        1
    } else if models[from].id == id {
        models[from].frame_count
    } else {
        frames_of(models, id, from + 1)
    }
}

pub fn weapon_model_frames(models: &Vec<ModelFrames>, model_id: i16) -> (frames: u16)
    ensures
        frames == frames_of(models@, model_id, 0),
{
    let mut index: usize = 0;
    while index < models.len()
        invariant
            index <= models@.len(),
            frames_of(models@, model_id, 0) == frames_of(models@, model_id, index as int),
        decreases models@.len() - index,
    {
        if models[index].id == model_id {
            return models[index].frame_count;
        }
        index += 1;
    }
    1
}

/// How a level comes to be playable.
#[derive(Copy, Clone, Debug, PartialEq, Eq, Structural)]
pub enum LevelLoad {
    /// The map is in memory; only its state is reset.
    Reset,
    /// The loading page is shown, then the map is read.
    Read,
    /// There is no loading page to show.
    Refused,
}

pub fn load_level(resident: bool, loading_picture: bool) -> (load: LevelLoad)
    ensures
        load == if resident {
            LevelLoad::Reset
        } else if loading_picture {
            LevelLoad::Read
        } else {
            LevelLoad::Refused
        },
{
    if resident {
        LevelLoad::Reset
    } else if loading_picture {
        LevelLoad::Read
    } else {
        LevelLoad::Refused
    }
}

/// Why a map could not be made resident.
#[derive(Copy, Clone, Debug, PartialEq, Eq, Structural)]
pub enum MapLoadError {
    Storage,
    Format,
    TooLarge,
    BadTextureData,
    BadVertexData,
    BadAliasModels,
    VramUpload,
    BadFace,
    BadMarkSurface,
    BadLeaf,
    BadNode,
    BadClipNode,
    BadBrushModel,
    BadEntity,
    MissingEntities,
}

/// The last word of the line that a failed load is logged with.
pub open spec fn load_error_word(error: MapLoadError) -> Seq<char> {
    match error {
        MapLoadError::Storage => "storage"@,
        MapLoadError::Format => "format"@,
        MapLoadError::TooLarge => "too-large"@,
        MapLoadError::BadTextureData => "texture"@,
        MapLoadError::BadVertexData => "vertex"@,
        MapLoadError::BadAliasModels => "alias"@,
        MapLoadError::VramUpload => "vram"@,
        MapLoadError::BadFace => "face"@,
        MapLoadError::BadMarkSurface => "marksurface"@,
        MapLoadError::BadLeaf => "leaf"@,
        MapLoadError::BadNode => "node"@,
        MapLoadError::BadClipNode => "clipnode"@,
        MapLoadError::BadBrushModel => "brushmodel"@,
        MapLoadError::BadEntity => "entity"@,
        MapLoadError::MissingEntities => "entities"@,
    }
}

pub fn map_load_error(error: MapLoadError) -> (word: &'static str)
    ensures
        word@ == load_error_word(error),
{
    match error {
        MapLoadError::Storage => "storage",
        MapLoadError::Format => "format",
        MapLoadError::TooLarge => "too-large",
        MapLoadError::BadTextureData => "texture",
        MapLoadError::BadVertexData => "vertex",
        MapLoadError::BadAliasModels => "alias",
        MapLoadError::VramUpload => "vram",
        MapLoadError::BadFace => "face",
        MapLoadError::BadMarkSurface => "marksurface",
        MapLoadError::BadLeaf => "leaf",
        MapLoadError::BadNode => "node",
        MapLoadError::BadClipNode => "clipnode",
        MapLoadError::BadBrushModel => "brushmodel",
        MapLoadError::BadEntity => "entity",
        MapLoadError::MissingEntities => "entities",
    }
}

/// A paced clock steps by its own pace; a measured one shows the blanks as they
/// are counted.
pub proof fn clocks_keep_their_pace(clock: GameClock, vblanks: u32)
    ensures
        clock.pace is Measured || clock.pace is OneTick ==> frame_tick(clock, vblanks) == vblanks,
        clock.pace is ThreeTicks ==> frame_tick(clock, vblanks) == clock.fixed_tick.wrapping_add(3)
            && frame_elapsed(clock, frame_tick(clock, vblanks)) == 3,
        clock.pace is TwoTicks ==> frame_tick(clock, vblanks) == clock.fixed_tick.wrapping_add(2)
            && frame_elapsed(clock, frame_tick(clock, vblanks)) == 2,
        clock.pace is OneTick ==> frame_elapsed(clock, vblanks) == 1,
{
}

/// A measured frame counts the ticks since the last one, one at least and four at
/// most, however the counter runs over.
pub proof fn measured_frames_count_their_ticks(clock: GameClock, passed: u32)
    requires
        clock.pace is Measured,
    ensures
        ({
            let tick = clock.movement_tick.wrapping_add(passed);
            &&& 1 <= passed <= 4 ==> frame_elapsed(clock, tick) == passed
            &&& passed == 0 ==> frame_elapsed(clock, tick) == 1
            &&& passed > 4 ==> frame_elapsed(clock, tick) == 4
        }),
{
}

/// A panel grows older by the frame, on both of its clocks, and keeps its counts,
/// its maps and its camera.
pub proof fn panels_grow_older(panel: Intermission, elapsed: u16, pressed: u16, pages: EpisodePages)
    ensures
        ({
            let (after, outcome) = panel_after(panel, elapsed, pressed, pages);
            &&& after.counts == panel.counts && after.finished == panel.finished && after.next
                == panel.next && after.camera == panel.camera
            &&& outcome is NextPage ==> after.remaining == 150 && after.elapsed == 0
                && after.episode == panel.episode + 1
            &&& !(outcome is NextPage) ==> after.episode == panel.episode && (if panel.remaining
                >= elapsed {
                after.remaining + elapsed == panel.remaining
            } else {
                after.remaining == 0
            }) && (if panel.elapsed + elapsed <= 0xffff {
                after.elapsed == panel.elapsed + elapsed
            } else {
                after.elapsed == 0xffff
            })
            &&& outcome is Load ==> outcome->0 == panel.next
            &&& outcome is Hold <==> elapsed < panel.remaining && (panel.elapsed + elapsed < 30
                || !skip_pressed(pressed))
        }),
{
}

/// Any of the four buttons skips a panel, and nothing else does.
pub proof fn four_buttons_skip(pressed: u16)
    ensures
        skip_pressed(pressed) <==> pressed & 0x4000 != 0 || pressed & 0x0008 != 0 || pressed & 0x8000
            != 0 || pressed & 0x2000 != 0,
{
}

/// What is told of an entity is its own text, before the general one of a secret.
pub proof fn own_texts_come_first(source: MessageSource)
    ensures
        source.string != 0 ==> source_message(source) == Some(MapMessage::Cooked(source.string)),
        source.string == 0 && source.class_name == 0x50 ==> source_message(source) == Some(
            MapMessage::Secret,
        ),
        source.string == 0 && source.class_name != 0x50 ==> source_message(source) is None,
{
}

/// Pushes add up on every axis of their own.
pub proof fn pushes_add_up(pushes: Seq<Vec3I32>, count: nat)
    requires
        count < pushes.len(),
    ensures
        ({
            let before = summed(pushes, count);
            let after = summed(pushes, count + 1);
            let push = pushes[count as int];
            &&& i32::MIN <= before.x + push.x <= i32::MAX ==> after.x == before.x + push.x
            &&& i32::MIN <= before.y + push.y <= i32::MAX ==> after.y == before.y + push.y
            &&& i32::MIN <= before.z + push.z <= i32::MAX ==> after.z == before.z + push.z
        }),
        summed(pushes, 0) == (Vec3I32 { x: 0, y: 0, z: 0 }),
{
}

/// What is lost is what is gone of what there was; what is below nothing counts
/// as nothing, and a gain is no loss.
pub proof fn losses_are_what_is_gone(before: int, after: int)
    ensures
        0 <= after <= before ==> lost(before, after) == before - after,
        after < 0 < before ==> lost(before, after) == before,
        before <= after ==> lost(before, after) == 0,
        before <= 0 ==> lost(before, after) == 0,
{
}

/// The opposite of a direction is opposite on every axis.
pub proof fn opposites_cancel(direction: Vec3I32)
    requires
        direction.x > i32::MIN,
        direction.y > i32::MIN,
        direction.z > i32::MIN,
    ensures
        opposite(direction).x + direction.x == 0,
        opposite(direction).y + direction.y == 0,
        opposite(direction).z + direction.z == 0,
        opposite(opposite(direction)) == direction,
{
}

/// While playing, the weapon, the display and a message that is up are shown; the
/// menu shows its page and the panel itself, and neither shows the others.
pub proof fn each_mode_shows_its_own(
    mode: FrameMode,
    options: ViewOptions,
    water_level: u8,
    page: MenuPage,
    beam: bool,
    message: bool,
    now_playing: bool,
)
    ensures
        ({
            let shown = presented(
                mode,
                options,
                water_level,
                page,
                beam,
                message,
                now_playing,
            );
            &&& shown.overlays.view_model <==> mode is Play
            &&& shown.overlays.hud <==> mode is Play
            &&& shown.overlays.centerprint <==> mode is Play && message
            &&& shown.overlays.menu is Some <==> mode is Menu
            &&& mode is Menu ==> shown.overlays.menu == Some(page)
            &&& shown.overlays.intermission <==> mode is Panel
            &&& shown.overlays.now_playing == now_playing
            &&& shown.beam <==> mode is Play && beam
            &&& shown.water_warp <==> !(mode is Panel) && options.water_warp && water_level == 3
            &&& shown.water_alpha <==> !(mode is Panel) && options.water_alpha
        }),
{
}

/// A model has the frames of the first entry under its number, and one frame
/// where there is none.
pub proof fn models_have_their_own_frames(models: Seq<ModelFrames>, id: i16, from: int, at: int)
    requires
        0 <= from <= at <= models.len(),
        forall|i: int| from <= i < at ==> (#[trigger] models[i]).id != id,
        at < models.len() ==> models[at].id == id,
    ensures
        at < models.len() ==> frames_of(models, id, from) == models[at].frame_count,
        at == models.len() ==> frames_of(models, id, from) == 1,
    decreases at - from,
{
    if from < at {
        models_have_their_own_frames(models, id, from + 1, at);
    }
}

/// The game begins in the entrance hall, and each script on the map it is made
/// for.
pub proof fn scripts_begin_on_their_maps(map: EpisodeMap)
    ensures
        first_map(Build::Shipping) is Start,
        first_map(Build::MonsterJump) is E1M6,
        first_map(Build::E1M2E1M3Route) is E1M2,
        first_map(Build::Episode1Route) is E1M7,
        first_map(Build::Bestiary(map)) == map,
        first_map(Build::Systems(map)) == map,
        first_map(Build::Arsenal) is E1M1 && first_map(Build::Combat) is E1M1 && first_map(
            Build::Monster,
        ) is E1M1 && first_map(Build::E1M1Chain) is E1M1 && first_map(Build::Survival) is E1M1
            && first_map(Build::VisualParity) is E1M1,
{
}

} // verus!
