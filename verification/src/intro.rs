//! The mark and the line that are shown at boot.
//!
//! Fade in, hold, fade out. A fresh press after a short grace skips it.

use vstd::prelude::*;

use crate::button;

verus! {

pub const FADE_IN: i32 = 32;

pub const HOLD: i32 = 74;

pub const TOTAL: i32 = 150;

pub const FADE_OUT: i32 = 44;

pub const SKIP_GRACE: i32 = 8;

/// Glyphs of the line under the mark.
pub const TAG_GLYPHS: i32 = 18;

/// A button that skips the intro is down.
pub open spec fn skip_held(buttons: u16) -> bool {
    buttons & button::CROSS != 0 || buttons & button::CIRCLE != 0 || buttons & button::START != 0
}

fn any_held(buttons: u16) -> (held: bool)
    ensures
        held == skip_held(buttons),
{
    buttons & button::CROSS != 0 || buttons & button::CIRCLE != 0 || buttons & button::START != 0
}

/// The intro ends by itself, or by a press that the frame before did not have.
pub open spec fn intro_ends(frame: int, buttons: u16, previous: u16) -> bool {
    frame >= TOTAL || frame > SKIP_GRACE && skip_held(buttons) && !skip_held(previous)
}

/// Whether the intro ends before this frame.
pub fn intro_over(frame: i32, buttons: u16, previous: u16) -> (over: bool)
    ensures
        over == intro_ends(frame as int, buttons, previous),
{
    frame >= TOTAL || frame > SKIP_GRACE && any_held(buttons) && !any_held(previous)
}

/// Brightness of a frame, where 128 is full.
pub open spec fn fade_level(frame: int) -> int {
    if frame < FADE_IN {
        frame * 128 / 32
    } else if frame < FADE_IN + HOLD {
        128
    } else {
        (TOTAL - frame) * 128 / FADE_OUT as int
    }
}

pub fn intro_level(frame: i32) -> (level: u8)
    requires
        0 <= frame < TOTAL,
    ensures
        level == fade_level(frame as int),
        level <= 128,
{
    if frame < FADE_IN {
        (frame * 128 / 32) as u8
    } else if frame < FADE_IN + HOLD {
        128
    } else {
        ((TOTAL - frame) * 128 / FADE_OUT) as u8
    }
}

/// The intro gets brighter, holds, and gets darker, in that order.
pub proof fn the_fade_rises_and_falls(early: int, late: int)
    requires
        0 <= early <= late < TOTAL,
    ensures
        late < FADE_IN + HOLD ==> fade_level(early) <= fade_level(late),
        early >= FADE_IN ==> fade_level(early) >= fade_level(late),
        fade_level(0) == 0,
        0 <= fade_level(early) <= 128,
{
}

/// A button that is held down from before the intro never skips it: it has to
/// be released and pressed.
pub proof fn a_held_button_does_not_skip(frame: int, buttons: u16, previous: u16)
    requires
        frame < TOTAL,
        skip_held(previous),
    ensures
        !intro_ends(frame, buttons, previous),
{
}

#[derive(Copy, Clone, Debug, PartialEq, Eq, Structural)]
pub struct Colour {
    pub red: u8,
    pub green: u8,
    pub blue: u8,
}

/// How strongly the sheen lies on a glyph: strongest at the glyph that it has
/// reached, nothing three glyphs away.
pub open spec fn sheen_amount(frame: int, glyph: int) -> int {
    let head = (frame / 2) % (TAG_GLYPHS + 18);
    let distance = if glyph < head {
        head - glyph
    } else {
        glyph - head
    };
    if 18 - distance * 6 > 0 {
        18 - distance * 6
    } else {
        0
    }
}

/// One channel: dimmed to the level, then moved towards it by the sheen.
pub open spec fn sheen_channel(value: int, level: int, amount: int) -> int {
    let base = value * level / 128;
    base + (level - base) * amount / 18
}

pub open spec fn sheen_colour(colour: Colour, level: int, amount: int) -> Colour {
    Colour {
        red: sheen_channel(colour.red as int, level, amount) as u8,
        green: sheen_channel(colour.green as int, level, amount) as u8,
        blue: sheen_channel(colour.blue as int, level, amount) as u8,
    }
}

fn mix_channel(value: u8, level: u8, amount: i32) -> (mixed: u8)
    requires
        value <= 128,
        level <= 128,
        0 <= amount <= 18,
    ensures
        mixed == sheen_channel(value as int, level as int, amount as int),
        mixed <= level,
{
    assert(0 <= value * level <= 128 * level) by (nonlinear_arith)
        requires
            value <= 128,
    ;
    let base: i32 = value as i32 * level as i32 / 128;
    assert(0 <= (level - base) * amount <= (level - base) * 18) by (nonlinear_arith)
        requires
            0 <= amount <= 18,
            base <= level,
    ;
    (base + (level as i32 - base) * amount / 18) as u8
}

fn mix(colour: Colour, level: u8, amount: i32) -> (mixed: Colour)
    requires
        colour.red <= 128,
        colour.green <= 128,
        colour.blue <= 128,
        level <= 128,
        0 <= amount <= 18,
    ensures
        mixed == sheen_colour(colour, level as int, amount as int),
{
    Colour {
        red: mix_channel(colour.red, level, amount),
        green: mix_channel(colour.green, level, amount),
        blue: mix_channel(colour.blue, level, amount),
    }
}

/// Upper and lower colour of a glyph of the line.
pub fn glyph_colours(frame: i32, glyph: i32, level: u8) -> (colours: (Colour, Colour))
    requires
        0 <= frame < TOTAL,
        0 <= glyph < TAG_GLYPHS,
        level <= 128,
    ensures
        ({
            let amount = sheen_amount(frame as int, glyph as int);
            &&& colours.0 == sheen_colour(
                Colour { red: 0x68, green: 0x80, blue: 0x80 },
                level as int,
                amount,
            )
            &&& colours.1 == sheen_colour(
                Colour { red: 0x38, green: 0x58, blue: 0x80 },
                level as int,
                amount,
            )
        }),
{
    let head: i32 = (frame / 2) % 36;
    let distance: i32 = if glyph < head {
        head - glyph
    } else {
        glyph - head
    };
    let amount: i32 = if 18 - distance * 6 > 0 {
        18 - distance * 6
    } else {
        0
    };
    (
        mix(Colour { red: 0x68, green: 0x80, blue: 0x80 }, level, amount),
        mix(Colour { red: 0x38, green: 0x58, blue: 0x80 }, level, amount),
    )
}

/// Nothing in the intro is brighter than the fade allows, sheen or not.
pub proof fn the_sheen_fades_too(value: int, level: int, amount: int)
    requires
        0 <= value <= 128,
        0 <= level <= 128,
        0 <= amount <= 18,
    ensures
        0 <= sheen_channel(value, level, amount) <= level,
        amount == 18 ==> sheen_channel(value, level, amount) == level,
{
    assert(0 <= value * level <= 128 * level) by (nonlinear_arith)
        requires
            0 <= value <= 128,
            0 <= level,
    ;
    let base = value * level / 128;
    assert(0 <= (level - base) * amount <= (level - base) * 18) by (nonlinear_arith)
        requires
            0 <= amount <= 18,
            base <= level,
    ;
}

/// Where the glyphs of the line start, when the whole line is centred.
pub open spec fn glyph_start(line_width: int, widths: Seq<u16>, count: nat) -> int
    decreases count,
{
    if count == 0 {
        160 - line_width / 2
    } else {
        glyph_start(line_width, widths, (count - 1) as nat) + widths[count - 1]
    }
}

pub fn glyph_starts(line_width: u16, widths: &Vec<u16>) -> (starts: Vec<i32>)
    requires
        widths@.len() <= 64,
    ensures
        starts@.len() == widths@.len(),
        forall|i: int|
            #![trigger starts@[i]]
            0 <= i < starts@.len() ==> starts@[i] == glyph_start(
                line_width as int,
                widths@,
                i as nat,
            ),
{
    let mut starts: Vec<i32> = Vec::new();
    let mut x: i32 = 160 - (line_width / 2) as i32;
    let mut index: usize = 0;
    while index < widths.len()
        invariant
            index <= widths@.len() <= 64,
            -40_000 <= x <= 160 + index * 65_536,
            x == glyph_start(line_width as int, widths@, index as nat),
            starts@.len() == index,
            forall|i: int|
                #![trigger starts@[i]]
                0 <= i < index ==> starts@[i] == glyph_start(
                    line_width as int,
                    widths@,
                    i as nat,
                ),
        decreases widths@.len() - index,
    {
        starts.push(x);
        x += widths[index] as i32;
        index += 1;
    }
    starts
}

/// Each channel of the sheen is made from the same channel of the colour: turning
/// the channels round turns the result round.
pub proof fn the_sheen_keeps_the_channels_apart(colour: Colour, level: int, amount: int)
    ensures
        ({
            let shown = sheen_colour(colour, level, amount);
            let turned = sheen_colour(
                Colour { red: colour.green, green: colour.blue, blue: colour.red },
                level,
                amount,
            );
            turned == Colour { red: shown.green, green: shown.blue, blue: shown.red }
        }),
        ({
            let grey = sheen_colour(
                Colour { red: colour.red, green: colour.red, blue: colour.red },
                level,
                amount,
            );
            grey.red == sheen_colour(colour, level, amount).red && grey.green == grey.red
                && grey.blue == grey.red
        }),
{
}

/// Without a sheen a channel is dimmed by the level, and in full sheen it is as
/// bright as the level.
pub proof fn the_sheen_goes_from_colour_to_white(value: int, level: int)
    requires
        0 <= value <= 255,
        0 <= level <= 128,
    ensures
        sheen_channel(value, level, 0) == value * level / 128,
        sheen_channel(value, level, 18) == level,
        sheen_channel(value, 128, 0) == value,
        sheen_channel(value, 0, 0) == 0,
{
    let base = value * level / 128;
    assert((level - base) * 0 == 0) by (nonlinear_arith);
    assert((level - base) * 18 / 18 == level - base);
    assert(value * 128 / 128 == value);
    assert(value * 0 == 0) by (nonlinear_arith);
    assert((128 - value) * 0 == 0) by (nonlinear_arith);
}

/// The sheen is full at its head, falls by a third from glyph to glyph on both
/// sides, and moves on by one glyph every other frame.
pub proof fn the_sheen_falls_on_both_sides(frame: int, away: int)
    requires
        0 <= frame,
        0 <= away,
    ensures
        ({
            let head = (frame / 2) % (TAG_GLYPHS + 18);
            &&& sheen_amount(frame, head) == 18
            &&& sheen_amount(frame, head + away) == sheen_amount(frame, head - away)
            &&& away < 3 ==> sheen_amount(frame, head + away) == 18 - 6 * away
            &&& away >= 3 ==> sheen_amount(frame, head + away) == 0
        }),
{
}

/// A line's glyphs stand side by side, and the line as a whole in the middle.
pub proof fn glyphs_stand_side_by_side(line_width: int, widths: Seq<u16>, count: nat)
    requires
        count < widths.len(),
    ensures
        glyph_start(line_width, widths, count + 1) - glyph_start(line_width, widths, count)
            == widths[count as int],
        160 - glyph_start(line_width, widths, 0) == line_width / 2,
{
}

/// Three buttons skip the introduction.
pub proof fn three_buttons_skip(buttons: u16)
    ensures
        skip_held(buttons) <==> buttons & 0x4000 != 0 || buttons & 0x2000 != 0 || buttons & 0x0008
            != 0,
{
}

} // verus!
