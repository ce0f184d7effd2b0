//! Layout of the heads-up display in its classic, minimal and text forms.

use vstd::prelude::*;
use vstd::string::*;

use crate::screen::{appending_keeps_capacity, clamped_picture_quad, decimal_bytes, decimal_width,
    followed_by, fresh_digits, glyph_quad, inventory_bytes, line_quads, nothing_drawn, picture_quad,
    resume, shadowed_quads, text_quads, Color, GraphicsPicture, QuadList, ScreenQuad};

verus! {

/// Quads that the display may hold.
pub const HUD_PACKET_CAPACITY: usize = 96;

/// A powerup with no more seconds than this left is shown in red.
pub const POWERUP_WARNING_SECONDS: u8 = 3;

/// Which display is drawn.
#[derive(Copy, Clone, Debug, PartialEq, Eq, Structural)]
pub enum HudMode {
    Minimal,
    Classic,
}

/// One powerup as the text display names it.
#[derive(Copy, Clone, Debug, PartialEq, Eq)]
pub struct PowerupText {
    pub label: &'static str,
    pub seconds: u8,
}

/// What the display shows.
pub struct HudView {
    pub health: u16,
    pub armor: u16,
    pub has_armor: bool,
    /// The weapon draws on a pool.
    pub uses_ammo: bool,
    /// There is a picture for what the weapon uses.
    pub has_ammo_picture: bool,
    pub active_ammo: u16,
    /// Shells, nails, rockets and cells.
    pub ammo_pools: [u16; 4],
    pub owned_weapons: [bool; 7],
    pub keys: u8,
    pub runes: u8,
    /// Seconds left of the ring, pentagram, biosuit and quad damage.
    pub power_seconds: [u8; 4],
    pub weapon_label: &'static str,
    pub ammo_label: &'static str,
    pub powerups: Vec<PowerupText>,
    /// Left edges of the right-aligned numbers.
    pub armor_x: i16,
    pub health_x: i16,
    pub ammo_x: i16,
    pub minimal_ammo_x: i16,
}

/// The pictures the display is made of; one that is not resident is missing.
pub struct HudPictures {
    pub armor: Option<GraphicsPicture>,
    pub face: Option<GraphicsPicture>,
    pub ammo: Option<GraphicsPicture>,
    pub numbers: Vec<Option<GraphicsPicture>>,
    pub inventory_bar: Vec<Option<GraphicsPicture>>,
    pub weapons: Vec<Option<GraphicsPicture>>,
    pub status_bar: Vec<Option<GraphicsPicture>>,
    pub keys: Vec<Option<GraphicsPicture>>,
    pub powers: Vec<Option<GraphicsPicture>>,
    pub runes: Vec<Option<GraphicsPicture>>,
}

impl HudPictures {
    pub open spec fn valid(&self) -> bool {
        &&& self.numbers@.len() == 10
        &&& self.inventory_bar@.len() == 3
        &&& self.weapons@.len() == 7
        &&& self.status_bar@.len() == 29
        &&& self.keys@.len() == 2
        &&& self.powers@.len() == 4
        &&& self.runes@.len() == 4
    }
}

/// How a number is aligned to the right: the edge it ends at, the width of its
/// digits and the gap it leaves before the edge.
#[derive(Copy, Clone, Debug, PartialEq, Eq, Structural)]
pub struct RightAlignment {
    pub edge: i16,
    pub digit_width: i16,
    pub gap: i16,
    pub value: u16,
}

/// The alignments of all numbers of the display.
#[derive(Copy, Clone, Debug, PartialEq, Eq, Structural)]
pub struct NumberAlignments {
    pub armor: RightAlignment,
    pub health: RightAlignment,
    pub ammo: RightAlignment,
    /// The number of the small display, whose digits have their own width.
    pub minimal_ammo: Option<RightAlignment>,
}

/// A number of the status bar fills a field of three digits, which is 72 wide.
pub open spec fn field_alignment(field: int, value: u16) -> RightAlignment {
    RightAlignment { edge: (field + 72) as i16, digit_width: 24, gap: 0, value }
}

pub open spec fn alignments(view: HudView, digit: Option<GraphicsPicture>) -> NumberAlignments {
    NumberAlignments {
        armor: field_alignment(24, view.armor),
        health: field_alignment(136, view.health),
        ammo: field_alignment(248, view.active_ammo),
        minimal_ammo: match digit {
            Some(zero) => Some(
                RightAlignment {
                    edge: 292,
                    digit_width: zero.width as i16,
                    gap: 2,
                    value: view.active_ammo,
                },
            ),
            None => None,
        },
    }
}

/// How the numbers of the display are aligned; their left edges in the view
/// follow from this.
pub fn number_alignments(view: &HudView, pictures: &HudPictures) -> (aligned: NumberAlignments)
    requires
        pictures.valid(),
    ensures
        aligned == alignments(*view, pictures.numbers@[0]),
{
    NumberAlignments {
        armor: RightAlignment { edge: 96, digit_width: 24, gap: 0, value: view.armor },
        health: RightAlignment { edge: 208, digit_width: 24, gap: 0, value: view.health },
        ammo: RightAlignment { edge: 320, digit_width: 24, gap: 0, value: view.active_ammo },
        minimal_ammo: match pictures.numbers[0] {
            Some(zero) => Some(
                RightAlignment {
                    edge: 292,
                    digit_width: zero.width as i16,
                    gap: 2,
                    value: view.active_ammo,
                },
            ),
            None => None,
        },
    }
}

/// Three picture digits of any width fit behind a coordinate.
pub open spec fn number_fits(x: int) -> bool {
    x + 3 * 255 <= i16::MAX
}

impl HudView {
    pub open spec fn valid(&self) -> bool {
        &&& number_fits(self.armor_x as int)
        &&& number_fits(self.health_x as int)
        &&& number_fits(self.ammo_x as int)
        &&& number_fits(self.minimal_ammo_x as int)
        &&& self.powerups@.len() <= 4
    }
}

/// The neutral colour of pictures.
pub open spec fn plain() -> Color {
    (0x80, 0x80, 0x80)
}

/// The colour of a number: red when no more than `red_value` is left.
pub open spec fn counter_color(value: int, red_value: int) -> Color {
    if value <= red_value {
        (0x80, 0, 0)
    } else {
        (0x80, 0x80, 0x80)
    }
}

fn counter_color_of(value: u16, red_value: u16) -> (color: Color)
    ensures
        color == counter_color(value as int, red_value as int),
{
    if value <= red_value {
        (0x80, 0, 0)
    } else {
        (0x80, 0x80, 0x80)
    }
}

pub open spec fn nothing() -> (bool, Seq<ScreenQuad>) {
    (true, Seq::empty())
}

pub open spec fn picture_layout(picture: Option<GraphicsPicture>, x: int, y: int, color: Color, clut: u16) -> (bool, Seq<ScreenQuad>) {
    match picture {
        Some(found) => (true, seq![picture_quad(x, y, found, color, clut)]),
        None => (false, Seq::empty()),
    }
}

pub open spec fn width_of(picture: Option<GraphicsPicture>) -> int {
    match picture {
        Some(found) => found.width as int,
        None => 0,
    }
}

pub open spec fn height_of(picture: Option<GraphicsPicture>) -> int {
    match picture {
        Some(found) => found.height as int,
        None => 0,
    }
}

/// Draws nothing and fails when the picture is missing.
fn push_optional(list: &mut QuadList, x: i16, y: i16, picture: Option<GraphicsPicture>, color: Color) -> (there: bool)
    requires
        old(list).valid(),
    ensures
        there == picture_layout(picture, x as int, y as int, color, old(list).clut).0,
        final(list).extends(
            *old(list),
            picture_layout(picture, x as int, y as int, color, old(list).clut).1,
        ),
{
    match picture {
        Some(found) => {
            list.push_picture(x, y, found, color);
            true
        },
        None => {
            proof {
                appending_keeps_capacity(list.quads@, Seq::empty(), list.capacity as int);
            }
            false
        },
    }
}

/// Number pictures from digit `from` on, each at the right edge of the last.
pub open spec fn digit_layout(
    numbers: Seq<Option<GraphicsPicture>>,
    x: int,
    y: int,
    digits: Seq<u8>,
    from: int,
    color: Color,
    clut: u16,
) -> (bool, Seq<ScreenQuad>)
    decreases digits.len() - from,
{
    if from >= digits.len() {
        nothing()
    } else {
        let picture = numbers[digits[from] - 48];
        followed_by(
            picture_layout(picture, x, y, color, clut),
            digit_layout(numbers, x + width_of(picture), y, digits, from + 1, color, clut),
        )
    }
}

/// A number in picture digits, at most 999.
pub open spec fn number_layout(
    pictures: HudPictures,
    x: int,
    y: int,
    value: int,
    color: Color,
    clut: u16,
) -> (bool, Seq<ScreenQuad>) {
    digit_layout(
        pictures.numbers@,
        x,
        y,
        decimal_bytes((if value < 999 { value } else { 999 }) as nat),
        0,
        color,
        clut,
    )
}

pub fn push_big_u16(list: &mut QuadList, pictures: &HudPictures, x: i16, y: i16, value: u16, color: Color) -> (there: bool)
    requires
        old(list).valid(),
        pictures.valid(),
        number_fits(x as int),
    ensures
        there == number_layout(
            *pictures,
            x as int,
            y as int,
            value as int,
            color,
            old(list).clut,
        ).0,
        final(list).extends(
            *old(list),
            number_layout(*pictures, x as int, y as int, value as int, color, old(list).clut).1,
        ),
{
    let ghost before = *list;
    let shown: u16 = if value < 999 {
        value
    } else {
        999
    };
    let digits: Vec<u8> = fresh_digits(shown);
    let ghost whole = digit_layout(
        pictures.numbers@,
        x as int,
        y as int,
        digits@,
        0,
        color,
        before.clut,
    );
    let ghost mut drawn: Seq<ScreenQuad> = Seq::empty();
    let mut left: i16 = x;
    let mut index: usize = 0;
    proof {
        nothing_drawn(*list);
        decimal_width(shown as nat);
        assert(drawn + whole.1 =~= whole.1);
    }
    while index < digits.len()
        invariant
            index <= digits@.len() <= 3,
            pictures.valid(),
            before.valid(),
            forall|i: int| 0 <= i < digits@.len() ==> 48 <= #[trigger] digits@[i] <= 57,
            number_fits(x as int),
            x <= left <= x + 255 * index,
            list.extends(before, drawn),
            list.clut == before.clut,
            before == *old(list),
            whole == number_layout(*pictures, x as int, y as int, value as int, color, before.clut),
            ({
                let rest = digit_layout(
                    pictures.numbers@,
                    left as int,
                    y as int,
                    digits@,
                    index as int,
                    color,
                    before.clut,
                );
                whole.0 == rest.0 && whole.1 == drawn + rest.1
            }),
        decreases digits@.len() - index,
    {
        let picture: Option<GraphicsPicture> = pictures.numbers[(digits[index] - 48) as usize];
        let ghost middle = *list;
        let ghost rest = digit_layout(
            pictures.numbers@,
            left as int,
            y as int,
            digits@,
            index as int,
            color,
            before.clut,
        );
        let there: bool = push_optional(list, left, y, picture, color);
        let ghost more = picture_layout(picture, left as int, y as int, color, before.clut).1;
        proof {
            resume(before, middle, *list, drawn, more);
        }
        if !there {
            assert(rest.1 =~= more);
            return false;
        }
        if let Some(found) = picture {
            left = left + found.width as i16;
        }
        proof {
            let tail = digit_layout(
                pictures.numbers@,
                left as int,
                y as int,
                digits@,
                index + 1,
                color,
                before.clut,
            );
            assert(drawn + (more + tail.1) =~= (drawn + more) + tail.1);
            drawn = drawn + more;
        }
        index += 1;
    }
    assert(drawn + Seq::<ScreenQuad>::empty() =~= drawn);
    true
}

/// A number whose left edge is known, red when it is low.
pub open spec fn field_layout(pictures: HudPictures, x: int, y: int, value: int, red_value: int, clut: u16) -> (bool, Seq<ScreenQuad>) {
    number_layout(pictures, x, y, value, counter_color(value, red_value), clut)
}

pub fn push_big_field(list: &mut QuadList, pictures: &HudPictures, x: i16, y: i16, value: u16, red_value: u16) -> (there: bool)
    requires
        old(list).valid(),
        pictures.valid(),
        number_fits(x as int),
    ensures
        there == field_layout(
            *pictures,
            x as int,
            y as int,
            value as int,
            red_value as int,
            old(list).clut,
        ).0,
        final(list).extends(
            *old(list),
            field_layout(
                *pictures,
                x as int,
                y as int,
                value as int,
                red_value as int,
                old(list).clut,
            ).1,
        ),
{
    push_big_u16(list, pictures, x, y, value, counter_color_of(value, red_value))
}

/// An icon and its number. A number aligned to the right stands at `number_x`,
/// any other two pixels behind the icon.
pub open spec fn counter_layout(
    pictures: HudPictures,
    x: int,
    y: int,
    icon: GraphicsPicture,
    value: int,
    red_value: int,
    number_x: Option<i16>,
    clut: u16,
) -> (bool, Seq<ScreenQuad>) {
    let number = match number_x {
        Some(aligned) => aligned as int,
        None => x + icon.width + 2,
    };
    followed_by(
        (true, seq![picture_quad(x, y, icon, plain(), clut)]),
        if number_x is Some && pictures.numbers@[0] is None {
            (false, Seq::empty())
        } else {
            field_layout(pictures, number, y, value, red_value, clut)
        },
    )
}

pub fn push_counter(
    list: &mut QuadList,
    pictures: &HudPictures,
    x: i16,
    y: i16,
    icon: GraphicsPicture,
    value: u16,
    red_value: u16,
    number_x: Option<i16>,
) -> (there: bool)
    requires
        old(list).valid(),
        pictures.valid(),
        match number_x {
            Some(aligned) => number_fits(aligned as int),
            None => number_fits(x + icon.width + 2),
        },
    ensures
        there == counter_layout(
            *pictures,
            x as int,
            y as int,
            icon,
            value as int,
            red_value as int,
            number_x,
            old(list).clut,
        ).0,
        final(list).extends(
            *old(list),
            counter_layout(
                *pictures,
                x as int,
                y as int,
                icon,
                value as int,
                red_value as int,
                number_x,
                old(list).clut,
            ).1,
        ),
{
    let ghost before = *list;
    list.push_picture(x, y, icon, (0x80, 0x80, 0x80));
    let ghost drawn = seq![picture_quad(x as int, y as int, icon, plain(), before.clut)];
    let number: i16 = match number_x {
        Some(aligned) => {
            if pictures.numbers[0].is_none() {
                assert(drawn + Seq::<ScreenQuad>::empty() =~= drawn);
                return false;
            }
            aligned
        },
        None => x + icon.width as i16 + 2,
    };
    let ghost middle = *list;
    let there: bool = push_big_field(list, pictures, number, y, value, red_value);
    proof {
        resume(
            before,
            middle,
            *list,
            drawn,
            field_layout(
                *pictures,
                number as int,
                y as int,
                value as int,
                red_value as int,
                before.clut,
            ).1,
        );
    }
    there
}

/// Where piece `index` of the status bar goes.
pub open spec fn status_piece(index: int) -> (int, int) {
    if index < 3 {
        (128 * index, 216)
    } else if index == 3 {
        (0, 224)
    } else if index < 10 {
        (16 + 32 * (index - 4), 224)
    } else if index < 12 {
        (272 + 24 * (index - 10), 224)
    } else if index < 15 {
        (16 * (index - 12), 232)
    } else if index < 18 {
        (56 + 24 * (index - 15), 232)
    } else {
        (232 + 8 * (index - 18), 232)
    }
}

fn status_piece_of(index: usize) -> (place: (i16, i16))
    requires
        index < 29,
    ensures
        place.0 == status_piece(index as int).0,
        place.1 == status_piece(index as int).1,
{
    let i: i16 = index as i16;
    if i < 3 {
        (128 * i, 216)
    } else if i == 3 {
        (0, 224)
    } else if i < 10 {
        (16 + 32 * (i - 4), 224)
    } else if i < 12 {
        (272 + 24 * (i - 10), 224)
    } else if i < 15 {
        (16 * (i - 12), 232)
    } else if i < 18 {
        (56 + 24 * (i - 15), 232)
    } else {
        (232 + 8 * (i - 18), 232)
    }
}

/// The status bar from piece `from` on: exact crops, side by side.
pub open spec fn status_layout(pieces: Seq<Option<GraphicsPicture>>, from: int, clut: u16) -> (bool, Seq<ScreenQuad>)
    decreases 29 - from,
{
    if from >= 29 {
        nothing()
    } else {
        followed_by(
            match pieces[from] {
                Some(piece) => (
                    true,
                    seq![
                        clamped_picture_quad(
                            status_piece(from).0,
                            status_piece(from).1,
                            piece,
                            plain(),
                            clut,
                        ),
                    ],
                ),
                None => (false, Seq::empty()),
            },
            status_layout(pieces, from + 1, clut),
        )
    }
}

pub fn push_status_bar_background(list: &mut QuadList, pictures: &HudPictures) -> (there: bool)
    requires
        old(list).valid(),
        pictures.valid(),
    ensures
        there == status_layout(pictures.status_bar@, 0, old(list).clut).0,
        final(list).extends(
            *old(list),
            status_layout(pictures.status_bar@, 0, old(list).clut).1,
        ),
{
    let ghost before = *list;
    let ghost whole = status_layout(pictures.status_bar@, 0, before.clut);
    let ghost mut drawn: Seq<ScreenQuad> = Seq::empty();
    let mut index: usize = 0;
    proof {
        nothing_drawn(*list);
        assert(drawn + whole.1 =~= whole.1);
    }
    while index < 29
        invariant
            index <= 29,
            pictures.valid(),
            before.valid(),
            before == *old(list),
            list.extends(before, drawn),
            whole == status_layout(pictures.status_bar@, 0, before.clut),
            ({
                let rest = status_layout(pictures.status_bar@, index as int, before.clut);
                whole.0 == rest.0 && whole.1 == drawn + rest.1
            }),
        decreases 29 - index,
    {
        let ghost rest = status_layout(pictures.status_bar@, index as int, before.clut);
        let piece: GraphicsPicture = match pictures.status_bar[index] {
            Some(piece) => piece,
            None => {
                assert(drawn + rest.1 =~= drawn);
                return false;
            },
        };
        let (x, y) = status_piece_of(index);
        let ghost middle = *list;
        list.push_picture_edge_clamped(x, y, piece, (0x80, 0x80, 0x80));
        proof {
            let more = seq![clamped_picture_quad(x as int, y as int, piece, plain(), before.clut)];
            resume(before, middle, *list, drawn, more);
            let tail = status_layout(pictures.status_bar@, index + 1, before.clut);
            assert(drawn + (more + tail.1) =~= (drawn + more) + tail.1);
            drawn = drawn + more;
        }
        index += 1;
    }
    assert(drawn + Seq::<ScreenQuad>::empty() =~= drawn);
    true
}

/// The three parts of the inventory bar from part `from` on, side by side.
pub open spec fn bar_layout(bars: Seq<Option<GraphicsPicture>>, x: int, from: int, clut: u16) -> (bool, Seq<ScreenQuad>)
    decreases 3 - from,
{
    if from >= 3 {
        nothing()
    } else {
        followed_by(
            picture_layout(bars[from], x, 192, plain(), clut),
            bar_layout(bars, x + width_of(bars[from]), from + 1, clut),
        )
    }
}

/// The owned weapons from slot `from` on.
pub open spec fn weapons_layout(view: HudView, weapons: Seq<Option<GraphicsPicture>>, from: int, clut: u16) -> (bool, Seq<ScreenQuad>)
    decreases 7 - from,
{
    if from >= 7 {
        nothing()
    } else {
        followed_by(
            if view.owned_weapons@[from] {
                picture_layout(weapons[from], 24 * from, 200, plain(), clut)
            } else {
                nothing()
            },
            weapons_layout(view, weapons, from + 1, clut),
        )
    }
}

/// The ammunition totals from pool `from` on.
pub open spec fn pools_layout(view: HudView, from: int, clut: u16) -> (bool, Seq<ScreenQuad>)
    decreases 4 - from,
{
    if from >= 4 {
        nothing()
    } else {
        followed_by(
            (
                true,
                text_quads(
                    10 + 48 * from,
                    192,
                    inventory_bytes(view.ammo_pools@[from] as int),
                    plain(),
                    clut,
                ),
            ),
            pools_layout(view, from + 1, clut),
        )
    }
}

/// The keys held, each in its own place.
pub open spec fn strip_keys_layout(view: HudView, pictures: HudPictures, clut: u16) -> (bool, Seq<ScreenQuad>) {
    followed_by(
        if view.keys & 1 != 0 {
            picture_layout(pictures.keys@[0], 192, 200, plain(), clut)
        } else {
            nothing()
        },
        if view.keys & 2 != 0 {
            picture_layout(pictures.keys@[1], 208, 200, plain(), clut)
        } else {
            nothing()
        },
    )
}

/// The active powerups from `from` on.
pub open spec fn strip_powers_layout(view: HudView, powers: Seq<Option<GraphicsPicture>>, from: int, clut: u16) -> (bool, Seq<ScreenQuad>)
    decreases 4 - from,
{
    if from >= 4 {
        nothing()
    } else {
        followed_by(
            if view.power_seconds@[from] != 0 {
                picture_layout(powers[from], 224 + 16 * from, 200, plain(), clut)
            } else {
                nothing()
            },
            strip_powers_layout(view, powers, from + 1, clut),
        )
    }
}

/// The runes found from `from` on, at `x` and `step` pixels apart; a step of
/// zero means the width of the rune itself.
pub open spec fn runes_layout(
    view: HudView,
    runes: Seq<Option<GraphicsPicture>>,
    x: int,
    y: int,
    step: int,
    from: int,
    clut: u16,
) -> (bool, Seq<ScreenQuad>)
    decreases 4 - from,
{
    if from >= 4 {
        nothing()
    } else {
        let pitch = if step == 0 {
            width_of(runes[from])
        } else {
            step
        };
        followed_by(
            if view.runes & (1u8 << (from as u8)) != 0 {
                picture_layout(runes[from], x + from * pitch, y, plain(), clut)
            } else {
                nothing()
            },
            runes_layout(view, runes, x, y, step, from + 1, clut),
        )
    }
}

/// The inventory strip: bar, weapons, ammunition, keys, powerups and runes.
pub open spec fn strip_layout(view: HudView, pictures: HudPictures, clut: u16) -> (bool, Seq<ScreenQuad>) {
    followed_by(
        bar_layout(pictures.inventory_bar@, 0, 0, clut),
        followed_by(
            weapons_layout(view, pictures.weapons@, 0, clut),
            followed_by(
                pools_layout(view, 0, clut),
                followed_by(
                    strip_keys_layout(view, pictures, clut),
                    followed_by(
                        strip_powers_layout(view, pictures.powers@, 0, clut),
                        runes_layout(view, pictures.runes@, 288, 200, 8, 0, clut),
                    ),
                ),
            ),
        ),
    )
}

fn push_bar(list: &mut QuadList, pictures: &HudPictures) -> (there: bool)
    requires
        old(list).valid(),
        pictures.valid(),
    ensures
        there == bar_layout(pictures.inventory_bar@, 0, 0, old(list).clut).0,
        final(list).extends(
            *old(list),
            bar_layout(pictures.inventory_bar@, 0, 0, old(list).clut).1,
        ),
{
    let ghost before = *list;
    let ghost whole = bar_layout(pictures.inventory_bar@, 0, 0, before.clut);
    let ghost mut drawn: Seq<ScreenQuad> = Seq::empty();
    let mut x: i16 = 0;
    let mut index: usize = 0;
    proof {
        nothing_drawn(*list);
        assert(drawn + whole.1 =~= whole.1);
    }
    while index < 3
        invariant
            index <= 3,
            0 <= x <= 255 * index,
            pictures.valid(),
            before.valid(),
            before == *old(list),
            list.extends(before, drawn),
            whole == bar_layout(pictures.inventory_bar@, 0, 0, before.clut),
            ({
                let rest = bar_layout(pictures.inventory_bar@, x as int, index as int, before.clut);
                whole.0 == rest.0 && whole.1 == drawn + rest.1
            }),
        decreases 3 - index,
    {
        let ghost rest = bar_layout(
            pictures.inventory_bar@,
            x as int,
            index as int,
            before.clut,
        );
        let bar: Option<GraphicsPicture> = pictures.inventory_bar[index];
        let ghost middle = *list;
        let there: bool = push_optional(list, x, 192, bar, (0x80, 0x80, 0x80));
        let ghost more = picture_layout(bar, x as int, 192, plain(), before.clut).1;
        proof {
            resume(before, middle, *list, drawn, more);
        }
        if !there {
            assert(rest.1 =~= more);
            return false;
        }
        if let Some(found) = bar {
            x = x + found.width as i16;
        }
        proof {
            let tail = bar_layout(pictures.inventory_bar@, x as int, index + 1, before.clut);
            assert(drawn + (more + tail.1) =~= (drawn + more) + tail.1);
            drawn = drawn + more;
        }
        index += 1;
    }
    assert(drawn + Seq::<ScreenQuad>::empty() =~= drawn);
    true
}

fn push_weapons(list: &mut QuadList, pictures: &HudPictures, view: &HudView) -> (there: bool)
    requires
        old(list).valid(),
        pictures.valid(),
    ensures
        there == weapons_layout(*view, pictures.weapons@, 0, old(list).clut).0,
        final(list).extends(
            *old(list),
            weapons_layout(*view, pictures.weapons@, 0, old(list).clut).1,
        ),
{
    let ghost before = *list;
    let ghost whole = weapons_layout(*view, pictures.weapons@, 0, before.clut);
    let ghost mut drawn: Seq<ScreenQuad> = Seq::empty();
    let mut index: usize = 0;
    proof {
        nothing_drawn(*list);
        assert(drawn + whole.1 =~= whole.1);
    }
    while index < 7
        invariant
            index <= 7,
            pictures.valid(),
            before.valid(),
            before == *old(list),
            list.extends(before, drawn),
            whole == weapons_layout(*view, pictures.weapons@, 0, before.clut),
            ({
                let rest = weapons_layout(*view, pictures.weapons@, index as int, before.clut);
                whole.0 == rest.0 && whole.1 == drawn + rest.1
            }),
        decreases 7 - index,
    {
        let ghost rest = weapons_layout(*view, pictures.weapons@, index as int, before.clut);
        let ghost tail = weapons_layout(*view, pictures.weapons@, index + 1, before.clut);
        if view.owned_weapons[index] {
            let weapon: Option<GraphicsPicture> = pictures.weapons[index];
            let ghost middle = *list;
            let x: i16 = 24 * index as i16;
            let there: bool = push_optional(list, x, 200, weapon, (0x80, 0x80, 0x80));
            let ghost more = picture_layout(weapon, x as int, 200, plain(), before.clut).1;
            proof {
                resume(before, middle, *list, drawn, more);
            }
            if !there {
                assert(rest.1 =~= more);
                return false;
            }
            proof {
                assert(drawn + (more + tail.1) =~= (drawn + more) + tail.1);
                drawn = drawn + more;
            }
        } else {
            assert(Seq::<ScreenQuad>::empty() + tail.1 =~= tail.1);
        }
        index += 1;
    }
    assert(drawn + Seq::<ScreenQuad>::empty() =~= drawn);
    true
}

fn push_pools(list: &mut QuadList, view: &HudView)
    requires
        old(list).valid(),
    ensures
        pools_layout(*view, 0, old(list).clut).0,
        final(list).extends(*old(list), pools_layout(*view, 0, old(list).clut).1),
{
    let ghost before = *list;
    let ghost whole = pools_layout(*view, 0, before.clut);
    let ghost mut drawn: Seq<ScreenQuad> = Seq::empty();
    let mut index: usize = 0;
    proof {
        nothing_drawn(*list);
        assert(drawn + whole.1 =~= whole.1);
    }
    while index < 4
        invariant
            index <= 4,
            before.valid(),
            before == *old(list),
            list.extends(before, drawn),
            whole == pools_layout(*view, 0, before.clut),
            ({
                let rest = pools_layout(*view, index as int, before.clut);
                whole.0 == rest.0 && whole.1 == drawn + rest.1
            }),
        decreases 4 - index,
    {
        let ghost middle = *list;
        list.push_inventory_u16(10 + 48 * index as i16, 192, view.ammo_pools[index]);
        proof {
            let more = text_quads(
                10 + 48 * index,
                192,
                inventory_bytes(view.ammo_pools@[index as int] as int),
                plain(),
                before.clut,
            );
            resume(before, middle, *list, drawn, more);
            let tail = pools_layout(*view, index + 1, before.clut);
            assert(drawn + (more + tail.1) =~= (drawn + more) + tail.1);
            drawn = drawn + more;
        }
        index += 1;
    }
    assert(drawn + Seq::<ScreenQuad>::empty() =~= drawn);
}

fn push_strip_keys(list: &mut QuadList, pictures: &HudPictures, view: &HudView) -> (there: bool)
    requires
        old(list).valid(),
        pictures.valid(),
    ensures
        there == strip_keys_layout(*view, *pictures, old(list).clut).0,
        final(list).extends(*old(list), strip_keys_layout(*view, *pictures, old(list).clut).1),
{
    let ghost before = *list;
    let ghost mut drawn: Seq<ScreenQuad> = Seq::empty();
    proof {
        nothing_drawn(*list);
    }
    if view.keys & 1 != 0 {
        let first: bool = push_optional(list, 192, 200, pictures.keys[0], (0x80, 0x80, 0x80));
        proof {
            drawn = picture_layout(pictures.keys@[0], 192, 200, plain(), before.clut).1;
        }
        if !first {
            return false;
        }
    }
    if view.keys & 2 != 0 {
        let ghost middle = *list;
        let second: bool = push_optional(list, 208, 200, pictures.keys[1], (0x80, 0x80, 0x80));
        proof {
            resume(
                before,
                middle,
                *list,
                drawn,
                picture_layout(pictures.keys@[1], 208, 200, plain(), before.clut).1,
            );
        }
        return second;
    }
    assert(drawn + Seq::<ScreenQuad>::empty() =~= drawn);
    true
}

fn push_strip_powers(list: &mut QuadList, pictures: &HudPictures, view: &HudView) -> (there: bool)
    requires
        old(list).valid(),
        pictures.valid(),
    ensures
        there == strip_powers_layout(*view, pictures.powers@, 0, old(list).clut).0,
        final(list).extends(
            *old(list),
            strip_powers_layout(*view, pictures.powers@, 0, old(list).clut).1,
        ),
{
    let ghost before = *list;
    let ghost whole = strip_powers_layout(*view, pictures.powers@, 0, before.clut);
    let ghost mut drawn: Seq<ScreenQuad> = Seq::empty();
    let mut index: usize = 0;
    proof {
        nothing_drawn(*list);
        assert(drawn + whole.1 =~= whole.1);
    }
    while index < 4
        invariant
            index <= 4,
            pictures.valid(),
            before.valid(),
            before == *old(list),
            list.extends(before, drawn),
            whole == strip_powers_layout(*view, pictures.powers@, 0, before.clut),
            ({
                let rest = strip_powers_layout(*view, pictures.powers@, index as int, before.clut);
                whole.0 == rest.0 && whole.1 == drawn + rest.1
            }),
        decreases 4 - index,
    {
        let ghost rest = strip_powers_layout(*view, pictures.powers@, index as int, before.clut);
        let ghost tail = strip_powers_layout(*view, pictures.powers@, index + 1, before.clut);
        if view.power_seconds[index] != 0 {
            let power: Option<GraphicsPicture> = pictures.powers[index];
            let ghost middle = *list;
            let x: i16 = 224 + 16 * index as i16;
            let there: bool = push_optional(list, x, 200, power, (0x80, 0x80, 0x80));
            let ghost more = picture_layout(power, x as int, 200, plain(), before.clut).1;
            proof {
                resume(before, middle, *list, drawn, more);
            }
            if !there {
                assert(rest.1 =~= more);
                return false;
            }
            proof {
                assert(drawn + (more + tail.1) =~= (drawn + more) + tail.1);
                drawn = drawn + more;
            }
        } else {
            assert(Seq::<ScreenQuad>::empty() + tail.1 =~= tail.1);
        }
        index += 1;
    }
    assert(drawn + Seq::<ScreenQuad>::empty() =~= drawn);
    true
}

fn push_runes(list: &mut QuadList, pictures: &HudPictures, view: &HudView, x: i16, y: i16, step: i16) -> (there: bool)
    requires
        old(list).valid(),
        pictures.valid(),
        0 <= x <= 320,
        0 <= step <= 8,
    ensures
        there == runes_layout(
            *view,
            pictures.runes@,
            x as int,
            y as int,
            step as int,
            0,
            old(list).clut,
        ).0,
        final(list).extends(
            *old(list),
            runes_layout(
                *view,
                pictures.runes@,
                x as int,
                y as int,
                step as int,
                0,
                old(list).clut,
            ).1,
        ),
{
    let ghost before = *list;
    let ghost whole = runes_layout(
        *view,
        pictures.runes@,
        x as int,
        y as int,
        step as int,
        0,
        before.clut,
    );
    let ghost mut drawn: Seq<ScreenQuad> = Seq::empty();
    let mut index: usize = 0;
    proof {
        nothing_drawn(*list);
        assert(drawn + whole.1 =~= whole.1);
    }
    while index < 4
        invariant
            index <= 4,
            0 <= x <= 320,
            0 <= step <= 8,
            pictures.valid(),
            before.valid(),
            before == *old(list),
            list.extends(before, drawn),
            whole == runes_layout(
                *view,
                pictures.runes@,
                x as int,
                y as int,
                step as int,
                0,
                before.clut,
            ),
            ({
                let rest = runes_layout(
                    *view,
                    pictures.runes@,
                    x as int,
                    y as int,
                    step as int,
                    index as int,
                    before.clut,
                );
                whole.0 == rest.0 && whole.1 == drawn + rest.1
            }),
        decreases 4 - index,
    {
        let ghost rest = runes_layout(
            *view,
            pictures.runes@,
            x as int,
            y as int,
            step as int,
            index as int,
            before.clut,
        );
        let ghost tail = runes_layout(
            *view,
            pictures.runes@,
            x as int,
            y as int,
            step as int,
            index + 1,
            before.clut,
        );
        if view.runes & (1u8 << (index as u8)) != 0 {
            let rune: Option<GraphicsPicture> = pictures.runes[index];
            let pitch: i16 = if step == 0 {
                match rune {
                    Some(found) => found.width as i16,
                    None => 0,
                }
            } else {
                step
            };
            assert(0 <= index * pitch <= 765) by (nonlinear_arith)
                requires
                    0 <= index < 4,
                    0 <= pitch <= 255,
            ;
            let left: i16 = x + index as i16 * pitch;
            let ghost middle = *list;
            let there: bool = push_optional(list, left, y, rune, (0x80, 0x80, 0x80));
            let ghost more = picture_layout(rune, left as int, y as int, plain(), before.clut).1;
            proof {
                resume(before, middle, *list, drawn, more);
            }
            if !there {
                assert(rest.1 =~= more);
                return false;
            }
            proof {
                assert(drawn + (more + tail.1) =~= (drawn + more) + tail.1);
                drawn = drawn + more;
            }
        } else {
            assert(Seq::<ScreenQuad>::empty() + tail.1 =~= tail.1);
        }
        index += 1;
    }
    assert(drawn + Seq::<ScreenQuad>::empty() =~= drawn);
    true
}

/// Draw the inventory strip above the status bar.
pub fn push_inventory_strip(list: &mut QuadList, pictures: &HudPictures, view: &HudView) -> (there: bool)
    requires
        old(list).valid(),
        pictures.valid(),
    ensures
        there == strip_layout(*view, *pictures, old(list).clut).0,
        final(list).extends(*old(list), strip_layout(*view, *pictures, old(list).clut).1),
{
    let ghost before = *list;
    let ghost clut = before.clut;
    let ghost bar = bar_layout(pictures.inventory_bar@, 0, 0, clut).1;
    let ghost weapons = weapons_layout(*view, pictures.weapons@, 0, clut).1;
    let ghost pools = pools_layout(*view, 0, clut).1;
    let ghost keys = strip_keys_layout(*view, *pictures, clut).1;
    let ghost powers = strip_powers_layout(*view, pictures.powers@, 0, clut).1;
    let ghost runes = runes_layout(*view, pictures.runes@, 288, 200, 8, 0, clut).1;
    if !push_bar(list, pictures) {
        return false;
    }
    let ghost middle = *list;
    let armed: bool = push_weapons(list, pictures, view);
    proof {
        resume(before, middle, *list, bar, weapons);
    }
    if !armed {
        return false;
    }
    let ghost middle = *list;
    push_pools(list, view);
    proof {
        resume(before, middle, *list, bar + weapons, pools);
    }
    let ghost middle = *list;
    let keyed: bool = push_strip_keys(list, pictures, view);
    proof {
        resume(before, middle, *list, bar + weapons + pools, keys);
        assert(bar + weapons + pools + keys =~= bar + (weapons + (pools + keys)));
    }
    if !keyed {
        return false;
    }
    let ghost middle = *list;
    let powered: bool = push_strip_powers(list, pictures, view);
    proof {
        resume(before, middle, *list, bar + weapons + pools + keys, powers);
        assert(bar + weapons + pools + keys + powers =~= bar + (weapons + (pools + (keys
            + powers))));
    }
    if !powered {
        return false;
    }
    let ghost middle = *list;
    let there: bool = push_runes(list, pictures, view, 288, 200, 8);
    proof {
        resume(before, middle, *list, bar + weapons + pools + keys + powers, runes);
        assert(bar + weapons + pools + keys + powers + runes =~= bar + (weapons + (pools + (keys + (
        powers + runes)))));
    }
    there
}

/// A picture, if it is wanted, and the number that belongs to it.
pub open spec fn cluster_layout(
    pictures: HudPictures,
    wanted: bool,
    picture: Option<GraphicsPicture>,
    x: int,
    number_x: int,
    value: int,
    red_value: int,
    clut: u16,
) -> (bool, Seq<ScreenQuad>) {
    followed_by(
        if wanted {
            picture_layout(picture, x, 216, plain(), clut)
        } else {
            nothing()
        },
        field_layout(pictures, number_x, 216, value, red_value, clut),
    )
}

fn push_cluster(
    list: &mut QuadList,
    pictures: &HudPictures,
    wanted: bool,
    picture: Option<GraphicsPicture>,
    x: i16,
    number_x: i16,
    value: u16,
    red_value: u16,
) -> (there: bool)
    requires
        old(list).valid(),
        pictures.valid(),
        number_fits(number_x as int),
    ensures
        there == cluster_layout(
            *pictures,
            wanted,
            picture,
            x as int,
            number_x as int,
            value as int,
            red_value as int,
            old(list).clut,
        ).0,
        final(list).extends(
            *old(list),
            cluster_layout(
                *pictures,
                wanted,
                picture,
                x as int,
                number_x as int,
                value as int,
                red_value as int,
                old(list).clut,
            ).1,
        ),
{
    let ghost before = *list;
    let ghost mut drawn: Seq<ScreenQuad> = Seq::empty();
    proof {
        nothing_drawn(*list);
    }
    if wanted {
        let there: bool = push_optional(list, x, 216, picture, (0x80, 0x80, 0x80));
        proof {
            drawn = picture_layout(picture, x as int, 216, plain(), before.clut).1;
        }
        if !there {
            return false;
        }
    }
    let ghost middle = *list;
    let there: bool = push_big_field(list, pictures, number_x, 216, value, red_value);
    proof {
        resume(
            before,
            middle,
            *list,
            drawn,
            field_layout(
                *pictures,
                number_x as int,
                216,
                value as int,
                red_value as int,
                before.clut,
            ).1,
        );
    }
    there
}

/// Armor of the classic display.
pub open spec fn armor_layout(view: HudView, pictures: HudPictures, clut: u16) -> (bool, Seq<ScreenQuad>) {
    cluster_layout(
        pictures,
        view.has_armor,
        pictures.armor,
        0,
        view.armor_x as int,
        view.armor as int,
        25,
        clut,
    )
}

/// Face and health of the classic display.
pub open spec fn health_layout(view: HudView, pictures: HudPictures, clut: u16) -> (bool, Seq<ScreenQuad>) {
    cluster_layout(
        pictures,
        true,
        pictures.face,
        112,
        view.health_x as int,
        view.health as int,
        25,
        clut,
    )
}

/// Ammunition of the classic display, for weapons that have a picture for it.
pub open spec fn ammo_layout(view: HudView, pictures: HudPictures, clut: u16) -> (bool, Seq<ScreenQuad>) {
    if view.has_ammo_picture {
        cluster_layout(
            pictures,
            true,
            pictures.ammo,
            224,
            view.ammo_x as int,
            view.active_ammo as int,
            10,
            clut,
        )
    } else {
        nothing()
    }
}

/// The classic display: inventory strip, status bar, armor, health and ammo.
pub open spec fn classic_layout(view: HudView, pictures: HudPictures, clut: u16) -> (bool, Seq<ScreenQuad>) {
    followed_by(
        strip_layout(view, pictures, clut),
        followed_by(
            status_layout(pictures.status_bar@, 0, clut),
            followed_by(
                armor_layout(view, pictures, clut),
                followed_by(
                    health_layout(view, pictures, clut),
                    ammo_layout(view, pictures, clut),
                ),
            ),
        ),
    )
}

pub fn push_classic_hud(list: &mut QuadList, pictures: &HudPictures, view: &HudView) -> (there: bool)
    requires
        old(list).valid(),
        pictures.valid(),
        view.valid(),
    ensures
        there == classic_layout(*view, *pictures, old(list).clut).0,
        final(list).extends(*old(list), classic_layout(*view, *pictures, old(list).clut).1),
{
    let ghost before = *list;
    let ghost clut = before.clut;
    let ghost strip = strip_layout(*view, *pictures, clut).1;
    let ghost status = status_layout(pictures.status_bar@, 0, clut).1;
    let ghost armor = armor_layout(*view, *pictures, clut).1;
    let ghost health = health_layout(*view, *pictures, clut).1;
    let ghost ammo = ammo_layout(*view, *pictures, clut).1;
    if !push_inventory_strip(list, pictures, view) {
        return false;
    }
    let ghost middle = *list;
    let backed: bool = push_status_bar_background(list, pictures);
    proof {
        resume(before, middle, *list, strip, status);
    }
    if !backed {
        return false;
    }
    let ghost middle = *list;
    let armored: bool = push_cluster(
        list,
        pictures,
        view.has_armor,
        pictures.armor,
        0,
        view.armor_x,
        view.armor,
        25,
    );
    proof {
        resume(before, middle, *list, strip + status, armor);
        assert(strip + status + armor =~= strip + (status + armor));
    }
    if !armored {
        return false;
    }
    let ghost middle = *list;
    let healthy: bool = push_cluster(
        list,
        pictures,
        true,
        pictures.face,
        112,
        view.health_x,
        view.health,
        25,
    );
    proof {
        resume(before, middle, *list, strip + status + armor, health);
        assert(strip + status + armor + health =~= strip + (status + (armor + health)));
    }
    if !healthy {
        return false;
    }
    if !view.has_ammo_picture {
        assert(strip + (status + (armor + (health + ammo))) =~= strip + status + armor + health);
        return true;
    }
    let ghost middle = *list;
    let there: bool = push_cluster(
        list,
        pictures,
        true,
        pictures.ammo,
        224,
        view.ammo_x,
        view.active_ammo,
        10,
    );
    proof {
        resume(before, middle, *list, strip + status + armor + health, ammo);
        assert(strip + status + armor + health + ammo =~= strip + (status + (armor + (health
            + ammo))));
    }
    there
}

/// The keys held, the second one to the left of the first.
pub open spec fn minimal_keys_layout(view: HudView, pictures: HudPictures, clut: u16) -> (bool, Seq<ScreenQuad>) {
    let second_x = if view.keys & 1 != 0 {
        300 - width_of(pictures.keys@[0])
    } else {
        300
    };
    followed_by(
        if view.keys & 1 != 0 {
            picture_layout(pictures.keys@[0], 300, 192, plain(), clut)
        } else {
            nothing()
        },
        if view.keys & 2 != 0 {
            picture_layout(pictures.keys@[1], second_x, 192, plain(), clut)
        } else {
            nothing()
        },
    )
}

/// The active powerups from `from` on, each with its seconds, stacked upwards.
pub open spec fn minimal_powers_layout(
    view: HudView,
    powers: Seq<Option<GraphicsPicture>>,
    y: int,
    from: int,
    clut: u16,
) -> (bool, Seq<ScreenQuad>)
    decreases 4 - from,
{
    if from >= 4 {
        nothing()
    } else if view.power_seconds@[from] == 0 {
        minimal_powers_layout(view, powers, y, from + 1, clut)
    } else {
        followed_by(
            picture_layout(powers[from], 4, y, plain(), clut),
            followed_by(
                (
                    true,
                    shadowed_quads(
                        4 + width_of(powers[from]) + 2,
                        y + 4,
                        decimal_bytes(view.power_seconds@[from] as nat),
                        plain(),
                        clut,
                    ),
                ),
                minimal_powers_layout(view, powers, y - height_of(powers[from]), from + 1, clut),
            ),
        )
    }
}

/// An icon that may be missing and its number.
pub open spec fn icon_layout(
    pictures: HudPictures,
    x: int,
    y: int,
    icon: Option<GraphicsPicture>,
    value: int,
    red_value: int,
    number_x: Option<i16>,
    clut: u16,
) -> (bool, Seq<ScreenQuad>) {
    match icon {
        Some(found) => counter_layout(pictures, x, y, found, value, red_value, number_x, clut),
        None => (false, Seq::empty()),
    }
}

/// Health, armor and ammunition of the minimal display.
pub open spec fn counters_layout(view: HudView, pictures: HudPictures, clut: u16) -> (bool, Seq<ScreenQuad>) {
    followed_by(
        icon_layout(pictures, 4, 212, pictures.face, view.health as int, 25, None, clut),
        followed_by(
            icon_layout(pictures, 4, 184, pictures.armor, view.armor as int, 25, None, clut),
            if view.has_ammo_picture {
                icon_layout(
                    pictures,
                    292,
                    212,
                    pictures.ammo,
                    view.active_ammo as int,
                    10,
                    Some(view.minimal_ammo_x),
                    clut,
                )
            } else {
                nothing()
            },
        ),
    )
}

/// Keys, runes and powerups of the minimal display.
pub open spec fn trophies_layout(view: HudView, pictures: HudPictures, clut: u16) -> (bool, Seq<ScreenQuad>) {
    followed_by(
        minimal_keys_layout(view, pictures, clut),
        followed_by(
            runes_layout(view, pictures.runes@, 284, 176, 0, 0, clut),
            minimal_powers_layout(view, pictures.powers@, 164, 0, clut),
        ),
    )
}

/// The minimal display: separate clusters that leave the world visible.
pub open spec fn minimal_layout(view: HudView, pictures: HudPictures, clut: u16) -> (bool, Seq<ScreenQuad>) {
    followed_by(counters_layout(view, pictures, clut), trophies_layout(view, pictures, clut))
}

fn push_minimal_keys(list: &mut QuadList, pictures: &HudPictures, view: &HudView) -> (there: bool)
    requires
        old(list).valid(),
        pictures.valid(),
    ensures
        there == minimal_keys_layout(*view, *pictures, old(list).clut).0,
        final(list).extends(*old(list), minimal_keys_layout(*view, *pictures, old(list).clut).1),
{
    let ghost before = *list;
    let ghost mut drawn: Seq<ScreenQuad> = Seq::empty();
    let mut x: i16 = 300;
    proof {
        nothing_drawn(*list);
    }
    if view.keys & 1 != 0 {
        let key: Option<GraphicsPicture> = pictures.keys[0];
        let first: bool = push_optional(list, 300, 192, key, (0x80, 0x80, 0x80));
        proof {
            drawn = picture_layout(key, 300, 192, plain(), before.clut).1;
        }
        match key {
            Some(found) => {
                x = x - found.width as i16;
            },
            None => {
                return first;
            },
        }
    }
    if view.keys & 2 != 0 {
        let ghost middle = *list;
        let second: bool = push_optional(list, x, 192, pictures.keys[1], (0x80, 0x80, 0x80));
        proof {
            resume(
                before,
                middle,
                *list,
                drawn,
                picture_layout(pictures.keys@[1], x as int, 192, plain(), before.clut).1,
            );
        }
        return second;
    }
    assert(drawn + Seq::<ScreenQuad>::empty() =~= drawn);
    true
}

fn push_minimal_powers(list: &mut QuadList, pictures: &HudPictures, view: &HudView) -> (there: bool)
    requires
        old(list).valid(),
        pictures.valid(),
    ensures
        there == minimal_powers_layout(*view, pictures.powers@, 164, 0, old(list).clut).0,
        final(list).extends(
            *old(list),
            minimal_powers_layout(*view, pictures.powers@, 164, 0, old(list).clut).1,
        ),
{
    let ghost before = *list;
    let ghost whole = minimal_powers_layout(*view, pictures.powers@, 164, 0, before.clut);
    let ghost mut drawn: Seq<ScreenQuad> = Seq::empty();
    let mut y: i16 = 164;
    let mut index: usize = 0;
    proof {
        nothing_drawn(*list);
        assert(drawn + whole.1 =~= whole.1);
    }
    while index < 4
        invariant
            index <= 4,
            164 - 255 * index <= y <= 164,
            pictures.valid(),
            before.valid(),
            before == *old(list),
            list.extends(before, drawn),
            whole == minimal_powers_layout(*view, pictures.powers@, 164, 0, before.clut),
            ({
                let rest = minimal_powers_layout(
                    *view,
                    pictures.powers@,
                    y as int,
                    index as int,
                    before.clut,
                );
                whole.0 == rest.0 && whole.1 == drawn + rest.1
            }),
        decreases 4 - index,
    {
        let ghost rest = minimal_powers_layout(
            *view,
            pictures.powers@,
            y as int,
            index as int,
            before.clut,
        );
        let seconds: u8 = view.power_seconds[index];
        if seconds != 0 {
            let power: GraphicsPicture = match pictures.powers[index] {
                Some(power) => power,
                None => {
                    assert(drawn + rest.1 =~= drawn);
                    return false;
                },
            };
            let ghost middle = *list;
            list.push_picture(4, y, power, (0x80, 0x80, 0x80));
            let ghost icon = seq![picture_quad(4, y as int, power, plain(), before.clut)];
            proof {
                resume(before, middle, *list, drawn, icon);
            }
            let ghost middle = *list;
            list.push_shadowed_u16(
                4 + power.width as i16 + 2,
                y + 4,
                seconds as u16,
                (0x80, 0x80, 0x80),
            );
            let ghost number = shadowed_quads(
                4 + power.width + 2,
                y + 4,
                decimal_bytes(seconds as nat),
                plain(),
                before.clut,
            );
            proof {
                resume(before, middle, *list, drawn + icon, number);
            }
            y = y - power.height as i16;
            proof {
                let tail = minimal_powers_layout(
                    *view,
                    pictures.powers@,
                    y as int,
                    index + 1,
                    before.clut,
                );
                assert(drawn + (icon + (number + tail.1)) =~= drawn + icon + number + tail.1);
                drawn = drawn + icon + number;
            }
        }
        index += 1;
    }
    assert(drawn + Seq::<ScreenQuad>::empty() =~= drawn);
    true
}

fn push_icon_counter(
    list: &mut QuadList,
    pictures: &HudPictures,
    x: i16,
    y: i16,
    icon: Option<GraphicsPicture>,
    value: u16,
    red_value: u16,
    number_x: Option<i16>,
) -> (there: bool)
    requires
        old(list).valid(),
        pictures.valid(),
        icon matches Some(found) ==> match number_x {
            Some(aligned) => number_fits(aligned as int),
            None => number_fits(x + found.width + 2),
        },
    ensures
        there == icon_layout(
            *pictures,
            x as int,
            y as int,
            icon,
            value as int,
            red_value as int,
            number_x,
            old(list).clut,
        ).0,
        final(list).extends(
            *old(list),
            icon_layout(
                *pictures,
                x as int,
                y as int,
                icon,
                value as int,
                red_value as int,
                number_x,
                old(list).clut,
            ).1,
        ),
{
    match icon {
        Some(found) => push_counter(list, pictures, x, y, found, value, red_value, number_x),
        None => {
            proof {
                nothing_drawn(*list);
            }
            false
        },
    }
}

fn push_counters(list: &mut QuadList, pictures: &HudPictures, view: &HudView) -> (there: bool)
    requires
        old(list).valid(),
        pictures.valid(),
        view.valid(),
    ensures
        there == counters_layout(*view, *pictures, old(list).clut).0,
        final(list).extends(*old(list), counters_layout(*view, *pictures, old(list).clut).1),
{
    let ghost before = *list;
    let ghost clut = before.clut;
    let ghost health = icon_layout(
        *pictures,
        4,
        212,
        pictures.face,
        view.health as int,
        25,
        None,
        clut,
    ).1;
    let ghost armor = icon_layout(
        *pictures,
        4,
        184,
        pictures.armor,
        view.armor as int,
        25,
        None,
        clut,
    ).1;
    if !push_icon_counter(list, pictures, 4, 212, pictures.face, view.health, 25, None) {
        return false;
    }
    let ghost middle = *list;
    let armored: bool = push_icon_counter(
        list,
        pictures,
        4,
        184,
        pictures.armor,
        view.armor,
        25,
        None,
    );
    proof {
        resume(before, middle, *list, health, armor);
    }
    if !armored {
        return false;
    }
    if !view.has_ammo_picture {
        assert(health + (armor + Seq::<ScreenQuad>::empty()) =~= health + armor);
        return true;
    }
    let ghost middle = *list;
    let there: bool = push_icon_counter(
        list,
        pictures,
        292,
        212,
        pictures.ammo,
        view.active_ammo,
        10,
        Some(view.minimal_ammo_x),
    );
    proof {
        let ammo = icon_layout(
            *pictures,
            292,
            212,
            pictures.ammo,
            view.active_ammo as int,
            10,
            Some(view.minimal_ammo_x),
            clut,
        ).1;
        resume(before, middle, *list, health + armor, ammo);
        assert(health + armor + ammo =~= health + (armor + ammo));
    }
    there
}

fn push_trophies(list: &mut QuadList, pictures: &HudPictures, view: &HudView) -> (there: bool)
    requires
        old(list).valid(),
        pictures.valid(),
    ensures
        there == trophies_layout(*view, *pictures, old(list).clut).0,
        final(list).extends(*old(list), trophies_layout(*view, *pictures, old(list).clut).1),
{
    let ghost before = *list;
    let ghost clut = before.clut;
    let ghost keys = minimal_keys_layout(*view, *pictures, clut).1;
    let ghost runes = runes_layout(*view, pictures.runes@, 284, 176, 0, 0, clut).1;
    let ghost powers = minimal_powers_layout(*view, pictures.powers@, 164, 0, clut).1;
    if !push_minimal_keys(list, pictures, view) {
        return false;
    }
    let ghost middle = *list;
    let marked: bool = push_runes(list, pictures, view, 284, 176, 0);
    proof {
        resume(before, middle, *list, keys, runes);
    }
    if !marked {
        return false;
    }
    let ghost middle = *list;
    let there: bool = push_minimal_powers(list, pictures, view);
    proof {
        resume(before, middle, *list, keys + runes, powers);
        assert(keys + runes + powers =~= keys + (runes + powers));
    }
    there
}

pub fn push_minimal_hud(list: &mut QuadList, pictures: &HudPictures, view: &HudView) -> (there: bool)
    requires
        old(list).valid(),
        pictures.valid(),
        view.valid(),
    ensures
        there == minimal_layout(*view, *pictures, old(list).clut).0,
        final(list).extends(*old(list), minimal_layout(*view, *pictures, old(list).clut).1),
{
    let ghost before = *list;
    if !push_counters(list, pictures, view) {
        return false;
    }
    let ghost middle = *list;
    let there: bool = push_trophies(list, pictures, view);
    proof {
        resume(
            before,
            middle,
            *list,
            counters_layout(*view, *pictures, before.clut).1,
            trophies_layout(*view, *pictures, before.clut).1,
        );
    }
    there
}

/// Colour of the health line of the text display.
pub open spec fn text_health_color(health: int) -> Color {
    if health <= 25 {
        (0x80, 0x28, 0x28)
    } else {
        (0x80, 0x72, 0x58)
    }
}

pub open spec fn armor_text_color() -> Color {
    (0x48, 0x68, 0x80)
}

pub open spec fn weapon_text_color() -> Color {
    (0x80, 0x64, 0x38)
}

pub open spec fn key_text_color() -> Color {
    (0x70, 0x70, 0x38)
}

pub open spec fn power_text_color(seconds: int) -> Color {
    if seconds <= POWERUP_WARNING_SECONDS {
        (0x80, 0x28, 0x28)
    } else {
        (0x80, 0x50, 0x80)
    }
}

/// The powerups from `from` on, in columns from `column` on.
pub open spec fn powerup_text(powerups: Seq<PowerupText>, column: int, from: int, clut: u16) -> Seq<ScreenQuad>
    decreases powerups.len() - from,
{
    if from >= powerups.len() {
        Seq::empty()
    } else if powerups[from].seconds == 0 {
        powerup_text(powerups, column, from + 1, clut)
    } else {
        let color = power_text_color(powerups[from].seconds as int);
        shadowed_quads(column, 206, powerups[from].label.spec_bytes(), color, clut)
            + shadowed_quads(
            column + 40,
            206,
            decimal_bytes(powerups[from].seconds as nat),
            color,
            clut,
        ) + powerup_text(powerups, column + 72, from + 1, clut)
    }
}

/// Weapon and ammunition of the text display.
pub open spec fn weapon_text(view: HudView, clut: u16) -> Seq<ScreenQuad> {
    let color = weapon_text_color();
    if view.uses_ammo {
        shadowed_quads(208, 210, view.weapon_label.spec_bytes(), color, clut) + shadowed_quads(
            208,
            220,
            view.ammo_label.spec_bytes(),
            color,
            clut,
        ) + shadowed_quads(208, 230, decimal_bytes(view.active_ammo as nat), color, clut)
    } else {
        shadowed_quads(208, 220, view.weapon_label.spec_bytes(), color, clut)
    }
}

/// Keys of the text display.
pub open spec fn key_text(view: HudView, clut: u16) -> Seq<ScreenQuad> {
    let first = if view.keys & 1 != 0 {
        shadowed_quads(272, 220, "K1".spec_bytes(), key_text_color(), clut)
    } else {
        Seq::empty()
    };
    let second = if view.keys & 2 != 0 {
        shadowed_quads(296, 220, "K2".spec_bytes(), key_text_color(), clut)
    } else {
        Seq::empty()
    };
    first + second
}

/// The text display, for when pictures are missing.
pub open spec fn text_layout(view: HudView, clut: u16) -> Seq<ScreenQuad> {
    let health = text_health_color(view.health as int);
    shadowed_quads(8, 220, "HEALTH".spec_bytes(), health, clut) + shadowed_quads(
        8,
        230,
        decimal_bytes(view.health as nat),
        health,
        clut,
    ) + shadowed_quads(112, 220, "ARMOR".spec_bytes(), armor_text_color(), clut) + shadowed_quads(
        112,
        230,
        decimal_bytes(view.armor as nat),
        armor_text_color(),
        clut,
    ) + weapon_text(view, clut) + key_text(view, clut) + powerup_text(view.powerups@, 8, 0, clut)
}

fn push_weapon_text(list: &mut QuadList, view: &HudView)
    requires
        old(list).valid(),
    ensures
        final(list).extends(*old(list), weapon_text(*view, old(list).clut)),
{
    let ghost before = *list;
    let ghost clut = before.clut;
    let color: Color = (0x80, 0x64, 0x38);
    if view.uses_ammo {
        list.push_shadowed_text(208, 210, view.weapon_label, color);
        let ghost a = shadowed_quads(208, 210, view.weapon_label.spec_bytes(), color, clut);
        let ghost middle = *list;
        list.push_shadowed_text(208, 220, view.ammo_label, color);
        let ghost b = shadowed_quads(208, 220, view.ammo_label.spec_bytes(), color, clut);
        proof {
            resume(before, middle, *list, a, b);
        }
        let ghost middle = *list;
        list.push_shadowed_u16(208, 230, view.active_ammo, color);
        proof {
            let c = shadowed_quads(208, 230, decimal_bytes(view.active_ammo as nat), color, clut);
            resume(before, middle, *list, a + b, c);
        }
    } else {
        list.push_shadowed_text(208, 220, view.weapon_label, color);
    }
}

fn push_key_text(list: &mut QuadList, view: &HudView)
    requires
        old(list).valid(),
    ensures
        final(list).extends(*old(list), key_text(*view, old(list).clut)),
{
    let ghost before = *list;
    let ghost mut drawn: Seq<ScreenQuad> = Seq::empty();
    proof {
        nothing_drawn(*list);
    }
    if view.keys & 1 != 0 {
        list.push_shadowed_text(272, 220, "K1", (0x70, 0x70, 0x38));
        proof {
            drawn = shadowed_quads(272, 220, "K1".spec_bytes(), key_text_color(), before.clut);
        }
    }
    if view.keys & 2 != 0 {
        let ghost middle = *list;
        list.push_shadowed_text(296, 220, "K2", (0x70, 0x70, 0x38));
        proof {
            resume(
                before,
                middle,
                *list,
                drawn,
                shadowed_quads(296, 220, "K2".spec_bytes(), key_text_color(), before.clut),
            );
        }
    } else {
        assert(drawn + Seq::<ScreenQuad>::empty() =~= drawn);
    }
}

fn push_powerup_text(list: &mut QuadList, view: &HudView)
    requires
        old(list).valid(),
        view.valid(),
    ensures
        final(list).extends(*old(list), powerup_text(view.powerups@, 8, 0, old(list).clut)),
{
    let ghost before = *list;
    let ghost whole = powerup_text(view.powerups@, 8, 0, before.clut);
    let ghost mut drawn: Seq<ScreenQuad> = Seq::empty();
    let mut column: i16 = 8;
    let mut index: usize = 0;
    proof {
        nothing_drawn(*list);
        assert(drawn + whole =~= whole);
    }
    while index < view.powerups.len()
        invariant
            index <= view.powerups@.len() <= 4,
            8 <= column <= 8 + 72 * index,
            before.valid(),
            list.extends(before, drawn),
            whole == drawn + powerup_text(
                view.powerups@,
                column as int,
                index as int,
                before.clut,
            ),
        decreases view.powerups@.len() - index,
    {
        let powerup: PowerupText = view.powerups[index];
        if powerup.seconds != 0 {
            let color: Color = if powerup.seconds <= POWERUP_WARNING_SECONDS {
                (0x80, 0x28, 0x28)
            } else {
                (0x80, 0x50, 0x80)
            };
            let ghost middle = *list;
            list.push_shadowed_text(column, 206, powerup.label, color);
            let ghost a = shadowed_quads(
                column as int,
                206,
                powerup.label.spec_bytes(),
                color,
                before.clut,
            );
            proof {
                resume(before, middle, *list, drawn, a);
            }
            let ghost middle = *list;
            list.push_shadowed_u16(column + 40, 206, powerup.seconds as u16, color);
            proof {
                let b = shadowed_quads(
                    column + 40,
                    206,
                    decimal_bytes(powerup.seconds as nat),
                    color,
                    before.clut,
                );
                resume(before, middle, *list, drawn + a, b);
                let tail = powerup_text(view.powerups@, column + 72, index + 1, before.clut);
                assert(drawn + (a + b + tail) =~= drawn + a + b + tail);
                drawn = drawn + a + b;
            }
            column += 72;
        }
        index += 1;
    }
    assert(drawn + Seq::<ScreenQuad>::empty() =~= drawn);
}

pub fn push_text_hud(list: &mut QuadList, view: &HudView)
    requires
        old(list).valid(),
        view.valid(),
    ensures
        final(list).extends(*old(list), text_layout(*view, old(list).clut)),
{
    let ghost before = *list;
    let ghost clut = before.clut;
    let health: Color = if view.health <= 25 {
        (0x80, 0x28, 0x28)
    } else {
        (0x80, 0x72, 0x58)
    };
    list.push_shadowed_text(8, 220, "HEALTH", health);
    let ghost mut drawn = shadowed_quads(8, 220, "HEALTH".spec_bytes(), health, clut);
    let ghost middle = *list;
    list.push_shadowed_u16(8, 230, view.health, health);
    proof {
        let more = shadowed_quads(8, 230, decimal_bytes(view.health as nat), health, clut);
        resume(before, middle, *list, drawn, more);
        drawn = drawn + more;
    }
    let ghost middle = *list;
    list.push_shadowed_text(112, 220, "ARMOR", (0x48, 0x68, 0x80));
    proof {
        let more = shadowed_quads(112, 220, "ARMOR".spec_bytes(), armor_text_color(), clut);
        resume(before, middle, *list, drawn, more);
        drawn = drawn + more;
    }
    let ghost middle = *list;
    list.push_shadowed_u16(112, 230, view.armor, (0x48, 0x68, 0x80));
    proof {
        let more = shadowed_quads(
            112,
            230,
            decimal_bytes(view.armor as nat),
            armor_text_color(),
            clut,
        );
        resume(before, middle, *list, drawn, more);
        drawn = drawn + more;
    }
    let ghost middle = *list;
    push_weapon_text(list, view);
    proof {
        resume(before, middle, *list, drawn, weapon_text(*view, clut));
        drawn = drawn + weapon_text(*view, clut);
    }
    let ghost middle = *list;
    push_key_text(list, view);
    proof {
        resume(before, middle, *list, drawn, key_text(*view, clut));
        drawn = drawn + key_text(*view, clut);
    }
    let ghost middle = *list;
    push_powerup_text(list, view);
    proof {
        resume(before, middle, *list, drawn, powerup_text(view.powerups@, 8, 0, clut));
    }
}

/// The display in the chosen form.
pub open spec fn graphical_layout(mode: HudMode, view: HudView, pictures: HudPictures, clut: u16) -> (bool, Seq<ScreenQuad>) {
    match mode {
        HudMode::Minimal => minimal_layout(view, pictures, clut),
        HudMode::Classic => classic_layout(view, pictures, clut),
    }
}

/// What is shown: the chosen form, or text when a picture of it is missing.
pub open spec fn hud_layout(mode: HudMode, view: HudView, pictures: HudPictures, clut: u16) -> Seq<ScreenQuad> {
    if graphical_layout(mode, view, pictures, clut).0 {
        graphical_layout(mode, view, pictures, clut).1
    } else {
        text_layout(view, clut)
    }
}

/// Lay out the display; `true` when it is made of pictures.
pub fn draw_hud(list: &mut QuadList, mode: HudMode, pictures: &HudPictures, view: &HudView) -> (graphical: bool)
    requires
        pictures.valid(),
        view.valid(),
    ensures
        graphical == graphical_layout(mode, *view, *pictures, old(list).clut).0,
        final(list).valid(),
        final(list).same_frame(*old(list)),
        final(list).quads@ == crate::screen::appended(
            Seq::empty(),
            hud_layout(mode, *view, *pictures, old(list).clut),
            old(list).capacity as int,
        ),
{
    list.clear();
    assert(list.quads@ =~= Seq::empty());
    let graphical: bool = match mode {
        HudMode::Minimal => push_minimal_hud(list, pictures, view),
        HudMode::Classic => push_classic_hud(list, pictures, view),
    };
    if !graphical {
        list.clear();
        assert(list.quads@ =~= Seq::empty());
        push_text_hud(list, view);
    }
    graphical
}

/// An untextured rectangle on the screen.
#[derive(Copy, Clone, Debug, PartialEq, Eq, Structural)]
pub struct ScreenRect {
    pub x: i16,
    pub y: i16,
    pub width: u16,
    pub height: u16,
    pub red: u8,
    pub green: u8,
    pub blue: u8,
}

/// The crosshair: four short bars around the centre of the screen.
pub fn crosshair_packets() -> (bars: [ScreenRect; 4])
    ensures
        bars@ == seq![
            ScreenRect { x: 159, y: 118, width: 2, height: 1, red: 0x80, green: 0x80, blue: 0x80 },
            ScreenRect { x: 159, y: 121, width: 2, height: 1, red: 0x80, green: 0x80, blue: 0x80 },
            ScreenRect { x: 158, y: 119, width: 1, height: 2, red: 0x80, green: 0x80, blue: 0x80 },
            ScreenRect { x: 161, y: 119, width: 1, height: 2, red: 0x80, green: 0x80, blue: 0x80 },
        ],
{
    [
        ScreenRect { x: 159, y: 118, width: 2, height: 1, red: 0x80, green: 0x80, blue: 0x80 },
        ScreenRect { x: 159, y: 121, width: 2, height: 1, red: 0x80, green: 0x80, blue: 0x80 },
        ScreenRect { x: 158, y: 119, width: 1, height: 2, red: 0x80, green: 0x80, blue: 0x80 },
        ScreenRect { x: 161, y: 119, width: 1, height: 2, red: 0x80, green: 0x80, blue: 0x80 },
    ]
}

/// Quads that are drawn only under a condition.
pub open spec fn drawn_if(condition: bool, quads: Seq<ScreenQuad>) -> Seq<ScreenQuad> {
    if condition {
        quads
    } else {
        Seq::empty()
    }
}

/// A picture in its own colours with its left upper corner at a place.
pub open spec fn picture_at(picture: Option<GraphicsPicture>, x: int, y: int, clut: u16) -> Seq<ScreenQuad> {
    seq![picture_quad(x, y, picture->0, (0x80, 0x80, 0x80), clut)]
}

/// Every picture of the display is resident.
pub open spec fn all_there(pictures: HudPictures) -> bool {
    &&& pictures.valid()
    &&& pictures.armor is Some && pictures.face is Some && pictures.ammo is Some
    &&& forall|i: int| 0 <= i < 10 ==> #[trigger] pictures.numbers@[i] is Some
    &&& forall|i: int| 0 <= i < 3 ==> #[trigger] pictures.inventory_bar@[i] is Some
    &&& forall|i: int| 0 <= i < 7 ==> #[trigger] pictures.weapons@[i] is Some
    &&& forall|i: int| 0 <= i < 29 ==> #[trigger] pictures.status_bar@[i] is Some
    &&& forall|i: int| 0 <= i < 2 ==> #[trigger] pictures.keys@[i] is Some
    &&& forall|i: int| 0 <= i < 4 ==> #[trigger] pictures.powers@[i] is Some
    &&& forall|i: int| 0 <= i < 4 ==> #[trigger] pictures.runes@[i] is Some
}

/// The digits of a number, hundreds first and none before the first that
/// counts, each at the right edge of the one before it.
pub open spec fn big_number(
    numbers: Seq<Option<GraphicsPicture>>,
    x: int,
    y: int,
    value: int,
    red: bool,
    clut: u16,
) -> Seq<ScreenQuad> {
    let color: Color = if red {
        (0x80, 0, 0)
    } else {
        (0x80, 0x80, 0x80)
    };
    let hundreds = numbers[value / 100]->0;
    let tens = numbers[value / 10 % 10]->0;
    let ones = numbers[value % 10]->0;
    if value >= 100 {
        seq![
            picture_quad(x, y, hundreds, color, clut),
            picture_quad(x + hundreds.width, y, tens, color, clut),
            picture_quad(x + hundreds.width + tens.width, y, ones, color, clut),
        ]
    } else if value >= 10 {
        seq![
            picture_quad(x, y, tens, color, clut),
            picture_quad(x + tens.width, y, ones, color, clut),
        ]
    } else {
        seq![picture_quad(x, y, ones, color, clut)]
    }
}

/// A number is drawn digit by digit, at most 999, and is red exactly when it is
/// no more than the value that warns.
pub proof fn numbers_show_their_digits(
    pictures: HudPictures,
    x: int,
    y: int,
    value: int,
    red_value: int,
    clut: u16,
)
    requires
        all_there(pictures),
        value >= 0,
    ensures
        field_layout(pictures, x, y, value, red_value, clut) == (
            true,
            big_number(
                pictures.numbers@,
                x,
                y,
                if value < 999 {
                    value
                } else {
                    999
                },
                value <= red_value,
                clut,
            ),
        ),
{
    let shown = if value < 999 {
        value
    } else {
        999
    };
    let digits = decimal_bytes(shown as nat);
    reveal_with_fuel(decimal_bytes, 4);
    reveal_with_fuel(digit_layout, 4);
    let layout = field_layout(pictures, x, y, value, red_value, clut);
    if shown < 10 {
        assert(digits =~= seq![(48 + shown) as u8]);
    } else if shown < 100 {
        assert(digits =~= seq![(48 + shown / 10) as u8, (48 + shown % 10) as u8]);
    } else {
        assert(digits =~= seq![
            (48 + shown / 100) as u8,
            (48 + shown / 10 % 10) as u8,
            (48 + shown % 10) as u8,
        ]);
    }
    assert(layout.1 =~= big_number(pictures.numbers@, x, y, shown, value <= red_value, clut));
}

/// Where a picture lies in its texture page.
pub open spec fn texels_of(picture: Option<GraphicsPicture>) -> (u8, u8) {
    (picture->0.u, picture->0.v)
}

/// The ten digits are told apart by where they lie in the texture.
pub open spec fn digits_differ(numbers: Seq<Option<GraphicsPicture>>) -> bool {
    forall|i: int, j: int|
        0 <= i < 10 && 0 <= j < 10 && #[trigger] texels_of(numbers[i]) == #[trigger] texels_of(
            numbers[j],
        ) ==> i == j
}

/// Digit `place` of a number, the ones first.
pub open spec fn digit_at(value: int, place: int) -> int {
    if place == 0 {
        value % 10
    } else if place == 1 {
        value / 10 % 10
    } else {
        value / 100
    }
}

proof fn digits_stand_from_the_right(
    numbers: Seq<Option<GraphicsPicture>>,
    x: int,
    y: int,
    value: int,
    red: bool,
    clut: u16,
    place: int,
)
    requires
        0 <= value <= 999,
        0 <= place < 3,
    ensures
        ({
            let quads = big_number(numbers, x, y, value, red, clut);
            &&& quads.len() == (if value >= 100 {
                3nat
            } else if value >= 10 {
                2
            } else {
                1
            })
            &&& place < quads.len() ==> (
                quads[quads.len() - 1 - place].u0,
                quads[quads.len() - 1 - place].v0,
            ) == texels_of(numbers[digit_at(value, place)])
        }),
{
}

proof fn digits_make_the_number(value: int, other: int)
    requires
        0 <= value <= 999,
        0 <= other <= 999,
        digit_at(value, 0) == digit_at(other, 0),
        digit_at(value, 1) == digit_at(other, 1),
        digit_at(value, 2) == digit_at(other, 2),
    ensures
        value == other,
{
}

/// Two numbers up to 999 that differ are drawn differently, where the ten
/// digits can be told apart.
#[verifier::spinoff_prover]
#[verifier::rlimit(60)]
pub proof fn numbers_can_be_told_apart(
    numbers: Seq<Option<GraphicsPicture>>,
    x: int,
    y: int,
    value: int,
    other: int,
    red: bool,
    other_red: bool,
    clut: u16,
)
    requires
        digits_differ(numbers),
        0 <= value <= 999,
        0 <= other <= 999,
        value != other,
    ensures
        big_number(numbers, x, y, value, red, clut) != big_number(
            numbers,
            x,
            y,
            other,
            other_red,
            clut,
        ),
{
    let a = big_number(numbers, x, y, value, red, clut);
    let b = big_number(numbers, x, y, other, other_red, clut);
    if a == b {
        assert forall|place: int| 0 <= place < 3 implies #[trigger] digit_at(value, place)
            == digit_at(other, place) by {
            digits_stand_from_the_right(numbers, x, y, value, red, clut, place);
            digits_stand_from_the_right(numbers, x, y, other, other_red, clut, place);
            if place < a.len() {
                assert(texels_of(numbers[digit_at(value, place)]) == texels_of(
                    numbers[digit_at(other, place)],
                ));
            }
        }
        digits_make_the_number(value, other);
    }
}

/// Four lists in a row can be grouped from either end.
proof fn grouped4(a: Seq<ScreenQuad>, b: Seq<ScreenQuad>, c: Seq<ScreenQuad>, d: Seq<ScreenQuad>)
    ensures
        a + (b + (c + d)) == a + b + c + d,
{
    assert(a + (b + (c + d)) =~= a + b + c + d);
}

/// Six lists in a row can be grouped from either end.
proof fn grouped6(
    a: Seq<ScreenQuad>,
    b: Seq<ScreenQuad>,
    c: Seq<ScreenQuad>,
    d: Seq<ScreenQuad>,
    e: Seq<ScreenQuad>,
    f: Seq<ScreenQuad>,
)
    ensures
        a + (b + (c + (d + (e + f)))) == a + b + c + d + e + f,
{
    assert(a + (b + (c + (d + (e + f)))) =~= a + b + c + d + e + f);
}

/// Seven lists in a row can be grouped from either end.
proof fn grouped7(
    a: Seq<ScreenQuad>,
    b: Seq<ScreenQuad>,
    c: Seq<ScreenQuad>,
    d: Seq<ScreenQuad>,
    e: Seq<ScreenQuad>,
    f: Seq<ScreenQuad>,
    g: Seq<ScreenQuad>,
)
    ensures
        a + (b + (c + (d + (e + (f + g))))) == a + b + c + d + e + f + g,
{
    grouped6(a, b, c, d, e, f + g);
    assert(a + b + c + d + e + (f + g) =~= a + b + c + d + e + f + g);
}

/// The owned weapons show in their own slots, 24 pixels apart.
pub proof fn weapons_show_in_their_slots(view: HudView, pictures: HudPictures, clut: u16)
    requires
        all_there(pictures),
    ensures
        weapons_layout(view, pictures.weapons@, 0, clut) == (
            true,
            drawn_if(view.owned_weapons@[0], picture_at(pictures.weapons@[0], 0, 200, clut))
                + drawn_if(view.owned_weapons@[1], picture_at(pictures.weapons@[1], 24, 200, clut))
                + drawn_if(view.owned_weapons@[2], picture_at(pictures.weapons@[2], 48, 200, clut))
                + drawn_if(view.owned_weapons@[3], picture_at(pictures.weapons@[3], 72, 200, clut))
                + drawn_if(view.owned_weapons@[4], picture_at(pictures.weapons@[4], 96, 200, clut))
                + drawn_if(view.owned_weapons@[5], picture_at(pictures.weapons@[5], 120, 200, clut))
                + drawn_if(view.owned_weapons@[6], picture_at(pictures.weapons@[6], 144, 200, clut)),
        ),
{
    assert(weapons_layout(view, pictures.weapons@, 7, clut) == nothing());
    one_weapon_shows(view, pictures, 6, clut);
    one_weapon_shows(view, pictures, 5, clut);
    one_weapon_shows(view, pictures, 4, clut);
    one_weapon_shows(view, pictures, 3, clut);
    one_weapon_shows(view, pictures, 2, clut);
    one_weapon_shows(view, pictures, 1, clut);
    one_weapon_shows(view, pictures, 0, clut);
    let p0 = drawn_if(view.owned_weapons@[0], picture_at(pictures.weapons@[0], 0, 200, clut));
    let p1 = drawn_if(view.owned_weapons@[1], picture_at(pictures.weapons@[1], 24, 200, clut));
    let p2 = drawn_if(view.owned_weapons@[2], picture_at(pictures.weapons@[2], 48, 200, clut));
    let p3 = drawn_if(view.owned_weapons@[3], picture_at(pictures.weapons@[3], 72, 200, clut));
    let p4 = drawn_if(view.owned_weapons@[4], picture_at(pictures.weapons@[4], 96, 200, clut));
    let p5 = drawn_if(view.owned_weapons@[5], picture_at(pictures.weapons@[5], 120, 200, clut));
    let p6 = drawn_if(view.owned_weapons@[6], picture_at(pictures.weapons@[6], 144, 200, clut));
    let none = Seq::<ScreenQuad>::empty();
    assert(p6 + none =~= p6);
    grouped7(p0, p1, p2, p3, p4, p5, p6);
}

proof fn one_weapon_shows(view: HudView, pictures: HudPictures, slot: int, clut: u16)
    requires
        all_there(pictures),
        0 <= slot < 7,
        weapons_layout(view, pictures.weapons@, slot + 1, clut).0,
    ensures
        weapons_layout(view, pictures.weapons@, slot, clut) == (
            true,
            drawn_if(
                view.owned_weapons@[slot],
                picture_at(pictures.weapons@[slot], 24 * slot, 200, clut),
            ) + weapons_layout(view, pictures.weapons@, slot + 1, clut).1,
        ),
{
    let rest = weapons_layout(view, pictures.weapons@, slot + 1, clut).1;
    assert(Seq::<ScreenQuad>::empty() + rest =~= rest);
}

/// The three digits of an ammunition total, in the alternate figures from
/// glyph 18 on; a digit that does not count is left out.
pub open spec fn pool_digits(x: int, value: int, clut: u16) -> Seq<ScreenQuad> {
    let color: Color = (0x80, 0x80, 0x80);
    drawn_if(value >= 100, seq![glyph_quad(x, 192, (18 + value / 100) as u8, color, clut)])
        + drawn_if(
        value >= 10,
        seq![glyph_quad(x + 8, 192, (18 + value / 10 % 10) as u8, color, clut)],
    ) + seq![glyph_quad(x + 16, 192, (18 + value % 10) as u8, color, clut)]
}

proof fn pool_text_shows_digits(x: int, value: int, clut: u16)
    requires
        0 <= value,
    ensures
        text_quads(x, 192, inventory_bytes(value), (0x80, 0x80, 0x80), clut) == pool_digits(
            x,
            if value < 999 {
                value
            } else {
                999
            },
            clut,
        ),
{
    reveal_with_fuel(line_quads, 4);
    let shown = if value < 999 {
        value
    } else {
        999
    };
    assert(text_quads(x, 192, inventory_bytes(value), (0x80, 0x80, 0x80), clut) =~= pool_digits(
        x,
        shown,
        clut,
    ));
}

pub open spec fn at_most_999(value: u16) -> int {
    if value < 999 {
        value as int
    } else {
        999
    }
}

/// The four ammunition totals stand over their pictures in the bar, in their
/// own order.
pub proof fn pools_show_their_totals(view: HudView, clut: u16)
    ensures
        pools_layout(view, 0, clut) == (
            true,
            pool_digits(10, at_most_999(view.ammo_pools@[0]), clut) + pool_digits(
                58,
                at_most_999(view.ammo_pools@[1]),
                clut,
            ) + pool_digits(106, at_most_999(view.ammo_pools@[2]), clut) + pool_digits(
                154,
                at_most_999(view.ammo_pools@[3]),
                clut,
            ),
        ),
{
    pool_text_shows_digits(10, view.ammo_pools@[0] as int, clut);
    pool_text_shows_digits(58, view.ammo_pools@[1] as int, clut);
    pool_text_shows_digits(106, view.ammo_pools@[2] as int, clut);
    pool_text_shows_digits(154, view.ammo_pools@[3] as int, clut);
    let first = text_quads(10, 192, inventory_bytes(view.ammo_pools@[0] as int), plain(), clut);
    let second = text_quads(58, 192, inventory_bytes(view.ammo_pools@[1] as int), plain(), clut);
    let third = text_quads(106, 192, inventory_bytes(view.ammo_pools@[2] as int), plain(), clut);
    let last = text_quads(154, 192, inventory_bytes(view.ammo_pools@[3] as int), plain(), clut);
    assert(pools_layout(view, 3, clut) == (true, last + Seq::<ScreenQuad>::empty())) by {
        reveal_with_fuel(pools_layout, 2);
    }
    assert(last + Seq::<ScreenQuad>::empty() =~= last);
    assert(pools_layout(view, 2, clut) == (true, third + last));
    assert(pools_layout(view, 1, clut) == (true, second + (third + last)));
    assert(pools_layout(view, 0, clut) == (true, first + (second + (third + last))));
    grouped4(first, second, third, last);
}

/// Keys, powerups and runes of the strip each have their own place.
pub proof fn strip_trophies_have_their_places(view: HudView, pictures: HudPictures, clut: u16)
    requires
        all_there(pictures),
    ensures
        strip_keys_layout(view, pictures, clut) == (
            true,
            drawn_if(view.keys & 1 != 0, picture_at(pictures.keys@[0], 192, 200, clut)) + drawn_if(
                view.keys & 2 != 0,
                picture_at(pictures.keys@[1], 208, 200, clut),
            ),
        ),
        strip_powers_layout(view, pictures.powers@, 0, clut) == (
            true,
            drawn_if(view.power_seconds@[0] > 0, picture_at(pictures.powers@[0], 224, 200, clut))
                + drawn_if(
                view.power_seconds@[1] > 0,
                picture_at(pictures.powers@[1], 240, 200, clut),
            ) + drawn_if(view.power_seconds@[2] > 0, picture_at(pictures.powers@[2], 256, 200, clut))
                + drawn_if(
                view.power_seconds@[3] > 0,
                picture_at(pictures.powers@[3], 272, 200, clut),
            ),
        ),
        runes_layout(view, pictures.runes@, 288, 200, 8, 0, clut) == (
            true,
            drawn_if(view.runes & 1 != 0, picture_at(pictures.runes@[0], 288, 200, clut)) + drawn_if(
                view.runes & 2 != 0,
                picture_at(pictures.runes@[1], 296, 200, clut),
            ) + drawn_if(view.runes & 4 != 0, picture_at(pictures.runes@[2], 304, 200, clut))
                + drawn_if(view.runes & 8 != 0, picture_at(pictures.runes@[3], 312, 200, clut)),
        ),
{
    let k0 = drawn_if(view.keys & 1 != 0, picture_at(pictures.keys@[0], 192, 200, clut));
    let k1 = drawn_if(view.keys & 2 != 0, picture_at(pictures.keys@[1], 208, 200, clut));
    assert(strip_keys_layout(view, pictures, clut).1 =~= k0 + k1);
    let none = Seq::<ScreenQuad>::empty();
    assert(strip_powers_layout(view, pictures.powers@, 4, clut) == nothing());
    one_power_shows(view, pictures, 3, clut);
    one_power_shows(view, pictures, 2, clut);
    one_power_shows(view, pictures, 1, clut);
    one_power_shows(view, pictures, 0, clut);
    let p0 = drawn_if(
        view.power_seconds@[0] > 0,
        picture_at(pictures.powers@[0], 224, 200, clut),
    );
    let p1 = drawn_if(
        view.power_seconds@[1] > 0,
        picture_at(pictures.powers@[1], 240, 200, clut),
    );
    let p2 = drawn_if(
        view.power_seconds@[2] > 0,
        picture_at(pictures.powers@[2], 256, 200, clut),
    );
    let p3 = drawn_if(
        view.power_seconds@[3] > 0,
        picture_at(pictures.powers@[3], 272, 200, clut),
    );
    assert(p3 + none =~= p3);
    grouped4(p0, p1, p2, p3);
    four_runes_show(view, pictures, 288, 200, 8, clut);
}

proof fn one_power_shows(view: HudView, pictures: HudPictures, slot: int, clut: u16)
    requires
        all_there(pictures),
        0 <= slot < 4,
        strip_powers_layout(view, pictures.powers@, slot + 1, clut).0,
    ensures
        strip_powers_layout(view, pictures.powers@, slot, clut) == (
            true,
            drawn_if(
                view.power_seconds@[slot] > 0,
                picture_at(pictures.powers@[slot], 224 + 16 * slot, 200, clut),
            ) + strip_powers_layout(view, pictures.powers@, slot + 1, clut).1,
        ),
{
    let rest = strip_powers_layout(view, pictures.powers@, slot + 1, clut).1;
    assert(Seq::<ScreenQuad>::empty() + rest =~= rest);
}

/// The place of a rune: `step` apart, or by its own width where there is no step.
pub open spec fn rune_place(pictures: HudPictures, x: int, step: int, slot: int) -> int {
    x + slot * (if step == 0 {
        pictures.runes@[slot]->0.width as int
    } else {
        step
    })
}

proof fn one_rune_shows(
    view: HudView,
    pictures: HudPictures,
    x: int,
    y: int,
    step: int,
    slot: int,
    clut: u16,
)
    requires
        all_there(pictures),
        0 <= slot < 4,
        runes_layout(view, pictures.runes@, x, y, step, slot + 1, clut).0,
    ensures
        runes_layout(view, pictures.runes@, x, y, step, slot, clut) == (
            true,
            drawn_if(
                view.runes & (1u8 << (slot as u8)) != 0,
                picture_at(
                    pictures.runes@[slot],
                    rune_place(pictures, x, step, slot),
                    y,
                    clut,
                ),
            ) + runes_layout(view, pictures.runes@, x, y, step, slot + 1, clut).1,
        ),
{
    let rest = runes_layout(view, pictures.runes@, x, y, step, slot + 1, clut).1;
    assert(Seq::<ScreenQuad>::empty() + rest =~= rest);
}

proof fn four_runes_show(
    view: HudView,
    pictures: HudPictures,
    x: int,
    y: int,
    step: int,
    clut: u16,
)
    requires
        all_there(pictures),
    ensures
        runes_layout(view, pictures.runes@, x, y, step, 0, clut) == (
            true,
            drawn_if(
                view.runes & 1 != 0,
                picture_at(pictures.runes@[0], rune_place(pictures, x, step, 0), y, clut),
            ) + drawn_if(
                view.runes & 2 != 0,
                picture_at(pictures.runes@[1], rune_place(pictures, x, step, 1), y, clut),
            ) + drawn_if(
                view.runes & 4 != 0,
                picture_at(pictures.runes@[2], rune_place(pictures, x, step, 2), y, clut),
            ) + drawn_if(
                view.runes & 8 != 0,
                picture_at(pictures.runes@[3], rune_place(pictures, x, step, 3), y, clut),
            ),
        ),
{
    assert(1u8 << 0u8 == 1 && 1u8 << 1u8 == 2 && 1u8 << 2u8 == 4 && 1u8 << 3u8 == 8)
        by (bit_vector);
    assert(runes_layout(view, pictures.runes@, x, y, step, 4, clut) == nothing());
    one_rune_shows(view, pictures, x, y, step, 3, clut);
    one_rune_shows(view, pictures, x, y, step, 2, clut);
    one_rune_shows(view, pictures, x, y, step, 1, clut);
    one_rune_shows(view, pictures, x, y, step, 0, clut);
    let r0 = drawn_if(
        view.runes & 1 != 0,
        picture_at(pictures.runes@[0], rune_place(pictures, x, step, 0), y, clut),
    );
    let r1 = drawn_if(
        view.runes & 2 != 0,
        picture_at(pictures.runes@[1], rune_place(pictures, x, step, 1), y, clut),
    );
    let r2 = drawn_if(
        view.runes & 4 != 0,
        picture_at(pictures.runes@[2], rune_place(pictures, x, step, 2), y, clut),
    );
    let r3 = drawn_if(
        view.runes & 8 != 0,
        picture_at(pictures.runes@[3], rune_place(pictures, x, step, 3), y, clut),
    );
    assert(r3 + Seq::<ScreenQuad>::empty() =~= r3);
    grouped4(r0, r1, r2, r3);
}

/// The three parts of the inventory bar stand side by side from the left edge.
pub proof fn the_bar_is_whole(pictures: HudPictures, clut: u16)
    requires
        all_there(pictures),
    ensures
        ({
            let first = pictures.inventory_bar@[0]->0.width;
            let second = pictures.inventory_bar@[1]->0.width;
            bar_layout(pictures.inventory_bar@, 0, 0, clut) == (
                true,
                picture_at(pictures.inventory_bar@[0], 0, 192, clut) + picture_at(
                    pictures.inventory_bar@[1],
                    first as int,
                    192,
                    clut,
                ) + picture_at(pictures.inventory_bar@[2], first + second, 192, clut),
            )
        }),
{
    reveal_with_fuel(bar_layout, 4);
    let first = pictures.inventory_bar@[0]->0.width;
    let second = pictures.inventory_bar@[1]->0.width;
    assert(bar_layout(pictures.inventory_bar@, 0, 0, clut).1 =~= picture_at(
        pictures.inventory_bar@[0],
        0,
        192,
        clut,
    ) + picture_at(pictures.inventory_bar@[1], first as int, 192, clut) + picture_at(
        pictures.inventory_bar@[2],
        first + second,
        192,
        clut,
    ));
}

/// The three clusters of the classic display: the armor by its picture, the
/// health by the face and the ammunition by its own picture, each number with
/// its own value at its own place. Health and armor warn at 25 and ammunition
/// at 10.
pub proof fn classic_clusters_show_their_own_numbers(
    view: HudView,
    pictures: HudPictures,
    clut: u16,
)
    requires
        all_there(pictures),
    ensures
        armor_layout(view, pictures, clut) == (
            true,
            drawn_if(view.has_armor, picture_at(pictures.armor, 0, 216, clut)) + big_number(
                pictures.numbers@,
                view.armor_x as int,
                216,
                at_most_999(view.armor),
                view.armor <= 25,
                clut,
            ),
        ),
        health_layout(view, pictures, clut) == (
            true,
            picture_at(pictures.face, 112, 216, clut) + big_number(
                pictures.numbers@,
                view.health_x as int,
                216,
                at_most_999(view.health),
                view.health <= 25,
                clut,
            ),
        ),
        ammo_layout(view, pictures, clut) == (
            true,
            drawn_if(
                view.has_ammo_picture,
                picture_at(pictures.ammo, 224, 216, clut) + big_number(
                    pictures.numbers@,
                    view.ammo_x as int,
                    216,
                    at_most_999(view.active_ammo),
                    view.active_ammo <= 10,
                    clut,
                ),
            ),
        ),
{
    numbers_show_their_digits(pictures, view.armor_x as int, 216, view.armor as int, 25, clut);
    numbers_show_their_digits(pictures, view.health_x as int, 216, view.health as int, 25, clut);
    numbers_show_their_digits(pictures, view.ammo_x as int, 216, view.active_ammo as int, 10, clut);
}

/// The classic display is made of the inventory bar, the weapons, the totals,
/// the trophies, the status bar, and the armor, health and ammunition over it,
/// in this order, when every picture is there.
pub proof fn the_classic_display_is_whole(view: HudView, pictures: HudPictures, clut: u16)
    requires
        all_there(pictures),
    ensures
        hud_layout(HudMode::Classic, view, pictures, clut) == bar_layout(
            pictures.inventory_bar@,
            0,
            0,
            clut,
        ).1 + weapons_layout(view, pictures.weapons@, 0, clut).1 + pools_layout(view, 0, clut).1
            + strip_keys_layout(view, pictures, clut).1 + strip_powers_layout(
            view,
            pictures.powers@,
            0,
            clut,
        ).1 + runes_layout(view, pictures.runes@, 288, 200, 8, 0, clut).1 + status_layout(
            pictures.status_bar@,
            0,
            clut,
        ).1 + (drawn_if(view.has_armor, picture_at(pictures.armor, 0, 216, clut)) + big_number(
            pictures.numbers@,
            view.armor_x as int,
            216,
            at_most_999(view.armor),
            view.armor <= 25,
            clut,
        )) + (picture_at(pictures.face, 112, 216, clut) + big_number(
            pictures.numbers@,
            view.health_x as int,
            216,
            at_most_999(view.health),
            view.health <= 25,
            clut,
        )) + drawn_if(
            view.has_ammo_picture,
            picture_at(pictures.ammo, 224, 216, clut) + big_number(
                pictures.numbers@,
                view.ammo_x as int,
                216,
                at_most_999(view.active_ammo),
                view.active_ammo <= 10,
                clut,
            ),
        ),
{
    let bar = bar_layout(pictures.inventory_bar@, 0, 0, clut);
    let weapons = weapons_layout(view, pictures.weapons@, 0, clut);
    let pools = pools_layout(view, 0, clut);
    let keys = strip_keys_layout(view, pictures, clut);
    let powers = strip_powers_layout(view, pictures.powers@, 0, clut);
    let runes = runes_layout(view, pictures.runes@, 288, 200, 8, 0, clut);
    let strip = strip_layout(view, pictures, clut);
    let status = status_layout(pictures.status_bar@, 0, clut);
    let armor = armor_layout(view, pictures, clut);
    let health = health_layout(view, pictures, clut);
    let ammo = ammo_layout(view, pictures, clut);
    assert(bar.0) by {
        the_bar_is_whole(pictures, clut);
    }
    assert(weapons.0) by {
        weapons_show_in_their_slots(view, pictures, clut);
    }
    assert(pools.0) by {
        pools_show_their_totals(view, clut);
    }
    assert(keys.0 && powers.0 && runes.0) by {
        strip_trophies_have_their_places(view, pictures, clut);
    }
    assert(status.0) by {
        status_is_there(pictures.status_bar@, 0, clut);
    }
    classic_clusters_show_their_own_numbers(view, pictures, clut);
    joined_strip(bar, weapons, pools, keys, powers, runes);
    joined_clusters(strip, status, armor, health, ammo);
}

proof fn joined_strip(
    a: (bool, Seq<ScreenQuad>),
    b: (bool, Seq<ScreenQuad>),
    c: (bool, Seq<ScreenQuad>),
    d: (bool, Seq<ScreenQuad>),
    e: (bool, Seq<ScreenQuad>),
    f: (bool, Seq<ScreenQuad>),
)
    requires
        a.0 && b.0 && c.0 && d.0 && e.0 && f.0,
    ensures
        followed_by(a, followed_by(b, followed_by(c, followed_by(d, followed_by(e, f))))) == (
            true,
            a.1 + b.1 + c.1 + d.1 + e.1 + f.1,
        ),
{
    grouped6(a.1, b.1, c.1, d.1, e.1, f.1);
}

proof fn joined_clusters(
    a: (bool, Seq<ScreenQuad>),
    b: (bool, Seq<ScreenQuad>),
    c: (bool, Seq<ScreenQuad>),
    d: (bool, Seq<ScreenQuad>),
    e: (bool, Seq<ScreenQuad>),
)
    requires
        a.0 && b.0 && c.0 && d.0 && e.0,
    ensures
        followed_by(a, followed_by(b, followed_by(c, followed_by(d, e)))) == (
            true,
            a.1 + b.1 + c.1 + d.1 + e.1,
        ),
{
    assert(a.1 + (b.1 + (c.1 + (d.1 + e.1))) =~= a.1 + b.1 + c.1 + d.1 + e.1);
}

/// The status bar is made of all its pieces, each at its own place.
pub proof fn status_is_there(pieces: Seq<Option<GraphicsPicture>>, from: int, clut: u16)
    requires
        pieces.len() == 29,
        forall|i: int| 0 <= i < 29 ==> #[trigger] pieces[i] is Some,
        0 <= from <= 29,
    ensures
        status_layout(pieces, from, clut).0,
        status_layout(pieces, from, clut).1.len() == 29 - from,
        forall|i: int|
            #![trigger status_layout(pieces, from, clut).1[i]]
            0 <= i < 29 - from ==> {
                let quad = status_layout(pieces, from, clut).1[i];
                let piece = pieces[from + i]->0;
                &&& quad.left == status_piece(from + i).0
                &&& quad.top == status_piece(from + i).1
                &&& quad.u0 == piece.u && quad.v0 == piece.v
                &&& quad.tpage == piece.tpage && quad.clut == clut
            },
    decreases 29 - from,
{
    if from < 29 {
        status_is_there(pieces, from + 1, clut);
        let rest = status_layout(pieces, from + 1, clut).1;
        let whole = status_layout(pieces, from, clut).1;
        assert forall|i: int| #![trigger whole[i]] 0 <= i < 29 - from implies {
            let quad = whole[i];
            let piece = pieces[from + i]->0;
            &&& quad.left == status_piece(from + i).0
            &&& quad.top == status_piece(from + i).1
            &&& quad.u0 == piece.u && quad.v0 == piece.v
            &&& quad.tpage == piece.tpage && quad.clut == clut
        } by {
            if i > 0 {
                assert(whole[i] == rest[i - 1]);
            }
        }
    }
}

/// The pieces of the status bar lie on three rows that fill its height: the
/// upper row begins at the left edge in steps of 128, and below it every piece
/// is on a grid of eight pixels.
pub proof fn status_pieces_lie_on_a_grid(index: int)
    requires
        0 <= index < 29,
    ensures
        status_piece(index).1 == (if index < 3 {
            216int
        } else if index < 12 {
            224
        } else {
            232
        }),
        0 <= status_piece(index).0 < 320,
        status_piece(index).0 % 8 == 0,
        index < 3 ==> status_piece(index).0 == 128 * index,
        4 <= index < 9 ==> status_piece(index + 1).0 == status_piece(index).0 + 32,
        status_piece(3).0 == 0 && status_piece(4).0 == 16 && status_piece(10).0 == 272
            && status_piece(11).0 == 296,
        12 <= index < 14 ==> status_piece(index + 1).0 == status_piece(index).0 + 16,
        15 <= index < 17 ==> status_piece(index + 1).0 == status_piece(index).0 + 24,
        18 <= index < 28 ==> status_piece(index + 1).0 == status_piece(index).0 + 8,
        status_piece(12).0 == 0 && status_piece(15).0 == 56 && status_piece(18).0 == 232,
{
}

/// The minimal display shows health by the face, armor by its picture above it
/// and ammunition at the right, each with its own number.
pub proof fn minimal_counters_show_their_own_numbers(
    view: HudView,
    pictures: HudPictures,
    clut: u16,
)
    requires
        all_there(pictures),
    ensures
        counters_layout(view, pictures, clut) == (
            true,
            picture_at(pictures.face, 4, 212, clut) + big_number(
                pictures.numbers@,
                6 + pictures.face->0.width,
                212,
                at_most_999(view.health),
                view.health <= 25,
                clut,
            ) + picture_at(pictures.armor, 4, 184, clut) + big_number(
                pictures.numbers@,
                6 + pictures.armor->0.width,
                184,
                at_most_999(view.armor),
                view.armor <= 25,
                clut,
            ) + drawn_if(
                view.has_ammo_picture,
                picture_at(pictures.ammo, 292, 212, clut) + big_number(
                    pictures.numbers@,
                    view.minimal_ammo_x as int,
                    212,
                    at_most_999(view.active_ammo),
                    view.active_ammo <= 10,
                    clut,
                ),
            ),
        ),
{
    let face_x = 6 + pictures.face->0.width;
    let armor_x = 6 + pictures.armor->0.width;
    numbers_show_their_digits(pictures, face_x, 212, view.health as int, 25, clut);
    numbers_show_their_digits(pictures, armor_x, 184, view.armor as int, 25, clut);
    numbers_show_their_digits(
        pictures,
        view.minimal_ammo_x as int,
        212,
        view.active_ammo as int,
        10,
        clut,
    );
    let face = icon_layout(pictures, 4, 212, pictures.face, view.health as int, 25, None, clut);
    let armor = icon_layout(pictures, 4, 184, pictures.armor, view.armor as int, 25, None, clut);
    let ammo = if view.has_ammo_picture {
        icon_layout(
            pictures,
            292,
            212,
            pictures.ammo,
            view.active_ammo as int,
            10,
            Some(view.minimal_ammo_x),
            clut,
        )
    } else {
        nothing()
    };
    joined_counters(
        face,
        armor,
        ammo,
        picture_at(pictures.face, 4, 212, clut),
        field_layout(pictures, face_x, 212, view.health as int, 25, clut).1,
        picture_at(pictures.armor, 4, 184, clut),
        field_layout(pictures, armor_x, 184, view.armor as int, 25, clut).1,
    );
}

proof fn joined_counters(
    face: (bool, Seq<ScreenQuad>),
    armor: (bool, Seq<ScreenQuad>),
    ammo: (bool, Seq<ScreenQuad>),
    a: Seq<ScreenQuad>,
    b: Seq<ScreenQuad>,
    c: Seq<ScreenQuad>,
    d: Seq<ScreenQuad>,
)
    requires
        face == (true, a + b),
        armor == (true, c + d),
    ensures
        followed_by(face, followed_by(armor, ammo)) == (ammo.0, a + b + c + d + ammo.1),
{
    assert((a + b) + ((c + d) + ammo.1) =~= a + b + c + d + ammo.1);
}

/// Keys and runes of the minimal display: the second key stands left of the
/// first, and the runes side by side.
pub proof fn minimal_trophies_have_their_places(view: HudView, pictures: HudPictures, clut: u16)
    requires
        all_there(pictures),
    ensures
        minimal_keys_layout(view, pictures, clut) == (
            true,
            drawn_if(view.keys & 1 != 0, picture_at(pictures.keys@[0], 300, 192, clut)) + drawn_if(
                view.keys & 2 != 0,
                picture_at(
                    pictures.keys@[1],
                    300 - (if view.keys & 1 != 0 {
                        pictures.keys@[0]->0.width as int
                    } else {
                        0
                    }),
                    192,
                    clut,
                ),
            ),
        ),
        runes_layout(view, pictures.runes@, 284, 176, 0, 0, clut) == (
            true,
            drawn_if(view.runes & 1 != 0, picture_at(pictures.runes@[0], 284, 176, clut)) + drawn_if(
                view.runes & 2 != 0,
                picture_at(pictures.runes@[1], 284 + pictures.runes@[1]->0.width, 176, clut),
            ) + drawn_if(
                view.runes & 4 != 0,
                picture_at(pictures.runes@[2], 284 + 2 * pictures.runes@[2]->0.width, 176, clut),
            ) + drawn_if(
                view.runes & 8 != 0,
                picture_at(pictures.runes@[3], 284 + 3 * pictures.runes@[3]->0.width, 176, clut),
            ),
        ),
{
    let k0 = drawn_if(view.keys & 1 != 0, picture_at(pictures.keys@[0], 300, 192, clut));
    let k1 = drawn_if(
        view.keys & 2 != 0,
        picture_at(
            pictures.keys@[1],
            300 - (if view.keys & 1 != 0 {
                pictures.keys@[0]->0.width as int
            } else {
                0
            }),
            192,
            clut,
        ),
    );
    assert(minimal_keys_layout(view, pictures, clut).1 =~= k0 + k1);
    four_runes_show(view, pictures, 284, 176, 0, clut);
}

/// Of the active powerups of the minimal display the first stands lowest, with
/// its seconds beside it, and the next right above it.
pub proof fn minimal_powers_stack_upwards(
    view: HudView,
    pictures: HudPictures,
    y: int,
    from: int,
    clut: u16,
)
    requires
        all_there(pictures),
        0 <= from < 4,
    ensures
        ({
            let whole = minimal_powers_layout(view, pictures.powers@, y, from, clut);
            let power = pictures.powers@[from]->0;
            let seconds = view.power_seconds@[from];
            let rest = minimal_powers_layout(
                view,
                pictures.powers@,
                y - (if seconds > 0 {
                    power.height as int
                } else {
                    0
                }),
                from + 1,
                clut,
            );
            &&& whole.0 == rest.0
            &&& whole.1 == drawn_if(
                seconds > 0,
                picture_at(pictures.powers@[from], 4, y, clut) + shadowed_quads(
                    6 + power.width,
                    y + 4,
                    decimal_bytes(seconds as nat),
                    (0x80, 0x80, 0x80),
                    clut,
                ),
            ) + rest.1
        }),
{
    let whole = minimal_powers_layout(view, pictures.powers@, y, from, clut);
    let power = pictures.powers@[from]->0;
    let seconds = view.power_seconds@[from];
    if seconds > 0 {
        let rest = minimal_powers_layout(
            view,
            pictures.powers@,
            y - power.height as int,
            from + 1,
            clut,
        );
        assert(whole.1 =~= picture_at(pictures.powers@[from], 4, y, clut) + shadowed_quads(
            6 + power.width,
            y + 4,
            decimal_bytes(seconds as nat),
            (0x80, 0x80, 0x80),
            clut,
        ) + rest.1);
    } else {
        assert(whole.1 =~= Seq::<ScreenQuad>::empty() + whole.1);
    }
}

/// The minimal display is made of the counters, the keys, the runes and the
/// powerups.
pub proof fn the_minimal_display_is_whole(view: HudView, pictures: HudPictures, clut: u16)
    requires
        all_there(pictures),
    ensures
        hud_layout(HudMode::Minimal, view, pictures, clut) == counters_layout(
            view,
            pictures,
            clut,
        ).1 + minimal_keys_layout(view, pictures, clut).1 + runes_layout(
            view,
            pictures.runes@,
            284,
            176,
            0,
            0,
            clut,
        ).1 + minimal_powers_layout(view, pictures.powers@, 164, 0, clut).1,
{
    let counters = counters_layout(view, pictures, clut);
    let keys = minimal_keys_layout(view, pictures, clut);
    let runes = runes_layout(view, pictures.runes@, 284, 176, 0, 0, clut);
    let powers = minimal_powers_layout(view, pictures.powers@, 164, 0, clut);
    assert(counters.0) by {
        minimal_counters_show_their_own_numbers(view, pictures, clut);
    }
    assert(keys.0 && runes.0) by {
        minimal_trophies_have_their_places(view, pictures, clut);
    }
    minimal_powers_are_there(view, pictures, 164, 0, clut);
    grouped4(counters.1, keys.1, runes.1, powers.1);
}

proof fn minimal_powers_are_there(
    view: HudView,
    pictures: HudPictures,
    y: int,
    from: int,
    clut: u16,
)
    requires
        all_there(pictures),
        0 <= from <= 4,
    ensures
        minimal_powers_layout(view, pictures.powers@, y, from, clut).0,
    decreases 4 - from,
{
    if from < 4 {
        minimal_powers_stack_upwards(view, pictures, y, from, clut);
        minimal_powers_are_there(view, pictures, y, from + 1, clut);
        minimal_powers_are_there(
            view,
            pictures,
            y - pictures.powers@[from]->0.height,
            from + 1,
            clut,
        );
    }
}

/// The text display, which stands in where a picture is missing, names health
/// and armor with their own numbers, and ammunition where the weapon uses any.
pub proof fn the_text_display_names_its_numbers(view: HudView, clut: u16)
    ensures
        ({
            let health: Color = if view.health <= 25 {
                (0x80, 0x28, 0x28)
            } else {
                (0x80, 0x72, 0x58)
            };
            let armor: Color = (0x48, 0x68, 0x80);
            let weapon: Color = (0x80, 0x64, 0x38);
            let key: Color = (0x70, 0x70, 0x38);
            text_layout(view, clut) == shadowed_quads(8, 220, "HEALTH".spec_bytes(), health, clut)
                + shadowed_quads(8, 230, decimal_bytes(view.health as nat), health, clut)
                + shadowed_quads(112, 220, "ARMOR".spec_bytes(), armor, clut) + shadowed_quads(
                112,
                230,
                decimal_bytes(view.armor as nat),
                armor,
                clut,
            ) + drawn_if(
                view.uses_ammo,
                shadowed_quads(208, 210, view.weapon_label.spec_bytes(), weapon, clut)
                    + shadowed_quads(208, 220, view.ammo_label.spec_bytes(), weapon, clut)
                    + shadowed_quads(208, 230, decimal_bytes(view.active_ammo as nat), weapon, clut),
            ) + drawn_if(
                !view.uses_ammo,
                shadowed_quads(208, 220, view.weapon_label.spec_bytes(), weapon, clut),
            ) + drawn_if(
                view.keys & 1 != 0,
                shadowed_quads(272, 220, "K1".spec_bytes(), key, clut),
            ) + drawn_if(
                view.keys & 2 != 0,
                shadowed_quads(296, 220, "K2".spec_bytes(), key, clut),
            ) + powerup_text(view.powerups@, 8, 0, clut)
        }),
{
    let weapon: Color = (0x80, 0x64, 0x38);
    let key: Color = (0x70, 0x70, 0x38);
    let with_ammo = shadowed_quads(208, 210, view.weapon_label.spec_bytes(), weapon, clut)
        + shadowed_quads(208, 220, view.ammo_label.spec_bytes(), weapon, clut) + shadowed_quads(
        208,
        230,
        decimal_bytes(view.active_ammo as nat),
        weapon,
        clut,
    );
    let without = shadowed_quads(208, 220, view.weapon_label.spec_bytes(), weapon, clut);
    assert(weapon_text(view, clut) =~= drawn_if(view.uses_ammo, with_ammo) + drawn_if(
        !view.uses_ammo,
        without,
    ));
    let first = drawn_if(view.keys & 1 != 0, shadowed_quads(272, 220, "K1".spec_bytes(), key, clut));
    let second = drawn_if(
        view.keys & 2 != 0,
        shadowed_quads(296, 220, "K2".spec_bytes(), key, clut),
    );
    assert(key_text(view, clut) =~= first + second);
    let front = shadowed_quads(
        8,
        220,
        "HEALTH".spec_bytes(),
        text_health_color(view.health as int),
        clut,
    ) + shadowed_quads(
        8,
        230,
        decimal_bytes(view.health as nat),
        text_health_color(view.health as int),
        clut,
    ) + shadowed_quads(112, 220, "ARMOR".spec_bytes(), armor_text_color(), clut) + shadowed_quads(
        112,
        230,
        decimal_bytes(view.armor as nat),
        armor_text_color(),
        clut,
    );
    let last = powerup_text(view.powerups@, 8, 0, clut);
    assert(front + (drawn_if(view.uses_ammo, with_ammo) + drawn_if(!view.uses_ammo, without)) + (
    first + second) + last =~= front + drawn_if(view.uses_ammo, with_ammo) + drawn_if(
        !view.uses_ammo,
        without,
    ) + first + second + last);
}

/// An active powerup of the text display has its label and its own seconds
/// beside it, and the next one a column of 72 pixels further on.
pub proof fn text_powerups_stand_in_columns(
    powerups: Seq<PowerupText>,
    column: int,
    from: int,
    clut: u16,
)
    requires
        0 <= from < powerups.len(),
    ensures
        ({
            let powerup = powerups[from];
            let color: Color = if powerup.seconds <= POWERUP_WARNING_SECONDS {
                (0x80, 0x28, 0x28)
            } else {
                (0x80, 0x50, 0x80)
            };
            powerup_text(powerups, column, from, clut) == if powerup.seconds > 0 {
                shadowed_quads(column, 206, powerup.label.spec_bytes(), color, clut)
                    + shadowed_quads(
                    column + 40,
                    206,
                    decimal_bytes(powerup.seconds as nat),
                    color,
                    clut,
                ) + powerup_text(powerups, column + 72, from + 1, clut)
            } else {
                powerup_text(powerups, column, from + 1, clut)
            }
        }),
{
}

/// A display with a picture missing is shown as text, and one that is whole
/// never is.
pub proof fn missing_pictures_leave_the_text(mode: HudMode, view: HudView, pictures: HudPictures, clut: u16)
    requires
        pictures.valid(),
    ensures
        pictures.face is None ==> hud_layout(mode, view, pictures, clut) == text_layout(view, clut),
{
    if pictures.face is None && mode is Classic {
        let layout = classic_layout(view, pictures, clut);
        assert(!health_layout(view, pictures, clut).0);
        assert(!layout.0);
    }
}

/// The numbers of the classic display end at 96, 208 and 320, and that of the
/// minimal one two pixels before 292; each is aligned by its own value.
pub proof fn numbers_are_aligned_by_their_own_values(view: HudView, digit: Option<GraphicsPicture>)
    ensures
        ({
            let aligned = alignments(view, digit);
            &&& aligned.armor == (RightAlignment {
                edge: 96,
                digit_width: 24,
                gap: 0,
                value: view.armor,
            })
            &&& aligned.health == (RightAlignment {
                edge: 208,
                digit_width: 24,
                gap: 0,
                value: view.health,
            })
            &&& aligned.ammo == (RightAlignment {
                edge: 320,
                digit_width: 24,
                gap: 0,
                value: view.active_ammo,
            })
            &&& digit is None ==> aligned.minimal_ammo is None
            &&& digit matches Some(zero) ==> aligned.minimal_ammo == Some(
                RightAlignment {
                    edge: 292,
                    digit_width: zero.width as i16,
                    gap: 2,
                    value: view.active_ammo,
                },
            )
        }),
{
}

} // verus!
