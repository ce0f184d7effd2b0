//! Screen-space quads: text, numbers and pictures, laid out into a list of
//! bounded length.

use vstd::prelude::*;
use vstd::string::*;

use crate::fixed::{sat_i16, saturating_add_i16};

verus! {

/// Texture page of the font.
pub const FONT_TPAGE: u16 = 0x008f;

/// Glyphs of a line that are drawn.
pub const LINE_GLYPHS: usize = 40;

pub type Color = (u8, u8, u8);

/// An upright textured rectangle on the screen.
#[derive(Copy, Clone, Debug, PartialEq, Eq, Structural)]
pub struct ScreenQuad {
    pub left: i16,
    pub top: i16,
    pub right: i16,
    pub bottom: i16,
    pub u0: u8,
    pub v0: u8,
    pub u1: u8,
    pub v1: u8,
    pub tpage: u16,
    pub clut: u16,
    pub red: u8,
    pub green: u8,
    pub blue: u8,
}

/// A picture resident in video memory.
#[derive(Copy, Clone, Debug, PartialEq, Eq, Structural)]
pub struct GraphicsPicture {
    pub u: u8,
    pub v: u8,
    pub width: u8,
    pub height: u8,
    pub tpage: u16,
}

/// A list of quads that never outgrows its capacity: what does not fit is
/// dropped, so that quads already handed to the GPU stay where they are.
pub struct QuadList {
    pub quads: Vec<ScreenQuad>,
    pub capacity: usize,
    /// Palette of every quad in the list.
    pub clut: u16,
}

/// `quads` with as much of `more` behind it as fits.
pub open spec fn appended(quads: Seq<ScreenQuad>, more: Seq<ScreenQuad>, capacity: int) -> Seq<ScreenQuad> {
    if quads.len() + more.len() <= capacity {
        quads + more
    } else if quads.len() <= capacity {
        quads + more.take(capacity - quads.len())
    } else {
        quads
    }
}

/// Appending twice is appending both at once.
pub proof fn appending_twice(quads: Seq<ScreenQuad>, first: Seq<ScreenQuad>, second: Seq<ScreenQuad>, capacity: int)
    requires
        quads.len() <= capacity,
    ensures
        appended(appended(quads, first, capacity), second, capacity) == appended(
            quads,
            first + second,
            capacity,
        ),
{
    assert(appended(appended(quads, first, capacity), second, capacity) =~= appended(
        quads,
        first + second,
        capacity,
    ));
}

/// A list stays within its capacity.
pub proof fn appending_keeps_capacity(quads: Seq<ScreenQuad>, more: Seq<ScreenQuad>, capacity: int)
    requires
        quads.len() <= capacity,
    ensures
        quads.len() <= appended(quads, more, capacity).len() <= capacity,
        appended(quads, more, capacity).take(quads.len() as int) == quads,
        appended(quads, Seq::empty(), capacity) == quads,
{
    assert(appended(quads, more, capacity).take(quads.len() as int) =~= quads);
    assert(appended(quads, Seq::empty(), capacity) =~= quads);
}

/// A list can be taken up where an earlier drawing left off.
pub proof fn resume(before: QuadList, middle: QuadList, after: QuadList, drawn: Seq<ScreenQuad>, more: Seq<ScreenQuad>)
    requires
        before.valid(),
        middle.extends(before, drawn),
        after.extends(middle, more),
    ensures
        after.extends(before, drawn + more),
{
    appending_twice(before.quads@, drawn, more, before.capacity as int);
}

/// A list extends itself by nothing.
pub proof fn nothing_drawn(list: QuadList)
    requires
        list.valid(),
    ensures
        list.extends(list, Seq::empty()),
{
    appending_keeps_capacity(list.quads@, Seq::empty(), list.capacity as int);
}

/// Quads drawn one after the other, stopping where something was missing:
/// whether all was there, and what was drawn.
pub open spec fn followed_by(
    first: (bool, Seq<ScreenQuad>),
    second: (bool, Seq<ScreenQuad>),
) -> (bool, Seq<ScreenQuad>) {
    if first.0 {
        (second.0, first.1 + second.1)
    } else {
        first
    }
}

/// The quad of one glyph of the font.
pub open spec fn glyph_quad(x: int, y: int, character: u8, color: Color, clut: u16) -> ScreenQuad {
    let u = (character % 16) * 8;
    let v = (character / 16) * 8;
    ScreenQuad {
        left: x as i16,
        top: y as i16,
        right: (x + 8) as i16,
        bottom: (y + 8) as i16,
        u0: u as u8,
        v0: v as u8,
        u1: (u + 8) as u8,
        v1: (v + 8) as u8,
        tpage: FONT_TPAGE,
        clut,
        red: color.0,
        green: color.1,
        blue: color.2,
    }
}

/// The first `count` characters of a line, eight pixels apart; spaces are not
/// drawn.
pub open spec fn line_quads(x: int, y: int, text: Seq<u8>, count: nat, color: Color, clut: u16) -> Seq<ScreenQuad>
    decreases count,
{
    if count == 0 {
        Seq::empty()
    } else {
        let before = line_quads(x, y, text, (count - 1) as nat, color, clut);
        if text[count - 1] == 32 {
            before
        } else {
            before.push(glyph_quad(x + 8 * (count - 1), y, text[count - 1], color, clut))
        }
    }
}

/// A line of text, cut off after forty characters.
pub open spec fn text_quads(x: int, y: int, text: Seq<u8>, color: Color, clut: u16) -> Seq<ScreenQuad> {
    line_quads(
        x,
        y,
        text,
        if text.len() < LINE_GLYPHS { text.len() } else { LINE_GLYPHS as nat },
        color,
        clut,
    )
}

/// The colour of a drop shadow.
pub open spec fn shadow_color() -> Color {
    (0x18, 0x18, 0x18)
}

/// A line of text over its drop shadow.
pub open spec fn shadowed_quads(x: int, y: int, text: Seq<u8>, color: Color, clut: u16) -> Seq<ScreenQuad> {
    text_quads(x + 1, y + 1, text, shadow_color(), clut) + text_quads(x, y, text, color, clut)
}

/// Left edge of a centred line of `length` characters.
pub open spec fn centered_x(length: int) -> int {
    (320 - 8 * (if length < LINE_GLYPHS { length } else { LINE_GLYPHS as int })) / 2
}

/// Decimal digits of a number.
pub open spec fn decimal_bytes(value: nat) -> Seq<u8>
    decreases value,
{
    if value < 10 {
        seq![(48 + value) as u8]
    } else {
        decimal_bytes(value / 10).push((48 + value % 10) as u8)
    }
}

/// A time as minutes, a colon and two digits of seconds.
pub open spec fn clock_bytes(minutes: int, seconds: int) -> Seq<u8> {
    let shown = if minutes < 999 {
        minutes
    } else {
        999
    };
    decimal_bytes(shown as nat) + seq![
        58u8,
        (48 + seconds % 60 / 10) as u8,
        (48 + seconds % 60 % 10) as u8,
    ]
}

/// Three columns of the alternate digits, whose zero is glyph 18; leading
/// columns are blank.
pub open spec fn inventory_bytes(value: int) -> Seq<u8> {
    let shown = if value < 999 {
        value
    } else {
        999
    };
    seq![
        (if shown >= 100 { 18 + shown / 100 } else { 32 }) as u8,
        (if shown >= 10 { 18 + shown / 10 % 10 } else { 32 }) as u8,
        (18 + shown % 10) as u8,
    ]
}

/// A picture with its far texture edge one past the last texel.
pub open spec fn picture_quad(x: int, y: int, picture: GraphicsPicture, color: Color, clut: u16) -> ScreenQuad {
    ScreenQuad {
        left: x as i16,
        top: y as i16,
        right: sat_i16(x + picture.width) as i16,
        bottom: sat_i16(y + picture.height) as i16,
        u0: picture.u,
        v0: picture.v,
        u1: picture.u.wrapping_add(picture.width),
        v1: picture.v.wrapping_add(picture.height),
        tpage: picture.tpage,
        clut,
        red: color.0,
        green: color.1,
        blue: color.2,
    }
}

/// A tightly packed crop, with its far texture edge on the last texel.
pub open spec fn clamped_picture_quad(x: int, y: int, picture: GraphicsPicture, color: Color, clut: u16) -> ScreenQuad {
    ScreenQuad {
        left: x as i16,
        top: y as i16,
        right: sat_i16(x + picture.width) as i16,
        bottom: sat_i16(y + picture.height) as i16,
        u0: picture.u,
        v0: picture.v,
        u1: picture.u.wrapping_add(picture.width.saturating_sub(1)),
        v1: picture.v.wrapping_add(picture.height.saturating_sub(1)),
        tpage: picture.tpage,
        clut,
        red: color.0,
        green: color.1,
        blue: color.2,
    }
}

/// The far edges of a line of `length` characters, of which at most forty are
/// shown, are coordinates.
pub open spec fn line_fits(x: int, y: int, length: int) -> bool {
    x + 8 * (if length < LINE_GLYPHS { length } else { LINE_GLYPHS as int }) <= i16::MAX && y + 8
        <= i16::MAX
}

/// Decimal digits of a number, as characters.
pub fn fresh_digits(value: u16) -> (digits: Vec<u8>)
    ensures
        digits@ == decimal_bytes(value as nat),
    decreases value,
{
    if value < 10 {
        let mut digits: Vec<u8> = Vec::new();
        digits.push(48 + value as u8);
        assert(digits@ =~= decimal_bytes(value as nat));
        digits
    } else {
        let mut digits: Vec<u8> = fresh_digits(value / 10);
        digits.push(48 + (value % 10) as u8);
        digits
    }
}

/// Decimal numbers have no more digits than their width.
pub proof fn decimal_width(value: nat)
    ensures
        value < 10 ==> decimal_bytes(value).len() == 1,
        value < 100 ==> decimal_bytes(value).len() <= 2,
        value < 1000 ==> decimal_bytes(value).len() <= 3,
        value < 10000 ==> decimal_bytes(value).len() <= 4,
        value < 100000 ==> decimal_bytes(value).len() <= 5,
        forall|i: int|
            0 <= i < decimal_bytes(value).len() ==> 48 <= #[trigger] decimal_bytes(value)[i] <= 57,
    decreases value,
{
    if value >= 10 {
        decimal_width(value / 10);
        let rest = decimal_bytes(value / 10);
        assert forall|i: int| 0 <= i < decimal_bytes(value).len() implies 48
            <= #[trigger] decimal_bytes(value)[i] <= 57 by {
            if i < rest.len() {
                assert(decimal_bytes(value)[i] == rest[i]);
            }
        }
    }
}

impl QuadList {
    pub open spec fn valid(&self) -> bool {
        self.quads@.len() <= self.capacity
    }

    /// Everything but the quads is as in `other`.
    pub open spec fn same_frame(&self, other: QuadList) -> bool {
        self.capacity == other.capacity && self.clut == other.clut
    }

    /// The list after drawing `more` behind what `before` held.
    pub open spec fn extends(&self, before: QuadList, more: Seq<ScreenQuad>) -> bool {
        &&& self.valid()
        &&& self.same_frame(before)
        &&& self.quads@ == appended(before.quads@, more, before.capacity as int)
    }

    pub fn new(capacity: usize, clut: u16) -> (list: Self)
        ensures
            list.valid(),
            list.quads@.len() == 0,
            list.capacity == capacity,
            list.clut == clut,
    {
        QuadList { quads: Vec::new(), capacity, clut }
    }

    /// Empty the list for a new frame.
    pub fn clear(&mut self)
        ensures
            final(self).valid(),
            final(self).quads@.len() == 0,
            final(self).same_frame(*old(self)),
    {
        self.quads.clear();
    }

    fn push(&mut self, quad: ScreenQuad)
        requires
            old(self).valid(),
        ensures
            final(self).extends(*old(self), seq![quad]),
    {
        let ghost before = self.quads@;
        if self.quads.len() < self.capacity {
            self.quads.push(quad);
        }
        assert(self.quads@ =~= appended(before, seq![quad], self.capacity as int));
    }

    /// Draw one glyph of the font.
    pub fn push_glyph(&mut self, x: i16, y: i16, character: u8, color: Color)
        requires
            old(self).valid(),
            x + 8 <= i16::MAX,
            y + 8 <= i16::MAX,
        ensures
            final(self).extends(
                *old(self),
                seq![glyph_quad(x as int, y as int, character, color, old(self).clut)],
            ),
    {
        let u: u8 = (character % 16) * 8;
        let v: u8 = (character / 16) * 8;
        let clut: u16 = self.clut;
        self.push(
            ScreenQuad {
                left: x,
                top: y,
                right: x + 8,
                bottom: y + 8,
                u0: u,
                v0: v,
                u1: u + 8,
                v1: v + 8,
                tpage: FONT_TPAGE,
                clut,
                red: color.0,
                green: color.1,
                blue: color.2,
            },
        );
    }

    fn push_bytes(&mut self, x: i16, y: i16, text: &[u8], color: Color)
        requires
            old(self).valid(),
            line_fits(x as int, y as int, text@.len() as int),
        ensures
            final(self).extends(
                *old(self),
                text_quads(x as int, y as int, text@, color, old(self).clut),
            ),
    {
        let ghost before = *self;
        let clut: u16 = self.clut;
        let count: usize = if text.len() < LINE_GLYPHS {
            text.len()
        } else {
            LINE_GLYPHS
        };
        let mut index: usize = 0;
        proof {
            appending_keeps_capacity(before.quads@, Seq::empty(), before.capacity as int);
        }
        while index < count
            invariant
                index <= count <= text@.len(),
                count <= 40,
                line_fits(x as int, y as int, text@.len() as int),
                count == text@.len() || count == LINE_GLYPHS < text@.len(),
                clut == before.clut,
                before.valid(),
                self.extends(
                    before,
                    line_quads(x as int, y as int, text@, index as nat, color, clut),
                ),
            decreases count - index,
        {
            let character: u8 = text[index];
            if character != 32 {
                let ghost drawn = line_quads(x as int, y as int, text@, index as nat, color, clut);
                let left: i16 = x + (index as i16) * 8;
                self.push_glyph(left, y, character, color);
                proof {
                    let one = seq![glyph_quad(left as int, y as int, character, color, clut)];
                    appending_twice(before.quads@, drawn, one, before.capacity as int);
                    assert(drawn + one =~= line_quads(
                        x as int,
                        y as int,
                        text@,
                        (index + 1) as nat,
                        color,
                        clut,
                    ));
                }
            }
            index += 1;
        }
    }

    /// Draw a line of text in the font.
    pub fn push_text(&mut self, x: i16, y: i16, text: &str, color: Color)
        requires
            old(self).valid(),
            line_fits(x as int, y as int, text.spec_bytes().len() as int),
        ensures
            final(self).extends(
                *old(self),
                text_quads(x as int, y as int, text.spec_bytes(), color, old(self).clut),
            ),
    {
        self.push_bytes(x, y, text.as_bytes(), color);
    }

    fn push_shadowed_bytes(&mut self, x: i16, y: i16, text: &[u8], color: Color)
        requires
            old(self).valid(),
            line_fits(x + 1, y + 1, text@.len() as int),
        ensures
            final(self).extends(
                *old(self),
                shadowed_quads(x as int, y as int, text@, color, old(self).clut),
            ),
    {
        let ghost before = *self;
        self.push_bytes(x + 1, y + 1, text, (0x18, 0x18, 0x18));
        self.push_bytes(x, y, text, color);
        proof {
            appending_twice(
                before.quads@,
                text_quads(x + 1, y + 1, text@, shadow_color(), before.clut),
                text_quads(x as int, y as int, text@, color, before.clut),
                before.capacity as int,
            );
        }
    }

    /// Draw a line of text over a drop shadow.
    pub fn push_shadowed_text(&mut self, x: i16, y: i16, text: &str, color: Color)
        requires
            old(self).valid(),
            line_fits(x + 1, y + 1, text.spec_bytes().len() as int),
        ensures
            final(self).extends(
                *old(self),
                shadowed_quads(x as int, y as int, text.spec_bytes(), color, old(self).clut),
            ),
    {
        self.push_shadowed_bytes(x, y, text.as_bytes(), color);
    }

    /// Draw a centred line of text over a drop shadow.
    pub fn push_centered_text(&mut self, y: i16, text: &str, color: Color)
        requires
            old(self).valid(),
            y + 9 <= i16::MAX,
        ensures
            final(self).extends(
                *old(self),
                shadowed_quads(
                    centered_x(text.spec_bytes().len() as int),
                    y as int,
                    text.spec_bytes(),
                    color,
                    old(self).clut,
                ),
            ),
    {
        let bytes: &[u8] = text.as_bytes();
        let shown: usize = if bytes.len() < LINE_GLYPHS {
            bytes.len()
        } else {
            LINE_GLYPHS
        };
        let x: i16 = (320 - 8 * shown as i16) / 2;
        self.push_shadowed_bytes(x, y, bytes, color);
    }

    /// Draw a number over a drop shadow.
    pub fn push_shadowed_u16(&mut self, x: i16, y: i16, value: u16, color: Color)
        requires
            old(self).valid(),
            line_fits(x + 1, y + 1, decimal_bytes(value as nat).len() as int),
        ensures
            final(self).extends(
                *old(self),
                shadowed_quads(
                    x as int,
                    y as int,
                    decimal_bytes(value as nat),
                    color,
                    old(self).clut,
                ),
            ),
    {
        let digits: Vec<u8> = fresh_digits(value);
        self.push_shadowed_bytes(x, y, digits.as_slice(), color);
    }

    /// Draw a completion time over a drop shadow.
    pub fn push_shadowed_clock(&mut self, x: i16, y: i16, minutes: u16, seconds: u16, color: Color)
        requires
            old(self).valid(),
            line_fits(
                x + 1,
                y + 1,
                clock_bytes(minutes as int, seconds as int).len() as int,
            ),
        ensures
            final(self).extends(
                *old(self),
                shadowed_quads(
                    x as int,
                    y as int,
                    clock_bytes(minutes as int, seconds as int),
                    color,
                    old(self).clut,
                ),
            ),
    {
        let shown: u16 = if minutes < 999 {
            minutes
        } else {
            999
        };
        let rest: u8 = (seconds % 60) as u8;
        let mut text: Vec<u8> = fresh_digits(shown);
        text.push(58);
        text.push(48 + rest / 10);
        text.push(48 + rest % 10);
        assert(text@ =~= clock_bytes(minutes as int, seconds as int));
        self.push_shadowed_bytes(x, y, text.as_slice(), color);
    }

    /// Draw an ammunition total in the alternate digits.
    pub fn push_inventory_u16(&mut self, x: i16, y: i16, value: u16)
        requires
            old(self).valid(),
            line_fits(x as int, y as int, 3),
        ensures
            final(self).extends(
                *old(self),
                text_quads(
                    x as int,
                    y as int,
                    inventory_bytes(value as int),
                    (0x80, 0x80, 0x80),
                    old(self).clut,
                ),
            ),
    {
        let shown: u16 = if value < 999 {
            value
        } else {
            999
        };
        let mut text: Vec<u8> = Vec::new();
        text.push(if shown >= 100 { 18 + (shown / 100) as u8 } else { 32 });
        text.push(if shown >= 10 { 18 + (shown / 10 % 10) as u8 } else { 32 });
        text.push(18 + (shown % 10) as u8);
        assert(text@ =~= inventory_bytes(value as int));
        self.push_bytes(x, y, text.as_slice(), (0x80, 0x80, 0x80));
    }

    /// Draw a picture.
    pub fn push_picture(&mut self, x: i16, y: i16, picture: GraphicsPicture, color: Color)
        requires
            old(self).valid(),
        ensures
            final(self).extends(
                *old(self),
                seq![picture_quad(x as int, y as int, picture, color, old(self).clut)],
            ),
    {
        let clut: u16 = self.clut;
        self.push(
            ScreenQuad {
                left: x,
                top: y,
                right: saturating_add_i16(x, picture.width as i16),
                bottom: saturating_add_i16(y, picture.height as i16),
                u0: picture.u,
                v0: picture.v,
                u1: picture.u.wrapping_add(picture.width),
                v1: picture.v.wrapping_add(picture.height),
                tpage: picture.tpage,
                clut,
                red: color.0,
                green: color.1,
                blue: color.2,
            },
        );
    }

    /// Draw a tightly packed crop without letting rounding reach the first
    /// texel beyond it.
    pub fn push_picture_edge_clamped(&mut self, x: i16, y: i16, picture: GraphicsPicture, color: Color)
        requires
            old(self).valid(),
        ensures
            final(self).extends(
                *old(self),
                seq![clamped_picture_quad(x as int, y as int, picture, color, old(self).clut)],
            ),
    {
        let clut: u16 = self.clut;
        self.push(
            ScreenQuad {
                left: x,
                top: y,
                right: saturating_add_i16(x, picture.width as i16),
                bottom: saturating_add_i16(y, picture.height as i16),
                u0: picture.u,
                v0: picture.v,
                u1: picture.u.wrapping_add(picture.width.saturating_sub(1)),
                v1: picture.v.wrapping_add(picture.height.saturating_sub(1)),
                tpage: picture.tpage,
                clut,
                red: color.0,
                green: color.1,
                blue: color.2,
            },
        );
    }
}

/// Each character has a cell of its own in the font, eight texels square, in
/// rows of sixteen.
pub proof fn glyphs_come_from_their_own_cells(x: int, y: int, character: u8, color: Color, clut: u16)
    requires
        i16::MIN <= x <= i16::MAX - 8,
        i16::MIN <= y <= i16::MAX - 8,
    ensures
        ({
            let quad = glyph_quad(x, y, character, color, clut);
            &&& quad.left == x && quad.right == x + 8
            &&& quad.top == y && quad.bottom == y + 8
            &&& quad.u1 == quad.u0 + 8 && quad.v1 == quad.v0 + 8
            &&& quad.u0 % 8 == 0 && quad.v0 % 8 == 0
            &&& character == quad.v0 / 8 * 16 + quad.u0 / 8
            &&& quad.u0 < 128 && quad.v0 < 128
            &&& (quad.red, quad.green, quad.blue) == color
            &&& quad.clut == clut && quad.tpage == FONT_TPAGE
        }),
{
}

/// A line without blanks shows its characters one by one, eight pixels apart.
pub proof fn lines_show_their_characters(
    x: int,
    y: int,
    text: Seq<u8>,
    count: nat,
    color: Color,
    clut: u16,
)
    requires
        count <= text.len(),
        forall|i: int| 0 <= i < count ==> #[trigger] text[i] != 32,
    ensures
        line_quads(x, y, text, count, color, clut).len() == count,
        forall|i: int|
            #![trigger line_quads(x, y, text, count, color, clut)[i]]
            0 <= i < count ==> line_quads(x, y, text, count, color, clut)[i] == glyph_quad(
                x + 8 * i,
                y,
                text[i],
                color,
                clut,
            ),
    decreases count,
{
    if count > 0 {
        lines_show_their_characters(x, y, text, (count - 1) as nat, color, clut);
    }
}

/// Blanks are passed over: whatever a line shows is one of its other characters
/// at that character's own place, and each of those is shown.
pub proof fn lines_pass_over_blanks(
    x: int,
    y: int,
    text: Seq<u8>,
    count: nat,
    color: Color,
    clut: u16,
)
    requires
        count <= text.len(),
    ensures
        forall|i: int|
            #![trigger text[i]]
            0 <= i < count && text[i] != 32 ==> line_quads(x, y, text, count, color, clut).contains(
                glyph_quad(x + 8 * i, y, text[i], color, clut),
            ),
        forall|k: int|
            #![trigger line_quads(x, y, text, count, color, clut)[k]]
            0 <= k < line_quads(x, y, text, count, color, clut).len() ==> exists|i: int|
                0 <= i < count && #[trigger] text[i] != 32 && line_quads(
                    x,
                    y,
                    text,
                    count,
                    color,
                    clut,
                )[k] == glyph_quad(x + 8 * i, y, text[i], color, clut),
    decreases count,
{
    if count > 0 {
        lines_pass_over_blanks(x, y, text, (count - 1) as nat, color, clut);
        let before = line_quads(x, y, text, (count - 1) as nat, color, clut);
        let whole = line_quads(x, y, text, count, color, clut);
        assert forall|i: int| #![trigger text[i]] 0 <= i < count && text[i] != 32 implies whole.contains(
            glyph_quad(x + 8 * i, y, text[i], color, clut),
        ) by {
            let quad = glyph_quad(x + 8 * i, y, text[i], color, clut);
            if i < count - 1 {
                let k = choose|k: int| 0 <= k < before.len() && before[k] == quad;
                assert(whole[k] == quad);
            } else {
                assert(whole[before.len() as int] == quad);
            }
        }
        assert forall|k: int| #![trigger whole[k]] 0 <= k < whole.len() implies exists|i: int|
            0 <= i < count && #[trigger] text[i] != 32 && whole[k] == glyph_quad(
                x + 8 * i,
                y,
                text[i],
                color,
                clut,
            ) by {
            if k < before.len() {
                assert(whole[k] == before[k]);
            } else {
                assert(text[count - 1] != 32);
            }
        }
    }
}

/// The number that a row of decimal digits stands for.
pub open spec fn number_read(digits: Seq<u8>) -> int
    decreases digits.len(),
{
    if digits.len() == 0 {
        0
    } else {
        10 * number_read(digits.drop_last()) + (digits.last() - 48)
    }
}

/// The digits of a number read as that number: only digits, and no zero before
/// the first that counts.
pub proof fn digits_read_back(value: nat)
    ensures
        number_read(decimal_bytes(value)) == value,
        decimal_bytes(value).len() >= 1,
        decimal_bytes(value).len() > 1 ==> decimal_bytes(value)[0] != 48,
        forall|i: int|
            #![trigger decimal_bytes(value)[i]]
            0 <= i < decimal_bytes(value).len() ==> 48 <= decimal_bytes(value)[i] <= 57,
        value < 10 <==> decimal_bytes(value).len() == 1,
        value < 100_000 ==> decimal_bytes(value).len() <= 5,
    decreases value,
{
    reveal_with_fuel(number_read, 2);
    if value >= 10 {
        digits_read_back(value / 10);
        let before = decimal_bytes(value / 10);
        assert(decimal_bytes(value).drop_last() =~= before);
        assert(decimal_bytes(value).last() == 48 + value % 10);
        if before.len() == 1 {
            assert(before[0] == 48 + value / 10);
        }
        assert(value < 100_000 ==> decimal_bytes(value).len() <= 5) by {
            reveal_with_fuel(decimal_bytes, 6);
        }
    } else {
        assert(decimal_bytes(value).drop_last() =~= Seq::empty());
    }
}

/// A time shows its minutes, a colon, and its seconds as two digits.
pub proof fn clocks_read_back(minutes: int, seconds: int)
    requires
        0 <= minutes < 999,
        0 <= seconds < 60,
    ensures
        ({
            let shown = clock_bytes(minutes, seconds);
            let colon = shown.len() - 3;
            &&& colon >= 1
            &&& shown[colon] == 58
            &&& number_read(shown.take(colon)) == minutes
            &&& number_read(shown.skip(colon + 1)) == seconds
            &&& forall|i: int|
                #![trigger shown[i]]
                0 <= i < shown.len() && i != colon ==> 48 <= shown[i] <= 57
        }),
{
    digits_read_back(minutes as nat);
    let shown = clock_bytes(minutes, seconds);
    let colon = shown.len() - 3;
    assert(shown.take(colon) =~= decimal_bytes(minutes as nat));
    let rest = shown.skip(colon + 1);
    reveal_with_fuel(number_read, 3);
    assert(rest.len() == 2);
    assert(rest[0] == 48 + seconds / 10 && rest[1] == 48 + seconds % 10);
    assert(rest.drop_last().last() == rest[0]);
    assert(rest.drop_last().drop_last() =~= Seq::empty());
    assert forall|i: int| #![trigger shown[i]] 0 <= i < shown.len() && i != colon implies 48
        <= shown[i] <= 57 by {
        if i < colon {
            assert(shown[i] == decimal_bytes(minutes as nat)[i]);
        }
    }
}

/// A centred line has the same margin on both sides, and a full one none.
pub proof fn centred_lines_have_equal_margins(length: int)
    requires
        0 <= length,
    ensures
        length <= 40 ==> centered_x(length) == 320 - (centered_x(length) + 8 * length),
        length >= 40 ==> centered_x(length) == 0,
{
}

/// A shadow lies one pixel to the right of and below its text, and under it.
pub proof fn shadows_lie_under_their_text(x: int, y: int, text: Seq<u8>, color: Color, clut: u16)
    requires
        text.len() <= 40,
        forall|i: int| 0 <= i < text.len() ==> #[trigger] text[i] != 32,
    ensures
        ({
            let quads = shadowed_quads(x, y, text, color, clut);
            let n = text.len() as int;
            &&& quads.len() == 2 * n
            &&& forall|i: int|
                #![trigger text[i]]
                0 <= i < n ==> quads[i] == glyph_quad(
                    x + 8 * i + 1,
                    y + 1,
                    text[i],
                    (0x18, 0x18, 0x18),
                    clut,
                ) && quads[n + i] == glyph_quad(x + 8 * i, y, text[i], color, clut)
        }),
{
    lines_show_their_characters(x + 1, y + 1, text, text.len(), shadow_color(), clut);
    lines_show_their_characters(x, y, text, text.len(), color, clut);
    let under = text_quads(x + 1, y + 1, text, shadow_color(), clut);
    let over = text_quads(x, y, text, color, clut);
    let quads = shadowed_quads(x, y, text, color, clut);
    let n = text.len() as int;
    assert forall|i: int| #![trigger text[i]] 0 <= i < n implies quads[i] == glyph_quad(
        x + 8 * i + 1,
        y + 1,
        text[i],
        (0x18, 0x18, 0x18),
        clut,
    ) && quads[n + i] == glyph_quad(x + 8 * i, y, text[i], color, clut) by {
        assert(quads[i] == under[i]);
        assert(quads[n + i] == over[i]);
        assert(x + 1 + 8 * i == x + 8 * i + 1);
    }
}

/// A picture covers its own width and height from its place on, and shows its
/// own texels; a clamped one ends on its last texel.
pub proof fn pictures_cover_their_size(
    x: int,
    y: int,
    picture: GraphicsPicture,
    color: Color,
    clut: u16,
)
    requires
        i16::MIN <= x <= i16::MAX - 255,
        i16::MIN <= y <= i16::MAX - 255,
    ensures
        ({
            let quad = picture_quad(x, y, picture, color, clut);
            &&& quad.left == x && quad.right - quad.left == picture.width
            &&& quad.top == y && quad.bottom - quad.top == picture.height
            &&& quad.u0 == picture.u && quad.v0 == picture.v
            &&& picture.u + picture.width <= 255 ==> quad.u1 - quad.u0 == picture.width
            &&& picture.v + picture.height <= 255 ==> quad.v1 - quad.v0 == picture.height
            &&& quad.tpage == picture.tpage && quad.clut == clut
            &&& (quad.red, quad.green, quad.blue) == color
        }),
        ({
            let quad = picture_quad(x, y, picture, color, clut);
            let clamped = clamped_picture_quad(x, y, picture, color, clut);
            &&& clamped.left == quad.left && clamped.right == quad.right
            &&& clamped.top == quad.top && clamped.bottom == quad.bottom
            &&& clamped.u0 == quad.u0 && clamped.v0 == quad.v0
            &&& 0 < picture.width && picture.u + picture.width <= 255 ==> clamped.u1 == quad.u1 - 1
            &&& 0 < picture.height && picture.v + picture.height <= 255 ==> clamped.v1 == quad.v1
                - 1
            &&& clamped.tpage == quad.tpage && clamped.clut == quad.clut
            &&& (clamped.red, clamped.green, clamped.blue) == color
        }),
{
}

/// Quads are kept in their order as long as there is room, and those already
/// there are never touched.
pub proof fn full_lists_keep_what_they_have(
    quads: Seq<ScreenQuad>,
    more: Seq<ScreenQuad>,
    capacity: int,
)
    requires
        quads.len() <= capacity,
    ensures
        ({
            let after = appended(quads, more, capacity);
            &&& quads.len() + more.len() <= capacity ==> after.len() == quads.len() + more.len()
            &&& quads.len() + more.len() > capacity ==> after.len() == capacity
            &&& forall|i: int| #![trigger after[i]] 0 <= i < quads.len() ==> after[i] == quads[i]
            &&& forall|i: int|
                #![trigger after[i]]
                quads.len() <= i < after.len() ==> after[i] == more[i - quads.len()]
        }),
{
}

} // verus!
