//! Full-screen pages and overlays: menus, the end-of-level panel, the
//! now-playing banner, the loading page and screen tints.

use vstd::prelude::*;
use vstd::string::*;

use crate::screen::{appended, centered_x, clock_bytes, decimal_bytes, digits_read_back, glyph_quad,
    line_quads, nothing_drawn, picture_quad, resume, shadowed_quads, text_quads, Color,
    GraphicsPicture, QuadList, ScreenQuad};

verus! {

/// Quads that the menu layer may hold.
pub const MENU_PACKET_CAPACITY: usize = 232;

/// Quads that a centred message may hold.
pub const CENTERPRINT_PACKET_CAPACITY: usize = 72;

/// Texture page of the menu pictures.
pub const MENU_TPAGE: u16 = 0x009f;

/// Ticks that the now-playing banner stays up.
pub const BANNER_TICKS: u32 = 240;

/// Ticks that the banner takes to slide in, and again to leave.
pub const BANNER_SLIDE: u32 = 12;

#[derive(Copy, Clone, Debug, PartialEq, Eq, Structural)]
pub enum MenuPage {
    Main,
    Levels,
    Options,
    Controls,
    Cheats,
}

/// One row of a page.
#[derive(Copy, Clone, Debug, PartialEq, Eq)]
pub struct MenuRow {
    pub label: &'static str,
    pub value: Option<&'static str>,
}

/// What a page shows.
pub struct MenuView {
    pub page: MenuPage,
    pub title: &'static str,
    pub rows: Vec<Option<MenuRow>>,
    pub selected: u8,
    /// The lines of the controls page.
    pub control_lines: Vec<&'static str>,
    pub music_available: bool,
    pub sound_volume: u8,
    pub music_volume: u8,
    /// The loudest volume step.
    pub volume_steps: u8,
    /// Rows of the options page that are sliders.
    pub sound_row: u8,
    pub music_row: u8,
}

/// Lines of the controls page whose places are all coordinates.
pub const MAX_CONTROL_LINES: usize = 1816;

impl MenuView {
    pub open spec fn valid(&self) -> bool {
        &&& self.rows@.len() <= 255
        &&& self.control_lines@.len() <= MAX_CONTROL_LINES
        &&& self.volume_steps > 0
    }
}

pub open spec fn plain() -> Color {
    (0x80, 0x80, 0x80)
}

pub open spec fn bronze() -> Color {
    (0x80, 0x64, 0x38)
}

pub open spec fn faint() -> Color {
    (0x58, 0x58, 0x58)
}

/// The selected row is bright, the others are not.
pub open spec fn row_color(index: int, selected: int) -> Color {
    if index == selected {
        (0x80, 0x80, 0x80)
    } else {
        (0x80, 0x62, 0x38)
    }
}

pub fn menu_row_color(index: u8, selected: u8) -> (color: Color)
    ensures
        color == row_color(index as int, selected as int),
{
    if index == selected {
        (0x80, 0x80, 0x80)
    } else {
        (0x80, 0x62, 0x38)
    }
}

/// Pitch of the options rows: a disc with music has more of them.
pub open spec fn options_pitch(view: MenuView) -> int {
    if view.music_available {
        12
    } else {
        15
    }
}

pub fn options_row_pitch(view: &MenuView) -> (pitch: i16)
    ensures
        pitch == options_pitch(*view),
{
    if view.music_available {
        12
    } else {
        15
    }
}

/// Offset of a slider's thumb along its rail.
pub open spec fn thumb_offset(value: int, steps: int) -> int {
    (if value < steps { value } else { steps }) * 72 / steps
}

/// The first `count` glyphs of a slider's rail.
pub open spec fn rail_quads(x: int, y: int, count: nat, clut: u16) -> Seq<ScreenQuad>
    decreases count,
{
    if count == 0 {
        Seq::empty()
    } else {
        rail_quads(x, y, (count - 1) as nat, clut).push(
            glyph_quad(x + 8 * (count - 1), y, 129, plain(), clut),
        )
    }
}

/// A slider: left cap, rail of ten glyphs, right cap and the thumb over it.
pub open spec fn slider_quads(x: int, y: int, value: int, steps: int, clut: u16) -> Seq<ScreenQuad> {
    seq![glyph_quad(x - 8, y, 128, plain(), clut)] + rail_quads(x, y, 10, clut) + seq![
        glyph_quad(x + 80, y, 130, plain(), clut),
    ] + seq![glyph_quad(x + thumb_offset(value, steps), y, 131, plain(), clut)]
}

pub fn push_menu_slider(list: &mut QuadList, x: i16, y: i16, value: u8, steps: u8)
    requires
        old(list).valid(),
        -32760 <= x <= 32679,
        y + 8 <= i16::MAX,
        steps > 0,
    ensures
        final(list).extends(
            *old(list),
            slider_quads(x as int, y as int, value as int, steps as int, old(list).clut),
        ),
{
    let ghost before = *list;
    let ghost clut = before.clut;
    list.push_glyph(x - 8, y, 128, (0x80, 0x80, 0x80));
    let ghost cap = seq![glyph_quad(x - 8, y as int, 128, plain(), clut)];
    let mut index: i16 = 0;
    assert(cap + Seq::<ScreenQuad>::empty() =~= cap);
    while index < 10
        invariant
            0 <= index <= 10,
            -32760 <= x <= 32679,
            y + 8 <= i16::MAX,
            before.valid(),
            clut == before.clut,
            list.extends(before, cap + rail_quads(x as int, y as int, index as nat, clut)),
        decreases 10 - index,
    {
        let ghost middle = *list;
        let ghost rail = rail_quads(x as int, y as int, index as nat, clut);
        list.push_glyph(x + index * 8, y, 129, (0x80, 0x80, 0x80));
        proof {
            let one = seq![glyph_quad(x + index * 8, y as int, 129, plain(), clut)];
            resume(before, middle, *list, cap + rail, one);
            assert(cap + rail + one =~= cap + rail_quads(
                x as int,
                y as int,
                (index + 1) as nat,
                clut,
            ));
        }
        index += 1;
    }
    let ghost drawn = cap + rail_quads(x as int, y as int, 10, clut);
    let ghost middle = *list;
    list.push_glyph(x + 80, y, 130, (0x80, 0x80, 0x80));
    let ghost end = seq![glyph_quad(x + 80, y as int, 130, plain(), clut)];
    proof {
        resume(before, middle, *list, drawn, end);
    }
    let level: i16 = if value < steps {
        value as i16
    } else {
        steps as i16
    };
    let thumb: i16 = level * 72 / steps as i16;
    assert(0 <= thumb <= 72) by {
        assert(0 <= level * 72 / (steps as int) <= 72) by (nonlinear_arith)
            requires
                0 <= level <= steps,
                0 < steps,
        ;
    }
    let ghost middle = *list;
    list.push_glyph(x + thumb, y, 131, (0x80, 0x80, 0x80));
    proof {
        resume(
            before,
            middle,
            *list,
            drawn + end,
            seq![glyph_quad(x + thumb, y as int, 131, plain(), clut)],
        );
    }
}

/// What one row of the options page holds behind its label.
pub open spec fn option_value(view: MenuView, index: int, row: MenuRow, y: int, clut: u16) -> Seq<ScreenQuad> {
    match row.value {
        Some(value) => text_quads(216, y, value.spec_bytes(), plain(), clut),
        None => if index == view.sound_row {
            slider_quads(208, y, view.sound_volume as int, view.volume_steps as int, clut)
        } else if index == view.music_row && view.music_available {
            slider_quads(208, y, view.music_volume as int, view.volume_steps as int, clut)
        } else {
            Seq::empty()
        },
    }
}

/// One row of a page; the controls page has none.
pub open spec fn row_quads(view: MenuView, index: int, clut: u16) -> Seq<ScreenQuad> {
    match view.rows@[index] {
        Some(row) => {
            let color = row_color(index, view.selected as int);
            let label = row.label.spec_bytes();
            match view.page {
                MenuPage::Main => shadowed_quads(84, 88 + 24 * index, label, color, clut),
                MenuPage::Levels => text_quads(78, 72 + 16 * index, label, color, clut),
                MenuPage::Options => {
                    let y = 60 + index * options_pitch(view);
                    text_quads(76, y, label, color, clut) + option_value(view, index, row, y, clut)
                },
                MenuPage::Controls => Seq::empty(),
                MenuPage::Cheats => {
                    let y = 92 + 24 * index;
                    shadowed_quads(84, y, label, color, clut) + match row.value {
                        Some(value) => shadowed_quads(232, y, value.spec_bytes(), plain(), clut),
                        None => Seq::empty(),
                    }
                },
            }
        },
        None => Seq::empty(),
    }
}

/// The first `count` rows of a page.
pub open spec fn rows_quads(view: MenuView, count: nat, clut: u16) -> Seq<ScreenQuad>
    decreases count,
{
    if count == 0 {
        Seq::empty()
    } else {
        rows_quads(view, (count - 1) as nat, clut) + row_quads(view, count - 1, clut)
    }
}

/// The first `count` lines of the controls page.
pub open spec fn control_quads(view: MenuView, count: nat, clut: u16) -> Seq<ScreenQuad>
    decreases count,
{
    if count == 0 {
        Seq::empty()
    } else {
        control_quads(view, (count - 1) as nat, clut) + shadowed_quads(
            66,
            76 + 18 * (count - 1),
            view.control_lines@[count - 1].spec_bytes(),
            (0x80, 0x62, 0x38),
            clut,
        )
    }
}

/// Everything between a page's title and its cursor.
pub open spec fn body_quads(view: MenuView, clut: u16) -> Seq<ScreenQuad> {
    if view.page is Controls {
        control_quads(view, view.control_lines@.len(), clut) + if view.rows@.len() > 0
            && view.rows@[0] is Some {
            shadowed_quads(84, 204, view.rows@[0]->0.label.spec_bytes(), plain(), clut)
        } else {
            Seq::empty()
        }
    } else {
        rows_quads(view, view.rows@.len(), clut)
    }
}

/// Height of the cursor.
pub open spec fn cursor_y(view: MenuView) -> int {
    match view.page {
        MenuPage::Main => 80 + 24 * view.selected,
        MenuPage::Levels => 68 + 16 * view.selected,
        MenuPage::Options => 52 + view.selected * options_pitch(view),
        MenuPage::Controls => 196,
        MenuPage::Cheats => 84 + 24 * view.selected,
    }
}

/// Frame of the spinning cursor: one step every third frame.
pub open spec fn cursor_frame(frame: u32) -> int {
    frame as int / 3 % 6
}

/// Sideways shift of each cursor frame.
pub open spec fn cursor_shift(cursor: int) -> int {
    if cursor < 4 {
        2 * cursor
    } else if cursor == 4 {
        4
    } else {
        3
    }
}

/// The picture to the left of every page.
pub open spec fn plaque() -> GraphicsPicture {
    GraphicsPicture { u: 0, v: 0, width: 32, height: 144, tpage: MENU_TPAGE }
}

/// A whole page: plaque, title, body and cursor.
pub open spec fn menu_quads(view: MenuView, frame: u32, dot: Option<GraphicsPicture>, clut: u16) -> Seq<ScreenQuad> {
    seq![picture_quad(18, 48, plaque(), plain(), clut)] + shadowed_quads(
        centered_x(view.title.spec_bytes().len() as int),
        50,
        view.title.spec_bytes(),
        plain(),
        clut,
    ) + body_quads(view, clut) + match dot {
        Some(picture) => seq![
            picture_quad(
                60 + cursor_shift(cursor_frame(frame)),
                cursor_y(view) + 3,
                picture,
                plain(),
                clut,
            ),
        ],
        None => Seq::empty(),
    }
}

fn push_row(list: &mut QuadList, view: &MenuView, index: usize)
    requires
        old(list).valid(),
        view.valid(),
        index < view.rows@.len(),
    ensures
        final(list).extends(*old(list), row_quads(*view, index as int, old(list).clut)),
{
    let ghost before = *list;
    let ghost clut = before.clut;
    proof {
        nothing_drawn(*list);
    }
    let row: MenuRow = match view.rows[index] {
        Some(row) => row,
        None => {
            return ;
        },
    };
    let color: Color = menu_row_color(index as u8, view.selected);
    let place: i16 = index as i16;
    match view.page {
        MenuPage::Main => {
            list.push_shadowed_text(84, 88 + 24 * place, row.label, color);
        },
        MenuPage::Levels => {
            list.push_text(78, 72 + 16 * place, row.label, color);
        },
        MenuPage::Options => {
            let pitch: i16 = options_row_pitch(view);
            assert(0 <= place * pitch <= 255 * 15) by (nonlinear_arith)
                requires
                    0 <= place <= 255,
                    0 <= pitch <= 15,
            ;
            let y: i16 = 60 + place * pitch;
            list.push_text(76, y, row.label, color);
            let ghost label = text_quads(76, y as int, row.label.spec_bytes(), color, clut);
            let ghost middle = *list;
            proof {
                nothing_drawn(*list);
            }
            match row.value {
                Some(value) => {
                    list.push_text(216, y, value, (0x80, 0x80, 0x80));
                },
                None => {
                    if index == view.sound_row as usize {
                        push_menu_slider(list, 208, y, view.sound_volume, view.volume_steps);
                    } else if index == view.music_row as usize && view.music_available {
                        push_menu_slider(list, 208, y, view.music_volume, view.volume_steps);
                    }
                },
            }
            proof {
                resume(
                    before,
                    middle,
                    *list,
                    label,
                    option_value(*view, index as int, row, y as int, clut),
                );
            }
        },
        MenuPage::Controls => {},
        MenuPage::Cheats => {
            let y: i16 = 92 + 24 * place;
            list.push_shadowed_text(84, y, row.label, color);
            let ghost label = shadowed_quads(84, y as int, row.label.spec_bytes(), color, clut);
            match row.value {
                Some(value) => {
                    let ghost middle = *list;
                    list.push_shadowed_text(232, y, value, (0x80, 0x80, 0x80));
                    proof {
                        resume(
                            before,
                            middle,
                            *list,
                            label,
                            shadowed_quads(232, y as int, value.spec_bytes(), plain(), clut),
                        );
                    }
                },
                None => {
                    assert(label + Seq::<ScreenQuad>::empty() =~= label);
                },
            }
        },
    }
}

fn push_body(list: &mut QuadList, view: &MenuView)
    requires
        old(list).valid(),
        view.valid(),
    ensures
        final(list).extends(*old(list), body_quads(*view, old(list).clut)),
{
    let ghost before = *list;
    let ghost clut = before.clut;
    proof {
        nothing_drawn(*list);
    }
    if view.page == MenuPage::Controls {
        let mut index: usize = 0;
        while index < view.control_lines.len()
            invariant
                index <= view.control_lines@.len() <= MAX_CONTROL_LINES,
                before.valid(),
                clut == before.clut,
                list.extends(before, control_quads(*view, index as nat, clut)),
            decreases view.control_lines@.len() - index,
        {
            let ghost middle = *list;
            let line: &'static str = view.control_lines[index];
            list.push_shadowed_text(66, 76 + 18 * index as i16, line, (0x80, 0x62, 0x38));
            proof {
                resume(
                    before,
                    middle,
                    *list,
                    control_quads(*view, index as nat, clut),
                    shadowed_quads(
                        66,
                        76 + 18 * index,
                        line.spec_bytes(),
                        (0x80, 0x62, 0x38),
                        clut,
                    ),
                );
            }
            index += 1;
        }
        let ghost lines = control_quads(*view, view.control_lines@.len(), clut);
        if view.rows.len() > 0 {
            if let Some(row) = view.rows[0] {
                let ghost middle = *list;
                list.push_shadowed_text(84, 204, row.label, (0x80, 0x80, 0x80));
                proof {
                    resume(
                        before,
                        middle,
                        *list,
                        lines,
                        shadowed_quads(84, 204, row.label.spec_bytes(), plain(), clut),
                    );
                }
                return ;
            }
        }
        assert(lines + Seq::<ScreenQuad>::empty() =~= lines);
    } else {
        let mut index: usize = 0;
        while index < view.rows.len()
            invariant
                index <= view.rows@.len() <= 255,
                view.valid(),
                before.valid(),
                clut == before.clut,
                list.extends(before, rows_quads(*view, index as nat, clut)),
            decreases view.rows@.len() - index,
        {
            let ghost middle = *list;
            push_row(list, view, index);
            proof {
                resume(
                    before,
                    middle,
                    *list,
                    rows_quads(*view, index as nat, clut),
                    row_quads(*view, index as int, clut),
                );
            }
            index += 1;
        }
    }
}

/// Lay out a menu page. `dot` is the picture of the current cursor frame.
pub fn draw_menu(list: &mut QuadList, view: &MenuView, frame: u32, dot: Option<GraphicsPicture>)
    requires
        view.valid(),
    ensures
        final(list).valid(),
        final(list).same_frame(*old(list)),
        final(list).quads@ == appended(
            Seq::empty(),
            menu_quads(*view, frame, dot, old(list).clut),
            old(list).capacity as int,
        ),
{
    list.clear();
    let ghost before = *list;
    let ghost clut = before.clut;
    assert(before.quads@ =~= Seq::empty());
    let picture: GraphicsPicture = GraphicsPicture {
        u: 0,
        v: 0,
        width: 32,
        height: 144,
        tpage: MENU_TPAGE,
    };
    list.push_picture(18, 48, picture, (0x80, 0x80, 0x80));
    let ghost mut drawn = seq![picture_quad(18, 48, plaque(), plain(), clut)];
    let ghost middle = *list;
    list.push_centered_text(50, view.title, (0x80, 0x80, 0x80));
    proof {
        let more = shadowed_quads(
            centered_x(view.title.spec_bytes().len() as int),
            50,
            view.title.spec_bytes(),
            plain(),
            clut,
        );
        resume(before, middle, *list, drawn, more);
        drawn = drawn + more;
    }
    let ghost middle = *list;
    push_body(list, view);
    proof {
        resume(before, middle, *list, drawn, body_quads(*view, clut));
        drawn = drawn + body_quads(*view, clut);
    }
    let row: i16 = view.selected as i16;
    let y: i16 = match view.page {
        MenuPage::Main => 80 + 24 * row,
        MenuPage::Levels => 68 + 16 * row,
        MenuPage::Options => {
            let pitch: i16 = options_row_pitch(view);
            assert(0 <= row * pitch <= 255 * 15) by (nonlinear_arith)
                requires
                    0 <= row <= 255,
                    0 <= pitch <= 15,
            ;
            52 + row * pitch
        },
        MenuPage::Controls => 196,
        MenuPage::Cheats => 84 + 24 * row,
    };
    if let Some(found) = dot {
        let cursor: u32 = frame / 3 % 6;
        let shift: i16 = if cursor < 4 {
            2 * cursor as i16
        } else if cursor == 4 {
            4
        } else {
            3
        };
        let ghost middle = *list;
        list.push_picture(60 + shift, y + 3, found, (0x80, 0x80, 0x80));
        proof {
            resume(
                before,
                middle,
                *list,
                drawn,
                seq![
                    picture_quad(
                        60 + cursor_shift(cursor_frame(frame)),
                        cursor_y(*view) + 3,
                        found,
                        plain(),
                        clut,
                    ),
                ],
            );
        }
    } else {
        assert(drawn + Seq::<ScreenQuad>::empty() =~= drawn);
    }
}

/// How a block of text is centred: by its first line, over so many pixels, in
/// characters of a width, of which a line shows no more than `columns`.
#[derive(Copy, Clone, Debug, PartialEq, Eq, Structural)]
pub struct FirstLineCentering {
    pub width: i16,
    pub character_width: i16,
    pub columns: i16,
}

/// How a message in the middle of the screen is centred.
pub fn centerprint_centering() -> (centering: FirstLineCentering)
    ensures
        centering == (FirstLineCentering { width: 320, character_width: 8, columns: 40 }),
{
    FirstLineCentering { width: 320, character_width: 8, columns: 40 }
}

/// Where a block of text begins, and its colour.
#[derive(Copy, Clone, Debug, PartialEq, Eq)]
pub struct TextBlock {
    pub x: i16,
    pub y: i16,
    pub color: Color,
}

/// The block of a message in the middle of the screen, whose first line is
/// centred at `x`.
pub fn centerprint_block(x: i16) -> (block: TextBlock)
    ensures
        block == (TextBlock { x, y: 96, color: plain() }),
{
    TextBlock { x, y: 96, color: (0x80, 0x80, 0x80) }
}

/// The block of a page of the finale, whose lines begin at `x`.
pub fn finale_block(x: i16) -> (block: TextBlock)
    ensures
        block == (TextBlock { x, y: 96, color: plain() }),
{
    TextBlock { x, y: 96, color: (0x80, 0x80, 0x80) }
}

/// One laid-out glyph of a text block.
#[derive(Copy, Clone, Debug, PartialEq, Eq, Structural)]
pub struct TextGlyph {
    pub character: u8,
    pub x: i16,
    pub y: i16,
}

pub open spec fn glyphs_fit(glyphs: Seq<TextGlyph>) -> bool {
    forall|i: int|
        #![trigger glyphs[i]]
        0 <= i < glyphs.len() ==> glyphs[i].x + 8 <= i16::MAX && glyphs[i].y + 8 <= i16::MAX
}

/// The first `count` glyphs of a block.
pub open spec fn block_quads(glyphs: Seq<TextGlyph>, count: nat, color: Color, clut: u16) -> Seq<ScreenQuad>
    decreases count,
{
    if count == 0 {
        Seq::empty()
    } else {
        block_quads(glyphs, (count - 1) as nat, color, clut).push(
            glyph_quad(
                glyphs[count - 1].x as int,
                glyphs[count - 1].y as int,
                glyphs[count - 1].character,
                color,
                clut,
            ),
        )
    }
}

/// Draw a block of text that is already laid out, line by line.
pub fn push_centerprint_text(list: &mut QuadList, glyphs: &Vec<TextGlyph>, color: Color)
    requires
        old(list).valid(),
        glyphs_fit(glyphs@),
    ensures
        final(list).extends(
            *old(list),
            block_quads(glyphs@, glyphs@.len(), color, old(list).clut),
        ),
{
    let ghost before = *list;
    let ghost clut = before.clut;
    let mut index: usize = 0;
    proof {
        nothing_drawn(*list);
    }
    while index < glyphs.len()
        invariant
            index <= glyphs@.len(),
            glyphs_fit(glyphs@),
            before.valid(),
            clut == before.clut,
            list.extends(before, block_quads(glyphs@, index as nat, color, clut)),
        decreases glyphs@.len() - index,
    {
        let glyph: TextGlyph = glyphs[index];
        let ghost middle = *list;
        list.push_glyph(glyph.x, glyph.y, glyph.character, color);
        proof {
            let one = seq![glyph_quad(glyph.x as int, glyph.y as int, glyph.character, color, clut)];
            resume(before, middle, *list, block_quads(glyphs@, index as nat, color, clut), one);
            assert(block_quads(glyphs@, index as nat, color, clut) + one =~= block_quads(
                glyphs@,
                (index + 1) as nat,
                color,
                clut,
            ));
        }
        index += 1;
    }
}

/// How an episode stands when a level ends.
#[derive(Copy, Clone, Debug, PartialEq, Eq, Structural)]
pub enum EpisodeState {
    /// The episode goes on.
    Open,
    /// The episode is over; its panel is up.
    Panel,
    /// A page of the finale is up.
    Finale,
}

/// What the end-of-level panel shows.
pub struct IntermissionView {
    pub episode: EpisodeState,
    pub headline: &'static str,
    pub episode_headline: &'static str,
    pub episode_line: &'static str,
    pub title: &'static str,
    pub minutes: u16,
    pub seconds: u16,
    pub kills: u16,
    pub total_kills: u16,
    pub secrets: u16,
    pub total_secrets: u16,
    /// The finale page, laid out on its authored lines.
    pub finale: Vec<TextGlyph>,
}

/// A name, a number, a stroke and a total.
pub open spec fn tally_quads(y: int, name: Seq<u8>, count: int, total: int, clut: u16) -> Seq<ScreenQuad> {
    shadowed_quads(96, y, name, plain(), clut) + shadowed_quads(
        176,
        y,
        decimal_bytes(count as nat),
        plain(),
        clut,
    ) + shadowed_quads(208, y, "/".spec_bytes(), faint(), clut) + shadowed_quads(
        224,
        y,
        decimal_bytes(total as nat),
        faint(),
        clut,
    )
}

fn push_tally(list: &mut QuadList, y: i16, name: &str, count: u16, total: u16)
    requires
        old(list).valid(),
        y + 9 <= i16::MAX,
    ensures
        final(list).extends(
            *old(list),
            tally_quads(y as int, name.spec_bytes(), count as int, total as int, old(list).clut),
        ),
{
    let ghost before = *list;
    let ghost clut = before.clut;
    list.push_shadowed_text(96, y, name, (0x80, 0x80, 0x80));
    let ghost mut drawn = shadowed_quads(96, y as int, name.spec_bytes(), plain(), clut);
    let ghost middle = *list;
    list.push_shadowed_u16(176, y, count, (0x80, 0x80, 0x80));
    proof {
        let more = shadowed_quads(176, y as int, decimal_bytes(count as nat), plain(), clut);
        resume(before, middle, *list, drawn, more);
        drawn = drawn + more;
    }
    let ghost middle = *list;
    list.push_shadowed_text(208, y, "/", (0x58, 0x58, 0x58));
    proof {
        let more = shadowed_quads(208, y as int, "/".spec_bytes(), faint(), clut);
        resume(before, middle, *list, drawn, more);
        drawn = drawn + more;
    }
    let ghost middle = *list;
    list.push_shadowed_u16(224, y, total, (0x58, 0x58, 0x58));
    proof {
        let more = shadowed_quads(224, y as int, decimal_bytes(total as nat), faint(), clut);
        resume(before, middle, *list, drawn, more);
    }
}

/// A centred line.
pub open spec fn centered_quads(y: int, text: Seq<u8>, color: Color, clut: u16) -> Seq<ScreenQuad> {
    shadowed_quads(centered_x(text.len() as int), y, text, color, clut)
}

/// The end-of-level panel, or the page of the finale.
pub open spec fn intermission_quads(view: IntermissionView, clut: u16) -> Seq<ScreenQuad> {
    if view.episode is Finale {
        block_quads(view.finale@, view.finale@.len(), plain(), clut)
    } else {
        let headline = if view.episode is Panel {
            view.episode_headline
        } else {
            view.headline
        };
        centered_quads(48, headline.spec_bytes(), bronze(), clut) + centered_quads(
            68,
            view.title.spec_bytes(),
            plain(),
            clut,
        ) + shadowed_quads(96, 88, "TIME".spec_bytes(), plain(), clut) + shadowed_quads(
            176,
            88,
            clock_bytes(view.minutes as int, view.seconds as int),
            plain(),
            clut,
        ) + tally_quads(
            108,
            "KILLS".spec_bytes(),
            view.kills as int,
            view.total_kills as int,
            clut,
        ) + tally_quads(
            128,
            "SECRETS".spec_bytes(),
            view.secrets as int,
            view.total_secrets as int,
            clut,
        ) + if view.episode is Panel {
            centered_quads(160, view.episode_line.spec_bytes(), bronze(), clut)
        } else {
            Seq::empty()
        }
    }
}

/// Lay out what stands over the end-of-level camera.
pub fn draw_intermission(list: &mut QuadList, view: &IntermissionView)
    requires
        glyphs_fit(view.finale@),
    ensures
        final(list).valid(),
        final(list).same_frame(*old(list)),
        final(list).quads@ == appended(
            Seq::empty(),
            intermission_quads(*view, old(list).clut),
            old(list).capacity as int,
        ),
{
    list.clear();
    let ghost before = *list;
    let ghost clut = before.clut;
    assert(before.quads@ =~= Seq::empty());
    if view.episode == EpisodeState::Finale {
        push_centerprint_text(list, &view.finale, (0x80, 0x80, 0x80));
        return ;
    }
    let headline: &'static str = if view.episode == EpisodeState::Panel {
        view.episode_headline
    } else {
        view.headline
    };
    list.push_centered_text(48, headline, (0x80, 0x64, 0x38));
    let ghost mut drawn = centered_quads(48, headline.spec_bytes(), bronze(), clut);
    let ghost middle = *list;
    list.push_centered_text(68, view.title, (0x80, 0x80, 0x80));
    proof {
        let more = centered_quads(68, view.title.spec_bytes(), plain(), clut);
        resume(before, middle, *list, drawn, more);
        drawn = drawn + more;
    }
    let ghost middle = *list;
    list.push_shadowed_text(96, 88, "TIME", (0x80, 0x80, 0x80));
    proof {
        let more = shadowed_quads(96, 88, "TIME".spec_bytes(), plain(), clut);
        resume(before, middle, *list, drawn, more);
        drawn = drawn + more;
    }
    let ghost middle = *list;
    list.push_shadowed_clock(176, 88, view.minutes, view.seconds, (0x80, 0x80, 0x80));
    proof {
        let more = shadowed_quads(
            176,
            88,
            clock_bytes(view.minutes as int, view.seconds as int),
            plain(),
            clut,
        );
        resume(before, middle, *list, drawn, more);
        drawn = drawn + more;
    }
    let ghost middle = *list;
    push_tally(list, 108, "KILLS", view.kills, view.total_kills);
    proof {
        let more = tally_quads(
            108,
            "KILLS".spec_bytes(),
            view.kills as int,
            view.total_kills as int,
            clut,
        );
        resume(before, middle, *list, drawn, more);
        drawn = drawn + more;
    }
    let ghost middle = *list;
    push_tally(list, 128, "SECRETS", view.secrets, view.total_secrets);
    proof {
        let more = tally_quads(
            128,
            "SECRETS".spec_bytes(),
            view.secrets as int,
            view.total_secrets as int,
            clut,
        );
        resume(before, middle, *list, drawn, more);
        drawn = drawn + more;
    }
    if view.episode == EpisodeState::Panel {
        let ghost middle = *list;
        list.push_centered_text(160, view.episode_line, (0x80, 0x64, 0x38));
        proof {
            resume(
                before,
                middle,
                *list,
                drawn,
                centered_quads(160, view.episode_line.spec_bytes(), bronze(), clut),
            );
        }
    } else {
        assert(drawn + Seq::<ScreenQuad>::empty() =~= drawn);
    }
}

/// The longest name that a banner can carry past the edge of the screen: the
/// heading slides as far as the longer line does.
pub const MAX_TRACK_NAME: usize = 4055;

/// Characters of the longer banner line; the heading has eleven.
pub open spec fn banner_length(track: int) -> int {
    if track < 11 {
        11
    } else {
        track
    }
}

/// How far the banner still is from its seat.
pub open spec fn banner_offset(track: int, elapsed: int) -> int {
    let travel = 8 * banner_length(track) + 8;
    let remaining = if elapsed < BANNER_TICKS {
        BANNER_TICKS - elapsed
    } else {
        0
    };
    if elapsed < BANNER_SLIDE {
        travel * (BANNER_SLIDE - elapsed) / BANNER_SLIDE as int
    } else if remaining < BANNER_SLIDE {
        travel * (BANNER_SLIDE - remaining) / BANNER_SLIDE as int
    } else {
        0
    }
}

/// The banner: a heading and the track, flush with the right margin.
pub open spec fn banner_quads(track: Seq<u8>, elapsed: int, clut: u16) -> Seq<ScreenQuad> {
    let offset = banner_offset(track.len() as int, elapsed);
    shadowed_quads(
        312 - 8 * "NOW PLAYING".spec_bytes().len() + offset,
        16,
        "NOW PLAYING".spec_bytes(),
        bronze(),
        clut,
    ) + shadowed_quads(312 - 8 * track.len() + offset, 28, track, plain(), clut)
}

fn banner_shift(track: usize, elapsed: u32) -> (offset: i16)
    requires
        track <= MAX_TRACK_NAME,
    ensures
        offset == banner_offset(track as int, elapsed as int),
        0 <= offset <= 32448,
{
    let length: u32 = if track < 11 {
        11
    } else {
        track as u32
    };
    let travel: u32 = 8 * length + 8;
    let remaining: u32 = BANNER_TICKS.saturating_sub(elapsed);
    let slide: u32 = if elapsed < BANNER_SLIDE {
        assert(0 <= travel * (BANNER_SLIDE - elapsed) <= travel * 12) by (nonlinear_arith)
            requires
                0 <= elapsed < 12,
                BANNER_SLIDE == 12,
                0 <= travel,
        ;
        travel * (BANNER_SLIDE - elapsed) / BANNER_SLIDE
    } else if remaining < BANNER_SLIDE {
        assert(0 <= travel * (BANNER_SLIDE - remaining) <= travel * 12) by (nonlinear_arith)
            requires
                0 <= remaining < 12,
                BANNER_SLIDE == 12,
                0 <= travel,
        ;
        travel * (BANNER_SLIDE - remaining) / BANNER_SLIDE
    } else {
        0
    };
    slide as i16
}

/// Draw the now-playing banner behind what the menu layer holds, or over a
/// cleared layer.
pub fn draw_now_playing(list: &mut QuadList, track: &str, elapsed: u32, behind: bool)
    requires
        old(list).valid(),
        track.spec_bytes().len() <= MAX_TRACK_NAME,
    ensures
        final(list).valid(),
        final(list).same_frame(*old(list)),
        final(list).quads@ == appended(
            if behind { old(list).quads@ } else { Seq::empty() },
            banner_quads(track.spec_bytes(), elapsed as int, old(list).clut),
            old(list).capacity as int,
        ),
{
    if !behind {
        list.clear();
        assert(list.quads@ =~= Seq::empty());
    }
    let ghost before = *list;
    let ghost clut = before.clut;
    proof {
        heading_length();
    }
    let offset: i16 = banner_shift(track.as_bytes().len(), elapsed);
    list.push_shadowed_text(224 + offset, 16, "NOW PLAYING", (0x80, 0x64, 0x38));
    let ghost heading = shadowed_quads(
        224 + offset,
        16,
        "NOW PLAYING".spec_bytes(),
        bronze(),
        clut,
    );
    let ghost middle = *list;
    let left: i16 = 312 - 8 * track.as_bytes().len() as i16 + offset;
    list.push_shadowed_text(left, 28, track, (0x80, 0x80, 0x80));
    proof {
        resume(
            before,
            middle,
            *list,
            heading,
            shadowed_quads(left as int, 28, track.spec_bytes(), plain(), clut),
        );
    }
}

proof fn heading_length()
    ensures
        "NOW PLAYING".spec_bytes().len() == 11,
{
    reveal_strlit("NOW PLAYING");
    let text = "NOW PLAYING";
    assert(text.is_ascii());
    is_ascii_spec_bytes(text);
}

/// The banner comes in from beyond the right edge, sits still, and has left
/// the screen again when its time is over.
pub proof fn banner_enters_sits_and_leaves(track: int, elapsed: int)
    requires
        0 <= track,
        0 <= elapsed,
    ensures
        elapsed == 0 || elapsed >= BANNER_TICKS ==> 312 - 8 * banner_length(track) + banner_offset(
            track,
            elapsed,
        ) == 320,
        BANNER_SLIDE <= elapsed <= BANNER_TICKS - BANNER_SLIDE ==> banner_offset(track, elapsed)
            == 0,
{
}

/// The banner stays off the end-of-level panel and the options page, which
/// already names the track.
pub fn banner_shown(intermission: bool, menu: Option<MenuPage>) -> (shown: bool)
    ensures
        shown == (!intermission && menu != Some(MenuPage::Options)),
{
    let options: bool = match menu {
        Some(page) => page == MenuPage::Options,
        None => false,
    };
    !intermission && !options
}

/// The page that stands while a level loads.
pub open spec fn loading_quads(disc: GraphicsPicture, name: Seq<u8>, clut: u16) -> Seq<ScreenQuad> {
    seq![picture_quad(304 - disc.width, 16, disc, plain(), clut)] + centered_quads(
        102,
        "LOADING".spec_bytes(),
        bronze(),
        clut,
    ) + centered_quads(118, name, plain(), clut)
}

pub fn draw_loading(list: &mut QuadList, disc: GraphicsPicture, name: &str)
    ensures
        final(list).valid(),
        final(list).same_frame(*old(list)),
        final(list).quads@ == appended(
            Seq::empty(),
            loading_quads(disc, name.spec_bytes(), old(list).clut),
            old(list).capacity as int,
        ),
{
    list.clear();
    let ghost before = *list;
    let ghost clut = before.clut;
    assert(before.quads@ =~= Seq::empty());
    list.push_picture(320 - disc.width as i16 - 16, 16, disc, (0x80, 0x80, 0x80));
    let ghost mut drawn = seq![picture_quad(304 - disc.width, 16, disc, plain(), clut)];
    let ghost middle = *list;
    list.push_centered_text(102, "LOADING", (0x80, 0x64, 0x38));
    proof {
        let more = centered_quads(102, "LOADING".spec_bytes(), bronze(), clut);
        resume(before, middle, *list, drawn, more);
        drawn = drawn + more;
    }
    let ghost middle = *list;
    list.push_centered_text(118, name, (0x80, 0x80, 0x80));
    proof {
        resume(
            before,
            middle,
            *list,
            drawn,
            centered_quads(118, name.spec_bytes(), plain(), clut),
        );
    }
}

/// How a full-screen quad mixes with what is behind it.
#[derive(Copy, Clone, Debug, PartialEq, Eq, Structural)]
pub enum TintBlend {
    Average,
    Add,
    Subtract,
}

/// A screen tint asked for by the palette code.
#[derive(Copy, Clone, Debug, PartialEq, Eq, Structural)]
pub struct ScreenTint {
    pub red: u8,
    pub green: u8,
    pub blue: u8,
    pub average: bool,
}

pub open spec fn tint_blend(tint: ScreenTint) -> TintBlend {
    if tint.average {
        TintBlend::Average
    } else {
        TintBlend::Add
    }
}

/// The tints drawn over the world: the contents of the eye's leaf first, then
/// the transient flash.
pub fn draw_screen_tints(contents: Option<ScreenTint>, flash: Option<ScreenTint>) -> (quads: Vec<
    (ScreenTint, TintBlend),
>)
    ensures
        quads@ == (match contents {
            Some(tint) => seq![(tint, tint_blend(tint))],
            None => Seq::empty(),
        }) + (match flash {
            Some(tint) => seq![(tint, tint_blend(tint))],
            None => Seq::empty(),
        }),
{
    let mut quads: Vec<(ScreenTint, TintBlend)> = Vec::new();
    if let Some(tint) = contents {
        quads.push((tint, if tint.average { TintBlend::Average } else { TintBlend::Add }));
    }
    if let Some(tint) = flash {
        quads.push((tint, if tint.average { TintBlend::Average } else { TintBlend::Add }));
    }
    assert(quads@ =~= (match contents {
        Some(tint) => seq![(tint, tint_blend(tint))],
        None => Seq::empty(),
    }) + (match flash {
        Some(tint) => seq![(tint, tint_blend(tint))],
        None => Seq::empty(),
    }));
    quads
}

/// Words of one full-screen quad: its draw mode, the flat polygon over the
/// whole screen, and the draw mode that the next packet expects.
pub fn screen_tint_words(red: u8, green: u8, blue: u8, draw_mode: u32, restore: u32) -> (words: [u32; 7])
    ensures
        words@ == seq![
            draw_mode,
            (0x2a00_0000 + red + green * 0x100 + blue * 0x1_0000) as u32,
            0u32,
            320u32,
            0x00f0_0000u32,
            0x00f0_0140u32,
            restore,
        ],
{
    [
        draw_mode,
        0x2a00_0000 + red as u32 + green as u32 * 0x100 + blue as u32 * 0x1_0000,
        0,
        320,
        0x00f0_0000,
        0x00f0_0140,
        restore,
    ]
}

/// What stands on one line of the screen between two columns, shadows aside.
pub open spec fn shown_at(quads: Seq<ScreenQuad>, y: int, from: int, to: int) -> Seq<ScreenQuad>
    decreases quads.len(),
{
    if quads.len() == 0 {
        Seq::empty()
    } else {
        let before = shown_at(quads.drop_last(), y, from, to);
        if quads.last().top == y && from <= quads.last().left < to {
            before.push(quads.last())
        } else {
            before
        }
    }
}

proof fn shown_of_both(a: Seq<ScreenQuad>, b: Seq<ScreenQuad>, y: int, from: int, to: int)
    ensures
        shown_at(a + b, y, from, to) == shown_at(a, y, from, to) + shown_at(b, y, from, to),
    decreases b.len(),
{
    if b.len() == 0 {
        assert(a + b =~= a);
        assert(shown_at(a, y, from, to) + shown_at(b, y, from, to) =~= shown_at(a, y, from, to));
    } else {
        shown_of_both(a, b.drop_last(), y, from, to);
        assert((a + b).drop_last() =~= a + b.drop_last());
        assert(shown_at(a + b, y, from, to) =~= shown_at(a, y, from, to) + shown_at(
            b,
            y,
            from,
            to,
        ));
    }
}

proof fn shown_of_line(
    x: int,
    height: int,
    text: Seq<u8>,
    count: nat,
    color: Color,
    clut: u16,
    y: int,
    from: int,
    to: int,
)
    requires
        count <= text.len(),
        count <= 40,
        -1000 <= x <= 1000,
        -1000 <= height <= 1000,
    ensures
        height == y && from <= x && x + 8 * count <= to ==> shown_at(
            line_quads(x, height, text, count, color, clut),
            y,
            from,
            to,
        ) == line_quads(x, height, text, count, color, clut),
        height != y || x + 8 * count <= from || to <= x ==> shown_at(
            line_quads(x, height, text, count, color, clut),
            y,
            from,
            to,
        ) == Seq::<ScreenQuad>::empty(),
    decreases count,
{
    if count > 0 {
        shown_of_line(x, height, text, (count - 1) as nat, color, clut, y, from, to);
        let before = line_quads(x, height, text, (count - 1) as nat, color, clut);
        let whole = line_quads(x, height, text, count, color, clut);
        if text[count - 1] != 32 {
            assert(whole.drop_last() =~= before);
            assert(whole.last().left == x + 8 * (count - 1) && whole.last().top == height);
            assert(before.push(whole.last()) =~= whole);
        }
    }
}

proof fn shown_of_text(
    x: int,
    height: int,
    text: Seq<u8>,
    color: Color,
    clut: u16,
    y: int,
    from: int,
    to: int,
)
    requires
        -1000 <= x <= 999,
        -1000 <= height <= 999,
    ensures
        height == y && from <= x && x + 8 * text.len() <= to ==> shown_at(
            shadowed_quads(x, height, text, color, clut),
            y,
            from,
            to,
        ) == text_quads(x, height, text, color, clut),
        (height != y && height + 1 != y) || x + 8 * text.len() + 1 <= from || to <= x ==> shown_at(
            shadowed_quads(x, height, text, color, clut),
            y,
            from,
            to,
        ) == Seq::<ScreenQuad>::empty(),
{
    let count: nat = if text.len() < 40 {
        text.len()
    } else {
        40
    };
    let under = text_quads(x + 1, height + 1, text, (0x18, 0x18, 0x18), clut);
    let over = text_quads(x, height, text, color, clut);
    shown_of_line(x + 1, height + 1, text, count, (0x18, 0x18, 0x18), clut, y, from, to);
    shown_of_line(x, height, text, count, color, clut, y, from, to);
    shown_of_both(under, over, y, from, to);
    assert(Seq::<ScreenQuad>::empty() + over =~= over);
    assert(Seq::<ScreenQuad>::empty() + Seq::<ScreenQuad>::empty() =~= Seq::<ScreenQuad>::empty());
}

proof fn shown_of_tally(
    height: int,
    name: Seq<u8>,
    count: u16,
    total: u16,
    clut: u16,
    y: int,
)
    requires
        0 <= height <= 240,
        height + 1 != y,
        name.len() <= 9,
    ensures
        height != y ==> shown_at(
            tally_quads(height, name, count as int, total as int, clut),
            y,
            224,
            320,
        ) == Seq::<ScreenQuad>::empty(),
        height != y ==> shown_at(
            tally_quads(height, name, count as int, total as int, clut),
            y,
            170,
            208,
        ) == Seq::<ScreenQuad>::empty(),
        height == y ==> shown_at(
            tally_quads(height, name, count as int, total as int, clut),
            y,
            224,
            320,
        ) == text_quads(224, y, decimal_bytes(total as nat), (0x58, 0x58, 0x58), clut),
        height == y && count < 10_000 ==> shown_at(
            tally_quads(height, name, count as int, total as int, clut),
            y,
            170,
            208,
        ) == text_quads(176, y, decimal_bytes(count as nat), (0x80, 0x80, 0x80), clut),
{
    digits_read_back(count as nat);
    digits_read_back(total as nat);
    assert(count < 10_000 ==> decimal_bytes(count as nat).len() <= 4) by {
        reveal_with_fuel(decimal_bytes, 5);
    }
    slash_length();
    let a = shadowed_quads(96, height, name, plain(), clut);
    let b = shadowed_quads(176, height, decimal_bytes(count as nat), plain(), clut);
    let c = shadowed_quads(208, height, "/".spec_bytes(), faint(), clut);
    let d = shadowed_quads(224, height, decimal_bytes(total as nat), faint(), clut);
    let none = Seq::<ScreenQuad>::empty();
    shown_of_tally_parts(a, b, c, d, y, 224, 320);
    shown_of_tally_parts(a, b, c, d, y, 170, 208);
    shown_of_text(96, height, name, plain(), clut, y, 224, 320);
    shown_of_text(176, height, decimal_bytes(count as nat), plain(), clut, y, 224, 320);
    shown_of_text(208, height, "/".spec_bytes(), faint(), clut, y, 224, 320);
    shown_of_text(224, height, decimal_bytes(total as nat), faint(), clut, y, 224, 320);
    shown_of_text(96, height, name, plain(), clut, y, 170, 208);
    shown_of_text(176, height, decimal_bytes(count as nat), plain(), clut, y, 170, 208);
    shown_of_text(208, height, "/".spec_bytes(), faint(), clut, y, 170, 208);
    shown_of_text(224, height, decimal_bytes(total as nat), faint(), clut, y, 170, 208);
    let right = text_quads(224, y, decimal_bytes(total as nat), faint(), clut);
    let left = text_quads(176, y, decimal_bytes(count as nat), plain(), clut);
    assert(none + none + none + right =~= right);
    assert(none + left + none + none =~= left);
    assert(none + none + none + none =~= none);
}

proof fn shown_of_tally_parts(
    a: Seq<ScreenQuad>,
    b: Seq<ScreenQuad>,
    c: Seq<ScreenQuad>,
    d: Seq<ScreenQuad>,
    y: int,
    from: int,
    to: int,
)
    ensures
        shown_at(a + b + c + d, y, from, to) == shown_at(a, y, from, to) + shown_at(b, y, from, to)
            + shown_at(c, y, from, to) + shown_at(d, y, from, to),
{
    shown_of_both(a + b + c, d, y, from, to);
    shown_of_both(a + b, c, y, from, to);
    shown_of_both(a, b, y, from, to);
}

proof fn slash_length()
    ensures
        "/".spec_bytes().len() == 1,
        "KILLS".spec_bytes().len() == 5,
        "SECRETS".spec_bytes().len() == 7,
        "TIME".spec_bytes().len() == 4,
{
    reveal_strlit("/");
    reveal_strlit("KILLS");
    reveal_strlit("SECRETS");
    reveal_strlit("TIME");
    is_ascii_spec_bytes("/");
    is_ascii_spec_bytes("KILLS");
    is_ascii_spec_bytes("SECRETS");
    is_ascii_spec_bytes("TIME");
}

proof fn shown_of_centered(text: Seq<u8>, height: int, color: Color, clut: u16, y: int, from: int, to: int)
    requires
        0 <= height <= 240,
        height != y,
        height + 1 != y,
    ensures
        shown_at(centered_quads(height, text, color, clut), y, from, to) == Seq::<
            ScreenQuad,
        >::empty(),
{
    shown_of_text(centered_x(text.len() as int), height, text, color, clut, y, from, to);
}

proof fn shown_of_panel(view: IntermissionView, clut: u16, y: int, from: int, to: int)
    requires
        !(view.episode is Finale),
        y == 108 || y == 128,
    ensures
        shown_at(intermission_quads(view, clut), y, from, to) == shown_at(
            tally_quads(
                108,
                "KILLS".spec_bytes(),
                view.kills as int,
                view.total_kills as int,
                clut,
            ),
            y,
            from,
            to,
        ) + shown_at(
            tally_quads(
                128,
                "SECRETS".spec_bytes(),
                view.secrets as int,
                view.total_secrets as int,
                clut,
            ),
            y,
            from,
            to,
        ),
{
    let headline = if view.episode is Panel {
        view.episode_headline
    } else {
        view.headline
    };
    let none = Seq::<ScreenQuad>::empty();
    let a = centered_quads(48, headline.spec_bytes(), bronze(), clut);
    let b = centered_quads(68, view.title.spec_bytes(), plain(), clut);
    let c = shadowed_quads(96, 88, "TIME".spec_bytes(), plain(), clut);
    let time = clock_bytes(view.minutes as int, view.seconds as int);
    let d = shadowed_quads(176, 88, time, plain(), clut);
    let kills = tally_quads(
        108,
        "KILLS".spec_bytes(),
        view.kills as int,
        view.total_kills as int,
        clut,
    );
    let secrets = tally_quads(
        128,
        "SECRETS".spec_bytes(),
        view.secrets as int,
        view.total_secrets as int,
        clut,
    );
    let e = if view.episode is Panel {
        centered_quads(160, view.episode_line.spec_bytes(), bronze(), clut)
    } else {
        Seq::empty()
    };
    shown_of_centered(headline.spec_bytes(), 48, bronze(), clut, y, from, to);
    shown_of_centered(view.title.spec_bytes(), 68, plain(), clut, y, from, to);
    shown_of_text(96, 88, "TIME".spec_bytes(), plain(), clut, y, from, to);
    shown_of_text(176, 88, time, plain(), clut, y, from, to);
    shown_of_centered(view.episode_line.spec_bytes(), 160, bronze(), clut, y, from, to);
    shown_of_tally_parts(a, b, c, d, y, from, to);
    shown_of_tally_parts(a + b + c + d, kills, secrets, e, y, from, to);
    let k = shown_at(kills, y, from, to);
    let s = shown_at(secrets, y, from, to);
    assert(shown_at(e, y, from, to) =~= none);
    assert(none + none + none + none =~= none);
    assert(none + k + s + none =~= k + s);
}

/// On the end-of-level panel the digits from column 224 on are the totals: that
/// of the kills on the line at 108 and that of the secrets on the line at 128.
/// Before the stroke stand the counts, on the same lines.
pub proof fn the_panel_shows_each_count_on_its_own_line(view: IntermissionView, clut: u16)
    requires
        !(view.episode is Finale),
    ensures
        shown_at(intermission_quads(view, clut), 108, 224, 320) == text_quads(
            224,
            108,
            decimal_bytes(view.total_kills as nat),
            (0x58, 0x58, 0x58),
            clut,
        ),
        shown_at(intermission_quads(view, clut), 128, 224, 320) == text_quads(
            224,
            128,
            decimal_bytes(view.total_secrets as nat),
            (0x58, 0x58, 0x58),
            clut,
        ),
        view.kills < 10_000 ==> shown_at(intermission_quads(view, clut), 108, 170, 208)
            == text_quads(
            176,
            108,
            decimal_bytes(view.kills as nat),
            (0x80, 0x80, 0x80),
            clut,
        ),
        view.secrets < 10_000 ==> shown_at(intermission_quads(view, clut), 128, 170, 208)
            == text_quads(
            176,
            128,
            decimal_bytes(view.secrets as nat),
            (0x80, 0x80, 0x80),
            clut,
        ),
{
    let none = Seq::<ScreenQuad>::empty();
    slash_length();
    let kills = "KILLS".spec_bytes();
    let secrets = "SECRETS".spec_bytes();
    shown_of_panel(view, clut, 108, 224, 320);
    shown_of_panel(view, clut, 128, 224, 320);
    shown_of_panel(view, clut, 108, 170, 208);
    shown_of_panel(view, clut, 128, 170, 208);
    shown_of_tally(108, kills, view.kills, view.total_kills, clut, 108);
    shown_of_tally(108, kills, view.kills, view.total_kills, clut, 128);
    shown_of_tally(128, secrets, view.secrets, view.total_secrets, clut, 108);
    shown_of_tally(128, secrets, view.secrets, view.total_secrets, clut, 128);
    let a = text_quads(224, 108, decimal_bytes(view.total_kills as nat), faint(), clut);
    let b = text_quads(224, 128, decimal_bytes(view.total_secrets as nat), faint(), clut);
    let c = text_quads(176, 108, decimal_bytes(view.kills as nat), plain(), clut);
    let d = text_quads(176, 128, decimal_bytes(view.secrets as nat), plain(), clut);
    assert(a + none =~= a);
    assert(none + b =~= b);
    assert(c + none =~= c);
    assert(none + d =~= d);
}

/// The line of the kills does not depend on the secrets, nor that of the secrets
/// on the kills.
pub proof fn the_lines_of_the_panel_are_independent(
    view: IntermissionView,
    other: IntermissionView,
    clut: u16,
    from: int,
    to: int,
)
    requires
        !(view.episode is Finale),
        !(other.episode is Finale),
    ensures
        view.kills == other.kills && view.total_kills == other.total_kills ==> shown_at(
            intermission_quads(view, clut),
            108,
            from,
            to,
        ) == shown_at(intermission_quads(other, clut), 108, from, to),
        view.secrets == other.secrets && view.total_secrets == other.total_secrets ==> shown_at(
            intermission_quads(view, clut),
            128,
            from,
            to,
        ) == shown_at(intermission_quads(other, clut), 128, from, to),
{
    shown_of_panel(view, clut, 108, from, to);
    shown_of_panel(view, clut, 128, from, to);
    shown_of_panel(other, clut, 108, from, to);
    shown_of_panel(other, clut, 128, from, to);
    far_tallies_are_not_shown(view, clut, from, to);
    far_tallies_are_not_shown(other, clut, from, to);
    let none = Seq::<ScreenQuad>::empty();
    let k = tally_quads(
        108,
        "KILLS".spec_bytes(),
        view.kills as int,
        view.total_kills as int,
        clut,
    );
    let s = tally_quads(
        128,
        "SECRETS".spec_bytes(),
        view.secrets as int,
        view.total_secrets as int,
        clut,
    );
    assert(shown_at(k, 108, from, to) + none =~= shown_at(k, 108, from, to));
    assert(none + shown_at(s, 128, from, to) =~= shown_at(s, 128, from, to));
}

proof fn far_tallies_are_not_shown(view: IntermissionView, clut: u16, from: int, to: int)
    ensures
        shown_at(
            tally_quads(
                108,
                "KILLS".spec_bytes(),
                view.kills as int,
                view.total_kills as int,
                clut,
            ),
            128,
            from,
            to,
        ) == Seq::<ScreenQuad>::empty(),
        shown_at(
            tally_quads(
                128,
                "SECRETS".spec_bytes(),
                view.secrets as int,
                view.total_secrets as int,
                clut,
            ),
            108,
            from,
            to,
        ) == Seq::<ScreenQuad>::empty(),
{
    far_tally_is_not_shown(
        108,
        "KILLS".spec_bytes(),
        view.kills as int,
        view.total_kills as int,
        clut,
        128,
        from,
        to,
    );
    far_tally_is_not_shown(
        128,
        "SECRETS".spec_bytes(),
        view.secrets as int,
        view.total_secrets as int,
        clut,
        108,
        from,
        to,
    );
}

proof fn far_tally_is_not_shown(
    height: int,
    name: Seq<u8>,
    count: int,
    total: int,
    clut: u16,
    y: int,
    from: int,
    to: int,
)
    requires
        0 <= height <= 240,
        height != y,
        height + 1 != y,
    ensures
        shown_at(tally_quads(height, name, count, total, clut), y, from, to) == Seq::<
            ScreenQuad,
        >::empty(),
{
    let a = shadowed_quads(96, height, name, plain(), clut);
    let b = shadowed_quads(176, height, decimal_bytes(count as nat), plain(), clut);
    let c = shadowed_quads(208, height, "/".spec_bytes(), faint(), clut);
    let d = shadowed_quads(224, height, decimal_bytes(total as nat), faint(), clut);
    let none = Seq::<ScreenQuad>::empty();
    shown_of_tally_parts(a, b, c, d, y, from, to);
    shown_of_text(96, height, name, plain(), clut, y, from, to);
    shown_of_text(176, height, decimal_bytes(count as nat), plain(), clut, y, from, to);
    shown_of_text(208, height, "/".spec_bytes(), faint(), clut, y, from, to);
    shown_of_text(224, height, decimal_bytes(total as nat), faint(), clut, y, from, to);
    assert(none + none + none + none =~= none);
}

/// Above its counts the panel names how the level ended, the level and the time
/// it took; the end of an episode has a headline and a last line of its own.
pub proof fn the_panel_names_the_level_and_its_time(view: IntermissionView, clut: u16)
    requires
        !(view.episode is Finale),
    ensures
        ({
            let headline = if view.episode is Panel {
                view.episode_headline.spec_bytes()
            } else {
                view.headline.spec_bytes()
            };
            let title = view.title.spec_bytes();
            let line = view.episode_line.spec_bytes();
            let upper = shadowed_quads(
                centered_x(headline.len() as int),
                48,
                headline,
                (0x80, 0x64, 0x38),
                clut,
            ) + shadowed_quads(centered_x(title.len() as int), 68, title, (0x80, 0x80, 0x80), clut)
                + shadowed_quads(96, 88, "TIME".spec_bytes(), (0x80, 0x80, 0x80), clut)
                + shadowed_quads(
                176,
                88,
                clock_bytes(view.minutes as int, view.seconds as int),
                (0x80, 0x80, 0x80),
                clut,
            );
            let lower = shadowed_quads(
                centered_x(line.len() as int),
                160,
                line,
                (0x80, 0x64, 0x38),
                clut,
            );
            let panel = intermission_quads(view, clut);
            &&& panel.len() >= upper.len()
            &&& panel.take(upper.len() as int) == upper
            &&& view.episode is Panel ==> panel.len() >= lower.len() && panel.skip(
                panel.len() - lower.len(),
            ) == lower
        }),
{
    let headline = if view.episode is Panel {
        view.episode_headline.spec_bytes()
    } else {
        view.headline.spec_bytes()
    };
    let upper = centered_quads(48, headline, bronze(), clut) + centered_quads(
        68,
        view.title.spec_bytes(),
        plain(),
        clut,
    ) + shadowed_quads(96, 88, "TIME".spec_bytes(), plain(), clut) + shadowed_quads(
        176,
        88,
        clock_bytes(view.minutes as int, view.seconds as int),
        plain(),
        clut,
    );
    let lower = centered_quads(160, view.episode_line.spec_bytes(), bronze(), clut);
    let panel = intermission_quads(view, clut);
    assert(panel.take(upper.len() as int) =~= upper);
    if view.episode is Panel {
        assert(panel.skip(panel.len() - lower.len()) =~= lower);
    }
}

/// Each glyph of a laid-out block stands at its own place.
pub proof fn blocks_show_their_glyphs(glyphs: Seq<TextGlyph>, count: nat, color: Color, clut: u16)
    requires
        count <= glyphs.len(),
    ensures
        block_quads(glyphs, count, color, clut).len() == count,
        forall|i: int|
            #![trigger block_quads(glyphs, count, color, clut)[i]]
            0 <= i < count ==> ({
                let quad = block_quads(glyphs, count, color, clut)[i];
                &&& quad.left == glyphs[i].x
                &&& quad.top == glyphs[i].y
                &&& quad.v0 / 8 * 16 + quad.u0 / 8 == glyphs[i].character
                &&& (quad.red, quad.green, quad.blue) == color
            }),
    decreases count,
{
    if count > 0 {
        blocks_show_their_glyphs(glyphs, (count - 1) as nat, color, clut);
    }
}

/// A slider's thumb goes from the left end to the right end of its travel of 72
/// pixels in proportion to the value, and no further.
pub proof fn thumbs_stand_in_proportion(value: int, more: int, steps: int)
    requires
        0 < steps,
        0 <= value <= more,
    ensures
        thumb_offset(0, steps) == 0,
        more >= steps ==> thumb_offset(more, steps) == 72,
        thumb_offset(value, steps) <= thumb_offset(more, steps),
        value <= steps ==> thumb_offset(value, steps) * steps <= 72 * value < (thumb_offset(
            value,
            steps,
        ) + 1) * steps,
{
    let low = if value < steps {
        value
    } else {
        steps
    };
    let high = if more < steps {
        more
    } else {
        steps
    };
    assert(low * 72 / steps <= high * 72 / steps) by (nonlinear_arith)
        requires
            0 < steps,
            0 <= low <= high,
    ;
    assert(steps * 72 / steps == 72) by (nonlinear_arith)
        requires
            0 < steps,
    ;
    assert(0int * 72 / steps == 0) by (nonlinear_arith)
        requires
            0 < steps,
    ;
    assert((low * 72 / steps) * steps <= 72 * low < (low * 72 / steps + 1) * steps)
        by (nonlinear_arith)
        requires
            0 < steps,
            0 <= low,
    ;
}

proof fn rails_are_whole(x: int, y: int, count: nat, clut: u16)
    ensures
        rail_quads(x, y, count, clut).len() == count,
        forall|i: int|
            #![trigger rail_quads(x, y, count, clut)[i]]
            0 <= i < count ==> rail_quads(x, y, count, clut)[i] == glyph_quad(
                x + 8 * i,
                y,
                129,
                (0x80, 0x80, 0x80),
                clut,
            ),
    decreases count,
{
    if count > 0 {
        rails_are_whole(x, y, (count - 1) as nat, clut);
    }
}

/// A slider is a rail of ten glyphs between two caps, all side by side, and its
/// thumb is drawn last.
pub proof fn sliders_are_whole(x: int, y: int, value: int, steps: int, clut: u16)
    ensures
        ({
            let quads = slider_quads(x, y, value, steps, clut);
            &&& quads.len() == 13
            &&& quads[0] == glyph_quad(x - 8, y, 128, (0x80, 0x80, 0x80), clut)
            &&& forall|i: int|
                #![trigger quads[i]]
                1 <= i < 11 ==> quads[i] == glyph_quad(
                    x + 8 * (i - 1),
                    y,
                    129,
                    (0x80, 0x80, 0x80),
                    clut,
                )
            &&& quads[11] == glyph_quad(x + 80, y, 130, (0x80, 0x80, 0x80), clut)
            &&& quads[12] == glyph_quad(
                x + thumb_offset(value, steps),
                y,
                131,
                (0x80, 0x80, 0x80),
                clut,
            )
        }),
{
    rails_are_whole(x, y, 10, clut);
    let quads = slider_quads(x, y, value, steps, clut);
    assert forall|i: int| #![trigger quads[i]] 1 <= i < 11 implies quads[i] == glyph_quad(
        x + 8 * (i - 1),
        y,
        129,
        (0x80, 0x80, 0x80),
        clut,
    ) by {
        assert(quads[i] == rail_quads(x, y, 10, clut)[i - 1]);
    }
}

/// Each row of the options has its own setting behind its label: its text, or
/// the slider of the sound or of the music by the volume of that one.
pub proof fn options_show_their_own_settings(view: MenuView, index: int, clut: u16)
    requires
        view.page is Options,
        view.rows@[index] is Some,
    ensures
        ({
            let row = view.rows@[index]->0;
            let y = 60 + index * (if view.music_available {
                12int
            } else {
                15
            });
            let color: Color = if index == view.selected {
                (0x80, 0x80, 0x80)
            } else {
                (0x80, 0x62, 0x38)
            };
            let label = text_quads(76, y, row.label.spec_bytes(), color, clut);
            let shown = row_quads(view, index, clut);
            &&& row.value matches Some(value) ==> shown == label + text_quads(
                216,
                y,
                value.spec_bytes(),
                (0x80, 0x80, 0x80),
                clut,
            )
            &&& row.value is None && index == view.sound_row ==> shown == label + slider_quads(
                208,
                y,
                view.sound_volume as int,
                view.volume_steps as int,
                clut,
            )
            &&& row.value is None && index != view.sound_row && index == view.music_row
                && view.music_available ==> shown == label + slider_quads(
                208,
                y,
                view.music_volume as int,
                view.volume_steps as int,
                clut,
            )
            &&& row.value is None && index != view.sound_row && (index != view.music_row
                || !view.music_available) ==> shown == label
        }),
{
    let row = view.rows@[index]->0;
    let y = 60 + index * options_pitch(view);
    let label = text_quads(76, y, row.label.spec_bytes(), row_color(index, view.selected as int), clut);
    assert(label + Seq::<ScreenQuad>::empty() =~= label);
}

/// The other pages have their rows at an even pitch, the selected one bright.
pub proof fn rows_stand_at_an_even_pitch(view: MenuView, index: int, clut: u16)
    requires
        view.rows@[index] is Some,
    ensures
        ({
            let row = view.rows@[index]->0;
            let label = row.label.spec_bytes();
            let color: Color = if index == view.selected {
                (0x80, 0x80, 0x80)
            } else {
                (0x80, 0x62, 0x38)
            };
            let shown = row_quads(view, index, clut);
            &&& view.page is Main ==> shown == shadowed_quads(
                84,
                88 + 24 * index,
                label,
                color,
                clut,
            )
            &&& view.page is Levels ==> shown == text_quads(78, 72 + 16 * index, label, color, clut)
            &&& view.page is Cheats && row.value is None ==> shown == shadowed_quads(
                84,
                92 + 24 * index,
                label,
                color,
                clut,
            )
            &&& view.page is Cheats ==> (row.value matches Some(value) ==> shown == shadowed_quads(
                84,
                92 + 24 * index,
                label,
                color,
                clut,
            ) + shadowed_quads(
                232,
                92 + 24 * index,
                value.spec_bytes(),
                (0x80, 0x80, 0x80),
                clut,
            ))
        }),
{
    let label = shadowed_quads(
        84,
        92 + 24 * index,
        view.rows@[index]->0.label.spec_bytes(),
        row_color(index, view.selected as int),
        clut,
    );
    assert(label + Seq::<ScreenQuad>::empty() =~= label);
}

/// A page shows all its rows in their order, and nothing for a row that it does
/// not have.
pub proof fn pages_show_their_rows_in_order(view: MenuView, count: nat, clut: u16)
    ensures
        rows_quads(view, 0, clut) == Seq::<ScreenQuad>::empty(),
        rows_quads(view, count + 1, clut) == rows_quads(view, count, clut) + row_quads(
            view,
            count as int,
            clut,
        ),
        view.rows@[count as int] is None ==> rows_quads(view, count + 1, clut) == rows_quads(
            view,
            count,
            clut,
        ),
        control_quads(view, 0, clut) == Seq::<ScreenQuad>::empty(),
        control_quads(view, count + 1, clut) == control_quads(view, count, clut) + shadowed_quads(
            66,
            76 + 18 * count as int,
            view.control_lines@[count as int].spec_bytes(),
            (0x80, 0x62, 0x38),
            clut,
        ),
{
    let before = rows_quads(view, count, clut);
    assert(before + Seq::<ScreenQuad>::empty() =~= before);
}

/// The cursor stands by the selected row, a fixed distance above the row's text,
/// and moves by one pitch when the selection moves by one row.
pub proof fn the_cursor_follows_the_selection(view: MenuView)
    ensures
        view.page is Main ==> cursor_y(view) == (88 + 24 * view.selected) - 8,
        view.page is Levels ==> cursor_y(view) == (72 + 16 * view.selected) - 4,
        view.page is Options ==> cursor_y(view) == (60 + view.selected * (if view.music_available {
            12int
        } else {
            15
        })) - 8,
        view.page is Cheats ==> cursor_y(view) == (92 + 24 * view.selected) - 8,
        view.page is Controls ==> cursor_y(view) == 204 - 8,
{
}

/// The cursor turns through its six pictures in eighteen frames, three frames
/// each.
pub proof fn the_cursor_turns(frame: u32)
    ensures
        0 <= cursor_frame(frame) < 6,
        frame < 3 ==> cursor_frame(frame) == 0,
        frame + 3 <= u32::MAX ==> cursor_frame((frame + 3) as u32) == (if cursor_frame(frame) == 5 {
            0
        } else {
            cursor_frame(frame) + 1
        }),
        frame % 3 != 2 && frame < u32::MAX ==> cursor_frame((frame + 1) as u32) == cursor_frame(
            frame,
        ),
        cursor_shift(0) == 0 && cursor_shift(1) == 2 && cursor_shift(2) == 4 && cursor_shift(3) == 6
            && cursor_shift(4) == 4 && cursor_shift(5) == 3,
{
}

/// Both lines of the banner end at the same column, which is the right margin
/// while the banner sits.
pub proof fn banner_lines_end_at_the_margin(track: Seq<u8>, elapsed: int, clut: u16)
    ensures
        ({
            let offset = banner_offset(track.len() as int, elapsed);
            banner_quads(track, elapsed, clut) == shadowed_quads(
                (312 + offset) - 88,
                16,
                "NOW PLAYING".spec_bytes(),
                (0x80, 0x64, 0x38),
                clut,
            ) + shadowed_quads(
                (312 + offset) - 8 * track.len(),
                28,
                track,
                (0x80, 0x80, 0x80),
                clut,
            )
        }),
{
    heading_length();
}

/// The banner comes in and goes out steadily, and as it came in it goes out.
pub proof fn the_banner_slides_both_ways(track: int, elapsed: int, later: int)
    requires
        0 <= track,
        0 <= elapsed <= later <= 12,
    ensures
        banner_offset(track, later) <= banner_offset(track, elapsed),
        banner_offset(track, elapsed) == banner_offset(track, BANNER_TICKS - elapsed),
        banner_offset(track, elapsed) * 12 <= (8 * banner_length(track) + 8) * (12 - elapsed)
            < banner_offset(track, elapsed) * 12 + 12,
{
    let travel = 8 * banner_length(track) + 8;
    assert(travel * (12 - later) <= travel * (12 - elapsed)) by (nonlinear_arith)
        requires
            0 <= travel,
            elapsed <= later,
    ;
    assert(travel * (12 - 12) == 0) by (nonlinear_arith);
    if elapsed == 12 {
        assert(travel * (12 - elapsed) == 0);
    }
    if later == 12 {
        assert(travel * (12 - later) == 0);
    }
}

/// The loading page has the disc at the right margin and two centred lines, of
/// which the second names the level.
pub proof fn the_loading_page_names_the_level(disc: GraphicsPicture, name: Seq<u8>, clut: u16)
    ensures
        ({
            let quads = loading_quads(disc, name, clut);
            let heading = shadowed_quads(
                centered_x("LOADING".spec_bytes().len() as int),
                102,
                "LOADING".spec_bytes(),
                (0x80, 0x64, 0x38),
                clut,
            );
            let below = shadowed_quads(
                centered_x(name.len() as int),
                118,
                name,
                (0x80, 0x80, 0x80),
                clut,
            );
            &&& quads == seq![quads[0]] + heading + below
            &&& quads[0].right == 304 && quads[0].left == 304 - disc.width
            &&& quads[0].top == 16 && quads[0].bottom == 16 + disc.height
            &&& quads[0].u0 == disc.u && quads[0].v0 == disc.v && quads[0].tpage == disc.tpage
        }),
{
}

/// A page is its plaque, its centred title, its body and, last, the cursor by the
/// selected row.
pub proof fn pages_are_whole(
    view: MenuView,
    frame: u32,
    dot: Option<GraphicsPicture>,
    clut: u16,
)
    ensures
        ({
            let title = view.title.spec_bytes();
            let upper = picture_quad(
                18,
                48,
                GraphicsPicture { u: 0, v: 0, width: 32, height: 144, tpage: MENU_TPAGE },
                (0x80, 0x80, 0x80),
                clut,
            );
            let page = seq![upper] + shadowed_quads(
                centered_x(title.len() as int),
                50,
                title,
                (0x80, 0x80, 0x80),
                clut,
            ) + body_quads(view, clut);
            &&& dot is None ==> menu_quads(view, frame, dot, clut) == page
            &&& dot matches Some(picture) ==> menu_quads(view, frame, dot, clut) == page.push(
                picture_quad(
                    60 + cursor_shift(cursor_frame(frame)),
                    cursor_y(view) + 3,
                    picture,
                    (0x80, 0x80, 0x80),
                    clut,
                ),
            )
        }),
        !(view.page is Controls) ==> body_quads(view, clut) == rows_quads(
            view,
            view.rows@.len(),
            clut,
        ),
{
    let whole = menu_quads(view, frame, dot, clut);
    let page = seq![picture_quad(18, 48, plaque(), plain(), clut)] + shadowed_quads(
        centered_x(view.title.spec_bytes().len() as int),
        50,
        view.title.spec_bytes(),
        plain(),
        clut,
    ) + body_quads(view, clut);
    if dot is None {
        assert(whole =~= page);
    } else {
        assert(whole =~= page.push(whole.last()));
    }
}

/// A tint that asks for it is averaged with what is behind it, and any other is
/// added.
pub proof fn tints_blend_as_they_ask(tint: ScreenTint)
    ensures
        tint.average ==> tint_blend(tint) is Average,
        !tint.average ==> tint_blend(tint) is Add,
{
}

} // verus!
