use quake_psx::hud::crosshair_packets;
use quake_psx::hud::draw_hud;
use quake_psx::hud::push_big_field;
use quake_psx::hud::push_big_u16;
use quake_psx::hud::HudMode;
use quake_psx::hud::HudPictures;
use quake_psx::hud::number_alignments;
use quake_psx::hud::HudView;
use quake_psx::hud::RightAlignment;
use quake_psx::hud::PowerupText;
use quake_psx::hud::HUD_PACKET_CAPACITY;
use quake_psx::menu::banner_shown;
use quake_psx::menu::draw_intermission;
use quake_psx::menu::draw_loading;
use quake_psx::menu::draw_menu;
use quake_psx::menu::centerprint_block;
use quake_psx::menu::centerprint_centering;
use quake_psx::menu::draw_now_playing;
use quake_psx::menu::finale_block;
use quake_psx::menu::draw_screen_tints;
use quake_psx::menu::menu_row_color;
use quake_psx::menu::push_centerprint_text;
use quake_psx::menu::push_menu_slider;
use quake_psx::menu::screen_tint_words;
use quake_psx::menu::EpisodeState;
use quake_psx::menu::IntermissionView;
use quake_psx::menu::MenuPage;
use quake_psx::menu::MenuRow;
use quake_psx::menu::MenuView;
use quake_psx::menu::ScreenTint;
use quake_psx::menu::TextGlyph;
use quake_psx::menu::TintBlend;
use quake_psx::menu::MENU_PACKET_CAPACITY;
use quake_psx::screen::fresh_digits;
use quake_psx::screen::GraphicsPicture;
use quake_psx::screen::QuadList;
use quake_psx::screen::ScreenQuad;
use quake_psx::screen::FONT_TPAGE;

const PLAIN: (u8, u8, u8) = (0x80, 0x80, 0x80);

fn list() -> QuadList {
    QuadList::new(MENU_PACKET_CAPACITY, 0x7abc)
}

/// The characters of the quads at a height that have a colour.
fn text_at(list: &QuadList, y: i16, color: (u8, u8, u8)) -> String {
    list.quads
        .iter()
        .filter(|quad| quad.top == y && (quad.red, quad.green, quad.blue) == color)
        .map(|quad| (quad.u0 / 8 + quad.v0 / 8 * 16) as char)
        .collect()
}

fn picture(width: u8) -> GraphicsPicture {
    GraphicsPicture { u: 10, v: 20, width, height: 24, tpage: 5 }
}

#[test]
fn a_glyph_is_cut_from_the_font() {
    let mut list = list();
    list.push_glyph(100, 50, b'A', (1, 2, 3));
    assert_eq!(
        list.quads[0],
        ScreenQuad {
            left: 100,
            top: 50,
            right: 108,
            bottom: 58,
            u0: 8,
            v0: 32,
            u1: 16,
            v1: 40,
            tpage: FONT_TPAGE,
            clut: 0x7abc,
            red: 1,
            green: 2,
            blue: 3,
        }
    );
}

#[test]
fn a_line_leaves_out_spaces_and_ends_after_forty() {
    let mut list = list();
    list.push_text(0, 0, "A B", PLAIN);
    assert_eq!(list.quads.len(), 2);
    assert_eq!(list.quads[1].left, 16);
    list.clear();
    list.push_text(0, 0, "XXXXXXXXXXXXXXXXXXXXXXXXXXXXXXXXXXXXXXXXXXXXXXXXXX", PLAIN);
    assert_eq!(list.quads.len(), 40);
}

#[test]
fn a_shadow_lies_under_its_text() {
    let mut list = list();
    list.push_shadowed_text(10, 10, "AB", PLAIN);
    assert_eq!(text_at(&list, 11, (0x18, 0x18, 0x18)), "AB");
    assert_eq!(text_at(&list, 10, PLAIN), "AB");
    assert_eq!(list.quads[0].left, 11);
}

#[test]
fn centred_text_is_in_the_middle() {
    let mut list = list();
    list.push_centered_text(5, "ABCD", PLAIN);
    assert_eq!(list.quads[4].left, 144);
}

#[test]
fn a_full_list_drops_what_does_not_fit() {
    let mut list = QuadList::new(3, 0);
    list.push_text(0, 0, "ABCDE", PLAIN);
    assert_eq!(list.quads.len(), 3);
    list.push_glyph(0, 0, b'Z', PLAIN);
    assert_eq!(list.quads.len(), 3);
    assert_eq!(text_at(&list, 0, PLAIN), "ABC");
}

#[test]
fn numbers_are_written_out() {
    assert_eq!(fresh_digits(0), vec![b'0']);
    assert_eq!(fresh_digits(65535), b"65535".to_vec());
    let mut list = list();
    list.push_shadowed_u16(0, 0, 1207, PLAIN);
    assert_eq!(text_at(&list, 0, PLAIN), "1207");
    list.clear();
    list.push_shadowed_clock(0, 0, 1200, 65, PLAIN);
    assert_eq!(text_at(&list, 0, PLAIN), "999:05");
    list.clear();
    list.push_inventory_u16(0, 0, 42);
    assert_eq!(list.quads.len(), 2);
    assert_eq!(list.quads[0].left, 8);
    assert_eq!((list.quads[0].u0, list.quads[0].v0), (6 * 8, 8));
}

#[test]
fn pictures_are_cut_by_their_kind() {
    let mut list = list();
    list.push_picture(5, 6, picture(30), PLAIN);
    list.push_picture_edge_clamped(5, 6, picture(30), PLAIN);
    assert_eq!((list.quads[0].u1, list.quads[0].v1), (40, 44));
    assert_eq!((list.quads[1].u1, list.quads[1].v1), (39, 43));
    assert_eq!((list.quads[0].right, list.quads[0].bottom), (35, 30));
}

fn pictures(there: bool) -> HudPictures {
    let one = if there { Some(picture(8)) } else { None };
    HudPictures {
        armor: one,
        face: one,
        ammo: one,
        numbers: vec![one; 10],
        inventory_bar: vec![one; 3],
        weapons: vec![one; 7],
        status_bar: vec![one; 29],
        keys: vec![one; 2],
        powers: vec![one; 4],
        runes: vec![one; 4],
    }
}

fn hud_view() -> HudView {
    HudView {
        health: 20,
        armor: 150,
        has_armor: true,
        uses_ammo: true,
        has_ammo_picture: true,
        active_ammo: 37,
        ammo_pools: [1, 2, 3, 4],
        owned_weapons: [true, false, false, false, false, false, false],
        keys: 1,
        runes: 0,
        power_seconds: [0, 0, 0, 0],
        weapon_label: "SHOTGUN",
        ammo_label: "SHELLS",
        powerups: vec![PowerupText { label: "QUAD", seconds: 3 }],
        armor_x: 24,
        health_x: 136,
        ammo_x: 248,
        minimal_ammo_x: 248,
    }
}

#[test]
fn big_numbers_stop_at_three_digits() {
    let mut list = list();
    assert!(push_big_u16(&mut list, &pictures(true), 10, 0, 12345, PLAIN));
    assert_eq!(list.quads.len(), 3);
    assert_eq!(list.quads[2].left, 26);
    assert!(!push_big_u16(&mut list, &pictures(false), 10, 0, 5, PLAIN));
}

#[test]
fn low_numbers_are_red() {
    let mut list = list();
    push_big_field(&mut list, &pictures(true), 0, 0, 25, 25);
    push_big_field(&mut list, &pictures(true), 0, 0, 26, 25);
    assert_eq!(list.quads[0].green, 0);
    assert_eq!(list.quads[2].green, 0x80);
}

#[test]
fn missing_pictures_leave_the_text_display() {
    let mut list = QuadList::new(HUD_PACKET_CAPACITY, 0);
    assert!(!draw_hud(&mut list, HudMode::Classic, &pictures(false), &hud_view()));
    assert_eq!(text_at(&list, 220, (0x80, 0x28, 0x28)), "HEALTH");
    assert_eq!(text_at(&list, 230, (0x80, 0x28, 0x28)), "20");
    assert_eq!(text_at(&list, 220, (0x48, 0x68, 0x80)), "ARMOR");
    assert_eq!(text_at(&list, 210, (0x80, 0x64, 0x38)), "SHOTGUN");
    assert_eq!(text_at(&list, 230, (0x80, 0x64, 0x38)), "37");
    assert_eq!(text_at(&list, 220, (0x70, 0x70, 0x38)), "K1");
    assert_eq!(text_at(&list, 206, (0x80, 0x28, 0x28)), "QUAD3");
}

#[test]
fn both_graphical_displays_fit_their_list() {
    for mode in [HudMode::Classic, HudMode::Minimal] {
        let mut list = QuadList::new(HUD_PACKET_CAPACITY, 0);
        assert!(draw_hud(&mut list, mode, &pictures(true), &hud_view()));
        assert!(!list.quads.is_empty());
        assert!(list.quads.iter().any(|quad| quad.tpage == 5));
    }
}

#[test]
fn the_crosshair_is_four_bars() {
    let bars = crosshair_packets();
    assert_eq!((bars[0].x, bars[0].y, bars[0].width, bars[0].height), (159, 118, 2, 1));
    assert_eq!((bars[1].x, bars[1].y, bars[1].width, bars[1].height), (159, 121, 2, 1));
    assert_eq!((bars[2].x, bars[2].y, bars[2].width, bars[2].height), (158, 119, 1, 2));
    assert_eq!((bars[3].x, bars[3].y, bars[3].width, bars[3].height), (161, 119, 1, 2));
    assert_eq!((bars[3].red, bars[3].green, bars[3].blue), (0x80, 0x80, 0x80));
}

fn menu_view(page: MenuPage) -> MenuView {
    MenuView {
        page,
        title: "OPTIONS",
        rows: vec![
            Some(MenuRow { label: "SOUND", value: None }),
            Some(MenuRow { label: "CROSS", value: Some("ON") }),
        ],
        selected: 1,
        control_lines: vec!["R2 FIRE"],
        music_available: false,
        sound_volume: 5,
        music_volume: 10,
        volume_steps: 10,
        sound_row: 0,
        music_row: 9,
    }
}

#[test]
fn the_selected_row_stands_out() {
    assert_ne!(menu_row_color(1, 1), menu_row_color(0, 1));
    let mut list = list();
    draw_menu(&mut list, &menu_view(MenuPage::Main), 0, None);
    assert_eq!(text_at(&list, 88, menu_row_color(0, 1)), "SOUND");
    assert_eq!(text_at(&list, 112, menu_row_color(1, 1)), "CROSS");
}

#[test]
fn options_have_values_and_sliders() {
    let mut list = list();
    draw_menu(&mut list, &menu_view(MenuPage::Options), 0, None);
    let thumb = list.quads.iter().find(|quad| quad.u0 == 3 * 8 && quad.v0 == 8 * 8);
    assert_eq!(thumb.map(|quad| (quad.left, quad.top)), Some((208 + 36, 60)));
    assert!(text_at(&list, 75, PLAIN).ends_with("ON"));
}

#[test]
fn a_slider_stops_at_its_end() {
    let mut list = list();
    push_menu_slider(&mut list, 100, 0, 200, 10);
    assert_eq!(list.quads.len(), 13);
    assert_eq!(list.quads[0].left, 92);
    assert_eq!(list.quads[11].left, 180);
    assert_eq!(list.quads[12].left, 172);
}

#[test]
fn centred_messages_keep_their_layout() {
    let mut list = list();
    let glyphs = vec![
        TextGlyph { character: b'A', x: 10, y: 20 },
        TextGlyph { character: b'B', x: 18, y: 20 },
    ];
    push_centerprint_text(&mut list, &glyphs, PLAIN);
    assert_eq!(text_at(&list, 20, PLAIN), "AB");
}

fn panel(episode: EpisodeState) -> IntermissionView {
    IntermissionView {
        episode,
        headline: "CONGRATULATIONS",
        episode_headline: "EPISODE",
        episode_line: "RUNE",
        title: "THE SLIPGATE",
        minutes: 2,
        seconds: 5,
        kills: 3,
        total_kills: 14,
        secrets: 0,
        total_secrets: 6,
        finale: vec![TextGlyph { character: b'F', x: 0, y: 0 }],
    }
}

#[test]
fn the_panel_counts_kills_and_secrets() {
    let mut list = list();
    draw_intermission(&mut list, &panel(EpisodeState::Open));
    assert_eq!(text_at(&list, 68, PLAIN), "THESLIPGATE");
    assert_eq!(text_at(&list, 88, PLAIN), "TIME2:05");
    assert!(text_at(&list, 108, PLAIN).starts_with("KILLS3"));
    assert!(text_at(&list, 128, PLAIN).starts_with("SECRETS0"));
    assert_eq!(text_at(&list, 160, (0x80, 0x64, 0x38)), "");
    draw_intermission(&mut list, &panel(EpisodeState::Panel));
    assert_eq!(text_at(&list, 160, (0x80, 0x64, 0x38)), "RUNE");
    draw_intermission(&mut list, &panel(EpisodeState::Finale));
    assert_eq!(list.quads.len(), list.quads.iter().filter(|quad| quad.top < 10).count());
}

#[test]
fn the_banner_slides_in_and_out() {
    let left = |elapsed| {
        let mut list = list();
        draw_now_playing(&mut list, "SONG", elapsed, false);
        let heading: Vec<i16> = list
            .quads
            .iter()
            .filter(|quad| quad.top == 16)
            .map(|quad| quad.left)
            .collect();
        heading[0]
    };
    assert_eq!(left(0), 320);
    assert_eq!(left(6), 272);
    assert_eq!(left(12), 224);
    assert_eq!(left(228), 224);
    assert_eq!(left(240), 320);
    assert!(banner_shown(false, None));
    assert!(banner_shown(false, Some(MenuPage::Main)));
    assert!(!banner_shown(false, Some(MenuPage::Options)));
    assert!(!banner_shown(true, None));
}

#[test]
fn numbers_end_at_their_edges() {
    let view = hud_view();
    let mut pictures = pictures(true);
    let numbers = number_alignments(&view, &pictures);
    let place = |number: RightAlignment| (number.edge, number.digit_width, number.gap);
    assert_eq!(place(numbers.armor), (96, 24, 0));
    assert_eq!(place(numbers.health), (208, 24, 0));
    assert_eq!(place(numbers.ammo), (320, 24, 0));
    assert_eq!((numbers.armor.value, numbers.health.value), (view.armor, view.health));
    let width = pictures.numbers[0].map_or(0, |digit| i16::from(digit.width));
    assert_eq!(numbers.minimal_ammo.map(place), Some((292, width, 2)));
    assert_eq!(numbers.ammo.value, view.active_ammo);
    pictures.numbers[0] = None;
    assert!(number_alignments(&view, &pictures).minimal_ammo.is_none());
}

#[test]
fn messages_have_their_place() {
    let centering = centerprint_centering();
    assert_eq!((centering.width, centering.character_width, centering.columns), (320, 8, 40));
    let message = centerprint_block(44);
    assert_eq!((message.x, message.y, message.color), (44, 96, PLAIN));
    let page = finale_block(60);
    assert_eq!((page.x, page.y, page.color), (60, 96, PLAIN));
}

#[test]
fn the_loading_page_names_the_level() {
    let mut list = list();
    draw_loading(&mut list, picture(48), "E1M1");
    assert_eq!((list.quads[0].left, list.quads[0].top), (256, 16));
    assert_eq!(text_at(&list, 102, (0x80, 0x64, 0x38)), "LOADING");
    assert_eq!(text_at(&list, 118, PLAIN), "E1M1");
}

#[test]
fn tints_blend_by_their_kind() {
    let water = ScreenTint { red: 1, green: 2, blue: 3, average: true };
    let flash = ScreenTint { average: false, ..water };
    let quads = draw_screen_tints(Some(water), Some(flash));
    assert_eq!(quads, vec![(water, TintBlend::Average), (flash, TintBlend::Add)]);
    assert!(draw_screen_tints(None, None).is_empty());
    let words = screen_tint_words(1, 2, 3, 0xe100_0020, 0xe100_0200);
    assert_eq!(
        words,
        [0xe100_0020, 0x2a03_0201, 0, 320, 240 << 16, (240 << 16) | 320, 0xe100_0200]
    );
}
