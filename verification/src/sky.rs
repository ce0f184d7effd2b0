//! The two-layer sky behind the world, and texture windows.

use vstd::prelude::*;

use crate::world::TextureInfo;

verus! {

/// Cells of each sky layer.
pub const SKY_COLUMNS: usize = 10;
pub const SKY_ROWS: usize = 12;
pub const SKY_CELLS: usize = 120;

/// The farthest ordering-table slot.
pub const SKY_OT_SLOT: u32 = 2047;

/// Words of a sky quad and of a window packet.
pub const SKY_QUAD_WORDS: usize = 10;
pub const SKY_WINDOW_PACKET_WORDS: usize = 2;

/// Arena words of the whole sky.
pub const SKY_BACKGROUND_WORDS: usize = 2406;

/// Packets and triangles of the whole sky.
pub const SKY_PACKETS: u32 = 243;
pub const SKY_TRIANGLES: u32 = 480;

/// Seconds in which each layer scrolls by its own width.
pub const SKY_FOREGROUND_CYCLE_SECONDS: u32 = 8;
pub const SKY_BACKGROUND_CYCLE_SECONDS: u32 = 16;

pub const ANIMATION_FRAMES_PER_SECOND: u32 = 30;
pub const LEGACY_SKY_SCROLL_TEXELS_PER_SECOND: u32 = 4;

/// One staged texture-window command for a whole layer.
#[derive(Copy, Clone, Debug, PartialEq, Eq, Structural)]
pub struct SkyWindowPacket {
    pub tag: u32,
    pub command: u32,
}

impl SkyWindowPacket {
    pub fn new(command: u32) -> (packet: Self)
        ensures
            packet == (SkyWindowPacket { tag: 0x0100_07ff, command }),
    {
        SkyWindowPacket { tag: 0x0100_0000 + SKY_OT_SLOT, command }
    }
}

/// Side of a sky layer in texels.
pub open spec fn layer_size(size: int) -> int {
    if size < 8 {
        8
    } else if size > 128 {
        128
    } else {
        size
    }
}

pub fn sky_layer_size(size: i16) -> (side: u8)
    ensures
        side == layer_size(size as int),
{
    if size < 8 {
        8
    } else if size > 128 {
        128
    } else {
        size as u8
    }
}

/// Texels that a layer has scrolled by in a frame, at thirty frames a second.
pub open spec fn layer_scroll(frame: int, width: int, cycle_seconds: int) -> int {
    frame * width / (30 * cycle_seconds) % 256
}

pub fn sky_scroll(frame: u32, width: u8, cycle_seconds: u32) -> (scroll: u8)
    requires
        cycle_seconds > 0,
    ensures
        scroll == layer_scroll(frame as int, width as int, cycle_seconds as int),
{
    assert(0 <= frame * width <= 0xffff_ffff * 255) by (nonlinear_arith)
        requires
            0 <= frame <= 0xffff_ffff,
            0 <= width <= 255,
    ;
    let period: u64 = 30 * cycle_seconds as u64;
    (frame as u64 * width as u64 / period % 256) as u8
}

/// A layer has scrolled by its own width when its cycle is over.
pub proof fn sky_scroll_completes_its_cycle(width: int, cycle_seconds: int)
    requires
        8 <= width <= 128,
        0 < cycle_seconds,
    ensures
        layer_scroll(30 * cycle_seconds, width, cycle_seconds) == width,
        layer_scroll(0, width, cycle_seconds) == 0,
{
    let period = 30 * cycle_seconds;
    assert(period * width / period == width) by (nonlinear_arith)
        requires
            period > 0,
    ;
    assert(0 * width / period == 0) by (nonlinear_arith)
        requires
            period > 0,
    ;
}

/// Screen position of a lattice point.
pub fn sky_point(row: usize, column: usize) -> (point: (i16, i16))
    requires
        row <= SKY_ROWS,
        column <= SKY_COLUMNS,
    ensures
        point.0 == 32 * column,
        point.1 == 20 * row,
{
    (32 * column as i16, 20 * row as i16)
}

/// Lattice points of a layer along a row, and in all.
pub const SKY_LATTICE_COLUMNS: usize = 11;
pub const SKY_LATTICE_POINTS: usize = 143;

/// Where the view ray meets the screen, and how far behind the screen the eye
/// is.
pub const SKY_CENTER_X: i16 = 160;
pub const SKY_CENTER_Y: i16 = 120;
pub const SKY_VIEW_DISTANCE: i16 = 160;

/// Point `index` of the lattice, counted along the rows.
pub open spec fn lattice_point(index: int) -> (i16, i16) {
    ((32 * (index % 11)) as i16, (20 * (index / 11)) as i16)
}

/// The points at which the sky is sampled.
pub fn sky_lattice() -> (points: Vec<(i16, i16)>)
    ensures
        points@.len() == SKY_LATTICE_POINTS,
        forall|i: int|
            #![trigger points@[i]]
            0 <= i < SKY_LATTICE_POINTS ==> points@[i] == lattice_point(i),
{
    let mut points: Vec<(i16, i16)> = Vec::new();
    let mut index: usize = 0;
    while index < SKY_LATTICE_POINTS
        invariant
            index <= SKY_LATTICE_POINTS,
            points@.len() == index,
            forall|i: int| #![trigger points@[i]] 0 <= i < index ==> points@[i] == lattice_point(i),
        decreases SKY_LATTICE_POINTS - index,
    {
        points.push(sky_point(index / SKY_LATTICE_COLUMNS, index % SKY_LATTICE_COLUMNS));
        assert(points@[index as int] == lattice_point(index as int));
        index += 1;
    }
    points
}

/// A ray from the eye through a point of the screen.
#[derive(Copy, Clone, Debug, PartialEq, Eq)]
pub struct ScreenRay {
    pub point: (i16, i16),
    pub center: (i16, i16),
    pub distance: i16,
}

pub fn sky_ray(point: (i16, i16)) -> (ray: ScreenRay)
    ensures
        ray.point == point,
        ray.center == (160i16, 120i16),
        ray.distance == 160,
{
    ScreenRay { point, center: (SKY_CENTER_X, SKY_CENTER_Y), distance: SKY_VIEW_DISTANCE }
}

/// The lattice point at the upper left corner of a cell.
pub open spec fn cell_origin(cell: int) -> int {
    cell / 10 * 11 + cell % 10
}

/// The samples at the corners of a cell, row by row.
pub open spec fn corner_samples(samples: Seq<(i32, i32)>, cell: int) -> Seq<(i32, i32)> {
    let a = cell_origin(cell);
    seq![samples[a], samples[a + 1], samples[a + 11], samples[a + 12]]
}

pub fn cell_samples(samples: &Vec<(i32, i32)>, cell: usize) -> (corners: [(i32, i32); 4])
    requires
        samples@.len() == SKY_LATTICE_POINTS,
        cell < SKY_CELLS,
    ensures
        corners@ == corner_samples(samples@, cell as int),
{
    let a: usize = cell / SKY_COLUMNS * SKY_LATTICE_COLUMNS + cell % SKY_COLUMNS;
    let corners = [
        samples[a],
        samples[a + 1],
        samples[a + SKY_LATTICE_COLUMNS],
        samples[a + SKY_LATTICE_COLUMNS + 1],
    ];
    assert(corners@ =~= corner_samples(samples@, cell as int));
    corners
}

/// The corners of a cell's samples are the corners of its packet.
pub proof fn cells_are_sampled_at_their_corners(cell: int, uv: CellUv)
    requires
        0 <= cell < SKY_CELLS,
    ensures
        ({
            let packet = cell_packet(cell, uv);
            let a = cell_origin(cell);
            &&& lattice_point(a) == (packet->left, packet->top)
            &&& lattice_point(a + 1) == (packet->right, packet->top)
            &&& lattice_point(a + 11) == (packet->left, packet->bottom)
            &&& lattice_point(a + 12) == (packet->right, packet->bottom)
        }),
{
    let row = cell / 10;
    let column = cell % 10;
    assert(cell_origin(cell) == 11 * row + column);
    assert((11 * row + column) / 11 == row && (11 * row + column) % 11 == column);
    assert((11 * row + column + 1) / 11 == row && (11 * row + column + 1) % 11 == column + 1);
    assert((11 * row + column + 11) / 11 == row + 1 && (11 * row + column + 11) % 11 == column);
    assert((11 * row + column + 12) / 11 == row + 1 && (11 * row + column + 12) % 11 == column
        + 1);
}

/// The part of the atlas that a layer repeats.
#[derive(Copy, Clone, Debug, PartialEq, Eq, Structural)]
pub struct SkyTile {
    pub u: u8,
    pub v: u8,
    pub width: u8,
    pub height: u8,
}

/// The tiles of the two layers, the foreground first. They stand side by side
/// in the atlas.
pub open spec fn layer_tiles(texture: TextureInfo) -> (SkyTile, SkyTile) {
    let width = layer_size(texture.width as int) as u8;
    let height = layer_size(texture.height as int) as u8;
    (
        SkyTile { u: texture.atlas_x, v: texture.atlas_y, width, height },
        SkyTile { u: texture.atlas_x.wrapping_add(width), v: texture.atlas_y, width, height },
    )
}

pub fn sky_tiles(texture: TextureInfo) -> (tiles: (SkyTile, SkyTile))
    ensures
        tiles == layer_tiles(texture),
{
    let width: u8 = sky_layer_size(texture.width);
    let height: u8 = sky_layer_size(texture.height);
    (
        SkyTile { u: texture.atlas_x, v: texture.atlas_y, width, height },
        SkyTile { u: texture.atlas_x.wrapping_add(width), v: texture.atlas_y, width, height },
    )
}

/// What the texture coordinates of one cell are made from.
#[derive(Copy, Clone, Debug, PartialEq, Eq)]
pub struct CellMapping {
    pub samples: [(i32, i32); 4],
    pub tile: SkyTile,
    pub scroll: [u8; 2],
}

/// The mapping is that of a cell of a layer that has scrolled so far, by as
/// much along both axes.
pub open spec fn maps_cell(
    mapping: CellMapping,
    samples: Seq<(i32, i32)>,
    cell: int,
    tile: SkyTile,
    scroll: u8,
) -> bool {
    &&& mapping.samples@ == corner_samples(samples, cell)
    &&& mapping.tile == tile
    &&& mapping.scroll@ == seq![scroll, scroll]
}

fn layer_mappings(samples: &Vec<(i32, i32)>, tile: SkyTile, scroll: u8) -> (mappings: Vec<
    CellMapping,
>)
    requires
        samples@.len() == SKY_LATTICE_POINTS,
    ensures
        mappings@.len() == SKY_CELLS,
        forall|i: int|
            #![trigger mappings@[i]]
            0 <= i < SKY_CELLS ==> maps_cell(mappings@[i], samples@, i, tile, scroll),
{
    let mut mappings: Vec<CellMapping> = Vec::new();
    let mut cell: usize = 0;
    while cell < SKY_CELLS
        invariant
            cell <= SKY_CELLS,
            samples@.len() == SKY_LATTICE_POINTS,
            mappings@.len() == cell,
            forall|i: int|
                #![trigger mappings@[i]]
                0 <= i < cell ==> maps_cell(mappings@[i], samples@, i, tile, scroll),
        decreases SKY_CELLS - cell,
    {
        let mapping = CellMapping {
            samples: cell_samples(samples, cell),
            tile,
            scroll: [scroll, scroll],
        };
        assert(mapping.scroll@ =~= seq![scroll, scroll]);
        mappings.push(mapping);
        cell += 1;
    }
    mappings
}

/// The mappings of both layers in a frame, the foreground first. Both layers
/// are made from the same samples; each has its own tile and its own pace.
pub fn sky_mappings(texture: TextureInfo, frame: u32, samples: &Vec<(i32, i32)>) -> (layers: (
    Vec<CellMapping>,
    Vec<CellMapping>,
))
    requires
        samples@.len() == SKY_LATTICE_POINTS,
    ensures
        layers.0@.len() == SKY_CELLS,
        layers.1@.len() == SKY_CELLS,
        forall|i: int|
            #![trigger layers.0@[i]]
            0 <= i < SKY_CELLS ==> maps_cell(
                layers.0@[i],
                samples@,
                i,
                layer_tiles(texture).0,
                layer_scroll(frame as int, layer_size(texture.width as int), 8) as u8,
            ),
        forall|i: int|
            #![trigger layers.1@[i]]
            0 <= i < SKY_CELLS ==> maps_cell(
                layers.1@[i],
                samples@,
                i,
                layer_tiles(texture).1,
                layer_scroll(frame as int, layer_size(texture.width as int), 16) as u8,
            ),
{
    let (front, back) = sky_tiles(texture);
    let front_scroll: u8 = sky_scroll(frame, front.width, SKY_FOREGROUND_CYCLE_SECONDS);
    let back_scroll: u8 = sky_scroll(frame, back.width, SKY_BACKGROUND_CYCLE_SECONDS);
    (layer_mappings(samples, front, front_scroll), layer_mappings(samples, back, back_scroll))
}

/// Texture coordinates of a cell's corners, row by row.
#[derive(Copy, Clone, Debug, PartialEq, Eq)]
pub struct CellUv {
    pub u: [u8; 4],
    pub v: [u8; 4],
}

/// One packet of the sky.
#[derive(Copy, Clone, Debug, PartialEq, Eq)]
pub enum SkyPacket {
    Window(SkyWindowPacket),
    Cell { tag: u32, left: i16, top: i16, right: i16, bottom: i16, uv: CellUv },
}

pub open spec fn window_packet(command: u32) -> SkyPacket {
    SkyPacket::Window(SkyWindowPacket { tag: 0x0100_07ff, command })
}

/// Cell `index` of a layer, counted along the rows.
pub open spec fn cell_packet(index: int, uv: CellUv) -> SkyPacket {
    SkyPacket::Cell {
        tag: 0x0900_07ff,
        left: (32 * (index % 10)) as i16,
        top: (20 * (index / 10)) as i16,
        right: (32 * (index % 10 + 1)) as i16,
        bottom: (20 * (index / 10 + 1)) as i16,
        uv,
    }
}

/// The cells of a layer.
pub open spec fn layer_packets(uvs: Seq<CellUv>) -> Seq<SkyPacket> {
    Seq::new(SKY_CELLS as nat, |i: int| cell_packet(i, uvs[i]))
}

/// The tag of a packet: how many words follow it, and its ordering-table slot.
pub open spec fn packet_tag(packet: SkyPacket) -> u32 {
    match packet {
        SkyPacket::Window(window) => window.tag,
        SkyPacket::Cell { tag, .. } => tag,
    }
}

/// The whole sky as it is staged. The stream is linked by prepending, so the
/// reset that executes last comes first and each layer's window comes behind
/// its cells.
pub open spec fn sky_packets(
    reset: u32,
    foreground: u32,
    background: u32,
    foreground_uv: Seq<CellUv>,
    background_uv: Seq<CellUv>,
) -> Seq<SkyPacket> {
    seq![window_packet(reset)] + layer_packets(foreground_uv) + seq![window_packet(foreground)]
        + layer_packets(background_uv) + seq![window_packet(background)]
}

fn push_layer(packets: &mut Vec<SkyPacket>, uvs: &Vec<CellUv>)
    requires
        uvs@.len() == SKY_CELLS,
    ensures
        final(packets)@ == old(packets)@ + layer_packets(uvs@),
{
    let ghost before = packets@;
    let mut index: usize = 0;
    assert(before + layer_packets(uvs@).take(0) =~= before);
    while index < SKY_CELLS
        invariant
            index <= SKY_CELLS,
            uvs@.len() == SKY_CELLS,
            packets@ == before + layer_packets(uvs@).take(index as int),
        decreases SKY_CELLS - index,
    {
        let (left, top) = sky_point(index / SKY_COLUMNS, index % SKY_COLUMNS);
        let (right, bottom) = sky_point(index / SKY_COLUMNS + 1, index % SKY_COLUMNS + 1);
        packets.push(
            SkyPacket::Cell {
                tag: 0x0900_0000 + SKY_OT_SLOT,
                left,
                top,
                right,
                bottom,
                uv: uvs[index],
            },
        );
        assert(packets@[packets@.len() - 1] == cell_packet(index as int, uvs@[index as int]));
        index += 1;
        assert(packets@ =~= before + layer_packets(uvs@).take(index as int));
    }
    assert(layer_packets(uvs@).take(index as int) =~= layer_packets(uvs@));
}

/// Stage the sky. Visible sky faces select the texture but emit nothing, so
/// the cost is the same however much sky is in view.
pub fn submit_view_ray_sky_background(
    reset: u32,
    foreground: u32,
    background: u32,
    foreground_uv: &Vec<CellUv>,
    background_uv: &Vec<CellUv>,
) -> (packets: Vec<SkyPacket>)
    requires
        foreground_uv@.len() == SKY_CELLS,
        background_uv@.len() == SKY_CELLS,
    ensures
        packets@ == sky_packets(reset, foreground, background, foreground_uv@, background_uv@),
        packets@.len() == SKY_PACKETS,
        packets@[0] == window_packet(reset),
        packets@[242] == window_packet(background),
        forall|i: int|
            #![trigger packets@[i]]
            0 <= i < packets@.len() ==> {
                &&& packet_tag(packets@[i]) % 0x100_0000 == SKY_OT_SLOT
                &&& packet_tag(packets@[i]) / 0x100_0000 + 1 == packet_words(packets@[i])
            },
        words_of(packets@, packets@.len()) == SKY_BACKGROUND_WORDS,
{
    let mut packets: Vec<SkyPacket> = Vec::new();
    packets.push(SkyPacket::Window(SkyWindowPacket::new(reset)));
    assert(packets@ =~= seq![window_packet(reset)]);
    push_layer(&mut packets, foreground_uv);
    let ghost before = packets@;
    packets.push(SkyPacket::Window(SkyWindowPacket::new(foreground)));
    assert(packets@ =~= before + seq![window_packet(foreground)]);
    push_layer(&mut packets, background_uv);
    let ghost before = packets@;
    packets.push(SkyPacket::Window(SkyWindowPacket::new(background)));
    assert(packets@ =~= before + seq![window_packet(background)]);
    proof {
        let all = sky_packets(reset, foreground, background, foreground_uv@, background_uv@);
        assert(packets@ =~= all);
        sky_fits_its_words(reset, foreground, background, foreground_uv@, background_uv@);
        assert forall|i: int| #![trigger packets@[i]] 0 <= i < packets@.len() implies {
            &&& packet_tag(packets@[i]) % 0x100_0000 == SKY_OT_SLOT
            &&& packet_tag(packets@[i]) / 0x100_0000 + 1 == packet_words(packets@[i])
        } by {
            if 0 < i < 121 {
                assert(all[i] == cell_packet(i - 1, foreground_uv@[i - 1]));
            } else if 121 < i < 242 {
                assert(all[i] == cell_packet(i - 122, background_uv@[i - 122]));
            }
        }
    }
    packets
}

/// Words that a packet takes in the arena.
pub open spec fn packet_words(packet: SkyPacket) -> nat {
    match packet {
        SkyPacket::Window(_) => SKY_WINDOW_PACKET_WORDS as nat,
        SkyPacket::Cell { .. } => SKY_QUAD_WORDS as nat,
    }
}

/// Words of the first `count` packets.
pub open spec fn words_of(packets: Seq<SkyPacket>, count: nat) -> nat
    decreases count,
{
    if count == 0 {
        0
    } else {
        words_of(packets, (count - 1) as nat) + packet_words(packets[count - 1])
    }
}

proof fn words_of_cells(packets: Seq<SkyPacket>, first: nat, count: nat)
    requires
        forall|i: int| #![trigger packets[i]] first <= i < first + count ==> packets[i] is Cell,
    ensures
        words_of(packets, first + count) == words_of(packets, first) + SKY_QUAD_WORDS * count,
    decreases count,
{
    if count > 0 {
        words_of_cells(packets, first, (count - 1) as nat);
        assert(packets[first + count - 1] is Cell);
    }
}

/// The sky takes exactly the words that are found free for it beforehand.
pub proof fn sky_fits_its_words(
    reset: u32,
    foreground: u32,
    background: u32,
    foreground_uv: Seq<CellUv>,
    background_uv: Seq<CellUv>,
)
    ensures
        ({
            let packets = sky_packets(
                reset,
                foreground,
                background,
                foreground_uv,
                background_uv,
            );
            words_of(packets, packets.len()) == SKY_BACKGROUND_WORDS
        }),
{
    let packets = sky_packets(reset, foreground, background, foreground_uv, background_uv);
    reveal_with_fuel(words_of, 2);
    assert(packets.len() == 243);
    assert(packets[0] == window_packet(reset));
    assert(words_of(packets, 1) == 2);
    words_of_cells(packets, 1, 120);
    assert(packets[121] == window_packet(foreground));
    words_of_cells(packets, 122, 120);
    assert(packets[242] == window_packet(background));
}

/// The cells of a layer tile the screen: neighbours share an edge, and the
/// outer cells end at the screen's edges.
pub proof fn sky_cells_tile_the_screen(index: int, uv: CellUv, other: CellUv)
    requires
        0 <= index < SKY_CELLS,
    ensures
        ({
            let cell = cell_packet(index, uv);
            &&& index % 10 == 0 ==> cell->left == 0
            &&& index % 10 == 9 ==> cell->right == 320
            &&& index % 10 != 9 ==> cell->right == cell_packet(index + 1, other)->left
            &&& index < 10 ==> cell->top == 0
            &&& index >= 110 ==> cell->bottom == 240
            &&& index < 110 ==> cell->bottom == cell_packet(index + 10, other)->top
        }),
{
}

/// Mask of a texture window of `size` texels, a power of two.
pub fn texture_window_mask(size: u8) -> (mask: u8)
    requires
        size > 0,
    ensures
        mask == (256 - size) / 8,
{
    (255 - (size - 1)) / 8
}

/// Masks and offsets of a texture window, in steps of eight texels.
#[derive(Copy, Clone, Debug, PartialEq, Eq, Structural)]
pub struct WindowFields {
    pub mask_x: u8,
    pub mask_y: u8,
    pub offset_x: u8,
    pub offset_y: u8,
}

/// Width of a special texture's window: twice the texture, at most 128.
pub open spec fn window_width(width: int) -> int {
    let doubled = 2 * (if width < 4 { 4 } else { width });
    if doubled > 128 {
        128
    } else {
        doubled
    }
}

/// Height of a liquid's window.
pub open spec fn window_height(height: int) -> int {
    if height < 8 {
        8
    } else if height > 128 {
        128
    } else {
        height
    }
}

/// The window of a liquid or legacy sky texture. Sky only scrolls sideways and
/// may stand at any row, so its rows are left unmasked.
pub fn special_texture_window(texture: TextureInfo) -> (window: WindowFields)
    ensures
        window == if texture.flags.liquid {
            WindowFields {
                mask_x: ((256 - window_width(texture.width as int)) / 8) as u8,
                mask_y: ((256 - window_height(texture.height as int)) / 8) as u8,
                offset_x: texture.atlas_x / 8,
                offset_y: texture.atlas_y / 8,
            }
        } else {
            WindowFields {
                mask_x: ((256 - window_width(texture.width as int)) / 8) as u8,
                mask_y: 0,
                offset_x: texture.atlas_x / 8,
                offset_y: 0,
            }
        },
{
    let wide: u16 = if texture.width < 4 {
        4
    } else {
        texture.width as u16
    };
    let width: u8 = if wide > 64 {
        128
    } else {
        (2 * wide) as u8
    };
    let mask_x: u8 = texture_window_mask(width);
    let offset_x: u8 = texture.atlas_x / 8;
    if texture.flags.liquid {
        let height: u8 = if texture.height < 8 {
            8
        } else if texture.height > 128 {
            128
        } else {
            texture.height as u8
        };
        WindowFields {
            mask_x,
            mask_y: texture_window_mask(height),
            offset_x,
            offset_y: texture.atlas_y / 8,
        }
    } else {
        WindowFields { mask_x, mask_y: 0, offset_x, offset_y: 0 }
    }
}

/// Texels that a legacy sky has scrolled by in a frame.
pub open spec fn legacy_scroll(frame: u32) -> int {
    frame.wrapping_mul(LEGACY_SKY_SCROLL_TEXELS_PER_SECOND) as int
        / ANIMATION_FRAMES_PER_SECOND as int % 256
}

/// Scroll the texture of a legacy sky face. Liquids are warped in their own
/// tile and stay as they are here.
pub fn animate_special_surface(u: &mut Vec<u8>, texture: TextureInfo, frame: u32)
    ensures
        final(u)@ == if texture.flags.sky {
            old(u)@.map_values(|value: u8| value.wrapping_add(legacy_scroll(frame) as u8))
        } else {
            old(u)@
        },
{
    if !texture.flags.sky {
        return ;
    }
    let scroll: u8 = (frame.wrapping_mul(LEGACY_SKY_SCROLL_TEXELS_PER_SECOND)
        / ANIMATION_FRAMES_PER_SECOND % 256) as u8;
    let mut index: usize = 0;
    while index < u.len()
        invariant
            index <= u@.len(),
            u@.len() == old(u)@.len(),
            scroll == legacy_scroll(frame),
            forall|i: int|
                #![trigger u@[i]]
                0 <= i < u@.len() ==> u@[i] == if i < index {
                    old(u)@[i].wrapping_add(scroll)
                } else {
                    old(u)@[i]
                },
        decreases u@.len() - index,
    {
        let value: u8 = u[index];
        u.set(index, value.wrapping_add(scroll));
        index += 1;
    }
    assert(u@ =~= old(u)@.map_values(|value: u8| value.wrapping_add(legacy_scroll(frame) as u8)));
}

/// Each layer's cells carry that layer's own texture coordinates, in order, and
/// its window stands right behind them.
pub proof fn layers_keep_their_own_coordinates(
    reset: u32,
    foreground: u32,
    background: u32,
    foreground_uv: Seq<CellUv>,
    background_uv: Seq<CellUv>,
    cell: int,
)
    requires
        0 <= cell < 120,
    ensures
        ({
            let packets = sky_packets(
                reset,
                foreground,
                background,
                foreground_uv,
                background_uv,
            );
            &&& packets.len() == 243
            &&& packets[0] matches SkyPacket::Window(window) && window.command == reset
            &&& packets[1 + cell] matches SkyPacket::Cell { left, top, uv, .. } && uv
                == foreground_uv[cell] && left == 32 * (cell % 10) && top == 20 * (cell / 10)
            &&& packets[121] matches SkyPacket::Window(window) && window.command == foreground
            &&& packets[122 + cell] matches SkyPacket::Cell { left, top, uv, .. } && uv
                == background_uv[cell] && left == 32 * (cell % 10) && top == 20 * (cell / 10)
            &&& packets[242] matches SkyPacket::Window(window) && window.command == background
        }),
{
}

/// The tiles of the two layers are as large as the texture, where that is a size
/// that a layer can have, and lie side by side in its row of the atlas.
pub proof fn layer_tiles_lie_side_by_side(texture: TextureInfo)
    requires
        8 <= texture.width <= 128,
        8 <= texture.height <= 128,
        texture.atlas_x + texture.width <= 255,
    ensures
        ({
            let (front, back) = layer_tiles(texture);
            &&& front.width == texture.width && back.width == texture.width
            &&& front.height == texture.height && back.height == texture.height
            &&& front.u == texture.atlas_x && back.u == front.u + front.width
            &&& front.v == texture.atlas_y && back.v == texture.atlas_y
        }),
{
}

/// A layer's side stays within its limits, and a side within them is kept.
pub proof fn layer_sizes_stay_within_limits(size: int)
    ensures
        8 <= layer_size(size) <= 128,
        8 <= size <= 128 ==> layer_size(size) == size,
        size < 8 ==> layer_size(size) == 8,
        size > 128 ==> layer_size(size) == 128,
{
}

/// A layer with twice the cycle takes twice the frames for the same way.
pub proof fn the_slower_layer_takes_twice_the_frames(frame: int, width: int)
    ensures
        layer_scroll(2 * frame, width, 16) == layer_scroll(frame, width, 8),
{
    assert(2 * frame * width == 2 * (frame * width)) by (nonlinear_arith);
    assert(2 * (frame * width) / 480 == frame * width / 240);
}

/// A scroll never runs ahead of its pace and lags by less than a texel.
pub proof fn layers_scroll_at_their_pace(frame: int, width: int, cycle_seconds: int)
    requires
        0 <= frame <= 30 * cycle_seconds,
        0 < cycle_seconds,
        8 <= width <= 128,
    ensures
        ({
            let scroll = layer_scroll(frame, width, cycle_seconds);
            scroll * (30 * cycle_seconds) <= frame * width < (scroll + 1) * (30 * cycle_seconds)
        }),
{
    let period = 30 * cycle_seconds;
    let way = frame * width;
    assert(0 <= way <= period * width) by (nonlinear_arith)
        requires
            way == frame * width,
            0 <= frame <= period,
            0 <= width,
    ;
    assert(0 <= way / period <= width) by (nonlinear_arith)
        requires
            0 <= way <= period * width,
            0 < period,
    ;
    assert((way / period) * period <= way < (way / period + 1) * period) by (nonlinear_arith)
        requires
            0 <= way,
            0 < period,
    ;
}

/// A window is as large as the texture asks for within its limits: twice the
/// width, for the tile and its neighbour, and once the height.
pub proof fn windows_hold_their_textures(width: int, height: int)
    ensures
        4 <= width <= 64 ==> window_width(width) == 2 * width,
        width < 4 ==> window_width(width) == 8,
        width > 64 ==> window_width(width) == 128,
        8 <= height <= 128 ==> window_height(height) == height,
        height < 8 ==> window_height(height) == 8,
        height > 128 ==> window_height(height) == 128,
{
}

/// A legacy sky scrolls by four texels a second.
pub proof fn legacy_skies_scroll_four_texels_a_second(frame: u32)
    requires
        frame <= 1_000_000,
    ensures
        legacy_scroll((frame + 30) as u32) == (legacy_scroll(frame) + 4) % 256,
        legacy_scroll(0) == 0,
        frame < 1920 ==> legacy_scroll(frame) * 30 <= 4 * frame < (legacy_scroll(frame) + 1) * 30,
{
    let way = 4 * frame as int;
    assert(frame.wrapping_mul(4) == way);
    assert(((frame + 30) as u32).wrapping_mul(4) == way + 120);
    assert((way + 120) / 30 == way / 30 + 4);
    assert(legacy_scroll(frame) == way / 30 % 256);
    assert(legacy_scroll((frame + 30) as u32) == (way / 30 + 4) % 256);
    assert((way / 30 + 4) % 256 == (way / 30 % 256 + 4) % 256);
    assert(0u32.wrapping_mul(4) == 0);
}

/// Neighbouring cells share the samples of the edge between them, and each cell
/// begins with its own.
pub proof fn neighbours_share_their_samples(samples: Seq<(i32, i32)>, cell: int)
    requires
        samples.len() == 143,
        0 <= cell < 120,
    ensures
        ({
            let here = corner_samples(samples, cell);
            &&& here.len() == 4
            &&& here[0] == samples[11 * (cell / 10) + cell % 10]
            &&& cell % 10 < 9 ==> here[1] == corner_samples(samples, cell + 1)[0] && here[3]
                == corner_samples(samples, cell + 1)[2]
            &&& cell < 110 ==> here[2] == corner_samples(samples, cell + 10)[0] && here[3]
                == corner_samples(samples, cell + 10)[1]
        }),
{
    if cell % 10 < 9 {
        assert((cell + 1) / 10 == cell / 10 && (cell + 1) % 10 == cell % 10 + 1);
    }
    assert((cell + 10) / 10 == cell / 10 + 1 && (cell + 10) % 10 == cell % 10);
}

/// A cell is mapped by the samples at its own corners, on its layer's tile, and
/// scrolls as far along both axes.
pub proof fn cells_are_mapped_by_their_own_corners(
    mapping: CellMapping,
    samples: Seq<(i32, i32)>,
    cell: int,
    tile: SkyTile,
    scroll: u8,
)
    requires
        maps_cell(mapping, samples, cell, tile, scroll),
    ensures
        mapping.samples@ == corner_samples(samples, cell),
        mapping.tile == tile,
        mapping.scroll@[0] == scroll && mapping.scroll@[1] == scroll,
{
}

} // verus!
