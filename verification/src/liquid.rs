//! Animated liquid tiles: each liquid has two tiles in video memory, and a new
//! phase is always written to the one that is not on screen.

use vstd::prelude::*;

use crate::selection::FRAME_FACE_INDEX_MASK;
use crate::world::{TextureInfo, VisibleFace};

verus! {

/// Liquids that a map may have.
pub const MAX_LIQUID_TEXTURES: usize = 4;

/// Phase that stands for "nothing uploaded yet".
pub const NO_PHASE: u8 = 255;

/// One liquid with its two tiles.
#[derive(Copy, Clone, Debug, PartialEq, Eq, Structural)]
pub struct LiquidTexture {
    pub texture_index: u16,
    pub primary: TextureInfo,
    pub alternate: TextureInfo,
}

/// What is known of each liquid.
#[derive(Copy, Clone, Debug, PartialEq, Eq, Structural)]
pub struct LiquidTile {
    /// The current phase has been uploaded.
    pub uploaded: bool,
    /// The alternate tile is the one on screen.
    pub alternate_active: bool,
}

/// Upload state of the liquids of one map.
pub struct LiquidState {
    pub generation: u32,
    pub phase: u8,
    pub tiles: Vec<LiquidTile>,
}

pub open spec fn fresh_tiles() -> Seq<LiquidTile> {
    Seq::new(
        MAX_LIQUID_TEXTURES as nat,
        |i: int| LiquidTile { uploaded: false, alternate_active: false },
    )
}

/// Whether one of the first `count` selected faces shows texture `texture`.
pub open spec fn shows_texture(faces: Seq<VisibleFace>, selected: Seq<u16>, texture: u16, count: int) -> bool {
    exists|k: int|
        0 <= k < count && faces[((#[trigger] selected[k]) & FRAME_FACE_INDEX_MASK) as int].face.material
            == texture
}

/// Which liquids are among the selected faces.
pub fn visible_liquids(liquids: &Vec<LiquidTexture>, faces: &Vec<VisibleFace>, selected: &Vec<u16>) -> (visible: Vec<bool>)
    requires
        forall|k: int|
            #![trigger selected@[k]]
            0 <= k < selected@.len() ==> selected@[k] & FRAME_FACE_INDEX_MASK < faces@.len(),
    ensures
        visible@ == Seq::new(
            liquids@.len(),
            |l: int|
                shows_texture(
                    faces@,
                    selected@,
                    liquids@[l].texture_index,
                    selected@.len() as int,
                ),
        ),
{
    let mut visible: Vec<bool> = Vec::new();
    let mut liquid: usize = 0;
    while liquid < liquids.len()
        invariant
            liquid <= liquids@.len(),
            visible@.len() == liquid,
            forall|k: int|
                #![trigger selected@[k]]
                0 <= k < selected@.len() ==> selected@[k] & FRAME_FACE_INDEX_MASK < faces@.len(),
            forall|l: int|
                #![trigger visible@[l]]
                0 <= l < liquid ==> visible@[l] == shows_texture(
                    faces@,
                    selected@,
                    liquids@[l].texture_index,
                    selected@.len() as int,
                ),
        decreases liquids@.len() - liquid,
    {
        let texture: u16 = liquids[liquid].texture_index;
        let mut found: bool = false;
        let mut index: usize = 0;
        while index < selected.len()
            invariant
                index <= selected@.len(),
                forall|k: int|
                    #![trigger selected@[k]]
                    0 <= k < selected@.len() ==> selected@[k] & FRAME_FACE_INDEX_MASK
                        < faces@.len(),
                found == shows_texture(faces@, selected@, texture, index as int),
            decreases selected@.len() - index,
        {
            let entry: u16 = selected[index];
            let hit: bool = faces[(entry & FRAME_FACE_INDEX_MASK) as usize].face.material
                == texture;
            proof {
                if hit {
                    assert(faces@[(selected@[index as int] & FRAME_FACE_INDEX_MASK) as int].face.material
                        == texture);
                }
                if found {
                    let k = choose|k: int|
                        0 <= k < index && faces@[((#[trigger] selected@[k])
                            & FRAME_FACE_INDEX_MASK) as int].face.material == texture;
                    assert(0 <= k < index + 1);
                }
                if shows_texture(faces@, selected@, texture, index + 1) && !hit {
                    let k = choose|k: int|
                        0 <= k < index + 1 && faces@[((#[trigger] selected@[k])
                            & FRAME_FACE_INDEX_MASK) as int].face.material == texture;
                    assert(k < index);
                }
            }
            if hit {
                found = true;
            }
            index += 1;
        }
        visible.push(found);
        liquid += 1;
    }
    assert(visible@ =~= Seq::new(
        liquids@.len(),
        |l: int|
            shows_texture(faces@, selected@, liquids@[l].texture_index, selected@.len() as int),
    ));
    visible
}

/// One tile to write.
#[derive(Copy, Clone, Debug, PartialEq, Eq, Structural)]
pub struct LiquidUpload {
    pub liquid: usize,
    pub destination: TextureInfo,
}

/// The tile of a liquid that is on screen.
pub open spec fn active_tile(liquid: LiquidTexture, tile: LiquidTile) -> TextureInfo {
    if tile.alternate_active {
        liquid.alternate
    } else {
        liquid.primary
    }
}

/// The tile of a liquid that is not on screen.
pub open spec fn hidden_tile(liquid: LiquidTexture, tile: LiquidTile) -> TextureInfo {
    if tile.alternate_active {
        liquid.primary
    } else {
        liquid.alternate
    }
}

/// Liquids among the first `count` that are visible and not up to date.
pub open spec fn uploads_below(
    liquids: Seq<LiquidTexture>,
    tiles: Seq<LiquidTile>,
    visible: Seq<bool>,
    count: nat,
) -> Seq<LiquidUpload>
    decreases count,
{
    if count == 0 {
        Seq::empty()
    } else {
        let before = uploads_below(liquids, tiles, visible, (count - 1) as nat);
        if visible[count - 1] && !tiles[count - 1].uploaded {
            before.push(
                LiquidUpload {
                    liquid: (count - 1) as usize,
                    destination: hidden_tile(liquids[count - 1], tiles[count - 1]),
                },
            )
        } else {
            before
        }
    }
}

/// Tiles after a new phase has begun: nothing of it is uploaded.
pub open spec fn stale_tiles(tiles: Seq<LiquidTile>) -> Seq<LiquidTile> {
    tiles.map_values(|tile: LiquidTile| LiquidTile { uploaded: false, ..tile })
}

/// Tiles after the visible ones have been brought up to date: each liquid that
/// was written now shows the tile that was hidden.
pub open spec fn committed_tiles(tiles: Seq<LiquidTile>, visible: Seq<bool>) -> Seq<LiquidTile> {
    Seq::new(
        tiles.len(),
        |i: int|
            if i < visible.len() && visible[i] && !tiles[i].uploaded {
                LiquidTile { uploaded: true, alternate_active: !tiles[i].alternate_active }
            } else {
                tiles[i]
            },
    )
}

/// Active textures after the first `count` liquids have been committed.
pub open spec fn committed_textures(
    active: Seq<TextureInfo>,
    liquids: Seq<LiquidTexture>,
    tiles: Seq<LiquidTile>,
    visible: Seq<bool>,
    count: nat,
) -> Seq<TextureInfo>
    decreases count,
{
    if count == 0 {
        active
    } else {
        let before = committed_textures(active, liquids, tiles, visible, (count - 1) as nat);
        if visible[count - 1] && !tiles[count - 1].uploaded {
            before.update(
                liquids[count - 1].texture_index as int,
                hidden_tile(liquids[count - 1], tiles[count - 1]),
            )
        } else {
            before
        }
    }
}

impl LiquidState {
    pub open spec fn valid(&self) -> bool {
        self.tiles@.len() == MAX_LIQUID_TEXTURES
    }

    pub fn new() -> (state: Self)
        ensures
            state.valid(),
            state.generation == u32::MAX,
            state.phase == NO_PHASE,
            state.tiles@ == fresh_tiles(),
    {
        LiquidState { generation: u32::MAX, phase: NO_PHASE, tiles: new_tiles() }
    }

    /// When another map has become resident, start from its own textures with
    /// nothing uploaded.
    pub fn begin_map(&mut self, generation: u32, textures: &Vec<TextureInfo>, active: &mut Vec<TextureInfo>)
        requires
            old(self).valid(),
        ensures
            final(self).valid(),
            final(self).generation == generation,
            old(self).generation == generation ==> *final(self) == *old(self) && final(active)@
                == old(active)@,
            old(self).generation != generation ==> final(self).phase == NO_PHASE
                && final(self).tiles@ == fresh_tiles() && final(active)@ == textures@,
    {
        if self.generation == generation {
            return ;
        }
        active.clear();
        let mut index: usize = 0;
        while index < textures.len()
            invariant
                index <= textures@.len(),
                active@ == textures@.take(index as int),
            decreases textures@.len() - index,
        {
            active.push(textures[index]);
            index += 1;
            assert(active@ =~= textures@.take(index as int));
        }
        assert(active@ =~= textures@);
        self.generation = generation;
        self.phase = NO_PHASE;
        self.tiles = new_tiles();
    }

    /// What has to be written for this frame: nothing while no liquid is seen,
    /// else every visible liquid that does not show this phase yet. Each goes
    /// to the tile that is not on screen.
    pub fn plan_uploads(&mut self, liquids: &Vec<LiquidTexture>, visible: &Vec<bool>, phase: u8) -> (uploads: Vec<
        LiquidUpload,
    >)
        requires
            old(self).valid(),
            liquids@.len() <= MAX_LIQUID_TEXTURES,
            visible@.len() == liquids@.len(),
        ensures
            final(self).valid(),
            final(self).generation == old(self).generation,
            !visible@.contains(true) ==> uploads@.len() == 0 && *final(self) == *old(self),
            visible@.contains(true) ==> {
                &&& final(self).phase == phase
                &&& final(self).tiles@ == if old(self).phase == phase {
                    old(self).tiles@
                } else {
                    stale_tiles(old(self).tiles@)
                }
                &&& uploads@ == uploads_below(
                    liquids@,
                    final(self).tiles@,
                    visible@,
                    liquids@.len(),
                )
            },
    {
        let mut uploads: Vec<LiquidUpload> = Vec::new();
        let mut any: bool = false;
        let mut look: usize = 0;
        while look < visible.len()
            invariant
                look <= visible@.len(),
                any == visible@.take(look as int).contains(true),
            decreases visible@.len() - look,
        {
            let seen: bool = visible[look];
            proof {
                let before = visible@.take(look as int);
                let after = visible@.take(look + 1);
                assert(after =~= before.push(seen));
                if before.contains(true) {
                    let k = choose|k: int| 0 <= k < before.len() && before[k] == true;
                    assert(after[k] == true);
                }
                if seen {
                    assert(after[look as int] == true);
                }
                if after.contains(true) && !seen {
                    let k = choose|k: int| 0 <= k < after.len() && after[k] == true;
                    assert(before[k] == true);
                }
            }
            if seen {
                any = true;
            }
            look += 1;
        }
        assert(visible@.take(look as int) =~= visible@);
        if !any {
            return uploads;
        }
        if self.phase != phase {
            self.phase = phase;
            let mut index: usize = 0;
            while index < MAX_LIQUID_TEXTURES
                invariant
                    index <= MAX_LIQUID_TEXTURES,
                    self.tiles@.len() == MAX_LIQUID_TEXTURES,
                    old(self).tiles@.len() == MAX_LIQUID_TEXTURES,
                    self.generation == old(self).generation,
                    self.phase == phase,
                    forall|i: int|
                        #![trigger self.tiles@[i]]
                        0 <= i < MAX_LIQUID_TEXTURES ==> self.tiles@[i] == if i < index {
                            LiquidTile { uploaded: false, ..old(self).tiles@[i] }
                        } else {
                            old(self).tiles@[i]
                        },
                decreases MAX_LIQUID_TEXTURES - index,
            {
                let mut tile: LiquidTile = self.tiles[index];
                tile.uploaded = false;
                self.tiles.set(index, tile);
                index += 1;
            }
            assert(self.tiles@ =~= stale_tiles(old(self).tiles@));
        }
        let mut liquid: usize = 0;
        while liquid < liquids.len()
            invariant
                liquid <= liquids@.len() <= MAX_LIQUID_TEXTURES,
                visible@.len() == liquids@.len(),
                self.tiles@.len() == MAX_LIQUID_TEXTURES,
                uploads@ == uploads_below(liquids@, self.tiles@, visible@, liquid as nat),
            decreases liquids@.len() - liquid,
        {
            let tile: LiquidTile = self.tiles[liquid];
            if visible[liquid] && !tile.uploaded {
                let texture: LiquidTexture = liquids[liquid];
                uploads.push(
                    LiquidUpload {
                        liquid,
                        destination: if tile.alternate_active {
                            texture.primary
                        } else {
                            texture.alternate
                        },
                    },
                );
            }
            liquid += 1;
        }
        uploads
    }

    /// The planned uploads are staged: show them.
    pub fn commit(&mut self, liquids: &Vec<LiquidTexture>, visible: &Vec<bool>, active: &mut Vec<TextureInfo>)
        requires
            old(self).valid(),
            liquids@.len() <= MAX_LIQUID_TEXTURES,
            visible@.len() == liquids@.len(),
            forall|l: int|
                #![trigger liquids@[l]]
                0 <= l < liquids@.len() ==> liquids@[l].texture_index < old(active)@.len(),
        ensures
            final(self).valid(),
            final(self).generation == old(self).generation,
            final(self).phase == old(self).phase,
            final(self).tiles@ == committed_tiles(old(self).tiles@, visible@),
            final(active)@ == committed_textures(
                old(active)@,
                liquids@,
                old(self).tiles@,
                visible@,
                liquids@.len(),
            ),
    {
        let mut liquid: usize = 0;
        while liquid < liquids.len()
            invariant
                liquid <= liquids@.len() <= MAX_LIQUID_TEXTURES,
                visible@.len() == liquids@.len(),
                self.tiles@.len() == MAX_LIQUID_TEXTURES,
                old(self).tiles@.len() == MAX_LIQUID_TEXTURES,
                self.generation == old(self).generation,
                self.phase == old(self).phase,
                active@.len() == old(active)@.len(),
                forall|l: int|
                    #![trigger liquids@[l]]
                    0 <= l < liquids@.len() ==> liquids@[l].texture_index < active@.len(),
                forall|i: int|
                    #![trigger self.tiles@[i]]
                    0 <= i < MAX_LIQUID_TEXTURES ==> self.tiles@[i] == if i < liquid {
                        committed_tiles(old(self).tiles@, visible@)[i]
                    } else {
                        old(self).tiles@[i]
                    },
                active@ == committed_textures(
                    old(active)@,
                    liquids@,
                    old(self).tiles@,
                    visible@,
                    liquid as nat,
                ),
            decreases liquids@.len() - liquid,
        {
            let tile: LiquidTile = self.tiles[liquid];
            if visible[liquid] && !tile.uploaded {
                let texture: LiquidTexture = liquids[liquid];
                active.set(
                    texture.texture_index as usize,
                    if tile.alternate_active {
                        texture.primary
                    } else {
                        texture.alternate
                    },
                );
                self.tiles.set(
                    liquid,
                    LiquidTile { uploaded: true, alternate_active: !tile.alternate_active },
                );
            }
            liquid += 1;
        }
        assert(self.tiles@ =~= committed_tiles(old(self).tiles@, visible@));
    }
}

fn new_tiles() -> (tiles: Vec<LiquidTile>)
    ensures
        tiles@ == fresh_tiles(),
{
    let mut tiles: Vec<LiquidTile> = Vec::new();
    while tiles.len() < MAX_LIQUID_TEXTURES
        invariant
            tiles@.len() <= MAX_LIQUID_TEXTURES,
            forall|i: int|
                #![trigger tiles@[i]]
                0 <= i < tiles@.len() ==> tiles@[i] == (LiquidTile {
                    uploaded: false,
                    alternate_active: false,
                }),
        decreases MAX_LIQUID_TEXTURES - tiles@.len(),
    {
        tiles.push(LiquidTile { uploaded: false, alternate_active: false });
    }
    assert(tiles@ =~= fresh_tiles());
    tiles
}

/// An upload never touches the tile on screen, and once it is committed the
/// written tile is the one on screen.
pub proof fn uploads_stay_off_screen(liquid: LiquidTexture, tiles: Seq<LiquidTile>, visible: Seq<bool>, index: int)
    requires
        0 <= index < tiles.len(),
        index < visible.len(),
        visible[index],
        !tiles[index].uploaded,
        liquid.primary != liquid.alternate,
    ensures
        hidden_tile(liquid, tiles[index]) != active_tile(liquid, tiles[index]),
        active_tile(liquid, committed_tiles(tiles, visible)[index]) == hidden_tile(
            liquid,
            tiles[index],
        ),
        committed_tiles(tiles, visible)[index].uploaded,
{
}

/// Of the two tiles of a liquid one is on screen and the other is not.
pub proof fn one_tile_is_on_screen(liquid: LiquidTexture, tile: LiquidTile)
    ensures
        tile.alternate_active ==> active_tile(liquid, tile) == liquid.alternate && hidden_tile(
            liquid,
            tile,
        ) == liquid.primary,
        !tile.alternate_active ==> active_tile(liquid, tile) == liquid.primary && hidden_tile(
            liquid,
            tile,
        ) == liquid.alternate,
{
}

/// Just the visible liquids whose phase is not there yet are uploaded, each to
/// its own tile that is not on screen, in order and once.
pub proof fn uploads_go_off_screen(
    liquids: Seq<LiquidTexture>,
    tiles: Seq<LiquidTile>,
    visible: Seq<bool>,
    count: nat,
)
    requires
        count <= 4,
    ensures
        ({
            let uploads = uploads_below(liquids, tiles, visible, count);
            &&& uploads.len() <= count
            &&& forall|k: int|
                #![trigger uploads[k]]
                0 <= k < uploads.len() ==> {
                    let at = uploads[k].liquid as int;
                    &&& at < count
                    &&& visible[at] && !tiles[at].uploaded
                    &&& uploads[k].destination == (if tiles[at].alternate_active {
                        liquids[at].primary
                    } else {
                        liquids[at].alternate
                    })
                }
            &&& forall|j: int, k: int|
                #![trigger uploads[j], uploads[k]]
                0 <= j < k < uploads.len() ==> uploads[j].liquid < uploads[k].liquid
            &&& forall|i: int|
                #![trigger visible[i]]
                0 <= i < count && visible[i] && !tiles[i].uploaded ==> exists|k: int|
                    0 <= k < uploads.len() && (#[trigger] uploads[k]).liquid == i
        }),
    decreases count,
{
    if count > 0 {
        uploads_go_off_screen(liquids, tiles, visible, (count - 1) as nat);
        let before = uploads_below(liquids, tiles, visible, (count - 1) as nat);
        let uploads = uploads_below(liquids, tiles, visible, count);
        assert forall|i: int|
            #![trigger visible[i]]
            0 <= i < count && visible[i] && !tiles[i].uploaded implies exists|k: int|
            0 <= k < uploads.len() && (#[trigger] uploads[k]).liquid == i by {
            if i < count - 1 {
                let k = choose|k: int|
                    0 <= k < before.len() && (#[trigger] before[k]).liquid == i;
                assert(uploads[k] == before[k]);
            } else {
                assert(uploads[before.len() as int].liquid == i);
            }
        }
    }
}

/// A commit swaps the tiles of the liquids that were uploaded: what was off
/// screen is on screen. The others stay as they are.
pub proof fn commits_swap_the_uploaded_tiles(
    liquid: LiquidTexture,
    tiles: Seq<LiquidTile>,
    visible: Seq<bool>,
    at: int,
)
    requires
        0 <= at < tiles.len(),
        at < visible.len(),
    ensures
        ({
            let after = committed_tiles(tiles, visible);
            &&& visible[at] && !tiles[at].uploaded ==> after[at].uploaded && active_tile(
                liquid,
                after[at],
            ) == hidden_tile(liquid, tiles[at]) && hidden_tile(liquid, after[at]) == active_tile(
                liquid,
                tiles[at],
            )
            &&& !visible[at] || tiles[at].uploaded ==> after[at] == tiles[at]
            &&& visible[at] ==> after[at].uploaded
        }),
        stale_tiles(tiles)[at].alternate_active == tiles[at].alternate_active,
        !stale_tiles(tiles)[at].uploaded,
{
}

/// A commit changes the texture of no face but those of the liquids that were
/// uploaded, and gives each of these its own tile, where no two liquids share a
/// texture.
pub proof fn commits_change_only_liquids(
    active: Seq<TextureInfo>,
    liquids: Seq<LiquidTexture>,
    tiles: Seq<LiquidTile>,
    visible: Seq<bool>,
    count: nat,
    texture: int,
)
    requires
        0 <= texture < active.len(),
        forall|i: int, j: int|
            0 <= i < count && 0 <= j < count && i != j ==> (#[trigger] liquids[i]).texture_index != (
            #[trigger] liquids[j]).texture_index,
        forall|i: int|
            0 <= i < count ==> (#[trigger] liquids[i]).texture_index < active.len(),
    ensures
        ({
            let after = committed_textures(active, liquids, tiles, visible, count);
            &&& after.len() == active.len()
            &&& (forall|i: int|
                0 <= i < count && (#[trigger] liquids[i]).texture_index == texture ==> !visible[i]
                    || tiles[i].uploaded) ==> after[texture] == active[texture]
            &&& forall|i: int|
                0 <= i < count && (#[trigger] liquids[i]).texture_index == texture && visible[i]
                    && !tiles[i].uploaded ==> after[texture] == (if tiles[i].alternate_active {
                    liquids[i].primary
                } else {
                    liquids[i].alternate
                })
        }),
    decreases count,
{
    if count > 0 {
        commits_change_only_liquids(active, liquids, tiles, visible, (count - 1) as nat, texture);
    }
}

/// A liquid is in view when one of the selected faces has its texture; which
/// marks an entry carries does not matter.
pub proof fn liquids_are_seen_on_their_faces(
    faces: Seq<VisibleFace>,
    selected: Seq<u16>,
    texture: u16,
    count: int,
    at: int,
)
    requires
        0 <= at < count <= selected.len(),
        faces[(selected[at] & 0x3fff) as int].face.material == texture,
    ensures
        shows_texture(faces, selected, texture, count),
        !shows_texture(faces, selected, texture, 0),
{
    assert(selected[at] & FRAME_FACE_INDEX_MASK == selected[at] & 0x3fff);
}

/// A map begins with every liquid's first tile on screen and nothing uploaded.
pub proof fn maps_begin_with_their_first_tiles(liquid: LiquidTexture, at: int)
    requires
        0 <= at < 4,
    ensures
        fresh_tiles().len() == 4,
        active_tile(liquid, fresh_tiles()[at]) == liquid.primary,
        !fresh_tiles()[at].uploaded,
{
}

} // verus!
