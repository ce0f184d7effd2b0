//! Entities of a frame: which are drawn, how, and what they count as.

use vstd::prelude::*;

use crate::visibility::{row_sees, VisibleSet, MAX_VISIBILITY_BYTES};
use crate::world_pass::{packet_capacity, with_submitted, RenderStats, Submitted};

verus! {

/// Entities that a frame may draw.
pub const MAX_RENDER_ENTITIES: usize = 384;

/// Triangles that the view model may have.
pub const VIEW_MODEL_PACKET_CAPACITY: usize = 384;

/// What culling reads of one entity.
#[derive(Copy, Clone, Debug, PartialEq, Eq, Structural)]
pub struct EntityCull {
    pub visible: bool,
    pub projectile: bool,
    pub leaf_index: usize,
    /// Its box lies outside the view frustum.
    pub outside: bool,
}

/// Where culling stands between two entities.
pub struct EntityRun {
    pub picked: Seq<u16>,
    pub stats: RenderStats,
    /// One more entity was in view than can be drawn.
    pub full: bool,
}

/// Whether the visible set shows an entity's leaf.
pub open spec fn leaf_shown(set: VisibleSet, leaf_index: usize) -> bool {
    0 < leaf_index <= set.visible_leaf_count && row_sees(set.visibility@, leaf_index - 1)
}

/// One more projectile, if it is one.
pub open spec fn plus_if(count: u16, condition: bool) -> u16 {
    if condition {
        count.saturating_add(1)
    } else {
        count
    }
}

/// Culling after the first `count` entities.
pub open spec fn entity_run(set: VisibleSet, entities: Seq<EntityCull>, stats: RenderStats, count: nat) -> EntityRun
    decreases count,
{
    if count == 0 {
        EntityRun { picked: Seq::empty(), stats, full: false }
    } else {
        let before = entity_run(set, entities, stats, (count - 1) as nat);
        let entity = entities[count - 1];
        if before.full || !entity.visible {
            before
        } else {
            let noticed = RenderStats {
                projectile_entities: plus_if(before.stats.projectile_entities, entity.projectile),
                ..before.stats
            };
            if !leaf_shown(set, entity.leaf_index) {
                EntityRun { stats: noticed, ..before }
            } else {
                let seen = RenderStats {
                    pvs_projectile_entities: plus_if(
                        noticed.pvs_projectile_entities,
                        entity.projectile,
                    ),
                    ..noticed
                };
                if entity.outside {
                    EntityRun { stats: seen, ..before }
                } else if before.picked.len() == MAX_RENDER_ENTITIES {
                    EntityRun {
                        stats: RenderStats { packet_overflow_avoided: true, ..seen },
                        full: true,
                        ..before
                    }
                } else {
                    EntityRun {
                        picked: before.picked.push((count - 1) as u16),
                        stats: RenderStats {
                            visible_projectile_entities: plus_if(
                                seen.visible_projectile_entities,
                                entity.projectile,
                            ),
                            ..seen
                        },
                        full: false,
                    }
                }
            }
        }
    }
}

proof fn full_run_stays(set: VisibleSet, entities: Seq<EntityCull>, stats: RenderStats, done: nat, count: nat)
    requires
        done <= count,
        done == count || entity_run(set, entities, stats, done).full,
    ensures
        entity_run(set, entities, stats, count) == entity_run(set, entities, stats, done),
    decreases count,
{
    if done < count {
        full_run_stays(set, entities, stats, done, (count - 1) as nat);
    }
}

/// Pick the entities to draw: visible, in a leaf that can be seen, and in
/// view, in order, up to the capacity.
pub fn cull_entities(set: &VisibleSet, entities: &Vec<EntityCull>, stats: &mut RenderStats) -> (picked: Vec<u16>)
    requires
        set.visibility@.len() == MAX_VISIBILITY_BYTES,
        set.visible_leaf_count <= 8 * MAX_VISIBILITY_BYTES,
        entities@.len() <= 0xffff,
    ensures
        picked@ == entity_run(*set, entities@, *old(stats), entities@.len()).picked,
        *final(stats) == entity_run(*set, entities@, *old(stats), entities@.len()).stats,
        picked@.len() <= MAX_RENDER_ENTITIES,
{
    let mut picked: Vec<u16> = Vec::new();
    let mut full: bool = false;
    let mut index: usize = 0;
    assert(picked@ =~= Seq::empty());
    while index < entities.len() && !full
        invariant
            set.visibility@.len() == MAX_VISIBILITY_BYTES,
            set.visible_leaf_count <= 8 * MAX_VISIBILITY_BYTES,
            index <= entities@.len() <= 0xffff,
            picked@.len() <= MAX_RENDER_ENTITIES,
            picked@ == entity_run(*set, entities@, *old(stats), index as nat).picked,
            *stats == entity_run(*set, entities@, *old(stats), index as nat).stats,
            full == entity_run(*set, entities@, *old(stats), index as nat).full,
        decreases entities@.len() - index,
    {
        let entity: EntityCull = entities[index];
        if entity.visible {
            if entity.projectile {
                stats.projectile_entities = stats.projectile_entities.saturating_add(1);
            }
            if set.point_visible(entity.leaf_index) {
                if entity.projectile {
                    stats.pvs_projectile_entities = stats.pvs_projectile_entities.saturating_add(1);
                }
                if !entity.outside {
                    if picked.len() == MAX_RENDER_ENTITIES {
                        stats.packet_overflow_avoided = true;
                        full = true;
                    } else {
                        picked.push(index as u16);
                        if entity.projectile {
                            stats.visible_projectile_entities =
                            stats.visible_projectile_entities.saturating_add(1);
                        }
                    }
                }
            }
        }
        index += 1;
    }
    proof {
        full_run_stays(*set, entities@, *old(stats), index as nat, entities@.len());
    }
    picked
}

/// Entities are picked in order, and only those that can be seen.
pub proof fn picked_entities_are_seen(set: VisibleSet, entities: Seq<EntityCull>, stats: RenderStats, count: nat)
    requires
        count <= entities.len() <= 0xffff,
    ensures
        forall|k: int|
            #![trigger entity_run(set, entities, stats, count).picked[k]]
            0 <= k < entity_run(set, entities, stats, count).picked.len() ==> {
                let index = entity_run(set, entities, stats, count).picked[k];
                &&& index < count
                &&& entities[index as int].visible
                &&& leaf_shown(set, entities[index as int].leaf_index)
                &&& !entities[index as int].outside
            },
    decreases count,
{
    if count > 0 {
        picked_entities_are_seen(set, entities, stats, (count - 1) as nat);
        let before = entity_run(set, entities, stats, (count - 1) as nat).picked;
        let here = entity_run(set, entities, stats, count).picked;
        assert forall|k: int| #![trigger here[k]] 0 <= k < here.len() implies {
            let index = here[k];
            &&& index < count
            &&& entities[index as int].visible
            &&& leaf_shown(set, entities[index as int].leaf_index)
            &&& !entities[index as int].outside
        } by {
            if k < before.len() {
                assert(here[k] == before[k]);
            }
        }
    }
}

/// What an entity is drawn from.
#[derive(Copy, Clone, Debug, PartialEq, Eq, Structural)]
pub enum EntityModel {
    /// A part of the map.
    Brush,
    /// A model that is not resident.
    Missing,
    Sprite,
    Alias { triangles: u16, frames: u16, skins: u16, rotates: bool },
}

/// How an entity is drawn.
#[derive(Copy, Clone, Debug, PartialEq, Eq, Structural)]
pub enum EntityStep {
    Skip,
    Brush,
    Sprite,
    Alias { frame: u16, skin: u16, yaw: i16 },
    /// The arena might be full: no more entities.
    Stop,
}

/// A frame or skin index brought down to the last one there is.
pub open spec fn last_of(wanted: int, count: int) -> int {
    if wanted < count - 1 {
        wanted
    } else {
        count - 1
    }
}

/// Decide how an entity is drawn. Models that spin by themselves share one
/// yaw; a triangle takes `packet_words` words.
pub fn entity_step(
    model: EntityModel,
    frame: u16,
    skin: u16,
    yaw: i16,
    rotating_yaw: i16,
    next: usize,
    end: usize,
    packet_words: usize,
) -> (step: EntityStep)
    requires
        0xffff * packet_words <= usize::MAX,
        model matches EntityModel::Alias { frames, skins, .. } ==> frames > 0 && skins > 0,
    ensures
        step == match model {
            EntityModel::Brush => EntityStep::Brush,
            EntityModel::Missing => EntityStep::Skip,
            EntityModel::Sprite => EntityStep::Sprite,
            EntityModel::Alias { triangles, frames, skins, rotates } => if next + triangles
                * packet_words > end {
                EntityStep::Stop
            } else {
                EntityStep::Alias {
                    frame: last_of(frame as int, frames as int) as u16,
                    skin: last_of(skin as int, skins as int) as u16,
                    yaw: if rotates { rotating_yaw } else { yaw },
                }
            },
        },
{
    match model {
        EntityModel::Brush => EntityStep::Brush,
        EntityModel::Missing => EntityStep::Skip,
        EntityModel::Sprite => EntityStep::Sprite,
        EntityModel::Alias { triangles, frames, skins, rotates } => {
            assert(0 <= triangles * packet_words <= 0xffff * packet_words) by (nonlinear_arith)
                requires
                    0 <= triangles <= 0xffff,
                    0 <= packet_words,
            ;
            if !packet_capacity(next, end, triangles as usize * packet_words) {
                return EntityStep::Stop;
            }
            EntityStep::Alias {
                frame: if frame < frames - 1 {
                    frame
                } else {
                    frames - 1
                },
                skin: if skin < skins - 1 {
                    skin
                } else {
                    skins - 1
                },
                yaw: if rotates {
                    rotating_yaw
                } else {
                    yaw
                },
            }
        },
    }
}

/// Projectiles that are counted by kind.
#[derive(Copy, Clone, Debug, PartialEq, Eq, Structural)]
pub enum Projectile {
    /// No projectile.
    Not,
    Nail,
    Grenade,
    Rocket,
    Other,
}

/// Counters after a model was drawn.
pub open spec fn with_alias(stats: RenderStats, projectile: Projectile, submitted: Submitted) -> RenderStats {
    let drawn = with_submitted(stats, submitted);
    RenderStats {
        visible_entities: stats.visible_entities.saturating_add(1),
        alias_packets: stats.alias_packets.wrapping_add(submitted.packets),
        projectile_packets: if projectile is Not {
            stats.projectile_packets
        } else {
            stats.projectile_packets.wrapping_add(submitted.packets)
        },
        nail_projectile_packets: if projectile is Nail {
            stats.nail_projectile_packets.wrapping_add(submitted.packets)
        } else {
            stats.nail_projectile_packets
        },
        grenade_projectile_packets: if projectile is Grenade {
            stats.grenade_projectile_packets.wrapping_add(submitted.packets)
        } else {
            stats.grenade_projectile_packets
        },
        rocket_projectile_packets: if projectile is Rocket {
            stats.rocket_projectile_packets.wrapping_add(submitted.packets)
        } else {
            stats.rocket_projectile_packets
        },
        ..drawn
    }
}

/// A model has been drawn.
pub fn count_alias(stats: &mut RenderStats, projectile: Projectile, submitted: Submitted)
    ensures
        *final(stats) == with_alias(*old(stats), projectile, submitted),
{
    stats.visible_entities = stats.visible_entities.saturating_add(1);
    stats.alias_packets = stats.alias_packets.wrapping_add(submitted.packets);
    if projectile != Projectile::Not {
        stats.projectile_packets = stats.projectile_packets.wrapping_add(submitted.packets);
    }
    match projectile {
        Projectile::Nail => {
            stats.nail_projectile_packets = stats.nail_projectile_packets.wrapping_add(
                submitted.packets,
            );
        },
        Projectile::Grenade => {
            stats.grenade_projectile_packets = stats.grenade_projectile_packets.wrapping_add(
                submitted.packets,
            );
        },
        Projectile::Rocket => {
            stats.rocket_projectile_packets = stats.rocket_projectile_packets.wrapping_add(
                submitted.packets,
            );
        },
        _ => {},
    }
    stats.packets = stats.packets.wrapping_add(submitted.packets);
    stats.hardware_triangles = stats.hardware_triangles.wrapping_add(submitted.hardware_triangles);
}

/// A sprite entity has been taken up, and drawn or found hidden.
pub fn count_sprite(stats: &mut RenderStats, drawn: bool)
    ensures
        *final(stats) == if drawn {
            RenderStats {
                visible_entities: old(stats).visible_entities.saturating_add(1),
                sprite_packets: old(stats).sprite_packets.saturating_add(1),
                packets: old(stats).packets.saturating_add(1),
                hardware_triangles: old(stats).hardware_triangles.saturating_add(2),
                ..*old(stats)
            }
        } else {
            RenderStats {
                visible_entities: old(stats).visible_entities.saturating_add(1),
                ..*old(stats)
            }
        },
{
    stats.visible_entities = stats.visible_entities.saturating_add(1);
    if drawn {
        stats.sprite_packets = stats.sprite_packets.saturating_add(1);
        stats.packets = stats.packets.saturating_add(1);
        stats.hardware_triangles = stats.hardware_triangles.saturating_add(2);
    }
}

/// The frame of the view model to draw, or none when the model is missing, too
/// large, or might not fit.
pub fn view_model_frame(
    model: Option<(u16, u16)>,
    frame: u16,
    next: usize,
    end: usize,
    packet_words: usize,
    stats: &mut RenderStats,
) -> (shown: Option<u16>)
    requires
        0xffff * packet_words <= usize::MAX,
        model matches Some((triangles, frames)) ==> frames > 0,
    ensures
        shown == match model {
            Some((triangles, frames)) => if triangles <= VIEW_MODEL_PACKET_CAPACITY && next
                + triangles * packet_words <= end {
                Some(last_of(frame as int, frames as int) as u16)
            } else {
                None
            },
            None => None,
        },
        *final(stats) == (RenderStats {
            packet_overflow_avoided: old(stats).packet_overflow_avoided || shown is None,
            ..*old(stats)
        }),
{
    if let Some((triangles, frames)) = model {
        assert(0 <= triangles * packet_words <= 0xffff * packet_words) by (nonlinear_arith)
            requires
                0 <= triangles <= 0xffff,
                0 <= packet_words,
        ;
        if triangles as usize <= VIEW_MODEL_PACKET_CAPACITY && packet_capacity(
            next,
            end,
            triangles as usize * packet_words,
        ) {
            return Some(if frame < frames - 1 { frame } else { frames - 1 });
        }
    }
    stats.packet_overflow_avoided = true;
    None
}

/// The view model has been drawn.
pub fn count_view_model(stats: &mut RenderStats, submitted: Submitted)
    ensures
        *final(stats) == (RenderStats {
            alias_packets: old(stats).alias_packets.wrapping_add(submitted.packets),
            view_model_packets: submitted.packets,
            ..with_submitted(*old(stats), submitted)
        }),
{
    stats.alias_packets = stats.alias_packets.wrapping_add(submitted.packets);
    stats.view_model_packets = submitted.packets;
    stats.packets = stats.packets.wrapping_add(submitted.packets);
    stats.hardware_triangles = stats.hardware_triangles.wrapping_add(submitted.hardware_triangles);
}

/// Until the list is full, the entities to draw are just those that are shown,
/// stand in a leaf in view and lie within the frustum, in their order.
pub proof fn entities_in_view_are_picked(
    set: VisibleSet,
    entities: Seq<EntityCull>,
    stats: RenderStats,
    count: nat,
)
    requires
        count <= entities.len(),
        count <= 65_536,
        !entity_run(set, entities, stats, count).full,
    ensures
        ({
            let picked = entity_run(set, entities, stats, count).picked;
            &&& forall|k: int|
                #![trigger picked[k]]
                0 <= k < picked.len() ==> {
                    let entity = entities[picked[k] as int];
                    &&& picked[k] < count
                    &&& entity.visible && !entity.outside
                    &&& 1 <= entity.leaf_index <= set.visible_leaf_count
                    &&& row_sees(set.visibility@, entity.leaf_index - 1)
                }
            &&& forall|j: int, k: int|
                #![trigger picked[j], picked[k]]
                0 <= j < k < picked.len() ==> picked[j] < picked[k]
            &&& forall|i: int|
                #![trigger entities[i]]
                0 <= i < count && entities[i].visible && !entities[i].outside && 1
                    <= entities[i].leaf_index <= set.visible_leaf_count && row_sees(
                    set.visibility@,
                    entities[i].leaf_index - 1,
                ) ==> picked.contains(i as u16)
        }),
    decreases count,
{
    if count > 0 {
        let before = entity_run(set, entities, stats, (count - 1) as nat);
        assert(!before.full);
        entities_in_view_are_picked(set, entities, stats, (count - 1) as nat);
        let picked = entity_run(set, entities, stats, count).picked;
        assert forall|i: int|
            #![trigger entities[i]]
            0 <= i < count && entities[i].visible && !entities[i].outside && 1
                <= entities[i].leaf_index <= set.visible_leaf_count && row_sees(
                set.visibility@,
                entities[i].leaf_index - 1,
            ) implies picked.contains(i as u16) by {
            if i < count - 1 {
                let k = choose|k: int|
                    0 <= k < before.picked.len() && before.picked[k] == i as u16;
                assert(picked[k] == before.picked[k]);
            } else {
                assert(picked[before.picked.len() as int] == i as u16);
            }
        }
    }
}

/// Projectiles are counted at each of three stages: every one that is shown, of
/// these those in a leaf in view, and of these those that are drawn. Nothing else
/// is counted, and no stage counts more than the one before it.
pub proof fn projectiles_are_counted_by_stage(
    set: VisibleSet,
    entities: Seq<EntityCull>,
    stats: RenderStats,
    count: nat,
)
    requires
        count < entities.len(),
    ensures
        ({
            let before = entity_run(set, entities, stats, count);
            let after = entity_run(set, entities, stats, count + 1);
            let entity = entities[count as int];
            let shown = entity.projectile && entity.visible && !before.full;
            let seen = shown && leaf_shown(set, entity.leaf_index);
            let drawn = seen && !entity.outside && before.picked.len() < 384;
            &&& after.stats.projectile_entities == (if shown
                && before.stats.projectile_entities < u16::MAX {
                before.stats.projectile_entities + 1
            } else {
                before.stats.projectile_entities as int
            })
            &&& after.stats.pvs_projectile_entities == (if seen
                && before.stats.pvs_projectile_entities < u16::MAX {
                before.stats.pvs_projectile_entities + 1
            } else {
                before.stats.pvs_projectile_entities as int
            })
            &&& after.stats.visible_projectile_entities == (if drawn
                && before.stats.visible_projectile_entities < u16::MAX {
                before.stats.visible_projectile_entities + 1
            } else {
                before.stats.visible_projectile_entities as int
            })
        }),
{
    picked_never_exceed_the_list(set, entities, stats, count);
}

proof fn picked_never_exceed_the_list(
    set: VisibleSet,
    entities: Seq<EntityCull>,
    stats: RenderStats,
    count: nat,
)
    ensures
        entity_run(set, entities, stats, count).picked.len() <= 384,
    decreases count,
{
    if count > 0 {
        picked_never_exceed_the_list(set, entities, stats, (count - 1) as nat);
    }
}

/// The packets of a model are counted with the models, with the projectiles where
/// it is one, and with its own sort of projectile and no other.
pub proof fn packets_are_counted_with_their_sort(
    stats: RenderStats,
    projectile: Projectile,
    submitted: Submitted,
)
    requires
        stats.alias_packets + submitted.packets <= 0xffff,
        stats.projectile_packets + submitted.packets <= 0xffff,
        stats.nail_projectile_packets + submitted.packets <= 0xffff,
        stats.grenade_projectile_packets + submitted.packets <= 0xffff,
        stats.rocket_projectile_packets + submitted.packets <= 0xffff,
        stats.visible_entities < 0xffff,
    ensures
        ({
            let after = with_alias(stats, projectile, submitted);
            let n = submitted.packets as int;
            &&& after.visible_entities == stats.visible_entities + 1
            &&& after.alias_packets == stats.alias_packets + n
            &&& after.projectile_packets - stats.projectile_packets == (if projectile is Not {
                0
            } else {
                n
            })
            &&& after.nail_projectile_packets - stats.nail_projectile_packets == (
            if projectile is Nail {
                n
            } else {
                0
            })
            &&& after.grenade_projectile_packets - stats.grenade_projectile_packets == (
            if projectile is Grenade {
                n
            } else {
                0
            })
            &&& after.rocket_projectile_packets - stats.rocket_projectile_packets == (
            if projectile is Rocket {
                n
            } else {
                0
            })
        }),
{
}

} // verus!
