//! Verified game logic of a Quake client for the original PlayStation.
//!
//! Everything here is a function of plain values: controller policy, movement
//! bookkeeping, streaming decisions, packet layout and frame selection. The
//! code that touches the hardware lives in the application around it.

pub mod bits;
pub mod button;
pub mod cell;
pub mod census;
pub mod clip;
pub mod effects;
pub mod effects_of_play;
pub mod entities;
pub mod episode;
pub mod episode1_regression;
pub mod fixed;
pub mod forward_chunk_reader;
pub mod frame;
pub mod hud;
pub mod input;
pub mod input_policy;
pub mod intro;
pub mod light;
pub mod liquid;
pub mod materialize;
pub mod menu;
pub mod monster_regression;
pub mod monsterjump_regression;
pub mod music;
pub mod packet_stream;
pub mod performance;
pub mod player;
pub mod present;
pub mod probe;
pub mod pusher;
pub mod quake;
pub mod regression;
pub mod render_section;
pub mod screen;
pub mod selection;
pub mod sky;
pub mod slab_model;
pub mod sound;
pub mod sprite;
pub mod storage;
pub mod subdivision;
pub mod topology;
pub mod visibility;
pub mod vram;
pub mod world;
pub mod world_pass;
