//! A verified engine core for a classic tile-based role-playing game: game
//! data and saves, input, movement, menus, screen effects and the JSON
//! observation that automation clients read.

pub mod agent_battle;
pub mod agent_map;
pub mod agent_party;
pub mod agent_state;
pub mod art;
pub mod battle;
pub mod casts;
pub mod clock;
pub mod cues;
pub mod data;
pub mod display;
pub mod draw;
pub mod effects;
pub mod engine;
pub mod events;
pub mod gamedata;
pub mod geometry;
pub mod global;
pub mod hqx;
pub mod input;
pub mod inventory;
pub mod itemmenu;
pub mod json;
pub mod keys;
pub mod launch;
pub mod magicmenu;
pub mod map;
pub mod palette;
pub mod party;
pub mod play;
pub mod playtime;
pub mod random;
pub mod reach;
pub mod records;
pub mod res;
pub mod rgba;
pub mod roles;
pub mod save;
pub mod scene;
pub mod script;
pub mod search;
pub mod sound;
pub mod splash;
pub mod sprites;
pub mod surface;
pub mod text;
pub mod transitions;
pub mod ui;
pub mod update;
pub mod upscale;
pub mod walk;
pub mod wave;
pub mod wordio;
pub mod zones;
