//! The logic of Keet, a terminal audio player: what the player decides, what it
//! keeps, and what every line of its screens holds.
#![allow(unused_imports)]

pub mod ansi;
pub mod audio;
pub mod banner;
pub mod collection_laws;
pub mod columns;
pub mod config;
pub mod cover;
pub mod cover_laws;
pub mod decode;
pub mod eq_ui;
pub mod equalizer;
pub mod frame;
pub mod input;
pub mod input_laws;
pub mod json;
pub mod launch;
pub mod layout_laws;
pub mod library;
pub mod library_laws;
pub mod list_laws;
pub mod list_view;
pub mod lyrics;
pub mod lyrics_laws;
pub mod media_keys;
pub mod metadata;
pub mod order;
pub mod path;
pub mod playback_laws;
pub mod playlist;
pub mod producer;
pub mod queue;
pub mod queue_laws;
pub mod resume;
pub mod ring;
pub mod screen_laws;
pub mod session;
pub mod session_laws;
pub mod sound_laws;
pub mod state;
pub mod state_laws;
pub mod text;
pub mod text_laws;
pub mod theme;
pub mod tree_laws;
pub mod tree_view;
pub mod ui;
pub mod ui_hifi;
pub mod ui_minimal;
pub mod ui_state;
