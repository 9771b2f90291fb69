//! Verified core of fastpatch: parsing of zapret strategy files and presets,
//! probe scoring, hosts-file merging and the decisions around engine sessions.

pub mod app_prefs;
pub mod commands;
pub mod launch;
pub mod order;
pub mod paths;
pub mod text;
pub mod win_autostart;
pub mod win_process;
