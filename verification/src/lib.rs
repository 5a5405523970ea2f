//! gitwatch: monitor a directory of git repositories and auto-sync them.

pub mod cli;
pub mod cli_laws;
pub mod git;
pub mod icons;
pub mod inspect;
pub mod order;
pub mod pool;
pub mod porcelain;
pub mod porcelain_laws;
pub mod rofi;
pub mod scan;
pub mod status;
pub mod surroundings;
pub mod sync;
pub mod sync_laws;
pub mod sync_steps;
pub mod text;
pub mod text_laws;
pub mod waybar;
pub mod waybar_laws;
