//! Breakbar: the verified core of a multi-launcher for Guild Wars 2.

pub mod account;
pub mod accounts;
pub mod cli;
pub mod companion;
pub mod companions;
pub mod config;
pub mod game;
pub mod launch;
pub mod launch_sequence;
pub mod launcher;
pub mod list;
pub mod locale;
pub mod menu;
pub mod overlay;
pub mod paths;
pub mod pe;
pub mod profile;
pub mod profile_link;
pub mod steam;
pub mod steam_setup;
pub mod text;
pub mod win;
pub mod writer;
