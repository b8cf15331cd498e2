//! Verified core of a command-line manager for Minecraft server mods.

pub mod error;
pub mod text;
pub mod decimal;
pub mod strmap;
pub mod config;
pub mod structs;
pub mod mcmm;
pub mod trusted;
pub mod cli;
pub mod request;
pub mod tool;
