//! Host-side and guest-side logic for running microVMs.
pub mod backend;
pub mod command;
pub mod config;
pub mod deeds;
pub mod dm_thin;
pub mod emberd;
pub mod error;
pub mod host;
pub mod image;
pub mod kernel;
pub mod linux;
pub mod macos;
pub mod message_laws;
pub mod network;
pub mod path_laws;
pub mod paths;
pub mod plan;
pub mod runs;
pub mod state;
pub mod text;
pub mod text_laws;
pub mod zfs;
