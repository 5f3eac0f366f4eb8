//! Decision logic of an on-demand starter for docker compose projects:
//! duration strings, container health classification, remote command
//! text and the bookkeeping of the projects that are being kept alive.

pub mod commands;
pub mod config;
pub mod container;
pub mod duration;
pub mod page;
pub mod sessions;
pub mod table;
pub mod text;
