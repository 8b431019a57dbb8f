//! The verified core of the Lumineria agent, which manages the Minecraft
//! servers of a stack run with podman: the messages exchanged with the desktop
//! client, the files of each server (`server.env`, `server.properties`,
//! `velocity.toml`, start scripts), server discovery and naming, packwiz packs,
//! plugin lists, the catalogue of published packs, the plans for publishing,
//! and the machines that create and update a server. The caller performs the
//! I/O that these functions decide on and hands back what came of it.
use vstd::prelude::*;

pub mod text;
pub mod env;
pub mod numbers;
pub mod protocol;
pub mod config;
pub mod discovery;
pub mod paths;
pub mod store;
pub mod rcon;
pub mod naming;
pub mod sort;
pub mod packwiz;
pub mod settings;
pub mod plugins;
pub mod engine;
pub mod lifecycle;
pub mod media;
pub mod publishing;
pub mod client;
pub mod tree;
pub mod podman;
pub mod deps;

verus! {

} // verus!
