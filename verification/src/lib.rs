//! The decision logic of a Minecraft launcher engine: version arithmetic,
//! launch-command assembly, wire framing, manifest reading and the small
//! validation rules every flow leans on, each stated by contract.

pub mod text;
pub mod secrets;
pub mod json;
pub mod ping;
pub mod neoforge;
pub mod profile;
pub mod launch;
pub mod log4j;
pub mod buildtools;
pub mod provider;
pub mod content;
pub mod servers;
pub mod retry;
pub mod store;
pub mod task;
pub mod order;
pub mod java;
pub mod stores;
pub mod materialize;
pub mod meta;
pub mod fabric;
pub mod vanilla;
pub mod paper;
pub mod spigot;
pub mod processors;
pub mod rcon;
pub mod installed;
pub mod skins;
pub mod home;
pub mod transfer;
pub mod net;
pub mod backup;
pub mod world;
pub mod registry;
pub mod sync;
pub mod prepare;
pub mod screenshots;
pub mod batch;
pub mod installer;
