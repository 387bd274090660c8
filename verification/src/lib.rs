//! The lifecycle of a deterministic city-traffic simulation, verified.
//!
//! A run is set up from a load target in one of three ways (`load`): it
//! goes on from a savestate (`savestate`), it starts fresh from the travel
//! demand of a scenario (`scenario`), or it starts empty on a bare map. The
//! map (`road_map`, with its mathematical model in `network`) changes only
//! by edits that are applied whole or not at all (`edits`), and its routing
//! table is never read when it is older than the roads. Plans become agents
//! in their order under one seeded random stream (`sim`, `rng`), so that a
//! run is settled by its map, its scenario, its modifiers and its seed.
//!
//! Around this stand what the tools on top of the simulation decide, apart
//! from all drawing: ways through the network (`pathfind`), sketching a
//! route (`sketch`), the overview of the bike network (`bike_network`,
//! `explore`), tuning the offsets of a group of signals (`offsets`,
//! `members`), and the levels of the delivery game (`levels`). `paths` and
//! `text` name files and compare texts.

pub mod bike_network;
pub mod edits;
pub mod explore;
pub mod levels;
pub mod load;
pub mod members;
pub mod network;
pub mod offsets;
pub mod pathfind;
pub mod paths;
pub mod rng;
pub mod road_map;
pub mod savestate;
pub mod scenario;
pub mod sim;
pub mod sketch;
pub mod text;
