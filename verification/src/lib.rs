//! Game rules, hexagonal map geometry and network framing of Border Wars,
//! a two-player turn-based strategy game played over TCP.

pub mod model;
pub mod hexgrid;
pub mod board;
pub mod combat;
pub mod server;
mod random;
pub mod map;
pub mod wire;
pub mod packet;
pub mod client;
pub mod text;
