//! The generated world: terrain chunks, the route across them and the track
//! laid along the route.

pub mod chunk_table;
pub mod mesh;
pub mod route_gen;
pub mod terrain;
pub mod train_tracks;
pub mod utils;
