//! Terrain streaming, route and track layout, and train dynamics for a
//! procedurally generated railway, in fixed-point arithmetic.

pub mod lines;
pub mod noise;
pub mod rolling_stock;
pub mod trig;
pub mod units;
pub mod world;
