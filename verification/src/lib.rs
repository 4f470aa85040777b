//! Smart Rockets: a genetic-algorithm simulation in which a population of
//! rockets, each steered by a fixed-length genome of per-tick turn commands,
//! evolves toward a target while avoiding rectangular obstacles.
//!
//! All geometry and fitness arithmetic is fixed-point: positions and
//! distances are in milli-pixels, angles in milli-degrees, and fitness in
//! parts per million.

pub mod clock;
pub mod dna;
pub mod geom;
pub mod rng;
pub mod rocket;
pub mod trig;
pub mod world;
