//! A deformable spiderweb simulated as a mass-spring network.
//!
//! The web is a graph of point-mass particles joined by damped springs. A
//! navigating agent (the spider) walks along the edges and extends the graph
//! on demand, small creatures become entangled along the edges and feed their
//! mass back into the physics, and edges can be split at a point or destroyed
//! around a point.
//!
//! All geometry and all simulation state is kept in fixed-point arithmetic:
//! a scalar is an `i64` holding the value times [`fx::SCALE`]. Every public
//! operation carries a contract describing the exact result.

pub mod agent;
pub mod ensnare;
pub mod nav;
pub mod fx;
pub mod gen;
pub mod health;
pub mod insect;
pub mod obstacle;
pub mod physics;
pub mod progress;
pub mod region;
pub mod spring;
pub mod topology;
pub mod vec3;
pub mod web;
