//! A particle simulation of bouncing, colliding discs on an integer lattice.
//!
//! Coordinates, sizes and velocities are signed fixed-point integers (one unit
//! is a millionth of the domain's half-height in the usual setup); durations
//! are microseconds. The simulation's rules are verified against contracts
//! that state what each step, and each frame, does.
pub mod balls;
pub mod color;
pub mod config;
pub mod frame;
pub mod geometry;
pub mod grid;
pub mod infection;
pub mod particle;
pub mod physics;
pub mod population;
pub mod random;
pub mod screensaver;
pub mod snow;
pub mod system;
