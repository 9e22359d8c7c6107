//! A grid-based snake simulation engine: toroidal grid arithmetic, the snake's
//! step and growth rules, heading validation, food placement, and a fixed-step
//! clock that drives the tick pipeline.

pub mod grid;
pub mod heading;
pub mod snake;
pub mod food;
pub mod clock;
pub mod game;
