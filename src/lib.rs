//! Visual matching and input sequencing for a recurring fingerprint minigame.

pub mod capture;
pub mod controller;
pub mod decode;
pub mod geometry;
pub mod matcher;
pub mod planner;
pub mod registry;
pub mod signature;
pub mod solver;
