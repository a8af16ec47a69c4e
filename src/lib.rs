//! Resolve skill references, aggregate skill markets and plan archive installs.

pub mod github;
pub mod installer;
pub mod market;
pub mod models;
pub mod segments;
pub mod skill_finder;
pub mod text;
