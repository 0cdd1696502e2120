//! Season forecaster for a twelve-team league: a best-of-series scoring
//! engine, a fixed-point paired-context rating model, and a seeded Monte
//! Carlo driver that replays the season and tabulates placements.

pub mod team;
pub mod schedule;
pub mod scoring;
pub mod rating;
pub mod results;
pub mod rng;
pub mod sim;
