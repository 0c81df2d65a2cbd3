//! A verified genetic search that evolves a population of byte strings
//! toward a target string by mutation, culling, and crossover.

pub mod chromosome;
pub mod crossover;
pub mod engine;
pub mod prng;
pub mod rate;
