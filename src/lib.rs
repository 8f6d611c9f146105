//! A deterministic tactical battle simulation: the verified core.
//!
//! The modules hold the simulation's integer and decision logic with their
//! contracts: the flat snapshot layout and its codes, the update cadence of
//! the level-of-detail tiers, the behavior and order rules of squads, the
//! terrain type layer, the spatial cell hash, and a section profiler.

pub mod layout;
pub mod profiler;
pub mod lod;
pub mod components;
pub mod behavior;
pub mod rules;
pub mod terrain;
pub mod spatial;
pub mod cover;
