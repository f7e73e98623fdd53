//! Celestial-body records and the fixed regions of the solar system.
//!
//! The store does not support enumerations, so region and subregion are
//! enforced here rather than in the database.

use vstd::prelude::*;

verus! {

/// The broad regions of the solar system.
#[derive(Clone, Copy, Debug, PartialEq, Eq)]
pub enum CelestialRegion {
    InnerSolarSystem,
    OuterSolarSystem,
    TransNeptunianRegion,
    FarthestRegions,
}

/// The finer subregions of the solar system.
#[derive(Clone, Copy, Debug, PartialEq, Eq)]
pub enum CelestialSubregion {
    InnerPlanets,
    AsteroidBelt,
    OuterPlanets,
    Centaurs,
    KuiperBelt,
    ScatteredDisc,
    DetachedObjects,
}

/// Sent to the data layer to create a body.
#[derive(Clone, Debug)]
pub struct CelestialBodyCreate {
    pub name: String,
}

/// Sent to the data layer to rename a body.
#[derive(Clone, Debug)]
pub struct CelestialBodyUpdate {
    pub name: Option<String>,
}

} // verus!
