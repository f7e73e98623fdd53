//! Catalog rows for the named regions of the solar system, in the shape
//! the row store returns them: integer keys, free-text names and
//! descriptions, and creation/update stamps.

use vstd::prelude::*;

verus! {

/// A region of the solar system, e.g. the inner solar system.
#[derive(Clone, Debug)]
pub struct CelestialRegion {
    /// Primary key, generated by the store.
    pub region_id: i64,
    pub region_name: String,
    pub region_description: Option<String>,
    /// When the row was first created, as a UNIX timestamp.
    pub created_at: u32,
    /// When the row was last updated, as a UNIX timestamp.
    pub updated_at: Option<u32>,
}

/// A subregion of the solar system, e.g. the asteroid belt.
#[derive(Clone, Debug)]
pub struct CelestialSubregion {
    /// Primary key, generated by the store.
    pub subregion_id: i64,
    pub subregion_name: String,
    pub subregion_description: Option<String>,
    /// When the row was first created, as a UNIX timestamp.
    pub created_at: u32,
    /// When the row was last updated, as a UNIX timestamp.
    pub updated_at: Option<u32>,
}

} // verus!
