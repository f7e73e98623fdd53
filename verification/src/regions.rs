//! Region and subregion values as the HTTP layer exchanges them: the full
//! row, and the slimmer "new" shapes a client sends to create one.

use vstd::prelude::*;

verus! {

/// A region of the solar system as served to clients.
#[derive(Clone, Debug)]
pub struct Region {
    pub region_id: i64,
    pub region_name: String,
    pub region_description: Option<String>,
    pub created_at: i64,
    pub updated_at: Option<i64>,
}

/// What a client sends to create a region.
#[derive(Clone, Debug)]
pub struct NewRegion {
    pub region_name: String,
    pub region_description: Option<String>,
}

/// A subregion of the solar system as served to clients.
#[derive(Clone, Debug)]
pub struct Subregion {
    pub subregion_id: i64,
    pub subregion_name: String,
    pub subregion_description: Option<String>,
    pub created_at: i64,
    pub updated_at: Option<i64>,
}

/// What a client sends to create a subregion.
#[derive(Clone, Debug)]
pub struct NewSubregion {
    pub subregion_name: String,
    pub subregion_description: Option<String>,
}

} // verus!
