//! The resolved entity per hop: a geographic location record.
//!
//! Coordinates are carried as microdegrees (degrees scaled by one million)
//! in signed integers, latitude within [-90, 90] degrees and longitude
//! within [-180, 180] degrees. A record exists only for a non-empty address
//! with coordinates in range: the validating constructor refuses anything
//! else, so no partial or zero-valued record ever reaches the renderer.
//! The descriptive fields are each independently present or absent; absence
//! carries no error meaning.

use vstd::prelude::*;

verus! {

/// Degrees scaled by one million.
pub const MICRO_PER_DEGREE: i64 = 1_000_000;

/// Largest legal latitude, in microdegrees (90 degrees).
pub const LATITUDE_LIMIT_MICRO: i64 = 90_000_000;

/// Largest legal longitude, in microdegrees (180 degrees).
pub const LONGITUDE_LIMIT_MICRO: i64 = 180_000_000;

/// One hop's resolved location: its textual address, its coordinates in
/// microdegrees, and optional descriptive metadata.
#[derive(Clone, Debug, PartialEq, Eq)]
pub struct LocationRecord {
    pub address: String,
    pub latitude_micro: i64,
    pub longitude_micro: i64,
    pub organization: Option<String>,
    pub region: Option<String>,
    pub subregion: Option<String>,
    pub city: Option<String>,
    pub country: Option<String>,
}

impl LocationRecord {
    /// A well-formed record: non-empty address, coordinates in range.
    pub open spec fn wf(self) -> bool {
        &&& self.address@.len() > 0
        &&& -LATITUDE_LIMIT_MICRO <= self.latitude_micro <= LATITUDE_LIMIT_MICRO
        &&& -LONGITUDE_LIMIT_MICRO <= self.longitude_micro <= LONGITUDE_LIMIT_MICRO
    }
}

/// Validates the fields a lookup handed back and builds a record from
/// them. Succeeds exactly when the address is non-empty and both
/// coordinates lie in range; the record then carries the fields unchanged.
pub fn make_record(
    address: String,
    latitude_micro: i64,
    longitude_micro: i64,
    organization: Option<String>,
    region: Option<String>,
    subregion: Option<String>,
    city: Option<String>,
    country: Option<String>,
) -> (r: Option<LocationRecord>)
    ensures
        r is Some <==> (address@.len() > 0 && -LATITUDE_LIMIT_MICRO <= latitude_micro
            <= LATITUDE_LIMIT_MICRO && -LONGITUDE_LIMIT_MICRO <= longitude_micro
            <= LONGITUDE_LIMIT_MICRO),
        r is Some ==> r->0 == (LocationRecord {
            address,
            latitude_micro,
            longitude_micro,
            organization,
            region,
            subregion,
            city,
            country,
        }),
        r is Some ==> r->0.wf(),
{
    if address.as_str().is_empty() {
        return None;
    }
    if latitude_micro < -LATITUDE_LIMIT_MICRO || latitude_micro > LATITUDE_LIMIT_MICRO {
        return None;
    }
    if longitude_micro < -LONGITUDE_LIMIT_MICRO || longitude_micro > LONGITUDE_LIMIT_MICRO {
        return None;
    }
    Some(
        LocationRecord {
            address,
            latitude_micro,
            longitude_micro,
            organization,
            region,
            subregion,
            city,
            country,
        },
    )
}

} // verus!
