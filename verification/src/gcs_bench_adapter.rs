//! The cloud-storage protocol adapter's configuration.
//!
//! Plain data naming a project, a bucket and the objects to fetch; the
//! storage exchange itself is outside this library.

use vstd::prelude::*;

verus! {

/// What a cloud-storage benchmark reads.
pub struct GcsBenchAdapter {
    /// The cloud project billed for the reads.
    pub gcp_project: String,
    /// The bucket read from.
    pub bucket: String,
    /// The objects to fetch; one is chosen per request at random.
    pub objects: Vec<String>,
}

} // verus!
